//! Versions, version requirements, and the pair of version and target kind
//! that identifies one release of a package.

use crate::manifest::target::TargetKind;
use crate::text::{
    chars_of, concat3, decimal, decimal_spec, str_eq, string_of, text_before,
    text_order_is_irreflexive, text_order_is_total, text_order_is_transitive, text_precedes,
};
use vstd::prelude::*;
use vstd::string::*;

verus! {

/// Whether `text` is a version requirement in the syntax of the `semver`
/// crate, that is, whether `semver::VersionReq::parse` accepts it.
pub uninterp spec fn semver_req_parses(text: Seq<char>) -> bool;

/// Whether the requirement written as `text` admits the version with the
/// numbers `major.minor.patch`, the pre-release part `pre` and the build
/// part `build`, as `semver::VersionReq::matches` decides it. It is only
/// meant where `semver_req_parses(text)` holds; a version whose
/// pre-release or build part `semver` does not take is admitted by
/// nothing.
pub uninterp spec fn semver_req_admits(
    text: Seq<char>,
    major: u64,
    minor: u64,
    patch: u64,
    pre: Seq<char>,
    build: Seq<char>,
) -> bool;

/// Whether the pre-release part `a` comes before the pre-release part `b`
/// in the order of `semver::Prerelease`; false where `semver` does not
/// take one of the two.
pub uninterp spec fn semver_pre_before(a: Seq<char>, b: Seq<char>) -> bool;

/// Whether the build part `a` comes before the build part `b` in the
/// order of `semver::BuildMetadata`; false where `semver` does not take
/// one of the two.
pub uninterp spec fn semver_build_before(a: Seq<char>, b: Seq<char>) -> bool;

/// `semver::VersionReq::parse`: whether the text is accepted as a version
/// requirement.
#[verifier::external_body]
fn requirement_parses(text: &str) -> (ok: bool)
    ensures
        ok == semver_req_parses(text@),
{
    semver::VersionReq::parse(text).is_ok()
}

/// `semver::VersionReq::matches`, on the requirement that
/// `semver::VersionReq::parse` reads from `text` and the version with
/// the three numbers, the pre-release part that `semver::Prerelease::new`
/// reads and the build part that `semver::BuildMetadata::new` reads. A
/// text that is no requirement admits nothing, and a version with a part
/// that is refused is admitted by nothing.
#[verifier::external_body]
fn requirement_admits(text: &str, major: u64, minor: u64, patch: u64, pre: &str, build: &str) -> (ok:
    bool)
    ensures
        ok == (semver_req_parses(text@) && semver_req_admits(
            text@,
            major,
            minor,
            patch,
            pre@,
            build@,
        )),
{
    let parts = (semver::Prerelease::new(pre), semver::BuildMetadata::new(build));
    match (semver::VersionReq::parse(text), parts) {
        (Ok(req), (Ok(pre), Ok(build))) => {
            req.matches(&semver::Version { major, minor, patch, pre, build })
        },
        _ => false,
    }
}

/// The order (`<`) of `semver::Prerelease`, on the parts that
/// `semver::Prerelease::new` reads from the two texts.
#[verifier::external_body]
fn prerelease_before(a: &str, b: &str) -> (r: bool)
    ensures
        r == semver_pre_before(a@, b@),
{
    match (semver::Prerelease::new(a), semver::Prerelease::new(b)) {
        (Ok(a), Ok(b)) => a < b,
        _ => false,
    }
}

/// The order (`<`) of `semver::BuildMetadata`, on the parts that
/// `semver::BuildMetadata::new` reads from the two texts.
#[verifier::external_body]
fn build_before(a: &str, b: &str) -> (r: bool)
    ensures
        r == semver_build_before(a@, b@),
{
    match (semver::BuildMetadata::new(a), semver::BuildMetadata::new(b)) {
        (Ok(a), Ok(b)) => a < b,
        _ => false,
    }
}

/// A release version: three numbers, and the pre-release part and the
/// build part as they are written, each empty where the version has none.
#[derive(Debug, PartialEq, Eq, Hash)]
pub struct Version {
    /// Incremented for incompatible changes.
    pub major: u64,
    /// Incremented for compatible additions.
    pub minor: u64,
    /// Incremented for fixes.
    pub patch: u64,
    /// The pre-release part, without the `-` before it.
    pub pre: String,
    /// The build part, without the `+` before it.
    pub build: String,
}

/// What a version holds, with its texts as sequences.
pub ghost struct VersionView {
    pub major: u64,
    pub minor: u64,
    pub patch: u64,
    pub pre: Seq<char>,
    pub build: Seq<char>,
}

impl View for Version {
    type V = VersionView;

    open spec fn view(&self) -> VersionView {
        VersionView {
            major: self.major,
            minor: self.minor,
            patch: self.patch,
            pre: self.pre@,
            build: self.build@,
        }
    }
}

impl VersionView {
    /// Whether the three numbers of `self` are the same as those of
    /// `other`.
    pub open spec fn same_numbers(self, other: VersionView) -> bool {
        self.major == other.major && self.minor == other.minor && self.patch == other.patch
    }

    /// Whether the three numbers of `self` come before those of `other`,
    /// from the most significant.
    pub open spec fn numbers_before(self, other: VersionView) -> bool {
        self.major < other.major || (self.major == other.major && (self.minor < other.minor || (
        self.minor == other.minor && self.patch < other.patch)))
    }

    /// Whether `self` is an earlier version than `other`: by the three
    /// numbers; where those are the same, by the pre-release parts as
    /// `semver` orders them; and where those are the same too, by the
    /// build parts as `semver` orders them.
    pub open spec fn precedes_spec(self, other: VersionView) -> bool {
        self.numbers_before(other) || (self.same_numbers(other) && (semver_pre_before(
            self.pre,
            other.pre,
        ) || (self.pre == other.pre && semver_build_before(self.build, other.build))))
    }

    /// Whether `self` stands before `other` where versions are kept in
    /// order: by the three numbers, then by the text of the pre-release
    /// part, then by the text of the build part.
    pub open spec fn stands_before(self, other: VersionView) -> bool {
        self.numbers_before(other) || (self.same_numbers(other) && (text_before(
            self.pre,
            other.pre,
        ) || (self.pre == other.pre && text_before(self.build, other.build))))
    }

    /// The version as it is written: `major.minor.patch`, then `-` and
    /// the pre-release part, if there is one, then `+` and the build
    /// part, if there is one.
    pub open spec fn text_spec(self) -> Seq<char> {
        decimal_spec(self.major as nat) + "."@ + decimal_spec(self.minor as nat) + "."@
            + decimal_spec(self.patch as nat) + tail_spec(self)
    }
}

impl Version {
    /// Whether `self` is an earlier version than `other`.
    pub open spec fn precedes_spec(self, other: Version) -> bool {
        self@.precedes_spec(other@)
    }

    /// The version as it is written.
    pub open spec fn text_spec(self) -> Seq<char> {
        self@.text_spec()
    }

    /// The version `major.minor.patch`, with no pre-release part and no
    /// build part.
    pub fn new(major: u64, minor: u64, patch: u64) -> (r: Version)
        ensures
            r@ == (VersionView { major, minor, patch, pre: Seq::empty(), build: Seq::empty() }),
    {
        Version { major, minor, patch, pre: String::new(), build: String::new() }
    }

    /// The version `major.minor.patch` with the pre-release part `pre` and
    /// the build part `build`, each empty for none.
    pub fn with_parts(major: u64, minor: u64, patch: u64, pre: &str, build: &str) -> (r: Version)
        ensures
            r@ == (VersionView { major, minor, patch, pre: pre@, build: build@ }),
    {
        Version { major, minor, patch, pre: String::from_str(pre), build: String::from_str(build) }
    }

    /// A copy of the version.
    pub fn duplicate(&self) -> (r: Version)
        ensures
            r == *self,
    {
        Version {
            major: self.major,
            minor: self.minor,
            patch: self.patch,
            pre: self.pre.clone(),
            build: self.build.clone(),
        }
    }

    /// Whether the two are the same version.
    pub fn same_as(&self, other: &Version) -> (r: bool)
        ensures
            r == (self@ == other@),
    {
        self.major == other.major && self.minor == other.minor && self.patch == other.patch
            && self.pre == other.pre && self.build == other.build
    }

    /// Whether `self` is an earlier version than `other`.
    pub fn precedes(&self, other: &Version) -> (r: bool)
        ensures
            r == self@.precedes_spec(other@),
    {
        if self.major != other.major {
            self.major < other.major
        } else if self.minor != other.minor {
            self.minor < other.minor
        } else if self.patch != other.patch {
            self.patch < other.patch
        } else if prerelease_before(self.pre.as_str(), other.pre.as_str()) {
            true
        } else {
            self.pre == other.pre && build_before(self.build.as_str(), other.build.as_str())
        }
    }

    /// Whether `self` stands before `other` where versions are kept in
    /// order.
    pub fn stands_before(&self, other: &Version) -> (r: bool)
        ensures
            r == self@.stands_before(other@),
    {
        if self.major != other.major {
            self.major < other.major
        } else if self.minor != other.minor {
            self.minor < other.minor
        } else if self.patch != other.patch {
            self.patch < other.patch
        } else if text_precedes(self.pre.as_str(), other.pre.as_str()) {
            true
        } else {
            self.pre == other.pre && text_precedes(self.build.as_str(), other.build.as_str())
        }
    }

    /// The version as it is written.
    pub fn text(&self) -> (r: String)
        ensures
            r@ == self@.text_spec(),
    {
        let mut chars = decimal(self.major);
        let mut minor = decimal(self.minor);
        let mut patch = decimal(self.patch);
        let mut pre = chars_of(self.pre.as_str());
        let mut build = chars_of(self.build.as_str());
        proof {
            reveal_strlit(".");
            reveal_strlit("-");
            reveal_strlit("+");
            assert("."@ =~= seq!['.']);
            assert("-"@ =~= seq!['-']);
            assert("+"@ =~= seq!['+']);
        }
        chars.push('.');
        chars.append(&mut minor);
        chars.push('.');
        chars.append(&mut patch);
        if pre.len() > 0 {
            chars.push('-');
            chars.append(&mut pre);
        }
        if build.len() > 0 {
            chars.push('+');
            chars.append(&mut build);
        }
        assert(chars@ =~= self@.text_spec());
        string_of(&chars)
    }
}

/// A version with earlier numbers is the earlier version, whatever else
/// the two versions say.
pub proof fn earlier_numbers_precede(a: VersionView, b: VersionView)
    requires
        a.numbers_before(b),
    ensures
        a.precedes_spec(b),
        !b.precedes_spec(a),
{
}

/// An earlier version has no later numbers.
pub proof fn precedes_follows_numbers(a: VersionView, b: VersionView)
    requires
        a.precedes_spec(b),
    ensures
        a.numbers_before(b) || a.same_numbers(b),
{
}

/// Where versions are kept in order, none stands before itself.
pub proof fn standing_is_irreflexive(a: VersionView)
    ensures
        !a.stands_before(a),
{
    text_order_is_irreflexive(a.pre);
    text_order_is_irreflexive(a.build);
}

/// The order in which versions are kept is transitive.
pub proof fn standing_is_transitive(a: VersionView, b: VersionView, c: VersionView)
    requires
        a.stands_before(b),
        b.stands_before(c),
    ensures
        a.stands_before(c),
{
    if a.same_numbers(b) && b.same_numbers(c) {
        if text_before(a.pre, b.pre) && text_before(b.pre, c.pre) {
            text_order_is_transitive(a.pre, b.pre, c.pre);
        } else if a.pre == b.pre && b.pre == c.pre {
            text_order_is_transitive(a.build, b.build, c.build);
        }
    }
}

/// Of two different versions one stands before the other.
pub proof fn standing_is_total(a: VersionView, b: VersionView)
    ensures
        a == b || a.stands_before(b) || b.stands_before(a),
{
    text_order_is_total(a.pre, b.pre);
    text_order_is_total(a.build, b.build);
}

/// Whether the pre-release part holds no `+`, so that the build part can
/// be told from it in the written version. No pre-release part that
/// `semver` takes holds one.
pub open spec fn parts_are_apart(v: VersionView) -> bool {
    forall|i: int| 0 <= i < v.pre.len() ==> v.pre[i] != '+'
}

/// What follows the numbers in a written version.
pub open spec fn tail_spec(v: VersionView) -> Seq<char> {
    (if v.pre.len() > 0 {
        "-"@ + v.pre
    } else {
        Seq::empty()
    }) + (if v.build.len() > 0 {
        "+"@ + v.build
    } else {
        Seq::empty()
    })
}

/// A numeral at the front of a text ends where the digits end: if two
/// numerals, each followed by nothing or by a text that begins with no
/// digit, make the same text, they are the same, and so is what follows.
proof fn numeral_is_unique(da: Seq<char>, ta: Seq<char>, db: Seq<char>, tb: Seq<char>)
    requires
        forall|i: int| 0 <= i < da.len() ==> '0' <= #[trigger] da[i] <= '9',
        forall|i: int| 0 <= i < db.len() ==> '0' <= #[trigger] db[i] <= '9',
        ta.len() > 0 ==> !('0' <= ta[0] <= '9'),
        tb.len() > 0 ==> !('0' <= tb[0] <= '9'),
        da + ta == db + tb,
    ensures
        da == db,
        ta == tb,
{
    let x = da + ta;
    let y = db + tb;
    assert(x.len() == da.len() + ta.len());
    assert(y.len() == db.len() + tb.len());
    if da.len() < db.len() {
        assert(x[da.len() as int] == ta[0]);
        assert(y[da.len() as int] == db[da.len() as int]);
    } else if db.len() < da.len() {
        assert(y[db.len() as int] == tb[0]);
        assert(x[db.len() as int] == da[db.len() as int]);
    }
    assert(da =~= db) by {
        assert forall|i: int| 0 <= i < da.len() implies da[i] == db[i] by {
            assert(x[i] == da[i]);
            assert(y[i] == db[i]);
        }
    }
    assert(ta =~= tb) by {
        assert forall|i: int| 0 <= i < ta.len() implies ta[i] == tb[i] by {
            assert(x[da.len() + i] == ta[i]);
            assert(y[db.len() + i] == tb[i]);
        }
    }
}

/// What follows the numbers tells the pre-release part and the build
/// part, where the pre-release parts hold no `+`.
proof fn tail_determines_parts(a: VersionView, b: VersionView)
    requires
        parts_are_apart(a),
        parts_are_apart(b),
        tail_spec(a) == tail_spec(b),
    ensures
        a.pre == b.pre,
        a.build == b.build,
{
    reveal_strlit("-");
    reveal_strlit("+");
    assert("-"@ =~= seq!['-']);
    assert("+"@ =~= seq!['+']);
    let (ta, tb) = (tail_spec(a), tail_spec(b));
    let pa = if a.pre.len() > 0 { seq!['-'] + a.pre } else { Seq::<char>::empty() };
    let pb = if b.pre.len() > 0 { seq!['-'] + b.pre } else { Seq::<char>::empty() };
    assert forall|i: int| 0 <= i < pa.len() implies pa[i] != '+' by {
        if i > 0 {
            assert(pa[i] == a.pre[i - 1]);
        }
    }
    assert forall|i: int| 0 <= i < pb.len() implies pb[i] != '+' by {
        if i > 0 {
            assert(pb[i] == b.pre[i - 1]);
        }
    }
    if a.build.len() > 0 && b.build.len() > 0 {
        assert(ta =~= pa + seq!['+'] + a.build);
        assert(tb =~= pb + seq!['+'] + b.build);
        crate::text::split_is_unique(pa, a.build, pb, b.build, '+');
    } else if a.build.len() > 0 {
        assert(ta =~= pa + seq!['+'] + a.build);
        assert(tb =~= pb);
        assert(ta[pa.len() as int] == '+');
        assert(false);
    } else if b.build.len() > 0 {
        assert(tb =~= pb + seq!['+'] + b.build);
        assert(ta =~= pa);
        assert(tb[pb.len() as int] == '+');
        assert(false);
    } else {
        assert(ta =~= pa);
        assert(tb =~= pb);
        assert(a.build =~= b.build);
    }
    assert(pa == pb);
    if a.pre.len() > 0 {
        assert(pa[0] == '-');
        assert(b.pre.len() > 0);
        assert(a.pre =~= pa.skip(1));
        assert(b.pre =~= pb.skip(1));
    } else {
        assert(pb.len() == 0);
        assert(a.pre =~= b.pre);
    }
}

/// Two versions that are written alike are the same version, where their
/// pre-release parts hold no `+`.
pub proof fn text_determines_version(a: VersionView, b: VersionView)
    requires
        parts_are_apart(a),
        parts_are_apart(b),
        a.text_spec() == b.text_spec(),
    ensures
        a == b,
{
    reveal_strlit(".");
    reveal_strlit("-");
    reveal_strlit("+");
    assert("."@ =~= seq!['.']);
    assert("-"@ =~= seq!['-']);
    assert("+"@ =~= seq!['+']);
    let (a1, a2, a3) = (
        decimal_spec(a.major as nat),
        decimal_spec(a.minor as nat),
        decimal_spec(a.patch as nat),
    );
    let (b1, b2, b3) = (
        decimal_spec(b.major as nat),
        decimal_spec(b.minor as nat),
        decimal_spec(b.patch as nat),
    );
    crate::text::decimal_is_digits(a.major as nat);
    crate::text::decimal_is_digits(a.minor as nat);
    crate::text::decimal_is_digits(a.patch as nat);
    crate::text::decimal_is_digits(b.major as nat);
    crate::text::decimal_is_digits(b.minor as nat);
    crate::text::decimal_is_digits(b.patch as nat);
    let dot = seq!['.'];
    let (ta, tb) = (tail_spec(a), tail_spec(b));
    assert(a.text_spec() =~= a1 + dot + (a2 + dot + (a3 + ta)));
    assert(b.text_spec() =~= b1 + dot + (b2 + dot + (b3 + tb)));
    crate::text::split_is_unique(a1, a2 + dot + (a3 + ta), b1, b2 + dot + (b3 + tb), '.');
    crate::text::split_is_unique(a2, a3 + ta, b2, b3 + tb, '.');
    assert(ta.len() > 0 ==> ta[0] == '-' || ta[0] == '+') by {
        if a.pre.len() > 0 {
            assert(ta[0] == '-');
        } else if a.build.len() > 0 {
            assert(ta =~= seq!['+'] + a.build);
        }
    }
    assert(tb.len() > 0 ==> tb[0] == '-' || tb[0] == '+') by {
        if b.pre.len() > 0 {
            assert(tb[0] == '-');
        } else if b.build.len() > 0 {
            assert(tb =~= seq!['+'] + b.build);
        }
    }
    numeral_is_unique(a3, ta, b3, tb);
    tail_determines_parts(a, b);
    crate::text::decimal_is_injective(a.major as nat, b.major as nat);
    crate::text::decimal_is_injective(a.minor as nat, b.minor as nat);
    crate::text::decimal_is_injective(a.patch as nat, b.patch as nat);
}

/// A version requirement, kept as it is written.
#[derive(Debug)]
pub struct VersionReq {
    /// The requirement in the syntax of the `semver` crate.
    pub text: String,
}

impl View for VersionReq {
    type V = Seq<char>;

    open spec fn view(&self) -> Seq<char> {
        self.text@
    }
}

impl VersionReq {
    /// Whether the requirement admits `version`.
    pub open spec fn admits(self, version: VersionView) -> bool {
        semver_req_parses(self@) && semver_req_admits(
            self@,
            version.major,
            version.minor,
            version.patch,
            version.pre,
            version.build,
        )
    }

    /// Reads a requirement; `None` if `text` is none.
    pub fn parse(text: &str) -> (r: Option<VersionReq>)
        ensures
            r is Some <==> semver_req_parses(text@),
            r matches Some(req) ==> req@ == text@,
    {
        if requirement_parses(text) {
            Some(VersionReq { text: String::from_str(text) })
        } else {
            None
        }
    }

    /// The requirement `*`, which any version satisfies.
    pub fn star() -> (r: VersionReq)
        ensures
            r@ == "*"@,
    {
        VersionReq { text: String::from_str("*") }
    }

    /// Whether the text is a requirement in `semver`'s syntax.
    pub fn is_valid(&self) -> (r: bool)
        ensures
            r == semver_req_parses(self@),
    {
        requirement_parses(self.text.as_str())
    }

    /// Whether the requirement admits `version`.
    pub fn matches(&self, version: &Version) -> (r: bool)
        ensures
            r == self.admits(version@),
    {
        requirement_admits(
            self.text.as_str(),
            version.major,
            version.minor,
            version.patch,
            version.pre.as_str(),
            version.build.as_str(),
        )
    }

    /// A copy of the requirement.
    pub fn duplicate(&self) -> (r: VersionReq)
        ensures
            r == *self,
    {
        VersionReq { text: self.text.clone() }
    }
}

/// One release of a package: its version and the kind it is built for.
#[derive(Debug, PartialEq, Eq, Hash)]
pub struct VersionId {
    /// The version of the release.
    pub version: Version,
    /// The kind the release is built for.
    pub target: TargetKind,
}

/// What a release is known by, with the texts of its version as
/// sequences.
pub ghost struct VersionIdView {
    pub version: VersionView,
    pub target: TargetKind,
}

impl View for VersionId {
    type V = VersionIdView;

    open spec fn view(&self) -> VersionIdView {
        VersionIdView { version: self.version@, target: self.target }
    }
}

impl VersionIdView {
    /// The release as it is written in paths: `version+kind`.
    pub open spec fn escaped_spec(self) -> Seq<char> {
        self.version.text_spec() + "+"@ + self.target.name_spec()
    }

    /// The release as it is written for people: `version kind`.
    pub open spec fn text_spec(self) -> Seq<char> {
        self.version.text_spec() + " "@ + self.target.name_spec()
    }
}

impl VersionId {
    /// The release as it is written in paths: `version+kind`.
    pub open spec fn escaped_spec(self) -> Seq<char> {
        self@.escaped_spec()
    }

    /// The release as it is written for people: `version kind`.
    pub open spec fn text_spec(self) -> Seq<char> {
        self@.text_spec()
    }

    /// The release of `version` for `target`.
    pub fn new(version: Version, target: TargetKind) -> (r: VersionId)
        ensures
            r == (VersionId { version, target }),
    {
        VersionId { version, target }
    }

    /// The version of the release.
    pub fn version(&self) -> (r: &Version)
        ensures
            *r == self.version,
    {
        &self.version
    }

    /// The kind the release is built for.
    pub fn target(&self) -> (r: TargetKind)
        ensures
            r == self.target,
    {
        self.target
    }

    /// A copy of the release.
    pub fn duplicate(&self) -> (r: VersionId)
        ensures
            r == *self,
    {
        VersionId { version: self.version.duplicate(), target: self.target }
    }

    /// Whether the two are the same release.
    pub fn same_as(&self, other: &VersionId) -> (r: bool)
        ensures
            r == (self@ == other@),
    {
        self.version.same_as(&other.version) && self.target == other.target
    }

    /// The release as it is written in paths: `version+kind`.
    pub fn escaped(&self) -> (r: String)
        ensures
            r@ == self@.escaped_spec(),
    {
        let version = self.version.text();
        let kind = self.target.name();
        concat3(version.as_str(), "+", kind.as_str())
    }

    /// The release as it is written for people: `version kind`.
    pub fn text(&self) -> (r: String)
        ensures
            r@ == self@.text_spec(),
    {
        let version = self.version.text();
        let kind = self.target.name();
        concat3(version.as_str(), " ", kind.as_str())
    }
}

} // verus!
