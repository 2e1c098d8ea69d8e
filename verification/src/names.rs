//! Package names of the form `scope/name`.

use crate::text::{chars_of, concat3, string_of};
use vstd::prelude::*;
use vstd::string::*;

verus! {

/// Whether `c` may stand in a scope or a name: a lower-case ASCII letter, a
/// digit or the separator `_`.
pub open spec fn is_name_char(c: char) -> bool {
    ('a' <= c && c <= 'z') || ('0' <= c && c <= '9') || c == '_'
}

/// Whether `part` is a well-formed scope or name: not empty, and made of
/// name characters only.
pub open spec fn is_name_part(part: Seq<char>) -> bool {
    part.len() > 0 && forall|i: int| 0 <= i < part.len() ==> is_name_char(#[trigger] part[i])
}

/// Whether `at` is the position of the first `/` in `text`.
pub open spec fn is_first_slash(text: Seq<char>, at: int) -> bool {
    &&& 0 <= at < text.len()
    &&& text[at] == '/'
    &&& forall|i: int| 0 <= i < at ==> #[trigger] text[i] != '/'
}

/// Why a text is no package name.
#[derive(Debug, Clone, Copy, PartialEq, Eq, Structural)]
pub enum PackageNameError {
    /// The text holds no `/`.
    MissingSeparator,
    /// What stands before the first `/` is no well-formed scope.
    InvalidScope,
    /// What stands after the first `/` is no well-formed name.
    InvalidName,
}

/// The name of a package: a scope and a name within it.
#[derive(Debug)]
pub struct PackageName {
    /// The scope the package is published under.
    pub scope: String,
    /// The name of the package within its scope.
    pub name: String,
}

impl View for PackageName {
    type V = (Seq<char>, Seq<char>);

    open spec fn view(&self) -> (Seq<char>, Seq<char>) {
        (self.scope@, self.name@)
    }
}

impl PackageName {
    /// Whether scope and name are both well formed.
    pub open spec fn well_formed(self) -> bool {
        is_name_part(self.scope@) && is_name_part(self.name@)
    }

    /// The name as it is written in manifests: `scope/name`.
    pub open spec fn text_spec(self) -> Seq<char> {
        self.scope@ + "/"@ + self.name@
    }

    /// The name as it is written in paths: `scope+name`.
    pub open spec fn escaped_spec(self) -> Seq<char> {
        self.scope@ + "+"@ + self.name@
    }

    /// Reads a package name from `text`. The text is split at its first
    /// `/`; both sides must be well formed.
    pub fn parse(text: &str) -> (r: Result<PackageName, PackageNameError>)
        ensures
            match r {
                Ok(name) => name.well_formed() && name.text_spec() == text@,
                Err(PackageNameError::MissingSeparator) => !text@.contains('/'),
                Err(PackageNameError::InvalidScope) => exists|at: int|
                    is_first_slash(text@, at) && !is_name_part(text@.subrange(0, at)),
                Err(PackageNameError::InvalidName) => exists|at: int|
                    is_first_slash(text@, at) && is_name_part(text@.subrange(0, at))
                        && !is_name_part(text@.subrange(at + 1, text@.len() as int)),
            },
    {
        let chars = chars_of(text);
        let mut at: usize = 0;
        while at < chars.len() && chars[at] != '/'
            invariant
                at <= chars@.len(),
                forall|i: int| 0 <= i < at ==> #[trigger] chars@[i] != '/',
            decreases chars@.len() - at,
        {
            at += 1;
        }
        if at == chars.len() {
            return Err(PackageNameError::MissingSeparator);
        }
        assert(is_first_slash(text@, at as int));
        let scope = copy_range(&chars, 0, at);
        let name = copy_range(&chars, at + 1, chars.len());
        if !all_name_chars(&scope) {
            return Err(PackageNameError::InvalidScope);
        }
        if !all_name_chars(&name) {
            return Err(PackageNameError::InvalidName);
        }
        let parsed = PackageName { scope: string_of(&scope), name: string_of(&name) };
        proof {
            reveal_strlit("/");
            assert(parsed.text_spec() =~= text@);
        }
        Ok(parsed)
    }

    /// The name as it is written in manifests: `scope/name`.
    pub fn text(&self) -> (r: String)
        ensures
            r@ == self.text_spec(),
    {
        concat3(self.scope.as_str(), "/", self.name.as_str())
    }

    /// The name as it is written in paths: `scope+name`.
    pub fn escaped(&self) -> (r: String)
        ensures
            r@ == self.escaped_spec(),
    {
        concat3(self.scope.as_str(), "+", self.name.as_str())
    }

    /// Whether two names have the same scope and the same name.
    pub fn same_as(&self, other: &PackageName) -> (r: bool)
        ensures
            r == (self@ == other@),
    {
        self.scope == other.scope && self.name == other.name
    }

    /// A copy of the name.
    pub fn duplicate(&self) -> (r: PackageName)
        ensures
            r == *self,
    {
        PackageName { scope: self.scope.clone(), name: self.name.clone() }
    }
}

/// The characters of `chars` from `from` up to `to`.
fn copy_range(chars: &Vec<char>, from: usize, to: usize) -> (r: Vec<char>)
    requires
        from <= to <= chars@.len(),
    ensures
        r@ == chars@.subrange(from as int, to as int),
{
    let mut r: Vec<char> = Vec::new();
    let mut i: usize = from;
    while i < to
        invariant
            from <= i <= to <= chars@.len(),
            r@ == chars@.subrange(from as int, i as int),
        decreases to - i,
    {
        r.push(chars[i]);
        i += 1;
    }
    r
}

/// Whether `part` is a well-formed scope or name.
fn all_name_chars(part: &Vec<char>) -> (r: bool)
    ensures
        r == is_name_part(part@),
{
    if part.len() == 0 {
        return false;
    }
    let mut i: usize = 0;
    while i < part.len()
        invariant
            i <= part@.len(),
            forall|k: int| 0 <= k < i ==> is_name_char(#[trigger] part@[k]),
        decreases part@.len() - i,
    {
        let c = part[i];
        let ok = ('a' <= c && c <= 'z') || ('0' <= c && c <= '9') || c == '_';
        if !ok {
            return false;
        }
        i += 1;
    }
    true
}

/// Two well-formed names that are written alike are the same name.
pub proof fn text_determines_name(a: PackageName, b: PackageName)
    requires
        a.well_formed(),
        b.well_formed(),
        a.text_spec() == b.text_spec(),
    ensures
        a@ == b@,
{
    reveal_strlit("/");
    assert("/"@ =~= seq!['/']);
    separator_determines_name(a, b, '/', "/"@);
}

/// Two well-formed names with the same escaped form are the same name, so
/// no two packages share a directory.
pub proof fn escaped_determines_name(a: PackageName, b: PackageName)
    requires
        a.well_formed(),
        b.well_formed(),
        a.escaped_spec() == b.escaped_spec(),
    ensures
        a@ == b@,
{
    reveal_strlit("+");
    assert("+"@ =~= seq!['+']);
    separator_determines_name(a, b, '+', "+"@);
}

proof fn separator_determines_name(a: PackageName, b: PackageName, c: char, sep: Seq<char>)
    requires
        a.well_formed(),
        b.well_formed(),
        !is_name_char(c),
        sep == seq![c],
        a.scope@ + sep + a.name@ == b.scope@ + sep + b.name@,
    ensures
        a@ == b@,
{
    crate::text::split_is_unique(a.scope@, a.name@, b.scope@, b.name@, c);
}

/// A text that `parse` refuses is the written form of no well-formed name.
pub proof fn no_name_for_refused_text(text: Seq<char>)
    requires
        !text.contains('/') || (exists|at: int|
            is_first_slash(text, at) && (!is_name_part(text.subrange(0, at)) || !is_name_part(
                text.subrange(at + 1, text.len() as int),
            ))),
    ensures
        forall|name: PackageName| name.well_formed() ==> name.text_spec() != text,
{
    reveal_strlit("/");
    assert forall|name: PackageName| name.well_formed() implies name.text_spec() != text by {
        if name.text_spec() == text {
            let m = name.scope@.len() as int;
            assert(text[m] == '/');
            assert(text.contains('/'));
            let at = choose|at: int|
                is_first_slash(text, at) && (!is_name_part(text.subrange(0, at)) || !is_name_part(
                    text.subrange(at + 1, text.len() as int),
                ));
            if at < m {
                assert(text[at] == name.scope@[at]);
                assert(false);
            }
            if m < at {
                assert(false);
            }
            assert(text.subrange(0, at) =~= name.scope@);
            assert(text.subrange(at + 1, text.len() as int) =~= name.name@);
        }
    }
}

} // verus!
