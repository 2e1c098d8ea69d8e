//! Making the dependencies of a manifest self-contained before it is
//! published: index aliases become URLs, and workspace members become
//! packages of the registry.

use crate::manifest::target::TargetKind;
use crate::manifest::{lookup, lookup_spec, Dependency, Manifest, Named};
use crate::names::PackageName;
use crate::source::specifiers::{opt_view, workspace_requirement, DependencySpecifiers,
    PesdeDependencySpecifier, PesdeSpecifierView, SpecifierView, VersionType, VersionTypeOrReq,
    VersionTypeOrReqView, WallyDependencySpecifier, WallySpecifierView,
    WorkspaceDependencySpecifier, WorkspaceSpecifierView};
use crate::source::version_id::{semver_req_parses, Version, VersionReq};
use crate::text::concat;
use crate::DEFAULT_INDEX_NAME;
use vstd::prelude::*;
use vstd::string::*;

verus! {

/// Why a dependency cannot be made self-contained.
#[derive(Debug)]
pub enum RewriteError {
    /// The manifest's `indices` have no entry under this alias.
    IndexNotFound(String),
    /// The manifest's `wally_indices` have no entry under this alias.
    WallyIndexNotFound(String),
    /// No member of the workspace has the name and kind that are asked
    /// for.
    NoMember,
    /// The member's version does not combine into a requirement; the text
    /// that was tried.
    InvalidRequirement(String),
    /// The member's manifest names no default index.
    MissingDefaultIndex,
}

/// What a rewrite error says, with its strings as sequences.
pub ghost enum RewriteErrorView {
    IndexNotFound(Seq<char>),
    WallyIndexNotFound(Seq<char>),
    NoMember,
    InvalidRequirement(Seq<char>),
    MissingDefaultIndex,
}

impl View for RewriteError {
    type V = RewriteErrorView;

    open spec fn view(&self) -> RewriteErrorView {
        match self {
            RewriteError::IndexNotFound(a) => RewriteErrorView::IndexNotFound(a@),
            RewriteError::WallyIndexNotFound(a) => RewriteErrorView::WallyIndexNotFound(a@),
            RewriteError::NoMember => RewriteErrorView::NoMember,
            RewriteError::InvalidRequirement(t) => RewriteErrorView::InvalidRequirement(t@),
            RewriteError::MissingDefaultIndex => RewriteErrorView::MissingDefaultIndex,
        }
    }
}

/// Whether the member `member` is what a workspace dependency on `name`
/// means: it has that name, and the kind that is asked for or, where none
/// is, a kind that the consumer may depend on.
pub open spec fn member_matches(
    member: Manifest,
    name: (Seq<char>, Seq<char>),
    target: Option<TargetKind>,
    consumer: TargetKind,
) -> bool {
    member.name@ == name && match target {
        Some(kind) => member.target.kind_spec() == kind,
        None => consumer.compatible_spec(member.target.kind_spec()),
    }
}

/// Whether member `a` comes before member `b` in the order of releases:
/// by version, then by the rank of the kind.
pub open spec fn member_precedes(a: Manifest, b: Manifest) -> bool {
    a.version.precedes_spec(b.version) || (a.version@ == b.version@
        && a.target.kind_spec().rank_spec() < b.target.kind_spec().rank_spec())
}

/// The position of the member that a workspace dependency resolves to
/// among the first `upto` members: the last in the order of releases
/// among those that match, and of equals the first.
pub open spec fn best_member(
    members: Seq<Manifest>,
    upto: int,
    name: (Seq<char>, Seq<char>),
    target: Option<TargetKind>,
    consumer: TargetKind,
) -> Option<int>
    decreases upto,
{
    if upto <= 0 {
        None
    } else {
        let before = best_member(members, upto - 1, name, target, consumer);
        let here = members[upto - 1];
        if member_matches(here, name, target, consumer) && (before is None || member_precedes(
            members[before->0],
            here,
        )) {
            Some(upto - 1)
        } else {
            before
        }
    }
}

/// The member that `best_member` gives matches, and no matching member
/// has a version with later numbers; and it gives none only where no
/// member matches.
pub proof fn best_member_is_greatest(
    members: Seq<Manifest>,
    upto: int,
    name: (Seq<char>, Seq<char>),
    target: Option<TargetKind>,
    consumer: TargetKind,
)
    requires
        0 <= upto <= members.len(),
    ensures
        match best_member(members, upto, name, target, consumer) {
            Some(at) => {
                &&& 0 <= at < upto
                &&& member_matches(members[at], name, target, consumer)
                &&& forall|k: int|
                    0 <= k < upto && member_matches(#[trigger] members[k], name, target, consumer)
                        ==> !members[at].version@.numbers_before(members[k].version@)
            },
            None => forall|k: int|
                0 <= k < upto ==> !member_matches(#[trigger] members[k], name, target, consumer),
        },
    decreases upto,
{
    if upto > 0 {
        best_member_is_greatest(members, upto - 1, name, target, consumer);
    }
}

/// The specifier that `spec` becomes when it is published from a package
/// with the given `indices` and `wally_indices`, built for `consumer`, in
/// a workspace with the given `members`.
pub open spec fn rewritten_spec(
    spec: SpecifierView,
    indices: Seq<Named>,
    wally_indices: Seq<Named>,
    members: Seq<Manifest>,
    consumer: TargetKind,
) -> Result<SpecifierView, RewriteErrorView> {
    match spec {
        SpecifierView::Pesde(s) => {
            let alias = match s.index {
                Some(a) => a,
                None => DEFAULT_INDEX_NAME@,
            };
            match lookup_spec(indices, alias) {
                Some(url) => Ok(
                    SpecifierView::Pesde(PesdeSpecifierView { index: Some(url), ..s }),
                ),
                None => Err(RewriteErrorView::IndexNotFound(alias)),
            }
        },
        SpecifierView::Wally(s) => {
            let alias = match s.index {
                Some(a) => a,
                None => DEFAULT_INDEX_NAME@,
            };
            match lookup_spec(wally_indices, alias) {
                Some(url) => Ok(
                    SpecifierView::Wally(WallySpecifierView { index: Some(url), ..s }),
                ),
                None => Err(RewriteErrorView::WallyIndexNotFound(alias)),
            }
        },
        SpecifierView::Git(s) => Ok(SpecifierView::Git(s)),
        SpecifierView::Workspace(s) => {
            match best_member(members, members.len() as int, s.name, s.target, consumer) {
                None => Err(RewriteErrorView::NoMember),
                Some(at) => {
                    let member = members[at];
                    let version = workspace_requirement(s.version, member.version);
                    let combined = s.version matches VersionTypeOrReqView::VersionType(t) && t
                        != VersionType::Wildcard;
                    if combined && !semver_req_parses(version) {
                        Err(RewriteErrorView::InvalidRequirement(version))
                    } else {
                        match lookup_spec(member.indices@, DEFAULT_INDEX_NAME@) {
                            None => Err(RewriteErrorView::MissingDefaultIndex),
                            Some(url) => Ok(
                                SpecifierView::Pesde(
                                    PesdeSpecifierView {
                                        name: s.name,
                                        version,
                                        index: Some(url),
                                        target: Some(
                                            match s.target {
                                                Some(kind) => kind,
                                                None => member.target.kind_spec(),
                                            },
                                        ),
                                    },
                                ),
                            ),
                        }
                    }
                },
            }
        },
    }
}

/// The position of the member that a workspace dependency resolves to.
pub fn pick_member(
    members: &Vec<Manifest>,
    name: &PackageName,
    target: Option<TargetKind>,
    consumer: TargetKind,
) -> (r: Option<usize>)
    ensures
        match r {
            Some(at) => best_member(members@, members@.len() as int, name@, target, consumer)
                == Some(at as int) && at < members@.len(),
            None => best_member(members@, members@.len() as int, name@, target, consumer) is None,
        },
{
    let mut best: Option<usize> = None;
    let mut i: usize = 0;
    while i < members.len()
        invariant
            i <= members@.len(),
            match best {
                Some(at) => best_member(members@, i as int, name@, target, consumer) == Some(
                    at as int,
                ) && at < i,
                None => best_member(members@, i as int, name@, target, consumer) is None,
            },
        decreases members@.len() - i,
    {
        let here = &members[i];
        let kind = here.target.kind();
        let matches = here.name.same_as(name) && match target {
            Some(wanted) => kind == wanted,
            None => consumer.is_compatible_with(&kind),
        };
        if matches {
            let better = match best {
                None => true,
                Some(at) => {
                    let prev = &members[at];
                    prev.version.precedes(&here.version) || (prev.version.same_as(&here.version)
                        && prev.target.kind().rank() < kind.rank())
                },
            };
            if better {
                best = Some(i);
            }
        }
        i += 1;
    }
    best
}

/// Makes one specifier self-contained.
pub fn rewrite_specifier(
    spec: &DependencySpecifiers,
    manifest: &Manifest,
    members: &Vec<Manifest>,
) -> (r: Result<DependencySpecifiers, RewriteError>)
    ensures
        match r {
            Ok(out) => rewritten_spec(
                spec@,
                manifest.indices@,
                manifest.wally_indices@,
                members@,
                manifest.target.kind_spec(),
            ) == Ok::<SpecifierView, RewriteErrorView>(out@),
            Err(e) => rewritten_spec(
                spec@,
                manifest.indices@,
                manifest.wally_indices@,
                members@,
                manifest.target.kind_spec(),
            ) == Err::<SpecifierView, RewriteErrorView>(e@),
        },
{
    match spec {
        DependencySpecifiers::Pesde(s) => {
            let alias = match &s.index {
                Some(a) => a.clone(),
                None => String::from_str(DEFAULT_INDEX_NAME),
            };
            match lookup(&manifest.indices, alias.as_str()) {
                Some(url) => Ok(
                    DependencySpecifiers::Pesde(
                        PesdeDependencySpecifier {
                            name: s.name.duplicate(),
                            version: s.version.duplicate(),
                            index: Some(url.clone()),
                            target: s.target,
                        },
                    ),
                ),
                None => Err(RewriteError::IndexNotFound(alias)),
            }
        },
        DependencySpecifiers::Wally(s) => {
            let alias = match &s.index {
                Some(a) => a.clone(),
                None => String::from_str(DEFAULT_INDEX_NAME),
            };
            match lookup(&manifest.wally_indices, alias.as_str()) {
                Some(url) => Ok(
                    DependencySpecifiers::Wally(
                        WallyDependencySpecifier {
                            name: s.name.duplicate(),
                            version: s.version.duplicate(),
                            index: Some(url.clone()),
                        },
                    ),
                ),
                None => Err(RewriteError::WallyIndexNotFound(alias)),
            }
        },
        DependencySpecifiers::Git(s) => Ok(DependencySpecifiers::Git(s.duplicate())),
        DependencySpecifiers::Workspace(s) => {
            let at = match pick_member(members, &s.name, s.target, manifest.target.kind()) {
                None => {
                    return Err(RewriteError::NoMember);
                },
                Some(at) => at,
            };
            let member = &members[at];
            let version = match &s.version {
                VersionTypeOrReq::Req(req) => req.duplicate(),
                VersionTypeOrReq::VersionType(VersionType::Wildcard) => VersionReq::star(),
                VersionTypeOrReq::VersionType(t) => {
                    let sign = t.sign();
                    let number = member.version.text();
                    let text = concat(sign.as_str(), number.as_str());
                    match VersionReq::parse(text.as_str()) {
                        Some(req) => req,
                        None => {
                            return Err(RewriteError::InvalidRequirement(text));
                        },
                    }
                },
            };
            match lookup(&member.indices, DEFAULT_INDEX_NAME) {
                None => Err(RewriteError::MissingDefaultIndex),
                Some(url) => Ok(
                    DependencySpecifiers::Pesde(
                        PesdeDependencySpecifier {
                            name: s.name.duplicate(),
                            version,
                            index: Some(url.clone()),
                            target: Some(
                                match s.target {
                                    Some(kind) => kind,
                                    None => member.target.kind(),
                                },
                            ),
                        },
                    ),
                ),
            }
        },
    }
}

/// What a list of dependencies says: each alias with its specifier.
pub open spec fn dependency_views(deps: Seq<Dependency>) -> Seq<(Seq<char>, SpecifierView)> {
    deps.map_values(|d: Dependency| (d.alias@, d.specifier@))
}

/// The list that `deps` becomes when each of its specifiers is made
/// self-contained, or the error of the first that cannot be.
pub open spec fn list_rewritten_spec(
    deps: Seq<Dependency>,
    manifest: Manifest,
    members: Seq<Manifest>,
) -> Result<Seq<(Seq<char>, SpecifierView)>, RewriteErrorView>
    decreases deps.len(),
{
    if deps.len() == 0 {
        Ok(Seq::empty())
    } else {
        match list_rewritten_spec(deps.drop_last(), manifest, members) {
            Err(e) => Err(e),
            Ok(before) => match rewritten_spec(
                deps.last().specifier@,
                manifest.indices@,
                manifest.wally_indices@,
                members,
                manifest.target.kind_spec(),
            ) {
                Err(e) => Err(e),
                Ok(spec) => Ok(before.push((deps.last().alias@, spec))),
            },
        }
    }
}

/// The dependencies of a manifest once they are self-contained.
#[derive(Debug)]
pub struct Rewritten {
    /// The normal dependencies.
    pub dependencies: Vec<Dependency>,
    /// The dev dependencies.
    pub dev_dependencies: Vec<Dependency>,
    /// The peer dependencies.
    pub peer_dependencies: Vec<Dependency>,
    /// Whether any dependency lives in a git repository.
    pub has_git: bool,
    /// Whether any dependency comes from a Wally registry.
    pub has_wally: bool,
}

/// Whether one of `deps` lives in a git repository.
pub open spec fn any_git_spec(deps: Seq<Dependency>) -> bool {
    exists|i: int| 0 <= i < deps.len() && (#[trigger] deps[i]).specifier is Git
}

/// Whether one of `deps` comes from a Wally registry.
pub open spec fn any_wally_spec(deps: Seq<Dependency>) -> bool {
    exists|i: int| 0 <= i < deps.len() && (#[trigger] deps[i]).specifier is Wally
}

/// The three lists of a manifest once they are self-contained: the normal
/// dependencies, the dev dependencies and the peer dependencies. The
/// error is that of the first specifier, in this order, that cannot be
/// rewritten.
pub open spec fn all_rewritten_spec(manifest: Manifest, members: Seq<Manifest>) -> Result<
    (
        Seq<(Seq<char>, SpecifierView)>,
        Seq<(Seq<char>, SpecifierView)>,
        Seq<(Seq<char>, SpecifierView)>,
    ),
    RewriteErrorView,
> {
    match list_rewritten_spec(manifest.dependencies@, manifest, members) {
        Err(e) => Err(e),
        Ok(normal) => match list_rewritten_spec(manifest.dev_dependencies@, manifest, members) {
            Err(e) => Err(e),
            Ok(dev) => match list_rewritten_spec(manifest.peer_dependencies@, manifest, members) {
                Err(e) => Err(e),
                Ok(peer) => Ok((normal, dev, peer)),
            },
        },
    }
}

/// Makes each specifier of `deps` self-contained, in order.
pub fn rewrite_list(deps: &Vec<Dependency>, manifest: &Manifest, members: &Vec<Manifest>) -> (r:
    Result<Vec<Dependency>, RewriteError>)
    ensures
        match r {
            Ok(out) => list_rewritten_spec(deps@, *manifest, members@) == Ok::<
                Seq<(Seq<char>, SpecifierView)>,
                RewriteErrorView,
            >(dependency_views(out@)),
            Err(e) => list_rewritten_spec(deps@, *manifest, members@) == Err::<
                Seq<(Seq<char>, SpecifierView)>,
                RewriteErrorView,
            >(e@),
        },
{
    let mut out: Vec<Dependency> = Vec::new();
    let mut i: usize = 0;
    proof {
        assert(deps@.subrange(0, 0) == Seq::<Dependency>::empty());
        assert(dependency_views(out@) == Seq::<(Seq<char>, SpecifierView)>::empty());
    }
    while i < deps.len()
        invariant
            i <= deps@.len(),
            list_rewritten_spec(deps@.subrange(0, i as int), *manifest, members@) == Ok::<
                Seq<(Seq<char>, SpecifierView)>,
                RewriteErrorView,
            >(dependency_views(out@)),
        decreases deps@.len() - i,
    {
        let ghost next = deps@.subrange(0, i + 1);
        proof {
            assert(next.drop_last() == deps@.subrange(0, i as int));
            assert(next.last() == deps@[i as int]);
        }
        match rewrite_specifier(&deps[i].specifier, manifest, members) {
            Err(e) => {
                proof {
                    failure_stays(deps@, i as int, *manifest, members@);
                }
                return Err(e);
            },
            Ok(spec) => {
                let ghost before = dependency_views(out@);
                out.push(Dependency { alias: deps[i].alias.clone(), specifier: spec });
                proof {
                    assert(dependency_views(out@) == before.push((deps@[i as int].alias@, spec@)));
                }
            },
        }
        i += 1;
    }
    proof {
        assert(deps@.subrange(0, deps@.len() as int) == deps@);
    }
    Ok(out)
}

/// A list fails with the error of its first specifier that cannot be
/// rewritten, whatever follows it.
proof fn failure_stays(deps: Seq<Dependency>, at: int, manifest: Manifest, members: Seq<Manifest>)
    requires
        0 <= at < deps.len(),
        list_rewritten_spec(deps.subrange(0, at + 1), manifest, members) is Err,
    ensures
        list_rewritten_spec(deps, manifest, members) == list_rewritten_spec(
            deps.subrange(0, at + 1),
            manifest,
            members,
        ),
    decreases deps.len() - at,
{
    if at + 1 < deps.len() {
        let longer = deps.subrange(0, at + 2);
        assert(longer.drop_last() == deps.subrange(0, at + 1));
        failure_stays(deps, at + 1, manifest, members);
    } else {
        assert(deps.subrange(0, at + 1) == deps);
    }
}

/// Whether one of `deps` lives in a git repository.
pub fn any_git(deps: &Vec<Dependency>) -> (r: bool)
    ensures
        r == any_git_spec(deps@),
{
    let mut i: usize = 0;
    while i < deps.len()
        invariant
            i <= deps@.len(),
            forall|k: int| 0 <= k < i ==> !((#[trigger] deps@[k]).specifier is Git),
        decreases deps@.len() - i,
    {
        match &deps[i].specifier {
            DependencySpecifiers::Git(_) => {
                return true;
            },
            _ => {},
        }
        i += 1;
    }
    false
}

/// Whether one of `deps` comes from a Wally registry.
pub fn any_wally(deps: &Vec<Dependency>) -> (r: bool)
    ensures
        r == any_wally_spec(deps@),
{
    let mut i: usize = 0;
    while i < deps.len()
        invariant
            i <= deps@.len(),
            forall|k: int| 0 <= k < i ==> !((#[trigger] deps@[k]).specifier is Wally),
        decreases deps@.len() - i,
    {
        match &deps[i].specifier {
            DependencySpecifiers::Wally(_) => {
                return true;
            },
            _ => {},
        }
        i += 1;
    }
    false
}

/// Whether one of `deps` is another member of the workspace.
pub open spec fn any_member_spec(deps: Seq<Dependency>) -> bool {
    exists|i: int| 0 <= i < deps.len() && (#[trigger] deps[i]).specifier is Workspace
}

/// Whether one of `deps` is another member of the workspace.
pub fn any_member(deps: &Vec<Dependency>) -> (r: bool)
    ensures
        r == any_member_spec(deps@),
{
    let mut i: usize = 0;
    while i < deps.len()
        invariant
            i <= deps@.len(),
            forall|k: int| 0 <= k < i ==> !((#[trigger] deps@[k]).specifier is Workspace),
        decreases deps@.len() - i,
    {
        match &deps[i].specifier {
            DependencySpecifiers::Workspace(_) => {
                return true;
            },
            _ => {},
        }
        i += 1;
    }
    false
}

/// Whether the members of the workspace have to be read before the
/// dependencies of `manifest` can be made self-contained: whether one of
/// its dependencies, of whatever type, is another member.
pub fn needs_members(manifest: &Manifest) -> (r: bool)
    ensures
        r == (any_member_spec(manifest.dependencies@) || any_member_spec(
            manifest.dev_dependencies@,
        ) || any_member_spec(manifest.peer_dependencies@)),
{
    any_member(&manifest.dependencies) || any_member(&manifest.dev_dependencies) || any_member(
        &manifest.peer_dependencies,
    )
}

/// Makes the dependencies of `manifest` self-contained, so that the
/// published manifest can be read without the project around it.
pub fn rewrite_dependencies(manifest: &Manifest, members: &Vec<Manifest>) -> (r: Result<
    Rewritten,
    RewriteError,
>)
    ensures
        match r {
            Ok(out) => {
                &&& all_rewritten_spec(*manifest, members@) == Ok::<
                    (
                        Seq<(Seq<char>, SpecifierView)>,
                        Seq<(Seq<char>, SpecifierView)>,
                        Seq<(Seq<char>, SpecifierView)>,
                    ),
                    RewriteErrorView,
                >(
                    (
                        dependency_views(out.dependencies@),
                        dependency_views(out.dev_dependencies@),
                        dependency_views(out.peer_dependencies@),
                    ),
                )
                &&& out.has_git == (any_git_spec(manifest.dependencies@) || any_git_spec(
                    manifest.dev_dependencies@,
                ) || any_git_spec(manifest.peer_dependencies@))
                &&& out.has_wally == (any_wally_spec(manifest.dependencies@) || any_wally_spec(
                    manifest.dev_dependencies@,
                ) || any_wally_spec(manifest.peer_dependencies@))
            },
            Err(e) => all_rewritten_spec(*manifest, members@) matches Err(found) && found == e@,
        },
{
    let dependencies = match rewrite_list(&manifest.dependencies, manifest, members) {
        Ok(list) => list,
        Err(e) => {
            return Err(e);
        },
    };
    let dev_dependencies = match rewrite_list(&manifest.dev_dependencies, manifest, members) {
        Ok(list) => list,
        Err(e) => {
            return Err(e);
        },
    };
    let peer_dependencies = match rewrite_list(&manifest.peer_dependencies, manifest, members) {
        Ok(list) => list,
        Err(e) => {
            return Err(e);
        },
    };
    let has_git = any_git(&manifest.dependencies) || any_git(&manifest.dev_dependencies) || any_git(
        &manifest.peer_dependencies,
    );
    let has_wally = any_wally(&manifest.dependencies) || any_wally(&manifest.dev_dependencies)
        || any_wally(&manifest.peer_dependencies);
    Ok(Rewritten { dependencies, dev_dependencies, peer_dependencies, has_git, has_wally })
}

} // verus!
