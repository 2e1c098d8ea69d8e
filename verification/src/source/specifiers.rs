//! The ways a manifest can name a dependency.

use crate::manifest::target::TargetKind;
use crate::names::PackageName;
use crate::source::git::specifier::GitDependencySpecifier;
use crate::source::version_id::{Version, VersionReq};
use vstd::prelude::*;
use vstd::string::*;

verus! {

/// The view of an optional string.
pub open spec fn opt_view(s: Option<String>) -> Option<Seq<char>> {
    match s {
        Some(s) => Some(s@),
        None => None,
    }
}

/// A dependency on a package of the registry.
#[derive(Debug)]
pub struct PesdeDependencySpecifier {
    /// The name of the package.
    pub name: PackageName,
    /// The versions that are acceptable.
    pub version: VersionReq,
    /// The index to look the package up in: an alias of the manifest's
    /// `indices`, or, once published, the URL itself.
    pub index: Option<String>,
    /// The kind the release must be built for, if the consumer's own kind
    /// is not to decide.
    pub target: Option<TargetKind>,
}

/// What a registry specifier says, with its strings as sequences.
pub ghost struct PesdeSpecifierView {
    pub name: (Seq<char>, Seq<char>),
    pub version: Seq<char>,
    pub index: Option<Seq<char>>,
    pub target: Option<TargetKind>,
}

impl View for PesdeDependencySpecifier {
    type V = PesdeSpecifierView;

    open spec fn view(&self) -> PesdeSpecifierView {
        PesdeSpecifierView {
            name: self.name@,
            version: self.version@,
            index: opt_view(self.index),
            target: self.target,
        }
    }
}

/// A dependency on a package of a Wally registry.
#[derive(Debug)]
pub struct WallyDependencySpecifier {
    /// The name of the package.
    pub name: PackageName,
    /// The versions that are acceptable.
    pub version: VersionReq,
    /// The index to look the package up in: an alias of the manifest's
    /// `wally_indices`, or, once published, the URL itself.
    pub index: Option<String>,
}

/// What a Wally specifier says, with its strings as sequences.
pub ghost struct WallySpecifierView {
    pub name: (Seq<char>, Seq<char>),
    pub version: Seq<char>,
    pub index: Option<Seq<char>>,
}

impl View for WallyDependencySpecifier {
    type V = WallySpecifierView;

    open spec fn view(&self) -> WallySpecifierView {
        WallySpecifierView { name: self.name@, version: self.version@, index: opt_view(self.index) }
    }
}

/// How the version of a workspace member turns into a requirement.
#[derive(Debug, Clone, Copy, PartialEq, Eq, Structural)]
pub enum VersionType {
    /// `^`: compatible with the member's version.
    Caret,
    /// `~`: at most a patch away from the member's version.
    Tilde,
    /// `=`: exactly the member's version.
    Exact,
    /// `*`: any version.
    Wildcard,
}

impl VersionType {
    /// The sign the type is written with.
    pub open spec fn sign_spec(self) -> Seq<char> {
        match self {
            VersionType::Caret => "^"@,
            VersionType::Tilde => "~"@,
            VersionType::Exact => "="@,
            VersionType::Wildcard => "*"@,
        }
    }

    /// The sign the type is written with.
    pub fn sign(&self) -> (r: String)
        ensures
            r@ == self.sign_spec(),
    {
        match self {
            VersionType::Caret => String::from_str("^"),
            VersionType::Tilde => String::from_str("~"),
            VersionType::Exact => String::from_str("="),
            VersionType::Wildcard => String::from_str("*"),
        }
    }
}

/// The version a workspace dependency asks for: a type to combine with the
/// member's version, or a requirement of its own.
#[derive(Debug)]
pub enum VersionTypeOrReq {
    /// A type to combine with the member's version.
    VersionType(VersionType),
    /// A requirement.
    Req(VersionReq),
}

/// What a workspace version says, with its strings as sequences.
pub ghost enum VersionTypeOrReqView {
    VersionType(VersionType),
    Req(Seq<char>),
}

impl View for VersionTypeOrReq {
    type V = VersionTypeOrReqView;

    open spec fn view(&self) -> VersionTypeOrReqView {
        match self {
            VersionTypeOrReq::VersionType(t) => VersionTypeOrReqView::VersionType(*t),
            VersionTypeOrReq::Req(r) => VersionTypeOrReqView::Req(r@),
        }
    }
}

/// The requirement text that stands for `wanted` once the member it points
/// at has version `member`.
pub open spec fn workspace_requirement(wanted: VersionTypeOrReqView, member: Version) -> Seq<char> {
    match wanted {
        VersionTypeOrReqView::VersionType(VersionType::Wildcard) => "*"@,
        VersionTypeOrReqView::VersionType(t) => t.sign_spec() + member.text_spec(),
        VersionTypeOrReqView::Req(r) => r,
    }
}

/// A dependency on another member of the same workspace.
#[derive(Debug)]
pub struct WorkspaceDependencySpecifier {
    /// The name of the member.
    pub name: PackageName,
    /// The version that is asked for.
    pub version: VersionTypeOrReq,
    /// The kind the member must be built for, if the consumer's own kind
    /// is not to decide.
    pub target: Option<TargetKind>,
}

/// What a workspace specifier says, with its strings as sequences.
pub ghost struct WorkspaceSpecifierView {
    pub name: (Seq<char>, Seq<char>),
    pub version: VersionTypeOrReqView,
    pub target: Option<TargetKind>,
}

impl View for WorkspaceDependencySpecifier {
    type V = WorkspaceSpecifierView;

    open spec fn view(&self) -> WorkspaceSpecifierView {
        WorkspaceSpecifierView { name: self.name@, version: self.version@, target: self.target }
    }
}

/// What a git specifier says, with its strings as sequences.
pub ghost struct GitSpecifierView {
    pub repo: Seq<char>,
    pub rev: Seq<char>,
    pub path: Option<Seq<char>>,
}

impl View for GitDependencySpecifier {
    type V = GitSpecifierView;

    open spec fn view(&self) -> GitSpecifierView {
        GitSpecifierView { repo: self.repo@, rev: self.rev@, path: opt_view(self.path) }
    }
}

/// A dependency as a manifest names it.
#[derive(Debug)]
pub enum DependencySpecifiers {
    /// A package of the registry.
    Pesde(PesdeDependencySpecifier),
    /// A package of a Wally registry.
    Wally(WallyDependencySpecifier),
    /// A package in a git repository.
    Git(GitDependencySpecifier),
    /// Another member of the workspace.
    Workspace(WorkspaceDependencySpecifier),
}

/// What a specifier says, with its strings as sequences.
pub ghost enum SpecifierView {
    Pesde(PesdeSpecifierView),
    Wally(WallySpecifierView),
    Git(GitSpecifierView),
    Workspace(WorkspaceSpecifierView),
}

impl View for DependencySpecifiers {
    type V = SpecifierView;

    open spec fn view(&self) -> SpecifierView {
        match self {
            DependencySpecifiers::Pesde(s) => SpecifierView::Pesde(s@),
            DependencySpecifiers::Wally(s) => SpecifierView::Wally(s@),
            DependencySpecifiers::Git(s) => SpecifierView::Git(s@),
            DependencySpecifiers::Workspace(s) => SpecifierView::Workspace(s@),
        }
    }
}

/// How a package depends on another.
#[derive(Debug, Clone, Copy, PartialEq, Eq, Structural, Hash)]
pub enum DependencyType {
    /// Needed whenever the package is used.
    Normal,
    /// Needed only to work on the package itself.
    Dev,
    /// Needed, and provided by whoever uses the package.
    Peer,
}

impl PesdeDependencySpecifier {
    /// A copy of the specifier.
    pub fn duplicate(&self) -> (r: PesdeDependencySpecifier)
        ensures
            r == *self,
    {
        PesdeDependencySpecifier {
            name: self.name.duplicate(),
            version: self.version.duplicate(),
            index: match &self.index {
                Some(i) => Some(i.clone()),
                None => None,
            },
            target: self.target,
        }
    }
}

impl WallyDependencySpecifier {
    /// A copy of the specifier.
    pub fn duplicate(&self) -> (r: WallyDependencySpecifier)
        ensures
            r == *self,
    {
        WallyDependencySpecifier {
            name: self.name.duplicate(),
            version: self.version.duplicate(),
            index: match &self.index {
                Some(i) => Some(i.clone()),
                None => None,
            },
        }
    }
}

impl WorkspaceDependencySpecifier {
    /// A copy of the specifier.
    pub fn duplicate(&self) -> (r: WorkspaceDependencySpecifier)
        ensures
            r == *self,
    {
        WorkspaceDependencySpecifier {
            name: self.name.duplicate(),
            version: match &self.version {
                VersionTypeOrReq::VersionType(t) => VersionTypeOrReq::VersionType(*t),
                VersionTypeOrReq::Req(r) => VersionTypeOrReq::Req(r.duplicate()),
            },
            target: self.target,
        }
    }
}

impl DependencySpecifiers {
    /// A copy of the specifier.
    pub fn duplicate(&self) -> (r: DependencySpecifiers)
        ensures
            r == *self,
    {
        match self {
            DependencySpecifiers::Pesde(s) => DependencySpecifiers::Pesde(s.duplicate()),
            DependencySpecifiers::Wally(s) => DependencySpecifiers::Wally(s.duplicate()),
            DependencySpecifiers::Git(s) => DependencySpecifiers::Git(s.duplicate()),
            DependencySpecifiers::Workspace(s) => DependencySpecifiers::Workspace(s.duplicate()),
        }
    }
}

} // verus!
