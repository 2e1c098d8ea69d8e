//! Runtimes a package can be built for, and what each declares.

use crate::text::concat;
use vstd::prelude::*;
use vstd::string::*;

verus! {

/// The runtime a package is built for.
#[derive(Debug, Clone, Copy, PartialEq, Eq, Structural, Hash)]
pub enum TargetKind {
    /// Code that runs in a Roblox place, on clients and servers alike.
    Roblox,
    /// Code that runs in a Roblox place on the server only.
    RobloxServer,
    /// Scripts for the Lune runtime.
    Lune,
    /// Plain Luau with no runtime of its own.
    Luau,
}

impl TargetKind {
    /// Whether this is one of the two Roblox kinds.
    pub open spec fn is_roblox_spec(self) -> bool {
        self == TargetKind::Roblox || self == TargetKind::RobloxServer
    }

    /// Whether a package of kind `self` may depend on one of kind
    /// `dependency`: every kind on itself, and Lune on plain Luau as well.
    pub open spec fn compatible_spec(self, dependency: TargetKind) -> bool {
        self == dependency || (self == TargetKind::Lune && dependency == TargetKind::Luau)
    }

    /// The name under which the kind is written in manifests and paths.
    pub open spec fn name_spec(self) -> Seq<char> {
        match self {
            TargetKind::Roblox => "roblox"@,
            TargetKind::RobloxServer => "roblox_server"@,
            TargetKind::Lune => "lune"@,
            TargetKind::Luau => "luau"@,
        }
    }

    /// The position of the kind in the fixed order of kinds.
    pub open spec fn rank_spec(self) -> int {
        match self {
            TargetKind::Roblox => 0,
            TargetKind::RobloxServer => 1,
            TargetKind::Lune => 2,
            TargetKind::Luau => 3,
        }
    }

    /// The directory, beside the consumer's sources, that holds its
    /// dependencies of kind `dependency`.
    pub open spec fn packages_folder_spec(self, dependency: TargetKind) -> Seq<char> {
        dependency.name_spec() + "_packages"@
    }

    /// Whether this is one of the two Roblox kinds.
    pub fn is_roblox(&self) -> (r: bool)
        ensures
            r == self.is_roblox_spec(),
    {
        match self {
            TargetKind::Roblox => true,
            TargetKind::RobloxServer => true,
            _ => false,
        }
    }

    /// Whether a package of this kind may depend on one of kind
    /// `dependency`.
    pub fn is_compatible_with(&self, dependency: &TargetKind) -> (r: bool)
        ensures
            r == self.compatible_spec(*dependency),
    {
        match (self, dependency) {
            (TargetKind::Roblox, TargetKind::Roblox) => true,
            (TargetKind::RobloxServer, TargetKind::RobloxServer) => true,
            (TargetKind::Lune, TargetKind::Lune) => true,
            (TargetKind::Luau, TargetKind::Luau) => true,
            (TargetKind::Lune, TargetKind::Luau) => true,
            _ => false,
        }
    }

    /// The name under which the kind is written in manifests and paths.
    pub fn name(&self) -> (r: String)
        ensures
            r@ == self.name_spec(),
    {
        match self {
            TargetKind::Roblox => String::from_str("roblox"),
            TargetKind::RobloxServer => String::from_str("roblox_server"),
            TargetKind::Lune => String::from_str("lune"),
            TargetKind::Luau => String::from_str("luau"),
        }
    }

    /// The kind written as `text`, if there is one.
    pub fn from_name(text: &str) -> (r: Option<TargetKind>)
        ensures
            match r {
                Some(kind) => kind.name_spec() == text@,
                None => forall|kind: TargetKind| kind.name_spec() != text@,
            },
    {
        if crate::text::str_eq(text, "roblox") {
            Some(TargetKind::Roblox)
        } else if crate::text::str_eq(text, "roblox_server") {
            Some(TargetKind::RobloxServer)
        } else if crate::text::str_eq(text, "lune") {
            Some(TargetKind::Lune)
        } else if crate::text::str_eq(text, "luau") {
            Some(TargetKind::Luau)
        } else {
            None
        }
    }

    /// The position of the kind in the fixed order of kinds.
    pub fn rank(&self) -> (r: u8)
        ensures
            r == self.rank_spec(),
    {
        match self {
            TargetKind::Roblox => 0,
            TargetKind::RobloxServer => 1,
            TargetKind::Lune => 2,
            TargetKind::Luau => 3,
        }
    }

    /// The directory that holds a consumer's dependencies of kind
    /// `dependency`.
    pub fn packages_folder(&self, dependency: &TargetKind) -> (r: String)
        ensures
            r@ == self.packages_folder_spec(*dependency),
    {
        let name = dependency.name();
        concat(name.as_str(), "_packages")
    }
}

/// A Roblox consumer can only depend on Roblox packages.
pub proof fn roblox_depends_on_roblox_only(consumer: TargetKind, dependency: TargetKind)
    requires
        consumer.is_roblox_spec(),
        consumer.compatible_spec(dependency),
    ensures
        dependency.is_roblox_spec(),
{
}

/// Two kinds with the same name are the same kind.
pub proof fn kind_names_differ(a: TargetKind, b: TargetKind)
    requires
        a.name_spec() == b.name_spec(),
    ensures
        a == b,
{
    reveal_strlit("roblox");
    reveal_strlit("roblox_server");
    reveal_strlit("lune");
    reveal_strlit("luau");
    if a != b {
        let x = a.name_spec();
        let y = b.name_spec();
        assert(x.len() == y.len());
        assert(x[0] == y[0]);
        assert(x[2] == y[2]);
    }
}

/// Dependencies of different kinds live in different directories.
pub proof fn packages_folders_differ(consumer: TargetKind, a: TargetKind, b: TargetKind)
    requires
        consumer.packages_folder_spec(a) == consumer.packages_folder_spec(b),
    ensures
        a == b,
{
    let suffix = "_packages"@;
    let x = a.name_spec();
    let y = b.name_spec();
    assert(x + suffix == y + suffix);
    assert(x.len() == y.len()) by {
        assert((x + suffix).len() == x.len() + suffix.len());
        assert((y + suffix).len() == y.len() + suffix.len());
    }
    assert(x =~= y) by {
        assert forall|i: int| 0 <= i < x.len() implies x[i] == y[i] by {
            assert((x + suffix)[i] == x[i]);
            assert((y + suffix)[i] == y[i]);
        }
    }
    kind_names_differ(a, b);
}

/// What a package declares for the runtime it is built for.
#[derive(Debug)]
pub enum Target {
    /// A package for Roblox places.
    Roblox {
        /// The library entry file, relative to the package root.
        lib: Option<String>,
        /// The files and directories handed to the sync-config generator.
        build_files: Vec<String>,
    },
    /// A package for the server side of Roblox places.
    RobloxServer {
        /// The library entry file, relative to the package root.
        lib: Option<String>,
        /// The files and directories handed to the sync-config generator.
        build_files: Vec<String>,
    },
    /// A package for the Lune runtime.
    Lune {
        /// The library entry file, relative to the package root.
        lib: Option<String>,
        /// The binary entry file, relative to the package root.
        bin: Option<String>,
    },
    /// A package of plain Luau.
    Luau {
        /// The library entry file, relative to the package root.
        lib: Option<String>,
        /// The binary entry file, relative to the package root.
        bin: Option<String>,
    },
}

/// What a target declares, with its strings as sequences.
pub ghost struct TargetView {
    pub kind: TargetKind,
    pub lib: Option<Seq<char>>,
    pub bin: Option<Seq<char>>,
    pub build_files: Option<Seq<Seq<char>>>,
}

impl View for Target {
    type V = TargetView;

    open spec fn view(&self) -> TargetView {
        TargetView {
            kind: self.kind_spec(),
            lib: match self.lib_spec() {
                Some(path) => Some(path@),
                None => None,
            },
            bin: match self.bin_spec() {
                Some(path) => Some(path@),
                None => None,
            },
            build_files: match self.build_files_spec() {
                Some(files) => Some(crate::text::views(files@)),
                None => None,
            },
        }
    }
}

/// What a target of kind `kind` declares that declares nothing: no entry
/// file and, for the Roblox kinds, no build file.
pub open spec fn bare_spec(kind: TargetKind) -> TargetView {
    TargetView {
        kind,
        lib: None,
        bin: None,
        build_files: if kind.is_roblox_spec() {
            Some(Seq::empty())
        } else {
            None
        },
    }
}

/// A target of kind `kind` that declares nothing.
pub fn bare_target(kind: TargetKind) -> (r: Target)
    ensures
        r@ == bare_spec(kind),
{
    let r = match kind {
        TargetKind::Roblox => Target::Roblox { lib: None, build_files: Vec::new() },
        TargetKind::RobloxServer => Target::RobloxServer { lib: None, build_files: Vec::new() },
        TargetKind::Lune => Target::Lune { lib: None, bin: None },
        TargetKind::Luau => Target::Luau { lib: None, bin: None },
    };
    assert(r@.build_files == bare_spec(kind).build_files);
    r
}

impl Target {
    /// A copy of the target.
    pub fn duplicate(&self) -> (r: Target)
        ensures
            r@ == self@,
    {
        match self {
            Target::Roblox { lib, build_files } => {
                let mut files: Vec<String> = Vec::new();
                crate::text::extend_texts(&mut files, build_files);
                assert(crate::text::views(files@) =~= crate::text::views(build_files@));
                Target::Roblox { lib: copy_text(lib), build_files: files }
            },
            Target::RobloxServer { lib, build_files } => {
                let mut files: Vec<String> = Vec::new();
                crate::text::extend_texts(&mut files, build_files);
                assert(crate::text::views(files@) =~= crate::text::views(build_files@));
                Target::RobloxServer { lib: copy_text(lib), build_files: files }
            },
            Target::Lune { lib, bin } => Target::Lune { lib: copy_text(lib), bin: copy_text(bin) },
            Target::Luau { lib, bin } => Target::Luau { lib: copy_text(lib), bin: copy_text(bin) },
        }
    }

    /// The kind of the target.
    pub open spec fn kind_spec(self) -> TargetKind {
        match self {
            Target::Roblox { .. } => TargetKind::Roblox,
            Target::RobloxServer { .. } => TargetKind::RobloxServer,
            Target::Lune { .. } => TargetKind::Lune,
            Target::Luau { .. } => TargetKind::Luau,
        }
    }

    /// The library entry file, if one is declared.
    pub open spec fn lib_spec(self) -> Option<String> {
        match self {
            Target::Roblox { lib, .. } => lib,
            Target::RobloxServer { lib, .. } => lib,
            Target::Lune { lib, .. } => lib,
            Target::Luau { lib, .. } => lib,
        }
    }

    /// The binary entry file, if one is declared. Roblox targets have none.
    pub open spec fn bin_spec(self) -> Option<String> {
        match self {
            Target::Roblox { .. } => None,
            Target::RobloxServer { .. } => None,
            Target::Lune { bin, .. } => bin,
            Target::Luau { bin, .. } => bin,
        }
    }

    /// The build files of a Roblox target; other targets have none.
    pub open spec fn build_files_spec(self) -> Option<Vec<String>> {
        match self {
            Target::Roblox { build_files, .. } => Some(build_files),
            Target::RobloxServer { build_files, .. } => Some(build_files),
            Target::Lune { .. } => None,
            Target::Luau { .. } => None,
        }
    }

    /// The kind of the target.
    pub fn kind(&self) -> (r: TargetKind)
        ensures
            r == self.kind_spec(),
    {
        match self {
            Target::Roblox { .. } => TargetKind::Roblox,
            Target::RobloxServer { .. } => TargetKind::RobloxServer,
            Target::Lune { .. } => TargetKind::Lune,
            Target::Luau { .. } => TargetKind::Luau,
        }
    }

    /// The library entry file, if one is declared.
    pub fn lib_path(&self) -> (r: Option<&String>)
        ensures
            match r {
                Some(path) => self.lib_spec() == Some(*path),
                None => self.lib_spec() is None,
            },
    {
        match self {
            Target::Roblox { lib, .. } => lib.as_ref(),
            Target::RobloxServer { lib, .. } => lib.as_ref(),
            Target::Lune { lib, .. } => lib.as_ref(),
            Target::Luau { lib, .. } => lib.as_ref(),
        }
    }

    /// The binary entry file, if one is declared.
    pub fn bin_path(&self) -> (r: Option<&String>)
        ensures
            match r {
                Some(path) => self.bin_spec() == Some(*path),
                None => self.bin_spec() is None,
            },
    {
        match self {
            Target::Roblox { .. } => None,
            Target::RobloxServer { .. } => None,
            Target::Lune { bin, .. } => bin.as_ref(),
            Target::Luau { bin, .. } => bin.as_ref(),
        }
    }

    /// The build files of a Roblox target.
    pub fn build_files(&self) -> (r: Option<&Vec<String>>)
        ensures
            match r {
                Some(files) => self.build_files_spec() == Some(*files),
                None => self.build_files_spec() is None,
            },
    {
        match self {
            Target::Roblox { build_files, .. } => Some(build_files),
            Target::RobloxServer { build_files, .. } => Some(build_files),
            Target::Lune { .. } => None,
            Target::Luau { .. } => None,
        }
    }
}

/// A copy of an optional string.
fn copy_text(text: &Option<String>) -> (r: Option<String>)
    ensures
        r == *text,
{
    match text {
        Some(t) => Some(t.clone()),
        None => None,
    }
}

} // verus!
