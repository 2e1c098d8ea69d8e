//! Finding out what a Wally package is built for: Wally manifests do not
//! say where the library of a package lives.

use crate::manifest::target::Target;
use crate::paths::{extension, extension_spec};
use crate::text::str_eq;
use crate::LINK_LIB_NO_FILE_FOUND;
use vstd::prelude::*;
use vstd::string::*;

verus! {

/// The name of the manifest file of a Wally package.
pub const WALLY_MANIFEST_FILE_NAME: &'static str = "wally.toml";

/// The role of the script that makes the sourcemap of a package.
pub const SOURCEMAP_GENERATOR: &'static str = "sourcemap_generator";

/// Where a Wally package runs.
#[derive(Debug, Clone, Copy, PartialEq, Eq, Structural)]
pub enum Realm {
    /// On clients and servers.
    Shared,
    /// On servers only.
    Server,
}

/// Whether `path` is a Luau source file by its extension.
pub open spec fn is_luau_file(path: Seq<char>) -> bool {
    extension_spec(path) == Some("lua"@) || extension_spec(path) == Some("luau"@)
}

/// Whether `ext`, the extension of a path, is that of a Luau source file.
pub fn is_luau_extension(ext: &Option<String>) -> (r: bool)
    ensures
        r == (crate::source::specifiers::opt_view(*ext) == Some("lua"@)
            || crate::source::specifiers::opt_view(*ext) == Some("luau"@)),
{
    match ext {
        Some(ext) => str_eq(ext.as_str(), "lua") || str_eq(ext.as_str(), "luau"),
        None => false,
    }
}

/// What the sourcemap generator printed, if it is worth parsing: nothing
/// where the script printed nothing.
pub fn sourcemap_output(output: Option<String>) -> (r: Option<String>)
    ensures
        r == match output {
            Some(text) => if text@.len() == 0 {
                None
            } else {
                Some(text)
            },
            None => None,
        },
{
    match output {
        Some(text) => {
            if text.as_str().unicode_len() == 0 {
                None
            } else {
                Some(text)
            }
        },
        None => None,
    }
}

/// The library file of a package, given the file paths of the root of
/// its sourcemap: the first that is a Luau source file.
pub fn find_lib_path(file_paths: &Vec<String>) -> (r: Option<String>)
    ensures
        match r {
            Some(path) => exists|i: int|
                0 <= i < file_paths@.len() && path@ == (#[trigger] file_paths@[i])@
                    && is_luau_file(path@) && forall|k: int|
                    0 <= k < i ==> !is_luau_file((#[trigger] file_paths@[k])@),
            None => forall|k: int|
                0 <= k < file_paths@.len() ==> !is_luau_file((#[trigger] file_paths@[k])@),
        },
{
    let mut i: usize = 0;
    while i < file_paths.len()
        invariant
            i <= file_paths@.len(),
            forall|k: int| 0 <= k < i ==> !is_luau_file((#[trigger] file_paths@[k])@),
        decreases file_paths@.len() - i,
    {
        let ext = extension(file_paths[i].as_str());
        let luau = is_luau_extension(&ext);
        if luau {
            return Some(file_paths[i].clone());
        }
        i += 1;
    }
    None
}

/// The target of a Wally package: the Roblox kind of its realm, with the
/// library that was found, or the marker that none was, and no build
/// files.
pub fn get_target(lib: Option<String>, realm: Realm) -> (r: Target)
    ensures
        r.build_files_spec() matches Some(files) && files@.len() == 0,
        r.kind_spec() == match realm {
            Realm::Shared => crate::manifest::target::TargetKind::Roblox,
            Realm::Server => crate::manifest::target::TargetKind::RobloxServer,
        },
        r.lib_spec() matches Some(path) && path@ == match lib {
            Some(found) => found@,
            None => LINK_LIB_NO_FILE_FOUND@,
        },
{
    let lib = match lib {
        Some(found) => Some(found),
        None => Some(String::from_str(LINK_LIB_NO_FILE_FOUND)),
    };
    match realm {
        Realm::Shared => Target::Roblox { lib, build_files: Vec::new() },
        Realm::Server => Target::RobloxServer { lib, build_files: Vec::new() },
    }
}

} // verus!
