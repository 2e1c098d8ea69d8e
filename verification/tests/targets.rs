use pesde::linking::generator::{exported_type, exported_types, get_file_types};
use pesde::manifest::target::{bare_target, Target, TargetKind};
use pesde::paths::{pieces, root_of_parts, RootError};
use pesde::publish::PublishCommand;
use pesde::resolver::Release;
use pesde::source::fs::{cas_path, hash, store_in_cas, FSEntry, PackageFS};
use pesde::archive::ArchiveEntry;
use pesde::source::version_id::{Version, VersionId};
use pesde::source::wally::compat_util::is_luau_extension;

fn texts(items: &[&str]) -> Vec<String> {
    items.iter().map(|s| s.to_string()).collect()
}

#[test]
fn a_bare_target_declares_nothing() {
    for kind in [TargetKind::Roblox, TargetKind::RobloxServer, TargetKind::Lune, TargetKind::Luau] {
        let target = bare_target(kind);
        assert_eq!(target.kind(), kind);
        assert_eq!(target.lib_path(), None);
        assert_eq!(target.bin_path(), None);
        let none: Vec<String> = Vec::new();
        assert_eq!(target.build_files(), if kind.is_roblox() { Some(&none) } else { None });
    }
}

#[test]
fn a_copy_of_a_target_declares_the_same() {
    let lune = Target::Lune { lib: Some("lib.luau".to_string()), bin: Some("bin/run.luau".to_string()) };
    let copy = lune.duplicate();
    assert_eq!(copy.kind(), TargetKind::Lune);
    assert_eq!(copy.lib_path(), lune.lib_path());
    assert_eq!(copy.bin_path(), lune.bin_path());
    let server = Target::RobloxServer { lib: None, build_files: texts(&["a", "b"]) };
    let copy = server.duplicate();
    assert_eq!(copy.kind(), TargetKind::RobloxServer);
    assert_eq!(copy.lib_path(), None);
    assert_eq!(copy.build_files(), Some(&texts(&["a", "b"])));
}

#[test]
fn a_release_is_known_by_version_and_kind() {
    let release = Release {
        version: Version::new(1, 2, 3),
        target: Target::Luau { lib: Some("init.luau".to_string()), bin: None },
        dependencies: Vec::new(),
    };
    assert_eq!(release.id(), VersionId::new(Version::new(1, 2, 3), TargetKind::Luau));
}

#[test]
fn only_roblox_kinds_need_the_lockfile() {
    assert!(PublishCommand::needs_lockfile(TargetKind::Roblox));
    assert!(PublishCommand::needs_lockfile(TargetKind::RobloxServer));
    assert!(!PublishCommand::needs_lockfile(TargetKind::Lune));
    assert!(!PublishCommand::needs_lockfile(TargetKind::Luau));
}

#[test]
fn exported_types_are_read_off_the_tokens() {
    assert_eq!(exported_type(&texts(&["export ", "type ", "Props ", "= ", "{", "}"])), None);
    assert_eq!(exported_type(&texts(&["export", "type", "Props", "=", "{", "}"])), Some("Props".to_string()));
    assert_eq!(exported_type(&texts(&["type", "Props", "=", "number"])), None);
    assert_eq!(exported_type(&texts(&["export", "type"])), None);
    assert_eq!(exported_type(&texts(&["export", "function", "f"])), None);
    assert_eq!(exported_type(&texts(&["export", "type", "function", "f", "(", ")", "end"])), None);
    assert_eq!(exported_type(&Vec::new()), None);
    let statements = vec![
        texts(&["export", "type", "A", "=", "number"]),
        texts(&["local", "x", "=", "1"]),
        texts(&["type", "Hidden", "=", "number"]),
        texts(&["export", "type", "B", "=", "A"]),
        texts(&["export", "type", "A", "=", "string"]),
    ];
    assert_eq!(exported_types(&statements), texts(&["A", "B", "A"]));
    assert!(exported_types(&Vec::new()).is_empty());
}

#[test]
fn luau_extensions() {
    assert!(is_luau_extension(&Some("lua".to_string())));
    assert!(is_luau_extension(&Some("luau".to_string())));
    assert!(!is_luau_extension(&Some("Luau".to_string())));
    assert!(!is_luau_extension(&Some("txt".to_string())));
    assert!(!is_luau_extension(&Some(String::new())));
    assert!(!is_luau_extension(&None));
}

#[test]
fn pieces_of_a_name() {
    assert_eq!(pieces("a/b/c"), texts(&["a", "b", "c"]));
    assert_eq!(pieces("/a//b/"), texts(&["a", "b"]));
    assert_eq!(pieces("./a/../b"), texts(&[".", "a", "..", "b"]));
    assert_eq!(pieces("a\\b"), texts(&["a\\b"]));
    assert!(pieces("").is_empty());
    assert!(pieces("///").is_empty());
}

#[test]
fn the_root_of_a_list_of_components() {
    assert_eq!(root_of_parts(&texts(&["src", "init.luau"])), Ok("src".to_string()));
    assert_eq!(root_of_parts(&texts(&["init.luau"])), Ok("init.luau".to_string()));
    assert_eq!(root_of_parts(&texts(&[".", "src"])), Ok("src".to_string()));
    assert_eq!(root_of_parts(&Vec::new()), Err(RootError::NoParts));
    assert_eq!(root_of_parts(&texts(&[".", "."])), Err(RootError::NoParts));
    assert_eq!(root_of_parts(&texts(&["..", "src"])), Err(RootError::OutsidePackage));
    assert_eq!(root_of_parts(&texts(&[".", "..", "src"])), Err(RootError::OutsidePackage));
}

#[test]
fn the_tree_holds_the_entries_of_the_archive() {
    let entries = vec![
        ArchiveEntry { path: "src".to_string(), is_dir: true, contents: Vec::new() },
        ArchiveEntry { path: "src/init.luau".to_string(), is_dir: false, contents: b"return 1".to_vec() },
        ArchiveEntry { path: "pesde.toml".to_string(), is_dir: false, contents: b"name = \"a/b\"".to_vec() },
        ArchiveEntry { path: "src/init.luau".to_string(), is_dir: false, contents: b"return 2".to_vec() },
    ];
    let tree = PackageFS::from_entries(&entries);
    let mut paths: Vec<&str> = tree.nodes.iter().map(|n| n.path.as_str()).collect();
    paths.sort();
    assert_eq!(paths, vec!["pesde.toml", "src", "src/init.luau"]);
    let at = tree.position("src/init.luau").expect("the file");
    match &tree.nodes[at].entry {
        FSEntry::File(digest) => assert_eq!(digest, &hash(b"return 2")),
        FSEntry::Directory => panic!("a directory"),
    }
    let at = tree.position("src").expect("the directory");
    assert!(matches!(tree.nodes[at].entry, FSEntry::Directory));
    assert_eq!(tree.position("lib"), None);
}

#[test]
fn equal_contents_are_stored_once() {
    let a = store_in_cas(b"return 1");
    let b = store_in_cas(&b"return 1".to_vec());
    assert_eq!(a.hash, b.hash);
    assert_eq!(a.folder, b.folder);
    assert_eq!(a.path, b.path);
    assert_eq!(a.hash, hash(b"return 1"));
    assert_eq!(a.hash.len(), 64);
    assert_eq!(a.folder, a.hash[..2]);
    assert_eq!(a.path, format!("{}/{}", &a.hash[..2], &a.hash[2..]));
    let c = store_in_cas(b"return 2");
    assert_ne!(a.path, c.path);
    assert_eq!(cas_path(&a.hash).expect("a place").path, a.path);
}

#[test]
fn only_type_declarations_are_exported_types() {
    let code = "export type function pick(t)\n\treturn t\nend\nexport type A = number\nlocal function f() end\nexport type B<T> = { T }\n";
    assert_eq!(get_file_types(code), texts(&["A", "B"]));
    assert_eq!(get_file_types("-- a comment\nexport type   Spaced   = string -- trailing\n"), texts(&["Spaced"]));
    assert_eq!(get_file_types("do\n\texport type Inner = number\nend\n"), Vec::<String>::new());
}

const PATHS: [&str; 34] = [
    "", "/", "a", "a/b", "a//b", "/a/b/", "./a", "a/./b", "../a", "a/..", "a/../b", ".", "..", "...",
    "a/b/.", "a\\b", "src/init.luau", ".hidden/file", "a/b//", "//a", "é/日本", "foo.rs", ".rs",
    "foo.rs/.", "foo.rs/.//", "foo.rs/..", "a/b/c.tar.gz", "dir.d/file", "a.", ".a.b", "..b", "a/.b.",
    "x/y.z/./.", "a.b/../c",
];

#[test]
fn components_are_the_pieces_between_slashes() {
    for path in PATHS {
        let theirs: Vec<String> =
            relative_path::RelativePath::new(path).components().map(|c| c.as_str().to_string()).collect();
        assert_eq!(pesde::paths::components(path), theirs, "{:?}", path);
        assert_eq!(pieces(path), theirs, "{:?}", path);
    }
    assert_eq!(pesde::paths::components("a/./../b/"), texts(&["a", ".", "..", "b"]));
}

#[test]
fn the_extension_is_that_of_a_relative_path() {
    for path in PATHS {
        let theirs = relative_path::RelativePath::new(path).extension().map(|e| e.to_string());
        assert_eq!(pesde::paths::extension(path), theirs, "{:?}", path);
    }
}

#[test]
fn the_extension_follows_the_last_dot_of_the_file_name() {
    let ext = |path: &str| pesde::paths::extension(path);
    assert_eq!(ext("foo.rs"), Some("rs".to_string()));
    assert_eq!(ext(".rs"), None);
    assert_eq!(ext("foo.rs/."), Some("rs".to_string()));
    assert_eq!(ext("foo.rs/.//"), Some("rs".to_string()));
    assert_eq!(ext("foo.rs/.."), None);
    assert_eq!(ext("a/b/c.tar.gz"), Some("gz".to_string()));
    assert_eq!(ext("dir.d/file"), None);
    assert_eq!(ext("a."), Some(String::new()));
    assert_eq!(ext(".a.b"), Some("b".to_string()));
    assert_eq!(ext("..b"), Some("b".to_string()));
    assert_eq!(ext("..."), Some(String::new()));
    assert_eq!(ext(""), None);
    assert_eq!(ext("."), None);
    assert_eq!(ext(".."), None);
    assert_eq!(ext("src/init.luau"), Some("luau".to_string()));
    assert_eq!(ext("src/init.luau/"), Some("luau".to_string()));
}
