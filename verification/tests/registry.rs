use pesde::archive::{build_archive, ArchiveEntry};
use pesde::lockfile::{DeclaredDependency, PackageRef, SourceKind};
use pesde::manifest::target::{Target, TargetKind};
use pesde::manifest::Named;
use pesde::names::PackageName;
use pesde::source::fs::{cas_path, hash, store_in_cas, FSEntry, PackageFS};
use pesde::source::pesde::{
    AllPackagesError, DownloadError, IndexConfig, IndexFileEntry, IndexVersion, PesdePackageSource,
    RefreshAction, ResolveError, ScopeInfo,
};
use pesde::source::specifiers::{DependencySpecifiers, DependencyType, PesdeDependencySpecifier};
use pesde::source::version_id::{Version, VersionId, VersionReq};
use pesde::source::wally::compat_util::{find_lib_path, get_target, sourcemap_output, Realm};
use pesde::{Account, AuthConfig, Project};

fn name(text: &str) -> PackageName {
    PackageName::parse(text).expect("a package name")
}

fn config(api: &str, download: Option<&str>) -> IndexConfig {
    IndexConfig {
        api: api.to_string(),
        download: download.map(|s| s.to_string()),
        git_allowed: false,
        other_registries_allowed: false,
        max_archive_size: 4 * 1024 * 1024,
        github_oauth_client_id: "client".to_string(),
    }
}

#[test]
fn download_urls_are_filled_in() {
    let c = config("https://registry.example.com/", None);
    assert_eq!(c.api(), "https://registry.example.com");
    assert_eq!(c.download(), "https://registry.example.com/v0/packages/{PACKAGE}/{PACKAGE_VERSION}/{PACKAGE_TARGET}");
    assert_eq!(
        c.download_url(&name("scope/util"), &Version::new(1, 3, 1), TargetKind::Lune),
        "https://registry.example.com/v0/packages/scope%2Futil/1.3.1/lune"
    );
    let c = config("https://registry.example.com///", Some("https://cdn.example.com/{PACKAGE}-{PACKAGE_VERSION}-{PACKAGE_TARGET}.tar.gz?from={API_URL}&again={PACKAGE}"));
    assert_eq!(
        c.download_url(&name("scope/util"), &Version::new(0, 1, 0), TargetKind::RobloxServer),
        "https://cdn.example.com/scope%2Futil-0.1.0-roblox_server.tar.gz?from=https://registry.example.com&again=scope%2Futil"
    );
    assert_eq!(config("", None).api(), "");
    assert_eq!(config("///", None).api(), "");
}

fn entry(version: (u64, u64, u64), target: Target, deps: Vec<DeclaredDependency>) -> IndexVersion {
    IndexVersion {
        id: VersionId::new(Version::new(version.0, version.1, version.2), target.kind()),
        entry: IndexFileEntry {
            target,
            published_at: "2024-10-01T00:00:00Z".to_string(),
            description: None,
            license: None,
            dependencies: deps,
        },
    }
}

fn lune() -> Target {
    Target::Lune { lib: Some("src/init.luau".to_string()), bin: None }
}

fn luau() -> Target {
    Target::Luau { lib: Some("src/init.luau".to_string()), bin: None }
}

fn specifier(req: &str, target: Option<TargetKind>) -> PesdeDependencySpecifier {
    PesdeDependencySpecifier {
        name: name("scope/util"),
        version: VersionReq::parse(req).unwrap(),
        index: None,
        target,
    }
}

#[test]
fn the_source_filters_the_index_file() {
    let source = PesdePackageSource::new("https://github.com/acme/index".to_string());
    assert_eq!(source.repo_url(), "https://github.com/acme/index");
    let file = || {
        Some(vec![
            entry((1, 2, 0), lune(), Vec::new()),
            entry((1, 3, 1), luau(), vec![DeclaredDependency {
                alias: "dep".to_string(),
                specifier: DependencySpecifiers::Pesde(specifier("^1", None)),
                ty: DependencyType::Peer,
            }]),
            entry((2, 0, 0), lune(), Vec::new()),
            entry((1, 3, 1), Target::Roblox { lib: None, build_files: vec!["src".to_string()] }, Vec::new()),
        ])
    };
    let ids = |r: pesde::source::pesde::ResolveResult| r.versions.iter().map(|v| v.id.text()).collect::<Vec<_>>();
    let found = source.resolve(&specifier("^1.2.0", None), file(), TargetKind::Lune).unwrap();
    assert_eq!(found.name.text(), "scope/util");
    assert_eq!(found.versions[1].pkg_ref.dependencies.len(), 1);
    assert_eq!(found.versions[1].pkg_ref.target.kind(), TargetKind::Luau);
    assert_eq!(found.versions[1].pkg_ref.target.lib_path().map(|s| s.as_str()), Some("src/init.luau"));
    assert_eq!(found.versions[0].pkg_ref.location, "https://github.com/acme/index");
    assert_eq!(found.versions[0].pkg_ref.source, SourceKind::Pesde);
    assert_eq!(ids(found), vec!["1.2.0 lune", "1.3.1 luau"]);
    assert_eq!(ids(source.resolve(&specifier("^1.2.0", None), file(), TargetKind::Luau).unwrap()), vec!["1.3.1 luau"]);
    assert_eq!(ids(source.resolve(&specifier("*", Some(TargetKind::Roblox)), file(), TargetKind::Lune).unwrap()), vec!["1.3.1 roblox"]);
    // a Roblox consumer finds nothing that is built for it among the releases for other kinds
    assert!(ids(source.resolve(&specifier("*", None), file(), TargetKind::RobloxServer).unwrap()).is_empty());
    assert!(ids(source.resolve(&specifier("^3", None), file(), TargetKind::Lune).unwrap()).is_empty());
    match source.resolve(&specifier("*", None), None, TargetKind::Lune) {
        Err(ResolveError::NotFound(package)) => assert_eq!(package, "scope/util"),
        other => panic!("{:?}", other),
    }
}

#[test]
fn index_files_are_told_apart() {
    assert!(matches!(PesdePackageSource::package_file("scope", "scope.toml", true, b"owners = [1]".to_vec()), Ok(None)));
    assert!(matches!(PesdePackageSource::package_file("scope", "dir", false, Vec::new()), Ok(None)));
    match PesdePackageSource::package_file("scope", "util", true, "\"1.0.0 lune\" = {}".as_bytes().to_vec()) {
        Ok(Some(file)) => {
            assert_eq!(file.name.text(), "scope/util");
            assert_eq!(file.text, "\"1.0.0 lune\" = {}");
        }
        other => panic!("{:?}", other),
    }
    match PesdePackageSource::package_file("scope", "util", true, vec![0xff, 0xfe]) {
        Err(AllPackagesError::Utf8(file)) => assert_eq!(file, "util"),
        other => panic!("{:?}", other),
    }
    match PesdePackageSource::package_file("Scope", "util", true, Vec::new()) {
        Err(AllPackagesError::InvalidName(text)) => assert_eq!(text, "Scope/util"),
        other => panic!("{:?}", other),
    }
}

#[test]
fn refresh_and_references() {
    assert_eq!(PesdePackageSource::refresh(true), RefreshAction::Fetch);
    assert_eq!(PesdePackageSource::refresh(false), RefreshAction::Clone);
    assert_eq!(PesdePackageSource::local_ref("refs/remotes/origin/*", Some("master")), "refs/remotes/origin/master");
    assert_eq!(PesdePackageSource::local_ref("refs/remotes/origin/*", None), "refs/remotes/origin/main");
    assert_eq!(PesdePackageSource::local_ref("refs/heads/main", Some("dev")), "refs/heads/main");
    let owners = ScopeInfo { owners: [3, 5, 8].into_iter().collect() };
    assert!(owners.is_owner(5));
    assert!(!owners.is_owner(4));
}

#[test]
fn cas_dedup() {
    let contents = vec![b'x'; 1024];
    let first = store_in_cas(&contents);
    let second = store_in_cas(&contents.clone());
    assert_eq!(first.hash, second.hash);
    assert_eq!(first.path, second.path);
    assert_eq!(first.hash.len(), 64);
    assert_eq!(first.folder, &first.hash[0..2]);
    assert_eq!(first.path, format!("{}/{}", &first.hash[0..2], &first.hash[2..]));
    let other = store_in_cas(&vec![b'y'; 1024]);
    assert_ne!(other.path, first.path);

    // two packages that ship the same file record it under one hash
    let a = PackageFS::from_entries(&vec![ArchiveEntry { path: "same.luau".to_string(), is_dir: false, contents: contents.clone() }]);
    let b = PackageFS::from_entries(&vec![ArchiveEntry { path: "lib/also.luau".to_string(), is_dir: false, contents }]);
    match (&a.nodes[0].entry, &b.nodes[0].entry) {
        (FSEntry::File(x), FSEntry::File(y)) => assert_eq!(x, y),
        other => panic!("{:?}", other),
    }
}

#[test]
fn hashes_are_sha256() {
    assert_eq!(hash(b""), "e3b0c44298fc1c149afbf4c8996fb92427ae41e4649b934ca495991b7852b855");
    assert_eq!(hash(b"abc"), "ba7816bf8f01cfea414140de5dae2223b00361a396177a9cb410ff61f20015ad");
    let at = cas_path("ba7816bf").unwrap();
    assert_eq!((at.folder.as_str(), at.path.as_str(), at.hash.as_str()), ("ba", "ba/7816bf", "ba7816bf"));
    assert_eq!(cas_path("ab").unwrap().path, "ab/");
    assert!(cas_path("a").is_none());
    assert!(cas_path("").is_none());
}

fn reference(target: Target) -> PackageRef {
    PackageRef {
        source: SourceKind::Pesde,
        location: "https://github.com/acme/index".to_string(),
        target,
        dependencies: Vec::new(),
    }
}

#[test]
fn archives_become_file_trees() {
    let files = vec![
        ArchiveEntry { path: "src".to_string(), is_dir: true, contents: Vec::new() },
        ArchiveEntry { path: "src/init.luau".to_string(), is_dir: false, contents: b"return 1".to_vec() },
        ArchiveEntry { path: "src/init.luau".to_string(), is_dir: false, contents: b"return 2".to_vec() },
    ];
    let bytes = build_archive(files, b"name = \"scope/util\"".to_vec()).unwrap();
    let recorded = Target::Lune { lib: Some("src/init.luau".to_string()), bin: Some("src/bin.luau".to_string()) };
    let (fs, entries, target) = PesdePackageSource::download(&reference(recorded), &bytes).unwrap();
    // the target of the release is the one that the reference carries
    assert_eq!(target.kind(), TargetKind::Lune);
    assert_eq!(target.lib_path(), Some(&"src/init.luau".to_string()));
    assert_eq!(target.bin_path(), Some(&"src/bin.luau".to_string()));
    assert_eq!(entries.len(), 4);
    let paths: Vec<&str> = fs.nodes.iter().map(|n| n.path.as_str()).collect();
    assert_eq!(paths, vec!["src", "src/init.luau", "pesde.toml"]);
    assert!(matches!(fs.nodes[0].entry, FSEntry::Directory));
    // of two entries with one path the later counts
    assert!(matches!(&fs.nodes[1].entry, FSEntry::File(h) if *h == hash(b"return 2")));
    assert!(matches!(&fs.nodes[2].entry, FSEntry::File(h) if *h == hash(b"name = \"scope/util\"")));
    assert_eq!(fs.position("src/init.luau"), Some(1));
    assert_eq!(fs.position("nothing"), None);
    let lune = || reference(Target::Lune { lib: None, bin: None });
    assert_eq!(PesdePackageSource::download(&lune(), b"no archive").unwrap_err(), DownloadError::Unpack);
    // a file is recorded by the digest of its bytes, text or not
    let blob = vec![0xff, 0xfe, 0x00, 0x80];
    let files = vec![ArchiveEntry { path: "blob.bin".to_string(), is_dir: false, contents: blob.clone() }];
    let bytes = build_archive(files, Vec::new()).unwrap();
    let (fs, entries, _) = PesdePackageSource::download(&lune(), &bytes).unwrap();
    assert_eq!(entries[0].contents, blob);
    assert!(matches!(&fs.nodes[0].entry, FSEntry::File(h) if *h == hash(&blob)));
    assert_eq!(store_in_cas(&blob).hash, hash(&blob));
    assert_eq!(
        PesdePackageSource::index_file(&name("scope/util"), &Version::new(1, 3, 1), TargetKind::Lune),
        "index/scope+util/1.3.1/lune"
    );
}

#[test]
fn projects_know_their_directories() {
    let auth = AuthConfig::new()
        .with_tokens(vec![Named { name: "https://github.com/acme/index".to_string(), value: "secret".to_string() }])
        .with_git_credentials(Some(Account { username: "me".to_string(), password: "pw".to_string() }));
    assert_eq!(auth.tokens().len(), 1);
    assert_eq!(auth.token_for("https://github.com/acme/index").map(|s| s.as_str()), Some("secret"));
    assert!(auth.token_for("https://github.com/acme/other").is_none());
    assert_eq!(auth.git_credentials().map(|a| a.username.as_str()), Some("me"));
    let project = Project::new("/work/app".to_string(), None, "/data".to_string(), "/cas".to_string(), auth);
    assert_eq!(project.package_dir(), "/work/app");
    assert!(project.workspace_dir().is_none());
    assert_eq!(project.data_dir(), "/data");
    assert_eq!(project.cas_dir(), "/cas");
    assert_eq!(project.auth_config().tokens().len(), 1);
    let source = PesdePackageSource::new("https://github.com/acme/index".to_string());
    assert_eq!(source.path(&project), format!("/data/indices/{}", hash(b"https://github.com/acme/index")));
    assert!(AuthConfig::new().git_credentials().is_none());
}

#[test]
fn wally_packages_get_a_target() {
    assert_eq!(sourcemap_output(None), None);
    assert_eq!(sourcemap_output(Some(String::new())), None);
    assert_eq!(sourcemap_output(Some("{}".to_string())).as_deref(), Some("{}"));
    let paths = |items: &[&str]| items.iter().map(|s| s.to_string()).collect::<Vec<_>>();
    assert_eq!(find_lib_path(&paths(&["default.project.json", "src/init.meta.json", "src/init.lua", "src/a.luau"])).as_deref(), Some("src/init.lua"));
    assert_eq!(find_lib_path(&paths(&["a.txt", "b.luau/", "c/.luau", "d.lua/..", "e."])).as_deref(), Some("b.luau/"));
    assert_eq!(find_lib_path(&paths(&[".luau", "lua", "x.LUA", "dir.lua/file"])), None);
    assert_eq!(find_lib_path(&Vec::new()), None);
    match get_target(Some("src/init.lua".to_string()), Realm::Shared) {
        Target::Roblox { lib, build_files } => {
            assert_eq!(lib.as_deref(), Some("src/init.lua"));
            assert!(build_files.is_empty());
        }
        other => panic!("{:?}", other),
    }
    match get_target(None, Realm::Server) {
        Target::RobloxServer { lib, build_files } => {
            assert_eq!(lib.as_deref(), Some("____pesde_no_export_file_found"));
            assert!(build_files.is_empty());
        }
        other => panic!("{:?}", other),
    }
}

#[test]
fn packages_are_published_to_the_api() {
    assert_eq!(config("https://registry.example.com", None).publish_url(), "https://registry.example.com/v0/packages");
    assert_eq!(config("https://registry.example.com///", None).publish_url(), "https://registry.example.com/v0/packages");
    assert_eq!(config("https://registry.example.com/api/", Some("{API_URL}/x")).publish_url(), "https://registry.example.com/api/v0/packages");
}
