use pesde::archive::ArchiveEntry;
use pesde::linking::generator::get_lib_require_path;
use pesde::lockfile::{
    manifest_digest, up_to_date_lockfile, DeclaredDependency, DependencyGraph, DependencyGraphNode,
    DownloadedGraph, Edge, GraphEntry, Lockfile, PackageRef, SourceKind,
};
use pesde::manifest::target::{bare_target, Target, TargetKind};
use pesde::manifest::{add_export_root, lookup, position, first_repeated, Dependency, Manifest, Named};
use pesde::names::PackageName;
use pesde::paths::{components, diff_paths};
use pesde::publish::exports::{plan_archive, PathKind, Probed};
use pesde::publish::includes::{is_blocked, is_readme, normalize_includes};
use pesde::resolver::{is_candidate, is_preferred, pick, resolve, DependencyGraphError, Release, SourcePackage};
use pesde::source::fs::{store_in_cas, FSEntry, FSNode, FsAction, PackageFS};
use pesde::publish::{PolicyViolation, PublishCommand, Refusal};
use pesde::source::git::specifier::GitDependencySpecifier;
use pesde::source::pesde::{IndexConfig, PesdePackageSource};
use pesde::source::specifiers::{
    DependencySpecifiers, DependencyType, PesdeDependencySpecifier, VersionType, VersionTypeOrReq,
    WallyDependencySpecifier, WorkspaceDependencySpecifier,
};
use pesde::source::workspace::{WorkspaceMember, WorkspacePackageSource};
use pesde::source::version_id::{Version, VersionId, VersionReq};

const INDEX: &str = "https://github.com/acme/index";

fn name(text: &str) -> PackageName {
    PackageName::parse(text).expect("a package name")
}

fn strings(items: &[&str]) -> Vec<String> {
    items.iter().map(|s| s.to_string()).collect()
}

fn manifest(target: Target) -> Manifest {
    Manifest {
        name: name("acme/app"),
        version: Version::new(0, 1, 0),
        description: None,
        license: None,
        authors: Vec::new(),
        repository: None,
        private: false,
        target,
        indices: vec![Named { name: "default".to_string(), value: INDEX.to_string() }],
        wally_indices: Vec::new(),
        scripts: Vec::new(),
        includes: Vec::new(),
        dependencies: Vec::new(),
        dev_dependencies: Vec::new(),
        peer_dependencies: Vec::new(),
        workspace_members: Vec::new(),
    }
}

fn registry(package: &str, req: &str, index: Option<&str>) -> DependencySpecifiers {
    DependencySpecifiers::Pesde(PesdeDependencySpecifier {
        name: name(package),
        version: VersionReq::parse(req).expect("a requirement"),
        index: index.map(|s| s.to_string()),
        target: None,
    })
}

fn release(version: (u64, u64, u64), target: TargetKind, dependencies: Vec<DeclaredDependency>) -> Release {
    Release { version: Version::new(version.0, version.1, version.2), target: bare_target(target), dependencies }
}

fn package(package: &str, releases: Vec<Release>) -> SourcePackage {
    SourcePackage { source: SourceKind::Pesde, location: INDEX.to_string(), name: name(package), releases }
}

/// What a package ships comes back out of its archive: every included file, and
/// the manifest with the target that was declared.
#[test]
fn published_package_round_trip() {
    let declared = "name = \"scope/util\"\nversion = \"1.3.1\"\nincludes = [\"src\", \"README.md\", \".git\"]\n\n[target]\nenvironment = \"lune\"\nlib = \"src/init.luau\"\n";
    let normalized = normalize_includes(&strings(&["src", "README.md", ".git"]));
    assert_eq!(normalized.includes, strings(&["src", "README.md", "pesde.toml"]));
    let plan = plan_archive(&vec![
        Probed { name: "src".to_string(), kind: PathKind::Directory },
        Probed { name: "README.md".to_string(), kind: PathKind::File },
        Probed { name: "pesde.toml".to_string(), kind: PathKind::File },
    ])
    .unwrap();
    assert_eq!(plan.entries.len(), 2);
    let files = vec![
        ArchiveEntry { path: "src".to_string(), is_dir: true, contents: Vec::new() },
        ArchiveEntry { path: "src/init.luau".to_string(), is_dir: false, contents: b"return {}\n".to_vec() },
        ArchiveEntry { path: "src/util/deep.luau".to_string(), is_dir: false, contents: b"return 1\n".to_vec() },
        ArchiveEntry { path: "README.md".to_string(), is_dir: false, contents: b"# util\n".to_vec() },
    ];
    let bytes = pesde::archive::build_archive(files, declared.as_bytes().to_vec()).unwrap();
    let reference = PackageRef {
        source: SourceKind::Pesde,
        location: INDEX.to_string(),
        target: Target::Lune { lib: Some("src/init.luau".to_string()), bin: None },
        dependencies: Vec::new(),
    };
    let (fs, entries, target) = PesdePackageSource::download(&reference, &bytes).unwrap();
    assert_eq!(target.kind(), TargetKind::Lune);
    assert_eq!(target.lib_path(), Some(&"src/init.luau".to_string()));
    assert_eq!(target.bin_path(), None);
    for path in ["src", "src/init.luau", "src/util/deep.luau", "README.md", "pesde.toml"] {
        assert!(fs.position(path).is_some(), "{path} is missing");
    }
    let shipped = entries.iter().find(|e| e.path == "pesde.toml").unwrap();
    let read: toml::Table = toml::from_str(std::str::from_utf8(&shipped.contents).unwrap()).unwrap();
    let target = read["target"].as_table().unwrap();
    assert_eq!(target["environment"].as_str(), Some("lune"));
    assert_eq!(target["lib"].as_str(), Some("src/init.luau"));
    // the store keeps the bytes of every file of the tree under its hash
    for node in &fs.nodes {
        if let FSEntry::File(hash) = &node.entry {
            let entry = entries.iter().rev().find(|e| e.path == node.path).unwrap();
            assert_eq!(&store_in_cas(&entry.contents).hash, hash);
        }
    }
}

#[test]
fn every_edge_satisfies_its_constraint() {
    let snapshot = vec![
        package(
            "acme/ui",
            vec![release(
                (1, 0, 0),
                TargetKind::Lune,
                vec![DeclaredDependency {
                    alias: "state".to_string(),
                    specifier: registry("acme/state", ">=2.1, <3", Some(INDEX)),
                    ty: DependencyType::Peer,
                }],
            )],
        ),
        package(
            "acme/state",
            vec![
                release((2, 0, 9), TargetKind::Lune, Vec::new()),
                release((2, 4, 0), TargetKind::Lune, Vec::new()),
                release((3, 0, 0), TargetKind::Lune, Vec::new()),
            ],
        ),
    ];
    let project = |state: Option<&str>| {
        let mut m = manifest(Target::Lune { lib: None, bin: Some("main.luau".to_string()) });
        m.dependencies.push(Dependency { alias: "ui".to_string(), specifier: registry("acme/ui", "^1", None) });
        if let Some(req) = state {
            m.dev_dependencies.push(Dependency { alias: "state".to_string(), specifier: registry("acme/state", req, None) });
        }
        m
    };
    // the consumer brings a version that the peer dependency admits
    let graph = resolve(&project(Some("^2")), &snapshot).unwrap();
    assert!(graph.is_acyclic());
    let mut edges = 0;
    for entry in &graph.entries {
        for edge in &entry.node.dependencies {
            let declared = entry.node.pkg_ref.dependencies.iter().find(|d| d.alias == edge.alias).unwrap();
            assert!(is_candidate(&declared.specifier, &edge.version_id, entry.version_id.target()));
            assert!(graph.position(&edge.name, &edge.version_id).is_some());
            edges += 1;
        }
    }
    assert_eq!(edges, 1);
    let peer = &graph.entries[0].node.dependencies[0];
    assert_eq!((peer.alias.as_str(), peer.version_id.text()), ("state", "2.4.0 lune".to_string()));
    assert_eq!(graph.entries.len(), 2);
    // the consumer brings nothing, or a version that the peer dependency does not admit
    for state in [None, Some("=2.0.9"), Some("^3")] {
        match resolve(&project(state), &snapshot) {
            Err(DependencyGraphError::UnsatisfiedPeer(package)) => assert_eq!(package, "acme/state"),
            other => panic!("{:?}", other),
        }
    }
    // of two versions that the consumer brings the later one is taken
    let mut both = project(Some("=2.0.9"));
    both.dependencies.push(Dependency { alias: "newer".to_string(), specifier: registry("acme/state", "^2.1", None) });
    match resolve(&both, &snapshot) {
        Ok(graph) => {
            assert_eq!(graph.entries.len(), 3);
            assert_eq!(graph.entries[0].node.dependencies[0].version_id.text(), "2.4.0 lune");
        }
        other => panic!("{:?}", other),
    }
}

#[test]
fn wally_dependencies_use_the_wally_indices() {
    let wally = || DependencySpecifiers::Wally(WallyDependencySpecifier {
        name: name("acme/old"),
        version: VersionReq::parse("0.3").unwrap(),
        index: None,
    });
    let mut m = manifest(Target::Roblox { lib: Some("src/init.luau".to_string()), build_files: strings(&["src"]) });
    m.dependencies.push(Dependency { alias: "old".to_string(), specifier: wally() });
    match resolve(&m, &Vec::new()) {
        Err(DependencyGraphError::WallyIndexNotFound(alias)) => assert_eq!(alias, "default"),
        other => panic!("{:?}", other),
    }
    m.wally_indices.push(Named { name: "default".to_string(), value: "https://github.com/UpliftGames/wally-index".to_string() });
    let snapshot = vec![
        package("acme/old", vec![release((0, 3, 9), TargetKind::Roblox, Vec::new())]),
        SourcePackage {
            source: SourceKind::Wally,
            location: "https://github.com/UpliftGames/wally-index".to_string(),
            name: name("acme/old"),
            releases: vec![release((0, 3, 1), TargetKind::Roblox, Vec::new()), release((0, 4, 0), TargetKind::Roblox, Vec::new())],
        },
    ];
    let graph = resolve(&m, &snapshot).unwrap();
    assert_eq!(graph.entries[0].version_id.text(), "0.3.1 roblox");
    assert_eq!(graph.entries[0].node.pkg_ref.source, SourceKind::Wally);
    assert!(graph.entries[0].node.pkg_ref.like_wally());
    assert!(!graph.entries[0].node.pkg_ref.use_new_structure());
    assert_eq!(graph.entries[0].node.base_folder(TargetKind::Roblox), "..");
}

#[test]
fn picking_prefers_later_versions_then_the_consumers_kind_then_rank() {
    let id = |v: (u64, u64, u64), k: TargetKind| VersionId::new(Version::new(v.0, v.1, v.2), k);
    assert!(is_preferred(&id((1, 0, 1), TargetKind::Luau), &id((1, 0, 0), TargetKind::Lune), TargetKind::Lune));
    assert!(is_preferred(&id((1, 0, 0), TargetKind::Lune), &id((1, 0, 0), TargetKind::Luau), TargetKind::Lune));
    assert!(!is_preferred(&id((1, 0, 0), TargetKind::Luau), &id((1, 0, 0), TargetKind::Lune), TargetKind::Lune));
    assert!(is_preferred(&id((1, 0, 0), TargetKind::Roblox), &id((1, 0, 0), TargetKind::Luau), TargetKind::Lune));
    assert!(!is_preferred(&id((1, 0, 0), TargetKind::Lune), &id((1, 0, 0), TargetKind::Lune), TargetKind::Lune));
    let releases = vec![
        release((1, 0, 0), TargetKind::Luau, Vec::new()),
        release((1, 1, 0), TargetKind::Luau, Vec::new()),
        release((1, 1, 0), TargetKind::Lune, Vec::new()),
        release((1, 1, 0), TargetKind::Lune, Vec::new()),
        release((3, 0, 0), TargetKind::Lune, Vec::new()),
    ];
    assert_eq!(pick(&releases, &registry("acme/x", "^1", None), TargetKind::Lune), Some(2));
    assert_eq!(pick(&releases, &registry("acme/x", "^1", None), TargetKind::Luau), Some(1));
    assert_eq!(pick(&releases, &registry("acme/x", "^2", None), TargetKind::Lune), None);
    assert_eq!(pick(&Vec::new(), &registry("acme/x", "*", None), TargetKind::Lune), None);
}

#[test]
fn the_shim_of_a_direct_dependency_leads_to_its_library() {
    let folder = strings(&["lune_packages"]);
    let container = strings(&["lune_packages", ".pesde", "scope+util", "1.3.1"]);
    let lib = "src/init.luau";
    // what the shim requires, followed from the directory of the shim
    let mut walked = folder.clone();
    walked.extend(diff_paths(&folder, &container));
    walked.extend(components(lib));
    let mut wanted = container.clone();
    wanted.extend(components(lib));
    assert_eq!(walked, wanted);
    assert_eq!(
        get_lib_require_path(TargetKind::Lune, &folder, lib, &container, true),
        format!("{:?}", format!("./{}", walked[1..].join("/")))
    );
}

fn graph_of(edges: &[(usize, usize)], nodes: usize) -> DependencyGraph {
    let key = |i: usize| (name("acme/pkg"), VersionId::new(Version::new(i as u64, 0, 0), TargetKind::Luau));
    DependencyGraph {
        entries: (0..nodes)
            .map(|i| GraphEntry {
                name: key(i).0,
                version_id: key(i).1,
                node: DependencyGraphNode {
                    direct: None,
                    pkg_ref: PackageRef {
                        source: SourceKind::Pesde,
                        location: INDEX.to_string(),
                        target: bare_target(TargetKind::Luau),
                        dependencies: Vec::new(),
                    },
                    dependencies: edges
                        .iter()
                        .filter(|(from, _)| *from == i)
                        .map(|(_, to)| Edge { name: key(*to).0, version_id: key(*to).1, alias: format!("dep{to}") })
                        .collect(),
                    ty: DependencyType::Normal,
                },
            })
            .collect(),
    }
}

#[test]
fn cycles_are_found() {
    assert!(graph_of(&[], 0).is_acyclic());
    assert!(graph_of(&[], 3).is_acyclic());
    assert!(graph_of(&[(0, 1), (1, 2), (0, 2)], 3).is_acyclic());
    assert!(graph_of(&[(2, 1), (1, 0), (3, 0), (3, 2)], 4).is_acyclic());
    assert!(!graph_of(&[(0, 0)], 1).is_acyclic());
    assert!(!graph_of(&[(0, 1), (1, 2), (2, 0)], 3).is_acyclic());
    assert!(!graph_of(&[(0, 1), (1, 2), (2, 1), (3, 0)], 4).is_acyclic());
    // an edge that ends at no node closes no cycle
    assert!(graph_of(&[(0, 7), (1, 0)], 2).is_acyclic());
}

#[test]
fn file_trees_are_materialized() {
    let fs = PackageFS {
        nodes: vec![
            FSNode { path: "src".to_string(), entry: FSEntry::Directory },
            FSNode { path: "src/init.luau".to_string(), entry: FSEntry::File("ba7816bf".to_string()) },
        ],
    };
    let actions = fs.write_to("/work/app/lune_packages/.pesde/a+b/1.0.0").unwrap();
    assert_eq!(actions.len(), 2);
    assert!(matches!(&actions[0], FsAction::CreateDir(p) if p == "/work/app/lune_packages/.pesde/a+b/1.0.0/src"));
    assert!(matches!(&actions[1], FsAction::Link { from, to }
        if from == "ba/7816bf" && to == "/work/app/lune_packages/.pesde/a+b/1.0.0/src/init.luau"));
    let broken = PackageFS {
        nodes: vec![
            FSNode { path: "a".to_string(), entry: FSEntry::File("abcd".to_string()) },
            FSNode { path: "b".to_string(), entry: FSEntry::File("x".to_string()) },
            FSNode { path: "c".to_string(), entry: FSEntry::File(String::new()) },
        ],
    };
    assert_eq!(broken.write_to("/dest").unwrap_err(), "b");
    assert!(PackageFS { nodes: Vec::new() }.write_to("/dest").unwrap().is_empty());
}

#[test]
fn lockfiles_know_their_manifest() {
    let text = "name = \"acme/app\"\n";
    let lockfile = Lockfile::new(text, DownloadedGraph::new());
    assert_eq!(lockfile.manifest_digest, manifest_digest(text));
    assert_eq!(lockfile.manifest_digest, pesde::source::fs::hash(text.as_bytes()));
    assert!(lockfile.is_up_to_date(text));
    assert!(!lockfile.is_up_to_date("name = \"acme/other\"\n"));
    assert!(up_to_date_lockfile(None, text).is_none());
    assert!(up_to_date_lockfile(Some(Lockfile::new(text, DownloadedGraph::new())), text).is_some());
    assert!(up_to_date_lockfile(Some(Lockfile::new(text, DownloadedGraph::new())), "changed").is_none());
}

#[test]
fn export_roots_are_shipped() {
    let mut includes = strings(&["pesde.toml", "src"]);
    let mut target = Target::Roblox { lib: Some("src/init.luau".to_string()), build_files: strings(&["lib"]) };
    let added = add_export_root(&mut includes, &mut target, "src".to_string());
    assert!(!added.to_includes && added.to_build_files);
    assert_eq!(includes, strings(&["pesde.toml", "src"]));
    assert_eq!(target.build_files().unwrap(), &strings(&["lib", "src"]));
    let added = add_export_root(&mut includes, &mut target, "lib".to_string());
    assert!(added.to_includes && !added.to_build_files);
    assert_eq!(includes, strings(&["pesde.toml", "src", "lib"]));
    let mut target = Target::Luau { lib: None, bin: Some("main.luau".to_string()) };
    let added = add_export_root(&mut includes, &mut target, "main.luau".to_string());
    assert!(added.to_includes && !added.to_build_files);
    assert_eq!(target.bin_path().map(|s| s.as_str()), Some("main.luau"));
}

#[test]
fn small_helpers() {
    assert!(is_blocked(".git") && is_blocked("default.project.json") && is_blocked(".DS_Store"));
    assert!(!is_blocked("git") && !is_blocked("pesde.toml") && !is_blocked(""));
    assert!(is_readme("README") && is_readme("ReadMe.md") && is_readme("readme.TXT"));
    assert!(!is_readme("readme.rst") && !is_readme("docs/README.md"));
    let entries = vec![
        Named { name: "a".to_string(), value: "1".to_string() },
        Named { name: "b".to_string(), value: "2".to_string() },
        Named { name: "a".to_string(), value: "3".to_string() },
    ];
    assert_eq!(lookup(&entries, "a").map(|s| s.as_str()), Some("1"));
    assert_eq!(lookup(&entries, "c"), None);
    assert_eq!(position(&strings(&["x", "y", "x"]), "x"), Some(0));
    assert_eq!(position(&strings(&["x", "y", "x"]), "z"), None);
    assert_eq!(first_repeated(&strings(&["x", "y", "z", "y", "x"])), Some(3));
    assert_eq!(first_repeated(&strings(&["x", "y"])), None);
    assert_eq!(TargetKind::from_name("roblox_server"), Some(TargetKind::RobloxServer));
    assert_eq!(TargetKind::from_name("Roblox"), None);
    assert_eq!(TargetKind::Lune.packages_folder(&TargetKind::Roblox), "roblox_packages");
    assert_eq!(TargetKind::Roblox.packages_folder(&TargetKind::Luau), "luau_packages");
    assert!(TargetKind::Lune.is_compatible_with(&TargetKind::Luau));
    assert!(!TargetKind::Luau.is_compatible_with(&TargetKind::Lune));
    assert!(!TargetKind::Roblox.is_compatible_with(&TargetKind::RobloxServer));
    assert!(TargetKind::RobloxServer.is_compatible_with(&TargetKind::RobloxServer));
    assert_eq!([TargetKind::Roblox.rank(), TargetKind::RobloxServer.rank(), TargetKind::Lune.rank(), TargetKind::Luau.rank()], [0, 1, 2, 3]);
}

#[test]
fn the_index_is_asked_in_order() {
    let config = |git_allowed: bool, max: usize| IndexConfig {
        api: "https://registry.example.com".to_string(),
        download: None,
        git_allowed,
        other_registries_allowed: false,
        max_archive_size: max,
        github_oauth_client_id: String::new(),
    };
    let git = || DependencySpecifiers::Git(GitDependencySpecifier { repo: "r".to_string(), rev: "v".to_string(), path: None });
    let mut m = manifest(Target::Lune { lib: Some("a.luau".to_string()), bin: None });
    m.dependencies.push(Dependency { alias: "x".to_string(), specifier: git() });
    m.peer_dependencies.push(Dependency { alias: "x".to_string(), specifier: git() });
    // the size comes first, then the aliases, then what the index accepts
    match PublishCommand::check_against_index(11, &config(false, 10), &m, true, true) {
        Err(Refusal::Oversize(over)) => assert_eq!((over.max, over.over), (10, 1)),
        other => panic!("{:?}", other),
    }
    match PublishCommand::check_against_index(10, &config(false, 10), &m, true, true) {
        Err(Refusal::AliasConflict(alias)) => assert_eq!(alias, "x"),
        other => panic!("{:?}", other),
    }
    m.peer_dependencies.clear();
    assert!(matches!(
        PublishCommand::check_against_index(10, &config(false, 10), &m, true, true),
        Err(Refusal::Policy(PolicyViolation::GitNotAllowed))
    ));
    assert!(matches!(
        PublishCommand::check_against_index(10, &config(true, 10), &m, true, true),
        Err(Refusal::Policy(PolicyViolation::WallyNotAllowed))
    ));
    assert!(PublishCommand::check_against_index(0, &config(true, 10), &m, true, false).is_ok());
}

#[test]
fn workspace_members_are_found() {
    let member = |package: &str, version: (u64, u64, u64), target: Target| {
        let mut m = manifest(target);
        m.name = name(package);
        m.version = Version::new(version.0, version.1, version.2);
        WorkspaceMember { path: format!("packages/{}", m.name.name), manifest: m }
    };
    let lune = || Target::Lune { lib: Some("a.luau".to_string()), bin: None };
    let luau = || Target::Luau { lib: Some("a.luau".to_string()), bin: None };
    let members = vec![
        member("acme/api", (1, 0, 0), lune()),
        member("acme/cli", (1, 0, 0), lune()),
        member("acme/api", (1, 0, 0), luau()),
        member("acme/api", (2, 0, 0), Target::Roblox { lib: None, build_files: Vec::new() }),
        member("acme/api", (2, 1, 0), lune()),
    ];
    let spec = |version: VersionTypeOrReq, target: Option<TargetKind>| WorkspaceDependencySpecifier {
        name: name("acme/api"),
        version,
        target,
    };
    let caret = || VersionTypeOrReq::VersionType(VersionType::Caret);
    assert_eq!(WorkspacePackageSource::resolve(&members, &spec(caret(), None), TargetKind::Lune), vec![0, 2, 4]);
    assert_eq!(WorkspacePackageSource::resolve(&members, &spec(caret(), None), TargetKind::Luau), vec![2]);
    assert_eq!(WorkspacePackageSource::resolve(&members, &spec(caret(), Some(TargetKind::Roblox)), TargetKind::Luau), vec![3]);
    assert_eq!(
        WorkspacePackageSource::resolve(&members, &spec(VersionTypeOrReq::Req(VersionReq::parse("^2").unwrap()), None), TargetKind::Lune),
        vec![4]
    );
    assert!(WorkspacePackageSource::resolve(&members, &spec(caret(), Some(TargetKind::RobloxServer)), TargetKind::Lune).is_empty());
    assert!(WorkspacePackageSource::resolve(&Vec::new(), &spec(caret(), None), TargetKind::Lune).is_empty());
}
