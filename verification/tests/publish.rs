use pesde::lockfile::{
    DependencyGraphNode, DownloadedDependencyGraphNode, DownloadedEntry, DownloadedGraph,
    PackageRef, SourceKind,
};
use pesde::manifest::target::{Target, TargetKind};
use pesde::manifest::{Dependency, Manifest, Named};
use pesde::names::PackageName;
use pesde::publish::exports::{
    check_build_files, check_export, plan_archive, BuildFileError, ExportError, ExportProbe,
    PathKind, Probed,
};
use pesde::publish::includes::normalize_includes;
use pesde::publish::rewrite::{any_member, needs_members, rewrite_dependencies, rewrite_specifier, RewriteError};
use pesde::publish::{Gate, LockError, Oversize, PolicyViolation, PublishCommand, PublishOutcome};
use pesde::source::git::specifier::GitDependencySpecifier;
use pesde::source::specifiers::{
    DependencySpecifiers, DependencyType, PesdeDependencySpecifier, VersionType, VersionTypeOrReq,
    WallyDependencySpecifier, WorkspaceDependencySpecifier,
};
use pesde::source::version_id::{Version, VersionId, VersionReq};

fn name(text: &str) -> PackageName {
    PackageName::parse(text).expect("a package name")
}

fn manifest(package: &str, version: Version, target: Target) -> Manifest {
    Manifest {
        name: name(package),
        version,
        description: None,
        license: None,
        authors: Vec::new(),
        repository: None,
        private: false,
        target,
        indices: vec![Named {
            name: "default".to_string(),
            value: "https://github.com/acme/index".to_string(),
        }],
        wally_indices: Vec::new(),
        scripts: Vec::new(),
        includes: Vec::new(),
        dependencies: Vec::new(),
        dev_dependencies: Vec::new(),
        peer_dependencies: Vec::new(),
        workspace_members: Vec::new(),
    }
}

fn lune(lib: Option<&str>, bin: Option<&str>) -> Target {
    Target::Lune { lib: lib.map(|s| s.to_string()), bin: bin.map(|s| s.to_string()) }
}

fn strings(items: &[&str]) -> Vec<String> {
    items.iter().map(|s| s.to_string()).collect()
}

fn sorted(mut items: Vec<String>) -> Vec<String> {
    items.sort();
    items
}

#[test]
fn gate_follows_the_manifest() {
    let mut m = manifest("acme/tool", Version::new(1, 0, 0), lune(Some("src/init.luau"), None));
    assert_eq!(PublishCommand::gate(&m), Gate::Proceed);
    m.private = true;
    assert_eq!(PublishCommand::gate(&m), Gate::Private);
    let m = manifest("acme/tool", Version::new(1, 0, 0), lune(None, None));
    assert_eq!(PublishCommand::gate(&m), Gate::NoExports);
    let m = manifest(
        "acme/tool",
        Version::new(1, 0, 0),
        Target::Roblox { lib: Some("src/init.luau".to_string()), build_files: Vec::new() },
    );
    assert_eq!(PublishCommand::gate(&m), Gate::NoBuildFiles);
    let m = manifest(
        "acme/tool",
        Version::new(1, 0, 0),
        Target::RobloxServer { lib: Some("src/init.luau".to_string()), build_files: strings(&["src"]) },
    );
    assert_eq!(PublishCommand::gate(&m), Gate::Proceed);
    let m = manifest("acme/tool", Version::new(1, 0, 0), lune(None, Some("main.luau")));
    assert_eq!(PublishCommand::gate(&m), Gate::Proceed);
}

fn downloaded(package: &str, ty: DependencyType, target: Target) -> DownloadedEntry {
    let kind = target.kind();
    DownloadedEntry {
        name: name(package),
        version_id: VersionId::new(Version::new(1, 0, 0), kind),
        node: DownloadedDependencyGraphNode {
            node: DependencyGraphNode {
                direct: Some("dep".to_string()),
                pkg_ref: PackageRef {
                    source: SourceKind::Pesde,
                    location: "https://github.com/acme/index".to_string(),
                    target: target.duplicate(),
                    dependencies: Vec::new(),
                },
                dependencies: Vec::new(),
                ty,
            },
            target,
        },
    }
}

#[test]
fn roblox_packages_need_roblox_dependencies() {
    assert_eq!(PublishCommand::check_lockfile(None), Err(LockError::Outdated));
    let roblox = Target::Roblox { lib: None, build_files: strings(&["src"]) };
    let graph = DownloadedGraph { entries: vec![downloaded("acme/ui", DependencyType::Normal, roblox)] };
    assert_eq!(PublishCommand::check_lockfile(Some(&graph)), Ok(()));
    let graph = DownloadedGraph {
        entries: vec![downloaded("acme/cli", DependencyType::Dev, lune(None, Some("main.luau")))],
    };
    assert_eq!(PublishCommand::check_lockfile(Some(&graph)), Ok(()));
    let graph = DownloadedGraph {
        entries: vec![
            downloaded("acme/ui", DependencyType::Normal, Target::RobloxServer { lib: None, build_files: Vec::new() }),
            downloaded("acme/cli", DependencyType::Peer, lune(None, Some("main.luau"))),
        ],
    };
    assert_eq!(PublishCommand::check_lockfile(Some(&graph)), Err(LockError::NonRobloxDependency));
    assert_eq!(PublishCommand::check_lockfile(Some(&DownloadedGraph { entries: Vec::new() })), Ok(()));
}

#[test]
fn archive_oversize() {
    let max = 4 * 1024 * 1024;
    assert_eq!(PublishCommand::check_archive_size(max, max), Ok(()));
    assert_eq!(PublishCommand::check_archive_size(0, 0), Ok(()));
    let over = PublishCommand::check_archive_size(max + 1, max).unwrap_err();
    assert_eq!(over, Oversize { max, over: 1 });
    assert_eq!(over.message(), "archive size exceeds maximum size of 4194304 bytes by 1 bytes");
    let over = PublishCommand::check_archive_size(1500, 1000).unwrap_err();
    assert_eq!(over.message(), "archive size exceeds maximum size of 1000 bytes by 500 bytes");
}

#[test]
fn index_policy_is_enforced() {
    assert_eq!(PublishCommand::check_index_policy(false, false, false, false), Ok(()));
    assert_eq!(PublishCommand::check_index_policy(false, true, true, false), Err(PolicyViolation::GitNotAllowed));
    assert_eq!(PublishCommand::check_index_policy(true, false, true, true), Err(PolicyViolation::WallyNotAllowed));
    assert_eq!(PublishCommand::check_index_policy(false, false, true, true), Err(PolicyViolation::GitNotAllowed));
    assert_eq!(PublishCommand::check_index_policy(true, true, true, true), Ok(()));
}

#[test]
fn registry_answers_are_mapped() {
    assert!(matches!(PublishCommand::outcome(201, "ok".to_string()), PublishOutcome::Published(t) if t == "ok"));
    assert!(matches!(PublishCommand::outcome(200, "ok".to_string()), PublishOutcome::Published(_)));
    assert!(matches!(PublishCommand::outcome(204, String::new()), PublishOutcome::Published(_)));
    assert!(matches!(PublishCommand::outcome(409, "x".to_string()), PublishOutcome::AlreadyExists));
    assert!(matches!(PublishCommand::outcome(403, "x".to_string()), PublishOutcome::Forbidden));
    assert!(matches!(PublishCommand::outcome(400, "bad name".to_string()), PublishOutcome::Invalid(t) if t == "bad name"));
    assert!(matches!(PublishCommand::outcome(500, "boom".to_string()), PublishOutcome::Fatal(500, t) if t == "boom"));
    assert!(matches!(PublishCommand::outcome(302, String::new()), PublishOutcome::Fatal(302, _)));
    assert!(matches!(PublishCommand::outcome(199, String::new()), PublishOutcome::Fatal(199, _)));
    assert!(matches!(PublishCommand::outcome(300, String::new()), PublishOutcome::Fatal(300, _)));
}

#[test]
fn includes_are_normalized() {
    let r = normalize_includes(&strings(&["src", ".git", "README.md", "src", "rokit.toml", "default.project.json", ".git"]));
    assert_eq!(r.includes, strings(&["src", "README.md", "pesde.toml"]));
    assert!(r.manifest_added);
    assert!(!r.readme_missing);
    assert!(r.docs_missing);
    assert_eq!(r.removed, strings(&[".git", "rokit.toml", "default.project.json"]));

    let r = normalize_includes(&strings(&["pesde.toml", "docs", "Readme.TXT", "foreman.toml", "aftman.toml", ".DS_Store"]));
    assert_eq!(r.includes, strings(&["pesde.toml", "docs", "Readme.TXT"]));
    assert!(!r.manifest_added);
    assert!(!r.readme_missing);
    assert!(!r.docs_missing);
    assert_eq!(r.removed, strings(&["foreman.toml", "aftman.toml", ".DS_Store"]));

    let r = normalize_includes(&Vec::new());
    assert_eq!(r.includes, strings(&["pesde.toml"]));
    assert!(r.manifest_added && r.readme_missing && r.docs_missing);
    assert!(r.removed.is_empty());
}

#[test]
fn include_normalization_is_idempotent() {
    for case in [
        strings(&["src", ".git", "README.md", "src", "rokit.toml"]),
        strings(&[]),
        strings(&["pesde.toml", "pesde.toml"]),
        strings(&["default.project.json", "docs", "lib"]),
    ] {
        let once = normalize_includes(&case);
        let twice = normalize_includes(&once.includes);
        assert_eq!(sorted(twice.includes), sorted(once.includes));
        assert!(!twice.manifest_added);
        assert!(twice.removed.is_empty());
    }
}

fn probe(kind: PathKind, contents: Option<&str>) -> ExportProbe {
    ExportProbe { kind, contents: contents.map(|s| s.to_string()) }
}

#[test]
fn exports_are_checked() {
    let ok = probe(PathKind::File, Some("local x = 1\nreturn x\n"));
    assert_eq!(check_export("src/init.luau", &ok).unwrap(), "src");
    assert_eq!(check_export("./lib.luau", &ok).unwrap(), "lib.luau");
    assert_eq!(check_export("a//b/../c.luau", &ok).unwrap(), "a");
    assert!(matches!(check_export("src/init.luau", &probe(PathKind::Missing, None)), Err(ExportError::Missing)));
    assert!(matches!(check_export("src", &probe(PathKind::Directory, None)), Err(ExportError::NotAFile)));
    assert!(matches!(check_export("src/init.luau", &probe(PathKind::File, None)), Err(ExportError::Unreadable)));
    match check_export("src/init.luau", &probe(PathKind::File, Some("local x = "))) {
        Err(ExportError::InvalidLuau(message)) => assert!(!message.is_empty()),
        other => panic!("{:?}", other),
    }
    assert!(matches!(check_export("../init.luau", &ok), Err(ExportError::OutsidePackage)));
    assert!(matches!(check_export("./../init.luau", &ok), Err(ExportError::OutsidePackage)));
    assert!(matches!(check_export("", &ok), Err(ExportError::NoParts)));
    assert!(matches!(check_export("./.", &ok), Err(ExportError::NoParts)));
    // type annotations are Luau, not Lua 5.1
    let typed = probe(PathKind::File, Some("export type T = { x: number }\nlocal v: T = { x = 1 }\nreturn v\n"));
    assert_eq!(check_export("src/init.luau", &typed).unwrap(), "src");
}

fn probed(name: &str, kind: PathKind) -> Probed {
    Probed { name: name.to_string(), kind }
}

#[test]
fn archive_is_planned() {
    let plan = plan_archive(&vec![
        probed("src", PathKind::Directory),
        probed("PESDE.toml", PathKind::File),
        probed("README.md", PathKind::File),
        probed("pesde.toml", PathKind::File),
    ])
    .unwrap();
    assert_eq!(plan.display, strings(&["pesde.toml", "src/*", "README.md"]));
    let names: Vec<&str> = plan.entries.iter().map(|p| p.name.as_str()).collect();
    assert_eq!(names, vec!["src", "README.md"]);
    assert_eq!(plan.entries[0].kind, PathKind::Directory);

    let missing = plan_archive(&vec![
        probed("src", PathKind::Directory),
        probed("docs", PathKind::Missing),
        probed("other", PathKind::Missing),
    ])
    .unwrap_err();
    assert_eq!(missing, "docs");
    // the manifest must exist too, though it is written from the rewritten manifest
    assert_eq!(plan_archive(&vec![probed("pesde.toml", PathKind::Missing)]).unwrap_err(), "pesde.toml");
    assert_eq!(plan_archive(&Vec::new()).unwrap().display, strings(&["pesde.toml"]));
}

#[test]
fn build_files_are_checked() {
    let includes = strings(&["src", "pesde.toml", "default.luau"]);
    let found = check_build_files(
        &vec![probed("src", PathKind::Directory), probed("Pesde.Toml", PathKind::Missing), probed("default.luau", PathKind::File)],
        &includes,
    )
    .unwrap();
    assert_eq!(found.display, strings(&["src/*", "default.luau"]));
    assert!(found.manifest_listed);
    let found = check_build_files(&vec![probed("src", PathKind::Directory)], &includes).unwrap();
    assert!(!found.manifest_listed);
    match check_build_files(&vec![probed("src", PathKind::Directory), probed("gone", PathKind::Missing)], &includes) {
        Err(BuildFileError::Missing(n)) => assert_eq!(n, "gone"),
        other => panic!("{:?}", other),
    }
    match check_build_files(&vec![probed("extra", PathKind::File), probed("gone", PathKind::Missing)], &includes) {
        Err(BuildFileError::NotIncluded(n)) => assert_eq!(n, "extra"),
        other => panic!("{:?}", other),
    }
}

fn workspace_dep(package: &str, version: VersionTypeOrReq, target: Option<TargetKind>) -> DependencySpecifiers {
    DependencySpecifiers::Workspace(WorkspaceDependencySpecifier { name: name(package), version, target })
}

#[test]
fn workspace_rewrite_on_publish() {
    let api = manifest("acme/api", Version::new(1, 0, 0), lune(Some("src/init.luau"), None));
    let mut cli = manifest("acme/cli", Version::new(0, 3, 0), lune(None, Some("main.luau")));
    cli.dependencies.push(Dependency {
        alias: "api".to_string(),
        specifier: workspace_dep("acme/api", VersionTypeOrReq::VersionType(VersionType::Caret), None),
    });
    let members = vec![api, manifest("acme/cli", Version::new(0, 3, 0), lune(None, Some("main.luau")))];
    let out = rewrite_dependencies(&cli, &members).unwrap();
    assert_eq!(out.dependencies.len(), 1);
    assert_eq!(out.dependencies[0].alias, "api");
    match &out.dependencies[0].specifier {
        DependencySpecifiers::Pesde(spec) => {
            assert_eq!(spec.name.text(), "acme/api");
            assert_eq!(spec.version.text, "^1.0.0");
            assert_eq!(spec.index.as_deref(), Some("https://github.com/acme/index"));
            assert_eq!(spec.target, Some(TargetKind::Lune));
        }
        other => panic!("{:?}", other),
    }
    assert!(!out.has_git && !out.has_wally);
}

#[test]
fn workspace_versions_combine_with_the_member() {
    let members = vec![
        manifest("acme/api", Version::new(1, 0, 0), lune(Some("a.luau"), None)),
        manifest("acme/api", Version::new(1, 2, 3), Target::Luau { lib: Some("a.luau".to_string()), bin: None }),
        manifest("acme/api", Version::new(1, 2, 3), lune(Some("a.luau"), None)),
        manifest("acme/api", Version::new(9, 0, 0), Target::Roblox { lib: None, build_files: Vec::new() }),
    ];
    let me = manifest("acme/cli", Version::new(0, 1, 0), lune(None, Some("main.luau")));
    let text = |version: VersionTypeOrReq, target: Option<TargetKind>| match rewrite_specifier(
        &workspace_dep("acme/api", version, target),
        &me,
        &members,
    ) {
        Ok(DependencySpecifiers::Pesde(spec)) => (spec.version.text, spec.target),
        other => panic!("{:?}", other),
    };
    // the greatest version wins, and of its kinds the one that ranks last
    assert_eq!(text(VersionTypeOrReq::VersionType(VersionType::Tilde), None), ("~1.2.3".to_string(), Some(TargetKind::Luau)));
    assert_eq!(text(VersionTypeOrReq::VersionType(VersionType::Exact), Some(TargetKind::Lune)), ("=1.2.3".to_string(), Some(TargetKind::Lune)));
    assert_eq!(text(VersionTypeOrReq::VersionType(VersionType::Wildcard), None), ("*".to_string(), Some(TargetKind::Luau)));
    assert_eq!(
        text(VersionTypeOrReq::Req(VersionReq::parse(">=1, <2").unwrap()), Some(TargetKind::Roblox)),
        (">=1, <2".to_string(), Some(TargetKind::Roblox))
    );
    assert!(matches!(
        rewrite_specifier(&workspace_dep("acme/none", VersionTypeOrReq::VersionType(VersionType::Caret), None), &me, &members),
        Err(RewriteError::NoMember)
    ));
    assert!(matches!(
        rewrite_specifier(&workspace_dep("acme/api", VersionTypeOrReq::VersionType(VersionType::Caret), Some(TargetKind::RobloxServer)), &me, &members),
        Err(RewriteError::NoMember)
    ));
    let mut bare = manifest("acme/api", Version::new(1, 0, 0), lune(Some("a.luau"), None));
    bare.indices.clear();
    assert!(matches!(
        rewrite_specifier(&workspace_dep("acme/api", VersionTypeOrReq::VersionType(VersionType::Caret), None), &me, &vec![bare]),
        Err(RewriteError::MissingDefaultIndex)
    ));
}

#[test]
fn index_aliases_become_urls() {
    let mut me = manifest("acme/cli", Version::new(0, 1, 0), lune(None, Some("main.luau")));
    me.indices.push(Named { name: "other".to_string(), value: "https://example.com/other".to_string() });
    me.wally_indices.push(Named { name: "default".to_string(), value: "https://github.com/UpliftGames/wally-index".to_string() });
    let pesde = |index: Option<&str>| DependencySpecifiers::Pesde(PesdeDependencySpecifier {
        name: name("acme/util"),
        version: VersionReq::parse("^1.2.0").unwrap(),
        index: index.map(|s| s.to_string()),
        target: None,
    });
    me.dependencies.push(Dependency { alias: "a".to_string(), specifier: pesde(None) });
    me.dev_dependencies.push(Dependency { alias: "b".to_string(), specifier: pesde(Some("other")) });
    me.peer_dependencies.push(Dependency {
        alias: "c".to_string(),
        specifier: DependencySpecifiers::Wally(WallyDependencySpecifier {
            name: name("acme/old"),
            version: VersionReq::parse("1").unwrap(),
            index: None,
        }),
    });
    me.peer_dependencies.push(Dependency {
        alias: "d".to_string(),
        specifier: DependencySpecifiers::Git(GitDependencySpecifier {
            repo: "https://github.com/acme/repo".to_string(),
            rev: "0123abc".to_string(),
            path: None,
        }),
    });
    let out = rewrite_dependencies(&me, &Vec::new()).unwrap();
    let index_of = |dep: &Dependency| match &dep.specifier {
        DependencySpecifiers::Pesde(s) => s.index.clone(),
        DependencySpecifiers::Wally(s) => s.index.clone(),
        _ => None,
    };
    assert_eq!(index_of(&out.dependencies[0]).as_deref(), Some("https://github.com/acme/index"));
    assert_eq!(index_of(&out.dev_dependencies[0]).as_deref(), Some("https://example.com/other"));
    assert_eq!(index_of(&out.peer_dependencies[0]).as_deref(), Some("https://github.com/UpliftGames/wally-index"));
    assert!(matches!(&out.peer_dependencies[1].specifier, DependencySpecifiers::Git(g) if g.text() == "https://github.com/acme/repo#0123abc"));
    assert!(out.has_git && out.has_wally);

    me.dev_dependencies.push(Dependency { alias: "e".to_string(), specifier: pesde(Some("nowhere")) });
    me.dependencies.push(Dependency {
        alias: "f".to_string(),
        specifier: DependencySpecifiers::Wally(WallyDependencySpecifier {
            name: name("acme/old"),
            version: VersionReq::parse("1").unwrap(),
            index: Some("gone".to_string()),
        }),
    });
    // the normal dependencies are rewritten first, so their error is reported
    match rewrite_dependencies(&me, &Vec::new()) {
        Err(RewriteError::WallyIndexNotFound(alias)) => assert_eq!(alias, "gone"),
        other => panic!("{:?}", other.map(|_| ())),
    }
    me.dependencies.pop();
    match rewrite_dependencies(&me, &Vec::new()) {
        Err(RewriteError::IndexNotFound(alias)) => assert_eq!(alias, "nowhere"),
        other => panic!("{:?}", other.map(|_| ())),
    }
}

#[test]
fn alias_conflicts_are_found() {
    let mut me = manifest("acme/cli", Version::new(0, 1, 0), lune(None, Some("main.luau")));
    let git = || DependencySpecifiers::Git(GitDependencySpecifier { repo: "r".to_string(), rev: "v".to_string(), path: None });
    me.dependencies.push(Dependency { alias: "a".to_string(), specifier: git() });
    me.dev_dependencies.push(Dependency { alias: "b".to_string(), specifier: git() });
    me.peer_dependencies.push(Dependency { alias: "c".to_string(), specifier: git() });
    assert_eq!(me.alias_conflict(), None);
    assert_eq!(me.alias_list(), strings(&["a", "c", "b"]));
    me.dev_dependencies.push(Dependency { alias: "c".to_string(), specifier: git() });
    me.dev_dependencies.push(Dependency { alias: "a".to_string(), specifier: git() });
    assert_eq!(me.alias_conflict().as_deref(), Some("c"));
}

#[test]
fn members_are_read_only_when_a_dependency_is_one() {
    let mut cli = manifest("acme/cli", Version::new(0, 3, 0), lune(None, Some("main.luau")));
    assert!(!needs_members(&cli));
    assert!(!any_member(&cli.dependencies));
    cli.dependencies.push(Dependency {
        alias: "git".to_string(),
        specifier: DependencySpecifiers::Git(GitDependencySpecifier { repo: "r".to_string(), rev: "v".to_string(), path: None }),
    });
    assert!(!needs_members(&cli));
    cli.peer_dependencies.push(Dependency {
        alias: "api".to_string(),
        specifier: workspace_dep("acme/api", VersionTypeOrReq::VersionType(VersionType::Caret), None),
    });
    assert!(needs_members(&cli));
    assert!(!any_member(&cli.dependencies));
    assert!(any_member(&cli.peer_dependencies));
    let mut dev = manifest("acme/cli", Version::new(0, 3, 0), lune(None, Some("main.luau")));
    dev.dev_dependencies.push(Dependency {
        alias: "api".to_string(),
        specifier: workspace_dep("acme/api", VersionTypeOrReq::VersionType(VersionType::Wildcard), None),
    });
    assert!(needs_members(&dev));
}
