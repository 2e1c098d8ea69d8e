use pesde::linking::generator::{
    generate_bin_linking_module, generate_lib_linking_module, get_bin_require_path, get_file_types,
    get_lib_require_path, luau_style_path, roblox_style_path,
};
use pesde::linking::{lib_file_to_read, linker_folder, LibSource, LinkingError};
use pesde::{AuthConfig, Project};
use pesde::lockfile::{
    DependencyGraphNode, DownloadedDependencyGraphNode, DownloadedEntry, DownloadedGraph, Edge,
    PackageRef, SourceKind,
};
use pesde::manifest::target::{Target, TargetKind};
use pesde::manifest::{Manifest, Named};
use pesde::names::PackageName;
use pesde::paths::{components, diff_paths, extension, root_of, RootError};
use pesde::source::specifiers::DependencyType;
use pesde::source::version_id::{Version, VersionId};
use pesde::text::{eq_ignore_ascii_case, join, strip_suffix, trim_end};

fn project() -> Project {
    Project::new("/work/app".to_string(), None, "/data".to_string(), "/cas".to_string(), AuthConfig::new())
}

fn name(text: &str) -> PackageName {
    PackageName::parse(text).expect("a package name")
}

fn strings(items: &[&str]) -> Vec<String> {
    items.iter().map(|s| s.to_string()).collect()
}

#[test]
fn paths_are_taken_apart() {
    assert_eq!(components("a/b/c.luau"), strings(&["a", "b", "c.luau"]));
    assert_eq!(components("/a//b/"), strings(&["a", "b"]));
    assert_eq!(components("./a/../b"), strings(&[".", "a", "..", "b"]));
    assert!(components("").is_empty());
    assert!(components("///").is_empty());
    assert_eq!(root_of("././src/x").unwrap(), "src");
    assert_eq!(root_of("..").unwrap_err(), RootError::OutsidePackage);
    assert_eq!(root_of("/").unwrap_err(), RootError::NoParts);
    assert_eq!(diff_paths(&strings(&["a", "b", "c"]), &strings(&["a", "x", "y"])), strings(&["..", "..", "x", "y"]));
    assert_eq!(diff_paths(&strings(&["a"]), &strings(&["a", "b"])), strings(&["b"]));
    assert_eq!(diff_paths(&strings(&["a", "b"]), &strings(&["a", "b"])), Vec::<String>::new());
    assert_eq!(diff_paths(&strings(&["a", "b"]), &Vec::new()), strings(&["..", ".."]));
    assert_eq!(diff_paths(&Vec::new(), &strings(&["x"])), strings(&["x"]));
    assert_eq!(extension("a/b.tar.gz").as_deref(), Some("gz"));
    assert_eq!(extension("a/b.luau/.").as_deref(), Some("luau"));
    assert_eq!(extension("a/.hidden"), None);
    assert_eq!(extension("a/b"), None);
    assert_eq!(extension("a/b.").as_deref(), Some(""));
    assert_eq!(extension("a/.."), None);
    assert_eq!(extension(""), None);
}

#[test]
fn text_helpers() {
    assert_eq!(join(&strings(&["a", "b", "c"]), ", "), "a, b, c");
    assert_eq!(join(&strings(&["a"]), ", "), "a");
    assert_eq!(join(&Vec::new(), ", "), "");
    assert_eq!(join(&strings(&["", ""]), "/"), "/");
    assert!(eq_ignore_ascii_case("PESDE.toml", "pesde.TOML"));
    assert!(!eq_ignore_ascii_case("pesde.toml", "pesde.tom"));
    assert!(!eq_ignore_ascii_case("straße", "STRASSE"));
    assert!(eq_ignore_ascii_case("é", "é"));
    assert!(!eq_ignore_ascii_case("é", "É"));
    assert_eq!(trim_end("a//", '/'), "a");
    assert_eq!(trim_end("/a/b", '/'), "/a/b");
    assert_eq!(strip_suffix("init.luau", ".luau").as_deref(), Some("init"));
    assert_eq!(strip_suffix("init.luau", ".lua"), None);
    assert_eq!(strip_suffix("x", "long"), None);
    assert_eq!(strip_suffix("x", "").as_deref(), Some("x"));
}

#[test]
fn require_paths_follow_the_target() {
    let from = strings(&["lune_packages"]);
    let container = strings(&["lune_packages", ".pesde", "scope+util", "1.3.1"]);
    assert_eq!(get_lib_require_path(TargetKind::Lune, &from, "src/init.luau", &container, true), "\"./.pesde/scope+util/1.3.1/src/init.luau\"");
    assert_eq!(get_lib_require_path(TargetKind::Luau, &from, "src/init.luau", &container, false), "\"./.pesde/scope+util/1.3.1\"");
    assert_eq!(
        get_lib_require_path(TargetKind::Roblox, &strings(&["roblox_packages"]), "src/init.luau", &strings(&["roblox_packages", ".pesde", "scope+util", "1.3.1"]), true),
        "script.Parent[\".pesde\"][\"scope+util\"][\"1.3.1\"][\"src\"]"
    );
    assert_eq!(
        get_lib_require_path(
            TargetKind::RobloxServer,
            &strings(&["roblox_packages", ".pesde", "a+b", "1.0.0", "roblox_server_packages"]),
            "lib/main.luau",
            &strings(&["roblox_server_packages", ".pesde", "c+d", "2.0.0"]),
            true
        ),
        "script.Parent.Parent.Parent.Parent.Parent.Parent[\"roblox_server_packages\"][\".pesde\"][\"c+d\"][\"2.0.0\"][\"lib\"][\"main\"]"
    );
    assert_eq!(get_bin_require_path(&from, "bin/main.luau", &container), "\"./.pesde/scope+util/1.3.1/bin/main.luau\"");
    assert_eq!(luau_style_path(&strings(&["..", "a b", "c\"d"])), "\"./../a b/c\\\"d\"");
    assert_eq!(roblox_style_path(&strings(&["..", ".", "init.lua", "x.lua", "y.luau", "z"])), "script.Parent.Parent[\"x\"][\"y\"][\"z\"]");
    assert_eq!(roblox_style_path(&Vec::new()), "script.Parent");
}

#[test]
fn shims_are_generated() {
    assert_eq!(generate_lib_linking_module("\"./x\"", &Vec::new()), "local module = require(\"./x\")\nreturn module");
    assert_eq!(
        generate_lib_linking_module("script.Parent[\"x\"]", &strings(&["A", "B"])),
        "local module = require(script.Parent[\"x\"])\nexport type A = module.A\nexport type B = module.B\nreturn module"
    );
    assert_eq!(
        generate_bin_linking_module("/work/app/lune_packages/.pesde/a+b/1.0.0", "\"./.pesde/a+b/1.0.0/main.luau\""),
        "_G.PESDE_ROOT = \"/work/app/lune_packages/.pesde/a+b/1.0.0\"\nreturn require(\"./.pesde/a+b/1.0.0/main.luau\")"
    );
    assert_eq!(get_file_types("export type A<T> = { T }\ntype Hidden = number\nexport type B = A<Hidden>\nreturn nil"), strings(&["A", "B"]));
    // code that does not parse still gives what was read
    assert_eq!(get_file_types("export type A = number\nlocal x = = 1"), strings(&["A"]));
    assert!(get_file_types("").is_empty());
}

fn node(package: &str, version: (u64, u64, u64), target: Target, source: SourceKind, direct: Option<&str>, edges: Vec<Edge>) -> DownloadedEntry {
    let kind = target.kind();
    DownloadedEntry {
        name: name(package),
        version_id: VersionId::new(Version::new(version.0, version.1, version.2), kind),
        node: DownloadedDependencyGraphNode {
            node: DependencyGraphNode {
                direct: direct.map(|s| s.to_string()),
                pkg_ref: PackageRef {
                    source,
                    location: "https://github.com/acme/index".to_string(),
                    target: target.duplicate(),
                    dependencies: Vec::new(),
                },
                dependencies: edges,
                ty: DependencyType::Normal,
            },
            target,
        },
    }
}

fn edge(package: &str, version: (u64, u64, u64), kind: TargetKind, alias: &str) -> Edge {
    Edge { name: name(package), version_id: VersionId::new(Version::new(version.0, version.1, version.2), kind), alias: alias.to_string() }
}

fn manifest(target: Target, scripts: Vec<Named>) -> Manifest {
    Manifest {
        name: name("acme/app"),
        version: Version::new(0, 1, 0),
        description: None,
        license: None,
        authors: Vec::new(),
        repository: None,
        private: false,
        target,
        indices: Vec::new(),
        wally_indices: Vec::new(),
        scripts,
        includes: Vec::new(),
        dependencies: Vec::new(),
        dev_dependencies: Vec::new(),
        peer_dependencies: Vec::new(),
        workspace_members: Vec::new(),
    }
}

fn source(package: &str, version: (u64, u64, u64), kind: TargetKind, code: &str) -> LibSource {
    LibSource { name: name(package), version_id: VersionId::new(Version::new(version.0, version.1, version.2), kind), contents: code.to_string() }
}

#[test]
fn a_roblox_project_is_linked() {
    let roblox = |lib: Option<&str>| Target::Roblox { lib: lib.map(|s| s.to_string()), build_files: strings(&["src", "default.luau"]) };
    let graph = DownloadedGraph {
        entries: vec![
            node("acme/ui", (1, 0, 0), roblox(Some("src/init.luau")), SourceKind::Pesde, Some("ui"), vec![
                edge("acme/signal", (2, 1, 0), TargetKind::Roblox, "Signal"),
                edge("acme/old", (0, 3, 0), TargetKind::Roblox, "Old"),
                edge("acme/headless", (1, 0, 0), TargetKind::Roblox, "None"),
            ]),
            node("acme/signal", (2, 1, 0), roblox(Some("lib/signal.luau")), SourceKind::Pesde, None, Vec::new()),
            node("acme/old", (0, 3, 0), roblox(Some("____pesde_no_export_file_found")), SourceKind::Wally, None, vec![
                edge("acme/signal", (2, 1, 0), TargetKind::Roblox, "Signal"),
            ]),
            node("acme/headless", (1, 0, 0), roblox(None), SourceKind::Pesde, Some("headless"), Vec::new()),
        ],
    };
    let sources = vec![
        source("acme/ui", (1, 0, 0), TargetKind::Roblox, "export type Props = {}\nreturn {}"),
        source("acme/signal", (2, 1, 0), TargetKind::Roblox, "return {}"),
    ];
    let m = manifest(roblox(Some("src/init.luau")), vec![Named { name: "roblox_sync_config_generator".to_string(), value: ".pesde/sync.luau".to_string() }]);
    let plan = project().link_dependencies(&graph, &m, &sources).expect("a plan");
    let written: Vec<(String, &str)> = plan.files.iter().map(|f| (f.folder.join("/"), f.name.as_str())).collect();
    assert_eq!(
        written,
        vec![
            ("roblox_packages".to_string(), "ui.luau"),
            ("roblox_packages/.pesde/acme+ui/1.0.0/roblox_packages".to_string(), "Signal.luau"),
            ("roblox_packages/.pesde/acme+ui/1.0.0/roblox_packages".to_string(), "Old.luau"),
            ("roblox_packages/.pesde/acme+old".to_string(), "Signal.luau"),
        ]
    );
    assert_eq!(
        plan.files[0].contents,
        "local module = require(script.Parent[\".pesde\"][\"acme+ui\"][\"1.0.0\"][\"src\"])\nexport type Props = module.Props\nreturn module"
    );
    assert_eq!(
        plan.files[1].contents,
        "local module = require(script.Parent.Parent.Parent.Parent[\"acme+signal\"][\"2.1.0\"][\"lib\"][\"signal\"])\nreturn module"
    );
    // a package that is laid out as Wally lays packages out is required by its directory
    assert_eq!(
        plan.files[2].contents,
        "local module = require(script.Parent.Parent.Parent.Parent[\"acme+old\"][\"0.3.0\"])\nreturn module"
    );
    assert_eq!(
        plan.files[3].contents,
        "local module = require(script.Parent.Parent[\"acme+signal\"][\"2.1.0\"][\"lib\"][\"signal\"])\nreturn module"
    );
    // sync configurations: for the packages with build files of their own, with or
    // without a library; one that is laid out as Wally does has none
    let jobs: Vec<(String, &str)> = plan.sync.iter().map(|j| (j.container_folder.join("/"), j.script.as_str())).collect();
    assert_eq!(
        jobs,
        vec![
            ("roblox_packages/.pesde/acme+ui/1.0.0".to_string(), ".pesde/sync.luau"),
            ("roblox_packages/.pesde/acme+signal/2.1.0".to_string(), ".pesde/sync.luau"),
            ("roblox_packages/.pesde/acme+headless/1.0.0".to_string(), ".pesde/sync.luau"),
        ]
    );
    assert_eq!(plan.sync[0].build_files, strings(&["src", "default.luau"]));
    assert!(!plan.sync_script_missing);

    let bare = manifest(roblox(Some("src/init.luau")), Vec::new());
    let plan = project().link_dependencies(&graph, &bare, &sources).expect("a plan");
    assert!(plan.sync.is_empty());
    assert!(plan.sync_script_missing);
    assert_eq!(linker_folder(TargetKind::Roblox, &graph.entries[2], TargetKind::Roblox).join("/"), "roblox_packages/.pesde/acme+old");
}

#[test]
fn binaries_and_dangling_edges() {
    let lune = |lib: Option<&str>, bin: Option<&str>| Target::Lune { lib: lib.map(|s| s.to_string()), bin: bin.map(|s| s.to_string()) };
    let graph = DownloadedGraph {
        entries: vec![
            node("acme/cli", (1, 0, 0), lune(None, Some("main.luau")), SourceKind::Pesde, Some("cli"), Vec::new()),
            node("acme/both", (1, 0, 0), lune(Some("lib.luau"), Some("bin/run.luau")), SourceKind::Pesde, Some("both"), Vec::new()),
            node("acme/inner", (1, 0, 0), lune(Some("lib.luau"), Some("bin.luau")), SourceKind::Pesde, None, Vec::new()),
        ],
    };
    let sources = vec![
        source("acme/both", (1, 0, 0), TargetKind::Lune, "return {}"),
        source("acme/inner", (1, 0, 0), TargetKind::Lune, "return {}"),
    ];
    let m = manifest(lune(None, Some("main.luau")), Vec::new());
    let plan = project().link_dependencies(&graph, &m, &sources).expect("a plan");
    let names: Vec<&str> = plan.files.iter().map(|f| f.name.as_str()).collect();
    assert_eq!(names, vec!["cli.bin.luau", "both.luau", "both.bin.luau"]);
    assert_eq!(
        plan.files[0].contents,
        "_G.PESDE_ROOT = \"/work/app/lune_packages/.pesde/acme+cli/1.0.0\"\nreturn require(\"./.pesde/acme+cli/1.0.0/main.luau\")"
    );
    assert!(!plan.sync_script_missing);

    let graph = DownloadedGraph {
        entries: vec![
            node("acme/cli", (1, 0, 0), lune(None, Some("main.luau")), SourceKind::Pesde, Some("cli"), vec![
                edge("acme/cli", (1, 0, 0), TargetKind::Lune, "me"),
                edge("acme/gone", (1, 0, 0), TargetKind::Lune, "gone"),
                edge("acme/also", (1, 0, 0), TargetKind::Lune, "also"),
            ]),
        ],
    };
    match project().link_dependencies(&graph, &m, &Vec::new()) {
        Err(LinkingError::DependencyNotFound(package, version)) => {
            assert_eq!(package, "acme/gone");
            assert_eq!(version, "1.0.0 lune");
        }
        other => panic!("{:?}", other),
    }
}

#[test]
fn the_library_files_that_are_read() {
    let roblox = |lib: Option<&str>| Target::Roblox { lib: lib.map(|s| s.to_string()), build_files: Vec::new() };
    let with_lib = node("acme/ui", (1, 0, 0), roblox(Some("src/init.luau")), SourceKind::Pesde, Some("ui"), Vec::new());
    assert_eq!(
        lib_file_to_read(TargetKind::Roblox, &with_lib),
        Some("roblox_packages/.pesde/acme+ui/1.0.0/src/init.luau".to_string())
    );
    assert_eq!(
        lib_file_to_read(TargetKind::Lune, &with_lib),
        Some("roblox_packages/.pesde/acme+ui/1.0.0/src/init.luau".to_string())
    );
    let without = node("acme/cli", (1, 0, 0), roblox(None), SourceKind::Pesde, Some("cli"), Vec::new());
    assert_eq!(lib_file_to_read(TargetKind::Roblox, &without), None);
    let unfound = node("acme/old", (0, 3, 0), roblox(Some("____pesde_no_export_file_found")), SourceKind::Wally, None, Vec::new());
    assert_eq!(lib_file_to_read(TargetKind::Roblox, &unfound), None);

    // a library file that is asked for and was not read fails the linking, under its path
    let graph = DownloadedGraph { entries: vec![without, with_lib] };
    let m = manifest(roblox(Some("src/init.luau")), Vec::new());
    match project().link_dependencies(&graph, &m, &Vec::new()) {
        Err(LinkingError::LibFileNotFound(path)) => {
            assert_eq!(path, "roblox_packages/.pesde/acme+ui/1.0.0/src/init.luau");
        }
        other => panic!("{:?}", other),
    }
}

#[test]
fn a_project_that_is_not_for_roblox_has_no_sync_job() {
    let roblox = |lib: Option<&str>| Target::Roblox { lib: lib.map(|s| s.to_string()), build_files: strings(&["src"]) };
    let graph = DownloadedGraph {
        entries: vec![node("acme/ui", (1, 0, 0), roblox(None), SourceKind::Pesde, Some("ui"), Vec::new())],
    };
    let scripts = vec![Named { name: "roblox_sync_config_generator".to_string(), value: ".pesde/sync.luau".to_string() }];
    let lune = manifest(Target::Lune { lib: None, bin: Some("main.luau".to_string()) }, scripts);
    let plan = project().link_dependencies(&graph, &lune, &Vec::new()).expect("a plan");
    assert!(plan.sync.is_empty());
    assert!(!plan.sync_script_missing);
    let server = manifest(
        Target::RobloxServer { lib: Some("init.luau".to_string()), build_files: strings(&["init.luau"]) },
        vec![Named { name: "roblox_sync_config_generator".to_string(), value: ".pesde/sync.luau".to_string() }],
    );
    let plan = project().link_dependencies(&graph, &server, &Vec::new()).expect("a plan");
    assert_eq!(plan.sync.len(), 1);
    assert_eq!(plan.sync[0].container_folder.join("/"), "roblox_packages/.pesde/acme+ui/1.0.0");
    assert_eq!(plan.sync[0].build_files, strings(&["src"]));
}
