use pesde::download::copy_node;
use pesde::lockfile::{
    key_precedes, DeclaredDependency, DependencyGraphNode, DownloadedDependencyGraphNode,
    DownloadedGraph, Edge, GraphEntry, PackageRef, SourceKind,
};
use pesde::manifest::target::Target;
use pesde::source::specifiers::{DependencySpecifiers, PesdeDependencySpecifier};
use pesde::source::version_id::VersionReq;
use pesde::manifest::target::{bare_target, TargetKind};
use pesde::names::PackageName;
use pesde::source::specifiers::DependencyType;
use pesde::source::version_id::{Version, VersionId};
use pesde::text::text_precedes;

fn package(text: &str) -> PackageName {
    PackageName::parse(text).expect("a package name")
}

fn release(version: (u64, u64, u64), kind: TargetKind) -> VersionId {
    VersionId::new(Version::new(version.0, version.1, version.2), kind)
}

fn fetched(kind: TargetKind, alias: &str) -> DownloadedDependencyGraphNode {
    DownloadedDependencyGraphNode {
        node: DependencyGraphNode {
            direct: Some(alias.to_string()),
            pkg_ref: PackageRef {
                source: SourceKind::Pesde,
                location: "https://github.com/acme/index".to_string(),
                target: bare_target(kind),
                dependencies: Vec::new(),
            },
            dependencies: Vec::new(),
            ty: DependencyType::Normal,
        },
        target: bare_target(kind),
    }
}

fn keys(graph: &DownloadedGraph) -> Vec<(String, String)> {
    graph.entries.iter().map(|e| (e.name.text(), e.version_id.text())).collect()
}

#[test]
fn texts_are_ordered_character_by_character() {
    let samples = ["", "a", "ab", "abc", "abd", "b", "B", "a_b", "a0", "z", "zz", "é", "e", "日本", "a\u{10000}", "a\u{ffff}"];
    for a in samples {
        for b in samples {
            assert_eq!(text_precedes(a, b), a < b, "{:?} and {:?}", a, b);
        }
    }
    assert!(text_precedes("", "a"));
    assert!(!text_precedes("a", ""));
    assert!(!text_precedes("same", "same"));
    assert!(text_precedes("acme", "acme_"));
    assert!(text_precedes("acme/ui", "acme/uj"));
}

#[test]
fn keys_are_ordered_by_name_then_release() {
    let ui = package("acme/ui");
    let uj = package("acme/uj");
    let other = package("beta/a");
    let one = release((1, 0, 0), TargetKind::Luau);
    let two = release((2, 0, 0), TargetKind::Roblox);
    // the scope first, then the name
    assert!(key_precedes(&ui, &two, &uj, &one));
    assert!(key_precedes(&uj, &two, &other, &one));
    assert!(!key_precedes(&other, &one, &ui, &two));
    // then the version, from the most significant number
    assert!(key_precedes(&ui, &one, &ui, &two));
    assert!(key_precedes(&ui, &release((1, 9, 9), TargetKind::Luau), &ui, &release((1, 10, 0), TargetKind::Roblox)));
    assert!(key_precedes(&ui, &release((1, 2, 3), TargetKind::Luau), &ui, &release((1, 2, 4), TargetKind::Roblox)));
    assert!(!key_precedes(&ui, &two, &ui, &one));
    // then the kind, in the fixed order of kinds
    let kinds = [TargetKind::Roblox, TargetKind::RobloxServer, TargetKind::Lune, TargetKind::Luau];
    for (i, a) in kinds.iter().enumerate() {
        for (j, b) in kinds.iter().enumerate() {
            assert_eq!(key_precedes(&ui, &release((1, 0, 0), *a), &ui, &release((1, 0, 0), *b)), i < j);
        }
    }
    assert!(!key_precedes(&ui, &one, &ui, &one));
}

#[test]
fn a_graph_keeps_its_nodes_in_key_order() {
    let nodes = [
        ("beta/tool", (1, 0, 0), TargetKind::Lune),
        ("acme/ui", (2, 0, 0), TargetKind::Roblox),
        ("acme/ui", (1, 5, 0), TargetKind::Roblox),
        ("acme/signal", (1, 0, 0), TargetKind::Luau),
        ("acme/signal", (1, 0, 0), TargetKind::Roblox),
    ];
    let expected = vec![
        ("acme/signal".to_string(), "1.0.0 roblox".to_string()),
        ("acme/signal".to_string(), "1.0.0 luau".to_string()),
        ("acme/ui".to_string(), "1.5.0 roblox".to_string()),
        ("acme/ui".to_string(), "2.0.0 roblox".to_string()),
        ("beta/tool".to_string(), "1.0.0 lune".to_string()),
    ];
    let mut forward = DownloadedGraph::new();
    for (name, version, kind) in nodes.iter() {
        forward.insert(package(name), release(*version, *kind), fetched(*kind, "x"));
    }
    assert_eq!(keys(&forward), expected);
    let mut backward = DownloadedGraph::new();
    for (name, version, kind) in nodes.iter().rev() {
        backward.insert(package(name), release(*version, *kind), fetched(*kind, "x"));
    }
    assert_eq!(keys(&backward), expected);
    let mut mixed = DownloadedGraph::new();
    for at in [2usize, 0, 4, 1, 3] {
        let (name, version, kind) = nodes[at];
        mixed.insert(package(name), release(version, kind), fetched(kind, "x"));
    }
    assert_eq!(keys(&mixed), expected);
}

#[test]
fn a_node_takes_the_place_of_the_node_with_its_key() {
    let mut graph = DownloadedGraph::new();
    graph.insert(package("acme/ui"), release((1, 0, 0), TargetKind::Roblox), fetched(TargetKind::Roblox, "first"));
    graph.insert(package("acme/signal"), release((1, 0, 0), TargetKind::Roblox), fetched(TargetKind::Roblox, "signal"));
    graph.insert(package("acme/ui"), release((1, 0, 0), TargetKind::Roblox), fetched(TargetKind::Roblox, "second"));
    assert_eq!(graph.entries.len(), 2);
    assert_eq!(graph.entries[0].name.text(), "acme/signal");
    assert_eq!(graph.entries[1].name.text(), "acme/ui");
    assert_eq!(graph.entries[1].node.node.direct, Some("second".to_string()));
    assert_eq!(graph.position(&package("acme/ui"), &release((1, 0, 0), TargetKind::Roblox)), Some(1));
    assert_eq!(graph.position(&package("acme/ui"), &release((1, 0, 1), TargetKind::Roblox)), None);
}

fn resolved(package_name: &str, version: Version, kind: TargetKind) -> GraphEntry {
    GraphEntry {
        name: package(package_name),
        version_id: VersionId::new(version, kind),
        node: DependencyGraphNode {
            direct: Some("alias".to_string()),
            pkg_ref: PackageRef {
                source: SourceKind::Pesde,
                location: "https://github.com/acme/index".to_string(),
                target: Target::Lune { lib: Some("lib.luau".to_string()), bin: None },
                dependencies: vec![DeclaredDependency {
                    alias: "dep".to_string(),
                    specifier: DependencySpecifiers::Pesde(PesdeDependencySpecifier {
                        name: package("acme/dep"),
                        version: VersionReq::parse("^1").unwrap(),
                        index: None,
                        target: None,
                    }),
                    ty: DependencyType::Peer,
                }],
            },
            dependencies: vec![Edge {
                name: package("acme/dep"),
                version_id: release((1, 2, 0), TargetKind::Lune),
                alias: "dep".to_string(),
            }],
            ty: DependencyType::Dev,
        },
    }
}

#[test]
fn a_node_is_copied_whole() {
    let entry = resolved("acme/ui", Version::with_parts(1, 0, 0, "rc.1", ""), TargetKind::Lune);
    let copy = copy_node(&entry.node);
    assert_eq!(copy.direct, Some("alias".to_string()));
    assert_eq!(copy.ty, DependencyType::Dev);
    assert_eq!(copy.pkg_ref.source, SourceKind::Pesde);
    assert_eq!(copy.pkg_ref.location, "https://github.com/acme/index");
    assert_eq!(copy.pkg_ref.target.lib_path(), Some(&"lib.luau".to_string()));
    assert_eq!(copy.pkg_ref.dependencies.len(), 1);
    assert_eq!(copy.pkg_ref.dependencies[0].alias, "dep");
    assert_eq!(copy.pkg_ref.dependencies[0].ty, DependencyType::Peer);
    assert_eq!(copy.dependencies.len(), 1);
    assert_eq!(copy.dependencies[0].name.text(), "acme/dep");
    assert_eq!(copy.dependencies[0].version_id, release((1, 2, 0), TargetKind::Lune));
    assert_eq!(copy.dependencies[0].alias, "dep");
}

#[test]
fn fetched_packages_are_recorded_under_their_keys() {
    let nodes = [
        resolved("beta/tool", Version::new(1, 0, 0), TargetKind::Lune),
        resolved("acme/ui", Version::new(1, 0, 0), TargetKind::Lune),
        resolved("acme/ui", Version::with_parts(1, 0, 0, "rc.1", ""), TargetKind::Lune),
        resolved("acme/ui", Version::with_parts(1, 0, 0, "", "b2"), TargetKind::Lune),
    ];
    let expected = vec![
        ("acme/ui".to_string(), "1.0.0 lune".to_string()),
        ("acme/ui".to_string(), "1.0.0+b2 lune".to_string()),
        ("acme/ui".to_string(), "1.0.0-rc.1 lune".to_string()),
        ("beta/tool".to_string(), "1.0.0 lune".to_string()),
    ];
    for order in [[0usize, 1, 2, 3], [3, 2, 1, 0], [2, 0, 3, 1]] {
        let mut graph = DownloadedGraph::new();
        for at in order {
            graph.record(&nodes[at], Target::Lune { lib: Some("lib.luau".to_string()), bin: Some(format!("bin{at}.luau")) });
        }
        assert_eq!(keys(&graph), expected);
        let at = graph.position(&nodes[2].name, &nodes[2].version_id).expect("the node");
        assert_eq!(graph.entries[at].node.target.bin_path(), Some(&"bin2.luau".to_string()));
        assert_eq!(graph.entries[at].node.node.direct, Some("alias".to_string()));
        assert_eq!(graph.entries[at].node.node.dependencies.len(), 1);
    }
}
