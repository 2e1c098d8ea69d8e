//! Linking: the shim modules through which a project and its packages
//! reach their dependencies.

use crate::linking::generator::{bin_module_spec, bin_require_spec, generate_bin_linking_module,
    generate_lib_linking_module, get_bin_require_path, get_file_types, get_lib_require_path,
    lib_module_spec, lib_require_spec, luau_exported_types};
use crate::lockfile::{DownloadedEntry, DownloadedGraph, NodeKey};
use crate::manifest::target::TargetKind;
use crate::manifest::{lookup, lookup_spec, Manifest};
use crate::names::PackageName;
use crate::paths::{components, components_spec};
use crate::source::version_id::VersionId;
use crate::text::{concat, concat3, extend_texts, join, join_spec, str_eq, views};
use crate::{Project, LINK_LIB_NO_FILE_FOUND, PACKAGES_CONTAINER_NAME};
use vstd::prelude::*;
use vstd::string::*;

pub mod generator;

verus! {

/// The role of the script that makes the sync configuration of a Roblox
/// package.
pub const ROBLOX_SYNC_CONFIG_GENERATOR: &'static str = "roblox_sync_config_generator";

/// The text of the library file of one package, as it was read from its
/// container.
#[derive(Debug)]
pub struct LibSource {
    /// The name of the package.
    pub name: PackageName,
    /// The release.
    pub version_id: VersionId,
    /// The text of the library file.
    pub contents: String,
}

/// A shim module to write.
#[derive(Debug)]
pub struct LinkFile {
    /// The directory of the shim, relative to the project, by its
    /// components.
    pub folder: Vec<String>,
    /// The file name of the shim.
    pub name: String,
    /// The text of the shim.
    pub contents: String,
}

/// What a shim holds, with its strings as sequences.
pub ghost struct LinkFileView {
    pub folder: Seq<Seq<char>>,
    pub name: Seq<char>,
    pub contents: Seq<char>,
}

impl View for LinkFile {
    type V = LinkFileView;

    open spec fn view(&self) -> LinkFileView {
        LinkFileView { folder: views(self.folder@), name: self.name@, contents: self.contents@ }
    }
}

/// What a list of shims holds.
pub open spec fn file_views(files: Seq<LinkFile>) -> Seq<LinkFileView> {
    files.map_values(|f: LinkFile| f@)
}

/// A run of the script that makes the sync configuration of a Roblox
/// package.
#[derive(Debug)]
pub struct SyncJob {
    /// The path of the script, relative to the project.
    pub script: String,
    /// The container of the package, relative to the project, by its
    /// components.
    pub container_folder: Vec<String>,
    /// The build files of the package.
    pub build_files: Vec<String>,
}

/// What a sync job holds, with its strings as sequences.
pub ghost struct SyncJobView {
    pub script: Seq<char>,
    pub container_folder: Seq<Seq<char>>,
    pub build_files: Seq<Seq<char>>,
}

impl View for SyncJob {
    type V = SyncJobView;

    open spec fn view(&self) -> SyncJobView {
        SyncJobView {
            script: self.script@,
            container_folder: views(self.container_folder@),
            build_files: views(self.build_files@),
        }
    }
}

/// What a list of sync jobs holds.
pub open spec fn job_views(jobs: Seq<SyncJob>) -> Seq<SyncJobView> {
    jobs.map_values(|j: SyncJob| j@)
}

/// What linking a project takes: scripts to run, then shims to write.
#[derive(Debug)]
pub struct LinkPlan {
    /// The sync configurations to generate, in the order of the graph.
    pub sync: Vec<SyncJob>,
    /// Whether a Roblox package needs a sync configuration and the
    /// manifest names no script that makes one.
    pub sync_script_missing: bool,
    /// The shims to write, in the order of the graph.
    pub files: Vec<LinkFile>,
}

/// Why a project cannot be linked.
#[derive(Debug)]
pub enum LinkingError {
    /// A node depends on a release that the graph does not hold: the name
    /// and the release, as they are written.
    DependencyNotFound(String, String),
    /// The library file at this path, relative to the project, was not
    /// found.
    LibFileNotFound(String),
}

/// The container of the release of `entry`, relative to the project, for a
/// consumer of kind `consumer`, by its components:
/// `<kind>_packages`, `.pesde`, `scope+name`, `version`.
pub open spec fn container_spec(consumer: TargetKind, entry: DownloadedEntry) -> Seq<Seq<char>> {
    seq![
        consumer.packages_folder_spec(entry.node.node.pkg_ref.target.kind_spec()),
        PACKAGES_CONTAINER_NAME@,
        entry.name.escaped_spec(),
        entry.version_id.version.text_spec(),
    ]
}

/// The text of the library file that was read for the release with the
/// given key: that of the first source with this key.
pub open spec fn source_spec(sources: Seq<LibSource>, key: NodeKey) -> Option<Seq<char>>
    decreases sources.len(),
{
    if sources.len() == 0 {
        None
    } else if (sources[0].name@, sources[0].version_id@) == key {
        Some(sources[0].contents@)
    } else {
        source_spec(sources.skip(1), key)
    }
}

/// Whether the library file of `entry` had to be read and was not.
pub open spec fn lib_missing(entry: DownloadedEntry, sources: Seq<LibSource>) -> bool {
    reads_lib(entry) && source_spec(sources, entry.key()) is None
}

/// The types that the library of `entry` exports: those of the text that
/// was read for it; none where the package has no library file.
pub open spec fn types_spec(entry: DownloadedEntry, sources: Seq<LibSource>) -> Seq<Seq<char>> {
    match source_spec(sources, entry.key()) {
        Some(code) => if entry.node.target.lib_spec() matches Some(lib) && lib@
            != LINK_LIB_NO_FILE_FOUND@ {
            luau_exported_types(code)
        } else {
            Seq::empty()
        },
        None => Seq::empty(),
    }
}

/// The path, relative to the project, of the library file of `entry`.
pub open spec fn lib_file_spec(root: TargetKind, entry: DownloadedEntry) -> Seq<char> {
    join_spec(
        container_spec(root, entry) + components_spec(entry.node.target.lib_spec()->0@),
        "/"@,
    )
}

/// The shims that the project itself needs to reach the release of
/// `entry`, if it depends on it directly: one for its library, if it has
/// one, and one for its binary, if it has one. They stand in the packages
/// folder of the release's kind, under the alias.
pub open spec fn direct_files_spec(
    root: TargetKind,
    package_dir: Seq<char>,
    entry: DownloadedEntry,
    sources: Seq<LibSource>,
) -> Seq<LinkFileView> {
    match entry.node.node.direct {
        None => Seq::empty(),
        Some(alias) => {
            let folder = seq![root.packages_folder_spec(entry.node.node.pkg_ref.target.kind_spec())];
            let container = container_spec(root, entry);
            let lib = match entry.node.target.lib_spec() {
                None => Seq::empty(),
                Some(lib) => seq![
                    LinkFileView {
                        folder,
                        name: alias@ + ".luau"@,
                        contents: lib_module_spec(
                            lib_require_spec(
                                entry.node.target.kind_spec(),
                                folder,
                                lib@,
                                container,
                                !entry.node.node.pkg_ref.like_wally_spec(),
                            ),
                            types_spec(entry, sources),
                        ),
                    },
                ],
            };
            let bin = match entry.node.target.bin_spec() {
                None => Seq::empty(),
                Some(bin) => seq![
                    LinkFileView {
                        folder,
                        name: alias@ + ".bin.luau"@,
                        contents: bin_module_spec(
                            package_dir + "/"@ + join_spec(container, "/"@),
                            bin_require_spec(folder, bin@, container),
                        ),
                    },
                ],
            };
            lib + bin
        },
    }
}

/// The directory into which the shims of the dependencies of kind
/// `dependency` of the release of `entry` go: the packages folder of that
/// kind inside its container, or, for a package laid out as Wally lays
/// packages out, the directory above its container.
pub open spec fn linker_folder_spec(
    root: TargetKind,
    entry: DownloadedEntry,
    dependency: TargetKind,
) -> Seq<Seq<char>> {
    if entry.node.node.pkg_ref.like_wally_spec() {
        container_spec(root, entry).drop_last()
    } else {
        container_spec(root, entry).push(
            entry.node.node.pkg_ref.target.kind_spec().packages_folder_spec(dependency),
        )
    }
}

/// The shim through which the release of `entry` reaches the dependency
/// of its edge `at`; none where the edge ends at no node, or at a package
/// without a library.
pub open spec fn edge_file_spec(
    graph: DownloadedGraph,
    root: TargetKind,
    entry: DownloadedEntry,
    at: int,
    sources: Seq<LibSource>,
) -> Seq<LinkFileView> {
    let edge = entry.node.node.dependencies@[at];
    match graph.keys().index_of_first((edge.name@, edge.version_id@)) {
        None => Seq::empty(),
        Some(found) => {
            let dependency = graph.entries@[found];
            match dependency.node.target.lib_spec() {
                None => Seq::empty(),
                Some(lib) => {
                    let folder = linker_folder_spec(root, entry, dependency.node.target.kind_spec());
                    seq![
                        LinkFileView {
                            folder,
                            name: edge.alias@ + ".luau"@,
                            contents: lib_module_spec(
                                lib_require_spec(
                                    dependency.node.target.kind_spec(),
                                    folder,
                                    lib@,
                                    container_spec(entry.node.node.pkg_ref.target.kind_spec(), dependency),
                                    !dependency.node.node.pkg_ref.like_wally_spec(),
                                ),
                                types_spec(dependency, sources),
                            ),
                        },
                    ]
                },
            }
        },
    }
}

/// The shims for the first `upto` edges of the release of `entry`.
pub open spec fn edge_files_spec(
    graph: DownloadedGraph,
    root: TargetKind,
    entry: DownloadedEntry,
    upto: int,
    sources: Seq<LibSource>,
) -> Seq<LinkFileView>
    decreases upto,
{
    if upto <= 0 {
        Seq::empty()
    } else {
        edge_files_spec(graph, root, entry, upto - 1, sources) + edge_file_spec(
            graph,
            root,
            entry,
            upto - 1,
            sources,
        )
    }
}

/// The shims for the first `upto` nodes of the graph: for each node those
/// of the project, then those of its own dependencies.
pub open spec fn files_spec(
    graph: DownloadedGraph,
    root: TargetKind,
    package_dir: Seq<char>,
    upto: int,
    sources: Seq<LibSource>,
) -> Seq<LinkFileView>
    decreases upto,
{
    if upto <= 0 {
        Seq::empty()
    } else {
        let entry = graph.entries@[upto - 1];
        files_spec(graph, root, package_dir, upto - 1, sources) + direct_files_spec(
            root,
            package_dir,
            entry,
            sources,
        ) + edge_files_spec(
            graph,
            root,
            entry,
            entry.node.node.dependencies@.len() as int,
            sources,
        )
    }
}

/// Whether the edge `at` of node `node` ends at no node of the graph.
pub open spec fn dangling(graph: DownloadedGraph, node: int, at: int) -> bool {
    !graph.keys().contains(
        (
            graph.entries@[node].node.node.dependencies@[at].name@,
            graph.entries@[node].node.node.dependencies@[at].version_id@,
        ),
    )
}

/// Whether the sync configuration of the release of `entry` is to be
/// generated for a project of kind `root`: the project is built for
/// Roblox, and the release carries build files of its own, which one that
/// is laid out as Wally lays packages out does not.
pub open spec fn needs_sync(root: TargetKind, entry: DownloadedEntry) -> bool {
    root.is_roblox_spec() && entry.node.target.build_files_spec() is Some
        && !entry.node.node.pkg_ref.like_wally_spec()
}

/// The sync jobs for the first `upto` nodes of the graph, run by `script`.
pub open spec fn sync_spec(
    graph: DownloadedGraph,
    root: TargetKind,
    script: Seq<char>,
    upto: int,
) -> Seq<SyncJobView>
    decreases upto,
{
    if upto <= 0 {
        Seq::empty()
    } else {
        let entry = graph.entries@[upto - 1];
        let before = sync_spec(graph, root, script, upto - 1);
        if needs_sync(root, entry) {
            before.push(
                SyncJobView {
                    script,
                    container_folder: container_spec(root, entry),
                    build_files: views(entry.node.target.build_files_spec()->0@),
                },
            )
        } else {
            before
        }
    }
}

/// The container of the release of `entry` for a consumer of kind
/// `consumer`, by its components.
pub fn container_parts(consumer: TargetKind, entry: &DownloadedEntry) -> (r: Vec<String>)
    ensures
        views(r@) == container_spec(consumer, *entry),
{
    let mut parts: Vec<String> = Vec::new();
    parts.push(consumer.packages_folder(&entry.node.node.pkg_ref.target_kind()));
    parts.push(String::from_str(PACKAGES_CONTAINER_NAME));
    parts.push(entry.name.escaped());
    parts.push(entry.version_id.version.text());
    assert(views(parts@) =~= container_spec(consumer, *entry));
    parts
}

/// Whether the linker reads the library file of `entry`: the package has
/// one, and it is not the mark of a package in which none was found.
pub open spec fn reads_lib(entry: DownloadedEntry) -> bool {
    entry.node.target.lib_spec() matches Some(lib) && lib@ != LINK_LIB_NO_FILE_FOUND@
}

/// The path, relative to the project of kind `root`, of the library file
/// of `entry` whose text the linker asks for; `None` where it asks for
/// none.
pub fn lib_file_to_read(root: TargetKind, entry: &DownloadedEntry) -> (r: Option<String>)
    ensures
        match r {
            Some(path) => reads_lib(*entry) && path@ == lib_file_spec(root, *entry),
            None => !reads_lib(*entry),
        },
{
    match entry.node.target.lib_path() {
        None => None,
        Some(lib) => {
            if str_eq(lib.as_str(), LINK_LIB_NO_FILE_FOUND) {
                None
            } else {
                let mut parts = container_parts(root, entry);
                let inner = components(lib.as_str());
                extend_texts(&mut parts, &inner);
                Some(join(&parts, "/"))
            }
        },
    }
}

/// The text that was read for the release with the given key.
fn find_source<'a>(sources: &'a Vec<LibSource>, name: &PackageName, version_id: &VersionId) -> (r:
    Option<&'a String>)
    ensures
        match r {
            Some(code) => source_spec(sources@, (name@, version_id@)) == Some(code@),
            None => source_spec(sources@, (name@, version_id@)) is None,
        },
{
    let mut i: usize = 0;
    proof {
        assert(sources@.skip(0) == sources@);
    }
    while i < sources.len()
        invariant
            i <= sources@.len(),
            source_spec(sources@.skip(i as int), (name@, version_id@)) == source_spec(
                sources@,
                (name@, version_id@),
            ),
        decreases sources@.len() - i,
    {
        if sources[i].name.same_as(name) && sources[i].version_id.same_as(version_id) {
            return Some(&sources[i].contents);
        }
        proof {
            assert(sources@.skip(i as int).skip(1) == sources@.skip(i + 1));
        }
        i += 1;
    }
    None
}

/// The types that the library of `entry` exports, or `None` where its
/// library file had to be read and was not.
fn node_types(entry: &DownloadedEntry, sources: &Vec<LibSource>) -> (r: Option<Vec<String>>)
    ensures
        match r {
            Some(types) => !lib_missing(*entry, sources@) && views(types@) == types_spec(
                *entry,
                sources@,
            ),
            None => lib_missing(*entry, sources@),
        },
{
    let found = find_source(sources, &entry.name, &entry.version_id);
    match entry.node.target.lib_path() {
        None => Some(Vec::new()),
        Some(lib) => {
            if str_eq(lib.as_str(), LINK_LIB_NO_FILE_FOUND) {
                Some(Vec::new())
            } else {
                match found {
                    None => None,
                    Some(code) => Some(get_file_types(code.as_str())),
                }
            }
        },
    }
}

/// The types that each library of the graph exports, in the order of the
/// graph. The error is the path of the library file of the first node
/// whose file had to be read and was not.
fn scan(graph: &DownloadedGraph, root: TargetKind, sources: &Vec<LibSource>) -> (r: Result<
    Vec<Vec<String>>,
    String,
>)
    ensures
        match r {
            Ok(types) => types@.len() == graph.entries@.len() && forall|i: int|
                0 <= i < graph.entries@.len() ==> !lib_missing(
                    #[trigger] graph.entries@[i],
                    sources@,
                ) && views(types@[i]@) == types_spec(graph.entries@[i], sources@),
            Err(path) => exists|i: int|
                0 <= i < graph.entries@.len() && lib_missing(
                    #[trigger] graph.entries@[i],
                    sources@,
                ) && path@ == lib_file_spec(root, graph.entries@[i]) && forall|k: int|
                    0 <= k < i ==> !lib_missing(#[trigger] graph.entries@[k], sources@),
        },
{
    let mut types: Vec<Vec<String>> = Vec::new();
    let mut i: usize = 0;
    while i < graph.entries.len()
        invariant
            i <= graph.entries@.len(),
            types@.len() == i,
            forall|k: int|
                0 <= k < i ==> !lib_missing(#[trigger] graph.entries@[k], sources@) && views(
                    types@[k]@,
                ) == types_spec(graph.entries@[k], sources@),
        decreases graph.entries@.len() - i,
    {
        let entry = &graph.entries[i];
        match node_types(entry, sources) {
            Some(found) => {
                types.push(found);
            },
            None => {
                match lib_file_to_read(root, entry) {
                    Some(path) => {
                        return Err(path);
                    },
                    // a file that was not read is one that is asked for
                    None => {
                        types.push(Vec::new());
                    },
                }
            },
        }
        i += 1;
    }
    Ok(types)
}

/// The first edge of the graph, in the order of nodes and then of edges,
/// that ends at no node.
fn first_dangling(graph: &DownloadedGraph) -> (r: Option<(usize, usize)>)
    ensures
        match r {
            None => forall|i: int, j: int|
                0 <= i < graph.entries@.len() && 0 <= j
                    < graph.entries@[i].node.node.dependencies@.len() ==> !#[trigger] dangling(
                    *graph,
                    i,
                    j,
                ),
            Some((node, at)) => {
                &&& node < graph.entries@.len()
                &&& at < graph.entries@[node as int].node.node.dependencies@.len()
                &&& dangling(*graph, node as int, at as int)
                &&& forall|i: int, j: int|
                    0 <= i < node && 0 <= j < graph.entries@[i].node.node.dependencies@.len()
                        ==> !#[trigger] dangling(*graph, i, j)
                &&& forall|j: int| 0 <= j < at ==> !#[trigger] dangling(*graph, node as int, j)
            },
        },
{
    let mut i: usize = 0;
    while i < graph.entries.len()
        invariant
            i <= graph.entries@.len(),
            forall|a: int, b: int|
                0 <= a < i && 0 <= b < graph.entries@[a].node.node.dependencies@.len()
                    ==> !#[trigger] dangling(*graph, a, b),
        decreases graph.entries@.len() - i,
    {
        let edges = &graph.entries[i].node.node.dependencies;
        let mut j: usize = 0;
        while j < edges.len()
            invariant
                i < graph.entries@.len(),
                edges == &graph.entries@[i as int].node.node.dependencies,
                j <= edges@.len(),
                forall|a: int, b: int|
                    0 <= a < i && 0 <= b < graph.entries@[a].node.node.dependencies@.len()
                        ==> !#[trigger] dangling(*graph, a, b),
                forall|b: int| 0 <= b < j ==> !#[trigger] dangling(*graph, i as int, b),
            decreases edges@.len() - j,
        {
            match graph.position(&edges[j].name, &edges[j].version_id) {
                None => {
                    return Some((i, j));
                },
                Some(found) => {
                    assert(!dangling(*graph, i as int, j as int));
                },
            }
            j += 1;
        }
        i += 1;
    }
    None
}

/// The shims that the project itself needs to reach the release of
/// `entry`.
fn direct_files(
    root: TargetKind,
    package_dir: &str,
    entry: &DownloadedEntry,
    types: &Vec<String>,
    Ghost(sources): Ghost<Seq<LibSource>>,
) -> (r: Vec<LinkFile>)
    requires
        views(types@) == types_spec(*entry, sources),
    ensures
        file_views(r@) == direct_files_spec(root, package_dir@, *entry, sources),
{
    let mut files: Vec<LinkFile> = Vec::new();
    let alias = match &entry.node.node.direct {
        None => {
            assert(file_views(files@) =~= Seq::<LinkFileView>::empty());
            return files;
        },
        Some(alias) => alias,
    };
    let kind = entry.node.node.pkg_ref.target_kind();
    let container = container_parts(root, entry);
    let ghost expected_folder = seq![root.packages_folder_spec(kind)];
    match entry.node.target.lib_path() {
        None => {},
        Some(lib) => {
            let mut folder: Vec<String> = Vec::new();
            folder.push(root.packages_folder(&kind));
            assert(views(folder@) =~= expected_folder);
            let require = get_lib_require_path(
                entry.node.target.kind(),
                &folder,
                lib.as_str(),
                &container,
                entry.node.node.pkg_ref.use_new_structure(),
            );
            files.push(
                LinkFile {
                    folder,
                    name: concat(alias.as_str(), ".luau"),
                    contents: generate_lib_linking_module(require.as_str(), types),
                },
            );
        },
    }
    let ghost lib_files = file_views(files@);
    match entry.node.target.bin_path() {
        None => {},
        Some(bin) => {
            let mut folder: Vec<String> = Vec::new();
            folder.push(root.packages_folder(&kind));
            assert(views(folder@) =~= expected_folder);
            let require = get_bin_require_path(&folder, bin.as_str(), &container);
            let inside = join(&container, "/");
            let package_root = concat3(package_dir, "/", inside.as_str());
            files.push(
                LinkFile {
                    folder,
                    name: concat(alias.as_str(), ".bin.luau"),
                    contents: generate_bin_linking_module(package_root.as_str(), require.as_str()),
                },
            );
        },
    }
    assert(file_views(files@) =~= direct_files_spec(root, package_dir@, *entry, sources));
    files
}

/// The directory into which the shims of the dependencies of kind
/// `dependency` of the release of `entry` go.
pub fn linker_folder(root: TargetKind, entry: &DownloadedEntry, dependency: TargetKind) -> (r: Vec<
    String,
>)
    ensures
        views(r@) == linker_folder_spec(root, *entry, dependency),
{
    let mut parts = container_parts(root, entry);
    let ghost container = views(parts@);
    if entry.node.node.pkg_ref.use_new_structure() {
        parts.push(entry.node.node.pkg_ref.target_kind().packages_folder(&dependency));
        assert(views(parts@) =~= container.push(
            entry.node.node.pkg_ref.target.kind_spec().packages_folder_spec(dependency),
        ));
    } else {
        parts.pop();
        assert(views(parts@) =~= container.drop_last());
    }
    parts
}

/// The shims through which the release of node `node` reaches its
/// dependencies.
fn edge_files(
    graph: &DownloadedGraph,
    root: TargetKind,
    node: usize,
    types: &Vec<Vec<String>>,
    Ghost(sources): Ghost<Seq<LibSource>>,
) -> (r: Vec<LinkFile>)
    requires
        node < graph.entries@.len(),
        types@.len() == graph.entries@.len(),
        forall|i: int|
            0 <= i < graph.entries@.len() ==> views((#[trigger] types@[i])@) == types_spec(
                graph.entries@[i],
                sources,
            ),
    ensures
        file_views(r@) == edge_files_spec(
            *graph,
            root,
            graph.entries@[node as int],
            graph.entries@[node as int].node.node.dependencies@.len() as int,
            sources,
        ),
{
    let entry = &graph.entries[node];
    let edges = &entry.node.node.dependencies;
    let mut files: Vec<LinkFile> = Vec::new();
    let mut j: usize = 0;
    assert(file_views(files@) =~= Seq::<LinkFileView>::empty());
    while j < edges.len()
        invariant
            node < graph.entries@.len(),
            entry == &graph.entries@[node as int],
            edges == &entry.node.node.dependencies,
            j <= edges@.len(),
            types@.len() == graph.entries@.len(),
            forall|i: int|
                0 <= i < graph.entries@.len() ==> views((#[trigger] types@[i])@) == types_spec(
                    graph.entries@[i],
                    sources,
                ),
            file_views(files@) == edge_files_spec(*graph, root, *entry, j as int, sources),
        decreases edges@.len() - j,
    {
        let edge = &edges[j];
        let ghost before = file_views(files@);
        proof {
            graph.keys().index_of_first_ensures((edge.name@, edge.version_id@));
        }
        match graph.position(&edge.name, &edge.version_id) {
            None => {
                assert(edge_file_spec(*graph, root, *entry, j as int, sources)
                    =~= Seq::<LinkFileView>::empty());
            },
            Some(found) => {
                let dependency = &graph.entries[found];
                assert(graph.keys().index_of_first((edge.name@, edge.version_id@)) == Some(
                    found as int,
                ));
                match dependency.node.target.lib_path() {
                    None => {
                        assert(edge_file_spec(*graph, root, *entry, j as int, sources)
                            =~= Seq::<LinkFileView>::empty());
                    },
                    Some(lib) => {
                        let folder = linker_folder(root, entry, dependency.node.target.kind());
                        let container = container_parts(
                            entry.node.node.pkg_ref.target_kind(),
                            dependency,
                        );
                        let require = get_lib_require_path(
                            dependency.node.target.kind(),
                            &folder,
                            lib.as_str(),
                            &container,
                            dependency.node.node.pkg_ref.use_new_structure(),
                        );
                        let file = LinkFile {
                            folder,
                            name: concat(edge.alias.as_str(), ".luau"),
                            contents: generate_lib_linking_module(require.as_str(), &types[found]),
                        };
                        assert(edge_file_spec(*graph, root, *entry, j as int, sources)
                            =~= seq![file@]);
                        files.push(file);
                    },
                }
            },
        }
        assert(file_views(files@) =~= before + edge_file_spec(
            *graph,
            root,
            *entry,
            j as int,
            sources,
        ));
        j += 1;
    }
    files
}

/// The sync jobs of the graph, run by `script`.
fn sync_jobs(graph: &DownloadedGraph, root: TargetKind, script: &str) -> (r: Vec<SyncJob>)
    ensures
        job_views(r@) == sync_spec(*graph, root, script@, graph.entries@.len() as int),
{
    let mut jobs: Vec<SyncJob> = Vec::new();
    let mut i: usize = 0;
    assert(job_views(jobs@) =~= Seq::<SyncJobView>::empty());
    while i < graph.entries.len()
        invariant
            i <= graph.entries@.len(),
            job_views(jobs@) == sync_spec(*graph, root, script@, i as int),
        decreases graph.entries@.len() - i,
    {
        let entry = &graph.entries[i];
        let ghost before = job_views(jobs@);
        if root.is_roblox() && !entry.node.node.pkg_ref.like_wally() {
            match entry.node.target.build_files() {
                None => {},
                Some(build_files) => {
                    let mut copied: Vec<String> = Vec::new();
                    extend_texts(&mut copied, build_files);
                    assert(views(copied@) =~= views(build_files@));
                    let job = SyncJob {
                        script: String::from_str(script),
                        container_folder: container_parts(root, entry),
                        build_files: copied,
                    };
                    jobs.push(job);
                    assert(job_views(jobs@) =~= before.push(job@));
                },
            }
        }
        i += 1;
    }
    jobs
}

/// Whether some node of the graph needs a sync configuration.
fn any_needs_sync(graph: &DownloadedGraph, root: TargetKind) -> (r: bool)
    ensures
        r == exists|i: int|
            0 <= i < graph.entries@.len() && needs_sync(root, #[trigger] graph.entries@[i]),
{
    let mut i: usize = 0;
    while i < graph.entries.len()
        invariant
            i <= graph.entries@.len(),
            forall|k: int| 0 <= k < i ==> !needs_sync(root, #[trigger] graph.entries@[k]),
        decreases graph.entries@.len() - i,
    {
        let entry = &graph.entries[i];
        if root.is_roblox() && !entry.node.node.pkg_ref.like_wally()
            && entry.node.target.build_files().is_some() {
            return true;
        }
        i += 1;
    }
    false
}

impl Project {
    /// Plans the linking of the project, whose manifest is `manifest`: which
    /// sync configurations to generate, and which shims to write. `sources`
    /// holds the text of the library files that were read from the containers
    /// of the graph's packages.
    ///
    /// Linking fails where a library file was not read, with the path of the
    /// first such file in the order of the graph; else where an edge ends at
    /// no node, with the first such edge.
    pub fn link_dependencies(
        &self,
        graph: &DownloadedGraph,
        manifest: &Manifest,
        sources: &Vec<LibSource>,
    ) -> (r: Result<LinkPlan, LinkingError>)
        ensures
            match r {
                Ok(plan) => {
                    &&& forall|i: int|
                        0 <= i < graph.entries@.len() ==> !lib_missing(
                            #[trigger] graph.entries@[i],
                            sources@,
                        )
                    &&& forall|i: int, j: int|
                        0 <= i < graph.entries@.len() && 0 <= j
                            < graph.entries@[i].node.node.dependencies@.len() ==> !#[trigger] dangling(
                            *graph,
                            i,
                            j,
                        )
                    &&& file_views(plan.files@) == files_spec(
                        *graph,
                        manifest.target.kind_spec(),
                        self.package_dir_spec(),
                        graph.entries@.len() as int,
                        sources@,
                    )
                    &&& match lookup_spec(manifest.scripts@, ROBLOX_SYNC_CONFIG_GENERATOR@) {
                        Some(script) => !plan.sync_script_missing && job_views(plan.sync@) == sync_spec(
                            *graph,
                            manifest.target.kind_spec(),
                            script,
                            graph.entries@.len() as int,
                        ),
                        None => plan.sync@.len() == 0 && plan.sync_script_missing == exists|i: int|
                            0 <= i < graph.entries@.len() && needs_sync(
                                manifest.target.kind_spec(),
                                #[trigger] graph.entries@[i],
                            ),
                    }
                },
                Err(LinkingError::LibFileNotFound(path)) => exists|i: int|
                    0 <= i < graph.entries@.len() && lib_missing(
                        #[trigger] graph.entries@[i],
                        sources@,
                    ) && path@ == lib_file_spec(manifest.target.kind_spec(), graph.entries@[i])
                        && forall|k: int|
                        0 <= k < i ==> !lib_missing(#[trigger] graph.entries@[k], sources@),
                Err(LinkingError::DependencyNotFound(name, version)) => {
                    &&& forall|i: int|
                        0 <= i < graph.entries@.len() ==> !lib_missing(
                            #[trigger] graph.entries@[i],
                            sources@,
                        )
                    &&& exists|i: int, j: int|
                        {
                            &&& 0 <= i < graph.entries@.len()
                            &&& 0 <= j < graph.entries@[i].node.node.dependencies@.len()
                            &&& #[trigger] dangling(*graph, i, j)
                            &&& name@ == graph.entries@[i].node.node.dependencies@[j].name.text_spec()
                            &&& version@
                                == graph.entries@[i].node.node.dependencies@[j].version_id.text_spec()
                            &&& forall|a: int, b: int|
                                0 <= a < i && 0 <= b < graph.entries@[a].node.node.dependencies@.len()
                                    ==> !#[trigger] dangling(*graph, a, b)
                            &&& forall|b: int| 0 <= b < j ==> !#[trigger] dangling(*graph, i, b)
                        }
                },
            },
    {
        let root = manifest.target.kind();
        let package_dir = self.package_dir();
        let types = match scan(graph, root, sources) {
            Ok(types) => types,
            Err(path) => {
                return Err(LinkingError::LibFileNotFound(path));
            },
        };
        match first_dangling(graph) {
            Some((node, at)) => {
                let edge = &graph.entries[node].node.node.dependencies[at];
                assert(dangling(*graph, node as int, at as int));
                return Err(LinkingError::DependencyNotFound(edge.name.text(), edge.version_id.text()));
            },
            None => {},
        }
        let (sync, sync_script_missing) = match lookup(
            &manifest.scripts,
            ROBLOX_SYNC_CONFIG_GENERATOR,
        ) {
            Some(script) => (sync_jobs(graph, root, script.as_str()), false),
            None => (Vec::new(), any_needs_sync(graph, root)),
        };
        let mut files: Vec<LinkFile> = Vec::new();
        let mut i: usize = 0;
        assert(file_views(files@) =~= Seq::<LinkFileView>::empty());
        while i < graph.entries.len()
            invariant
                i <= graph.entries@.len(),
                root == manifest.target.kind_spec(),
                types@.len() == graph.entries@.len(),
                forall|k: int|
                    0 <= k < graph.entries@.len() ==> views((#[trigger] types@[k])@) == types_spec(
                        graph.entries@[k],
                        sources@,
                    ),
                file_views(files@) == files_spec(*graph, root, package_dir@, i as int, sources@),
            decreases graph.entries@.len() - i,
        {
            let ghost before = file_views(files@);
            let mut direct = direct_files(
                root,
                package_dir,
                &graph.entries[i],
                &types[i],
                Ghost(sources@),
            );
            let mut edges = edge_files(graph, root, i, &types, Ghost(sources@));
            let ghost first = file_views(direct@);
            let ghost second = file_views(edges@);
            files.append(&mut direct);
            files.append(&mut edges);
            assert(file_views(files@) =~= before + first + second);
            i += 1;
        }
        Ok(LinkPlan { sync, sync_script_missing, files })
    }
}

/// Every component of a container names a directory: none is `.` or
/// `..`.
pub proof fn container_is_plain(consumer: TargetKind, entry: DownloadedEntry)
    ensures
        crate::paths::all_plain(container_spec(consumer, entry)),
        crate::paths::is_plain(consumer.packages_folder_spec(entry.node.node.pkg_ref.target.kind_spec())),
{
    reveal_strlit(".");
    reveal_strlit("..");
    reveal_strlit("_packages");
    reveal_strlit(".pesde");
    reveal_strlit("+");
    let parts = container_spec(consumer, entry);
    let folder = parts[0];
    assert(folder.len() >= 9);
    assert(parts[1].len() == 6);
    let escaped = parts[2];
    let at = entry.name.scope@.len() as int;
    assert(escaped[at] == '+');
    assert(crate::paths::is_plain(escaped)) by {
        if escaped == "."@ {
            assert(escaped.len() == at + 1 + entry.name.name@.len());
            assert("."@[0] == '.');
        }
        if escaped == ".."@ {
            assert(escaped.len() == at + 1 + entry.name.name@.len());
            assert(".."@[0] == '.');
            assert(".."@[1] == '.');
        }
    }
    let version = entry.version_id.version;
    crate::text::decimal_is_digits(version.major as nat);
    crate::text::decimal_is_digits(version.minor as nat);
    crate::text::decimal_is_digits(version.patch as nat);
    assert(parts[3].len() >= 5);
}

/// The project reaches each of its direct dependencies that has a
/// library: the plan holds a shim in the packages folder of the
/// dependency's kind, named by the alias.
pub proof fn direct_shim_is_planned(
    graph: DownloadedGraph,
    root: TargetKind,
    package_dir: Seq<char>,
    sources: Seq<LibSource>,
    at: int,
    upto: int,
)
    requires
        0 <= at < upto <= graph.entries@.len(),
        graph.entries@[at].node.node.direct is Some,
        graph.entries@[at].node.target.lib_spec() is Some,
    ensures
        files_spec(graph, root, package_dir, upto, sources).contains(
            direct_files_spec(root, package_dir, graph.entries@[at], sources)[0],
        ),
        direct_files_spec(root, package_dir, graph.entries@[at], sources)[0].folder == seq![
            root.packages_folder_spec(graph.entries@[at].node.node.pkg_ref.target.kind_spec()),
        ],
        direct_files_spec(root, package_dir, graph.entries@[at], sources)[0].name
            == graph.entries@[at].node.node.direct->0@ + ".luau"@,
    decreases upto,
{
    let files = files_spec(graph, root, package_dir, upto, sources);
    let before = files_spec(graph, root, package_dir, upto - 1, sources);
    let last = graph.entries@[upto - 1];
    let direct = direct_files_spec(root, package_dir, last, sources);
    let edges = edge_files_spec(
        graph,
        root,
        last,
        last.node.node.dependencies@.len() as int,
        sources,
    );
    let wanted = direct_files_spec(root, package_dir, graph.entries@[at], sources)[0];
    assert(files == before + direct + edges);
    if at == upto - 1 {
        let k = before.len() as int;
        assert(direct.len() >= 1);
        assert(files[k] == wanted);
    } else {
        direct_shim_is_planned(graph, root, package_dir, sources, at, upto - 1);
        let k = choose|k: int| 0 <= k < before.len() && before[k] == wanted;
        assert(files[k] == wanted);
    }
}

/// The path that the shim of a direct dependency requires leads, from the
/// directory of the shim, to where the library path leads from the
/// dependency's container, whatever the library path is.
pub proof fn direct_shim_resolves(root: TargetKind, entry: DownloadedEntry)
    requires
        entry.node.target.lib_spec() is Some,
        !entry.node.node.pkg_ref.like_wally_spec(),
    ensures
        crate::paths::normalize_spec(
            seq![root.packages_folder_spec(entry.node.node.pkg_ref.target.kind_spec())]
                + crate::linking::generator::lib_require_parts(
                seq![root.packages_folder_spec(entry.node.node.pkg_ref.target.kind_spec())],
                entry.node.target.lib_spec()->0@,
                container_spec(root, entry),
                true,
            ),
        ) == crate::paths::normalize_spec(
            container_spec(root, entry) + components_spec(entry.node.target.lib_spec()->0@),
        ),
{
    let folder = seq![root.packages_folder_spec(entry.node.node.pkg_ref.target.kind_spec())];
    let container = container_spec(root, entry);
    let lib = components_spec(entry.node.target.lib_spec()->0@);
    container_is_plain(root, entry);
    crate::paths::diff_resolves(folder, container);
    crate::paths::plain_path_is_normal(container);
    let relative = crate::paths::diff_spec(folder, container);
    assert(folder + (relative + lib) == (folder + relative) + lib);
    crate::paths::normalize_goes_on(folder + relative, container, lib);
}

/// For a direct dependency that is laid out as Wally lays packages out,
/// the path that the shim requires leads, from the directory of the shim,
/// to the dependency's container: such a package is required by its
/// directory, whatever its library file.
pub proof fn direct_shim_reaches_the_container(root: TargetKind, entry: DownloadedEntry, lib: Seq<char>)
    ensures
        crate::paths::normalize_spec(
            seq![root.packages_folder_spec(entry.node.node.pkg_ref.target.kind_spec())]
                + crate::linking::generator::lib_require_parts(
                seq![root.packages_folder_spec(entry.node.node.pkg_ref.target.kind_spec())],
                lib,
                container_spec(root, entry),
                false,
            ),
        ) == container_spec(root, entry),
{
    let folder = seq![root.packages_folder_spec(entry.node.node.pkg_ref.target.kind_spec())];
    let container = container_spec(root, entry);
    container_is_plain(root, entry);
    crate::paths::diff_resolves(folder, container);
    let relative = crate::paths::diff_spec(folder, container);
    assert(relative + Seq::<Seq<char>>::empty() == relative);
}

/// The path that the shim of a dependency requires leads, from the
/// directory of the shim inside the container of the consumer, to where
/// the library path leads from the dependency's container, whatever the
/// library path is.
pub proof fn edge_shim_resolves(root: TargetKind, entry: DownloadedEntry, dependency: DownloadedEntry)
    requires
        dependency.node.target.lib_spec() is Some,
        !entry.node.node.pkg_ref.like_wally_spec(),
        !dependency.node.node.pkg_ref.like_wally_spec(),
    ensures
        crate::paths::normalize_spec(
            linker_folder_spec(root, entry, dependency.node.target.kind_spec())
                + crate::linking::generator::lib_require_parts(
                linker_folder_spec(root, entry, dependency.node.target.kind_spec()),
                dependency.node.target.lib_spec()->0@,
                container_spec(entry.node.node.pkg_ref.target.kind_spec(), dependency),
                true,
            ),
        ) == crate::paths::normalize_spec(
            container_spec(entry.node.node.pkg_ref.target.kind_spec(), dependency) + components_spec(
                dependency.node.target.lib_spec()->0@,
            ),
        ),
{
    let kind = dependency.node.target.kind_spec();
    let folder = linker_folder_spec(root, entry, kind);
    let container = container_spec(entry.node.node.pkg_ref.target.kind_spec(), dependency);
    let lib = components_spec(dependency.node.target.lib_spec()->0@);
    container_is_plain(root, entry);
    container_is_plain(entry.node.node.pkg_ref.target.kind_spec(), dependency);
    assert(crate::paths::is_plain(entry.node.node.pkg_ref.target.kind_spec().packages_folder_spec(kind))) by {
        reveal_strlit(".");
        reveal_strlit("..");
        reveal_strlit("_packages");
        assert(entry.node.node.pkg_ref.target.kind_spec().packages_folder_spec(kind).len() >= 9);
    }
    assert(crate::paths::all_plain(folder));
    crate::paths::diff_resolves(folder, container);
    crate::paths::plain_path_is_normal(container);
    let relative = crate::paths::diff_spec(folder, container);
    assert(folder + (relative + lib) == (folder + relative) + lib);
    crate::paths::normalize_goes_on(folder + relative, container, lib);
}

} // verus!
