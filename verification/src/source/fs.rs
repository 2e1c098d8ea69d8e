//! The content-addressed store, and the file tree of a package recorded
//! against it.

use crate::archive::{entry_views, ArchiveEntry, EntryView};
use crate::text::{chars_of, concat3, str_eq, string_of};
use sha2::Digest;
use vstd::prelude::*;
use vstd::string::*;

verus! {

/// The SHA-256 digest of `bytes`, written as 64 hexadecimal digits in
/// lower case.
pub uninterp spec fn sha256_hex(bytes: Seq<u8>) -> Seq<char>;

/// `sha2::Sha256::digest`, with the 32 bytes it returns written in lower
/// case hexadecimal, which makes 64 characters.
#[verifier::external_body]
fn digest_hex(bytes: &[u8]) -> (r: String)
    ensures
        r@ == sha256_hex(bytes@),
        r@.len() == 64,
{
    format!("{:x}", sha2::Sha256::digest(bytes))
}

/// The hash under which the store keeps `bytes`.
pub fn hash(bytes: &[u8]) -> (r: String)
    ensures
        r@ == sha256_hex(bytes@),
        r@.len() == 64,
{
    digest_hex(bytes)
}

/// Where the store keeps the content with the given hash, relative to the
/// store: a directory named by the first two characters of the hash, and
/// in it a file named by the rest.
pub open spec fn cas_path_spec(hash: Seq<char>) -> Seq<char> {
    hash.subrange(0, 2) + "/"@ + hash.subrange(2, hash.len() as int)
}

/// Where the store keeps some content.
#[derive(Debug)]
pub struct CasLocation {
    /// The hash of the content.
    pub hash: String,
    /// The directory of the content, relative to the store.
    pub folder: String,
    /// The file of the content, relative to the store.
    pub path: String,
}

/// Where the store keeps the content with the given hash; `None` for a
/// hash of fewer than two characters, which is none.
pub fn cas_path(hash: &str) -> (r: Option<CasLocation>)
    ensures
        match r {
            None => hash@.len() < 2,
            Some(at) => hash@.len() >= 2 && at.hash@ == hash@ && at.folder@ == hash@.subrange(0, 2)
                && at.path@ == cas_path_spec(hash@),
        },
{
    if hash.unicode_len() < 2 {
        None
    } else {
        Some(split_hash(hash))
    }
}

/// Where the store keeps the content with the given hash.
fn split_hash(hash: &str) -> (at: CasLocation)
    requires
        hash@.len() >= 2,
    ensures
        at.hash@ == hash@,
        at.folder@ == hash@.subrange(0, 2),
        at.path@ == cas_path_spec(hash@),
{
    let chars = chars_of(hash);
    let mut folder: Vec<char> = Vec::new();
    folder.push(chars[0]);
    folder.push(chars[1]);
    let mut rest: Vec<char> = Vec::new();
    let mut i: usize = 2;
    while i < chars.len()
        invariant
            2 <= i <= chars@.len(),
            rest@ == chars@.subrange(2, i as int),
        decreases chars@.len() - i,
    {
        rest.push(chars[i]);
        i += 1;
    }
    let folder = string_of(&folder);
    let rest = string_of(&rest);
    assert(folder@ == hash@.subrange(0, 2));
    CasLocation {
        hash: String::from_str(hash),
        path: concat3(folder.as_str(), "/", rest.as_str()),
        folder,
    }
}

/// Where the store keeps `contents`: under the hash of the bytes, so that
/// equal contents share one file.
pub fn store_in_cas(contents: &[u8]) -> (r: CasLocation)
    ensures
        r.hash@ == sha256_hex(contents@),
        r.folder@ == r.hash@.subrange(0, 2),
        r.path@ == cas_path_spec(r.hash@),
{
    let hash = hash(contents);
    split_hash(hash.as_str())
}

/// Two hashes are kept in the same file only if they are the same hash.
pub proof fn cas_paths_are_unique(a: Seq<char>, b: Seq<char>)
    requires
        a.len() >= 2,
        b.len() >= 2,
    ensures
        cas_path_spec(a) == cas_path_spec(b) <==> a == b,
{
    reveal_strlit("/");
    if cas_path_spec(a) == cas_path_spec(b) {
        let x = cas_path_spec(a);
        let y = cas_path_spec(b);
        assert(x.len() == a.len() + 1);
        assert(y.len() == b.len() + 1);
        assert(a =~= b) by {
            assert forall|i: int| 0 <= i < a.len() implies a[i] == b[i] by {
                if i < 2 {
                    assert(x[i] == a[i]);
                    assert(y[i] == b[i]);
                } else {
                    assert(x[i + 1] == a[i]);
                    assert(y[i + 1] == b[i]);
                }
            }
        }
    }
}

/// Storing two contents gives the same file exactly if the contents are
/// the same, unless they are two different contents with one digest.
pub proof fn same_file_iff_same_contents(a: Seq<u8>, b: Seq<u8>)
    requires
        sha256_hex(a).len() == 64,
        sha256_hex(b).len() == 64,
        sha256_hex(a) == sha256_hex(b) ==> a == b,
    ensures
        cas_path_spec(sha256_hex(a)) == cas_path_spec(sha256_hex(b)) <==> a == b,
{
    cas_paths_are_unique(sha256_hex(a), sha256_hex(b));
}

/// An entry of a package's file tree.
#[derive(Debug)]
pub enum FSEntry {
    /// A file, by the hash of its contents.
    File(String),
    /// A directory.
    Directory,
}

/// What an entry of a file tree says, with its hash as a sequence.
pub ghost enum FSEntryView {
    File(Seq<char>),
    Directory,
}

impl View for FSEntry {
    type V = FSEntryView;

    open spec fn view(&self) -> FSEntryView {
        match self {
            FSEntry::File(hash) => FSEntryView::File(hash@),
            FSEntry::Directory => FSEntryView::Directory,
        }
    }
}

/// A path of a package's file tree with what stands there.
#[derive(Debug)]
pub struct FSNode {
    /// The path, relative to the package.
    pub path: String,
    /// What stands there.
    pub entry: FSEntry,
}

/// The file tree of a package, each file recorded by the hash of its
/// contents.
#[derive(Debug)]
pub struct PackageFS {
    /// The paths of the package, each once.
    pub nodes: Vec<FSNode>,
}

/// The map from paths to entries that a list of nodes stands for; of two
/// nodes with one path the later counts.
pub open spec fn nodes_view(nodes: Seq<FSNode>) -> Map<Seq<char>, FSEntryView>
    decreases nodes.len(),
{
    if nodes.len() == 0 {
        Map::empty()
    } else {
        nodes_view(nodes.drop_last()).insert(nodes.last().path@, nodes.last().entry@)
    }
}

/// Whether no two nodes have the same path.
pub open spec fn distinct_paths(nodes: Seq<FSNode>) -> bool {
    forall|i: int, j: int|
        0 <= i < j < nodes.len() ==> (#[trigger] nodes[i]).path@ != (#[trigger] nodes[j]).path@
}

impl View for PackageFS {
    type V = Map<Seq<char>, FSEntryView>;

    open spec fn view(&self) -> Map<Seq<char>, FSEntryView> {
        nodes_view(self.nodes@)
    }
}

/// What an archive entry is recorded as: a directory as such, a file by
/// the digest of its bytes.
pub open spec fn recorded_spec(entry: EntryView) -> FSEntryView {
    if entry.1 {
        FSEntryView::Directory
    } else {
        FSEntryView::File(sha256_hex(entry.2))
    }
}

/// The file tree that the entries of an archive make; of two entries with
/// one path the later counts.
pub open spec fn tree_spec(entries: Seq<EntryView>) -> Map<Seq<char>, FSEntryView>
    decreases entries.len(),
{
    if entries.len() == 0 {
        Map::empty()
    } else {
        tree_spec(entries.drop_last()).insert(entries.last().0, recorded_spec(entries.last()))
    }
}

/// The file tree of an archive holds the paths of the archive's entries
/// and no other; and at each path what the last entry with that path is
/// recorded as: a directory as such, a file by the digest of its bytes.
pub proof fn tree_holds_the_archive(entries: Seq<EntryView>)
    ensures
        forall|path: Seq<char>|
            tree_spec(entries).contains_key(path) <==> exists|k: int|
                0 <= k < entries.len() && (#[trigger] entries[k]).0 == path,
        forall|k: int|
            0 <= k < entries.len() && (forall|j: int|
                k < j < entries.len() ==> (#[trigger] entries[j]).0 != entries[k].0)
                ==> tree_spec(entries)[(#[trigger] entries[k]).0] == recorded_spec(entries[k]),
    decreases entries.len(),
{
    if entries.len() > 0 {
        let before = entries.drop_last();
        let last = entries.last();
        tree_holds_the_archive(before);
        assert forall|path: Seq<char>|
            tree_spec(entries).contains_key(path) <==> exists|k: int|
                0 <= k < entries.len() && (#[trigger] entries[k]).0 == path by {
            if tree_spec(entries).contains_key(path) && path != last.0 {
                assert(tree_spec(before).contains_key(path));
                let k = choose|k: int| 0 <= k < before.len() && (#[trigger] before[k]).0 == path;
                assert(entries[k].0 == path);
            }
            if path == last.0 {
                assert(entries[entries.len() - 1].0 == path);
            }
            if exists|k: int| 0 <= k < entries.len() && (#[trigger] entries[k]).0 == path {
                let k = choose|k: int| 0 <= k < entries.len() && (#[trigger] entries[k]).0 == path;
                if k < before.len() {
                    assert(before[k].0 == path);
                }
            }
        }
        assert forall|k: int|
            0 <= k < entries.len() && (forall|j: int|
                k < j < entries.len() ==> (#[trigger] entries[j]).0
                    != entries[k].0) implies tree_spec(entries)[(#[trigger] entries[k]).0]
            == recorded_spec(entries[k]) by {
            if k < before.len() {
                assert(entries[entries.len() - 1].0 != entries[k].0);
                assert(before[k] == entries[k]);
                assert forall|j: int| k < j < before.len() implies (#[trigger] before[j]).0
                    != before[k].0 by {
                    assert(entries[j].0 != entries[k].0);
                }
            }
        }
    }
}

/// Two files with the same bytes, in whatever archives and at whatever
/// paths, are recorded by one digest, and so are linked from one file of
/// the store.
pub proof fn equal_files_share_a_store_file(a: EntryView, b: EntryView)
    requires
        !a.1,
        !b.1,
        a.2 == b.2,
    ensures
        recorded_spec(a) == recorded_spec(b),
        recorded_spec(a) == FSEntryView::File(sha256_hex(a.2)),
        cas_path_spec(sha256_hex(a.2)) == cas_path_spec(sha256_hex(b.2)),
{
}

/// Putting a new entry at the place of a node changes the map as an
/// insertion does, and keeps the paths distinct.
pub proof fn replaced_node_view(nodes: Seq<FSNode>, at: int, node: FSNode)
    requires
        0 <= at < nodes.len(),
        distinct_paths(nodes),
        nodes[at].path@ == node.path@,
    ensures
        nodes_view(nodes.update(at, node)) == nodes_view(nodes).insert(node.path@, node.entry@),
        distinct_paths(nodes.update(at, node)),
    decreases nodes.len(),
{
    let after = nodes.update(at, node);
    if at == nodes.len() - 1 {
        assert(after.drop_last() == nodes.drop_last());
        assert(nodes_view(after) =~= nodes_view(nodes).insert(node.path@, node.entry@));
    } else {
        assert(after.drop_last() == nodes.drop_last().update(at, node));
        assert(distinct_paths(nodes.drop_last())) by {
            assert forall|i: int, j: int| 0 <= i < j < nodes.drop_last().len() implies (
            #[trigger] nodes.drop_last()[i]).path@ != (#[trigger] nodes.drop_last()[j]).path@ by {
                assert(nodes[i].path@ != nodes[j].path@);
            }
        }
        replaced_node_view(nodes.drop_last(), at, node);
        assert(nodes[at].path@ != nodes[nodes.len() - 1].path@);
        assert(after.last() == nodes.last());
        assert(nodes_view(after) =~= nodes_view(nodes).insert(node.path@, node.entry@));
    }
    assert forall|i: int, j: int| 0 <= i < j < after.len() implies (#[trigger] after[i]).path@ != (
    #[trigger] after[j]).path@ by {
        assert(nodes[i].path@ != nodes[j].path@);
    }
}

/// Whether a node records an entry of an archive: the archive has an
/// entry at the path of the node, and the node is a directory if the entry
/// is one, and else holds the digest of the entry's bytes. So the store,
/// once the entries of the archive are stored, holds the contents of every
/// file of the tree.
pub open spec fn recorded_in(node: FSNode, entries: Seq<ArchiveEntry>) -> bool {
    exists|k: int|
        0 <= k < entries.len() && (#[trigger] entries[k]).path@ == node.path@ && recorded_spec(
            entries[k]@,
        ) == node.entry@
}

/// What materializing one path of a package takes.
#[derive(Debug)]
pub enum FsAction {
    /// Make the directory at this path.
    CreateDir(String),
    /// Link the file of the store at `from`, relative to the store, to the
    /// path `to`.
    Link {
        /// The file of the store, relative to the store.
        from: String,
        /// The path to create.
        to: String,
    },
}

/// What an action says, with its strings as sequences.
pub ghost enum FsActionView {
    CreateDir(Seq<char>),
    Link { from: Seq<char>, to: Seq<char> },
}

impl View for FsAction {
    type V = FsActionView;

    open spec fn view(&self) -> FsActionView {
        match self {
            FsAction::CreateDir(path) => FsActionView::CreateDir(path@),
            FsAction::Link { from, to } => FsActionView::Link { from: from@, to: to@ },
        }
    }
}

/// What materializing `node` below `destination` takes: a directory is
/// made, a file is linked from where the store keeps its hash.
pub open spec fn action_spec(node: FSNode, destination: Seq<char>) -> FsActionView {
    match node.entry {
        FSEntry::Directory => FsActionView::CreateDir(destination + "/"@ + node.path@),
        FSEntry::File(hash) => FsActionView::Link {
            from: cas_path_spec(hash@),
            to: destination + "/"@ + node.path@,
        },
    }
}

/// Two files with the same bytes, of whatever packages, are linked from
/// one file of the store: the store holds the bytes once.
pub proof fn equal_files_link_from_one_file(
    a: FSNode,
    in_a: EntryView,
    to_a: Seq<char>,
    b: FSNode,
    in_b: EntryView,
    to_b: Seq<char>,
)
    requires
        !in_a.1,
        !in_b.1,
        in_a.2 == in_b.2,
        a.entry@ == recorded_spec(in_a),
        b.entry@ == recorded_spec(in_b),
    ensures
        action_spec(a, to_a) matches FsActionView::Link { from, .. } && from == cas_path_spec(
            sha256_hex(in_a.2),
        ),
        action_spec(b, to_b) matches FsActionView::Link { from, .. } && from == cas_path_spec(
            sha256_hex(in_a.2),
        ),
{
}

/// Whether a node holds a hash that is none: one of fewer than two
/// characters.
pub open spec fn has_bad_hash(node: FSNode) -> bool {
    node.entry matches FSEntry::File(hash) && hash@.len() < 2
}

impl PackageFS {
    /// What materializing the tree below `destination` takes, path by
    /// path in the order of the tree. The error is the path of the first
    /// file whose hash is none.
    pub fn write_to(&self, destination: &str) -> (r: Result<Vec<FsAction>, String>)
        ensures
            match r {
                Ok(actions) => actions@.len() == self.nodes@.len() && forall|i: int|
                    0 <= i < self.nodes@.len() ==> !has_bad_hash(#[trigger] self.nodes@[i])
                        && actions@[i]@ == action_spec(self.nodes@[i], destination@),
                Err(path) => exists|i: int|
                    0 <= i < self.nodes@.len() && has_bad_hash(#[trigger] self.nodes@[i]) && path@
                        == self.nodes@[i].path@ && forall|k: int|
                        0 <= k < i ==> !has_bad_hash(#[trigger] self.nodes@[k]),
            },
    {
        let mut actions: Vec<FsAction> = Vec::new();
        let mut i: usize = 0;
        while i < self.nodes.len()
            invariant
                i <= self.nodes@.len(),
                actions@.len() == i,
                forall|k: int|
                    0 <= k < i ==> !has_bad_hash(#[trigger] self.nodes@[k]) && actions@[k]@
                        == action_spec(self.nodes@[k], destination@),
            decreases self.nodes@.len() - i,
        {
            let node = &self.nodes[i];
            let to = concat3(destination, "/", node.path.as_str());
            match &node.entry {
                FSEntry::Directory => {
                    actions.push(FsAction::CreateDir(to));
                },
                FSEntry::File(hash) => {
                    match cas_path(hash.as_str()) {
                        None => {
                            return Err(node.path.clone());
                        },
                        Some(at) => {
                            actions.push(FsAction::Link { from: at.path, to });
                        },
                    }
                },
            }
            i += 1;
        }
        Ok(actions)
    }

    /// The position of the node at `path`, if the tree has one.
    pub fn position(&self, path: &str) -> (r: Option<usize>)
        ensures
            match r {
                Some(at) => at < self.nodes@.len() && self.nodes@[at as int].path@ == path@
                    && forall|i: int| 0 <= i < at ==> (#[trigger] self.nodes@[i]).path@ != path@,
                None => forall|i: int|
                    0 <= i < self.nodes@.len() ==> (#[trigger] self.nodes@[i]).path@ != path@,
            },
    {
        let mut i: usize = 0;
        while i < self.nodes.len()
            invariant
                i <= self.nodes@.len(),
                forall|k: int| 0 <= k < i ==> (#[trigger] self.nodes@[k]).path@ != path@,
            decreases self.nodes@.len() - i,
        {
            if str_eq(self.nodes[i].path.as_str(), path) {
                return Some(i);
            }
            i += 1;
        }
        None
    }

    /// Records the entries of an unpacked archive: every directory as
    /// such, every file by the hash under which the store keeps its
    /// bytes.
    pub fn from_entries(entries: &Vec<ArchiveEntry>) -> (r: PackageFS)
        ensures
            r@ == tree_spec(entry_views(entries@)),
            distinct_paths(r.nodes@),
            forall|i: int| 0 <= i < r.nodes@.len() ==> recorded_in(#[trigger] r.nodes@[i], entries@),
    {
        let mut fs = PackageFS { nodes: Vec::new() };
        let mut i: usize = 0;
        proof {
            assert(entry_views(entries@).subrange(0, 0) == Seq::<EntryView>::empty());
        }
        while i < entries.len()
            invariant
                i <= entries@.len(),
                fs@ == tree_spec(entry_views(entries@).subrange(0, i as int)),
                distinct_paths(fs.nodes@),
                forall|k: int|
                    0 <= k < fs.nodes@.len() ==> recorded_in(#[trigger] fs.nodes@[k], entries@),
            decreases entries@.len() - i,
        {
            let entry = &entries[i];
            let ghost next = entry_views(entries@).subrange(0, i + 1);
            proof {
                assert(next.drop_last() == entry_views(entries@).subrange(0, i as int));
                assert(next.last() == entry@);
            }
            let recorded = if entry.is_dir {
                FSEntry::Directory
            } else {
                FSEntry::File(hash(entry.contents.as_slice()))
            };
            let node = FSNode { path: entry.path.clone(), entry: recorded };
            proof {
                assert(entries@[i as int].path@ == node.path@ && recorded_spec(entries@[i as int]@)
                    == node.entry@);
                assert(recorded_in(node, entries@));
            }
            match fs.position(entry.path.as_str()) {
                Some(at) => {
                    proof {
                        replaced_node_view(fs.nodes@, at as int, node);
                    }
                    fs.nodes.set(at, node);
                },
                None => {
                    let ghost before = fs.nodes@;
                    fs.nodes.push(node);
                    proof {
                        assert(fs.nodes@.drop_last() == before);
                    }
                },
            }
            i += 1;
        }
        proof {
            assert(entry_views(entries@).subrange(0, entries@.len() as int) == entry_views(
                entries@,
            ));
        }
        fs
    }
}

} // verus!
