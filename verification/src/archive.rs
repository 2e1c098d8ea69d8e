//! Package archives: gzip-compressed tar streams, taken apart into plain
//! entries and put together from them.

use crate::paths::{drop_cur_dir, pieces, pieces_spec, without_cur_dir};
use crate::text::{chars_of, join, join_spec, str_eq, str_of_bytes, views};
use crate::MANIFEST_FILE_NAME;
use vstd::prelude::*;
use vstd::string::*;
use vstd::utf8::{decode_utf8, valid_utf8};

verus! {

/// One entry of an archive.
#[derive(Debug)]
pub struct ArchiveEntry {
    /// The path of the entry, relative to the package.
    pub path: String,
    /// Whether the entry is a directory.
    pub is_dir: bool,
    /// The bytes of a file; a directory has none.
    pub contents: Vec<u8>,
}

/// What an archive entry holds: its path, whether it is a directory, and
/// its bytes.
pub type EntryView = (Seq<char>, bool, Seq<u8>);

impl View for ArchiveEntry {
    type V = EntryView;

    open spec fn view(&self) -> EntryView {
        (self.path@, self.is_dir, self.contents@)
    }
}

/// What a list of archive entries holds.
pub open spec fn entry_views(entries: Seq<ArchiveEntry>) -> Seq<EntryView> {
    entries.map_values(|e: ArchiveEntry| e@)
}

/// An entry as a tar stream holds it: its name in bytes, whether it is a
/// directory, and its data.
#[derive(Debug)]
pub struct RawEntry {
    /// The name of the entry, as the stream writes it.
    pub name: Vec<u8>,
    /// Whether the entry is a directory.
    pub is_dir: bool,
    /// The data of the entry.
    pub data: Vec<u8>,
}

/// What a raw entry holds.
pub type RawView = (Seq<u8>, bool, Seq<u8>);

impl View for RawEntry {
    type V = RawView;

    open spec fn view(&self) -> RawView {
        (self.name@, self.is_dir, self.data@)
    }
}

/// What a list of raw entries holds.
pub open spec fn raw_views(entries: Seq<RawEntry>) -> Seq<RawView> {
    entries.map_values(|e: RawEntry| e@)
}

/// What an optional list of raw entries holds.
pub open spec fn opt_raw_views(entries: Option<Vec<RawEntry>>) -> Option<Seq<RawView>> {
    match entries {
        Some(list) => Some(raw_views(list@)),
        None => None,
    }
}

/// What optional bytes hold.
pub open spec fn opt_bytes(bytes: Option<Vec<u8>>) -> Option<Seq<u8>> {
    match bytes {
        Some(b) => Some(b@),
        None => None,
    }
}

/// The bytes that `flate2::read::GzDecoder` reads out of `bytes`; `None`
/// where they are no gzip stream.
pub uninterp spec fn gunzipped(bytes: Seq<u8>) -> Option<Seq<u8>>;

/// The gzip stream that `flate2::write::GzEncoder`, at its best
/// compression, makes of `bytes` written at once.
pub uninterp spec fn gzipped(bytes: Seq<u8>) -> Option<Seq<u8>>;

/// The entries that `tar::Archive` finds in `bytes`, in order, each with
/// the bytes of its name, whether it is a directory, and its data; `None`
/// where the bytes are no tar stream.
pub uninterp spec fn untarred(bytes: Seq<u8>) -> Option<Seq<RawView>>;

/// The tar stream that `tar::Builder` makes of the entries when each is
/// given the permission bits `mode`; `None` where it refuses one of them.
/// It is only meant for entries whose paths are written alike on every
/// platform.
pub uninterp spec fn tarred(entries: Seq<EntryView>, mode: u32) -> Option<Seq<u8>>;

/// The permission bits of the entries of a published archive: the owner
/// reads and writes, everyone else reads.
pub const ENTRY_MODE: u32 = 0o644;

/// `flate2::read::GzDecoder::new`, read to its end.
#[verifier::external_body]
fn gunzip(bytes: &[u8]) -> (r: Option<Vec<u8>>)
    ensures
        opt_bytes(r) == gunzipped(bytes@),
{
    let mut out = Vec::new();
    std::io::Read::read_to_end(&mut flate2::read::GzDecoder::new(bytes), &mut out).ok()?;
    Some(out)
}

/// `flate2::write::GzEncoder::new` at `flate2::Compression::best`, the
/// bytes written at once, then `GzEncoder::finish`.
#[verifier::external_body]
fn gzip(bytes: &[u8]) -> (r: Option<Vec<u8>>)
    ensures
        opt_bytes(r) == gzipped(bytes@),
{
    let mut encoder = flate2::write::GzEncoder::new(Vec::new(), flate2::Compression::best());
    std::io::Write::write_all(&mut encoder, bytes).ok()?;
    encoder.finish().ok()
}

/// `tar::Archive::entries`: of each entry what `Entry::path_bytes` gives,
/// whether the `entry_type` of its header is a directory, and what is read
/// from it to its end. Any error of these gives `None`.
#[verifier::external_body]
fn untar(bytes: &[u8]) -> (r: Option<Vec<RawEntry>>)
    ensures
        opt_raw_views(r) == untarred(bytes@),
{
    let mut archive = tar::Archive::new(bytes);
    let mut out = Vec::new();
    for entry in archive.entries().ok()? {
        let mut entry = entry.ok()?;
        let name = entry.path_bytes().into_owned();
        let is_dir = entry.header().entry_type().is_dir();
        let mut data = Vec::new();
        std::io::Read::read_to_end(&mut entry, &mut data).ok()?;
        out.push(RawEntry { name, is_dir, data });
    }
    Some(out)
}

/// `tar::Builder::append_data` for each entry, under a header from
/// `tar::Header::new_gnu` with the entry's type, its size and `mode` set,
/// then `tar::Builder::into_inner`. Any error of these gives `None`. The
/// paths must hold no `\` and no drive prefix, which `tar` reads
/// differently from platform to platform.
#[verifier::external_body]
fn tar(entries: &Vec<ArchiveEntry>, mode: u32) -> (r: Option<Vec<u8>>)
    requires
        forall|i: int| 0 <= i < entries@.len() ==> is_portable(#[trigger] entries@[i].path@),
    ensures
        opt_bytes(r) == tarred(entry_views(entries@), mode),
{
    let mut archive = tar::Builder::new(Vec::new());
    for entry in entries {
        let mut header = tar::Header::new_gnu();
        header.set_entry_type(match entry.is_dir {
            true => tar::EntryType::Directory,
            false => tar::EntryType::Regular,
        });
        header.set_mode(mode);
        header.set_size(entry.contents.len() as u64);
        archive.append_data(&mut header, &entry.path, entry.contents.as_slice()).ok()?;
    }
    archive.into_inner().ok()
}

/// Whether `c` is an ASCII letter.
pub open spec fn is_ascii_letter(c: char) -> bool {
    ('a' <= c && c <= 'z') || ('A' <= c && c <= 'Z')
}

/// Whether a path is written alike on every platform: it holds no `\`,
/// and does not begin with a drive letter and `:`.
pub open spec fn is_portable(path: Seq<char>) -> bool {
    (forall|i: int| 0 <= i < path.len() ==> path[i] != '\\') && !(path.len() >= 2
        && is_ascii_letter(path[0]) && path[1] == ':')
}

/// Whether a name of an archive entry can be taken: it is written alike on
/// every platform, and is relative.
pub open spec fn is_acceptable(name: Seq<char>) -> bool {
    is_portable(name) && !(name.len() >= 1 && name[0] == '/')
}

/// The path that a name of an archive entry stands for: its pieces, but
/// for those that are `.`, joined by `/`.
pub open spec fn entry_path_spec(name: Seq<char>) -> Seq<char> {
    join_spec(without_cur_dir(pieces_spec(name)), "/"@)
}

/// The entry that a raw entry stands for: its name must be text in UTF-8
/// that can be taken; a directory has no contents; a file has its bytes,
/// whatever they are.
pub open spec fn entry_spec(raw: RawView) -> Option<EntryView> {
    if !valid_utf8(raw.0) || !is_acceptable(decode_utf8(raw.0)) {
        None
    } else if raw.1 {
        Some((entry_path_spec(decode_utf8(raw.0)), true, Seq::empty()))
    } else {
        Some((entry_path_spec(decode_utf8(raw.0)), false, raw.2))
    }
}

/// The entries that raw entries stand for, if each stands for one.
pub open spec fn entries_spec(raws: Seq<RawView>) -> Option<Seq<EntryView>>
    decreases raws.len(),
{
    if raws.len() == 0 {
        Some(Seq::empty())
    } else {
        match (entries_spec(raws.drop_last()), entry_spec(raws.last())) {
            (Some(before), Some(entry)) => Some(before.push(entry)),
            _ => None,
        }
    }
}

/// The entries of the package archive `bytes`: the gzip stream is
/// unpacked, the tar stream in it taken apart, and each entry read.
pub open spec fn read_spec(bytes: Seq<u8>) -> Option<Seq<EntryView>> {
    match gunzipped(bytes) {
        None => None,
        Some(stream) => match untarred(stream) {
            None => None,
            Some(raws) => entries_spec(raws),
        },
    }
}

/// The archive of the entries: the tar stream of them, as a gzip stream.
pub open spec fn built_spec(entries: Seq<EntryView>) -> Option<Seq<u8>> {
    match tarred(entries, ENTRY_MODE) {
        None => None,
        Some(stream) => gzipped(stream),
    }
}

/// Whether a path is written alike on every platform.
pub fn is_portable_path(path: &str) -> (r: bool)
    ensures
        r == is_portable(path@),
{
    let chars = chars_of(path);
    let mut i: usize = 0;
    while i < chars.len()
        invariant
            i <= chars@.len(),
            chars@ == path@,
            forall|k: int| 0 <= k < i ==> chars@[k] != '\\',
        decreases chars@.len() - i,
    {
        if chars[i] == '\\' {
            return false;
        }
        i += 1;
    }
    if chars.len() >= 2 {
        let c = chars[0];
        let letter = ('a' <= c && c <= 'z') || ('A' <= c && c <= 'Z');
        if letter && chars[1] == ':' {
            return false;
        }
    }
    true
}

/// The entry that a raw entry stands for.
pub fn read_entry(raw: RawEntry) -> (r: Option<ArchiveEntry>)
    ensures
        match r {
            Some(entry) => entry_spec(raw@) == Some(entry@),
            None => entry_spec(raw@) is None,
        },
{
    let name = match str_of_bytes(raw.name.as_slice()) {
        Some(name) => name,
        None => {
            return None;
        },
    };
    let relative = match name.unicode_len() {
        0 => true,
        _ => name.get_char(0) != '/',
    };
    if !is_portable_path(name) || !relative {
        return None;
    }
    let parts = pieces(name);
    let kept = drop_cur_dir(&parts);
    let path = join(&kept, "/");
    if raw.is_dir {
        return Some(ArchiveEntry { path, is_dir: true, contents: Vec::new() });
    }
    Some(ArchiveEntry { path, is_dir: false, contents: raw.data })
}

/// The entries that raw entries stand for, if each stands for one.
pub fn read_entries(raws: Vec<RawEntry>) -> (r: Option<Vec<ArchiveEntry>>)
    ensures
        match r {
            Some(entries) => entries_spec(raw_views(raws@)) == Some(entry_views(entries@)),
            None => entries_spec(raw_views(raws@)) is None,
        },
{
    let ghost all = raw_views(raws@);
    let mut rest = raws;
    let ghost mut done: int = 0;
    let mut out: Vec<ArchiveEntry> = Vec::new();
    proof {
        assert(all.subrange(0, 0) == Seq::<RawView>::empty());
        assert(entry_views(out@) == Seq::<EntryView>::empty());
    }
    while rest.len() > 0
        invariant
            0 <= done <= all.len(),
            all == raw_views(raws@),
            raw_views(rest@) == all.skip(done),
            entries_spec(all.subrange(0, done)) == Some(entry_views(out@)),
        decreases rest@.len(),
    {
        let ghost waiting = rest@;
        let raw = rest.remove(0);
        proof {
            assert(raw == waiting[0]);
            assert(raw_views(waiting).len() == waiting.len());
            assert(all.skip(done).len() == all.len() - done);
            assert(raw_views(waiting)[0] == raw@);
            assert(all.skip(done)[0] == all[done]);
            assert(raw_views(rest@) =~= raw_views(waiting).skip(1));
            assert(all.skip(done).skip(1) =~= all.skip(done + 1));
            assert(all.subrange(0, done + 1).drop_last() == all.subrange(0, done));
            assert(all.subrange(0, done + 1).last() == raw@);
        }
        match read_entry(raw) {
            None => {
                proof {
                    refusal_stays(all, done + 1);
                }
                return None;
            },
            Some(entry) => {
                let ghost before = entry_views(out@);
                out.push(entry);
                proof {
                    assert(entry_views(out@) == before.push(entry@));
                    done = done + 1;
                }
            },
        }
    }
    proof {
        assert(raw_views(rest@).len() == 0);
        assert(all.skip(done).len() == all.len() - done);
        assert(all.subrange(0, all.len() as int) == all);
    }
    Some(out)
}

/// Once an entry is refused, the list is, whatever follows.
proof fn refusal_stays(raws: Seq<RawView>, upto: int)
    requires
        0 <= upto <= raws.len(),
        entries_spec(raws.subrange(0, upto)) is None,
    ensures
        entries_spec(raws) is None,
    decreases raws.len() - upto,
{
    if upto < raws.len() {
        assert(raws.subrange(0, upto + 1).drop_last() == raws.subrange(0, upto));
        refusal_stays(raws, upto + 1);
    } else {
        assert(raws.subrange(0, upto) == raws);
    }
}

/// Reads the entries of a package archive.
pub fn read_archive(bytes: &[u8]) -> (r: Option<Vec<ArchiveEntry>>)
    ensures
        match r {
            Some(entries) => read_spec(bytes@) == Some(entry_views(entries@)),
            None => read_spec(bytes@) is None,
        },
{
    let stream = match gunzip(bytes) {
        Some(stream) => stream,
        None => {
            return None;
        },
    };
    match untar(stream.as_slice()) {
        Some(raws) => read_entries(raws),
        None => None,
    }
}

/// Why an archive could not be built.
#[derive(Debug)]
pub enum ArchiveError {
    /// This path is not written alike on every platform.
    UnportablePath(String),
    /// An entry could not be written.
    Refused,
}

/// The entries of a published archive: the shipped files, and the
/// manifest as the last entry.
pub open spec fn published_entries(files: Seq<EntryView>, manifest: Seq<u8>) -> Seq<EntryView> {
    files.push((MANIFEST_FILE_NAME@, false, manifest))
}

/// Builds the archive of a package from its shipped files and the text of
/// its manifest, which becomes the last entry. A path that is not written
/// alike on every platform is refused, the first in order.
pub fn build_archive(files: Vec<ArchiveEntry>, manifest: Vec<u8>) -> (r: Result<
    Vec<u8>,
    ArchiveError,
>)
    ensures
        match r {
            Ok(bytes) => (forall|i: int|
                0 <= i < files@.len() ==> is_portable(#[trigger] files@[i].path@)) && built_spec(
                published_entries(entry_views(files@), manifest@),
            ) == Some(bytes@),
            Err(ArchiveError::UnportablePath(path)) => exists|i: int|
                0 <= i < files@.len() && !is_portable(#[trigger] files@[i].path@) && path@
                    == files@[i].path@ && forall|k: int|
                    0 <= k < i ==> is_portable(#[trigger] files@[k].path@),
            Err(ArchiveError::Refused) => (forall|i: int|
                0 <= i < files@.len() ==> is_portable(#[trigger] files@[i].path@)) && built_spec(
                published_entries(entry_views(files@), manifest@),
            ) is None,
        },
{
    let mut i: usize = 0;
    while i < files.len()
        invariant
            i <= files@.len(),
            forall|k: int| 0 <= k < i ==> is_portable(#[trigger] files@[k].path@),
        decreases files@.len() - i,
    {
        if !is_portable_path(files[i].path.as_str()) {
            return Err(ArchiveError::UnportablePath(files[i].path.clone()));
        }
        i += 1;
    }
    let mut entries = files;
    let ghost before = entry_views(entries@);
    entries.push(
        ArchiveEntry { path: String::from_str(MANIFEST_FILE_NAME), is_dir: false, contents: manifest },
    );
    proof {
        reveal_strlit("pesde.toml");
        assert(is_portable(MANIFEST_FILE_NAME@));
        assert(entry_views(entries@) == before.push((MANIFEST_FILE_NAME@, false, manifest@)));
    }
    let stream = match tar(&entries, ENTRY_MODE) {
        Some(stream) => stream,
        None => {
            return Err(ArchiveError::Refused);
        },
    };
    match gzip(stream.as_slice()) {
        Some(bytes) => Ok(bytes),
        None => Err(ArchiveError::Refused),
    }
}

} // verus!
