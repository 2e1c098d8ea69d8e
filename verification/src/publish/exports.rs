//! The entry files, the shipped paths and the build files of a package,
//! held against what is on disk.

use crate::paths::{root_of, root_spec, RootError};
use crate::text::{concat, contains_text, eq_ignore_ascii_case, eq_ignore_ascii_case_spec, join,
    join_spec, views};
use crate::MANIFEST_FILE_NAME;
use vstd::prelude::*;
use vstd::string::*;

verus! {

/// The messages of the errors that `full_moon::parse` finds in `code`, in
/// its order; none if the code is valid Luau.
pub uninterp spec fn luau_parse_errors(code: Seq<char>) -> Seq<Seq<char>>;

/// `full_moon::parse`: the errors it returns for the code, each as the
/// text that its `Display` gives; an empty list where it returns an `Ast`.
#[verifier::external_body]
fn parse_luau(code: &str) -> (r: Vec<String>)
    ensures
        views(r@) == luau_parse_errors(code@),
{
    match full_moon::parse(code) {
        Ok(_) => Vec::new(),
        Err(errors) => errors.into_iter().map(|e| e.to_string()).collect(),
    }
}

/// What stands on disk at a path.
#[derive(Debug, Clone, Copy, PartialEq, Eq, Structural)]
pub enum PathKind {
    /// Nothing.
    Missing,
    /// A file.
    File,
    /// A directory.
    Directory,
}

/// A path of the package with what stands there.
#[derive(Debug)]
pub struct Probed {
    /// The path, relative to the package.
    pub name: String,
    /// What stands there.
    pub kind: PathKind,
}

/// What was found at an entry file of the package.
#[derive(Debug)]
pub struct ExportProbe {
    /// What stands at the path.
    pub kind: PathKind,
    /// The text of the file, if it is a file and could be read.
    pub contents: Option<String>,
}

/// Why an entry file cannot be published.
#[derive(Debug)]
pub enum ExportError {
    /// Nothing stands at the path.
    Missing,
    /// The path is no file.
    NotAFile,
    /// The file could not be read.
    Unreadable,
    /// The file is no valid Luau; the parser's messages, joined by `, `.
    InvalidLuau(String),
    /// The path has no component.
    NoParts,
    /// The path leaves the package.
    OutsidePackage,
}

impl ExportProbe {
    /// Whether a file stands at the path and its text was read.
    pub open spec fn readable(self) -> bool {
        self.kind == PathKind::File && self.contents is Some
    }

    /// The messages of the errors in the text that was read.
    pub open spec fn errors(self) -> Seq<Seq<char>> {
        luau_parse_errors(self.contents->0@)
    }
}

/// What is to be said of an entry file whose text was read, given the
/// messages of the errors that the parser found in it: with errors it is
/// no valid Luau; without, it must lie inside the package, and the
/// top-level name that it lies under is given.
pub fn judge_export(path: &str, errors: &Vec<String>) -> (r: Result<String, ExportError>)
    ensures
        match r {
            Ok(root) => errors@.len() == 0 && root_spec(path@) == Ok::<Seq<char>, RootError>(root@),
            Err(ExportError::InvalidLuau(message)) => errors@.len() > 0 && message@ == join_spec(
                views(errors@),
                ", "@,
            ),
            Err(ExportError::NoParts) => errors@.len() == 0 && root_spec(path@) == Err::<
                Seq<char>,
                RootError,
            >(RootError::NoParts),
            Err(ExportError::OutsidePackage) => errors@.len() == 0 && root_spec(path@) == Err::<
                Seq<char>,
                RootError,
            >(RootError::OutsidePackage),
            Err(_) => false,
        },
{
    if errors.len() > 0 {
        return Err(ExportError::InvalidLuau(join(errors, ", ")));
    }
    match root_of(path) {
        Ok(root) => Ok(root),
        Err(RootError::NoParts) => Err(ExportError::NoParts),
        Err(RootError::OutsidePackage) => Err(ExportError::OutsidePackage),
    }
}

/// Checks an entry file of the package: it must be a readable file with
/// valid Luau inside the package. Gives the top-level name that it lies
/// under, which has to be shipped.
pub fn check_export(path: &str, probe: &ExportProbe) -> (r: Result<String, ExportError>)
    ensures
        match r {
            Ok(root) => probe.readable() && probe.errors().len() == 0 && root_spec(path@) == Ok::<
                Seq<char>,
                RootError,
            >(root@),
            Err(ExportError::Missing) => probe.kind == PathKind::Missing,
            Err(ExportError::NotAFile) => probe.kind == PathKind::Directory,
            Err(ExportError::Unreadable) => probe.kind == PathKind::File && probe.contents is None,
            Err(ExportError::InvalidLuau(message)) => probe.readable() && probe.errors().len() > 0
                && message@ == join_spec(probe.errors(), ", "@),
            Err(ExportError::NoParts) => probe.readable() && probe.errors().len() == 0
                && root_spec(path@) == Err::<Seq<char>, RootError>(RootError::NoParts),
            Err(ExportError::OutsidePackage) => probe.readable() && probe.errors().len() == 0
                && root_spec(path@) == Err::<Seq<char>, RootError>(RootError::OutsidePackage),
        },
{
    match probe.kind {
        PathKind::Missing => {
            return Err(ExportError::Missing);
        },
        PathKind::Directory => {
            return Err(ExportError::NotAFile);
        },
        PathKind::File => {},
    }
    let code = match &probe.contents {
        Some(code) => code,
        None => {
            return Err(ExportError::Unreadable);
        },
    };
    let errors = parse_luau(code.as_str());
    judge_export(path, &errors)
}

/// Whether `name` is the manifest's file name, whatever the case of its
/// ASCII letters.
pub open spec fn is_manifest_spec(name: Seq<char>) -> bool {
    eq_ignore_ascii_case_spec(name, MANIFEST_FILE_NAME@)
}

/// How a shipped path is shown to the user: a file by its name, a
/// directory by its name followed by `/*`.
pub open spec fn display_spec(item: Probed) -> Seq<char> {
    if item.kind == PathKind::File {
        item.name@
    } else {
        item.name@ + "/*"@
    }
}

/// The test that leaves the manifest out.
pub open spec fn not_manifest() -> spec_fn(Probed) -> bool {
    |p: Probed| !is_manifest_spec(p.name@)
}

/// The paths of `items` that go into the archive from disk, in order:
/// all but the manifest.
pub open spec fn shipped_spec(items: Seq<Probed>) -> Seq<Probed> {
    items.filter(not_manifest())
}

/// The paths of `items` as they are shown.
pub open spec fn shown_spec(items: Seq<Probed>) -> Seq<Seq<char>> {
    items.map_values(|p: Probed| display_spec(p))
}

/// How a shipped path is shown to the user.
pub fn display_name(item: &Probed) -> (r: String)
    ensures
        r@ == display_spec(*item),
{
    match item.kind {
        PathKind::File => item.name.clone(),
        _ => concat(item.name.as_str(), "/*"),
    }
}

/// What goes into the archive besides the manifest.
#[derive(Debug)]
pub struct ArchivePlan {
    /// The paths to put into the archive from disk, in order. The
    /// manifest is not among them: it is written last, from the rewritten
    /// manifest.
    pub entries: Vec<Probed>,
    /// The shipped paths as they are shown to the user, the manifest
    /// first.
    pub display: Vec<String>,
}

/// Checks the paths that are to be shipped, in order: each must exist.
/// The error is the first path that does not.
pub fn plan_archive(includes: &Vec<Probed>) -> (r: Result<ArchivePlan, String>)
    ensures
        match r {
            Ok(plan) => {
                &&& forall|i: int|
                    0 <= i < includes@.len() ==> (#[trigger] includes@[i]).kind
                        != PathKind::Missing
                &&& plan.entries@ == shipped_spec(includes@)
                &&& views(plan.display@) == seq![MANIFEST_FILE_NAME@] + shown_spec(plan.entries@)
            },
            Err(name) => exists|i: int|
                0 <= i < includes@.len() && (#[trigger] includes@[i]).kind == PathKind::Missing
                    && name@ == includes@[i].name@ && forall|k: int|
                    0 <= k < i ==> (#[trigger] includes@[k]).kind != PathKind::Missing,
        },
{
    let mut entries: Vec<Probed> = Vec::new();
    let mut display: Vec<String> = Vec::new();
    display.push(String::from_str(MANIFEST_FILE_NAME));
    let mut i: usize = 0;
    proof {
        reveal(Seq::filter);
        assert(includes@.subrange(0, 0) == Seq::<Probed>::empty());
        assert(views(display@) == seq![MANIFEST_FILE_NAME@] + shown_spec(entries@));
    }
    while i < includes.len()
        invariant
            i <= includes@.len(),
            forall|k: int| 0 <= k < i ==> (#[trigger] includes@[k]).kind != PathKind::Missing,
            entries@ == shipped_spec(includes@.subrange(0, i as int)),
            views(display@) == seq![MANIFEST_FILE_NAME@] + shown_spec(entries@),
        decreases includes@.len() - i,
    {
        let item = &includes[i];
        match item.kind {
            PathKind::Missing => {
                return Err(item.name.clone());
            },
            _ => {},
        }
        let ghost old_display = views(display@);
        let ghost old_entries = entries@;
        proof {
            broadcast use Seq::lemma_filter_push;

            assert(includes@.subrange(0, i + 1) == includes@.subrange(0, i as int).push(*item));
            assert(shipped_spec(includes@.subrange(0, i as int).push(*item)) == if not_manifest()(
                *item,
            ) {
                shipped_spec(includes@.subrange(0, i as int)).push(*item)
            } else {
                shipped_spec(includes@.subrange(0, i as int))
            });
        }
        if !eq_ignore_ascii_case(item.name.as_str(), MANIFEST_FILE_NAME) {
            display.push(display_name(item));
            entries.push(Probed { name: item.name.clone(), kind: item.kind });
            proof {
                assert(entries@ == old_entries.push(*item));
                assert(views(display@) == old_display.push(display_spec(*item)));
                assert(shown_spec(entries@) == shown_spec(old_entries).push(display_spec(*item)));
            }
        }
        i += 1;
    }
    proof {
        assert(includes@.subrange(0, includes@.len() as int) == includes@);
    }
    Ok(ArchivePlan { entries, display })
}

/// Why a build file cannot be published.
#[derive(Debug)]
pub enum BuildFileError {
    /// Nothing stands at the path of this build file.
    Missing(String),
    /// This build file is not among the shipped paths.
    NotIncluded(String),
}

/// Whether a build file is in order: it is the manifest, which is passed
/// over, or it exists and is shipped.
pub open spec fn build_file_ok(item: Probed, includes: Seq<Seq<char>>) -> bool {
    is_manifest_spec(item.name@) || (item.kind != PathKind::Missing && includes.contains(
        item.name@,
    ))
}

/// What checking the build files gave.
#[derive(Debug)]
pub struct BuildFiles {
    /// The build files as they are shown to the user, without the
    /// manifest.
    pub display: Vec<String>,
    /// Whether the manifest is listed as a build file, which it should
    /// not be.
    pub manifest_listed: bool,
}

/// Checks the build files of a Roblox target, in order: each but the
/// manifest must exist and be among the shipped paths `includes`. The
/// error names the first that is not in order.
pub fn check_build_files(build_files: &Vec<Probed>, includes: &Vec<String>) -> (r: Result<
    BuildFiles,
    BuildFileError,
>)
    ensures
        match r {
            Ok(found) => {
                &&& forall|i: int|
                    0 <= i < build_files@.len() ==> build_file_ok(
                        #[trigger] build_files@[i],
                        views(includes@),
                    )
                &&& views(found.display@) == shown_spec(shipped_spec(build_files@))
                &&& found.manifest_listed == (exists|i: int|
                    0 <= i < build_files@.len() && is_manifest_spec(
                        (#[trigger] build_files@[i]).name@,
                    ))
            },
            Err(BuildFileError::Missing(name)) => exists|i: int|
                0 <= i < build_files@.len() && !is_manifest_spec(build_files@[i].name@)
                    && build_files@[i].kind == PathKind::Missing && name@ == build_files@[i].name@
                    && forall|k: int|
                    0 <= k < i ==> build_file_ok(#[trigger] build_files@[k], views(includes@)),
            Err(BuildFileError::NotIncluded(name)) => exists|i: int|
                0 <= i < build_files@.len() && !is_manifest_spec(build_files@[i].name@)
                    && build_files@[i].kind != PathKind::Missing && !views(includes@).contains(
                    build_files@[i].name@,
                ) && name@ == build_files@[i].name@ && forall|k: int|
                    0 <= k < i ==> build_file_ok(#[trigger] build_files@[k], views(includes@)),
        },
{
    let mut display: Vec<String> = Vec::new();
    let mut manifest_listed = false;
    let mut i: usize = 0;
    proof {
        reveal(Seq::filter);
        assert(build_files@.subrange(0, 0) == Seq::<Probed>::empty());
        assert(views(display@) == shown_spec(shipped_spec(build_files@.subrange(0, 0))));
    }
    while i < build_files.len()
        invariant
            i <= build_files@.len(),
            forall|k: int|
                0 <= k < i ==> build_file_ok(#[trigger] build_files@[k], views(includes@)),
            views(display@) == shown_spec(shipped_spec(build_files@.subrange(0, i as int))),
            manifest_listed == (exists|k: int|
                0 <= k < i && is_manifest_spec((#[trigger] build_files@[k]).name@)),
        decreases build_files@.len() - i,
    {
        let item = &build_files[i];
        let ghost seen = build_files@.subrange(0, i as int);
        proof {
            broadcast use Seq::lemma_filter_push;

            assert(build_files@.subrange(0, i + 1) == seen.push(*item));
            assert(shipped_spec(seen.push(*item)) == if not_manifest()(*item) {
                shipped_spec(seen).push(*item)
            } else {
                shipped_spec(seen)
            });
        }
        if eq_ignore_ascii_case(item.name.as_str(), MANIFEST_FILE_NAME) {
            manifest_listed = true;
        } else {
            match item.kind {
                PathKind::Missing => {
                    return Err(BuildFileError::Missing(item.name.clone()));
                },
                _ => {},
            }
            if !contains_text(includes, item.name.as_str()) {
                return Err(BuildFileError::NotIncluded(item.name.clone()));
            }
            let ghost old_display = views(display@);
            display.push(display_name(item));
            proof {
                assert(views(display@) == old_display.push(display_spec(*item)));
                assert(shown_spec(shipped_spec(seen).push(*item)) == shown_spec(
                    shipped_spec(seen),
                ).push(display_spec(*item)));
            }
        }
        i += 1;
    }
    proof {
        assert(build_files@.subrange(0, build_files@.len() as int) == build_files@);
    }
    Ok(BuildFiles { display, manifest_listed })
}

} // verus!
