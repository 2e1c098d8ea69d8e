//! The registry: an index of packages in a git repository, and archives
//! served over HTTP.

use crate::archive::{entry_views, read_archive, read_spec, ArchiveEntry};
use crate::lockfile::{DeclaredDependency, PackageRef, SourceKind};
use crate::manifest::target::{Target, TargetKind};
use crate::names::{PackageName, PackageNameError};
use crate::source::fs::{hash, sha256_hex, tree_spec, PackageFS};
use crate::source::specifiers::PesdeDependencySpecifier;
use crate::source::version_id::{Version, VersionId};
use crate::text::{concat, concat3, replace, replace_spec, str_eq, trim_end, trim_end_spec};
use crate::Project;
use std::collections::BTreeSet;
use vstd::prelude::*;
use vstd::string::*;
use vstd::utf8::{decode_utf8, valid_utf8};

verus! {

/// The file of a scope's directory that holds the scope's owners rather
/// than a package.
pub const SCOPE_INFO_FILE: &'static str = "scope.toml";

/// The template of download URLs that is used where the index names none.
pub const DEFAULT_DOWNLOAD_TEMPLATE: &'static str =
    "{API_URL}/v0/packages/{PACKAGE}/{PACKAGE_VERSION}/{PACKAGE_TARGET}";

/// Who may publish to a scope.
#[derive(Debug)]
pub struct ScopeInfo {
    /// The users who may publish to this scope.
    pub owners: BTreeSet<u64>,
}

impl ScopeInfo {
    /// Whether the user `id` may publish to the scope.
    pub fn is_owner(&self, id: u64) -> (r: bool)
        ensures
            r == self.owners@.contains(id),
    {
        broadcast use vstd::std_specs::btree::group_btree_axioms;

        self.owners.contains(&id)
    }
}

/// What the index says about itself.
#[derive(Debug)]
pub struct IndexConfig {
    /// The URL of the registry's API.
    pub api: String,
    /// The template of the URL to download a package from, if it is not
    /// the default one.
    pub download: Option<String>,
    /// Whether published packages may depend on git repositories.
    pub git_allowed: bool,
    /// Whether published packages may depend on packages of other
    /// registries.
    pub other_registries_allowed: bool,
    /// The largest archive, in bytes, that the registry accepts.
    pub max_archive_size: usize,
    /// The OAuth client ID for signing in through GitHub.
    pub github_oauth_client_id: String,
}

impl IndexConfig {
    /// The URL of the API, without slashes at its end.
    pub open spec fn api_spec(self) -> Seq<char> {
        trim_end_spec(self.api@, '/')
    }

    /// The template of download URLs with the API's URL filled in.
    pub open spec fn download_spec(self) -> Seq<char> {
        replace_spec(
            match self.download {
                Some(template) => template@,
                None => DEFAULT_DOWNLOAD_TEMPLATE@,
            },
            "{API_URL}"@,
            self.api_spec(),
        )
    }

    /// The URL to download the release of `name` at `version` for
    /// `target` from. In the name, `/` is written `%2F`.
    pub open spec fn download_url_spec(
        self,
        name: PackageName,
        version: Version,
        target: TargetKind,
    ) -> Seq<char> {
        replace_spec(
            replace_spec(
                replace_spec(
                    self.download_spec(),
                    "{PACKAGE}"@,
                    replace_spec(name.text_spec(), "/"@, "%2F"@),
                ),
                "{PACKAGE_VERSION}"@,
                version.text_spec(),
            ),
            "{PACKAGE_TARGET}"@,
            target.name_spec(),
        )
    }

    /// The URL of the API, without slashes at its end.
    pub fn api(&self) -> (r: String)
        ensures
            r@ == self.api_spec(),
    {
        trim_end(self.api.as_str(), '/')
    }

    /// The URL that packages are published to.
    pub fn publish_url(&self) -> (r: String)
        ensures
            r@ == self.api_spec() + "/v0/packages"@,
    {
        let api = self.api();
        concat(api.as_str(), "/v0/packages")
    }

    /// The template of download URLs with the API's URL filled in.
    pub fn download(&self) -> (r: String)
        ensures
            r@ == self.download_spec(),
    {
        let api = self.api();
        match &self.download {
            Some(template) => replace(template.as_str(), "{API_URL}", api.as_str()),
            None => replace(DEFAULT_DOWNLOAD_TEMPLATE, "{API_URL}", api.as_str()),
        }
    }

    /// The URL to download a release from.
    pub fn download_url(&self, name: &PackageName, version: &Version, target: TargetKind) -> (r:
        String)
        ensures
            r@ == self.download_url_spec(*name, *version, target),
    {
        let template = self.download();
        let written = name.text();
        let escaped = replace(written.as_str(), "/", "%2F");
        let version = version.text();
        let target = target.name();
        let with_name = replace(template.as_str(), "{PACKAGE}", escaped.as_str());
        let with_version = replace(with_name.as_str(), "{PACKAGE_VERSION}", version.as_str());
        replace(with_version.as_str(), "{PACKAGE_TARGET}", target.as_str())
    }
}

/// What the index records of one release.
#[derive(Debug)]
pub struct IndexFileEntry {
    /// What the release is built for.
    pub target: Target,
    /// When the release was published, as it is written in the index.
    pub published_at: String,
    /// A sentence about the package.
    pub description: Option<String>,
    /// The license of the package.
    pub license: Option<String>,
    /// The dependencies that the release declares.
    pub dependencies: Vec<DeclaredDependency>,
}

/// A release with what the index records of it.
#[derive(Debug)]
pub struct IndexVersion {
    /// The release.
    pub id: VersionId,
    /// What the index records of it.
    pub entry: IndexFileEntry,
}

/// A release that satisfies a specifier, with what is needed to fetch it.
#[derive(Debug)]
pub struct Resolved {
    /// The release.
    pub id: VersionId,
    /// How to fetch it.
    pub pkg_ref: PackageRef,
}

/// The releases of a package that satisfy a specifier.
#[derive(Debug)]
pub struct ResolveResult {
    /// The name of the package.
    pub name: PackageName,
    /// The releases, in the order of the index file.
    pub versions: Vec<Resolved>,
}

/// Why a specifier could not be resolved.
#[derive(Debug)]
pub enum ResolveError {
    /// The index has no file for the package; the name of the package.
    NotFound(String),
}

/// Why a file of the index is no package file.
#[derive(Debug)]
pub enum AllPackagesError {
    /// The file of this name is not text.
    Utf8(String),
    /// A directory and a file in it whose names make no package name; the
    /// text `scope/name` that they make.
    InvalidName(String),
}

/// Why a downloaded package could not be taken apart.
#[derive(Debug, Clone, Copy, PartialEq, Eq, Structural)]
pub enum DownloadError {
    /// The archive could not be unpacked.
    Unpack,
}

/// How the mirror of an index repository is brought up to date.
#[derive(Debug, Clone, Copy, PartialEq, Eq, Structural)]
pub enum RefreshAction {
    /// The mirror exists: fetch from its default remote.
    Fetch,
    /// There is no mirror yet: make its directory and clone into it.
    Clone,
}

/// A file of the index that describes a package.
#[derive(Debug)]
pub struct PackageFile {
    /// The name of the package.
    pub name: PackageName,
    /// The text of the file.
    pub text: String,
}

/// Whether the release `id` satisfies `specifier` for a consumer of kind
/// `consumer`: the requirement admits the version, and the kind is the one
/// asked for or, where none is asked for, one that the consumer may
/// depend on.
pub open spec fn satisfies(
    specifier: PesdeDependencySpecifier,
    id: VersionId,
    consumer: TargetKind,
) -> bool {
    specifier.version.admits(id.version@) && match specifier.target {
        Some(kind) => kind == id.target,
        None => consumer.compatible_spec(id.target),
    }
}

/// The test that keeps the releases that satisfy `specifier`.
pub open spec fn satisfying(
    specifier: PesdeDependencySpecifier,
    consumer: TargetKind,
) -> spec_fn(IndexVersion) -> bool {
    |v: IndexVersion| satisfies(specifier, v.id, consumer)
}

/// The registry behind one index repository.
#[derive(Debug)]
pub struct PesdePackageSource {
    repo_url: String,
}

impl PesdePackageSource {
    /// The URL of the index repository.
    pub closed spec fn repo_url_spec(self) -> String {
        self.repo_url
    }

    /// The directory, relative to the project's data directory, in which
    /// the index repository is mirrored: `indices`, and in it the digest
    /// of the URL.
    pub open spec fn path_spec(self, project: Project) -> Seq<char> {
        project.data_dir_spec() + "/indices/"@ + sha256_hex(
            vstd::utf8::encode_utf8(self.repo_url_spec()@),
        )
    }

    /// What is needed to fetch the release that the index records as
    /// `found`.
    pub open spec fn resolved_spec(self) -> spec_fn(IndexVersion) -> Resolved {
        |found: IndexVersion|
            Resolved {
                id: found.id,
                pkg_ref: PackageRef {
                    source: SourceKind::Pesde,
                    location: self.repo_url_spec(),
                    target: found.entry.target,
                    dependencies: found.entry.dependencies,
                },
            }
    }

    /// The registry behind the index repository at `repo_url`.
    pub fn new(repo_url: String) -> (r: PesdePackageSource)
        ensures
            r.repo_url_spec() == repo_url,
    {
        PesdePackageSource { repo_url }
    }

    /// The URL of the index repository.
    pub fn repo_url(&self) -> (r: &String)
        ensures
            *r == self.repo_url_spec(),
    {
        &self.repo_url
    }

    /// The directory in which the index repository is mirrored.
    pub fn path(&self, project: &Project) -> (r: String)
        ensures
            r@ == self.path_spec(*project),
    {
        let digest = hash(self.repo_url.as_str().as_bytes());
        concat3(project.data_dir(), "/indices/", digest.as_str())
    }

    /// How the mirror is brought up to date, given whether its directory
    /// exists.
    pub fn refresh(path_exists: bool) -> (r: RefreshAction)
        ensures
            r == if path_exists {
                RefreshAction::Fetch
            } else {
                RefreshAction::Clone
            },
    {
        if path_exists {
            RefreshAction::Fetch
        } else {
            RefreshAction::Clone
        }
    }

    /// The name of the local reference that holds the index: the local
    /// side of the remote's first fetch refspec, with each `*` replaced by
    /// the name of the repository's first branch, or by `main` where it
    /// has none.
    pub open spec fn local_ref_spec(local: Seq<char>, first_branch: Option<Seq<char>>) -> Seq<char> {
        replace_spec(
            local,
            "*"@,
            match first_branch {
                Some(branch) => branch,
                None => "main"@,
            },
        )
    }

    /// The name of the local reference that holds the index.
    pub fn local_ref(local: &str, first_branch: Option<&str>) -> (r: String)
        ensures
            r@ == Self::local_ref_spec(
                local@,
                match first_branch {
                    Some(branch) => Some(branch@),
                    None => None,
                },
            ),
    {
        match first_branch {
            Some(branch) => replace(local, "*", branch),
            None => replace(local, "*", "main"),
        }
    }

    /// The releases of a package that satisfy `specifier` for a consumer
    /// of kind `project_target`, given the releases that the index file
    /// of the package holds, or `None` where the index has no such file.
    pub fn resolve(
        &self,
        specifier: &PesdeDependencySpecifier,
        file: Option<Vec<IndexVersion>>,
        project_target: TargetKind,
    ) -> (r: Result<ResolveResult, ResolveError>)
        ensures
            match file {
                None => r matches Err(ResolveError::NotFound(name)) && name@
                    == specifier.name.text_spec(),
                Some(entries) => r matches Ok(found) && found.name == specifier.name
                    && found.versions@ == entries@.filter(
                    satisfying(*specifier, project_target),
                ).map_values(self.resolved_spec()),
            },
    {
        let mut entries = match file {
            None => {
                return Err(ResolveError::NotFound(specifier.name.text()));
            },
            Some(entries) => entries,
        };
        let ghost all = entries@;
        let ghost keep = satisfying(*specifier, project_target);
        let mut versions: Vec<Resolved> = Vec::new();
        let ghost mut done: int = 0;
        proof {
            reveal(Seq::filter);
            assert(all.subrange(0, 0) == Seq::<IndexVersion>::empty());
        }
        while entries.len() > 0
            invariant
                0 <= done <= all.len(),
                entries@ == all.skip(done),
                keep == satisfying(*specifier, project_target),
                versions@ == all.subrange(0, done).filter(keep).map_values(self.resolved_spec()),
            decreases entries@.len(),
        {
            let found = entries.remove(0);
            proof {
                broadcast use Seq::lemma_filter_push, Seq::lemma_push_map_commute;

                assert(found == all[done]);
                assert(entries@ == all.skip(done + 1));
                assert(all.subrange(0, done + 1) == all.subrange(0, done).push(found));
                assert(all.subrange(0, done).push(found).filter(keep) == if keep(found) {
                    all.subrange(0, done).filter(keep).push(found)
                } else {
                    all.subrange(0, done).filter(keep)
                });
                assert(all.subrange(0, done).filter(keep).push(found).map_values(
                    self.resolved_spec(),
                ) == all.subrange(0, done).filter(keep).map_values(self.resolved_spec()).push(
                    self.resolved_spec()(found),
                ));
                done = done + 1;
            }
            let kind_fits = match specifier.target {
                Some(kind) => kind == found.id.target,
                None => project_target.is_compatible_with(&found.id.target),
            };
            if specifier.version.matches(&found.id.version) && kind_fits {
                versions.push(
                    Resolved {
                        id: found.id,
                        pkg_ref: PackageRef {
                            source: SourceKind::Pesde,
                            location: self.repo_url.clone(),
                            target: found.entry.target,
                            dependencies: found.entry.dependencies,
                        },
                    },
                );
            }
        }
        proof {
            assert(all.subrange(0, all.len() as int) == all);
        }
        Ok(ResolveResult { name: specifier.name.duplicate(), versions })
    }

    /// What a file in the directory of a scope means: nothing, if it is no
    /// blob or holds the scope's owners; else the package that the
    /// directory and the file name, and the text of the file, which must
    /// be UTF-8.
    pub fn package_file(scope: &str, file_name: &str, is_blob: bool, data: Vec<u8>) -> (r: Result<
        Option<PackageFile>,
        AllPackagesError,
    >)
        ensures
            (!is_blob || file_name@ == SCOPE_INFO_FILE@) ==> r matches Ok(None),
            (is_blob && file_name@ != SCOPE_INFO_FILE@) ==> match r {
                Ok(None) => false,
                Ok(Some(file)) => valid_utf8(data@) && file.text@ == decode_utf8(data@)
                    && file.name.well_formed() && file.name.text_spec() == scope@ + "/"@
                    + file_name@,
                Err(AllPackagesError::Utf8(name)) => !valid_utf8(data@) && name@ == file_name@,
                Err(AllPackagesError::InvalidName(text)) => valid_utf8(data@) && text@ == scope@
                    + "/"@ + file_name@ && forall|name: PackageName|
                    name.well_formed() ==> name.text_spec() != text@,
            },
    {
        if !is_blob || str_eq(file_name, SCOPE_INFO_FILE) {
            return Ok(None);
        }
        let text = match crate::text::str_of_bytes(data.as_slice()) {
            Some(text) => String::from_str(text),
            None => {
                return Err(AllPackagesError::Utf8(String::from_str(file_name)));
            },
        };
        let written = concat3(scope, "/", file_name);
        match PackageName::parse(written.as_str()) {
            Ok(name) => Ok(Some(PackageFile { name, text })),
            Err(e) => {
                proof {
                    crate::names::no_name_for_refused_text(written@);
                }
                Err(AllPackagesError::InvalidName(written))
            },
        }
    }

    /// The file, relative to the store, that records the files of the
    /// release of `name` at `version` for `target`:
    /// `index/scope+name/version/kind`.
    pub open spec fn index_file_spec(name: PackageName, version: Version, target: TargetKind) -> Seq<
        char,
    > {
        "index/"@ + name.escaped_spec() + "/"@ + version.text_spec() + "/"@ + target.name_spec()
    }

    /// The file, relative to the store, that records the files of a
    /// release.
    pub fn index_file(name: &PackageName, version: &Version, target: TargetKind) -> (r: String)
        ensures
            r@ == Self::index_file_spec(*name, *version, target),
    {
        let mut r = String::from_str("index/");
        let escaped = name.escaped();
        let version = version.text();
        let target = target.name();
        r.append(escaped.as_str());
        r.append("/");
        r.append(version.as_str());
        r.append("/");
        r.append(target.as_str());
        r
    }

    /// Takes the downloaded archive of the release that `pkg_ref` stands
    /// for apart: the file tree that its entries make, the entries, and
    /// the target of the release, which is the one that the reference
    /// carries. Fails where the bytes are no archive.
    pub fn download(pkg_ref: &PackageRef, bytes: &[u8]) -> (r: Result<
        (PackageFS, Vec<ArchiveEntry>, Target),
        DownloadError,
    >)
        ensures
            match r {
                Ok((fs, entries, target)) => read_spec(bytes@) == Some(entry_views(entries@)) && fs@
                    == tree_spec(entry_views(entries@)) && target@ == pkg_ref.target@,
                Err(e) => e == DownloadError::Unpack && read_spec(bytes@) is None,
            },
    {
        match read_archive(bytes) {
            None => Err(DownloadError::Unpack),
            Some(entries) => {
                let fs = PackageFS::from_entries(&entries);
                Ok((fs, entries, pkg_ref.target.duplicate()))
            },
        }
    }
}

} // verus!
