//! The rules of publishing: what may be published, what is shipped, and
//! what the registry's answer means.

use crate::lockfile::DownloadedGraph;
use crate::manifest::target::TargetKind;
use crate::manifest::Manifest;
use crate::source::pesde::IndexConfig;
use crate::source::specifiers::DependencyType;
use crate::text::{concat, contains_text, decimal, decimal_spec, str_eq, string_of, views};
use crate::MANIFEST_FILE_NAME;
use vstd::prelude::*;
use vstd::string::*;

pub mod exports;
pub mod includes;
pub mod rewrite;

verus! {

/// Options of a publish run.
#[derive(Debug, Clone, Copy)]
pub struct PublishCommand {
    /// Write the archive to disk instead of uploading it.
    pub dry_run: bool,
    /// Answer every prompt with yes.
    pub yes: bool,
}

/// What the manifest alone says about publishing the package.
#[derive(Debug, Clone, Copy, PartialEq, Eq, Structural)]
pub enum Gate {
    /// The package is private: nothing is published, and that is no error.
    Private,
    /// The target declares neither a library nor a binary.
    NoExports,
    /// The target is a Roblox one and declares no build files.
    NoBuildFiles,
    /// The package may go on to be checked further.
    Proceed,
}

/// What the manifest alone says about publishing the package.
pub open spec fn gate_spec(manifest: Manifest) -> Gate {
    if manifest.private {
        Gate::Private
    } else if manifest.target.lib_spec() is None && manifest.target.bin_spec() is None {
        Gate::NoExports
    } else if manifest.target.build_files_spec() matches Some(files) && files@.len() == 0 {
        Gate::NoBuildFiles
    } else {
        Gate::Proceed
    }
}

/// Why the lockfile forbids publishing a Roblox package.
#[derive(Debug, Clone, Copy, PartialEq, Eq, Structural)]
pub enum LockError {
    /// There is no lockfile that matches the manifest.
    Outdated,
    /// A dependency that is not a dev dependency is no Roblox package.
    NonRobloxDependency,
}

/// Whether every node of `graph` that is no dev dependency is built for
/// Roblox.
pub open spec fn only_roblox_spec(graph: DownloadedGraph) -> bool {
    forall|i: int|
        0 <= i < graph.entries@.len() ==> (#[trigger] graph.entries@[i]).node.node.ty
            == DependencyType::Dev || graph.entries@[i].node.target.kind_spec().is_roblox_spec()
}

/// An archive that is larger than the index accepts.
#[derive(Debug, Clone, Copy, PartialEq, Eq, Structural)]
pub struct Oversize {
    /// The largest size, in bytes, that the index accepts.
    pub max: usize,
    /// By how many bytes the archive is larger.
    pub over: usize,
}

impl Oversize {
    /// The sentence that reports the archive's size.
    pub open spec fn message_spec(self) -> Seq<char> {
        "archive size exceeds maximum size of "@ + decimal_spec(self.max as nat) + " bytes by "@
            + decimal_spec(self.over as nat) + " bytes"@
    }

    /// The sentence that reports the archive's size.
    pub fn message(&self) -> (r: String)
        ensures
            r@ == self.message_spec(),
    {
        let max = string_of(&decimal(self.max as u64));
        let over = string_of(&decimal(self.over as u64));
        let mut r = String::from_str("archive size exceeds maximum size of ");
        r.append(max.as_str());
        r.append(" bytes by ");
        r.append(over.as_str());
        r.append(" bytes");
        r
    }
}

/// A kind of dependency that the index does not accept.
#[derive(Debug, Clone, Copy, PartialEq, Eq, Structural)]
pub enum PolicyViolation {
    /// The package has a git dependency and the index accepts none.
    GitNotAllowed,
    /// The package has a Wally dependency and the index accepts none.
    WallyNotAllowed,
}

/// Why the index does not take the archive.
#[derive(Debug)]
pub enum Refusal {
    /// The archive is larger than the index accepts.
    Oversize(Oversize),
    /// Two dependencies of the manifest share this alias.
    AliasConflict(String),
    /// The package has a kind of dependency that the index does not
    /// accept.
    Policy(PolicyViolation),
}

/// What the registry answered to an upload.
#[derive(Debug)]
pub enum PublishOutcome {
    /// The package was accepted; the registry's words are kept.
    Published(String),
    /// This version of the package exists already.
    AlreadyExists,
    /// The user may not publish under this scope.
    Forbidden,
    /// The registry refused the package; its reason is kept.
    Invalid(String),
    /// Any other answer that is no success: the status and the body.
    Fatal(u16, String),
}

/// What an answer with the given status and body means.
pub open spec fn outcome_spec(status: u16, text: String) -> PublishOutcome {
    if status == 409 {
        PublishOutcome::AlreadyExists
    } else if status == 403 {
        PublishOutcome::Forbidden
    } else if status == 400 {
        PublishOutcome::Invalid(text)
    } else if status < 200 || status > 299 {
        PublishOutcome::Fatal(status, text)
    } else {
        PublishOutcome::Published(text)
    }
}

impl PublishCommand {
    /// What the manifest alone says about publishing the package.
    pub fn gate(manifest: &Manifest) -> (r: Gate)
        ensures
            r == gate_spec(*manifest),
    {
        if manifest.private {
            return Gate::Private;
        }
        if manifest.target.lib_path().is_none() && manifest.target.bin_path().is_none() {
            return Gate::NoExports;
        }
        match manifest.target.build_files() {
            Some(files) => {
                if files.len() == 0 {
                    return Gate::NoBuildFiles;
                }
            },
            None => {},
        }
        Gate::Proceed
    }

    /// Whether publishing a package of kind `kind` takes the lockfile: a
    /// Roblox package is held against its locked graph, any other is not.
    pub fn needs_lockfile(kind: TargetKind) -> (r: bool)
        ensures
            r == kind.is_roblox_spec(),
    {
        kind.is_roblox()
    }

    /// Whether the locked graph lets a Roblox package be published: there
    /// must be an up-to-date lockfile, and each of its nodes must be a dev
    /// dependency or built for Roblox.
    pub fn check_lockfile(graph: Option<&DownloadedGraph>) -> (r: Result<(), LockError>)
        ensures
            match graph {
                None => r == Err::<(), LockError>(LockError::Outdated),
                Some(g) => r == (if only_roblox_spec(*g) {
                    Ok::<(), LockError>(())
                } else {
                    Err::<(), LockError>(LockError::NonRobloxDependency)
                }),
            },
    {
        match graph {
            None => Err(LockError::Outdated),
            Some(g) => {
                if Self::only_roblox(g) {
                    Ok(())
                } else {
                    Err(LockError::NonRobloxDependency)
                }
            },
        }
    }

    /// Whether every node of `graph` that is no dev dependency is built for
    /// Roblox.
    pub fn only_roblox(graph: &DownloadedGraph) -> (r: bool)
        ensures
            r == only_roblox_spec(*graph),
    {
        let mut i: usize = 0;
        while i < graph.entries.len()
            invariant
                i <= graph.entries@.len(),
                forall|k: int|
                    0 <= k < i ==> (#[trigger] graph.entries@[k]).node.node.ty
                        == DependencyType::Dev
                        || graph.entries@[k].node.target.kind_spec().is_roblox_spec(),
            decreases graph.entries@.len() - i,
        {
            let entry = &graph.entries[i];
            let is_dev = match entry.node.node.ty {
                DependencyType::Dev => true,
                _ => false,
            };
            if !is_dev && !entry.node.target.kind().is_roblox() {
                proof {
                    let found = graph.entries@[i as int];
                    assert(found.node.node.ty != DependencyType::Dev);
                    assert(!found.node.target.kind_spec().is_roblox_spec());
                }
                return false;
            }
            i += 1;
        }
        true
    }

    /// Holds the size of the archive against the largest that the index
    /// accepts, and reports by how much it is over.
    pub fn check_archive_size(size: usize, max: usize) -> (r: Result<(), Oversize>)
        ensures
            size <= max ==> r == Ok::<(), Oversize>(()),
            size > max ==> r == Err::<(), Oversize>(Oversize { max, over: (size - max) as usize }),
    {
        if size > max {
            Err(Oversize { max, over: size - max })
        } else {
            Ok(())
        }
    }

    /// Holds the kinds of dependency that the package has against what the
    /// index accepts. A git dependency is reported before a Wally one.
    pub fn check_index_policy(
        git_allowed: bool,
        other_registries_allowed: bool,
        has_git: bool,
        has_wally: bool,
    ) -> (r: Result<(), PolicyViolation>)
        ensures
            r == (if !git_allowed && has_git {
                Err::<(), PolicyViolation>(PolicyViolation::GitNotAllowed)
            } else if !other_registries_allowed && has_wally {
                Err::<(), PolicyViolation>(PolicyViolation::WallyNotAllowed)
            } else {
                Ok::<(), PolicyViolation>(())
            }),
    {
        if !git_allowed && has_git {
            Err(PolicyViolation::GitNotAllowed)
        } else if !other_registries_allowed && has_wally {
            Err(PolicyViolation::WallyNotAllowed)
        } else {
            Ok(())
        }
    }

    /// Holds the package against what the index accepts, once the archive
    /// is built and the index's configuration is read: the size of the
    /// archive first, then the aliases of the manifest, then the kinds of
    /// dependency.
    pub fn check_against_index(
        size: usize,
        config: &IndexConfig,
        manifest: &Manifest,
        has_git: bool,
        has_wally: bool,
    ) -> (r: Result<(), Refusal>)
        ensures
            match r {
                Ok(()) => size <= config.max_archive_size && manifest.all_aliases().no_duplicates()
                    && (config.git_allowed || !has_git) && (config.other_registries_allowed
                    || !has_wally),
                Err(Refusal::Oversize(over)) => size > config.max_archive_size && over == (Oversize {
                    max: config.max_archive_size,
                    over: (size - config.max_archive_size) as usize,
                }),
                Err(Refusal::AliasConflict(alias)) => size <= config.max_archive_size
                    && !manifest.all_aliases().no_duplicates() && manifest.all_aliases().contains(
                    alias@,
                ),
                Err(Refusal::Policy(violation)) => size <= config.max_archive_size
                    && manifest.all_aliases().no_duplicates() && violation == if !config.git_allowed
                    && has_git {
                    PolicyViolation::GitNotAllowed
                } else {
                    PolicyViolation::WallyNotAllowed
                } && ((!config.git_allowed && has_git) || (!config.other_registries_allowed
                    && has_wally)),
            },
    {
        match Self::check_archive_size(size, config.max_archive_size) {
            Err(over) => {
                return Err(Refusal::Oversize(over));
            },
            Ok(()) => {},
        }
        match manifest.alias_conflict() {
            Some(alias) => {
                proof {
                    let all = manifest.all_aliases();
                    let (i, j) = choose|i: int, j: int|
                        0 <= i < j < all.len() && all[i] == alias@ && all[j] == alias@
                            && all.subrange(0, j).no_duplicates();
                    assert(all[i] == all[j]);
                }
                return Err(Refusal::AliasConflict(alias));
            },
            None => {},
        }
        match Self::check_index_policy(
            config.git_allowed,
            config.other_registries_allowed,
            has_git,
            has_wally,
        ) {
            Err(violation) => Err(Refusal::Policy(violation)),
            Ok(()) => Ok(()),
        }
    }

    /// What the registry's answer to an upload means.
    pub fn outcome(status: u16, text: String) -> (r: PublishOutcome)
        ensures
            r == outcome_spec(status, text),
    {
        if status == 409 {
            PublishOutcome::AlreadyExists
        } else if status == 403 {
            PublishOutcome::Forbidden
        } else if status == 400 {
            PublishOutcome::Invalid(text)
        } else if status < 200 || status > 299 {
            PublishOutcome::Fatal(status, text)
        } else {
            PublishOutcome::Published(text)
        }
    }
}

} // verus!
