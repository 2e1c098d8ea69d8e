//! The project descriptor.

use crate::names::PackageName;
use crate::source::specifiers::{DependencySpecifiers, DependencyType};
use crate::source::version_id::Version;
use crate::text::{insert_unique, str_eq, views};
use vstd::prelude::*;
use vstd::string::*;

pub mod target;

verus! {

/// A named string of a manifest: an index alias with its URL, or a script
/// role with the path of its file.
#[derive(Debug)]
pub struct Named {
    /// The alias or role.
    pub name: String,
    /// The URL or path.
    pub value: String,
}

/// A dependency under the alias its consumer gave it.
#[derive(Debug)]
pub struct Dependency {
    /// The name under which the consumer requires the package.
    pub alias: String,
    /// What is depended on.
    pub specifier: DependencySpecifiers,
}

/// The descriptor of a project.
#[derive(Debug)]
pub struct Manifest {
    /// The name of the package.
    pub name: PackageName,
    /// The version of the package.
    pub version: Version,
    /// A sentence about the package.
    pub description: Option<String>,
    /// The license of the package.
    pub license: Option<String>,
    /// The people who wrote the package.
    pub authors: Vec<String>,
    /// Where the sources of the package live.
    pub repository: Option<String>,
    /// Whether the package must never be published.
    pub private: bool,
    /// What the package is built for.
    pub target: target::Target,
    /// The registry indices by alias.
    pub indices: Vec<Named>,
    /// The Wally indices by alias.
    pub wally_indices: Vec<Named>,
    /// The helper scripts by role.
    pub scripts: Vec<Named>,
    /// The files and directories to ship on publish.
    pub includes: Vec<String>,
    /// The dependencies needed whenever the package is used.
    pub dependencies: Vec<Dependency>,
    /// The dependencies needed only to work on the package.
    pub dev_dependencies: Vec<Dependency>,
    /// The dependencies that the consumer provides.
    pub peer_dependencies: Vec<Dependency>,
    /// Globs for the members of the workspace rooted here.
    pub workspace_members: Vec<String>,
}

/// The value of the first entry of `entries` that is named `name`.
pub open spec fn lookup_spec(entries: Seq<Named>, name: Seq<char>) -> Option<Seq<char>>
    decreases entries.len(),
{
    if entries.len() == 0 {
        None
    } else if entries[0].name@ == name {
        Some(entries[0].value@)
    } else {
        lookup_spec(entries.skip(1), name)
    }
}

/// The value of the first entry of `entries` that is named `name`.
pub fn lookup<'a>(entries: &'a Vec<Named>, name: &str) -> (r: Option<&'a String>)
    ensures
        match r {
            Some(value) => lookup_spec(entries@, name@) == Some(value@),
            None => lookup_spec(entries@, name@) is None,
        },
{
    let mut i: usize = 0;
    proof {
        assert(entries@.skip(0) == entries@);
    }
    while i < entries.len()
        invariant
            i <= entries@.len(),
            lookup_spec(entries@.skip(i as int), name@) == lookup_spec(entries@, name@),
        decreases entries@.len() - i,
    {
        if str_eq(entries[i].name.as_str(), name) {
            return Some(&entries[i].value);
        }
        proof {
            assert(entries@.skip(i as int).skip(1) == entries@.skip(i + 1));
        }
        i += 1;
    }
    None
}

/// The aliases of `deps`, in order.
pub open spec fn aliases(deps: Seq<Dependency>) -> Seq<Seq<char>> {
    deps.map_values(|d: Dependency| d.alias@)
}

impl Manifest {
    /// The aliases of all dependencies: the normal ones, then the peer
    /// ones, then the dev ones.
    pub open spec fn all_aliases(self) -> Seq<Seq<char>> {
        aliases(self.dependencies@) + aliases(self.peer_dependencies@) + aliases(
            self.dev_dependencies@,
        )
    }

    /// The aliases of all dependencies: the normal ones, then the peer
    /// ones, then the dev ones.
    pub fn alias_list(&self) -> (r: Vec<String>)
        ensures
            views(r@) == self.all_aliases(),
    {
        let mut all: Vec<String> = Vec::new();
        push_aliases(&mut all, &self.dependencies);
        push_aliases(&mut all, &self.peer_dependencies);
        push_aliases(&mut all, &self.dev_dependencies);
        assert(views(all@) =~= self.all_aliases());
        all
    }

    /// An alias that two dependencies share, if there is one: the first
    /// alias, in the order of `all_aliases`, that occurred before. `None`
    /// means that every alias names one dependency.
    pub fn alias_conflict(&self) -> (r: Option<String>)
        ensures
            match r {
                None => self.all_aliases().no_duplicates(),
                Some(alias) => exists|i: int, j: int|
                    0 <= i < j < self.all_aliases().len() && self.all_aliases()[i] == alias@
                        && self.all_aliases()[j] == alias@ && self.all_aliases().subrange(
                        0,
                        j,
                    ).no_duplicates(),
            },
    {
        let all = self.alias_list();
        match first_repeated(&all) {
            Some(at) => Some(all[at].clone()),
            None => None,
        }
    }
}

/// What shipping the top-level name of an entry file changed.
#[derive(Debug, Clone, Copy, PartialEq, Eq, Structural)]
pub struct RootAdded {
    /// Whether the name was not among the shipped paths and was added.
    pub to_includes: bool,
    /// Whether the target is a Roblox one, the name was not among its
    /// build files, and was added.
    pub to_build_files: bool,
}

/// Ships the top-level name `root` that an entry file lies under: it is
/// added to `includes`, and to the build files of a Roblox `target`,
/// where it is not there yet.
pub fn add_export_root(includes: &mut Vec<String>, target: &mut target::Target, root: String) -> (r:
    RootAdded)
    ensures
        r.to_includes == !views(old(includes)@).contains(root@),
        views(final(includes)@) == if r.to_includes {
            views(old(includes)@).push(root@)
        } else {
            views(old(includes)@)
        },
        final(target).kind_spec() == old(target).kind_spec(),
        final(target).lib_spec() == old(target).lib_spec(),
        final(target).bin_spec() == old(target).bin_spec(),
        match old(target).build_files_spec() {
            None => !r.to_build_files && final(target).build_files_spec() is None,
            Some(files) => r.to_build_files == !views(files@).contains(root@)
                && final(target).build_files_spec() is Some && views(
                final(target).build_files_spec()->0@,
            ) == if r.to_build_files {
                views(files@).push(root@)
            } else {
                views(files@)
            },
        },
{
    let ghost before = views(includes@);
    let to_includes = insert_unique(includes, root.clone());
    proof {
        if to_includes {
            assert(views(includes@) =~= before.push(root@));
        }
    }
    let to_build_files = match target {
        target::Target::Roblox { build_files, .. } => {
            let ghost files = views(build_files@);
            let added = insert_unique(build_files, root);
            proof {
                if added {
                    assert(views(build_files@) =~= files.push(root@));
                }
            }
            added
        },
        target::Target::RobloxServer { build_files, .. } => {
            let ghost files = views(build_files@);
            let added = insert_unique(build_files, root);
            proof {
                if added {
                    assert(views(build_files@) =~= files.push(root@));
                }
            }
            added
        },
        _ => false,
    };
    RootAdded { to_includes, to_build_files }
}

/// Appends the aliases of `deps` to `all`.
fn push_aliases(all: &mut Vec<String>, deps: &Vec<Dependency>)
    ensures
        views(final(all)@) == views(old(all)@) + aliases(deps@),
{
    let mut k: usize = 0;
    assert(views(all@) =~= views(old(all)@) + aliases(deps@).subrange(0, 0));
    while k < deps.len()
        invariant
            k <= deps@.len(),
            views(all@) == views(old(all)@) + aliases(deps@).subrange(0, k as int),
        decreases deps@.len() - k,
    {
        let ghost before = all@;
        all.push(deps[k].alias.clone());
        k += 1;
        assert(views(all@) =~= views(before).push(deps@[k - 1].alias@));
        assert(views(all@) =~= views(old(all)@) + aliases(deps@).subrange(0, k as int));
    }
    assert(aliases(deps@).subrange(0, deps@.len() as int) == aliases(deps@));
}

/// The position of the first string of `items` that occurred before it.
pub fn first_repeated(items: &Vec<String>) -> (r: Option<usize>)
    ensures
        match r {
            None => views(items@).no_duplicates(),
            Some(at) => at < items@.len() && views(items@).subrange(0, at as int).no_duplicates()
                && exists|i: int| 0 <= i < at && views(items@)[i] == views(items@)[at as int],
        },
{
    let mut k: usize = 0;
    while k < items.len()
        invariant
            k <= items@.len(),
            views(items@).subrange(0, k as int).no_duplicates(),
        decreases items@.len() - k,
    {
        let mut i: usize = 0;
        while i < k
            invariant
                i <= k < items@.len(),
                views(items@).subrange(0, k as int).no_duplicates(),
                forall|m: int| 0 <= m < i ==> views(items@)[m] != views(items@)[k as int],
            decreases k - i,
        {
            if items[i] == items[k] {
                assert(views(items@)[i as int] == views(items@)[k as int]);
                return Some(k);
            }
            i += 1;
        }
        proof {
            let next = views(items@).subrange(0, k + 1);
            let prev = views(items@).subrange(0, k as int);
            assert forall|a: int, b: int| 0 <= a < next.len() && 0 <= b < next.len() && a != b implies next[a] != next[b] by {
                if a < k && b < k {
                    assert(prev[a] != prev[b]);
                }
            }
        }
        k += 1;
    }
    assert(views(items@).subrange(0, items@.len() as int) == views(items@));
    None
}

/// The position of the first string of `items` equal to `s`.
pub fn position(items: &Vec<String>, s: &str) -> (r: Option<usize>)
    ensures
        match r {
            Some(at) => at < items@.len() && items@[at as int]@ == s@ && forall|k: int|
                0 <= k < at ==> (#[trigger] items@[k])@ != s@,
            None => forall|k: int| 0 <= k < items@.len() ==> (#[trigger] items@[k])@ != s@,
        },
{
    let mut i: usize = 0;
    while i < items.len()
        invariant
            i <= items@.len(),
            forall|k: int| 0 <= k < i ==> (#[trigger] items@[k])@ != s@,
        decreases items@.len() - i,
    {
        if str_eq(items[i].as_str(), s) {
            return Some(i);
        }
        i += 1;
    }
    None
}

} // verus!
