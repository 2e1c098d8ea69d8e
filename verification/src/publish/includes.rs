//! Which files and directories a published package ships.

use crate::text::{contains_text, str_eq, views};
use crate::MANIFEST_FILE_NAME;
use vstd::prelude::*;
use vstd::string::*;

verus! {

/// The lower-case form of `text`, as `str::to_lowercase` of std gives it.
pub uninterp spec fn str_lowercase(text: Seq<char>) -> Seq<char>;

/// `str::to_lowercase` of std: the lower-case equivalent of the text.
#[verifier::external_body]
fn lowercase(text: &str) -> (r: String)
    ensures
        r@ == str_lowercase(text@),
{
    text.to_lowercase()
}

/// Whether `name` is never shipped: the directory of the version control
/// system, the manifests of toolchain managers, the state files that a
/// desktop leaves behind, and the sync configuration that is generated
/// when the package is installed.
pub open spec fn is_blocked_spec(name: Seq<char>) -> bool {
    name == ".git"@ || name == "default.project.json"@ || name == "foreman.toml"@ || name
        == "aftman.toml"@ || name == "rokit.toml"@ || name == ".DS_Store"@
}

/// Whether `name`, once in lower case, is the name of a README file.
pub open spec fn is_readme_spec(name: Seq<char>) -> bool {
    let lower = str_lowercase(name);
    lower == "readme"@ || lower == "readme.md"@ || lower == "readme.txt"@
}

/// The set of names that is shipped when `includes` is asked for: the
/// manifest, and every name of `includes` that is not blocked.
pub open spec fn normalized_spec(includes: Set<Seq<char>>) -> Set<Seq<char>> {
    Set::new(
        |name: Seq<char>|
            name == MANIFEST_FILE_NAME@ || (includes.contains(name) && !is_blocked_spec(name)),
    )
}

/// The names of `includes` that are blocked.
pub open spec fn blocked_spec(includes: Set<Seq<char>>) -> Set<Seq<char>> {
    Set::new(|name: Seq<char>| includes.contains(name) && is_blocked_spec(name))
}

/// The names of `includes` that are shipped, each once, in the order in
/// which they are listed first.
pub open spec fn kept_spec(includes: Seq<Seq<char>>) -> Seq<Seq<char>>
    decreases includes.len(),
{
    if includes.len() == 0 {
        Seq::empty()
    } else {
        let before = kept_spec(includes.drop_last());
        if is_blocked_spec(includes.last()) || before.contains(includes.last()) {
            before
        } else {
            before.push(includes.last())
        }
    }
}

/// The names of `includes` that are blocked, each once, in the order in
/// which they are listed first.
pub open spec fn removed_spec(includes: Seq<Seq<char>>) -> Seq<Seq<char>>
    decreases includes.len(),
{
    if includes.len() == 0 {
        Seq::empty()
    } else {
        let before = removed_spec(includes.drop_last());
        if !is_blocked_spec(includes.last()) || before.contains(includes.last()) {
            before
        } else {
            before.push(includes.last())
        }
    }
}

/// What normalizing the `includes` of a manifest gave.
#[derive(Debug)]
pub struct NormalizedIncludes {
    /// The names to ship, each once. They keep the order in which they
    /// were listed; the manifest comes last if it was not listed.
    pub includes: Vec<String>,
    /// Whether the manifest was not listed and had to be added.
    pub manifest_added: bool,
    /// Whether there is no README among the names.
    pub readme_missing: bool,
    /// Whether there is no `docs` directory among the names.
    pub docs_missing: bool,
    /// The blocked names that were listed, each once.
    pub removed: Vec<String>,
}

/// Whether `name` is never shipped.
pub fn is_blocked(name: &str) -> (r: bool)
    ensures
        r == is_blocked_spec(name@),
{
    str_eq(name, ".git") || str_eq(name, "default.project.json") || str_eq(name, "foreman.toml")
        || str_eq(name, "aftman.toml") || str_eq(name, "rokit.toml") || str_eq(name, ".DS_Store")
}

/// Whether `lower`, a name in lower case, is the name of a README file.
pub fn is_readme_name(lower: &str) -> (r: bool)
    ensures
        r == (lower@ == "readme"@ || lower@ == "readme.md"@ || lower@ == "readme.txt"@),
{
    str_eq(lower, "readme") || str_eq(lower, "readme.md") || str_eq(lower, "readme.txt")
}

/// Whether `name` is the name of a README file.
pub fn is_readme(name: &str) -> (r: bool)
    ensures
        r == is_readme_spec(name@),
{
    let lower = lowercase(name);
    is_readme_name(lower.as_str())
}

/// A sequence with one more item holds what it held before, and the item.
pub proof fn push_contains(s: Seq<Seq<char>>, x: Seq<char>, n: Seq<char>)
    ensures
        s.push(x).contains(n) <==> (s.contains(n) || n == x),
{
    if s.contains(n) {
        let i = choose|i: int| 0 <= i < s.len() && s[i] == n;
        assert(s.push(x)[i] == n);
    }
    if n == x {
        assert(s.push(x)[s.len() as int] == n);
    }
}

/// Normalizes the `includes` of a manifest: the manifest is always
/// shipped, blocked names never are, and no name is shipped twice.
pub fn normalize_includes(includes: &Vec<String>) -> (r: NormalizedIncludes)
    ensures
        views(r.includes@) == if r.manifest_added {
            kept_spec(views(includes@)).push(MANIFEST_FILE_NAME@)
        } else {
            kept_spec(views(includes@))
        },
        views(r.removed@) == removed_spec(views(includes@)),
        views(r.includes@).to_set() == normalized_spec(views(includes@).to_set()),
        views(r.includes@).no_duplicates(),
        views(r.removed@).to_set() == blocked_spec(views(includes@).to_set()),
        views(r.removed@).no_duplicates(),
        r.manifest_added == !views(includes@).contains(MANIFEST_FILE_NAME@),
        r.readme_missing == !(exists|i: int|
            0 <= i < includes@.len() && is_readme_spec(#[trigger] views(includes@)[i])),
        r.docs_missing == !views(includes@).contains("docs"@),
{
    let ghost all = views(includes@);
    let mut kept: Vec<String> = Vec::new();
    let mut removed: Vec<String> = Vec::new();
    let mut readme_missing = true;
    let mut docs_missing = true;
    let mut manifest_added = true;
    let mut i: usize = 0;
    proof {
        assert(all.subrange(0, 0) == Seq::<Seq<char>>::empty());
    }
    while i < includes.len()
        invariant
            i <= includes@.len(),
            all == views(includes@),
            views(kept@) == kept_spec(all.subrange(0, i as int)),
            views(removed@) == removed_spec(all.subrange(0, i as int)),
            views(kept@).no_duplicates(),
            views(removed@).no_duplicates(),
            forall|n: Seq<char>| #[trigger]
                views(kept@).contains(n) <==> (all.subrange(0, i as int).contains(n)
                    && !is_blocked_spec(n)),
            forall|n: Seq<char>| #[trigger]
                views(removed@).contains(n) <==> (all.subrange(0, i as int).contains(n)
                    && is_blocked_spec(n)),
            readme_missing == !(exists|k: int| 0 <= k < i && is_readme_spec(#[trigger] all[k])),
            docs_missing == !all.subrange(0, i as int).contains("docs"@),
            manifest_added == !all.subrange(0, i as int).contains(MANIFEST_FILE_NAME@),
        decreases includes@.len() - i,
    {
        let name = &includes[i];
        let ghost seen = all.subrange(0, i as int);
        let ghost next = all.subrange(0, i + 1);
        let ghost old_kept = views(kept@);
        let ghost old_removed = views(removed@);
        proof {
            assert(next == seen.push(name@));
            assert(next.drop_last() == seen);
            assert(next.last() == name@);
            assert forall|n: Seq<char>| next.contains(n) <==> (seen.contains(n) || n == name@) by {
                push_contains(seen, name@, n);
            }
        }
        if is_readme(name.as_str()) {
            readme_missing = false;
        }
        if str_eq(name.as_str(), "docs") {
            docs_missing = false;
        }
        if str_eq(name.as_str(), MANIFEST_FILE_NAME) {
            manifest_added = false;
        }
        if is_blocked(name.as_str()) {
            if !contains_text(&removed, name.as_str()) {
                removed.push(name.clone());
                proof {
                    assert(views(removed@) == old_removed.push(name@));
                    assert forall|n: Seq<char>| #[trigger]
                        views(removed@).contains(n) <==> (old_removed.contains(n) || n
                            == name@) by {
                        push_contains(old_removed, name@, n);
                    }
                }
            }
        } else {
            if !contains_text(&kept, name.as_str()) {
                kept.push(name.clone());
                proof {
                    assert(views(kept@) == old_kept.push(name@));
                    assert forall|n: Seq<char>| #[trigger]
                        views(kept@).contains(n) <==> (old_kept.contains(n) || n == name@) by {
                        push_contains(old_kept, name@, n);
                    }
                }
            }
        }
        i += 1;
    }
    proof {
        assert(all.subrange(0, all.len() as int) == all);
    }
    if manifest_added {
        let ghost old_kept = views(kept@);
        proof {
            assert(!old_kept.contains(MANIFEST_FILE_NAME@));
            assert(forall|k: int| 0 <= k < old_kept.len() ==> old_kept[k] != MANIFEST_FILE_NAME@);
        }
        kept.push(String::from_str(MANIFEST_FILE_NAME));
        proof {
            assert(views(kept@) == old_kept.push(MANIFEST_FILE_NAME@));
            assert forall|n: Seq<char>| #[trigger]
                views(kept@).contains(n) <==> (old_kept.contains(n) || n
                    == MANIFEST_FILE_NAME@) by {
                push_contains(old_kept, MANIFEST_FILE_NAME@, n);
            }
        }
    } else {
        proof {
            manifest_is_not_blocked();
        }
    }
    proof {
        assert(views(kept@).to_set() =~= normalized_spec(all.to_set()));
        assert(views(removed@).to_set() =~= blocked_spec(all.to_set()));
    }
    NormalizedIncludes { includes: kept, manifest_added, readme_missing, docs_missing, removed }
}

/// The manifest is not among the blocked names.
pub proof fn manifest_is_not_blocked()
    ensures
        !is_blocked_spec(MANIFEST_FILE_NAME@),
{
    reveal_strlit("pesde.toml");
    reveal_strlit(".git");
    reveal_strlit("default.project.json");
    reveal_strlit("foreman.toml");
    reveal_strlit("aftman.toml");
    reveal_strlit("rokit.toml");
    reveal_strlit(".DS_Store");
    let m = MANIFEST_FILE_NAME@;
    assert(m.len() == 10);
    assert(m[0] == 'p');
}

/// Normalizing a set of names that is normalized already changes nothing.
pub proof fn normalization_is_idempotent(includes: Set<Seq<char>>)
    ensures
        normalized_spec(normalized_spec(includes)) == normalized_spec(includes),
{
    manifest_is_not_blocked();
    assert(normalized_spec(normalized_spec(includes)) =~= normalized_spec(includes));
}

} // verus!
