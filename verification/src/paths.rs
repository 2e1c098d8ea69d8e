//! Relative paths written with `/`, taken apart into their components.

use crate::text::{chars_of, str_eq, string_of, views};
use vstd::prelude::*;
use vstd::string::*;

verus! {

/// The position of the first `c` in `s`, or the length of `s` if it holds
/// none.
pub open spec fn find_char(s: Seq<char>, c: char) -> nat
    decreases s.len(),
{
    if s.len() == 0 {
        0
    } else if s[0] == c {
        0
    } else {
        1 + find_char(s.skip(1), c)
    }
}

/// The pieces of a name: what stands between its `/`, without the empty
/// pieces.
pub open spec fn pieces_spec(path: Seq<char>) -> Seq<Seq<char>>
    decreases path.len(),
{
    let at = find_char(path, '/');
    let head = path.subrange(0, at as int);
    let rest = if at >= path.len() {
        Seq::empty()
    } else {
        pieces_spec(path.skip(at + 1 as int))
    };
    if head.len() == 0 {
        rest
    } else {
        seq![head] + rest
    }
}

/// The first `c` of `prefix + rest` stands where the first `c` of `rest`
/// stands, if `prefix` holds none.
pub proof fn find_char_skips_prefix(prefix: Seq<char>, rest: Seq<char>, c: char)
    requires
        forall|i: int| 0 <= i < prefix.len() ==> prefix[i] != c,
    ensures
        find_char(prefix + rest, c) == prefix.len() + find_char(rest, c),
    decreases prefix.len(),
{
    if prefix.len() == 0 {
        assert(prefix + rest == rest);
    } else {
        let whole = prefix + rest;
        assert(whole[0] == prefix[0]);
        assert(whole.skip(1) == prefix.skip(1) + rest);
        find_char_skips_prefix(prefix.skip(1), rest, c);
    }
}

/// The pieces of `path`.
pub fn pieces(path: &str) -> (r: Vec<String>)
    ensures
        views(r@) == pieces_spec(path@),
{
    let text = chars_of(path);
    let mut out: Vec<String> = Vec::new();
    let mut cur: Vec<char> = Vec::new();
    let mut i: usize = 0;
    proof {
        assert(text@.skip(0) == text@);
        assert(cur@ + text@ == text@);
        assert(views(out@) + pieces_spec(text@) == pieces_spec(text@));
    }
    while i < text.len()
        invariant
            i <= text@.len(),
            text@ == path@,
            forall|k: int| 0 <= k < cur@.len() ==> cur@[k] != '/',
            views(out@) + pieces_spec(cur@ + text@.skip(i as int)) == pieces_spec(text@),
        decreases text@.len() - i,
    {
        let ghost rest = text@.skip(i as int);
        let ghost whole = cur@ + rest;
        let c = text[i];
        if c == '/' {
            proof {
                find_char_skips_prefix(cur@, rest, '/');
                assert(find_char(rest, '/') == 0);
                assert(whole.subrange(0, cur@.len() as int) == cur@);
                assert(whole.skip(cur@.len() + 1 as int) == text@.skip(i + 1));
                assert(Seq::<char>::empty() + text@.skip(i + 1) == text@.skip(i + 1));
            }
            if cur.len() > 0 {
                let ghost before = out@;
                out.push(string_of(&cur));
                proof {
                    assert(views(out@) == views(before).push(cur@));
                    assert(views(out@) + pieces_spec(text@.skip(i + 1)) == views(before) + (
                    seq![cur@] + pieces_spec(text@.skip(i + 1))));
                }
                cur = Vec::new();
            }
        } else {
            proof {
                assert(cur@.push(c) + text@.skip(i + 1) == whole);
            }
            cur.push(c);
        }
        i += 1;
    }
    proof {
        let rest = text@.skip(i as int);
        assert(rest == Seq::<char>::empty());
        assert(cur@ + rest == cur@);
        find_char_skips_prefix(cur@, rest, '/');
        assert(cur@.subrange(0, cur@.len() as int) == cur@);
    }
    if cur.len() > 0 {
        let ghost before = out@;
        out.push(string_of(&cur));
        proof {
            assert(views(out@) == views(before).push(cur@));
            assert(views(out@) == views(before) + (seq![cur@] + Seq::<Seq<char>>::empty()));
        }
    } else {
        proof {
            assert(views(out@) + Seq::<Seq<char>>::empty() == views(out@));
        }
    }
    out
}

/// The components of a relative path: the pieces between its slashes,
/// each as it is written, `.` and `..` among them.
pub open spec fn components_spec(path: Seq<char>) -> Seq<Seq<char>> {
    pieces_spec(path)
}

/// The position of the last `.` of a file name, or -1 where it has none.
pub open spec fn last_dot_spec(name: Seq<char>) -> int
    decreases name.len(),
{
    if name.len() == 0 {
        -1
    } else if name.last() == '.' {
        name.len() - 1
    } else {
        last_dot_spec(name.drop_last())
    }
}

/// The extension of a relative path: what follows the last `.` of its
/// file name, which is its last component that is not `.`. A path that
/// ends in `..` has no file name; a file name without a `.`, or with its
/// only `.` at the front, has no extension.
pub open spec fn extension_spec(path: Seq<char>) -> Option<Seq<char>> {
    let parts = without_cur_dir(pieces_spec(path));
    if parts.len() == 0 || parts.last() == ".."@ {
        None
    } else {
        let name = parts.last();
        if last_dot_spec(name) <= 0 {
            None
        } else {
            Some(name.skip(last_dot_spec(name) + 1))
        }
    }
}

/// The components of the relative path `path`.
pub fn components(path: &str) -> (r: Vec<String>)
    ensures
        views(r@) == components_spec(path@),
{
    pieces(path)
}

/// The pieces `parts` without those that are `.`.
pub fn drop_cur_dir(parts: &Vec<String>) -> (r: Vec<String>)
    ensures
        views(r@) == without_cur_dir(views(parts@)),
{
    let mut out: Vec<String> = Vec::new();
    let ghost all = views(parts@);
    let mut i: usize = 0;
    proof {
        reveal(Seq::filter);
        assert(all.subrange(0, 0) == Seq::<Seq<char>>::empty());
        assert(views(out@) == without_cur_dir(all.subrange(0, 0)));
    }
    while i < parts.len()
        invariant
            i <= parts@.len(),
            all == views(parts@),
            views(out@) == without_cur_dir(all.subrange(0, i as int)),
        decreases parts@.len() - i,
    {
        let ghost seen = all.subrange(0, i as int);
        let ghost before = views(out@);
        proof {
            broadcast use Seq::lemma_filter_push;

            assert(all.subrange(0, i + 1) == seen.push(all[i as int]));
            assert(without_cur_dir(seen.push(all[i as int])) == if all[i as int] != "."@ {
                without_cur_dir(seen).push(all[i as int])
            } else {
                without_cur_dir(seen)
            });
        }
        if !str_eq(parts[i].as_str(), ".") {
            out.push(parts[i].clone());
            proof {
                assert(views(out@) == before.push(all[i as int]));
            }
        }
        i += 1;
    }
    proof {
        assert(all.subrange(0, all.len() as int) == all);
    }
    out
}

/// The extension of the relative path `path`.
pub fn extension(path: &str) -> (r: Option<String>)
    ensures
        crate::source::specifiers::opt_view(r) == extension_spec(path@),
{
    let parts = pieces(path);
    let kept = drop_cur_dir(&parts);
    if kept.len() == 0 {
        return None;
    }
    let name = &kept[kept.len() - 1];
    proof {
        assert(views(kept@).last() == name@);
    }
    if str_eq(name.as_str(), "..") {
        return None;
    }
    let chars = chars_of(name.as_str());
    let mut i: usize = chars.len();
    proof {
        assert(chars@.subrange(0, i as int) == chars@);
    }
    while i > 0 && chars[i - 1] != '.'
        invariant
            i <= chars@.len(),
            last_dot_spec(chars@) == last_dot_spec(chars@.subrange(0, i as int)),
        decreases i,
    {
        proof {
            assert(chars@.subrange(0, i as int).drop_last() == chars@.subrange(0, i - 1));
        }
        i -= 1;
    }
    if i <= 1 {
        return None;
    }
    let ghost dot = i - 1;
    let mut tail: Vec<char> = Vec::new();
    let mut k: usize = i;
    while k < chars.len()
        invariant
            i <= k <= chars@.len(),
            tail@ == chars@.subrange(i as int, k as int),
        decreases chars@.len() - k,
    {
        tail.push(chars[k]);
        k += 1;
    }
    proof {
        assert(last_dot_spec(chars@) == dot);
        assert(tail@ =~= chars@.skip(i as int));
    }
    Some(string_of(&tail))
}

/// Why an entry path of a package cannot be shipped.
#[derive(Debug, Clone, Copy, PartialEq, Eq, Structural)]
pub enum RootError {
    /// The path has no component besides `.`.
    NoParts,
    /// The path leaves the package through `..`.
    OutsidePackage,
}

/// The components of a path without those that are `.`.
pub open spec fn without_cur_dir(parts: Seq<Seq<char>>) -> Seq<Seq<char>> {
    parts.filter(|p: Seq<char>| p != "."@)
}

/// The top-level file or directory that a path of the components `all`
/// lies under: its first component that is not `.`, which must not be
/// `..`.
pub open spec fn root_of_parts_spec(all: Seq<Seq<char>>) -> Result<Seq<char>, RootError> {
    let parts = without_cur_dir(all);
    if parts.len() == 0 {
        Err(RootError::NoParts)
    } else if parts[0] == ".."@ {
        Err(RootError::OutsidePackage)
    } else {
        Ok(parts[0])
    }
}

/// The top-level file or directory that `path` lies under.
pub open spec fn root_spec(path: Seq<char>) -> Result<Seq<char>, RootError> {
    root_of_parts_spec(components_spec(path))
}

/// The top-level file or directory of the package that `path` lies under.
pub fn root_of(path: &str) -> (r: Result<String, RootError>)
    ensures
        match r {
            Ok(root) => root_spec(path@) == Ok::<Seq<char>, RootError>(root@),
            Err(e) => root_spec(path@) == Err::<Seq<char>, RootError>(e),
        },
{
    let parts = components(path);
    root_of_parts(&parts)
}

/// The top-level file or directory that a path of the components `parts`
/// lies under.
pub fn root_of_parts(parts: &Vec<String>) -> (r: Result<String, RootError>)
    ensures
        match r {
            Ok(root) => root_of_parts_spec(views(parts@)) == Ok::<Seq<char>, RootError>(root@),
            Err(e) => root_of_parts_spec(views(parts@)) == Err::<Seq<char>, RootError>(e),
        },
{
    let ghost all = views(parts@);
    let mut i: usize = 0;
    proof {
        assert(without_cur_dir(all.subrange(0, 0)).len() == 0) by {
            reveal(Seq::filter);
        }
    }
    while i < parts.len()
        invariant
            i <= parts@.len(),
            all == views(parts@),
            without_cur_dir(all.subrange(0, i as int)).len() == 0,
        decreases parts@.len() - i,
    {
        let ghost seen = all.subrange(0, i as int);
        let ghost tail = all.subrange(i + 1, all.len() as int);
        let ghost here = all[i as int];
        proof {
            broadcast use Seq::filter_distributes_over_add, Seq::lemma_filter_prepend;

            assert(all == seen + (seq![here] + tail));
            assert(without_cur_dir(seen + (seq![here] + tail)) == without_cur_dir(seen)
                + without_cur_dir(seq![here] + tail));
            assert(all.subrange(0, i + 1) == seen + seq![here]);
            assert(without_cur_dir(seen + seq![here]) == without_cur_dir(seen) + without_cur_dir(
                seq![here],
            ));
            assert(seq![here] + Seq::<Seq<char>>::empty() == seq![here]);
            assert(without_cur_dir(Seq::<Seq<char>>::empty()).len() == 0) by {
                reveal(Seq::filter);
            }
            assert(without_cur_dir(seq![here] + Seq::<Seq<char>>::empty()) == (if here != "."@ {
                seq![here]
            } else {
                Seq::empty()
            }) + without_cur_dir(Seq::<Seq<char>>::empty()));
        }
        if !crate::text::str_eq(parts[i].as_str(), ".") {
            proof {
                assert(without_cur_dir(all)[0] == here);
            }
            if crate::text::str_eq(parts[i].as_str(), "..") {
                return Err(RootError::OutsidePackage);
            }
            return Ok(parts[i].clone());
        }
        i += 1;
    }
    proof {
        assert(all.subrange(0, all.len() as int) == all);
    }
    Err(RootError::NoParts)
}

/// Whether a component names a file or directory: it is neither `.` nor
/// `..`.
pub open spec fn is_plain(part: Seq<char>) -> bool {
    part != "."@ && part != ".."@
}

/// Whether every component of a path names a file or directory.
pub open spec fn all_plain(parts: Seq<Seq<char>>) -> bool {
    forall|i: int| 0 <= i < parts.len() ==> is_plain(#[trigger] parts[i])
}

/// The path that `parts` leads to: `.` stays where it is, and `..` leaves
/// the directory that was entered last. A `..` that has nothing to leave
/// is kept.
pub open spec fn normalize_spec(parts: Seq<Seq<char>>) -> Seq<Seq<char>>
    decreases parts.len(),
{
    if parts.len() == 0 {
        Seq::empty()
    } else {
        let before = normalize_spec(parts.drop_last());
        let part = parts.last();
        if part == "."@ {
            before
        } else if part == ".."@ && before.len() > 0 && before.last() != ".."@ {
            before.drop_last()
        } else {
            before.push(part)
        }
    }
}

/// The number of components that two paths share at their start.
pub open spec fn common_prefix(from: Seq<Seq<char>>, to: Seq<Seq<char>>) -> nat
    decreases from.len(),
{
    if from.len() == 0 || to.len() == 0 || from[0] != to[0] {
        0
    } else {
        1 + common_prefix(from.skip(1), to.skip(1))
    }
}

/// A path of `count` components that are all `..`.
pub open spec fn parents(count: nat) -> Seq<Seq<char>> {
    Seq::new(count, |i: int| ".."@)
}

/// The relative path that leads from the directory `from` to `to`: out of
/// what `from` does not share with `to`, then into the rest of `to`.
pub open spec fn diff_spec(from: Seq<Seq<char>>, to: Seq<Seq<char>>) -> Seq<Seq<char>> {
    let shared = common_prefix(from, to);
    parents((from.len() - shared) as nat) + to.skip(shared as int)
}

/// Two paths share no more components than either has, and share those
/// that they share.
pub proof fn common_prefix_is_shared(from: Seq<Seq<char>>, to: Seq<Seq<char>>)
    ensures
        common_prefix(from, to) <= from.len(),
        common_prefix(from, to) <= to.len(),
        from.subrange(0, common_prefix(from, to) as int) == to.subrange(
            0,
            common_prefix(from, to) as int,
        ),
    decreases from.len(),
{
    if from.len() == 0 || to.len() == 0 || from[0] != to[0] {
        assert(from.subrange(0, 0) == to.subrange(0, 0));
    } else {
        common_prefix_is_shared(from.skip(1), to.skip(1));
        let n = common_prefix(from.skip(1), to.skip(1)) as int;
        assert(from.subrange(0, n + 1) =~= seq![from[0]] + from.skip(1).subrange(0, n));
        assert(to.subrange(0, n + 1) =~= seq![to[0]] + to.skip(1).subrange(0, n));
    }
}

/// A path of plain components leads to itself.
pub proof fn plain_path_is_normal(parts: Seq<Seq<char>>)
    requires
        all_plain(parts),
    ensures
        normalize_spec(parts) == parts,
    decreases parts.len(),
{
    if parts.len() > 0 {
        plain_path_is_normal(parts.drop_last());
        assert(is_plain(parts.last()));
        assert(parts.drop_last().push(parts.last()) == parts);
    }
}

/// Going on along plain components from wherever a path leads adds them.
pub proof fn normalize_then_plain(start: Seq<Seq<char>>, more: Seq<Seq<char>>)
    requires
        all_plain(more),
    ensures
        normalize_spec(start + more) == normalize_spec(start) + more,
    decreases more.len(),
{
    if more.len() == 0 {
        assert(start + more == start);
        assert(normalize_spec(start) + more == normalize_spec(start));
    } else {
        let shorter = more.drop_last();
        normalize_then_plain(start, shorter);
        assert((start + more).drop_last() == start + shorter);
        assert((start + more).last() == more.last());
        assert(is_plain(more.last()));
        assert((normalize_spec(start) + shorter).push(more.last()) == normalize_spec(start) + more);
    }
}

/// Where a path leads on depends on where it has led so far and on
/// nothing else: two paths that lead to one place, each followed by the
/// same components, lead to one place.
pub proof fn normalize_goes_on(a: Seq<Seq<char>>, b: Seq<Seq<char>>, more: Seq<Seq<char>>)
    requires
        normalize_spec(a) == normalize_spec(b),
    ensures
        normalize_spec(a + more) == normalize_spec(b + more),
    decreases more.len(),
{
    if more.len() == 0 {
        assert(a + more == a);
        assert(b + more == b);
    } else {
        let shorter = more.drop_last();
        normalize_goes_on(a, b, shorter);
        assert((a + more).drop_last() == a + shorter);
        assert((b + more).drop_last() == b + shorter);
        assert((a + more).last() == more.last());
        assert((b + more).last() == more.last());
    }
}

/// Leaving as many directories as a plain path has beyond its first
/// `keep` components leads to those first components.
pub proof fn parents_leave(start: Seq<Seq<char>>, keep: int, count: nat)
    requires
        all_plain(start),
        0 <= keep,
        keep + count == start.len(),
    ensures
        normalize_spec(start + parents(count)) == start.subrange(0, keep),
    decreases count,
{
    reveal_strlit(".");
    reveal_strlit("..");
    if count == 0 {
        assert(start + parents(0) == start);
        assert(start.subrange(0, keep) == start);
        plain_path_is_normal(start);
    } else {
        let fewer = (count - 1) as nat;
        let shorter = start + parents(fewer);
        assert((start + parents(count)).drop_last() == shorter);
        assert((start + parents(count)).last() == ".."@);
        parents_leave(start, keep + 1, fewer);
        let before = normalize_spec(shorter);
        assert(before == start.subrange(0, keep + 1));
        assert(is_plain(start[keep]));
        assert(before.last() == start[keep]);
        assert(before.drop_last() == start.subrange(0, keep));
        assert(".."@ != "."@) by {
            assert(".."@.len() == 2);
            assert("."@.len() == 1);
        }
    }
}

/// The relative path from a directory to a path leads there: following it
/// from `from` ends at `to`.
pub proof fn diff_resolves(from: Seq<Seq<char>>, to: Seq<Seq<char>>)
    requires
        all_plain(from),
        all_plain(to),
    ensures
        normalize_spec(from + diff_spec(from, to)) == to,
{
    common_prefix_is_shared(from, to);
    let shared = common_prefix(from, to);
    let up = parents((from.len() - shared) as nat);
    let down = to.skip(shared as int);
    assert(from + (up + down) == (from + up) + down);
    assert(all_plain(down)) by {
        assert forall|i: int| 0 <= i < down.len() implies is_plain(#[trigger] down[i]) by {
            assert(down[i] == to[shared + i]);
        }
    }
    normalize_then_plain(from + up, down);
    parents_leave(from, shared as int, (from.len() - shared) as nat);
    assert(to.subrange(0, shared as int) + down == to);
}

/// The relative path that leads from the directory `from` to `to`.
pub fn diff_paths(from: &Vec<String>, to: &Vec<String>) -> (r: Vec<String>)
    ensures
        views(r@) == diff_spec(views(from@), views(to@)),
{
    let ghost f = views(from@);
    let ghost t = views(to@);
    let mut shared: usize = 0;
    proof {
        assert(f.skip(0) == f);
        assert(t.skip(0) == t);
    }
    while shared < from.len() && shared < to.len() && str_eq(
        from[shared].as_str(),
        to[shared].as_str(),
    )
        invariant
            shared <= from@.len(),
            shared <= to@.len(),
            f == views(from@),
            t == views(to@),
            common_prefix(f, t) == shared + common_prefix(f.skip(shared as int), t.skip(shared as int)),
        decreases from@.len() - shared,
    {
        proof {
            assert(f.skip(shared as int)[0] == f[shared as int]);
            assert(t.skip(shared as int)[0] == t[shared as int]);
            assert(f.skip(shared as int).skip(1) == f.skip(shared + 1));
            assert(t.skip(shared as int).skip(1) == t.skip(shared + 1));
        }
        shared += 1;
    }
    proof {
        if shared < from@.len() && shared < to@.len() {
            assert(f.skip(shared as int)[0] == f[shared as int]);
            assert(t.skip(shared as int)[0] == t[shared as int]);
        }
        assert(common_prefix(f, t) == shared);
    }
    let mut out: Vec<String> = Vec::new();
    let mut i: usize = shared;
    while i < from.len()
        invariant
            shared <= i <= from@.len(),
            views(out@) == parents((i - shared) as nat),
        decreases from@.len() - i,
    {
        let ghost before = views(out@);
        out.push(String::from_str(".."));
        proof {
            assert(views(out@) == before.push(".."@));
            assert(views(out@) == parents((i + 1 - shared) as nat));
        }
        i += 1;
    }
    let mut k: usize = shared;
    while k < to.len()
        invariant
            shared <= k <= to@.len(),
            t == views(to@),
            views(out@) == parents((from@.len() - shared) as nat) + t.subrange(
                shared as int,
                k as int,
            ),
        decreases to@.len() - k,
    {
        let ghost before = views(out@);
        out.push(to[k].clone());
        proof {
            assert(views(out@) == before.push(t[k as int]));
        }
        k += 1;
    }
    proof {
        assert(t.subrange(shared as int, t.len() as int) == t.skip(shared as int));
    }
    out
}

} // verus!
