//! Text helpers shared by the rest of the crate, all stated over `Seq<char>`.

use vstd::prelude::*;
use vstd::string::*;

verus! {

/// The views of a sequence of strings.
pub open spec fn views(items: Seq<String>) -> Seq<Seq<char>> {
    items.map_values(|s: String| s@)
}

/// `parts` joined with `sep` between neighbours.
pub open spec fn join_spec(parts: Seq<Seq<char>>, sep: Seq<char>) -> Seq<char>
    decreases parts.len(),
{
    if parts.len() == 0 {
        Seq::empty()
    } else if parts.len() == 1 {
        parts[0]
    } else {
        join_spec(parts.drop_last(), sep) + sep + parts.last()
    }
}

/// `hay` with every occurrence of `needle` replaced by `with`, found from the
/// left and never overlapping. An empty `needle` occurs nowhere.
pub open spec fn replace_spec(hay: Seq<char>, needle: Seq<char>, with: Seq<char>) -> Seq<char>
    decreases hay.len(),
{
    if needle.len() == 0 || hay.len() < needle.len() {
        hay
    } else if hay.subrange(0, needle.len() as int) == needle {
        with + replace_spec(hay.skip(needle.len() as int), needle, with)
    } else {
        seq![hay[0]] + replace_spec(hay.skip(1), needle, with)
    }
}

/// The decimal digit for `d`, where `d < 10`.
pub open spec fn digit_char(d: int) -> char {
    if d == 0 {
        '0'
    } else if d == 1 {
        '1'
    } else if d == 2 {
        '2'
    } else if d == 3 {
        '3'
    } else if d == 4 {
        '4'
    } else if d == 5 {
        '5'
    } else if d == 6 {
        '6'
    } else if d == 7 {
        '7'
    } else if d == 8 {
        '8'
    } else {
        '9'
    }
}

/// The decimal numeral of `n`, without leading zeros.
pub open spec fn decimal_spec(n: nat) -> Seq<char>
    decreases n,
{
    if n < 10 {
        seq![digit_char(n as int)]
    } else {
        decimal_spec(n / 10).push(digit_char((n % 10) as int))
    }
}

/// The lower-case form of an ASCII upper-case letter; any other character
/// is returned as it is.
pub open spec fn ascii_lower(c: char) -> char {
    if 'A' <= c && c <= 'Z' {
        ((c as u8) + 32) as char
    } else {
        c
    }
}

/// `s` with every ASCII upper-case letter turned into lower case.
pub open spec fn ascii_lower_text(s: Seq<char>) -> Seq<char> {
    s.map_values(|c: char| ascii_lower(c))
}

/// Whether two texts are equal once ASCII letters are compared without case.
pub open spec fn eq_ignore_ascii_case_spec(a: Seq<char>, b: Seq<char>) -> bool {
    ascii_lower_text(a) == ascii_lower_text(b)
}

/// `s` without the run of `c` at its end.
pub open spec fn trim_end_spec(s: Seq<char>, c: char) -> Seq<char>
    decreases s.len(),
{
    if s.len() > 0 && s.last() == c {
        trim_end_spec(s.drop_last(), c)
    } else {
        s
    }
}

/// `String::push`: appends one character to the end of the string.
#[verifier::external_body]
fn push_char(s: &mut String, c: char)
    ensures
        final(s)@ == old(s)@.push(c),
{
    s.push(c)
}

/// `core::str::from_utf8`: the text that the bytes encode, if they are
/// valid UTF-8.
#[verifier::external_body]
pub(crate) fn str_of_bytes(bytes: &[u8]) -> (r: Option<&str>)
    ensures
        r is Some <==> vstd::utf8::valid_utf8(bytes@),
        r matches Some(text) ==> text@ == vstd::utf8::decode_utf8(bytes@),
{
    core::str::from_utf8(bytes).ok()
}

/// The characters of `s`, in order.
pub fn chars_of(s: &str) -> (v: Vec<char>)
    ensures
        v@ == s@,
{
    let n = s.unicode_len();
    let mut v: Vec<char> = Vec::new();
    let mut i: usize = 0;
    while i < n
        invariant
            n == s@.len(),
            i <= n,
            v@ == s@.subrange(0, i as int),
        decreases n - i,
    {
        v.push(s.get_char(i));
        i += 1;
    }
    v
}

/// The string made of the characters of `v`, in order.
pub fn string_of(v: &Vec<char>) -> (s: String)
    ensures
        s@ == v@,
{
    let mut s = String::new();
    let mut i: usize = 0;
    while i < v.len()
        invariant
            i <= v.len(),
            s@ == v@.subrange(0, i as int),
        decreases v.len() - i,
    {
        push_char(&mut s, v[i]);
        i += 1;
    }
    s
}

/// `a` followed by `b`.
pub fn concat(a: &str, b: &str) -> (r: String)
    ensures
        r@ == a@ + b@,
{
    let mut r = String::from_str(a);
    r.append(b);
    r
}

/// `a`, `b` and `c` one after the other.
pub fn concat3(a: &str, b: &str, c: &str) -> (r: String)
    ensures
        r@ == a@ + b@ + c@,
{
    let mut r = String::from_str(a);
    r.append(b);
    r.append(c);
    r
}

/// Joins `parts` with `sep` between neighbours.
pub fn join(parts: &Vec<String>, sep: &str) -> (r: String)
    ensures
        r@ == join_spec(views(parts@), sep@),
{
    let mut r = String::new();
    let mut i: usize = 0;
    while i < parts.len()
        invariant
            i <= parts.len(),
            r@ == join_spec(views(parts@).subrange(0, i as int), sep@),
        decreases parts.len() - i,
    {
        proof {
            let ghost_parts = views(parts@);
            let next = ghost_parts.subrange(0, i as int + 1);
            assert(next.drop_last() == ghost_parts.subrange(0, i as int));
            assert(next.last() == parts@[i as int]@);
            if i == 0 {
                assert(join_spec(ghost_parts.subrange(0, 0), sep@) == Seq::<char>::empty());
                assert(Seq::<char>::empty() + parts@[0]@ == parts@[0]@);
            }
        }
        if i > 0 {
            r.append(sep);
        }
        r.append(parts[i].as_str());
        i += 1;
    }
    proof {
        assert(views(parts@).subrange(0, parts@.len() as int) == views(parts@));
    }
    r
}

/// Whether `needle` stands in `hay` at position `at`.
pub fn occurs_at(hay: &Vec<char>, at: usize, needle: &Vec<char>) -> (b: bool)
    requires
        at + needle@.len() <= hay@.len(),
    ensures
        b == (hay@.subrange(at as int, at + needle@.len()) == needle@),
{
    let total = hay.len();
    let mut j: usize = 0;
    while j < needle.len()
        invariant
            j <= needle@.len(),
            at + needle@.len() <= hay@.len(),
            total == hay@.len(),
            hay@.subrange(at as int, at + j) == needle@.subrange(0, j as int),
        decreases needle@.len() - j,
    {
        if hay[at + j] != needle[j] {
            proof {
                let window = hay@.subrange(at as int, at + needle@.len());
                assert(window[j as int] != needle@[j as int]);
            }
            return false;
        }
        proof {
            assert(hay@.subrange(at as int, at + j + 1) == hay@.subrange(at as int, at + j).push(
                hay@[at + j],
            ));
            assert(needle@.subrange(0, j + 1) == needle@.subrange(0, j as int).push(
                needle@[j as int],
            ));
        }
        j += 1;
    }
    proof {
        assert(needle@.subrange(0, needle@.len() as int) == needle@);
    }
    true
}

/// Replaces every occurrence of `needle` in `hay` by `with`.
pub fn replace(hay: &str, needle: &str, with: &str) -> (r: String)
    ensures
        r@ == replace_spec(hay@, needle@, with@),
{
    let h = chars_of(hay);
    let n = chars_of(needle);
    let w = chars_of(with);
    if n.len() == 0 {
        return String::from_str(hay);
    }
    let mut out: Vec<char> = Vec::new();
    let mut i: usize = 0;
    proof {
        assert(h@.skip(0) == h@);
        assert(out@ + replace_spec(h@, n@, w@) == replace_spec(h@, n@, w@));
    }
    while i < h.len()
        invariant
            i <= h@.len(),
            n@.len() > 0,
            out@ + replace_spec(h@.skip(i as int), n@, w@) == replace_spec(h@, n@, w@),
        decreases h@.len() - i,
    {
        let ghost rest = h@.skip(i as int);
        if h.len() - i >= n.len() && occurs_at(&h, i, &n) {
            proof {
                assert(rest.subrange(0, n@.len() as int) == h@.subrange(i as int, i + n@.len()));
                assert(rest.skip(n@.len() as int) == h@.skip(i + n@.len()));
                assert(out@ + w@ + replace_spec(h@.skip(i + n@.len()), n@, w@) == out@ + (w@
                    + replace_spec(h@.skip(i + n@.len()), n@, w@)));
            }
            let mut k: usize = 0;
            let ghost before = out@;
            while k < w.len()
                invariant
                    k <= w@.len(),
                    out@ == before + w@.subrange(0, k as int),
                decreases w@.len() - k,
            {
                out.push(w[k]);
                k += 1;
            }
            proof {
                assert(w@.subrange(0, w@.len() as int) == w@);
            }
            i += n.len();
        } else {
            proof {
                if rest.len() >= n@.len() {
                    assert(rest.subrange(0, n@.len() as int) == h@.subrange(
                        i as int,
                        i + n@.len(),
                    ));
                    assert(rest.skip(1) == h@.skip(i + 1));
                    assert(out@.push(h@[i as int]) + replace_spec(h@.skip(i + 1), n@, w@) == out@
                        + (seq![rest[0]] + replace_spec(rest.skip(1), n@, w@)));
                }
            }
            if h.len() - i < n.len() {
                // fewer characters are left than the needle has: copy them all
                let ghost before = out@;
                let start = i;
                while i < h.len()
                    invariant
                        start <= i <= h@.len(),
                        out@ == before + h@.subrange(start as int, i as int),
                    decreases h@.len() - i,
                {
                    out.push(h[i]);
                    i += 1;
                }
                proof {
                    assert(h@.subrange(start as int, h@.len() as int) == rest);
                    assert(h@.skip(h@.len() as int) == Seq::<char>::empty());
                    assert(out@ + Seq::<char>::empty() == out@);
                }
            } else {
                out.push(h[i]);
                i += 1;
            }
        }
    }
    proof {
        assert(h@.skip(h@.len() as int) == Seq::<char>::empty());
        assert(out@ + Seq::<char>::empty() == out@);
    }
    string_of(&out)
}

/// The decimal numeral of `n`.
pub fn decimal(n: u64) -> (r: Vec<char>)
    ensures
        r@ == decimal_spec(n as nat),
    decreases n,
{
    let d: u64 = n % 10;
    let c: char = if d == 0 {
        '0'
    } else if d == 1 {
        '1'
    } else if d == 2 {
        '2'
    } else if d == 3 {
        '3'
    } else if d == 4 {
        '4'
    } else if d == 5 {
        '5'
    } else if d == 6 {
        '6'
    } else if d == 7 {
        '7'
    } else if d == 8 {
        '8'
    } else {
        '9'
    };
    if n < 10 {
        let mut r: Vec<char> = Vec::new();
        r.push(c);
        r
    } else {
        let mut r = decimal(n / 10);
        r.push(c);
        r
    }
}

/// The lower-case form of an ASCII upper-case letter, and any other
/// character unchanged.
pub fn lower_char(c: char) -> (r: char)
    ensures
        r == ascii_lower(c),
{
    if 'A' <= c && c <= 'Z' {
        ((c as u8) + 32) as char
    } else {
        c
    }
}

/// Compares two texts without regard to the case of ASCII letters.
pub fn eq_ignore_ascii_case(a: &str, b: &str) -> (r: bool)
    ensures
        r == eq_ignore_ascii_case_spec(a@, b@),
{
    let x = chars_of(a);
    let y = chars_of(b);
    let ghost lx = ascii_lower_text(x@);
    let ghost ly = ascii_lower_text(y@);
    if x.len() != y.len() {
        proof {
            assert(lx.len() != ly.len());
        }
        return false;
    }
    let mut i: usize = 0;
    while i < x.len()
        invariant
            i <= x@.len(),
            x@.len() == y@.len(),
            x@ == a@,
            y@ == b@,
            lx == ascii_lower_text(x@),
            ly == ascii_lower_text(y@),
            forall|k: int| 0 <= k < i ==> lx[k] == ly[k],
        decreases x@.len() - i,
    {
        if lower_char(x[i]) != lower_char(y[i]) {
            proof {
                assert(lx[i as int] != ly[i as int]);
            }
            return false;
        }
        i += 1;
    }
    proof {
        assert(lx =~= ly);
    }
    true
}

/// Removes the run of `c` at the end of `s`.
pub fn trim_end(s: &str, c: char) -> (r: String)
    ensures
        r@ == trim_end_spec(s@, c),
{
    let mut v = chars_of(s);
    while v.len() > 0 && v[v.len() - 1] == c
        invariant
            trim_end_spec(v@, c) == trim_end_spec(s@, c),
        decreases v@.len(),
    {
        v.pop();
    }
    string_of(&v)
}

/// Whether `items` holds a string equal to `s`.
pub fn contains_text(items: &Vec<String>, s: &str) -> (b: bool)
    ensures
        b == views(items@).contains(s@),
{
    let mut i: usize = 0;
    while i < items.len()
        invariant
            i <= items@.len(),
            forall|k: int| 0 <= k < i ==> views(items@)[k] != s@,
        decreases items@.len() - i,
    {
        if str_eq(items[i].as_str(), s) {
            proof {
                assert(views(items@)[i as int] == s@);
            }
            return true;
        }
        i += 1;
    }
    false
}

/// `s` without `suffix` at its end, if it ends with it.
pub open spec fn strip_suffix_spec(s: Seq<char>, suffix: Seq<char>) -> Option<Seq<char>> {
    if s.len() >= suffix.len() && s.subrange(s.len() - suffix.len(), s.len() as int) == suffix {
        Some(s.subrange(0, s.len() - suffix.len()))
    } else {
        None
    }
}

/// `s` without `suffix` at its end, if it ends with it.
pub fn strip_suffix(s: &str, suffix: &str) -> (r: Option<String>)
    ensures
        match r {
            Some(rest) => strip_suffix_spec(s@, suffix@) == Some(rest@),
            None => strip_suffix_spec(s@, suffix@) is None,
        },
{
    let chars = chars_of(s);
    let tail = chars_of(suffix);
    if chars.len() < tail.len() {
        return None;
    }
    let cut = chars.len() - tail.len();
    if !occurs_at(&chars, cut, &tail) {
        return None;
    }
    let mut rest: Vec<char> = Vec::new();
    let mut i: usize = 0;
    while i < cut
        invariant
            i <= cut <= chars@.len(),
            rest@ == chars@.subrange(0, i as int),
        decreases cut - i,
    {
        rest.push(chars[i]);
        i += 1;
    }
    Some(string_of(&rest))
}

/// Adds `item` to `items` unless a string equal to it is there already, and
/// says whether it was added.
pub fn insert_unique(items: &mut Vec<String>, item: String) -> (added: bool)
    ensures
        added == !views(old(items)@).contains(item@),
        added ==> final(items)@ == old(items)@.push(item),
        !added ==> final(items)@ == old(items)@,
{
    if contains_text(items, item.as_str()) {
        false
    } else {
        items.push(item);
        true
    }
}

/// Appends copies of the strings of `more` to `items`.
pub fn extend_texts(items: &mut Vec<String>, more: &Vec<String>)
    ensures
        views(final(items)@) == views(old(items)@) + views(more@),
{
    let mut i: usize = 0;
    assert(views(items@) == views(old(items)@) + views(more@).subrange(0, 0));
    while i < more.len()
        invariant
            i <= more@.len(),
            views(items@) == views(old(items)@) + views(more@).subrange(0, i as int),
        decreases more@.len() - i,
    {
        let ghost before = views(items@);
        items.push(more[i].clone());
        proof {
            assert(views(items@) == before.push(views(more@)[i as int]));
        }
        i += 1;
    }
    assert(views(more@).subrange(0, more@.len() as int) == views(more@));
}

/// Whether the two texts hold the same characters.
pub fn str_eq(a: &str, b: &str) -> (r: bool)
    ensures
        r == (a@ == b@),
{
    String::from_str(a) == String::from_str(b)
}

/// Whether the text `a` comes before the text `b` in the order of
/// texts: character by character, a text before those that it begins.
pub open spec fn text_before(a: Seq<char>, b: Seq<char>) -> bool
    decreases a.len(),
{
    if b.len() == 0 {
        false
    } else if a.len() == 0 {
        true
    } else if a[0] != b[0] {
        a[0] < b[0]
    } else {
        text_before(a.skip(1), b.skip(1))
    }
}

/// Whether `a` comes before `b` in the order of texts.
pub fn text_precedes(a: &str, b: &str) -> (r: bool)
    ensures
        r == text_before(a@, b@),
{
    let x = chars_of(a);
    let y = chars_of(b);
    let mut i: usize = 0;
    proof {
        assert(x@.skip(0) == x@);
        assert(y@.skip(0) == y@);
    }
    while i < x.len() && i < y.len()
        invariant
            i <= x@.len(),
            i <= y@.len(),
            x@ == a@,
            y@ == b@,
            text_before(x@, y@) == text_before(x@.skip(i as int), y@.skip(i as int)),
        decreases x@.len() - i,
    {
        proof {
            assert(x@.skip(i as int)[0] == x@[i as int]);
            assert(y@.skip(i as int)[0] == y@[i as int]);
            assert(x@.skip(i as int).skip(1) == x@.skip(i + 1));
            assert(y@.skip(i as int).skip(1) == y@.skip(i + 1));
        }
        if x[i] != y[i] {
            return x[i] < y[i];
        }
        i += 1;
    }
    i < y.len()
}

/// No text comes before itself.
pub proof fn text_order_is_irreflexive(a: Seq<char>)
    ensures
        !text_before(a, a),
    decreases a.len(),
{
    if a.len() > 0 {
        text_order_is_irreflexive(a.skip(1));
    }
}

/// The order of texts is transitive.
pub proof fn text_order_is_transitive(a: Seq<char>, b: Seq<char>, c: Seq<char>)
    requires
        text_before(a, b),
        text_before(b, c),
    ensures
        text_before(a, c),
    decreases a.len(),
{
    if a.len() > 0 && a[0] == b[0] && b[0] == c[0] {
        text_order_is_transitive(a.skip(1), b.skip(1), c.skip(1));
    }
}

/// Of two different texts one comes before the other.
pub proof fn text_order_is_total(a: Seq<char>, b: Seq<char>)
    ensures
        a == b || text_before(a, b) || text_before(b, a),
    decreases a.len(),
{
    if a.len() > 0 && b.len() > 0 && a[0] == b[0] {
        text_order_is_total(a.skip(1), b.skip(1));
        if a.skip(1) == b.skip(1) {
            assert(a =~= seq![a[0]] + a.skip(1));
            assert(b =~= seq![b[0]] + b.skip(1));
        }
    } else if a.len() == 0 && b.len() == 0 {
        assert(a =~= b);
    }
}

/// A text is split at its first `c` in one way only: if two texts that
/// hold no `c`, each followed by `c` and some rest, make the same text,
/// they are the same, and so are the rests.
pub proof fn split_is_unique(
    left_a: Seq<char>,
    right_a: Seq<char>,
    left_b: Seq<char>,
    right_b: Seq<char>,
    c: char,
)
    requires
        forall|i: int| 0 <= i < left_a.len() ==> left_a[i] != c,
        forall|i: int| 0 <= i < left_b.len() ==> left_b[i] != c,
        left_a + seq![c] + right_a == left_b + seq![c] + right_b,
    ensures
        left_a == left_b,
        right_a == right_b,
{
    let x = left_a + seq![c] + right_a;
    let y = left_b + seq![c] + right_b;
    let m = left_a.len() as int;
    let n = left_b.len() as int;
    assert(x[m] == c);
    assert(y[n] == c);
    if m < n {
        assert(y[m] == left_b[m]);
    }
    if n < m {
        assert(x[n] == left_a[n]);
    }
    assert(left_a =~= left_b) by {
        assert forall|i: int| 0 <= i < m implies left_a[i] == left_b[i] by {
            assert(x[i] == left_a[i]);
            assert(y[i] == left_b[i]);
        }
    }
    assert(x.len() == m + 1 + right_a.len());
    assert(y.len() == n + 1 + right_b.len());
    assert(right_a =~= right_b) by {
        assert forall|i: int| 0 <= i < right_a.len() implies right_a[i] == right_b[i] by {
            assert(x[m + 1 + i] == right_a[i]);
            assert(y[n + 1 + i] == right_b[i]);
        }
    }
}

/// A decimal numeral is made of digits, and of more than one if the number
/// is ten or more.
pub proof fn decimal_is_digits(n: nat)
    ensures
        decimal_spec(n).len() >= 1,
        n >= 10 ==> decimal_spec(n).len() >= 2,
        forall|i: int|
            0 <= i < decimal_spec(n).len() ==> '0' <= #[trigger] decimal_spec(n)[i] <= '9',
    decreases n,
{
    if n >= 10 {
        decimal_is_digits(n / 10);
    }
}

/// Two numbers with the same decimal numeral are the same number.
pub proof fn decimal_is_injective(a: nat, b: nat)
    requires
        decimal_spec(a) == decimal_spec(b),
    ensures
        a == b,
    decreases a,
{
    decimal_is_digits(a);
    decimal_is_digits(b);
    if a < 10 && b < 10 {
        assert(decimal_spec(a)[0] == digit_char(a as int));
        assert(decimal_spec(b)[0] == digit_char(b as int));
        digits_differ(a as int, b as int);
    } else if a < 10 || b < 10 {
        assert(decimal_spec(a).len() == decimal_spec(b).len());
    } else {
        let x = decimal_spec(a / 10);
        let y = decimal_spec(b / 10);
        let last_a = digit_char((a % 10) as int);
        let last_b = digit_char((b % 10) as int);
        assert(x.push(last_a) == y.push(last_b));
        assert(x.push(last_a).drop_last() == x);
        assert(y.push(last_b).drop_last() == y);
        assert(x.push(last_a).last() == last_a);
        assert(y.push(last_b).last() == last_b);
        decimal_is_injective(a / 10, b / 10);
        digits_differ((a % 10) as int, (b % 10) as int);
        assert(a == 10 * (a / 10) + a % 10);
        assert(b == 10 * (b / 10) + b % 10);
    }
}

/// Two digits that are written alike are the same digit.
proof fn digits_differ(a: int, b: int)
    requires
        0 <= a < 10,
        0 <= b < 10,
        digit_char(a) == digit_char(b),
    ensures
        a == b,
{
}

} // verus!
