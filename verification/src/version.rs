//! Dotted version strings: splitting, number parsing and component order.

use vstd::prelude::*;
use crate::text::{is_first_index, find_char};

verus! {

/// Splits `s` at every `c`, keeping empty pieces (like `str::split`).
pub open spec fn split_on(s: Seq<char>, c: char) -> Seq<Seq<char>>
    decreases s.len(),
{
    if exists|i: int| is_first_index(s, c, i) {
        let i = choose|i: int| is_first_index(s, c, i);
        seq![s.take(i)] + split_on(s.skip(i + 1), c)
    } else {
        seq![s]
    }
}

/// `c` is an ASCII decimal digit.
pub open spec fn is_digit(c: char) -> bool {
    '0' <= c <= '9'
}

/// The value of the decimal digit `c`.
pub open spec fn digit_value(c: char) -> nat {
    (c as int - '0' as int) as nat
}

/// The value of a string of decimal digits.
pub open spec fn digits_value(s: Seq<char>) -> nat
    decreases s.len(),
{
    if s.len() == 0 {
        0
    } else {
        digits_value(s.drop_last()) * 10 + digit_value(s.last())
    }
}

/// Every character of `s` is a decimal digit.
pub open spec fn all_digits(s: Seq<char>) -> bool {
    forall|i: int| 0 <= i < s.len() ==> is_digit(#[trigger] s[i])
}

/// What `str::parse::<u32>` accepts: an optional `+`, then one or more ASCII
/// digits whose value fits in a `u32`.
pub open spec fn parsed_u32(s: Seq<char>) -> Option<u32> {
    let body = if s.len() > 0 && s[0] == '+' { s.drop_first() } else { s };
    if body.len() > 0 && all_digits(body) && digits_value(body) <= u32::MAX {
        Some(digits_value(body) as u32)
    } else {
        None
    }
}

/// A version component: its number, or 0 when it does not parse.
pub open spec fn component_value(s: Seq<char>) -> u32 {
    match parsed_u32(s) {
        Some(n) => n,
        None => 0,
    }
}

/// The numeric components of a dotted version string.
pub open spec fn components(v: Seq<char>) -> Seq<u32> {
    split_on(v, '.').map_values(|p: Seq<char>| component_value(p))
}

/// Component `i` of `v`, with missing components read as 0.
pub open spec fn comp_at(v: Seq<u32>, i: int) -> u32 {
    if 0 <= i < v.len() { v[i] } else { 0 }
}

/// The order of `a` and `b` (-1, 0 or 1) from component `i` up to `len`.
pub open spec fn order_from(a: Seq<u32>, b: Seq<u32>, i: nat, len: nat) -> int
    decreases len - i,
{
    if i >= len {
        0
    } else if comp_at(a, i as int) < comp_at(b, i as int) {
        -1
    } else if comp_at(a, i as int) > comp_at(b, i as int) {
        1
    } else {
        order_from(a, b, i + 1, len)
    }
}

/// The larger of two lengths.
pub open spec fn max_len(a: nat, b: nat) -> nat {
    if a >= b { a } else { b }
}

/// The order of two component lists: the first differing component decides,
/// and a shorter list counts as padded with zeros.
pub open spec fn version_order(a: Seq<u32>, b: Seq<u32>) -> int {
    order_from(a, b, 0, max_len(a.len(), b.len()))
}

/// The order of two version strings (-1, 0 or 1).
pub open spec fn version_cmp(a: Seq<char>, b: Seq<char>) -> int {
    version_order(components(a), components(b))
}

/// Splits `s` at every `c`, keeping empty pieces.
pub fn split_char(s: &str, c: char) -> (r: Vec<String>)
    ensures
        r.deep_view() == split_on(s@, c),
{
    let m = s.unicode_len();
    let mut pieces: Vec<String> = Vec::new();
    let mut st: usize = 0;
    assert(s@.subrange(0, m as int) =~= s@);
    assert(pieces.deep_view() =~= Seq::<Seq<char>>::empty());
    loop
        invariant
            m == s@.len(),
            st <= m,
            pieces.deep_view() + split_on(s@.subrange(st as int, m as int), c) == split_on(s@, c),
        decreases m - st,
    {
        let rest = s.substring_char(st, m);
        let ghost before = pieces.deep_view();
        match find_char(rest, c) {
            Some(i) => {
                proof {
                    assert(is_first_index(rest@, c, i as int));
                    let k = choose|k: int| is_first_index(rest@, c, k);
                    assert(k == i) by {
                        if k < i { assert(rest@[k] != c); }
                        if i < k { assert(rest@[i as int] != c); }
                    }
                    assert(rest@.skip(i + 1) =~= s@.subrange(st + i + 1, m as int));
                }
                pieces.push(rest.substring_char(0, i).to_owned());
                assert(pieces.deep_view() =~= before + seq![rest@.take(i as int)]);
                st = st + i + 1;
            },
            None => {
                proof {
                    assert(!exists|k: int| is_first_index(rest@, c, k));
                }
                pieces.push(rest.to_owned());
                assert(pieces.deep_view() =~= before + seq![rest@]);
                return pieces;
            },
        }
    }
}

/// Parses a `u32` as `str::parse::<u32>` does.
pub fn parse_u32(s: &str) -> (r: Option<u32>)
    ensures
        r == parsed_u32(s@),
{
    let m = s.unicode_len();
    let mut start: usize = 0;
    if m > 0 && s.get_char(0) == '+' {
        start = 1;
    }
    let ghost body = s@.subrange(start as int, m as int);
    assert(body =~= if s@.len() > 0 && s@[0] == '+' { s@.drop_first() } else { s@ });
    if start == m {
        return None;
    }
    let mut value: u64 = 0;
    let mut over = false;
    let mut i = start;
    while i < m
        invariant
            m == s@.len(),
            start < m,
            start <= i <= m,
            body == s@.subrange(start as int, m as int),
            body == (if s@.len() > 0 && s@[0] == '+' { s@.drop_first() } else { s@ }),
            all_digits(s@.subrange(start as int, i as int)),
            over ==> digits_value(s@.subrange(start as int, i as int)) > u32::MAX,
            !over ==> value == digits_value(s@.subrange(start as int, i as int)) && value <= u32::MAX,
        decreases m - i,
    {
        let ch = s.get_char(i);
        if !('0' <= ch && ch <= '9') {
            assert(body[i - start] == ch);
            assert(!is_digit(body[i - start]));
            assert(!all_digits(body));
            return None;
        }
        let ghost pre = s@.subrange(start as int, i as int);
        let ghost next = s@.subrange(start as int, i + 1);
        assert(next.drop_last() =~= pre);
        assert(next.last() == ch);
        assert(all_digits(next)) by {
            assert forall|j: int| 0 <= j < next.len() implies is_digit(#[trigger] next[j]) by {
                if j < pre.len() { assert(next[j] == pre[j]); }
            }
        }
        let d: u64 = ((ch as u32) - ('0' as u32)) as u64;
        if !over {
            value = value * 10 + d;
            if value > 4294967295 {
                over = true;
            }
        }
        i = i + 1;
    }
    assert(s@.subrange(start as int, m as int) == body);
    if over {
        None
    } else {
        Some(value as u32)
    }
}

/// The numeric components of a dotted version string; a component that does
/// not parse counts as 0.
pub fn version_components(v: &str) -> (r: Vec<u32>)
    ensures
        r@ == components(v@),
{
    let parts = split_char(v, '.');
    let mut out: Vec<u32> = Vec::new();
    for i in 0..parts.len()
        invariant
            parts.deep_view() == split_on(v@, '.'),
            out@ == parts.deep_view().take(i as int).map_values(|p: Seq<char>| component_value(p)),
    {
        let n = match parse_u32(parts[i].as_str()) {
            Some(n) => n,
            None => 0,
        };
        assert(parts.deep_view()[i as int] == parts@[i as int]@);
        assert(parts.deep_view().take(i + 1) == parts.deep_view().take(i as int).push(parts.deep_view()[i as int]));
        out.push(n);
        assert(out@ =~= parts.deep_view().take(i + 1).map_values(|p: Seq<char>| component_value(p)));
    }
    assert(parts.deep_view().take(parts.deep_view().len() as int) == parts.deep_view());
    out
}

/// Compares two component lists: -1, 0 or 1 as `version_order` says.
pub fn compare_components(a: &[u32], b: &[u32]) -> (r: i8)
    ensures
        r as int == version_order(a@, b@),
{
    let len = if a.len() >= b.len() { a.len() } else { b.len() };
    let mut i: usize = 0;
    while i < len
        invariant
            len as nat == max_len(a@.len(), b@.len()),
            i <= len,
            order_from(a@, b@, i as nat, len as nat) == version_order(a@, b@),
        decreases len - i,
    {
        let na = if i < a.len() { a[i] } else { 0 };
        let nb = if i < b.len() { b[i] } else { 0 };
        if na < nb {
            return -1;
        } else if na > nb {
            return 1;
        }
        i = i + 1;
    }
    0
}

// ── Laws of the version order ──────────────────────────────────────────

proof fn lemma_tail_zero(a: Seq<u32>, b: Seq<u32>, j: nat, len: nat)
    requires
        j >= max_len(a.len(), b.len()),
    ensures
        order_from(a, b, j, len) == 0,
    decreases len - j,
{
    if j < len {
        lemma_tail_zero(a, b, j + 1, len);
    }
}

/// Comparing further than the longer list changes nothing.
proof fn lemma_extend(a: Seq<u32>, b: Seq<u32>, i: nat, len: nat)
    requires
        i <= max_len(a.len(), b.len()) <= len,
    ensures
        order_from(a, b, i, len) == order_from(a, b, i, max_len(a.len(), b.len())),
    decreases max_len(a.len(), b.len()) - i,
{
    let m = max_len(a.len(), b.len());
    if i == m {
        lemma_tail_zero(a, b, i, len);
    } else {
        lemma_extend(a, b, i + 1, len);
    }
}

proof fn lemma_range(a: Seq<u32>, b: Seq<u32>, i: nat, len: nat)
    ensures
        -1 <= order_from(a, b, i, len) <= 1,
    decreases len - i,
{
    if i < len {
        lemma_range(a, b, i + 1, len);
    }
}

proof fn lemma_refl(a: Seq<u32>, i: nat, len: nat)
    ensures
        order_from(a, a, i, len) == 0,
    decreases len - i,
{
    if i < len {
        lemma_refl(a, i + 1, len);
    }
}

proof fn lemma_antisym(a: Seq<u32>, b: Seq<u32>, i: nat, len: nat)
    ensures
        order_from(a, b, i, len) == -order_from(b, a, i, len),
    decreases len - i,
{
    if i < len {
        lemma_antisym(a, b, i + 1, len);
    }
}

proof fn lemma_trans(a: Seq<u32>, b: Seq<u32>, c: Seq<u32>, i: nat, len: nat)
    requires
        order_from(a, b, i, len) <= 0,
        order_from(b, c, i, len) <= 0,
    ensures
        order_from(a, c, i, len) <= 0,
        order_from(a, b, i, len) < 0 || order_from(b, c, i, len) < 0 ==> order_from(a, c, i, len) < 0,
    decreases len - i,
{
    if i < len {
        if comp_at(a, i as int) == comp_at(b, i as int) && comp_at(b, i as int) == comp_at(c, i as int) {
            lemma_trans(a, b, c, i + 1, len);
        }
    }
}

proof fn lemma_equal_iff(a: Seq<u32>, b: Seq<u32>, i: nat, len: nat)
    ensures
        order_from(a, b, i, len) == 0 <==> forall|j: int| i <= j < len ==> #[trigger] comp_at(a, j) == comp_at(b, j),
    decreases len - i,
{
    if i < len {
        lemma_equal_iff(a, b, i + 1, len);
        if comp_at(a, i as int) == comp_at(b, i as int) {
            assert((forall|j: int| i <= j < len ==> #[trigger] comp_at(a, j) == comp_at(b, j))
                <==> (forall|j: int| i + 1 <= j < len ==> #[trigger] comp_at(a, j) == comp_at(b, j)));
        }
    }
}

/// The order takes the values -1, 0 and 1 only.
pub proof fn law_version_order_range(a: Seq<char>, b: Seq<char>)
    ensures
        -1 <= version_cmp(a, b) <= 1,
{
    lemma_range(components(a), components(b), 0, max_len(components(a).len(), components(b).len()));
}

/// Every version is equal to itself.
pub proof fn law_version_order_reflexive(a: Seq<char>)
    ensures
        version_cmp(a, a) == 0,
{
    lemma_refl(components(a), 0, components(a).len());
}

/// Swapping the versions reverses the order.
pub proof fn law_version_order_antisymmetric(a: Seq<char>, b: Seq<char>)
    ensures
        version_cmp(a, b) == -version_cmp(b, a),
{
    let x = components(a);
    let y = components(b);
    lemma_antisym(x, y, 0, max_len(x.len(), y.len()));
    assert(max_len(x.len(), y.len()) == max_len(y.len(), x.len()));
}

/// The order is transitive, and strictly so when either step is strict.
pub proof fn law_version_order_transitive(a: Seq<char>, b: Seq<char>, c: Seq<char>)
    requires
        version_cmp(a, b) <= 0,
        version_cmp(b, c) <= 0,
    ensures
        version_cmp(a, c) <= 0,
        version_cmp(a, b) < 0 || version_cmp(b, c) < 0 ==> version_cmp(a, c) < 0,
{
    let x = components(a);
    let y = components(b);
    let z = components(c);
    let l = max_len(max_len(x.len(), y.len()), z.len());
    lemma_extend(x, y, 0, l);
    lemma_extend(y, z, 0, l);
    lemma_extend(x, z, 0, l);
    lemma_trans(x, y, z, 0, l);
}

/// Two versions are equal exactly when every component agrees, missing
/// components counting as 0 (so `1.0` equals `1`).
pub proof fn law_version_equal_iff_components(a: Seq<char>, b: Seq<char>)
    ensures
        version_cmp(a, b) == 0 <==> forall|j: int| 0 <= j ==> #[trigger] comp_at(components(a), j) == comp_at(components(b), j),
{
    let x = components(a);
    let y = components(b);
    let m = max_len(x.len(), y.len());
    lemma_equal_iff(x, y, 0, m);
    assert forall|j: int| m <= j implies #[trigger] comp_at(x, j) == comp_at(y, j) by {}
}

/// Splitting at `c` distributes over a `c` that joins two texts.
proof fn lemma_split_concat(s: Seq<char>, c: char, t: Seq<char>)
    ensures
        split_on(s + seq![c] + t, c) == split_on(s, c) + split_on(t, c),
    decreases s.len(),
{
    let u = s + seq![c] + t;
    if exists|i: int| is_first_index(s, c, i) {
        let i = choose|i: int| is_first_index(s, c, i);
        assert(is_first_index(u, c, i));
        let k = choose|k: int| is_first_index(u, c, k);
        assert(k == i) by {
            if k < i { assert(u[k] == s[k]); }
            if i < k { assert(u[i] == s[i]); }
        }
        assert(u.take(i) =~= s.take(i));
        assert(u.skip(i + 1) =~= s.skip(i + 1) + seq![c] + t);
        lemma_split_concat(s.skip(i + 1), c, t);
        assert(split_on(u, c) =~= split_on(s, c) + split_on(t, c));
    } else {
        let n = s.len() as int;
        assert(is_first_index(u, c, n)) by {
            assert forall|j: int| 0 <= j < n implies u[j] != c by {
                assert(u[j] == s[j]);
                if s[j] == c {
                    let first = choose|m: int| 0 <= m <= j && s[m] == c && forall|q: int| 0 <= q < m ==> s[q] != c;
                    assert(exists|m: int| 0 <= m <= j && s[m] == c && forall|q: int| 0 <= q < m ==> s[q] != c) by {
                        lemma_first_exists(s, c, j);
                    }
                    assert(is_first_index(s, c, first));
                }
            }
        }
        let k = choose|k: int| is_first_index(u, c, k);
        assert(k == n) by {
            if k < n { assert(u[k] != c); }
            if n < k { assert(u[n] == c); }
        }
        assert(u.take(n) =~= s);
        assert(u.skip(n + 1) =~= t);
        assert(split_on(u, c) =~= split_on(s, c) + split_on(t, c));
    }
}

/// A position holding `c` has a first `c` at or before it.
proof fn lemma_first_exists(s: Seq<char>, c: char, j: int)
    requires
        0 <= j < s.len(),
        s[j] == c,
    ensures
        exists|m: int| 0 <= m <= j && s[m] == c && forall|q: int| 0 <= q < m ==> s[q] != c,
    decreases j,
{
    if exists|q: int| 0 <= q < j && s[q] == c {
        let q = choose|q: int| 0 <= q < j && s[q] == c;
        lemma_first_exists(s, c, q);
    } else {
        assert(forall|q: int| 0 <= q < j ==> s[q] != c);
    }
}

/// Appending a `.0` component leaves a version equal to itself, and a
/// component that is not a number counts as 0.
pub proof fn law_version_trailing_zero(a: Seq<char>)
    ensures
        version_cmp(a, a + ".0"@) == 0,
        forall|p: Seq<char>| parsed_u32(p) is None ==> #[trigger] component_value(p) == 0,
{
    reveal_strlit(".0");
    reveal_strlit("0");
    let zero = "0"@;
    assert(a + ".0"@ =~= a + seq!['.'] + zero);
    lemma_split_concat(a, '.', zero);
    assert(!exists|i: int| is_first_index(zero, '.', i));
    assert(split_on(zero, '.') == seq![zero]);
    assert(zero.drop_last() =~= Seq::<char>::empty());
    assert(zero.last() == '0');
    assert(digits_value(zero.drop_last()) == 0);
    assert(digit_value('0') == 0);
    assert(digits_value(zero) == 0);
    assert(all_digits(zero));
    assert(parsed_u32(zero) == Some(0u32));
    let x = components(a);
    let y = components(a + ".0"@);
    assert(y =~= x.push(0u32));
    let m = max_len(x.len(), y.len());
    lemma_equal_iff(x, y, 0, m);
    assert forall|j: int| 0 <= j < m implies #[trigger] comp_at(x, j) == comp_at(y, j) by {
        if j < x.len() {
            assert(y[j] == x[j]);
        }
    }
}

} // verus!
