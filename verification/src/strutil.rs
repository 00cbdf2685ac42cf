//! Verified string helpers: ASCII case folding, comparison, substring
//! search, and decimal conversion, each stated over `Seq<char>` views.

use vstd::prelude::*;

verus! {

/// ASCII case folding of one character; other characters are untouched.
pub open spec fn lower_char(c: char) -> char {
    if 'A' <= c && c <= 'Z' {
        ((c as int) + 32) as char
    } else {
        c
    }
}

/// ASCII case folding of a whole string.
pub open spec fn to_lower(s: Seq<char>) -> Seq<char> {
    Seq::new(s.len(), |i: int| lower_char(s[i]))
}

/// Whether `s` starts with `p`.
pub open spec fn spec_starts_with(s: Seq<char>, p: Seq<char>) -> bool {
    s.len() >= p.len() && s.subrange(0, p.len() as int) == p
}

/// Whether `n` occurs in `h` as a contiguous run.
pub open spec fn spec_contains(h: Seq<char>, n: Seq<char>) -> bool {
    exists|k: int|
        0 <= k && k + n.len() <= h.len() && #[trigger] h.subrange(k, k + n.len() as int) == n
}

/// Equality up to ASCII case folding.
pub open spec fn eq_fold(a: Seq<char>, b: Seq<char>) -> bool {
    to_lower(a) == to_lower(b)
}

/// Index of the last occurrence of `c` in `s`, if any.
pub open spec fn spec_rfind(s: Seq<char>, c: char) -> Option<int>
    decreases s.len(),
{
    if s.len() == 0 {
        None
    } else if s.last() == c {
        Some(s.len() - 1)
    } else {
        spec_rfind(s.drop_last(), c)
    }
}

/// What `spec_rfind` finds is the last occurrence.
pub proof fn lemma_rfind(s: Seq<char>, c: char)
    ensures
        match spec_rfind(s, c) {
            Some(i) => 0 <= i < s.len() && s[i] == c && forall|j: int| i < j < s.len() ==> s[j]
                != c,
            None => forall|j: int| 0 <= j < s.len() ==> s[j] != c,
        },
    decreases s.len(),
{
    if s.len() > 0 && s.last() != c {
        lemma_rfind(s.drop_last(), c);
        assert(forall|j: int| 0 <= j < s.len() - 1 ==> s.drop_last()[j] == s[j]);
    }
}

/// Exact string equality on views.
pub fn str_eq(a: &str, b: &str) -> (r: bool)
    ensures
        r == (a@ == b@),
{
    let sa = String::from_str(a);
    let sb = String::from_str(b);
    sa.eq(&sb)
}

/// Equality after ASCII case folding of both sides.
pub fn eq_lower(a: &str, b: &str) -> (r: bool)
    ensures
        r == (to_lower(a@) == to_lower(b@)),
{
    let alen = a.unicode_len();
    let blen = b.unicode_len();
    if alen != blen {
        assert(to_lower(a@).len() != to_lower(b@).len());
        return false;
    }
    let mut i: usize = 0;
    while i < alen
        invariant
            alen == a@.len(),
            blen == b@.len(),
            alen == blen,
            i <= alen,
            forall|j: int| 0 <= j < i ==> to_lower(a@)[j] == to_lower(b@)[j],
        decreases alen - i,
    {
        let ca = a.get_char(i);
        let cb = b.get_char(i);
        let fa: u32 = fold_code(ca);
        let fb: u32 = fold_code(cb);
        if fa != fb {
            assert(to_lower(a@)[i as int] != to_lower(b@)[i as int]);
            return false;
        }
        assert(to_lower(a@)[i as int] == to_lower(b@)[i as int]);
        i += 1;
    }
    proof {
        assert(to_lower(a@) =~= to_lower(b@));
    }
    true
}

/// The code point of `lower_char(c)`.
fn fold_code(c: char) -> (r: u32)
    ensures
        r == lower_char(c) as u32,
{
    let x = c as u32;
    if 65 <= x && x <= 90 {
        x + 32
    } else {
        x
    }
}

/// Whether `s` starts with `p`, exact characters.
pub fn starts_with(s: &str, p: &str) -> (r: bool)
    ensures
        r == spec_starts_with(s@, p@),
{
    let slen = s.unicode_len();
    let plen = p.unicode_len();
    if slen < plen {
        return false;
    }
    let mut i: usize = 0;
    while i < plen
        invariant
            slen == s@.len(),
            plen == p@.len(),
            slen >= plen,
            i <= plen,
            forall|j: int| 0 <= j < i ==> s@[j] == p@[j],
        decreases plen - i,
    {
        if s.get_char(i) != p.get_char(i) {
            assert(s@.subrange(0, p@.len() as int)[i as int] != p@[i as int]);
            return false;
        }
        i += 1;
    }
    proof {
        assert(s@.subrange(0, p@.len() as int) =~= p@);
    }
    true
}

/// Whether the folded `h` contains the folded `n`.
pub fn contains_lower(h: &str, n: &str) -> (r: bool)
    ensures
        r == spec_contains(to_lower(h@), to_lower(n@)),
{
    let hlen = h.unicode_len();
    let nlen = n.unicode_len();
    if nlen > hlen {
        assert(!spec_contains(to_lower(h@), to_lower(n@)));
        return false;
    }
    if nlen == 0 {
        proof {
            let nl = to_lower(n@);
            assert(to_lower(h@).subrange(0, 0 + nl.len() as int) =~= nl);
        }
        return true;
    }
    let mut k: usize = 0;
    while k <= hlen - nlen
        invariant
            hlen == h@.len(),
            nlen == n@.len(),
            1 <= nlen <= hlen,
            k <= hlen - nlen + 1,
            forall|k0: int|
                0 <= k0 < k ==> #[trigger] to_lower(h@).subrange(k0, k0 + n@.len() as int)
                    != to_lower(n@),
        decreases hlen - nlen + 1 - k,
    {
        if match_lower_at(h, n, k) {
            proof {
                let nl = to_lower(n@);
                assert(to_lower(h@).subrange(k as int, k as int + nl.len() as int) == nl);
            }
            return true;
        }
        k += 1;
    }
    proof {
        if spec_contains(to_lower(h@), to_lower(n@)) {
            let k0 = choose|k0: int|
                0 <= k0 && k0 + to_lower(n@).len() <= to_lower(h@).len() && #[trigger] to_lower(
                    h@,
                ).subrange(k0, k0 + to_lower(n@).len() as int) == to_lower(n@);
            assert(to_lower(h@).subrange(k0, k0 + n@.len() as int) == to_lower(n@));
            assert(false);
        }
    }
    false
}

/// Whether the folded `n` stands in the folded `h` at offset `k`.
fn match_lower_at(h: &str, n: &str, k: usize) -> (r: bool)
    requires
        k + n@.len() <= h@.len(),
        h@.len() <= usize::MAX,
    ensures
        r == (to_lower(h@).subrange(k as int, k + n@.len() as int) == to_lower(n@)),
{
    let nlen = n.unicode_len();
    let mut j: usize = 0;
    while j < nlen
        invariant
            nlen == n@.len(),
            k + nlen <= h@.len() <= usize::MAX,
            j <= nlen,
            forall|j0: int| 0 <= j0 < j ==> to_lower(h@)[k + j0] == to_lower(n@)[j0],
        decreases nlen - j,
    {
        let ch = h.get_char(k + j);
        let cn = n.get_char(j);
        if fold_code(ch) != fold_code(cn) {
            proof {
                assert(to_lower(h@)[k + j] != to_lower(n@)[j as int]);
                let s = to_lower(h@).subrange(k as int, k + n@.len() as int);
                assert(s[j as int] == to_lower(h@)[k + j]);
            }
            return false;
        }
        j += 1;
    }
    proof {
        assert(to_lower(h@).subrange(k as int, k + n@.len() as int) =~= to_lower(n@));
    }
    true
}

/// Index of the last occurrence of `c` in `s`, if any.
pub fn rfind_char(s: &str, c: char) -> (r: Option<usize>)
    ensures
        match r {
            Some(i) => Some(i as int) == spec_rfind(s@, c),
            None => spec_rfind(s@, c) is None,
        },
{
    let len = s.unicode_len();
    let mut i: usize = len;
    while i > 0
        invariant
            len == s@.len(),
            i <= len,
            forall|j: int| i <= j < s@.len() ==> s@[j] != c,
        decreases i,
    {
        i -= 1;
        if s.get_char(i) == c {
            proof {
                lemma_rfind(s@, c);
                if spec_rfind(s@, c) is None {
                    assert(false);
                } else {
                    let i2 = spec_rfind(s@, c)->0;
                    assert(s@[i2] == c);
                    assert(i2 == i as int);
                }
            }
            return Some(i);
        }
    }
    proof {
        lemma_rfind(s@, c);
        if spec_rfind(s@, c) is Some {
            let i2 = spec_rfind(s@, c)->0;
            assert(s@[i2] == c);
            assert(false);
        }
    }
    None
}

/// Index of the first occurrence of `c` in `s`, if any.
pub open spec fn spec_find(s: Seq<char>, c: char) -> Option<int>
    decreases s.len(),
{
    if s.len() == 0 {
        None
    } else if s[0] == c {
        Some(0int)
    } else {
        match spec_find(s.drop_first(), c) {
            Some(i) => Some(i + 1),
            None => None,
        }
    }
}

/// What `spec_find` finds is the first occurrence.
pub proof fn lemma_find(s: Seq<char>, c: char)
    ensures
        match spec_find(s, c) {
            Some(i) => 0 <= i < s.len() && s[i] == c && forall|j: int| 0 <= j < i ==> s[j] != c,
            None => forall|j: int| 0 <= j < s.len() ==> s[j] != c,
        },
    decreases s.len(),
{
    if s.len() > 0 && s[0] != c {
        let t = s.drop_first();
        lemma_find(t, c);
        assert(forall|j: int| 0 <= j < t.len() ==> #[trigger] t[j] == s[j + 1]);
        match spec_find(s, c) {
            Some(i) => {
                assert(t[i - 1] == s[i]);
                assert forall|j: int| 0 <= j < i implies s[j] != c by {
                    if j > 0 {
                        assert(t[j - 1] == s[j]);
                    }
                }
            },
            None => {
                assert forall|j: int| 0 <= j < s.len() implies s[j] != c by {
                    if j > 0 {
                        assert(t[j - 1] == s[j]);
                    }
                }
            },
        }
    }
}

/// Find the first occurrence of `c` in `s`.
pub fn find_char(s: &str, c: char) -> (r: Option<usize>)
    ensures
        match r {
            Some(i) => Some(i as int) == spec_find(s@, c),
            None => spec_find(s@, c) is None,
        },
{
    let len = s.unicode_len();
    let mut i: usize = 0;
    while i < len
        invariant
            len == s@.len(),
            i <= len,
            forall|j: int| 0 <= j < i ==> s@[j] != c,
        decreases len - i,
    {
        if s.get_char(i) == c {
            proof {
                lemma_find(s@, c);
                assert(s@[i as int] == c);
                match spec_find(s@, c) {
                    Some(i2) => {
                        assert(i2 == i as int);
                    },
                    None => {
                        assert(s@[i as int] != c);
                        assert(false);
                    },
                }
            }
            return Some(i);
        }
        i += 1;
    }
    proof {
        lemma_find(s@, c);
        if spec_find(s@, c) is Some {
            let i2 = spec_find(s@, c)->0;
            assert(s@[i2] == c);
            assert(false);
        }
    }
    None
}

/// Whether `s` ends with `p`.
pub open spec fn spec_ends_with(s: Seq<char>, p: Seq<char>) -> bool {
    s.len() >= p.len() && s.subrange(s.len() - p.len(), s.len() as int) == p
}

/// Whether `s` ends with `p`, exact characters.
pub fn ends_with(s: &str, p: &str) -> (r: bool)
    ensures
        r == spec_ends_with(s@, p@),
{
    let slen = s.unicode_len();
    let plen = p.unicode_len();
    if slen < plen {
        return false;
    }
    let mut i: usize = 0;
    while i < plen
        invariant
            slen == s@.len(),
            plen == p@.len(),
            slen >= plen,
            i <= plen,
            forall|j: int| 0 <= j < i ==> s@[s@.len() - p@.len() + j] == p@[j],
        decreases plen - i,
    {
        if s.get_char(slen - plen + i) != p.get_char(i) {
            proof {
                let sub = s@.subrange(s@.len() - p@.len(), s@.len() as int);
                assert(sub[i as int] == s@[s@.len() - p@.len() + i]);
            }
            return false;
        }
        i += 1;
    }
    proof {
        assert(s@.subrange(s@.len() - p@.len(), s@.len() as int) =~= p@);
    }
    true
}

/// Digit predicate and value.
pub open spec fn is_digit(c: char) -> bool {
    '0' <= c && c <= '9'
}

pub open spec fn digit_val(c: char) -> int {
    c as int - '0' as int
}

/// Value of an all-digit string read in base ten.
pub open spec fn dec_val(s: Seq<char>) -> int
    decreases s.len(),
{
    if s.len() == 0 {
        0
    } else {
        dec_val(s.drop_last()) * 10 + digit_val(s.last())
    }
}

/// The digits after an optional leading `+`, mirroring how Rust reads
/// unsigned decimal text.
pub open spec fn dec_digits(s: Seq<char>) -> Seq<char> {
    if s.len() > 0 && s[0] == '+' {
        s.drop_first()
    } else {
        s
    }
}

/// What parsing `s` as a `u32` yields: the digits' value when `s` is an
/// optionally `+`-signed, non-empty, all-digit string whose value fits.
pub open spec fn spec_parse_u32(s: Seq<char>) -> Option<u32> {
    let d = dec_digits(s);
    if d.len() > 0 && (forall|i: int| 0 <= i < d.len() ==> is_digit(d[i])) && dec_val(d)
        <= u32::MAX {
        Some(dec_val(d) as u32)
    } else {
        None
    }
}

proof fn lemma_dec_val_nonneg(s: Seq<char>)
    requires
        forall|i: int| 0 <= i < s.len() ==> is_digit(s[i]),
    ensures
        dec_val(s) >= 0,
    decreases s.len(),
{
    if s.len() > 0 {
        lemma_dec_val_nonneg(s.drop_last());
    }
}

proof fn lemma_dec_val_grows(s: Seq<char>, i: int)
    requires
        0 <= i <= s.len(),
        forall|j: int| 0 <= j < s.len() ==> is_digit(s[j]),
    ensures
        dec_val(s.take(i)) <= dec_val(s),
    decreases s.len() - i,
{
    if i < s.len() {
        lemma_dec_val_grows(s, i + 1);
        assert(s.take(i + 1).drop_last() =~= s.take(i));
        assert(s.take(i + 1).last() == s[i]);
        lemma_dec_val_nonneg(s.take(i));
    } else {
        assert(s.take(i) =~= s);
    }
}

/// Parse an unsigned decimal, as Rust's `u32` parsing reads it: an optional
/// leading `+`, then one or more digits, rejecting overflow.
pub fn parse_u32(s: &str) -> (r: Option<u32>)
    ensures
        r == spec_parse_u32(s@),
{
    let len = s.unicode_len();
    let start: usize = if len > 0 && s.get_char(0) == '+' {
        1
    } else {
        0
    };
    proof {
        if start == 1 {
            assert(dec_digits(s@) =~= s@.subrange(1, s@.len() as int));
        } else {
            assert(dec_digits(s@) =~= s@);
        }
    }
    let ghost d = dec_digits(s@);
    if len == start {
        assert(d.len() == 0);
        return None;
    }
    let mut acc: u32 = 0;
    let mut i: usize = start;
    while i < len
        invariant
            len == s@.len(),
            start <= i <= len,
            start <= 1,
            d == dec_digits(s@),
            d.len() == len - start,
            forall|j: int| 0 <= j < d.len() ==> d[j] == s@[start + j],
            forall|j: int| 0 <= j < i - start ==> is_digit(d[j]),
            acc == dec_val(d.take(i - start)),
        decreases len - i,
    {
        let c = s.get_char(i);
        if !('0' <= c && c <= '9') {
            assert(!is_digit(d[i - start]));
            return None;
        }
        let dv: u32 = (c as u32) - 48;
        proof {
            assert(d.take(i - start + 1).drop_last() =~= d.take(i - start));
            assert(d.take(i - start + 1).last() == d[i - start]);
        }
        if acc > (u32::MAX - dv) / 10 {
            proof {
                let t = i - start + 1;
                assert(dec_val(d.take(t)) == acc * 10 + dv);
                assert(dec_val(d.take(t)) > u32::MAX) by {
                    assert(acc >= (u32::MAX - dv) / 10 + 1);
                    assert(acc * 10 >= ((u32::MAX - dv) / 10 + 1) * 10) by (nonlinear_arith)
                        requires
                            acc >= (u32::MAX - dv) / 10 + 1,
                    ;
                    assert(((u32::MAX - dv) / 10 + 1) * 10 > u32::MAX - dv);
                };
                if forall|j: int| 0 <= j < d.len() ==> is_digit(d[j]) {
                    lemma_dec_val_grows(d, t);
                    assert(dec_val(d) > u32::MAX);
                }
            }
            return None;
        }
        acc = acc * 10 + dv;
        i += 1;
    }
    proof {
        assert(d.take(i - start) =~= d);
    }
    Some(acc)
}

/// The parts joined with `sep` between neighbours.
pub open spec fn join_with(parts: Seq<Seq<char>>, sep: Seq<char>) -> Seq<char>
    decreases parts.len(),
{
    if parts.len() == 0 {
        Seq::empty()
    } else if parts.len() == 1 {
        parts[0]
    } else {
        join_with(parts.drop_last(), sep) + sep + parts.last()
    }
}

/// Join owned strings with a separator.
pub fn join_strings(parts: &Vec<String>, sep: &str) -> (r: String)
    ensures
        r@ == join_with(parts.deep_view(), sep@),
{
    let mut out = String::new();
    let mut i: usize = 0;
    while i < parts.len()
        invariant
            i <= parts.len(),
            parts.deep_view().len() == parts.len(),
            out@ == join_with(parts.deep_view().take(i as int), sep@),
        decreases parts.len() - i,
    {
        if i > 0 {
            out.append(sep);
        }
        out.append(parts[i].as_str());
        proof {
            let dv = parts.deep_view();
            assert(dv.take(i + 1).drop_last() =~= dv.take(i as int));
            assert(dv.take(i + 1).last() == dv[i as int]);
            if i == 0 {
                assert(out@ =~= dv.take(1)[0]);
            }
        }
        i += 1;
    }
    proof {
        assert(parts.deep_view().take(parts.len() as int) =~= parts.deep_view());
    }
    out
}

/// The character for one decimal digit.
pub open spec fn digit_char(d: int) -> char {
    (d + '0' as int) as char
}

/// Decimal text of a non-negative integer, most significant digit first.
pub open spec fn spec_dec_text(n: int) -> Seq<char>
    decreases n,
{
    if n < 0 {
        Seq::empty()
    } else if n < 10 {
        seq![digit_char(n)]
    } else {
        spec_dec_text(n / 10) + seq![digit_char(n % 10)]
    }
}

fn digit_str(d: u32) -> (r: &'static str)
    requires
        d < 10,
    ensures
        r@ == seq![digit_char(d as int)],
{
    let r = match d {
        0 => "0",
        1 => "1",
        2 => "2",
        3 => "3",
        4 => "4",
        5 => "5",
        6 => "6",
        7 => "7",
        8 => "8",
        _ => "9",
    };
    proof {
        reveal_strlit("0");
        reveal_strlit("1");
        reveal_strlit("2");
        reveal_strlit("3");
        reveal_strlit("4");
        reveal_strlit("5");
        reveal_strlit("6");
        reveal_strlit("7");
        reveal_strlit("8");
        reveal_strlit("9");
        assert(r@ =~= seq![digit_char(d as int)]);
    }
    r
}

/// Decimal text of a `u32`.
pub fn u32_to_dec(n: u32) -> (r: String)
    ensures
        r@ == spec_dec_text(n as int),
    decreases n,
{
    if n < 10 {
        String::from_str(digit_str(n))
    } else {
        let mut s = u32_to_dec(n / 10);
        s.append(digit_str(n % 10));
        s
    }
}

} // verus!
