//! Dotted-decimal IPv4 addresses: the syntax accepted for entries of the
//! MMDS address pool, and a verified parser for it.
//!
//! A valid address is four decimal components separated by `.`, each one
//! to three digits, without leading zeros (except `0` itself), and at
//! most 255.

use vstd::prelude::*;

verus! {

/// A parsed IPv4 address, one field per octet.
#[derive(Clone, Copy, Debug, PartialEq, Eq, Structural)]
pub struct Ipv4Addr {
    pub a: u8,
    pub b: u8,
    pub c: u8,
    pub d: u8,
}

/// The failure of [`parse_ipv4`]: the input is not dotted-decimal IPv4
/// syntax. Carries no data; the offending entry is known to the caller.
#[derive(Clone, Copy, Debug, PartialEq, Eq, Structural)]
pub struct AddrParseError {}

pub open spec fn is_digit(c: char) -> bool {
    '0' <= c && c <= '9'
}

pub open spec fn digit_val(c: char) -> int {
    c as int - '0' as int
}

pub open spec fn all_digits(s: Seq<char>) -> bool {
    forall|i: int| 0 <= i < s.len() ==> is_digit(#[trigger] s[i])
}

/// The number denoted by a digit string, most significant digit first.
pub open spec fn dec_val(s: Seq<char>) -> int
    decreases s.len(),
{
    if s.len() == 0 {
        0
    } else {
        dec_val(s.drop_last()) * 10 + digit_val(s.last())
    }
}

/// One component of a dotted-decimal address: one to three digits, no
/// leading zero unless the component is exactly `0`, value at most 255.
pub open spec fn is_octet(s: Seq<char>) -> bool {
    &&& 1 <= s.len() <= 3
    &&& all_digits(s)
    &&& (s.len() > 1 ==> s[0] != '0')
    &&& dec_val(s) <= 255
}

/// `i < j < k` are the positions of the three dots splitting `s` into
/// four octet components.
pub open spec fn valid_split(s: Seq<char>, i: int, j: int, k: int) -> bool {
    &&& 0 <= i < j < k < s.len()
    &&& s[i] == '.'
    &&& s[j] == '.'
    &&& s[k] == '.'
    &&& is_octet(s.subrange(0, i))
    &&& is_octet(s.subrange(i + 1, j))
    &&& is_octet(s.subrange(j + 1, k))
    &&& is_octet(s.subrange(k + 1, s.len() as int))
}

/// `s` is dotted-decimal IPv4 syntax.
pub open spec fn is_valid_ipv4(s: Seq<char>) -> bool {
    exists|i: int, j: int, k: int| valid_split(s, i, j, k)
}

/// The four octet values of a valid address, in order; `None` where the
/// syntax is invalid. Well defined because the split is unique
/// ([`lemma_split_unique`]).
pub open spec fn ipv4_spec(s: Seq<char>) -> Option<(int, int, int, int)> {
    if is_valid_ipv4(s) {
        let (i, j, k) = choose|i: int, j: int, k: int| valid_split(s, i, j, k);
        Some(
            (
                dec_val(s.subrange(0, i)),
                dec_val(s.subrange(i + 1, j)),
                dec_val(s.subrange(j + 1, k)),
                dec_val(s.subrange(k + 1, s.len() as int)),
            ),
        )
    } else {
        None
    }
}

/// The view of a parsed address as the tuple of its octet values.
pub open spec fn addr_octets(a: Ipv4Addr) -> (int, int, int, int) {
    (a.a as int, a.b as int, a.c as int, a.d as int)
}

/// In a valid split, every position other than the three split points
/// holds a non-dot character.
proof fn lemma_no_other_dots(s: Seq<char>, i: int, j: int, k: int, p: int)
    requires
        valid_split(s, i, j, k),
        0 <= p < s.len(),
        p != i,
        p != j,
        p != k,
    ensures
        s[p] != '.',
{
    if p < i {
        assert(is_digit(s.subrange(0, i)[p]));
    } else if p < j {
        assert(is_digit(s.subrange(i + 1, j)[p - (i + 1)]));
    } else if p < k {
        assert(is_digit(s.subrange(j + 1, k)[p - (j + 1)]));
    } else {
        assert(is_digit(s.subrange(k + 1, s.len() as int)[p - (k + 1)]));
    }
}

/// In a valid split, every dot of the string is one of the three split
/// points.
proof fn lemma_dot_is_split_point(s: Seq<char>, i: int, j: int, k: int, p: int)
    requires
        valid_split(s, i, j, k),
        0 <= p < s.len(),
        s[p] == '.',
    ensures
        p == i || p == j || p == k,
{
    if p != i && p != j && p != k {
        lemma_no_other_dots(s, i, j, k, p);
    }
}

/// A string has at most one valid split: the dots of the string are
/// exactly the three split points, so two splits name the same points.
pub proof fn lemma_split_unique(s: Seq<char>, i1: int, j1: int, k1: int, i2: int, j2: int, k2: int)
    requires
        valid_split(s, i1, j1, k1),
        valid_split(s, i2, j2, k2),
    ensures
        i1 == i2,
        j1 == j2,
        k1 == k2,
{
    lemma_dot_is_split_point(s, i1, j1, k1, i2);
    lemma_dot_is_split_point(s, i1, j1, k1, j2);
    lemma_dot_is_split_point(s, i1, j1, k1, k2);
    lemma_dot_is_split_point(s, i2, j2, k2, i1);
    lemma_dot_is_split_point(s, i2, j2, k2, j1);
    lemma_dot_is_split_point(s, i2, j2, k2, k1);
}

/// A digit string's value is bounded by its length.
proof fn lemma_dec_val_bounds(s: Seq<char>)
    requires
        all_digits(s),
    ensures
        0 <= dec_val(s),
        s.len() == 0 ==> dec_val(s) == 0,
        s.len() == 1 ==> dec_val(s) <= 9,
        s.len() == 2 ==> dec_val(s) <= 99,
        s.len() == 3 ==> dec_val(s) <= 999,
    decreases s.len(),
{
    if s.len() > 0 {
        assert(all_digits(s.drop_last())) by {
            assert(forall|i: int|
                0 <= i < s.len() - 1 ==> #[trigger] s.drop_last()[i] == s[i]);
        }
        lemma_dec_val_bounds(s.drop_last());
        assert(is_digit(s.last()));
    }
}

/// Parse the component of `s` at `[start, end)` as one octet.
/// Returns its value exactly when the component is octet syntax.
fn parse_octet(s: &str, start: usize, end: usize) -> (r: Option<u8>)
    requires
        start <= end <= s@.len(),
    ensures
        r matches Some(v) ==> is_octet(s@.subrange(start as int, end as int)) && v as int
            == dec_val(s@.subrange(start as int, end as int)),
        r is None ==> !is_octet(s@.subrange(start as int, end as int)),
{
    let ghost seg = s@.subrange(start as int, end as int);
    let len = end - start;
    if len < 1 || len > 3 {
        return None;
    }
    let mut v: u32 = 0;
    let mut idx: usize = 0;
    while idx < len
        invariant
            start <= end <= s@.len(),
            len == end - start,
            1 <= len <= 3,
            0 <= idx <= len,
            seg == s@.subrange(start as int, end as int),
            all_digits(seg.subrange(0, idx as int)),
            v == dec_val(seg.subrange(0, idx as int)),
            v <= 999,
        decreases len - idx,
    {
        let c = s.get_char(start + idx);
        assert(c == seg[idx as int]);
        if (c as u32) < ('0' as u32) || (c as u32) > ('9' as u32) {
            assert(!is_digit(seg[idx as int]));
            return None;
        }
        let d: u32 = (c as u32) - ('0' as u32);
        proof {
            lemma_dec_val_bounds(seg.subrange(0, idx as int));
            assert(seg.subrange(0, idx + 1).drop_last() =~= seg.subrange(0, idx as int));
            assert(seg.subrange(0, idx + 1).last() == seg[idx as int]);
            assert(d == digit_val(seg[idx as int]));
        }
        v = v * 10 + d;
        idx = idx + 1;
        proof {
            assert forall|p: int| 0 <= p < idx implies is_digit(
                #[trigger] seg.subrange(0, idx as int)[p],
            ) by {
                if p < idx - 1 {
                    assert(is_digit(seg.subrange(0, idx - 1)[p]));
                }
            }
        }
    }
    assert(seg.subrange(0, len as int) =~= seg);
    if len > 1 {
        let c0 = s.get_char(start);
        assert(c0 == seg[0]);
        if (c0 as u32) == ('0' as u32) {
            assert(seg[0] == '0');
            return None;
        }
    }
    if v > 255 {
        return None;
    }
    Some(v as u8)
}

/// The position of the first `.` in `s` at or after `from`, if any.
fn find_dot(s: &str, from: usize, n: usize) -> (r: Option<usize>)
    requires
        from <= n,
        n == s@.len(),
    ensures
        r matches Some(p) ==> from <= p < n && s@[p as int] == '.' && (forall|q: int|
            from <= q < p ==> s@[q] != '.'),
        r is None ==> forall|q: int| from <= q < n ==> s@[q] != '.',
{
    let mut idx: usize = from;
    while idx < n
        invariant
            from <= idx <= n,
            n == s@.len(),
            forall|q: int| from <= q < idx ==> s@[q] != '.',
        decreases n - idx,
    {
        let c = s.get_char(idx);
        if (c as u32) == ('.' as u32) {
            assert(s@[idx as int] == '.');
            return Some(idx);
        }
        assert(s@[idx as int] != '.');
        idx = idx + 1;
    }
    None
}

/// The positions of the dots of `s`, provided there are exactly three.
/// On `None` the string has no valid split.
fn split_points(s: &str, n: usize) -> (r: Option<(usize, usize, usize)>)
    requires
        n == s@.len(),
    ensures
        r matches Some(t) ==> (t.0 as int) < (t.1 as int) < (t.2 as int) < (n as int)
            && s@[t.0 as int] == '.' && s@[t.1 as int] == '.' && s@[t.2 as int] == '.'
            && (forall|q: int|
            0 <= q < n && q != t.0 as int && q != t.1 as int && q != t.2 as int ==> s@[q] != '.'),
        r is None ==> !is_valid_ipv4(s@),
{
    let i = match find_dot(s, 0, n) {
        Some(p) => p,
        None => {
            proof {
                if is_valid_ipv4(s@) {
                    let (ci, cj, ck) = choose|ci: int, cj: int, ck: int|
                        valid_split(s@, ci, cj, ck);
                    assert(s@[ci] == '.');
                }
            }
            return None;
        },
    };
    let j = match find_dot(s, i + 1, n) {
        Some(p) => p,
        None => {
            proof {
                if is_valid_ipv4(s@) {
                    let (ci, cj, ck) = choose|ci: int, cj: int, ck: int|
                        valid_split(s@, ci, cj, ck);
                    // `i` is the first dot, so `ci >= i`, and `cj > ci`
                    // is a dot past `i` -- yet none exists.
                    assert(s@[ci] == '.');
                    assert(s@[cj] == '.');
                }
            }
            return None;
        },
    };
    let k = match find_dot(s, j + 1, n) {
        Some(p) => p,
        None => {
            proof {
                if is_valid_ipv4(s@) {
                    let (ci, cj, ck) = choose|ci: int, cj: int, ck: int|
                        valid_split(s@, ci, cj, ck);
                    // `j` is the first dot past `i`, so `cj >= j` and the
                    // dot `ck > cj` lies past `j` -- yet none exists.
                    assert(s@[ci] == '.');
                    assert(s@[cj] == '.');
                    assert(s@[ck] == '.');
                }
            }
            return None;
        },
    };
    match find_dot(s, k + 1, n) {
        Some(p) => {
            proof {
                if is_valid_ipv4(s@) {
                    let (ci, cj, ck) = choose|ci: int, cj: int, ck: int|
                        valid_split(s@, ci, cj, ck);
                    // Four distinct dots, but a valid split admits three.
                    lemma_dot_is_split_point(s@, ci, cj, ck, i as int);
                    lemma_dot_is_split_point(s@, ci, cj, ck, j as int);
                    lemma_dot_is_split_point(s@, ci, cj, ck, k as int);
                    lemma_dot_is_split_point(s@, ci, cj, ck, p as int);
                }
            }
            None
        },
        None => Some((i, j, k)),
    }
}

/// Parse `s` as a dotted-decimal IPv4 address.
///
/// Succeeds exactly on valid syntax ([`is_valid_ipv4`]), and then returns
/// the four octet values of the unique split ([`ipv4_spec`]).
pub fn parse_ipv4(s: &str) -> (r: Result<Ipv4Addr, AddrParseError>)
    ensures
        r is Ok <==> is_valid_ipv4(s@),
        r matches Ok(a) ==> Some(addr_octets(a)) == ipv4_spec(s@),
{
    let n = s.unicode_len();
    let (i, j, k) = match split_points(s, n) {
        Some(t) => t,
        None => {
            return Err(AddrParseError {});
        },
    };
    let oa = parse_octet(s, 0, i);
    let ob = parse_octet(s, i + 1, j);
    let oc = parse_octet(s, j + 1, k);
    let od = parse_octet(s, k + 1, n);
    match (oa, ob, oc, od) {
        (Some(a), Some(b), Some(c), Some(d)) => {
            proof {
                assert(valid_split(s@, i as int, j as int, k as int));
                let (ci, cj, ck) = choose|ci: int, cj: int, ck: int| valid_split(s@, ci, cj, ck);
                lemma_split_unique(s@, i as int, j as int, k as int, ci, cj, ck);
            }
            Ok(Ipv4Addr { a, b, c, d })
        },
        _ => {
            proof {
                if is_valid_ipv4(s@) {
                    let (ci, cj, ck) = choose|ci: int, cj: int, ck: int|
                        valid_split(s@, ci, cj, ck);
                    // The split points of a valid split are dots, and the
                    // only dots are `i`, `j`, `k`; ordering makes them
                    // equal, so every component is octet syntax and each
                    // parse above must have succeeded.
                    assert(ci == i as int && cj == j as int && ck == k as int);
                }
            }
            Err(AddrParseError {})
        },
    }
}

} // verus!
