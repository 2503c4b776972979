//! Calendar colors written as `#RRGGBB`.

use vstd::prelude::*;
use crate::text::{chars_of, leading_count, strip_leading, utf8_len, char_width, char_utf8_width, lemma_utf8_len_take};

verus! {

/// `c` is a hexadecimal digit.
pub open spec fn is_hex_digit(c: char) -> bool {
    ('0' <= c && c <= '9') || ('a' <= c && c <= 'f') || ('A' <= c && c <= 'F')
}

/// The value of a hexadecimal digit.
pub open spec fn hex_value(c: char) -> nat {
    if '0' <= c && c <= '9' {
        (c as nat - '0' as nat) as nat
    } else if 'a' <= c && c <= 'f' {
        (c as nat - 'a' as nat + 10) as nat
    } else {
        (c as nat - 'A' as nat + 10) as nat
    }
}

/// What `u8::from_str_radix(p, 16)` gives for a two-byte text `p`: two hex digits, or a
/// plus sign and one; anything else is refused.
pub open spec fn pair_value(p: Seq<char>) -> Option<u8> {
    if p.len() == 2 && p[0] == '+' && is_hex_digit(p[1]) {
        Some(hex_value(p[1]) as u8)
    } else if p.len() == 2 && is_hex_digit(p[0]) && is_hex_digit(p[1]) {
        Some((16 * hex_value(p[0]) + hex_value(p[1])) as u8)
    } else {
        None
    }
}

/// Some leading characters of `t` take exactly `b` bytes.
pub open spec fn has_boundary(t: Seq<char>, b: nat) -> bool {
    exists|k: int| 0 <= k <= t.len() && #[trigger] utf8_len(t.take(k)) == b
}

/// How many leading characters of `t` take exactly `b` bytes.
pub open spec fn byte_index(t: Seq<char>, b: nat) -> int {
    choose|k: int| 0 <= k <= t.len() && #[trigger] utf8_len(t.take(k)) == b
}

/// The color `#RRGGBB` names: the leading `#` signs are dropped, and the first six bytes
/// must be three pairs that parse.
pub open spec fn hex_color(s: Seq<char>) -> Option<(u8, u8, u8)> {
    let t = strip_leading(s, '#');
    if utf8_len(t) < 6 {
        None
    } else {
        let a = byte_index(t, 2);
        let b = byte_index(t, 4);
        let c = byte_index(t, 6);
        match (pair_value(t.subrange(0, a)), pair_value(t.subrange(a, b)), pair_value(t.subrange(b, c))) {
            (Some(r), Some(g), Some(bl)) => Some((r, g, bl)),
            _ => None,
        }
    }
}

/// Longer prefixes take more bytes.
pub proof fn lemma_prefix_bytes_increase(t: Seq<char>, i: int, j: int)
    requires
        0 <= i < j <= t.len(),
    ensures
        utf8_len(t.take(i)) < utf8_len(t.take(j)),
    decreases j - i,
{
    lemma_utf8_len_take(t, j - 1);
    if i < j - 1 {
        lemma_prefix_bytes_increase(t, i, j - 1);
    }
}

/// Finds how many leading characters take exactly `b` bytes, counting on from `k`
/// characters that take `bytes`.
fn index_of_byte(t: &[char], b: usize, start: usize, start_bytes: usize) -> (r: (usize, usize))
    requires
        start <= t@.len(),
        start_bytes == utf8_len(t@.take(start as int)),
        start_bytes <= b <= 6,
        has_boundary(t@, b as nat),
    ensures
        r.0 == byte_index(t@, b as nat),
        start <= r.0 <= t@.len(),
        r.1 == b,
        utf8_len(t@.take(r.0 as int)) == b,
{
    let mut i = start;
    let mut bytes = start_bytes;
    while bytes < b && i < t.len()
        invariant
            start <= i <= t@.len(),
            bytes == utf8_len(t@.take(i as int)),
            start_bytes <= b <= 6,
            has_boundary(t@, b as nat),
            bytes <= b + 4,
            i > start ==> utf8_len(t@.take(i - 1)) < b,
        decreases t.len() - i,
    {
        proof {
            lemma_utf8_len_take(t@, i as int);
        }
        bytes = bytes + char_width(t[i]);
        i += 1;
    }
    proof {
        let k = choose|k: int| 0 <= k <= t@.len() && #[trigger] utf8_len(t@.take(k)) == b;
        if k < i {
            if k < i - 1 {
                lemma_prefix_bytes_increase(t@, k, i - 1);
            }
            if i == start {
                lemma_prefix_bytes_increase(t@, k, i as int);
            }
        }
        if k > i {
            lemma_prefix_bytes_increase(t@, i as int, k);
        }
        assert(k == i);
        assert(byte_index(t@, b as nat) == i);
    }
    (i, bytes)
}

fn hex_digit_value(c: char) -> (r: Option<u8>)
    ensures
        r == if is_hex_digit(c) { Some(hex_value(c) as u8) } else { None::<u8> },
{
    if '0' <= c && c <= '9' {
        Some(((c as u32) - ('0' as u32)) as u8)
    } else if 'a' <= c && c <= 'f' {
        Some(((c as u32) - ('a' as u32) + 10) as u8)
    } else if 'A' <= c && c <= 'F' {
        Some(((c as u32) - ('A' as u32) + 10) as u8)
    } else {
        None
    }
}

fn parse_pair(t: &[char], lo: usize, hi: usize) -> (r: Option<u8>)
    requires
        lo <= hi <= t@.len(),
    ensures
        r == pair_value(t@.subrange(lo as int, hi as int)),
{
    if hi - lo != 2 {
        return None;
    }
    let c0 = t[lo];
    let c1 = t[lo + 1];
    if c0 == '+' {
        return hex_digit_value(c1);
    }
    match (hex_digit_value(c0), hex_digit_value(c1)) {
        (Some(a), Some(b)) => Some(16 * a + b),
        _ => None,
    }
}

/// Reads a color written as `#RRGGBB`; none where it is not one.
pub fn parse_hex_color(hex: &str) -> (r: Option<(u8, u8, u8)>)
    requires
        utf8_len(strip_leading(hex@, '#')) >= 6 ==> has_boundary(strip_leading(hex@, '#'), 2) && has_boundary(
            strip_leading(hex@, '#'),
            4,
        ) && has_boundary(strip_leading(hex@, '#'), 6),
    ensures
        r == hex_color(hex@),
{
    let v = chars_of(hex);
    let n = leading_count(v.as_slice(), '#');
    let mut t: Vec<char> = Vec::new();
    let mut j = n;
    while j < v.len()
        invariant
            n <= j <= v@.len(),
            t@ == v@.subrange(n as int, j as int),
        decreases v.len() - j,
    {
        t.push(v[j]);
        proof {
            assert(v@.subrange(n as int, j + 1) =~= v@.subrange(n as int, j as int).push(v@[j as int]));
        }
        j += 1;
    }
    proof {
        assert(t@ =~= strip_leading(hex@, '#'));
    }
    let mut total: usize = 0;
    let mut i: usize = 0;
    while i < t.len() && total < 6
        invariant
            i <= t@.len(),
            total == utf8_len(t@.take(i as int)),
            total < 10,
        decreases t.len() - i,
    {
        proof {
            lemma_utf8_len_take(t@, i as int);
        }
        total = total + char_width(t[i]);
        i += 1;
    }
    if total < 6 {
        proof {
            assert(t@.take(i as int) =~= t@);
        }
        return None;
    }
    proof {
        if i < t@.len() {
            assert(t@ =~= t@.take(i as int) + t@.skip(i as int));
            crate::text::lemma_utf8_len_concat(t@.take(i as int), t@.skip(i as int));
        } else {
            assert(t@.take(i as int) =~= t@);
        }
        assert(t@.take(0) =~= Seq::<char>::empty());
    }
    let (a, _) = index_of_byte(t.as_slice(), 2, 0, 0);
    let (b, _) = index_of_byte(t.as_slice(), 4, a, 2);
    let (c, _) = index_of_byte(t.as_slice(), 6, b, 4);
    match (parse_pair(t.as_slice(), 0, a), parse_pair(t.as_slice(), a, b), parse_pair(t.as_slice(), b, c)) {
        (Some(red), Some(green), Some(blue)) => Some((red, green, blue)),
        _ => None,
    }
}

} // verus!
