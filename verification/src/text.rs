//! Character-level string helpers with specifications over `Seq<char>`.

use vstd::prelude::*;

verus! {

/// Whether `c` carries the Unicode `White_Space` property, as `char::is_whitespace`
/// reports it: the ASCII tab, line feed, vertical tab, form feed, carriage return and
/// space, and U+0085, U+00A0, U+1680, U+2000 to U+200A, U+2028, U+2029, U+202F, U+205F
/// and U+3000.
pub open spec fn char_is_whitespace(c: char) -> bool {
    let n = c as u32;
    ||| 0x09 <= n <= 0x0d
    ||| n == 0x20
    ||| n == 0x85
    ||| n == 0xa0
    ||| n == 0x1680
    ||| 0x2000 <= n <= 0x200a
    ||| n == 0x2028
    ||| n == 0x2029
    ||| n == 0x202f
    ||| n == 0x205f
    ||| n == 0x3000
}

/// Whether `c` is whitespace.
pub(crate) fn is_whitespace(c: char) -> (b: bool)
    ensures
        b == char_is_whitespace(c),
{
    let n = c as u32;
    (0x09 <= n && n <= 0x0d) || n == 0x20 || n == 0x85 || n == 0xa0 || n == 0x1680 || (0x2000 <= n && n
        <= 0x200a) || n == 0x2028 || n == 0x2029 || n == 0x202f || n == 0x205f || n == 0x3000
}

/// Calls `String::push`: the character is appended at the end.
#[verifier::external_body]
pub(crate) fn push_char(s: &mut String, c: char)
    ensures
        final(s)@ == old(s)@.push(c),
{
    s.push(c)
}

/// What `str::to_lowercase` gives: the Unicode lowercase mapping, which may change a
/// character's length and lowercases a final capital sigma by its context.
pub uninterp spec fn lowercase(s: Seq<char>) -> Seq<char>;

/// Calls `str::to_lowercase`; the result is named by `lowercase`.
#[verifier::external_body]
pub fn to_lowercase(s: &str) -> (r: String)
    ensures
        r@ == lowercase(s@),
{
    s.to_lowercase()
}

/// Collects the characters of `s` into a vector.
pub fn chars_of(s: &str) -> (v: Vec<char>)
    ensures
        v@ == s@,
{
    let mut v: Vec<char> = Vec::new();
    for c in it: s.chars()
        invariant
            v@ == it.seq().take(it.index() as int),
    {
        v.push(c);
    }
    v
}

/// Whether `a` and `b` hold the same characters.
pub fn str_eq(a: &str, b: &str) -> (r: bool)
    ensures
        r == (a@ == b@),
{
    let av = chars_of(a);
    let bv = chars_of(b);
    if av.len() != bv.len() {
        return false;
    }
    let mut i: usize = 0;
    while i < av.len()
        invariant
            i <= av@.len() == bv@.len(),
            av@ == a@,
            bv@ == b@,
            forall|j: int| 0 <= j < i ==> av@[j] == bv@[j],
        decreases av.len() - i,
    {
        if av[i] != bv[i] {
            return false;
        }
        i += 1;
    }
    assert(a@ =~= b@);
    true
}

/// Builds a string from the characters `v[lo..hi]`.
pub fn string_from_chars(v: &[char], lo: usize, hi: usize) -> (s: String)
    requires
        lo <= hi <= v@.len(),
    ensures
        s@ == v@.subrange(lo as int, hi as int),
{
    let mut s = String::new();
    let mut i = lo;
    while i < hi
        invariant
            lo <= i <= hi <= v@.len(),
            s@ == v@.subrange(lo as int, i as int),
        decreases hi - i,
    {
        push_char(&mut s, v[i]);
        assert(v@.subrange(lo as int, i + 1) == v@.subrange(lo as int, i as int).push(v@[i as int]));
        i += 1;
    }
    s
}

/// Number of leading whitespace characters.
pub open spec fn leading_ws(s: Seq<char>) -> nat
    decreases s.len(),
{
    if s.len() == 0 {
        0
    } else if char_is_whitespace(s[0]) {
        1 + leading_ws(s.drop_first())
    } else {
        0
    }
}

/// Number of trailing whitespace characters.
pub open spec fn trailing_ws(s: Seq<char>) -> nat
    decreases s.len(),
{
    if s.len() == 0 {
        0
    } else if char_is_whitespace(s.last()) {
        1 + trailing_ws(s.drop_last())
    } else {
        0
    }
}

/// `str::trim_start`: leading whitespace removed.
pub open spec fn trim_start(s: Seq<char>) -> Seq<char> {
    s.skip(leading_ws(s) as int)
}

/// `str::trim_end`: trailing whitespace removed.
pub open spec fn trim_end(s: Seq<char>) -> Seq<char> {
    s.take(s.len() - trailing_ws(s))
}

/// `str::trim`: leading and trailing whitespace removed.
pub open spec fn trim(s: Seq<char>) -> Seq<char> {
    trim_end(trim_start(s))
}

pub proof fn lemma_leading_ws_bound(s: Seq<char>)
    ensures
        leading_ws(s) <= s.len(),
        forall|i: int| 0 <= i < leading_ws(s) ==> char_is_whitespace(#[trigger] s[i]),
        leading_ws(s) < s.len() ==> !char_is_whitespace(s[leading_ws(s) as int]),
    decreases s.len(),
{
    if s.len() > 0 && char_is_whitespace(s[0]) {
        lemma_leading_ws_bound(s.drop_first());
        assert forall|i: int| 0 <= i < leading_ws(s) implies char_is_whitespace(#[trigger] s[i]) by {
            if i > 0 {
                assert(s[i] == s.drop_first()[i - 1]);
            }
        }
    }
}

pub proof fn lemma_trailing_ws_bound(s: Seq<char>)
    ensures
        trailing_ws(s) <= s.len(),
        forall|i: int| s.len() - trailing_ws(s) <= i < s.len() ==> char_is_whitespace(#[trigger] s[i]),
        trailing_ws(s) < s.len() ==> !char_is_whitespace(s[s.len() - trailing_ws(s) - 1]),
    decreases s.len(),
{
    if s.len() > 0 && char_is_whitespace(s.last()) {
        lemma_trailing_ws_bound(s.drop_last());
        assert forall|i: int| s.len() - trailing_ws(s) <= i < s.len() implies char_is_whitespace(#[trigger] s[i]) by {
            if i < s.len() - 1 {
                assert(s[i] == s.drop_last()[i]);
            }
        }
    }
}

/// Leading whitespace count of `s` from position `i`, when `s[..i]` is all whitespace.
proof fn lemma_leading_ws_step(s: Seq<char>, i: int)
    requires
        0 <= i < s.len(),
        char_is_whitespace(s[i]),
    ensures
        leading_ws(s.skip(i)) == 1 + leading_ws(s.skip(i + 1)),
{
    assert(s.skip(i).drop_first() =~= s.skip(i + 1));
}

proof fn lemma_trailing_ws_step(s: Seq<char>, j: int)
    requires
        0 < j <= s.len(),
        char_is_whitespace(s[j - 1]),
    ensures
        trailing_ws(s.take(j)) == 1 + trailing_ws(s.take(j - 1)),
{
    assert(s.take(j).drop_last() =~= s.take(j - 1));
}

/// Bounds `(lo, hi)` such that `v[lo..hi]` is `v` trimmed of Unicode whitespace.
pub fn trim_bounds(v: &[char]) -> (r: (usize, usize))
    ensures
        r.0 <= r.1 <= v@.len(),
        v@.subrange(r.0 as int, r.1 as int) == trim(v@),
{
    let n = v.len();
    let mut i: usize = 0;
    assert(v@.skip(0) =~= v@);
    while i < n && is_whitespace(v[i])
        invariant
            0 <= i <= n == v@.len(),
            leading_ws(v@) == i + leading_ws(v@.skip(i as int)),
        decreases n - i,
    {
        proof {
            lemma_leading_ws_step(v@, i as int);
        }
        i += 1;
    }
    proof {
        if i < n {
            assert(v@.skip(i as int)[0] == v@[i as int]);
        }
        assert(leading_ws(v@) == i);
    }
    let ghost t = v@.skip(i as int);
    let mut j: usize = n;
    assert(t.take(n - i) =~= t);
    while j > i && is_whitespace(v[j - 1])
        invariant
            i <= j <= n == v@.len(),
            t == v@.skip(i as int),
            trailing_ws(t) == (n - j) + trailing_ws(t.take(j - i)),
        decreases j - i,
    {
        proof {
            assert(t[j - i - 1] == v@[j - 1]);
            lemma_trailing_ws_step(t, j - i);
        }
        j -= 1;
    }
    proof {
        if j > i {
            assert(t.take(j - i).last() == v@[j - 1]);
        }
        assert(trailing_ws(t) == n - j);
        assert(trim(v@) =~= v@.subrange(i as int, j as int));
    }
    (i, j)
}

/// `trim(s)` is the stretch of `s` that begins after its leading whitespace.
pub proof fn lemma_trim_subrange(s: Seq<char>)
    ensures
        leading_ws(s) + trim(s).len() <= s.len(),
        trim(s) == s.subrange(leading_ws(s) as int, (leading_ws(s) + trim(s).len()) as int),
{
    lemma_leading_ws_bound(s);
    let t = trim_start(s);
    lemma_trailing_ws_bound(t);
    assert(trim(s) =~= s.subrange(leading_ws(s) as int, (leading_ws(s) + t.len() - trailing_ws(t)) as int));
}

/// `str::trim` as an owned string.
pub fn trimmed(s: &str) -> (r: String)
    ensures
        r@ == trim(s@),
{
    let v = chars_of(s);
    let (lo, hi) = trim_bounds(v.as_slice());
    string_from_chars(v.as_slice(), lo, hi)
}

/// `char::to_ascii_lowercase`.
pub open spec fn ascii_lower(c: char) -> char {
    if 'A' <= c && c <= 'Z' {
        ((c as u32) + 32) as char
    } else {
        c
    }
}

/// `str::to_ascii_lowercase`.
pub open spec fn ascii_lowercase(s: Seq<char>) -> Seq<char> {
    s.map_values(|c: char| ascii_lower(c))
}

pub fn ascii_lower_char(c: char) -> (r: char)
    ensures
        r == ascii_lower(c),
{
    if 'A' <= c && c <= 'Z' {
        let b = (c as u8) + 32;
        b as char
    } else {
        c
    }
}

/// Lowercases the ASCII letters of `v`, leaving every other character as it is.
pub fn ascii_lowercase_chars(v: &[char]) -> (r: Vec<char>)
    ensures
        r@ == ascii_lowercase(v@),
{
    let mut r: Vec<char> = Vec::new();
    let mut i: usize = 0;
    while i < v.len()
        invariant
            0 <= i <= v@.len(),
            r@ == ascii_lowercase(v@.take(i as int)),
        decreases v.len() - i,
    {
        r.push(ascii_lower_char(v[i]));
        assert(ascii_lowercase(v@.take(i + 1)) =~= ascii_lowercase(v@.take(i as int)).push(ascii_lower(v@[i as int])));
        i += 1;
    }
    assert(v@.take(v@.len() as int) =~= v@);
    r
}


/// `char::len_utf8`: bytes that the character takes in UTF-8.
pub open spec fn char_utf8_width(c: char) -> nat {
    if (c as u32) <= 0x7f {
        1
    } else if (c as u32) <= 0x7ff {
        2
    } else if (c as u32) <= 0xffff {
        3
    } else {
        4
    }
}

/// Bytes that the characters take in UTF-8.
pub open spec fn utf8_len(s: Seq<char>) -> nat
    decreases s.len(),
{
    if s.len() == 0 {
        0
    } else {
        char_utf8_width(s[0]) + utf8_len(s.drop_first())
    }
}

pub fn char_width(c: char) -> (w: usize)
    ensures
        w as nat == char_utf8_width(c),
{
    let v = c as u32;
    if v <= 0x7f {
        1
    } else if v <= 0x7ff {
        2
    } else if v <= 0xffff {
        3
    } else {
        4
    }
}

pub proof fn lemma_utf8_len_concat(a: Seq<char>, b: Seq<char>)
    ensures
        utf8_len(a + b) == utf8_len(a) + utf8_len(b),
    decreases a.len(),
{
    if a.len() > 0 {
        assert((a + b).drop_first() =~= a.drop_first() + b);
        assert((a + b)[0] == a[0]);
        lemma_utf8_len_concat(a.drop_first(), b);
    } else {
        assert(a + b =~= b);
    }
}

pub proof fn lemma_utf8_len_at_least_len(s: Seq<char>)
    ensures
        s.len() <= utf8_len(s),
    decreases s.len(),
{
    if s.len() > 0 {
        lemma_utf8_len_at_least_len(s.drop_first());
    }
}

/// The byte length of a string is `utf8_len` of its characters.
pub proof fn lemma_utf8_len_is_byte_len(s: Seq<char>)
    ensures
        utf8_len(s) == vstd::utf8::encode_utf8(s).len(),
    decreases s.len(),
{
    if s.len() > 0 {
        vstd::utf8::char_is_scalar(s[0]);
        lemma_utf8_len_is_byte_len(s.drop_first());
    }
}

/// `utf8_len` of a prefix, of the last char, and of the whole, split at `i`.
pub proof fn lemma_utf8_len_take(s: Seq<char>, i: int)
    requires
        0 <= i < s.len(),
    ensures
        utf8_len(s.take(i + 1)) == utf8_len(s.take(i)) + char_utf8_width(s[i]),
        utf8_len(s.take(i)) + (s.len() - i) <= utf8_len(s),
{
    assert(s.take(i + 1) =~= s.take(i) + seq![s[i]]);
    lemma_utf8_len_concat(s.take(i), seq![s[i]]);
    assert(seq![s[i]].drop_first() =~= Seq::<char>::empty());
    assert(utf8_len(Seq::<char>::empty()) == 0);
    assert(seq![s[i]][0] == s[i]);
    assert(utf8_len(seq![s[i]]) == char_utf8_width(s[i]));
    assert(s =~= s.take(i) + s.skip(i));
    lemma_utf8_len_concat(s.take(i), s.skip(i));
    lemma_utf8_len_at_least_len(s.skip(i));
}


/// A copy of `v[lo..hi]`.
pub fn subvec(v: &[char], lo: usize, hi: usize) -> (r: Vec<char>)
    requires
        lo <= hi <= v@.len(),
    ensures
        r@ == v@.subrange(lo as int, hi as int),
{
    let mut r: Vec<char> = Vec::new();
    let mut i = lo;
    while i < hi
        invariant
            lo <= i <= hi <= v@.len(),
            r@ == v@.subrange(lo as int, i as int),
        decreases hi - i,
    {
        r.push(v[i]);
        assert(v@.subrange(lo as int, i + 1) =~= v@.subrange(lo as int, i as int).push(v@[i as int]));
        i += 1;
    }
    r
}

/// `str::trim_start_matches(ch)`: every leading `ch` removed.
pub open spec fn strip_leading(s: Seq<char>, ch: char) -> Seq<char>
    decreases s.len(),
{
    if s.len() > 0 && s[0] == ch {
        strip_leading(s.drop_first(), ch)
    } else {
        s
    }
}

/// The number of leading `ch` characters of `v`.
pub fn leading_count(v: &[char], ch: char) -> (n: usize)
    ensures
        n <= v@.len(),
        v@.skip(n as int) == strip_leading(v@, ch),
{
    let mut i: usize = 0;
    assert(v@.skip(0) =~= v@);
    while i < v.len() && v[i] == ch
        invariant
            i <= v@.len(),
            strip_leading(v@, ch) == strip_leading(v@.skip(i as int), ch),
        decreases v.len() - i,
    {
        assert(v@.skip(i as int).drop_first() =~= v@.skip(i + 1));
        assert(v@.skip(i as int)[0] == v@[i as int]);
        i += 1;
    }
    if i < v.len() {
        assert(v@.skip(i as int)[0] == v@[i as int]);
    }
    i
}

pub proof fn lemma_strip_leading_suffix(s: Seq<char>, ch: char)
    ensures
        exists|k: int| 0 <= k <= s.len() && s.skip(k) == #[trigger] strip_leading(s, ch),
    decreases s.len(),
{
    if s.len() > 0 && s[0] == ch {
        lemma_strip_leading_suffix(s.drop_first(), ch);
        let k = choose|k: int| 0 <= k <= s.drop_first().len() && s.drop_first().skip(k) == #[trigger] strip_leading(s.drop_first(), ch);
        assert(s.skip(k + 1) =~= s.drop_first().skip(k));
    } else {
        assert(s.skip(0) =~= s);
    }
}

pub proof fn lemma_utf8_len_ascii_lowercase(s: Seq<char>)
    ensures
        utf8_len(ascii_lowercase(s)) == utf8_len(s),
        ascii_lowercase(s).len() == s.len(),
    decreases s.len(),
{
    if s.len() > 0 {
        assert(ascii_lowercase(s).drop_first() =~= ascii_lowercase(s.drop_first()));
        lemma_utf8_len_ascii_lowercase(s.drop_first());
    }
}

pub proof fn lemma_utf8_len_skip(s: Seq<char>, k: int)
    requires
        0 <= k <= s.len(),
    ensures
        utf8_len(s.skip(k)) <= utf8_len(s),
{
    assert(s =~= s.take(k) + s.skip(k));
    lemma_utf8_len_concat(s.take(k), s.skip(k));
}


/// Appends the characters of `b` to `s`.
pub fn push_all(s: &mut String, b: &str)
    ensures
        final(s)@ == old(s)@ + b@,
{
    let v = chars_of(b);
    let mut i: usize = 0;
    while i < v.len()
        invariant
            i <= v@.len(),
            v@ == b@,
            s@ == old(s)@ + v@.take(i as int),
        decreases v.len() - i,
    {
        push_char(s, v[i]);
        assert(v@.take(i + 1) =~= v@.take(i as int).push(v@[i as int]));
        i += 1;
    }
    assert(v@.take(v@.len() as int) =~= v@);
}

/// `a` followed by `b`, as a new string.
pub fn concat(a: &str, b: &str) -> (r: String)
    ensures
        r@ == a@ + b@,
{
    let mut s = String::new();
    push_all(&mut s, a);
    push_all(&mut s, b);
    assert(Seq::<char>::empty() + a@ =~= a@);
    s
}

/// `parts` joined with `sep` between each two, as `[..].join(sep)` gives.
pub open spec fn joined(parts: Seq<Seq<char>>, sep: Seq<char>) -> Seq<char>
    decreases parts.len(),
{
    if parts.len() == 0 {
        Seq::empty()
    } else if parts.len() == 1 {
        parts[0]
    } else {
        joined(parts.drop_last(), sep) + sep + parts.last()
    }
}

/// The characters of each string.
pub open spec fn views(parts: Seq<String>) -> Seq<Seq<char>> {
    parts.map_values(|p: String| p@)
}

/// Joins `parts` with `sep`.
pub fn join(parts: &[String], sep: &str) -> (r: String)
    ensures
        r@ == joined(views(parts@), sep@),
{
    let mut r = String::new();
    let mut i: usize = 0;
    while i < parts.len()
        invariant
            i <= parts@.len(),
            r@ == joined(views(parts@.take(i as int)), sep@),
        decreases parts.len() - i,
    {
        proof {
            assert(views(parts@.take(i + 1)).drop_last() =~= views(parts@.take(i as int)));
            assert(views(parts@.take(i + 1)).last() == parts@[i as int]@);
        }
        if i > 0 {
            push_all(&mut r, sep);
        }
        push_all(&mut r, parts[i].as_str());
        proof {
            if i == 0 {
                assert(views(parts@.take(1))[0] == parts@[0]@);
                assert(r@ =~= Seq::<char>::empty() + parts@[0]@);
            }
        }
        i += 1;
    }
    proof {
        assert(parts@.take(parts@.len() as int) =~= parts@);
    }
    r
}

/// Line breaks made uniform: each `"\r\n"` and each remaining `'\r'` becomes `'\n'`, as
/// `s.replace("\r\n", "\n").replace('\r', "\n")` does.
pub open spec fn normalize_newlines(s: Seq<char>) -> Seq<char>
    decreases s.len(),
{
    if s.len() == 0 {
        Seq::empty()
    } else if s[0] == '\r' && s.len() > 1 && s[1] == '\n' {
        seq!['\n'] + normalize_newlines(s.skip(2))
    } else if s[0] == '\r' {
        seq!['\n'] + normalize_newlines(s.drop_first())
    } else {
        seq![s[0]] + normalize_newlines(s.drop_first())
    }
}

/// Normalizes the line breaks of `s`.
pub fn normalized_newlines(s: &str) -> (r: String)
    ensures
        r@ == normalize_newlines(s@),
{
    let v = chars_of(s);
    let mut r = String::new();
    let mut i: usize = 0;
    assert(v@.skip(0) =~= v@);
    while i < v.len()
        invariant
            i <= v@.len(),
            r@ + normalize_newlines(v@.skip(i as int)) == normalize_newlines(v@),
        decreases v.len() - i,
    {
        let ghost rest = v@.skip(i as int);
        let ghost prev = r@;
        assert(rest[0] == v@[i as int]);
        assert(rest.drop_first() =~= v@.skip(i + 1));
        if v[i] == '\r' && i + 1 < v.len() && v[i + 1] == '\n' {
            assert(rest[1] == v@[i + 1]);
            assert(rest.skip(2) =~= v@.skip(i + 2));
            push_char(&mut r, '\n');
            assert(r@ + normalize_newlines(v@.skip(i + 2)) =~= prev + (seq!['\n'] + normalize_newlines(rest.skip(2))));
            i += 2;
        } else if v[i] == '\r' {
            push_char(&mut r, '\n');
            assert(r@ + normalize_newlines(v@.skip(i + 1)) =~= prev + (seq!['\n'] + normalize_newlines(rest.drop_first())));
            i += 1;
        } else {
            let c = v[i];
            push_char(&mut r, c);
            assert(r@ + normalize_newlines(v@.skip(i + 1)) =~= prev + (seq![c] + normalize_newlines(rest.drop_first())));
            i += 1;
        }
    }
    assert(r@ + Seq::<char>::empty() =~= r@);
    r
}

} // verus!
