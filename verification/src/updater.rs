//! Update check: reading the release tag out of a release description and
//! comparing dotted versions.

use vstd::prelude::*;
use vstd::string::StrSliceExecFns;
use vstd::string::StringExecFns;
use vstd::utf8::decode_utf8;
use vstd::utf8::valid_utf8;

verus! {

/// The UTF-16 code units of one character.
pub open spec fn utf16_of_char(c: char) -> Seq<u16> {
    let v = c as int;
    if v < 0x10000 {
        seq![v as u16]
    } else {
        seq![
            (0xD800 + (v - 0x10000) / 0x400) as u16,
            (0xDC00 + (v - 0x10000) % 0x400) as u16,
        ]
    }
}

/// The UTF-16 encoding of a character sequence.
pub open spec fn utf16_of(s: Seq<char>) -> Seq<u16>
    decreases s.len(),
{
    if s.len() == 0 {
        Seq::empty()
    } else {
        utf16_of(s.drop_last()) + utf16_of_char(s.last())
    }
}

/// The characters of `s`, in order.
pub(crate) fn chars_of(s: &str) -> (r: Vec<char>)
    ensures
        r@ == s@,
{
    let mut r: Vec<char> = Vec::new();
    for c in it: s.chars()
        invariant
            it.seq() == s@,
            r@ == it.seq().take(it.index() as int),
    {
        r.push(c);
    }
    r
}

/// Pushes the UTF-16 code units of `c` onto `out`.
fn push_utf16(out: &mut Vec<u16>, c: char)
    ensures
        final(out)@ == old(out)@ + utf16_of_char(c),
{
    let v: u32 = c as u32;
    if v < 0x10000 {
        out.push(v as u16);
    } else {
        let w: u32 = v - 0x10000;
        out.push((0xD800 + w / 0x400) as u16);
        out.push((0xDC00 + w % 0x400) as u16);
    }
}

/// `s` as a NUL-terminated UTF-16 string, as Win32 wide-string parameters take it.
pub fn wide(s: &str) -> (r: Vec<u16>)
    ensures
        r@ == utf16_of(s@) + seq![0u16],
{
    let cs = chars_of(s);
    let mut r: Vec<u16> = Vec::new();
    let mut i: usize = 0;
    while i < cs.len()
        invariant
            i <= cs@.len(),
            cs@ == s@,
            r@ == utf16_of(cs@.take(i as int)),
        decreases cs@.len() - i,
    {
        assert(cs@.take(i + 1).drop_last() == cs@.take(i as int));
        push_utf16(&mut r, cs[i]);
        i = i + 1;
    }
    assert(cs@.take(cs@.len() as int) == cs@);
    r.push(0u16);
    r
}

// ---------------------------------------------------------------------------
// Searching character sequences
// ---------------------------------------------------------------------------

/// `i` is the first index of `c` in `s`.
pub open spec fn is_first_char(s: Seq<char>, c: char, i: int) -> bool {
    &&& 0 <= i < s.len()
    &&& s[i] == c
    &&& forall|k: int| 0 <= k < i ==> #[trigger] s[k] != c
}

/// The first index of `c` in `s`, if `c` occurs in `s`.
pub open spec fn find_char(s: Seq<char>, c: char) -> Option<int> {
    if exists|i: int| is_first_char(s, c, i) {
        Some(choose|i: int| is_first_char(s, c, i))
    } else {
        None
    }
}

/// `pat` occurs in `s` starting at index `i`.
pub open spec fn occurs_at(s: Seq<char>, pat: Seq<char>, i: int) -> bool {
    &&& 0 <= i
    &&& i + pat.len() <= s.len()
    &&& s.subrange(i, i + pat.len()) == pat
}

/// `i` is the leftmost occurrence of `pat` in `s`.
pub open spec fn is_first_occurrence(s: Seq<char>, pat: Seq<char>, i: int) -> bool {
    &&& occurs_at(s, pat, i)
    &&& forall|k: int| 0 <= k < i ==> !#[trigger] occurs_at(s, pat, k)
}

/// The index of the leftmost occurrence of `pat` in `s`, if there is one.
pub open spec fn find_seq(s: Seq<char>, pat: Seq<char>) -> Option<int> {
    if exists|i: int| is_first_occurrence(s, pat, i) {
        Some(choose|i: int| is_first_occurrence(s, pat, i))
    } else {
        None
    }
}

/// Unicode `White_Space`, the characters that `char::is_whitespace` accepts.
pub open spec fn is_whitespace(c: char) -> bool {
    let v = c as u32;
    ||| 0x09 <= v <= 0x0D
    ||| v == 0x20
    ||| v == 0x85
    ||| v == 0xA0
    ||| v == 0x1680
    ||| 0x2000 <= v <= 0x200A
    ||| v == 0x2028
    ||| v == 0x2029
    ||| v == 0x202F
    ||| v == 0x205F
    ||| v == 0x3000
}

/// `i` is the first index of `s` that holds no whitespace.
pub open spec fn is_first_non_whitespace(s: Seq<char>, i: int) -> bool {
    &&& 0 <= i < s.len()
    &&& !is_whitespace(s[i])
    &&& forall|k: int| 0 <= k < i ==> is_whitespace(#[trigger] s[k])
}

/// `s` without its leading whitespace.
pub open spec fn trim_start(s: Seq<char>) -> Seq<char> {
    if exists|i: int| is_first_non_whitespace(s, i) {
        s.skip(choose|i: int| is_first_non_whitespace(s, i))
    } else {
        Seq::empty()
    }
}

proof fn lemma_find_char_found(s: Seq<char>, c: char, i: int)
    requires
        is_first_char(s, c, i),
    ensures
        find_char(s, c) == Some(i),
{
    let j = choose|j: int| is_first_char(s, c, j);
    if i < j {
        assert(s[i] != c);
    } else if j < i {
        assert(s[j] != c);
    }
}

proof fn lemma_find_char_none(s: Seq<char>, c: char)
    requires
        forall|k: int| 0 <= k < s.len() ==> #[trigger] s[k] != c,
    ensures
        find_char(s, c) is None,
{
    assert forall|i: int| !is_first_char(s, c, i) by {
        if 0 <= i < s.len() {
            assert(s[i] != c);
        }
    }
}

pub(crate) proof fn lemma_trim_start_found(s: Seq<char>, i: int)
    requires
        is_first_non_whitespace(s, i),
    ensures
        trim_start(s) == s.skip(i),
{
    let j = choose|j: int| is_first_non_whitespace(s, j);
    if i < j {
        assert(is_whitespace(s[i]));
    } else if j < i {
        assert(is_whitespace(s[j]));
    }
}

pub(crate) proof fn lemma_trim_start_none(s: Seq<char>)
    requires
        forall|k: int| 0 <= k < s.len() ==> is_whitespace(#[trigger] s[k]),
    ensures
        trim_start(s) == Seq::<char>::empty(),
{
    assert forall|i: int| !is_first_non_whitespace(s, i) by {
        if 0 <= i < s.len() {
            assert(is_whitespace(s[i]));
        }
    }
}

proof fn lemma_first_occurrence_found(s: Seq<char>, pat: Seq<char>, i: int)
    requires
        is_first_occurrence(s, pat, i),
    ensures
        find_seq(s, pat) == Some(i),
{
    let j = choose|j: int| is_first_occurrence(s, pat, j);
    if i < j {
        assert(!occurs_at(s, pat, i));
    } else if j < i {
        assert(!occurs_at(s, pat, j));
    }
}

proof fn lemma_first_occurrence_none(s: Seq<char>, pat: Seq<char>)
    requires
        forall|k: int| 0 <= k ==> !#[trigger] occurs_at(s, pat, k),
    ensures
        find_seq(s, pat) is None,
{
    assert forall|i: int| !is_first_occurrence(s, pat, i) by {
        if 0 <= i {
            assert(!occurs_at(s, pat, i));
        }
    }
}

/// The first index `i` in `lo..hi` with `cs[i] == c`.
fn find_char_in(cs: &Vec<char>, lo: usize, hi: usize, c: char) -> (r: Option<usize>)
    requires
        lo <= hi <= cs@.len(),
    ensures
        match r {
            Some(i) => lo <= i < hi && find_char(cs@.subrange(lo as int, hi as int), c) == Some(
                i - lo,
            ),
            None => find_char(cs@.subrange(lo as int, hi as int), c) is None,
        },
{
    let ghost w = cs@.subrange(lo as int, hi as int);
    let mut i: usize = lo;
    while i < hi
        invariant
            lo <= i <= hi <= cs@.len(),
            w == cs@.subrange(lo as int, hi as int),
            forall|k: int| 0 <= k < i - lo ==> #[trigger] w[k] != c,
        decreases hi - i,
    {
        assert(w[i - lo] == cs@[i as int]);
        if cs[i] == c {
            proof {
                assert(is_first_char(w, c, i - lo));
                lemma_find_char_found(w, c, i - lo);
            }
            return Some(i);
        }
        i = i + 1;
    }
    proof {
        lemma_find_char_none(w, c);
    }
    None
}

/// The first index `i` in `lo..hi` where no whitespace stands, or `hi`.
pub(crate) fn skip_whitespace(cs: &Vec<char>, lo: usize, hi: usize) -> (r: usize)
    requires
        lo <= hi <= cs@.len(),
    ensures
        lo <= r <= hi,
        trim_start(cs@.subrange(lo as int, hi as int)) == cs@.subrange(r as int, hi as int),
{
    let ghost w = cs@.subrange(lo as int, hi as int);
    let mut i: usize = lo;
    while i < hi
        invariant
            lo <= i <= hi <= cs@.len(),
            w == cs@.subrange(lo as int, hi as int),
            forall|k: int| 0 <= k < i - lo ==> is_whitespace(#[trigger] w[k]),
        decreases hi - i,
    {
        let v: u32 = cs[i] as u32;
        let ws: bool = (0x09 <= v && v <= 0x0D) || v == 0x20 || v == 0x85 || v == 0xA0 || v
            == 0x1680 || (0x2000 <= v && v <= 0x200A) || v == 0x2028 || v == 0x2029 || v
            == 0x202F || v == 0x205F || v == 0x3000;
        assert(w[i - lo] == cs@[i as int]);
        assert(ws == is_whitespace(cs@[i as int]));
        if !ws {
            proof {
                assert(is_first_non_whitespace(w, i - lo));
                lemma_trim_start_found(w, i - lo);
                assert(w.skip(i - lo) == cs@.subrange(i as int, hi as int));
            }
            return i;
        }
        i = i + 1;
    }
    proof {
        lemma_trim_start_none(w);
        assert(cs@.subrange(hi as int, hi as int) == Seq::<char>::empty());
    }
    hi
}

/// `pat` occurs in `cs` at index `i`, within `..hi`.
fn matches_at(cs: &Vec<char>, hi: usize, pat: &Vec<char>, i: usize) -> (r: bool)
    requires
        hi <= cs@.len(),
        i <= hi,
    ensures
        r == (i + pat@.len() <= hi && cs@.subrange(i as int, i + pat@.len()) == pat@),
{
    if pat.len() > hi - i {
        return false;
    }
    let mut k: usize = 0;
    while k < pat.len()
        invariant
            i + pat@.len() <= hi <= cs@.len(),
            k <= pat@.len(),
            forall|m: int| 0 <= m < k ==> cs@[i + m] == pat@[m],
        decreases pat@.len() - k,
    {
        if cs[i + k] != pat[k] {
            assert(cs@.subrange(i as int, i + pat@.len())[k as int] != pat@[k as int]);
            return false;
        }
        k = k + 1;
    }
    assert(cs@.subrange(i as int, i + pat@.len()) =~= pat@);
    true
}

/// The leftmost occurrence of `pat` in `cs[lo..hi]`, as an index into `cs`.
fn find_seq_in(cs: &Vec<char>, lo: usize, hi: usize, pat: &Vec<char>) -> (r: Option<usize>)
    requires
        lo <= hi <= cs@.len(),
    ensures
        match r {
            Some(i) => lo <= i && i + pat@.len() <= hi && find_seq(
                cs@.subrange(lo as int, hi as int),
                pat@,
            ) == Some(i - lo),
            None => find_seq(cs@.subrange(lo as int, hi as int), pat@) is None,
        },
{
    let ghost w = cs@.subrange(lo as int, hi as int);
    let mut i: usize = lo;
    while i <= hi
        invariant
            lo <= i,
            i <= hi + 1,
            hi <= cs@.len(),
            w == cs@.subrange(lo as int, hi as int),
            forall|k: int| 0 <= k < i - lo ==> !#[trigger] occurs_at(w, pat@, k),
        decreases hi + 1 - i,
    {
        let m = matches_at(cs, hi, pat, i);
        proof {
            if i + pat@.len() <= hi {
                assert(w.subrange(i - lo, i - lo + pat@.len()) == cs@.subrange(
                    i as int,
                    i + pat@.len(),
                ));
            }
        }
        if m {
            proof {
                assert(is_first_occurrence(w, pat@, i - lo));
                lemma_first_occurrence_found(w, pat@, i - lo);
            }
            return Some(i);
        }
        if i == hi {
            proof {
                assert forall|k: int| 0 <= k implies !#[trigger] occurs_at(w, pat@, k) by {
                    if k >= i - lo {
                        if k > i - lo {
                            assert(k + pat@.len() > w.len());
                        }
                    }
                }
                lemma_first_occurrence_none(w, pat@);
            }
            return None;
        }
        i = i + 1;
    }
    proof {
        lemma_first_occurrence_none(w, pat@);
    }
    None
}

// ---------------------------------------------------------------------------
// The release tag
// ---------------------------------------------------------------------------

/// The key `"tag_name"`, quotes included, as it stands in a release description.
pub open spec fn tag_key() -> Seq<char> {
    seq!['"', 't', 'a', 'g', '_', 'n', 'a', 'm', 'e', '"']
}

/// The tag that a release description holds, read as the update check reads it:
/// the text between the first `"tag_name"` and the next one (or the end) is
/// taken; what follows its first `:`, less leading whitespace, must open with a
/// quote; the tag runs from there to the next quote, or to the end of that text.
pub open spec fn release_tag(body: Seq<char>) -> Option<Seq<char>> {
    match find_seq(body, tag_key()) {
        None => None,
        Some(i) => tag_in_section(key_section(body.skip(i + tag_key().len()))),
    }
}

/// The text after a `"tag_name"` key up to the next such key, or to the end.
pub open spec fn key_section(after: Seq<char>) -> Seq<char> {
    match find_seq(after, tag_key()) {
        Some(j) => after.take(j),
        None => after,
    }
}

/// The tag in the text that follows a `"tag_name"` key: after the first `:`
/// and any whitespace, a quote, and then the text up to the next quote (or
/// the end).
pub open spec fn tag_in_section(piece: Seq<char>) -> Option<Seq<char>> {
    match find_char(piece, ':') {
        None => None,
        Some(k) => {
            let trimmed = trim_start(piece.skip(k + 1));
            if trimmed.len() > 0 && trimmed[0] == '"' {
                let inner = trimmed.drop_first();
                match find_char(inner, '"') {
                    Some(m) => Some(inner.take(m)),
                    None => Some(inner),
                }
            } else {
                None
            }
        },
    }
}

fn tag_key_chars() -> (r: Vec<char>)
    ensures
        r@ == tag_key(),
{
    let r: Vec<char> = vec!['"', 't', 'a', 'g', '_', 'n', 'a', 'm', 'e', '"'];
    assert(r@ =~= tag_key());
    r
}

/// The `tag_name` value of a release description (such as `"v1.2.3"`, the
/// leading `v` kept), or `None` where the description holds no such value.
pub fn parse_tag(body: &str) -> (r: Option<&str>)
    ensures
        match r {
            Some(t) => release_tag(body@) == Some(t@),
            None => release_tag(body@) is None,
        },
{
    let cs = chars_of(body);
    let n = cs.len();
    let key = tag_key_chars();
    assert(cs@.subrange(0, n as int) == cs@);
    let i = match find_seq_in(&cs, 0, n, &key) {
        Some(i) => i,
        None => return None,
    };
    let a = i + key.len();
    let ghost after = cs@.skip(a as int);
    assert(after == cs@.subrange(a as int, n as int));
    let e = match find_seq_in(&cs, a, n, &key) {
        Some(j) => {
            assert(after.take(j - a) == cs@.subrange(a as int, j as int));
            j
        },
        None => n,
    };
    let ghost piece = cs@.subrange(a as int, e as int);
    let k = match find_char_in(&cs, a, e, ':') {
        Some(k) => k,
        None => return None,
    };
    assert(piece.skip(k - a + 1) == cs@.subrange(k + 1, e as int));
    let t = skip_whitespace(&cs, k + 1, e);
    if t >= e {
        return None;
    }
    if cs[t] != '"' {
        return None;
    }
    let ghost inner = cs@.subrange(t + 1, e as int);
    assert(cs@.subrange(t as int, e as int).drop_first() == inner);
    let m = match find_char_in(&cs, t + 1, e, '"') {
        Some(m) => {
            assert(inner.take(m - (t + 1)) == cs@.subrange(t + 1, m as int));
            m
        },
        None => e,
    };
    Some(body.substring_char(t + 1, m))
}

// ---------------------------------------------------------------------------
// Versions
// ---------------------------------------------------------------------------

/// A decimal digit.
pub open spec fn is_digit(c: char) -> bool {
    '0' <= c && c <= '9'
}

/// Every character of `s` is a decimal digit.
pub open spec fn all_digits(s: Seq<char>) -> bool {
    forall|i: int| 0 <= i < s.len() ==> is_digit(#[trigger] s[i])
}

/// The number that the decimal digits `s` write.
pub open spec fn digits_value(s: Seq<char>) -> int
    decreases s.len(),
{
    if s.len() == 0 {
        0
    } else {
        digits_value(s.drop_last()) * 10 + (s.last() as int - '0' as int)
    }
}

/// A `u32` written in decimal, as `str::parse::<u32>` reads it: one optional
/// leading `+`, then at least one digit, and a value that fits in 32 bits.
pub open spec fn decimal_u32(s: Seq<char>) -> Option<u32> {
    let d = if s.len() > 0 && s[0] == '+' {
        s.drop_first()
    } else {
        s
    };
    if d.len() > 0 && all_digits(d) && digits_value(d) <= u32::MAX {
        Some(digits_value(d) as u32)
    } else {
        None
    }
}

/// A version `major.minor.patch`, with an optional leading `v`: the text is cut
/// at its first two dots, and each of the three parts must be a decimal `u32`
/// (the last part runs to the end, so a third dot makes it invalid).
pub open spec fn version_of(s: Seq<char>) -> Option<(u32, u32, u32)> {
    let t = if s.len() > 0 && s[0] == 'v' {
        s.drop_first()
    } else {
        s
    };
    match find_char(t, '.') {
        None => None,
        Some(i) => {
            let rest = t.skip(i + 1);
            match find_char(rest, '.') {
                None => None,
                Some(j) => match (
                    decimal_u32(t.take(i)),
                    decimal_u32(rest.take(j)),
                    decimal_u32(rest.skip(j + 1)),
                ) {
                    (Some(a), Some(b), Some(c)) => Some((a, b, c)),
                    _ => None,
                },
            }
        },
    }
}

proof fn lemma_digits_value_nonneg(s: Seq<char>)
    requires
        all_digits(s),
    ensures
        digits_value(s) >= 0,
    decreases s.len(),
{
    if s.len() > 0 {
        assert(is_digit(s[s.len() - 1]));
        lemma_digits_value_nonneg(s.drop_last());
    }
}

/// A prefix of a digit string writes no larger a number than the whole.
proof fn lemma_digits_value_prefix(s: Seq<char>, i: int)
    requires
        all_digits(s),
        0 <= i <= s.len(),
    ensures
        digits_value(s.take(i)) <= digits_value(s),
    decreases s.len(),
{
    if i < s.len() {
        assert(is_digit(s[s.len() - 1]));
        assert(all_digits(s.drop_last()));
        lemma_digits_value_nonneg(s.drop_last());
        assert(s.drop_last().take(i) == s.take(i));
        lemma_digits_value_prefix(s.drop_last(), i);
    } else {
        assert(s.take(i) == s);
    }
}

/// The `u32` that `cs[lo..hi]` writes in decimal.
pub(crate) fn parse_u32_in(cs: &Vec<char>, lo: usize, hi: usize) -> (r: Option<u32>)
    requires
        lo <= hi <= cs@.len(),
    ensures
        r == decimal_u32(cs@.subrange(lo as int, hi as int)),
{
    let ghost s = cs@.subrange(lo as int, hi as int);
    let mut start: usize = lo;
    if lo < hi && cs[lo] == '+' {
        start = lo + 1;
    }
    let ghost d = cs@.subrange(start as int, hi as int);
    assert(d == (if s.len() > 0 && s[0] == '+' {
        s.drop_first()
    } else {
        s
    }));
    if start == hi {
        return None;
    }
    let mut v: u64 = 0;
    let mut i: usize = start;
    while i < hi
        invariant
            lo <= start <= i <= hi <= cs@.len(),
            s == cs@.subrange(lo as int, hi as int),
            d == cs@.subrange(start as int, hi as int),
            d == (if s.len() > 0 && s[0] == '+' {
                s.drop_first()
            } else {
                s
            }),
            d.len() > 0,
            all_digits(d.take(i - start)),
            v == digits_value(d.take(i - start)),
            v <= u32::MAX,
        decreases hi - i,
    {
        let c = cs[i];
        assert(d[i - start] == c);
        if !('0' <= c && c <= '9') {
            assert(!is_digit(d[i - start]));
            return None;
        }
        let ghost p = d.take(i - start + 1);
        assert(p.drop_last() == d.take(i - start));
        assert(all_digits(p));
        let digit: u64 = (c as u32 - '0' as u32) as u64;
        v = v * 10 + digit;
        i = i + 1;
        if v > 0xFFFF_FFFF {
            proof {
                assert(all_digits(d) ==> digits_value(d) > u32::MAX) by {
                    if all_digits(d) {
                        lemma_digits_value_prefix(d, i - start);
                    }
                }
            }
            return None;
        }
    }
    assert(d.take(i - start) == d);
    Some(v as u32)
}

/// `major.minor.patch` (with or without a leading `v`) as a triple, which
/// compares numerically; `None` where `s` is no such version.
pub fn parse_ver(s: &str) -> (r: Option<(u32, u32, u32)>)
    ensures
        r == version_of(s@),
{
    let cs = chars_of(s);
    let n = cs.len();
    let mut lo: usize = 0;
    if n > 0 && cs[0] == 'v' {
        lo = 1;
    }
    let ghost t = cs@.subrange(lo as int, n as int);
    assert(t == (if s@.len() > 0 && s@[0] == 'v' {
        s@.drop_first()
    } else {
        s@
    }));
    let i = match find_char_in(&cs, lo, n, '.') {
        Some(i) => i,
        None => return None,
    };
    let ghost rest = t.skip(i - lo + 1);
    assert(rest == cs@.subrange(i + 1, n as int));
    let j = match find_char_in(&cs, i + 1, n, '.') {
        Some(j) => j,
        None => return None,
    };
    assert(t.take(i - lo) == cs@.subrange(lo as int, i as int));
    assert(rest.take(j - (i + 1)) == cs@.subrange(i + 1, j as int));
    assert(rest.skip(j - (i + 1) + 1) == cs@.subrange(j + 1, n as int));
    let a = parse_u32_in(&cs, lo, i);
    let b = parse_u32_in(&cs, i + 1, j);
    let c = parse_u32_in(&cs, j + 1, n);
    match (a, b, c) {
        (Some(a), Some(b), Some(c)) => Some((a, b, c)),
        _ => None,
    }
}

// ---------------------------------------------------------------------------
// The update decision
// ---------------------------------------------------------------------------

/// `a` is a strictly later version than `b` (numeric, major first).
pub open spec fn version_newer(a: (u32, u32, u32), b: (u32, u32, u32)) -> bool {
    ||| a.0 > b.0
    ||| a.0 == b.0 && a.1 > b.1
    ||| a.0 == b.0 && a.1 == b.1 && a.2 > b.2
}

/// The notice shown for a newer release tagged `tag`.
pub open spec fn update_message(tag: Seq<char>) -> Seq<char> {
    "Wraith "@ + tag + " is available. Download at github.com/shadow-dragon-2002/Wraith/releases"@
}

/// The notice owed for a release description `body` when the running version
/// is `current`: one exactly when the description names a tag, the tag and
/// `current` are both versions, and the tag's version is strictly later.
pub open spec fn update_notice_for(body: Seq<char>, current: Seq<char>) -> Option<Seq<char>> {
    match release_tag(body) {
        None => None,
        Some(tag) => match (version_of(tag), version_of(current)) {
            (Some(latest), Some(running)) => if version_newer(latest, running) {
                Some(update_message(tag))
            } else {
                None
            },
            _ => None,
        },
    }
}

/// `a` is strictly later than `b`.
pub fn is_newer(a: (u32, u32, u32), b: (u32, u32, u32)) -> (r: bool)
    ensures
        r == version_newer(a, b),
{
    if a.0 != b.0 {
        a.0 > b.0
    } else if a.1 != b.1 {
        a.1 > b.1
    } else {
        a.2 > b.2
    }
}

/// The update notice for the release description `body` when the running
/// version is `current_version`, or `None` when the release is not newer or
/// cannot be read.
pub fn update_notice(body: &str, current_version: &str) -> (r: Option<String>)
    ensures
        match r {
            Some(m) => update_notice_for(body@, current_version@) == Some(m@),
            None => update_notice_for(body@, current_version@) is None,
        },
{
    let tag = match parse_tag(body) {
        Some(t) => t,
        None => return None,
    };
    let latest = match parse_ver(tag) {
        Some(v) => v,
        None => return None,
    };
    let running = match parse_ver(current_version) {
        Some(v) => v,
        None => return None,
    };
    if !is_newer(latest, running) {
        return None;
    }
    let mut msg = String::from_str("Wraith ");
    msg.append(tag);
    msg.append(" is available. Download at github.com/shadow-dragon-2002/Wraith/releases");
    Some(msg)
}

/// What `String::from_utf8_lossy` makes of `bytes`.
pub uninterp spec fn utf8_lossy(bytes: Seq<u8>) -> Seq<char>;

/// Calls `String::from_utf8_lossy`. Claimed: the result is a function of the
/// bytes alone, and where the bytes are valid UTF-8 it is exactly the text
/// they encode (the documentation's "returns them unchanged"). How invalid
/// sequences are replaced by U+FFFD is left unsaid.
#[verifier::external_body]
fn decode_lossy(bytes: &[u8]) -> (r: String)
    ensures
        r@ == utf8_lossy(bytes@),
        valid_utf8(bytes@) ==> r@ == decode_utf8(bytes@),
{
    String::from_utf8_lossy(bytes).into_owned()
}

/// The update notice for a raw release response `body`, read as lossy UTF-8,
/// when the running version is `current_version`.
pub fn check_release(body: &[u8], current_version: &str) -> (r: Option<String>)
    ensures
        match r {
            Some(m) => update_notice_for(utf8_lossy(body@), current_version@) == Some(m@),
            None => update_notice_for(utf8_lossy(body@), current_version@) is None,
        },
        valid_utf8(body@) ==> match r {
            Some(m) => update_notice_for(decode_utf8(body@), current_version@) == Some(m@),
            None => update_notice_for(decode_utf8(body@), current_version@) is None,
        },
{
    let text = decode_lossy(body);
    update_notice(text.as_str(), current_version)
}

// ---------------------------------------------------------------------------
// Laws
// ---------------------------------------------------------------------------

/// The decimal digit character for `d < 10`.
pub open spec fn digit_char(d: nat) -> char {
    (48 + d) as char
}

/// `n` written in decimal, without leading zeros.
pub open spec fn decimal(n: nat) -> Seq<char>
    decreases n,
{
    if n < 10 {
        seq![digit_char(n)]
    } else {
        decimal(n / 10).push(digit_char(n % 10))
    }
}

/// `major.minor.patch` written in decimal.
pub open spec fn version_text(v: (u32, u32, u32)) -> Seq<char> {
    decimal(v.0 as nat) + seq!['.'] + decimal(v.1 as nat) + seq!['.'] + decimal(v.2 as nat)
}

pub(crate) proof fn lemma_decimal(n: nat)
    ensures
        decimal(n).len() >= 1,
        all_digits(decimal(n)),
        digits_value(decimal(n)) == n,
    decreases n,
{
    assert(digit_char(n % 10) as int == 48 + n % 10);
    assert('0' as int == 48);
    if n < 10 {
        assert(decimal(n).drop_last() =~= Seq::<char>::empty());
        assert(digits_value(Seq::<char>::empty()) == 0);
        assert(decimal(n).last() == digit_char(n % 10));
    } else {
        lemma_decimal(n / 10);
        let d = decimal(n);
        assert(d.drop_last() == decimal(n / 10));
        assert(d.last() == digit_char(n % 10));
        assert((n / 10) * 10 + n % 10 == n);
        assert forall|i: int| 0 <= i < d.len() implies is_digit(#[trigger] d[i]) by {
            if i < d.len() - 1 {
                assert(d[i] == decimal(n / 10)[i]);
            }
        }
    }
}

proof fn lemma_decimal_u32(x: u32)
    ensures
        decimal_u32(decimal(x as nat)) == Some(x),
{
    lemma_decimal(x as nat);
    let d = decimal(x as nat);
    assert(is_digit(d[0]));
}

/// No dot and no `v` stand in a decimal numeral.
proof fn lemma_decimal_plain(n: nat)
    ensures
        forall|i: int| 0 <= i < decimal(n).len() ==> #[trigger] decimal(n)[i] != '.' && decimal(
            n,
        )[i] != 'v',
{
    lemma_decimal(n);
    assert forall|i: int| 0 <= i < decimal(n).len() implies #[trigger] decimal(n)[i] != '.'
        && decimal(n)[i] != 'v' by {
        assert(is_digit(decimal(n)[i]));
    }
}

/// `x` followed by a dot and `y`, where `x` holds no dot, splits at that dot.
proof fn lemma_split_at_dot(x: Seq<char>, y: Seq<char>)
    requires
        forall|i: int| 0 <= i < x.len() ==> #[trigger] x[i] != '.',
    ensures
        find_char(x + seq!['.'] + y, '.') == Some(x.len() as int),
        (x + seq!['.'] + y).take(x.len() as int) == x,
        (x + seq!['.'] + y).skip(x.len() as int + 1) == y,
{
    let s = x + seq!['.'] + y;
    assert forall|k: int| 0 <= k < x.len() implies #[trigger] s[k] != '.' by {
        assert(s[k] == x[k]);
    }
    assert(is_first_char(s, '.', x.len() as int));
    lemma_find_char_found(s, '.', x.len() as int);
    assert(s.take(x.len() as int) =~= x);
    assert(s.skip(x.len() as int + 1) =~= y);
}

/// A version written as `major.minor.patch` reads back as itself.
pub proof fn lemma_version_round_trip(v: (u32, u32, u32))
    ensures
        version_of(version_text(v)) == Some(v),
{
    let a = decimal(v.0 as nat);
    let b = decimal(v.1 as nat);
    let c = decimal(v.2 as nat);
    lemma_decimal_plain(v.0 as nat);
    lemma_decimal_plain(v.1 as nat);
    lemma_decimal_u32(v.0);
    lemma_decimal_u32(v.1);
    lemma_decimal_u32(v.2);
    lemma_decimal(v.0 as nat);
    let rest = b + seq!['.'] + c;
    let s = version_text(v);
    assert(s == a + seq!['.'] + rest);
    lemma_split_at_dot(a, rest);
    lemma_split_at_dot(b, c);
    assert(s[0] == a[0]);
}

/// A leading `v` makes no difference to the version read (one `v` only).
pub proof fn lemma_version_v_prefix(s: Seq<char>)
    requires
        s.len() == 0 || s[0] != 'v',
    ensures
        version_of(seq!['v'] + s) == version_of(s),
{
    assert((seq!['v'] + s).drop_first() =~= s);
}

/// Of two versions, at most one is newer than the other, and when neither
/// is, they are the same.
pub proof fn lemma_version_order(a: (u32, u32, u32), b: (u32, u32, u32))
    ensures
        !(version_newer(a, b) && version_newer(b, a)),
        !version_newer(a, b) && !version_newer(b, a) ==> a == b,
        !version_newer(a, a),
{
}

/// No notice is owed when the release's version is not strictly later than
/// the running one, in particular when it is the same.
pub proof fn lemma_no_notice_unless_newer(body: Seq<char>, current: Seq<char>, tag: Seq<char>)
    requires
        release_tag(body) == Some(tag),
        version_of(tag) is Some,
        version_of(current) is Some,
        !version_newer(version_of(tag)->0, version_of(current)->0),
    ensures
        update_notice_for(body, current) is None,
{
}

/// A tag read from a release description holds no quote.
pub proof fn lemma_tag_has_no_quote(body: Seq<char>)
    ensures
        release_tag(body) matches Some(tag) ==> forall|i: int|
            0 <= i < tag.len() ==> #[trigger] tag[i] != '"',
{
    if let Some(i) = find_seq(body, tag_key()) {
        let after = body.skip(i + tag_key().len());
        let piece = match find_seq(after, tag_key()) {
            Some(j) => after.take(j),
            None => after,
        };
        if let Some(k) = find_char(piece, ':') {
            let trimmed = trim_start(piece.skip(k + 1));
            if trimmed.len() > 0 && trimmed[0] == '"' {
                let inner = trimmed.drop_first();
                match find_char(inner, '"') {
                    Some(m) => {
                        assert(is_first_char(inner, '"', m));
                        assert forall|q: int| 0 <= q < m implies #[trigger] inner.take(m)[q]
                            != '"' by {
                            assert(inner.take(m)[q] == inner[q]);
                        }
                    },
                    None => {
                        assert forall|q: int| 0 <= q < inner.len() implies #[trigger] inner[q]
                            != '"' by {
                            if inner[q] == '"' {
                                lemma_first_quote_exists(inner, q);
                            }
                        }
                    },
                }
            }
        }
    }
}

/// Where `c` occurs in `s`, it has a first occurrence.
proof fn lemma_first_quote_exists(s: Seq<char>, q: int)
    requires
        0 <= q < s.len(),
        s[q] == '"',
    ensures
        find_char(s, '"') is Some,
    decreases q,
{
    if exists|k: int| 0 <= k < q && s[k] == '"' {
        let k = choose|k: int| 0 <= k < q && s[k] == '"';
        lemma_first_quote_exists(s, k);
    } else {
        assert(is_first_char(s, '"', q));
    }
}

/// A version is newer than another exactly when, read as one number with
/// the major version in the highest place, the minor in the middle and the
/// patch in the lowest (each part taking 32 bits), it is larger: major first,
/// then minor, then patch, each compared as a number.
pub proof fn lemma_version_order_is_numeric(a: (u32, u32, u32), b: (u32, u32, u32))
    ensures
        version_newer(a, b) <==> a.0 * 0x1_0000_0000_0000_0000 + a.1 * 0x1_0000_0000 + a.2 > b.0
            * 0x1_0000_0000_0000_0000 + b.1 * 0x1_0000_0000 + b.2,
        a.0 > b.0 ==> version_newer(a, b),
        a.0 == b.0 && a.1 > b.1 ==> version_newer(a, b),
        a.0 == b.0 && a.1 == b.1 ==> (version_newer(a, b) <==> a.2 > b.2),
{
    let (a0, a1, a2) = (a.0 as int, a.1 as int, a.2 as int);
    let (b0, b1, b2) = (b.0 as int, b.1 as int, b.2 as int);
    let low_a = a1 * 0x1_0000_0000 + a2;
    let low_b = b1 * 0x1_0000_0000 + b2;
    assert(0 <= low_a < 0x1_0000_0000_0000_0000 && 0 <= low_b < 0x1_0000_0000_0000_0000) by (
    nonlinear_arith)
        requires
            0 <= a1 < 0x1_0000_0000,
            0 <= a2 < 0x1_0000_0000,
            0 <= b1 < 0x1_0000_0000,
            0 <= b2 < 0x1_0000_0000,
            low_a == a1 * 0x1_0000_0000 + a2,
            low_b == b1 * 0x1_0000_0000 + b2,
    ;
    assert(a0 > b0 ==> a0 * 0x1_0000_0000_0000_0000 >= b0 * 0x1_0000_0000_0000_0000
        + 0x1_0000_0000_0000_0000) by (nonlinear_arith);
    assert(a0 < b0 ==> b0 * 0x1_0000_0000_0000_0000 >= a0 * 0x1_0000_0000_0000_0000
        + 0x1_0000_0000_0000_0000) by (nonlinear_arith);
    assert(a1 > b1 ==> a1 * 0x1_0000_0000 >= b1 * 0x1_0000_0000 + 0x1_0000_0000) by (
    nonlinear_arith);
    assert(a1 < b1 ==> b1 * 0x1_0000_0000 >= a1 * 0x1_0000_0000 + 0x1_0000_0000) by (
    nonlinear_arith);
}

/// A notice is owed exactly for a strictly newer release: whenever the
/// description names a tag and both it and the running version read as
/// versions, the notice is the message for that tag if the tag's version is
/// later (major, then minor, then patch, numerically), and there is none
/// otherwise.
pub proof fn lemma_notice_exactly_when_newer(
    body: Seq<char>,
    current: Seq<char>,
    tag: Seq<char>,
    latest: (u32, u32, u32),
    running: (u32, u32, u32),
)
    requires
        release_tag(body) == Some(tag),
        version_of(tag) == Some(latest),
        version_of(current) == Some(running),
    ensures
        (latest.0 > running.0 || (latest.0 == running.0 && latest.1 > running.1) || (latest.0
            == running.0 && latest.1 == running.1 && latest.2 > running.2)) ==> update_notice_for(
            body,
            current,
        ) == Some(
            "Wraith "@ + tag
                + " is available. Download at github.com/shadow-dragon-2002/Wraith/releases"@,
        ),
        !(latest.0 > running.0 || (latest.0 == running.0 && latest.1 > running.1) || (latest.0
            == running.0 && latest.1 == running.1 && latest.2 > running.2)) ==> update_notice_for(
            body,
            current,
        ) is None,
{
}

/// No notice is owed when the description names no tag, or the tag or the
/// running version does not read as a version.
pub proof fn lemma_no_notice_without_versions(body: Seq<char>, current: Seq<char>)
    ensures
        release_tag(body) is None ==> update_notice_for(body, current) is None,
        release_tag(body) matches Some(tag) && (version_of(tag) is None || version_of(current) is None)
            ==> update_notice_for(body, current) is None,
{
}

/// UTF-16, stated by decoding: a character below `0x10000` is the one unit
/// of its own value; any other is a high surrogate (`0xD800`-`0xDBFF`)
/// followed by a low one (`0xDC00`-`0xDFFF`) that together give back its code
/// point; and a string's encoding is the encodings of its characters in turn.
pub proof fn lemma_utf16_decodes_back(c: char, s: Seq<char>, t: Seq<char>)
    ensures
        (c as u32) < 0x10000 ==> utf16_of_char(c) == seq![c as u32 as u16],
        (c as u32) >= 0x10000 ==> ({
            let u = utf16_of_char(c);
            &&& u.len() == 2
            &&& 0xD800 <= u[0] <= 0xDBFF
            &&& 0xDC00 <= u[1] <= 0xDFFF
            &&& (u[0] - 0xD800) * 0x400 + (u[1] - 0xDC00) + 0x10000 == c as u32
        }),
        utf16_of(s + t) == utf16_of(s) + utf16_of(t),
        utf16_of(seq![c]) == utf16_of_char(c),
    decreases t.len(),
{
    let v = c as int;
    assert(v == c as u32);
    assert(v <= 0x10FFFF);
    if v >= 0x10000 {
        let w = v - 0x10000;
        assert(w / 0x400 <= 0x3FF && w % 0x400 < 0x400);
        assert((w / 0x400) * 0x400 + w % 0x400 == w);
    }
    assert(seq![c].drop_last() =~= Seq::<char>::empty());
    assert(utf16_of(Seq::<char>::empty()) == Seq::<u16>::empty());
    assert(utf16_of(seq![c]) =~= utf16_of_char(c));
    if t.len() == 0 {
        assert(s + t =~= s);
        assert(utf16_of(s) + utf16_of(t) =~= utf16_of(s));
    } else {
        lemma_utf16_decodes_back(c, s, t.drop_last());
        assert((s + t).drop_last() =~= s + t.drop_last());
        assert((s + t).last() == t.last());
        assert(utf16_of(s) + utf16_of(t) =~= utf16_of(s) + utf16_of(t.drop_last())
            + utf16_of_char(t.last()));
    }
}

/// `s` without one leading `v`.
pub open spec fn unprefixed(s: Seq<char>) -> Seq<char> {
    if s.len() > 0 && s[0] == 'v' {
        s.drop_first()
    } else {
        s
    }
}

/// A text read as a version has, after its optional leading `v`, only digits,
/// `+` signs and exactly two dots in it.
#[verifier::spinoff_prover]
#[verifier::rlimit(40)]
pub proof fn lemma_version_text_shape(s: Seq<char>)
    ensures
        version_of(s) is Some ==> forall|k: int|
            0 <= k < unprefixed(s).len() ==> ('0' <= #[trigger] unprefixed(s)[k] <= '9'
                || unprefixed(s)[k] == '+' || unprefixed(s)[k] == '.'),
        version_of(s) is Some ==> exists|i: int, j: int|
            #![trigger unprefixed(s)[i], unprefixed(s)[j]]
            0 <= i < j < unprefixed(s).len() && unprefixed(s)[i] == '.' && unprefixed(s)[j] == '.'
                && forall|k: int|
                0 <= k < unprefixed(s).len() && k != i && k != j ==> #[trigger] unprefixed(s)[k]
                    != '.',
{
    if version_of(s) is Some {
        let t = if s.len() > 0 && s[0] == 'v' {
            s.drop_first()
        } else {
            s
        };
        let i = find_char(t, '.')->0;
        let rest = t.skip(i + 1);
        let j = find_char(rest, '.')->0;
        assert(is_first_char(t, '.', i));
        assert(is_first_char(rest, '.', j));
        let a = t.take(i);
        let b = rest.take(j);
        let c = rest.skip(j + 1);
        assert(decimal_u32(a) is Some && decimal_u32(b) is Some && decimal_u32(c) is Some);
        lemma_decimal_shape(a);
        lemma_decimal_shape(b);
        lemma_decimal_shape(c);
        assert forall|k: int|
            0 <= k < t.len() implies ('0' <= #[trigger] t[k] <= '9' || t[k] == '+' || t[k]
            == '.') by {
            if k < i {
                assert(t[k] == a[k]);
            } else if k == i {
            } else if k < i + 1 + j {
                assert(t[k] == rest[k - i - 1]);
                assert(rest[k - i - 1] == b[k - i - 1]);
            } else if k == i + 1 + j {
                assert(t[k] == rest[j]);
            } else {
                assert(t[k] == rest[k - i - 1]);
                assert(rest[k - i - 1] == c[k - i - 1 - j - 1]);
            }
        }
        assert forall|k: int| 0 <= k < t.len() && k != i && k != i + 1 + j implies #[trigger] t[k]
            != '.' by {
            if k < i {
                assert(t[k] == a[k]);
            } else if k < i + 1 + j {
                assert(t[k] == rest[k - i - 1]);
                assert(rest[k - i - 1] == b[k - i - 1]);
            } else {
                assert(t[k] == rest[k - i - 1]);
                assert(rest[k - i - 1] == c[k - i - 1 - j - 1]);
            }
        }
        assert(t[i + 1 + j] == rest[j]);
        assert(t[i] == '.' && t[i + 1 + j] == '.');
        assert(t == unprefixed(s));
    }
}

/// Text read as a decimal `u32` is an optional `+` and then digits only.
proof fn lemma_decimal_shape(s: Seq<char>)
    ensures
        decimal_u32(s) is Some ==> forall|k: int|
            0 <= k < s.len() ==> ('0' <= #[trigger] s[k] <= '9' || (k == 0 && s[k] == '+')),
{
    if decimal_u32(s) is Some {
        let d = if s.len() > 0 && s[0] == '+' {
            s.drop_first()
        } else {
            s
        };
        assert forall|k: int| 0 <= k < s.len() implies ('0' <= #[trigger] s[k] <= '9' || (k == 0
            && s[k] == '+')) by {
            if s.len() > 0 && s[0] == '+' {
                if k > 0 {
                    assert(s[k] == d[k - 1]);
                    assert(is_digit(d[k - 1]));
                }
            } else {
                assert(is_digit(d[k]));
            }
        }
    }
}

/// A release description that reads `"tag_name"`, a colon, spaces, tabs or
/// line breaks, and then a quoted tag gives that tag, whatever precedes and
/// follows, provided the key occurs nowhere earlier and nowhere again before
/// the tag's closing quote, and the tag holds no quote.
#[verifier::spinoff_prover]
#[verifier::rlimit(40)]
pub proof fn lemma_tag_is_read(
    p: Seq<char>,
    w: Seq<char>,
    t: Seq<char>,
    r: Seq<char>,
)
    requires
        forall|i: int|
            0 <= i < w.len() ==> #[trigger] w[i] == ' ' || w[i] == '\t' || w[i] == '\n' || w[i]
                == '\r',
        forall|i: int| 0 <= i < t.len() ==> #[trigger] t[i] != '"',
        ({
            let key = seq!['"', 't', 'a', 'g', '_', 'n', 'a', 'm', 'e', '"'];
            let body = p + key + seq![':'] + w + seq!['"'] + t + seq!['"'] + r;
            let close = p.len() + 10 + 1 + w.len() + 1 + t.len();
            &&& forall|k: int| 0 <= k < p.len() ==> #[trigger] body.subrange(k, k + 10) != key
            &&& forall|k: int|
                p.len() + 10 <= k < close && k + 10 <= body.len() ==> #[trigger] body.subrange(
                    k,
                    k + 10,
                ) != key
        }),
    ensures
        release_tag(p + seq!['"', 't', 'a', 'g', '_', 'n', 'a', 'm', 'e', '"'] + seq![':'] + w
            + seq!['"'] + t + seq!['"'] + r) == Some(t),
{
    let key = seq!['"', 't', 'a', 'g', '_', 'n', 'a', 'm', 'e', '"'];
    assert(key =~= tag_key());
    let tail = seq![':'] + w + seq!['"'] + t + seq!['"'] + r;
    let body = p + key + seq![':'] + w + seq!['"'] + t + seq!['"'] + r;
    assert(body =~= p + key + tail);
    lemma_key_first(p, tail, body);
    let qa: int = w.len() as int + t.len() as int + 2;
    lemma_no_key_in_tail(p, tail, body, qa);
    lemma_key_section_keeps(tail, qa);
    lemma_tag_in_section(w, t, r, key_section(tail));
}

#[verifier::spinoff_prover]
#[verifier::rlimit(40)]
proof fn lemma_key_first(p: Seq<char>, tail: Seq<char>, body: Seq<char>)
    requires
        body == p + seq!['"', 't', 'a', 'g', '_', 'n', 'a', 'm', 'e', '"'] + tail,
        forall|k: int|
            0 <= k < p.len() ==> #[trigger] body.subrange(k, k + 10) != seq![
                '"',
                't',
                'a',
                'g',
                '_',
                'n',
                'a',
                'm',
                'e',
                '"',
            ],
    ensures
        find_seq(body, tag_key()) == Some(p.len() as int),
        body.skip(p.len() as int + tag_key().len()) == tail,
{
    let key = tag_key();
    assert(key =~= seq!['"', 't', 'a', 'g', '_', 'n', 'a', 'm', 'e', '"']);
    assert(body.subrange(p.len() as int, p.len() as int + 10) =~= key);
    assert forall|k: int| 0 <= k < p.len() implies !#[trigger] occurs_at(body, key, k) by {
        assert(body.subrange(k, k + 10) != key);
    }
    assert(is_first_occurrence(body, key, p.len() as int));
    lemma_first_occurrence_found(body, key, p.len() as int);
    assert(body.skip(p.len() as int + 10) =~= tail);
}

proof fn lemma_key_section_keeps(after: Seq<char>, qa: int)
    requires
        0 <= qa <= after.len(),
        forall|k: int| 0 <= k < qa ==> !#[trigger] occurs_at(after, tag_key(), k),
    ensures
        key_section(after).len() >= qa,
        key_section(after).len() <= after.len(),
        key_section(after) == after.take(key_section(after).len() as int),
{
    if let Some(j) = find_seq(after, tag_key()) {
        assert(is_first_occurrence(after, tag_key(), j));
        assert(occurs_at(after, tag_key(), j));
        assert(j >= qa);
        assert(after.take(j) =~= after.take(after.take(j).len() as int));
    } else {
        assert(after =~= after.take(after.len() as int));
    }
}

#[verifier::spinoff_prover]
#[verifier::rlimit(40)]
proof fn lemma_tag_in_section(w: Seq<char>, t: Seq<char>, r: Seq<char>, piece: Seq<char>)
    requires
        forall|i: int|
            0 <= i < w.len() ==> #[trigger] w[i] == ' ' || w[i] == '\t' || w[i] == '\n' || w[i]
                == '\r',
        forall|i: int| 0 <= i < t.len() ==> #[trigger] t[i] != '"',
        piece.len() >= 1 + w.len() + 1 + t.len(),
        piece.len() <= (seq![':'] + w + seq!['"'] + t + seq!['"'] + r).len(),
        piece == (seq![':'] + w + seq!['"'] + t + seq!['"'] + r).take(piece.len() as int),
    ensures
        tag_in_section(piece) == Some(t),
{
    let after = seq![':'] + w + seq!['"'] + t + seq!['"'] + r;
    let qa: int = w.len() as int + t.len() as int + 2;
    assert forall|k: int| 0 <= k < piece.len() implies #[trigger] piece[k] == after[k] by {
        assert(after.take(piece.len() as int)[k] == after[k]);
    }
    assert forall|k: int| 0 <= k < w.len() implies #[trigger] after[k + 1] == w[k] by {
        assert((seq![':'] + w)[k + 1] == w[k]);
    }
    assert(after[0] == ':');
    assert(after[w.len() as int + 1] == '"');
    assert forall|k: int| 0 <= k < t.len() implies #[trigger] after[w.len() as int + 2 + k] == t[k]
        by {
        assert((seq![':'] + w + seq!['"'] + t)[w.len() as int + 2 + k] == t[k]);
    }
    assert(after[qa] == '"');
    assert(piece[0] == after[0]);
    assert(is_first_char(piece, ':', 0));
    lemma_find_char_found(piece, ':', 0);
    let rest1 = piece.skip(1);
    assert forall|k: int| 0 <= k < w.len() implies is_whitespace(#[trigger] rest1[k]) by {
        assert(rest1[k] == after[k + 1]);
        assert(after[k + 1] == w[k]);
    }
    assert(rest1[w.len() as int] == after[w.len() as int + 1]);
    assert(is_first_non_whitespace(rest1, w.len() as int));
    lemma_trim_start_found(rest1, w.len() as int);
    let trimmed = rest1.skip(w.len() as int);
    assert(trimmed[0] == '"');
    let inner = trimmed.drop_first();
    let s0: int = w.len() as int + 2;
    assert forall|k: int| 0 <= k < t.len() implies #[trigger] inner[k] == t[k] by {
        assert(inner[k] == after[s0 + k]);
    }
    assert forall|k: int| 0 <= k < t.len() implies #[trigger] inner[k] != '"' by {
        assert(inner[k] == t[k]);
    }
    if piece.len() > qa {
        assert(inner[t.len() as int] == after[qa]);
        assert(is_first_char(inner, '"', t.len() as int));
        lemma_find_char_found(inner, '"', t.len() as int);
        assert(inner.take(t.len() as int) =~= t);
    } else {
        assert(inner =~= t);
        lemma_find_char_none(inner, '"');
    }
}

#[verifier::spinoff_prover]
#[verifier::rlimit(40)]
proof fn lemma_no_key_in_tail(p: Seq<char>, tail: Seq<char>, body: Seq<char>, qa: int)
    requires
        body == p + seq!['"', 't', 'a', 'g', '_', 'n', 'a', 'm', 'e', '"'] + tail,
        0 <= qa <= tail.len(),
        forall|k: int|
            p.len() + 10 <= k < p.len() + 10 + qa && k + 10 <= body.len()
                ==> #[trigger] body.subrange(k, k + 10) != seq![
                '"',
                't',
                'a',
                'g',
                '_',
                'n',
                'a',
                'm',
                'e',
                '"',
            ],
    ensures
        forall|k: int| 0 <= k < qa ==> !#[trigger] occurs_at(tail, tag_key(), k),
{
    let key = tag_key();
    assert(key =~= seq!['"', 't', 'a', 'g', '_', 'n', 'a', 'm', 'e', '"']);
    let a = p.len() as int + 10;
    assert forall|k: int| 0 <= k < qa implies !#[trigger] occurs_at(tail, key, k) by {
        if k + 10 <= tail.len() {
            assert(tail.subrange(k, k + 10) =~= body.subrange(a + k, a + k + 10));
            assert(body.subrange(a + k, a + k + 10) != key);
        }
    }
}

} // verus!
