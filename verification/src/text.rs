//! Character-level helpers shared by every bounded rendering in the crate.

use vstd::prelude::*;
use vstd::std_specs::iter::IteratorSpec;

verus! {

/// `String::push` appends one character to the end of the string.
pub assume_specification[ std::string::String::push ](string: &mut std::string::String, ch: char)
    ensures
        final(string)@ == old(string)@.push(ch),
;

/// The characters of `s`, in order.
pub fn chars_of(s: &str) -> (out: Vec<char>)
    ensures
        out@ == s@,
{
    broadcast use vstd::string::group_string_axioms;
    let mut out: Vec<char> = Vec::new();
    for c in it: s.chars()
        invariant
            out@ == it.seq().take(it.index() as int),
    {
        out.push(c);
    }
    out
}

/// A new string holding exactly `chars`.
pub fn string_from_chars(chars: &Vec<char>) -> (out: String)
    ensures
        out@ == chars@,
{
    let mut out = String::new();
    push_chars(&mut out, chars, 0, chars.len());
    out
}

/// Appends `chars[from..to]` to `out`.
pub fn push_chars(out: &mut String, chars: &Vec<char>, from: usize, to: usize)
    requires
        from <= to <= chars@.len(),
    ensures
        final(out)@ == old(out)@ + chars@.subrange(from as int, to as int),
{
    let mut i = from;
    while i < to
        invariant
            from <= i <= to <= chars@.len(),
            out@ == old(out)@ + chars@.subrange(from as int, i as int),
        decreases to - i,
    {
        out.push(chars[i]);
        i = i + 1;
        assert(chars@.subrange(from as int, i as int) =~= chars@.subrange(from as int, (i - 1) as int).push(chars@[i - 1]));
    }
}

/// Appends `s` to `out`.
pub fn push_str(out: &mut String, s: &str)
    ensures
        final(out)@ == old(out)@ + s@,
{
    let chars = chars_of(s);
    push_chars(out, &chars, 0, chars.len());
    assert(chars@.subrange(0, chars@.len() as int) =~= chars@);
}

/// Concatenation of two strings.
pub fn concat(a: &str, b: &str) -> (out: String)
    ensures
        out@ == a@ + b@,
{
    let mut out = String::new();
    push_str(&mut out, a);
    push_str(&mut out, b);
    assert(out@ =~= a@ + b@);
    out
}

pub open spec fn min_nat(a: nat, b: nat) -> nat {
    if a <= b { a } else { b }
}

/// The first `max_chars` characters of `value`, or all of them when it is shorter.
pub open spec fn take_chars(value: Seq<char>, max_chars: nat) -> Seq<char> {
    value.take(min_nat(value.len(), max_chars) as int)
}

/// Keeps at most `max_chars` leading characters of `value`.
pub fn bounded(value: &str, max_chars: usize) -> (out: String)
    ensures
        out@ == take_chars(value@, max_chars as nat),
{
    let chars = chars_of(value);
    let end = if chars.len() <= max_chars { chars.len() } else { max_chars };
    let mut out = String::new();
    push_chars(&mut out, &chars, 0, end);
    assert(out@ =~= take_chars(value@, max_chars as nat));
    out
}

/// The first `head` characters, then `marker`, then the last `tail` characters of `value`.
pub open spec fn head_marker_tail(value: Seq<char>, head: nat, marker: Seq<char>, tail: nat) -> Seq<char> {
    value.take(head as int) + marker + value.skip(value.len() - tail)
}

/// Head-and-tail clipping: a value that fits is kept; a budget no larger than the marker keeps
/// the head alone; otherwise the budget left after the marker is split between head and tail,
/// the tail receiving the odd character.
pub open spec fn head_tail(value: Seq<char>, max_chars: nat, marker: Seq<char>) -> Seq<char> {
    if value.len() <= max_chars {
        value
    } else if max_chars <= marker.len() {
        value.take(max_chars as int)
    } else {
        let available = (max_chars - marker.len()) as nat;
        let head = available / 2;
        head_marker_tail(value, head, marker, (available - head) as nat)
    }
}

/// Builds `head_marker_tail` from a character vector.
pub fn join_head_marker_tail(chars: &Vec<char>, head: usize, marker: &str, tail: usize) -> (out: String)
    requires
        head <= chars@.len(),
        tail <= chars@.len(),
    ensures
        out@ == head_marker_tail(chars@, head as nat, marker@, tail as nat),
{
    let mut out = String::new();
    push_chars(&mut out, chars, 0, head);
    push_str(&mut out, marker);
    push_chars(&mut out, chars, chars.len() - tail, chars.len());
    assert(out@ =~= head_marker_tail(chars@, head as nat, marker@, tail as nat));
    out
}

/// Clips `value` to at most `max_chars` characters, keeping its head and tail around `marker`.
pub fn bounded_head_tail(value: &str, max_chars: usize, marker: &str) -> (out: String)
    ensures
        out@ == head_tail(value@, max_chars as nat, marker@),
        out@.len() <= max_chars || value@.len() <= max_chars,
{
    let chars = chars_of(value);
    let marker_len = marker.unicode_len();
    if chars.len() <= max_chars {
        return string_from_chars(&chars);
    }
    if max_chars <= marker_len {
        let mut out = String::new();
        push_chars(&mut out, &chars, 0, max_chars);
        assert(out@ =~= value@.take(max_chars as int));
        return out;
    }
    let available = max_chars - marker_len;
    let head = available / 2;
    let tail = available - head;
    join_head_marker_tail(&chars, head, marker, tail)
}

/// Unicode `White_Space` characters, as `char::is_whitespace` classifies them.
pub open spec fn is_whitespace(c: char) -> bool {
    ||| c == '\t' || c == '\n' || c == '\u{0B}' || c == '\u{0C}' || c == '\r' || c == ' '
    ||| c == '\u{85}' || c == '\u{A0}' || c == '\u{1680}'
    ||| ('\u{2000}' <= c && c <= '\u{200A}')
    ||| c == '\u{2028}' || c == '\u{2029}' || c == '\u{202F}' || c == '\u{205F}' || c == '\u{3000}'
}

pub fn char_is_whitespace(c: char) -> (b: bool)
    ensures
        b == is_whitespace(c),
{
    c == '\t' || c == '\n' || c == '\u{0B}' || c == '\u{0C}' || c == '\r' || c == ' '
        || c == '\u{85}' || c == '\u{A0}' || c == '\u{1680}'
        || ('\u{2000}' <= c && c <= '\u{200A}')
        || c == '\u{2028}' || c == '\u{2029}' || c == '\u{202F}' || c == '\u{205F}' || c == '\u{3000}'
}

/// Index of the first character at or after `i` that is not whitespace (or the length).
pub open spec fn skip_ws(s: Seq<char>, i: int) -> int
    decreases s.len() - i,
{
    if 0 <= i < s.len() && is_whitespace(s[i]) { skip_ws(s, i + 1) } else { i }
}

/// Walking back from `j` towards `lo`, the end of the last non-whitespace character.
pub open spec fn end_ws(s: Seq<char>, lo: int, j: int) -> int
    decreases j - lo,
{
    if lo < j <= s.len() && is_whitespace(s[j - 1]) { end_ws(s, lo, j - 1) } else { j }
}

/// `str::trim`: drops leading and trailing whitespace.
pub open spec fn trim(s: Seq<char>) -> Seq<char> {
    let a = skip_ws(s, 0);
    s.subrange(a, end_ws(s, a, s.len() as int))
}

/// `str::trim_start`.
pub open spec fn trim_start(s: Seq<char>) -> Seq<char> {
    s.skip(skip_ws(s, 0))
}

/// Bounds of the trimmed part of `chars`.
pub fn trim_bounds(chars: &Vec<char>) -> (bounds: (usize, usize))
    ensures
        bounds.0 as int == skip_ws(chars@, 0),
        bounds.1 as int == end_ws(chars@, bounds.0 as int, chars@.len() as int),
        bounds.0 <= bounds.1 <= chars@.len(),
{
    let mut a: usize = 0;
    while a < chars.len() && char_is_whitespace(chars[a])
        invariant
            a <= chars@.len(),
            skip_ws(chars@, a as int) == skip_ws(chars@, 0),
        decreases chars@.len() - a,
    {
        a = a + 1;
    }
    let mut b: usize = chars.len();
    while b > a && char_is_whitespace(chars[b - 1])
        invariant
            a <= b <= chars@.len(),
            end_ws(chars@, a as int, b as int) == end_ws(chars@, a as int, chars@.len() as int),
        decreases b - a,
    {
        b = b - 1;
    }
    (a, b)
}

/// `str::trim` on a string.
pub fn trimmed(value: &str) -> (out: String)
    ensures
        out@ == trim(value@),
{
    let chars = chars_of(value);
    let (a, b) = trim_bounds(&chars);
    let mut out = String::new();
    push_chars(&mut out, &chars, a, b);
    assert(out@ =~= trim(value@));
    out
}

/// True when `value` is empty after trimming.
pub fn is_blank_str(value: &str) -> (b: bool)
    ensures
        b == (trim(value@).len() == 0),
{
    let chars = chars_of(value);
    let (a, b) = trim_bounds(&chars);
    a == b
}

/// ASCII lowercase of one character.
pub open spec fn ascii_lower(c: char) -> char {
    if 'A' <= c && c <= 'Z' { ((c as u32) + 32) as char } else { c }
}

pub open spec fn ascii_lower_seq(s: Seq<char>) -> Seq<char> {
    s.map_values(|c: char| ascii_lower(c))
}

pub fn char_ascii_lower(c: char) -> (out: char)
    ensures
        out == ascii_lower(c),
{
    if 'A' <= c && c <= 'Z' {
        let code = (c as u32) + 32;
        assert(code <= 0x7f);
        let out = code as u8 as char;
        out
    } else {
        c
    }
}

/// `str::to_ascii_lowercase`.
pub fn to_ascii_lowercase(value: &str) -> (out: String)
    ensures
        out@ == ascii_lower_seq(value@),
{
    let chars = chars_of(value);
    let mut out = String::new();
    let mut i: usize = 0;
    while i < chars.len()
        invariant
            i <= chars@.len(),
            chars@ == value@,
            out@ == ascii_lower_seq(chars@.take(i as int)),
        decreases chars@.len() - i,
    {
        let c = char_ascii_lower(chars[i]);
        out.push(c);
        i = i + 1;
        assert(ascii_lower_seq(chars@.take(i as int)) =~= ascii_lower_seq(chars@.take((i - 1) as int)).push(ascii_lower(chars@[i - 1])));
    }
    assert(chars@.take(chars@.len() as int) =~= chars@);
    out
}

/// Character-sequence equality of two strings.
pub fn str_eq(a: &str, b: &str) -> (eq: bool)
    ensures
        eq == (a@ == b@),
{
    let x = chars_of(a);
    let y = chars_of(b);
    if x.len() != y.len() {
        return false;
    }
    let mut i: usize = 0;
    while i < x.len()
        invariant
            x@ == a@,
            y@ == b@,
            x@.len() == y@.len(),
            i <= x@.len(),
            forall|k: int| 0 <= k < i ==> x@[k] == y@[k],
        decreases x@.len() - i,
    {
        if x[i] != y[i] {
            assert(x@[i as int] != y@[i as int]);
            return false;
        }
        i = i + 1;
    }
    assert(x@ =~= y@);
    true
}

/// True when `prefix` is a prefix of `value`.
pub open spec fn has_prefix(value: Seq<char>, prefix: Seq<char>) -> bool {
    prefix.len() <= value.len() && value.take(prefix.len() as int) == prefix
}

/// `str::starts_with`.
pub fn starts_with(value: &str, prefix: &str) -> (b: bool)
    ensures
        b == has_prefix(value@, prefix@),
{
    let x = chars_of(value);
    let p = chars_of(prefix);
    if p.len() > x.len() {
        return false;
    }
    let mut i: usize = 0;
    while i < p.len()
        invariant
            x@ == value@,
            p@ == prefix@,
            p@.len() <= x@.len(),
            i <= p@.len(),
            forall|k: int| 0 <= k < i ==> x@[k] == p@[k],
        decreases p@.len() - i,
    {
        if x[i] != p[i] {
            assert(x@.take(p@.len() as int)[i as int] == x@[i as int]);
            assert(x@.take(p@.len() as int)[i as int] != p@[i as int]);
            return false;
        }
        i = i + 1;
    }
    assert(x@.take(p@.len() as int) =~= p@);
    true
}

/// True when `needle` occurs in `value` at position `i`.
pub open spec fn occurs_at(value: Seq<char>, needle: Seq<char>, i: int) -> bool {
    0 <= i && i + needle.len() <= value.len() && value.subrange(i, i + needle.len()) == needle
}

/// True when `needle` occurs somewhere in `value`.
pub open spec fn contains_seq(value: Seq<char>, needle: Seq<char>) -> bool {
    exists|i: int| occurs_at(value, needle, i)
}

/// Whether `needle` occurs at `i` in the character vector.
pub fn matches_at(value: &Vec<char>, needle: &Vec<char>, i: usize) -> (b: bool)
    ensures
        b == occurs_at(value@, needle@, i as int),
{
    let vlen = value.len();
    if i > vlen || needle.len() > vlen - i {
        return false;
    }
    let mut k: usize = 0;
    while k < needle.len()
        invariant
            vlen == value@.len(),
            i + needle@.len() <= vlen,
            k <= needle@.len(),
            forall|m: int| 0 <= m < k ==> value@[i + m] == needle@[m],
        decreases needle@.len() - k,
    {
        if value[i + k] != needle[k] {
            assert(value@.subrange(i as int, i + needle@.len())[k as int] != needle@[k as int]);
            return false;
        }
        k = k + 1;
    }
    assert(value@.subrange(i as int, i + needle@.len()) =~= needle@);
    true
}

/// The first position at which `needle` occurs, if any.
pub open spec fn first_occurrence(value: Seq<char>, needle: Seq<char>) -> Option<int> {
    if contains_seq(value, needle) {
        Some(choose|i: int| occurs_at(value, needle, i) && forall|j: int| 0 <= j < i ==> !occurs_at(value, needle, j))
    } else {
        None
    }
}

/// `str::find` on characters: the first index at which `needle` occurs.
pub fn find_chars(value: &Vec<char>, needle: &Vec<char>) -> (pos: Option<usize>)
    ensures
        match pos {
            Some(p) => occurs_at(value@, needle@, p as int)
                && forall|j: int| 0 <= j < p ==> !occurs_at(value@, needle@, j),
            None => !contains_seq(value@, needle@),
        },
{
    let mut i: usize = 0;
    loop
        invariant
            i <= value@.len(),
            forall|j: int| 0 <= j < i ==> !occurs_at(value@, needle@, j),
        decreases value@.len() - i,
    {
        if matches_at(value, needle, i) {
            return Some(i);
        }
        if i == value.len() {
            assert forall|j: int| !occurs_at(value@, needle@, j) by {
                if 0 <= j && j + needle@.len() <= value@.len() {
                    assert(j <= i);
                }
            }
            return None;
        }
        i = i + 1;
    }
}

/// `str::contains`.
pub fn contains_str(value: &str, needle: &str) -> (b: bool)
    ensures
        b == contains_seq(value@, needle@),
{
    let x = chars_of(value);
    let n = chars_of(needle);
    find_chars(&x, &n).is_some()
}

/// True when `c` occurs in `value`.
pub fn contains_char(value: &Vec<char>, c: char) -> (b: bool)
    ensures
        b == value@.contains(c),
{
    let mut i: usize = 0;
    while i < value.len()
        invariant
            i <= value@.len(),
            forall|k: int| 0 <= k < i ==> value@[k] != c,
        decreases value@.len() - i,
    {
        if value[i] == c {
            return true;
        }
        i = i + 1;
    }
    false
}

/// The ASCII digit for `d < 10`.
pub open spec fn digit_char(d: nat) -> char {
    ((48 + d) as u8) as char
}

/// Decimal rendering of a natural number, as `format!("{}", n)` writes it.
pub open spec fn decimal(n: nat) -> Seq<char>
    decreases n,
{
    if n < 10 {
        seq![digit_char(n)]
    } else {
        decimal(n / 10).push(digit_char(n % 10))
    }
}

/// Appends the decimal rendering of `n`.
pub fn push_decimal(out: &mut String, n: u64)
    ensures
        final(out)@ == old(out)@ + decimal(n as nat),
    decreases n,
{
    if n >= 10 {
        push_decimal(out, n / 10);
    }
    let d: u8 = (n % 10) as u8;
    let c = (48u8 + d) as char;
    out.push(c);
    assert(final(out)@ =~= old(out)@ + decimal(n as nat));
}

/// `n.to_string()`.
pub fn decimal_string(n: u64) -> (out: String)
    ensures
        out@ == decimal(n as nat),
{
    let mut out = String::new();
    push_decimal(&mut out, n);
    assert(out@ =~= decimal(n as nat));
    out
}

/// Width in bytes of the UTF-8 encoding of `c`.
pub open spec fn utf8_width(c: char) -> nat {
    if (c as int) <= 0x7F {
        1
    } else if (c as int) <= 0x7FF {
        2
    } else if (c as int) <= 0xFFFF {
        3
    } else {
        4
    }
}

/// Length in bytes of the UTF-8 encoding of `s`.
pub open spec fn utf8_len(s: Seq<char>) -> nat
    decreases s.len(),
{
    if s.len() == 0 {
        0
    } else {
        utf8_len(s.drop_last()) + utf8_width(s.last())
    }
}

pub fn char_utf8_width(c: char) -> (w: usize)
    ensures
        w == utf8_width(c),
{
    if c <= '\u{7F}' {
        1
    } else if c <= '\u{7FF}' {
        2
    } else if c <= '\u{FFFF}' {
        3
    } else {
        4
    }
}

pub proof fn lemma_utf8_len_prefix(s: Seq<char>, i: int)
    requires
        0 <= i <= s.len(),
    ensures
        utf8_len(s.take(i)) <= utf8_len(s),
    decreases s.len() - i,
{
    if i < s.len() {
        lemma_utf8_len_prefix(s, i + 1);
        assert(s.take(i + 1).drop_last() =~= s.take(i));
    } else {
        assert(s.take(i) =~= s);
    }
}

/// Whether the UTF-8 encoding of `chars` is longer than `limit` bytes.
pub fn utf8_len_exceeds(chars: &Vec<char>, limit: usize) -> (b: bool)
    ensures
        b == (utf8_len(chars@) > limit),
{
    let mut total: usize = 0;
    let mut i: usize = 0;
    while i < chars.len()
        invariant
            i <= chars@.len(),
            total == utf8_len(chars@.take(i as int)),
            total <= limit,
        decreases chars@.len() - i,
    {
        let w = char_utf8_width(chars[i]);
        proof {
            assert(chars@.take(i + 1).drop_last() =~= chars@.take(i as int));
        }
        if w > limit - total {
            proof {
                lemma_utf8_len_prefix(chars@, i + 1);
            }
            return true;
        }
        total = total + w;
        i = i + 1;
    }
    assert(chars@.take(i as int) =~= chars@);
    false
}

/// The first occurrence is the one `find_chars` reports.
pub proof fn lemma_first_occurrence(value: Seq<char>, needle: Seq<char>, p: int)
    requires
        occurs_at(value, needle, p),
        forall|j: int| 0 <= j < p ==> !occurs_at(value, needle, j),
    ensures
        first_occurrence(value, needle) == Some(p),
{
    assert(contains_seq(value, needle));
    let q = choose|i: int| occurs_at(value, needle, i) && forall|j: int| 0 <= j < i ==> !occurs_at(value, needle, j);
    if q < p {
        assert(!occurs_at(value, needle, q));
    } else if q > p {
        assert(!occurs_at(value, needle, p));
    }
}

/// Head-and-tail clipping never lengthens a value and keeps within the budget.
pub proof fn lemma_head_tail_len(value: Seq<char>, max: nat, marker: Seq<char>)
    ensures
        head_tail(value, max, marker).len() <= value.len(),
        value.len() <= max ==> head_tail(value, max, marker) == value,
        value.len() > max ==> head_tail(value, max, marker).len() == max,
{
}

} // verus!
