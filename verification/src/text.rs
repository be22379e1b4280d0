//! Character-level helpers shared by the decoders and the status display.

use vstd::prelude::*;

verus! {

/// Appends one character to a `String`.
///
/// Wraps `String::push`, whose documentation states that it appends the
/// given `char` to the end of the string; the contract says exactly that.
#[verifier::external_body]
pub(crate) fn push_char(s: &mut String, c: char)
    ensures
        final(s)@ == old(s)@.push(c),
{
    s.push(c);
}

/// The character with the given code point, if there is one.
///
/// Wraps `char::from_u32`, which the documentation says returns `None`
/// exactly for values above `0x10FFFF` and for surrogates
/// (`0xD800..=0xDFFF`), and otherwise the `char` with that value.
#[verifier::external_body]
fn char_from_u32(v: u32) -> (res: Option<char>)
    ensures
        res is Some <==> (v <= 0x10ffff && !(0xd800 <= v <= 0xdfff)),
        res matches Some(c) ==> c == v as char,
{
    char::from_u32(v)
}

/// Collects the characters of a string slice into a vector.
pub fn chars_of(s: &str) -> (res: Vec<char>)
    ensures
        res@ == s@,
{
    let mut res: Vec<char> = Vec::new();
    for c in it: s.chars()
        invariant
            res@ == it.seq().take(it.index()),
    {
        res.push(c);
    }
    res
}

/// The two strings hold the same characters.
pub fn same_text(a: &str, b: &str) -> (res: bool)
    ensures
        res == (a@ == b@),
{
    let x = chars_of(a);
    let y = chars_of(b);
    if x.len() != y.len() {
        return false;
    }
    let mut i: usize = 0;
    while i < x.len()
        invariant
            x@ == a@,
            y@ == b@,
            x.len() == y.len(),
            i <= x.len(),
            forall|j: int| 0 <= j < i ==> x@[j] == y@[j],
        decreases x.len() - i,
    {
        if x[i] != y[i] {
            return false;
        }
        i = i + 1;
    }
    assert(a@ =~= b@);
    true
}

/// Builds a `String` from the characters `v[start..end]`.
pub fn string_from_chars(v: &Vec<char>, start: usize, end: usize) -> (res: String)
    requires
        start <= end <= v.len(),
    ensures
        res@ == v@.subrange(start as int, end as int),
{
    let mut res = String::new();
    let mut i = start;
    while i < end
        invariant
            start <= i <= end <= v.len(),
            res@ == v@.subrange(start as int, i as int),
        decreases end - i,
    {
        push_char(&mut res, v[i]);
        i = i + 1;
        assert(res@ =~= v@.subrange(start as int, i as int));
    }
    res
}

/// `needle` occurs in `hay` starting at position `i`.
pub open spec fn occurs_at(hay: Seq<char>, needle: Seq<char>, i: int) -> bool {
    &&& 0 <= i
    &&& i + needle.len() <= hay.len()
    &&& hay.subrange(i, i + needle.len()) == needle
}

/// `needle` is a (case-sensitive) substring of `hay`; the empty string is a
/// substring of every string.
pub open spec fn str_contains(hay: Seq<char>, needle: Seq<char>) -> bool {
    exists|i: int| occurs_at(hay, needle, i)
}

fn occurs_at_exec(hay: &Vec<char>, needle: &Vec<char>, i: usize) -> (res: bool)
    requires
        i + needle.len() <= hay.len(),
    ensures
        res == occurs_at(hay@, needle@, i as int),
{
    let mut j: usize = 0;
    while j < needle.len()
        invariant
            i + needle.len() <= hay.len(),
            j <= needle.len(),
            forall|k: int| 0 <= k < j ==> hay@[i + k] == needle@[k],
        decreases needle.len() - j,
    {
        if hay[i + j] != needle[j] {
            assert(hay@.subrange(i as int, i + needle.len())[j as int] != needle@[j as int]);
            return false;
        }
        j = j + 1;
    }
    assert(hay@.subrange(i as int, i + needle.len()) =~= needle@);
    true
}

/// Case-sensitive substring test, as `str::contains` with a `&str` pattern.
pub fn contains_str(hay: &str, needle: &str) -> (res: bool)
    ensures
        res == str_contains(hay@, needle@),
{
    let h = chars_of(hay);
    let n = chars_of(needle);
    if n.len() == 0 {
        assert(hay@.subrange(0, 0) =~= needle@);
        assert(occurs_at(hay@, needle@, 0));
        return true;
    }
    if n.len() > h.len() {
        return false;
    }
    let last = h.len() - n.len();
    let mut i: usize = 0;
    while i <= last
        invariant
            h@ == hay@,
            n@ == needle@,
            last == h.len() - n.len(),
            1 <= n.len() <= h.len(),
            i <= last + 1,
            forall|k: int| 0 <= k < i ==> !occurs_at(hay@, needle@, k),
        decreases last + 1 - i,
    {
        if occurs_at_exec(&h, &n, i) {
            return true;
        }
        i = i + 1;
    }
    false
}

/// The characters that `char::is_whitespace` accepts: the code points with
/// the Unicode `White_Space` property.
pub open spec fn is_unicode_whitespace(c: char) -> bool {
    let v = c as u32;
    ||| 0x09 <= v <= 0x0d
    ||| v == 0x20
    ||| v == 0x85
    ||| v == 0xa0
    ||| v == 0x1680
    ||| 0x2000 <= v <= 0x200a
    ||| v == 0x2028
    ||| v == 0x2029
    ||| v == 0x202f
    ||| v == 0x205f
    ||| v == 0x3000
}

/// Executable form of `is_unicode_whitespace`.
pub fn is_whitespace_char(c: char) -> (res: bool)
    ensures
        res == is_unicode_whitespace(c),
{
    let v = c as u32;
    (0x09 <= v && v <= 0x0d) || v == 0x20 || v == 0x85 || v == 0xa0 || v == 0x1680 || (0x2000
        <= v && v <= 0x200a) || v == 0x2028 || v == 0x2029 || v == 0x202f || v == 0x205f || v
        == 0x3000
}

/// `s` without its leading whitespace.
pub open spec fn trim_start(s: Seq<char>) -> Seq<char>
    decreases s.len(),
{
    if s.len() > 0 && is_unicode_whitespace(s[0]) {
        trim_start(s.drop_first())
    } else {
        s
    }
}

/// `s` without its trailing whitespace.
pub open spec fn trim_end(s: Seq<char>) -> Seq<char>
    decreases s.len(),
{
    if s.len() > 0 && is_unicode_whitespace(s.last()) {
        trim_end(s.drop_last())
    } else {
        s
    }
}

/// `s` without leading and trailing whitespace, as `str::trim` gives it.
pub open spec fn trimmed(s: Seq<char>) -> Seq<char> {
    trim_end(trim_start(s))
}

/// Removes leading and trailing whitespace, as `str::trim` does.
pub fn trim_whitespace(s: &str) -> (res: String)
    ensures
        res@ == trimmed(s@),
{
    let v = chars_of(s);
    let len = v.len();
    let mut start: usize = 0;
    assert(s@.subrange(0, len as int) =~= s@);
    while start < len && is_whitespace_char(v[start])
        invariant
            v@ == s@,
            len == v.len(),
            start <= len,
            trim_start(s@) == trim_start(s@.subrange(start as int, len as int)),
        decreases len - start,
    {
        assert(s@.subrange(start as int, len as int).drop_first() =~= s@.subrange(
            start + 1,
            len as int,
        ));
        start = start + 1;
    }
    assert(trim_start(s@) == s@.subrange(start as int, len as int));
    let mut end: usize = len;
    while end > start && is_whitespace_char(v[end - 1])
        invariant
            v@ == s@,
            len == v.len(),
            start <= end <= len,
            trimmed(s@) == trim_end(s@.subrange(start as int, end as int)),
        decreases end,
    {
        assert(s@.subrange(start as int, end as int).drop_last() =~= s@.subrange(
            start as int,
            end - 1,
        ));
        end = end - 1;
    }
    string_from_chars(&v, start, end)
}

/// The UTF-16 code units of one character.
pub open spec fn utf16_of_char(c: char) -> Seq<u16> {
    let v = c as u32 as int;
    if v < 0x10000 {
        seq![v as u16]
    } else {
        seq![(0xd800 + (v - 0x10000) / 0x400) as u16, (0xdc00 + (v - 0x10000) % 0x400) as u16]
    }
}

/// The UTF-16 encoding of a character sequence, as `str::encode_utf16` yields it.
pub open spec fn utf16_encode(s: Seq<char>) -> Seq<u16>
    decreases s.len(),
{
    if s.len() == 0 {
        seq![]
    } else {
        utf16_encode(s.drop_last()) + utf16_of_char(s.last())
    }
}

/// The UTF-16 encoding of `value` followed by a terminating NUL code unit,
/// the form that wide-character Win32 functions take.
pub fn wide_null(value: &str) -> (res: Vec<u16>)
    ensures
        res@ == utf16_encode(value@).push(0u16),
{
    let chars = chars_of(value);
    let mut res: Vec<u16> = Vec::new();
    let mut i: usize = 0;
    while i < chars.len()
        invariant
            chars@ == value@,
            i <= chars.len(),
            res@ == utf16_encode(value@.take(i as int)),
        decreases chars.len() - i,
    {
        let c = chars[i];
        let v = c as u32;
        if v < 0x10000 {
            res.push(v as u16);
        } else {
            let w = v - 0x10000;
            res.push((0xd800 + w / 0x400) as u16);
            res.push((0xdc00 + w % 0x400) as u16);
        }
        assert(value@.take(i + 1).drop_last() =~= value@.take(i as int));
        i = i + 1;
    }
    assert(value@.take(i as int) =~= value@);
    res.push(0u16);
    res
}

/// The hexadecimal digit for `d` (`0 <= d < 16`), in upper or lower case.
pub open spec fn hex_digit_char(d: int, upper: bool) -> char {
    if d < 10 {
        ('0' as int + d) as char
    } else if upper {
        ('A' as int + (d - 10)) as char
    } else {
        ('a' as int + (d - 10)) as char
    }
}

/// The hexadecimal digits of `v`, most significant first, without leading
/// zeros (zero itself is the single digit `0`).
pub open spec fn hex_digits(v: nat, upper: bool) -> Seq<char>
    decreases v,
{
    if v < 16 {
        seq![hex_digit_char(v as int, upper)]
    } else {
        hex_digits(v / 16, upper).push(hex_digit_char((v % 16) as int, upper))
    }
}

/// The hexadecimal digits of `v`, padded on the left with `0` to at least
/// `width` characters, as the `{:0width$x}` / `{:0width$X}` formats give them.
pub open spec fn hex_padded(v: nat, width: nat, upper: bool) -> Seq<char> {
    let d = hex_digits(v, upper);
    if d.len() >= width {
        d
    } else {
        Seq::new((width - d.len()) as nat, |i: int| '0') + d
    }
}

proof fn lemma_hex_digits_len(v: nat, upper: bool)
    ensures
        hex_digits(v, upper).len() == hex_digits(v, false).len(),
        1 <= hex_digits(v, false).len() <= 1 + v,
    decreases v,
{
    if v >= 16 {
        lemma_hex_digits_len(v / 16, upper);
    }
}

fn hex_digit_exec(d: u64, upper: bool) -> (c: char)
    requires
        d < 16,
    ensures
        c == hex_digit_char(d as int, upper),
{
    if d < 10 {
        ((0x30u8 + d as u8) as char)
    } else if upper {
        ((0x41u8 + (d - 10) as u8) as char)
    } else {
        ((0x61u8 + (d - 10) as u8) as char)
    }
}

fn push_hex_digits(s: &mut String, v: u64, upper: bool)
    ensures
        final(s)@ == old(s)@ + hex_digits(v as nat, upper),
    decreases v,
{
    if v >= 16 {
        push_hex_digits(s, v / 16, upper);
    }
    push_char(s, hex_digit_exec(v % 16, upper));
    assert(final(s)@ =~= old(s)@ + hex_digits(v as nat, upper));
}

fn hex_digit_count(v: u64) -> (n: usize)
    ensures
        n == hex_digits(v as nat, false).len(),
        1 <= n <= 16,
    decreases v,
{
    if v < 16 {
        1
    } else {
        let n = hex_digit_count(v / 16);
        assert(v / 16 < 0x1000_0000_0000_0000);
        proof {
            lemma_hex_count_bound(v as nat);
        }
        n + 1
    }
}

proof fn lemma_hex_count_bound(v: nat)
    requires
        v < 0x1_0000_0000_0000_0000,
    ensures
        hex_digits(v, false).len() <= 16,
{
    reveal_with_fuel(hex_digits, 17);
    assert(v / 16 / 16 / 16 / 16 / 16 / 16 / 16 / 16 / 16 / 16 / 16 / 16 / 16 / 16 / 16 < 16);
}

/// Appends `value` in hexadecimal, zero-padded to at least `width` digits.
pub fn push_hex(s: &mut String, value: u64, width: usize, upper: bool)
    ensures
        final(s)@ == old(s)@ + hex_padded(value as nat, width as nat, upper),
{
    let count = hex_digit_count(value);
    proof {
        lemma_hex_digits_len(value as nat, upper);
    }
    let ghost start = s@;
    let mut i = count;
    while i < width
        invariant
            count <= i <= width || (width < count && i == count),
            s@ == start + Seq::new((i - count) as nat, |k: int| '0'),
        decreases width - i,
    {
        push_char(s, '0');
        i = i + 1;
        assert(s@ =~= start + Seq::new((i - count) as nat, |k: int| '0'));
    }
    push_hex_digits(s, value, upper);
    if width <= count {
        assert(s@ =~= start + hex_padded(value as nat, width as nat, upper));
    } else {
        assert(s@ =~= start + hex_padded(value as nat, width as nat, upper));
    }
}

/// `value` in hexadecimal, zero-padded to at least `width` digits.
pub fn hex_string(value: u64, width: usize, upper: bool) -> (res: String)
    ensures
        res@ == hex_padded(value as nat, width as nat, upper),
{
    let mut s = String::new();
    push_hex(&mut s, value, width, upper);
    assert(s@ =~= hex_padded(value as nat, width as nat, upper));
    s
}

/// The code unit is a UTF-16 high (leading) surrogate.
pub open spec fn is_high_surrogate(u: u16) -> bool {
    0xd800 <= u <= 0xdbff
}

/// The code unit is a UTF-16 low (trailing) surrogate.
pub open spec fn is_low_surrogate(u: u16) -> bool {
    0xdc00 <= u <= 0xdfff
}

/// The character that a surrogate pair encodes.
pub open spec fn surrogate_pair_char(hi: u16, lo: u16) -> char {
    ((0x10000 + (hi - 0xd800) * 0x400 + (lo - 0xdc00)) as u32) as char
}

/// UTF-16 decoding in which each unpaired surrogate becomes U+FFFD, as
/// `String::from_utf16_lossy` does it.
pub open spec fn utf16_decode_lossy(s: Seq<u16>) -> Seq<char>
    decreases s.len(),
{
    if s.len() == 0 {
        seq![]
    } else if s.len() >= 2 && is_high_surrogate(s[0]) && is_low_surrogate(s[1]) {
        seq![surrogate_pair_char(s[0], s[1])] + utf16_decode_lossy(s.skip(2))
    } else if is_high_surrogate(s[0]) || is_low_surrogate(s[0]) {
        seq!['\u{fffd}'] + utf16_decode_lossy(s.skip(1))
    } else {
        seq![(s[0] as u32) as char] + utf16_decode_lossy(s.skip(1))
    }
}

/// The number of code units before the first NUL, or all of them when
/// there is none.
pub open spec fn nul_terminated_len(s: Seq<u16>) -> int
    decreases s.len(),
{
    if s.len() == 0 {
        0
    } else if s[0] == 0 {
        0
    } else {
        1 + nul_terminated_len(s.skip(1))
    }
}

/// Decodes the text before the first NUL of a UTF-16 buffer; unpaired
/// surrogates become U+FFFD.
pub fn decode_wide_name(units: &[u16]) -> (res: String)
    ensures
        res@ == utf16_decode_lossy(units@.take(nul_terminated_len(units@))),
{
    let mut end: usize = 0;
    assert(units@.skip(0) =~= units@);
    while end < units.len() && units[end] != 0
        invariant
            end <= units.len(),
            nul_terminated_len(units@) == end + nul_terminated_len(units@.skip(end as int)),
        decreases units.len() - end,
    {
        assert(units@.skip(end as int).skip(1) =~= units@.skip(end + 1));
        end = end + 1;
    }
    let ghost text = units@.take(end as int);
    let mut res = String::new();
    let mut i: usize = 0;
    assert(text.skip(0) =~= text);
    while i < end
        invariant
            end <= units.len(),
            text == units@.take(end as int),
            i <= end,
            res@ + utf16_decode_lossy(text.skip(i as int)) == utf16_decode_lossy(text),
        decreases end - i,
    {
        let u = units[i];
        let ghost rest = text.skip(i as int);
        assert(rest[0] == u);
        if 0xd800 <= u && u <= 0xdbff && i + 1 < end && 0xdc00 <= units[i + 1] && units[i + 1]
            <= 0xdfff {
            let lo = units[i + 1];
            assert(rest[1] == lo);
            let v: u32 = 0x10000 + (u as u32 - 0xd800) * 0x400 + (lo as u32 - 0xdc00);
            let c = match char_from_u32(v) {
                Some(c) => c,
                None => '\u{fffd}',
            };
            push_char(&mut res, c);
            assert(rest.skip(2) =~= text.skip(i + 2));
            i = i + 2;
        } else if 0xd800 <= u && u <= 0xdfff {
            push_char(&mut res, '\u{fffd}');
            assert(rest.skip(1) =~= text.skip(i + 1));
            i = i + 1;
        } else {
            let c = match char_from_u32(u as u32) {
                Some(c) => c,
                None => '\u{fffd}',
            };
            push_char(&mut res, c);
            assert(rest.skip(1) =~= text.skip(i + 1));
            i = i + 1;
        }
        assert(res@ + utf16_decode_lossy(text.skip(i as int)) =~= utf16_decode_lossy(text));
    }
    assert(res@ =~= utf16_decode_lossy(text));
    res
}

} // verus!
