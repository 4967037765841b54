//! Small text building blocks: decimal and hexadecimal rendering, substring
//! search and single-character replacement, each with its specification.
use vstd::prelude::*;
use vstd::string::*;

verus! {

/// The result of `str::to_lowercase` (full Unicode lowercasing) on a string.
pub uninterp spec fn unicode_lowercase(s: Seq<char>) -> Seq<char>;

/// Whether every character of `s` is ASCII.
pub open spec fn all_ascii(s: Seq<char>) -> bool {
    forall|i: int| 0 <= i < s.len() ==> (#[trigger] s[i]) as u32 <= 127
}

/// The ASCII lowercase mapping of one character: `A`..=`Z` become
/// `a`..=`z`, every other character is kept.
pub open spec fn ascii_lower_char(c: char) -> char {
    if 'A' <= c <= 'Z' {
        ((c as u32) + 32) as char
    } else {
        c
    }
}

/// The ASCII lowercase mapping of a string, character by character.
pub open spec fn ascii_lowercase(s: Seq<char>) -> Seq<char> {
    s.map_values(|c: char| ascii_lower_char(c))
}

/// Calls `str::to_lowercase`. Its result is named by `unicode_lowercase`, a
/// function of the string alone. For a string made of ASCII characters only,
/// Unicode lowercasing maps `A`..=`Z` to `a`..=`z` and keeps every other
/// character, which is stated; for other strings nothing more is claimed.
#[verifier::external_body]
pub(crate) fn to_lowercase(s: &str) -> (r: String)
    ensures
        r@ == unicode_lowercase(s@),
        all_ascii(s@) ==> r@ == ascii_lowercase(s@),
{
    s.to_lowercase()
}

/// Whether `c` is one of the decimal digits `0` to `9`.
pub open spec fn is_ascii_digit(c: char) -> bool {
    '0' <= c && c <= '9'
}

/// The value of the decimal digits `s`.
pub open spec fn digits_value(s: Seq<char>) -> int
    decreases s.len(),
{
    if s.len() == 0 {
        0
    } else {
        digits_value(s.drop_last()) * 10 + (s.last() as int - '0' as int)
    }
}

/// The `i64` that `text` writes in decimal: an optional `+` or `-` sign, then
/// one or more digits and nothing else, with a value that fits in an `i64`;
/// `None` for any other text.
pub open spec fn i64_from_text(text: Seq<char>) -> Option<i64> {
    let signed = text.len() > 0 && (text[0] == '-' || text[0] == '+');
    let digits = if signed { text.drop_first() } else { text };
    let value = if text.len() > 0 && text[0] == '-' { -digits_value(digits) } else { digits_value(digits) };
    if digits.len() > 0 && (forall|i: int| 0 <= i < digits.len() ==> is_ascii_digit(#[trigger] digits[i]))
        && i64::MIN <= value <= i64::MAX {
        Some(value as i64)
    } else {
        None
    }
}

/// Calls `str::parse::<i64>`. As the documentation of `i64::from_str_radix`
/// says, the text must be an optional `+` or `-` sign followed by decimal
/// digits only, and its value must fit in an `i64`; anything else, a sign
/// alone or the empty text included, is an error.
#[verifier::external_body]
pub(crate) fn parse_i64(text: &str) -> (r: Option<i64>)
    ensures
        r == i64_from_text(text@),
{
    text.parse::<i64>().ok()
}

/// Calls `String::push`: appends one character to the end of the string.
#[verifier::external_body]
pub(crate) fn push_char(s: &mut String, c: char)
    ensures
        final(s)@ == old(s)@.push(c),
{
    s.push(c);
}

/// Appends a string slice (`String::push_str`).
pub fn push_str(s: &mut String, t: &str)
    ensures
        final(s)@ == old(s)@ + t@,
{
    s.append(t);
}

/// The ASCII digit character for `d` in `0..=9`.
pub open spec fn digit_char(d: int) -> char {
    (48 + d) as char
}

/// The lowercase hexadecimal digit character for `d` in `0..=15`.
pub open spec fn hex_char(d: int) -> char {
    if d < 10 {
        (48 + d) as char
    } else {
        (87 + d) as char
    }
}

/// The shortest decimal rendering of a natural number.
pub open spec fn decimal(n: nat) -> Seq<char>
    decreases n,
{
    if n < 10 {
        seq![digit_char(n as int)]
    } else {
        decimal(n / 10).push(digit_char((n % 10) as int))
    }
}

/// The decimal rendering of an integer, with a leading `-` when negative
/// (the format `{}` gives an `i64`).
pub open spec fn signed_decimal(x: int) -> Seq<char> {
    if x < 0 {
        seq!['-'] + decimal((-x) as nat)
    } else {
        decimal(x as nat)
    }
}

/// Two lowercase hexadecimal digits of a byte (the format `{:02x}`).
pub open spec fn hex2(b: int) -> Seq<char> {
    seq![hex_char(b / 16), hex_char(b % 16)]
}

fn digit(d: u64) -> (c: char)
    requires
        d < 10,
    ensures
        c == digit_char(d as int),
{
    let b: u8 = 48u8 + d as u8;
    b as char
}

fn hex_digit(d: u64) -> (c: char)
    requires
        d < 16,
    ensures
        c == hex_char(d as int),
{
    if d < 10 {
        let b: u8 = 48u8 + d as u8;
        b as char
    } else {
        let b: u8 = 87u8 + d as u8;
        b as char
    }
}

/// Whether `c` is an ASCII decimal digit.
pub open spec fn is_digit(c: char) -> bool {
    '0' <= c <= '9'
}

/// A decimal rendering is non-empty and made of digits only, and it has more
/// than one digit exactly for numbers from ten up.
pub proof fn lemma_decimal_shape(n: nat)
    ensures
        decimal(n).len() >= 1,
        n >= 10 <==> decimal(n).len() >= 2,
        forall|i: int| 0 <= i < decimal(n).len() ==> is_digit(#[trigger] decimal(n)[i]),
    decreases n,
{
    if n >= 10 {
        lemma_decimal_shape(n / 10);
    }
}

/// Different numbers have different decimal renderings.
pub proof fn lemma_decimal_injective(a: nat, b: nat)
    requires
        decimal(a) == decimal(b),
    ensures
        a == b,
    decreases a,
{
    lemma_decimal_shape(a);
    lemma_decimal_shape(b);
    if a >= 10 {
        assert(b >= 10);
        assert(decimal(a).drop_last() =~= decimal(a / 10));
        assert(decimal(b).drop_last() =~= decimal(b / 10));
        lemma_decimal_injective(a / 10, b / 10);
        assert(decimal(a).last() == digit_char((a % 10) as int));
        assert(decimal(b).last() == digit_char((b % 10) as int));
    } else {
        assert(b < 10);
        assert(decimal(a)[0] == digit_char(a as int));
        assert(decimal(b)[0] == digit_char(b as int));
    }
}

/// Different integers have different signed decimal renderings, and a
/// rendering contains no `/`.
pub proof fn lemma_signed_decimal_injective(a: int, b: int)
    ensures
        signed_decimal(a) == signed_decimal(b) ==> a == b,
        forall|i: int| 0 <= i < signed_decimal(a).len() ==> #[trigger] signed_decimal(a)[i] != '/',
{
    if a < 0 {
        lemma_decimal_shape((-a) as nat);
        assert forall|i: int| 0 <= i < signed_decimal(a).len() implies #[trigger] signed_decimal(a)[i] != '/' by {
            if i > 0 {
                assert(signed_decimal(a)[i] == decimal((-a) as nat)[i - 1]);
            }
        }
    } else {
        lemma_decimal_shape(a as nat);
    }
    if signed_decimal(a) == signed_decimal(b) {
        if a < 0 {
            lemma_decimal_shape((-a) as nat);
            if b >= 0 {
                lemma_decimal_shape(b as nat);
                assert(signed_decimal(b)[0] == decimal(b as nat)[0]);
            } else {
                assert(signed_decimal(a).drop_first() =~= decimal((-a) as nat));
                assert(signed_decimal(b).drop_first() =~= decimal((-b) as nat));
                lemma_decimal_injective((-a) as nat, (-b) as nat);
            }
        } else {
            lemma_decimal_shape(a as nat);
            if b < 0 {
                assert(signed_decimal(a)[0] == decimal(a as nat)[0]);
            } else {
                lemma_decimal_injective(a as nat, b as nat);
            }
        }
    }
}

/// If `x + "/"` is a prefix of `y + "/" + rest` and neither `x` nor `y`
/// contains a `/`, then `x` and `y` are the same: a path component is
/// delimited by the first separator.
pub proof fn lemma_component_prefix(x: Seq<char>, y: Seq<char>, rest: Seq<char>)
    requires
        forall|i: int| 0 <= i < x.len() ==> #[trigger] x[i] != '/',
        forall|i: int| 0 <= i < y.len() ==> #[trigger] y[i] != '/',
        x.len() + 1 <= y.len() + 1 + rest.len(),
        (y + seq!['/'] + rest).subrange(0, x.len() + 1 as int) == x + seq!['/'],
    ensures
        x == y,
{
    let whole = y + seq!['/'] + rest;
    let pre = x + seq!['/'];
    assert(whole.subrange(0, x.len() + 1 as int)[x.len() as int] == pre[x.len() as int]);
    if x.len() < y.len() {
        assert(whole[x.len() as int] == y[x.len() as int]);
    }
    if x.len() > y.len() {
        assert(whole.subrange(0, x.len() + 1 as int)[y.len() as int] == pre[y.len() as int]);
        assert(whole[y.len() as int] == '/');
    }
    assert(x.len() == y.len());
    assert forall|i: int| 0 <= i < x.len() implies x[i] == y[i] by {
        assert(whole.subrange(0, x.len() + 1 as int)[i] == pre[i]);
    }
    assert(x =~= y);
}

/// Appends the decimal rendering of `n`.
pub fn push_decimal(s: &mut String, n: u64)
    ensures
        final(s)@ == old(s)@ + decimal(n as nat),
    decreases n,
{
    if n >= 10 {
        push_decimal(s, n / 10);
        push_char(s, digit(n % 10));
        assert(s@ =~= old(s)@ + decimal(n as nat));
    } else {
        push_char(s, digit(n));
        assert(s@ =~= old(s)@ + decimal(n as nat));
    }
}

/// Appends the decimal rendering of a signed `x`, as `format!("{}", x)` does.
pub fn push_signed_decimal(s: &mut String, x: i64)
    ensures
        final(s)@ == old(s)@ + signed_decimal(x as int),
{
    if x < 0 {
        push_char(s, '-');
        let magnitude: u64 = if x == i64::MIN {
            9_223_372_036_854_775_808u64
        } else {
            (-x) as u64
        };
        push_decimal(s, magnitude);
        assert(s@ =~= old(s)@ + signed_decimal(x as int));
    } else {
        push_decimal(s, x as u64);
    }
}

/// Appends two lowercase hexadecimal digits of `b`, as `{:02x}` does.
pub fn push_hex2(s: &mut String, b: u64)
    requires
        b < 256,
    ensures
        final(s)@ == old(s)@ + hex2(b as int),
{
    push_char(s, hex_digit(b / 16));
    push_char(s, hex_digit(b % 16));
    assert(s@ =~= old(s)@ + hex2(b as int));
}

/// Whether `needle` occurs in `hay` starting at position `i`.
pub open spec fn occurs_at(hay: Seq<char>, needle: Seq<char>, i: int) -> bool {
    &&& 0 <= i
    &&& i + needle.len() <= hay.len()
    &&& hay.subrange(i, i + needle.len()) == needle
}

/// Whether `needle` is a substring of `hay` (`str::contains`); the empty
/// string is a substring of every string.
pub open spec fn contains_seq(hay: Seq<char>, needle: Seq<char>) -> bool {
    exists|i: int| occurs_at(hay, needle, i)
}

fn matches_at(hay: &str, needle: &str, i: usize, hay_len: usize, needle_len: usize) -> (r: bool)
    requires
        hay_len == hay@.len(),
        needle_len == needle@.len(),
        i + needle_len <= hay_len,
    ensures
        r == occurs_at(hay@, needle@, i as int),
{
    let mut j: usize = 0;
    while j < needle_len
        invariant
            hay_len == hay@.len(),
            needle_len == needle@.len(),
            i + needle_len <= hay_len,
            j <= needle_len,
            forall|k: int| 0 <= k < j ==> hay@[i + k] == needle@[k],
        decreases needle_len - j,
    {
        if hay.get_char(i + j) != needle.get_char(j) {
            assert(hay@.subrange(i as int, i + needle_len)[j as int] != needle@[j as int]);
            return false;
        }
        j = j + 1;
    }
    assert(hay@.subrange(i as int, i + needle_len) =~= needle@);
    true
}

/// Whether `needle` occurs in `hay`.
pub fn str_contains(hay: &str, needle: &str) -> (r: bool)
    ensures
        r == contains_seq(hay@, needle@),
{
    let hay_len = hay.unicode_len();
    let needle_len = needle.unicode_len();
    if needle_len > hay_len {
        assert(forall|i: int| !occurs_at(hay@, needle@, i));
        return false;
    }
    let limit = hay_len - needle_len;
    let mut i: usize = 0;
    loop
        invariant
            hay_len == hay@.len(),
            needle_len == needle@.len(),
            limit == hay_len - needle_len,
            i <= limit,
            forall|k: int| 0 <= k < i ==> !occurs_at(hay@, needle@, k),
        ensures
            forall|k: int| 0 <= k <= limit ==> !occurs_at(hay@, needle@, k),
        decreases limit - i,
    {
        if matches_at(hay, needle, i, hay_len, needle_len) {
            return true;
        }
        if i == limit {
            break;
        }
        i = i + 1;
    }
    assert forall|k: int| !occurs_at(hay@, needle@, k) by {
        if 0 <= k <= limit {
        }
    }
    false
}

/// `s` with every occurrence of the character `from` replaced by `to`
/// (`str::replace` with single-character pattern and replacement).
pub open spec fn replace_char(s: Seq<char>, from: char, to: char) -> Seq<char> {
    s.map_values(|c: char| if c == from { to } else { c })
}

/// Appends `t` with every `from` replaced by `to`.
pub fn push_replacing(s: &mut String, t: &str, from: char, to: char)
    ensures
        final(s)@ == old(s)@ + replace_char(t@, from, to),
{
    let n = t.unicode_len();
    let mut i: usize = 0;
    while i < n
        invariant
            n == t@.len(),
            i <= n,
            s@ == old(s)@ + replace_char(t@, from, to).subrange(0, i as int),
        decreases n - i,
    {
        let c = t.get_char(i);
        if c == from {
            push_char(s, to);
        } else {
            push_char(s, c);
        }
        assert(replace_char(t@, from, to).subrange(0, i + 1) =~= replace_char(t@, from, to).subrange(0, i as int).push(if c == from { to } else { c }));
        i = i + 1;
    }
    assert(replace_char(t@, from, to).subrange(0, n as int) =~= replace_char(t@, from, to));
}

} // verus!
