//! Small text helpers shared by the rest of the crate.

use vstd::prelude::*;
use vstd::string::StrSliceExecFns;
use vstd::string::StringExecFns;

verus! {

/// True when both texts hold the same characters.
pub fn str_eq(a: &str, b: &str) -> (r: bool)
    ensures
        r == (a@ == b@),
{
    let left = a.to_owned();
    let right = b.to_owned();
    left == right
}

/// True when `key` equals the text of `candidate`.
pub fn same_text(key: &str, candidate: &String) -> (r: bool)
    ensures
        r == (key@ == candidate@),
{
    str_eq(key, candidate.as_str())
}

/// The character of a decimal digit, for `d` from 0 to 9.
pub open spec fn digit_char(d: int) -> char {
    if d == 0 {
        '0'
    } else if d == 1 {
        '1'
    } else if d == 2 {
        '2'
    } else if d == 3 {
        '3'
    } else if d == 4 {
        '4'
    } else if d == 5 {
        '5'
    } else if d == 6 {
        '6'
    } else if d == 7 {
        '7'
    } else if d == 8 {
        '8'
    } else {
        '9'
    }
}

/// The decimal digits of `n`, without leading zeros.
pub open spec fn decimal_digits(n: nat) -> Seq<char>
    decreases n,
{
    if n < 10 {
        seq![digit_char(n as int)]
    } else {
        decimal_digits(n / 10).push(digit_char((n % 10) as int))
    }
}

/// The decimal form of `i`, with a minus sign when negative.
pub open spec fn decimal_int(i: int) -> Seq<char> {
    if i < 0 {
        seq!['-'] + decimal_digits((-i) as nat)
    } else {
        decimal_digits(i as nat)
    }
}

/// The lower-case character of a hexadecimal digit, for `d` from 0 to 15.
pub open spec fn hex_char(d: int) -> char {
    if d < 10 {
        digit_char(d)
    } else if d == 10 {
        'a'
    } else if d == 11 {
        'b'
    } else if d == 12 {
        'c'
    } else if d == 13 {
        'd'
    } else if d == 14 {
        'e'
    } else {
        'f'
    }
}

/// The value of a hexadecimal digit in either case; -1 for any other
/// character.
pub open spec fn hex_value(c: char) -> int {
    if c == '0' {
        0
    } else if c == '1' {
        1
    } else if c == '2' {
        2
    } else if c == '3' {
        3
    } else if c == '4' {
        4
    } else if c == '5' {
        5
    } else if c == '6' {
        6
    } else if c == '7' {
        7
    } else if c == '8' {
        8
    } else if c == '9' {
        9
    } else if c == 'a' || c == 'A' {
        10
    } else if c == 'b' || c == 'B' {
        11
    } else if c == 'c' || c == 'C' {
        12
    } else if c == 'd' || c == 'D' {
        13
    } else if c == 'e' || c == 'E' {
        14
    } else if c == 'f' || c == 'F' {
        15
    } else {
        -1
    }
}

/// The lower-case hexadecimal text of a byte string, two digits a byte.
pub open spec fn hex_encoded(bytes: Seq<u8>) -> Seq<char> {
    Seq::new(
        2 * bytes.len(),
        |i: int|
            if i % 2 == 0 {
                hex_char(bytes[i / 2] as int / 16)
            } else {
                hex_char(bytes[i / 2] as int % 16)
            },
    )
}

/// True when `text` is an even number of hexadecimal digits.
pub open spec fn is_hex(text: Seq<char>) -> bool {
    &&& text.len() % 2 == 0
    &&& forall|i: int| 0 <= i < text.len() ==> hex_value(#[trigger] text[i]) >= 0
}

/// The bytes that a hexadecimal text stands for; none when the text is
/// not an even number of hexadecimal digits.
pub open spec fn hex_decoded(text: Seq<char>) -> Option<Seq<u8>> {
    if is_hex(text) {
        Some(
            Seq::new(
                text.len() / 2,
                |i: int| (16 * hex_value(text[2 * i]) + hex_value(text[2 * i + 1])) as u8,
            ),
        )
    } else {
        None
    }
}

/// Writes bytes as lower-case hexadecimal text.
///
/// Trusted: calls `hex::encode`, which writes two lower-case digits for
/// every byte, the high half first.
#[verifier::external_body]
pub(crate) fn hex_encode(data: &[u8]) -> (r: String)
    ensures
        r@ == hex_encoded(data@),
{
    hex::encode(data)
}

/// Reads bytes from hexadecimal text.
///
/// Trusted: calls `hex::decode`, which accepts digits of either case and
/// fails on an odd length or on any other character.
#[verifier::external_body]
pub(crate) fn hex_decode(text: &str) -> (r: Option<Vec<u8>>)
    ensures
        r.deep_view() == hex_decoded(text@),
{
    hex::decode(text).ok()
}

/// Writes `n` in decimal.
///
/// Trusted: calls `u64::to_string` of the standard library, which gives
/// the decimal digits without leading zeros.
#[verifier::external_body]
pub(crate) fn u64_to_string(n: u64) -> (r: String)
    ensures
        r@ == decimal_digits(n as nat),
{
    n.to_string()
}

/// Writes `i` in decimal.
///
/// Trusted: calls `i64::to_string` of the standard library, which gives
/// the decimal digits without leading zeros, behind a minus sign when the
/// number is negative.
#[verifier::external_body]
pub(crate) fn i64_to_string(i: i64) -> (r: String)
    ensures
        r@ == decimal_int(i as int),
{
    i.to_string()
}

/// The decimal form of `n`, with zeros in front up to `width` characters.
pub open spec fn padded_decimal(n: nat, width: nat) -> Seq<char> {
    let digits = decimal_digits(n);
    if digits.len() >= width {
        digits
    } else {
        Seq::new((width - digits.len()) as nat, |i: int| '0') + digits
    }
}

/// Writes `n` in decimal, with zeros in front up to `width` characters.
///
/// Trusted: calls `format!` of the standard library with a zero-padded
/// width, which puts zeros before the decimal digits until the text has
/// `width` characters and leaves longer numbers as they are. Widths above
/// sixteen bits are left out, since the formatter may refuse them.
#[verifier::external_body]
pub(crate) fn pad_decimal(n: u64, width: usize) -> (r: String)
    requires
        width <= 0xffff,
    ensures
        r@ == padded_decimal(n as nat, width as nat),
{
    format!("{:0width$}", n, width = width)
}

/// Joins two texts.
pub fn join(a: &str, b: &str) -> (r: String)
    ensures
        r@ == a@ + b@,
{
    a.to_owned().concat(b)
}

/// The characters of a text.
pub fn to_chars(s: &str) -> (v: Vec<char>)
    ensures
        v@ == s@,
{
    let n = s.unicode_len();
    let mut v: Vec<char> = Vec::new();
    let mut i: usize = 0;
    while i < n
        invariant
            i <= n,
            n == s@.len(),
            v@ == s@.subrange(0, i as int),
        decreases n - i,
    {
        v.push(s.get_char(i));
        proof {
            assert(v@ =~= s@.subrange(0, i + 1));
        }
        i += 1;
    }
    proof {
        assert(s@.subrange(0, n as int) =~= s@);
    }
    v
}

/// A text in lower case.
pub uninterp spec fn lowercased(text: Seq<char>) -> Seq<char>;

/// Writes a text in lower case.
///
/// Trusted: calls `str::to_lowercase` of the standard library. The
/// contract names the result, which depends on the text alone.
#[verifier::external_body]
pub(crate) fn to_lowercase(text: &str) -> (r: String)
    ensures
        r@ == lowercased(text@),
{
    text.to_lowercase()
}

/// A text with every `from` replaced by `to`.
pub open spec fn with_replaced(text: Seq<char>, from: char, to: char) -> Seq<char> {
    Seq::new(
        text.len(),
        |i: int|
            if text[i] == from {
                to
            } else {
                text[i]
            },
    )
}

/// Replaces every `from` in a text by `to`.
///
/// Trusted: calls `str::replace` of the standard library with a character
/// as the pattern, which puts `to` in the place of every `from` and
/// leaves every other character as it is.
#[verifier::external_body]
pub(crate) fn replace_char(text: &str, from: char, to: char) -> (r: String)
    ensures
        r@ == with_replaced(text@, from, to),
{
    text.replace(from, to.encode_utf8(&mut [0u8; 4]))
}

/// True when `text` begins with `prefix`.
pub fn starts_with(text: &str, prefix: &str) -> (r: bool)
    ensures
        r == prefix@.is_prefix_of(text@),
{
    let n = prefix.unicode_len();
    if text.unicode_len() < n {
        return false;
    }
    let head = text.substring_char(0, n);
    proof {
        if prefix@.is_prefix_of(text@) {
            assert(text@.subrange(0, n as int) =~= prefix@);
        }
    }
    str_eq(head, prefix)
}

/// The value of a decimal digit; -1 for any other character.
pub open spec fn digit_value(c: char) -> int {
    if c == '0' {
        0
    } else if c == '1' {
        1
    } else if c == '2' {
        2
    } else if c == '3' {
        3
    } else if c == '4' {
        4
    } else if c == '5' {
        5
    } else if c == '6' {
        6
    } else if c == '7' {
        7
    } else if c == '8' {
        8
    } else if c == '9' {
        9
    } else {
        -1
    }
}

/// The number that a run of decimal digits stands for, zero for the empty
/// run; none when another character occurs.
pub open spec fn digits_number(s: Seq<char>) -> Option<nat>
    decreases s.len(),
{
    if s.len() == 0 {
        Some(0nat)
    } else {
        match digits_number(s.drop_last()) {
            Some(v) => if digit_value(s.last()) >= 0 {
                Some((v * 10 + digit_value(s.last())) as nat)
            } else {
                None
            },
            None => None,
        }
    }
}

/// The 32-bit number that a text stands for: decimal digits, at least
/// one, behind an optional plus sign; none when the text has another
/// form or the number does not fit.
pub open spec fn parsed_u32(s: Seq<char>) -> Option<u32> {
    let digits = if s.len() > 0 && s[0] == '+' {
        s.subrange(1, s.len() as int)
    } else {
        s
    };
    if digits.len() == 0 {
        None
    } else {
        match digits_number(digits) {
            Some(v) => if v <= u32::MAX {
                Some(v as u32)
            } else {
                None
            },
            None => None,
        }
    }
}

/// A run of digits stands for no less than any of its prefixes, and for
/// nothing when a prefix stands for nothing.
pub proof fn lemma_digits_prefix(s: Seq<char>, k: int)
    requires
        0 <= k <= s.len(),
    ensures
        digits_number(s.subrange(0, k)) is None ==> digits_number(s) is None,
        digits_number(s) matches Some(v) ==> digits_number(s.subrange(0, k)) matches Some(p) && p
            <= v,
    decreases s.len() - k,
{
    if k == s.len() {
        assert(s.subrange(0, k) =~= s);
    } else {
        lemma_digits_prefix(s, k + 1);
        assert(s.subrange(0, k + 1).drop_last() =~= s.subrange(0, k));
    }
}

/// The value of a decimal digit character, if it is one.
fn digit_of(c: char) -> (r: Option<u64>)
    ensures
        match r {
            Some(d) => d == digit_value(c) && d <= 9,
            None => digit_value(c) < 0,
        },
{
    if c == '0' {
        Some(0)
    } else if c == '1' {
        Some(1)
    } else if c == '2' {
        Some(2)
    } else if c == '3' {
        Some(3)
    } else if c == '4' {
        Some(4)
    } else if c == '5' {
        Some(5)
    } else if c == '6' {
        Some(6)
    } else if c == '7' {
        Some(7)
    } else if c == '8' {
        Some(8)
    } else if c == '9' {
        Some(9)
    } else {
        None
    }
}

/// The number that the digits stand for if it is at most `limit`.
pub open spec fn bounded_number(digits: Seq<char>, limit: nat) -> Option<nat> {
    match digits_number(digits) {
        Some(v) => if v <= limit {
            Some(v)
        } else {
            None
        },
        None => None,
    }
}

/// Reads a number of at most `limit` from the characters between `start`
/// and `end`; the empty run reads as zero.
pub fn parse_digits(chars: &Vec<char>, start: usize, end: usize, limit: u64) -> (r: Option<u64>)
    requires
        start <= end <= chars@.len(),
    ensures
        r.deep_view() == match bounded_number(
            chars@.subrange(start as int, end as int),
            limit as nat,
        ) {
            Some(v) => Some(v as u64),
            None => None,
        },
{
    let ghost digits = chars@.subrange(start as int, end as int);
    let mut acc: u64 = 0;
    let mut i: usize = start;
    proof {
        assert(digits.subrange(0, 0) =~= Seq::<char>::empty());
    }
    while i < end
        invariant
            start <= i <= end,
            end <= chars@.len(),
            digits == chars@.subrange(start as int, end as int),
            acc <= limit,
            digits_number(digits.subrange(0, i - start)) == Some(acc as nat),
        decreases end - i,
    {
        proof {
            assert(digits.subrange(0, i - start + 1).drop_last() =~= digits.subrange(0, i - start));
            assert(digits.subrange(0, i - start + 1).last() == chars@[i as int]);
            lemma_digits_prefix(digits, i - start + 1);
        }
        match digit_of(chars[i]) {
            None => {
                return None;
            },
            Some(d) => {
                let next: u128 = acc as u128 * 10 + d as u128;
                if next > limit as u128 {
                    return None;
                }
                acc = next as u64;
            },
        }
        i += 1;
    }
    proof {
        assert(digits.subrange(0, end - start) =~= digits);
    }
    Some(acc)
}

/// Reads a 32-bit number from the characters before position `end`.
pub fn parse_u32(chars: &Vec<char>, end: usize) -> (r: Option<u32>)
    requires
        end <= chars@.len(),
    ensures
        r == parsed_u32(chars@.subrange(0, end as int)),
{
    let ghost s = chars@.subrange(0, end as int);
    let start: usize = if end > 0 && chars[0] == '+' {
        1
    } else {
        0
    };
    if start == end {
        return None;
    }
    proof {
        assert(s.subrange(start as int, end as int) =~= chars@.subrange(start as int, end as int));
        if start == 0 {
            assert(s.subrange(0, end as int) =~= s);
        }
    }
    match parse_digits(chars, start, end, 0xffff_ffff) {
        Some(v) => Some(v as u32),
        None => None,
    }
}

/// The 64-bit signed number that a text stands for: decimal digits, at
/// least one, behind an optional sign; none when the text has another
/// form or the number does not fit.
pub open spec fn parsed_i64(s: Seq<char>) -> Option<i64> {
    let negative = s.len() > 0 && s[0] == '-';
    let signed = s.len() > 0 && (s[0] == '-' || s[0] == '+');
    let digits = if signed {
        s.subrange(1, s.len() as int)
    } else {
        s
    };
    if digits.len() == 0 {
        None
    } else if negative {
        match bounded_number(digits, 0x8000_0000_0000_0000) {
            Some(v) => Some((-(v as int)) as i64),
            None => None,
        }
    } else {
        match bounded_number(digits, 0x7fff_ffff_ffff_ffff) {
            Some(v) => Some(v as i64),
            None => None,
        }
    }
}

/// Reads a 64-bit signed number from a text.
pub fn parse_i64(text: &str) -> (r: Option<i64>)
    ensures
        r == parsed_i64(text@),
{
    let chars = to_chars(text);
    let n = chars.len();
    let negative = n > 0 && chars[0] == '-';
    let signed = n > 0 && (chars[0] == '-' || chars[0] == '+');
    let start: usize = if signed {
        1
    } else {
        0
    };
    if start == n {
        return None;
    }
    proof {
        if start == 0 {
            assert(chars@.subrange(0, n as int) =~= chars@);
        }
    }
    if negative {
        match parse_digits(&chars, start, n, 0x8000_0000_0000_0000) {
            Some(v) => {
                if v == 0x8000_0000_0000_0000 {
                    Some(i64::MIN)
                } else {
                    Some(-(v as i64))
                }
            },
            None => None,
        }
    } else {
        match parse_digits(&chars, start, n, 0x7fff_ffff_ffff_ffff) {
            Some(v) => Some(v as i64),
            None => None,
        }
    }
}

/// Reads a 32-bit number from a whole text.
pub fn parse_u32_text(text: &str) -> (r: Option<u32>)
    ensures
        r == parsed_u32(text@),
{
    let chars = to_chars(text);
    proof {
        assert(chars@.subrange(0, chars@.len() as int) =~= chars@);
    }
    parse_u32(&chars, chars.len())
}

} // verus!
