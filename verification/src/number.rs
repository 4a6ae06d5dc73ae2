//! Numbers as text: decimal and hexadecimal printing, and reading with the
//! grammar of the standard library's integer parsers.

use crate::text::chars_of;
use vstd::prelude::*;

verus! {

// ---------------------------------------------------------------------------
// Printing
// ---------------------------------------------------------------------------

/// The character of a digit below sixteen; letters are in lower case.
pub open spec fn digit_char(d: int) -> char {
    if d < 10 {
        (48 + d) as char
    } else {
        (87 + d) as char
    }
}

/// The decimal digits of `n`, most significant first.
pub open spec fn decimal(n: nat) -> Seq<char>
    decreases n,
{
    if n < 10 {
        seq![digit_char(n as int)]
    } else {
        decimal(n / 10).push(digit_char((n % 10) as int))
    }
}

/// The decimal form of an integer, with a minus sign where it is negative.
pub open spec fn signed_decimal(n: int) -> Seq<char> {
    if n < 0 {
        seq!['-'] + decimal((-n) as nat)
    } else {
        decimal(n as nat)
    }
}

/// Appends the decimal digits of `n`.
pub fn push_decimal(out: &mut String, n: u64)
    ensures
        final(out)@ == old(out)@ + decimal(n as nat),
    decreases n,
{
    if n >= 10 {
        push_decimal(out, n / 10);
    }
    let digit = (48 + (n % 10) as u8) as char;
    out.push(digit);
    assert(out@ =~= old(out)@ + decimal(n as nat));
}

/// Appends the decimal form of `n`.
pub fn push_signed(out: &mut String, n: i64)
    ensures
        final(out)@ == old(out)@ + signed_decimal(n as int),
{
    if n < 0 {
        out.push('-');
        let magnitude: u64 = (-(n as i128)) as u64;
        push_decimal(out, magnitude);
        assert(out@ =~= old(out)@ + signed_decimal(n as int));
    } else {
        push_decimal(out, n as u64);
    }
}

/// The decimal form of `n`.
pub fn signed_text(n: i64) -> (r: String)
    ensures
        r@ == signed_decimal(n as int),
{
    let mut out = String::new();
    push_signed(&mut out, n);
    assert(out@ =~= signed_decimal(n as int));
    out
}

/// The decimal form of `n`.
pub fn unsigned_text(n: u64) -> (r: String)
    ensures
        r@ == decimal(n as nat),
{
    let mut out = String::new();
    push_decimal(&mut out, n);
    assert(out@ =~= decimal(n as nat));
    out
}

/// The two lower-case hexadecimal digits of a byte.
pub open spec fn hex_byte(b: u8) -> Seq<char> {
    seq![digit_char(b as int / 16), digit_char(b as int % 16)]
}

/// The lower-case hexadecimal form of a sequence of bytes.
pub open spec fn hex(bytes: Seq<u8>) -> Seq<char>
    decreases bytes.len(),
{
    if bytes.len() == 0 {
        Seq::empty()
    } else {
        hex(bytes.drop_last()) + hex_byte(bytes.last())
    }
}

fn digit(d: u8) -> (r: char)
    requires
        d < 16,
    ensures
        r == digit_char(d as int),
{
    if d < 10 {
        (48 + d) as char
    } else {
        (87 + d) as char
    }
}

/// The lower-case hexadecimal form of the bytes.
pub fn hex_text(bytes: &Vec<u8>) -> (r: String)
    ensures
        r@ == hex(bytes@),
{
    let mut out = String::new();
    let mut i: usize = 0;
    assert(bytes@.take(0) =~= Seq::<u8>::empty());
    while i < bytes.len()
        invariant
            i <= bytes@.len(),
            out@ == hex(bytes@.take(i as int)),
        decreases bytes@.len() - i,
    {
        let b = bytes[i];
        assert(bytes@.take(i + 1).drop_last() =~= bytes@.take(i as int));
        let ghost before = out@;
        out.push(digit(b / 16));
        out.push(digit(b % 16));
        assert(out@ =~= before + hex_byte(b));
        i = i + 1;
    }
    assert(bytes@.take(i as int) =~= bytes@);
    out
}

/// The two upper-case hexadecimal digits of a byte.
pub open spec fn upper_hex_byte(b: int) -> Seq<char> {
    seq![upper_digit_char(b / 16), upper_digit_char(b % 16)]
}

/// The character of a digit below sixteen; letters are in upper case.
pub open spec fn upper_digit_char(d: int) -> char {
    if d < 10 {
        (48 + d) as char
    } else {
        (55 + d) as char
    }
}

fn upper_digit(d: u8) -> (r: char)
    requires
        d < 16,
    ensures
        r == upper_digit_char(d as int),
{
    if d < 10 {
        (48 + d) as char
    } else {
        (55 + d) as char
    }
}

/// Appends the two upper-case hexadecimal digits of `b`.
pub fn push_upper_hex(out: &mut String, b: u8)
    ensures
        final(out)@ == old(out)@ + upper_hex_byte(b as int),
{
    out.push(upper_digit(b / 16));
    out.push(upper_digit(b % 16));
    assert(out@ =~= old(out)@ + upper_hex_byte(b as int));
}

// ---------------------------------------------------------------------------
// Reading
// ---------------------------------------------------------------------------

/// The value of a digit in the given radix, at most sixteen.
pub open spec fn digit_value(c: char, radix: int) -> Option<int> {
    let v = if '0' <= c <= '9' {
        c as int - 48
    } else if 'a' <= c <= 'f' {
        c as int - 87
    } else if 'A' <= c <= 'F' {
        c as int - 55
    } else {
        99
    };
    if v < radix {
        Some(v)
    } else {
        None
    }
}

/// The number that a sequence of digits writes; nothing where one character
/// is no digit.
pub open spec fn digits_value(s: Seq<char>, radix: int) -> Option<int>
    decreases s.len(),
{
    if s.len() == 0 {
        Some(0)
    } else {
        match (digits_value(s.drop_last(), radix), digit_value(s.last(), radix)) {
            (Some(v), Some(d)) => Some(v * radix + d),
            _ => None,
        }
    }
}

/// The number that one or more digits write, if it is at most `max`.
pub open spec fn magnitude(s: Seq<char>, radix: int, max: int) -> Option<int> {
    if s.len() == 0 {
        None
    } else {
        match digits_value(s, radix) {
            Some(v) if v <= max => Some(v),
            _ => None,
        }
    }
}

/// An unsigned number: an optional plus sign and one or more digits.
pub open spec fn unsigned_value(s: Seq<char>, radix: int, max: int) -> Option<int> {
    if s.len() > 0 && s[0] == '+' {
        magnitude(s.drop_first(), radix, max)
    } else {
        magnitude(s, radix, max)
    }
}

/// A signed 64-bit decimal number: an optional sign and one or more digits.
pub open spec fn signed_value(s: Seq<char>) -> Option<int> {
    if s.len() > 0 && s[0] == '-' {
        match magnitude(s.drop_first(), 10, -(i64::MIN as int)) {
            Some(v) => Some(-v),
            None => None,
        }
    } else {
        unsigned_value(s, 10, i64::MAX as int)
    }
}

fn value_of_digit(c: char, radix: u64) -> (r: Option<u64>)
    requires
        radix <= 16,
    ensures
        match r {
            Some(v) => digit_value(c, radix as int) == Some(v as int) && v < 16,
            None => digit_value(c, radix as int) is None,
        },
{
    let v: u64 = if '0' <= c && c <= '9' {
        (c as u64) - 48
    } else if 'a' <= c && c <= 'f' {
        (c as u64) - 87
    } else if 'A' <= c && c <= 'F' {
        (c as u64) - 55
    } else {
        99
    };
    if v < radix {
        Some(v)
    } else {
        None
    }
}

proof fn lemma_digits_none(s: Seq<char>, k: int, radix: int)
    requires
        0 <= k <= s.len(),
        digits_value(s.take(k), radix) is None,
    ensures
        digits_value(s, radix) is None,
    decreases s.len(),
{
    if k < s.len() {
        assert(s.drop_last().take(k) =~= s.take(k));
        lemma_digits_none(s.drop_last(), k, radix);
    } else {
        assert(s.take(k) =~= s);
    }
}

proof fn lemma_digits_exceed(s: Seq<char>, k: int, radix: int, max: int)
    requires
        0 <= k <= s.len(),
        radix >= 1,
        max >= 0,
        digits_value(s.take(k), radix) matches Some(v) && v > max,
    ensures
        digits_value(s, radix) matches Some(v) ==> v > max,
    decreases s.len(),
{
    if k < s.len() {
        assert(s.drop_last().take(k) =~= s.take(k));
        lemma_digits_exceed(s.drop_last(), k, radix, max);
        if digits_value(s, radix) is Some {
            let v = digits_value(s.drop_last(), radix)->0;
            lemma_digit_range(s.last(), radix);
            assert(v * radix >= v) by (nonlinear_arith)
                requires
                    v > max,
                    max >= 0,
                    radix >= 1,
            ;
        }
    } else {
        assert(s.take(k) =~= s);
    }
}

proof fn lemma_digit_range(c: char, radix: int)
    ensures
        digit_value(c, radix) matches Some(d) ==> 0 <= d,
{
}

/// Reads the digits from index `from` on.
fn read_magnitude(chars: &Vec<char>, from: usize, radix: u64, max: u64) -> (r: Option<u64>)
    requires
        from <= chars@.len(),
        1 <= radix <= 16,
    ensures
        match r {
            Some(v) => magnitude(chars@.skip(from as int), radix as int, max as int) == Some(
                v as int,
            ),
            None => magnitude(chars@.skip(from as int), radix as int, max as int) is None,
        },
{
    let ghost s = chars@.skip(from as int);
    if from == chars.len() {
        return None;
    }
    let mut acc: u64 = 0;
    let mut i: usize = from;
    assert(s.take(0) =~= Seq::<char>::empty());
    while i < chars.len()
        invariant
            from <= i <= chars@.len(),
            1 <= radix <= 16,
            s == chars@.skip(from as int),
            digits_value(s.take(i - from), radix as int) == Some(acc as int),
            acc <= max,
        decreases chars@.len() - i,
    {
        assert(s.take(i - from + 1).drop_last() =~= s.take(i - from));
        assert(s.take(i - from + 1).last() == chars@[i as int]);
        match value_of_digit(chars[i], radix) {
            Some(d) => {
                assert(0 <= acc * radix <= acc * 16) by (nonlinear_arith)
                    requires
                        1 <= radix <= 16,
                        acc >= 0,
                ;
                let next: u128 = (acc as u128) * (radix as u128) + (d as u128);
                if next > max as u128 {
                    proof {
                        lemma_digits_exceed(s, i - from + 1, radix as int, max as int);
                    }
                    return None;
                }
                acc = next as u64;
            },
            None => {
                proof {
                    lemma_digits_none(s, i - from + 1, radix as int);
                }
                return None;
            },
        }
        i = i + 1;
    }
    assert(s.take(i - from) =~= s);
    Some(acc)
}

/// Reads an unsigned number of at most `max` in the given radix.
pub fn parse_unsigned_chars(chars: &Vec<char>, radix: u64, max: u64) -> (r: Option<u64>)
    requires
        1 <= radix <= 16,
    ensures
        match r {
            Some(v) => unsigned_value(chars@, radix as int, max as int) == Some(v as int),
            None => unsigned_value(chars@, radix as int, max as int) is None,
        },
{
    if chars.len() > 0 && chars[0] == '+' {
        assert(chars@.skip(1) =~= chars@.drop_first());
        read_magnitude(chars, 1, radix, max)
    } else {
        assert(chars@.skip(0) =~= chars@);
        read_magnitude(chars, 0, radix, max)
    }
}

/// Reads a decimal 32-bit number, as `str::parse::<u32>` does.
pub fn parse_u32(text: &str) -> (r: Option<u32>)
    ensures
        match r {
            Some(v) => unsigned_value(text@, 10, u32::MAX as int) == Some(v as int),
            None => unsigned_value(text@, 10, u32::MAX as int) is None,
        },
{
    match parse_unsigned_chars(&chars_of(text), 10, 0xffff_ffff) {
        Some(v) => {
            assert(v <= u32::MAX);
            Some(v as u32)
        },
        None => None,
    }
}

/// Reads a decimal 64-bit number, as `str::parse::<i64>` does.
pub fn parse_i64(text: &str) -> (r: Option<i64>)
    ensures
        match r {
            Some(v) => signed_value(text@) == Some(v as int),
            None => signed_value(text@) is None,
        },
{
    let chars = chars_of(text);
    if chars.len() > 0 && chars[0] == '-' {
        assert(chars@.skip(1) =~= chars@.drop_first());
        match read_magnitude(&chars, 1, 10, 0x8000_0000_0000_0000) {
            Some(v) => {
                let negative: i128 = -(v as i128);
                Some(negative as i64)
            },
            None => None,
        }
    } else {
        match parse_unsigned_chars(&chars, 10, 0x7fff_ffff_ffff_ffff) {
            Some(v) => Some(v as i64),
            None => None,
        }
    }
}

// ---------------------------------------------------------------------------
// What printing and reading do together
// ---------------------------------------------------------------------------

/// The decimal digits of a number are not empty, are all digits, and write
/// that number.
pub proof fn lemma_decimal_reads_back(n: nat)
    ensures
        decimal(n).len() > 0,
        digits_value(decimal(n), 10) == Some(n as int),
        forall|k: int| 0 <= k < decimal(n).len() ==> '0' <= #[trigger] decimal(n)[k] <= '9',
    decreases n,
{
    if n < 10 {
        assert(decimal(n).drop_last() =~= Seq::<char>::empty());
        assert(digits_value(decimal(n).drop_last(), 10) == Some(0int));
        assert(digit_value(decimal(n).last(), 10) == Some(n as int));
    } else {
        lemma_decimal_reads_back(n / 10);
        assert(decimal(n).drop_last() =~= decimal(n / 10));
        assert(digit_value(decimal(n).last(), 10) == Some((n % 10) as int));
    }
}

/// Reading what `signed_text` printed gives the number back.
pub proof fn signed_text_reads_back(n: i64)
    ensures
        signed_value(signed_decimal(n as int)) == Some(n as int),
{
    let s = signed_decimal(n as int);
    if n < 0 {
        lemma_decimal_reads_back((-(n as int)) as nat);
        assert(s.drop_first() =~= decimal((-(n as int)) as nat));
    } else {
        lemma_decimal_reads_back(n as nat);
        assert('0' <= decimal(n as nat)[0] <= '9');
    }
}

/// Reading what `unsigned_text` printed gives the number back.
pub proof fn unsigned_text_reads_back(n: u32)
    ensures
        unsigned_value(decimal(n as nat), 10, u32::MAX as int) == Some(n as int),
{
    lemma_decimal_reads_back(n as nat);
    assert('0' <= decimal(n as nat)[0] <= '9');
}

/// One more digit behind a number makes it ten times as large and adds the digit;
/// no number but zero begins with a zero; and a minus sign stands before those
/// below zero.
pub proof fn digits_count_tens(n: nat, d: nat)
    requires
        d < 10,
    ensures
        decimal(d).len() == 1 && decimal(d)[0] as int == 0x30 + d,
        n > 0 ==> decimal((10 * n + d) as nat) == decimal(n) + decimal(d),
        n > 0 ==> decimal(n)[0] != '0',
        signed_decimal(n as int) == decimal(n),
        n > 0 ==> signed_decimal(-(n as int)) == seq!['-'] + decimal(n),
    decreases n,
{
    if n > 0 {
        let whole = (10 * n + d) as nat;
        assert(whole / 10 == n && whole % 10 == d);
        assert(decimal(whole) =~= decimal(n) + decimal(d));
        if n >= 10 {
            digits_count_tens(n / 10, n % 10);
        }
    }
}

/// Two digits of base sixteen tell a byte: the first one counts sixteens.
pub open spec fn tells_byte(high: char, low: char, b: int) -> bool {
    match (digit_value(high, 16), digit_value(low, 16)) {
        (Some(h), Some(l)) => 16 * h + l == b,
        _ => false,
    }
}

/// The digits of bytes stand in the order of the bytes, two for each, with small
/// letters; those of a single code have capital letters.
pub proof fn two_digits_tell_each_byte(bytes: Seq<u8>, i: int)
    ensures
        hex(bytes).len() == 2 * bytes.len(),
        0 <= i < bytes.len() ==> {
            let high = hex(bytes)[2 * i];
            let low = hex(bytes)[2 * i + 1];
            &&& tells_byte(high, low, bytes[i] as int)
            &&& !('A' <= high <= 'F') && !('A' <= low <= 'F')
        },
        0 <= i < 256 ==> {
            let digits = upper_hex_byte(i);
            &&& digits.len() == 2
            &&& tells_byte(digits[0], digits[1], i)
            &&& !('a' <= digits[0] <= 'f') && !('a' <= digits[1] <= 'f')
        },
    decreases bytes.len(),
{
    if bytes.len() > 0 {
        two_digits_tell_each_byte(bytes.drop_last(), i);
    }
}

/// A character is a digit of the given base: a numeral, or one of the first
/// letters in either case.
pub open spec fn is_digit_of(c: char, radix: int) -> bool {
    ||| '0' <= c <= '9' && c as int - 48 < radix
    ||| 'a' <= c <= 'f' && c as int - 87 < radix
    ||| 'A' <= c <= 'F' && c as int - 55 < radix
}

proof fn lemma_digits_are_digits(s: Seq<char>, radix: int)
    requires
        0 < radix <= 16,
    ensures
        digits_value(s, radix) is Some <==> forall|i: int|
            0 <= i < s.len() ==> is_digit_of(#[trigger] s[i], radix),
        digits_value(s, radix) is Some ==> digits_value(s, radix)->Some_0 >= 0,
    decreases s.len(),
{
    if s.len() > 0 {
        let before = s.drop_last();
        lemma_digits_are_digits(before, radix);
        assert(digit_value(s.last(), radix) is Some <==> is_digit_of(s.last(), radix));
        assert(s.last() == s[s.len() - 1]);
        assert(forall|i: int| 0 <= i < before.len() ==> #[trigger] before[i] == s[i]);
        if digits_value(s, radix) is Some {
            assert forall|i: int| 0 <= i < s.len() implies is_digit_of(#[trigger] s[i], radix) by {
                if i < before.len() {
                    assert(before[i] == s[i]);
                }
            }
            let v = digits_value(before, radix)->Some_0;
            assert(v * radix >= 0) by (nonlinear_arith)
                requires
                    v >= 0,
                    radix > 0,
            ;
        }
        if forall|i: int| 0 <= i < s.len() ==> is_digit_of(#[trigger] s[i], radix) {
            assert forall|i: int| 0 <= i < before.len() implies is_digit_of(
                #[trigger] before[i],
                radix,
            ) by {
                assert(before[i] == s[i]);
            }
            assert(is_digit_of(s[s.len() - 1], radix));
        }
    }
}

pub proof fn lemma_read_number_is_not_negative(s: Seq<char>, radix: int, max: int)
    requires
        0 < radix <= 16,
    ensures
        unsigned_value(s, radix, max) is Some ==> unsigned_value(s, radix, max)->Some_0 >= 0,
{
    lemma_digits_are_digits(s, radix);
    lemma_digits_are_digits(s.drop_first(), radix);
}

/// A number is read only where all characters are digits, but for one sign before
/// them, and where it is not too large; and then it is told by the digits alone.
pub proof fn only_digits_are_read(s: Seq<char>, radix: int, max: int)
    requires
        0 < radix <= 16,
        s.len() > 0,
        s[0] != '+',
        s[0] != '-',
    ensures
        match digits_value(s, radix) {
            Some(v) => v >= 0 && unsigned_value(s, radix, max) == (if v <= max {
                Some(v)
            } else {
                None
            }),
            None => unsigned_value(s, radix, max) is None,
        },
        digits_value(s, radix) is Some <==> forall|i: int|
            0 <= i < s.len() ==> is_digit_of(#[trigger] s[i], radix),
        unsigned_value(seq!['+'] + s, radix, max) == unsigned_value(s, radix, max),
        unsigned_value(seq!['-'] + s, radix, max) is None,
        unsigned_value(seq!['+'], radix, max) is None,
        unsigned_value(Seq::empty(), radix, max) is None,
        signed_value(s) == unsigned_value(s, 10, 0x7fff_ffff_ffff_ffff),
        signed_value(seq!['+'] + s) == signed_value(s),
        signed_value(seq!['-'] + s) == (match unsigned_value(s, 10, 0x8000_0000_0000_0000) {
            Some(v) => Some(-v),
            None => None,
        }),
{
    lemma_digits_are_digits(s, radix);
    let plus = seq!['+'] + s;
    let minus = seq!['-'] + s;
    assert(plus.drop_first() =~= s);
    assert(minus.drop_first() =~= s);
    lemma_digits_are_digits(minus, radix);
    assert(!is_digit_of(minus[0], radix));
}

} // verus!
