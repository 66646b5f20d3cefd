//! Parsing and printing of the numeric command-line arguments: the target
//! frequency (base 10, any `u32`) and the device address (base 16, one byte).
//!
//! A numeral is an optional leading `'+'` followed by at least one digit of
//! the radix, exactly the texts that the standard library's radix parsers
//! accept for unsigned integers; letter digits may be either case.

use vstd::prelude::*;
use vstd::string::*;

verus! {

/// The value of `c` as a digit: `0..=9` for `'0'..='9'`, `10..=35` for
/// letters of either case, and `-1` for every other character.
pub open spec fn digit_val(c: char) -> int {
    let v = c as int;
    if 48 <= v <= 57 {
        v - 48
    } else if 65 <= v <= 90 {
        v - 55
    } else if 97 <= v <= 122 {
        v - 87
    } else {
        -1
    }
}

/// Whether `c` is a digit of the given radix.
pub open spec fn is_digit(c: char, radix: int) -> bool {
    0 <= digit_val(c) < radix
}

/// Whether every character of `s` is a digit of the given radix.
pub open spec fn all_digits(s: Seq<char>, radix: int) -> bool {
    forall|k: int| 0 <= k < s.len() ==> is_digit(s[k], radix)
}

/// The integer that the digit string `s` denotes in the given radix.
pub open spec fn radix_value(s: Seq<char>, radix: int) -> int
    decreases s.len(),
{
    if s.len() == 0 {
        0
    } else {
        radix_value(s.drop_last(), radix) * radix + digit_val(s.last())
    }
}

/// The digit portion of a numeral: everything after an optional leading `'+'`.
pub open spec fn digits_of(s: Seq<char>) -> Seq<char> {
    if s.len() > 0 && s[0] == '+' {
        s.subrange(1, s.len() as int)
    } else {
        s
    }
}

/// Whether `s` is a numeral of the given radix whose value is at most `max`.
pub open spec fn valid_numeral(s: Seq<char>, radix: int, max: int) -> bool {
    let d = digits_of(s);
    d.len() > 0 && all_digits(d, radix) && radix_value(d, radix) <= max
}

/// A digit string denotes a non-negative value.
proof fn lemma_radix_value_nonneg(s: Seq<char>, radix: int)
    requires
        radix >= 2,
        all_digits(s, radix),
    ensures
        radix_value(s, radix) >= 0,
    decreases s.len(),
{
    if s.len() > 0 {
        assert(all_digits(s.drop_last(), radix));
        lemma_radix_value_nonneg(s.drop_last(), radix);
    }
}

/// Extending a digit string with further digits never lowers its value.
proof fn lemma_radix_value_take(s: Seq<char>, radix: int, j: int)
    requires
        radix >= 2,
        all_digits(s, radix),
        0 <= j <= s.len(),
    ensures
        radix_value(s.take(j), radix) <= radix_value(s, radix),
    decreases s.len() - j,
{
    if j == s.len() {
        assert(s.take(j) =~= s);
    } else {
        assert(s.take(j + 1).drop_last() =~= s.take(j));
        assert(s.take(j + 1).last() == s[j]);
        assert(all_digits(s.take(j), radix));
        lemma_radix_value_nonneg(s.take(j), radix);
        assert(radix_value(s.take(j + 1), radix) == radix_value(s.take(j), radix) * radix
            + digit_val(s[j]));
        assert(radix_value(s.take(j), radix) * radix >= radix_value(s.take(j), radix)) by (
        nonlinear_arith)
            requires
                radix >= 2,
                radix_value(s.take(j), radix) >= 0,
        ;
        lemma_radix_value_take(s, radix, j + 1);
    }
}

/// The value of `c` as a digit of the given radix, or `None` where `c` is
/// no such digit.
fn digit_of(c: char, radix: u32) -> (r: Option<u32>)
    requires
        2 <= radix <= 36,
    ensures
        r is Some <==> is_digit(c, radix as int),
        r matches Some(v) ==> v == digit_val(c),
{
    let u: u32 = c as u32;
    let d: u32 = if 48 <= u && u <= 57 {
        u - 48
    } else if 65 <= u && u <= 90 {
        u - 55
    } else if 97 <= u && u <= 122 {
        u - 87
    } else {
        36
    };
    if d < radix {
        Some(d)
    } else {
        None
    }
}

/// Parses `val` as a numeral of the given radix, refusing values over `max`.
fn parse_radix(val: &str, radix: u32, max: u32) -> (r: Option<u32>)
    requires
        2 <= radix <= 36,
    ensures
        r is Some <==> valid_numeral(val@, radix as int, max as int),
        r matches Some(v) ==> v <= max && v as int == radix_value(
            digits_of(val@),
            radix as int,
        ),
{
    let n: usize = val.unicode_len();
    let start: usize = if n > 0 && val.get_char(0) == '+' {
        1
    } else {
        0
    };
    let ghost d = digits_of(val@);
    proof {
        assert(d =~= val@.subrange(start as int, n as int));
    }
    if start == n {
        return None;
    }
    let mut acc: u64 = 0;
    let mut i: usize = start;
    while i < n
        invariant
            start <= i <= n,
            n == val@.len(),
            d == digits_of(val@),
            d == val@.subrange(start as int, n as int),
            2 <= radix <= 36,
            forall|k: int| start <= k < i ==> is_digit(val@[k], radix as int),
            acc <= max <= u32::MAX,
            acc as int == radix_value(val@.subrange(start as int, i as int), radix as int),
        decreases n - i,
    {
        let c = val.get_char(i);
        let dv: u32 = match digit_of(c, radix) {
            Some(v) => v,
            None => {
                proof {
                    let k = i as int - start as int;
                    assert(d[k] == val@[i as int]);
                    assert(!is_digit(d[k], radix as int));
                    assert(!all_digits(d, radix as int));
                }
                return None;
            },
        };
        proof {
            assert(val@.subrange(start as int, i + 1).drop_last() =~= val@.subrange(
                start as int,
                i as int,
            ));
            assert(val@.subrange(start as int, i + 1).last() == val@[i as int]);
        }
        proof {
            assert(acc as int * radix as int <= 0xFFFF_FFFF * 36) by (nonlinear_arith)
                requires
                    acc as int <= 0xFFFF_FFFF,
                    0 <= radix as int <= 36,
            ;
        }
        acc = acc * (radix as u64) + (dv as u64);
        if acc > (max as u64) {
            proof {
                assert(all_digits(val@.subrange(start as int, i + 1), radix as int));
                if all_digits(d, radix as int) {
                    lemma_radix_value_take(d, radix as int, i + 1 - start);
                    assert(d.take(i + 1 - start) =~= val@.subrange(start as int, i + 1));
                }
            }
            return None;
        }
        i += 1;
    }
    proof {
        assert(val@.subrange(start as int, i as int) =~= d);
    }
    Some(acc as u32)
}

/// The character for the decimal digit `d`.
pub open spec fn dec_digit_char(d: int) -> char {
    if d == 0 {
        '0'
    } else if d == 1 {
        '1'
    } else if d == 2 {
        '2'
    } else if d == 3 {
        '3'
    } else if d == 4 {
        '4'
    } else if d == 5 {
        '5'
    } else if d == 6 {
        '6'
    } else if d == 7 {
        '7'
    } else if d == 8 {
        '8'
    } else {
        '9'
    }
}

/// The decimal numeral of `n`, most significant digit first, no sign and no
/// leading zero (a lone zero for `n == 0`).
pub open spec fn dec_chars(n: int) -> Seq<char>
    decreases n,
{
    if n < 10 {
        seq![dec_digit_char(n)]
    } else {
        dec_chars(n / 10) + seq![dec_digit_char(n % 10)]
    }
}

/// The decimal numeral of `n` is a digit string denoting `n` itself.
proof fn lemma_dec_chars_value(n: int)
    requires
        0 <= n,
    ensures
        dec_chars(n).len() > 0,
        all_digits(dec_chars(n), 10),
        radix_value(dec_chars(n), 10) == n,
        dec_chars(n)[0] != '+',
    decreases n,
{
    if n < 10 {
        assert(dec_chars(n).drop_last() =~= Seq::<char>::empty());
        assert(radix_value(Seq::<char>::empty(), 10) == 0);
        assert(dec_chars(n).last() == dec_digit_char(n));
        assert(radix_value(dec_chars(n), 10) == digit_val(dec_digit_char(n)));
    } else {
        lemma_dec_chars_value(n / 10);
        let s = dec_chars(n);
        let hi = dec_chars(n / 10);
        assert(s.drop_last() =~= hi);
        assert(s.last() == dec_digit_char(n % 10));
        assert forall|k: int| 0 <= k < s.len() implies is_digit(s[k], 10) by {
            if k < hi.len() {
                assert(s[k] == hi[k]);
            }
        }
        assert(radix_value(s, 10) == radix_value(hi, 10) * 10 + digit_val(s.last()));
        assert(s[0] == hi[0]);
    }
}

/// Printing a `u32` in decimal and parsing the text back yields the same
/// value: the decimal numeral of `n` is a valid base-10 numeral, and it
/// denotes `n` itself.
pub proof fn lemma_dec_round_trip(n: u32)
    ensures
        valid_numeral(dec_chars(n as int), 10, u32::MAX as int),
        radix_value(digits_of(dec_chars(n as int)), 10) == n as int,
{
    lemma_dec_chars_value(n as int);
    assert(digits_of(dec_chars(n as int)) =~= dec_chars(n as int));
}

/// The one-character text of the decimal digit `d`.
fn digit_str(d: u32) -> (r: &'static str)
    requires
        d < 10,
    ensures
        r@ == seq![dec_digit_char(d as int)],
{
    let r: &'static str = match d {
        0 => "0",
        1 => "1",
        2 => "2",
        3 => "3",
        4 => "4",
        5 => "5",
        6 => "6",
        7 => "7",
        8 => "8",
        _ => "9",
    };
    proof {
        reveal_strlit("0");
        reveal_strlit("1");
        reveal_strlit("2");
        reveal_strlit("3");
        reveal_strlit("4");
        reveal_strlit("5");
        reveal_strlit("6");
        reveal_strlit("7");
        reveal_strlit("8");
        reveal_strlit("9");
        assert(r@ =~= seq![dec_digit_char(d as int)]);
    }
    r
}

/// The decimal text of `n`, as the confirmation line prints it.
pub fn dec_string(n: u32) -> (s: String)
    ensures
        s@ == dec_chars(n as int),
    decreases n,
{
    let digit: &'static str = digit_str(n % 10);
    if n < 10 {
        digit.to_owned()
    } else {
        let mut s = dec_string(n / 10);
        s.append(digit);
        proof {
            assert(s@ =~= dec_chars(n as int));
        }
        s
    }
}

/// Parses the target frequency: a base-10 numeral no larger than `u32::MAX`.
pub fn from_base_10(val: &str) -> (r: Result<u32, String>)
    ensures
        r matches Ok(v) <==> valid_numeral(val@, 10, u32::MAX as int),
        r matches Ok(v) ==> v as int == radix_value(digits_of(val@), 10),
        r matches Err(m) ==> m@ == "Unable to convert address from base 10"@,
{
    match parse_radix(val, 10, u32::MAX) {
        Some(v) => Ok(v),
        None => Err("Unable to convert address from base 10".to_owned()),
    }
}

/// Parses the device address: a base-16 numeral no larger than `u8::MAX`.
pub fn from_base_16(val: &str) -> (r: Result<u8, String>)
    ensures
        r matches Ok(v) <==> valid_numeral(val@, 16, u8::MAX as int),
        r matches Ok(v) ==> v as int == radix_value(digits_of(val@), 16),
        r matches Err(m) ==> m@ == "Unable to convert address from base 16"@,
{
    match parse_radix(val, 16, u8::MAX as u32) {
        Some(v) => Ok(v as u8),
        None => Err("Unable to convert address from base 16".to_owned()),
    }
}

} // verus!
