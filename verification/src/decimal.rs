//! Unsigned decimal numbers as text.

use vstd::prelude::*;
use vstd::string::*;

use crate::text::ascii;

verus! {

/// The ASCII code of the digit zero.
pub const ZERO: u8 = 48;

/// The ASCII code of the digit nine.
pub const NINE: u8 = 57;

/// Whether `b` is an ASCII decimal digit.
pub open spec fn is_digit(b: u8) -> bool {
    ZERO <= b <= NINE
}

/// Whether every byte of `s` is an ASCII decimal digit.
pub open spec fn all_digits(s: Seq<u8>) -> bool {
    forall|i: int| 0 <= i < s.len() ==> is_digit(#[trigger] s[i])
}

/// The number that a run of decimal digits denotes, most significant digit
/// first. Leading zeros do not change it; the empty run denotes zero.
pub open spec fn decimal_value(s: Seq<u8>) -> nat
    decreases s.len(),
{
    if s.len() == 0 {
        0
    } else {
        decimal_value(s.drop_last()) * 10 + (s.last() - ZERO) as nat
    }
}

/// The number written in `s`, where `s` is one or more decimal digits and
/// nothing else, and the number is at most `max`.
pub open spec fn decimal_number(s: Seq<u8>, max: nat) -> Option<nat> {
    if s.len() > 0 && all_digits(s) && decimal_value(s) <= max {
        Some(decimal_value(s))
    } else {
        None
    }
}

/// A run of digits denotes at least what any of its prefixes denotes.
pub proof fn lemma_prefix_value(s: Seq<u8>, n: int)
    requires
        all_digits(s),
        0 <= n <= s.len(),
    ensures
        decimal_value(s.subrange(0, n)) <= decimal_value(s),
    decreases s.len() - n,
{
    if n == s.len() {
        assert(s.subrange(0, n) =~= s);
    } else {
        let longer = s.subrange(0, n + 1);
        assert(longer.drop_last() =~= s.subrange(0, n));
        assert(is_digit(longer.last()));
        lemma_prefix_value(s, n + 1);
    }
}

/// Reads an unsigned decimal number of at most `max` from `bytes`.
pub fn parse_decimal(bytes: &[u8], max: u32) -> (r: Option<u32>)
    ensures
        r matches Some(n) ==> decimal_number(bytes@, max as nat) == Some(n as nat),
        r is None ==> decimal_number(bytes@, max as nat) is None,
{
    if bytes.len() == 0 {
        return None;
    }
    let mut value: u64 = 0;
    let mut i: usize = 0;
    assert(bytes@.subrange(0, 0) =~= Seq::<u8>::empty());
    while i < bytes.len()
        invariant
            i <= bytes.len(),
            all_digits(bytes@.subrange(0, i as int)),
            value == decimal_value(bytes@.subrange(0, i as int)),
            value <= max,
        decreases bytes.len() - i,
    {
        let b: u8 = bytes[i];
        if b < ZERO || b > NINE {
            assert(!is_digit(bytes@[i as int]));
            return None;
        }
        let ghost longer = bytes@.subrange(0, i + 1);
        assert(longer.drop_last() =~= bytes@.subrange(0, i as int));
        assert(longer.last() == b);
        assert(all_digits(longer)) by {
            assert forall|j: int| 0 <= j < longer.len() implies is_digit(#[trigger] longer[j]) by {
                if j < i {
                    assert(longer[j] == bytes@.subrange(0, i as int)[j]);
                }
            }
        }
        value = value * 10 + (b - ZERO) as u64;
        if value > max as u64 {
            proof {
                if all_digits(bytes@) {
                    lemma_prefix_value(bytes@, i + 1);
                }
            }
            return None;
        }
        i += 1;
    }
    assert(bytes@.subrange(0, i as int) =~= bytes@);
    Some(value as u32)
}

/// The character that writes the digit `d`.
pub open spec fn digit_char(d: nat) -> char {
    (ZERO + d) as u8 as char
}

/// The decimal digits of `n`, most significant first, without leading zeros.
pub open spec fn decimal_text(n: nat) -> Seq<char>
    decreases n,
{
    if n < 10 {
        seq![digit_char(n)]
    } else {
        decimal_text(n / 10).push(digit_char(n % 10))
    }
}

/// What is written for a number is read back as that number: the text is
/// made of digits, has no leading zero, and denotes the number.
pub proof fn lemma_decimal_round_trip(n: nat)
    ensures
        ascii(decimal_text(n)).len() >= 1,
        all_digits(ascii(decimal_text(n))),
        ascii(decimal_text(n)).len() == 1 || ascii(decimal_text(n))[0] != ZERO,
        decimal_value(ascii(decimal_text(n))) == n,
        n < 10 ==> ascii(decimal_text(n)).len() == 1,
        10 <= n < 100 ==> ascii(decimal_text(n)).len() == 2,
        100 <= n < 1000 ==> ascii(decimal_text(n)).len() == 3,
        forall|max: nat| n <= max ==> decimal_number(ascii(decimal_text(n)), max) == Some(n),
    decreases n,
{
    let s = ascii(decimal_text(n));
    if n < 10 {
        assert(s =~= seq![(ZERO + n) as u8]);
        assert(s.drop_last() =~= Seq::<u8>::empty());
        assert(decimal_value(s.drop_last()) == 0);
    } else {
        lemma_decimal_round_trip(n / 10);
        let shorter = ascii(decimal_text(n / 10));
        assert(s =~= shorter.push((ZERO + n % 10) as u8));
        assert(s.drop_last() =~= shorter);
        assert(s[0] == shorter[0]);
        if shorter.len() == 1 {
            assert(shorter.drop_last() =~= Seq::<u8>::empty());
            assert(decimal_value(shorter.drop_last()) == 0);
            assert(shorter[0] != ZERO);
        }
        assert forall|i: int| 0 <= i < s.len() implies is_digit(#[trigger] s[i]) by {
            if i < shorter.len() {
                assert(s[i] == shorter[i]);
            }
        }
    }
}

/// The one-character string that writes the digit `d`.
fn digit_str(d: u32) -> (r: &'static str)
    requires
        d < 10,
    ensures
        r@ == seq![digit_char(d as nat)],
{
    proof {
        reveal_strlit("0");
        reveal_strlit("1");
        reveal_strlit("2");
        reveal_strlit("3");
        reveal_strlit("4");
        reveal_strlit("5");
        reveal_strlit("6");
        reveal_strlit("7");
        reveal_strlit("8");
        reveal_strlit("9");
    }
    let r = match d {
        0 => "0",
        1 => "1",
        2 => "2",
        3 => "3",
        4 => "4",
        5 => "5",
        6 => "6",
        7 => "7",
        8 => "8",
        _ => "9",
    };
    assert(r@ =~= seq![digit_char(d as nat)]);
    r
}

/// Writes `n` in decimal.
pub fn decimal_string(n: u32) -> (r: String)
    ensures
        r@ == decimal_text(n as nat),
    decreases n,
{
    if n < 10 {
        String::from_str(digit_str(n))
    } else {
        let mut r = decimal_string(n / 10);
        r.append(digit_str(n % 10));
        r
    }
}

} // verus!
