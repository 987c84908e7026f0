//! Weights as decimal text. A weight is held in tenths of a unit, the
//! precision in which the journal is persisted.

use crate::date::digit_char;
use crate::text::{find_first, first_of, is_first_of, lemma_first_of};
use vstd::prelude::*;

verus! {

/// Largest count that is still taken for a number while digits are read.
pub const CAP: u64 = 0x1_0000_0000;

/// The value of a decimal digit, or nothing for another character.
pub open spec fn digit_value(c: char) -> Option<int> {
    if c == '0' { Some(0) }
    else if c == '1' { Some(1) }
    else if c == '2' { Some(2) }
    else if c == '3' { Some(3) }
    else if c == '4' { Some(4) }
    else if c == '5' { Some(5) }
    else if c == '6' { Some(6) }
    else if c == '7' { Some(7) }
    else if c == '8' { Some(8) }
    else if c == '9' { Some(9) }
    else { None }
}

/// The number that a run of decimal digits spells, an empty run spelling
/// zero; nothing where a character is no digit.
pub open spec fn digits_value(s: Seq<char>) -> Option<int>
    decreases s.len(),
{
    if s.len() == 0 {
        Some(0)
    } else {
        match (digits_value(s.drop_last()), digit_value(s.last())) {
            (Some(high), Some(low)) => Some(high * 10 + low),
            _ => None,
        }
    }
}

/// The tenths that follow from the digits behind the decimal point: the first
/// digit, and one more where the second digit is five or above.
pub open spec fn fraction_tenths(fraction: Seq<char>) -> int {
    let first = if fraction.len() > 0 { digit_value(fraction[0]).unwrap_or(0) } else { 0 };
    let second = if fraction.len() > 1 { digit_value(fraction[1]).unwrap_or(0) } else { 0 };
    first + if second >= 5 { 1int } else { 0int }
}

/// The value of a decimal number in tenths, rounded to the nearest tenth, a
/// half rounding up. A decimal number is a run of digits, or two runs with a
/// point between them of which one may be empty.
pub open spec fn decimal_tenths(s: Seq<char>) -> Option<int> {
    let point = first_of(s, '.');
    let whole = s.take(point);
    let fraction = if point < s.len() { s.skip(point + 1) } else { Seq::empty() };
    if whole.len() + fraction.len() == 0 {
        None
    } else {
        match (digits_value(whole), digits_value(fraction)) {
            (Some(units), Some(_)) => Some(units * 10 + fraction_tenths(fraction)),
            _ => None,
        }
    }
}

/// The weight that a text stands for, in tenths: its value as a decimal
/// number, where that fits.
pub open spec fn weight_of(s: Seq<char>) -> Option<u32> {
    match decimal_tenths(s) {
        Some(v) => if v <= u32::MAX { Some(v as u32) } else { None },
        None => None,
    }
}

/// The decimal digits of a number, without leading zeros.
pub open spec fn decimal_digits(n: nat) -> Seq<char>
    decreases n,
{
    if n < 10 {
        seq![digit_char(n as int)]
    } else {
        decimal_digits(n / 10).push(digit_char((n % 10) as int))
    }
}

/// A weight of so many tenths, written with one decimal place.
pub open spec fn tenths_text(tenths: nat) -> Seq<char> {
    decimal_digits(tenths / 10) + seq!['.', digit_char((tenths % 10) as int)]
}

/// The value of a character as a decimal digit.
pub fn digit_of(c: char) -> (r: Option<u8>)
    ensures
        r is Some == digit_value(c) is Some,
        r matches Some(d) ==> digit_value(c) == Some(d as int),
{
    match c {
        '0' => Some(0),
        '1' => Some(1),
        '2' => Some(2),
        '3' => Some(3),
        '4' => Some(4),
        '5' => Some(5),
        '6' => Some(6),
        '7' => Some(7),
        '8' => Some(8),
        '9' => Some(9),
        _ => None,
    }
}

/// The decimal digit of a number below ten.
pub fn char_of_digit(d: u8) -> (r: char)
    requires
        d < 10,
    ensures
        r == digit_char(d as int),
        digit_value(r) == Some(d as int),
{
    match d {
        0 => '0',
        1 => '1',
        2 => '2',
        3 => '3',
        4 => '4',
        5 => '5',
        6 => '6',
        7 => '7',
        8 => '8',
        _ => '9',
    }
}

/// The number that the digits `chars[from..to]` spell, counted no further
/// than [`CAP`]; nothing where a character is no digit.
pub fn read_digits(chars: &Vec<char>, from: usize, to: usize) -> (r: Option<u64>)
    requires
        from <= to <= chars.len(),
    ensures
        r is Some == digits_value(chars@.subrange(from as int, to as int)) is Some,
        r matches Some(n) ==> n <= CAP && n == (if digits_value(
            chars@.subrange(from as int, to as int),
        ).unwrap() < CAP {
            digits_value(chars@.subrange(from as int, to as int)).unwrap()
        } else {
            CAP as int
        }),
{
    let mut total: u64 = 0;
    let mut i: usize = from;
    while i < to
        invariant
            from <= i <= to <= chars.len(),
            total <= CAP,
            digits_value(chars@.subrange(from as int, i as int)) is Some,
            total == (if digits_value(chars@.subrange(from as int, i as int)).unwrap() < CAP {
                digits_value(chars@.subrange(from as int, i as int)).unwrap()
            } else {
                CAP as int
            }),
        decreases to - i,
    {
        proof {
            assert(chars@.subrange(from as int, i + 1).drop_last() == chars@.subrange(
                from as int,
                i as int,
            ));
            lemma_digits_value_bounds(chars@.subrange(from as int, i as int));
        }
        match digit_of(chars[i]) {
            Some(d) => {
                let next: u64 = total * 10 + d as u64;
                total = if next < CAP { next } else { CAP };
            },
            None => {
                proof {
                    lemma_digits_value_prefix(
                        chars@.subrange(from as int, to as int),
                        i + 1 - from,
                    );
                    assert(chars@.subrange(from as int, to as int).take(i + 1 - from)
                        == chars@.subrange(from as int, i + 1));
                }
                return None;
            },
        }
        i = i + 1;
    }
    Some(total)
}

/// The number a run of digits spells is not negative.
pub proof fn lemma_digits_value_bounds(s: Seq<char>)
    ensures
        digits_value(s) matches Some(v) ==> v >= 0,
    decreases s.len(),
{
    if s.len() > 0 {
        lemma_digits_value_bounds(s.drop_last());
    }
}

/// Where a run spells a number, each of its beginnings does too.
pub proof fn lemma_digits_value_prefix(s: Seq<char>, k: int)
    requires
        0 <= k <= s.len(),
        digits_value(s.take(k)) is None,
    ensures
        digits_value(s) is None,
    decreases s.len(),
{
    if k < s.len() {
        assert(s.drop_last().take(k) == s.take(k));
        lemma_digits_value_prefix(s.drop_last(), k);
    } else {
        assert(s.take(k) == s);
    }
}

/// Reads a decimal number as a weight in tenths, rounded to the nearest
/// tenth; nothing where the text is no decimal number or the weight does not
/// fit.
pub fn parse_tenths(chars: &Vec<char>) -> (r: Option<u32>)
    ensures
        r == weight_of(chars@),
{
    let point = find_first(chars, '.');
    let start: usize = if point < chars.len() { point + 1 } else { chars.len() };
    let ghost whole = chars@.take(point as int);
    let ghost fraction = if point < chars.len() {
        chars@.skip(point + 1)
    } else {
        Seq::<char>::empty()
    };
    proof {
        assert(chars@.subrange(0, point as int) == whole);
        assert(chars@.subrange(start as int, chars.len() as int) =~= fraction);
        lemma_digits_value_bounds(whole);
    }
    if point + (chars.len() - start) == 0 {
        return None;
    }
    let units = match read_digits(chars, 0, point) {
        Some(n) => n,
        None => { return None; },
    };
    if read_digits(chars, start, chars.len()).is_none() {
        return None;
    }
    let mut extra: u64 = 0;
    if start < chars.len() {
        proof {
            assert(fraction.take(1).drop_last() == Seq::<char>::empty());
            assert(fraction.take(1).last() == chars@[start as int]);
            if digit_value(chars@[start as int]) is None {
                assert(digits_value(fraction.take(1)) is None);
                lemma_digits_value_prefix(fraction, 1);
            }
        }
        extra = digit_of(chars[start]).unwrap() as u64;
        if start + 1 < chars.len() {
            proof {
                assert(fraction.take(2).last() == chars@[start + 1]);
                if digit_value(chars@[start + 1]) is None {
                    assert(digits_value(fraction.take(2)) is None);
                    lemma_digits_value_prefix(fraction, 2);
                }
            }
            if digit_of(chars[start + 1]).unwrap() >= 5 {
                extra = extra + 1;
            }
        }
    }
    let value: u64 = units * 10 + extra;
    if value <= 0xffff_ffff {
        Some(value as u32)
    } else {
        None
    }
}

/// Writes a number in decimal digits.
pub fn push_decimal(out: &mut Vec<char>, n: u32)
    ensures
        final(out)@ == old(out)@ + decimal_digits(n as nat),
    decreases n,
{
    if n >= 10 {
        push_decimal(out, n / 10);
    }
    out.push(char_of_digit((n % 10) as u8));
    proof {
        assert(final(out)@ =~= old(out)@ + decimal_digits(n as nat));
    }
}

/// Writes a weight with one decimal place.
pub fn push_tenths(out: &mut Vec<char>, tenths: u32)
    ensures
        final(out)@ == old(out)@ + tenths_text(tenths as nat),
{
    push_decimal(out, tenths / 10);
    out.push('.');
    out.push(char_of_digit((tenths % 10) as u8));
    proof {
        assert(final(out)@ =~= old(out)@ + tenths_text(tenths as nat));
    }
}

/// A weight with one decimal place.
pub fn format_tenths(tenths: u32) -> (r: Vec<char>)
    ensures
        r@ == tenths_text(tenths as nat),
{
    let mut out: Vec<char> = Vec::new();
    push_tenths(&mut out, tenths);
    proof {
        assert(Seq::<char>::empty() + tenths_text(tenths as nat) =~= tenths_text(tenths as nat));
    }
    out
}

/// The digits of a number spell that number, and hold nothing but digits.
pub proof fn lemma_decimal_digits(n: nat)
    ensures
        digits_value(decimal_digits(n)) == Some(n as int),
        decimal_digits(n).len() > 0,
        forall|k: int| 0 <= k < decimal_digits(n).len() ==> digit_value(
            #[trigger] decimal_digits(n)[k],
        ) is Some,
    decreases n,
{
    if n < 10 {
        let s = decimal_digits(n);
        assert(s.drop_last() =~= Seq::<char>::empty());
        assert(digits_value(s.drop_last()) == Some(0int));
    } else {
        lemma_decimal_digits(n / 10);
        let s = decimal_digits(n);
        assert(s.drop_last() =~= decimal_digits(n / 10));
    }
}

/// A weight written with one decimal place reads back as the same weight.
pub proof fn lemma_tenths_round_trip(tenths: u32)
    ensures
        weight_of(tenths_text(tenths as nat)) == Some(tenths),
{
    let n = tenths as nat;
    let whole = decimal_digits(n / 10);
    let s = tenths_text(n);
    let low = digit_char((n % 10) as int);
    lemma_decimal_digits(n / 10);
    assert(is_first_of(s, '.', whole.len() as int)) by {
        assert forall|k: int| 0 <= k < whole.len() implies s[k] != '.' by {
            assert(s[k] == whole[k]);
            assert(digit_value(whole[k]) is Some);
        }
        assert(s[whole.len() as int] == '.');
    }
    lemma_first_of(s, '.', whole.len() as int);
    assert(s.take(whole.len() as int) =~= whole);
    let fraction = s.skip(whole.len() as int + 1);
    assert(fraction =~= seq![low]);
    assert(fraction.drop_last() =~= Seq::<char>::empty());
    assert(digits_value(fraction.drop_last()) == Some(0int));
    assert(digit_value(low) == Some((n % 10) as int));
}

} // verus!
