//! The language of frequency values: a number with an optional unit letter,
//! and a pair of such values around a colon.

use crate::error::{failure, outcome, Error, ErrorView, Fault};
use crate::frequency::{Frequency, GigaHertz};
use crate::text::{
    all_digits, chars_of, digit_of, digit_value, digits_value, find_char, first_index, is_digit,
    is_unsigned, lemma_first_index, lemma_pow10, lemma_without_absent, lemma_without_holds_none,
    lower_char, parse_digits, parse_u64, pow10, remove_char, slice_of, to_lower_char,
    unsigned_digits, unsigned_value, without,
};
use vstd::prelude::*;

verus! {

/// The units that a frequency can be written in.
#[derive(Clone, Copy, Debug, PartialEq, Eq, Structural)]
pub enum Unit {
    Giga,
    Mega,
    Kilo,
    Base,
}

/// The unit that a letter selects, in either case: `g`, `m`, `k` or `h`.
pub open spec fn unit_of(c: char) -> Option<Unit> {
    if lower_char(c) == 'g' {
        Some(Unit::Giga)
    } else if lower_char(c) == 'm' {
        Some(Unit::Mega)
    } else if lower_char(c) == 'k' {
        Some(Unit::Kilo)
    } else if lower_char(c) == 'h' {
        Some(Unit::Base)
    } else {
        None
    }
}

/// The unit that a letter selects.
pub fn unit_letter(c: char) -> (r: Option<Unit>)
    ensures
        r == unit_of(c),
{
    let l = to_lower_char(c);
    if l == 'g' {
        Some(Unit::Giga)
    } else if l == 'm' {
        Some(Unit::Mega)
    } else if l == 'k' {
        Some(Unit::Kilo)
    } else if l == 'h' {
        Some(Unit::Base)
    } else {
        None
    }
}

/// The number that the first `places` digits of a fraction denote, as a
/// whole number of units of the last place; a fraction with fewer digits is
/// continued with zeros, and what follows the last place is discarded.
pub open spec fn padded_value(fraction: Seq<char>, places: nat) -> nat
    decreases places,
{
    if places == 0 {
        0
    } else {
        padded_value(fraction, (places - 1) as nat) * 10 + if places - 1 < fraction.len() {
            digit_value(fraction[places - 1])
        } else {
            0
        }
    }
}

/// The digits of a decimal number before its point.
pub open spec fn decimal_whole(s: Seq<char>) -> Seq<char> {
    unsigned_digits(s).take(first_index(unsigned_digits(s), '.'))
}

/// The digits of a decimal number after its point.
pub open spec fn decimal_fraction(s: Seq<char>) -> Seq<char> {
    if first_index(unsigned_digits(s), '.') < unsigned_digits(s).len() {
        unsigned_digits(s).skip(first_index(unsigned_digits(s), '.') + 1)
    } else {
        seq![]
    }
}

/// Whether `s` is written as a decimal number: an optional `+`, digits, and
/// optionally a point and more digits, with at least one digit in all.
pub open spec fn is_decimal(s: Seq<char>) -> bool {
    &&& all_digits(decimal_whole(s))
    &&& all_digits(decimal_fraction(s))
    &&& decimal_whole(s).len() + decimal_fraction(s).len() > 0
}

/// The number of billionths that a decimal number denotes; digits after the
/// ninth decimal place are discarded.
pub open spec fn decimal_billionths(s: Seq<char>) -> nat {
    digits_value(decimal_whole(s)) * 1_000_000_000 + padded_value(decimal_fraction(s), 9)
}

/// The frequency that the number `digits` denotes in the unit `unit`: a
/// decimal number of gigahertz whose whole part fits in 64 bits, or an
/// unsigned number that fits in 64 bits in another unit.
pub open spec fn measured(unit: Unit, digits: Seq<char>) -> Option<Frequency> {
    match unit {
        Unit::Giga => if is_decimal(digits) && digits_value(decimal_whole(digits)) <= u64::MAX {
            Some(Frequency::GHz(GigaHertz { billionths: decimal_billionths(digits) as u128 }))
        } else {
            None
        },
        Unit::Mega => if is_unsigned(digits) && unsigned_value(digits) <= u64::MAX {
            Some(Frequency::MHz(unsigned_value(digits) as u64))
        } else {
            None
        },
        Unit::Kilo => if is_unsigned(digits) && unsigned_value(digits) <= u64::MAX {
            Some(Frequency::KHz(unsigned_value(digits) as u64))
        } else {
            None
        },
        Unit::Base => if is_unsigned(digits) && unsigned_value(digits) <= u64::MAX {
            Some(Frequency::Hz(unsigned_value(digits) as u64))
        } else {
            None
        },
    }
}

/// The frequency that `digits` denotes in `unit`, or the failure that names
/// `subject` as no number.
pub open spec fn measured_or(unit: Unit, digits: Seq<char>, subject: Seq<char>) -> Result<
    Frequency,
    ErrorView,
> {
    match measured(unit, digits) {
        Some(f) => Ok(f),
        None => Err(failure(Fault::InvalidNumber, subject)),
    }
}

/// What one frequency value means. Commas are taken out first. A last
/// character that is a unit letter selects the unit of the number before it.
/// Any other last character that is a letter is an invalid suffix;
/// `trailing_letter` says whether the last character is a letter, and is
/// consulted only for a character that is no unit letter, digit or point.
/// Without a suffix, a value with a point is in gigahertz and one without is
/// in kilohertz.
pub open spec fn scalar(text: Seq<char>, trailing_letter: bool) -> Result<Frequency, ErrorView> {
    let s = without(text, ',');
    if s.len() == 0 {
        Err(failure(Fault::InvalidNumber, s))
    } else {
        match unit_of(s.last()) {
            Some(unit) => measured_or(unit, s.drop_last(), s),
            None => if !is_digit(s.last()) && s.last() != '.' && trailing_letter {
                Err(failure(Fault::InvalidSuffix(s.last()), s))
            } else if s.contains('.') {
                measured_or(Unit::Giga, s, s)
            } else {
                measured_or(Unit::Kilo, s, s)
            },
        }
    }
}

/// Whether a character has the Unicode property Alphabetic, as
/// `char::is_alphabetic` reports it.
pub uninterp spec fn alphabetic(c: char) -> bool;

/// `char::is_alphabetic` of the standard library. The result is the one that
/// `alphabetic` names; nothing more is claimed of it.
#[verifier::external_body]
fn is_alphabetic(c: char) -> (r: bool)
    ensures
        r == alphabetic(c),
{
    c.is_alphabetic()
}

/// Whether a frequency value, its commas taken out, ends in a letter.
pub open spec fn ends_in_letter(text: Seq<char>) -> bool {
    without(text, ',').len() > 0 && alphabetic(without(text, ',').last())
}

/// The first `places` digits of a fraction denote less than ten to the
/// power `places`.
proof fn lemma_padded_below(fraction: Seq<char>, places: nat)
    requires
        all_digits(fraction),
    ensures
        padded_value(fraction, places) < pow10(places),
    decreases places,
{
    if places > 0 {
        lemma_padded_below(fraction, (places - 1) as nat);
        if places - 1 < fraction.len() {
            assert(is_digit(fraction[places - 1]));
        }
    }
}

/// Reads a decimal number as a number of billionths.
pub fn parse_decimal(v: &Vec<char>) -> (r: Option<u128>)
    ensures
        r is Some <==> is_decimal(v@) && digits_value(decimal_whole(v@)) <= u64::MAX,
        r matches Some(n) ==> n == decimal_billionths(v@),
{
    let from: usize = if v.len() > 0 && v[0] == '+' {
        1
    } else {
        0
    };
    let d = slice_of(v, from, v.len());
    assert(d@ == unsigned_digits(v@));
    let dot: usize = match find_char(&d, '.') {
        Some(i) => i,
        None => d.len(),
    };
    let start: usize = if dot < d.len() {
        dot + 1
    } else {
        d.len()
    };
    let ghost whole = d@.take(dot as int);
    let ghost fraction = d@.subrange(start as int, d.len() as int);
    assert(whole == decimal_whole(v@));
    assert(fraction == decimal_fraction(v@));
    assert(d@.subrange(0, dot as int) == whole);
    if dot + (d.len() - start) == 0 {
        return None;
    }
    let w: u64 = match parse_digits(&d, 0, dot) {
        Some(w) => w,
        None => {
            return None;
        },
    };
    let mut i: usize = start;
    while i < d.len()
        invariant
            start <= i <= d.len(),
            fraction == d@.subrange(start as int, d.len() as int),
            fraction == decimal_fraction(v@),
            all_digits(fraction.take(i - start)),
        decreases d.len() - i,
    {
        if digit_of(d[i]).is_none() {
            assert(!is_digit(fraction[i - start]));
            return None;
        }
        assert forall|j: int| 0 <= j < fraction.take(i - start + 1).len() implies is_digit(
            #[trigger] fraction.take(i - start + 1)[j],
        ) by {
            if j < i - start {
                assert(fraction.take(i - start + 1)[j] == fraction.take(i - start)[j]);
            }
        }
        i = i + 1;
    }
    assert(fraction.take(d.len() - start) == fraction);
    let mut acc: u128 = 0;
    let mut k: usize = 0;
    while k < 9
        invariant
            k <= 9,
            start <= d.len(),
            fraction == d@.subrange(start as int, d.len() as int),
            all_digits(fraction),
            acc == padded_value(fraction, k as nat),
        decreases 9 - k,
    {
        proof {
            lemma_padded_below(fraction, k as nat);
            lemma_pow10(k as nat);
        }
        let digit: u8 = if k < d.len() - start {
            match digit_of(d[start + k]) {
                Some(x) => x,
                None => 0,
            }
        } else {
            0
        };
        if k < d.len() - start {
            assert(is_digit(fraction[k as int]));
        }
        acc = acc * 10 + digit as u128;
        k = k + 1;
    }
    proof {
        lemma_padded_below(fraction, 9);
        lemma_pow10(9);
    }
    Some((w as u128) * 1_000_000_000 + acc)
}

/// Reads the number `digits` in the unit `unit`.
fn measure(unit: Unit, digits: &Vec<char>) -> (r: Option<Frequency>)
    ensures
        r == measured(unit, digits@),
{
    match unit {
        Unit::Giga => match parse_decimal(digits) {
            Some(n) => Some(Frequency::GHz(GigaHertz { billionths: n })),
            None => None,
        },
        Unit::Mega => match parse_u64(digits) {
            Some(n) => Some(Frequency::MHz(n)),
            None => None,
        },
        Unit::Kilo => match parse_u64(digits) {
            Some(n) => Some(Frequency::KHz(n)),
            None => None,
        },
        Unit::Base => match parse_u64(digits) {
            Some(n) => Some(Frequency::Hz(n)),
            None => None,
        },
    }
}

/// Reads the number `digits` in the unit `unit`, or names `subject` as no
/// number.
fn measure_or(unit: Unit, digits: &Vec<char>, subject: &Vec<char>) -> (r: Result<Frequency, Error>)
    ensures
        outcome(r) == measured_or(unit, digits@, subject@),
{
    match measure(unit, digits) {
        Some(f) => Ok(f),
        None => Err(Error::about(Fault::InvalidNumber, subject)),
    }
}

/// Whether the text, its commas taken out, ends in a letter: the question is
/// put to the standard library only for a last character that is no unit
/// letter, digit or point, and is answered with `false` otherwise.
fn letter_at_end(s: &Vec<char>) -> (r: bool)
    requires
        !s@.contains(','),
    ensures
        scalar(s@, r) == scalar(s@, ends_in_letter(s@)),
{
    proof {
        lemma_without_absent(s@, ',');
    }
    if s.len() == 0 {
        return false;
    }
    let c = s[s.len() - 1];
    if unit_letter(c).is_some() || digit_of(c).is_some() || c == '.' {
        false
    } else {
        is_alphabetic(c)
    }
}

/// Reads one frequency value from a text without commas.
fn read_scalar(s: &Vec<char>, trailing_letter: bool) -> (r: Result<Frequency, Error>)
    requires
        !s@.contains(','),
    ensures
        outcome(r) == scalar(s@, trailing_letter),
{
    proof {
        lemma_without_absent(s@, ',');
    }
    if s.len() == 0 {
        return Err(Error::about(Fault::InvalidNumber, s));
    }
    let c = s[s.len() - 1];
    match unit_letter(c) {
        Some(unit) => {
            let digits = slice_of(s, 0, s.len() - 1);
            assert(digits@ == s@.drop_last());
            measure_or(unit, &digits, s)
        },
        None => {
            if digit_of(c).is_none() && c != '.' && trailing_letter {
                Err(Error::about(Fault::InvalidSuffix(c), s))
            } else if find_char(s, '.').is_some() {
                measure_or(Unit::Giga, s, s)
            } else {
                measure_or(Unit::Kilo, s, s)
            }
        },
    }
}

/// Reads one frequency value, given whether its last character is a letter.
pub fn parse_frequency_with(text: &str, trailing_letter: bool) -> (r: Result<Frequency, Error>)
    ensures
        outcome(r) == scalar(text@, trailing_letter),
{
    let t = chars_of(text);
    let s = remove_char(&t, ',');
    proof {
        lemma_without_holds_none(t@, ',');
        lemma_without_absent(s@, ',');
    }
    read_scalar(&s, trailing_letter)
}

/// Reads one frequency value: `2.5`, `2500000`, `2,500m`, `3.5g`.
pub fn parse_frequency(text: &str) -> (r: Result<Frequency, Error>)
    ensures
        outcome(r) == scalar(text@, ends_in_letter(text@)),
{
    let t = chars_of(text);
    let s = remove_char(&t, ',');
    proof {
        lemma_without_holds_none(t@, ',');
        lemma_without_absent(s@, ',');
    }
    let letter = letter_at_end(&s);
    read_scalar(&s, letter)
}

/// One side of a pair: nothing, or a frequency value.
pub open spec fn side(text: Seq<char>, trailing_letter: bool) -> Result<
    Option<Frequency>,
    ErrorView,
> {
    if text.len() == 0 {
        Ok(None)
    } else {
        match scalar(text, trailing_letter) {
            Ok(f) => Ok(Some(f)),
            Err(e) => Err(e),
        }
    }
}

/// The text before the colon of a pair, commas taken out.
pub open spec fn low_side(text: Seq<char>) -> Seq<char> {
    without(text, ',').take(first_index(without(text, ','), ':'))
}

/// The text after the first colon of a pair, commas taken out.
pub open spec fn high_side(text: Seq<char>) -> Seq<char> {
    without(text, ',').skip(first_index(without(text, ','), ':') + 1)
}

/// What a pair of frequency values means, given for each side whether it
/// ends in a letter. Commas are taken out first. The first colon parts the
/// minimum from the maximum; either may be left out, not both; and the
/// minimum is read before the maximum.
pub open spec fn pair(text: Seq<char>, low_letter: bool, high_letter: bool) -> Result<
    (Option<Frequency>, Option<Frequency>),
    ErrorView,
> {
    let s = without(text, ',');
    if first_index(s, ':') >= s.len() {
        Err(failure(Fault::MissingDelimiter, s))
    } else if low_side(text).len() == 0 && high_side(text).len() == 0 {
        Err(failure(Fault::NoBounds, s))
    } else {
        match side(low_side(text), low_letter) {
            Err(e) => Err(e),
            Ok(low) => match side(high_side(text), high_letter) {
                Err(e) => Err(e),
                Ok(high) => Ok((low, high)),
            },
        }
    }
}

/// What a pair of frequency values means.
pub open spec fn pair_of(text: Seq<char>) -> Result<
    (Option<Frequency>, Option<Frequency>),
    ErrorView,
> {
    pair(text, ends_in_letter(low_side(text)), ends_in_letter(high_side(text)))
}

/// Whether one side of a pair ends in a letter: as it is given, or, where
/// none is given, as the standard library has it.
pub open spec fn side_letter(text: Seq<char>, given: Option<bool>) -> bool {
    match given {
        Some(letter) => letter,
        None => ends_in_letter(text),
    }
}

/// Reads one side of a pair from a text without commas. Whether it ends in
/// a letter is given, or is found out where it matters.
fn read_side(s: &Vec<char>, given: Option<bool>) -> (r: Result<Option<Frequency>, Error>)
    requires
        !s@.contains(','),
    ensures
        outcome(r) == side(s@, side_letter(s@, given)),
{
    if s.len() == 0 {
        return Ok(None);
    }
    let letter = match given {
        Some(letter) => letter,
        None => letter_at_end(s),
    };
    match read_scalar(s, letter) {
        Ok(f) => Ok(Some(f)),
        Err(e) => Err(e),
    }
}

/// Reads a pair of frequency values; for each side, whether it ends in a
/// letter is given, or is found out where it matters.
fn read_pair(freq_str: &str, low_given: Option<bool>, high_given: Option<bool>) -> (r: Result<
    (Option<Frequency>, Option<Frequency>),
    Error,
>)
    ensures
        outcome(r) == pair(
            freq_str@,
            side_letter(low_side(freq_str@), low_given),
            side_letter(high_side(freq_str@), high_given),
        ),
{
    let t = chars_of(freq_str);
    let s = remove_char(&t, ',');
    proof {
        lemma_without_holds_none(t@, ',');
        lemma_first_index(s@, ':');
    }
    let colon: usize = match find_char(&s, ':') {
        Some(i) => i,
        None => {
            return Err(Error::about(Fault::MissingDelimiter, &s));
        },
    };
    let low = slice_of(&s, 0, colon);
    let high = slice_of(&s, colon + 1, s.len());
    assert(low@ == low_side(freq_str@));
    assert(high@ == high_side(freq_str@));
    assert(!low@.contains(',')) by {
        if low@.contains(',') {
            let j = choose|j: int| 0 <= j < low@.len() && low@[j] == ',';
            assert(s@[j] == ',');
        }
    }
    assert(!high@.contains(',')) by {
        if high@.contains(',') {
            let j = choose|j: int| 0 <= j < high@.len() && high@[j] == ',';
            assert(s@[j + colon + 1] == ',');
        }
    }
    if low.len() == 0 && high.len() == 0 {
        return Err(Error::about(Fault::NoBounds, &s));
    }
    let a = match read_side(&low, low_given) {
        Ok(a) => a,
        Err(e) => {
            return Err(e);
        },
    };
    let b = match read_side(&high, high_given) {
        Ok(b) => b,
        Err(e) => {
            return Err(e);
        },
    };
    Ok((a, b))
}

/// Reads a pair of frequency values, given for each side whether its last
/// character is a letter.
pub fn parse_freq_value_with(freq_str: &str, low_letter: bool, high_letter: bool) -> (r: Result<
    (Option<Frequency>, Option<Frequency>),
    Error,
>)
    ensures
        outcome(r) == pair(freq_str@, low_letter, high_letter),
{
    read_pair(freq_str, Some(low_letter), Some(high_letter))
}

/// Reads a pair of frequency values, `<min>:<max>`, of which one may be
/// left out: `2.5g:4.5g`, `:3.5`, `2.5:`.
pub fn parse_freq_value(freq_str: &str) -> (r: Result<
    (Option<Frequency>, Option<Frequency>),
    Error,
>)
    ensures
        outcome(r) == pair_of(freq_str@),
{
    read_pair(freq_str, None, None)
}

} // verus!
