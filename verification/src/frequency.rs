//! Frequency values tagged with their unit, and the conversions between
//! units. Hertz is the base unit: every value has an exact whole number of
//! hertz, and each conversion is stated over that number.

use crate::text::{
    append_chars, append_str, decimal_text, digit_char, lemma_pow10, pow10, render_decimal,
    string_of,
};
use vstd::prelude::*;

verus! {

/// A quantity of gigahertz with nine decimal places, held as a whole number
/// of billionths of a gigahertz, which is its number of hertz.
#[derive(Clone, Copy, Debug, PartialEq, Eq, Structural)]
pub struct GigaHertz {
    pub billionths: u128,
}

/// A frequency in one of four units. Only `GHz` can hold a fraction of its
/// unit.
#[derive(Clone, Copy, Debug, PartialEq, Eq, Structural)]
pub enum Frequency {
    GHz(GigaHertz),
    MHz(u64),
    KHz(u64),
    Hz(u64),
}

/// Short names for the type.
pub type Frq = Frequency;

pub type Freq = Frequency;

/// The largest value that a whole-number unit can hold, or `n` if it is less.
pub open spec fn clip(n: nat) -> u64 {
    if n > u64::MAX {
        u64::MAX
    } else {
        n as u64
    }
}

/// A number of hundredths rounded from a number of billionths, a tie going
/// to the even neighbour.
pub open spec fn hundredths(billionths: nat) -> nat {
    let q = billionths / 10_000_000;
    let r = billionths % 10_000_000;
    if r > 5_000_000 || (r == 5_000_000 && q % 2 == 1) {
        q + 1
    } else {
        q
    }
}

/// A number below one hundred written with two digits.
pub open spec fn two_digits(n: nat) -> Seq<char> {
    seq![((n / 10) + 48) as char, ((n % 10) + 48) as char]
}

/// A number of billionths written in units with two decimal places.
pub open spec fn two_places(billionths: nat) -> Seq<char> {
    decimal_text(hundredths(billionths) / 100) + seq!['.'] + two_digits(
        hundredths(billionths) % 100,
    )
}

/// The decimal places of a fraction, given as a whole number of units of
/// the last of `places` places, with the zeros at its end left out.
pub open spec fn places_text(fraction: nat, places: nat) -> Seq<char>
    decreases places,
{
    if fraction == 0 || places == 0 {
        seq![]
    } else {
        seq![((fraction / pow10((places - 1) as nat)) % 10 + 48) as char] + places_text(
            fraction % pow10((places - 1) as nat),
            (places - 1) as nat,
        )
    }
}

/// A number of billionths written in units, with as many decimal places as
/// it takes and no point where it takes none.
pub open spec fn all_places(billionths: nat) -> Seq<char> {
    if billionths % 1_000_000_000 == 0 {
        decimal_text(billionths / 1_000_000_000)
    } else {
        decimal_text(billionths / 1_000_000_000) + seq!['.'] + places_text(
            billionths % 1_000_000_000,
            9,
        )
    }
}

impl GigaHertz {
    /// The quantity of `billionths` billionths of a gigahertz.
    pub fn from_billionths(billionths: u128) -> (g: GigaHertz)
        ensures
            g.billionths == billionths,
    {
        GigaHertz { billionths }
    }

    /// The quantity of `whole` gigahertz and `thousandths` thousandths of one.
    pub fn new(whole: u32, thousandths: u32) -> (g: GigaHertz)
        ensures
            g.billionths == whole * 1_000_000_000 + thousandths * 1_000_000,
    {
        GigaHertz {
            billionths: (whole as u128) * 1_000_000_000 + (thousandths as u128) * 1_000_000,
        }
    }
}

impl Frequency {
    /// The exact number of hertz of the value.
    pub open spec fn hertz(self) -> nat {
        match self {
            Frequency::GHz(g) => g.billionths as nat,
            Frequency::MHz(m) => (m * 1_000_000) as nat,
            Frequency::KHz(k) => (k * 1_000) as nat,
            Frequency::Hz(h) => h as nat,
        }
    }

    /// Whether the value can be given in hertz: a whole-number unit must not
    /// leave the 64-bit range when it is widened. A `GHz` value always can:
    /// it is cut to the range.
    pub open spec fn hz_in_range(self) -> bool {
        self is GHz || self.hertz() <= u64::MAX
    }

    /// Whether the value can be given in kilohertz.
    pub open spec fn khz_in_range(self) -> bool {
        self is GHz || self.hertz() / 1_000 <= u64::MAX
    }

    /// The value in hertz: a fraction of a hertz cannot occur, and a `GHz`
    /// value beyond the 64-bit range is cut to the range.
    pub open spec fn as_hz(self) -> Frequency {
        Frequency::Hz(clip(self.hertz()))
    }

    /// The value in kilohertz, any remainder discarded.
    pub open spec fn as_khz(self) -> Frequency {
        Frequency::KHz(clip(self.hertz() / 1_000))
    }

    /// The value in megahertz, any remainder discarded.
    pub open spec fn as_mhz(self) -> Frequency {
        Frequency::MHz(clip(self.hertz() / 1_000_000))
    }

    /// The value in gigahertz, which is exact.
    pub open spec fn as_ghz(self) -> Frequency
        recommends
            self.hertz() <= u128::MAX,
    {
        Frequency::GHz(GigaHertz { billionths: self.hertz() as u128 })
    }

    /// The number that the value holds in its own unit, with the fraction of
    /// a `GHz` value discarded.
    pub open spec fn whole(self) -> u64 {
        match self {
            Frequency::GHz(g) => clip((g.billionths / 1_000_000_000) as nat),
            Frequency::MHz(m) => m,
            Frequency::KHz(k) => k,
            Frequency::Hz(h) => h,
        }
    }

    /// The number that the value holds in its own unit, in full: a `GHz`
    /// value with the decimal places that it has.
    pub open spec fn plain(self) -> Seq<char> {
        match self {
            Frequency::GHz(g) => all_places(g.billionths as nat),
            Frequency::MHz(m) => decimal_text(m as nat),
            Frequency::KHz(k) => decimal_text(k as nat),
            Frequency::Hz(h) => decimal_text(h as nat),
        }
    }

    /// The value as it is shown: the number, a space and the unit, a `GHz`
    /// value with two decimal places.
    pub open spec fn shown(self) -> Seq<char> {
        match self {
            Frequency::GHz(g) => two_places(g.billionths as nat) + " GHz"@,
            Frequency::MHz(m) => decimal_text(m as nat) + " MHz"@,
            Frequency::KHz(k) => decimal_text(k as nat) + " KHz"@,
            Frequency::Hz(h) => decimal_text(h as nat) + " Hz"@,
        }
    }

    /// Whether the value can be given in hertz.
    pub fn fits_hz(&self) -> (r: bool)
        ensures
            r == self.hz_in_range(),
    {
        match self {
            Frequency::GHz(_) => true,
            Frequency::MHz(m) => *m <= u64::MAX / 1_000_000,
            Frequency::KHz(k) => *k <= u64::MAX / 1_000,
            Frequency::Hz(_) => true,
        }
    }

    /// Whether the value can be given in kilohertz.
    pub fn fits_khz(&self) -> (r: bool)
        ensures
            r == self.khz_in_range(),
    {
        match self {
            Frequency::GHz(_) => true,
            Frequency::MHz(m) => *m <= u64::MAX / 1_000,
            Frequency::KHz(_) => true,
            Frequency::Hz(_) => true,
        }
    }

    /// Converts to hertz.
    pub fn to_hz(&self) -> (r: Frequency)
        requires
            self.hz_in_range(),
        ensures
            r == self.as_hz(),
    {
        match self {
            Frequency::GHz(g) => Frequency::Hz(cut(g.billionths)),
            Frequency::MHz(m) => Frequency::Hz(*m * 1_000_000),
            Frequency::KHz(k) => Frequency::Hz(*k * 1_000),
            Frequency::Hz(h) => Frequency::Hz(*h),
        }
    }

    /// Converts to kilohertz, discarding what is less than one kilohertz.
    pub fn to_khz(&self) -> (r: Frequency)
        requires
            self.khz_in_range(),
        ensures
            r == self.as_khz(),
    {
        match self {
            Frequency::GHz(g) => Frequency::KHz(cut(g.billionths / 1_000)),
            Frequency::MHz(m) => Frequency::KHz(*m * 1_000),
            Frequency::KHz(k) => Frequency::KHz(*k),
            Frequency::Hz(h) => Frequency::KHz(*h / 1_000),
        }
    }

    /// Converts to megahertz, discarding what is less than one megahertz.
    pub fn to_mhz(&self) -> (r: Frequency)
        ensures
            r == self.as_mhz(),
    {
        match self {
            Frequency::GHz(g) => Frequency::MHz(cut(g.billionths / 1_000_000)),
            Frequency::MHz(m) => Frequency::MHz(*m),
            Frequency::KHz(k) => Frequency::MHz(*k / 1_000),
            Frequency::Hz(h) => Frequency::MHz(*h / 1_000_000),
        }
    }

    /// Converts to gigahertz, exactly.
    pub fn to_ghz(&self) -> (r: Frequency)
        ensures
            r == self.as_ghz(),
            r.hertz() == self.hertz(),
    {
        match self {
            Frequency::GHz(g) => Frequency::GHz(*g),
            Frequency::MHz(m) => Frequency::GHz(
                GigaHertz { billionths: (*m as u128) * 1_000_000 },
            ),
            Frequency::KHz(k) => Frequency::GHz(GigaHertz { billionths: (*k as u128) * 1_000 }),
            Frequency::Hz(h) => Frequency::GHz(GigaHertz { billionths: *h as u128 }),
        }
    }

    /// The number that the value holds in its own unit, in decimal digits; the
    /// fraction of a `GHz` value is discarded.
    pub fn to_string_u64(&self) -> (s: String)
        ensures
            s@ == decimal_text(self.whole() as nat),
    {
        let n: u64 = u64::from(*self);
        let digits = render_decimal(n as u128);
        string_of(&digits)
    }

    /// The number that the value holds in its own unit, in decimal digits and
    /// in full: `2.5` for two and a half gigahertz, `2500` for as many
    /// megahertz.
    pub fn to_string_f64(&self) -> (s: String)
        ensures
            s@ == self.plain(),
    {
        match self {
            Frequency::GHz(g) => {
                let mut out = render_decimal(g.billionths / 1_000_000_000);
                let fraction: u128 = g.billionths % 1_000_000_000;
                if fraction != 0 {
                    out.push('.');
                    let ghost head = out@;
                    let mut rest: u128 = fraction;
                    let mut unit: u128 = 100_000_000;
                    let mut places: usize = 9;
                    proof {
                        lemma_pow10(8);
                        lemma_pow10(9);
                        reveal_with_fuel(pow10, 10);
                    }
                    while rest > 0 && places > 0
                        invariant
                            places <= 9,
                            places > 0 ==> unit == pow10((places - 1) as nat),
                            rest < pow10(places as nat),
                            out@ + places_text(rest as nat, places as nat) == head + places_text(
                                fraction as nat,
                                9,
                            ),
                        decreases places,
                    {
                        proof {
                            lemma_pow10((places - 1) as nat);
                            lemma_digit_and_rest(rest as int, unit as int);
                        }
                        let digit: u8 = (rest / unit) as u8;
                        let ghost before = out@;
                        out.push(digit_char(digit));
                        assert(before + (seq![out@.last()] + places_text(
                            (rest % unit) as nat,
                            (places - 1) as nat,
                        )) == out@ + places_text((rest % unit) as nat, (places - 1) as nat));
                        rest = rest % unit;
                        unit = unit / 10;
                        places = places - 1;
                    }
                    assert(places_text(rest as nat, places as nat) == Seq::<char>::empty());
                    assert(out@ + Seq::<char>::empty() == out@);
                }
                string_of(&out)
            },
            Frequency::MHz(m) => string_of(&render_decimal(*m as u128)),
            Frequency::KHz(k) => string_of(&render_decimal(*k as u128)),
            Frequency::Hz(h) => string_of(&render_decimal(*h as u128)),
        }
    }

    /// The value as it is shown to the user: `2.50 GHz`, `1000000 KHz`.
    pub fn to_string(&self) -> (s: String)
        ensures
            s@ == self.shown(),
    {
        let mut out: Vec<char> = Vec::new();
        match self {
            Frequency::GHz(g) => {
                let q: u128 = g.billionths / 10_000_000;
                let r: u128 = g.billionths % 10_000_000;
                let h: u128 = if r > 5_000_000 || (r == 5_000_000 && q % 2 == 1) {
                    q + 1
                } else {
                    q
                };
                assert(h == hundredths(g.billionths as nat));
                let whole = render_decimal(h / 100);
                append_chars(&mut out, &whole);
                out.push('.');
                let low: u8 = (h % 100) as u8;
                out.push(digit_char(low / 10));
                out.push(digit_char(low % 10));
                assert(out@ == two_places(g.billionths as nat));
                append_str(&mut out, " GHz");
            },
            Frequency::MHz(m) => {
                let digits = render_decimal(*m as u128);
                append_chars(&mut out, &digits);
                append_str(&mut out, " MHz");
            },
            Frequency::KHz(k) => {
                let digits = render_decimal(*k as u128);
                append_chars(&mut out, &digits);
                append_str(&mut out, " KHz");
            },
            Frequency::Hz(h) => {
                let digits = render_decimal(*h as u128);
                append_chars(&mut out, &digits);
                append_str(&mut out, " Hz");
            },
        }
        string_of(&out)
    }
}

/// A number below ten units has a leading digit below ten, and what is
/// left after that digit is below one unit.
proof fn lemma_digit_and_rest(n: int, unit: int)
    by (nonlinear_arith)
    requires
        0 <= n < 10 * unit,
        0 < unit,
    ensures
        0 <= n / unit < 10,
        0 <= n % unit < unit,
        (n / unit) % 10 == n / unit,
{
}

/// Cuts a number to the 64-bit range.
fn cut(n: u128) -> (r: u64)
    ensures
        r == clip(n as nat),
{
    if n > 0xFFFF_FFFF_FFFF_FFFF {
        u64::MAX
    } else {
        n as u64
    }
}

impl From<Frequency> for u64 {
    /// The number that the value holds in its own unit.
    fn from(value: Frequency) -> (r: u64) {
        match value {
            Frequency::GHz(g) => cut(g.billionths / 1_000_000_000),
            Frequency::MHz(m) => m,
            Frequency::KHz(k) => k,
            Frequency::Hz(h) => h,
        }
    }
}

impl vstd::std_specs::convert::FromSpecImpl<Frequency> for u64 {
    open spec fn obeys_from_spec() -> bool {
        true
    }

    open spec fn from_spec(value: Frequency) -> u64 {
        value.whole()
    }
}

/// A value in kilohertz is its own conversion to kilohertz.
pub proof fn law_khz_identity(k: u64)
    ensures
        Frequency::KHz(k).khz_in_range(),
        Frequency::KHz(k).as_khz() == Frequency::KHz(k),
{
}

/// Each whole-number unit is its own conversion to that unit, and a value in
/// gigahertz its own conversion to gigahertz.
pub proof fn law_unit_identity(f: Frequency)
    ensures
        f is Hz ==> f.as_hz() == f,
        f is KHz ==> f.as_khz() == f,
        f is MHz ==> f.as_mhz() == f,
        f is GHz ==> f.as_ghz() == f,
{
}

/// Narrowing to a larger unit discards the remainder: the result, widened
/// again, is at most the value, and less than one unit below it.
pub proof fn law_narrowing_truncates(f: Frequency)
    requires
        f.hertz() / 1_000 <= u64::MAX,
    ensures
        f.as_khz().hertz() <= f.hertz() < f.as_khz().hertz() + 1_000,
{
}

} // verus!
