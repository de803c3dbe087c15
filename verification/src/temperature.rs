use vstd::prelude::*;
use vstd::string::StringExecFns;
use crate::fixed_point::{
    clamped, floor_div, lemma_div_monotonic, lemma_div_unique, round_div, rounded_div, saturate,
    saturated, FACTOR_ONE,
};

verus! {

/// How many units of [`Temp`] make one kelvin.
pub const UNITS_PER_KELVIN: i64 = 64;

/// The scale a temperature is read or shown in.
#[derive(Clone, Copy, Debug, PartialEq, Eq, Structural)]
pub enum TemperatureUnit {
    Kelvin,
    Celsius,
    Fahrenheit,
}

impl TemperatureUnit {
    /// The letters that follow a number in this unit.
    pub open spec fn spec_suffix(self) -> Seq<char> {
        match self {
            TemperatureUnit::Kelvin => "K"@,
            TemperatureUnit::Celsius => "°C"@,
            TemperatureUnit::Fahrenheit => "°F"@,
        }
    }

    /// The letters that follow a number in this unit.
    pub fn suffix(&self) -> (s: String)
        ensures
            s@ == self.spec_suffix(),
    {
        match self {
            TemperatureUnit::Kelvin => String::from_str("K"),
            TemperatureUnit::Celsius => String::from_str("°C"),
            TemperatureUnit::Fahrenheit => String::from_str("°F"),
        }
    }
}

impl Default for TemperatureUnit {
    fn default() -> (u: TemperatureUnit)
        ensures
            u == TemperatureUnit::Kelvin,
    {
        TemperatureUnit::Kelvin
    }
}

/// An absolute temperature, or a difference of two, counted in sixty-fourths
/// of a kelvin: the unit in which the supported sensors report.
#[derive(Clone, Copy, Debug, PartialEq, Eq, PartialOrd, Ord, Hash, Structural)]
pub struct Temp {
    pub units: i64,
}

impl View for Temp {
    type V = int;

    open spec fn view(&self) -> int {
        self.units as int
    }
}

impl Default for Temp {
    fn default() -> (t: Temp)
        ensures
            t@ == 0,
    {
        Temp { units: 0 }
    }
}

/// Sixty-fourths of a kelvin that `millis` thousandths of a degree of `unit`
/// come to, before rounding: the numerator and the divisor of the quotient.
pub open spec fn units_quotient(unit: TemperatureUnit, millis: int) -> (int, int) {
    match unit {
        TemperatureUnit::Kelvin => (64 * millis, 1000),
        TemperatureUnit::Celsius => (64 * (millis + 273_150), 1000),
        TemperatureUnit::Fahrenheit => (320 * millis + 147_094_400, 9000),
    }
}

/// Thousandths of a degree of `unit` that `units` sixty-fourths of a kelvin
/// come to, before rounding: the numerator and the divisor of the quotient.
pub open spec fn millis_quotient(unit: TemperatureUnit, units: int) -> (int, int) {
    match unit {
        TemperatureUnit::Kelvin => (125 * units, 8),
        TemperatureUnit::Celsius => (125 * units - 2_185_200, 8),
        TemperatureUnit::Fahrenheit => (225 * units - 3_677_360, 8),
    }
}

impl Temp {
    /// The highest temperature there is: stands for "no upper bound".
    pub open spec fn spec_highest() -> Temp {
        Temp { units: i64::MAX }
    }

    /// The lowest temperature there is: stands for "no lower bound".
    pub open spec fn spec_lowest() -> Temp {
        Temp { units: i64::MIN }
    }

    /// The highest temperature there is: stands for "no upper bound".
    pub fn highest() -> (t: Temp)
        ensures
            t == Temp::spec_highest(),
    {
        Temp { units: i64::MAX }
    }

    /// The lowest temperature there is: stands for "no lower bound".
    pub fn lowest() -> (t: Temp)
        ensures
            t == Temp::spec_lowest(),
    {
        Temp { units: i64::MIN }
    }

    /// The temperature of `units` sixty-fourths of a kelvin.
    pub fn new(units: i64) -> (t: Temp)
        ensures
            t@ == units,
    {
        Temp { units }
    }

    /// The temperature nearest to `millis` thousandths of a degree of `unit`.
    pub open spec fn spec_from_unit(unit: TemperatureUnit, millis: int) -> Temp {
        let (num, den) = units_quotient(unit, millis);
        Temp { units: saturated(rounded_div(num, den)) }
    }

    /// This temperature in thousandths of a degree of `unit`, to the nearest.
    pub open spec fn spec_to_unit(self, unit: TemperatureUnit) -> i64 {
        let (num, den) = millis_quotient(unit, self@);
        saturated(rounded_div(num, den))
    }

    /// The temperature nearest to `millis` thousandths of a degree Celsius.
    pub fn from_celsius(millis: i64) -> (t: Temp)
        ensures
            t == Temp::spec_from_unit(TemperatureUnit::Celsius, millis as int),
    {
        Temp::from_unit(TemperatureUnit::Celsius, millis)
    }

    /// The temperature nearest to `millis` thousandths of a degree of `unit`,
    /// held at the ends of the scale.
    pub fn from_unit(unit: TemperatureUnit, millis: i64) -> (t: Temp)
        ensures
            t == Temp::spec_from_unit(unit, millis as int),
    {
        let m: i128 = millis as i128;
        let q: i128 = match unit {
            TemperatureUnit::Kelvin => round_div(64 * m, 1000),
            TemperatureUnit::Celsius => round_div(64 * (m + 273_150), 1000),
            TemperatureUnit::Fahrenheit => round_div(320 * m + 147_094_400, 9000),
        };
        Temp { units: saturate(q) }
    }

    /// This temperature in thousandths of a degree of `unit`, to the nearest,
    /// held at the ends of the `i64` range.
    pub fn to_unit(self, unit: TemperatureUnit) -> (millis: i64)
        ensures
            millis == self.spec_to_unit(unit),
    {
        let u: i128 = self.units as i128;
        let q: i128 = match unit {
            TemperatureUnit::Kelvin => round_div(125 * u, 8),
            TemperatureUnit::Celsius => round_div(125 * u - 2_185_200, 8),
            TemperatureUnit::Fahrenheit => round_div(225 * u - 3_677_360, 8),
        };
        saturate(q)
    }

    /// The sum of two temperatures, held at the ends of the scale.
    pub open spec fn spec_plus(self, rhs: Temp) -> Temp {
        Temp { units: saturated(self@ + rhs@) }
    }

    /// The difference of two temperatures, held at the ends of the scale.
    pub open spec fn spec_minus(self, rhs: Temp) -> Temp {
        Temp { units: saturated(self@ - rhs@) }
    }

    /// This temperature times `factor` millionths, rounded down and held at
    /// the ends of the scale.
    pub open spec fn spec_scaled(self, factor: int) -> Temp {
        Temp { units: saturated((self@ * factor) / (FACTOR_ONE as int)) }
    }

    /// The sum of two temperatures, held at the ends of the scale.
    pub fn plus(self, rhs: Temp) -> (t: Temp)
        ensures
            t == self.spec_plus(rhs),
    {
        Temp { units: saturate(self.units as i128 + rhs.units as i128) }
    }

    /// The difference of two temperatures, held at the ends of the scale.
    pub fn minus(self, rhs: Temp) -> (t: Temp)
        ensures
            t == self.spec_minus(rhs),
    {
        Temp { units: saturate(self.units as i128 - rhs.units as i128) }
    }

    /// This temperature times `factor` millionths, rounded down and held at
    /// the ends of the scale.
    pub fn scaled(self, factor: i64) -> (t: Temp)
        ensures
            t == self.spec_scaled(factor as int),
    {
        let a: i128 = self.units as i128;
        let f: i128 = factor as i128;
        proof {
            assert(-0x4000_0000_0000_0000_0000_0000_0000_0000 <= a * f
                <= 0x4000_0000_0000_0000_0000_0000_0000_0000) by (nonlinear_arith)
                requires
                    -0x8000_0000_0000_0000 <= a <= 0x7fff_ffff_ffff_ffff,
                    -0x8000_0000_0000_0000 <= f <= 0x7fff_ffff_ffff_ffff,
            ;
        }
        Temp { units: saturate(floor_div(a * f, FACTOR_ONE as i128)) }
    }
}

impl core::ops::Add for Temp {
    type Output = Temp;

    /// The sum of two temperatures, held at the ends of the scale.
    fn add(self, rhs: Temp) -> (t: Temp) {
        self.plus(rhs)
    }
}

impl vstd::std_specs::ops::AddSpecImpl for Temp {
    open spec fn obeys_add_spec() -> bool {
        true
    }

    open spec fn add_req(self, rhs: Temp) -> bool {
        true
    }

    open spec fn add_spec(self, rhs: Temp) -> Temp {
        self.spec_plus(rhs)
    }
}

impl core::ops::Sub for Temp {
    type Output = Temp;

    /// The difference of two temperatures, held at the ends of the scale.
    fn sub(self, rhs: Temp) -> (t: Temp) {
        self.minus(rhs)
    }
}

impl vstd::std_specs::ops::SubSpecImpl for Temp {
    open spec fn obeys_sub_spec() -> bool {
        true
    }

    open spec fn sub_req(self, rhs: Temp) -> bool {
        true
    }

    open spec fn sub_spec(self, rhs: Temp) -> Temp {
        self.spec_minus(rhs)
    }
}

/// The point `factor` millionths of the way from `from` to `to`, rounded
/// down; a factor under zero counts as zero and one over a million as a million.
pub open spec fn interpolated(from: int, to: int, factor: int) -> int {
    from + ((to - from) * clamped(factor, 0, FACTOR_ONE as int)) / (FACTOR_ONE as int)
}

/// An interpolated point lies between the two ends, and on them for the factors 0 and 1.
pub proof fn lemma_interpolated_between(from: int, to: int, factor: int)
    ensures
        from <= to ==> from <= interpolated(from, to, factor) <= to,
        to <= from ==> to <= interpolated(from, to, factor) <= from,
        factor <= 0 ==> interpolated(from, to, factor) == from,
        factor >= FACTOR_ONE ==> interpolated(from, to, factor) == to,
{
    let f = clamped(factor, 0, FACTOR_ONE as int);
    let d = to - from;
    let one = FACTOR_ONE as int;
    if d >= 0 {
        assert(0 <= d * f <= d * one) by (nonlinear_arith)
            requires
                d >= 0,
                0 <= f <= one,
        ;
        lemma_div_monotonic(0, d * f, one);
        lemma_div_monotonic(d * f, d * one, one);
    } else {
        assert(d * one <= d * f <= 0) by (nonlinear_arith)
            requires
                d < 0,
                0 <= f <= one,
        ;
        lemma_div_monotonic(d * f, 0, one);
        lemma_div_monotonic(d * one, d * f, one);
    }
    assert((d * one) / one == d) by {
        lemma_div_unique(d * one, one, d);
    }
    assert(d * 0 == 0);
}

fn interpolate(from: i64, to: i64, factor: i64) -> (r: i64)
    ensures
        r == interpolated(from as int, to as int, factor as int),
{
    let f: i128 = if factor < 0 {
        0
    } else if factor > FACTOR_ONE {
        FACTOR_ONE as i128
    } else {
        factor as i128
    };
    let d: i128 = to as i128 - from as i128;
    proof {
        assert(-0x1_0000_0000_0000_0000 * 1_000_000 <= d * f <= 0x1_0000_0000_0000_0000
            * 1_000_000) by (nonlinear_arith)
            requires
                -0x1_0000_0000_0000_0000 <= d <= 0x1_0000_0000_0000_0000,
                0 <= f <= 1_000_000,
        ;
        lemma_interpolated_between(from as int, to as int, factor as int);
    }
    let step: i128 = floor_div(d * f, FACTOR_ONE as i128);
    (from as i128 + step) as i64
}

/// A span of temperatures from `min` to `max`, both ends included.
#[derive(Clone, Copy, Debug, PartialEq, Eq, Structural)]
pub struct TempRange {
    pub min: Temp,
    pub max: Temp,
}

impl Default for TempRange {
    /// The range that stands for "not set": every temperature lies in it.
    fn default() -> (r: TempRange)
        ensures
            r == TempRange::spec_default(),
    {
        TempRange { min: Temp::lowest(), max: Temp::highest() }
    }
}

impl TempRange {
    /// The range that stands for "not set".
    pub open spec fn spec_default() -> TempRange {
        TempRange { min: Temp::spec_lowest(), max: Temp::spec_highest() }
    }

    /// The lower end is not above the upper end.
    pub open spec fn is_ordered(self) -> bool {
        self.min@ <= self.max@
    }

    /// How far the upper end lies over the lower end.
    pub open spec fn span(self) -> int {
        self.max@ - self.min@
    }

    /// What positions in the range are measured against: its span, and one
    /// unit where the span is not positive.
    pub open spec fn divisor(self) -> int {
        if self.span() >= 1 {
            self.span()
        } else {
            1
        }
    }

    /// The position of `temp` in the range in millionths of its span, rounded
    /// down: 0 at the lower end, a million at the upper end, under 0 or over a
    /// million outside. Held at the ends of the `i64` range.
    pub open spec fn spec_factor(self, temp: Temp) -> i64 {
        saturated(((temp@ - self.min@) * (FACTOR_ONE as int)) / self.divisor())
    }

    /// `temp` lies in the range, its ends included.
    pub open spec fn spec_contains(self, temp: Temp) -> bool {
        self.min@ <= temp@ <= self.max@
    }

    /// Both ends of `range` lie in the range.
    pub open spec fn spec_contains_range(self, range: TempRange) -> bool {
        self.spec_contains(range.min) && self.spec_contains(range.max)
    }

    /// The range `factor` millionths of the way from this one to `target`.
    pub open spec fn spec_animate(self, target: TempRange, factor: int) -> TempRange {
        TempRange {
            min: Temp { units: interpolated(self.min@, target.min@, factor) as i64 },
            max: Temp { units: interpolated(self.max@, target.max@, factor) as i64 },
        }
    }

    /// How far the upper end lies over the lower end, held at the ends of the scale.
    pub open spec fn spec_diff(self) -> Temp {
        self.max.spec_minus(self.min)
    }

    /// The smallest range that holds both ranges.
    pub open spec fn spec_join(self, other: TempRange) -> TempRange {
        TempRange {
            min: if self.min@ <= other.min@ {
                self.min
            } else {
                other.min
            },
            max: if self.max@ >= other.max@ {
                self.max
            } else {
                other.max
            },
        }
    }

    /// The range from `min` to `max`.
    pub fn new(min: Temp, max: Temp) -> (r: TempRange)
        ensures
            r.min == min,
            r.max == max,
    {
        TempRange { min, max }
    }

    /// The position of `temp` in the range in millionths of its span, rounded
    /// down: 0 at the lower end and, for a range with a span, a million at the
    /// upper end. A range without a span is measured as if it spanned one unit.
    pub fn factor(&self, temp: Temp) -> (f: i64)
        ensures
            f == self.spec_factor(temp),
            temp == self.min ==> f == 0,
            temp == self.max && self.min@ < self.max@ ==> f == FACTOR_ONE,
            self.spec_contains(temp) ==> 0 <= f <= FACTOR_ONE,
    {
        let span: i128 = self.max.units as i128 - self.min.units as i128;
        let den: i128 = if span >= 1 {
            span
        } else {
            1
        };
        let offset: i128 = temp.units as i128 - self.min.units as i128;
        let num: i128 = offset * 1_000_000;
        proof {
            assert(num == (temp@ - self.min@) * (FACTOR_ONE as int));
            lemma_factor_at_ends(*self);
            if self.spec_contains(temp) {
                lemma_factor_monotonic(*self, self.min, temp);
                lemma_factor_monotonic(*self, temp, self.max);
            }
        }
        saturate(floor_div(num, den))
    }

    /// Whether `temp` lies in the range, its ends included.
    pub fn contains(&self, temp: Temp) -> (b: bool)
        ensures
            b == self.spec_contains(temp),
    {
        temp.units >= self.min.units && temp.units <= self.max.units
    }

    /// Whether both ends of `range` lie in the range.
    pub fn contains_range(&self, range: TempRange) -> (b: bool)
        ensures
            b == self.spec_contains_range(range),
    {
        self.contains(range.min) && self.contains(range.max)
    }

    /// The range `factor` millionths of the way from this one to `target`: this
    /// range for a factor of 0 or less, `target` for a million or more.
    pub fn animate(&self, target: TempRange, factor: i64) -> (r: TempRange)
        ensures
            r == self.spec_animate(target, factor as int),
            factor <= 0 ==> r == *self,
            factor >= FACTOR_ONE ==> r == target,
    {
        proof {
            lemma_interpolated_between(self.min@, target.min@, factor as int);
            lemma_interpolated_between(self.max@, target.max@, factor as int);
        }
        TempRange {
            min: Temp::new(interpolate(self.min.units, target.min.units, factor)),
            max: Temp::new(interpolate(self.max.units, target.max.units, factor)),
        }
    }

    /// How far the upper end lies over the lower end, held at the ends of the scale.
    pub fn diff(&self) -> (d: Temp)
        ensures
            d == self.spec_diff(),
    {
        self.max - self.min
    }

    /// The smallest range that holds both ranges.
    pub fn join(&self, other: TempRange) -> (r: TempRange)
        ensures
            r == self.spec_join(other),
    {
        TempRange {
            min: if self.min.units <= other.min.units {
                self.min
            } else {
                other.min
            },
            max: if self.max.units >= other.max.units {
                self.max
            } else {
                other.max
            },
        }
    }

    /// Whether this is the range that stands for "not set".
    pub fn is_default(&self) -> (b: bool)
        ensures
            b == (*self == TempRange::spec_default()),
    {
        self.min.units == i64::MIN && self.max.units == i64::MAX
    }
}

/// Two points that are interpolated by one factor keep their order where
/// their starts and their targets are in that order.
pub proof fn lemma_interpolated_order(from_a: int, to_a: int, from_b: int, to_b: int, factor: int)
    requires
        from_a <= from_b,
        to_a <= to_b,
    ensures
        interpolated(from_a, to_a, factor) <= interpolated(from_b, to_b, factor),
{
    let c = clamped(factor, 0, FACTOR_ONE as int);
    let one = FACTOR_ONE as int;
    let x = (to_a - from_a) * c;
    let y = (to_b - from_b) * c;
    let gap = from_b - from_a;
    assert(x <= y + gap * one) by (nonlinear_arith)
        requires
            x == (to_a - from_a) * c,
            y == (to_b - from_b) * c,
            gap == from_b - from_a,
            gap >= 0,
            to_a <= to_b,
            0 <= c <= one,
    ;
    lemma_div_monotonic(x, y + gap * one, one);
    vstd::arithmetic::div_mod::lemma_fundamental_div_mod(y, one);
    assert(y + gap * one == (y / one + gap) * one + y % one) by (nonlinear_arith)
        requires
            y == one * (y / one) + y % one,
    ;
    lemma_div_unique(y + gap * one, one, y / one + gap);
}

/// The lower end of a range lies at the factor 0, and the upper end of a
/// range that is not empty at the factor 1.
pub proof fn lemma_factor_at_ends(r: TempRange)
    ensures
        r.spec_factor(r.min) == 0,
        r.min@ < r.max@ ==> r.spec_factor(r.max) == FACTOR_ONE,
{
    let one = FACTOR_ONE as int;
    assert((0 * one) / r.divisor() == 0) by {
        lemma_div_unique(0, r.divisor(), 0);
    }
    if r.min@ < r.max@ {
        let d = r.span();
        assert((d * one) / d == one) by {
            assert(d * one == one * d) by (nonlinear_arith);
            lemma_div_unique(d * one, d, one);
        }
    }
}

/// A temperature inside an ordered range lies at a factor from 0 to 1, and
/// factors keep the order of the temperatures.
pub proof fn lemma_factor_monotonic(r: TempRange, a: Temp, b: Temp)
    requires
        a@ <= b@,
    ensures
        r.spec_factor(a) <= r.spec_factor(b),
{
    let one = FACTOR_ONE as int;
    lemma_div_monotonic((a@ - r.min@) * one, (b@ - r.min@) * one, r.divisor());
}

} // verus!
