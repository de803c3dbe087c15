use vstd::prelude::*;
use crate::grid::{lemma_index_join, lemma_index_split, rotate_cells, Grid};
use crate::color_image::{ColorImage, Rgba};
use crate::fixed_point::{clamped, floor_div, lemma_div_monotonic, lemma_div_unique, FACTOR_ONE};
use crate::temperature::{Temp, TempRange};
use crate::types::image_rotation::ImageRotation;

verus! {

/// The place of a pixel in a grid: column `x` and row `y`, counted from the
/// top left corner.
#[derive(Clone, Copy, Debug, PartialEq, Eq, Structural)]
pub struct ThermalDataPos {
    pub x: usize,
    pub y: usize,
}

impl ThermalDataPos {
    /// The place in column `x` of row `y`.
    pub fn new(x: usize, y: usize) -> (p: ThermalDataPos)
        ensures
            p.x == x,
            p.y == y,
    {
        Self { x, y }
    }
}

impl Default for ThermalDataPos {
    fn default() -> (p: ThermalDataPos)
        ensures
            p.x == 0,
            p.y == 0,
    {
        Self { x: 0, y: 0 }
    }
}

/// A place in a grid of `width` columns, as the index of its cell.
pub open spec fn index_of(width: nat, pos: ThermalDataPos) -> int {
    pos.y * width + pos.x
}

/// No cell before `i` is as cold as the cell at `i`, and none after it is colder.
pub open spec fn is_first_min(cells: Seq<Temp>, i: int) -> bool {
    &&& 0 <= i < cells.len()
    &&& forall|j: int| 0 <= j < i ==> (#[trigger] cells[j])@ > cells[i]@
    &&& forall|j: int| i <= j < cells.len() ==> (#[trigger] cells[j])@ >= cells[i]@
}

/// No cell before `i` is as warm as the cell at `i`, and none after it is warmer.
pub open spec fn is_first_max(cells: Seq<Temp>, i: int) -> bool {
    &&& 0 <= i < cells.len()
    &&& forall|j: int| 0 <= j < i ==> (#[trigger] cells[j])@ < cells[i]@
    &&& forall|j: int| i <= j < cells.len() ==> (#[trigger] cells[j])@ <= cells[i]@
}

/// The highest temperature, in units of [`Temp`], that the radiometric
/// correction reckons with: 262144 kelvin. What lies above counts as this, and
/// what lies under absolute zero as zero.
pub const RADIOMETRIC_LIMIT: i64 = 0x100_0000;

/// The fourth power.
pub open spec fn pow4(v: int) -> int {
    v * v * v * v
}

/// `r` is the fourth root of `x`, rounded down.
pub open spec fn is_fourth_root(r: int, x: int) -> bool {
    0 <= r && pow4(r) <= x < pow4(r + 1)
}

/// The fourth power of the true temperature of a body of the given
/// emissivity, in millionths, that is measured at `measured` before a
/// background at `ambient`: the measured radiation less the part of it that
/// the body reflects, over the emissivity, all rounded down. The emissivity
/// is held within one millionth and one, no temperature counts as under
/// absolute zero, and the result is not negative. The temperature of the
/// background is held under `RADIOMETRIC_LIMIT`, and so is the measured one
/// where the emissivity is under one; with an emissivity of one, nothing is
/// reflected and the measured temperature counts as it is.
pub open spec fn true_radiation(measured: int, ambient: int, emissivity: int) -> int {
    let one = FACTOR_ONE as int;
    let e = clamped(emissivity, 1, one);
    let m = if e == one {
        if measured < 0 {
            0
        } else {
            measured
        }
    } else {
        clamped(measured, 0, RADIOMETRIC_LIMIT as int)
    };
    let a = clamped(ambient, 0, RADIOMETRIC_LIMIT as int);
    let x = (pow4(m) * one - (one - e) * pow4(a)) / e;
    if x < 0 {
        0
    } else {
        x
    }
}

/// The fourth power grows with its base over the numbers that are not negative.
pub proof fn lemma_pow4_monotonic(a: int, b: int)
    requires
        0 <= a <= b,
    ensures
        pow4(a) <= pow4(b),
        a < b ==> pow4(a) < pow4(b),
{
    assert(a * a <= b * b) by (nonlinear_arith)
        requires
            0 <= a <= b,
    ;
    assert((a * a) * (a * a) <= (b * b) * (b * b)) by (nonlinear_arith)
        requires
            0 <= a * a <= b * b,
    ;
    assert(pow4(a) == (a * a) * (a * a)) by (nonlinear_arith);
    assert(pow4(b) == (b * b) * (b * b)) by (nonlinear_arith);
    if a < b {
        assert(a * a < b * b) by (nonlinear_arith)
            requires
                0 <= a < b,
        ;
        assert((a * a) * (a * a) < (b * b) * (b * b)) by (nonlinear_arith)
            requires
                0 <= a * a < b * b,
        ;
    }
}

/// A number has one fourth root only.
pub proof fn lemma_fourth_root_unique(r: int, s: int, x: int)
    requires
        is_fourth_root(r, x),
        is_fourth_root(s, x),
    ensures
        r == s,
{
    if r < s {
        lemma_pow4_monotonic(r + 1, s);
    }
    if s < r {
        lemma_pow4_monotonic(s + 1, r);
    }
}

/// With an emissivity of one or more, the true radiation of a body is what
/// is measured, whatever the background: its fourth root is the measured
/// temperature.
pub proof fn lemma_full_emissivity_keeps(measured: int, ambient: int, emissivity: int)
    requires
        0 <= measured,
        emissivity >= FACTOR_ONE,
    ensures
        true_radiation(measured, ambient, emissivity) == pow4(measured),
        is_fourth_root(measured, true_radiation(measured, ambient, emissivity)),
{
    let one = FACTOR_ONE as int;
    let a = clamped(ambient, 0, RADIOMETRIC_LIMIT as int);
    assert((one - one) * pow4(a) == 0) by (nonlinear_arith);
    crate::fixed_point::lemma_div_unique(pow4(measured) * one, one, pow4(measured));
    lemma_pow4_monotonic(0, measured);
    lemma_pow4_monotonic(measured, measured + 1);
    assert(pow4(0) == 0) by (nonlinear_arith);
}

/// The fourth root of `x`, rounded down.
pub fn fourth_root(x: u128) -> (r: u64)
    requires
        x < 0x1_0000_0000_0000_0000_0000_0000_0000_00,
    ensures
        is_fourth_root(r as int, x as int),
        r < 0x4000_0000,
{
    let mut lo: u128 = 0;
    let mut hi: u128 = 0x4000_0000;
    proof {
        assert(pow4(0) == 0) by (nonlinear_arith);
        assert(pow4(0x4000_0000) == 0x1_0000_0000_0000_0000_0000_0000_0000_00) by (nonlinear_arith);
    }
    while hi - lo > 1
        invariant
            0 <= lo < hi <= 0x4000_0000,
            pow4(lo as int) <= x < pow4(hi as int),
        decreases hi - lo,
    {
        let mid: u128 = lo + (hi - lo) / 2;
        proof {
            assert(mid * mid <= 0x4000_0000 * 0x4000_0000) by (nonlinear_arith)
                requires
                    0 <= mid <= 0x4000_0000,
            ;
        }
        let square: u128 = mid * mid;
        proof {
            assert(square * square <= 0x1000_0000_0000_0000 * 0x1000_0000_0000_0000)
                by (nonlinear_arith)
                requires
                    0 <= square <= 0x1000_0000_0000_0000,
            ;
            assert(pow4(mid as int) == (mid * mid) * (mid * mid)) by (nonlinear_arith);
        }
        let fourth: u128 = square * square;
        if fourth <= x {
            lo = mid;
        } else {
            hi = mid;
        }
    }
    lo as u64
}

/// The fourth power of a temperature held within `0 ..= RADIOMETRIC_LIMIT`.
fn radiation(units: i64) -> (p: i128)
    ensures
        p == pow4(clamped(units as int, 0, RADIOMETRIC_LIMIT as int)),
        0 <= p <= 0x1_0000_0000_0000_0000_0000_0000,
{
    let t: i128 = if units < 0 {
        0
    } else if units > RADIOMETRIC_LIMIT {
        RADIOMETRIC_LIMIT as i128
    } else {
        units as i128
    };
    proof {
        assert(0 <= t * t <= 0x100_0000 * 0x100_0000) by (nonlinear_arith)
            requires
                0 <= t <= 0x100_0000,
        ;
    }
    let square: i128 = t * t;
    proof {
        assert(0 <= square * square <= 0x1_0000_0000_0000 * 0x1_0000_0000_0000) by (nonlinear_arith)
            requires
                0 <= square <= 0x1_0000_0000_0000,
        ;
        assert(pow4(t as int) == (t * t) * (t * t)) by (nonlinear_arith);
    }
    square * square
}

/// The true temperature of a body that is measured at `measured` before a
/// background at `ambient`.
fn correct_temp(measured: Temp, ambient_radiation: i128, emissivity: i64) -> (t: Temp)
    requires
        0 <= ambient_radiation <= 0x1_0000_0000_0000_0000_0000_0000,
    ensures
        forall|ambient: int|
            pow4(clamped(ambient, 0, RADIOMETRIC_LIMIT as int)) == ambient_radiation
                ==> is_fourth_root(t@, #[trigger] true_radiation(measured@, ambient, emissivity as int)),
{
    if emissivity >= FACTOR_ONE {
        // Nothing is reflected: what is measured is the body's own.
        let own: i64 = if measured.units < 0 {
            0
        } else {
            measured.units
        };
        proof {
            assert forall|ambient: int| true implies is_fourth_root(
                own as int,
                #[trigger] true_radiation(measured@, ambient, emissivity as int),
            ) by {
                lemma_full_emissivity_keeps(own as int, ambient, emissivity as int);
            }
        }
        return Temp::new(own);
    }
    let e: i128 = if emissivity < 1 {
        1
    } else {
        emissivity as i128
    };
    let own: i128 = radiation(measured.units);
    let lack: i128 = 1_000_000 - e;
    proof {
        assert(0 <= lack * ambient_radiation <= 1_000_000 * 0x1_0000_0000_0000_0000_0000_0000)
            by (nonlinear_arith)
            requires
                0 <= lack <= 1_000_000,
                0 <= ambient_radiation <= 0x1_0000_0000_0000_0000_0000_0000,
        ;
    }
    let num: i128 = own * 1_000_000 - lack * ambient_radiation;
    let quotient: i128 = floor_div(num, e);
    let x: i128 = if quotient < 0 {
        0
    } else {
        quotient
    };
    proof {
        if num >= 0 {
            assert(num <= num * e) by (nonlinear_arith)
                requires
                    num >= 0,
                    e >= 1,
            ;
            crate::fixed_point::lemma_div_monotonic(num as int, num * e, e as int);
            crate::fixed_point::lemma_div_unique(num * e, e as int, num as int);
        } else {
            crate::fixed_point::lemma_div_monotonic(num as int, 0, e as int);
        }
    }
    Temp::new(fourth_root(x as u128) as i64)
}

/// The place of the first coldest cell.
pub open spec fn first_min_index(cells: Seq<Temp>) -> int {
    choose|i: int| is_first_min(cells, i)
}

/// The place of the first warmest cell.
pub open spec fn first_max_index(cells: Seq<Temp>) -> int {
    choose|i: int| is_first_max(cells, i)
}

/// There is one first coldest cell and one first warmest cell only.
pub proof fn lemma_first_extremes_unique(cells: Seq<Temp>, i: int)
    ensures
        is_first_min(cells, i) ==> first_min_index(cells) == i,
        is_first_max(cells, i) ==> first_max_index(cells) == i,
{
    if is_first_min(cells, i) {
        let j = first_min_index(cells);
        assert(is_first_min(cells, j));
        if j < i {
            assert(cells[j]@ > cells[i]@);
        }
        if i < j {
            assert(cells[i]@ > cells[j]@);
        }
    }
    if is_first_max(cells, i) {
        let j = first_max_index(cells);
        assert(is_first_max(cells, j));
        if j < i {
            assert(cells[j]@ < cells[i]@);
        }
        if i < j {
            assert(cells[i]@ < cells[j]@);
        }
    }
}

/// The range from the coldest to the warmest of `cells`.
pub open spec fn captured_range(cells: Seq<Temp>) -> TempRange {
    TempRange { min: cells[first_min_index(cells)], max: cells[first_max_index(cells)] }
}

/// The place in a grid of `width` columns of the cell with the index `i`.
pub open spec fn pos_of(width: nat, i: int) -> ThermalDataPos {
    ThermalDataPos { x: (i % (width as int)) as usize, y: (i / (width as int)) as usize }
}

/// The fourth root of `x`, rounded down.
pub open spec fn fourth_root_of(x: int) -> int {
    choose|r: int| is_fourth_root(r, x)
}

/// The true temperature of a body of the given emissivity, in millionths,
/// that is measured at `measured` before a background at `ambient`.
pub open spec fn corrected_temp(measured: Temp, ambient: Temp, emissivity: int) -> Temp {
    Temp { units: fourth_root_of(true_radiation(measured@, ambient@, emissivity)) as i64 }
}

/// The true temperatures of what is measured in `cells`.
pub open spec fn corrected_cells(cells: Seq<Temp>, ambient: Temp, emissivity: int) -> Seq<Temp> {
    Seq::new(cells.len(), |i: int| corrected_temp(cells[i], ambient, emissivity))
}

/// One frame of temperatures: `width * height` pixels, row after row from the
/// top left corner.
#[derive(Clone, Debug, PartialEq, Eq)]
pub struct ThermalData {
    pub width: usize,
    pub height: usize,
    pub data: Vec<Temp>,
}

impl View for ThermalData {
    type V = Grid<Temp>;

    open spec fn view(&self) -> Grid<Temp> {
        Grid { width: self.width as nat, height: self.height as nat, cells: self.data@ }
    }
}

impl ThermalData {
    /// There is one temperature for each pixel.
    pub open spec fn wf(&self) -> bool {
        self@.wf()
    }

    /// The frame of the given size with the given pixels, row after row.
    pub fn new(width: usize, height: usize, data: Vec<Temp>) -> (t: ThermalData)
        requires
            data@.len() == width * height,
        ensures
            t.wf(),
            t.width == width,
            t.height == height,
            t.data@ == data@,
    {
        Self { width, height, data }
    }

    /// The temperature of the pixel in column `x` of row `y`.
    pub fn temperature_at(&self, x: usize, y: usize) -> (t: Temp)
        requires
            self.wf(),
            x < self.width,
            y < self.height,
        ensures
            t == self@.at(x as int, y as int),
    {
        let n: usize = self.data.len();
        proof {
            lemma_index_join(x as int, y as int, self.width as int, self.height as int);
            assert(0 <= y * self.width) by (nonlinear_arith)
                requires
                    0 <= y,
                    0 <= self.width,
            ;
            assert(y * self.width + x < n);
        }
        self.data[y * self.width + x]
    }

    /// No pixel lies under absolute zero.
    pub open spec fn is_absolute(&self) -> bool {
        forall|i: int| 0 <= i < self.data@.len() ==> 0 <= (#[trigger] self.data@[i])@
    }

    /// Every pixel is an absolute temperature under `RADIOMETRIC_LIMIT`.
    pub open spec fn is_radiometric(&self) -> bool {
        forall|i: int|
            0 <= i < self.data@.len() ==> 0 <= (#[trigger] self.data@[i])@ <= RADIOMETRIC_LIMIT
    }

    /// The temperature of the pixel in column `x` of row `y`, if the frame
    /// has such a pixel.
    pub fn get(&self, x: usize, y: usize) -> (t: Option<Temp>)
        requires
            self.wf(),
        ensures
            t == (if x < self.width && y < self.height {
                Some(self@.at(x as int, y as int))
            } else {
                None
            }),
    {
        if x < self.width && y < self.height {
            Some(self.temperature_at(x, y))
        } else {
            None
        }
    }

    /// The frame with each pixel set to the true temperature of a body of the
    /// given emissivity, in millionths, before a background at `ambient`.
    pub fn corrected(&self, ambient: Temp, emissivity: i64) -> (r: ThermalData)
        requires
            self.wf(),
        ensures
            r.wf(),
            r.width == self.width,
            r.height == self.height,
            r.data@ == corrected_cells(self.data@, ambient, emissivity as int),
            forall|i: int|
                0 <= i < self.data@.len() ==> is_fourth_root(
                    (#[trigger] r.data@[i])@,
                    true_radiation(self.data@[i]@, ambient@, emissivity as int),
                ),
            emissivity >= FACTOR_ONE && self.is_absolute() ==> r@ == self@,
    {
        let n: usize = self.data.len();
        let ambient_radiation: i128 = radiation(ambient.units);
        let mut data: Vec<Temp> = Vec::with_capacity(n);
        let mut i: usize = 0;
        while i < n
            invariant
                n == self.data@.len(),
                0 <= i <= n,
                data@.len() == i,
                0 <= ambient_radiation <= 0x1_0000_0000_0000_0000_0000_0000,
                ambient_radiation == pow4(clamped(ambient@, 0, RADIOMETRIC_LIMIT as int)),
                forall|k: int|
                    0 <= k < i ==> is_fourth_root(
                        (#[trigger] data@[k])@,
                        true_radiation(self.data@[k]@, ambient@, emissivity as int),
                    ),
            decreases n - i,
        {
            let t = correct_temp(self.data[i], ambient_radiation, emissivity);
            data.push(t);
            i += 1;
        }
        proof {
            assert forall|k: int| 0 <= k < n implies data@[k] == corrected_temp(
                self.data@[k],
                ambient,
                emissivity as int,
            ) by {
                let x = true_radiation(self.data@[k]@, ambient@, emissivity as int);
                lemma_fourth_root_unique(data@[k]@, fourth_root_of(x), x);
            }
            assert(data@ =~= corrected_cells(self.data@, ambient, emissivity as int));
            if emissivity >= FACTOR_ONE && self.is_absolute() {
                assert forall|k: int| 0 <= k < n implies data@[k] == self.data@[k] by {
                    lemma_full_emissivity_keeps(self.data@[k]@, ambient@, emissivity as int);
                    lemma_fourth_root_unique(
                        data@[k]@,
                        self.data@[k]@,
                        true_radiation(self.data@[k]@, ambient@, emissivity as int),
                    );
                }
                assert(data@ =~= self.data@);
            }
        }
        ThermalData { width: self.width, height: self.height, data }
    }

    /// The frame turned clockwise by `rotation`.
    pub fn rotated(&self, rotation: ImageRotation) -> (r: ThermalData)
        requires
            self.wf(),
        ensures
            r.wf(),
            r@ == self@.rotated(rotation),
    {
        let data = rotate_cells(&self.data, self.width, self.height, rotation);
        proof {
            assert(self.width * self.height == self.height * self.width) by (nonlinear_arith);
        }
        match rotation {
            ImageRotation::Clockwise0 | ImageRotation::Clockwise180 => ThermalData {
                width: self.width,
                height: self.height,
                data,
            },
            ImageRotation::Clockwise90 | ImageRotation::Clockwise270 => ThermalData {
                width: self.height,
                height: self.width,
                data,
            },
        }
    }

    /// The picture of the frame: each pixel in the colour that `callback`
    /// gives for its temperature.
    pub fn map_to_image<F: Fn(Temp) -> Rgba>(&self, callback: F) -> (img: ColorImage)
        requires
            self.wf(),
            forall|t: Temp| callback.requires((t,)),
        ensures
            img.wf(),
            img.width == self.width,
            img.height == self.height,
            forall|i: int|
                0 <= i < self.data@.len() ==> callback.ensures(
                    (self.data@[i],),
                    #[trigger] img.pixels@[i],
                ),
    {
        let n: usize = self.data.len();
        let mut pixels: Vec<Rgba> = Vec::with_capacity(n);
        let mut i: usize = 0;
        while i < n
            invariant
                n == self.data@.len(),
                0 <= i <= n,
                pixels@.len() == i,
                forall|t: Temp| callback.requires((t,)),
                forall|k: int|
                    0 <= k < i ==> callback.ensures((self.data@[k],), #[trigger] pixels@[k]),
            decreases n - i,
        {
            let colour = callback(self.data[i]);
            pixels.push(colour);
            i += 1;
        }
        ColorImage { width: self.width, height: self.height, pixels }
    }

    /// The places of the coldest and of the warmest pixel; of several that
    /// are equally cold or warm, the first in reading order. Both are the top
    /// left corner in a grid without pixels.
    pub fn get_min_max_pos(&self) -> (r: (ThermalDataPos, ThermalDataPos))
        requires
            self.wf(),
        ensures
            self.data@.len() == 0 ==> r.0 == (ThermalDataPos { x: 0, y: 0 }) && r.1 == (
            ThermalDataPos { x: 0, y: 0 }),
            self.data@.len() > 0 ==> {
                &&& r.0.x < self.width && r.0.y < self.height
                &&& r.1.x < self.width && r.1.y < self.height
                &&& is_first_min(self.data@, index_of(self@.width, r.0))
                &&& is_first_max(self.data@, index_of(self@.width, r.1))
                &&& r.0 == pos_of(self@.width, first_min_index(self.data@))
                &&& r.1 == pos_of(self@.width, first_max_index(self.data@))
            },
    {
        let n: usize = self.data.len();
        if n == 0 {
            return (ThermalDataPos { x: 0, y: 0 }, ThermalDataPos { x: 0, y: 0 });
        }
        let mut min_i: usize = 0;
        let mut max_i: usize = 0;
        let mut i: usize = 1;
        while i < n
            invariant
                n == self.data@.len(),
                1 <= i <= n,
                0 <= min_i < i,
                0 <= max_i < i,
                forall|j: int| 0 <= j < min_i ==> (#[trigger] self.data@[j])@ > self.data@[min_i as int]@,
                forall|j: int| min_i <= j < i ==> (#[trigger] self.data@[j])@ >= self.data@[min_i as int]@,
                forall|j: int| 0 <= j < max_i ==> (#[trigger] self.data@[j])@ < self.data@[max_i as int]@,
                forall|j: int| max_i <= j < i ==> (#[trigger] self.data@[j])@ <= self.data@[max_i as int]@,
            decreases n - i,
        {
            let temp = self.data[i];
            if temp.units < self.data[min_i].units {
                min_i = i;
            }
            if temp.units > self.data[max_i].units {
                max_i = i;
            }
            i += 1;
        }
        proof {
            lemma_index_split(min_i as int, self.width as int, self.height as int);
            lemma_index_split(max_i as int, self.width as int, self.height as int);
            lemma_first_extremes_unique(self.data@, min_i as int);
            lemma_first_extremes_unique(self.data@, max_i as int);
        }
        (
            ThermalDataPos { x: min_i % self.width, y: min_i / self.width },
            ThermalDataPos { x: max_i % self.width, y: max_i / self.width },
        )
    }
}

/// The bucket that `temp` falls in when `range` is cut into `num_buckets`
/// buckets of equal width: bucket 0 starts at the lower end of the range, and
/// a temperature outside the range falls in a bucket under 0 or in one from
/// `num_buckets` on.
pub open spec fn bucket_of(range: TempRange, num_buckets: int, temp: Temp) -> int {
    ((temp@ - range.min@) * num_buckets) / range.divisor()
}

/// How many of `cells` fall in `bucket`.
pub open spec fn count_in_bucket(
    cells: Seq<Temp>,
    range: TempRange,
    num_buckets: int,
    bucket: int,
) -> nat
    decreases cells.len(),
{
    if cells.len() == 0 {
        0
    } else {
        let before = count_in_bucket(cells.drop_last(), range, num_buckets, bucket);
        if bucket_of(range, num_buckets, cells.last()) == bucket {
            before + 1
        } else {
            before
        }
    }
}

/// How many of `cells` fall in one of the buckets under `upto`.
pub open spec fn count_in_buckets(
    cells: Seq<Temp>,
    range: TempRange,
    num_buckets: int,
    upto: int,
) -> nat
    decreases cells.len(),
{
    if cells.len() == 0 {
        0
    } else {
        let before = count_in_buckets(cells.drop_last(), range, num_buckets, upto);
        if 0 <= bucket_of(range, num_buckets, cells.last()) < upto {
            before + 1
        } else {
            before
        }
    }
}

/// The factor, in millionths of the range, at the middle of `bucket`.
pub open spec fn bucket_middle(num_buckets: int, bucket: int) -> int {
    ((2 * bucket + 1) * (FACTOR_ONE as int)) / (2 * num_buckets)
}

/// The temperature at the middle of `bucket`.
pub open spec fn bucket_temperature(range: TempRange, num_buckets: int, bucket: int) -> Temp {
    range.min.spec_plus(range.spec_diff().spec_scaled(bucket_middle(num_buckets, bucket)))
}

/// `count` of `total` in millionths, rounded down; nothing of nothing is 0.
pub open spec fn share(count: int, total: int) -> int {
    if total > 0 {
        (count * (FACTOR_ONE as int)) / total
    } else {
        0
    }
}

/// One bucket of a histogram: the temperature at its middle, the number of
/// pixels in it, and their share of all pixels in millionths.
#[derive(Clone, Copy, Debug, PartialEq, Eq, Structural)]
pub struct ThermalDataHistogramPoint {
    pub temperature: Temp,
    pub count: usize,
    pub factor: i64,
}

/// The pixels that the first `upto` of `points` hold together.
pub open spec fn total_count(points: Seq<ThermalDataHistogramPoint>, upto: int) -> int
    decreases upto,
{
    if upto <= 0 {
        0
    } else {
        total_count(points, upto - 1) + points[upto - 1].count
    }
}

/// The shares of the first `upto` of `points` together.
pub open spec fn total_factor(points: Seq<ThermalDataHistogramPoint>, upto: int) -> int
    decreases upto,
{
    if upto <= 0 {
        0
    } else {
        total_factor(points, upto - 1) + points[upto - 1].factor
    }
}

/// The sum over the buckets under `upto` of the cells in each.
pub open spec fn sum_of_counts(cells: Seq<Temp>, range: TempRange, num_buckets: int, upto: int) -> int
    decreases upto,
{
    if upto <= 0 {
        0
    } else {
        sum_of_counts(cells, range, num_buckets, upto - 1) + count_in_bucket(
            cells,
            range,
            num_buckets,
            upto - 1,
        )
    }
}

/// Each cell is counted in one bucket at most: the counts of the buckets
/// under `upto` add up to the cells that fall in one of them.
pub proof fn lemma_sum_of_counts(cells: Seq<Temp>, range: TempRange, num_buckets: int, upto: int)
    requires
        0 <= upto,
    ensures
        sum_of_counts(cells, range, num_buckets, upto) == count_in_buckets(
            cells,
            range,
            num_buckets,
            upto,
        ),
    decreases cells.len(), upto,
{
    if upto == 0 {
        lemma_count_in_no_bucket(cells, range, num_buckets);
    } else {
        lemma_sum_of_counts(cells, range, num_buckets, upto - 1);
        if cells.len() > 0 {
            lemma_sum_of_counts(cells.drop_last(), range, num_buckets, upto);
            lemma_sum_of_counts(cells.drop_last(), range, num_buckets, upto - 1);
        }
    }
}

proof fn lemma_count_in_no_bucket(cells: Seq<Temp>, range: TempRange, num_buckets: int)
    ensures
        count_in_buckets(cells, range, num_buckets, 0) == 0,
    decreases cells.len(),
{
    if cells.len() > 0 {
        lemma_count_in_no_bucket(cells.drop_last(), range, num_buckets);
    }
}

/// No more cells fall in buckets than there are cells, and as many only
/// where every cell falls in one.
pub proof fn lemma_count_in_buckets(cells: Seq<Temp>, range: TempRange, num_buckets: int, upto: int)
    ensures
        count_in_buckets(cells, range, num_buckets, upto) <= cells.len(),
        count_in_buckets(cells, range, num_buckets, upto) == cells.len() <==> (forall|i: int|
            0 <= i < cells.len() ==> 0 <= #[trigger] bucket_of(range, num_buckets, cells[i]) < upto),
    decreases cells.len(),
{
    if cells.len() > 0 {
        let front = cells.drop_last();
        lemma_count_in_buckets(front, range, num_buckets, upto);
        let all_front = forall|i: int|
            0 <= i < front.len() ==> 0 <= #[trigger] bucket_of(range, num_buckets, front[i]) < upto;
        let all = forall|i: int|
            0 <= i < cells.len() ==> 0 <= #[trigger] bucket_of(range, num_buckets, cells[i]) < upto;
        if all {
            assert forall|i: int| 0 <= i < front.len() implies 0 <= #[trigger] bucket_of(
                range,
                num_buckets,
                front[i],
            ) < upto by {
                assert(front[i] == cells[i]);
            }
            assert(0 <= bucket_of(range, num_buckets, cells[cells.len() - 1]) < upto);
        }
        if all_front && 0 <= bucket_of(range, num_buckets, cells.last()) < upto {
            assert forall|i: int| 0 <= i < cells.len() implies 0 <= #[trigger] bucket_of(
                range,
                num_buckets,
                cells[i],
            ) < upto by {
                if i < front.len() {
                    assert(front[i] == cells[i]);
                }
            }
        }
    }
}

/// A temperature falls in one of the buckets of a range exactly if it lies
/// in the range and under its upper end.
pub proof fn lemma_bucket_in_range(range: TempRange, num_buckets: int, temp: Temp)
    requires
        num_buckets > 0,
    ensures
        0 <= bucket_of(range, num_buckets, temp) < num_buckets <==> 0 <= temp@ - range.min@
            < range.divisor(),
{
    let offset = temp@ - range.min@;
    let den = range.divisor();
    let n = num_buckets;
    if offset < 0 {
        assert(offset * n <= -1) by (nonlinear_arith)
            requires
                offset <= -1,
                n >= 1,
        ;
        lemma_div_monotonic(offset * n, -1, den);
        lemma_div_unique(-1, den, -1);
    } else if offset >= den {
        assert(offset * n >= den * n) by (nonlinear_arith)
            requires
                offset >= den,
                n >= 1,
        ;
        lemma_div_monotonic(den * n, offset * n, den);
        assert(den * n == n * den) by (nonlinear_arith);
        lemma_div_unique(den * n, den, n);
    } else {
        assert(0 <= offset * n <= den * n - n) by (nonlinear_arith)
            requires
                0 <= offset <= den - 1,
                n >= 1,
        ;
        lemma_div_monotonic(0, offset * n, den);
        lemma_div_unique(0, den, 0);
        lemma_div_monotonic(offset * n, den * n - 1, den);
        assert((n - 1) * den == den * n - den) by (nonlinear_arith);
        lemma_div_unique(den * n - 1, den, n - 1);
    }
}

/// The shares of parts that do not overlap add up to no more than the share
/// of the parts together.
pub proof fn lemma_share_of_sum(a: int, b: int, total: int)
    requires
        0 <= a,
        0 <= b,
    ensures
        share(a, total) + share(b, total) <= share(a + b, total),
        0 <= share(a, total),
        a <= total ==> share(a, total) <= FACTOR_ONE,
        a < total ==> share(a, total) < FACTOR_ONE,
{
    let one = FACTOR_ONE as int;
    if total > 0 {
        let qa = (a * one) / total;
        let qb = (b * one) / total;
        vstd::arithmetic::div_mod::lemma_fundamental_div_mod(a * one, total);
        vstd::arithmetic::div_mod::lemma_fundamental_div_mod(b * one, total);
        assert((qa + qb) * total <= (a + b) * one) by (nonlinear_arith)
            requires
                a * one == total * qa + (a * one) % total,
                b * one == total * qb + (b * one) % total,
                0 <= (a * one) % total,
                0 <= (b * one) % total,
        ;
        lemma_div_monotonic((qa + qb) * total, (a + b) * one, total);
        lemma_div_unique((qa + qb) * total, total, qa + qb);
        lemma_div_monotonic(0, a * one, total);
        lemma_div_unique(0, total, 0);
        if a <= total {
            assert(a * one <= total * one) by (nonlinear_arith)
                requires
                    a <= total,
                    one >= 0,
            ;
            lemma_div_monotonic(a * one, total * one, total);
            assert(total * one == one * total) by (nonlinear_arith);
            lemma_div_unique(total * one, total, one);
        }
        if a < total {
            assert(a * one <= total * one - one) by (nonlinear_arith)
                requires
                    a <= total - 1,
                    one >= 0,
            ;
            lemma_div_monotonic(a * one, total * one - 1, total);
            assert((one - 1) * total == total * one - total) by (nonlinear_arith);
            lemma_div_unique(total * one - 1, total, one - 1);
        }
    }
}

/// How the pixels of a frame spread over the buckets of a range.
#[derive(Clone, Debug, PartialEq, Eq)]
pub struct ThermalDataHistogram {
    pub points: Vec<ThermalDataHistogramPoint>,
}

impl ThermalDataHistogram {
    /// `points` is the histogram of `cells` over `range` cut into as many
    /// buckets as there are points.
    pub open spec fn describes(
        points: Seq<ThermalDataHistogramPoint>,
        cells: Seq<Temp>,
        range: TempRange,
    ) -> bool {
        forall|b: int|
            0 <= b < points.len() ==> {
                &&& (#[trigger] points[b]).temperature == bucket_temperature(
                    range,
                    points.len() as int,
                    b,
                )
                &&& points[b].count == count_in_bucket(cells, range, points.len() as int, b)
                &&& points[b].factor == share(points[b].count as int, cells.len() as int)
            }
    }

    /// The histogram of `data` over `range`, cut into `num_buckets` buckets
    /// of equal width. A pixel under the range, or at its upper end or above,
    /// is in no bucket.
    pub fn from_thermal_data(data: &ThermalData, range: TempRange, num_buckets: usize) -> (h: Self)
        ensures
            h.points@.len() == num_buckets,
            Self::describes(h.points@, data.data@, range),
            total_count(h.points@, num_buckets as int) == count_in_buckets(
                data.data@,
                range,
                num_buckets as int,
                num_buckets as int,
            ),
            total_count(h.points@, num_buckets as int) <= data.data@.len(),
            0 <= total_factor(h.points@, num_buckets as int) <= FACTOR_ONE,
            data.data@.len() > 0 && total_factor(h.points@, num_buckets as int) == FACTOR_ONE
                ==> total_count(h.points@, num_buckets as int) == data.data@.len(),
            total_count(h.points@, num_buckets as int) == data.data@.len() <==> (forall|i: int|
                0 <= i < data.data@.len() ==> 0 <= #[trigger] bucket_of(
                    range,
                    num_buckets as int,
                    data.data@[i],
                ) < num_buckets),
    {
        let total: usize = data.data.len();
        let mut buckets: Vec<usize> = Vec::with_capacity(num_buckets);
        let mut b: usize = 0;
        while b < num_buckets
            invariant
                0 <= b <= num_buckets,
                buckets@.len() == b,
                forall|k: int| 0 <= k < b ==> buckets@[k] == 0,
            decreases num_buckets - b,
        {
            buckets.push(0);
            b += 1;
        }
        let span: i128 = range.max.units as i128 - range.min.units as i128;
        let den: i128 = if span >= 1 {
            span
        } else {
            1
        };
        let mut i: usize = 0;
        while i < total
            invariant
                total == data.data@.len(),
                0 <= i <= total,
                buckets@.len() == num_buckets,
                den == range.divisor(),
                1 <= den <= 0xffff_ffff_ffff_ffff,
                forall|k: int|
                    0 <= k < num_buckets ==> (#[trigger] buckets@[k]) == count_in_bucket(
                        data.data@.take(i as int),
                        range,
                        num_buckets as int,
                        k,
                    ),
                forall|k: int| 0 <= k < num_buckets ==> (#[trigger] buckets@[k]) <= i,
            decreases total - i,
        {
            let temp = data.data[i];
            let offset: i128 = temp.units as i128 - range.min.units as i128;
            let ghost before = data.data@.take(i as int);
            let ghost now = data.data@.take(i + 1);
            proof {
                assert(now.drop_last() =~= before);
                assert(now.last() == temp);
                if num_buckets > 0 {
                    lemma_bucket_in_range(range, num_buckets as int, temp);
                }
            }
            if num_buckets > 0 && offset >= 0 && offset < den {
                let product: u128 = {
                    proof {
                        assert(offset * num_buckets <= 0xffff_ffff_ffff_ffff * 0xffff_ffff_ffff_ffff)
                            by (nonlinear_arith)
                            requires
                                0 <= offset <= 0xffff_ffff_ffff_ffff,
                                0 <= num_buckets <= 0xffff_ffff_ffff_ffff,
                        ;
                    }
                    (offset as u128) * (num_buckets as u128)
                };
                let bucket: usize = (product / (den as u128)) as usize;
                assert(bucket == bucket_of(range, num_buckets as int, temp));
                let count: usize = buckets[bucket];
                buckets.set(bucket, count + 1);
            }
            i += 1;
        }
        proof {
            assert(data.data@.take(total as int) =~= data.data@);
        }
        let mut points: Vec<ThermalDataHistogramPoint> = Vec::with_capacity(num_buckets);
        let width: Temp = range.diff();
        let mut b: usize = 0;
        while b < num_buckets
            invariant
                total == data.data@.len(),
                0 <= b <= num_buckets,
                buckets@.len() == num_buckets,
                points@.len() == b,
                width == range.spec_diff(),
                forall|k: int|
                    0 <= k < num_buckets ==> (#[trigger] buckets@[k]) == count_in_bucket(
                        data.data@,
                        range,
                        num_buckets as int,
                        k,
                    ),
                forall|k: int| 0 <= k < num_buckets ==> (#[trigger] buckets@[k]) <= total,
                forall|k: int|
                    0 <= k < b ==> {
                        &&& (#[trigger] points@[k]).temperature == bucket_temperature(
                            range,
                            num_buckets as int,
                            k,
                        )
                        &&& points@[k].count == buckets@[k]
                        &&& points@[k].factor == share(buckets@[k] as int, total as int)
                    },
            decreases num_buckets - b,
        {
            let count: usize = buckets[b];
            let middle: i128 = floor_div(
                (2 * (b as i128) + 1) * 1_000_000,
                2 * (num_buckets as i128),
            );
            proof {
                assert(middle == bucket_middle(num_buckets as int, b as int));
                lemma_div_monotonic(
                    0,
                    (2 * (b as int) + 1) * 1_000_000,
                    2 * (num_buckets as int),
                );
                lemma_div_unique(0, 2 * (num_buckets as int), 0);
                lemma_div_monotonic(
                    (2 * (b as int) + 1) * 1_000_000,
                    2 * (num_buckets as int) * 1_000_000,
                    2 * (num_buckets as int),
                );
                lemma_div_unique(
                    2 * (num_buckets as int) * 1_000_000,
                    2 * (num_buckets as int),
                    1_000_000,
                );
            }
            let temperature: Temp = range.min + width.scaled(middle as i64);
            let factor: i64 = if total > 0 {
                proof {
                    lemma_share_of_sum(count as int, 0, total as int);
                }
                floor_div((count as i128) * 1_000_000, total as i128) as i64
            } else {
                0
            };
            points.push(ThermalDataHistogramPoint { temperature, count, factor });
            b += 1;
        }
        proof {
            lemma_totals(points@, data.data@, range, num_buckets as int);
            lemma_count_in_buckets(data.data@, range, num_buckets as int, num_buckets as int);
        }
        ThermalDataHistogram { points }
    }
}

/// The pixels that the points of a histogram hold are the cells that fall in
/// its buckets, and their shares come to no more than the share of all of them.
proof fn lemma_totals(
    points: Seq<ThermalDataHistogramPoint>,
    cells: Seq<Temp>,
    range: TempRange,
    upto: int,
)
    requires
        0 <= upto <= points.len(),
        ThermalDataHistogram::describes(points, cells, range),
    ensures
        total_count(points, upto) == count_in_buckets(cells, range, points.len() as int, upto),
        total_count(points, upto) <= cells.len(),
        0 <= total_factor(points, upto) <= share(total_count(points, upto), cells.len() as int),
        total_factor(points, upto) <= FACTOR_ONE,
        cells.len() > 0 && total_factor(points, upto) == FACTOR_ONE ==> total_count(points, upto)
            == cells.len(),
    decreases upto,
{
    let n = points.len() as int;
    lemma_total_count(points, cells, range, upto);
    lemma_sum_of_counts(cells, range, n, upto);
    lemma_count_in_buckets(cells, range, n, upto);
    if upto > 0 {
        lemma_totals(points, cells, range, upto - 1);
        lemma_total_count(points, cells, range, upto - 1);
        lemma_share_of_sum(
            total_count(points, upto - 1),
            points[upto - 1].count as int,
            cells.len() as int,
        );
    }
    lemma_share_of_sum(total_count(points, upto), 0, cells.len() as int);
}

proof fn lemma_total_count(
    points: Seq<ThermalDataHistogramPoint>,
    cells: Seq<Temp>,
    range: TempRange,
    upto: int,
)
    requires
        0 <= upto <= points.len(),
        ThermalDataHistogram::describes(points, cells, range),
    ensures
        total_count(points, upto) == sum_of_counts(cells, range, points.len() as int, upto),
        total_count(points, upto) >= 0,
    decreases upto,
{
    if upto > 0 {
        lemma_total_count(points, cells, range, upto - 1);
    }
}

} // verus!
