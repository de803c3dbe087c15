use vstd::prelude::*;
use crate::fixed_point::{clamped, floor_div, FACTOR_ONE};

verus! {

/// A point that a curve runs through, at `x` and `y` millionths: a sharp
/// point is a corner of the curve, a smooth one is passed in a bend.
#[derive(Clone, Copy, Debug, PartialEq, Eq, Structural)]
pub enum CurvePoint {
    Sharp(i64, i64),
    Smooth(i64, i64),
}

impl Default for CurvePoint {
    fn default() -> (p: CurvePoint)
        ensures
            p == CurvePoint::Sharp(0, 0),
    {
        CurvePoint::Sharp(0, 0)
    }
}

impl CurvePoint {
    /// How far to the right the point lies, in millionths.
    pub open spec fn spec_x(self) -> int {
        match self {
            CurvePoint::Sharp(x, _) => x as int,
            CurvePoint::Smooth(x, _) => x as int,
        }
    }

    /// How far up the point lies, in millionths.
    pub open spec fn spec_y(self) -> int {
        match self {
            CurvePoint::Sharp(_, y) => y as int,
            CurvePoint::Smooth(_, y) => y as int,
        }
    }

    /// Both coordinates lie from 0 to 1.
    pub open spec fn in_unit_square(self) -> bool {
        0 <= self.spec_x() <= FACTOR_ONE && 0 <= self.spec_y() <= FACTOR_ONE
    }

    /// How far to the right the point lies, in millionths.
    pub fn x(&self) -> (x: i64)
        ensures
            x == self.spec_x(),
    {
        match self {
            CurvePoint::Sharp(x, _) => *x,
            CurvePoint::Smooth(x, _) => *x,
        }
    }

    /// How far up the point lies, in millionths.
    pub fn y(&self) -> (y: i64)
        ensures
            y == self.spec_y(),
    {
        match self {
            CurvePoint::Sharp(_, y) => *y,
            CurvePoint::Smooth(_, y) => *y,
        }
    }

    /// Where the point lies: to the right and up, in millionths.
    pub fn pos(&self) -> (p: (i64, i64))
        ensures
            p.0 == self.spec_x(),
            p.1 == self.spec_y(),
    {
        (self.x(), self.y())
    }

    /// Moves the point to `pos`; it stays sharp or smooth as it was.
    pub fn set_pos(&mut self, pos: (i64, i64))
        ensures
            final(self).spec_x() == pos.0,
            final(self).spec_y() == pos.1,
            (*final(self) is Sharp) == (*old(self) is Sharp),
    {
        let moved = match *self {
            CurvePoint::Sharp(_, _) => CurvePoint::Sharp(pos.0, pos.1),
            CurvePoint::Smooth(_, _) => CurvePoint::Smooth(pos.0, pos.1),
        };
        *self = moved;
    }

    /// A smooth point at the place of this one.
    pub fn to_smooth(&self) -> (p: CurvePoint)
        ensures
            p == CurvePoint::Smooth(self.spec_x() as i64, self.spec_y() as i64),
    {
        CurvePoint::Smooth(self.x(), self.y())
    }

    /// A sharp point at the place of this one.
    pub fn to_sharp(&self) -> (p: CurvePoint)
        ensures
            p == CurvePoint::Sharp(self.spec_x() as i64, self.spec_y() as i64),
    {
        CurvePoint::Sharp(self.x(), self.y())
    }
}

/// A third of what a line that rises by `rise` over `run` rises over `dx`, rounded down.
pub open spec fn third_of_rise(rise: int, run: int, dx: int) -> int {
    (rise * dx) / (3 * run)
}

/// The heights of the two inner control points of the stretch of a curve
/// from `from` to `to`. With no neighbour to go by, they lie on the straight
/// line at one and two thirds; a neighbour `before` gives the first the slope
/// from that neighbour to `to`, a neighbour `after` gives the second the slope
/// from `from` to that neighbour, and with one neighbour only the other
/// control point lies half way between the first and the far end. With both
/// neighbours the first control point takes the slope towards `after` and the
/// second the slope from `before`.
pub open spec fn inner_heights(
    before: Option<CurvePoint>,
    from: CurvePoint,
    to: CurvePoint,
    after: Option<CurvePoint>,
) -> (int, int) {
    let y0 = from.spec_y();
    let y3 = to.spec_y();
    let dx = to.spec_x() - from.spec_x();
    let dy = y3 - y0;
    match (before, after) {
        (None, None) => (y0 + dy / 3, y0 + (dy * 2) / 3),
        (Some(prev), None) => {
            let y1 = y0 + third_of_rise(y3 - prev.spec_y(), to.spec_x() - prev.spec_x(), dx);
            (y1, y3 + (y1 - y3) / 2)
        },
        (None, Some(next)) => {
            let y2 = y3 - third_of_rise(next.spec_y() - y0, next.spec_x() - from.spec_x(), dx);
            (y0 + (y2 - y0) / 2, y2)
        },
        (Some(prev), Some(next)) => (
            y0 + third_of_rise(next.spec_y() - y0, next.spec_x() - from.spec_x(), dx),
            y3 - third_of_rise(y3 - prev.spec_y(), to.spec_x() - prev.spec_x(), dx),
        ),
    }
}

/// The height of the cubic Bezier curve with the control heights `y0` to
/// `y3`, `u` of `dx` parts of the way along, rounded down.
pub open spec fn bezier(y0: int, y1: int, y2: int, y3: int, u: int, dx: int) -> int {
    let v = dx - u;
    (y0 * (v * v * v) + 3 * y1 * (v * v * u) + 3 * y2 * (v * u * u) + y3 * (u * u * u)) / (dx * dx
        * dx)
}

/// The neighbour before stretch `i` that shapes it: the point before its
/// lower end, where there is one and the lower end is smooth.
pub open spec fn shaping_before(points: Seq<CurvePoint>, i: int) -> Option<CurvePoint> {
    if i > 0 && points[i] is Smooth {
        Some(points[i - 1])
    } else {
        None
    }
}

/// The neighbour after stretch `i` that shapes it: the point after its
/// upper end, where there is one and the upper end is smooth.
pub open spec fn shaping_after(points: Seq<CurvePoint>, i: int) -> Option<CurvePoint> {
    if i + 2 < points.len() && points[i + 1] is Smooth {
        Some(points[i + 2])
    } else {
        None
    }
}

/// The height of the curve at `x` in stretch `i`, which `x` lies in: that of
/// the lower end where the stretch has no length, else that of the Bezier
/// curve through the stretch, held within 0 and 1.
pub open spec fn stretch_value(points: Seq<CurvePoint>, i: int, x: int) -> int {
    let from = points[i];
    let to = points[i + 1];
    let dx = to.spec_x() - from.spec_x();
    if dx <= 0 {
        from.spec_y()
    } else {
        let (y1, y2) = inner_heights(shaping_before(points, i), from, to, shaping_after(points, i));
        clamped(bezier(from.spec_y(), y1, y2, to.spec_y(), x - from.spec_x(), dx), 0, FACTOR_ONE as int)
    }
}

/// The height of the curve at `x`, looked for in the stretches from
/// `start` on: that in the first stretch that `x` lies in; where it lies in
/// none, the height of the first point for an `x` before it and that of the
/// last point otherwise.
pub open spec fn value_from(points: Seq<CurvePoint>, x: int, start: int) -> int
    decreases points.len() - start,
{
    if start < 0 || start + 1 >= points.len() {
        if x < points[0].spec_x() {
            points[0].spec_y()
        } else {
            points.last().spec_y()
        }
    } else if points[start].spec_x() <= x <= points[start + 1].spec_x() {
        stretch_value(points, start, x)
    } else {
        value_from(points, x, start + 1)
    }
}

/// The height of the curve through `points` at `x`; a curve without points
/// leaves `x` as it is.
pub open spec fn curve_value(points: Seq<CurvePoint>, x: int) -> int {
    if points.len() == 0 {
        x
    } else {
        value_from(points, x, 0)
    }
}

/// Where a point at `x` goes into `points`, looked for from `start` on:
/// behind the lower end of the first stretch that `x` lies in, and at the end
/// where it lies in none.
pub open spec fn insert_index(points: Seq<CurvePoint>, x: int, start: int) -> int
    decreases points.len() - start,
{
    if start < 0 || start + 1 >= points.len() {
        points.len() as int
    } else if points[start].spec_x() <= x <= points[start + 1].spec_x() {
        start + 1
    } else {
        insert_index(points, x, start + 1)
    }
}

/// The point `p` made like the ends of the stretch that it goes into, where
/// it goes into one: sharp between two sharp points, smooth otherwise.
pub open spec fn like_neighbours(points: Seq<CurvePoint>, p: CurvePoint, index: int) -> CurvePoint {
    if 0 < index < points.len() {
        if points[index - 1] is Sharp && points[index] is Sharp {
            CurvePoint::Sharp(p.spec_x() as i64, p.spec_y() as i64)
        } else {
            CurvePoint::Smooth(p.spec_x() as i64, p.spec_y() as i64)
        }
    } else {
        p
    }
}

/// The product of two numbers of at most 62 bits.
fn times(a: i128, b: i128) -> (p: i128)
    requires
        -0x4000_0000_0000_0000 <= a <= 0x4000_0000_0000_0000,
        -0x4000_0000_0000_0000 <= b <= 0x4000_0000_0000_0000,
    ensures
        p == a * b,
        -0x1000_0000_0000_0000_0000_0000_0000_0000 <= p <= 0x1000_0000_0000_0000_0000_0000_0000_0000,
{
    proof {
        assert(-0x1000_0000_0000_0000_0000_0000_0000_0000 <= a * b
            <= 0x1000_0000_0000_0000_0000_0000_0000_0000) by (nonlinear_arith)
            requires
                -0x4000_0000_0000_0000 <= a <= 0x4000_0000_0000_0000,
                -0x4000_0000_0000_0000 <= b <= 0x4000_0000_0000_0000,
        ;
    }
    a * b
}

/// The product of two numbers that are not negative, with a bound for each.
fn times_within(a: i128, b: i128, la: i128, lb: i128) -> (p: i128)
    requires
        0 <= a <= la <= 0x4000_0000,
        0 <= b <= lb <= 0x4000_0000_0000_0000,
    ensures
        p == a * b,
        0 <= p <= la * lb,
{
    proof {
        assert(0 <= a * b <= la * lb) by (nonlinear_arith)
            requires
                0 <= a <= la,
                0 <= b <= lb,
        ;
        assert(la * lb <= 0x4000_0000 * 0x4000_0000_0000_0000) by (nonlinear_arith)
            requires
                0 <= la <= 0x4000_0000,
                0 <= lb <= 0x4000_0000_0000_0000,
        ;
    }
    a * b
}

fn third_rise(rise: i128, run: i128, dx: i128) -> (r: i128)
    requires
        -1_000_000 <= rise <= 1_000_000,
        0 < dx <= run <= 1_000_000,
    ensures
        r == third_of_rise(rise as int, run as int, dx as int),
        -1_000_000 <= r <= 1_000_000,
{
    let num: i128 = times(rise, dx);
    proof {
        assert(-1_000_000 * run <= rise * dx <= 1_000_000 * run) by (nonlinear_arith)
            requires
                -1_000_000 <= rise <= 1_000_000,
                0 < dx <= run,
        ;
        crate::fixed_point::lemma_div_monotonic(num as int, 1_000_000 * run, 3 * run);
        crate::fixed_point::lemma_div_monotonic(-1_000_000 * run, num as int, 3 * run);
        crate::fixed_point::lemma_div_monotonic(1_000_000 * run, 3 * run * 1_000_000, 3 * run);
        crate::fixed_point::lemma_div_monotonic(3 * run * (-1_000_000), -1_000_000 * run, 3 * run);
        crate::fixed_point::lemma_div_unique(3 * run * 1_000_000, 3 * run, 1_000_000);
        crate::fixed_point::lemma_div_unique(3 * run * (-1_000_000), 3 * run, -1_000_000);
    }
    floor_div(num, 3 * run)
}

/// A curve that says how far up the colour ramp each place of the
/// displayed range lies, both in millionths.
#[derive(Clone, Debug, PartialEq, Eq)]
pub struct DynamicRangeCurve {
    pub points: Vec<CurvePoint>,
}

impl Default for DynamicRangeCurve {
    /// The curve that leaves every place where it is.
    fn default() -> (c: DynamicRangeCurve)
        ensures
            c.points@ == seq![CurvePoint::Smooth(0, 0), CurvePoint::Smooth(1_000_000, 1_000_000)],
            c.wf(),
    {
        let c = Self { points: vec![CurvePoint::Smooth(0, 0), CurvePoint::Smooth(1_000_000, 1_000_000)] };
        assert(c.points@[0].in_unit_square());
        assert(c.points@[1].in_unit_square());
        c
    }
}

impl DynamicRangeCurve {
    /// Every point lies in the unit square, and none lies left of the one before it.
    pub open spec fn wf(&self) -> bool {
        &&& forall|i: int| 0 <= i < self.points@.len() ==> (#[trigger] self.points@[i]).in_unit_square()
        &&& forall|i: int, j: int|
            0 <= i <= j < self.points@.len() ==> self.points@[i].spec_x() <= self.points@[j].spec_x()
    }

    /// Whether every point lies in the unit square and none lies left of
    /// the one before it.
    pub fn is_valid(&self) -> (b: bool)
        ensures
            b == self.wf(),
    {
        let n: usize = self.points.len();
        let mut i: usize = 0;
        while i < n
            invariant
                n == self.points@.len(),
                0 <= i <= n,
                forall|k: int| 0 <= k < i ==> (#[trigger] self.points@[k]).in_unit_square(),
                forall|k: int, l: int|
                    0 <= k <= l < i ==> self.points@[k].spec_x() <= self.points@[l].spec_x(),
            decreases n - i,
        {
            let p = self.points[i];
            if p.x() < 0 || p.x() > FACTOR_ONE || p.y() < 0 || p.y() > FACTOR_ONE {
                return false;
            }
            if i > 0 && self.points[i - 1].x() > p.x() {
                proof {
                    assert(!(self.points@[i - 1].spec_x() <= self.points@[i as int].spec_x()));
                }
                return false;
            }
            proof {
                assert forall|k: int, l: int| 0 <= k <= l < i + 1 implies self.points@[k].spec_x()
                    <= self.points@[l].spec_x() by {
                    if l == i && k < i {
                        assert(self.points@[k].spec_x() <= self.points@[i - 1].spec_x());
                    }
                }
            }
            i += 1;
        }
        true
    }

    /// Whether this is the curve that leaves every place where it is.
    pub fn is_default(&self) -> (b: bool)
        ensures
            b == (self.points@ == seq![
                CurvePoint::Smooth(0, 0),
                CurvePoint::Smooth(1_000_000, 1_000_000),
            ]),
    {
        let b = self.points.len() == 2 && self.points[0] == CurvePoint::Smooth(0, 0)
            && self.points[1] == CurvePoint::Smooth(1_000_000, 1_000_000);
        proof {
            let d = seq![CurvePoint::Smooth(0, 0), CurvePoint::Smooth(1_000_000, 1_000_000)];
            if b {
                assert(self.points@ =~= d);
            } else if self.points@ == d {
                assert(d[0] == CurvePoint::Smooth(0, 0));
                assert(d[1] == CurvePoint::Smooth(1_000_000, 1_000_000));
            }
        }
        b
    }

    /// The height of the curve at `x` in stretch `i`.
    fn value_in_stretch(&self, i: usize, x: i64) -> (y: i64)
        requires
            self.wf(),
            i + 1 < self.points@.len(),
            self.points@[i as int].spec_x() <= x <= self.points@[i + 1].spec_x(),
        ensures
            y == stretch_value(self.points@, i as int, x as int),
    {
        let n: usize = self.points.len();
        let from = self.points[i];
        let to = self.points[i + 1];
        proof {
            assert(from.in_unit_square() && to.in_unit_square());
        }
        let x0: i128 = from.x() as i128;
        let y0: i128 = from.y() as i128;
        let x3: i128 = to.x() as i128;
        let y3: i128 = to.y() as i128;
        let dx: i128 = x3 - x0;
        let dy: i128 = y3 - y0;
        if dx <= 0 {
            return from.y();
        }
        let before: Option<CurvePoint> = match from {
            CurvePoint::Smooth(_, _) => if i > 0 {
                Some(self.points[i - 1])
            } else {
                None
            },
            CurvePoint::Sharp(_, _) => None,
        };
        let after: Option<CurvePoint> = match to {
            CurvePoint::Smooth(_, _) => if i + 2 < n {
                Some(self.points[i + 2])
            } else {
                None
            },
            CurvePoint::Sharp(_, _) => None,
        };
        proof {
            assert(before == shaping_before(self.points@, i as int));
            assert(after == shaping_after(self.points@, i as int));
            if i > 0 {
                assert(self.points@[i - 1].in_unit_square());
                assert(self.points@[i - 1].spec_x() <= self.points@[i as int].spec_x());
            }
            if i + 2 < n {
                assert(self.points@[i + 2].in_unit_square());
                assert(self.points@[i + 1].spec_x() <= self.points@[i + 2].spec_x());
            }
        }
        let (y1, y2): (i128, i128) = match (before, after) {
            (None, None) => (y0 + floor_div(dy, 3), y0 + floor_div(dy * 2, 3)),
            (Some(prev), None) => {
                let y1: i128 = y0 + third_rise(y3 - prev.y() as i128, x3 - prev.x() as i128, dx);
                (y1, y3 + floor_div(y1 - y3, 2))
            },
            (None, Some(next)) => {
                let y2: i128 = y3 - third_rise(next.y() as i128 - y0, next.x() as i128 - x0, dx);
                (y0 + floor_div(y2 - y0, 2), y2)
            },
            (Some(prev), Some(next)) => (
                y0 + third_rise(next.y() as i128 - y0, next.x() as i128 - x0, dx),
                y3 - third_rise(y3 - prev.y() as i128, x3 - prev.x() as i128, dx),
            ),
        };
        assert((y1 as int, y2 as int) == inner_heights(before, from, to, after));
        assert(-4_000_000 <= y1 <= 4_000_000 && -4_000_000 <= y2 <= 4_000_000);
        let u: i128 = x as i128 - x0;
        let v: i128 = dx - u;
        let vv: i128 = times_within(v, v, 1_000_000, 1_000_000);
        let uu: i128 = times_within(u, u, 1_000_000, 1_000_000);
        let vvv: i128 = times_within(v, vv, 1_000_000, 1_000_000_000_000);
        let vvu: i128 = times_within(u, vv, 1_000_000, 1_000_000_000_000);
        let vuu: i128 = times_within(v, uu, 1_000_000, 1_000_000_000_000);
        let uuu: i128 = times_within(u, uu, 1_000_000, 1_000_000_000_000);
        let dd: i128 = times_within(dx, dx, 1_000_000, 1_000_000);
        let ddd: i128 = times_within(dx, dd, 1_000_000, 1_000_000_000_000);
        proof {
            assert(v * v * v == v * (v * v)) by (nonlinear_arith);
            assert(v * v * u == u * (v * v)) by (nonlinear_arith);
            assert(v * u * u == v * (u * u)) by (nonlinear_arith);
            assert(u * u * u == u * (u * u)) by (nonlinear_arith);
            assert(dx * dx * dx == dx * (dx * dx)) by (nonlinear_arith);
            assert(ddd > 0) by (nonlinear_arith)
                requires
                    dx > 0,
                    ddd == dx * (dx * dx),
            ;
        }
        let sum: i128 = times(y0, vvv) + times(3 * y1, vvu) + times(3 * y2, vuu) + times(y3, uuu);
        let value: i128 = floor_div(sum, ddd);
        assert(value == bezier(y0 as int, y1 as int, y2 as int, y3 as int, u as int, dx as int));
        if value < 0 {
            0
        } else if value > 1_000_000 {
            FACTOR_ONE
        } else {
            value as i64
        }
    }

    /// The height of the curve at `x`.
    pub fn get_value(&self, x: i64) -> (y: i64)
        requires
            self.wf(),
        ensures
            y == curve_value(self.points@, x as int),
    {
        let n: usize = self.points.len();
        if n == 0 {
            return x;
        }
        let mut i: usize = 0;
        while i + 1 < n
            invariant
                self.wf(),
                n == self.points@.len(),
                n > 0,
                0 <= i < n,
                curve_value(self.points@, x as int) == value_from(self.points@, x as int, i as int),
            decreases n - i,
        {
            if self.points[i].x() <= x && x <= self.points[i + 1].x() {
                return self.value_in_stretch(i, x);
            }
            i += 1;
        }
        if x < self.points[0].x() {
            self.points[0].y()
        } else {
            self.points[n - 1].y()
        }
    }

    /// Puts a point into the curve, in the first stretch that its `x` lies in
    /// or, where it lies in none, at the end, and returns its place. With
    /// `convert_to_neighbors`, a point that goes into a stretch is made sharp
    /// or smooth like the ends of the stretch.
    pub fn insert_point_at(&mut self, p: CurvePoint, convert_to_neighbors: bool) -> (index: usize)
        requires
            old(self).points@.len() < usize::MAX,
        ensures
            index == insert_index(old(self).points@, p.spec_x(), 0),
            final(self).points@ == old(self).points@.insert(
                index as int,
                if convert_to_neighbors {
                    like_neighbours(old(self).points@, p, index as int)
                } else {
                    p
                },
            ),
    {
        let n: usize = self.points.len();
        let mut i: usize = 0;
        while i + 1 < n
            invariant
                n == self.points@.len(),
                n < usize::MAX,
                self.points@ == old(self).points@,
                0 <= i <= n,
                insert_index(self.points@, p.spec_x(), 0) == insert_index(
                    self.points@,
                    p.spec_x(),
                    i as int,
                ),
            decreases n - i,
        {
            let prev = self.points[i];
            let upper = self.points[i + 1];
            if prev.x() <= p.x() && p.x() <= upper.x() {
                let placed: CurvePoint = if convert_to_neighbors {
                    match (prev, upper) {
                        (CurvePoint::Sharp(_, _), CurvePoint::Sharp(_, _)) => p.to_sharp(),
                        _ => p.to_smooth(),
                    }
                } else {
                    p
                };
                self.points.insert(i + 1, placed);
                return i + 1;
            }
            i += 1;
        }
        self.points.push(p);
        proof {
            assert(self.points@ =~= old(self).points@.insert(n as int, p));
        }
        n
    }
}

} // verus!
