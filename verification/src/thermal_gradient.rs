use vstd::prelude::*;
use vstd::string::StringExecFns;
use crate::color_image::{ColorImage, Rgba};
use crate::fixed_point::{floor_div, lemma_div_monotonic, lemma_div_unique, FACTOR_ONE};

verus! {

/// A colour at a place on a colour ramp; the place is in millionths of the ramp.
#[derive(Clone, Copy, Debug, PartialEq, Eq, Hash, Structural)]
pub struct ThermalGradientPoint {
    pub color: Rgba,
    pub pos: i64,
}

impl ThermalGradientPoint {
    /// The opaque colour of the three channels given, at the place `pos`.
    pub fn from_rgbv(r: u8, g: u8, b: u8, pos: i64) -> (p: ThermalGradientPoint)
        ensures
            p.color == (Rgba { r, g, b, a: 255 }),
            p.pos == pos,
    {
        Self { color: Rgba::from_rgb(r, g, b), pos }
    }
}

/// `point` put into `sorted` behind the last point that lies no further up the ramp.
pub open spec fn inserted(sorted: Seq<ThermalGradientPoint>, point: ThermalGradientPoint) -> Seq<
    ThermalGradientPoint,
>
    decreases sorted.len(),
{
    if sorted.len() == 0 {
        seq![point]
    } else if sorted.last().pos <= point.pos {
        sorted.push(point)
    } else {
        inserted(sorted.drop_last(), point).push(sorted.last())
    }
}

/// The points in the order of their places; points at one place stay in
/// the order they came in.
pub open spec fn in_order(points: Seq<ThermalGradientPoint>) -> Seq<ThermalGradientPoint>
    decreases points.len(),
{
    if points.len() == 0 {
        Seq::empty()
    } else {
        inserted(in_order(points.drop_last()), points.last())
    }
}

/// No point lies before one that is further down the ramp.
pub open spec fn is_ascending(points: Seq<ThermalGradientPoint>) -> bool {
    forall|i: int, j: int| 0 <= i <= j < points.len() ==> points[i].pos <= points[j].pos
}

/// Putting a point into ascending points leaves them ascending, with one more.
pub proof fn lemma_inserted_ascending(sorted: Seq<ThermalGradientPoint>, point: ThermalGradientPoint)
    requires
        is_ascending(sorted),
    ensures
        is_ascending(inserted(sorted, point)),
        inserted(sorted, point).len() == sorted.len() + 1,
        forall|i: int|
            0 <= i < inserted(sorted, point).len() ==> (#[trigger] inserted(sorted, point)[i])
                == point || sorted.contains(inserted(sorted, point)[i]),
    decreases sorted.len(),
{
    let r = inserted(sorted, point);
    if sorted.len() == 0 {
    } else if sorted.last().pos <= point.pos {
        assert forall|i: int| 0 <= i < r.len() implies (#[trigger] r[i]) == point
            || sorted.contains(r[i]) by {
            if i < sorted.len() {
                assert(sorted[i] == r[i]);
            }
        }
    } else {
        let front = sorted.drop_last();
        lemma_inserted_ascending(front, point);
        let inner = inserted(front, point);
        assert forall|i: int, j: int| 0 <= i <= j < r.len() implies r[i].pos <= r[j].pos by {
            if j == r.len() - 1 && i < j {
                assert(inner[i] == point || front.contains(inner[i]));
                if front.contains(inner[i]) {
                    let k = choose|k: int| 0 <= k < front.len() && front[k] == inner[i];
                    assert(sorted[k] == inner[i]);
                }
            }
        }
        assert forall|i: int| 0 <= i < r.len() implies (#[trigger] r[i]) == point
            || sorted.contains(r[i]) by {
            if i < inner.len() {
                if inner[i] != point {
                    assert(front.contains(inner[i]));
                    let k = choose|k: int| 0 <= k < front.len() && front[k] == inner[i];
                    assert(sorted[k] == r[i]);
                }
            } else {
                assert(sorted[sorted.len() - 1] == r[i]);
            }
        }
    }
}

/// Points put in order are ascending, and as many as before.
pub proof fn lemma_in_order_ascending(points: Seq<ThermalGradientPoint>)
    ensures
        is_ascending(in_order(points)),
        in_order(points).len() == points.len(),
    decreases points.len(),
{
    if points.len() > 0 {
        lemma_in_order_ascending(points.drop_last());
        lemma_inserted_ascending(in_order(points.drop_last()), points.last());
    }
}

/// One channel of the colour `num` of `den` parts of the way from a colour
/// with `from` in that channel to one with `to`, rounded down.
pub open spec fn mixed_channel(from: u8, to: u8, num: int, den: int) -> u8 {
    ((from * (den - num) + to * num) / den) as u8
}

/// The colour `num` of `den` parts of the way from `from` to `to`; it lets
/// nothing shine through.
pub open spec fn mixed(from: Rgba, to: Rgba, num: int, den: int) -> Rgba {
    Rgba {
        r: mixed_channel(from.r, to.r, num, den),
        g: mixed_channel(from.g, to.g, num, den),
        b: mixed_channel(from.b, to.b, num, den),
        a: 255,
    }
}

/// The colour at `pos` between the points from `from` on: that of the
/// first stretch between two neighbours that `pos` lies in, mixed from the
/// colours at its ends by where `pos` lies in it; the colour of its lower end
/// where the stretch has no length; black where there is no such stretch.
pub open spec fn color_between(points: Seq<ThermalGradientPoint>, pos: int, from: int) -> Rgba
    decreases points.len() - from,
{
    if from < 0 || from + 1 >= points.len() {
        Rgba { r: 0, g: 0, b: 0, a: 255 }
    } else if points[from].pos <= pos <= points[from + 1].pos {
        if points[from].pos == points[from + 1].pos {
            points[from].color
        } else {
            mixed(
                points[from].color,
                points[from + 1].color,
                pos - points[from].pos,
                points[from + 1].pos - points[from].pos,
            )
        }
    } else {
        color_between(points, pos, from + 1)
    }
}

/// The colour of the ramp through `points` at `pos`: black for no points,
/// the colour of the only point, the colour of the first point below it and
/// of the last above it, and the colour between two neighbours otherwise.
pub open spec fn color_at(points: Seq<ThermalGradientPoint>, pos: int) -> Rgba {
    if points.len() == 0 {
        Rgba { r: 0, g: 0, b: 0, a: 255 }
    } else if points.len() == 1 {
        points[0].color
    } else if pos < points[0].pos {
        points[0].color
    } else if pos > points.last().pos {
        points.last().color
    } else {
        color_between(points, pos, 0)
    }
}

fn mix_channel(from: u8, to: u8, num: i128, den: i128) -> (c: u8)
    requires
        0 <= num <= den,
        0 < den <= 0xffff_ffff_ffff_ffff,
    ensures
        c == mixed_channel(from, to, num as int, den as int),
        0 <= (from * (den - num) + to * num) / (den as int) <= 255,
{
    let rest: i128 = den - num;
    proof {
        assert(0 <= from * rest <= 255 * rest) by (nonlinear_arith)
            requires
                0 <= from <= 255,
                0 <= rest,
        ;
        assert(0 <= to * num <= 255 * num) by (nonlinear_arith)
            requires
                0 <= to <= 255,
                0 <= num,
        ;
    }
    let sum: i128 = (from as i128) * rest + (to as i128) * num;
    proof {
        lemma_div_monotonic(0, sum as int, den as int);
        lemma_div_unique(0, den as int, 0);
        lemma_div_monotonic(sum as int, 255 * den, den as int);
        lemma_div_unique(255 * den, den as int, 255);
    }
    floor_div(sum, den) as u8
}

/// A ramp of colours, known by a number of its own.
#[derive(Clone, Debug, PartialEq, Eq, Hash)]
pub struct ThermalGradient {
    pub uuid: u128,
    pub name: String,
    pub points: Vec<ThermalGradientPoint>,
}

impl ThermalGradient {
    /// The ramp through `points`, which are put in the order of their places.
    pub fn new(uuid: u128, name: String, points: Vec<ThermalGradientPoint>) -> (g: ThermalGradient)
        ensures
            g.uuid == uuid,
            g.name == name,
            g.points@ == in_order(points@),
            is_ascending(g.points@),
    {
        let mut sorted: Vec<ThermalGradientPoint> = Vec::with_capacity(points.len());
        let mut i: usize = 0;
        while i < points.len()
            invariant
                0 <= i <= points@.len(),
                sorted@ == in_order(points@.take(i as int)),
            decreases points@.len() - i,
        {
            let point = points[i];
            let ghost before = sorted@;
            proof {
                assert(points@.take(i + 1).drop_last() =~= points@.take(i as int));
            }
            // Walk down from the end to the place of the point.
            let mut at: usize = sorted.len();
            proof {
                assert(before.take(at as int) =~= before);
                assert(inserted(before, point) + before.skip(at as int) =~= inserted(
                    before,
                    point,
                ));
            }
            while at > 0 && sorted[at - 1].pos > point.pos
                invariant
                    0 <= at <= sorted@.len(),
                    sorted@ == before,
                    inserted(before, point) == inserted(before.take(at as int), point) + before.skip(
                        at as int,
                    ),
                decreases at,
            {
                proof {
                    let head = before.take(at as int);
                    assert(head.drop_last() =~= before.take(at - 1));
                    assert(inserted(head, point) == inserted(head.drop_last(), point).push(
                        head.last(),
                    ));
                    assert(inserted(head.drop_last(), point).push(head.last()) + before.skip(
                        at as int,
                    ) =~= inserted(before.take(at - 1), point) + before.skip(at - 1));
                }
                at -= 1;
            }
            proof {
                let head = before.take(at as int);
                if at > 0 {
                    assert(head.last() == before[at - 1]);
                }
                assert(inserted(head, point) == head.push(point));
                assert(before.take(at as int) + before.skip(at as int) =~= before) by {
                    assert(before.take(at as int).len() == at);
                }
            }
            sorted.insert(at, point);
            proof {
                assert(sorted@ =~= before.take(at as int).push(point) + before.skip(at as int));
            }
            i += 1;
        }
        proof {
            assert(points@.take(points@.len() as int) =~= points@);
            lemma_in_order_ascending(points@);
        }
        ThermalGradient { uuid, name, points: sorted }
    }

    /// The colour of the ramp at `pos` millionths of its length.
    pub fn get_color(&self, pos: i64) -> (c: Rgba)
        ensures
            c == color_at(self.points@, pos as int),
    {
        let n: usize = self.points.len();
        if n == 0 {
            return Rgba::from_rgb(0, 0, 0);
        }
        if n == 1 {
            return self.points[0].color;
        }
        if pos < self.points[0].pos {
            return self.points[0].color;
        }
        if pos > self.points[n - 1].pos {
            return self.points[n - 1].color;
        }
        let mut i: usize = 0;
        while i < n - 1
            invariant
                n == self.points@.len(),
                n >= 2,
                0 <= i <= n - 1,
                color_at(self.points@, pos as int) == color_between(
                    self.points@,
                    pos as int,
                    i as int,
                ),
            decreases n - i,
        {
            let lower = self.points[i];
            let upper = self.points[i + 1];
            if pos >= lower.pos && pos <= upper.pos {
                if lower.pos == upper.pos {
                    return lower.color;
                }
                let num: i128 = pos as i128 - lower.pos as i128;
                let den: i128 = upper.pos as i128 - lower.pos as i128;
                return Rgba {
                    r: mix_channel(lower.color.r, upper.color.r, num, den),
                    g: mix_channel(lower.color.g, upper.color.g, num, den),
                    b: mix_channel(lower.color.b, upper.color.b, num, den),
                    a: 255,
                };
            }
            i += 1;
        }
        Rgba::from_rgb(0, 0, 0)
    }

    /// A picture of the ramp: its colours from left to right, the same in every row.
    pub fn create_demo_image(&self, width: usize, height: usize) -> (img: ColorImage)
        requires
            width * height <= usize::MAX,
        ensures
            img.wf(),
            img.width == width,
            img.height == height,
            forall|i: int|
                0 <= i < width * height ==> (#[trigger] img.pixels@[i]) == color_at(
                    self.points@,
                    ((i % (width as int)) * (FACTOR_ONE as int)) / (width as int),
                ),
    {
        let n: usize = width * height;
        let mut pixels: Vec<Rgba> = Vec::with_capacity(n);
        let mut i: usize = 0;
        while i < n
            invariant
                n == width * height,
                0 <= i <= n,
                pixels@.len() == i,
                forall|k: int|
                    0 <= k < i ==> (#[trigger] pixels@[k]) == color_at(
                        self.points@,
                        ((k % (width as int)) * (FACTOR_ONE as int)) / (width as int),
                    ),
            decreases n - i,
        {
            proof {
                assert(width > 0) by (nonlinear_arith)
                    requires
                        i < width * height,
                        0 <= width,
                        0 <= height,
                        0 <= i,
                ;
            }
            let x: usize = i % width;
            let num: i128 = (x as i128) * 1_000_000;
            proof {
                lemma_div_monotonic(0, num as int, width as int);
                lemma_div_unique(0, width as int, 0);
                lemma_div_monotonic(num as int, width * 1_000_000, width as int);
                lemma_div_unique(width * 1_000_000, width as int, 1_000_000);
            }
            let pos: i64 = floor_div(num, width as i128) as i64;
            pixels.push(self.get_color(pos));
            i += 1;
        }
        ColorImage { width, height, pixels }
    }
}

/// The ramps that come with the library: from cold to warm colours, from
/// black to white, and from white to black.
pub fn thermal_gradients() -> (gradients: Vec<ThermalGradient>)
    ensures
        gradients@.len() == 3,
        forall|i: int| 0 <= i < 3 ==> is_ascending((#[trigger] gradients@[i]).points@),
        gradients@[0].uuid == 0x1d6233d0_7f8e_47c1_b092_0831cf587610u128,
        gradients@[1].uuid == 0x6f2e8a5a_f38c_4347_9c23_2d9f2e7a4aaeu128,
        gradients@[2].uuid == 0x07943b0b_0e36_463c_8895_5befe69c69d9u128,
        gradients@[0].points@.len() == 9,
        gradients@[1].points@.len() == 2,
        gradients@[2].points@.len() == 2,
{
    let cold_warm: Vec<ThermalGradientPoint> = vec![
        ThermalGradientPoint::from_rgbv(0, 0, 0, 0),
        ThermalGradientPoint::from_rgbv(0, 0, 255, 111_111),
        ThermalGradientPoint::from_rgbv(0, 255, 255, 222_222),
        ThermalGradientPoint::from_rgbv(0, 255, 0, 333_333),
        ThermalGradientPoint::from_rgbv(255, 255, 0, 444_444),
        ThermalGradientPoint::from_rgbv(255, 128, 0, 555_555),
        ThermalGradientPoint::from_rgbv(255, 0, 0, 666_666),
        ThermalGradientPoint::from_rgbv(255, 0, 255, 777_777),
        ThermalGradientPoint::from_rgbv(255, 255, 255, 888_888),
    ];
    let black_white: Vec<ThermalGradientPoint> = vec![
        ThermalGradientPoint::from_rgbv(0, 0, 0, 0),
        ThermalGradientPoint::from_rgbv(255, 255, 255, 1_000_000),
    ];
    let white_black: Vec<ThermalGradientPoint> = vec![
        ThermalGradientPoint::from_rgbv(255, 255, 255, 0),
        ThermalGradientPoint::from_rgbv(0, 0, 0, 1_000_000),
    ];
    proof {
        lemma_in_order_ascending(cold_warm@);
        lemma_in_order_ascending(black_white@);
        lemma_in_order_ascending(white_black@);
    }
    let mut gradients: Vec<ThermalGradient> = Vec::new();
    gradients.push(
        ThermalGradient::new(
            0x1d6233d0_7f8e_47c1_b092_0831cf587610,
            String::from_str("Cold-warm"),
            cold_warm,
        ),
    );
    gradients.push(
        ThermalGradient::new(
            0x6f2e8a5a_f38c_4347_9c23_2d9f2e7a4aae,
            String::from_str("Black to white"),
            black_white,
        ),
    );
    gradients.push(
        ThermalGradient::new(
            0x07943b0b_0e36_463c_8895_5befe69c69d9,
            String::from_str("White to black"),
            white_black,
        ),
    );
    gradients
}

} // verus!
