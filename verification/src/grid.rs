use vstd::prelude::*;
use vstd::arithmetic::div_mod::{lemma_fundamental_div_mod, lemma_fundamental_div_mod_converse};
use crate::types::image_rotation::ImageRotation;

verus! {

/// What a grid of pixels is: its size and its cells, row after row.
pub struct Grid<T> {
    pub width: nat,
    pub height: nat,
    pub cells: Seq<T>,
}

impl<T> Grid<T> {
    /// There is one cell for each place.
    pub open spec fn wf(self) -> bool {
        self.cells.len() == self.width * self.height
    }

    /// The cell in column `x` of row `y`.
    pub open spec fn at(self, x: int, y: int) -> T {
        self.cells[y * self.width + x]
    }

    /// The grid turned clockwise by `rotation`: the cell in column `x` of row
    /// `y` comes to lie, for a quarter turn, in column `height - 1 - y` of row
    /// `x`; for a half turn, in column `width - 1 - x` of row
    /// `height - 1 - y`; for three quarter turns, in column `y` of row
    /// `width - 1 - x`.
    pub open spec fn rotated(self, rotation: ImageRotation) -> Grid<T> {
        match rotation {
            ImageRotation::Clockwise0 => self,
            ImageRotation::Clockwise90 => Grid {
                width: self.height,
                height: self.width,
                cells: Seq::new(
                    self.cells.len(),
                    |j: int|
                        self.at(j / (self.height as int), self.height - 1 - j % (self.height as int)),
                ),
            },
            ImageRotation::Clockwise180 => Grid {
                width: self.width,
                height: self.height,
                cells: Seq::new(self.cells.len(), |j: int| self.cells[self.cells.len() - 1 - j]),
            },
            ImageRotation::Clockwise270 => Grid {
                width: self.height,
                height: self.width,
                cells: Seq::new(
                    self.cells.len(),
                    |j: int|
                        self.at(self.width - 1 - j / (self.height as int), j % (self.height as int)),
                ),
            },
        }
    }
}

/// A cell index below `width * height` splits into a column and a row of the grid.
pub proof fn lemma_index_split(j: int, width: int, height: int)
    requires
        0 <= j < width * height,
        width >= 0,
        height >= 0,
    ensures
        width > 0,
        height > 0,
        0 <= j % width < width,
        0 <= j / width < height,
        (j / width) * width + j % width == j,
{
    assert(width > 0 && height > 0) by (nonlinear_arith)
        requires
            0 <= j < width * height,
            width >= 0,
            height >= 0,
    ;
    lemma_fundamental_div_mod(j, width);
    assert(j / width < height && j / width >= 0 && 0 <= j % width < width
        && (j / width) * width + j % width == j) by (nonlinear_arith)
        requires
            j == width * (j / width) + j % width,
            0 <= j < width * height,
            0 <= j % width < width,
            width > 0,
    ;
}

/// A column and a row of the grid join into a cell index below `width * height`
/// that splits into the same two.
pub proof fn lemma_index_join(x: int, y: int, width: int, height: int)
    requires
        0 <= x < width,
        0 <= y < height,
    ensures
        0 <= y * width + x < width * height,
        (y * width + x) % width == x,
        (y * width + x) / width == y,
{
    assert(0 <= y * width + x < width * height) by (nonlinear_arith)
        requires
            0 <= x < width,
            0 <= y < height,
    ;
    lemma_fundamental_div_mod_converse(y * width + x, width, y, x);
}

/// Where the cell in column `x` of row `y` of a grid `width` wide and
/// `height` high lies after the grid is turned clockwise by `rotation`.
pub open spec fn rotated_place(
    width: int,
    height: int,
    rotation: ImageRotation,
    x: int,
    y: int,
) -> (int, int) {
    match rotation {
        ImageRotation::Clockwise0 => (x, y),
        ImageRotation::Clockwise90 => (height - 1 - y, x),
        ImageRotation::Clockwise180 => (width - 1 - x, height - 1 - y),
        ImageRotation::Clockwise270 => (y, width - 1 - x),
    }
}

/// Turning a grid swaps its width and height for one and three quarter
/// turns, and moves each cell to its place in the turned grid.
pub proof fn lemma_rotated_cell<T>(g: Grid<T>, rotation: ImageRotation, x: int, y: int)
    requires
        g.wf(),
        0 <= x < g.width,
        0 <= y < g.height,
    ensures
        g.rotated(rotation).wf(),
        g.rotated(rotation).width == (if rotation.quarter_turns() % 2 == 0 {
            g.width
        } else {
            g.height
        }),
        g.rotated(rotation).height == (if rotation.quarter_turns() % 2 == 0 {
            g.height
        } else {
            g.width
        }),
        ({
            let (rx, ry) = rotated_place(g.width as int, g.height as int, rotation, x, y);
            &&& 0 <= rx < g.rotated(rotation).width
            &&& 0 <= ry < g.rotated(rotation).height
            &&& g.rotated(rotation).at(rx, ry) == g.at(x, y)
        }),
{
    let w = g.width as int;
    let h = g.height as int;
    assert(w * h == h * w) by (nonlinear_arith);
    lemma_index_join(x, y, w, h);
    match rotation {
        ImageRotation::Clockwise0 => {},
        ImageRotation::Clockwise90 => {
            lemma_index_join(h - 1 - y, x, h, w);
        },
        ImageRotation::Clockwise180 => {
            lemma_index_join(w - 1 - x, h - 1 - y, w, h);
            assert((h - 1 - y) * w + (w - 1 - x) == w * h - 1 - (y * w + x)) by (nonlinear_arith);
        },
        ImageRotation::Clockwise270 => {
            lemma_index_join(y, w - 1 - x, h, w);
        },
    }
}

/// Turning a grid and then turning it by what is left of a full turn gives
/// the grid back, and turning it by nothing leaves it as it is.
pub proof fn lemma_rotation_round_trip<T>(g: Grid<T>, rotation: ImageRotation)
    requires
        g.wf(),
    ensures
        g.rotated(rotation).rotated(rotation.spec_inverse()) == g,
        g.rotated(ImageRotation::Clockwise0) == g,
{
    let w = g.width as int;
    let h = g.height as int;
    let back = g.rotated(rotation).rotated(rotation.spec_inverse());
    assert(w * h == h * w) by (nonlinear_arith);
    assert forall|j: int| 0 <= j < g.cells.len() implies back.cells[j] == g.cells[j] by {
        lemma_index_split(j, w, h);
        let x = j % w;
        let y = j / w;
        match rotation {
            ImageRotation::Clockwise0 => {},
            ImageRotation::Clockwise90 => {
                lemma_index_join(h - 1 - y, x, h, w);
            },
            ImageRotation::Clockwise180 => {},
            ImageRotation::Clockwise270 => {
                lemma_index_join(y, w - 1 - x, h, w);
            },
        }
    }
    assert(back.cells =~= g.cells);
}

/// The cells of a grid of `width` columns and `height` rows, in the order
/// they have after the grid is turned clockwise by `rotation`.
pub fn rotate_cells<T: Copy>(cells: &Vec<T>, width: usize, height: usize, rotation: ImageRotation) -> (r:
    Vec<T>)
    requires
        cells@.len() == width * height,
    ensures
        r@ == (Grid { width: width as nat, height: height as nat, cells: cells@ }).rotated(
            rotation,
        ).cells,
{
    let n: usize = cells.len();
    let w: usize = width;
    let h: usize = height;
    let ghost grid = Grid { width: width as nat, height: height as nat, cells: cells@ };
    let ghost turned = grid.rotated(rotation);
    let mut data: Vec<T> = Vec::with_capacity(n);
    let mut j: usize = 0;
    while j < n
        invariant
            n == cells@.len(),
            n == w * h,
            grid == (Grid { width: w as nat, height: h as nat, cells: cells@ }),
            turned == grid.rotated(rotation),
            0 <= j <= n,
            data@.len() == j,
            forall|k: int| 0 <= k < j ==> data@[k] == turned.cells[k],
        decreases n - j,
    {
        proof {
            assert(w * h == h * w) by (nonlinear_arith);
            lemma_index_split(j as int, h as int, w as int);
        }
        let source: usize = match rotation {
            ImageRotation::Clockwise0 => j,
            ImageRotation::Clockwise90 => {
                proof {
                    lemma_index_join((j / h) as int, h - 1 - (j % h), w as int, h as int);
                    assert(0 <= (h - 1 - j % h) * w) by (nonlinear_arith)
                        requires
                            0 <= h - 1 - j % h,
                            0 <= w,
                    ;
                }
                (h - 1 - j % h) * w + j / h
            },
            ImageRotation::Clockwise180 => n - 1 - j,
            ImageRotation::Clockwise270 => {
                proof {
                    lemma_index_join(w - 1 - (j / h), (j % h) as int, w as int, h as int);
                    assert(0 <= (j % h) * w) by (nonlinear_arith)
                        requires
                            0 <= j % h,
                            0 <= w,
                    ;
                }
                (j % h) * w + (w - 1 - j / h)
            },
        };
        data.push(cells[source]);
        j += 1;
    }
    proof {
        assert(data@ =~= turned.cells);
    }
    data
}

} // verus!
