use vstd::prelude::*;
use crate::grid::{rotate_cells, Grid};
use crate::types::image_rotation::ImageRotation;

verus! {

/// A colour of four channels, eight bits each.
#[derive(Clone, Copy, Debug, PartialEq, Eq, Hash, Structural)]
pub struct Rgba {
    pub r: u8,
    pub g: u8,
    pub b: u8,
    pub a: u8,
}

impl Rgba {
    /// The opaque colour of the three channels given.
    pub fn from_rgb(r: u8, g: u8, b: u8) -> (c: Rgba)
        ensures
            c == (Rgba { r, g, b, a: 255 }),
    {
        Rgba { r, g, b, a: 255 }
    }

    /// Opaque black.
    pub fn black() -> (c: Rgba)
        ensures
            c == (Rgba { r: 0, g: 0, b: 0, a: 255 }),
    {
        Rgba { r: 0, g: 0, b: 0, a: 255 }
    }

    /// Opaque white.
    pub fn white() -> (c: Rgba)
        ensures
            c == (Rgba { r: 255, g: 255, b: 255, a: 255 }),
    {
        Rgba { r: 255, g: 255, b: 255, a: 255 }
    }
}

/// A picture: `width * height` colours, row after row from the top left corner.
#[derive(Clone, Debug, PartialEq, Eq)]
pub struct ColorImage {
    pub width: usize,
    pub height: usize,
    pub pixels: Vec<Rgba>,
}

impl View for ColorImage {
    type V = Grid<Rgba>;

    open spec fn view(&self) -> Grid<Rgba> {
        Grid { width: self.width as nat, height: self.height as nat, cells: self.pixels@ }
    }
}

impl ColorImage {
    /// There is one colour for each pixel.
    pub open spec fn wf(&self) -> bool {
        self@.wf()
    }

    /// The bytes of the picture without the alpha channel: red, green and
    /// blue of each pixel, pixel after pixel.
    pub open spec fn spec_rgb_bytes(&self) -> Seq<u8> {
        Seq::new(
            3 * self.pixels@.len(),
            |i: int|
                if i % 3 == 0 {
                    self.pixels@[i / 3].r
                } else if i % 3 == 1 {
                    self.pixels@[i / 3].g
                } else {
                    self.pixels@[i / 3].b
                },
        )
    }

    /// The bytes of the picture without the alpha channel: red, green and
    /// blue of each pixel, pixel after pixel.
    pub fn rgb_bytes(&self) -> (bytes: Vec<u8>)
        ensures
            bytes@ == self.spec_rgb_bytes(),
    {
        let n: usize = self.pixels.len();
        let mut bytes: Vec<u8> = Vec::new();
        let mut i: usize = 0;
        while i < n
            invariant
                n == self.pixels@.len(),
                0 <= i <= n,
                bytes@.len() == 3 * i,
                forall|k: int| 0 <= k < 3 * i ==> (#[trigger] bytes@[k]) == self.spec_rgb_bytes()[k],
            decreases n - i,
        {
            let pixel = self.pixels[i];
            bytes.push(pixel.r);
            bytes.push(pixel.g);
            bytes.push(pixel.b);
            i += 1;
        }
        proof {
            assert(bytes@ =~= self.spec_rgb_bytes());
        }
        bytes
    }

    /// The picture turned clockwise by `rotation`.
    pub fn rotated(&self, rotation: ImageRotation) -> (r: ColorImage)
        requires
            self.wf(),
        ensures
            r.wf(),
            r@ == self@.rotated(rotation),
    {
        let pixels = rotate_cells(&self.pixels, self.width, self.height, rotation);
        proof {
            assert(self.width * self.height == self.height * self.width) by (nonlinear_arith);
        }
        match rotation {
            ImageRotation::Clockwise0 | ImageRotation::Clockwise180 => ColorImage {
                width: self.width,
                height: self.height,
                pixels,
            },
            ImageRotation::Clockwise90 | ImageRotation::Clockwise270 => ColorImage {
                width: self.height,
                height: self.width,
                pixels,
            },
        }
    }
}

} // verus!
