//! Images in memory: pixels of any kind, row by row, and the blocks of
//! 4×4 pixels that they are cut into.

use vstd::prelude::*;

use crate::layout::blocks;

verus! {

/// A color of four channels of 8 bits.
#[derive(Debug, Clone, Copy, PartialEq, Eq, Structural)]
pub struct Rgba8 {
    pub r: u8,
    pub g: u8,
    pub b: u8,
    pub a: u8,
}

/// An index into `len` pixels, held to the last of them.
pub open spec fn clamp_index(i: nat, len: nat) -> nat {
    if i < len {
        i
    } else {
        (len - 1) as nat
    }
}

/// Pixel `t` of the block in column `bx` and row `by` of blocks: the pixel
/// of the image at that place, or where the block reaches over the edge of
/// the image, the nearest pixel of the image in its row and column.
pub open spec fn tile_pixel<P>(data: Seq<P>, width: nat, height: nat, bx: nat, by: nat, t: nat) -> P {
    data[(clamp_index(by * 4 + t / 4, height) * width + clamp_index(bx * 4 + t % 4, width)) as int]
}

/// The 16 pixels of the block in column `bx` and row `by` of blocks, row by
/// row.
pub open spec fn tile<P>(data: Seq<P>, width: nat, height: nat, bx: nat, by: nat) -> Seq<P> {
    Seq::new(16, |t: int| tile_pixel(data, width, height, bx, by, t as nat))
}

/// An image of pixels of any kind, row by row without gaps.
pub struct PixelGrid<'a, P> {
    data: &'a [P],
    width: usize,
    height: usize,
}

impl<'a, P> PixelGrid<'a, P> {
    /// What holds of every grid: it has a pixel for each place.
    #[verifier::type_invariant]
    pub closed spec fn inv(self) -> bool {
        self.data@.len() == self.width * self.height && self.width * self.height <= usize::MAX
    }

    /// The pixels, row by row.
    pub closed spec fn pixels(self) -> Seq<P> {
        self.data@
    }

    pub closed spec fn spec_width(self) -> nat {
        self.width as nat
    }

    pub closed spec fn spec_height(self) -> nat {
        self.height as nat
    }

    /// Every grid has a pixel for each place.
    pub proof fn lemma_valid(self)
        requires
            self.inv(),
        ensures
            self.pixels().len() == self.spec_width() * self.spec_height(),
            self.pixels().len() <= usize::MAX,
    {
    }

    /// A grid over `data`, or `None` where `data` does not hold
    /// `width * height` pixels.
    pub fn new(data: &'a [P], width: usize, height: usize) -> (r: Option<Self>)
        ensures
            match r {
                Some(g) => g.pixels() == data@ && g.spec_width() == width && g.spec_height()
                    == height && data@.len() == width * height,
                None => data@.len() != width * height,
            },
    {
        assert(width * height <= 0xFFFF_FFFF_FFFF_FFFF * 0xFFFF_FFFF_FFFF_FFFF) by (nonlinear_arith)
            requires
                width <= 0xFFFF_FFFF_FFFF_FFFF,
                height <= 0xFFFF_FFFF_FFFF_FFFF,
        ;
        if (width as u128) * (height as u128) == data.len() as u128 {
            Some(PixelGrid { data, width, height })
        } else {
            None
        }
    }

    pub fn width(&self) -> (r: usize)
        ensures
            r == self.spec_width(),
    {
        self.width
    }

    pub fn height(&self) -> (r: usize)
        ensures
            r == self.spec_height(),
    {
        self.height
    }

    /// The number of pixels.
    pub fn len(&self) -> (r: usize)
        ensures
            r == self.pixels().len(),
    {
        self.data.len()
    }

    /// The tiles of the grid in the order of the blocks of a surface: row
    /// by row of blocks, and within a row from left to right.
    pub open spec fn tiles(self) -> Seq<Seq<P>> {
        let across = blocks(self.spec_width(), 4);
        Seq::new(
            across * blocks(self.spec_height(), 4),
            |k: int|
                tile(
                    self.pixels(),
                    self.spec_width(),
                    self.spec_height(),
                    (k % (across as int)) as nat,
                    (k / (across as int)) as nat,
                ),
        )
    }

}

impl<'a, P: Copy> PixelGrid<'a, P> {
    /// Pixel `j` in the order of rows.
    pub fn pixel(&self, j: usize) -> (p: P)
        requires
            j < self.pixels().len(),
        ensures
            p == self.pixels()[j as int],
    {
        self.data[j]
    }

    /// Gathers the 16 pixels of the block in column `bx` and row `by` of
    /// blocks.
    pub fn gather_block(&self, bx: usize, by: usize) -> (block: [P; 16])
        requires
            bx < blocks(self.spec_width(), 4),
            by < blocks(self.spec_height(), 4),
        ensures
            block@ == tile(
                self.pixels(),
                self.spec_width(),
                self.spec_height(),
                bx as nat,
                by as nat,
            ),
    {
        proof {
            use_type_invariant(self);
        }
        let width = self.width;
        let height = self.height;
        let x0: usize = bx * 4;
        let y0: usize = by * 4;
        let len: usize = self.data.len();
        assert(x0 < width && y0 < height);
        assert(0 <= y0 * width <= y0 * width + x0 < width * height) by (nonlinear_arith)
            requires
                0 <= x0 < width,
                0 <= y0 < height,
        ;
        let mut block: [P; 16] = [self.data[y0 * width + x0];16];
        let mut t: usize = 0;
        while t < 16
            invariant
                t <= 16,
                width == self.width,
                height == self.height,
                self.data@.len() == width * height,
                len == width * height,
                x0 == bx * 4,
                y0 == by * 4,
                x0 < width,
                y0 < height,
                forall|s: int|
                    0 <= s < t ==> block@[s] == tile_pixel(
                        self.pixels(),
                        width as nat,
                        height as nat,
                        bx as nat,
                        by as nat,
                        s as nat,
                    ),
            decreases 16 - t,
        {
            let i: usize = t / 4;
            let j: usize = t % 4;
            let y: usize = if height - y0 > i {
                y0 + i
            } else {
                height - 1
            };
            let x: usize = if width - x0 > j {
                x0 + j
            } else {
                width - 1
            };
            assert(0 <= y * width <= y * width + x < width * height) by (nonlinear_arith)
                requires
                    0 <= x < width,
                    0 <= y < height,
            ;
            block[t] = self.data[y * width + x];
            t = t + 1;
        }
        assert(block@ =~= tile(
            self.pixels(),
            self.spec_width(),
            self.spec_height(),
            bx as nat,
            by as nat,
        ));
        block
    }
}

} // verus!
