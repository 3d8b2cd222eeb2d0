//! The canonical glyph pixel grid: a fixed 5x7 matrix of binary pixels.

use vstd::prelude::*;

verus! {

/// Number of pixel columns in a glyph.
pub const GRID_WIDTH: usize = 5;

/// Number of pixel rows in a glyph.
pub const GRID_HEIGHT: usize = 7;

/// One pixel of the glyph: on or off. No other states exist.
#[derive(Clone, Copy, PartialEq, Eq, Structural, Debug)]
pub enum Pixel {
    Lit,
    Unlit,
}

/// The opposite pixel value.
pub open spec fn flipped(p: Pixel) -> Pixel {
    match p {
        Pixel::Lit => Pixel::Unlit,
        Pixel::Unlit => Pixel::Lit,
    }
}

/// A well-formed grid view: exactly `GRID_HEIGHT` rows of `GRID_WIDTH` pixels.
pub open spec fn grid_wf(v: Seq<Seq<Pixel>>) -> bool {
    &&& v.len() == GRID_HEIGHT
    &&& forall|y: int| 0 <= y < v.len() ==> (#[trigger] v[y]).len() == GRID_WIDTH
}

/// The 5x7 binary pixel matrix. Row 0 is the visual top row; within a row,
/// index 0 is the leftmost pixel.
pub struct PixelGrid {
    rows: Vec<Vec<Pixel>>,
}

impl View for PixelGrid {
    type V = Seq<Seq<Pixel>>;

    closed spec fn view(&self) -> Seq<Seq<Pixel>> {
        Seq::new(self.rows@.len(), |y: int| self.rows@[y]@)
    }
}

impl PixelGrid {
    /// Every coordinate pair holds exactly one defined pixel value.
    pub open spec fn wf(&self) -> bool {
        grid_wf(self@)
    }

    /// A fresh grid: all pixels default to `Unlit`.
    pub fn new() -> (g: PixelGrid)
        ensures
            g.wf(),
            forall|x: int, y: int|
                0 <= x < GRID_WIDTH && 0 <= y < GRID_HEIGHT ==> #[trigger] g@[y][x] == Pixel::Unlit,
    {
        let mut rows: Vec<Vec<Pixel>> = Vec::new();
        let mut y: usize = 0;
        while y < GRID_HEIGHT
            invariant
                y <= GRID_HEIGHT,
                rows@.len() == y,
                forall|j: int|
                    0 <= j < y ==> (#[trigger] rows@[j])@ =~= Seq::new(
                        GRID_WIDTH as nat,
                        |i: int| Pixel::Unlit,
                    ),
            decreases GRID_HEIGHT - y,
        {
            let mut row: Vec<Pixel> = Vec::new();
            let mut x: usize = 0;
            while x < GRID_WIDTH
                invariant
                    x <= GRID_WIDTH,
                    row@.len() == x,
                    forall|i: int| 0 <= i < x ==> #[trigger] row@[i] == Pixel::Unlit,
                decreases GRID_WIDTH - x,
            {
                row.push(Pixel::Unlit);
                x = x + 1;
            }
            assert(row@ =~= Seq::new(GRID_WIDTH as nat, |i: int| Pixel::Unlit));
            rows.push(row);
            y = y + 1;
        }
        PixelGrid { rows }
    }

    /// Read the pixel at column `x`, row `y`.
    pub fn get(&self, x: usize, y: usize) -> (p: Pixel)
        requires
            self.wf(),
            x < GRID_WIDTH,
            y < GRID_HEIGHT,
        ensures
            p == self@[y as int][x as int],
    {
        self.rows[y][x]
    }

    /// Overwrite the pixel at column `x`, row `y`; every other pixel is kept.
    pub fn set(&mut self, x: usize, y: usize, p: Pixel)
        requires
            old(self).wf(),
            x < GRID_WIDTH,
            y < GRID_HEIGHT,
        ensures
            final(self).wf(),
            final(self)@ == old(self)@.update(y as int, old(self)@[y as int].update(x as int, p)),
    {
        proof {
            assert(self@[y as int] == self.rows@[y as int]@);
        }
        self.rows[y][x] = p;
        proof {
            assert(self@ =~= old(self)@.update(
                y as int,
                old(self)@[y as int].update(x as int, p),
            ));
        }
    }
}

} // verus!
