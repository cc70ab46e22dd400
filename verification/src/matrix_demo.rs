//! The matrix smoke test: a red square in the top-left corner of a black
//! panel, whose side toggles between 8 and 16 pixels on a timer.
use vstd::prelude::*;

use crate::pixels::{LedPixel, MatrixRgb};

verus! {

/// Plugin that draws the toggling square straight to the panel.
///
/// A name only, with no behaviour of its own: the engine-side type of the
/// same name, built from this one, holds the engine wiring.
pub struct MatrixDemoPlugin;

/// Side of the square after a timer tick: 8 becomes 16, anything else 8.
pub open spec fn toggled_size(size: i32) -> i32 {
    if size == 8 {
        16
    } else {
        8
    }
}

/// The `k`-th pixel set when drawing a square of side `size`: columns outer,
/// rows inner.
pub open spec fn square_pixel(size: int, k: int) -> LedPixel {
    LedPixel { x: (k / size) as i32, y: (k % size) as i32, color: MatrixRgb { r: 255, g: 0, b: 0 } }
}

/// The pixels set to red when drawing a square of side `size`.
pub open spec fn square_plan(size: i32) -> Seq<LedPixel> {
    if size <= 0 {
        Seq::empty()
    } else {
        Seq::new((size * size) as nat, |k: int| square_pixel(size as int, k))
    }
}

/// The frame of the square demo: the colour the canvas is cleared to, then
/// the pixels set on top of it.
#[derive(Debug, PartialEq, Eq)]
pub struct SquareFrame {
    pub background: MatrixRgb,
    pub pixels: Vec<LedPixel>,
}

/// State of the square demo: the current side of the square.
#[derive(Clone, Copy, Debug, PartialEq, Eq, Structural)]
pub struct SquareDemo {
    pub square_size: i32,
}

impl SquareDemo {
    /// The demo starts with an 8x8 square.
    pub fn new() -> (demo: SquareDemo)
        ensures
            demo.square_size == 8,
    {
        SquareDemo { square_size: 8 }
    }

    /// Called once per update with whether the toggle timer has just
    /// finished; on a tick the side toggles between 8 and 16.
    pub fn on_timer(&mut self, just_finished: bool)
        ensures
            final(self).square_size == if just_finished {
                toggled_size(old(self).square_size)
            } else {
                old(self).square_size
            },
    {
        if just_finished {
            self.square_size = if self.square_size == 8 { 16 } else { 8 };
        }
    }

    /// The frame to draw: a black canvas with a red square of the current
    /// side in the top-left corner.
    pub fn frame(&self) -> (frame: SquareFrame)
        ensures
            frame.background == (MatrixRgb { r: 0, g: 0, b: 0 }),
            frame.pixels@ == square_plan(self.square_size),
    {
        let size = self.square_size;
        let red = MatrixRgb { r: 255, g: 0, b: 0 };
        let mut pixels: Vec<LedPixel> = Vec::new();
        let mut x: i32 = 0;
        while x < size
            invariant
                red == (MatrixRgb { r: 255, g: 0, b: 0 }),
                0 <= x,
                x <= size || size <= 0,
                size > 0 ==> pixels@ =~= Seq::new((x * size) as nat, |k: int| square_pixel(size as int, k)),
                size <= 0 ==> pixels@.len() == 0,
            decreases size - x,
        {
            let mut y: i32 = 0;
            let ghost start = pixels@;
            while y < size
                invariant
                    red == (MatrixRgb { r: 255, g: 0, b: 0 }),
                    0 <= x < size,
                    0 <= y <= size,
                    start =~= Seq::new((x * size) as nat, |k: int| square_pixel(size as int, k)),
                    pixels@ =~= Seq::new((x * size + y) as nat, |k: int| square_pixel(size as int, k)),
                decreases size - y,
            {
                proof {
                    vstd::arithmetic::div_mod::lemma_fundamental_div_mod_converse(
                        x * size + y,
                        size as int,
                        x as int,
                        y as int,
                    );
                    assert(x * size + y >= 0) by (nonlinear_arith)
                        requires
                            x >= 0,
                            y >= 0,
                            size > 0,
                    ;
                    let k: int = x * size + y;
                    assert(square_pixel(size as int, k) == LedPixel { x, y, color: red });
                }
                pixels.push(LedPixel { x, y, color: red });
                y += 1;
            }
            assert(x * size + size == (x + 1) * size) by (nonlinear_arith);
            x += 1;
        }
        proof {
            if size > 0 {
                assert(x == size);
            } else {
                assert(pixels@ =~= Seq::<LedPixel>::empty());
            }
        }
        SquareFrame { background: MatrixRgb { r: 0, g: 0, b: 0 }, pixels }
    }
}

/// The square side only ever takes the two values 8 and 16, and two timer
/// ticks bring it back to where it was.
pub proof fn lemma_square_toggles(size: i32)
    requires
        size == 8 || size == 16,
    ensures
        toggled_size(size) == 8 || toggled_size(size) == 16,
        toggled_size(size) != size,
        toggled_size(toggled_size(size)) == size,
{
}

/// The square frame sets nothing when the side is not positive.  For a side
/// `size > 0` it sets exactly `size * size` pixels, every one of them red
/// (255, 0, 0) and inside the square `0 <= x, y < size`, and every pixel
/// `(x, y)` of the square is set, at entry `x * size + y`.
pub proof fn lemma_square_frame(size: i32, k: int, x: int, y: int)
    ensures
        size <= 0 ==> square_plan(size).len() == 0,
        size > 0 ==> square_plan(size).len() == size * size,
        size > 0 && 0 <= k < size * size ==> ({
            let p = square_plan(size)[k];
            &&& p.color == (MatrixRgb { r: 255, g: 0, b: 0 })
            &&& 0 <= p.x < size
            &&& 0 <= p.y < size
        }),
        size > 0 && 0 <= x < size && 0 <= y < size ==> square_plan(size)[x * size + y] == (LedPixel {
            x: x as i32,
            y: y as i32,
            color: MatrixRgb { r: 255, g: 0, b: 0 },
        }),
{
    if size > 0 {
        let s = size as int;
        if 0 <= k < s * s {
            vstd::arithmetic::div_mod::lemma_fundamental_div_mod(k, s);
            let q = k / s;
            let r = k % s;
            assert(0 <= r < s);
            assert(0 <= q < s) by (nonlinear_arith)
                requires
                    k == s * q + r,
                    0 <= r < s,
                    0 <= k < s * s,
            ;
        }
        if 0 <= x < s && 0 <= y < s {
            assert(0 <= x * s + y < s * s) by (nonlinear_arith)
                requires
                    0 <= x < s,
                    0 <= y < s,
            ;
            vstd::arithmetic::div_mod::lemma_fundamental_div_mod_converse(x * s + y, s, x, y);
        }
    }
}

} // verus!
