//! The display backend abstraction: a 64x64 RGB24 frame is written either
//! to a window (which the engine draws itself) or to the LED panel.
use vstd::prelude::*;

use crate::pixels::{LedPixel, MatrixRgb};

verus! {

/// Why a display backend could not be opened or written.
#[derive(Debug)]
pub enum DisplayError {
    /// The LED matrix driver refused, with its message.
    Matrix(String),
}

/// A target that frames of packed RGB24 pixels are written to.
pub trait DisplayBackend {
    /// Opens the backend.
    fn new() -> Result<Self, DisplayError> where Self: Sized;

    /// Width of the display in pixels.
    fn width(&self) -> u32;

    /// Height of the display in pixels.
    fn height(&self) -> u32;

    /// Writes one frame of packed RGB24 pixels, row-major.
    fn write_frame(&mut self, pixels: &[u8]) -> Result<(), DisplayError>;
}

/// The backend in use, as an engine resource.
pub struct DisplayResource(pub Box<dyn DisplayBackend>);

/// Backend for windowed runs: the engine draws the window itself, so a
/// written frame is accepted and dropped.
pub struct WindowBackend {
    width: u32,
    height: u32,
}

impl WindowBackend {
    #[verifier::type_invariant]
    closed spec fn is_panel_sized(self) -> bool {
        self.width == 64 && self.height == 64
    }
}

impl DisplayBackend for WindowBackend {
    fn new() -> (backend: Result<WindowBackend, DisplayError>)
        ensures
            backend is Ok,
    {
        Ok(WindowBackend { width: 64, height: 64 })
    }

    fn width(&self) -> (w: u32)
        ensures
            w == 64,
    {
        proof {
            use_type_invariant(self);
        }
        self.width
    }

    fn height(&self) -> (h: u32)
        ensures
            h == 64,
    {
        proof {
            use_type_invariant(self);
        }
        self.height
    }

    fn write_frame(&mut self, _pixels: &[u8]) -> (r: Result<(), DisplayError>)
        ensures
            r is Ok,
    {
        Ok(())
    }
}

/// Pixel `k`, row-major, of a packed RGB24 64x64 frame.
pub open spec fn rgb24_pixel(data: Seq<u8>, k: int) -> LedPixel {
    LedPixel {
        x: (k % 64) as i32,
        y: (k / 64) as i32,
        color: MatrixRgb { r: data[3 * k], g: data[3 * k + 1], b: data[3 * k + 2] },
    }
}

/// The pixels written to the panel for a packed RGB24 frame: all 64x64 of
/// them, row-major, pixel `(x, y)` from the bytes at `(y * 64 + x) * 3`.
pub fn rgb24_led_pixels(pixels: &[u8]) -> (plan: Vec<LedPixel>)
    requires
        pixels@.len() >= 64 * 64 * 3,
    ensures
        plan@ == Seq::new(64 * 64, |k: int| rgb24_pixel(pixels@, k)),
{
    let mut plan: Vec<LedPixel> = Vec::new();
    let mut y: i32 = 0;
    while y < 64
        invariant
            0 <= y <= 64,
            pixels@.len() >= 64 * 64 * 3,
            plan@ =~= Seq::new((y * 64) as nat, |k: int| rgb24_pixel(pixels@, k)),
        decreases 64 - y,
    {
        let mut x: i32 = 0;
        while x < 64
            invariant
                0 <= y < 64,
                0 <= x <= 64,
                pixels@.len() >= 64 * 64 * 3,
                plan@ =~= Seq::new((y * 64 + x) as nat, |k: int| rgb24_pixel(pixels@, k)),
            decreases 64 - x,
        {
            let idx = ((y * 64 + x) * 3) as usize;
            let color = MatrixRgb { r: pixels[idx], g: pixels[idx + 1], b: pixels[idx + 2] };
            proof {
                vstd::arithmetic::div_mod::lemma_fundamental_div_mod_converse(
                    y * 64 + x,
                    64,
                    y as int,
                    x as int,
                );
            }
            plan.push(LedPixel { x, y, color });
            x += 1;
        }
        y += 1;
    }
    plan
}

/// The panel plan of a packed RGB24 64x64 frame lists pixel `(x, y)` at
/// position `y * 64 + x`, coloured by the three bytes that start at
/// `(y * 64 + x) * 3`: red, then green, then blue.
pub proof fn lemma_rgb24_pixel_at(pixels: Seq<u8>, x: int, y: int)
    requires
        0 <= x < 64,
        0 <= y < 64,
        pixels.len() >= 64 * 64 * 3,
    ensures
        ({
            let plan = Seq::new(64 * 64, |k: int| rgb24_pixel(pixels, k));
            &&& 0 <= y * 64 + x < plan.len()
            &&& plan[y * 64 + x].x == x
            &&& plan[y * 64 + x].y == y
            &&& plan[y * 64 + x].color.r == pixels[(y * 64 + x) * 3]
            &&& plan[y * 64 + x].color.g == pixels[(y * 64 + x) * 3 + 1]
            &&& plan[y * 64 + x].color.b == pixels[(y * 64 + x) * 3 + 2]
        }),
{
    vstd::arithmetic::div_mod::lemma_fundamental_div_mod_converse(y * 64 + x, 64, y, x);
}

} // verus!
