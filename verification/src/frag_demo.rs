//! The fragment-shader demo: a full-screen shader rendered offscreen, read
//! back, held in a stable frame buffer and drawn to the panel through the
//! ordered dither.
use vstd::prelude::*;

use crate::pixels::{dithered_led_pixels, dithered_plan, rgba_color, LedPixel, MatrixRgb};
use crate::settings::FRAME_BYTES;

verus! {

/// Plugin that renders the shader to the panel in headless mode.
///
/// A name only, with no behaviour of its own: the engine-side type of the
/// same name, built from this one, holds the engine wiring.
pub struct MatrixRenderPlugin;

/// Plugin that sets up the full-screen shader quad and its camera.
///
/// A name only, with no behaviour of its own: the engine-side type of the
/// same name, built from this one, holds the engine wiring.
pub struct FragShaderPlugin;

/// Stable copy of the latest 64x64 RGBA frame; the panel is drawn from it.
pub struct FrameBuffer {
    data: Vec<u8>,
}

impl View for FrameBuffer {
    type V = Seq<u8>;

    closed spec fn view(&self) -> Seq<u8> {
        self.data@
    }
}

impl FrameBuffer {
    #[verifier::type_invariant]
    closed spec fn holds_one_frame(self) -> bool {
        self.data@.len() == FRAME_BYTES
    }

    /// A black 64x64 RGBA frame.
    pub fn new() -> (fb: FrameBuffer)
        ensures
            fb@ == Seq::new(FRAME_BYTES as nat, |i: int| 0u8),
    {
        let data = vec![0u8; FRAME_BYTES];
        assert(data@ =~= Seq::new(FRAME_BYTES as nat, |i: int| 0u8));
        FrameBuffer { data }
    }

    /// The bytes of the frame held.
    pub fn data(&self) -> (bytes: &[u8])
        ensures
            bytes@ == self@,
            bytes@.len() == FRAME_BYTES,
    {
        proof {
            use_type_invariant(self);
        }
        self.data.as_slice()
    }

    /// Copies a whole unpadded 64x64 frame into the buffer.
    pub fn copy_frame(&mut self, image: &[u8])
        requires
            image@.len() == FRAME_BYTES,
        ensures
            final(self)@ == image@,
    {
        let mut data = vec![0u8; FRAME_BYTES];
        let mut i: usize = 0;
        while i < FRAME_BYTES
            invariant
                image@.len() == FRAME_BYTES,
                data@.len() == FRAME_BYTES,
                i <= FRAME_BYTES,
                forall|j: int| 0 <= j < i ==> data@[j] == image@[j],
            decreases FRAME_BYTES - i,
        {
            data.set(i, image[i]);
            i += 1;
        }
        assert(data@ =~= image@);
        self.data = data;
    }

    /// The pixels to draw: every pixel of the 64x64 grid in row-major order,
    /// each channel dithered at the pixel's position.
    pub fn led_pixels(&self) -> (pixels: Vec<LedPixel>)
        ensures
            pixels@ == dithered_plan(self@, 64, 64),
    {
        dithered_led_pixels(self.data.as_slice(), 64, 64)
    }

    /// Colour of the centre pixel `(32, 32)`, reported in the debug log.
    pub fn center_pixel(&self) -> (color: MatrixRgb)
        ensures
            color == rgba_color(self@, 32 * 64 + 32),
            color == (MatrixRgb {
                r: self@[(32 * 64 + 32) * 4 as int],
                g: self@[(32 * 64 + 32) * 4 + 1 as int],
                b: self@[(32 * 64 + 32) * 4 + 2 as int],
            }),
    {
        proof {
            use_type_invariant(self);
        }
        let width: usize = 64;
        let height: usize = 64;
        let center = (height / 2 * width + width / 2) * 4;
        MatrixRgb { r: self.data[center], g: self.data[center + 1], b: self.data[center + 2] }
    }
}

/// Whether frame number `frame_num` (counted from zero) gets a log line:
/// the first ten frames, then every three hundredth.
pub fn should_log_frame(frame_num: u32) -> (log: bool)
    ensures
        log == (frame_num < 10 || frame_num % 300 == 0),
{
    frame_num < 10 || frame_num % 300 == 0
}

} // verus!
