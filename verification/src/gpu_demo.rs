//! The GPU-render demo and its shared cube scene: a rotating cube rendered
//! offscreen, read back, held in a stable frame buffer and drawn to the
//! panel without dithering.
use vstd::prelude::*;

use crate::pixels::{rgba_led_pixels, rgba_plan, LedPixel};

verus! {

/// Plugin that renders the cube scene offscreen and shows it on the panel.
///
/// A name only, with no behaviour of its own: the engine-side type of the
/// same name, built from this one, holds the engine wiring.
pub struct GpuRenderPlugin;

/// Marker of the cube that the demo rotates.
///
/// A name only, with no behaviour of its own: the engine-side type of the
/// same name, built from this one, holds the engine wiring.
pub struct RotatingCube;

/// Plugin that sets up the shared cube scene.
///
/// A name only, with no behaviour of its own: the engine-side type of the
/// same name, built from this one, holds the engine wiring.
pub struct ScenePlugin;

/// Material that shades a mesh by its texture coordinates.
///
/// A name only, with no behaviour of its own: the engine-side type of the
/// same name, built from this one, holds the engine wiring.
pub struct UvMaterial {}

/// Plugin that registers `UvMaterial` and its shader.
///
/// A name only, with no behaviour of its own: the engine-side type of the
/// same name, built from this one, holds the engine wiring.
pub struct UvMaterialPlugin;

/// Stable copy of the latest frame: the panel is drawn from this buffer, so
/// every pixel of one refresh comes from the same frame.
pub struct FrameBuffer {
    /// RGBA bytes, row-major, four per pixel.
    pub data: Vec<u8>,
    pub width: usize,
    pub height: usize,
}

impl FrameBuffer {
    /// A black `width` x `height` RGBA buffer.
    pub fn new(width: usize, height: usize) -> (fb: FrameBuffer)
        requires
            width * height * 4 <= usize::MAX,
        ensures
            fb.width == width,
            fb.height == height,
            fb.data@ == Seq::new((width * height * 4) as nat, |i: int| 0u8),
    {
        let size = width * height * 4;
        let data = vec![0u8; size];
        assert(data@ =~= Seq::new((width * height * 4) as nat, |i: int| 0u8));
        FrameBuffer { data, width, height }
    }

    /// Copies a whole unpadded frame into the buffer.
    pub fn copy_frame(&mut self, image: &[u8])
        requires
            image@.len() == old(self).data@.len(),
        ensures
            final(self).data@ == image@,
            final(self).width == old(self).width,
            final(self).height == old(self).height,
    {
        let n = image.len();
        let mut i: usize = 0;
        while i < n
            invariant
                n == image@.len(),
                self.data@.len() == n,
                i <= n,
                forall|j: int| 0 <= j < i ==> self.data@[j] == image@[j],
                self.width == old(self).width,
                self.height == old(self).height,
            decreases n - i,
        {
            self.data.set(i, image[i]);
            i += 1;
        }
        assert(self.data@ =~= image@);
    }

    /// The pixels to draw from the buffer: every pixel of the grid, in
    /// row-major order, coloured from its RGBA bytes.
    pub fn led_pixels(&self) -> (pixels: Vec<LedPixel>)
        requires
            self.width * self.height * 4 <= usize::MAX,
        ensures
            pixels@ == rgba_plan(self.data@, self.width as nat, self.height as nat),
    {
        rgba_led_pixels(self.data.as_slice(), self.width, self.height)
    }
}

/// Whether the `frame_count`-th received frame gets a timing log line:
/// the first ten frames, then every sixtieth.
pub fn should_log_frame(frame_count: u32) -> (log: bool)
    ensures
        log == (frame_count <= 10 || frame_count % 60 == 0),
{
    frame_count <= 10 || frame_count % 60 == 0
}

/// Drawing happens from the stable copy: after a frame is copied into the
/// buffer, the pixels drawn are exactly those of that frame.
pub proof fn lemma_draws_copied_frame(before: FrameBuffer, after: FrameBuffer, image: Seq<u8>)
    requires
        after.data@ == image,
        after.width == before.width,
        after.height == before.height,
    ensures
        rgba_plan(after.data@, after.width as nat, after.height as nat) == rgba_plan(
            image,
            before.width as nat,
            before.height as nat,
        ),
{
}

} // verus!
