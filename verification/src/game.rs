//! The headless game: a 3D scene rendered offscreen, read back and drawn
//! to the panel, but only when the frame differs from the one on show.
use vstd::prelude::*;

verus! {

/// Plugin that renders the scene to the panel in headless mode.
///
/// A name only, with no behaviour of its own: the engine-side type of the
/// same name, built from this one, holds the engine wiring.
pub struct MatrixRenderPlugin;

/// Plugin that shows the scene in a 64x64 window.
///
/// A name only, with no behaviour of its own: the engine-side type of the
/// same name, built from this one, holds the engine wiring.
pub struct RenderDemoPlugin;

/// The frame currently on the panel.
pub struct DisplayedFrame {
    frame: Vec<u8>,
}

impl View for DisplayedFrame {
    type V = Seq<u8>;

    closed spec fn view(&self) -> Seq<u8> {
        self.frame@
    }
}

impl DisplayedFrame {
    /// Nothing shown yet: the empty frame.
    pub fn new() -> (shown: DisplayedFrame)
        ensures
            shown@ == Seq::<u8>::empty(),
    {
        DisplayedFrame { frame: Vec::new() }
    }

    /// Whether `image` has to be drawn: it differs from the frame on show.
    pub fn needs_redraw(&self, image: &Vec<u8>) -> (redraw: bool)
        ensures
            redraw == (self@ != image@),
    {
        let same = self.frame == *image;
        proof {
            if same {
                assert(self.frame@ =~= image@);
            }
        }
        !same
    }

    /// Records `image` as the frame on show.
    pub fn mark_displayed(&mut self, image: Vec<u8>)
        ensures
            final(self)@ == image@,
    {
        self.frame = image;
    }
}

/// Whether the `counter`-th received frame gets a log line in builds
/// without the panel: every thirtieth, starting with the first.
pub fn should_log_frame(counter: u32) -> (log: bool)
    ensures
        log == (counter % 30 == 1),
{
    counter % 30 == 1
}

/// A frame that has just been put on show is not drawn again, while any
/// frame that differs from it is.
pub proof fn lemma_redraw_only_changed(shown: DisplayedFrame, image: Seq<u8>, next: Seq<u8>)
    requires
        shown@ == image,
    ensures
        !(shown@ != image),
        next != image ==> shown@ != next,
{
}

} // verus!
