//! Data shared with the panel library's C interface for bulk pixel upload.
use vstd::prelude::*;

verus! {

/// One RGB colour with three 8-bit channels, laid out as the panel
/// library's C `struct Color`.
#[derive(Clone, Copy, Debug, PartialEq, Eq, Structural)]
pub struct MatrixRgb {
    pub r: u8,
    pub g: u8,
    pub b: u8,
}

impl Default for MatrixRgb {
    /// Black.
    fn default() -> (c: MatrixRgb)
        ensures
            c == (MatrixRgb { r: 0, g: 0, b: 0 }),
    {
        MatrixRgb { r: 0, g: 0, b: 0 }
    }
}

/// `width * height` computed on the values converted to `usize`, saturating
/// at `usize::MAX` instead of overflowing.
pub open spec fn pixels_needed_spec(width: i32, height: i32) -> nat {
    let product = (width as usize) as nat * (height as usize) as nat;
    if product <= usize::MAX {
        product
    } else {
        usize::MAX as nat
    }
}

/// Number of colours a bulk upload of a `width` x `height` rectangle reads:
/// the product of the two sides converted to `usize`, saturating.
pub fn pixels_needed(width: i32, height: i32) -> (need: usize)
    ensures
        need == pixels_needed_spec(width, height),
{
    let w = width as usize;
    let h = height as usize;
    match w.checked_mul(h) {
        Some(product) => product,
        None => usize::MAX,
    }
}

/// For sides that are not negative, the count is the area of the rectangle,
/// or `usize::MAX` when the area does not fit in a `usize`.
pub proof fn lemma_pixels_needed_is_area(width: i32, height: i32)
    requires
        width >= 0,
        height >= 0,
    ensures
        pixels_needed_spec(width, height) == if width * height <= usize::MAX {
            (width * height) as nat
        } else {
            usize::MAX as nat
        },
{
}

/// Whether `colors_len` colours are enough for a bulk upload of a
/// `width` x `height` rectangle.
pub fn has_enough_colors(colors_len: usize, width: i32, height: i32) -> (enough: bool)
    ensures
        enough == (colors_len >= pixels_needed_spec(width, height)),
{
    colors_len >= pixels_needed(width, height)
}

} // verus!
