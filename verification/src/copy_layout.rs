//! Byte layout of the GPU-to-CPU frame copy.
//!
//! A texture-to-buffer copy must use rows whose byte length is a multiple of
//! the copy alignment, so the CPU buffer holds each image row padded up to
//! that length.  The copier (which sizes the buffer) and the copy driver
//! (which issues the copy) must agree on that padded row length.
use vstd::prelude::*;

verus! {

/// `row_bytes` rounded up to the next multiple of the copy alignment (256).
pub open spec fn aligned_row_bytes(row_bytes: nat) -> nat {
    ((row_bytes + 255) / 256) * 256
}

/// `RenderDevice::align_copy_bytes_per_row` of bevy_render: rounds
/// `row_bytes` up to the next multiple of `wgpu::COPY_BYTES_PER_ROW_ALIGNMENT`
/// (256), computed as `((row_bytes + 255) / 256) * 256`.  The sum overflows
/// for the last 255 values of `usize`, so those are left out.
#[verifier::external_body]
fn align_copy_bytes_per_row(row_bytes: usize) -> (aligned: usize)
    requires
        row_bytes + 255 <= usize::MAX,
    ensures
        aligned == aligned_row_bytes(row_bytes as nat),
{
    bevy::render::renderer::RenderDevice::align_copy_bytes_per_row(row_bytes)
}

/// Bytes per pixel of the render target (`Rgba8UnormSrgb`).
pub const BYTES_PER_PIXEL: usize = 4;

/// The padded row length and total size of the CPU buffer that receives a
/// `width` x `height` RGBA frame.
pub open spec fn copier_padded_row(width: nat) -> nat {
    aligned_row_bytes(width * 4)
}

/// The padded row length that the copy driver uses for a texture whose
/// format has blocks `block_width` texels wide and `block_size` bytes long.
pub open spec fn driver_row_pitch(width: nat, block_width: nat, block_size: nat) -> nat {
    aligned_row_bytes((width / block_width) * block_size)
}

/// Layout of the CPU-readable buffer that a frame is copied into.
#[derive(Clone, Copy, Debug, PartialEq, Eq, Structural)]
pub struct CopyLayout {
    /// Length in bytes of one row in the buffer, padding included.
    pub padded_bytes_per_row: usize,
    /// Size in bytes of the whole buffer.
    pub buffer_size: u64,
}

/// Length in bytes of one padded row of a `width`-pixel RGBA frame in the
/// copy buffer: `width * 4` rounded up to the copy alignment.
pub fn padded_bytes_per_row(width: u32) -> (padded: usize)
    requires
        width * 4 + 255 <= usize::MAX,
    ensures
        padded == copier_padded_row(width as nat),
{
    let unpadded_bytes_per_row = width as usize * BYTES_PER_PIXEL;
    align_copy_bytes_per_row(unpadded_bytes_per_row)
}

impl CopyLayout {
    /// Layout for a `width` x `height` RGBA render target: rows of
    /// `width * 4` bytes padded to the copy alignment, `height` of them.
    pub fn for_extent(width: u32, height: u32) -> (layout: CopyLayout)
        requires
            width * 4 + 255 <= usize::MAX,
            copier_padded_row(width as nat) * height <= u64::MAX,
        ensures
            layout.padded_bytes_per_row == copier_padded_row(width as nat),
            layout.buffer_size == copier_padded_row(width as nat) * height,
    {
        let padded_bytes_per_row = padded_bytes_per_row(width);
        CopyLayout {
            padded_bytes_per_row,
            buffer_size: padded_bytes_per_row as u64 * height as u64,
        }
    }
}

/// Row pitch, in bytes, of the texture-to-buffer copy for a texture `width`
/// texels wide whose format packs `block_width` texels into blocks of
/// `block_size` bytes.
pub fn texture_row_pitch(width: u32, block_width: u32, block_size: u32) -> (pitch: usize)
    requires
        block_width > 0,
        (width / block_width) * block_size + 255 <= usize::MAX,
    ensures
        pitch == driver_row_pitch(width as nat, block_width as nat, block_size as nat),
{
    let blocks = width as usize / block_width as usize;
    assert(blocks * block_size <= usize::MAX);
    align_copy_bytes_per_row(blocks * block_size as usize)
}

/// The aligned length is the least multiple of the copy alignment that is
/// at least `row_bytes`; aligning twice changes nothing.
pub proof fn lemma_aligned_row_bytes(row_bytes: nat)
    ensures
        aligned_row_bytes(row_bytes) % 256 == 0,
        row_bytes <= aligned_row_bytes(row_bytes) < row_bytes + 256,
        aligned_row_bytes(aligned_row_bytes(row_bytes)) == aligned_row_bytes(row_bytes),
        row_bytes % 256 == 0 ==> aligned_row_bytes(row_bytes) == row_bytes,
{
    let q = (row_bytes + 255) / 256;
    assert((q * 256) % 256 == 0) by (nonlinear_arith);
    assert(((q * 256 + 255) / 256) == q) by (nonlinear_arith);
}

/// The copy driver and the copier agree on the padded row length of an RGBA
/// texture (one texel per block, four bytes per block), so the driver fills
/// exactly the rows that the copier's buffer was sized for.
pub proof fn lemma_driver_matches_copier(width: nat)
    ensures
        driver_row_pitch(width, 1, 4) == copier_padded_row(width),
{
    assert(width / 1 == width);
}

/// A padded row of the copy buffer holds a whole RGBA row of `width` pixels
/// (four bytes each) and is the shortest multiple of 256 that does, so a
/// buffer of `height` padded rows holds the whole `width` x `height` frame.
pub proof fn lemma_copier_row_holds_frame_row(width: nat, height: nat)
    ensures
        copier_padded_row(width) >= width * 4,
        copier_padded_row(width) % 256 == 0,
        copier_padded_row(width) < width * 4 + 256,
        copier_padded_row(width) * height >= width * height * 4,
{
    lemma_aligned_row_bytes(width * 4);
    let p = copier_padded_row(width);
    assert(p * height >= width * 4 * height) by (nonlinear_arith)
        requires
            p >= width * 4,
    ;
    assert(width * 4 * height == width * height * 4) by (nonlinear_arith);
}

/// The copy driver's row pitch holds a whole texture row (`width / block_width`
/// blocks of `block_size` bytes) and is the shortest multiple of 256 that does.
pub proof fn lemma_driver_pitch_holds_texture_row(width: nat, block_width: nat, block_size: nat)
    requires
        block_width > 0,
    ensures
        driver_row_pitch(width, block_width, block_size) >= (width / block_width) * block_size,
        driver_row_pitch(width, block_width, block_size) % 256 == 0,
        driver_row_pitch(width, block_width, block_size) < (width / block_width) * block_size + 256,
{
    lemma_aligned_row_bytes((width / block_width) * block_size);
}

} // verus!
