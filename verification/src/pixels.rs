//! Turning the bytes read back from the GPU into the pixels drawn on the
//! panel: removing the row padding of the copy buffer, and listing, in
//! row-major order, the colour of every pixel that the frame data covers.
use vstd::prelude::*;

use crate::dither::{dither_channel, dither_spec};
pub use crate::matrix_ffi::MatrixRgb;

verus! {

/// A pixel to set on the panel canvas: column `x`, row `y`, and its colour.
#[derive(Clone, Copy, Debug, PartialEq, Eq, Structural)]
pub struct LedPixel {
    pub x: i32,
    pub y: i32,
    pub color: MatrixRgb,
}

/// The image rows held in `padded`: the buffer is cut into chunks of
/// `aligned` bytes (the last one may be shorter), at most `height` chunks are
/// taken, and of each the first `row_bytes` bytes are kept (the whole chunk
/// when it is shorter).
pub open spec fn unpad_spec(padded: Seq<u8>, aligned: nat, row_bytes: nat, height: nat) -> Seq<u8>
    decreases height,
{
    if height == 0 || padded.len() == 0 {
        Seq::empty()
    } else {
        let chunk = if aligned < padded.len() { aligned } else { padded.len() };
        let kept = if row_bytes < chunk { row_bytes } else { chunk };
        padded.take(kept as int) + unpad_spec(padded.skip(chunk as int), aligned, row_bytes, (height - 1) as nat)
    }
}

/// The image bytes that `unpad_rows` gives back.
pub open spec fn unpadded_image(padded: Seq<u8>, aligned: nat, row_bytes: nat, height: nat) -> Seq<u8> {
    if row_bytes == aligned {
        padded
    } else {
        unpad_spec(padded, aligned, row_bytes, height)
    }
}

/// Removes the row padding of a frame read back from the GPU.
///
/// When the image rows are already aligned (`row_bytes == aligned_row_bytes`)
/// the buffer is the image and is handed back unchanged.  Otherwise the
/// buffer is cut into rows of `aligned_row_bytes` bytes, the first `height`
/// of them are taken, and of each the first `row_bytes` bytes are kept.
pub fn unpad_rows(padded: Vec<u8>, aligned_row_bytes: usize, row_bytes: usize, height: usize) -> (image: Vec<u8>)
    requires
        aligned_row_bytes > 0 || row_bytes == aligned_row_bytes,
    ensures
        image@ == unpadded_image(padded@, aligned_row_bytes as nat, row_bytes as nat, height as nat),
{
    if row_bytes == aligned_row_bytes {
        return padded;
    }
    let ghost whole = padded@;
    let ghost a = aligned_row_bytes as nat;
    let ghost rb = row_bytes as nat;
    let mut image: Vec<u8> = Vec::new();
    let mut offset: usize = 0;
    let mut row: usize = 0;
    assert(whole.skip(0) =~= whole);
    while row < height && offset < padded.len()
        invariant
            whole == padded@,
            a == aligned_row_bytes,
            rb == row_bytes,
            aligned_row_bytes > 0,
            offset <= padded.len(),
            row <= height,
            unpad_spec(whole, a, rb, height as nat) =~= image@ + unpad_spec(
                whole.skip(offset as int),
                a,
                rb,
                (height - row) as nat,
            ),
        decreases height - row,
    {
        let remaining = padded.len() - offset;
        let chunk = if aligned_row_bytes < remaining { aligned_row_bytes } else { remaining };
        let kept = if row_bytes < chunk { row_bytes } else { chunk };
        let ghost before = image@;
        let ghost rest = whole.skip(offset as int);
        assert(rest.len() == remaining);
        let mut j: usize = 0;
        while j < kept
            invariant
                whole == padded@,
                offset + kept <= padded.len(),
                j <= kept,
                image@ =~= before + whole.subrange(offset as int, offset + j),
            decreases kept - j,
        {
            image.push(padded[offset + j]);
            j += 1;
        }
        assert(rest.take(kept as int) =~= whole.subrange(offset as int, offset + kept));
        assert(rest.skip(chunk as int) =~= whole.skip(offset + chunk));
        offset = offset + chunk;
        row = row + 1;
    }
    assert(whole.skip(offset as int).len() == 0 ==> whole.skip(offset as int) =~= Seq::<u8>::empty());
    image
}

/// When every row is already aligned and the buffer holds at most `height`
/// rows, cutting the buffer into rows gives the buffer back: the shortcut
/// that hands an aligned buffer back unchanged agrees with unpadding it.
pub proof fn lemma_unpad_aligned_is_identity(padded: Seq<u8>, aligned: nat, height: nat)
    requires
        aligned > 0,
        padded.len() <= height * aligned,
    ensures
        unpad_spec(padded, aligned, aligned, height) == padded,
    decreases height,
{
    if height == 0 || padded.len() == 0 {
        if height == 0 {
            assert(height * aligned == 0) by (nonlinear_arith)
                requires
                    height == 0,
            ;
        }
        assert(padded =~= Seq::<u8>::empty());
    } else {
        let chunk = if aligned < padded.len() { aligned } else { padded.len() };
        assert((height - 1) * aligned == height * aligned - aligned) by (nonlinear_arith);
        lemma_unpad_aligned_is_identity(padded.skip(chunk as int), aligned, (height - 1) as nat);
        assert(padded.take(chunk as int) + padded.skip(chunk as int) =~= padded);
    }
}

/// When the buffer holds `height` full padded rows, the unpadded image has
/// `height * row_bytes` bytes and byte `c` of image row `r` is byte `c` of
/// padded row `r`: padding is dropped and nothing else moves.
pub proof fn lemma_unpad_full_rows(padded: Seq<u8>, aligned: nat, row_bytes: nat, height: nat)
    requires
        0 < row_bytes <= aligned,
        padded.len() >= height * aligned,
    ensures
        unpad_spec(padded, aligned, row_bytes, height).len() == height * row_bytes,
        forall|i: int|
            0 <= i < height * row_bytes ==> #[trigger] unpad_spec(padded, aligned, row_bytes, height)[i]
                == padded[(i / row_bytes as int) * aligned + i % row_bytes as int],
    decreases height,
{
    if height == 0 {
        assert(height * row_bytes == 0) by (nonlinear_arith)
            requires
                height == 0,
        ;
    } else {
        assert(padded.len() >= aligned) by (nonlinear_arith)
            requires
                padded.len() >= height * aligned,
                height >= 1,
        ;
        let rest = padded.skip(aligned as int);
        assert(rest.len() >= (height - 1) * aligned) by (nonlinear_arith)
            requires
                rest.len() == padded.len() - aligned,
                padded.len() >= height * aligned,
        ;
        lemma_unpad_full_rows(rest, aligned, row_bytes, (height - 1) as nat);
        let tail = unpad_spec(rest, aligned, row_bytes, (height - 1) as nat);
        let whole = unpad_spec(padded, aligned, row_bytes, height);
        assert(whole =~= padded.take(row_bytes as int) + tail);
        assert(height * row_bytes == row_bytes + (height - 1) * row_bytes) by (nonlinear_arith);
        assert forall|i: int| 0 <= i < height * row_bytes implies #[trigger] whole[i] == padded[(i
            / row_bytes as int) * aligned + i % row_bytes as int] by {
            let rbi = row_bytes as int;
            if i < rbi {
                assert((i / rbi) * aligned + i % rbi == i) by (nonlinear_arith)
                    requires
                        0 <= i < rbi,
                ;
            } else {
                let j = i - rbi;
                assert(j / rbi == i / rbi - 1 && j % rbi == i % rbi) by (nonlinear_arith)
                    requires
                        j == i - rbi,
                        rbi > 0,
                        i >= rbi,
                ;
                assert(j < (height - 1) * row_bytes);
                assert(tail[j] == rest[(j / rbi) * aligned + j % rbi]);
                assert((j / rbi) * aligned + j % rbi < (height - 1) * aligned) by (nonlinear_arith)
                    requires
                        0 <= j < (height - 1) * rbi,
                        0 < rbi <= aligned,
                ;
                assert((j / rbi) * aligned + aligned == (i / rbi) * aligned) by (nonlinear_arith)
                    requires
                        j / rbi == i / rbi - 1,
                ;
                assert(0 <= (j / rbi) * aligned) by (nonlinear_arith)
                    requires
                        j >= 0,
                        rbi > 0,
                ;
            }
        }
    }
}

/// Position in a padded buffer of byte `i` of the unpadded image: byte
/// `i % row_bytes` of padded row `i / row_bytes`.
pub open spec fn padded_source(i: int, aligned: nat, row_bytes: nat) -> int {
    (i / row_bytes as int) * aligned + i % row_bytes as int
}

/// Where every byte that `unpad_rows` gives back comes from, for any buffer
/// (the last row may be cut short): with padded rows of `aligned` bytes of
/// which the first `row_bytes` are image,
/// byte `i` of the image is byte `i % row_bytes` of padded row
/// `i / row_bytes`, which lies inside the buffer.  The image has `row_bytes`
/// bytes for each full row among the first `height`, plus the image part of a
/// final partial row.
pub proof fn lemma_unpad_layout(padded: Seq<u8>, aligned: nat, row_bytes: nat, height: nat)
    requires
        0 < row_bytes < aligned,
    ensures
        unpadded_image(padded, aligned, row_bytes, height).len() == if padded.len() >= height * aligned {
            height * row_bytes
        } else {
            (padded.len() / aligned) * row_bytes + if row_bytes < padded.len() % aligned {
                row_bytes
            } else {
                padded.len() % aligned
            }
        },
        forall|i: int|
            0 <= i < unpadded_image(padded, aligned, row_bytes, height).len() ==> 0 <= #[trigger] padded_source(
                i,
                aligned,
                row_bytes,
            ) < padded.len(),
        forall|i: int|
            0 <= i < unpadded_image(padded, aligned, row_bytes, height).len() ==> #[trigger] unpadded_image(
                padded,
                aligned,
                row_bytes,
                height,
            )[i] == padded[padded_source(i, aligned, row_bytes)],
{
    lemma_unpad_length(padded, aligned, row_bytes, height);
    let len = unpadded_image(padded, aligned, row_bytes, height).len();
    assert forall|i: int| 0 <= i < len implies 0 <= #[trigger] padded_source(i, aligned, row_bytes)
        < padded.len() by {
        lemma_unpad_byte(padded, aligned, row_bytes, height, i);
    }
    assert forall|i: int| 0 <= i < len implies #[trigger] unpadded_image(padded, aligned, row_bytes, height)[i]
        == padded[padded_source(i, aligned, row_bytes)] by {
        lemma_unpad_byte(padded, aligned, row_bytes, height, i);
    }
}

proof fn lemma_unpad_length(padded: Seq<u8>, aligned: nat, row_bytes: nat, height: nat)
    requires
        0 < row_bytes <= aligned,
    ensures
        unpad_spec(padded, aligned, row_bytes, height).len() == if padded.len() >= height * aligned {
            height * row_bytes
        } else {
            (padded.len() / aligned) * row_bytes + if row_bytes < padded.len() % aligned {
                row_bytes
            } else {
                padded.len() % aligned
            }
        },
    decreases height,
{
    let a = aligned as int;
    let rb = row_bytes as int;
    let n = padded.len() as int;
    if height == 0 {
        assert(height * aligned == 0 && height * row_bytes == 0) by (nonlinear_arith)
            requires
                height == 0,
        ;
    } else if n < a {
        // the whole buffer is at most one row
        let kept = if rb < n { rb } else { n };
        if n > 0 {
            assert(padded.skip(n) =~= Seq::<u8>::empty());
            assert(unpad_spec(padded.skip(n), aligned, row_bytes, (height - 1) as nat) =~= Seq::<u8>::empty());
            assert(unpad_spec(padded, aligned, row_bytes, height) =~= padded.take(kept));
        }
        assert(height * aligned >= aligned) by (nonlinear_arith)
            requires
                height >= 1,
        ;
        vstd::arithmetic::div_mod::lemma_fundamental_div_mod_converse(n, a, 0, n);
        assert(0 * row_bytes == 0);
    } else {
        let rest = padded.skip(a);
        lemma_unpad_length(rest, aligned, row_bytes, (height - 1) as nat);
        let tail = unpad_spec(rest, aligned, row_bytes, (height - 1) as nat);
        assert(unpad_spec(padded, aligned, row_bytes, height) =~= padded.take(rb) + tail);
        let q = (n - a) / a;
        let r = (n - a) % a;
        vstd::arithmetic::div_mod::lemma_fundamental_div_mod(n - a, a);
        assert(n == (q + 1) * a + r) by (nonlinear_arith)
            requires
                n - a == a * q + r,
        ;
        vstd::arithmetic::div_mod::lemma_fundamental_div_mod_converse(n, a, q + 1, r);
        assert(height * aligned == aligned + (height - 1) * aligned) by (nonlinear_arith)
            requires
                height >= 1,
        ;
        assert(height * row_bytes == row_bytes + (height - 1) * row_bytes) by (nonlinear_arith)
            requires
                height >= 1,
        ;
        assert((q + 1) * rb == rb + q * rb) by (nonlinear_arith);
    }
}

proof fn lemma_unpad_byte(padded: Seq<u8>, aligned: nat, row_bytes: nat, height: nat, i: int)
    requires
        0 < row_bytes <= aligned,
        0 <= i < unpad_spec(padded, aligned, row_bytes, height).len(),
    ensures
        0 <= padded_source(i, aligned, row_bytes),
        padded_source(i, aligned, row_bytes) < padded.len(),
        unpad_spec(padded, aligned, row_bytes, height)[i] == padded[padded_source(i, aligned, row_bytes)],
    decreases height,
{
    let a = aligned as int;
    let rb = row_bytes as int;
    let n = padded.len() as int;
    let chunk = if a < n { a } else { n };
    let kept = if rb < chunk { rb } else { chunk };
    let rest = padded.skip(chunk);
    let tail = unpad_spec(rest, aligned, row_bytes, (height - 1) as nat);
    assert(unpad_spec(padded, aligned, row_bytes, height) =~= padded.take(kept) + tail);
    if i < kept {
        assert((i / rb) * a + i % rb == i) by (nonlinear_arith)
            requires
                0 <= i < rb,
        ;
    } else {
        // a partial row is the last one, so only a full row can come before `i`
        if n < a {
            assert(rest =~= Seq::<u8>::empty());
            assert(tail =~= Seq::<u8>::empty());
        }
        assert(kept == rb && chunk == a);
        let j = i - rb;
        lemma_unpad_byte(rest, aligned, row_bytes, (height - 1) as nat, j);
        assert(j / rb == i / rb - 1 && j % rb == i % rb) by (nonlinear_arith)
            requires
                j == i - rb,
                rb > 0,
                i >= rb,
        ;
        assert((j / rb) * a + j % rb + a == (i / rb) * a + i % rb) by (nonlinear_arith)
            requires
                j / rb == i / rb - 1,
                j % rb == i % rb,
        ;
    }
}

/// Colour stored for pixel `k` of an RGBA frame (the alpha byte is ignored).
pub open spec fn rgba_color(data: Seq<u8>, k: nat) -> MatrixRgb {
    MatrixRgb { r: data[4 * k as int], g: data[4 * k + 1 as int], b: data[4 * k + 2 as int] }
}

/// Pixel `k`, in row-major order, of an RGBA frame `width` pixels wide.
pub open spec fn rgba_pixel(data: Seq<u8>, width: nat, k: nat) -> LedPixel {
    LedPixel { x: (k % width) as i32, y: (k / width) as i32, color: rgba_color(data, k) }
}

/// Pixel `k` of an RGBA frame, with each channel dithered at its position.
pub open spec fn dithered_pixel(data: Seq<u8>, width: nat, k: nat) -> LedPixel {
    let x = k % width;
    let y = k / width;
    LedPixel {
        x: x as i32,
        y: y as i32,
        color: MatrixRgb {
            r: dither_spec(data[4 * k as int], x, y),
            g: dither_spec(data[4 * k + 1 as int], x, y),
            b: dither_spec(data[4 * k + 2 as int], x, y),
        },
    }
}

/// How many of the first `total` pixels have their red, green and blue
/// bytes inside a frame of `len` bytes: pixel `k` does when `4k + 3 <= len`.
pub open spec fn drawable_count(len: nat, total: nat) -> nat {
    if len < 3 {
        0
    } else {
        let fit = ((len - 3) / 4 + 1) as nat;
        if fit < total {
            fit
        } else {
            total
        }
    }
}

/// The pixels drawn from an RGBA frame, in row-major order: every pixel of
/// the `width` x `height` grid whose colour bytes lie in `data`.
pub open spec fn rgba_plan(data: Seq<u8>, width: nat, height: nat) -> Seq<LedPixel> {
    Seq::new(drawable_count(data.len(), width * height), |k: int| rgba_pixel(data, width, k as nat))
}

/// As `rgba_plan`, with every channel dithered.
pub open spec fn dithered_plan(data: Seq<u8>, width: nat, height: nat) -> Seq<LedPixel> {
    Seq::new(
        drawable_count(data.len(), width * height),
        |k: int| dithered_pixel(data, width, k as nat),
    )
}

/// Pixel `k` is drawable exactly when its colour bytes fit in the frame.
proof fn lemma_drawable(len: nat, total: nat, k: nat)
    requires
        k < total,
    ensures
        (k < drawable_count(len, total)) == (4 * k + 3 <= len),
{
}

fn plan_pixels(data: &[u8], width: usize, height: usize, dithered: bool) -> (pixels: Vec<LedPixel>)
    requires
        width * height * 4 <= usize::MAX,
    ensures
        pixels@ == if dithered {
            dithered_plan(data@, width as nat, height as nat)
        } else {
            rgba_plan(data@, width as nat, height as nat)
        },
{
    let ghost total = (width * height) as nat;
    let ghost count = drawable_count(data@.len(), total);
    let ghost target = if dithered {
        dithered_plan(data@, width as nat, height as nat)
    } else {
        rgba_plan(data@, width as nat, height as nat)
    };
    let mut pixels: Vec<LedPixel> = Vec::new();
    let mut k: usize = 0;
    let mut y: usize = 0;
    while y < height
        invariant
            y <= height,
            k == y * width,
            k <= total,
            total == width * height,
            width * height * 4 <= usize::MAX,
            count == drawable_count(data@.len(), total),
            target.len() == count,
            target == (if dithered {
                dithered_plan(data@, width as nat, height as nat)
            } else {
                rgba_plan(data@, width as nat, height as nat)
            }),
            pixels@ == target.take(if k < count { k as int } else { count as int }),
        decreases height - y,
    {
        let mut x: usize = 0;
        assert(y * width + width == (y + 1) * width) by (nonlinear_arith);
        assert((y + 1) * width <= height * width) by (nonlinear_arith)
            requires
                y < height,
        ;
        while x < width
            invariant
                x <= width,
                y < height,
                k == y * width + x,
                y * width + width <= total,
                total == width * height,
                width * height * 4 <= usize::MAX,
                count == drawable_count(data@.len(), total),
                target.len() == count,
                target == (if dithered {
                    dithered_plan(data@, width as nat, height as nat)
                } else {
                    rgba_plan(data@, width as nat, height as nat)
                }),
                pixels@ == target.take(if k < count { k as int } else { count as int }),
            decreases width - x,
        {
            proof {
                lemma_drawable(data@.len(), total, k as nat);
                vstd::arithmetic::div_mod::lemma_fundamental_div_mod_converse(
                    k as int,
                    width as int,
                    y as int,
                    x as int,
                );
            }
            let pixel_idx = k * 4;
            if pixel_idx < data.len() && data.len() - pixel_idx >= 3 {
                let color = if dithered {
                    MatrixRgb {
                        r: dither_channel(data[pixel_idx], x, y),
                        g: dither_channel(data[pixel_idx + 1], x, y),
                        b: dither_channel(data[pixel_idx + 2], x, y),
                    }
                } else {
                    MatrixRgb { r: data[pixel_idx], g: data[pixel_idx + 1], b: data[pixel_idx + 2] }
                };
                let pixel = LedPixel { x: x as i32, y: y as i32, color };
                assert(pixel == target[k as int]);
                pixels.push(pixel);
                assert(pixels@ =~= target.take(k + 1));
            }
            k += 1;
            x += 1;
        }
        y += 1;
    }
    assert(k == total) by (nonlinear_arith)
        requires
            k == y * width,
            y == height,
            total == width * height,
    ;
    assert(pixels@ =~= target);
    pixels
}

/// The pixels to draw from an RGBA frame of `width` x `height` pixels:
/// pixel `(x, y)` takes the red, green and blue bytes at `(y * width + x) * 4`,
/// in row-major order; pixels whose bytes are not all in `data` are skipped.
pub fn rgba_led_pixels(data: &[u8], width: usize, height: usize) -> (pixels: Vec<LedPixel>)
    requires
        width * height * 4 <= usize::MAX,
    ensures
        pixels@ == rgba_plan(data@, width as nat, height as nat),
{
    plan_pixels(data, width, height, false)
}

/// As `rgba_led_pixels`, with each channel passed through the ordered
/// dither at the pixel's position.
pub fn dithered_led_pixels(data: &[u8], width: usize, height: usize) -> (pixels: Vec<LedPixel>)
    requires
        width * height * 4 <= usize::MAX,
    ensures
        pixels@ == dithered_plan(data@, width as nat, height as nat),
{
    plan_pixels(data, width, height, true)
}

/// Neither list holds more pixels than the grid, and pixel `k` of the grid
/// (row-major) is listed exactly when its red, green and blue bytes
/// `4k`, `4k + 1`, `4k + 2` all lie in `data`.
pub proof fn lemma_plan_covers(data: Seq<u8>, width: nat, height: nat, k: nat)
    requires
        k < width * height,
    ensures
        rgba_plan(data, width, height).len() <= width * height,
        dithered_plan(data, width, height).len() <= width * height,
        (k < rgba_plan(data, width, height).len()) == (4 * k + 3 <= data.len()),
        (k < dithered_plan(data, width, height).len()) == (4 * k + 3 <= data.len()),
{
}

/// Entry `k` of either list is pixel `(k % width, k / width)`.  In the plain
/// list its red, green and blue are the bytes `4k`, `4k + 1`, `4k + 2` of
/// the frame; in the dithered list they are those bytes dithered at that
/// pixel.  The alpha byte `4k + 3` is never read.
pub proof fn lemma_plan_entries(data: Seq<u8>, width: nat, height: nat, k: nat)
    requires
        k < rgba_plan(data, width, height).len(),
    ensures
        k < dithered_plan(data, width, height).len(),
        rgba_plan(data, width, height)[k as int] == (LedPixel {
            x: (k % width) as i32,
            y: (k / width) as i32,
            color: MatrixRgb { r: data[4 * k as int], g: data[4 * k + 1 as int], b: data[4 * k + 2 as int] },
        }),
        dithered_plan(data, width, height)[k as int] == (LedPixel {
            x: (k % width) as i32,
            y: (k / width) as i32,
            color: MatrixRgb {
                r: dither_spec(data[4 * k as int], k % width, k / width),
                g: dither_spec(data[4 * k + 1 as int], k % width, k / width),
                b: dither_spec(data[4 * k + 2 as int], k % width, k / width),
            },
        }),
{
}

/// A frame that holds all `width * height` RGBA pixels draws every pixel of
/// the grid exactly once, in row-major order: entry `y * width + x` sets
/// pixel `(x, y)` from bytes `(y * width + x) * 4 + c` for the channels
/// `c` = 0 (red), 1 (green), 2 (blue), plainly or dithered at `(x, y)`.
pub proof fn lemma_full_frame_draws_every_pixel(data: Seq<u8>, width: nat, height: nat, x: nat, y: nat)
    requires
        data.len() >= width * height * 4,
        x < width,
        y < height,
    ensures
        rgba_plan(data, width, height).len() == width * height,
        dithered_plan(data, width, height).len() == width * height,
        rgba_plan(data, width, height)[(y * width + x) as int] == (LedPixel {
            x: x as i32,
            y: y as i32,
            color: MatrixRgb {
                r: data[((y * width + x) * 4) as int],
                g: data[((y * width + x) * 4 + 1) as int],
                b: data[((y * width + x) * 4 + 2) as int],
            },
        }),
        dithered_plan(data, width, height)[(y * width + x) as int] == (LedPixel {
            x: x as i32,
            y: y as i32,
            color: MatrixRgb {
                r: dither_spec(data[((y * width + x) * 4) as int], x, y),
                g: dither_spec(data[((y * width + x) * 4 + 1) as int], x, y),
                b: dither_spec(data[((y * width + x) * 4 + 2) as int], x, y),
            },
        }),
{
    assert(y * width + x < width * height) by (nonlinear_arith)
        requires
            x < width,
            y < height,
    ;
    vstd::arithmetic::div_mod::lemma_fundamental_div_mod_converse(
        (y * width + x) as int,
        width as int,
        y as int,
        x as int,
    );
}

} // verus!
