//! Ordered (Bayer 4x4) dithering of 8-bit channel values down to the
//! panel's PWM output levels.
use vstd::prelude::*;

verus! {

/// PWM bits the panel is driven with; the dithering quantizes to
/// `2^PWM_BITS - 1` steps and must agree with the value given to the panel.
pub const PWM_BITS: u32 = 7;

/// Highest PWM output level: `2^PWM_BITS - 1`.
pub open spec fn max_level() -> nat {
    127
}

/// The 4x4 Bayer threshold matrix, row `row`, column `col`; its sixteen
/// entries are the thresholds 0..15, spread out in space.
pub open spec fn bayer_4x4(row: nat, col: nat) -> nat {
    if row == 0 {
        if col == 0 { 0 } else if col == 1 { 8 } else if col == 2 { 2 } else { 10 }
    } else if row == 1 {
        if col == 0 { 12 } else if col == 1 { 4 } else if col == 2 { 14 } else { 6 }
    } else if row == 2 {
        if col == 0 { 3 } else if col == 1 { 11 } else if col == 2 { 1 } else { 9 }
    } else {
        if col == 0 { 15 } else if col == 1 { 7 } else if col == 2 { 13 } else { 5 }
    }
}

/// Threshold applied at pixel `(x, y)`.
pub open spec fn threshold(x: nat, y: nat) -> nat {
    bayer_4x4(y % 4, x % 4)
}

/// PWM level chosen for `value` at `(x, y)`: the value scaled to
/// `0..=max_level()` with four fractional bits, raised by the pixel's
/// threshold, rounded down, and capped at the top level.
pub open spec fn dither_level(value: nat, x: nat, y: nat) -> nat {
    let quantized = (value * max_level() * 16 + threshold(x, y) * 255) / (255 * 16);
    if quantized < max_level() {
        quantized
    } else {
        max_level()
    }
}

/// 8-bit value that the panel receives for PWM level `level`.
pub open spec fn level_to_byte(level: nat) -> nat {
    level * 255 / max_level()
}

/// Result of `dither_channel(value, x, y)`.
pub open spec fn dither_spec(value: u8, x: nat, y: nat) -> u8 {
    level_to_byte(dither_level(value as nat, x, y)) as u8
}

/// Threshold of the Bayer matrix for pixel `(x, y)`.
fn bayer_threshold(x: usize, y: usize) -> (t: u16)
    ensures
        t == threshold(x as nat, y as nat),
{
    let row = y & 3;
    let col = x & 3;
    assert(y & 3 == y % 4) by (bit_vector);
    assert(x & 3 == x % 4) by (bit_vector);
    if row == 0 {
        if col == 0 { 0 } else if col == 1 { 8 } else if col == 2 { 2 } else { 10 }
    } else if row == 1 {
        if col == 0 { 12 } else if col == 1 { 4 } else if col == 2 { 14 } else { 6 }
    } else if row == 2 {
        if col == 0 { 3 } else if col == 1 { 11 } else if col == 2 { 1 } else { 9 }
    } else {
        if col == 0 { 15 } else if col == 1 { 7 } else if col == 2 { 13 } else { 5 }
    }
}

/// Dithers an 8-bit channel value at pixel `(x, y)` to one of the
/// available PWM output levels, then maps that level back to the 8-bit
/// range the panel library expects.
pub fn dither_channel(value: u8, x: usize, y: usize) -> (out: u8)
    ensures
        out == dither_spec(value, x as nat, y as nat),
{
    assert((1u32 << 7u32) == 128) by (bit_vector);
    let max_output: u32 = (1u32 << PWM_BITS) - 1;
    let threshold = bayer_threshold(x, y) as u32;
    let scaled = value as u32 * max_output * 16;
    let quantized = (scaled + threshold * 255) / (255 * 16);
    let clamped = if quantized < max_output { quantized } else { max_output };
    (clamped * 255 / max_output) as u8
}

/// Every threshold lies in 0..=15.
pub proof fn lemma_threshold_bound(x: nat, y: nat)
    ensures
        threshold(x, y) <= 15,
{
}

/// The sixteen cells of the Bayer matrix hold sixteen different
/// thresholds, so a 4x4 block of equal inputs is spread over all of them.
pub proof fn lemma_bayer_thresholds_distinct(r1: nat, c1: nat, r2: nat, c2: nat)
    requires
        r1 < 4,
        c1 < 4,
        r2 < 4,
        c2 < 4,
        r1 != r2 || c1 != c2,
    ensures
        bayer_4x4(r1, c1) != bayer_4x4(r2, c2),
{
}

/// `d * (n / d) <= n < d * (n / d + 1)` for a positive divisor.
proof fn lemma_div_bracket(n: int, d: int)
    requires
        n >= 0,
        d > 0,
    ensures
        d * (n / d) <= n < d * (n / d) + d,
{
    vstd::arithmetic::div_mod::lemma_fundamental_div_mod(n, d);
    assert(0 <= n % d < d);
}

/// The quantized level before the cap, with its defining bracket.
proof fn lemma_level_bracket(value: u8, x: nat, y: nat)
    ensures
        ({
            let n = (value as nat) * 2032 + threshold(x, y) * 255;
            let q = (value as nat * max_level() * 16 + threshold(x, y) * 255) / (255 * 16);
            &&& 4080 * q <= n < 4080 * q + 4080
            &&& q <= 127
            &&& dither_level(value as nat, x, y) == q
        }),
{
    lemma_threshold_bound(x, y);
    let n = (value as nat) * 2032 + threshold(x, y) * 255;
    assert(value as nat * max_level() * 16 == (value as nat) * 2032);
    lemma_div_bracket(n as int, 4080);
    let q = n / 4080;
    assert(n <= 255 * 2032 + 15 * 255);
    assert(q <= 127);
}

/// Black stays black and full intensity stays full intensity, whatever the
/// pixel position.
pub proof fn lemma_dither_keeps_extremes(x: nat, y: nat)
    ensures
        dither_spec(0, x, y) == 0,
        dither_spec(255, x, y) == 255,
{
    lemma_level_bracket(0, x, y);
    lemma_level_bracket(255, x, y);
    assert(dither_level(0, x, y) == 0);
    assert(dither_level(255, x, y) == 127);
    assert(level_to_byte(0) == 0);
    assert(level_to_byte(127) == 255);
}

/// The level is always one of the two PWM levels nearest the exact scaled
/// value `value * 127 / 255` (the cap at the top level is never reached
/// from below it): `255 * level` lies within one level step of
/// `127 * value`.
pub proof fn lemma_dither_level_is_nearest(value: u8, x: nat, y: nat)
    ensures
        (value as nat * max_level() * 16 + threshold(x, y) * 255) / (255 * 16) <= max_level(),
        127 * (value as nat) < 255 * (dither_level(value as nat, x, y) + 1),
        255 * dither_level(value as nat, x, y) < 127 * (value as nat) + 255,
{
    lemma_level_bracket(value, x, y);
    lemma_threshold_bound(x, y);
}

/// A brighter input never gives a darker output at the same pixel.
pub proof fn lemma_dither_monotone(v1: u8, v2: u8, x: nat, y: nat)
    requires
        v1 <= v2,
    ensures
        dither_spec(v1, x, y) <= dither_spec(v2, x, y),
{
    lemma_level_bracket(v1, x, y);
    lemma_level_bracket(v2, x, y);
    let l1 = dither_level(v1 as nat, x, y);
    let l2 = dither_level(v2 as nat, x, y);
    assert(l1 <= l2);
    lemma_div_bracket((l1 * 255) as int, 127);
    lemma_div_bracket((l2 * 255) as int, 127);
    assert(level_to_byte(l1) <= level_to_byte(l2));
    assert(level_to_byte(l2) <= 255);
}

/// The dither pattern repeats every four pixels in each direction.
pub proof fn lemma_dither_periodic(value: u8, x: nat, y: nat)
    ensures
        dither_spec(value, x + 4, y) == dither_spec(value, x, y),
        dither_spec(value, x, y + 4) == dither_spec(value, x, y),
{
    assert((x + 4) % 4 == x % 4);
    assert((y + 4) % 4 == y % 4);
}

/// PWM level that the panel library's byte `r` stands for: the inverse of
/// `level_to_byte` on the bytes it produces.
pub open spec fn byte_to_level(r: u8) -> nat {
    if r == 255 {
        127
    } else {
        (r / 2) as nat
    }
}

/// Sum, over the 4x4 tile at the origin, of the PWM levels that the panel
/// receives for an area of uniform value `value`.
pub open spec fn tile_level_sum(value: u8) -> nat {
    byte_to_level(dither_spec(value, 0, 0)) + byte_to_level(dither_spec(value, 1, 0))
        + byte_to_level(dither_spec(value, 2, 0)) + byte_to_level(dither_spec(value, 3, 0))
        + byte_to_level(dither_spec(value, 0, 1)) + byte_to_level(dither_spec(value, 1, 1))
        + byte_to_level(dither_spec(value, 2, 1)) + byte_to_level(dither_spec(value, 3, 1))
        + byte_to_level(dither_spec(value, 0, 2)) + byte_to_level(dither_spec(value, 1, 2))
        + byte_to_level(dither_spec(value, 2, 2)) + byte_to_level(dither_spec(value, 3, 2))
        + byte_to_level(dither_spec(value, 0, 3)) + byte_to_level(dither_spec(value, 1, 3))
        + byte_to_level(dither_spec(value, 2, 3)) + byte_to_level(dither_spec(value, 3, 3))
}

/// Every PWM level survives the trip to a byte and back.
pub proof fn lemma_level_byte_round_trip(level: nat)
    requires
        level <= 127,
    ensures
        level_to_byte(level) <= 255,
        byte_to_level(level_to_byte(level) as u8) == level,
{
    if level < 127 {
        vstd::arithmetic::div_mod::lemma_fundamental_div_mod_converse(
            (level * 255) as int,
            127,
            (2 * level) as int,
            level as int,
        );
        assert((2 * level) / 2 == level);
    }
}

/// The quantized level at threshold `t`: the base level `m` of the value,
/// plus one exactly when `t` is among the `k` highest thresholds, where
/// `value * 2032 == 4080 * m + 255 * k + r` with `k < 16` and `r < 255`.
proof fn lemma_level_at_threshold(value: u8, t: nat)
    requires
        t <= 15,
    ensures
        ({
            let a = (value as nat) * 2032;
            let m = a / 4080;
            let k = (a % 4080) / 255;
            &&& k <= 15
            &&& (a + 255 * t) / 4080 == m + (if t + k >= 16 { 1nat } else { 0nat })
        }),
{
    let a = (value as nat) * 2032;
    let m = a / 4080;
    let s = a % 4080;
    let k = s / 255;
    let r = s % 255;
    vstd::arithmetic::div_mod::lemma_fundamental_div_mod(a as int, 4080);
    vstd::arithmetic::div_mod::lemma_fundamental_div_mod(s as int, 255);
    assert(0 <= s < 4080);
    assert(0 <= r < 255);
    assert(s == 255 * k + r);
    assert(k <= 15);
    if t + k >= 16 {
        vstd::arithmetic::div_mod::lemma_fundamental_div_mod_converse(
            (a + 255 * t) as int,
            4080,
            (m + 1) as int,
            (255 * (t + k) + r - 4080) as int,
        );
    } else {
        vstd::arithmetic::div_mod::lemma_fundamental_div_mod_converse(
            (a + 255 * t) as int,
            4080,
            m as int,
            (255 * (t + k) + r) as int,
        );
    }
}

/// Over any 4x4 tile of a uniform area the sixteen thresholds are each used
/// once, so the levels shown add up to `value * 2032 / 255` rounded down:
/// the tile's mean level is the exact scaled value `value * 127 / 255`,
/// rounded down to a sixteenth of a level.
#[verifier::spinoff_prover]
#[verifier::rlimit(40)]
pub proof fn lemma_dither_tile_average(value: u8)
    ensures
        tile_level_sum(value) == (value as nat) * 2032 / 255,
{
    let a = (value as nat) * 2032;
    let m = a / 4080;
    let k = (a % 4080) / 255;
    assert forall|x: nat, y: nat| x < 4 && y < 4 implies byte_to_level(#[trigger] dither_spec(value, x, y))
        == m + (if threshold(x, y) + k >= 16 { 1nat } else { 0nat }) by {
        lemma_threshold_bound(x, y);
        lemma_level_bracket(value, x, y);
        lemma_level_at_threshold(value, threshold(x, y));
        assert(value as nat * max_level() * 16 == a);
        lemma_level_byte_round_trip(dither_level(value as nat, x, y));
    }
    lemma_level_at_threshold(value, 0);
    vstd::arithmetic::div_mod::lemma_fundamental_div_mod(a as int, 4080);
    vstd::arithmetic::div_mod::lemma_fundamental_div_mod((a % 4080) as int, 255);
    vstd::arithmetic::div_mod::lemma_fundamental_div_mod_converse(
        a as int,
        255,
        (16 * m + k) as int,
        ((a % 4080) % 255) as int,
    );
    assert(byte_to_level(dither_spec(value, 0, 0)) == m + (if 0 + k >= 16 { 1nat } else { 0nat }));
    assert(byte_to_level(dither_spec(value, 1, 0)) == m + (if 8 + k >= 16 { 1nat } else { 0nat }));
    assert(byte_to_level(dither_spec(value, 2, 0)) == m + (if 2 + k >= 16 { 1nat } else { 0nat }));
    assert(byte_to_level(dither_spec(value, 3, 0)) == m + (if 10 + k >= 16 { 1nat } else { 0nat }));
    assert(byte_to_level(dither_spec(value, 0, 1)) == m + (if 12 + k >= 16 { 1nat } else { 0nat }));
    assert(byte_to_level(dither_spec(value, 1, 1)) == m + (if 4 + k >= 16 { 1nat } else { 0nat }));
    assert(byte_to_level(dither_spec(value, 2, 1)) == m + (if 14 + k >= 16 { 1nat } else { 0nat }));
    assert(byte_to_level(dither_spec(value, 3, 1)) == m + (if 6 + k >= 16 { 1nat } else { 0nat }));
    assert(byte_to_level(dither_spec(value, 0, 2)) == m + (if 3 + k >= 16 { 1nat } else { 0nat }));
    assert(byte_to_level(dither_spec(value, 1, 2)) == m + (if 11 + k >= 16 { 1nat } else { 0nat }));
    assert(byte_to_level(dither_spec(value, 2, 2)) == m + (if 1 + k >= 16 { 1nat } else { 0nat }));
    assert(byte_to_level(dither_spec(value, 3, 2)) == m + (if 9 + k >= 16 { 1nat } else { 0nat }));
    assert(byte_to_level(dither_spec(value, 0, 3)) == m + (if 15 + k >= 16 { 1nat } else { 0nat }));
    assert(byte_to_level(dither_spec(value, 1, 3)) == m + (if 7 + k >= 16 { 1nat } else { 0nat }));
    assert(byte_to_level(dither_spec(value, 2, 3)) == m + (if 13 + k >= 16 { 1nat } else { 0nat }));
    assert(byte_to_level(dither_spec(value, 3, 3)) == m + (if 5 + k >= 16 { 1nat } else { 0nat }));
}

/// Closed form of the dither at pixel `(x, y)`: the threshold is the entry
/// in row `y % 4` and column `x % 4` of the Bayer table
/// `[[0, 8, 2, 10], [12, 4, 14, 6], [3, 11, 1, 9], [15, 7, 13, 5]]`; the
/// level is `(value * 127 * 16 + 255 * threshold) / (255 * 16)`, never above
/// 127; and the output byte is that level times 255 / 127.
pub proof fn lemma_dither_closed_form(value: u8, x: nat, y: nat)
    ensures
        ({
            let table = seq![
                seq![0nat, 8, 2, 10],
                seq![12nat, 4, 14, 6],
                seq![3nat, 11, 1, 9],
                seq![15nat, 7, 13, 5],
            ];
            let level = (value as nat * 2032 + 255 * table[(y % 4) as int][(x % 4) as int]) / 4080;
            &&& level <= 127
            &&& dither_spec(value, x, y) as nat == level * 255 / 127
        }),
{
    let table = seq![
        seq![0nat, 8, 2, 10],
        seq![12nat, 4, 14, 6],
        seq![3nat, 11, 1, 9],
        seq![15nat, 7, 13, 5],
    ];
    let r = y % 4;
    let c = x % 4;
    assert(table[r as int][c as int] == threshold(x, y)) by {
        if r == 0 {
            assert(table[0] == seq![0nat, 8, 2, 10]);
        } else if r == 1 {
            assert(table[1] == seq![12nat, 4, 14, 6]);
        } else if r == 2 {
            assert(table[2] == seq![3nat, 11, 1, 9]);
        } else {
            assert(table[3] == seq![15nat, 7, 13, 5]);
        }
    }
    lemma_level_bracket(value, x, y);
    lemma_level_byte_round_trip(dither_level(value as nat, x, y));
    assert(value as nat * max_level() * 16 == value as nat * 2032);
}

/// A pixel whose threshold is higher never shows a lower level: for the
/// same value, `(x1, y1)` shows at least the level of `(x2, y2)` whenever its
/// Bayer entry (row `y % 4`, column `x % 4`) is at least as large.
pub proof fn lemma_dither_grows_with_threshold(value: u8, x1: nat, y1: nat, x2: nat, y2: nat)
    requires
        bayer_4x4(y2 % 4, x2 % 4) <= bayer_4x4(y1 % 4, x1 % 4),
    ensures
        dither_spec(value, x2, y2) <= dither_spec(value, x1, y1),
{
    lemma_level_bracket(value, x1, y1);
    lemma_level_bracket(value, x2, y2);
    let l1 = dither_level(value as nat, x1, y1);
    let l2 = dither_level(value as nat, x2, y2);
    assert(l2 <= l1);
    lemma_div_bracket((l1 * 255) as int, 127);
    lemma_div_bracket((l2 * 255) as int, 127);
    lemma_level_byte_round_trip(l1);
    lemma_level_byte_round_trip(l2);
}

} // verus!
