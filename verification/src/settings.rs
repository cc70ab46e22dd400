//! Panel geometry and the options each program hands to the LED matrix
//! driver when it starts.
use vstd::prelude::*;

use crate::dither::PWM_BITS;

verus! {

/// Width, in pixels, of the render target and of the panel.
pub const RENDER_WIDTH: u32 = 64;

/// Height, in pixels, of the render target and of the panel.
pub const RENDER_HEIGHT: u32 = 64;

/// Bytes in one unpadded RGBA frame of the panel's size.
pub const FRAME_BYTES: usize = 16384;

/// Pin mapping of the Adafruit HAT with the PWM quality modification.
pub const HARDWARE_MAPPING: &'static str = "adafruit-hat-pwm";

/// Options given to the LED matrix driver.
#[derive(Clone, Copy, Debug, PartialEq, Eq)]
pub struct MatrixSettings {
    /// Rows of one panel.
    pub rows: u32,
    /// Columns of one panel.
    pub cols: u32,
    /// GPIO mapping of the HAT that drives the panel.
    pub hardware_mapping: &'static str,
    /// Whether the driver reports its refresh rate.
    pub show_refresh_rate: bool,
    /// Duration of the least significant PWM bit.
    pub pwm_lsb_nanoseconds: u32,
    /// PWM bits per channel, when not left at the driver's default.
    pub pwm_bits: Option<u8>,
    /// Brightness in percent.
    pub brightness: u8,
}

impl MatrixSettings {
    /// The settings of the programs that show frames without dithering:
    /// a 64x64 panel on the Adafruit HAT, refresh rate shown, 130 ns LSB,
    /// the driver's default PWM bits, half brightness.
    pub fn standard() -> (s: MatrixSettings)
        ensures
            s.rows == 64,
            s.cols == 64,
            s.hardware_mapping@ == HARDWARE_MAPPING@,
            s.show_refresh_rate,
            s.pwm_lsb_nanoseconds == 130,
            s.pwm_bits is None,
            s.brightness == 50,
    {
        MatrixSettings {
            rows: 64,
            cols: 64,
            hardware_mapping: HARDWARE_MAPPING,
            show_refresh_rate: true,
            pwm_lsb_nanoseconds: 130,
            pwm_bits: None,
            brightness: 50,
        }
    }

    /// The settings of the program that dithers its frames: a 64x64 panel
    /// on the Adafruit HAT, refresh rate shown, 300 ns LSB, `PWM_BITS` PWM
    /// bits, 30% brightness.
    pub fn dithered() -> (s: MatrixSettings)
        ensures
            s.rows == 64,
            s.cols == 64,
            s.hardware_mapping@ == HARDWARE_MAPPING@,
            s.show_refresh_rate,
            s.pwm_lsb_nanoseconds == 300,
            s.pwm_bits == Some(PWM_BITS as u8),
            s.brightness == 30,
    {
        MatrixSettings {
            rows: 64,
            cols: 64,
            hardware_mapping: HARDWARE_MAPPING,
            show_refresh_rate: true,
            pwm_lsb_nanoseconds: 300,
            pwm_bits: Some(7),
            brightness: 30,
        }
    }
}

} // verus!
