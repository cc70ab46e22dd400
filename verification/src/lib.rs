//! Frame-pipeline logic for driving an RGB LED panel from rendered scenes:
//! the layout of the GPU-to-CPU frame copy, row unpadding, the pixel lists
//! drawn on the panel, ordered dithering to the panel's PWM levels, and the
//! small state machines of the demo programs.

pub mod copy_layout;
pub mod dither;
pub mod matrix_ffi;
pub mod pixels;
pub mod frame_count;
pub mod settings;

pub mod basic_demo;
pub mod display;
pub mod frag_demo;
pub mod game;
pub mod gpu_demo;
pub mod matrix_demo;
