# bevy_rgb_matrix

Verified core of a set of programs that render Bevy scenes to a 64x64 RGB
LED panel on a Raspberry Pi (or preview them in a window).

- `src/` is the verified library:
  - `copy_layout`: padded row length and buffer size of the GPU-to-CPU copy;
  - `pixels`: row unpadding and the row-major pixel lists drawn on the panel;
  - `dither`: ordered 4x4 Bayer dithering down to the panel's PWM levels;
  - `matrix_ffi`: the C-layout colour and the bulk-upload size check;
  - `frame_count`, `settings`: keeping the newest received frame, counting
    polls that found frames, and the panel options;
  - `gpu_demo`, `frag_demo`, `game`, `matrix_demo`, `basic_demo`, `display`:
    the per-program logic (stable frame buffers, redraw-on-change, the
    toggling square, the renaming rule, the display backends).
- `app/` is the program around it: the Bevy plugins and systems, the GPU
  readback, the frame channel, and the calls into the LED matrix driver.
  Run it as `app [game|square|gpu|frag|cube] [--window] [--matrix]`.
