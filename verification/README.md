# demo_as_code_postprocess

Post-processing for browser demo recordings: every decoded frame is cropped to
a zoom window that follows the mouse, scaled back to the full frame, and
marked with a red cursor disc, then handed to the encoder.

- `src/` is the verified library:
  - `timeline` locates a moment on a time-stamped log (binary search);
  - `crop` places the zoom window inside the frame and copies its pixels;
  - `cursor` paints the cursor disc;
  - `image_ops` holds the trusted calls into `fast_image_resize`;
  - `compose` keeps the canvas, resizer and frame count between frames;
  - `command` builds the ffmpeg command lines, `text` decimal text.
- `app/` holds what the library does not: the Node binding, the ffmpeg
  processes and pipes, and the floating-point interpolation and easing.
- `tests/` exercises the library on concrete frames and logs.
