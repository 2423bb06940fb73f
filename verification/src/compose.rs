//! Composing the output frames: crop the zoomed window out of each decoded
//! frame, scale it back to the full frame on a canvas kept between frames,
//! and paint the cursor on top.

use vstd::prelude::*;
use fast_image_resize::Resizer;
use crate::crop::{CropWindow, crop_rgb, crop_fits, cropped, full_window_crop_is_identity};
use crate::cursor::{draw_cursor, with_cursor, cursor_fits, cursor_coordinates_fit, cursor_paints};
use crate::image_ops::{rgb_len, bilinear_rgb, blank_rgb_image, rgb_image_from_vec, image_into_bytes, new_resizer, resize_bilinear};

verus! {

/// The radius, in pixels, of the cursor disc painted on every frame.
pub const CURSOR_RADIUS: i32 = 8;

/// The picture under the cursor for the next frame: window `win` of `frame`
/// scaled with bilinear interpolation to the `width` x `height` frame, or,
/// when the window or the frame has no pixels, the previous canvas unchanged.
pub open spec fn scaled_view(canvas: Seq<u8>, frame: Seq<u8>, width: u32, height: u32, win: CropWindow) -> Seq<u8> {
    if win.w == 0 || win.h == 0 || width == 0 || height == 0 {
        canvas
    } else {
        bilinear_rgb(cropped(frame, width as int, win), win.w, win.h, width, height)
    }
}

/// The state carried from one output frame to the next: the resizer, the
/// canvas the scaled view and the cursor are drawn on, and the number of
/// frames composed so far.
pub struct Compositor {
    resizer: Resizer,
    canvas: Vec<u8>,
    width: u32,
    height: u32,
    frames: u64,
}

/// Frame sizes whose every byte offset fits a 32-bit signed number: at such
/// sizes any window inside the frame can be cropped and any cursor painted.
pub open spec fn composable_size(width: u32, height: u32) -> bool {
    &&& width <= i32::MAX
    &&& height <= i32::MAX
    &&& rgb_len(width, height) <= i32::MAX
}

/// At a composable size, every window inside the frame can be cropped.
pub proof fn window_fits_composable_frame(width: u32, height: u32, win: CropWindow)
    requires
        composable_size(width, height),
        win.x + win.w <= width,
        win.y + win.h <= height,
    ensures
        crop_fits(rgb_len(width, height), width as int, win),
{
    let w = width as int;
    let h = height as int;
    assert(3 * (win.w as int) * (win.h as int) <= 3 * w * h) by (nonlinear_arith)
        requires
            0 <= win.w <= w,
            0 <= win.h <= h,
    ;
    if win.h > 0 {
        assert(((win.y + win.h - 1) * w + win.x + win.w) * 3 <= 3 * w * h) by (nonlinear_arith)
            requires
                win.y + win.h <= h,
                win.x + win.w <= w,
                win.h >= 1,
                w >= 0,
        ;
    }
}

/// At a composable size, the cursor can be painted anywhere.
pub proof fn cursor_fits_composable_frame(width: u32, height: u32, cx: int, cy: int, radius: int)
    requires
        composable_size(width, height),
    ensures
        cursor_fits(rgb_len(width, height), cx, cy, width, height, radius),
{
    assert forall|px: int, py: int|
        #![trigger cursor_paints(cx, cy, width, height, radius, px, py)]
        cursor_paints(cx, cy, width, height, radius, px, py) implies {
            &&& 3 * (py * width + px) + 2 < rgb_len(width, height)
            &&& 3 * (py * width + px) <= i32::MAX
        } by {
        assert(py * width + px <= (height - 1) * width + width - 1) by (nonlinear_arith)
            requires
                0 <= px < width,
                0 <= py < height,
        ;
        assert((height - 1) * width + width == width * height) by (nonlinear_arith);
        assert(rgb_len(width, height) == 3 * (width * height)) by (nonlinear_arith);
    }
}

impl Compositor {
    /// The canvas is an RGB24 image of the frame size.
    pub closed spec fn wf(&self) -> bool {
        &&& self.canvas@.len() == rgb_len(self.width, self.height)
        &&& rgb_len(self.width, self.height) <= usize::MAX
    }

    /// The bytes of the canvas: the last composed frame.
    pub closed spec fn canvas_bytes(&self) -> Seq<u8> {
        self.canvas@
    }

    /// The width of the output frames.
    pub closed spec fn frame_width(&self) -> u32 {
        self.width
    }

    /// The height of the output frames.
    pub closed spec fn frame_height(&self) -> u32 {
        self.height
    }

    /// The number of frames composed so far.
    pub closed spec fn frames_composed(&self) -> u64 {
        self.frames
    }

    /// A compositor for output frames of `width` x `height` pixels, with a
    /// black canvas and no frame composed yet.
    pub fn new(width: u32, height: u32) -> (c: Self)
        requires
            rgb_len(width, height) <= usize::MAX,
        ensures
            c.wf(),
            c.frame_width() == width,
            c.frame_height() == height,
            c.frames_composed() == 0,
            c.canvas_bytes() == Seq::new(rgb_len(width, height) as nat, |i: int| 0u8),
    {
        let image = blank_rgb_image(width, height);
        let canvas = image_into_bytes(image);
        Compositor { resizer: new_resizer(), canvas, width, height, frames: 0 }
    }

    /// The width of the output frames.
    pub fn width(&self) -> (w: u32)
        ensures
            w == self.frame_width(),
    {
        self.width
    }

    /// The height of the output frames.
    pub fn height(&self) -> (h: u32)
        ensures
            h == self.frame_height(),
    {
        self.height
    }

    /// The number of frames composed so far.
    pub fn frames_done(&self) -> (n: u64)
        ensures
            n == self.frames_composed(),
    {
        self.frames
    }

    /// The number of bytes of one RGB24 frame.
    pub fn frame_bytes(&self) -> (n: usize)
        requires
            self.wf(),
        ensures
            n == rgb_len(self.frame_width(), self.frame_height()),
    {
        self.canvas.len()
    }

    /// The bytes of the last composed frame.
    pub fn canvas(&self) -> (bytes: &[u8])
        ensures
            bytes@ == self.canvas_bytes(),
    {
        self.canvas.as_slice()
    }

    /// Composes the next output frame from the decoded RGB24 `frame` (its
    /// first `3 * width * height` bytes; any bytes beyond are not read): the
    /// window `win` is cropped out, scaled with bilinear interpolation onto
    /// the whole canvas, and the cursor is painted centred on
    /// `(cursor_x, cursor_y)`. When the window or the frame has no pixels
    /// the canvas keeps the previous frame under the new cursor; when the
    /// window is the whole frame the frame itself comes out under the cursor.
    /// The canvas always holds exactly one frame's bytes.
    pub fn compose_frame(&mut self, frame: &[u8], win: CropWindow, cursor_x: i32, cursor_y: i32)
        requires
            old(self).wf(),
            frame@.len() >= rgb_len(old(self).frame_width(), old(self).frame_height()),
            win.x + win.w <= old(self).frame_width(),
            win.y + win.h <= old(self).frame_height(),
            crop_fits(frame@.len() as int, old(self).frame_width() as int, win),
            cursor_fits(
                rgb_len(old(self).frame_width(), old(self).frame_height()),
                cursor_x as int,
                cursor_y as int,
                old(self).frame_width(),
                old(self).frame_height(),
                CURSOR_RADIUS as int,
            ),
            cursor_coordinates_fit(cursor_x, cursor_y, CURSOR_RADIUS),
            old(self).frames_composed() < u64::MAX,
        ensures
            final(self).wf(),
            final(self).frame_width() == old(self).frame_width(),
            final(self).frame_height() == old(self).frame_height(),
            final(self).frames_composed() == old(self).frames_composed() + 1,
            final(self).canvas_bytes().len() == rgb_len(old(self).frame_width(), old(self).frame_height()),
            final(self).canvas_bytes() == with_cursor(
                scaled_view(old(self).canvas_bytes(), frame@, old(self).frame_width(), old(self).frame_height(), win),
                cursor_x as int,
                cursor_y as int,
                old(self).frame_width(),
                old(self).frame_height(),
                CURSOR_RADIUS as int,
            ),
            (win.w == old(self).frame_width() && win.h == old(self).frame_height()) ==> final(self).canvas_bytes()
                == with_cursor(
                frame@.subrange(0, rgb_len(old(self).frame_width(), old(self).frame_height())),
                cursor_x as int,
                cursor_y as int,
                old(self).frame_width(),
                old(self).frame_height(),
                CURSOR_RADIUS as int,
            ),
    {
        let width = self.width;
        let height = self.height;
        proof {
            if win.w == width && win.h == height {
                full_window_crop_is_identity(frame@, width, height, win);
            }
        }
        let window = crop_rgb(frame, width, win);
        let src = rgb_image_from_vec(win.w, win.h, window).unwrap();
        let mut canvas: Vec<u8> = Vec::new();
        std::mem::swap(&mut canvas, &mut self.canvas);
        let mut dst = rgb_image_from_vec(width, height, canvas).unwrap();
        let resized = resize_bilinear(&mut self.resizer, &src, &mut dst);
        assert(resized is Ok);
        let mut bytes = image_into_bytes(dst);
        draw_cursor(cursor_x, cursor_y, width, height, CURSOR_RADIUS, bytes.as_mut_slice());
        self.canvas = bytes;
        self.frames = self.frames + 1;
    }
}

} // verus!
