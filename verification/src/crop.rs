//! The crop window: where the zoomed view lies in the full frame, and the
//! extraction of its pixels.

use vstd::prelude::*;

verus! {

/// A rectangle of `w` x `h` pixels whose top-left pixel is `(x, y)`.
#[derive(Debug, Clone, Copy, PartialEq, Eq, Structural)]
pub struct CropWindow {
    pub x: u32,
    pub y: u32,
    pub w: u32,
    pub h: u32,
}

/// The distance between `a` and `b` on the number line.
pub open spec fn distance(a: int, b: int) -> int {
    if a >= b { a - b } else { b - a }
}

/// `v` limited to the range `lo..=hi`.
pub open spec fn clamp(v: int, lo: int, hi: int) -> int {
    if v < lo {
        lo
    } else if v > hi {
        hi
    } else {
        v
    }
}

/// Places a crop window of `crop_w` x `crop_h` pixels whose top-left corner was
/// asked at `(pan_x, pan_y)`, moving it the least so that it lies inside the
/// `width` x `height` frame.
pub fn place_crop_window(width: u32, height: u32, crop_w: u32, crop_h: u32, pan_x: i32, pan_y: i32) -> (win: CropWindow)
    requires
        crop_w <= width,
        crop_h <= height,
        width - crop_w <= i32::MAX,
        height - crop_h <= i32::MAX,
    ensures
        win.x == clamp(pan_x as int, 0, width - crop_w),
        win.y == clamp(pan_y as int, 0, height - crop_h),
        win.w == crop_w,
        win.h == crop_h,
        win.x + win.w <= width,
        win.y + win.h <= height,
        0 <= pan_x <= width - crop_w ==> win.x == pan_x,
        0 <= pan_y <= height - crop_h ==> win.y == pan_y,
        pan_x < 0 ==> win.x == 0,
        pan_y < 0 ==> win.y == 0,
        pan_x > width - crop_w ==> win.x == width - crop_w,
        pan_y > height - crop_h ==> win.y == height - crop_h,
        forall|v: int| 0 <= v <= width - crop_w ==> distance(win.x as int, pan_x as int) <= #[trigger] distance(v, pan_x as int),
        forall|v: int| 0 <= v <= height - crop_h ==> distance(win.y as int, pan_y as int) <= #[trigger] distance(v, pan_y as int),
{
    let max_x = (width - crop_w) as i32;
    let max_y = (height - crop_h) as i32;
    let x = if pan_x < 0 { 0 } else if pan_x > max_x { max_x } else { pan_x };
    let y = if pan_y < 0 { 0 } else if pan_y > max_y { max_y } else { pan_y };
    let win = CropWindow { x: x as u32, y: y as u32, w: crop_w, h: crop_h };
    proof {
        nearest_in_range(pan_x as int, 0, width - crop_w, win.x as int);
        nearest_in_range(pan_y as int, 0, height - crop_h, win.y as int);
    }
    win
}

/// Of the points of `lo..=hi`, `c` is one nearest to `v` when it is `v`
/// itself, or the end of the range on `v`'s side.
proof fn nearest_in_range(v: int, lo: int, hi: int, c: int)
    requires
        lo <= c <= hi,
        (lo <= v <= hi ==> c == v),
        (v < lo ==> c == lo),
        (v > hi ==> c == hi),
    ensures
        forall|u: int| lo <= u <= hi ==> distance(c, v) <= #[trigger] distance(u, v),
{
}

/// The byte of the RGB24 frame (`width` pixels a row) that byte `i` of the
/// cropped window's row-major pixels copies.
pub open spec fn crop_source_index(width: int, win: CropWindow, i: int) -> int {
    let row_bytes = 3 * (win.w as int);
    ((win.y + i / row_bytes) * width + win.x) * 3 + i % row_bytes
}

/// The pixels of window `win` of the RGB24 frame `frame`, `width` pixels a row,
/// row after row.
pub open spec fn cropped(frame: Seq<u8>, width: int, win: CropWindow) -> Seq<u8> {
    Seq::new(
        (3 * (win.w as int) * (win.h as int)) as nat,
        |i: int| frame[crop_source_index(width, win, i)],
    )
}

/// Copying the window reads inside the frame, and every offset the copy
/// computes fits a 32-bit number.
pub open spec fn crop_fits(frame_len: int, width: int, win: CropWindow) -> bool {
    &&& 3 * (win.w as int) * (win.h as int) <= u32::MAX
    &&& win.h > 0 ==> {
        &&& win.y + win.h - 1 <= i32::MAX
        &&& ((win.y + win.h - 1) * width + win.x) * 3 <= i32::MAX
        &&& ((win.y + win.h - 1) * width + win.x + win.w) * 3 <= frame_len
    }
}

proof fn lemma_row_offsets(width: int, win: CropWindow, row: int)
    requires
        0 <= row < win.h,
        width >= 0,
    ensures
        0 <= (win.y + row) * width,
        0 <= ((win.y + row) * width + win.x) * 3,
        ((win.y + row) * width + win.x) * 3 <= ((win.y + win.h - 1) * width + win.x) * 3,
        ((win.y + row) * width + win.x + win.w) * 3 <= ((win.y + win.h - 1) * width + win.x + win.w) * 3,
{
    assert(0 <= (win.y + row) * width) by (nonlinear_arith)
        requires
            width >= 0,
            row >= 0,
    ;
    assert((win.y + row) * width <= (win.y + win.h - 1) * width) by (nonlinear_arith)
        requires
            width >= 0,
            row <= win.h - 1,
    ;
}

proof fn lemma_byte_position(row: int, j: int, row_bytes: int)
    requires
        row >= 0,
        0 <= j < row_bytes,
    ensures
        (row * row_bytes + j) / row_bytes == row,
        (row * row_bytes + j) % row_bytes == j,
{
    vstd::arithmetic::div_mod::lemma_fundamental_div_mod_converse(row * row_bytes + j, row_bytes, row, j);
}

/// Copies the pixels of window `win` out of the RGB24 frame `frame`, whose rows
/// are `width` pixels long.
pub fn crop_rgb(frame: &[u8], width: u32, win: CropWindow) -> (out: Vec<u8>)
    requires
        crop_fits(frame@.len() as int, width as int, win),
    ensures
        out@ == cropped(frame@, width as int, win),
{
    if win.h == 0 {
        proof {
            assert(cropped(frame@, width as int, win) =~= Seq::<u8>::empty());
        }
        return Vec::new();
    }
    assert(3 * win.w <= 3 * (win.w as int) * (win.h as int)) by (nonlinear_arith)
        requires
            win.h >= 1,
    ;
    let row_bytes: usize = (win.w as usize) * 3;
    assert(row_bytes * win.h <= u32::MAX) by (nonlinear_arith)
        requires
            row_bytes == 3 * win.w,
            3 * (win.w as int) * (win.h as int) <= u32::MAX,
    ;
    let total: usize = row_bytes * (win.h as usize);
    let frame_len: usize = frame.len();
    let mut out: Vec<u8> = Vec::with_capacity(total);
    let mut row: u32 = 0;
    while row < win.h
        invariant
            crop_fits(frame@.len() as int, width as int, win),
            row_bytes == 3 * win.w,
            total == row_bytes * win.h,
            frame_len == frame@.len(),
            row <= win.h,
            out@.len() == row * row_bytes,
            forall|i: int| 0 <= i < out@.len() ==> #[trigger] out@[i] == frame@[crop_source_index(width as int, win, i)],
        decreases win.h - row,
    {
        proof {
            lemma_row_offsets(width as int, win, row as int);
        }
        let line: usize = (win.y as usize) + (row as usize);
        let line_start: usize = line * (width as usize);
        let src_start: usize = (line_start + (win.x as usize)) * 3;
        let ghost done = out@;
        let mut j: usize = 0;
        while j < row_bytes
            invariant
                crop_fits(frame@.len() as int, width as int, win),
                row_bytes == 3 * win.w,
                row < win.h,
                src_start == ((win.y + row) * width + win.x) * 3,
                src_start + row_bytes <= frame@.len(),
                frame_len == frame@.len(),
                j <= row_bytes,
                done.len() == row * row_bytes,
                out@.len() == done.len() + j,
                forall|i: int| 0 <= i < done.len() ==> #[trigger] out@[i] == done[i],
                forall|k: int| 0 <= k < j ==> #[trigger] out@[done.len() + k] == frame@[src_start + k],
            decreases row_bytes - j,
        {
            out.push(frame[src_start + j]);
            j = j + 1;
        }
        proof {
            assert forall|i: int| 0 <= i < out@.len() implies #[trigger] out@[i] == frame@[crop_source_index(width as int, win, i)] by {
                if i >= done.len() {
                    let k = i - done.len();
                    assert(out@[done.len() + k] == frame@[src_start + k]);
                    lemma_byte_position(row as int, k, row_bytes as int);
                    assert(i == row * row_bytes + k) by (nonlinear_arith)
                        requires
                            i == done.len() + k,
                            done.len() == row * row_bytes,
                    ;
                }
            }
            assert((row + 1) * row_bytes == row * row_bytes + row_bytes) by (nonlinear_arith);
        }
        row = row + 1;
    }
    proof {
        assert(out@.len() == 3 * (win.w as int) * (win.h as int)) by (nonlinear_arith)
            requires
                out@.len() == row * row_bytes,
                row == win.h,
                row_bytes == 3 * win.w,
        ;
        assert(out@ =~= cropped(frame@, width as int, win));
    }
    out
}

/// Cropping the window that covers the whole frame gives back the frame's
/// pixels: its first `3 * width * height` bytes.
pub proof fn full_window_crop_is_identity(frame: Seq<u8>, width: u32, height: u32, win: CropWindow)
    requires
        win.x == 0,
        win.y == 0,
        win.w == width,
        win.h == height,
        frame.len() >= 3 * (width as int) * (height as int),
    ensures
        cropped(frame, width as int, win) == frame.subrange(0, 3 * (width as int) * (height as int)),
{
    let n = 3 * (width as int) * (height as int);
    let c = cropped(frame, width as int, win);
    assert(c.len() == n);
    if width == 0 {
        assert(n == 0) by (nonlinear_arith)
            requires
                width == 0,
                n == 3 * (width as int) * (height as int),
        ;
    } else {
        assert forall|i: int| 0 <= i < n implies c[i] == frame[i] by {
            let rb = 3 * (width as int);
            vstd::arithmetic::div_mod::lemma_fundamental_div_mod(i, rb);
            assert(crop_source_index(width as int, win, i) == (i / rb) * width * 3 + i % rb);
            assert((i / rb) * width * 3 == rb * (i / rb)) by (nonlinear_arith)
                requires
                    rb == 3 * (width as int),
            ;
            assert(c[i] == frame[crop_source_index(width as int, win, i)]);
        }
    }
    assert(c =~= frame.subrange(0, n));
}

} // verus!
