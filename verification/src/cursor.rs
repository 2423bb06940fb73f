//! The cursor overlay: a filled red disc painted into an RGB24 frame.

use vstd::prelude::*;

verus! {

/// The red, green and blue bytes of the cursor's colour.
pub open spec fn cursor_channel(k: int) -> u8 {
    if k == 0 { 255u8 } else { 0u8 }
}

/// The cursor disc of radius `radius` centred on `(cx, cy)` holds `(px, py)`.
/// A negative radius draws nothing.
pub open spec fn in_cursor_disc(cx: int, cy: int, radius: int, px: int, py: int) -> bool {
    &&& radius >= 0
    &&& (px - cx) * (px - cx) + (py - cy) * (py - cy) <= radius * radius
}

/// `(px, py)` lies inside a frame of `width` x `height` pixels whose sizes are
/// compared as 32-bit signed numbers.
pub open spec fn in_frame(width: u32, height: u32, px: int, py: int) -> bool {
    &&& width <= i32::MAX
    &&& height <= i32::MAX
    &&& 0 <= px < width
    &&& 0 <= py < height
}

/// The pixel at `(px, py)` is painted by the cursor.
pub open spec fn cursor_paints(
    cx: int,
    cy: int,
    width: u32,
    height: u32,
    radius: int,
    px: int,
    py: int,
) -> bool {
    in_frame(width, height, px, py) && in_cursor_disc(cx, cy, radius, px, py)
}

/// The pixel with row-major number `p` is painted by the cursor.
pub open spec fn cursor_paints_pixel(
    cx: int,
    cy: int,
    width: u32,
    height: u32,
    radius: int,
    p: int,
) -> bool {
    &&& width > 0
    &&& 0 <= p
    &&& cursor_paints(cx, cy, width, height, radius, p % (width as int), p / (width as int))
}

/// The frame `buf` with the cursor painted over it: every byte of a painted
/// pixel takes the cursor's colour, every other byte stays.
pub open spec fn with_cursor(
    buf: Seq<u8>,
    cx: int,
    cy: int,
    width: u32,
    height: u32,
    radius: int,
) -> Seq<u8> {
    Seq::new(
        buf.len(),
        |i: int|
            if cursor_paints_pixel(cx, cy, width, height, radius, i / 3) {
                cursor_channel(i % 3)
            } else {
                buf[i]
            },
    )
}

/// Every painted pixel has its three bytes inside a buffer of `len` bytes, and
/// its byte offset fits a 32-bit signed number.
pub open spec fn cursor_fits(
    len: int,
    cx: int,
    cy: int,
    width: u32,
    height: u32,
    radius: int,
) -> bool {
    forall|px: int, py: int|
        #![trigger cursor_paints(cx, cy, width, height, radius, px, py)]
        cursor_paints(cx, cy, width, height, radius, px, py) ==> {
            &&& 3 * (py * width + px) + 2 < len
            &&& 3 * (py * width + px) <= i32::MAX
        }
}

/// The coordinates of the cursor's bounding square stay within 32-bit signed numbers.
pub open spec fn cursor_coordinates_fit(rel_x: i32, rel_y: i32, radius: i32) -> bool {
    &&& radius > i32::MIN
    &&& radius >= 0 ==> {
        &&& 2 * radius * radius <= i32::MAX
        &&& i32::MIN <= rel_x - radius
        &&& rel_x + radius <= i32::MAX
        &&& i32::MIN <= rel_y - radius
        &&& rel_y + radius <= i32::MAX
    }
}

/// The pixels painted so far when the scan has reached row offset `dy_lim`
/// and column offset `dx_lim`.
spec fn painted_before(
    cx: int,
    cy: int,
    width: u32,
    height: u32,
    radius: int,
    dy_lim: int,
    dx_lim: int,
    p: int,
) -> bool {
    &&& cursor_paints_pixel(cx, cy, width, height, radius, p)
    &&& {
        let dy = p / (width as int) - cy;
        let dx = p % (width as int) - cx;
        dy < dy_lim || (dy == dy_lim && dx < dx_lim)
    }
}

/// Painting the cursor a second time at the same place changes nothing.
pub proof fn cursor_is_idempotent(buf: Seq<u8>, cx: int, cy: int, width: u32, height: u32, radius: int)
    ensures
        with_cursor(with_cursor(buf, cx, cy, width, height, radius), cx, cy, width, height, radius)
            == with_cursor(buf, cx, cy, width, height, radius),
{
    assert(with_cursor(with_cursor(buf, cx, cy, width, height, radius), cx, cy, width, height, radius)
        =~= with_cursor(buf, cx, cy, width, height, radius));
}

/// Painting the cursor keeps the frame's length and touches only the bytes
/// of painted pixels.
pub proof fn cursor_touches_only_its_disc(buf: Seq<u8>, cx: int, cy: int, width: u32, height: u32, radius: int, i: int)
    requires
        0 <= i < buf.len(),
        !cursor_paints_pixel(cx, cy, width, height, radius, i / 3),
    ensures
        with_cursor(buf, cx, cy, width, height, radius).len() == buf.len(),
        with_cursor(buf, cx, cy, width, height, radius)[i] == buf[i],
{
}

proof fn lemma_square_bound(x: int, r: int)
    requires
        r >= 0,
        x * x <= r * r,
    ensures
        -r <= x <= r,
{
    if x > r {
        assert(x * x > r * r) by (nonlinear_arith)
            requires
                x > r,
                r >= 0,
        ;
    }
    if x < -r {
        assert(x * x > r * r) by (nonlinear_arith)
            requires
                x < -r,
                r >= 0,
        ;
    }
}

proof fn lemma_pixel_coordinates(p: int, width: int)
    requires
        width > 0,
        p >= 0,
    ensures
        p == (p / width) * width + p % width,
        0 <= p % width < width,
        p / width >= 0,
{
    vstd::arithmetic::div_mod::lemma_fundamental_div_mod(p, width);
    assert(width * (p / width) == (p / width) * width) by (nonlinear_arith);
    vstd::arithmetic::div_mod::lemma_div_pos_is_pos(p, width);
}

proof fn lemma_pixel_number(px: int, py: int, width: int)
    requires
        width > 0,
        0 <= px < width,
        py >= 0,
    ensures
        (py * width + px) % width == px,
        (py * width + px) / width == py,
        py * width + px >= 0,
{
    vstd::arithmetic::div_mod::lemma_fundamental_div_mod_converse(py * width + px, width, py, px);
    assert(py * width >= 0) by (nonlinear_arith)
        requires
            py >= 0,
            width > 0,
    ;
}

/// What painting the cursor does to a frame of `width` x `height` pixels:
/// every pixel of the frame within distance `radius` of `(cx, cy)` becomes
/// red, every other byte keeps its value, and the length stays. (Frame sizes
/// are compared as 32-bit signed numbers, so a side beyond `i32::MAX` holds
/// no painted pixel.)
pub proof fn with_cursor_paints_exactly_the_disc(buf: Seq<u8>, cx: int, cy: int, width: u32, height: u32, radius: int)
    ensures
        with_cursor(buf, cx, cy, width, height, radius).len() == buf.len(),
        forall|px: int, py: int, k: int|
            #![trigger with_cursor(buf, cx, cy, width, height, radius)[3 * (py * width + px) + k]]
            0 <= px < width && 0 <= py < height && 0 <= k < 3 && width <= i32::MAX && height <= i32::MAX
                && 3 * (py * width + px) + k < buf.len() ==> with_cursor(buf, cx, cy, width, height, radius)[3 * (py
                * width + px) + k] == if radius >= 0 && (px - cx) * (px - cx) + (py - cy) * (py - cy) <= radius
                * radius {
                if k == 0 { 255u8 } else { 0u8 }
            } else {
                buf[3 * (py * width + px) + k]
            },
        forall|i: int|
            #![trigger with_cursor(buf, cx, cy, width, height, radius)[i]]
            3 * (width as int) * (height as int) <= i < buf.len() ==> with_cursor(buf, cx, cy, width, height, radius)[i]
                == buf[i],
{
    let out = with_cursor(buf, cx, cy, width, height, radius);
    assert forall|px: int, py: int, k: int|
        0 <= px < width && 0 <= py < height && 0 <= k < 3 && width <= i32::MAX && height <= i32::MAX
            && 3 * (py * width + px) + k < buf.len() implies #[trigger] out[3 * (py * width + px) + k] == if radius >= 0
            && (px - cx) * (px - cx) + (py - cy) * (py - cy) <= radius * radius {
            if k == 0 { 255u8 } else { 0u8 }
        } else {
            buf[3 * (py * width + px) + k]
        } by {
        let q = py * width + px;
        lemma_pixel_number(px, py, width as int);
        vstd::arithmetic::div_mod::lemma_fundamental_div_mod_converse(3 * q + k, 3, q, k);
        assert((3 * q + k) / 3 == q);
        assert((3 * q + k) % 3 == k);
    }
    assert forall|i: int| 3 * (width as int) * (height as int) <= i < buf.len() implies #[trigger] out[i] == buf[i] by {
        let p = i / 3;
        if width > 0 && p >= 0 {
            lemma_pixel_coordinates(p, width as int);
            let w = width as int;
            if p / w < height {
                assert(p <= (height - 1) * w + w - 1) by (nonlinear_arith)
                    requires
                        p == (p / w) * w + p % w,
                        0 <= p % w < w,
                        0 <= p / w <= height - 1,
                ;
                assert((height - 1) * w + w == height * w) by (nonlinear_arith);
                assert(3 * (width as int) * (height as int) == 3 * (height * w)) by (nonlinear_arith)
                    requires
                        w == width as int,
                ;
                assert(i == 3 * p + i % 3);
            }
        }
    }
}

/// Paints a filled disc of radius `cursor_radius`, centred on `(rel_x, rel_y)`,
/// in red into the RGB24 frame `dst_buffer` of `width` x `height` pixels;
/// the parts of the disc outside the frame are left out.
pub fn draw_cursor(
    rel_x: i32,
    rel_y: i32,
    width: u32,
    height: u32,
    cursor_radius: i32,
    dst_buffer: &mut [u8],
)
    requires
        cursor_coordinates_fit(rel_x, rel_y, cursor_radius),
        cursor_fits(old(dst_buffer)@.len() as int, rel_x as int, rel_y as int, width, height, cursor_radius as int),
    ensures
        final(dst_buffer)@ == with_cursor(old(dst_buffer)@, rel_x as int, rel_y as int, width, height, cursor_radius as int),
        final(dst_buffer)@.len() == old(dst_buffer)@.len(),
        forall|px: int, py: int, k: int|
            #![trigger final(dst_buffer)@[3 * (py * width + px) + k]]
            0 <= px < width && 0 <= py < height && 0 <= k < 3 && width <= i32::MAX && height <= i32::MAX
                && 3 * (py * width + px) + k < old(dst_buffer)@.len() ==> final(dst_buffer)@[3 * (py * width + px) + k]
                == if cursor_radius >= 0 && (px - rel_x) * (px - rel_x) + (py - rel_y) * (py - rel_y) <= cursor_radius
                * cursor_radius {
                if k == 0 { 255u8 } else { 0u8 }
            } else {
                old(dst_buffer)@[3 * (py * width + px) + k]
            },
        forall|i: int|
            #![trigger final(dst_buffer)@[i]]
            3 * (width as int) * (height as int) <= i < old(dst_buffer)@.len() ==> final(dst_buffer)@[i] == old(
                dst_buffer,
            )@[i],
{
    let ghost cx = rel_x as int;
    let ghost cy = rel_y as int;
    let ghost r = cursor_radius as int;
    let ghost orig = dst_buffer@;
    let cursor_color: [u8; 3] = [255u8, 0, 0];
    let mut dy: i32 = -cursor_radius;
    proof {
        if r >= 0 {
            assert(r <= 46341) by (nonlinear_arith)
                requires
                    r >= 0,
                    2 * r * r <= 0x7fff_ffff,
            ;
        }
        assert forall|p: int| !#[trigger] painted_before(cx, cy, width, height, r, -r, -r, p) by {
            if cursor_paints_pixel(cx, cy, width, height, r, p) {
                let ddx = p % (width as int) - cx;
                let ddy = p / (width as int) - cy;
                assert(ddy * ddy <= r * r && ddx * ddx <= r * r) by (nonlinear_arith)
                    requires
                        ddx * ddx + ddy * ddy <= r * r,
                ;
                lemma_square_bound(ddy, r);
                lemma_square_bound(ddx, r);
            }
        }
    }
    while dy <= cursor_radius
        invariant
            cursor_coordinates_fit(rel_x, rel_y, cursor_radius),
            cursor_fits(orig.len() as int, cx, cy, width, height, r),
            cx == rel_x,
            cy == rel_y,
            r == cursor_radius,
            cursor_color@ == seq![255u8, 0u8, 0u8],
            -r <= dy,
            r >= 0 ==> dy <= r + 1,
            r <= 46341,
            dst_buffer@.len() == orig.len(),
            forall|i: int|
                #![trigger dst_buffer@[i]]
                0 <= i < orig.len() ==> dst_buffer@[i] == if painted_before(cx, cy, width, height, r, dy as int, -r, i / 3) {
                    cursor_channel(i % 3)
                } else {
                    orig[i]
                },
        decreases cursor_radius + 1 - dy,
    {
        let mut dx: i32 = -cursor_radius;
        while dx <= cursor_radius
            invariant
                cursor_coordinates_fit(rel_x, rel_y, cursor_radius),
                cursor_fits(orig.len() as int, cx, cy, width, height, r),
                cx == rel_x,
                cy == rel_y,
                r == cursor_radius,
                cursor_color@ == seq![255u8, 0u8, 0u8],
                -r <= dy <= r,
                -r <= dx <= r + 1,
                r <= 46341,
                dst_buffer@.len() == orig.len(),
                forall|i: int|
                    #![trigger dst_buffer@[i]]
                    0 <= i < orig.len() ==> dst_buffer@[i] == if painted_before(cx, cy, width, height, r, dy as int, dx as int, i / 3) {
                        cursor_channel(i % 3)
                    } else {
                        orig[i]
                    },
            decreases cursor_radius + 1 - dx,
        {
            let ghost before = dst_buffer@;
            assert(0 <= dx * dx <= r * r && 0 <= dy * dy <= r * r && 2 * r * r == 2 * (r * r)) by (nonlinear_arith)
                requires
                    -r <= dy <= r,
                    -r <= dx <= r,
            ;
            if dx * dx + dy * dy <= cursor_radius * cursor_radius {
                let pixel_x = rel_x + dx;
                let pixel_y = rel_y + dy;
                if pixel_x >= 0 && width <= 0x7fff_ffffu32 && (pixel_x as u32) < width && pixel_y >= 0
                    && height <= 0x7fff_ffffu32 && (pixel_y as u32) < height {
                    let ghost px = pixel_x as int;
                    let ghost py = pixel_y as int;
                    assert(cursor_paints(cx, cy, width, height, r, px, py));
                    assert(py * width + px >= 0) by (nonlinear_arith)
                        requires
                            py >= 0,
                            px >= 0,
                            width >= 0,
                    ;
                    let idx: usize = ((pixel_y as usize) * (width as usize) + (pixel_x as usize)) * 3;
                    dst_buffer[idx] = cursor_color[0];
                    dst_buffer[idx + 1] = cursor_color[1];
                    dst_buffer[idx + 2] = cursor_color[2];
                    proof {
                        let q = py * width + px;
                        lemma_pixel_number(px, py, width as int);
                        assert forall|i: int|
                            #![trigger dst_buffer@[i]]
                            0 <= i < orig.len() implies dst_buffer@[i] == if painted_before(cx, cy, width, height, r, dy as int, dx + 1, i / 3) {
                                cursor_channel(i % 3)
                            } else {
                                orig[i]
                            } by {
                            let p = i / 3;
                            assert(i == 3 * p + i % 3);
                            if p == q {
                                assert(i == idx || i == idx + 1 || i == idx + 2);
                                assert(painted_before(cx, cy, width, height, r, dy as int, dx + 1, p));
                            } else {
                                assert(dst_buffer@[i] == before[i]);
                                lemma_pixel_coordinates(p, width as int);
                                if painted_before(cx, cy, width, height, r, dy as int, dx + 1, p) {
                                    assert(painted_before(cx, cy, width, height, r, dy as int, dx as int, p));
                                } else {
                                    assert(!painted_before(cx, cy, width, height, r, dy as int, dx as int, p));
                                }
                            }
                        }
                    }
                } else {
                    proof {
                        assert forall|i: int|
                            #![trigger dst_buffer@[i]]
                            0 <= i < orig.len() implies dst_buffer@[i] == if painted_before(cx, cy, width, height, r, dy as int, dx + 1, i / 3) {
                                cursor_channel(i % 3)
                            } else {
                                orig[i]
                            } by {
                            let p = i / 3;
                            if p >= 0 && width > 0 {
                                lemma_pixel_coordinates(p, width as int);
                            }
                            if painted_before(cx, cy, width, height, r, dy as int, dx + 1, p) {
                                assert(painted_before(cx, cy, width, height, r, dy as int, dx as int, p));
                            }
                        }
                    }
                }
            } else {
                proof {
                    assert forall|i: int|
                        #![trigger dst_buffer@[i]]
                        0 <= i < orig.len() implies dst_buffer@[i] == if painted_before(cx, cy, width, height, r, dy as int, dx + 1, i / 3) {
                            cursor_channel(i % 3)
                        } else {
                            orig[i]
                        } by {
                        let p = i / 3;
                        if painted_before(cx, cy, width, height, r, dy as int, dx + 1, p) {
                            assert(painted_before(cx, cy, width, height, r, dy as int, dx as int, p));
                        }
                    }
                }
            }
            dx = dx + 1;
        }
        proof {
            assert forall|i: int|
                #![trigger dst_buffer@[i]]
                0 <= i < orig.len() implies dst_buffer@[i] == if painted_before(cx, cy, width, height, r, dy + 1, -r, i / 3) {
                    cursor_channel(i % 3)
                } else {
                    orig[i]
                } by {
                let p = i / 3;
                if cursor_paints_pixel(cx, cy, width, height, r, p) {
                    let ddx = p % (width as int) - cx;
                    let ddy = p / (width as int) - cy;
                    assert(ddx * ddx <= r * r) by (nonlinear_arith)
                        requires
                            ddx * ddx + ddy * ddy <= r * r,
                    ;
                    lemma_square_bound(ddx, r);
                }
            }
        }
        dy = dy + 1;
    }
    proof {
        assert forall|i: int| 0 <= i < orig.len() implies dst_buffer@[i] == with_cursor(orig, cx, cy, width, height, r)[i] by {
            let p = i / 3;
            if cursor_paints_pixel(cx, cy, width, height, r, p) {
                let ddy = p / (width as int) - cy;
                let ddx = p % (width as int) - cx;
                assert(ddy * ddy <= r * r) by (nonlinear_arith)
                    requires
                        ddx * ddx + ddy * ddy <= r * r,
                ;
                lemma_square_bound(ddy, r);
            }
        }
        assert(dst_buffer@ =~= with_cursor(orig, cx, cy, width, height, r));
        with_cursor_paints_exactly_the_disc(orig, cx, cy, width, height, r);
    }
}

} // verus!
