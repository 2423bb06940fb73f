use demo_as_code_postprocess::cursor::draw_cursor;

fn pixel(buf: &[u8], width: usize, x: usize, y: usize) -> [u8; 3] {
    let i = (y * width + x) * 3;
    [buf[i], buf[i + 1], buf[i + 2]]
}

#[test]
fn cursor_paints_disc_in_red() {
    let (w, h) = (20usize, 20usize);
    let mut buf = vec![7u8; w * h * 3];
    draw_cursor(10, 10, w as u32, h as u32, 3, &mut buf);
    // centre and points at distance 3 along the axes are painted
    assert_eq!(pixel(&buf, w, 10, 10), [255, 0, 0]);
    assert_eq!(pixel(&buf, w, 13, 10), [255, 0, 0]);
    assert_eq!(pixel(&buf, w, 10, 7), [255, 0, 0]);
    assert_eq!(pixel(&buf, w, 12, 12), [255, 0, 0]);
    // corner of the bounding square lies outside the disc (9 + 9 > 9)
    assert_eq!(pixel(&buf, w, 13, 13), [7, 7, 7]);
    assert_eq!(pixel(&buf, w, 14, 10), [7, 7, 7]);
    let painted = (0..w * h).filter(|p| pixel(&buf, w, p % w, p / w) == [255, 0, 0]).count();
    // lattice points with dx^2 + dy^2 <= 9
    assert_eq!(painted, 29);
}

#[test]
fn cursor_is_clipped_at_frame_edges() {
    let (w, h) = (10usize, 6usize);
    let mut buf = vec![1u8; w * h * 3];
    draw_cursor(0, 0, w as u32, h as u32, 2, &mut buf);
    assert_eq!(buf.len(), w * h * 3);
    assert_eq!(pixel(&buf, w, 0, 0), [255, 0, 0]);
    assert_eq!(pixel(&buf, w, 2, 0), [255, 0, 0]);
    assert_eq!(pixel(&buf, w, 1, 1), [255, 0, 0]);
    assert_eq!(pixel(&buf, w, 2, 1), [1, 1, 1]);
    // the last pixel of the first row is not reached by wrap-around
    assert_eq!(pixel(&buf, w, 9, 0), [1, 1, 1]);
    assert_eq!(pixel(&buf, w, 9, 5), [1, 1, 1]);
}

#[test]
fn cursor_outside_frame_changes_nothing() {
    let mut buf = vec![9u8; 4 * 4 * 3];
    draw_cursor(100, -50, 4, 4, 8, &mut buf);
    assert!(buf.iter().all(|&b| b == 9));
}

#[test]
fn negative_radius_draws_nothing() {
    let mut buf = vec![9u8; 4 * 4 * 3];
    draw_cursor(1, 1, 4, 4, -1, &mut buf);
    assert!(buf.iter().all(|&b| b == 9));
}

#[test]
fn cursor_twice_equals_once() {
    let mut once = vec![3u8; 12 * 12 * 3];
    draw_cursor(5, 6, 12, 12, 4, &mut once);
    let mut twice = once.clone();
    draw_cursor(5, 6, 12, 12, 4, &mut twice);
    assert_eq!(once, twice);
}

#[test]
fn zero_radius_paints_one_pixel() {
    let mut buf = vec![0u8; 3 * 3 * 3];
    draw_cursor(1, 2, 3, 3, 0, &mut buf);
    assert_eq!(pixel(&buf, 3, 1, 2), [255, 0, 0]);
    assert_eq!(buf.iter().filter(|&&b| b == 255).count(), 1);
}
