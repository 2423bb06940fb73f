use demo_as_code_postprocess::compose::{Compositor, CURSOR_RADIUS};
use demo_as_code_postprocess::crop::CropWindow;

#[test]
fn new_compositor_has_black_canvas() {
    let c = Compositor::new(4, 3);
    assert_eq!(c.width(), 4);
    assert_eq!(c.height(), 3);
    assert_eq!(c.frames_done(), 0);
    assert_eq!(c.frame_bytes(), 36);
    assert!(c.canvas().iter().all(|&b| b == 0));
    assert_eq!(CURSOR_RADIUS, 8);
}

#[test]
fn unit_zoom_passes_frame_through_with_cursor() {
    let (w, h) = (30u32, 20u32);
    let frame: Vec<u8> = (0..(w * h * 3)).map(|i| (i % 251) as u8).collect();
    let mut c = Compositor::new(w, h);
    c.compose_frame(&frame, CropWindow { x: 0, y: 0, w, h }, 10, 10);
    assert_eq!(c.frames_done(), 1);
    let mut expected = frame.clone();
    demo_as_code_postprocess::cursor::draw_cursor(10, 10, w, h, 8, &mut expected);
    assert_eq!(c.canvas(), &expected[..]);
}

#[test]
fn zoomed_window_is_scaled_to_the_whole_frame() {
    // a 4 x 4 frame, only its top-left 2 x 2 block is green; zoom on that block
    let (w, h) = (4u32, 4u32);
    let mut frame = vec![0u8; (w * h * 3) as usize];
    for y in 0..2 {
        for x in 0..2 {
            let i = ((y * w + x) * 3) as usize;
            frame[i + 1] = 200;
        }
    }
    let mut c = Compositor::new(w, h);
    // cursor far outside the frame so only the scaled picture remains
    c.compose_frame(&frame, CropWindow { x: 0, y: 0, w: 2, h: 2 }, 1000, 1000);
    let canvas = c.canvas();
    assert_eq!(canvas.len(), 48);
    // every output pixel comes from the green block (up to interpolation rounding)
    for p in canvas.chunks(3) {
        assert!(p[0] <= 2 && p[2] <= 2 && p[1] >= 198, "pixel {:?}", p);
    }
}

#[test]
fn empty_window_keeps_previous_canvas() {
    let (w, h) = (3u32, 3u32);
    let frame = vec![50u8; 27];
    let mut c = Compositor::new(w, h);
    c.compose_frame(&frame, CropWindow { x: 0, y: 0, w, h }, -100, -100);
    assert!(c.canvas().iter().all(|&b| b == 50));
    let other = vec![9u8; 27];
    c.compose_frame(&other, CropWindow { x: 1, y: 1, w: 0, h: 0 }, -100, -100);
    assert!(c.canvas().iter().all(|&b| b == 50));
    assert_eq!(c.frames_done(), 2);
}

#[test]
fn zoom_follows_the_window_off_the_corner() {
    // a 6 x 4 frame: red everywhere but the 2 x 2 block at (3, 1), which is blue
    let (w, h) = (6u32, 4u32);
    let mut frame = vec![0u8; (w * h * 3) as usize];
    for y in 0..h {
        for x in 0..w {
            let i = ((y * w + x) * 3) as usize;
            if (3..5).contains(&x) && (1..3).contains(&y) {
                frame[i + 2] = 180;
            } else {
                frame[i] = 180;
            }
        }
    }
    let mut c = Compositor::new(w, h);
    c.compose_frame(&frame, CropWindow { x: 3, y: 1, w: 2, h: 2 }, -1000, -1000);
    for p in c.canvas().chunks(3) {
        assert!(p[0] <= 2 && p[1] <= 2 && p[2] >= 178, "pixel {:?}", p);
    }
    assert_eq!(c.frames_done(), 1);
}

#[test]
fn longer_frame_buffer_reads_only_one_frame() {
    let (w, h) = (4u32, 4u32);
    let mut frame: Vec<u8> = (0..(w * h * 3)).map(|i| (i % 200) as u8).collect();
    let exact = frame.clone();
    frame.extend_from_slice(&[255, 255, 255]);
    let mut c = Compositor::new(w, h);
    c.compose_frame(&frame, CropWindow { x: 0, y: 0, w, h }, -500, -500);
    assert_eq!(c.canvas(), &exact[..]);
    assert_eq!(c.canvas().len(), 48);
    c.compose_frame(&frame, CropWindow { x: 1, y: 1, w: 2, h: 2 }, -500, -500);
    assert_eq!(c.canvas().len(), 48);
}
