use demo_as_code_postprocess::crop::{crop_rgb, place_crop_window, CropWindow};

#[test]
fn window_is_kept_when_it_fits() {
    let win = place_crop_window(100, 50, 40, 20, 10, 5);
    assert_eq!(win, CropWindow { x: 10, y: 5, w: 40, h: 20 });
}

#[test]
fn window_is_pushed_inside_the_frame() {
    assert_eq!(place_crop_window(100, 50, 40, 20, -7, -1), CropWindow { x: 0, y: 0, w: 40, h: 20 });
    assert_eq!(place_crop_window(100, 50, 40, 20, 90, 45), CropWindow { x: 60, y: 30, w: 40, h: 20 });
    assert_eq!(place_crop_window(1920, 1080, 1920, 1080, 300, -3), CropWindow { x: 0, y: 0, w: 1920, h: 1080 });
}

#[test]
fn crop_copies_rows_of_the_window() {
    // 4 x 3 frame whose pixel (x, y) holds bytes [10y + x, 100 + 10y + x, 200]
    let (w, h) = (4u32, 3u32);
    let mut frame = Vec::new();
    for y in 0..h {
        for x in 0..w {
            frame.extend_from_slice(&[(10 * y + x) as u8, (100 + 10 * y + x) as u8, 200]);
        }
    }
    let out = crop_rgb(&frame, w, CropWindow { x: 1, y: 1, w: 2, h: 2 });
    assert_eq!(out, vec![11, 111, 200, 12, 112, 200, 21, 121, 200, 22, 122, 200]);
}

#[test]
fn full_window_crop_is_the_frame() {
    let frame: Vec<u8> = (0..(5 * 2 * 3)).map(|i| i as u8).collect();
    assert_eq!(crop_rgb(&frame, 5, CropWindow { x: 0, y: 0, w: 5, h: 2 }), frame);
}

#[test]
fn empty_window_crops_nothing() {
    let frame = vec![1u8; 2 * 2 * 3];
    assert!(crop_rgb(&frame, 2, CropWindow { x: 1, y: 1, w: 0, h: 1 }).is_empty());
    assert!(crop_rgb(&frame, 2, CropWindow { x: 0, y: 0, w: 2, h: 0 }).is_empty());
}
