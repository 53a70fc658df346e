use star_raster::framebuffer::{Color, Framebuffer, DEPTH_FAR};

fn pixel(fb: &Framebuffer, x: usize, y: usize) -> (u8, u8, u8, u8) {
    let i = (y * fb.width + x) * 4;
    let b = fb.as_bytes();
    (b[i], b[i + 1], b[i + 2], b[i + 3])
}

#[test]
fn new_framebuffer_is_black_and_far() {
    let fb = Framebuffer::new(4, 3);
    assert_eq!(fb.width, 4);
    assert_eq!(fb.height, 3);
    assert_eq!(fb.as_bytes().len(), 4 * 3 * 4);
    assert_eq!(fb.zbuffer.len(), 4 * 3);
    assert!(fb.as_bytes().iter().all(|&b| b == 0));
    assert!(fb.zbuffer.iter().all(|&d| d == DEPTH_FAR));
}

#[test]
fn clear_sets_every_pixel_and_resets_depth() {
    let mut fb = Framebuffer::new(5, 4);
    fb.set_pixel(2, 2, Color::new(9, 9, 9), 100);
    fb.clear(Color::new(5, 5, 15));
    for y in 0..4 {
        for x in 0..5 {
            assert_eq!(pixel(&fb, x, y), (5, 5, 15, 255));
        }
    }
    assert!(fb.zbuffer.iter().all(|&d| d == DEPTH_FAR));
}

#[test]
fn set_pixel_writes_when_closer() {
    let mut fb = Framebuffer::new(4, 4);
    fb.clear(Color::new(0, 0, 0));
    fb.set_pixel(1, 2, Color::new(10, 20, 30), 500);
    assert_eq!(pixel(&fb, 1, 2), (10, 20, 30, 255));
    assert_eq!(fb.zbuffer[2 * 4 + 1], 500);
    // A strictly closer write lands.
    fb.set_pixel(1, 2, Color::new(40, 50, 60), 499);
    assert_eq!(pixel(&fb, 1, 2), (40, 50, 60, 255));
    assert_eq!(fb.zbuffer[2 * 4 + 1], 499);
}

#[test]
fn set_pixel_rejects_farther_and_equal_depth() {
    let mut fb = Framebuffer::new(4, 4);
    fb.clear(Color::new(0, 0, 0));
    fb.set_pixel(3, 3, Color::new(1, 2, 3), 1000);
    // Farther: rejected.
    fb.set_pixel(3, 3, Color::new(7, 7, 7), 1001);
    assert_eq!(pixel(&fb, 3, 3), (1, 2, 3, 255));
    assert_eq!(fb.zbuffer[3 * 4 + 3], 1000);
    // Equal depth: the earlier write wins.
    fb.set_pixel(3, 3, Color::new(8, 8, 8), 1000);
    assert_eq!(pixel(&fb, 3, 3), (1, 2, 3, 255));
}

#[test]
fn set_pixel_out_of_bounds_is_a_silent_no_op() {
    let mut fb = Framebuffer::new(4, 4);
    fb.clear(Color::new(2, 4, 6));
    let before: Vec<u8> = fb.as_bytes().to_vec();
    let depths_before = fb.zbuffer.clone();
    fb.set_pixel(4, 0, Color::new(99, 99, 99), 0);
    fb.set_pixel(0, 4, Color::new(99, 99, 99), 0);
    fb.set_pixel(1000, 1000, Color::new(99, 99, 99), 0);
    assert_eq!(fb.as_bytes(), &before[..]);
    assert_eq!(fb.zbuffer, depths_before);
}

#[test]
fn read_back_is_row_major_rgba() {
    let mut fb = Framebuffer::new(2, 2);
    fb.clear(Color::new(0, 0, 0));
    fb.set_pixel(1, 0, Color::new(11, 22, 33), 1);
    let b = fb.as_bytes();
    assert_eq!(&b[4..8], &[11, 22, 33, 255]);
    assert_eq!(&b[0..4], &[0, 0, 0, 255]);
}
