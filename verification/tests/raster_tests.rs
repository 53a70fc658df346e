use star_raster::framebuffer::{Color, Framebuffer, DEPTH_FAR};
use star_raster::raster::{draw_fragments, valid_triangles, Fragment};

fn frag(x: usize, y: usize, c: (u8, u8, u8), depth: u32) -> Fragment {
    Fragment { x, y, color: Color::new(c.0, c.1, c.2), depth }
}

#[test]
fn valid_triangles_keeps_in_range_triples_in_order() {
    let indices: Vec<u32> = vec![0, 1, 2, 2, 9, 1, 3, 4, 5, 7];
    let ts = valid_triangles(&indices, 6);
    // The second triple holds 9 >= 6 and is skipped; the trailing 7 is an
    // incomplete triple and is skipped too.
    assert_eq!(ts, vec![(0, 1, 2), (3, 4, 5)]);
}

#[test]
fn valid_triangles_of_empty_stream_is_empty() {
    let indices: Vec<u32> = vec![];
    assert_eq!(valid_triangles(&indices, 10).len(), 0);
}

#[test]
fn all_indices_out_of_range_yield_no_triangles_and_no_change() {
    let indices: Vec<u32> = vec![5, 6, 7, 9, 8, 7, 100, 200, 300];
    let ts = valid_triangles(&indices, 5);
    assert_eq!(ts.len(), 0);
    // A draw call over such a mesh submits no fragment: the pre-cleared
    // framebuffer stays exactly as cleared.
    let mut fb = Framebuffer::new(3, 3);
    fb.clear(Color::new(5, 5, 15));
    let before: Vec<u8> = fb.as_bytes().to_vec();
    let fragments: Vec<Fragment> = Vec::new();
    draw_fragments(&mut fb, &fragments);
    assert_eq!(fb.as_bytes(), &before[..]);
    assert!(fb.zbuffer.iter().all(|&d| d == DEPTH_FAR));
}

#[test]
fn draw_fragments_applies_depth_test_per_pixel() {
    let mut fb = Framebuffer::new(4, 4);
    fb.clear(Color::new(0, 0, 0));
    let fragments = vec![
        frag(0, 0, (10, 0, 0), 300),
        frag(0, 0, (20, 0, 0), 200),
        frag(0, 0, (30, 0, 0), 250),
        frag(9, 9, (40, 0, 0), 1),
    ];
    draw_fragments(&mut fb, &fragments);
    let b = fb.as_bytes();
    assert_eq!(&b[0..4], &[20, 0, 0, 255]);
    assert_eq!(fb.zbuffer[0], 200);
}

#[test]
fn draw_order_of_two_overlapping_triangles_does_not_matter() {
    // Two overlapping "triangles" as fragment sets: the far one covers a
    // 2x2 block at depth 800, the near one covers a 2x2 block shifted by one
    // pixel at depth 300; they overlap on pixel (1, 1).
    let far = vec![
        frag(0, 0, (100, 0, 0), 800),
        frag(1, 0, (100, 0, 0), 800),
        frag(0, 1, (100, 0, 0), 800),
        frag(1, 1, (100, 0, 0), 800),
    ];
    let near = vec![
        frag(1, 1, (0, 200, 0), 300),
        frag(2, 1, (0, 200, 0), 300),
        frag(1, 2, (0, 200, 0), 300),
        frag(2, 2, (0, 200, 0), 300),
    ];

    let mut fb1 = Framebuffer::new(4, 4);
    fb1.clear(Color::new(0, 0, 0));
    draw_fragments(&mut fb1, &far);
    draw_fragments(&mut fb1, &near);

    let mut fb2 = Framebuffer::new(4, 4);
    fb2.clear(Color::new(0, 0, 0));
    draw_fragments(&mut fb2, &near);
    draw_fragments(&mut fb2, &far);

    assert_eq!(fb1.as_bytes(), fb2.as_bytes());
    assert_eq!(fb1.zbuffer, fb2.zbuffer);
    // The near triangle won the overlapped pixel.
    let i = (1 * 4 + 1) * 4;
    assert_eq!(&fb1.as_bytes()[i..i + 4], &[0, 200, 0, 255]);
    assert_eq!(fb1.zbuffer[1 * 4 + 1], 300);
}

#[test]
fn drawing_same_fragments_twice_gives_identical_framebuffers() {
    let fragments = vec![
        frag(0, 0, (1, 2, 3), 10),
        frag(3, 2, (4, 5, 6), 20),
        frag(1, 1, (7, 8, 9), 30),
        frag(1, 1, (10, 11, 12), 5),
    ];
    let mut fb1 = Framebuffer::new(4, 3);
    let mut fb2 = Framebuffer::new(4, 3);
    // The two framebuffers hold different junk before their clears.
    fb1.set_pixel(2, 2, Color::new(250, 250, 250), 1);
    fb1.clear(Color::new(9, 9, 9));
    fb2.clear(Color::new(9, 9, 9));
    draw_fragments(&mut fb1, &fragments);
    draw_fragments(&mut fb2, &fragments);
    assert_eq!(fb1.as_bytes(), fb2.as_bytes());
    assert_eq!(fb1.zbuffer, fb2.zbuffer);
}
