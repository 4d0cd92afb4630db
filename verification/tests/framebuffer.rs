use elohim::framebuffer::{paint_test_pattern, pixel_index, stripe_color, HEIGHT, WIDTH};

#[test]
fn stripe_colors() {
    assert_eq!(stripe_color(0), 0xFF000000);
    assert_eq!(stripe_color(31), 0xFF000000);
    assert_eq!(stripe_color(32), 0xFFFF0000);
    assert_eq!(stripe_color(64), 0xFF00FF00);
    assert_eq!(stripe_color(96), 0xFF0000FF);
    assert_eq!(stripe_color(127), 0xFF0000FF);
    assert_eq!(stripe_color(128), 0xFF000000);
    assert_eq!(stripe_color(767), 0xFF0000FF);
}

#[test]
fn stripes_repeat_every_128_rows() {
    for row in 0..640 {
        assert_eq!(stripe_color(row), stripe_color(row + 128));
        assert_eq!(stripe_color(row) & 0xFF000000, 0xFF000000);
    }
}

#[test]
fn pixel_indices() {
    assert_eq!(pixel_index(0, 0), 0);
    assert_eq!(pixel_index(1, 0), 0x400);
    assert_eq!(pixel_index(767, 1023), WIDTH * HEIGHT - 1);
}

#[test]
fn whole_screen_painted() {
    let mut fb = vec![0u32; WIDTH * HEIGHT];
    paint_test_pattern(&mut fb);
    for row in 0..HEIGHT {
        let c = stripe_color(row);
        for col in 0..WIDTH {
            assert_eq!(fb[pixel_index(row, col)], c);
        }
    }
}
