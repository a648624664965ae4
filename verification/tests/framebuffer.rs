use game_of_life::framebuffer::Framebuffer;

#[test]
fn new_framebuffer_is_black() {
    let fb = Framebuffer::new(5, 4);
    assert_eq!(fb.width, 5);
    assert_eq!(fb.height, 4);
    assert_eq!(fb.current_color, 0);
    assert_eq!(fb.pixels, vec![0u32; 20]);
}

#[test]
fn point_writes_current_color_row_major() {
    let mut fb = Framebuffer::new(5, 4);
    fb.set_current_color(0xFF00FF);
    fb.point(2, 3);
    for i in 0..20 {
        let expected = if i == 3 * 5 + 2 { 0xFF00FF } else { 0 };
        assert_eq!(fb.pixels[i], expected);
    }
}

#[test]
fn point_outside_declared_area_is_dropped() {
    let mut fb = Framebuffer::new(5, 4);
    fb.set_current_color(0xABCDEF);
    fb.point(5, 0);
    fb.point(0, 4);
    fb.point(usize::MAX, usize::MAX);
    assert_eq!(fb.pixels, vec![0u32; 20]);
}

#[test]
fn set_current_color_touches_no_pixel() {
    let mut fb = Framebuffer::new(3, 3);
    fb.set_current_color(0x123456);
    assert_eq!(fb.current_color, 0x123456);
    fb.set_current_color(0x654321);
    assert_eq!(fb.current_color, 0x654321);
    assert_eq!(fb.pixels, vec![0u32; 9]);
}
