use ferris8::Display;

#[test]
fn new_display_is_blank() {
    let d = Display::new();
    assert_eq!(d.count_active_pixels(), 0);
    assert!(!d.get_pixel(0, 0));
}

#[test]
fn set_and_get_pixel() {
    let mut d = Display::new();
    d.set_pixel(3, 2, true);
    assert!(d.get_pixel(3, 2));
    assert!(!d.get_pixel(2, 3));
    d.set_pixel(3, 2, false);
    assert!(!d.get_pixel(3, 2));
}

#[test]
fn set_pixel_wraps_coordinates() {
    let mut d = Display::new();
    d.set_pixel(64, 32, true); // wraps to (0, 0)
    assert!(d.get_pixel(0, 0));
    d.set_pixel(65, 33, true); // wraps to (1, 1)
    assert!(d.get_pixel(1, 1));
}

#[test]
fn get_pixel_out_of_grid_reads_off() {
    let mut d = Display::new();
    d.set_pixel(0, 0, true);
    assert!(!d.get_pixel(64, 0));
    assert!(!d.get_pixel(0, 32));
}

#[test]
fn draw_sprite_sets_pixels_and_reports_no_collision_on_blank() {
    let mut d = Display::new();
    let collision = d.draw_sprite(0, 0, &[0b1010_0001]);
    assert!(!collision);
    assert!(d.get_pixel(0, 0));
    assert!(!d.get_pixel(1, 0));
    assert!(d.get_pixel(2, 0));
    assert!(d.get_pixel(7, 0));
    assert_eq!(d.count_active_pixels(), 3);
}

#[test]
fn draw_sprite_twice_restores_and_reports_collision() {
    let mut d = Display::new();
    let sprite = [0xF0u8, 0x90, 0x90, 0x90, 0xF0];
    let first = d.draw_sprite(10, 5, &sprite);
    assert!(!first);
    let set_after_first = d.count_active_pixels();
    assert!(set_after_first > 0);
    let second = d.draw_sprite(10, 5, &sprite);
    assert!(second, "the second identical draw must collide");
    assert_eq!(d.count_active_pixels(), 0, "XOR is self-inverse");
    assert!(!d.get_pixel(10, 5));
}

#[test]
fn zero_sprite_has_no_effect_and_never_collides() {
    let mut d = Display::new();
    d.set_pixel(4, 4, true);
    let collision = d.draw_sprite(0, 0, &[0u8, 0, 0]);
    assert!(!collision);
    assert_eq!(d.count_active_pixels(), 1);
    let collision = d.draw_sprite(4, 4, &[0u8]);
    assert!(!collision, "a zero row over a set pixel still never collides");
    assert!(d.get_pixel(4, 4));
}

#[test]
fn sprite_wraps_at_the_right_edge() {
    let mut d = Display::new();
    // One row of eight set bits at x = 63: column 63 plus columns 0..7.
    let collision = d.draw_sprite(63, 0, &[0xFF]);
    assert!(!collision);
    assert!(d.get_pixel(63, 0));
    for c in 0..7 {
        assert!(d.get_pixel(c, 0), "column {} must wrap to the left edge", c);
    }
    assert!(!d.get_pixel(8, 0));
}

#[test]
fn sprite_wraps_at_the_bottom_edge() {
    let mut d = Display::new();
    // Two rows with the leftmost bit set, drawn at y = 31: rows 31 and 0.
    let collision = d.draw_sprite(0, 31, &[0x80, 0x80]);
    assert!(!collision);
    assert!(d.get_pixel(0, 31));
    assert!(d.get_pixel(0, 0), "the second row must wrap to the top edge");
    assert!(!d.get_pixel(0, 1));
}

#[test]
fn partial_overlap_collides_and_xors() {
    let mut d = Display::new();
    d.draw_sprite(0, 0, &[0b1100_0000]);
    let collision = d.draw_sprite(1, 0, &[0b1100_0000]);
    assert!(collision, "the shared pixel collides");
    assert!(d.get_pixel(0, 0));
    assert!(!d.get_pixel(1, 0), "the overlapped pixel is cleared");
    assert!(d.get_pixel(2, 0));
}

#[test]
fn clear_turns_everything_off() {
    let mut d = Display::new();
    d.draw_sprite(5, 5, &[0xFF, 0xFF]);
    d.clear();
    assert_eq!(d.count_active_pixels(), 0);
}

#[test]
fn buffer_export_is_byte_per_pixel() {
    let mut d = Display::new();
    d.set_pixel(1, 0, true);
    let buf = d.get_buffer();
    assert_eq!(buf.len(), 64 * 32);
    assert_eq!(buf[0], 0);
    assert_eq!(buf[1], 255);
    assert_eq!(buf[64], 0);
}
