use v5sim::color::Color;
use v5sim::display::{Display, Path, ProgramOptions, RenderMode};

fn opts() -> ProgramOptions {
    ProgramOptions {
        default_fg_color: Color { r: 255, g: 255, b: 255 },
        default_bg_color: Color { r: 30, g: 30, b: 30 },
    }
}

fn header() -> Color {
    Color { r: 0x00, g: 0x99, b: 0xcc }
}

#[test]
fn color_unpack_channels() {
    let c = Color::unpack(0x123456);
    assert_eq!(c, Color { r: 0x56, g: 0x34, b: 0x12 });
    assert_eq!(Color::unpack(0x00ff00).g, 0xff);
}

#[test]
fn color_round_trip_low_three_bytes() {
    for v in [0u32, 1, 0x00ff00, 0x123456, 0x00ffffff] {
        assert_eq!(Color::unpack(v).pack(), v);
    }
    // the high byte is ignored
    assert_eq!(Color::unpack(0xff123456).pack(), 0x123456);
}

#[test]
fn new_display_is_default_background() {
    let d = Display::new(opts());
    assert_eq!(d.pixel(0, 0), opts().default_bg_color);
    assert_eq!(d.pixel(479, 271), opts().default_bg_color);
    assert_eq!(d.render_mode, RenderMode::Immediate);
}

#[test]
fn header_bar_after_explicit_render() {
    let mut d = Display::new(opts());
    let emitted = d.render(true);
    assert!(emitted);
    for y in 0..32 {
        for x in [0usize, 100, 479] {
            assert_eq!(d.pixel(x, y), header());
        }
    }
    assert_eq!(d.pixel(0, 32), opts().default_bg_color);
    assert_eq!(d.render_mode, RenderMode::DoubleBuffered);
}

#[test]
fn filled_rect_paints_inclusive_region() {
    let mut d = Display::new(opts());
    d.set_foreground(0x00ff00);
    let emitted = d.draw(
        Path::Rect { x1: 10, y1: 50, x2: 20, y2: 60 },
        false,
    );
    assert!(emitted); // immediate mode presents after every draw
    let green = Color { r: 0x00, g: 0xff, b: 0x00 };
    for y in 50..=60 {
        for x in 10..=20 {
            assert_eq!(d.pixel(x, y), green);
        }
    }
    // elsewhere below the header: the default background
    assert_eq!(d.pixel(9, 50), opts().default_bg_color);
    assert_eq!(d.pixel(21, 50), opts().default_bg_color);
    assert_eq!(d.pixel(10, 49), opts().default_bg_color);
    assert_eq!(d.pixel(10, 61), opts().default_bg_color);
    // the implicit render painted the header
    assert_eq!(d.pixel(0, 0), header());
}

#[test]
fn stroked_rect_paints_border_only() {
    let mut d = Display::new(opts());
    d.set_foreground(0x0000ff); // byte 0 is red
    d.draw(Path::Rect { x1: 100, y1: 100, x2: 110, y2: 105 }, true);
    let red = Color { r: 0xff, g: 0x00, b: 0x00 };
    assert_eq!(d.pixel(100, 100), red);
    assert_eq!(d.pixel(110, 105), red);
    assert_eq!(d.pixel(105, 100), red);
    assert_eq!(d.pixel(100, 103), red);
    assert_eq!(d.pixel(105, 103), opts().default_bg_color);
}

#[test]
fn rect_coordinates_are_clamped() {
    let mut d = Display::new(opts());
    d.set_foreground(0x00ff00);
    d.draw(
        Path::Rect { x1: -100, y1: 40, x2: 5, y2: 1000 },
        false,
    );
    let green = Color { r: 0x00, g: 0xff, b: 0x00 };
    assert_eq!(d.pixel(0, 40), green);
    assert_eq!(d.pixel(5, 271), green);
    assert_eq!(d.pixel(6, 40), opts().default_bg_color);
}

#[test]
fn filled_circle_is_a_disc() {
    let mut d = Display::new(opts());
    d.set_foreground(0x0000ff);
    d.draw(Path::Circle { cx: 100, cy: 100, radius: 3 }, false);
    let red = Color { r: 0xff, g: 0x00, b: 0x00 };
    assert_eq!(d.pixel(100, 100), red);
    assert_eq!(d.pixel(98, 100), red);
    assert_eq!(d.pixel(100, 97), red); // rows span [-h, h): dy = -3 is in
    assert_eq!(d.pixel(100, 102), red); // ... and dy = +2
    assert_eq!(d.pixel(100, 103), opts().default_bg_color); // dy = +3 is not
    assert_eq!(d.pixel(97, 100), opts().default_bg_color); // dx = -r has zero height
    assert_eq!(d.pixel(103, 100), opts().default_bg_color);
    assert_eq!(d.pixel(95, 100), opts().default_bg_color);
}

#[test]
fn stroked_circle_ring_center_untouched() {
    let mut d = Display::new(opts());
    d.set_foreground(0x0000ff);
    d.draw(Path::Circle { cx: 100, cy: 100, radius: 5 }, true);
    let red = Color { r: 0xff, g: 0x00, b: 0x00 };
    assert_eq!(d.pixel(100, 105), red); // cardinal points of the ring
    assert_eq!(d.pixel(100, 95), red);
    assert_eq!(d.pixel(105, 100), red);
    assert_eq!(d.pixel(95, 100), red);
    assert_eq!(d.pixel(100, 100), opts().default_bg_color);
}

#[test]
fn circle_center_clamped_offscreen_keeps_pixels_on_screen() {
    let mut d = Display::new(opts());
    d.set_foreground(0x0000ff);
    // center clamps to (0, 271); a huge radius covers the whole screen
    let emitted = d.draw(
        Path::Circle { cx: -5000, cy: 5000, radius: 1000 },
        false,
    );
    assert!(emitted);
    let red = Color { r: 0xff, g: 0x00, b: 0x00 };
    assert_eq!(d.pixel(100, 100), red);
}

#[test]
fn double_buffer_latch_blocks_implicit_renders() {
    let mut d = Display::new(opts());
    assert!(d.render(true));
    assert_eq!(d.render_mode, RenderMode::DoubleBuffered);
    d.set_foreground(0x00ff00);
    // implicit render after a draw presents nothing now
    let emitted = d.draw(Path::Rect { x1: 0, y1: 40, x2: 5, y2: 45 }, false);
    assert!(!emitted);
    // but an implicit render presents again after the mode is reset
    d.disable_double_buffer();
    assert_eq!(d.render_mode, RenderMode::Immediate);
    let emitted = d.draw(Path::Rect { x1: 0, y1: 40, x2: 5, y2: 45 }, false);
    assert!(emitted);
}

#[test]
fn erase_restores_default_background() {
    let mut d = Display::new(opts());
    d.set_foreground(0x00ff00);
    d.draw(Path::Rect { x1: 0, y1: 0, x2: 479, y2: 271 }, false);
    d.erase();
    assert_eq!(d.pixel(0, 0), opts().default_bg_color);
    assert_eq!(d.pixel(240, 136), opts().default_bg_color);
}

#[test]
fn draw_buffer_rows_end_by_stride_not_x2() {
    let mut d = Display::new(opts());
    // two rows of three pixels, stride 3; x2 = 101 but all three columns land
    let mut buf: Vec<u8> = Vec::new();
    for _ in 0..6 {
        buf.extend_from_slice(&[0x11, 0x22, 0x33, 0x00]);
    }
    d.draw_buffer(&buf, (100, 100), (101, 101), 3);
    let c = Color { r: 0x11, g: 0x22, b: 0x33 };
    assert_eq!(d.pixel(100, 100), c);
    assert_eq!(d.pixel(101, 100), c);
    assert_eq!(d.pixel(102, 100), c); // past x2, still within stride
    assert_eq!(d.pixel(100, 101), c); // row y2 is written
    assert_eq!(d.pixel(100, 102), opts().default_bg_color);
    assert_eq!(d.pixel(103, 100), opts().default_bg_color);
}

#[test]
fn draw_buffer_drops_out_of_range_pixels() {
    let mut d = Display::new(opts());
    let mut buf: Vec<u8> = Vec::new();
    for _ in 0..4 {
        buf.extend_from_slice(&[0xaa, 0xbb, 0xcc, 0x00]);
    }
    // top-left is off screen; only the on-screen part lands
    d.draw_buffer(&buf, (-2, 40), (1, 40), 4);
    let c = Color { r: 0xaa, g: 0xbb, b: 0xcc };
    assert_eq!(d.pixel(0, 40), c);
    assert_eq!(d.pixel(1, 40), c);
    assert_eq!(d.pixel(2, 40), opts().default_bg_color);
}

#[test]
fn copy_rect_reads_guest_memory() {
    let mut d = Display::new(opts());
    // a little guest memory: 4 pixels at offset 8
    let mut mem = vec![0u8; 8];
    for _ in 0..4 {
        mem.extend_from_slice(&[0x01, 0x02, 0x03, 0x00]);
    }
    let r = d.copy_rect(&mem, 200, 200, 202, 202, 8, 2);
    assert!(r.is_ok());
    let c = Color { r: 0x01, g: 0x02, b: 0x03 };
    assert_eq!(d.pixel(200, 200), c);
    assert_eq!(d.pixel(201, 200), c);
    assert_eq!(d.pixel(200, 201), c);
}

#[test]
fn copy_rect_out_of_range_fails_and_changes_nothing() {
    let mut d = Display::new(opts());
    let mem = vec![0u8; 4];
    let r = d.copy_rect(&mem, 200, 200, 210, 210, 0, 10);
    assert!(r.is_err());
    assert_eq!(d.pixel(200, 200), opts().default_bg_color);
}

#[test]
fn frame_bytes_serializes_rgb() {
    let mut d = Display::new(opts());
    d.set_pixel(0, 0, Color { r: 1, g: 2, b: 3 });
    let bytes = d.frame_bytes();
    assert_eq!(bytes.len(), 480 * 272 * 3);
    assert_eq!(&bytes[0..3], &[1, 2, 3]);
    assert_eq!(&bytes[3..6], &[30, 30, 30]);
}
