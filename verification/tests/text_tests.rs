use v5sim::color::Color;
use v5sim::display::{Display, ProgramOptions};
use v5sim::text::{spacing_shift, FontType, Glyph, GlyphBox, TextLine, TextOptions};

fn opts() -> ProgramOptions {
    ProgramOptions {
        default_fg_color: Color { r: 255, g: 255, b: 255 },
        default_bg_color: Color { r: 30, g: 30, b: 30 },
    }
}

fn glyph(min_x: i32, min_y: i32, max_x: i32, max_y: i32, alpha: u8) -> Glyph {
    let w = (max_x - min_x) as usize;
    let h = (max_y - min_y) as usize;
    Glyph {
        bbox: Some(GlyphBox { min_x, min_y, max_x, max_y }),
        coverage: vec![alpha; w * h],
    }
}

#[test]
fn font_metrics() {
    assert_eq!(FontType::Small.font_size(), 15);
    assert_eq!(FontType::Normal.font_size(), 16);
    assert_eq!(FontType::Big.font_size(), 32);
    assert_eq!(FontType::Small.y_offset(), -2);
    assert_eq!(FontType::Normal.y_offset(), -2);
    assert_eq!(FontType::Big.y_offset(), -1);
    assert_eq!(FontType::Small.line_height(), 13);
    assert_eq!(FontType::Normal.line_height(), 2);
    assert_eq!(FontType::Big.line_height(), 2);
    assert_eq!(FontType::Small.backdrop_y_offset(), 2);
    assert_eq!(FontType::Normal.backdrop_y_offset(), 0);
    assert_eq!(FontType::Big.backdrop_y_offset(), 0);
    assert_eq!(FontType::default(), FontType::Normal);
}

#[test]
fn text_line_coords() {
    assert_eq!(TextLine(0).coords(), (0, 32));
    assert_eq!(TextLine(2).coords(), (0, 72));
    assert_eq!(TextLine(-1).coords(), (0, 12));
}

#[test]
fn spacing_shift_is_eleven_tenths() {
    assert_eq!(spacing_shift(0), 0);
    assert_eq!(spacing_shift(1), 1);
    assert_eq!(spacing_shift(9), 9);
    assert_eq!(spacing_shift(10), 11);
    assert_eq!(spacing_shift(25), 27);
}

#[test]
fn string_size_and_cache_hit() {
    let mut d = Display::new(opts());
    let g = glyph(0, 0, 2, 3, 255);
    let s1 = d.calculate_string_size(String::from("abc"), FontType::Normal, vec![g]);
    // max corner: x = 2 + floor(1.1 * 1) = 3, y = 3
    assert_eq!(s1, (3, 3));
    // an immediate re-query is served from the cache: no second layout
    let cached = d.take_cached_glyphs_for("abc", FontType::Normal);
    assert!(cached.is_some());
    let s2 = d.calculate_string_size(String::from("abc"), FontType::Normal, cached.unwrap());
    assert_eq!(s2, s1);
    // a different text misses (and the cache is consumed)
    assert!(d.take_cached_glyphs_for("abcd", FontType::Normal).is_none());
    assert!(d.take_cached_glyphs_for("abc", FontType::Normal).is_none());
}

#[test]
fn cache_misses_on_font_change() {
    let mut d = Display::new(opts());
    let g = glyph(0, 0, 2, 3, 255);
    d.calculate_string_size(String::from("abc"), FontType::Normal, vec![g]);
    assert!(d.take_cached_glyphs_for("abc", FontType::Big).is_none());
}

#[test]
fn string_size_without_ink_is_zero() {
    let mut d = Display::new(opts());
    let blank = Glyph { bbox: None, coverage: Vec::new() };
    let s = d.calculate_string_size(String::from(" "), FontType::Normal, vec![blank]);
    assert_eq!(s, (0, 0));
}

#[test]
fn opaque_text_paints_backdrop_and_glyphs() {
    let mut d = Display::new(opts());
    d.set_foreground(0x00ffffff); // white
    d.set_background(0x00000000); // black
    let g = glyph(0, 0, 2, 2, 255);
    let emitted = d.write_text(
        String::from("Hi"),
        (0, 64),
        TextOptions { transparent: false, font_type: FontType::Normal },
        vec![g],
    );
    assert!(emitted);
    let white = Color { r: 255, g: 255, b: 255 };
    let black = Color { r: 0, g: 0, b: 0 };
    // glyphs land at y = 64 + y_offset(Normal) = 62, fully covered: white
    assert_eq!(d.pixel(0, 62), white);
    assert_eq!(d.pixel(1, 63), white);
    // the backdrop is [0, 4] x [62, 63] in the background color
    assert_eq!(d.pixel(3, 62), black);
    assert_eq!(d.pixel(4, 63), black);
    // nothing outside the backdrop changes (below the header bar)
    assert_eq!(d.pixel(5, 62), opts().default_bg_color);
    assert_eq!(d.pixel(0, 64), opts().default_bg_color);
    // the layout was cached
    assert!(d.take_cached_glyphs_for("Hi", FontType::Normal).is_some());
}

#[test]
fn transparent_text_blends_alpha() {
    let mut d = Display::new(opts());
    d.set_foreground(0x00ffffff);
    let g = glyph(0, 0, 1, 1, 128);
    d.write_text(
        String::from("x"),
        (0, 64),
        TextOptions { transparent: true, font_type: FontType::Normal },
        vec![g],
    );
    // out = round((255*128 + 30*127) / 255) = 143 per channel
    assert_eq!(d.pixel(0, 62), Color { r: 143, g: 143, b: 143 });
    // no backdrop was painted
    assert_eq!(d.pixel(1, 62), opts().default_bg_color);
}

#[test]
fn glyphs_are_spaced_apart() {
    let mut d = Display::new(opts());
    d.set_foreground(0x00ffffff);
    let g0 = glyph(0, 0, 1, 1, 255);
    let g1 = glyph(2, 0, 3, 1, 255);
    d.write_text(
        String::from("ab"),
        (10, 100),
        TextOptions { transparent: true, font_type: FontType::Normal },
        vec![g0, g1],
    );
    let white = Color { r: 255, g: 255, b: 255 };
    // glyph 0 at x = 0 + 10 + floor(1.1*0) = 10, y = 100 - 2 = 98
    assert_eq!(d.pixel(10, 98), white);
    // glyph 1 at x = 2 + 10 + floor(1.1*1) = 13
    assert_eq!(d.pixel(13, 98), white);
    assert_eq!(d.pixel(12, 98), opts().default_bg_color);
}

#[test]
fn empty_text_does_nothing() {
    let mut d = Display::new(opts());
    let before = d.pixel(0, 0);
    let emitted = d.write_text(
        String::from(""),
        (0, 64),
        TextOptions { transparent: false, font_type: FontType::Normal },
        Vec::new(),
    );
    assert!(!emitted);
    assert_eq!(d.pixel(0, 0), before);
    assert!(d.take_cached_glyphs_for("", FontType::Normal).is_none());
}

#[test]
fn string_width_of_negative_layout_wraps_unsigned() {
    let mut d = Display::new(opts());
    // a layout entirely at negative coordinates: max x = -3 + floor(1.1*1) = -2
    let g = glyph(-5, -5, -3, -3, 255);
    let w = d.string_width_get(String::from("x"), vec![g]);
    assert_eq!(w, 0xffff_fffe);
}

#[test]
fn string_width_and_height_queries() {
    let mut d = Display::new(opts());
    let g = glyph(0, 0, 2, 3, 255);
    let w = d.string_width_get(String::from("abc"), vec![g]);
    assert_eq!(w, 3);
    let g = d.take_cached_glyphs_for("abc", FontType::Normal).unwrap();
    let h = d.string_height_get(String::from("abc"), g);
    assert_eq!(h, 3);
}
