//! Text data: font metrics, laid-out glyphs, and the glyph-layout cache.
//!
//! Glyph layout itself (scaling a vector font and measuring per-pixel
//! coverage) is floating-point work done by the host around the library;
//! the library receives each laid-out glyph as plain integers: a pixel
//! bounding box and a row-major coverage buffer. A coverage byte is the
//! glyph's alpha at that pixel, already gamma-adjusted and scaled to
//! `0..=255`, so compositing is pure integer arithmetic.

use vstd::prelude::*;
use vstd::string::StrSliceExecFns;

use crate::color::Color;
use crate::display::{
    Display, Region, RenderMode, clamped, header_color, lemma_k_coords, on_screen, pix, px_x, px_y,
    rect_contains, same_except_frame,
};

verus! {

/// One of the three fonts the device offers.
#[derive(Clone, Copy, Debug, PartialEq, Eq, Structural)]
pub enum FontType {
    Small,
    Normal,
    Big,
}

impl FontType {
    /// Nominal pixel size of the font (the vertical scale of a layout).
    pub open spec fn spec_font_size(self) -> u32 {
        match self {
            FontType::Small => 15,
            FontType::Normal => 16,
            FontType::Big => 32,
        }
    }

    /// Vertical adjustment applied to text coordinates before layout.
    pub open spec fn spec_y_offset(self) -> i32 {
        match self {
            FontType::Small => -2i32,
            FontType::Normal => -2i32,
            FontType::Big => -1i32,
        }
    }

    /// Height of the backdrop rectangle painted behind opaque text.
    pub open spec fn spec_line_height(self) -> i32 {
        match self {
            FontType::Small => 13,
            FontType::Normal => 2,
            FontType::Big => 2,
        }
    }

    /// Vertical offset of the backdrop rectangle behind opaque text.
    pub open spec fn spec_backdrop_y_offset(self) -> i32 {
        match self {
            FontType::Small => 2,
            FontType::Normal => 0,
            FontType::Big => 0,
        }
    }

    /// Nominal pixel size of the font.
    pub fn font_size(&self) -> (r: u32)
        ensures
            r == self.spec_font_size(),
    {
        match self {
            FontType::Small => 15,
            FontType::Normal => 16,
            FontType::Big => 32,
        }
    }

    /// Vertical adjustment applied to text coordinates before layout.
    pub fn y_offset(&self) -> (r: i32)
        ensures
            r == self.spec_y_offset(),
    {
        match self {
            FontType::Small => -2,
            FontType::Normal => -2,
            FontType::Big => -1,
        }
    }

    /// Height of the backdrop rectangle painted behind opaque text.
    pub fn line_height(&self) -> (r: i32)
        ensures
            r == self.spec_line_height(),
    {
        match self {
            FontType::Small => 13,
            FontType::Normal => 2,
            FontType::Big => 2,
        }
    }

    /// Vertical offset of the backdrop rectangle behind opaque text.
    pub fn backdrop_y_offset(&self) -> (r: i32)
        ensures
            r == self.spec_backdrop_y_offset(),
    {
        match self {
            FontType::Small => 2,
            FontType::Normal => 0,
            FontType::Big => 0,
        }
    }
}

impl Default for FontType {
    /// The default font.
    fn default() -> (r: FontType)
        ensures
            r == FontType::Normal,
    {
        FontType::Normal
    }
}

/// Extra horizontal shift of the `i`-th glyph of a layout: the device's
/// font is slightly wider than the bundled one, so glyph `i` moves
/// `floor(11 * i / 10)` pixels right (an `x` spacing factor of 1.1).
pub open spec fn spec_spacing_shift(i: int) -> int
    recommends
        i >= 0,
{
    11 * i / 10
}

/// Computes the horizontal spacing shift of glyph `i`.
pub fn spacing_shift(i: usize) -> (r: u128)
    ensures
        r == spec_spacing_shift(i as int),
        r <= 0x8_0000_0000_0000_0000,
{
    proof {
        let ii = i as int;
        assert(0 <= 11 * ii / 10 <= 11 * ii) by (nonlinear_arith)
            requires
                ii >= 0,
        ;
    }
    (11 * (i as u128)) / 10
}

/// Options for drawing text.
#[derive(Clone, Copy, Debug, PartialEq, Eq, Structural)]
pub struct TextOptions {
    /// When false, a backdrop rectangle is filled in the background color
    /// behind the glyphs before they are composited.
    pub transparent: bool,
    pub font_type: FontType,
}

impl Default for TextOptions {
    /// Transparent text in the default font.
    fn default() -> (r: TextOptions)
        ensures
            r == (TextOptions { transparent: false, font_type: FontType::Normal }),
    {
        TextOptions { transparent: false, font_type: FontType::Normal }
    }
}

/// A semantic line index on the display.
#[derive(Clone, Copy, Debug, PartialEq, Eq, Structural)]
pub struct TextLine(pub i32);

impl TextLine {
    /// The pixel coordinates where the line starts: `(0, n*20 + 32)`,
    /// just under the header bar.
    pub fn coords(&self) -> (r: (i32, i32))
        requires
            -0x8000_0000 <= 20 * (self.0 as int) + 32 < 0x8000_0000,
        ensures
            r.0 == 0,
            r.1 as int == 20 * (self.0 as int) + 32,
    {
        let v: i64 = (self.0 as i64) * 20 + 32;
        (0, v as i32)
    }
}

/// The pixel bounding box of a laid-out glyph; `max` is exclusive.
#[derive(Clone, Copy, Debug, PartialEq, Eq, Structural)]
pub struct GlyphBox {
    pub min_x: i32,
    pub min_y: i32,
    pub max_x: i32,
    pub max_y: i32,
}

impl GlyphBox {
    pub open spec fn width(self) -> int {
        self.max_x - self.min_x
    }

    pub open spec fn height(self) -> int {
        self.max_y - self.min_y
    }
}

/// One laid-out glyph: its pixel bounding box (absent for glyphs without
/// ink, such as spaces) and its coverage, row-major inside the box.
#[derive(Debug)]
pub struct Glyph {
    pub bbox: Option<GlyphBox>,
    pub coverage: Vec<u8>,
}

impl Glyph {
    /// The coverage buffer exactly tiles the bounding box.
    pub open spec fn wf(self) -> bool {
        match self.bbox {
            None => true,
            Some(b) => b.min_x <= b.max_x && b.min_y <= b.max_y && self.coverage@.len()
                == b.width() * b.height(),
        }
    }
}

pub open spec fn all_glyphs_wf(glyphs: Seq<Glyph>) -> bool {
    forall|i: int| 0 <= i < glyphs.len() ==> (#[trigger] glyphs[i]).wf()
}

/// The at-most-one-entry glyph-layout cache: the last `(text, font)` pair
/// successfully laid out, with its glyphs.
#[derive(Debug)]
pub struct GlyphCacheEntry {
    pub text: String,
    pub font_type: FontType,
    pub glyphs: Vec<Glyph>,
}

impl GlyphCacheEntry {
    pub open spec fn wf(self) -> bool {
        all_glyphs_wf(self.glyphs@)
    }
}

/// Whether a cache entry was laid out for this `(text, font)` pair.
pub open spec fn cache_key_matches(e: GlyphCacheEntry, text: Seq<char>, font_type: FontType) -> bool {
    e.text@ == text && e.font_type == font_type
}

/// What a cache query returns: the cached glyphs exactly when the entry's
/// key matches.
pub open spec fn cache_lookup(
    cache: Option<GlyphCacheEntry>,
    text: Seq<char>,
    font_type: FontType,
) -> Option<Vec<Glyph>> {
    match cache {
        Some(e) => if cache_key_matches(e, text, font_type) {
            Some(e.glyphs)
        } else {
            None
        },
        None => None,
    }
}

/// Law: a query immediately after a layout was installed for the same
/// `(text, font)` pair is served from the cache: it returns exactly the
/// glyphs that were laid out, so no second layout happens and the
/// geometry is unchanged.
pub proof fn lemma_cache_consistency(text: String, font_type: FontType, glyphs: Vec<Glyph>)
    ensures
        cache_lookup(Some(GlyphCacheEntry { text, font_type, glyphs }), text@, font_type) == Some(
            glyphs,
        ),
{
}

/// Compares two strings by their character sequences.
fn str_eq(a: &str, b: &str) -> (r: bool)
    ensures
        r == (a@ == b@),
{
    let la = a.unicode_len();
    let lb = b.unicode_len();
    if la != lb {
        proof {
            if a@ == b@ {
                assert(a@.len() == b@.len());
            }
        }
        return false;
    }
    let mut i: usize = 0;
    while i < la
        invariant
            la == a@.len(),
            lb == b@.len(),
            la == lb,
            i <= la,
            forall|j: int| 0 <= j < i ==> a@[j] == b@[j],
        decreases la - i,
    {
        let ca = a.get_char(i);
        let cb = b.get_char(i);
        if ca != cb {
            proof {
                if a@ == b@ {
                    assert(a@[i as int] == b@[i as int]);
                }
            }
            return false;
        }
        i += 1;
    }
    proof {
        assert(a@ =~= b@);
    }
    true
}

/// The raw layout bounding box: minimum corner from the first glyph's
/// box, maximum from the last glyph's box with the spacing shift of the
/// whole layout added to `x`. Absent when there are no glyphs or the
/// first or last glyph has no ink.
pub open spec fn layout_bounds(glyphs: Seq<Glyph>) -> Option<(int, int, int, int)> {
    if glyphs.len() == 0 {
        None
    } else {
        match (glyphs[0].bbox, glyphs.last().bbox) {
            (Some(fb), Some(lb)) => Some(
                (
                    fb.min_x as int,
                    fb.min_y as int,
                    lb.max_x + spec_spacing_shift(glyphs.len() as int),
                    lb.max_y as int,
                ),
            ),
            _ => None,
        }
    }
}

fn layout_bounds_exec(glyphs: &Vec<Glyph>) -> (r: Option<(i128, i128, i128, i128)>)
    ensures
        r is Some <==> layout_bounds(glyphs@) is Some,
        r is Some ==> {
            let (a, b, c, d) = r->0;
            &&& Some((a as int, b as int, c as int, d as int)) == layout_bounds(glyphs@)
            &&& -0x8000_0000 <= a <= 0x7fff_ffff
            &&& -0x8000_0000 <= b <= 0x7fff_ffff
            &&& -0x8000_0000 <= c <= 0x9_0000_0000_0000_0000
            &&& -0x8000_0000 <= d <= 0x7fff_ffff
        },
{
    let n = glyphs.len();
    if n == 0 {
        return None;
    }
    let first = &glyphs[0];
    let last = &glyphs[n - 1];
    match (first.bbox, last.bbox) {
        (Some(fb), Some(lb)) => {
            let shift = spacing_shift(n);
            Some(
                (
                    fb.min_x as i128,
                    fb.min_y as i128,
                    (lb.max_x as i128) + (shift as i128),
                    lb.max_y as i128,
                ),
            )
        },
        _ => None,
    }
}

/// Per-channel alpha blend of the foreground over the current pixel:
/// `(fg*a + cur*(255-a)) / 255`, rounded to nearest.
pub open spec fn blend_channel(cur: u8, fg: u8, a: u8) -> u8 {
    ((((fg as int) * (a as int)) + ((cur as int) * (255 - (a as int))) + 127) / 255) as u8
}

pub open spec fn blend(cur: Color, fg: Color, a: u8) -> Color {
    Color {
        r: blend_channel(cur.r, fg.r, a),
        g: blend_channel(cur.g, fg.g, a),
        b: blend_channel(cur.b, fg.b, a),
    }
}

fn blend_channel_exec(cur: u8, fg: u8, a: u8) -> (r: u8)
    ensures
        r == blend_channel(cur, fg, a),
{
    proof {
        assert((fg as int) * (a as int) <= 255 * (a as int) && (cur as int) * (255 - (a as int))
            <= 255 * (255 - (a as int))) by (nonlinear_arith)
            requires
                0 <= fg as int <= 255,
                0 <= cur as int <= 255,
                0 <= a as int <= 255,
        ;
    }
    let num: u32 = (fg as u32) * (a as u32) + (cur as u32) * (255 - (a as u32)) + 127;
    (num / 255) as u8
}

/// Blends the foreground color over the current color with coverage `a`.
pub fn blend_exec(cur: Color, fg: Color, a: u8) -> (c: Color)
    ensures
        c == blend(cur, fg, a),
{
    Color {
        r: blend_channel_exec(cur.r, fg.r, a),
        g: blend_channel_exec(cur.g, fg.g, a),
        b: blend_channel_exec(cur.b, fg.b, a),
    }
}

/// Whether a glyph whose box is placed with its minimum corner at
/// `(ox, oy)` covers the screen position `(x, y)`.
pub open spec fn glyph_covers(g: Glyph, ox: int, oy: int, x: int, y: int) -> bool {
    match g.bbox {
        None => false,
        Some(b) => ox <= x < ox + b.width() && oy <= y < oy + b.height(),
    }
}

/// The glyph's coverage at a position it covers.
pub open spec fn glyph_alpha(g: Glyph, ox: int, oy: int, x: int, y: int) -> u8 {
    match g.bbox {
        None => 0,
        Some(b) => g.coverage@[(y - oy) * b.width() + (x - ox)],
    }
}

/// The framebuffer after compositing one glyph placed at `(ox, oy)`.
pub open spec fn composite_glyph_seq(
    frame: Seq<Color>,
    g: Glyph,
    ox: int,
    oy: int,
    fg: Color,
) -> Seq<Color> {
    Seq::new(
        frame.len(),
        |k: int| if glyph_covers(g, ox, oy, px_x(k), px_y(k)) {
            blend(frame[k], fg, glyph_alpha(g, ox, oy, px_x(k), px_y(k)))
        } else {
            frame[k]
        },
    )
}

/// The framebuffer after compositing a run of glyphs in order: glyph `i`
/// (counted from `idx0` within the whole layout) lands at
/// `(box.min_x + cx + spacing_shift(i), box.min_y + cy)`; glyphs without
/// ink leave the framebuffer unchanged.
pub open spec fn composite_glyphs_seq(
    frame: Seq<Color>,
    glyphs: Seq<Glyph>,
    idx0: int,
    cx: int,
    cy: int,
    fg: Color,
) -> Seq<Color>
    decreases glyphs.len(),
{
    if glyphs.len() == 0 {
        frame
    } else {
        let g = glyphs[0];
        let f1 = match g.bbox {
            Some(b) => composite_glyph_seq(
                frame,
                g,
                b.min_x + cx + spec_spacing_shift(idx0),
                b.min_y + cy,
                fg,
            ),
            None => frame,
        };
        composite_glyphs_seq(f1, glyphs.drop_first(), idx0 + 1, cx, cy, fg)
    }
}

/// Appending a glyph to a run composites it after the run.
proof fn lemma_composite_snoc(
    frame: Seq<Color>,
    s: Seq<Glyph>,
    g: Glyph,
    idx0: int,
    cx: int,
    cy: int,
    fg: Color,
)
    ensures
        composite_glyphs_seq(frame, s.push(g), idx0, cx, cy, fg) == (match g.bbox {
            Some(b) => composite_glyph_seq(
                composite_glyphs_seq(frame, s, idx0, cx, cy, fg),
                g,
                b.min_x + cx + spec_spacing_shift(idx0 + s.len()),
                b.min_y + cy,
                fg,
            ),
            None => composite_glyphs_seq(frame, s, idx0, cx, cy, fg),
        }),
    decreases s.len(),
{
    if s.len() == 0 {
        assert(s.push(g)[0] == g);
        assert(s.push(g).drop_first() =~= Seq::<Glyph>::empty());
        let f1 = match g.bbox {
            Some(b) => composite_glyph_seq(
                frame,
                g,
                b.min_x + cx + spec_spacing_shift(idx0),
                b.min_y + cy,
                fg,
            ),
            None => frame,
        };
        assert(composite_glyphs_seq(frame, s.push(g), idx0, cx, cy, fg)
            == composite_glyphs_seq(f1, Seq::<Glyph>::empty(), idx0 + 1, cx, cy, fg));
        assert(composite_glyphs_seq(f1, Seq::<Glyph>::empty(), idx0 + 1, cx, cy, fg) == f1);
        assert(composite_glyphs_seq(frame, s, idx0, cx, cy, fg) == frame);
    } else {
        assert(s.push(g)[0] == s[0]);
        assert(s.push(g).drop_first() =~= s.drop_first().push(g));
        let f1 = match s[0].bbox {
            Some(b) => composite_glyph_seq(
                frame,
                s[0],
                b.min_x + cx + spec_spacing_shift(idx0),
                b.min_y + cy,
                fg,
            ),
            None => frame,
        };
        assert(composite_glyphs_seq(frame, s.push(g), idx0, cx, cy, fg)
            == composite_glyphs_seq(f1, s.drop_first().push(g), idx0 + 1, cx, cy, fg));
        assert(composite_glyphs_seq(frame, s, idx0, cx, cy, fg) == composite_glyphs_seq(
            f1,
            s.drop_first(),
            idx0 + 1,
            cx,
            cy,
            fg,
        ));
        lemma_composite_snoc(f1, s.drop_first(), g, idx0 + 1, cx, cy, fg);
        assert(idx0 + 1 + s.drop_first().len() == idx0 + s.len());
    }
}

/// The raw (unclamped) backdrop rectangle behind an opaque text layout.
pub open spec fn backdrop_raw(
    bounds: (int, int, int, int),
    cx: int,
    cy: int,
    font_type: FontType,
) -> (int, int, int, int) {
    (
        bounds.0 + cx - 1,
        cy + font_type.spec_backdrop_y_offset(),
        bounds.2 + cx + 1,
        cy + font_type.spec_backdrop_y_offset() + font_type.spec_line_height() - 1,
    )
}

/// The framebuffer after filling the clamped rectangle with a color.
pub open spec fn fill_rect_seq(
    frame: Seq<Color>,
    x1: int,
    y1: int,
    x2: int,
    y2: int,
    c: Color,
) -> Seq<Color> {
    Seq::new(
        frame.len(),
        |k: int| if rect_contains(x1, y1, x2, y2, px_x(k), px_y(k)) {
            c
        } else {
            frame[k]
        },
    )
}

/// The framebuffer a text write produces (before any header overlay):
/// the coordinates are shifted down by the font's offset; when opaque, the
/// backdrop rectangle (clamped to the screen) is filled in the background
/// color; then each glyph is alpha-blended in the foreground color.
pub open spec fn write_text_target(
    frame: Seq<Color>,
    cx: int,
    cy_in: int,
    options: TextOptions,
    bg: Color,
    fg: Color,
    glyphs: Seq<Glyph>,
) -> Seq<Color> {
    let cy = cy_in + options.font_type.spec_y_offset();
    let based = if !options.transparent {
        match layout_bounds(glyphs) {
            Some(bounds) => {
                let (rx1, ry1, rx2, ry2) = backdrop_raw(bounds, cx, cy, options.font_type);
                fill_rect_seq(
                    frame,
                    clamped(rx1, 479),
                    clamped(ry1, 271),
                    clamped(rx2, 479),
                    clamped(ry2, 271),
                    bg,
                )
            },
            None => frame,
        }
    } else {
        frame
    };
    composite_glyphs_seq(based, glyphs, 0, cx, cy, fg)
}

fn clamp128(v: i128, hi: i128) -> (r: i32)
    requires
        0 <= hi <= 0x7fff_ffff,
    ensures
        r as int == clamped(v as int, hi as int),
{
    if v < 0 {
        0
    } else if v > hi {
        hi as i32
    } else {
        v as i32
    }
}

impl Display {
    /// Removes the cache entry and returns its glyphs exactly when the
    /// last layout was for this `(text, font)` pair.
    pub fn take_cached_glyphs_for(&mut self, text: &str, font_type: FontType) -> (r: Option<
        Vec<Glyph>,
    >)
        requires
            old(self).wf(),
        ensures
            final(self).wf(),
            final(self).text_layout_cache is None,
            final(self).frame@ == old(self).frame@,
            final(self).foreground_color == old(self).foreground_color,
            final(self).background_color == old(self).background_color,
            final(self).options == old(self).options,
            final(self).render_mode == old(self).render_mode,
            r == cache_lookup(old(self).text_layout_cache, text@, font_type),
            r is Some ==> all_glyphs_wf(r->0@),
    {
        let cached = self.text_layout_cache.take();
        match cached {
            None => None,
            Some(e) => {
                if str_eq(e.text.as_str(), text) && e.font_type == font_type {
                    Some(e.glyphs)
                } else {
                    None
                }
            },
        }
    }

    /// Lays the given glyphs into the cache for `(text, font)` and returns
    /// the layout's maximum corner (zero when there is no layout box),
    /// clamped into 32-bit range. Measures without drawing.
    pub fn calculate_string_size(&mut self, text: String, font_type: FontType, glyphs: Vec<Glyph>)
        -> (size: (i32, i32))
        requires
            old(self).wf(),
            all_glyphs_wf(glyphs@),
        ensures
            final(self).wf(),
            final(self).text_layout_cache == Some(GlyphCacheEntry { text, font_type, glyphs }),
            final(self).frame@ == old(self).frame@,
            final(self).foreground_color == old(self).foreground_color,
            final(self).background_color == old(self).background_color,
            final(self).options == old(self).options,
            final(self).render_mode == old(self).render_mode,
            match layout_bounds(glyphs@) {
                Some(bounds) => size.0 as int == clamped_i32(bounds.2) && size.1 as int
                    == clamped_i32(bounds.3),
                None => size == (0i32, 0i32),
            },
    {
        let size: (i32, i32) = match layout_bounds_exec(&glyphs) {
            Some((_, _, mx, my)) => (clamp_i32_range(mx), clamp_i32_range(my)),
            None => (0, 0),
        };
        self.text_layout_cache = Some(GlyphCacheEntry { text, font_type, glyphs });
        size
    }

    /// The SDK string-width query: measures the text in the default font
    /// (the caller supplies the layout) and returns the layout's maximum
    /// `x` as the SDK's unsigned cast of it. Refreshes the glyph cache.
    pub fn string_width_get(&mut self, text: String, glyphs: Vec<Glyph>) -> (r: u32)
        requires
            old(self).wf(),
            all_glyphs_wf(glyphs@),
        ensures
            final(self).wf(),
            final(self).text_layout_cache == Some(
                GlyphCacheEntry { text, font_type: FontType::Normal, glyphs },
            ),
            final(self).frame@ == old(self).frame@,
            final(self).render_mode == old(self).render_mode,
            r as int == u32_of_i32(
                match layout_bounds(glyphs@) {
                    Some(bounds) => clamped_i32(bounds.2),
                    None => 0,
                },
            ),
    {
        let size = self.calculate_string_size(text, FontType::Normal, glyphs);
        let w = size.0;
        if w >= 0 {
            w as u32
        } else {
            ((w as i64) + 0x1_0000_0000) as u32
        }
    }

    /// The SDK string-height query: as `string_width_get`, for the
    /// layout's maximum `y`.
    pub fn string_height_get(&mut self, text: String, glyphs: Vec<Glyph>) -> (r: u32)
        requires
            old(self).wf(),
            all_glyphs_wf(glyphs@),
        ensures
            final(self).wf(),
            final(self).text_layout_cache == Some(
                GlyphCacheEntry { text, font_type: FontType::Normal, glyphs },
            ),
            final(self).frame@ == old(self).frame@,
            final(self).render_mode == old(self).render_mode,
            r as int == u32_of_i32(
                match layout_bounds(glyphs@) {
                    Some(bounds) => clamped_i32(bounds.3),
                    None => 0,
                },
            ),
    {
        let size = self.calculate_string_size(text, FontType::Normal, glyphs);
        let h = size.1;
        if h >= 0 {
            h as u32
        } else {
            ((h as i64) + 0x1_0000_0000) as u32
        }
    }

    /// Composites one glyph placed at `(ox, oy)` onto the framebuffer,
    /// alpha-blending the foreground color and dropping out-of-range
    /// pixels.
    fn composite_glyph(&mut self, g: &Glyph, ox: i128, oy: i128, fg: Color)
        requires
            old(self).wf(),
            g.wf(),
            g.bbox is Some,
            -0x10_0000_0000_0000_0000 <= ox <= 0x10_0000_0000_0000_0000,
            -0x10_0000_0000_0000_0000 <= oy <= 0x10_0000_0000_0000_0000,
        ensures
            final(self).wf(),
            same_except_frame(*old(self), *final(self)),
            final(self).frame@ == composite_glyph_seq(old(self).frame@, *g, ox as int, oy as int, fg),
    {
        let b = match g.bbox {
            Some(b) => b,
            None => {
                return ;
            },
        };
        let w: i128 = (b.max_x as i128) - (b.min_x as i128);
        let h: i128 = (b.max_y as i128) - (b.min_y as i128);
        let cov_len: usize = g.coverage.len();
        let ghost orig = self.frame@;
        let mut v: i128 = 0;
        while v < h
            invariant
                old(self).wf(),
                self.wf(),
                same_except_frame(*old(self), *self),
                g.wf(),
                g.bbox == Some(b),
                w == b.width(),
                h == b.height(),
                cov_len == g.coverage@.len(),
                -0x10_0000_0000_0000_0000 <= ox <= 0x10_0000_0000_0000_0000,
                -0x10_0000_0000_0000_0000 <= oy <= 0x10_0000_0000_0000_0000,
                orig == old(self).frame@,
                0 <= v <= h,
                forall|a: int, b2: int| #![trigger pix(a, b2)] on_screen(a, b2)
                    ==> self.frame@[pix(a, b2)] == (if glyph_covers(*g, ox as int, oy as int, a, b2)
                    && b2 - oy < v {
                    blend(orig[pix(a, b2)], fg, glyph_alpha(*g, ox as int, oy as int, a, b2))
                } else {
                    orig[pix(a, b2)]
                }),
            decreases h - v,
        {
            let mut u: i128 = 0;
            while u < w
                invariant
                    old(self).wf(),
                    self.wf(),
                    same_except_frame(*old(self), *self),
                    g.wf(),
                    g.bbox == Some(b),
                    w == b.width(),
                    h == b.height(),
                    cov_len == g.coverage@.len(),
                    -0x10_0000_0000_0000_0000 <= ox <= 0x10_0000_0000_0000_0000,
                    -0x10_0000_0000_0000_0000 <= oy <= 0x10_0000_0000_0000_0000,
                    orig == old(self).frame@,
                    0 <= v < h,
                    0 <= u <= w,
                    forall|a: int, b2: int| #![trigger pix(a, b2)] on_screen(a, b2)
                        ==> self.frame@[pix(a, b2)] == (if glyph_covers(
                        *g,
                        ox as int,
                        oy as int,
                        a,
                        b2,
                    ) && (b2 - oy < v || (b2 - oy == v && a - ox < u)) {
                        blend(orig[pix(a, b2)], fg, glyph_alpha(*g, ox as int, oy as int, a, b2))
                    } else {
                        orig[pix(a, b2)]
                    }),
                decreases w - u,
            {
                proof {
                    assert(0 <= v * w && v * w + u < h * w) by (nonlinear_arith)
                        requires
                            0 <= v < h,
                            0 <= u < w,
                    ;
                    assert(h * w == w * h) by (nonlinear_arith);
                    assert(v * w + u < cov_len as int);
                }
                let idx: usize = (v * w + u) as usize;
                let a = self.coverage_at(g, idx);
                let gx = ox + u;
                let gy = oy + v;
                if 0 <= gx && gx < 480 && 0 <= gy && gy < 272 {
                    let cur = self.pixel(gx as usize, gy as usize);
                    let c = blend_exec(cur, fg, a);
                    self.set_pixel(gx as usize, gy as usize, c);
                }
                u += 1;
            }
            v += 1;
        }
        proof {
            assert forall|k: int| 0 <= k < self.frame@.len() implies self.frame@[k]
                == composite_glyph_seq(orig, *g, ox as int, oy as int, fg)[k] by {
                lemma_k_coords(k);
            }
            assert(self.frame@ =~= composite_glyph_seq(orig, *g, ox as int, oy as int, fg));
        }
    }

    fn coverage_at(&self, g: &Glyph, idx: usize) -> (a: u8)
        requires
            idx < g.coverage@.len(),
        ensures
            a == g.coverage@[idx as int],
    {
        g.coverage[idx]
    }

    /// Writes text at the given coordinates: shifts them by the font's
    /// vertical offset, optionally paints the backdrop in the background
    /// color, composites the glyphs in the foreground color, installs the
    /// layout in the cache, and triggers an implicit render. Empty text
    /// does nothing. Returns whether a frame was presented.
    pub fn write_text(
        &mut self,
        text: String,
        coords: (i32, i32),
        options: TextOptions,
        glyphs: Vec<Glyph>,
    ) -> (emitted: bool)
        requires
            old(self).wf(),
            all_glyphs_wf(glyphs@),
        ensures
            final(self).wf(),
            emitted == (text@.len() != 0 && old(self).render_mode == RenderMode::Immediate),
            text@.len() == 0 ==> *final(self) == *old(self),
            text@.len() != 0 ==> {
                &&& final(self).render_mode == old(self).render_mode
                &&& final(self).foreground_color == old(self).foreground_color
                &&& final(self).background_color == old(self).background_color
                &&& final(self).options == old(self).options
                &&& final(self).text_layout_cache == Some(
                    GlyphCacheEntry { text, font_type: options.font_type, glyphs },
                )
                &&& final(self).frame@.len() == 480 * 272
                &&& forall|x: int, y: int| #![trigger pix(x, y)] on_screen(x, y)
                    ==> final(self).frame@[pix(x, y)] == (if emitted && y < 32 {
                    header_color()
                } else {
                    write_text_target(
                        old(self).frame@,
                        coords.0 as int,
                        coords.1 as int,
                        options,
                        old(self).background_color,
                        old(self).foreground_color,
                        glyphs@,
                    )[pix(x, y)]
                })
            },
    {
        if text.as_str().unicode_len() == 0 {
            return false;
        }
        let ghost orig = self.frame@;
        let cx: i128 = coords.0 as i128;
        let cy: i128 = (coords.1 as i128) + (options.font_type.y_offset() as i128);
        if !options.transparent {
            match layout_bounds_exec(&glyphs) {
                Some((bx1, _, bx2, _)) => {
                    let ry1: i128 = cy + (options.font_type.backdrop_y_offset() as i128);
                    let ry2: i128 = ry1 + (options.font_type.line_height() as i128) - 1;
                    let rx1: i128 = bx1 + cx - 1;
                    let rx2: i128 = bx2 + cx + 1;
                    let bg = self.background_color;
                    self.paint_region(
                        Region::RectFill {
                            x1: clamp128(rx1, 479),
                            y1: clamp128(ry1, 271),
                            x2: clamp128(rx2, 479),
                            y2: clamp128(ry2, 271),
                        },
                        bg,
                    );
                },
                None => {},
            }
        }
        let ghost based = self.frame@;
        proof {
            let target = if !options.transparent {
                match layout_bounds(glyphs@) {
                    Some(bounds) => {
                        let (rx1, ry1, rx2, ry2) = backdrop_raw(
                            bounds,
                            cx as int,
                            cy as int,
                            options.font_type,
                        );
                        fill_rect_seq(
                            orig,
                            clamped(rx1, 479),
                            clamped(ry1, 271),
                            clamped(rx2, 479),
                            clamped(ry2, 271),
                            old(self).background_color,
                        )
                    },
                    None => orig,
                }
            } else {
                orig
            };
            assert forall|k: int| 0 <= k < based.len() implies based[k] == target[k] by {
                lemma_k_coords(k);
            }
            assert(based =~= target);
        }
        let fg = self.foreground_color;
        let n = glyphs.len();
        let mut i: usize = 0;
        while i < n
            invariant
                old(self).wf(),
                self.wf(),
                same_except_frame(*old(self), *self),
                all_glyphs_wf(glyphs@),
                n == glyphs@.len(),
                i <= n,
                fg == old(self).foreground_color,
                cx == coords.0 as i128,
                -0x1_0000_0000 <= cy <= 0x1_0000_0000,
                self.frame@ == composite_glyphs_seq(
                    based,
                    glyphs@.take(i as int),
                    0,
                    cx as int,
                    cy as int,
                    fg,
                ),
            decreases n - i,
        {
            let g = &glyphs[i];
            proof {
                assert(glyphs@.take(i + 1 as int) =~= glyphs@.take(i as int).push(glyphs@[i as int]));
                lemma_composite_snoc(
                    based,
                    glyphs@.take(i as int),
                    glyphs@[i as int],
                    0,
                    cx as int,
                    cy as int,
                    fg,
                );
            }
            match g.bbox {
                Some(b) => {
                    let shift = spacing_shift(i);
                    let ox: i128 = (b.min_x as i128) + cx + (shift as i128);
                    let oy: i128 = (b.min_y as i128) + cy;
                    self.composite_glyph(g, ox, oy, fg);
                },
                None => {},
            }
            i += 1;
        }
        proof {
            assert(glyphs@.take(n as int) =~= glyphs@);
        }
        self.text_layout_cache = Some(
            GlyphCacheEntry { text, font_type: options.font_type, glyphs },
        );
        self.render(false)
    }
}

/// The unsigned 32-bit reinterpretation of a signed 32-bit value.
pub open spec fn u32_of_i32(v: int) -> int {
    if v < 0 {
        v + 0x1_0000_0000
    } else {
        v
    }
}

/// `v` clamped into the 32-bit signed range.
pub open spec fn clamped_i32(v: int) -> int {
    if v < -0x8000_0000 {
        -0x8000_0000
    } else if v > 0x7fff_ffff {
        0x7fff_ffff
    } else {
        v
    }
}

fn clamp_i32_range(v: i128) -> (r: i32)
    ensures
        r as int == clamped_i32(v as int),
{
    if v < -0x8000_0000 {
        -0x8000_0000
    } else if v > 0x7fff_ffff {
        0x7fff_ffff
    } else {
        v as i32
    }
}

} // verus!
