//! The display engine: a software rasterizer over a fixed 480x272 RGB
//! framebuffer with a reserved header bar, immediate and double-buffered
//! presentation, and bounds-checked shape drawing and pixel blits.
//!
//! Every framebuffer write is bounds-checked: out-of-range pixels are
//! silently dropped. Shape coordinates (for circles, only the center) are
//! clamped to the screen before rasterization.

use vstd::prelude::*;
use vstd::pervasive::VecAdditionalExecFns;

use crate::color::Color;
use crate::mem::{read_bytes, GuestMemError};
use crate::text::GlyphCacheEntry;

verus! {

pub const DISPLAY_WIDTH: u32 = 480;

pub const DISPLAY_HEIGHT: u32 = 272;

/// The top `HEADER_HEIGHT` rows are reserved for the program header bar.
pub const HEADER_HEIGHT: u32 = 32;

/// The color of the program header bar.
pub open spec fn header_color() -> Color {
    Color { r: 0x00, g: 0x99, b: 0xcc }
}

/// Index of pixel `(x, y)` in the row-major framebuffer.
pub open spec fn pix(x: int, y: int) -> int {
    y * 480 + x
}

pub open spec fn on_screen(x: int, y: int) -> bool {
    0 <= x < 480 && 0 <= y < 272
}

/// Column of the pixel at framebuffer index `k`.
pub open spec fn px_x(k: int) -> int {
    k % 480
}

/// Row of the pixel at framebuffer index `k`.
pub open spec fn px_y(k: int) -> int {
    k / 480
}

/// A framebuffer index round-trips through its pixel position.
pub proof fn lemma_k_coords(k: int)
    requires
        0 <= k < 480 * 272,
    ensures
        on_screen(px_x(k), px_y(k)),
        pix(px_x(k), px_y(k)) == k,
{
    assert(0 <= k % 480 < 480 && 0 <= k / 480 < 272 && (k / 480) * 480 + k % 480 == k)
        by (nonlinear_arith)
        requires
            0 <= k < 480 * 272,
    ;
}

/// Two distinct on-screen pixels have distinct framebuffer indices.
pub proof fn lemma_pix_injective(x1: int, y1: int, x2: int, y2: int)
    requires
        on_screen(x1, y1),
        on_screen(x2, y2),
        pix(x1, y1) == pix(x2, y2),
    ensures
        x1 == x2 && y1 == y2,
{
}

/// A shape to draw: an axis-aligned rectangle with inclusive corners, or a
/// circle with integer center and radius.
#[derive(Clone, Copy, Debug, PartialEq, Eq, Structural)]
pub enum Path {
    Rect { x1: i32, y1: i32, x2: i32, y2: i32 },
    Circle { cx: i32, cy: i32, radius: i32 },
}

/// `v` clamped to `[0, hi]`.
pub open spec fn clamped(v: int, hi: int) -> int {
    if v < 0 {
        0
    } else if v > hi {
        hi
    } else {
        v
    }
}

fn clamp_to(v: i32, hi: i32) -> (r: i32)
    requires
        hi >= 0,
    ensures
        r as int == clamped(v as int, hi as int),
{
    if v < 0 {
        0
    } else if v > hi {
        hi
    } else {
        v
    }
}

/// The normalized form of a path: every coordinate (for circles, only the
/// center) clamped to the screen.
pub open spec fn spec_normalize(p: Path) -> Path {
    match p {
        Path::Rect { x1, y1, x2, y2 } => Path::Rect {
            x1: clamped(x1 as int, 479) as i32,
            y1: clamped(y1 as int, 271) as i32,
            x2: clamped(x2 as int, 479) as i32,
            y2: clamped(y2 as int, 271) as i32,
        },
        Path::Circle { cx, cy, radius } => Path::Circle {
            cx: clamped(cx as int, 479) as i32,
            cy: clamped(cy as int, 271) as i32,
            radius,
        },
    }
}

impl Path {
    /// Clamps the path's coordinates (for circles, only the center) to
    /// `[0, 479] x [0, 271]`.
    pub fn normalize(&mut self)
        ensures
            *final(self) == spec_normalize(*old(self)),
    {
        match self {
            Path::Rect { x1, y1, x2, y2 } => {
                *x1 = clamp_to(*x1, 479);
                *y1 = clamp_to(*y1, 271);
                *x2 = clamp_to(*x2, 479);
                *y2 = clamp_to(*y2, 271);
            },
            Path::Circle { cx, cy, .. } => {
                *cx = clamp_to(*cx, 479);
                *cy = clamp_to(*cy, 271);
            },
        }
    }
}

/// A region of single-colored pixels that a drawing operation paints.
#[derive(Clone, Copy, Debug, PartialEq, Eq, Structural)]
pub enum Region {
    /// The filled rectangle `[x1, x2] x [y1, y2]` (empty when inverted).
    RectFill { x1: i32, y1: i32, x2: i32, y2: i32 },
    /// The one-pixel border of `[x1, x2] x [y1, y2]`.
    RectStroke { x1: i32, y1: i32, x2: i32, y2: i32 },
    /// A filled disc: row `dy` of the disc spans `[-h, h)` where `h` is
    /// the half-width `sqrt(radius^2 - dx^2)` rounded to nearest.
    Disc { cx: i32, cy: i32, radius: i32 },
}

pub open spec fn rect_contains(x1: int, y1: int, x2: int, y2: int, x: int, y: int) -> bool {
    x1 <= x <= x2 && y1 <= y <= y2
}

pub open spec fn rect_border_contains(x1: int, y1: int, x2: int, y2: int, x: int, y: int) -> bool {
    rect_contains(x1, y1, x2, y2, x, y) && (x == x1 || x == x2 || y == y1 || y == y2)
}

/// Membership in the filled disc of radius `r` centered on `(cx, cy)`:
/// column `dx` ranges over `[-r, r)` and holds the rows `dy` with
/// `|dy + 1/2| <= sqrt(r^2 - dx^2)`, i.e. the half-width rounded to
/// nearest.
pub open spec fn disc_contains(cx: int, cy: int, r: int, x: int, y: int) -> bool {
    let dx = x - cx;
    let dy = y - cy;
    -r <= dx < r && (2 * dy + 1) * (2 * dy + 1) <= 4 * (r * r - dx * dx)
}

pub open spec fn region_contains(reg: Region, x: int, y: int) -> bool {
    match reg {
        Region::RectFill { x1, y1, x2, y2 } => rect_contains(x1 as int, y1 as int, x2 as int, y2 as int, x, y),
        Region::RectStroke { x1, y1, x2, y2 } => rect_border_contains(x1 as int, y1 as int, x2 as int, y2 as int, x, y),
        Region::Disc { cx, cy, radius } => disc_contains(cx as int, cy as int, radius as int, x, y),
    }
}

/// Tests whether the on-screen pixel `(x, y)` belongs to the region.
fn region_test(reg: &Region, x: usize, y: usize) -> (b: bool)
    requires
        x < 480,
        y < 272,
    ensures
        b == region_contains(*reg, x as int, y as int),
{
    let xi = x as i32;
    let yi = y as i32;
    match *reg {
        Region::RectFill { x1, y1, x2, y2 } => x1 <= xi && xi <= x2 && y1 <= yi && yi <= y2,
        Region::RectStroke { x1, y1, x2, y2 } => x1 <= xi && xi <= x2 && y1 <= yi && yi <= y2
            && (xi == x1 || xi == x2 || yi == y1 || yi == y2),
        Region::Disc { cx, cy, radius } => {
            let dx: i128 = (xi as i128) - (cx as i128);
            let dy: i128 = (yi as i128) - (cy as i128);
            let r: i128 = radius as i128;
            proof {
                assert((2 * dy + 1) * (2 * dy + 1) <= 0x4000_0000_0000_0000_0000 && 0 <= dx * dx
                    <= 0x4000_0000_0000_0000_0000 && 0 <= r * r <= 0x4000_0000_0000_0000_0000
                    && (2 * dy + 1) * (2 * dy + 1) >= 0) by (nonlinear_arith)
                    requires
                        -0x1_0000_0000 <= dy <= 0x1_0000_0000,
                        -0x1_0000_0000 <= dx <= 0x1_0000_0000,
                        -0x1_0000_0000 <= r <= 0x1_0000_0000,
                ;
            }
            -r <= dx && dx < r && (2 * dy + 1) * (2 * dy + 1) <= 4 * (r * r - dx * dx)
        },
    }
}

/// The eight symmetric reflections of an octant point, relative to the
/// circle's center.
pub open spec fn octet(x: int, y: int) -> Set<(int, int)> {
    set![(x, y), (y, x), (-y, x), (-x, y), (-x, -y), (-y, -x), (y, -x), (x, -y)]
}

/// The points (relative to the center) that the midpoint circle algorithm
/// plots from state `(x, y, p)` onward: while `x <= y` it plots the eight
/// reflections of `(x, y)`, then advances `x` and, when the decision value
/// `p` is nonnegative, steps `y` down.
pub open spec fn ring_rel(x: int, y: int, p: int) -> Set<(int, int)>
    decreases y + 2 - x,
    when x > y || y + 2 - x >= 0
{
    if x > y {
        Set::empty()
    } else {
        let nx = x + 1;
        octet(x, y).union(
            if p < 0 {
                ring_rel(nx, y, p + 2 * nx + 1)
            } else {
                ring_rel(nx, y - 1, p + 2 * (nx - (y - 1)) + 1)
            },
        )
    }
}

/// Membership in the one-pixel ring of radius `r` around `(cx, cy)`: the
/// midpoint circle trace.
pub open spec fn ring_contains(cx: int, cy: int, r: int, x: int, y: int) -> bool {
    ring_rel(0, r, 1 - r).contains((x - cx, y - cy))
}

/// What a (normalized) path covers when drawn: its border when stroked,
/// the filled shape otherwise.
pub open spec fn path_contains(p: Path, stroke: bool, x: int, y: int) -> bool {
    match p {
        Path::Rect { x1, y1, x2, y2 } => if stroke {
            rect_border_contains(x1 as int, y1 as int, x2 as int, y2 as int, x, y)
        } else {
            rect_contains(x1 as int, y1 as int, x2 as int, y2 as int, x, y)
        },
        Path::Circle { cx, cy, radius } => if stroke {
            ring_contains(cx as int, cy as int, radius as int, x, y)
        } else {
            disc_contains(cx as int, cy as int, radius as int, x, y)
        },
    }
}

/// Law: every pixel a normalized rectangle covers (stroked or filled) is
/// on screen. (Discs and rings can extend past the screen; the rasterizer
/// bounds-checks each of their pixels instead.)
pub proof fn lemma_normalized_rect_on_screen(p: Path, stroke: bool, x: int, y: int)
    requires
        p is Rect,
        path_contains(spec_normalize(p), stroke, x, y),
    ensures
        on_screen(x, y),
{
}

/// Whether to present a frame: immediately after every draw, or only on
/// explicit request once double buffering is latched.
#[derive(Clone, Copy, Debug, PartialEq, Eq, Structural)]
pub enum RenderMode {
    Immediate,
    DoubleBuffered,
}

/// Program-level defaults handed to the display at construction.
#[derive(Clone, Copy, Debug, PartialEq, Eq, Structural)]
pub struct ProgramOptions {
    pub default_fg_color: Color,
    pub default_bg_color: Color,
}

/// The simulated display: a 480x272 framebuffer plus drawing state.
#[derive(Debug)]
pub struct Display {
    pub foreground_color: Color,
    pub background_color: Color,
    /// Program defaults; `erase` restores the default background.
    pub options: ProgramOptions,
    /// Row-major framebuffer, one entry per pixel.
    pub frame: Vec<Color>,
    pub render_mode: RenderMode,
    /// The most recent successful text layout.
    pub text_layout_cache: Option<GlyphCacheEntry>,
}

/// All fields except the framebuffer agree.
pub open spec fn same_except_frame(a: Display, b: Display) -> bool {
    &&& b.foreground_color == a.foreground_color
    &&& b.background_color == a.background_color
    &&& b.options == a.options
    &&& b.render_mode == a.render_mode
    &&& b.text_layout_cache == a.text_layout_cache
}

impl Display {
    pub open spec fn cache_wf(self) -> bool {
        match self.text_layout_cache {
            None => true,
            Some(e) => e.wf(),
        }
    }

    pub open spec fn wf(self) -> bool {
        self.frame@.len() == 480 * 272 && self.cache_wf()
    }

    /// A fresh display: framebuffer filled with the default background,
    /// colors at their program defaults, immediate presentation, empty
    /// glyph cache.
    pub fn new(options: ProgramOptions) -> (d: Display)
        ensures
            d.wf(),
            d.foreground_color == options.default_fg_color,
            d.background_color == options.default_bg_color,
            d.options == options,
            d.render_mode == RenderMode::Immediate,
            d.text_layout_cache is None,
            forall|x: int, y: int| #![trigger pix(x, y)] on_screen(x, y) ==> d.frame@[pix(x, y)]
                == options.default_bg_color,
    {
        let mut frame: Vec<Color> = Vec::new();
        let mut i: usize = 0;
        while i < 480 * 272
            invariant
                i <= 480 * 272,
                frame@.len() == i,
                forall|k: int| 0 <= k < i ==> frame@[k] == options.default_bg_color,
            decreases 480 * 272 - i,
        {
            frame.push(options.default_bg_color);
            i += 1;
        }
        let d = Display {
            foreground_color: options.default_fg_color,
            background_color: options.default_bg_color,
            options,
            frame,
            render_mode: RenderMode::Immediate,
            text_layout_cache: None,
        };
        proof {
            assert forall|x: int, y: int| #![trigger pix(x, y)] on_screen(x, y) implies d.frame@[pix(
                x,
                y,
            )] == options.default_bg_color by {
                assert(0 <= pix(x, y) < 480 * 272);
            }
        }
        d
    }

    /// Reads the pixel at `(x, y)`.
    pub fn pixel(&self, x: usize, y: usize) -> (c: Color)
        requires
            self.wf(),
            x < 480,
            y < 272,
        ensures
            c == self.frame@[pix(x as int, y as int)],
    {
        self.frame[y * 480 + x]
    }

    /// Overwrites the pixel at `(x, y)`.
    pub fn set_pixel(&mut self, x: usize, y: usize, color: Color)
        requires
            old(self).wf(),
            x < 480,
            y < 272,
        ensures
            final(self).wf(),
            same_except_frame(*old(self), *final(self)),
            final(self).frame@ == old(self).frame@.update(pix(x as int, y as int), color),
            forall|a: int, b: int| #![trigger pix(a, b)] on_screen(a, b) ==> final(self).frame@[pix(a, b)]
                == (if a == x as int && b == y as int {
                    color
                } else {
                    old(self).frame@[pix(a, b)]
                }),
    {
        let idx: usize = y * 480 + x;
        self.frame.set(idx, color);
        proof {
            assert forall|a: int, b: int| #![trigger pix(a, b)] on_screen(a, b) implies self.frame@[pix(
                a,
                b,
            )] == (if a == x as int && b == y as int {
                color
            } else {
                old(self).frame@[pix(a, b)]
            }) by {
                if a == x as int && b == y as int {
                } else if pix(a, b) == pix(x as int, y as int) {
                    lemma_pix_injective(a, b, x as int, y as int);
                }
            }
        }
    }

    /// Overwrites the pixel at `(gx, gy)` if it is on screen; out-of-range
    /// writes are silently dropped.
    fn plot(&mut self, gx: i128, gy: i128, color: Color)
        requires
            old(self).wf(),
        ensures
            final(self).wf(),
            same_except_frame(*old(self), *final(self)),
            forall|a: int, b: int| #![trigger pix(a, b)] on_screen(a, b) ==> final(self).frame@[pix(a, b)]
                == (if a == gx as int && b == gy as int {
                    color
                } else {
                    old(self).frame@[pix(a, b)]
                }),
    {
        if 0 <= gx && gx < 480 && 0 <= gy && gy < 272 {
            self.set_pixel(gx as usize, gy as usize, color);
        }
    }

    /// Paints every on-screen pixel of the region in the given color.
    pub fn paint_region(&mut self, reg: Region, color: Color)
        requires
            old(self).wf(),
        ensures
            final(self).wf(),
            same_except_frame(*old(self), *final(self)),
            forall|x: int, y: int| #![trigger pix(x, y)] on_screen(x, y) ==> final(self).frame@[pix(x, y)]
                == (if region_contains(reg, x, y) {
                    color
                } else {
                    old(self).frame@[pix(x, y)]
                }),
    {
        let mut y: usize = 0;
        while y < 272
            invariant
                old(self).wf(),
                self.wf(),
                same_except_frame(*old(self), *self),
                y <= 272,
                forall|a: int, b: int| #![trigger pix(a, b)] on_screen(a, b) && b < y
                    ==> self.frame@[pix(a, b)] == (if region_contains(reg, a, b) {
                        color
                    } else {
                        old(self).frame@[pix(a, b)]
                    }),
                forall|a: int, b: int| #![trigger pix(a, b)] on_screen(a, b) && b >= y
                    ==> self.frame@[pix(a, b)] == old(self).frame@[pix(a, b)],
            decreases 272 - y,
        {
            let mut x: usize = 0;
            while x < 480
                invariant
                    old(self).wf(),
                    self.wf(),
                    same_except_frame(*old(self), *self),
                    y < 272,
                    x <= 480,
                    forall|a: int, b: int| #![trigger pix(a, b)] on_screen(a, b) && (b < y || (b
                        == y && a < x)) ==> self.frame@[pix(a, b)] == (if region_contains(reg, a, b) {
                        color
                    } else {
                        old(self).frame@[pix(a, b)]
                    }),
                    forall|a: int, b: int| #![trigger pix(a, b)] on_screen(a, b) && (b > y || (b
                        == y && a >= x)) ==> self.frame@[pix(a, b)] == old(self).frame@[pix(a, b)],
                decreases 480 - x,
            {
                if region_test(&reg, x, y) {
                    self.set_pixel(x, y, color);
                }
                x += 1;
            }
            y += 1;
        }
    }

    /// Fills the whole framebuffer with the program's default background.
    pub fn erase(&mut self)
        requires
            old(self).wf(),
        ensures
            final(self).wf(),
            same_except_frame(*old(self), *final(self)),
            forall|x: int, y: int| #![trigger pix(x, y)] on_screen(x, y) ==> final(self).frame@[pix(x, y)]
                == old(self).options.default_bg_color,
    {
        let bg = self.options.default_bg_color;
        self.paint_region(Region::RectFill { x1: 0, y1: 0, x2: 479, y2: 271 }, bg);
    }

    /// Paints the header bar over the top `HEADER_HEIGHT` rows.
    fn draw_header(&mut self)
        requires
            old(self).wf(),
        ensures
            final(self).wf(),
            same_except_frame(*old(self), *final(self)),
            forall|x: int, y: int| #![trigger pix(x, y)] on_screen(x, y) ==> final(self).frame@[pix(x, y)]
                == (if y < 32 {
                    header_color()
                } else {
                    old(self).frame@[pix(x, y)]
                }),
    {
        self.paint_region(
            Region::RectFill { x1: 0, y1: 0, x2: 479, y2: 31 },
            Color { r: 0x00, g: 0x99, b: 0xcc },
        );
    }

    /// Decides whether to present a frame and prepares it. A frame is
    /// presented when explicitly requested, or after a draw while the mode
    /// is `Immediate`. The first explicit render latches the mode to
    /// `DoubleBuffered`, after which implicit renders are no-ops. When a
    /// frame is presented, the header bar is painted over the top rows;
    /// the caller then encodes and saves the framebuffer.
    pub fn render(&mut self, explicitly_requested: bool) -> (emitted: bool)
        requires
            old(self).wf(),
        ensures
            final(self).wf(),
            (final(self).render_mode, emitted) == render_decision(
                old(self).render_mode,
                explicitly_requested,
            ),
            emitted == (explicitly_requested || old(self).render_mode == RenderMode::Immediate),
            final(self).foreground_color == old(self).foreground_color,
            final(self).background_color == old(self).background_color,
            final(self).options == old(self).options,
            final(self).text_layout_cache == old(self).text_layout_cache,
            !emitted ==> final(self).frame@ == old(self).frame@,
            emitted ==> final(self).frame@ == header_over(old(self).frame@),
            forall|x: int, y: int| #![trigger pix(x, y)] on_screen(x, y) ==> final(self).frame@[pix(x, y)]
                == (if emitted && y < 32 {
                    header_color()
                } else {
                    old(self).frame@[pix(x, y)]
                }),
    {
        if explicitly_requested {
            self.render_mode = RenderMode::DoubleBuffered;
        } else if self.render_mode == RenderMode::DoubleBuffered {
            return false;
        }
        self.draw_header();
        proof {
            assert forall|k: int| 0 <= k < self.frame@.len() implies self.frame@[k] == header_over(
                old(self).frame@,
            )[k] by {
                lemma_k_coords(k);
            }
            assert(self.frame@ =~= header_over(old(self).frame@));
        }
        true
    }

    /// Resets presentation to immediate mode.
    pub fn disable_double_buffer(&mut self)
        requires
            old(self).wf(),
        ensures
            final(self).wf(),
            *final(self) == (Display { render_mode: RenderMode::Immediate, ..*old(self) }),
    {
        self.render_mode = RenderMode::Immediate;
    }

    /// Draws the midpoint-circle ring of the given radius, bounds-checking
    /// every pixel.
    fn draw_ring(&mut self, cx: i32, cy: i32, radius: i32, color: Color)
        requires
            old(self).wf(),
        ensures
            final(self).wf(),
            same_except_frame(*old(self), *final(self)),
            forall|a: int, b: int| #![trigger pix(a, b)] on_screen(a, b) ==> final(self).frame@[pix(a, b)]
                == (if ring_contains(cx as int, cy as int, radius as int, a, b) {
                    color
                } else {
                    old(self).frame@[pix(a, b)]
                }),
    {
        let cxw: i128 = cx as i128;
        let cyw: i128 = cy as i128;
        let r: i128 = radius as i128;
        let mut x: i128 = 0;
        let mut y: i128 = r;
        let mut p: i128 = 1 - r;
        let ghost mut done: Set<(int, int)> = Set::empty();
        proof {
            assert(ring_rel(0, r as int, 1 - r as int) == done.union(
                ring_rel(x as int, y as int, p as int),
            ));
        }
        while x <= y
            invariant
                old(self).wf(),
                self.wf(),
                same_except_frame(*old(self), *self),
                cxw == cx as i128,
                cyw == cy as i128,
                r == radius as i128,
                -0x8000_0000 <= r <= 0x7fff_ffff,
                (x == 0 && y == r) || (1 <= x && x <= y + 2 && -2 <= y && y <= (if r >= 0 {
                    r
                } else {
                    0
                })),
                0 <= x <= 0x8000_0001,
                -0x8000_0000 <= y <= 0x7fff_ffff,
                p as int == (x as int + 1) * (x as int + 1) + (y as int) * (y as int) - y as int - (
                r as int) * (r as int),
                ring_rel(0, r as int, 1 - r as int) == done.union(
                    ring_rel(x as int, y as int, p as int),
                ),
                forall|a: int, b: int| #![trigger pix(a, b)] on_screen(a, b)
                    ==> self.frame@[pix(a, b)] == (if done.contains((a - cx as int, b - cy as int)) {
                        color
                    } else {
                        old(self).frame@[pix(a, b)]
                    }),
            decreases y + 2 - x,
        {
            proof {
                lemma_mid_bounds(x as int, y as int, r as int);
            }
            self.plot(cxw + x, cyw + y, color);
            self.plot(cxw + y, cyw + x, color);
            self.plot(cxw - y, cyw + x, color);
            self.plot(cxw - x, cyw + y, color);
            self.plot(cxw - x, cyw - y, color);
            self.plot(cxw - y, cyw - x, color);
            self.plot(cxw + y, cyw - x, color);
            self.plot(cxw + x, cyw - y, color);
            proof {
                let oct = octet(x as int, y as int);
                done = done.union(oct);
                assert forall|a: int, b: int| #![trigger pix(a, b)] on_screen(a, b) implies self.frame@[pix(
                    a,
                    b,
                )] == (if done.contains((a - cx as int, b - cy as int)) {
                    color
                } else {
                    old(self).frame@[pix(a, b)]
                }) by {
                    let da = a - cx as int;
                    let db = b - cy as int;
                    assert(oct.contains((da, db)) <==> ((da, db) == (x as int, y as int) || (da, db)
                        == (y as int, x as int) || (da, db) == (-(y as int), x as int) || (da, db)
                        == (-(x as int), y as int) || (da, db) == (-(x as int), -(y as int)) || (da,
                    db) == (-(y as int), -(x as int)) || (da, db) == ((y as int), -(x as int)) || (
                    da, db) == ((x as int), -(y as int))));
                }
            }
            let ghost gx = x as int;
            let ghost gy = y as int;
            let ghost gp = p as int;
            x = x + 1;
            if p < 0 {
                p = p + 2 * x + 1;
            } else {
                y = y - 1;
                p = p + 2 * (x - y) + 1;
            }
            proof {
                lemma_mid_step(gx, gy, gp, r as int);
                assert(ring_rel(gx, gy, gp) == octet(gx, gy).union(
                    ring_rel(x as int, y as int, p as int),
                ));
                assert(ring_rel(0, r as int, 1 - r as int) == done.union(
                    ring_rel(x as int, y as int, p as int),
                ));
            }
        }
        proof {
            assert(ring_rel(x as int, y as int, p as int) == Set::<(int, int)>::empty());
            assert(done == ring_rel(0, r as int, 1 - r as int));
        }
    }

    /// Draws or strokes a shape in the foreground color, after clamping
    /// its coordinates, then triggers an implicit render. Returns whether
    /// a frame was presented (to be saved by the caller).
    pub fn draw(&mut self, shape: Path, stroke: bool) -> (emitted: bool)
        requires
            old(self).wf(),
        ensures
            final(self).wf(),
            emitted == (old(self).render_mode == RenderMode::Immediate),
            final(self).render_mode == old(self).render_mode,
            final(self).foreground_color == old(self).foreground_color,
            final(self).background_color == old(self).background_color,
            final(self).options == old(self).options,
            final(self).text_layout_cache == old(self).text_layout_cache,
            forall|x: int, y: int| #![trigger pix(x, y)] on_screen(x, y) ==> final(self).frame@[pix(x, y)]
                == (if emitted && y < 32 {
                    header_color()
                } else if path_contains(spec_normalize(shape), stroke, x, y) {
                    old(self).foreground_color
                } else {
                    old(self).frame@[pix(x, y)]
                }),
    {
        let mut s = shape;
        s.normalize();
        let fg = self.foreground_color;
        match s {
            Path::Rect { x1, y1, x2, y2 } => {
                if stroke {
                    self.paint_region(Region::RectStroke { x1, y1, x2, y2 }, fg);
                } else {
                    self.paint_region(Region::RectFill { x1, y1, x2, y2 }, fg);
                }
            },
            Path::Circle { cx, cy, radius } => {
                if stroke {
                    self.draw_ring(cx, cy, radius, fg);
                } else {
                    self.paint_region(Region::Disc { cx, cy, radius }, fg);
                }
            },
        }
        self.render(false)
    }

    /// Copies a rectangular pixel buffer into the framebuffer. The buffer
    /// is split into rows of `stride` packed 32-bit little-endian pixels;
    /// row `j` lands on screen row `y1 + j`. Rows past `y2` are ignored;
    /// pixels past `x2` within a row are still written (rows end by
    /// stride, not by `x2`). Out-of-range and incomplete pixels are
    /// dropped.
    pub fn draw_buffer(
        &mut self,
        buf: &[u8],
        top_left: (i32, i32),
        bot_right: (i32, i32),
        stride: u32,
    )
        requires
            old(self).wf(),
            stride >= 1,
        ensures
            final(self).wf(),
            same_except_frame(*old(self), *final(self)),
            forall|x: int, y: int| #![trigger pix(x, y)] on_screen(x, y) ==> final(self).frame@[pix(x, y)]
                == (if blit_covers(
                    buf@.len() as int,
                    top_left.0 as int,
                    top_left.1 as int,
                    bot_right.1 as int,
                    stride as int,
                    x,
                    y,
                ) {
                    blit_color(buf@, top_left.0 as int, top_left.1 as int, stride as int, x, y)
                } else {
                    old(self).frame@[pix(x, y)]
                }),
    {
        let x1 = top_left.0;
        let y1 = top_left.1;
        let y2 = bot_right.1;
        let mut y: usize = 0;
        while y < 272
            invariant
                old(self).wf(),
                self.wf(),
                stride >= 1,
                same_except_frame(*old(self), *self),
                y <= 272,
                forall|a: int, b: int| #![trigger pix(a, b)] on_screen(a, b) && b < y
                    ==> self.frame@[pix(a, b)] == (if blit_covers(
                        buf@.len() as int,
                        x1 as int,
                        y1 as int,
                        y2 as int,
                        stride as int,
                        a,
                        b,
                    ) {
                        blit_color(buf@, x1 as int, y1 as int, stride as int, a, b)
                    } else {
                        old(self).frame@[pix(a, b)]
                    }),
                forall|a: int, b: int| #![trigger pix(a, b)] on_screen(a, b) && b >= y
                    ==> self.frame@[pix(a, b)] == old(self).frame@[pix(a, b)],
            decreases 272 - y,
        {
            let mut x: usize = 0;
            while x < 480
                invariant
                    old(self).wf(),
                    self.wf(),
                    stride >= 1,
                    same_except_frame(*old(self), *self),
                    y < 272,
                    x <= 480,
                    forall|a: int, b: int| #![trigger pix(a, b)] on_screen(a, b) && (b < y || (b
                        == y && a < x)) ==> self.frame@[pix(a, b)] == (if blit_covers(
                        buf@.len() as int,
                        x1 as int,
                        y1 as int,
                        y2 as int,
                        stride as int,
                        a,
                        b,
                    ) {
                        blit_color(buf@, x1 as int, y1 as int, stride as int, a, b)
                    } else {
                        old(self).frame@[pix(a, b)]
                    }),
                    forall|a: int, b: int| #![trigger pix(a, b)] on_screen(a, b) && (b > y || (b
                        == y && a >= x)) ==> self.frame@[pix(a, b)] == old(self).frame@[pix(a, b)],
                decreases 480 - x,
            {
                let j: i128 = (y as i128) - (y1 as i128);
                let i: i128 = (x as i128) - (x1 as i128);
                if 0 <= j && (y as i128) <= (y2 as i128) && 0 <= i && i < (stride as i128) {
                    proof {
                        assert(j * (stride as int) >= 0 && j * (stride as int) + i <= 0x1_0000_0000
                            * 0x1_0000_0001) by (nonlinear_arith)
                            requires
                                0 <= j <= 0x1_0000_0000,
                                0 <= i < stride as int,
                                1 <= stride as int <= 0x1_0000_0000,
                        ;
                    }
                    let o128: i128 = (j * (stride as i128) + i) * 4;
                    if o128 + 4 <= buf.len() as i128 {
                        let o: usize = o128 as usize;
                        let c = Color { r: buf[o], g: buf[o + 1], b: buf[o + 2] };
                        self.set_pixel(x, y, c);
                    }
                }
                proof {
                    let a = x as int;
                    let b = y as int;
                    assert(self.frame@[pix(a, b)] == (if blit_covers(
                        buf@.len() as int,
                        x1 as int,
                        y1 as int,
                        y2 as int,
                        stride as int,
                        a,
                        b,
                    ) {
                        blit_color(buf@, x1 as int, y1 as int, stride as int, a, b)
                    } else {
                        old(self).frame@[pix(a, b)]
                    }));
                }
                x += 1;
            }
            y += 1;
        }
    }
}

/// The display after storing a new foreground color.
pub open spec fn set_foreground_spec(d: Display, color: u32) -> Display {
    Display { foreground_color: crate::color::spec_unpack(color), ..d }
}

/// The display after storing a new background color.
pub open spec fn set_background_spec(d: Display, color: u32) -> Display {
    Display { background_color: crate::color::spec_unpack(color), ..d }
}

/// The framebuffer with the header bar painted over the top rows.
pub open spec fn header_over(frame: Seq<Color>) -> Seq<Color> {
    Seq::new(frame.len(), |k: int| if k / 480 < 32 {
        header_color()
    } else {
        frame[k]
    })
}

/// The render decision: the mode afterward, and whether a frame is
/// presented. An explicit request latches double buffering and always
/// presents; an implicit render presents only in immediate mode.
pub open spec fn render_decision(mode: RenderMode, explicitly_requested: bool) -> (
    RenderMode,
    bool,
) {
    if explicitly_requested {
        (RenderMode::DoubleBuffered, true)
    } else if mode == RenderMode::Immediate {
        (mode, true)
    } else {
        (mode, false)
    }
}

/// Law: storing the same foreground color twice is the same as storing it
/// once, and likewise for the background color.
pub proof fn lemma_set_color_idempotent(d: Display, color: u32)
    ensures
        set_foreground_spec(set_foreground_spec(d, color), color) == set_foreground_spec(d, color),
        set_background_spec(set_background_spec(d, color), color) == set_background_spec(d, color),
{
}

/// Law: the first explicit render latches the mode to `DoubleBuffered`;
/// from then on implicit renders present no frame (so the saved image
/// stays as it was) until the mode is reset; and the mode only ever moves
/// away from its current value to `DoubleBuffered`, only explicitly.
pub proof fn lemma_double_buffer_latch(mode: RenderMode, explicit: bool)
    ensures
        render_decision(mode, true).0 == RenderMode::DoubleBuffered,
        mode == RenderMode::DoubleBuffered ==> render_decision(mode, false) == (mode, false),
        render_decision(mode, explicit).0 != mode ==> explicit && render_decision(mode, explicit).0
            == RenderMode::DoubleBuffered,
{
}

impl Display {
    /// Stores the foreground color for subsequent draws, unpacked from a
    /// 32-bit SDK color.
    pub fn set_foreground(&mut self, color: u32)
        requires
            old(self).wf(),
        ensures
            final(self).wf(),
            *final(self) == set_foreground_spec(*old(self), color),
    {
        self.foreground_color = Color::unpack(color);
    }

    /// Stores the background color for subsequent opaque text backdrops,
    /// unpacked from a 32-bit SDK color.
    pub fn set_background(&mut self, color: u32)
        requires
            old(self).wf(),
        ensures
            final(self).wf(),
            *final(self) == set_background_spec(*old(self), color),
    {
        self.background_color = Color::unpack(color);
    }

    /// Serializes the framebuffer as packed 8-bit RGB bytes, row-major,
    /// three bytes per pixel, for encoding into an image file.
    pub fn frame_bytes(&self) -> (bytes: Vec<u8>)
        requires
            self.wf(),
        ensures
            bytes@.len() == 3 * 480 * 272,
            forall|k: int| 0 <= k < 480 * 272 ==> bytes@[3 * k] == self.frame@[k].r && bytes@[3 * k
                + 1] == self.frame@[k].g && bytes@[3 * k + 2] == self.frame@[k].b,
    {
        let mut bytes: Vec<u8> = Vec::new();
        let mut k: usize = 0;
        while k < 480 * 272
            invariant
                self.wf(),
                k <= 480 * 272,
                bytes@.len() == 3 * k,
                forall|j: int| 0 <= j < k ==> bytes@[3 * j] == self.frame@[j].r && bytes@[3 * j + 1]
                    == self.frame@[j].g && bytes@[3 * j + 2] == self.frame@[j].b,
            decreases 480 * 272 - k,
        {
            let c = self.frame[k];
            bytes.push(c.r);
            bytes.push(c.g);
            bytes.push(c.b);
            k += 1;
        }
        bytes
    }
}

impl Display {
    /// The compute half of the SDK rectangle-copy entry point: reads the
    /// `(x2-x1) * (y2-y1) * 4` source bytes at `buffer_ptr` out of guest
    /// memory and blits them with the given row stride. A span past the
    /// end of guest memory fails with a memory-access error and leaves
    /// the framebuffer unchanged.
    pub fn copy_rect(
        &mut self,
        memory: &[u8],
        x1: i32,
        y1: i32,
        x2: i32,
        y2: i32,
        buffer_ptr: usize,
        stride: u32,
    ) -> (r: Result<(), GuestMemError>)
        requires
            old(self).wf(),
            x1 <= x2,
            y1 <= y2,
            stride >= 1,
        ensures
            final(self).wf(),
            same_except_frame(*old(self), *final(self)),
            ({
                let len = (x2 - x1) * (y2 - y1) * 4;
                match r {
                    Ok(()) => {
                        let src = memory@.subrange(
                            buffer_ptr as int,
                            buffer_ptr + len,
                        );
                        &&& buffer_ptr + len <= memory@.len()
                        &&& forall|x: int, y: int| #![trigger pix(x, y)] on_screen(x, y)
                            ==> final(self).frame@[pix(x, y)] == (if blit_covers(
                            len,
                            x1 as int,
                            y1 as int,
                            y2 as int,
                            stride as int,
                            x,
                            y,
                        ) {
                            blit_color(src, x1 as int, y1 as int, stride as int, x, y)
                        } else {
                            old(self).frame@[pix(x, y)]
                        })
                    },
                    Err(e) => buffer_ptr + len > memory@.len() && e == GuestMemError::OutOfBounds
                        && final(self).frame@ == old(self).frame@,
                }
            }),
    {
        let w: u128 = ((x2 as i64) - (x1 as i64)) as u128;
        let h: u128 = ((y2 as i64) - (y1 as i64)) as u128;
        proof {
            assert(w * h * 4 == ((x2 - x1) * (y2 - y1) * 4)) by (nonlinear_arith)
                requires
                    w == x2 - x1,
                    h == y2 - y1,
            ;
            assert(w * h >= 0 && w * h * 4 <= 0x4_0000_0000_0000_0000_0) by (nonlinear_arith)
                requires
                    0 <= w <= 0x1_0000_0000,
                    0 <= h <= 0x1_0000_0000,
            ;
        }
        let len128: u128 = w * h * 4;
        let total = memory.len();
        if len128 > (total as u128) || buffer_ptr > total - (len128 as usize) {
            return Err(GuestMemError::OutOfBounds);
        }
        let len: usize = len128 as usize;
        let bytes = match read_bytes(memory, buffer_ptr, len) {
            Ok(b) => b,
            Err(e) => {
                return Err(e);
            },
        };
        self.draw_buffer(bytes.as_slice(), (x1, y1), (x2, y2), stride);
        Ok(())
    }
}

/// Byte offset, within a blit source buffer, of the pixel that lands on
/// screen position `(x, y)`.
pub open spec fn blit_offset(x1: int, y1: int, stride: int, x: int, y: int) -> int {
    ((y - y1) * stride + (x - x1)) * 4
}

/// Whether a blit writes screen pixel `(x, y)`: its row has started and
/// is not past `y2`, the pixel lies within the row's stride, and its four
/// source bytes exist.
pub open spec fn blit_covers(len: int, x1: int, y1: int, y2: int, stride: int, x: int, y: int) -> bool {
    &&& y1 <= y <= y2
    &&& x1 <= x < x1 + stride
    &&& blit_offset(x1, y1, stride, x, y) + 4 <= len
}

/// The color a blit writes at screen position `(x, y)`: the low three
/// bytes of the packed little-endian pixel, in r, g, b order.
pub open spec fn blit_color(buf: Seq<u8>, x1: int, y1: int, stride: int, x: int, y: int) -> Color {
    let o = blit_offset(x1, y1, stride, x, y);
    Color { r: buf[o], g: buf[o + 1], b: buf[o + 2] }
}

/// Bounds on the midpoint circle state, for overflow-free arithmetic.
proof fn lemma_mid_bounds(x: int, y: int, r: int)
    requires
        -0x8000_0000 <= r <= 0x7fff_ffff,
        0 <= x <= 0x8000_0002,
        -0x8000_0000 <= y <= 0x8000_0000,
    ensures
        (x + 1) * (x + 1) + y * y - y - r * r >= -0x8000_0000_0000_0000_0,
        (x + 1) * (x + 1) + y * y - y - r * r <= 0x8000_0000_0000_0000_0,
{
    assert((x + 1) * (x + 1) <= 0x8000_0003 * 0x8000_0003 && (x + 1) * (x + 1) >= 0 && y * y
        <= 0x8000_0000 * 0x8000_0000 && y * y >= 0 && r * r <= 0x8000_0000 * 0x8000_0000 && r * r
        >= 0) by (nonlinear_arith)
        requires
            0 <= x + 1 <= 0x8000_0003,
            -0x8000_0000 <= y <= 0x8000_0000,
            -0x8000_0000 <= r <= 0x7fff_ffff,
    ;
}

/// The midpoint decision value keeps its closed form across one step.
proof fn lemma_mid_step(x: int, y: int, p: int, r: int)
    requires
        p == (x + 1) * (x + 1) + y * y - y - r * r,
    ensures
        p < 0 ==> p + 2 * (x + 1) + 1 == (x + 2) * (x + 2) + y * y - y - r * r,
        p >= 0 ==> p + 2 * ((x + 1) - (y - 1)) + 1 == (x + 2) * (x + 2) + (y - 1) * (y - 1) - (y
            - 1) - r * r,
{
    assert((x + 2) * (x + 2) == (x + 1) * (x + 1) + 2 * (x + 1) + 1) by (nonlinear_arith);
    assert((y - 1) * (y - 1) == y * y - 2 * y + 1) by (nonlinear_arith);
}

} // verus!
