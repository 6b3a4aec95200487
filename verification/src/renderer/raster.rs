//! The raster rendering strategy: background rectangles and glyph
//! coverage bitmaps are composited directly into the pixel buffer, with
//! an extra one-pixel rule for underlined cells. Cell attribute
//! resolution is shared with the vector strategy.
//!
//! All glyphs are rasterized from the single face loaded at
//! construction, at normal weight and style: the bold and italic
//! attributes affect color promotion and nothing else here, and the
//! drawing is clipped to each cell's own rectangle.

use vstd::prelude::*;
use vstd::arithmetic::div_mod::{
    lemma_div_is_ordered, lemma_div_multiples_vanish, lemma_div_pos_is_pos,
    lemma_fundamental_div_mod_converse,
};
use vstd::arithmetic::mul::{lemma_mul_inequality, lemma_mul_nonnegative};

use crate::color::{color_to_rgb, spec_color_to_rgb, CellColor, Rgb, Theme};
use crate::image::{Image, Rgba};
use crate::renderer::{
    check_shape, spec_is_cursor, spec_shape_ok, spec_text_attrs, text_attrs, Cell, RenderError,
    Renderer, Settings, TextAttrs,
};

verus! {

#[verifier::external_type_specification]
#[verifier::external_body]
pub struct ExFont(fontdue::Font);

/// Relies on `fontdb::Database::query`, `fontdb::Database::with_face_data`
/// and `fontdue::Font::from_bytes`: picks the first face matching one of
/// the given family names at normal weight, stretch and style, and loads
/// it for rasterization; fails when no face matches or the face data
/// cannot be parsed.
#[verifier::external_body]
fn font_from_db(db: &fontdb::Database, families: &Vec<String>) -> Option<fontdue::Font> {
    let names: Vec<fontdb::Family> = families.iter().map(|f| fontdb::Family::Name(f)).collect();
    let query = fontdb::Query {
        families: &names,
        weight: fontdb::Weight::NORMAL,
        stretch: fontdb::Stretch::Normal,
        style: fontdb::Style::Normal,
    };
    let id = db.query(&query)?;
    db.with_face_data(id, |data, index| {
        let settings = fontdue::FontSettings {
            collection_index: index,
            ..fontdue::FontSettings::default()
        };
        fontdue::Font::from_bytes(data, settings).ok()
    })?
}

/// Relies on `fontdue::Font::rasterize`: returns the glyph's bitmap
/// placement (width, height, horizontal and vertical offset) and its
/// coverage bitmap, one byte per pixel in row-major order, of exactly
/// width * height bytes.
#[verifier::external_body]
fn rasterize_glyph(font: &fontdue::Font, ch: char, px: u16) -> (r: (usize, usize, i32, i32, Vec<
    u8,
>))
    ensures
        r.4@.len() == r.0 * r.1,
{
    let (metrics, bitmap) = font.rasterize(ch, px.into());
    (metrics.width, metrics.height, metrics.xmin, metrics.ymin, bitmap)
}

/// Linear blending of one channel: source weighted by the coverage,
/// destination by its complement.
pub open spec fn spec_blend(dst: u8, src: u8, cov: u8) -> int {
    ((src as int) * (cov as int) + (dst as int) * (255 - cov)) / 255
}

/// Blends one channel by a coverage value.
fn blend_channel(dst: u8, src: u8, cov: u8) -> (r: u8)
    ensures
        r as int == spec_blend(dst, src, cov),
        0 <= spec_blend(dst, src, cov) <= 255,
{
    proof {
        assert((src as int) * (cov as int) + (dst as int) * (255 - cov) <= 255 * 255)
            by (nonlinear_arith)
            requires
                src <= 255,
                dst <= 255,
                0 <= cov <= 255,
        ;
        assert((src as int) * (cov as int) + (dst as int) * (255 - cov) >= 0) by (nonlinear_arith)
            requires
                src >= 0,
                dst >= 0,
                0 <= cov <= 255,
        ;
        lemma_div_pos_is_pos((src as int) * (cov as int) + (dst as int) * (255 - cov), 255);
        lemma_div_is_ordered(
            (src as int) * (cov as int) + (dst as int) * (255 - cov),
            255int * 255,
            255,
        );
    }
    (((src as u32) * (cov as u32) + (dst as u32) * ((255 - cov) as u32)) / 255) as u8
}

/// A 24-bit color as a fully opaque pixel.
pub open spec fn spec_opaque(c: Rgb) -> Rgba {
    Rgba { r: c.r, g: c.g, b: c.b, a: 255 }
}

/// One pixel blended toward a foreground color by a coverage value,
/// channel by channel; the result is fully opaque.
pub open spec fn spec_blend_rgba(dst: Rgba, fg: Rgb, cov: u8) -> Rgba {
    Rgba {
        r: spec_blend(dst.r, fg.r, cov) as u8,
        g: spec_blend(dst.g, fg.g, cov) as u8,
        b: spec_blend(dst.b, fg.b, cov) as u8,
        a: 255,
    }
}

/// Blending with zero coverage leaves an opaque pixel unchanged.
proof fn lemma_blend_zero(d: Rgba, f: Rgb)
    requires
        d.a == 255,
    ensures
        spec_blend_rgba(d, f, 0) == d,
{
    lemma_div_multiples_vanish(d.r as int, 255);
    lemma_div_multiples_vanish(d.g as int, 255);
    lemma_div_multiples_vanish(d.b as int, 255);
    assert((d.r as int) * 255 == 255 * (d.r as int));
    assert((d.g as int) * 255 == 255 * (d.g as int));
    assert((d.b as int) * 255 == 255 * (d.b as int));
}

/// Row-major indices are injective over a fixed row width.
proof fn lemma_grid_index(w: int, y1: int, x1: int, y2: int, x2: int)
    requires
        w > 0,
        0 <= x1 < w,
        0 <= x2 < w,
        y1 * w + x1 == y2 * w + x2,
    ensures
        y1 == y2,
        x1 == x2,
{
    lemma_fundamental_div_mod_converse(y1 * w + x1, w, y1, x1);
    lemma_fundamental_div_mod_converse(y2 * w + x2, w, y2, x2);
}

/// A pixel index is inside the buffer.
proof fn lemma_grid_index_bound(w: int, h: int, y: int, x: int)
    requires
        0 <= x < w,
        0 <= y < h,
    ensures
        0 <= y * w + x < w * h,
{
    assert(0 <= y * w + x < w * h) by (nonlinear_arith)
        requires
            0 <= x < w,
            0 <= y < h,
    ;
}

/// Fills the half-open rectangle `[x0, x1) x [y0, y1)` with one color
/// and leaves every other pixel unchanged.
pub fn fill_rect(img: &mut Image, x0: usize, x1: usize, y0: usize, y1: usize, c: Rgba)
    requires
        old(img).wf(),
        x0 <= x1 <= old(img).width,
        y0 <= y1 <= old(img).height,
        old(img).width * old(img).height <= 0x40000000,
    ensures
        final (img).wf(),
        final (img).width == old(img).width,
        final (img).height == old(img).height,
        forall|y: int, x: int|
            0 <= y < old(img).height && 0 <= x < old(img).width
                ==> #[trigger] final (img).pixels@[y * old(img).width + x] == (if y0 <= y < y1 && x0
                <= x < x1 {
                c
            } else {
                old(img).pixels@[y * old(img).width + x]
            }),
{
    let w = img.width;
    let h = img.height;
    let mut y = y0;
    while y < y1
        invariant
            img.wf(),
            img.width == w,
            img.height == h,
            w == old(img).width,
            h == old(img).height,
            x0 <= x1 <= w,
            y0 <= y <= y1 <= h,
            w * h <= 0x40000000,
            forall|py: int, px: int|
                0 <= py < h && 0 <= px < w ==> #[trigger] img.pixels@[py * w + px] == (if y0 <= py
                    < y && x0 <= px < x1 {
                    c
                } else {
                    old(img).pixels@[py * w + px]
                }),
        decreases y1 - y,
    {
        let mut x = x0;
        while x < x1
            invariant
                img.wf(),
                img.width == w,
                img.height == h,
                w == old(img).width,
                h == old(img).height,
                x0 <= x <= x1 <= w,
                y0 <= y < y1 <= h,
                w * h <= 0x40000000,
                forall|py: int, px: int|
                    0 <= py < h && 0 <= px < w ==> #[trigger] img.pixels@[py * w + px] == (if (y0
                        <= py < y && x0 <= px < x1) || (py == y && x0 <= px < x) {
                        c
                    } else {
                        old(img).pixels@[py * w + px]
                    }),
            decreases x1 - x,
        {
            proof {
                lemma_grid_index_bound(w as int, h as int, y as int, x as int);
                lemma_mul_inequality(y as int, h as int, w as int);
            }
            let idx = y * w + x;
            img.pixels[idx] = c;
            proof {
                assert forall|py: int, px: int| 0 <= py < h && 0 <= px < w implies #[trigger] img
                    .pixels@[py * w + px] == (if (y0 <= py < y && x0 <= px < x1) || (py == y && x0
                    <= px < x + 1) {
                    c
                } else {
                    old(img).pixels@[py * w + px]
                }) by {
                    lemma_grid_index_bound(w as int, h as int, py, px);
                    if py * w + px == idx {
                        lemma_grid_index(w as int, py, px, y as int, x as int);
                    }
                }
            }
            x += 1;
        }
        y += 1;
    }
}

/// Composites a glyph coverage bitmap at a signed pixel position,
/// clipping to the given rectangle: every clipped bitmap position blends
/// its pixel toward the foreground by its coverage value, and no other
/// pixel changes.
fn draw_glyph(
    img: &mut Image,
    cx0: usize,
    cx1: usize,
    cy0: usize,
    cy1: usize,
    gx: i64,
    gy: i64,
    gw: usize,
    gh: usize,
    bitmap: &Vec<u8>,
    fg: Rgb,
)
    requires
        old(img).wf(),
        bitmap@.len() == gw * gh,
        gw <= 32768,
        gh <= 32768,
        cx0 <= cx1 <= old(img).width,
        cy0 <= cy1 <= old(img).height,
        old(img).width <= 32768,
        old(img).height <= 32768,
        -4294967296 <= gx <= 4294967296,
        -4294967296 <= gy <= 4294967296,
    ensures
        final (img).wf(),
        final (img).width == old(img).width,
        final (img).height == old(img).height,
        forall|y: int, x: int|
            0 <= y < old(img).height && 0 <= x < old(img).width
                ==> #[trigger] final (img).pixels@[y * old(img).width + x] == (if cx0 <= x < cx1
                && cy0 <= y < cy1 && gx <= x < gx + gw && gy <= y < gy + gh {
                spec_blend_rgba(
                    old(img).pixels@[y * old(img).width + x],
                    fg,
                    bitmap@[(y - gy) * gw + (x - gx)],
                )
            } else {
                old(img).pixels@[y * old(img).width + x]
            }),
{
    let w = img.width;
    let h = img.height;
    let mut by: usize = 0;
    while by < gh
        invariant
            img.wf(),
            img.width == w,
            img.height == h,
            w == old(img).width,
            h == old(img).height,
            w <= 32768,
            h <= 32768,
            bitmap@.len() == gw * gh,
            gw <= 32768,
            gh <= 32768,
            cx0 <= cx1 <= w,
            cy0 <= cy1 <= h,
            -4294967296 <= gx <= 4294967296,
            -4294967296 <= gy <= 4294967296,
            0 <= by <= gh,
            forall|y: int, x: int|
                0 <= y < h && 0 <= x < w ==> #[trigger] img.pixels@[y * w + x] == (if cx0 <= x
                    < cx1 && cy0 <= y < cy1 && gx <= x < gx + gw && gy <= y < gy + by {
                    spec_blend_rgba(
                        old(img).pixels@[y * w + x],
                        fg,
                        bitmap@[(y - gy) * gw + (x - gx)],
                    )
                } else {
                    old(img).pixels@[y * w + x]
                }),
        decreases gh - by,
    {
        let mut bx: usize = 0;
        while bx < gw
            invariant
                img.wf(),
                img.width == w,
                img.height == h,
                w == old(img).width,
                h == old(img).height,
                w <= 32768,
                h <= 32768,
                bitmap@.len() == gw * gh,
                gw <= 32768,
                gh <= 32768,
                cx0 <= cx1 <= w,
                cy0 <= cy1 <= h,
                -4294967296 <= gx <= 4294967296,
                -4294967296 <= gy <= 4294967296,
                0 <= by < gh,
                0 <= bx <= gw,
                forall|y: int, x: int|
                    0 <= y < h && 0 <= x < w ==> #[trigger] img.pixels@[y * w + x] == (if cx0 <= x
                        < cx1 && cy0 <= y < cy1 && gx <= x < gx + gw && (gy <= y < gy + by || (y
                        == gy + by && gx <= x < gx + bx)) {
                        spec_blend_rgba(
                            old(img).pixels@[y * w + x],
                            fg,
                            bitmap@[(y - gy) * gw + (x - gx)],
                        )
                    } else {
                        old(img).pixels@[y * w + x]
                    }),
            decreases gw - bx,
        {
            let tx: i64 = gx + (bx as i64);
            let ty: i64 = gy + (by as i64);
            if (cx0 as i64) <= tx && tx < (cx1 as i64) && (cy0 as i64) <= ty && ty < (cy1 as i64) {
                proof {
                    assert(by * gw + bx < gw * gh) by (nonlinear_arith)
                        requires
                            0 <= bx < gw,
                            0 <= by < gh,
                    ;
                    assert((by as int) * (gw as int) <= 32768 * 32768) by (nonlinear_arith)
                        requires
                            0 <= by <= 32768,
                            0 <= gw <= 32768,
                    ;
                    lemma_grid_index_bound(w as int, h as int, ty as int, tx as int);
                    lemma_mul_inequality(ty as int, h as int, w as int);
                    assert((ty as int) * (w as int) + tx < 32768 * 32768 + 32768)
                        by (nonlinear_arith)
                        requires
                            0 <= ty < h <= 32768,
                            0 <= tx < w <= 32768,
                    ;
                }
                let cov = bitmap[by * gw + bx];
                let idx = (ty as usize) * w + (tx as usize);
                let dst = img.pixels[idx];
                let ghost mid = img.pixels@;
                img.pixels[idx] = Rgba {
                    r: blend_channel(dst.r, fg.r, cov),
                    g: blend_channel(dst.g, fg.g, cov),
                    b: blend_channel(dst.b, fg.b, cov),
                    a: 255,
                };
                proof {
                    assert forall|y: int, x: int| 0 <= y < h && 0 <= x < w implies #[trigger] img
                        .pixels@[y * w + x] == (if cx0 <= x < cx1 && cy0 <= y < cy1 && gx <= x < gx
                        + gw && (gy <= y < gy + by || (y == gy + by && gx <= x < gx + bx + 1)) {
                        spec_blend_rgba(
                            old(img).pixels@[y * w + x],
                            fg,
                            bitmap@[(y - gy) * gw + (x - gx)],
                        )
                    } else {
                        old(img).pixels@[y * w + x]
                    }) by {
                        lemma_grid_index_bound(w as int, h as int, y, x);
                        if y * w + x == idx {
                            lemma_grid_index(w as int, y, x, ty as int, tx as int);
                        }
                    }
                }
            } else {
                proof {
                    assert forall|y: int, x: int| 0 <= y < h && 0 <= x < w implies #[trigger] img
                        .pixels@[y * w + x] == (if cx0 <= x < cx1 && cy0 <= y < cy1 && gx <= x < gx
                        + gw && (gy <= y < gy + by || (y == gy + by && gx <= x < gx + bx + 1)) {
                        spec_blend_rgba(
                            old(img).pixels@[y * w + x],
                            fg,
                            bitmap@[(y - gy) * gw + (x - gx)],
                        )
                    } else {
                        old(img).pixels@[y * w + x]
                    }) by {
                        lemma_grid_index_bound(w as int, h as int, y, x);
                    }
                }
            }
            bx += 1;
        }
        by += 1;
    }
}

/// The raster-strategy renderer: a loaded font face plus the fixed cell
/// metrics, in milli-pixels per grid step.
pub struct FontdueRenderer {
    pub cols: usize,
    pub rows: usize,
    pub theme: Theme,
    pub font: fontdue::Font,
    pub font_px: u64,
    pub col_step_mpx: u64,
    pub row_step_mpx: u64,
    pub pixel_width: usize,
    pub pixel_height: usize,
}

/// Milli-units rounded up to whole pixels.
pub open spec fn spec_ceil_px(m: int) -> int {
    (m + 999) / 1000
}

impl FontdueRenderer {
    /// The column x position in pixels of column `col`.
    pub open spec fn spec_x_px(&self, col: int) -> int {
        col * self.col_step_mpx / 1000
    }

    /// The row y position in pixels of row `row`.
    pub open spec fn spec_y_px(&self, row: int) -> int {
        row * self.row_step_mpx / 1000
    }

    /// Configuration bounds: the zoomed glyph size and the cell steps
    /// are positive and small enough for all pixel arithmetic.
    pub open spec fn wf(&self) -> bool {
        &&& self.theme.wf()
        &&& 1 <= self.cols <= 4096
        &&& 1 <= self.rows <= 4096
        &&& 1 <= self.font_px <= 4096
        &&& self.col_step_mpx == self.font_px * 602
        &&& self.font_px * 100 <= self.row_step_mpx <= self.font_px * 16000
        &&& self.cols * self.col_step_mpx <= 16384000
        &&& self.rows * self.row_step_mpx <= 16384000
        &&& self.pixel_width == spec_ceil_px(self.cols * self.col_step_mpx)
        &&& self.pixel_height == spec_ceil_px(self.rows * self.row_step_mpx)
    }

    /// Loads the font and derives the cell metrics from the zoomed font
    /// size; fails when no face matches the requested families.
    pub fn new(settings: Settings) -> (r: Result<Self, RenderError>)
        requires
            settings.wf(),
        ensures
            r matches Ok(rr) ==> rr.wf() && rr.cols == settings.terminal_size.0 && rr.rows
                == settings.terminal_size.1,
            r matches Err(e) ==> e == RenderError::NoFont,
    {
        let font = match font_from_db(&settings.font_db, &settings.font_families) {
            None => {
                return Err(RenderError::NoFont);
            },
            Some(f) => f,
        };
        let cols = settings.terminal_size.0;
        let rows = settings.terminal_size.1;
        proof {
            assert(1 <= (settings.font_size as int) * settings.zoom <= 4096) by (nonlinear_arith)
                requires
                    1 <= settings.font_size <= 512,
                    1 <= settings.zoom <= 8,
            ;
        }
        let font_px: u64 = (settings.font_size as u64) * settings.zoom;
        proof {
            assert(0 <= (font_px as int) * settings.line_height_milli <= 65536000)
                by (nonlinear_arith)
                requires
                    1 <= font_px <= 4096,
                    100 <= settings.line_height_milli <= 16000,
            ;
        }
        let col_step_mpx: u64 = font_px * 602;
        let row_step_mpx: u64 = font_px * settings.line_height_milli;
        proof {
            let fs = settings.font_size as int;
            let z = settings.zoom as int;
            let lh = settings.line_height_milli as int;
            let c = cols as int;
            let rws = rows as int;
            assert(c * ((fs * z) * 602) <= (c + 2) * (fs * 602) * z && (fs * z) * 100 <= (fs * z)
                * lh <= (fs * z) * 16000 && rws * ((fs * z) * lh) <= (rws + 1) * (fs * lh) * z)
                by (nonlinear_arith)
                requires
                    1 <= fs,
                    1 <= z,
                    100 <= lh <= 16000,
                    1 <= c,
                    1 <= rws,
            ;
        }
        let width_mpx: u64 = (cols as u64) * col_step_mpx;
        let height_mpx: u64 = (rows as u64) * row_step_mpx;
        let pixel_width: usize = ((width_mpx + 999) / 1000) as usize;
        let pixel_height: usize = ((height_mpx + 999) / 1000) as usize;
        Ok(
            FontdueRenderer {
                cols,
                rows,
                theme: settings.theme,
                font,
                font_px,
                col_step_mpx,
                row_step_mpx,
                pixel_width,
                pixel_height,
            },
        )
    }

    /// The x pixel position of a column.
    fn x_px(&self, col: usize) -> (r: usize)
        requires
            self.wf(),
            col <= self.cols,
        ensures
            r as int == self.spec_x_px(col as int),
            r <= self.pixel_width,
    {
        proof {
            lemma_mul_inequality(col as int, self.cols as int, self.col_step_mpx as int);
            lemma_div_is_ordered(
                col * self.col_step_mpx,
                self.cols * self.col_step_mpx,
                1000,
            );
            lemma_div_is_ordered(
                self.cols * self.col_step_mpx,
                self.cols * self.col_step_mpx + 999,
                1000,
            );
            lemma_div_pos_is_pos(col * self.col_step_mpx, 1000);
            assert(0 <= col * self.col_step_mpx <= 16384000) by (nonlinear_arith)
                requires
                    0 <= col <= self.cols,
                    0 <= self.col_step_mpx,
                    self.cols * self.col_step_mpx <= 16384000,
            ;
        }
        ((col as u64) * self.col_step_mpx / 1000) as usize
    }

    /// The y pixel position of a row.
    fn y_px(&self, row: usize) -> (r: usize)
        requires
            self.wf(),
            row <= self.rows,
        ensures
            r as int == self.spec_y_px(row as int),
            r <= self.pixel_height,
    {
        proof {
            lemma_mul_inequality(row as int, self.rows as int, self.row_step_mpx as int);
            lemma_div_is_ordered(
                row * self.row_step_mpx,
                self.rows * self.row_step_mpx,
                1000,
            );
            lemma_div_is_ordered(
                self.rows * self.row_step_mpx,
                self.rows * self.row_step_mpx + 999,
                1000,
            );
            lemma_div_pos_is_pos(row * self.row_step_mpx, 1000);
            assert(0 <= row * self.row_step_mpx <= 16384000) by (nonlinear_arith)
                requires
                    0 <= row <= self.rows,
                    0 <= self.row_step_mpx,
                    self.rows * self.row_step_mpx <= 16384000,
            ;
        }
        ((row as u64) * self.row_step_mpx / 1000) as usize
    }

    /// The resolved attributes of one cell of the grid.
    pub open spec fn spec_cell_attrs(
        &self,
        grid: Seq<Vec<Cell>>,
        cursor: Option<(usize, usize)>,
        col: int,
        row: int,
    ) -> TextAttrs {
        spec_text_attrs(grid[row]@[col].pen, spec_is_cursor(cursor, col, row), self.theme)
    }

    /// The color a cell's rectangle is filled with: its resolved
    /// background, or the theme background where absent.
    pub open spec fn spec_cell_base(
        &self,
        grid: Seq<Vec<Cell>>,
        cursor: Option<(usize, usize)>,
        col: int,
        row: int,
    ) -> Rgba {
        match self.spec_cell_attrs(grid, cursor, col, row).background {
            Some(c) => spec_opaque(spec_color_to_rgb(c, self.theme)),
            None => spec_opaque(self.theme.background),
        }
    }

    /// The color a cell's glyph and underline are drawn with: its
    /// resolved foreground, or the theme foreground where absent.
    pub open spec fn spec_cell_fg_rgb(
        &self,
        grid: Seq<Vec<Cell>>,
        cursor: Option<(usize, usize)>,
        col: int,
        row: int,
    ) -> Rgb {
        match self.spec_cell_attrs(grid, cursor, col, row).foreground {
            Some(c) => spec_color_to_rgb(c, self.theme),
            None => self.theme.foreground,
        }
    }

    /// The same, as a fully opaque pixel.
    pub open spec fn spec_cell_fg(
        &self,
        grid: Seq<Vec<Cell>>,
        cursor: Option<(usize, usize)>,
        col: int,
        row: int,
    ) -> Rgba {
        spec_opaque(self.spec_cell_fg_rgb(grid, cursor, col, row))
    }

    /// Whether a cell draws its one-pixel underline rule: the attribute
    /// is set and the row is tall enough to hold the rule.
    pub open spec fn spec_underlined(
        &self,
        grid: Seq<Vec<Cell>>,
        cursor: Option<(usize, usize)>,
        col: int,
        row: int,
    ) -> bool {
        self.spec_cell_attrs(grid, cursor, col, row).underline && self.spec_y_px(row + 1)
            >= self.spec_y_px(row) + 2
    }

    /// What one pixel of a cell's rectangle must hold: the foreground on
    /// the underline rule, and the cell's base color everywhere in a
    /// space cell; a glyph cell's remaining pixels are blends of the
    /// glyph's coverage bitmap and are not pinned here.
    pub open spec fn spec_pixel_ok(
        &self,
        grid: Seq<Vec<Cell>>,
        cursor: Option<(usize, usize)>,
        col: int,
        row: int,
        y: int,
        p: Rgba,
    ) -> bool {
        &&& (self.spec_underlined(grid, cursor, col, row) && y == self.spec_y_px(row + 1) - 2
            ==> p == self.spec_cell_fg(grid, cursor, col, row))
        &&& (grid[row]@[col].ch == ' ' && !(self.spec_underlined(grid, cursor, col, row) && y
            == self.spec_y_px(row + 1) - 2) ==> p == self.spec_cell_base(grid, cursor, col, row))
        &&& (!(self.spec_underlined(grid, cursor, col, row) && y == self.spec_y_px(row + 1) - 2)
            ==> exists|cov: u8|
                p == spec_blend_rgba(
                    self.spec_cell_base(grid, cursor, col, row),
                    self.spec_cell_fg_rgb(grid, cursor, col, row),
                    cov,
                ))
    }

    /// Every pixel of the cell's rectangle satisfies its claim.
    pub open spec fn spec_cell_painted(
        &self,
        grid: Seq<Vec<Cell>>,
        cursor: Option<(usize, usize)>,
        img: Image,
        col: int,
        row: int,
    ) -> bool {
        forall|y: int, x: int|
            self.spec_x_px(col) <= x < self.spec_x_px(col + 1) && self.spec_y_px(row) <= y
                < self.spec_y_px(row + 1) ==> self.spec_pixel_ok(
                grid,
                cursor,
                col,
                row,
                y,
                #[trigger] img.pixels@[y * self.pixel_width + x],
            )
    }

    /// The unpainted margin right of the last column and below the last
    /// row holds the theme background.
    pub open spec fn spec_margin_bg(&self, img: Image) -> bool {
        forall|y: int, x: int|
            0 <= y < self.pixel_height && 0 <= x < self.pixel_width && (x >= self.spec_x_px(
                self.cols as int,
            ) || y >= self.spec_y_px(self.rows as int)) ==> #[trigger] img.pixels@[y
                * self.pixel_width + x] == spec_opaque(self.theme.background)
    }

    /// Column positions never decrease and stay inside the image.
    proof fn lemma_x_px_monotone(&self, a: int, b: int)
        requires
            self.wf(),
            0 <= a <= b,
        ensures
            0 <= self.spec_x_px(a) <= self.spec_x_px(b),
            b <= self.cols ==> self.spec_x_px(b) <= self.pixel_width,
    {
        lemma_mul_nonnegative(a, self.col_step_mpx as int);
        lemma_mul_inequality(a, b, self.col_step_mpx as int);
        lemma_div_pos_is_pos(a * self.col_step_mpx, 1000);
        lemma_div_is_ordered(a * self.col_step_mpx, b * self.col_step_mpx, 1000);
        if b <= self.cols {
            lemma_mul_inequality(b, self.cols as int, self.col_step_mpx as int);
            lemma_div_is_ordered(b * self.col_step_mpx, self.cols * self.col_step_mpx, 1000);
            lemma_div_is_ordered(
                self.cols * self.col_step_mpx,
                self.cols * self.col_step_mpx + 999,
                1000,
            );
        }
    }

    /// Row positions never decrease and stay inside the image.
    proof fn lemma_y_px_monotone(&self, a: int, b: int)
        requires
            self.wf(),
            0 <= a <= b,
        ensures
            0 <= self.spec_y_px(a) <= self.spec_y_px(b),
            b <= self.rows ==> self.spec_y_px(b) <= self.pixel_height,
    {
        lemma_mul_nonnegative(a, self.row_step_mpx as int);
        lemma_mul_inequality(a, b, self.row_step_mpx as int);
        lemma_div_pos_is_pos(a * self.row_step_mpx, 1000);
        lemma_div_is_ordered(a * self.row_step_mpx, b * self.row_step_mpx, 1000);
        if b <= self.rows {
            lemma_mul_inequality(b, self.rows as int, self.row_step_mpx as int);
            lemma_div_is_ordered(b * self.row_step_mpx, self.rows * self.row_step_mpx, 1000);
            lemma_div_is_ordered(
                self.rows * self.row_step_mpx,
                self.rows * self.row_step_mpx + 999,
                1000,
            );
        }
    }

    /// The image and buffer bounds every painting step relies on.
    proof fn lemma_pixel_bounds(&self)
        requires
            self.wf(),
        ensures
            0 <= self.pixel_width <= 16384,
            0 <= self.pixel_height <= 16384,
            self.pixel_width * self.pixel_height <= 0x40000000,
    {
        lemma_div_pos_is_pos(self.cols * self.col_step_mpx + 999, 1000);
        lemma_div_pos_is_pos(self.rows * self.row_step_mpx + 999, 1000);
        lemma_div_is_ordered(self.cols * self.col_step_mpx + 999, 16384999, 1000);
        lemma_div_is_ordered(self.rows * self.row_step_mpx + 999, 16384999, 1000);
        assert(16384999int / 1000 == 16384);
        assert((self.pixel_width as int) * (self.pixel_height as int) <= 0x40000000)
            by (nonlinear_arith)
            requires
                0 <= self.pixel_width <= 16384,
                0 <= self.pixel_height <= 16384,
        ;
    }

    /// Paints one cell: fills its rectangle with the base color,
    /// composites the glyph (clipped to the rectangle), then draws the
    /// underline rule. Nothing outside the cell's rectangle changes.
    fn paint_cell(
        &self,
        img: &mut Image,
        lines: &Vec<Vec<Cell>>,
        cursor: &Option<(usize, usize)>,
        col: usize,
        row: usize,
    )
        requires
            self.wf(),
            spec_shape_ok(lines@, self.cols as int, self.rows as int),
            col < self.cols,
            row < self.rows,
            old(img).wf(),
            old(img).width == self.pixel_width,
            old(img).height == self.pixel_height,
        ensures
            final (img).wf(),
            final (img).width == old(img).width,
            final (img).height == old(img).height,
            self.spec_cell_painted(lines@, *cursor, *final (img), col as int, row as int),
            forall|y: int, x: int|
                0 <= y < old(img).height && 0 <= x < old(img).width && !(self.spec_x_px(col as int)
                    <= x < self.spec_x_px(col + 1) && self.spec_y_px(row as int) <= y
                    < self.spec_y_px(row + 1)) ==> #[trigger] final (img).pixels@[y * old(
                    img,
                ).width + x] == old(img).pixels@[y * old(img).width + x],
    {
        proof {
            self.lemma_pixel_bounds();
            self.lemma_x_px_monotone(col as int, col + 1);
            self.lemma_x_px_monotone(col + 1, self.cols as int);
            self.lemma_y_px_monotone(row as int, row + 1);
            self.lemma_y_px_monotone(row + 1, self.rows as int);
        }
        let x0 = self.x_px(col);
        let x1 = self.x_px(col + 1);
        let y0 = self.y_px(row);
        let y1 = self.y_px(row + 1);
        let cell = lines[row][col];
        let attrs = text_attrs(&cell.pen, cursor, col, row, &self.theme);
        let base = match attrs.background {
            Some(c) => {
                let rgb = color_to_rgb(&c, &self.theme);
                Rgba { r: rgb.r, g: rgb.g, b: rgb.b, a: 255 }
            },
            None => Rgba {
                r: self.theme.background.r,
                g: self.theme.background.g,
                b: self.theme.background.b,
                a: 255,
            },
        };
        let fg = match attrs.foreground {
            Some(c) => color_to_rgb(&c, &self.theme),
            None => self.theme.foreground,
        };
        let fg_px = Rgba { r: fg.r, g: fg.g, b: fg.b, a: 255 };
        let ghost bval = self.spec_cell_base(lines@, *cursor, col as int, row as int);
        let ghost fval = self.spec_cell_fg_rgb(lines@, *cursor, col as int, row as int);
        proof {
            assert(base == bval);
            assert(fg == fval);
            lemma_blend_zero(bval, fval);
        }
        fill_rect(img, x0, x1, y0, y1, base);
        let ghost after_base = *img;
        if cell.ch != ' ' {
            let (gw, gh, xmin, ymin, bitmap) = rasterize_glyph(
                &self.font,
                cell.ch,
                self.font_px as u16,
            );
            if gw <= 32768 && gh <= 32768 {
                let baseline: i64 = (y0 as i64) + (self.font_px as i64);
                let gx: i64 = (x0 as i64) + (xmin as i64);
                let gy: i64 = baseline - (ymin as i64) - (gh as i64);
                draw_glyph(img, x0, x1, y0, y1, gx, gy, gw, gh, &bitmap, fg);
                proof {
                    assert forall|y: int, x: int|
                        self.spec_x_px(col as int) <= x < self.spec_x_px(col + 1)
                            && self.spec_y_px(row as int) <= y < self.spec_y_px(row + 1) implies
                        exists|cov: u8|
                            #[trigger] img.pixels@[y * self.pixel_width + x] == spec_blend_rgba(
                                bval,
                                fval,
                                cov,
                            ) by {
                        lemma_grid_index_bound(
                            self.pixel_width as int,
                            self.pixel_height as int,
                            y,
                            x,
                        );
                        assert(after_base.pixels@[y * self.pixel_width + x] == bval);
                        if gx <= x < gx + gw && gy <= y < gy + gh {
                            assert(img.pixels@[y * self.pixel_width + x] == spec_blend_rgba(
                                bval,
                                fval,
                                bitmap@[(y - gy) * gw + (x - gx)],
                            ));
                        } else {
                            assert(img.pixels@[y * self.pixel_width + x] == spec_blend_rgba(
                                bval,
                                fval,
                                0,
                            ));
                        }
                    }
                }
            }
        }
        proof {
            assert forall|y: int, x: int|
                self.spec_x_px(col as int) <= x < self.spec_x_px(col + 1) && self.spec_y_px(
                    row as int,
                ) <= y < self.spec_y_px(row + 1) implies exists|cov: u8|
                #[trigger] img.pixels@[y * self.pixel_width + x] == spec_blend_rgba(
                    bval,
                    fval,
                    cov,
                ) by {
                lemma_grid_index_bound(self.pixel_width as int, self.pixel_height as int, y, x);
                if img.pixels@[y * self.pixel_width + x] == bval {
                    assert(img.pixels@[y * self.pixel_width + x] == spec_blend_rgba(bval, fval, 0));
                }
            }
        }
        let ghost after_glyph = *img;
        if attrs.underline && y1 >= y0 + 2 {
            fill_rect(img, x0, x1, y1 - 2, y1 - 1, fg_px);
        }
        proof {
            let g = lines@;
            let c = col as int;
            let r = row as int;
            assert forall|y: int, x: int|
                self.spec_x_px(c) <= x < self.spec_x_px(c + 1) && self.spec_y_px(r) <= y
                    < self.spec_y_px(r + 1) implies self.spec_pixel_ok(
                g,
                *cursor,
                c,
                r,
                y,
                #[trigger] img.pixels@[y * self.pixel_width + x],
            ) by {
                lemma_grid_index_bound(
                    self.pixel_width as int,
                    self.pixel_height as int,
                    y,
                    x,
                );
                if !(self.spec_underlined(g, *cursor, c, r) && y == self.spec_y_px(r + 1) - 2) {
                    assert(img.pixels@[y * self.pixel_width + x] == after_glyph.pixels@[y
                        * self.pixel_width + x]);
                    let cov0 = choose|cov: u8|
                        after_glyph.pixels@[y * self.pixel_width + x] == spec_blend_rgba(
                            bval,
                            fval,
                            cov,
                        );
                    assert(img.pixels@[y * self.pixel_width + x] == spec_blend_rgba(
                        bval,
                        fval,
                        cov0,
                    ));
                }
            }
        }
    }

}

impl Renderer for FontdueRenderer {
    open spec fn wf(&self) -> bool {
        FontdueRenderer::wf(self)
    }

    open spec fn cols(&self) -> int {
        self.cols as int
    }

    open spec fn rows(&self) -> int {
        self.rows as int
    }

    open spec fn spec_pixel_width(&self) -> int {
        self.pixel_width as int
    }

    open spec fn spec_pixel_height(&self) -> int {
        self.pixel_height as int
    }

    fn render(&mut self, lines: Vec<Vec<Cell>>, cursor: Option<(usize, usize)>) -> (r: Result<
        Image,
        RenderError,
    >)
        ensures
            *final (self) == *old(self),
            spec_shape_ok(lines@, old(self).cols as int, old(self).rows as int) ==> r is Ok,
            r matches Ok(img) ==> (forall|row: int, col: int|
                0 <= row < old(self).rows && 0 <= col < old(self).cols ==> #[trigger] old(
                    self,
                ).spec_cell_painted(lines@, cursor, img, col, row)) && old(self).spec_margin_bg(
                img,
            ),
    {
        if !check_shape(&lines, self.cols, self.rows) {
            return Err(RenderError::ShapeMismatch);
        }
        proof {
            self.lemma_pixel_bounds();
            self.lemma_x_px_monotone(0, self.cols as int);
            self.lemma_y_px_monotone(0, self.rows as int);
        }
        let w = self.pixel_width;
        let h = self.pixel_height;
        let base = Rgba {
            r: self.theme.background.r,
            g: self.theme.background.g,
            b: self.theme.background.b,
            a: 255,
        };
        let total = w * h;
        let pixels: Vec<Rgba> = vec![base; total];
        let mut img = Image { width: w, height: h, pixels };
        proof {
            assert forall|y: int, x: int| 0 <= y < h && 0 <= x < w implies #[trigger] img.pixels@[y
                * w + x] == spec_opaque(self.theme.background) by {
                lemma_grid_index_bound(w as int, h as int, y, x);
            }
        }
        let mut row: usize = 0;
        while row < self.rows
            invariant
                self.wf(),
                *self == *old(self),
                spec_shape_ok(lines@, self.cols as int, self.rows as int),
                0 <= row <= self.rows,
                w == self.pixel_width,
                h == self.pixel_height,
                w <= 16384,
                h <= 16384,
                img.wf(),
                img.width == w,
                img.height == h,
                forall|r2: int, c2: int|
                    0 <= r2 < row && 0 <= c2 < self.cols ==> #[trigger] self.spec_cell_painted(
                        lines@,
                        cursor,
                        img,
                        c2,
                        r2,
                    ),
                forall|y: int, x: int|
                    0 <= y < h && 0 <= x < w && (x >= self.spec_x_px(self.cols as int) || y
                        >= self.spec_y_px(self.rows as int) || y >= self.spec_y_px(row as int))
                        ==> #[trigger] img.pixels@[y * w + x] == spec_opaque(self.theme.background),
            decreases self.rows - row,
        {
            let mut col: usize = 0;
            proof {
                self.lemma_y_px_monotone(row as int, row + 1);
                assert(self.spec_x_px(0) == 0);
            }
            while col < self.cols
                invariant
                    self.wf(),
                    *self == *old(self),
                    spec_shape_ok(lines@, self.cols as int, self.rows as int),
                    0 <= row < self.rows,
                    0 <= col <= self.cols,
                    w == self.pixel_width,
                    h == self.pixel_height,
                    w <= 16384,
                    h <= 16384,
                    img.wf(),
                    img.width == w,
                    img.height == h,
                    forall|r2: int, c2: int|
                        0 <= r2 < row && 0 <= c2 < self.cols ==> #[trigger] self.spec_cell_painted(
                            lines@,
                            cursor,
                            img,
                            c2,
                            r2,
                        ),
                    forall|c2: int|
                        0 <= c2 < col ==> #[trigger] self.spec_cell_painted(
                            lines@,
                            cursor,
                            img,
                            c2,
                            row as int,
                        ),
                    forall|y: int, x: int|
                        0 <= y < h && 0 <= x < w && (x >= self.spec_x_px(self.cols as int) || y
                            >= self.spec_y_px(self.rows as int) || y >= self.spec_y_px(row + 1) || (
                        y >= self.spec_y_px(row as int) && x >= self.spec_x_px(col as int)))
                            ==> #[trigger] img.pixels@[y * w + x] == spec_opaque(
                            self.theme.background,
                        ),
                decreases self.cols - col,
            {
                let ghost prev_img = img;
                self.paint_cell(&mut img, &lines, &cursor, col, row);
                proof {
                    self.lemma_x_px_monotone(col as int, col + 1);
                    self.lemma_x_px_monotone(col + 1, self.cols as int);
                    self.lemma_y_px_monotone(row as int, row + 1);
                    self.lemma_y_px_monotone(row + 1, self.rows as int);
                    assert forall|r2: int, c2: int|
                        0 <= r2 < row && 0 <= c2 < self.cols implies #[trigger] self
                        .spec_cell_painted(lines@, cursor, img, c2, r2) by {
                        assert(self.spec_cell_painted(lines@, cursor, prev_img, c2, r2));
                        self.lemma_y_px_monotone(r2, r2 + 1);
                        self.lemma_y_px_monotone(r2 + 1, row as int);
                        self.lemma_x_px_monotone(c2, c2 + 1);
                        assert forall|y: int, x: int|
                            self.spec_x_px(c2) <= x < self.spec_x_px(c2 + 1) && self.spec_y_px(r2)
                                <= y < self.spec_y_px(r2 + 1) implies self.spec_pixel_ok(
                            lines@,
                            cursor,
                            c2,
                            r2,
                            y,
                            #[trigger] img.pixels@[y * self.pixel_width + x],
                        ) by {
                            assert(img.pixels@[y * self.pixel_width + x] == prev_img.pixels@[y
                                * self.pixel_width + x]);
                            assert(self.spec_pixel_ok(
                                lines@,
                                cursor,
                                c2,
                                r2,
                                y,
                                prev_img.pixels@[y * self.pixel_width + x],
                            ));
                        }
                    }
                    assert forall|c2: int|
                        0 <= c2 < col implies #[trigger] self.spec_cell_painted(
                        lines@,
                        cursor,
                        img,
                        c2,
                        row as int,
                    ) by {
                        assert(self.spec_cell_painted(lines@, cursor, prev_img, c2, row as int));
                        self.lemma_x_px_monotone(c2, c2 + 1);
                        self.lemma_x_px_monotone(c2 + 1, col as int);
                        assert forall|y: int, x: int|
                            self.spec_x_px(c2) <= x < self.spec_x_px(c2 + 1) && self.spec_y_px(
                                row as int,
                            ) <= y < self.spec_y_px(row + 1) implies self.spec_pixel_ok(
                            lines@,
                            cursor,
                            c2,
                            row as int,
                            y,
                            #[trigger] img.pixels@[y * self.pixel_width + x],
                        ) by {
                            assert(img.pixels@[y * self.pixel_width + x] == prev_img.pixels@[y
                                * self.pixel_width + x]);
                            assert(self.spec_pixel_ok(
                                lines@,
                                cursor,
                                c2,
                                row as int,
                                y,
                                prev_img.pixels@[y * self.pixel_width + x],
                            ));
                        }
                    }
                    assert forall|y: int, x: int|
                        0 <= y < h && 0 <= x < w && (x >= self.spec_x_px(self.cols as int) || y
                            >= self.spec_y_px(self.rows as int) || y >= self.spec_y_px(row + 1) || (
                        y >= self.spec_y_px(row as int) && x >= self.spec_x_px(col + 1)))
                            implies #[trigger] img.pixels@[y * w + x] == spec_opaque(
                        self.theme.background,
                    ) by {
                        assert(img.pixels@[y * w + x] == prev_img.pixels@[y * w + x]);
                    }
                }
                col += 1;
            }
            row += 1;
        }
        Ok(img)
    }

    fn pixel_size(&self) -> (r: (usize, usize)) {
        (self.pixel_width, self.pixel_height)
    }
}

} // verus!
