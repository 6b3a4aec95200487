//! The grid renderers and the cell attribute rules they share.
//!
//! Both rendering strategies resolve every cell's attributes the same way:
//! bold promotes a low palette foreground to its bright variant, the blink
//! flag promotes a low palette background the same way (a deliberate,
//! non-animating use of the flag as a brightness signal), and the pen's
//! inverse flag combines with the cursor position by exclusive or to swap
//! foreground and background, falling back to the theme defaults where a
//! color is absent.

use vstd::prelude::*;

use crate::color::{CellColor, Theme};
use crate::image::Image;

pub mod raster;
pub mod vector;

verus! {

/// The style state of one cell as reported by the terminal emulator.
#[derive(Clone, Copy, Debug, PartialEq, Eq)]
pub struct CellPen {
    pub foreground: Option<CellColor>,
    pub background: Option<CellColor>,
    pub bold: bool,
    pub italic: bool,
    pub underline: bool,
    pub inverse: bool,
    pub blink: bool,
}

/// One cell of the grid: a character and the pen it was written with.
#[derive(Clone, Copy, Debug, PartialEq, Eq)]
pub struct Cell {
    pub ch: char,
    pub pen: CellPen,
}

/// The resolved attributes a renderer paints with. Inversion and
/// promotion only touch the colors; bold, italic and underline pass
/// through unchanged. An absent background means the cell paints no
/// background rectangle.
#[derive(Clone, Copy, Debug, PartialEq, Eq)]
pub struct TextAttrs {
    pub foreground: Option<CellColor>,
    pub background: Option<CellColor>,
    pub bold: bool,
    pub italic: bool,
    pub underline: bool,
}

/// Bright promotion: a palette index below 8 moves up by 8; anything
/// else is left alone.
pub open spec fn spec_promote(c: Option<CellColor>) -> Option<CellColor> {
    match c {
        Some(CellColor::Indexed(n)) => if n < 8 {
            Some(CellColor::Indexed((n + 8) as u8))
        } else {
            c
        },
        _ => c,
    }
}

/// Whether the cursor sits on the cell at column `x`, row `y`.
pub open spec fn spec_is_cursor(cursor: Option<(usize, usize)>, x: int, y: int) -> bool {
    match cursor {
        Some((cx, cy)) => cx == x && cy == y,
        None => false,
    }
}

/// The attribute resolution rules, in order: bold promotes the
/// foreground, blink promotes the background, and the pen's inverse flag
/// XOR the cursor swaps the two, substituting the theme defaults for
/// absent colors.
pub open spec fn spec_text_attrs(pen: CellPen, is_cursor: bool, theme: Theme) -> TextAttrs {
    let fg = if pen.bold {
        spec_promote(pen.foreground)
    } else {
        pen.foreground
    };
    let bg = if pen.blink {
        spec_promote(pen.background)
    } else {
        pen.background
    };
    if pen.inverse != is_cursor {
        TextAttrs {
            foreground: Some(
                match bg {
                    Some(c) => c,
                    None => CellColor::Rgb(theme.background),
                },
            ),
            background: Some(
                match fg {
                    Some(c) => c,
                    None => CellColor::Rgb(theme.foreground),
                },
            ),
            bold: pen.bold,
            italic: pen.italic,
            underline: pen.underline,
        }
    } else {
        TextAttrs {
            foreground: fg,
            background: bg,
            bold: pen.bold,
            italic: pen.italic,
            underline: pen.underline,
        }
    }
}

/// Resolves one cell's pen against the cursor position and the theme.
pub fn text_attrs(
    pen: &CellPen,
    cursor: &Option<(usize, usize)>,
    x: usize,
    y: usize,
    theme: &Theme,
) -> (r: TextAttrs)
    ensures
        r == spec_text_attrs(*pen, spec_is_cursor(*cursor, x as int, y as int), *theme),
{
    let inverse = match cursor {
        Some((cx, cy)) => *cx == x && *cy == y,
        None => false,
    };
    let mut foreground = pen.foreground;
    let mut background = pen.background;
    if pen.bold {
        foreground = promote(foreground);
    }
    if pen.blink {
        background = promote(background);
    }
    if pen.inverse != inverse {
        let fg = match background {
            Some(c) => c,
            None => CellColor::Rgb(theme.background),
        };
        let bg = match foreground {
            Some(c) => c,
            None => CellColor::Rgb(theme.foreground),
        };
        foreground = Some(fg);
        background = Some(bg);
    }
    TextAttrs {
        foreground,
        background,
        bold: pen.bold,
        italic: pen.italic,
        underline: pen.underline,
    }
}

/// Bright promotion of an optional color.
fn promote(c: Option<CellColor>) -> (r: Option<CellColor>)
    ensures
        r == spec_promote(c),
{
    match c {
        Some(CellColor::Indexed(n)) => if n < 8 {
            Some(CellColor::Indexed(n + 8))
        } else {
            Some(CellColor::Indexed(n))
        },
        other => other,
    }
}

/// Law: resolving a pen that has `inverse` set at the cursor position
/// gives exactly the attributes of the same pen without `inverse` away
/// from the cursor — the two inversions cancel.
pub proof fn lemma_double_inversion(pen: CellPen, theme: Theme)
    ensures
        spec_text_attrs(CellPen { inverse: true, ..pen }, true, theme) == spec_text_attrs(
            CellPen { inverse: false, ..pen },
            false,
            theme,
        ),
{
}

/// What a renderer run can fail with: a grid whose shape disagrees with
/// the renderer's configuration, a vector-engine parse or rasterization
/// failure, or a font database with no matching family.
#[derive(Clone, Copy, Debug, PartialEq, Eq)]
pub enum RenderError {
    ShapeMismatch,
    Rasterize,
    NoFont,
}

/// Configuration shared by both rendering strategies. Sizes are bounded
/// so that every pixel computation fits the machine's integers.
pub struct Settings {
    pub terminal_size: (usize, usize),
    pub font_db: fontdb::Database,
    pub font_families: Vec<String>,
    pub font_size: usize,
    pub line_height_milli: u64,
    pub zoom: u64,
    pub theme: Theme,
}

impl Settings {
    /// Machine bounds on the configuration: positive sizes, and cell
    /// metrics small enough that the derived pixel dimensions stay
    /// comfortably inside 32-bit arithmetic.
    pub open spec fn wf(&self) -> bool {
        &&& self.theme.wf()
        &&& 1 <= self.terminal_size.0 <= 4096
        &&& 1 <= self.terminal_size.1 <= 4096
        &&& 1 <= self.font_size <= 512
        &&& 100 <= self.line_height_milli <= 16000
        &&& 1 <= self.zoom <= 8
        &&& (self.terminal_size.0 + 2) * (self.font_size * 602) * self.zoom <= 16384000
        &&& (self.terminal_size.1 + 1) * (self.font_size * self.line_height_milli) * self.zoom
            <= 16384000
    }
}

/// Whether a grid has exactly the configured number of rows, each with
/// exactly the configured number of columns.
pub open spec fn spec_shape_ok(grid: Seq<Vec<Cell>>, cols: int, rows: int) -> bool {
    grid.len() == rows && forall|r: int| 0 <= r < grid.len() ==> (#[trigger] grid[r])@.len() == cols
}

/// Checks a grid's shape against a configured size.
pub fn check_shape(grid: &Vec<Vec<Cell>>, cols: usize, rows: usize) -> (ok: bool)
    ensures
        ok == spec_shape_ok(grid@, cols as int, rows as int),
{
    if grid.len() != rows {
        return false;
    }
    let mut r: usize = 0;
    while r < grid.len()
        invariant
            0 <= r <= grid@.len(),
            forall|k: int| 0 <= k < r ==> (#[trigger] grid@[k])@.len() == cols,
        decreases grid@.len() - r,
    {
        if grid[r].len() != cols {
            return false;
        }
        r += 1;
    }
    true
}

/// The common contract of the two rendering strategies: a renderer of a
/// fixed grid size and pixel size that rejects a grid of any other shape
/// and otherwise produces an image of exactly its pixel size.
pub trait Renderer: Sized {
    /// The renderer's configuration invariant.
    spec fn wf(&self) -> bool;

    /// The configured number of columns.
    spec fn cols(&self) -> int;

    /// The configured number of rows.
    spec fn rows(&self) -> int;

    /// The fixed output width in pixels.
    spec fn spec_pixel_width(&self) -> int;

    /// The fixed output height in pixels.
    spec fn spec_pixel_height(&self) -> int;

    /// Renders one grid snapshot into an image. A grid whose shape
    /// disagrees with the configured size is rejected, and exactly then;
    /// any produced image has exactly the configured pixel size.
    fn render(&mut self, lines: Vec<Vec<Cell>>, cursor: Option<(usize, usize)>) -> (r: Result<
        Image,
        RenderError,
    >)
        requires
            old(self).wf(),
        ensures
            final (self).wf(),
            final (self).cols() == old(self).cols(),
            final (self).rows() == old(self).rows(),
            final (self).spec_pixel_width() == old(self).spec_pixel_width(),
            final (self).spec_pixel_height() == old(self).spec_pixel_height(),
            (!spec_shape_ok(lines@, old(self).cols(), old(self).rows()) <==> r == Result::<
                Image,
                RenderError,
            >::Err(RenderError::ShapeMismatch)),
            r matches Ok(img) ==> img.wf() && img.width == old(self).spec_pixel_width()
                && img.height == old(self).spec_pixel_height(),
            r matches Err(e) ==> e == RenderError::ShapeMismatch || e == RenderError::Rasterize,
    ;

    /// The fixed output size in pixels.
    fn pixel_size(&self) -> (r: (usize, usize))
        requires
            self.wf(),
        ensures
            r.0 == self.spec_pixel_width(),
            r.1 == self.spec_pixel_height(),
    ;
}

/// Builds the vector-strategy renderer from a configuration.
pub fn resvg(settings: Settings) -> (r: vector::ResvgRenderer)
    requires
        settings.wf(),
    ensures
        r.wf(),
        r.cfg.cols == settings.terminal_size.0,
        r.cfg.rows == settings.terminal_size.1,
        r.cfg.theme == settings.theme,
        r.cfg.font_size == settings.font_size,
        r.cfg.zoom == settings.zoom,
        r.cfg.row_height_mpx == settings.font_size * settings.line_height_milli,
        r.cfg.char_width_mpx == settings.font_size * 602,
        r.cfg.font_family@ == vector::spec_join_pre(
            settings.font_families@,
            settings.font_families@.len() as int,
        ),
{
    vector::ResvgRenderer::new(settings)
}

/// Builds the raster-strategy renderer from a configuration; fails when
/// the font database has no face for any of the requested families.
pub fn fontdue(settings: Settings) -> (r: Result<raster::FontdueRenderer, RenderError>)
    requires
        settings.wf(),
    ensures
        r matches Ok(rr) ==> rr.wf() && rr.cols == settings.terminal_size.0 && rr.rows
            == settings.terminal_size.1,
        r matches Err(e) ==> e == RenderError::NoFont,
{
    raster::FontdueRenderer::new(settings)
}

/// Law: bright promotion never leaves the 16-entry palette when it acts
/// (an index below 8 moves to one below 16), and it leaves high indices,
/// direct colors and absent colors untouched.
pub proof fn lemma_promote_bound(c: Option<CellColor>)
    ensures
        match c {
            Some(CellColor::Indexed(n)) => if n < 8 {
                spec_promote(c) == Some(CellColor::Indexed((n + 8) as u8)) && n + 8 < 16
            } else {
                spec_promote(c) == c
            },
            _ => spec_promote(c) == c,
        },
{
}

} // verus!
