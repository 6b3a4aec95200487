//! The vector rendering strategy: each frame becomes a structured SVG
//! document — one layer of background rectangles, then one text layer of
//! positioned glyph runs — which a generic vector-graphics engine
//! rasterizes at a fixed pixel size chosen at construction time.
//!
//! Every coordinate is an exact milli-unit (thousandths of a percent or
//! of a pixel) formatted with three decimal places, so the document a
//! frame produces is pinned down character by character.

use vstd::prelude::*;
use vstd::string::StringExecFns;
use vstd::arithmetic::div_mod::{lemma_div_is_ordered, lemma_div_pos_is_pos};

use crate::color::{spec_color_to_rgb, color_to_rgb, CellColor, Rgb, Theme};
use crate::image::{bytes_to_image, Image};
use crate::numfmt::{dec_str, milli_str, push_char, spec_dec, spec_milli};
use crate::rasterize::{options_new, pixmap_data, pixmap_new, render_tree, tree_from_str};
use crate::renderer::{
    check_shape, spec_is_cursor, spec_shape_ok, spec_text_attrs, text_attrs, Cell, RenderError,
    Renderer, Settings, TextAttrs,
};

verus! {

/// The scalar configuration of a vector renderer: grid size, cell
/// metrics in milli-pixels, zoom, theme and the font family list.
pub struct VectorConfig {
    pub cols: usize,
    pub rows: usize,
    pub font_size: usize,
    pub char_width_mpx: u64,
    pub row_height_mpx: u64,
    pub zoom: u64,
    pub theme: Theme,
    pub font_family: String,
}

impl VectorConfig {
    /// Bounds under which every coordinate computation fits comfortably
    /// in the machine integers.
    pub open spec fn wf(&self) -> bool {
        &&& self.theme.wf()
        &&& 1 <= self.cols <= 4096
        &&& 1 <= self.rows <= 4096
        &&& 1 <= self.font_size <= 512
        &&& self.char_width_mpx == self.font_size * 602
        &&& self.font_size * 100 <= self.row_height_mpx <= self.font_size * 16000
        &&& 1 <= self.zoom <= 8
        &&& self.spec_width_mpx() * self.zoom <= 16384000
        &&& self.spec_height_mpx() * self.zoom <= 16384000
    }

    /// Document width in milli-pixels: the grid plus one column of
    /// margin on each side.
    pub open spec fn spec_width_mpx(&self) -> int {
        (self.cols + 2) * self.char_width_mpx
    }

    /// Document height in milli-pixels: the grid plus one row's margin.
    pub open spec fn spec_height_mpx(&self) -> int {
        (self.rows + 1) * self.row_height_mpx
    }

    /// The x position of a column, in thousandths of a percent.
    pub open spec fn spec_x_mpc(&self, col: int) -> int {
        100000 * col / (self.cols + 2)
    }

    /// The y position of a row, in thousandths of a percent.
    pub open spec fn spec_y_mpc(&self, row: int) -> int {
        100000 * row / (self.rows + 1)
    }

    /// One cell's width, in thousandths of a percent.
    pub open spec fn spec_cell_w_mpc(&self) -> int {
        100000int / (self.cols + 2)
    }
}

/// Milli-units rounded up to whole pixels.
pub open spec fn spec_px_ceil(m: int) -> int {
    (m + 999) / 1000
}

/// A CSS fill property for a 24-bit color.
pub open spec fn spec_fill(c: Rgb) -> Seq<char> {
    "fill: rgb("@ + spec_dec(c.r as nat) + ","@ + spec_dec(c.g as nat) + ","@ + spec_dec(
        c.b as nat,
    ) + ")"@
}

/// The style class list of a glyph: `br` for bold, ` it` for italic and
/// ` un` for underline, concatenated.
pub open spec fn spec_class(b: bool, i: bool, u: bool) -> Seq<char> {
    (if b {
        "br"@
    } else {
        Seq::empty()
    }) + (if i {
        " it"@
    } else {
        Seq::empty()
    }) + (if u {
        " un"@
    } else {
        Seq::empty()
    })
}

/// The inline style of a glyph or rectangle: the resolved color's fill,
/// or nothing where the color is absent.
pub open spec fn spec_opt_style(c: Option<CellColor>, theme: Theme) -> Seq<char> {
    match c {
        Some(c) => spec_fill(spec_color_to_rgb(c, theme)),
        None => Seq::empty(),
    }
}

/// XML escaping of one character: the five special characters become
/// entities, everything else passes through.
pub open spec fn spec_escape(ch: char) -> Seq<char> {
    if ch == '\'' {
        "&#39;"@
    } else if ch == '"' {
        "&quot;"@
    } else if ch == '&' {
        "&amp;"@
    } else if ch == '>' {
        "&gt;"@
    } else if ch == '<' {
        "&lt;"@
    } else {
        seq![ch]
    }
}

/// The document header: XML prologue, the root element carrying the
/// unzoomed size as its view box and the zoomed size as its pixel size,
/// the style classes, the rounded background rectangle, and the inner
/// element that offsets the grid by the margins.
pub open spec fn spec_header(cfg: VectorConfig) -> Seq<char> {
    "<?xml version=\"1.0\"?>\n<svg xmlns=\"http://www.w3.org/2000/svg\" viewBox=\"0 0 "@
        + spec_milli(cfg.spec_width_mpx() as nat) + " "@ + spec_milli(cfg.spec_height_mpx() as nat)
        + "\" width=\""@ + spec_milli((cfg.spec_width_mpx() * cfg.zoom) as nat) + "\" height=\""@
        + spec_milli((cfg.spec_height_mpx() * cfg.zoom) as nat) + "\" font-size=\""@ + spec_dec(
        cfg.font_size as nat,
    ) + "px\" font-family=\""@ + cfg.font_family@
        + "\">\n<style>.br { font-weight: bold } .it { font-style: italic } .un { text-decoration: underline }</style>\n<rect width=\"100%\" height=\"100%\" rx=\"4\" ry=\"4\" style=\""@
        + spec_fill(cfg.theme.background) + "\" />\n<svg x=\""@ + spec_milli(
        cfg.spec_x_mpc(1) as nat,
    ) + "%\" y=\""@ + spec_milli((50000int / (cfg.rows + 1)) as nat) + "%\" style=\""@ + spec_fill(
        cfg.theme.foreground,
    ) + "\">"@
}

/// The background rectangle one cell contributes: nothing when its
/// resolved background is absent.
pub open spec fn spec_rect_cell(
    cfg: VectorConfig,
    cell: Cell,
    cursor: Option<(usize, usize)>,
    col: int,
    row: int,
) -> Seq<char> {
    let attrs = spec_text_attrs(cell.pen, spec_is_cursor(cursor, col, row), cfg.theme);
    match attrs.background {
        None => Seq::empty(),
        Some(c) => "<rect x=\""@ + spec_milli(cfg.spec_x_mpc(col) as nat) + "%\" y=\""@
            + spec_milli(cfg.spec_y_mpc(row) as nat) + "%\" width=\""@ + spec_milli(
            cfg.spec_cell_w_mpc() as nat,
        ) + "%\" height=\""@ + spec_milli(cfg.row_height_mpx as nat) + "\" style=\""@ + spec_fill(
            spec_color_to_rgb(c, cfg.theme),
        ) + "\" />"@,
    }
}

/// The rectangles of the first `col` cells of a row.
pub open spec fn spec_rects_row_pre(
    cfg: VectorConfig,
    line: Seq<Cell>,
    cursor: Option<(usize, usize)>,
    row: int,
    col: int,
) -> Seq<char>
    decreases col,
{
    if col <= 0 {
        Seq::empty()
    } else {
        spec_rects_row_pre(cfg, line, cursor, row, col - 1) + spec_rect_cell(
            cfg,
            line[col - 1],
            cursor,
            col - 1,
            row,
        )
    }
}

/// The rectangles of the first `row` rows of a grid.
pub open spec fn spec_rects_pre(
    cfg: VectorConfig,
    grid: Seq<Vec<Cell>>,
    cursor: Option<(usize, usize)>,
    row: int,
) -> Seq<char>
    decreases row,
{
    if row <= 0 {
        Seq::empty()
    } else {
        spec_rects_pre(cfg, grid, cursor, row - 1) + spec_rects_row_pre(
            cfg,
            grid[row - 1]@,
            cursor,
            row - 1,
            grid[row - 1]@.len() as int,
        )
    }
}

/// Whether any of the first `col` cells of a row shows a glyph.
pub open spec fn spec_has_glyph(line: Seq<Cell>, col: int) -> bool
    decreases col,
{
    if col <= 0 {
        false
    } else {
        spec_has_glyph(line, col - 1) || line[col - 1].ch != ' '
    }
}

/// The glyph run entry one cell contributes: nothing for a space; the
/// first glyph of a row additionally carries the baseline shift.
pub open spec fn spec_text_cell(
    cfg: VectorConfig,
    line: Seq<Cell>,
    cursor: Option<(usize, usize)>,
    col: int,
    row: int,
) -> Seq<char> {
    let cell = line[col];
    if cell.ch == ' ' {
        Seq::empty()
    } else {
        let attrs = spec_text_attrs(cell.pen, spec_is_cursor(cursor, col, row), cfg.theme);
        "<tspan "@ + (if spec_has_glyph(line, col) {
            Seq::empty()
        } else {
            "dy=\"1em\" "@
        }) + "x=\""@ + spec_milli(cfg.spec_x_mpc(col) as nat) + "%\" class=\""@ + spec_class(
            attrs.bold,
            attrs.italic,
            attrs.underline,
        ) + "\" style=\""@ + spec_opt_style(attrs.foreground, cfg.theme) + "\">"@ + spec_escape(
            cell.ch,
        ) + "</tspan>"@
    }
}

/// The glyph entries of the first `col` cells of a row.
pub open spec fn spec_text_row_pre(
    cfg: VectorConfig,
    line: Seq<Cell>,
    cursor: Option<(usize, usize)>,
    row: int,
    col: int,
) -> Seq<char>
    decreases col,
{
    if col <= 0 {
        Seq::empty()
    } else {
        spec_text_row_pre(cfg, line, cursor, row, col - 1) + spec_text_cell(
            cfg,
            line,
            cursor,
            col - 1,
            row,
        )
    }
}

/// One row of the text layer.
pub open spec fn spec_text_row(
    cfg: VectorConfig,
    line: Seq<Cell>,
    cursor: Option<(usize, usize)>,
    row: int,
) -> Seq<char> {
    "<tspan y=\""@ + spec_milli(cfg.spec_y_mpc(row) as nat) + "%\">"@ + spec_text_row_pre(
        cfg,
        line,
        cursor,
        row,
        line.len() as int,
    ) + "</tspan>"@
}

/// The text layer of the first `row` rows.
pub open spec fn spec_text_pre(
    cfg: VectorConfig,
    grid: Seq<Vec<Cell>>,
    cursor: Option<(usize, usize)>,
    row: int,
) -> Seq<char>
    decreases row,
{
    if row <= 0 {
        Seq::empty()
    } else {
        spec_text_pre(cfg, grid, cursor, row - 1) + spec_text_row(
            cfg,
            grid[row - 1]@,
            cursor,
            row - 1,
        )
    }
}

/// The frame body: the rectangle layer followed by the text layer.
pub open spec fn spec_lines(
    cfg: VectorConfig,
    grid: Seq<Vec<Cell>>,
    cursor: Option<(usize, usize)>,
) -> Seq<char> {
    "<g style=\"shape-rendering: optimizeSpeed\">"@ + spec_rects_pre(
        cfg,
        grid,
        cursor,
        grid.len() as int,
    ) + "</g><text class=\"default-text-fill\">"@ + spec_text_pre(
        cfg,
        grid,
        cursor,
        grid.len() as int,
    ) + "</text>"@
}

/// A whole frame document.
pub open spec fn spec_document(
    cfg: VectorConfig,
    grid: Seq<Vec<Cell>>,
    cursor: Option<(usize, usize)>,
) -> Seq<char> {
    spec_header(cfg) + spec_lines(cfg, grid, cursor) + "</svg></svg>"@
}

/// A CSS fill property for a 24-bit color.
fn rgb_style(c: Rgb) -> (r: String)
    ensures
        r@ == spec_fill(c),
{
    let mut s = String::new();
    s.append("fill: rgb(");
    s.append(dec_str(c.r as u64).as_str());
    s.append(",");
    s.append(dec_str(c.g as u64).as_str());
    s.append(",");
    s.append(dec_str(c.b as u64).as_str());
    s.append(")");
    assert(s@ =~= spec_fill(c));
    s
}

/// The style class list of a glyph.
pub fn text_class(attrs: &TextAttrs) -> (r: String)
    ensures
        r@ == spec_class(attrs.bold, attrs.italic, attrs.underline),
{
    let mut s = String::new();
    if attrs.bold {
        s.append("br");
    }
    if attrs.italic {
        s.append(" it");
    }
    if attrs.underline {
        s.append(" un");
    }
    assert(s@ =~= spec_class(attrs.bold, attrs.italic, attrs.underline));
    s
}

/// The fill style a single resolved color paints with.
pub fn color_to_style(c: &CellColor, theme: &Theme) -> (r: String)
    requires
        theme.wf(),
    ensures
        r@ == spec_fill(spec_color_to_rgb(*c, *theme)),
{
    rgb_style(color_to_rgb(c, theme))
}

/// The inline style of a glyph: its resolved foreground, or empty.
pub fn text_style(attrs: &TextAttrs, theme: &Theme) -> (r: String)
    requires
        theme.wf(),
    ensures
        r@ == spec_opt_style(attrs.foreground, *theme),
{
    match attrs.foreground {
        Some(c) => color_to_style(&c, theme),
        None => {
            let s = String::new();
            assert(s@ =~= spec_opt_style(attrs.foreground, *theme));
            s
        },
    }
}

/// The style of a cell's background rectangle: its resolved background,
/// or empty.
pub fn rect_style(attrs: &TextAttrs, theme: &Theme) -> (r: String)
    requires
        theme.wf(),
    ensures
        r@ == spec_opt_style(attrs.background, *theme),
{
    match attrs.background {
        Some(c) => color_to_style(&c, theme),
        None => {
            let s = String::new();
            assert(s@ =~= spec_opt_style(attrs.background, *theme));
            s
        },
    }
}

/// Appends one character, XML-escaped.
fn push_escaped(s: &mut String, ch: char)
    ensures
        final (s)@ == old(s)@ + spec_escape(ch),
{
    if ch == '\'' {
        s.append("&#39;");
    } else if ch == '"' {
        s.append("&quot;");
    } else if ch == '&' {
        s.append("&amp;");
    } else if ch == '>' {
        s.append("&gt;");
    } else if ch == '<' {
        s.append("&lt;");
    } else {
        push_char(s, ch);
    }
}

/// The font family list joined with commas, for the `font-family`
/// attribute.
pub open spec fn spec_join_pre(parts: Seq<String>, i: int) -> Seq<char>
    decreases i,
{
    if i <= 0 {
        Seq::empty()
    } else if i == 1 {
        parts[0]@
    } else {
        spec_join_pre(parts, i - 1) + ","@ + parts[i - 1]@
    }
}

/// Joins family names with commas.
fn join_families(parts: &Vec<String>) -> (r: String)
    ensures
        r@ == spec_join_pre(parts@, parts@.len() as int),
{
    let mut s = String::new();
    let mut i: usize = 0;
    while i < parts.len()
        invariant
            0 <= i <= parts@.len(),
            s@ == spec_join_pre(parts@, i as int),
        decreases parts@.len() - i,
    {
        if i > 0 {
            s.append(",");
        }
        s.append(parts[i].as_str());
        assert(s@ =~= spec_join_pre(parts@, i + 1));
        i += 1;
    }
    s
}

/// The vector-strategy renderer: fixed configuration, the precomputed
/// document header, and the vector engine's parsing options.
pub struct ResvgRenderer {
    pub cfg: VectorConfig,
    pub pixel_width: usize,
    pub pixel_height: usize,
    pub header: String,
    pub options: usvg::Options<'static>,
}

impl ResvgRenderer {
    /// The configuration bounds hold, the pixel size is the zoomed
    /// document size rounded up, and the stored header is the document
    /// header of the configuration.
    pub open spec fn wf(&self) -> bool {
        &&& self.cfg.wf()
        &&& self.pixel_width == spec_px_ceil(self.cfg.spec_width_mpx() * self.cfg.zoom)
        &&& self.pixel_height == spec_px_ceil(self.cfg.spec_height_mpx() * self.cfg.zoom)
        &&& self.header@ == spec_header(self.cfg)
    }

    /// Builds the renderer: derives the cell metrics from the font size
    /// and line height, the pixel size from the zoomed document size,
    /// and precomputes the header.
    pub fn new(settings: Settings) -> (r: Self)
        requires
            settings.wf(),
        ensures
            r.wf(),
            r.cfg.cols == settings.terminal_size.0,
            r.cfg.rows == settings.terminal_size.1,
            r.cfg.theme == settings.theme,
            r.cfg.font_size == settings.font_size,
            r.cfg.zoom == settings.zoom,
            r.cfg.row_height_mpx == settings.font_size * settings.line_height_milli,
            r.cfg.char_width_mpx == settings.font_size * 602,
            r.cfg.font_family@ == spec_join_pre(
                settings.font_families@,
                settings.font_families@.len() as int,
            ),
    {
        let cols = settings.terminal_size.0;
        let rows = settings.terminal_size.1;
        proof {
            let fs = settings.font_size as int;
            let lh = settings.line_height_milli as int;
            assert(fs * 100 <= fs * lh <= fs * 16000 && 0 <= fs * lh <= 8192000)
                by (nonlinear_arith)
                requires
                    1 <= fs <= 512,
                    100 <= lh <= 16000,
            ;
        }
        let char_width_mpx: u64 = (settings.font_size as u64) * 602;
        let row_height_mpx: u64 = (settings.font_size as u64) * settings.line_height_milli;
        let font_family = join_families(&settings.font_families);
        let cfg = VectorConfig {
            cols,
            rows,
            font_size: settings.font_size,
            char_width_mpx,
            row_height_mpx,
            zoom: settings.zoom,
            theme: settings.theme,
            font_family,
        };
        proof {
            assert(cfg.spec_width_mpx() * cfg.zoom <= 16384000) by (nonlinear_arith)
                requires
                    cfg.spec_width_mpx() == (cfg.cols + 2) * ((cfg.font_size as int) * 602),
                    (cfg.cols + 2) * ((cfg.font_size as int) * 602) * cfg.zoom <= 16384000,
                    cfg.zoom >= 1,
            ;
            assert(cfg.spec_height_mpx() * cfg.zoom <= 16384000) by (nonlinear_arith)
                requires
                    cfg.spec_height_mpx() == (cfg.rows + 1) * cfg.row_height_mpx,
                    (cfg.rows + 1) * cfg.row_height_mpx * cfg.zoom <= 16384000,
                    cfg.zoom >= 1,
            ;
            assert(cfg.spec_width_mpx() >= 0) by (nonlinear_arith)
                requires
                    cfg.spec_width_mpx() == (cfg.cols + 2) * ((cfg.font_size as int) * 602),
                    cfg.cols >= 1,
                    cfg.font_size >= 1,
            ;
            assert(cfg.spec_height_mpx() >= 0) by (nonlinear_arith)
                requires
                    cfg.spec_height_mpx() == (cfg.rows + 1) * cfg.row_height_mpx,
                    cfg.rows >= 1,
                    cfg.row_height_mpx >= 0,
            ;
        }
        let header = Self::build_header(&cfg);
        proof {
            assert(cfg.spec_width_mpx() <= 16384000 && cfg.spec_height_mpx() <= 16384000)
                by (nonlinear_arith)
                requires
                    cfg.spec_width_mpx() * cfg.zoom <= 16384000,
                    cfg.spec_height_mpx() * cfg.zoom <= 16384000,
                    cfg.spec_width_mpx() >= 0,
                    cfg.spec_height_mpx() >= 0,
                    cfg.zoom >= 1,
            ;
        }
        let width_mpx: u64 = (cols as u64 + 2) * char_width_mpx;
        let height_mpx: u64 = (rows as u64 + 1) * row_height_mpx;
        let pixel_width: usize = (((width_mpx * cfg.zoom) + 999) / 1000) as usize;
        let pixel_height: usize = (((height_mpx * cfg.zoom) + 999) / 1000) as usize;
        let options = options_new(settings.font_db);
        ResvgRenderer { cfg, pixel_width, pixel_height, header, options }
    }

    /// Builds the document header for a configuration.
    pub fn build_header(cfg: &VectorConfig) -> (r: String)
        requires
            cfg.wf(),
        ensures
            r@ == spec_header(*cfg),
    {
        proof {
            assert(cfg.spec_width_mpx() <= cfg.spec_width_mpx() * cfg.zoom) by (nonlinear_arith)
                requires
                    cfg.zoom >= 1,
                    cfg.spec_width_mpx() >= 0,
            ;
            assert(cfg.spec_height_mpx() <= cfg.spec_height_mpx() * cfg.zoom) by (nonlinear_arith)
                requires
                    cfg.zoom >= 1,
                    cfg.spec_height_mpx() >= 0,
            ;
            assert(cfg.spec_width_mpx() >= 0) by (nonlinear_arith)
                requires
                    cfg.spec_width_mpx() == (cfg.cols + 2) * ((cfg.font_size as int) * 602),
                    cfg.cols >= 1,
                    cfg.font_size >= 1,
            ;
            assert(cfg.spec_height_mpx() >= 0) by (nonlinear_arith)
                requires
                    cfg.spec_height_mpx() == (cfg.rows + 1) * cfg.row_height_mpx,
                    cfg.rows >= 1,
                    cfg.row_height_mpx >= 0,
            ;
            lemma_div_pos_is_pos(100000int * 1, cfg.cols + 2);
            lemma_div_pos_is_pos(50000, cfg.rows + 1);
            lemma_div_is_ordered(100000int * 1, 100000int * 4098, cfg.cols + 2);
        }
        let width_mpx: u64 = (cfg.cols as u64 + 2) * cfg.char_width_mpx;
        let height_mpx: u64 = (cfg.rows as u64 + 1) * cfg.row_height_mpx;
        let mut s = String::new();
        s.append("<?xml version=\"1.0\"?>\n<svg xmlns=\"http://www.w3.org/2000/svg\" viewBox=\"0 0 ");
        s.append(milli_str(width_mpx).as_str());
        s.append(" ");
        s.append(milli_str(height_mpx).as_str());
        s.append("\" width=\"");
        s.append(milli_str(width_mpx * cfg.zoom).as_str());
        s.append("\" height=\"");
        s.append(milli_str(height_mpx * cfg.zoom).as_str());
        s.append("\" font-size=\"");
        s.append(dec_str(cfg.font_size as u64).as_str());
        s.append("px\" font-family=\"");
        s.append(cfg.font_family.as_str());
        s.append(
            "\">\n<style>.br { font-weight: bold } .it { font-style: italic } .un { text-decoration: underline }</style>\n<rect width=\"100%\" height=\"100%\" rx=\"4\" ry=\"4\" style=\"",
        );
        s.append(rgb_style(cfg.theme.background).as_str());
        s.append("\" />\n<svg x=\"");
        s.append(milli_str(100000 * 1 / (cfg.cols as u64 + 2)).as_str());
        s.append("%\" y=\"");
        s.append(milli_str(50000 / (cfg.rows as u64 + 1)).as_str());
        s.append("%\" style=\"");
        s.append(rgb_style(cfg.theme.foreground).as_str());
        s.append("\">");
        assert(s@ =~= spec_header(*cfg));
        s
    }

    /// Appends the background rectangles of one row: one per cell whose
    /// resolved background is present.
    #[verifier::rlimit(100)]
    fn push_row_rects(
        cfg: &VectorConfig,
        svg: &mut String,
        line: &Vec<Cell>,
        cursor: &Option<(usize, usize)>,
        row: usize,
    )
        requires
            cfg.wf(),
            line@.len() == cfg.cols,
            row < cfg.rows,
        ensures
            final (svg)@ == old(svg)@ + spec_rects_row_pre(
                *cfg,
                line@,
                *cursor,
                row as int,
                line@.len() as int,
            ),
    {
        let mut col: usize = 0;
        while col < line.len()
            invariant
                cfg.wf(),
                line@.len() == cfg.cols,
                row < cfg.rows,
                0 <= col <= line@.len(),
                svg@ == old(svg)@ + spec_rects_row_pre(*cfg, line@, *cursor, row as int, col as int),
            decreases line@.len() - col,
        {
            let attrs = text_attrs(&line[col].pen, cursor, col, row, &cfg.theme);
            match attrs.background {
                None => {},
                Some(c) => {
                    proof {
                        lemma_div_pos_is_pos(100000 * col, cfg.cols + 2);
                        lemma_div_pos_is_pos(100000 * row, cfg.rows + 1);
                        lemma_div_pos_is_pos(100000, cfg.cols + 2);
                    }
                    let x = 100000 * (col as u64) / (cfg.cols as u64 + 2);
                    let y = 100000 * (row as u64) / (cfg.rows as u64 + 1);
                    let w = 100000 / (cfg.cols as u64 + 2);
                    svg.append("<rect x=\"");
                    svg.append(milli_str(x).as_str());
                    svg.append("%\" y=\"");
                    svg.append(milli_str(y).as_str());
                    svg.append("%\" width=\"");
                    svg.append(milli_str(w).as_str());
                    svg.append("%\" height=\"");
                    svg.append(milli_str(cfg.row_height_mpx).as_str());
                    svg.append("\" style=\"");
                    svg.append(rect_style(&attrs, &cfg.theme).as_str());
                    svg.append("\" />");
                },
            }
            assert(svg@ =~= old(svg)@ + spec_rects_row_pre(
                *cfg,
                line@,
                *cursor,
                row as int,
                col + 1,
            ));
            col += 1;
        }
    }

    /// Appends the glyph run of one row: one entry per non-space cell,
    /// the first one carrying the baseline shift.
    #[verifier::rlimit(100)]
    fn push_row_text(
        cfg: &VectorConfig,
        svg: &mut String,
        line: &Vec<Cell>,
        cursor: &Option<(usize, usize)>,
        row: usize,
    )
        requires
            cfg.wf(),
            line@.len() == cfg.cols,
            row < cfg.rows,
        ensures
            final (svg)@ == old(svg)@ + spec_text_row(*cfg, line@, *cursor, row as int),
    {
        proof {
            lemma_div_pos_is_pos(100000 * row, cfg.rows + 1);
        }
        let y = 100000 * (row as u64) / (cfg.rows as u64 + 1);
        svg.append("<tspan y=\"");
        svg.append(milli_str(y).as_str());
        svg.append("%\">");
        let mut did_dy = false;
        let mut col: usize = 0;
        while col < line.len()
            invariant
                cfg.wf(),
                line@.len() == cfg.cols,
                row < cfg.rows,
                0 <= col <= line@.len(),
                did_dy == spec_has_glyph(line@, col as int),
                svg@ == old(svg)@ + "<tspan y=\""@ + spec_milli(cfg.spec_y_mpc(row as int) as nat)
                    + "%\">"@ + spec_text_row_pre(*cfg, line@, *cursor, row as int, col as int),
            decreases line@.len() - col,
        {
            let ch = line[col].ch;
            if ch != ' ' {
                let attrs = text_attrs(&line[col].pen, cursor, col, row, &cfg.theme);
                proof {
                    lemma_div_pos_is_pos(100000 * col, cfg.cols + 2);
                }
                svg.append("<tspan ");
                if !did_dy {
                    svg.append("dy=\"1em\" ");
                }
                let x = 100000 * (col as u64) / (cfg.cols as u64 + 2);
                svg.append("x=\"");
                svg.append(milli_str(x).as_str());
                svg.append("%\" class=\"");
                svg.append(text_class(&attrs).as_str());
                svg.append("\" style=\"");
                svg.append(text_style(&attrs, &cfg.theme).as_str());
                svg.append("\">");
                push_escaped(svg, ch);
                svg.append("</tspan>");
                did_dy = true;
            }
            assert(svg@ =~= old(svg)@ + "<tspan y=\""@ + spec_milli(
                cfg.spec_y_mpc(row as int) as nat,
            ) + "%\">"@ + spec_text_row_pre(*cfg, line@, *cursor, row as int, col + 1));
            col += 1;
        }
        svg.append("</tspan>");
        assert(final (svg)@ =~= old(svg)@ + spec_text_row(*cfg, line@, *cursor, row as int));
    }

    /// Appends a whole frame body: the rectangle layer, then the text
    /// layer, resolving every cell's attributes against the cursor.
    pub fn push_lines(
        &self,
        svg: &mut String,
        lines: &Vec<Vec<Cell>>,
        cursor: &Option<(usize, usize)>,
    )
        requires
            self.wf(),
            spec_shape_ok(lines@, self.cfg.cols as int, self.cfg.rows as int),
        ensures
            final (svg)@ == old(svg)@ + spec_lines(self.cfg, lines@, *cursor),
    {
        svg.append("<g style=\"shape-rendering: optimizeSpeed\">");
        let mut row: usize = 0;
        while row < lines.len()
            invariant
                self.wf(),
                spec_shape_ok(lines@, self.cfg.cols as int, self.cfg.rows as int),
                0 <= row <= lines@.len(),
                svg@ == old(svg)@ + "<g style=\"shape-rendering: optimizeSpeed\">"@
                    + spec_rects_pre(self.cfg, lines@, *cursor, row as int),
            decreases lines@.len() - row,
        {
            Self::push_row_rects(&self.cfg, svg, &lines[row], cursor, row);
            assert(svg@ =~= old(svg)@ + "<g style=\"shape-rendering: optimizeSpeed\">"@
                + spec_rects_pre(self.cfg, lines@, *cursor, row + 1));
            row += 1;
        }
        svg.append("</g><text class=\"default-text-fill\">");
        let ghost mid = svg@;
        let mut row2: usize = 0;
        while row2 < lines.len()
            invariant
                self.wf(),
                spec_shape_ok(lines@, self.cfg.cols as int, self.cfg.rows as int),
                0 <= row2 <= lines@.len(),
                svg@ == mid + spec_text_pre(self.cfg, lines@, *cursor, row2 as int),
                mid == old(svg)@ + "<g style=\"shape-rendering: optimizeSpeed\">"@ + spec_rects_pre(
                    self.cfg,
                    lines@,
                    *cursor,
                    lines@.len() as int,
                ) + "</g><text class=\"default-text-fill\">"@,
            decreases lines@.len() - row2,
        {
            Self::push_row_text(&self.cfg, svg, &lines[row2], cursor, row2);
            assert(svg@ =~= mid + spec_text_pre(self.cfg, lines@, *cursor, row2 + 1));
            row2 += 1;
        }
        svg.append("</text>");
        assert(final (svg)@ =~= old(svg)@ + spec_lines(self.cfg, lines@, *cursor));
    }

    /// The closing tags of a frame document.
    pub fn footer() -> (r: &'static str)
        ensures
            r@ == "</svg></svg>"@,
    {
        "</svg></svg>"
    }

    /// The fixed output width in pixels.
    pub fn pixel_width(&self) -> (r: usize)
        ensures
            r == self.pixel_width,
    {
        self.pixel_width
    }

    /// The fixed output height in pixels.
    pub fn pixel_height(&self) -> (r: usize)
        ensures
            r == self.pixel_height,
    {
        self.pixel_height
    }

    /// The whole SVG document of one frame.
    pub fn document(&self, lines: &Vec<Vec<Cell>>, cursor: &Option<(usize, usize)>) -> (r: String)
        requires
            self.wf(),
            spec_shape_ok(lines@, self.cfg.cols as int, self.cfg.rows as int),
        ensures
            r@ == spec_document(self.cfg, lines@, *cursor),
    {
        let mut svg = self.header.clone();
        self.push_lines(&mut svg, lines, cursor);
        svg.append("</svg></svg>");
        assert(svg@ =~= spec_document(self.cfg, lines@, *cursor));
        svg
    }
}

impl Renderer for ResvgRenderer {
    open spec fn wf(&self) -> bool {
        &&& self.cfg.wf()
        &&& self.pixel_width == spec_px_ceil(self.cfg.spec_width_mpx() * self.cfg.zoom)
        &&& self.pixel_height == spec_px_ceil(self.cfg.spec_height_mpx() * self.cfg.zoom)
        &&& self.header@ == spec_header(self.cfg)
    }

    open spec fn cols(&self) -> int {
        self.cfg.cols as int
    }

    open spec fn rows(&self) -> int {
        self.cfg.rows as int
    }

    open spec fn spec_pixel_width(&self) -> int {
        self.pixel_width as int
    }

    open spec fn spec_pixel_height(&self) -> int {
        self.pixel_height as int
    }

    fn render(&mut self, lines: Vec<Vec<Cell>>, cursor: Option<(usize, usize)>) -> (r: Result<
        Image,
        RenderError,
    >)
        ensures
            *final (self) == *old(self),
    {
        if !check_shape(&lines, self.cfg.cols, self.cfg.rows) {
            return Err(RenderError::ShapeMismatch);
        }
        let doc = self.document(&lines, &cursor);
        let tree = match tree_from_str(doc.as_str(), &self.options) {
            None => {
                return Err(RenderError::Rasterize);
            },
            Some(t) => t,
        };
        proof {
            lemma_div_pos_is_pos(self.cfg.spec_width_mpx() * self.cfg.zoom + 999, 1000);
            lemma_div_pos_is_pos(self.cfg.spec_height_mpx() * self.cfg.zoom + 999, 1000);
            lemma_div_is_ordered(self.cfg.spec_width_mpx() * self.cfg.zoom + 999, 16384999, 1000);
            lemma_div_is_ordered(self.cfg.spec_height_mpx() * self.cfg.zoom + 999, 16384999, 1000);
            assert(16384999int / 1000 == 16384);
        }
        let mut pixmap = match pixmap_new(self.pixel_width as u32, self.pixel_height as u32) {
            None => {
                return Err(RenderError::Rasterize);
            },
            Some(p) => p,
        };
        render_tree(&tree, &mut pixmap);
        let bytes = pixmap_data(pixmap);
        proof {
            assert((self.pixel_width as int) * (self.pixel_height as int) <= 16384 * 16384)
                by (nonlinear_arith)
                requires
                    0 <= self.pixel_width <= 16384,
                    0 <= self.pixel_height <= 16384,
            ;
        }
        let img = bytes_to_image(&bytes, self.pixel_width, self.pixel_height);
        Ok(img)
    }

    fn pixel_size(&self) -> (r: (usize, usize)) {
        (self.pixel_width, self.pixel_height)
    }
}

} // verus!
