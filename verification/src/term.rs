//! Trusted boundary to the terminal emulator: feeding payload text and
//! reading back the screen snapshot, plus the conversion of the
//! emulator's cells into the library's own grid.

use vstd::prelude::*;

use crate::color::{CellColor, Rgb};
use crate::renderer::{Cell, CellPen};

verus! {

#[verifier::external_type_specification]
#[verifier::external_body]
pub struct ExVt(avt::Vt);

#[verifier::external_type_specification]
#[verifier::external_body]
pub struct ExAvtPen(avt::Pen);

#[verifier::external_type_specification]
#[verifier::external_body]
pub struct ExAvtColor(avt::Color);

/// Relies on `avt::Vt::new`: a fresh terminal emulator with the given
/// number of columns and rows. The emulator arithmetic assumes at least
/// one column and one row; a zero size is excluded here.
#[verifier::external_body]
pub fn vt_new(cols: usize, rows: usize) -> avt::Vt
    requires
        cols >= 1,
        rows >= 1,
{
    avt::Vt::new(cols, rows)
}

/// Relies on `avt::Vt::feed_str`: interprets the payload, updating the
/// emulator's screen state.
#[verifier::external_body]
pub fn vt_feed_str(vt: &mut avt::Vt, data: &str) {
    let _ = vt.feed_str(data);
}

/// Relies on `avt::Vt::cursor` and its conversion to an optional pair:
/// the cursor's (column, row), absent when the cursor is hidden.
#[verifier::external_body]
pub fn vt_cursor(vt: &avt::Vt) -> Option<(usize, usize)> {
    vt.cursor().into()
}

/// One emulator cell as handed out of the trusted boundary: its
/// character and its (opaque) pen.
pub struct RawCell {
    pub ch: char,
    pub pen: avt::Pen,
}

/// Relies on `avt::Vt::view`, `avt::Line::cells`, `avt::Cell::char` and
/// `avt::Cell::pen`: hands the visible grid out, each cell as its
/// character and pen.
#[verifier::external_body]
pub fn vt_grid(vt: &avt::Vt) -> Vec<Vec<RawCell>> {
    vt.view()
        .map(|line| line.cells().iter().map(|c| RawCell { ch: c.char(), pen: *c.pen() }).collect())
        .collect()
}

/// Relies on `avt::Pen::foreground`.
#[verifier::external_body]
pub fn pen_foreground(pen: &avt::Pen) -> Option<avt::Color> {
    pen.foreground()
}

/// Relies on `avt::Pen::background`.
#[verifier::external_body]
pub fn pen_background(pen: &avt::Pen) -> Option<avt::Color> {
    pen.background()
}

/// Relies on `avt::Pen::is_bold`.
#[verifier::external_body]
pub fn pen_is_bold(pen: &avt::Pen) -> bool {
    pen.is_bold()
}

/// Relies on `avt::Pen::is_italic`.
#[verifier::external_body]
pub fn pen_is_italic(pen: &avt::Pen) -> bool {
    pen.is_italic()
}

/// Relies on `avt::Pen::is_underline`.
#[verifier::external_body]
pub fn pen_is_underline(pen: &avt::Pen) -> bool {
    pen.is_underline()
}

/// Relies on `avt::Pen::is_inverse`.
#[verifier::external_body]
pub fn pen_is_inverse(pen: &avt::Pen) -> bool {
    pen.is_inverse()
}

/// Relies on `avt::Pen::is_blink`.
#[verifier::external_body]
pub fn pen_is_blink(pen: &avt::Pen) -> bool {
    pen.is_blink()
}

/// Relies on the `avt::Color` variants: an indexed color keeps its
/// index, a direct color keeps its channels.
#[verifier::external_body]
pub fn color_from_avt(c: &avt::Color) -> CellColor {
    match c {
        avt::Color::Indexed(n) => CellColor::Indexed(*n),
        avt::Color::RGB(rgb) => CellColor::Rgb(Rgb { r: rgb.r, g: rgb.g, b: rgb.b }),
    }
}

/// Converts one emulator pen into the library's pen, reading each
/// attribute through its accessor.
pub fn convert_pen(pen: &avt::Pen) -> CellPen {
    let foreground = match pen_foreground(pen) {
        Some(c) => Some(color_from_avt(&c)),
        None => None,
    };
    let background = match pen_background(pen) {
        Some(c) => Some(color_from_avt(&c)),
        None => None,
    };
    CellPen {
        foreground,
        background,
        bold: pen_is_bold(pen),
        italic: pen_is_italic(pen),
        underline: pen_is_underline(pen),
        inverse: pen_is_inverse(pen),
        blink: pen_is_blink(pen),
    }
}

/// Converts one emulator row into the library's cells.
pub fn convert_line(line: &Vec<RawCell>) -> (cells: Vec<Cell>)
    ensures
        cells@.len() == line@.len(),
        forall|k: int| 0 <= k < line@.len() ==> (#[trigger] cells@[k]).ch == line@[k].ch,
{
    let mut cells: Vec<Cell> = Vec::new();
    let mut c: usize = 0;
    while c < line.len()
        invariant
            0 <= c <= line@.len(),
            cells@.len() == c,
            forall|k: int| 0 <= k < c ==> (#[trigger] cells@[k]).ch == line@[k].ch,
        decreases line@.len() - c,
    {
        let ch = line[c].ch;
        let pen = convert_pen(&line[c].pen);
        cells.push(Cell { ch, pen });
        c += 1;
    }
    cells
}

/// Converts the emulator's grid into the library's grid, cell by cell,
/// keeping the shape.
pub fn convert_grid(raw: &Vec<Vec<RawCell>>) -> (grid: Vec<Vec<Cell>>)
    ensures
        grid@.len() == raw@.len(),
        forall|r: int| 0 <= r < raw@.len() ==> (#[trigger] grid@[r])@.len() == raw@[r]@.len(),
        forall|r: int, k: int|
            0 <= r < raw@.len() && 0 <= k < raw@[r]@.len() ==> (#[trigger] grid@[r]@[k]).ch
                == raw@[r]@[k].ch,
{
    let mut grid: Vec<Vec<Cell>> = Vec::new();
    let mut r: usize = 0;
    while r < raw.len()
        invariant
            0 <= r <= raw@.len(),
            grid@.len() == r,
            forall|k: int| 0 <= k < r ==> (#[trigger] grid@[k])@.len() == raw@[k]@.len(),
            forall|q: int, k: int|
                0 <= q < r && 0 <= k < raw@[q]@.len() ==> (#[trigger] grid@[q]@[k]).ch
                    == raw@[q]@[k].ch,
        decreases raw@.len() - r,
    {
        let cells = convert_line(&raw[r]);
        grid.push(cells);
        r += 1;
    }
    grid
}

} // verus!
