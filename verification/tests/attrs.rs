use agg::color::{CellColor, Rgb, Theme};
use agg::renderer::{text_attrs, CellPen};

fn theme() -> Theme {
    let mut palette = Vec::new();
    for i in 0..16u8 {
        palette.push(Rgb { r: i, g: i, b: i });
    }
    Theme { foreground: Rgb { r: 204, g: 204, b: 204 }, background: Rgb { r: 16, g: 16, b: 16 }, palette }
}

fn plain_pen() -> CellPen {
    CellPen {
        foreground: None,
        background: None,
        bold: false,
        italic: false,
        underline: false,
        inverse: false,
        blink: false,
    }
}

#[test]
fn blink_promotes_low_background_index() {
    // A pen with background Indexed(1) and blink set resolves its
    // background to Indexed(9) before any theme lookup.
    let mut pen = plain_pen();
    pen.background = Some(CellColor::Indexed(1));
    pen.blink = true;
    let attrs = text_attrs(&pen, &None, 0, 0, &theme());
    assert_eq!(attrs.background, Some(CellColor::Indexed(9)));
}

#[test]
fn bold_promotes_low_foreground_index() {
    let mut pen = plain_pen();
    pen.foreground = Some(CellColor::Indexed(3));
    pen.bold = true;
    let attrs = text_attrs(&pen, &None, 0, 0, &theme());
    assert_eq!(attrs.foreground, Some(CellColor::Indexed(11)));
    assert!(attrs.bold);
}

#[test]
fn promotion_is_a_no_op_on_high_index_and_rgb() {
    let th = theme();
    let mut pen = plain_pen();
    pen.foreground = Some(CellColor::Indexed(9));
    pen.bold = true;
    assert_eq!(text_attrs(&pen, &None, 0, 0, &th).foreground, Some(CellColor::Indexed(9)));
    pen.foreground = Some(CellColor::Rgb(Rgb { r: 1, g: 2, b: 3 }));
    assert_eq!(
        text_attrs(&pen, &None, 0, 0, &th).foreground,
        Some(CellColor::Rgb(Rgb { r: 1, g: 2, b: 3 }))
    );
}

#[test]
fn cursor_inverts_default_colors() {
    // Cursor at (2, 0) over a default-colored, non-inverse cell: the
    // effective inversion swaps in the theme defaults, reversed.
    let th = theme();
    let pen = plain_pen();
    let attrs = text_attrs(&pen, &Some((2, 0)), 2, 0, &th);
    assert_eq!(attrs.foreground, Some(CellColor::Rgb(th.background)));
    assert_eq!(attrs.background, Some(CellColor::Rgb(th.foreground)));
}

#[test]
fn double_inversion_cancels() {
    // inverse=true at the cursor equals inverse=false off the cursor.
    let th = theme();
    let mut pen = plain_pen();
    pen.foreground = Some(CellColor::Indexed(2));
    pen.inverse = true;
    let at_cursor = text_attrs(&pen, &Some((1, 1)), 1, 1, &th);
    pen.inverse = false;
    let off_cursor = text_attrs(&pen, &None, 1, 1, &th);
    assert_eq!(at_cursor, off_cursor);
}

#[test]
fn flags_pass_through_inversion() {
    let th = theme();
    let mut pen = plain_pen();
    pen.bold = true;
    pen.italic = true;
    pen.underline = true;
    pen.inverse = true;
    let attrs = text_attrs(&pen, &None, 0, 0, &th);
    assert!(attrs.bold && attrs.italic && attrs.underline);
}

#[test]
fn theme_palette_and_extended_indices() {
    let th = theme();
    assert_eq!(th.color(5), Rgb { r: 5, g: 5, b: 5 });
    // 6x6x6 cube: 196 = 16 + 180, red channel level 5.
    assert_eq!(th.color(196), Rgb { r: 255, g: 0, b: 0 });
    assert_eq!(th.color(21), Rgb { r: 0, g: 0, b: 255 });
    // Gray ramp: 8 + 10 * (idx - 232).
    assert_eq!(th.color(232), Rgb { r: 8, g: 8, b: 8 });
    assert_eq!(th.color(255), Rgb { r: 238, g: 238, b: 238 });
}
