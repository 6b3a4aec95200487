use agg::color::{CellColor, Rgb, Theme};
use agg::frames::RenderPoint;
use agg::image::{bytes_to_image, Image, Rgba};
use agg::numfmt::{dec_str, milli_str};
use agg::pipeline::Pipeline;
use agg::renderer::raster::fill_rect;
use agg::renderer::vector::ResvgRenderer;
use agg::renderer::{check_shape, fontdue, resvg, Cell, CellPen, RenderError, Renderer, Settings};

fn theme() -> Theme {
    let mut palette = Vec::new();
    for i in 0..16u8 {
        palette.push(Rgb { r: 10 + i, g: 20, b: 30 });
    }
    Theme { foreground: Rgb { r: 204, g: 204, b: 204 }, background: Rgb { r: 18, g: 18, b: 18 }, palette }
}

fn settings() -> Settings {
    Settings {
        terminal_size: (4, 2),
        font_db: fontdb::Database::new(),
        font_families: vec![String::from("JetBrains Mono"), String::from("Menlo")],
        font_size: 14,
        line_height_milli: 1400,
        zoom: 2,
        theme: theme(),
    }
}

fn plain_pen() -> CellPen {
    CellPen {
        foreground: None,
        background: None,
        bold: false,
        italic: false,
        underline: false,
        inverse: false,
        blink: false,
    }
}

fn grid(cols: usize, rows: usize, text: &str) -> Vec<Vec<Cell>> {
    let chars: Vec<char> = text.chars().collect();
    let mut g = Vec::new();
    let mut k = 0;
    for _ in 0..rows {
        let mut line = Vec::new();
        for _ in 0..cols {
            let ch = if k < chars.len() { chars[k] } else { ' ' };
            k += 1;
            line.push(Cell { ch, pen: plain_pen() });
        }
        g.push(line);
    }
    g
}

#[test]
fn numbers_format_exactly() {
    assert_eq!(dec_str(0), "0");
    assert_eq!(dec_str(1234), "1234");
    assert_eq!(milli_str(33333), "33.333");
    assert_eq!(milli_str(1), "0.001");
    assert_eq!(milli_str(12000), "12.000");
    assert_eq!(milli_str(101136), "101.136");
}

#[test]
fn vector_renderer_pixel_size() {
    let r = resvg(settings());
    assert_eq!(r.pixel_size(), (102, 118));
}

#[test]
fn vector_document_structure_and_escaping() {
    let r = resvg(settings());
    let doc = r.document(&grid(4, 2, "a<& \"'"), &None);
    assert!(doc.starts_with("<?xml version=\"1.0\"?>"));
    assert!(doc.contains("viewBox=\"0 0 50.568 58.800\""));
    assert!(doc.contains("width=\"101.136\" height=\"117.600\""));
    assert!(doc.contains("font-size=\"14px\""));
    assert!(doc.contains("font-family=\"JetBrains Mono,Menlo\""));
    assert!(doc.contains("fill: rgb(18,18,18)"));
    assert!(doc.contains("&lt;"));
    assert!(doc.contains("&amp;"));
    assert!(doc.contains("&quot;"));
    assert!(doc.contains("&#39;"));
    // The first glyph of a row carries the baseline shift.
    assert!(doc.contains("dy=\"1em\" "));
    assert!(doc.ends_with("</svg></svg>"));
}

#[test]
fn vector_document_skips_spaces_and_paints_backgrounds() {
    let r = resvg(settings());
    let mut g = grid(4, 2, "");
    g[1][2].pen.background = Some(CellColor::Indexed(1));
    let doc = r.document(&g, &None);
    // All-space text layer: no glyph entries at all.
    assert!(!doc.contains("dy=\"1em\""));
    // One background rectangle for the single painted cell.
    assert!(doc.contains("<rect x=\"33.333%\" y=\"33.333%\""));
    assert!(doc.contains("fill: rgb(11,20,30)"));
}

#[test]
fn vector_renderer_rejects_wrong_shape() {
    let mut r = resvg(settings());
    assert!(matches!(r.render(grid(3, 2, ""), None), Err(RenderError::ShapeMismatch)));
    assert!(matches!(r.render(grid(4, 3, ""), None), Err(RenderError::ShapeMismatch)));
    let mut ragged = grid(4, 2, "");
    ragged[1].pop();
    assert!(matches!(r.render(ragged, None), Err(RenderError::ShapeMismatch)));
}

#[test]
fn vector_renderer_produces_sized_image() {
    let mut r = resvg(settings());
    let img = r.render(grid(4, 2, "hi"), Some((0, 0))).expect("render");
    assert_eq!(img.width, 102);
    assert_eq!(img.height, 118);
    assert_eq!(img.pixels.len(), 102 * 118);
}

#[test]
fn raster_renderer_needs_a_font() {
    // The test font database is empty, so construction reports the
    // configuration error; with a font present the same call must yield
    // a renderer of the configured grid.
    match fontdue(settings()) {
        Err(e) => assert_eq!(e, RenderError::NoFont),
        Ok(mut r) => {
            assert!(matches!(r.render(grid(3, 2, ""), None), Err(RenderError::ShapeMismatch)));
        }
    }
}

#[test]
fn shape_check_matches_configuration() {
    assert!(check_shape(&grid(4, 2, ""), 4, 2));
    assert!(!check_shape(&grid(4, 2, ""), 4, 3));
    assert!(!check_shape(&grid(5, 2, ""), 4, 2));
}

#[test]
fn bytes_become_pixels() {
    let bytes = vec![1, 2, 3, 4, 5, 6, 7, 8];
    let img = bytes_to_image(&bytes, 2, 2);
    assert_eq!(img.width, 2);
    assert_eq!(img.height, 2);
    assert_eq!(img.pixels[0], Rgba { r: 1, g: 2, b: 3, a: 4 });
    assert_eq!(img.pixels[1], Rgba { r: 5, g: 6, b: 7, a: 8 });
    // Missing bytes become transparent pixels.
    assert_eq!(img.pixels[2], Rgba { r: 0, g: 0, b: 0, a: 0 });
    assert_eq!(img.pixels[3], Rgba { r: 0, g: 0, b: 0, a: 0 });
}

#[test]
fn fill_rect_paints_exactly_the_rectangle() {
    let zero = Rgba { r: 0, g: 0, b: 0, a: 0 };
    let red = Rgba { r: 255, g: 0, b: 0, a: 255 };
    let mut img = Image { width: 4, height: 3, pixels: vec![zero; 12] };
    fill_rect(&mut img, 1, 3, 1, 2, red);
    for y in 0..3usize {
        for x in 0..4usize {
            let expect = if y == 1 && (1..3).contains(&x) { red } else { zero };
            assert_eq!(img.pixels[y * 4 + x], expect, "pixel ({}, {})", x, y);
        }
    }
}

#[test]
fn pipeline_submits_one_frame_per_render_point_in_order() {
    let points = vec![
        RenderPoint { time_us: 20000, data: String::from("hi") },
        RenderPoint { time_us: 500000, data: String::from("\x1b[31mred") },
        RenderPoint { time_us: 900000, data: String::from("!") },
    ];
    let n = points.len();
    let mut p = Pipeline::new(4, 2, resvg(settings()), points);
    let frames = p.collect_frames().expect("pipeline");
    assert_eq!(frames.len(), n);
    for (k, f) in frames.iter().enumerate() {
        assert_eq!(f.index, k);
        assert_eq!(f.image.width, 102);
        assert_eq!(f.image.height, 118);
    }
    assert_eq!(frames[0].time_us, 20000);
    assert_eq!(frames[2].time_us, 900000);
    // The run is exhausted: the next step reports completion.
    assert!(matches!(p.next_frame(), Ok(None)));
}
