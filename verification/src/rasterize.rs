//! Trusted boundary to the vector-graphics engine: parsing an SVG
//! document and rasterizing it into a pixel buffer, plus the font
//! database handle the engine resolves text with.

use vstd::prelude::*;

verus! {

#[verifier::external_type_specification]
#[verifier::external_body]
pub struct ExDatabase(fontdb::Database);

#[verifier::external_type_specification]
#[verifier::external_body]
pub struct ExOptions<'a>(usvg::Options<'a>);

#[verifier::external_type_specification]
#[verifier::external_body]
pub struct ExTree(usvg::Tree);

#[verifier::external_type_specification]
#[verifier::external_body]
pub struct ExPixmap(tiny_skia::Pixmap);

/// Relies on `usvg::Options::default` and `std::sync::Arc::new`: builds
/// the parsing options, carrying the given font database for text
/// resolution and leaving every other option at its default.
#[verifier::external_body]
pub fn options_new(db: fontdb::Database) -> usvg::Options<'static> {
    let mut options = usvg::Options::default();
    options.fontdb = std::sync::Arc::new(db);
    options
}

/// Relies on `usvg::Tree::from_str`: parses an SVG document into a render
/// tree, or fails on malformed input.
#[verifier::external_body]
pub fn tree_from_str(text: &str, options: &usvg::Options) -> Option<usvg::Tree> {
    usvg::Tree::from_str(text, options).ok()
}

/// Relies on `tiny_skia::Pixmap::new`: allocates a transparent pixel
/// buffer of the given size, or fails when a dimension is zero or the
/// size overflows.
#[verifier::external_body]
pub fn pixmap_new(width: u32, height: u32) -> Option<tiny_skia::Pixmap> {
    tiny_skia::Pixmap::new(width, height)
}

/// Relies on `resvg::render` and `tiny_skia::Pixmap::as_mut`: draws the
/// tree onto the buffer at the document's own size (the identity
/// transform; scaling is carried by the document's `viewBox`).
#[verifier::external_body]
pub fn render_tree(tree: &usvg::Tree, pixmap: &mut tiny_skia::Pixmap) {
    resvg::render(tree, tiny_skia::Transform::default(), &mut pixmap.as_mut());
}

/// Relies on `tiny_skia::Pixmap::take`: hands out the underlying RGBA
/// byte buffer, four bytes per pixel in row-major order.
#[verifier::external_body]
pub fn pixmap_data(pixmap: tiny_skia::Pixmap) -> Vec<u8> {
    pixmap.take()
}

} // verus!
