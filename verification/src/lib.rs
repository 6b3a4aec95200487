//! Replays a recorded terminal session and turns it into an animated image:
//! a frame sampler thins the event stream under a frame-rate budget, a cell
//! attribute resolver applies color-promotion and cursor-inversion rules, two
//! interchangeable grid renderers turn styled cells into pixel images, and a
//! pipeline hands the images to an encoder in order.

pub mod color;
pub mod frames;
pub mod image;
pub mod numfmt;
pub mod pipeline;
pub mod rasterize;
pub mod renderer;
pub mod term;
