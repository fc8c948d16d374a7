//! Terminal art rendering library.
//!
//! Renders raster images as ASCII or Unicode character art, transforms plain
//! text into styled Unicode with optional gradient coloring, and parses the
//! ANSI escape sequences it emits back into styled spans, plain text or HTML.
//!
//! The pieces, leaves first: [`color`] holds the color model (luminance in
//! exact fixed point, terminal-palette quantization, escape formatting,
//! interpolation); [`raster`] the decoded image and the trusted resampler;
//! [`ascii_art`] and [`unicode_art`] the two image engines; [`stylizer`] the
//! text styler and gradients; [`codec`] the ANSI parse/strip/HTML layer;
//! [`widths`] the grapheme and column-width utilities; [`scheduler`] the
//! per-request logic of the worker pool, whose threads and channels live in
//! the surrounding application, as do file, terminal and environment access
//! for [`settings`], [`capabilities`] and [`loader`].

pub mod ascii_art;
pub mod capabilities;
pub mod codec;
pub mod color;
pub mod loader;
pub mod raster;
pub mod scheduler;
pub mod settings;
pub mod state;
pub mod stylizer;
pub mod text;
pub mod unicode_art;
pub mod widths;
