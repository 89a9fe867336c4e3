//! A value-transcoding gateway library for a Web Map Service (WMS).
//!
//! Ordinary map-tile requests are classified for transparent proxying to a
//! downstream WMS; requests that ask for a value-encoding rendering style are
//! intercepted. For an intercepted request the library plans the downstream
//! fetch protocol (per-layer min/max ranges, then per-layer greyscale
//! reference images, paired with layers by position) and transcodes each
//! reference raster so that every pixel's four bytes carry the little-endian
//! IEEE-754 representation of the physical data value that the pixel's color
//! bin stands for.
//!
//! All I/O lives outside this crate; the library works on plain values:
//! query strings in, downstream URLs and transcoded image bytes out.

pub mod codec;
pub mod error;
pub mod orchestrate;
pub mod state;
pub mod text;
pub mod wms;
