//! QR code generation: a module grid from the `qrcode` crate, verified
//! renderers to text, pixels and SVG, and the choice of what to write where.

pub mod symbol;
pub mod render;
pub mod svg;
pub mod codec;
pub mod request;
pub mod output;
