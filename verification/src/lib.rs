//! Deterministic avatar pictures: pixel-art flowers drawn from a seed, noise
//! avatars rendered from SVG, Floyd–Steinberg dithering and an HDR PNG
//! writer.

pub mod api;
pub mod avatar;
pub mod canvas;
pub mod codec;
pub mod decimal;
pub mod dither;
pub mod draw;
pub mod flower;
pub mod grid;
pub mod hdr_png;
pub mod laws;
pub mod palette;
pub mod random;
pub mod render;
pub mod routes;
pub mod shape;
pub mod single;

pub use avatar::{djb2, render_svg, riptar_svg, try_riptar_bytes};
pub use dither::dither_from_bytes;
