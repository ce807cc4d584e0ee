//! A host-backed pixel framebuffer exposed as a drawable surface.
//!
//! The surface owns a row-major `[R, G, B, A]` byte frame of exactly
//! `width * height * 4` bytes. Callers fill it with whole frames
//! ([`PixelsDisplay::write_bytes`]), clipped point streams
//! ([`PixelsDisplay::draw_points`]) or raw 32-bit words
//! ([`PixelsDisplay::set_pixel`]); presenting the frame is left to the host.

pub mod display;
pub mod frame;
pub mod geometry;
pub mod laws;

pub use display::{BlitError, DisplayView, Orientation, PixelsDisplay};
pub use geometry::{Color, Pixel, Point};
