//! Core of a plain-text PPM image viewer: decoding the textual pixel
//! format into an RGB image, converting that image into an RGBA render
//! buffer, and routing the pan/zoom state of the viewport.
pub mod frame;
pub mod ppm;
pub mod text;
pub mod viewport;
