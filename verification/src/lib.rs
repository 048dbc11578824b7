//! tinct — image/color → Material You palette engine.

pub mod text;
pub mod color;
pub mod palette;
pub mod compat;
pub mod scheme;
pub mod transform;
pub mod output;
pub mod render;
pub mod terminal;
pub mod extract;
pub mod scss;
pub mod request;
