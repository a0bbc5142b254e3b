//! Image-source resolution, template planning, compositing and text layout
//! for an image-generation service.

pub mod bitmap;
pub mod cache;
pub mod color;
pub mod config;
pub mod decimal;
pub mod errors;
pub mod response;
pub mod source;
pub mod template;
pub mod text;
