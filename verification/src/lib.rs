//! Mirror of a remote skin catalog with change detection, and a short-lived
//! cache of rendered skins in front of the render step.

pub mod cache;
pub mod error;
pub mod render;
pub mod rsync;
pub mod skin;
