//! Driver and compositing library for small serial-attached "smart screen"
//! displays: geometry, RGBA compositing, the device wire protocol, the
//! measurement scheduler and the theme model that ties meters to widgets.

pub mod colors;
pub mod decimal;
pub mod fonts;
pub mod framebuffer;
pub mod geometry;
pub mod image;
pub mod meter;
pub mod protocol;
pub mod render;
pub mod scheduler;
pub mod screen;
pub mod themes;

pub use crate::colors::Rgba;
pub use crate::framebuffer::Framebuffer;
pub use crate::geometry::{Coord, Rect};
pub use crate::image::Image;
pub use crate::protocol::Orientation;
pub use crate::screen::{ScreenError, ScreenPort, ScreenRevA};
