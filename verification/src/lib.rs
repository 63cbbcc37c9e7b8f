//! Verified core of a chart library: axis orientation, integer tick
//! generation, line interpolation planning and option parsing.

pub mod inner;
pub mod layout;
pub mod orientation;
pub mod overlay;
pub mod series;
pub mod text;
pub mod ticks;

pub use orientation::Orientation;
pub use series::interpolation::{Interpolation, Step};
