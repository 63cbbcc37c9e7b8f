pub mod interpolation;
pub mod line;
