pub mod rows;
pub mod tooltip;
