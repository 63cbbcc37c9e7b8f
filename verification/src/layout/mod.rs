pub mod edges;
pub mod tick_labels;
