pub mod guide_line;
