pub mod contents;
pub mod editor;
pub mod graph;
pub mod templates;
