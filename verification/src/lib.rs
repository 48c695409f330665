pub mod node_graph;
pub mod parser;
pub mod compute_graph;
pub mod mesh;
pub mod compute_block;
pub mod file_io;
pub mod ferre;
