pub mod axes;
pub mod canvas;
pub mod commands;
pub mod common;
pub mod ctrl_seq;
pub mod encoding;
pub mod glyphs;
pub mod graph;
pub mod graph_limits;
pub mod grid_lines;
pub mod image;
pub mod limits;
pub mod line;
pub mod marker;
pub mod numfmt;
pub mod point;
pub mod scale;
pub mod series;
pub mod text;
pub mod window;
