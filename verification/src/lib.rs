//! Deep Todo: a hierarchical task tree with filters, sorting, undo and
//! commands, verified with Verus.
pub mod text;
pub mod byte_pos;
pub mod date;
pub mod model;
pub mod forest;
pub mod sort;
pub mod tree_walk;
pub mod keys;
pub mod persist;
pub mod ui_text;
pub mod theme;
pub mod app;
pub mod laws;
pub mod id_laws;
pub mod row_laws;
pub mod date_laws;
pub mod indent_laws;
pub mod listing_laws;
