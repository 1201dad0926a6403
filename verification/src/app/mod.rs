//! Application state machine: task data, filters, undo, and command handling.
pub mod state;
pub mod access;
pub mod visibility;
pub mod undo;
pub mod rel;
pub mod manipulate;
pub mod edit;
pub mod form;
pub mod navigation;
pub mod duplicate;
pub mod search;
pub mod data;
pub mod mouse;
pub mod commands;
pub mod keymap;
pub mod sanitize;
pub mod load;
pub mod session;
pub mod labels;
