//! A keyboard-driven todo manager: groups of todos with subtasks, notes,
//! priorities, search and undo, as a verified state machine.
pub mod model;
pub mod text;
pub mod rows;
pub mod app;
pub mod items;
pub mod input;
pub mod groups;
pub mod layout;
pub mod laws;
pub mod keys;
