//! Directory listings and everything done to the files in them.

pub mod disk;
pub mod entry;
pub mod format;
pub mod format_laws;
pub mod op_laws;
pub mod op_steps;
pub mod op_trees;
pub mod ops;
pub mod removal;
pub mod size;
pub mod sort;
pub mod trash;
pub mod trash_laws;
pub mod undo;
