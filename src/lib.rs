//! An in-memory byte store for editing very large binary buffers, split into
//! bounded blocks, together with the edit log that gives an editor its undo, and the
//! hex editor built on them.

pub mod split_vec;
pub mod segment;
pub mod view;
pub mod inputline;
pub mod input;
pub mod overlay;
pub mod frontend;
pub mod config;
pub mod rect;
pub mod util;
