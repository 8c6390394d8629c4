//! The decision logic of a small terminal reader for `.txt` files:
//! which files are listed and in what order, how the reading speed of the
//! auto-scroll changes, how themes are cycled, how key presses are routed
//! and where the auto-scroll moves the cursor.

pub mod config;
pub mod order;
pub mod files;
pub mod cycle;
pub mod screen;
pub mod events;
pub mod text;
