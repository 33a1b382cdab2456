//! Core of a terminal file browser: directory listings, selection with
//! wraparound, and the mapping from key presses to state changes.

pub mod app;
pub mod files;
pub mod handler;
pub mod path;


pub use app::{dir_preview, file_preview, App, Preview, Request};
pub use files::{list_dir, DirEntry, File};
pub use handler::{command_for, handle_key_events, Command, KeyCode, KeyEvent, KeyModifiers};
pub use path::DirPath;
