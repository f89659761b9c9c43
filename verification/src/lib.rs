//! The core of an editor for emote lists: JSON files with one entry, and in it one address, to a
//! line.
//!
//! - [`text`]: strings, lines and numbers.
//! - [`url`]: the address on a line.
//! - [`rows`]: repeated addresses, and taking rows out.
//! - [`model`]: the editor as a mathematical value.
//! - [`editor`]: the editor, its text, undo and redo.
//! - [`keys`]: what each key does.
//! - [`screen`]: what the terminal shows.
//! - [`storage`]: loading and saving.
//! - [`check`]: asking for every address whether it is still there.
//! - [`http`], [`json`]: what is known of replies and of JSON.
//! - [`laws`]: what holds of the editor as a whole.
//!
//! Nothing here reads a key, writes to the terminal, touches a file or asks the net. What has to
//! be done outside is handed out as a value, and what came of it is handed back.

pub mod check;
pub mod editor;
pub mod http;
pub mod json;
pub mod keys;
pub mod laws;
pub mod model;
pub mod rows;
pub mod screen;
pub mod storage;
pub mod text;
pub mod url;
