//! A small terminal text editor: its buffer of lines, its cursor, its status bar and the
//! decisions it takes on each key, with the terminal itself left to the program around it.
pub mod common;
pub mod cursor;
pub mod text;
pub mod paths;
pub mod clock;
pub mod editor;
