//! An interactive command shell core: a verified line-editing engine with
//! cursor-addressable insert/delete, history recall and double-interrupt
//! cancellation, together with the configuration-file logic around it.
//!
//! All terminal and file I/O lives outside this crate; the library works on
//! plain values (key events, characters, strings) and states exactly what it
//! does with them.

pub mod config;
pub mod config_io;
pub mod editor;
pub mod input_parser;
pub mod keys;
pub mod laws;
pub mod shell;
pub mod text;

pub use keys::Key;
