//! Core of an interactive command-shell line editor: a quote-aware
//! tokenizer, a bounded history store, a tab-completion engine, and the
//! key-event state machine that owns the edit buffer and cursor.
//!
//! Everything here is pure state manipulation: terminal I/O, filesystem
//! scans and environment lookups happen outside and hand in plain values.

pub mod completion;
pub mod config;
pub mod shell;
pub mod text;
pub mod ui;
pub mod utils;

pub use utils::Utils;
