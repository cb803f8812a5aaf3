//! Core engine of a small text editor: an in-memory buffer registry with
//! byte-offset edits, a bounded edit history, overlapping search and
//! non-overlapping replace, language inference, and the pure decision logic
//! of the surrounding command layer.
//!
//! Document text is modelled as a byte string (`Vec<u8>`); every offset in a
//! contract is a byte offset into that string.

pub mod api;
pub mod app_state;
pub mod buffer;
pub mod clock;
pub mod command_processor;
pub mod config;
pub mod copilot;
pub mod git;
pub mod hotkeys;
pub mod key_manager;
pub mod language;
pub mod lsp;
pub mod perplexity;
pub mod text;
