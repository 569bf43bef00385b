//! Normalization of line-delimited session transcripts and the view state
//! built on top of them.
//!
//! - `json`, `record`: decoding one transcript line into a record; a line that
//!   does not decode is skipped, never an error.
//! - `content`: the text a message body renders to, and the test for content
//!   injected by the assistant's tooling.
//! - `scan`: folding a transcript into a session's derived fields, and into
//!   the messages of a preview.
//! - `session`, `preview`, `code_blocks`: sessions, their labels, and the
//!   preview text buffer.
//! - `state`: the filtered, sorted, cursor-addressed projection of the
//!   sessions and the selection; `preview_search`: searching the preview.
//! - `text`, `order`: character-level string helpers and text order.

pub mod code_blocks;
pub mod content;
pub mod json;
pub mod order;
pub mod preview;
pub mod preview_search;
pub mod record;
pub mod scan;
pub mod session;
pub mod state;
pub mod text;
