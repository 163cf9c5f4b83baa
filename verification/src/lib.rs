//! Conversion between a forum's bracket-tag markup ("BBCode") and Markdown.
//!
//! The BBCode reader tokenizes the source into plain-text and code-span
//! chunks, parses list-tag attributes with a small hand-written grammar,
//! generates ordinal labels, and applies an ordered cascade of rewrite
//! rules; malformed markup degrades to literal text and never fails. The
//! Markdown side consumes the abstract event sequence of an external parser
//! and renders nested BBCode while tracking line-start state.

pub mod cascade;
pub mod laws;
pub mod listhead;
pub mod numbering;
pub mod read;
pub mod scan;
pub mod text;
pub mod write;
pub mod writefmt;
