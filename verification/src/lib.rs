//! A single-document text buffer: lines of text, a cursor with a selection
//! anchor, per-line highlight runs and the mapping between pixels and text
//! positions. The functions carry contracts that Verus proves.
//!
//! Columns count characters, and all lengths on the screen are whole
//! pixels. The colours of the highlight runs come from syntect: the
//! contracts name what its parser and highlighter give, say that the index
//! of a buffer is what they give for its document, line by line from a
//! fresh start, and prove that the runs of each line tile the line. What is
//! taken on trust of syntect and of `String::push` stands in the
//! `highlight` and `text` modules, each item with a note of what it claims.

pub mod location;
pub mod cursor;
pub mod text;
pub mod highlight;
pub mod viewport;
pub mod events;
pub mod frame;
pub mod buffer;
