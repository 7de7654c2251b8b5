//! Incremental tailing of an append-only, line-delimited JSON log.
//!
//! A source file of JSON records, one per line, grows at its end. Each time
//! it has grown, the records of kind `mod` among the new lines are turned
//! into output records and appended, one per line, to a destination file.
//!
//! The crate holds the decisions of the tailer and none of its I/O:
//!
//! - [`text`]: how a stretch of text falls into lines, and which are blank;
//! - [`codec`]: how a line decodes to a record and a record encodes to a
//!   line, on top of the JSON reader and writer in [`json`];
//! - [`record`]: which records qualify, and what their output is;
//! - [`pass`]: what one pass over a stretch of text yields;
//! - [`cursor`]: how far the source file has been processed;
//! - [`watch`]: which change notifications start a pass;
//! - [`tailer`]: the loop as a state machine, from what happened to what to
//!   do next.

pub mod codec;
pub mod cursor;
pub mod json;
pub mod pass;
pub mod record;
pub mod tailer;
pub mod text;
pub mod watch;
