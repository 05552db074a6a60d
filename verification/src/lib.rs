//! Incremental decoder for a newline-delimited event stream.
//!
//! A response body arrives as arbitrarily cut chunks of bytes. The decoder
//! reassembles the chunks into lines, keeps the lines that carry the marker
//! `data: `, stops at the sentinel `[DONE]`, parses every other payload as
//! JSON and hands out the text found at a configured field path.

pub mod decoder;
pub mod event;
pub mod json;
pub mod laws;
pub mod lines;
pub mod path;
pub mod text;
pub mod token;
pub mod views;
