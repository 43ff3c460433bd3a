//! Counts the lines, words and characters of a text.
//!
//! Lines are counted by their terminators, words and characters by the
//! Unicode segmentation rules of UAX #29: a word is a word-like segment
//! between word boundaries, a character is an extended grapheme cluster.

pub mod lines;
pub mod measure;
pub mod segmentation;

pub use measure::{process_content, process_text, Measurement, Processed};
