//! Batch, frame, retry and interpret: the core of a line-by-line content
//! moderation client, on plain bytes.
//!
//! Text is handled as UTF-8 bytes throughout. Scores are carried as the
//! decimal text found in a response; turning that text into a number is left
//! to the caller.
pub mod chunker;
pub mod request;
pub mod response;
pub mod retry;
pub mod scoring;
pub mod text;
pub mod types;
