//! Character-encoding detection and conversion for text files.

pub mod cli;
pub mod color;
pub mod convert;
pub mod detect;
pub mod encodings;
pub mod error;
pub mod output;
pub mod pathorder;
pub mod text;
pub mod walk;
