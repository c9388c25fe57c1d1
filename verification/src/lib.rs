//! Decoding, cataloguing and rendering of operating-system event records.

pub mod assoc;
pub mod csv;
pub mod filtering;
pub mod formatting;
pub mod json;
pub mod log;
pub mod message;
pub mod metadata;
pub mod output_cols;
pub mod rendering;
pub mod text;
pub mod windows;
pub mod xml;
