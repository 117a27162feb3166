//! Conversions of documents into other formats.
pub mod pandoc;
