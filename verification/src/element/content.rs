//! Contents of items: their document tree and its conversions.
pub mod convertor;
pub mod document;
pub mod html;
pub mod html_reader;
pub mod images;
