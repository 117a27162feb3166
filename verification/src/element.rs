//! Elements shared by items: authors, comments and contents.
pub mod author;
pub mod comment;
pub mod content;
