//! Path arithmetic and small text helpers.
pub mod address;
pub mod key_map;
pub mod relative_path;
pub(crate) mod text;
