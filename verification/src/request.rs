//! Requests to the site: where items are fetched from, and signing.
pub mod api;
pub mod zse96_v3;
