//! A verified core of a Zhihu content downloader: request signing, manifest
//! option algebra, comment trees, store bookkeeping and path arithmetic.
pub mod cli;
pub mod driver;
pub mod element;
pub mod item;
pub mod meta;
pub mod request;
pub mod store;
pub mod util;
