//! Decisions of the download driver that do not depend on the network.
pub mod container;
pub mod manifest;

use vstd::prelude::*;

verus! {

/// What is fetched with an item.
#[derive(Debug, Clone, Copy)]
pub struct GetConfig {
    /// Fetch the comments of the item.
    pub get_comments: bool,
    /// Convert the HTML of its contents into documents.
    pub convert_html: bool,
}

/// An item of a container, and whether it was processed in this run.
#[derive(Debug)]
pub struct ContainerItem<I> {
    pub processed: bool,
    pub value: I,
}

} // verus!
