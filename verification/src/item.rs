//! Items of the site and their identifiers.
pub mod answer;
pub mod any;
pub mod article;
pub mod collection;
pub mod column;
pub mod pin;
pub mod question;
pub mod user;
pub mod other;

use vstd::prelude::*;

verus! {

/// The option of containers that have a single kind of item.
#[derive(Debug, Clone, Copy)]
pub struct VoidOpt;

} // verus!
