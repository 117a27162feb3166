//! Users.
pub mod activity;

use crate::element::author::UserId;
use vstd::prelude::*;

verus! {

/// How a user is kept in the store: its identifier and URL token.
#[derive(Debug, Clone, Copy)]
pub struct StoreId<'a>(pub UserId, pub &'a str);

/// Marker of the collections a user created.
#[derive(Debug, Clone, Copy)]
pub struct Created;

/// Marker of the collections a user follows.
#[derive(Debug, Clone, Copy)]
pub struct Liked;

} // verus!
