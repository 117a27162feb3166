//! Objects of kinds this program does not know.
use vstd::prelude::*;

verus! {

/// What is known of an object of unknown kind: its identifier and type name.
#[derive(Debug, Clone)]
pub struct OtherInfo {
    pub id: u64,
    pub item_type: String,
}

} // verus!
