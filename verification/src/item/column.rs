//! Columns.
use crate::util::key_map::{char_codes, lemma_char_codes_injective, lemma_lex_order, lex_lt, str_lt, MapKey};
use vstd::prelude::*;

verus! {

/// A column's textual identifier.
#[derive(Debug, Clone)]
pub struct ColumnId(pub String);

impl View for ColumnId {
    type V = Seq<char>;

    open spec fn view(&self) -> Seq<char> {
        self.0@
    }
}

impl MapKey for ColumnId {
    open spec fn spec_lt(a: Seq<char>, b: Seq<char>) -> bool {
        lex_lt(char_codes(a), char_codes(b))
    }

    proof fn lemma_lt_order(a: Seq<char>, b: Seq<char>, c: Seq<char>) {
        lemma_lex_order(char_codes(a), char_codes(b), char_codes(c));
        lemma_char_codes_injective(a, b);
    }

    fn key_lt(&self, other: &Self) -> (r: bool) {
        str_lt(self.0.as_str(), other.0.as_str())
    }

    fn key_eq(&self, other: &Self) -> (r: bool) {
        self.0 == other.0
    }

    fn key_clone(&self) -> (r: Self) {
        ColumnId(self.0.clone())
    }
}

/// A borrowed column identifier.
#[derive(Debug, Clone, Copy)]
pub struct ColumnRef<'a>(pub &'a str);

/// The items of a column: regular or pinned.
#[derive(Debug, Clone, Copy, PartialEq, Eq)]
pub enum ColumnItem {
    Regular,
    Pinned,
}

/// The name of a kind of column items.
pub open spec fn spec_column_item_name(i: ColumnItem) -> Seq<char> {
    match i {
        ColumnItem::Regular => "regular"@,
        ColumnItem::Pinned => "pinned"@,
    }
}

/// The path segment of a kind of column items in the column API.
pub open spec fn spec_column_item_segment(i: ColumnItem) -> Seq<char> {
    match i {
        ColumnItem::Regular => "items"@,
        ColumnItem::Pinned => "pinned-items"@,
    }
}

impl ColumnItem {
    /// The name of the kind (its display text).
    pub fn name(&self) -> (r: String)
        ensures
            r@ == spec_column_item_name(*self),
    {
        match self {
            ColumnItem::Regular => String::from_str("regular"),
            ColumnItem::Pinned => String::from_str("pinned"),
        }
    }

    /// The path segment of the kind in the column API.
    pub fn api_segment(&self) -> (r: String)
        ensures
            r@ == spec_column_item_segment(*self),
    {
        match self {
            ColumnItem::Regular => String::from_str("items"),
            ColumnItem::Pinned => String::from_str("pinned-items"),
        }
    }
}

} // verus!
