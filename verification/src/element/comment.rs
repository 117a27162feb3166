//! Comments.
pub mod fetch;
pub mod tree;

use crate::util::key_map::MapKey;
use vstd::prelude::*;

verus! {

/// A comment's numeric identifier.
#[derive(Debug, Clone, Copy, PartialEq, Eq)]
pub struct CommentId(pub u64);

impl View for CommentId {
    type V = u64;

    open spec fn view(&self) -> u64 {
        self.0
    }
}

impl MapKey for CommentId {
    open spec fn spec_lt(a: u64, b: u64) -> bool {
        a < b
    }

    proof fn lemma_lt_order(a: u64, b: u64, c: u64) {
    }

    fn key_lt(&self, other: &Self) -> (r: bool) {
        self.0 < other.0
    }

    fn key_eq(&self, other: &Self) -> (r: bool) {
        self.0 == other.0
    }

    fn key_clone(&self) -> (r: Self) {
        CommentId(self.0)
    }
}

/// The kind of object a comment section belongs to.
#[derive(Debug, Clone, Copy, PartialEq, Eq)]
pub enum RootType {
    Article,
    Answer,
    Collection,
    Pin,
    Question,
}

/// The name of a root type.
pub open spec fn spec_root_type_name(t: RootType) -> Seq<char> {
    match t {
        RootType::Article => "article"@,
        RootType::Answer => "answer"@,
        RootType::Collection => "collection"@,
        RootType::Pin => "pin"@,
        RootType::Question => "question"@,
    }
}

/// The path segment of a root type in the comment API.
pub open spec fn spec_root_type_segment(t: RootType) -> Seq<char> {
    match t {
        RootType::Answer => "answers"@,
        RootType::Article => "articles"@,
        RootType::Collection => "collections"@,
        RootType::Pin => "pins"@,
        RootType::Question => "questions"@,
    }
}

impl RootType {
    /// The name of the root type (its display text).
    pub fn name(&self) -> (r: String)
        ensures
            r@ == spec_root_type_name(*self),
    {
        match self {
            RootType::Article => String::from_str("article"),
            RootType::Answer => String::from_str("answer"),
            RootType::Collection => String::from_str("collection"),
            RootType::Pin => String::from_str("pin"),
            RootType::Question => String::from_str("question"),
        }
    }

    /// The path segment of the root type in the comment API.
    pub fn api_segment(&self) -> (r: String)
        ensures
            r@ == spec_root_type_segment(*self),
    {
        match self {
            RootType::Answer => String::from_str("answers"),
            RootType::Article => String::from_str("articles"),
            RootType::Collection => String::from_str("collections"),
            RootType::Pin => String::from_str("pins"),
            RootType::Question => String::from_str("questions"),
        }
    }
}

} // verus!
