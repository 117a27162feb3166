//! The option algebra of manifests.
//!
//! Every option value can be *merged* with another (the union of what both
//! ask for) and *diffed* against another (what the first asks for that the
//! second does not already cover). Merging is a join: commutative,
//! associative and idempotent; diffing a value against itself leaves the
//! default, and merging the difference back restores the union.
use crate::util::key_map::{
    KeyMap, char_codes, lemma_char_codes_injective, lemma_lex_order, lex_lt, str_lt, lemma_map_diff_merge, lemma_map_diff_self, lemma_map_merge_associative,
    lemma_map_merge_commutative, lemma_map_merge_empty, lemma_map_merge_idempotent, map_compatible,
    map_diff, map_keyless, map_merge,
};
use crate::element::author::UserId;
use crate::item::answer::AnswerId;
use crate::item::article::ArticleId;
use crate::item::collection::CollectionId;
use crate::item::column::ColumnId;
use crate::item::pin::PinId;
use crate::item::question::QuestionId;
use vstd::prelude::*;

verus! {

/// A value of the option algebra.
pub trait ConfValue: Sized {
    /// The union of two values.
    spec fn spec_merge(self, other: Self) -> Self;

    /// What `self` asks for beyond `other`.
    spec fn spec_diff(self, other: Self) -> Self;

    /// Whether the value is the default (equal to `Default::default()`).
    spec fn spec_is_default(self) -> bool;

    /// Whether two values may be combined: they do not disagree on an
    /// identity that merging keeps from the left operand.
    spec fn spec_compatible(self, other: Self) -> bool;

    /// Whether the value carries no identity besides its options.
    spec fn spec_keyless(self) -> bool;

    /// Replaces `self` with its union with `other`.
    fn merge(&mut self, other: Self)
        ensures
            *final(self) == old(self).spec_merge(other),
    ;

    /// Replaces `self` with what it asks for beyond `other`.
    fn diff(&mut self, other: &Self)
        ensures
            *final(self) == old(self).spec_diff(*other),
    ;

    /// Whether the value is the default.
    fn is_default(&self) -> (r: bool)
        ensures
            r == self.spec_is_default(),
    ;

    /// Merging is commutative.
    proof fn lemma_merge_commutative(a: Self, b: Self)
        requires
            a.spec_compatible(b),
        ensures
            a.spec_merge(b) == b.spec_merge(a),
    ;

    /// Merging is associative.
    proof fn lemma_merge_associative(a: Self, b: Self, c: Self)
        ensures
            a.spec_merge(b).spec_merge(c) == a.spec_merge(b.spec_merge(c)),
    ;

    /// Merging is idempotent.
    proof fn lemma_merge_idempotent(a: Self)
        ensures
            a.spec_merge(a) == a,
    ;

    /// The default is neutral for merging.
    proof fn lemma_merge_default(a: Self, b: Self)
        requires
            a.spec_is_default(),
            a.spec_compatible(b),
        ensures
            a.spec_merge(b) == b,
    ;

    /// A value diffed against itself is the default.
    proof fn lemma_diff_self(a: Self)
        requires
            a.spec_keyless(),
        ensures
            a.spec_diff(a).spec_is_default(),
    ;

    /// When nothing is left of `a` beyond `b`, `b` already covers `a`.
    proof fn lemma_diff_default(a: Self, b: Self)
        requires
            a.spec_diff(b).spec_is_default(),
            a.spec_compatible(b),
        ensures
            a.spec_merge(b) == b,
    ;

    /// Merging the difference back gives the union.
    proof fn lemma_diff_merge(a: Self, b: Self)
        requires
            a.spec_compatible(b),
        ensures
            a.spec_diff(b).spec_merge(b) == a.spec_merge(b),
    ;
}

impl ConfValue for bool {
    open spec fn spec_merge(self, other: Self) -> Self {
        self || other
    }

    open spec fn spec_diff(self, other: Self) -> Self {
        self && !other
    }

    open spec fn spec_is_default(self) -> bool {
        !self
    }

    open spec fn spec_compatible(self, other: Self) -> bool {
        true
    }

    open spec fn spec_keyless(self) -> bool {
        true
    }

    fn merge(&mut self, other: Self) {
        *self = *self || other;
    }

    fn diff(&mut self, other: &Self) {
        *self = *self && !*other;
    }

    fn is_default(&self) -> (r: bool) {
        !*self
    }

    proof fn lemma_merge_commutative(a: Self, b: Self) {
    }

    proof fn lemma_merge_associative(a: Self, b: Self, c: Self) {
    }

    proof fn lemma_merge_idempotent(a: Self) {
    }

    proof fn lemma_merge_default(a: Self, b: Self) {
    }

    proof fn lemma_diff_self(a: Self) {
    }

    proof fn lemma_diff_default(a: Self, b: Self) {
    }

    proof fn lemma_diff_merge(a: Self, b: Self) {
    }
}

impl<I: ConfValue> ConfValue for Option<I> {
    open spec fn spec_merge(self, other: Self) -> Self {
        match other {
            Some(v2) => match self {
                Some(v) => Some(v.spec_merge(v2)),
                None => Some(v2),
            },
            None => self,
        }
    }

    open spec fn spec_diff(self, other: Self) -> Self {
        match (self, other) {
            (Some(v), Some(o)) => {
                let d = v.spec_diff(o);
                if d.spec_is_default() {
                    None
                } else {
                    Some(d)
                }
            },
            _ => self,
        }
    }

    open spec fn spec_is_default(self) -> bool {
        self is None
    }

    open spec fn spec_compatible(self, other: Self) -> bool {
        match (self, other) {
            (Some(x), Some(y)) => x.spec_compatible(y),
            _ => true,
        }
    }

    open spec fn spec_keyless(self) -> bool {
        match self {
            Some(x) => x.spec_keyless(),
            None => true,
        }
    }

    fn merge(&mut self, other: Self) {
        if let Some(v2) = other {
            match self {
                Some(v) => v.merge(v2),
                None => *self = Some(v2),
            }
        }
    }

    fn diff(&mut self, other: &Self) {
        if let Some(v) = self {
            if let Some(o) = other {
                v.diff(o);
                if v.is_default() {
                    *self = None;
                }
            }
        }
    }

    fn is_default(&self) -> (r: bool) {
        self.is_none()
    }

    proof fn lemma_merge_commutative(a: Self, b: Self) {
        if let (Some(x), Some(y)) = (a, b) {
            I::lemma_merge_commutative(x, y);
        }
    }

    proof fn lemma_merge_associative(a: Self, b: Self, c: Self) {
        if let (Some(x), Some(y), Some(z)) = (a, b, c) {
            I::lemma_merge_associative(x, y, z);
        }
    }

    proof fn lemma_merge_idempotent(a: Self) {
        if let Some(x) = a {
            I::lemma_merge_idempotent(x);
        }
    }

    proof fn lemma_merge_default(a: Self, b: Self) {
    }

    proof fn lemma_diff_self(a: Self) {
        if let Some(x) = a {
            I::lemma_diff_self(x);
        }
    }

    proof fn lemma_diff_default(a: Self, b: Self) {
        if let (Some(x), Some(y)) = (a, b) {
            I::lemma_diff_default(x, y);
        }
    }

    proof fn lemma_diff_merge(a: Self, b: Self) {
        if let (Some(x), Some(y)) = (a, b) {
            if x.spec_diff(y).spec_is_default() {
                I::lemma_diff_default(x, y);
            } else {
                I::lemma_diff_merge(x, y);
            }
        }
    }
}


/// The options of an answer.
pub type AnswerChild = BasicChild;

/// The options of an article.
pub type ArticleChild = BasicChild;

/// The options of an item of unknown kind.
pub type AnyChild = BasicChild;

/// The options of a pin.
pub type PinChild = BasicChild;

/// The options of an item with comments only (answers, articles, pins).
#[derive(Debug, Clone, Copy)]
pub struct BasicChild {
    pub comment: Option<CommentChild>,
}

impl Default for BasicChild {
    fn default() -> (r: Self)
        ensures
            r.spec_is_default(),
    {
        BasicChild { comment: None }
    }
}

impl ConfValue for BasicChild {
    open spec fn spec_merge(self, other: Self) -> Self {
        BasicChild { comment: self.comment.spec_merge(other.comment) }
    }

    open spec fn spec_diff(self, other: Self) -> Self {
        BasicChild { comment: self.comment.spec_diff(other.comment) }
    }

    open spec fn spec_is_default(self) -> bool {
        self.comment is None
    }

    open spec fn spec_compatible(self, other: Self) -> bool {
        self.comment.spec_compatible(other.comment)
    }

    open spec fn spec_keyless(self) -> bool {
        self.comment.spec_keyless()
    }

    fn merge(&mut self, other: Self) {
        self.comment.merge(other.comment);
    }

    fn diff(&mut self, other: &Self) {
        self.comment.diff(&other.comment);
    }

    fn is_default(&self) -> (r: bool) {
        self.comment.is_none()
    }

    proof fn lemma_merge_commutative(a: Self, b: Self) {
        <Option<CommentChild> as ConfValue>::lemma_merge_commutative(a.comment, b.comment);
    }

    proof fn lemma_merge_associative(a: Self, b: Self, c: Self) {
        <Option<CommentChild> as ConfValue>::lemma_merge_associative(a.comment, b.comment, c.comment);
    }

    proof fn lemma_merge_idempotent(a: Self) {
        <Option<CommentChild> as ConfValue>::lemma_merge_idempotent(a.comment);
    }

    proof fn lemma_merge_default(a: Self, b: Self) {
        <Option<CommentChild> as ConfValue>::lemma_merge_default(a.comment, b.comment);
    }

    proof fn lemma_diff_self(a: Self) {
        <Option<CommentChild> as ConfValue>::lemma_diff_self(a.comment);
    }

    proof fn lemma_diff_default(a: Self, b: Self) {
        <Option<CommentChild> as ConfValue>::lemma_diff_default(a.comment, b.comment);
    }

    proof fn lemma_diff_merge(a: Self, b: Self) {
        <Option<CommentChild> as ConfValue>::lemma_diff_merge(a.comment, b.comment);
    }
}

/// The options of a collection: its items and its comments.
#[derive(Debug, Clone, Copy)]
pub struct CollectionChild {
    pub item: Option<AnyChild>,
    pub comment: Option<CommentChild>,
}

impl Default for CollectionChild {
    fn default() -> (r: Self)
        ensures
            r.spec_is_default(),
    {
        CollectionChild { item: None, comment: None }
    }
}

impl ConfValue for CollectionChild {
    open spec fn spec_merge(self, other: Self) -> Self {
        CollectionChild { item: self.item.spec_merge(other.item), comment: self.comment.spec_merge(other.comment) }
    }

    open spec fn spec_diff(self, other: Self) -> Self {
        CollectionChild { item: self.item.spec_diff(other.item), comment: self.comment.spec_diff(other.comment) }
    }

    open spec fn spec_is_default(self) -> bool {
        self.item is None && self.comment is None
    }

    open spec fn spec_compatible(self, other: Self) -> bool {
        self.item.spec_compatible(other.item) && self.comment.spec_compatible(other.comment)
    }

    open spec fn spec_keyless(self) -> bool {
        self.item.spec_keyless() && self.comment.spec_keyless()
    }

    fn merge(&mut self, other: Self) {
        self.item.merge(other.item);
        self.comment.merge(other.comment);
    }

    fn diff(&mut self, other: &Self) {
        self.item.diff(&other.item);
        self.comment.diff(&other.comment);
    }

    fn is_default(&self) -> (r: bool) {
        self.item.is_none() && self.comment.is_none()
    }

    proof fn lemma_merge_commutative(a: Self, b: Self) {
        <Option<AnyChild> as ConfValue>::lemma_merge_commutative(a.item, b.item);
        <Option<CommentChild> as ConfValue>::lemma_merge_commutative(a.comment, b.comment);
    }

    proof fn lemma_merge_associative(a: Self, b: Self, c: Self) {
        <Option<AnyChild> as ConfValue>::lemma_merge_associative(a.item, b.item, c.item);
        <Option<CommentChild> as ConfValue>::lemma_merge_associative(a.comment, b.comment, c.comment);
    }

    proof fn lemma_merge_idempotent(a: Self) {
        <Option<AnyChild> as ConfValue>::lemma_merge_idempotent(a.item);
        <Option<CommentChild> as ConfValue>::lemma_merge_idempotent(a.comment);
    }

    proof fn lemma_merge_default(a: Self, b: Self) {
        <Option<AnyChild> as ConfValue>::lemma_merge_default(a.item, b.item);
        <Option<CommentChild> as ConfValue>::lemma_merge_default(a.comment, b.comment);
    }

    proof fn lemma_diff_self(a: Self) {
        <Option<AnyChild> as ConfValue>::lemma_diff_self(a.item);
        <Option<CommentChild> as ConfValue>::lemma_diff_self(a.comment);
    }

    proof fn lemma_diff_default(a: Self, b: Self) {
        <Option<AnyChild> as ConfValue>::lemma_diff_default(a.item, b.item);
        <Option<CommentChild> as ConfValue>::lemma_diff_default(a.comment, b.comment);
    }

    proof fn lemma_diff_merge(a: Self, b: Self) {
        <Option<AnyChild> as ConfValue>::lemma_diff_merge(a.item, b.item);
        <Option<CommentChild> as ConfValue>::lemma_diff_merge(a.comment, b.comment);
    }
}

/// The options of a column: its regular and its pinned items.
#[derive(Debug, Clone, Copy)]
pub struct ColumnChild {
    pub regular: Option<AnyChild>,
    pub pinned: Option<AnyChild>,
}

impl Default for ColumnChild {
    fn default() -> (r: Self)
        ensures
            r.spec_is_default(),
    {
        ColumnChild { regular: None, pinned: None }
    }
}

impl ConfValue for ColumnChild {
    open spec fn spec_merge(self, other: Self) -> Self {
        ColumnChild { regular: self.regular.spec_merge(other.regular), pinned: self.pinned.spec_merge(other.pinned) }
    }

    open spec fn spec_diff(self, other: Self) -> Self {
        ColumnChild { regular: self.regular.spec_diff(other.regular), pinned: self.pinned.spec_diff(other.pinned) }
    }

    open spec fn spec_is_default(self) -> bool {
        self.regular is None && self.pinned is None
    }

    open spec fn spec_compatible(self, other: Self) -> bool {
        self.regular.spec_compatible(other.regular) && self.pinned.spec_compatible(other.pinned)
    }

    open spec fn spec_keyless(self) -> bool {
        self.regular.spec_keyless() && self.pinned.spec_keyless()
    }

    fn merge(&mut self, other: Self) {
        self.regular.merge(other.regular);
        self.pinned.merge(other.pinned);
    }

    fn diff(&mut self, other: &Self) {
        self.regular.diff(&other.regular);
        self.pinned.diff(&other.pinned);
    }

    fn is_default(&self) -> (r: bool) {
        self.regular.is_none() && self.pinned.is_none()
    }

    proof fn lemma_merge_commutative(a: Self, b: Self) {
        <Option<AnyChild> as ConfValue>::lemma_merge_commutative(a.regular, b.regular);
        <Option<AnyChild> as ConfValue>::lemma_merge_commutative(a.pinned, b.pinned);
    }

    proof fn lemma_merge_associative(a: Self, b: Self, c: Self) {
        <Option<AnyChild> as ConfValue>::lemma_merge_associative(a.regular, b.regular, c.regular);
        <Option<AnyChild> as ConfValue>::lemma_merge_associative(a.pinned, b.pinned, c.pinned);
    }

    proof fn lemma_merge_idempotent(a: Self) {
        <Option<AnyChild> as ConfValue>::lemma_merge_idempotent(a.regular);
        <Option<AnyChild> as ConfValue>::lemma_merge_idempotent(a.pinned);
    }

    proof fn lemma_merge_default(a: Self, b: Self) {
        <Option<AnyChild> as ConfValue>::lemma_merge_default(a.regular, b.regular);
        <Option<AnyChild> as ConfValue>::lemma_merge_default(a.pinned, b.pinned);
    }

    proof fn lemma_diff_self(a: Self) {
        <Option<AnyChild> as ConfValue>::lemma_diff_self(a.regular);
        <Option<AnyChild> as ConfValue>::lemma_diff_self(a.pinned);
    }

    proof fn lemma_diff_default(a: Self, b: Self) {
        <Option<AnyChild> as ConfValue>::lemma_diff_default(a.regular, b.regular);
        <Option<AnyChild> as ConfValue>::lemma_diff_default(a.pinned, b.pinned);
    }

    proof fn lemma_diff_merge(a: Self, b: Self) {
        <Option<AnyChild> as ConfValue>::lemma_diff_merge(a.regular, b.regular);
        <Option<AnyChild> as ConfValue>::lemma_diff_merge(a.pinned, b.pinned);
    }
}

/// The options of a comment section: whether child comments are fetched.
#[derive(Debug, Clone, Copy)]
pub struct CommentChild {
    pub child: Option<bool>,
}

impl Default for CommentChild {
    fn default() -> (r: Self)
        ensures
            r.spec_is_default(),
    {
        CommentChild { child: None }
    }
}

impl ConfValue for CommentChild {
    open spec fn spec_merge(self, other: Self) -> Self {
        CommentChild { child: self.child.spec_merge(other.child) }
    }

    open spec fn spec_diff(self, other: Self) -> Self {
        CommentChild { child: self.child.spec_diff(other.child) }
    }

    open spec fn spec_is_default(self) -> bool {
        self.child is None
    }

    open spec fn spec_compatible(self, other: Self) -> bool {
        self.child.spec_compatible(other.child)
    }

    open spec fn spec_keyless(self) -> bool {
        self.child.spec_keyless()
    }

    fn merge(&mut self, other: Self) {
        self.child.merge(other.child);
    }

    fn diff(&mut self, other: &Self) {
        self.child.diff(&other.child);
    }

    fn is_default(&self) -> (r: bool) {
        self.child.is_none()
    }

    proof fn lemma_merge_commutative(a: Self, b: Self) {
        <Option<bool> as ConfValue>::lemma_merge_commutative(a.child, b.child);
    }

    proof fn lemma_merge_associative(a: Self, b: Self, c: Self) {
        <Option<bool> as ConfValue>::lemma_merge_associative(a.child, b.child, c.child);
    }

    proof fn lemma_merge_idempotent(a: Self) {
        <Option<bool> as ConfValue>::lemma_merge_idempotent(a.child);
    }

    proof fn lemma_merge_default(a: Self, b: Self) {
        <Option<bool> as ConfValue>::lemma_merge_default(a.child, b.child);
    }

    proof fn lemma_diff_self(a: Self) {
        <Option<bool> as ConfValue>::lemma_diff_self(a.child);
    }

    proof fn lemma_diff_default(a: Self, b: Self) {
        <Option<bool> as ConfValue>::lemma_diff_default(a.child, b.child);
    }

    proof fn lemma_diff_merge(a: Self, b: Self) {
        <Option<bool> as ConfValue>::lemma_diff_merge(a.child, b.child);
    }
}

/// The options of a question: its comments and its answers.
#[derive(Debug, Clone, Copy)]
pub struct QuestionChild {
    pub comment: Option<CommentChild>,
    pub answer: Option<AnswerChild>,
}

impl Default for QuestionChild {
    fn default() -> (r: Self)
        ensures
            r.spec_is_default(),
    {
        QuestionChild { comment: None, answer: None }
    }
}

impl ConfValue for QuestionChild {
    open spec fn spec_merge(self, other: Self) -> Self {
        QuestionChild { comment: self.comment.spec_merge(other.comment), answer: self.answer.spec_merge(other.answer) }
    }

    open spec fn spec_diff(self, other: Self) -> Self {
        QuestionChild { comment: self.comment.spec_diff(other.comment), answer: self.answer.spec_diff(other.answer) }
    }

    open spec fn spec_is_default(self) -> bool {
        self.comment is None && self.answer is None
    }

    open spec fn spec_compatible(self, other: Self) -> bool {
        self.comment.spec_compatible(other.comment) && self.answer.spec_compatible(other.answer)
    }

    open spec fn spec_keyless(self) -> bool {
        self.comment.spec_keyless() && self.answer.spec_keyless()
    }

    fn merge(&mut self, other: Self) {
        self.comment.merge(other.comment);
        self.answer.merge(other.answer);
    }

    fn diff(&mut self, other: &Self) {
        self.comment.diff(&other.comment);
        self.answer.diff(&other.answer);
    }

    fn is_default(&self) -> (r: bool) {
        self.comment.is_none() && self.answer.is_none()
    }

    proof fn lemma_merge_commutative(a: Self, b: Self) {
        <Option<CommentChild> as ConfValue>::lemma_merge_commutative(a.comment, b.comment);
        <Option<AnswerChild> as ConfValue>::lemma_merge_commutative(a.answer, b.answer);
    }

    proof fn lemma_merge_associative(a: Self, b: Self, c: Self) {
        <Option<CommentChild> as ConfValue>::lemma_merge_associative(a.comment, b.comment, c.comment);
        <Option<AnswerChild> as ConfValue>::lemma_merge_associative(a.answer, b.answer, c.answer);
    }

    proof fn lemma_merge_idempotent(a: Self) {
        <Option<CommentChild> as ConfValue>::lemma_merge_idempotent(a.comment);
        <Option<AnswerChild> as ConfValue>::lemma_merge_idempotent(a.answer);
    }

    proof fn lemma_merge_default(a: Self, b: Self) {
        <Option<CommentChild> as ConfValue>::lemma_merge_default(a.comment, b.comment);
        <Option<AnswerChild> as ConfValue>::lemma_merge_default(a.answer, b.answer);
    }

    proof fn lemma_diff_self(a: Self) {
        <Option<CommentChild> as ConfValue>::lemma_diff_self(a.comment);
        <Option<AnswerChild> as ConfValue>::lemma_diff_self(a.answer);
    }

    proof fn lemma_diff_default(a: Self, b: Self) {
        <Option<CommentChild> as ConfValue>::lemma_diff_default(a.comment, b.comment);
        <Option<AnswerChild> as ConfValue>::lemma_diff_default(a.answer, b.answer);
    }

    proof fn lemma_diff_merge(a: Self, b: Self) {
        <Option<CommentChild> as ConfValue>::lemma_diff_merge(a.comment, b.comment);
        <Option<AnswerChild> as ConfValue>::lemma_diff_merge(a.answer, b.answer);
    }
}

/// The options of a user's collections: created and liked ones.
#[derive(Debug, Clone, Copy)]
pub struct UserCollection {
    pub created: Option<CollectionChild>,
    pub liked: Option<CollectionChild>,
}

impl Default for UserCollection {
    fn default() -> (r: Self)
        ensures
            r.spec_is_default(),
    {
        UserCollection { created: None, liked: None }
    }
}

impl ConfValue for UserCollection {
    open spec fn spec_merge(self, other: Self) -> Self {
        UserCollection { created: self.created.spec_merge(other.created), liked: self.liked.spec_merge(other.liked) }
    }

    open spec fn spec_diff(self, other: Self) -> Self {
        UserCollection { created: self.created.spec_diff(other.created), liked: self.liked.spec_diff(other.liked) }
    }

    open spec fn spec_is_default(self) -> bool {
        self.created is None && self.liked is None
    }

    open spec fn spec_compatible(self, other: Self) -> bool {
        self.created.spec_compatible(other.created) && self.liked.spec_compatible(other.liked)
    }

    open spec fn spec_keyless(self) -> bool {
        self.created.spec_keyless() && self.liked.spec_keyless()
    }

    fn merge(&mut self, other: Self) {
        self.created.merge(other.created);
        self.liked.merge(other.liked);
    }

    fn diff(&mut self, other: &Self) {
        self.created.diff(&other.created);
        self.liked.diff(&other.liked);
    }

    fn is_default(&self) -> (r: bool) {
        self.created.is_none() && self.liked.is_none()
    }

    proof fn lemma_merge_commutative(a: Self, b: Self) {
        <Option<CollectionChild> as ConfValue>::lemma_merge_commutative(a.created, b.created);
        <Option<CollectionChild> as ConfValue>::lemma_merge_commutative(a.liked, b.liked);
    }

    proof fn lemma_merge_associative(a: Self, b: Self, c: Self) {
        <Option<CollectionChild> as ConfValue>::lemma_merge_associative(a.created, b.created, c.created);
        <Option<CollectionChild> as ConfValue>::lemma_merge_associative(a.liked, b.liked, c.liked);
    }

    proof fn lemma_merge_idempotent(a: Self) {
        <Option<CollectionChild> as ConfValue>::lemma_merge_idempotent(a.created);
        <Option<CollectionChild> as ConfValue>::lemma_merge_idempotent(a.liked);
    }

    proof fn lemma_merge_default(a: Self, b: Self) {
        <Option<CollectionChild> as ConfValue>::lemma_merge_default(a.created, b.created);
        <Option<CollectionChild> as ConfValue>::lemma_merge_default(a.liked, b.liked);
    }

    proof fn lemma_diff_self(a: Self) {
        <Option<CollectionChild> as ConfValue>::lemma_diff_self(a.created);
        <Option<CollectionChild> as ConfValue>::lemma_diff_self(a.liked);
    }

    proof fn lemma_diff_default(a: Self, b: Self) {
        <Option<CollectionChild> as ConfValue>::lemma_diff_default(a.created, b.created);
        <Option<CollectionChild> as ConfValue>::lemma_diff_default(a.liked, b.liked);
    }

    proof fn lemma_diff_merge(a: Self, b: Self) {
        <Option<CollectionChild> as ConfValue>::lemma_diff_merge(a.created, b.created);
        <Option<CollectionChild> as ConfValue>::lemma_diff_merge(a.liked, b.liked);
    }
}

/// The options of a user's containers.
#[derive(Debug, Clone, Copy)]
pub struct UserChild {
    pub answer: Option<AnswerChild>,
    pub article: Option<ArticleChild>,
    pub collection: Option<UserCollection>,
    pub column: Option<ColumnChild>,
    pub pin: Option<PinChild>,
    pub question: Option<QuestionChild>,
}

impl Default for UserChild {
    fn default() -> (r: Self)
        ensures
            r.spec_is_default(),
    {
        UserChild { answer: None, article: None, collection: None, column: None, pin: None, question: None }
    }
}

impl ConfValue for UserChild {
    open spec fn spec_merge(self, other: Self) -> Self {
        UserChild { answer: self.answer.spec_merge(other.answer), article: self.article.spec_merge(other.article), collection: self.collection.spec_merge(other.collection), column: self.column.spec_merge(other.column), pin: self.pin.spec_merge(other.pin), question: self.question.spec_merge(other.question) }
    }

    open spec fn spec_diff(self, other: Self) -> Self {
        UserChild { answer: self.answer.spec_diff(other.answer), article: self.article.spec_diff(other.article), collection: self.collection.spec_diff(other.collection), column: self.column.spec_diff(other.column), pin: self.pin.spec_diff(other.pin), question: self.question.spec_diff(other.question) }
    }

    open spec fn spec_is_default(self) -> bool {
        self.answer is None && self.article is None && self.collection is None && self.column is None && self.pin is None && self.question is None
    }

    open spec fn spec_compatible(self, other: Self) -> bool {
        self.answer.spec_compatible(other.answer) && self.article.spec_compatible(other.article) && self.collection.spec_compatible(other.collection) && self.column.spec_compatible(other.column) && self.pin.spec_compatible(other.pin) && self.question.spec_compatible(other.question)
    }

    open spec fn spec_keyless(self) -> bool {
        self.answer.spec_keyless() && self.article.spec_keyless() && self.collection.spec_keyless() && self.column.spec_keyless() && self.pin.spec_keyless() && self.question.spec_keyless()
    }

    fn merge(&mut self, other: Self) {
        self.answer.merge(other.answer);
        self.article.merge(other.article);
        self.collection.merge(other.collection);
        self.column.merge(other.column);
        self.pin.merge(other.pin);
        self.question.merge(other.question);
    }

    fn diff(&mut self, other: &Self) {
        self.answer.diff(&other.answer);
        self.article.diff(&other.article);
        self.collection.diff(&other.collection);
        self.column.diff(&other.column);
        self.pin.diff(&other.pin);
        self.question.diff(&other.question);
    }

    fn is_default(&self) -> (r: bool) {
        self.answer.is_none() && self.article.is_none() && self.collection.is_none() && self.column.is_none() && self.pin.is_none() && self.question.is_none()
    }

    proof fn lemma_merge_commutative(a: Self, b: Self) {
        <Option<AnswerChild> as ConfValue>::lemma_merge_commutative(a.answer, b.answer);
        <Option<ArticleChild> as ConfValue>::lemma_merge_commutative(a.article, b.article);
        <Option<UserCollection> as ConfValue>::lemma_merge_commutative(a.collection, b.collection);
        <Option<ColumnChild> as ConfValue>::lemma_merge_commutative(a.column, b.column);
        <Option<PinChild> as ConfValue>::lemma_merge_commutative(a.pin, b.pin);
        <Option<QuestionChild> as ConfValue>::lemma_merge_commutative(a.question, b.question);
    }

    proof fn lemma_merge_associative(a: Self, b: Self, c: Self) {
        <Option<AnswerChild> as ConfValue>::lemma_merge_associative(a.answer, b.answer, c.answer);
        <Option<ArticleChild> as ConfValue>::lemma_merge_associative(a.article, b.article, c.article);
        <Option<UserCollection> as ConfValue>::lemma_merge_associative(a.collection, b.collection, c.collection);
        <Option<ColumnChild> as ConfValue>::lemma_merge_associative(a.column, b.column, c.column);
        <Option<PinChild> as ConfValue>::lemma_merge_associative(a.pin, b.pin, c.pin);
        <Option<QuestionChild> as ConfValue>::lemma_merge_associative(a.question, b.question, c.question);
    }

    proof fn lemma_merge_idempotent(a: Self) {
        <Option<AnswerChild> as ConfValue>::lemma_merge_idempotent(a.answer);
        <Option<ArticleChild> as ConfValue>::lemma_merge_idempotent(a.article);
        <Option<UserCollection> as ConfValue>::lemma_merge_idempotent(a.collection);
        <Option<ColumnChild> as ConfValue>::lemma_merge_idempotent(a.column);
        <Option<PinChild> as ConfValue>::lemma_merge_idempotent(a.pin);
        <Option<QuestionChild> as ConfValue>::lemma_merge_idempotent(a.question);
    }

    proof fn lemma_merge_default(a: Self, b: Self) {
        <Option<AnswerChild> as ConfValue>::lemma_merge_default(a.answer, b.answer);
        <Option<ArticleChild> as ConfValue>::lemma_merge_default(a.article, b.article);
        <Option<UserCollection> as ConfValue>::lemma_merge_default(a.collection, b.collection);
        <Option<ColumnChild> as ConfValue>::lemma_merge_default(a.column, b.column);
        <Option<PinChild> as ConfValue>::lemma_merge_default(a.pin, b.pin);
        <Option<QuestionChild> as ConfValue>::lemma_merge_default(a.question, b.question);
    }

    proof fn lemma_diff_self(a: Self) {
        <Option<AnswerChild> as ConfValue>::lemma_diff_self(a.answer);
        <Option<ArticleChild> as ConfValue>::lemma_diff_self(a.article);
        <Option<UserCollection> as ConfValue>::lemma_diff_self(a.collection);
        <Option<ColumnChild> as ConfValue>::lemma_diff_self(a.column);
        <Option<PinChild> as ConfValue>::lemma_diff_self(a.pin);
        <Option<QuestionChild> as ConfValue>::lemma_diff_self(a.question);
    }

    proof fn lemma_diff_default(a: Self, b: Self) {
        <Option<AnswerChild> as ConfValue>::lemma_diff_default(a.answer, b.answer);
        <Option<ArticleChild> as ConfValue>::lemma_diff_default(a.article, b.article);
        <Option<UserCollection> as ConfValue>::lemma_diff_default(a.collection, b.collection);
        <Option<ColumnChild> as ConfValue>::lemma_diff_default(a.column, b.column);
        <Option<PinChild> as ConfValue>::lemma_diff_default(a.pin, b.pin);
        <Option<QuestionChild> as ConfValue>::lemma_diff_default(a.question, b.question);
    }

    proof fn lemma_diff_merge(a: Self, b: Self) {
        <Option<AnswerChild> as ConfValue>::lemma_diff_merge(a.answer, b.answer);
        <Option<ArticleChild> as ConfValue>::lemma_diff_merge(a.article, b.article);
        <Option<UserCollection> as ConfValue>::lemma_diff_merge(a.collection, b.collection);
        <Option<ColumnChild> as ConfValue>::lemma_diff_merge(a.column, b.column);
        <Option<PinChild> as ConfValue>::lemma_diff_merge(a.pin, b.pin);
        <Option<QuestionChild> as ConfValue>::lemma_diff_merge(a.question, b.question);
    }
}


/// The options of a single item: the options of its children, if any are
/// wanted.
#[derive(Debug, Clone, Copy)]
pub struct ItemOption<C> {
    pub child: Option<C>,
}

impl<C> Default for ItemOption<C> {
    fn default() -> (r: Self)
        ensures
            r.child is None,
    {
        ItemOption { child: None }
    }
}

impl<C: ConfValue> ConfValue for ItemOption<C> {
    open spec fn spec_merge(self, other: Self) -> Self {
        ItemOption { child: self.child.spec_merge(other.child) }
    }

    open spec fn spec_diff(self, other: Self) -> Self {
        ItemOption { child: self.child.spec_diff(other.child) }
    }

    open spec fn spec_is_default(self) -> bool {
        self.child is None
    }

    open spec fn spec_compatible(self, other: Self) -> bool {
        self.child.spec_compatible(other.child)
    }

    open spec fn spec_keyless(self) -> bool {
        self.child.spec_keyless()
    }

    fn merge(&mut self, other: Self) {
        self.child.merge(other.child);
    }

    fn diff(&mut self, other: &Self) {
        self.child.diff(&other.child);
    }

    fn is_default(&self) -> (r: bool) {
        self.child.is_none()
    }

    proof fn lemma_merge_commutative(a: Self, b: Self) {
        <Option<C> as ConfValue>::lemma_merge_commutative(a.child, b.child);
    }

    proof fn lemma_merge_associative(a: Self, b: Self, c: Self) {
        <Option<C> as ConfValue>::lemma_merge_associative(a.child, b.child, c.child);
    }

    proof fn lemma_merge_idempotent(a: Self) {
        <Option<C> as ConfValue>::lemma_merge_idempotent(a.child);
    }

    proof fn lemma_merge_default(a: Self, b: Self) {
        <Option<C> as ConfValue>::lemma_merge_default(a.child, b.child);
    }

    proof fn lemma_diff_self(a: Self) {
        <Option<C> as ConfValue>::lemma_diff_self(a.child);
    }

    proof fn lemma_diff_default(a: Self, b: Self) {
        <Option<C> as ConfValue>::lemma_diff_default(a.child, b.child);
    }

    proof fn lemma_diff_merge(a: Self, b: Self) {
        <Option<C> as ConfValue>::lemma_diff_merge(a.child, b.child);
    }
}

/// The options of a user: the identifier (kept from the left operand when
/// merging), whether the user itself is kept, and the options of its
/// containers.
#[derive(Debug, Clone, Copy)]
pub struct UserOption {
    pub id: UserId,
    pub container: Option<bool>,
    pub child: Option<UserChild>,
}

impl Default for UserOption {
    fn default() -> (r: Self)
        ensures
            r.spec_is_default(),
    {
        UserOption { id: UserId::zero(), container: None, child: None }
    }
}

impl ConfValue for UserOption {
    open spec fn spec_merge(self, other: Self) -> Self {
        UserOption {
            id: self.id,
            container: self.container.spec_merge(other.container),
            child: self.child.spec_merge(other.child),
        }
    }

    open spec fn spec_diff(self, other: Self) -> Self {
        UserOption {
            id: self.id,
            container: self.container.spec_diff(other.container),
            child: self.child.spec_diff(other.child),
        }
    }

    open spec fn spec_is_default(self) -> bool {
        self.id.spec_is_zero() && self.container is None && self.child is None
    }

    open spec fn spec_compatible(self, other: Self) -> bool {
        self.id == other.id && self.child.spec_compatible(other.child)
    }

    open spec fn spec_keyless(self) -> bool {
        self.id.spec_is_zero() && self.child.spec_keyless()
    }

    fn merge(&mut self, other: Self) {
        self.container.merge(other.container);
        self.child.merge(other.child);
    }

    fn diff(&mut self, other: &Self) {
        self.container.diff(&other.container);
        self.child.diff(&other.child);
    }

    fn is_default(&self) -> (r: bool) {
        self.id.is_zero() && self.container.is_none() && self.child.is_none()
    }

    proof fn lemma_merge_commutative(a: Self, b: Self) {
        <Option<bool> as ConfValue>::lemma_merge_commutative(a.container, b.container);
        <Option<UserChild> as ConfValue>::lemma_merge_commutative(a.child, b.child);
    }

    proof fn lemma_merge_associative(a: Self, b: Self, c: Self) {
        <Option<bool> as ConfValue>::lemma_merge_associative(a.container, b.container, c.container);
        <Option<UserChild> as ConfValue>::lemma_merge_associative(a.child, b.child, c.child);
    }

    proof fn lemma_merge_idempotent(a: Self) {
        <Option<bool> as ConfValue>::lemma_merge_idempotent(a.container);
        <Option<UserChild> as ConfValue>::lemma_merge_idempotent(a.child);
    }

    proof fn lemma_merge_default(a: Self, b: Self) {
        <Option<bool> as ConfValue>::lemma_merge_default(a.container, b.container);
        <Option<UserChild> as ConfValue>::lemma_merge_default(a.child, b.child);
    }

    proof fn lemma_diff_self(a: Self) {
        <Option<bool> as ConfValue>::lemma_diff_self(a.container);
        <Option<UserChild> as ConfValue>::lemma_diff_self(a.child);
    }

    proof fn lemma_diff_default(a: Self, b: Self) {
        <Option<bool> as ConfValue>::lemma_diff_default(a.container, b.container);
        <Option<UserChild> as ConfValue>::lemma_diff_default(a.child, b.child);
    }

    proof fn lemma_diff_merge(a: Self, b: Self) {
        <Option<bool> as ConfValue>::lemma_diff_merge(a.container, b.container);
        <Option<UserChild> as ConfValue>::lemma_diff_merge(a.child, b.child);
    }
}

/// The model of a manifest leaf: one map per kind of object.
#[verifier::ext_equal]
pub struct LeafModel {
    pub answer: Map<u64, ItemOption<AnswerChild>>,
    pub article: Map<u64, ItemOption<ArticleChild>>,
    pub collection: Map<u64, ItemOption<CollectionChild>>,
    pub column: Map<Seq<char>, ItemOption<ColumnChild>>,
    pub pin: Map<u64, ItemOption<PinChild>>,
    pub question: Map<u64, ItemOption<QuestionChild>>,
    pub user: Map<Seq<char>, UserOption>,
}

/// The objects a manifest keeps, with their options, one map per kind.
pub struct ManifestLeaf {
    pub answer: KeyMap<AnswerId, ItemOption<AnswerChild>>,
    pub article: KeyMap<ArticleId, ItemOption<ArticleChild>>,
    pub collection: KeyMap<CollectionId, ItemOption<CollectionChild>>,
    pub column: KeyMap<ColumnId, ItemOption<ColumnChild>>,
    pub pin: KeyMap<PinId, ItemOption<PinChild>>,
    pub question: KeyMap<QuestionId, ItemOption<QuestionChild>>,
    /// Users, by URL token.
    pub user: KeyMap<String, UserOption>,
}

impl View for ManifestLeaf {
    type V = LeafModel;

    open spec fn view(&self) -> LeafModel {
        LeafModel {
            answer: self.answer@,
            article: self.article@,
            collection: self.collection@,
            column: self.column@,
            pin: self.pin@,
            question: self.question@,
            user: self.user@,
        }
    }
}

/// The leaf without any object.
pub open spec fn leaf_empty() -> LeafModel {
    LeafModel {
        answer: Map::empty(),
        article: Map::empty(),
        collection: Map::empty(),
        column: Map::empty(),
        pin: Map::empty(),
        question: Map::empty(),
        user: Map::empty(),
    }
}

/// The union of two leaves, kind by kind.
pub open spec fn leaf_merge(a: LeafModel, b: LeafModel) -> LeafModel {
    LeafModel {
        answer: map_merge(a.answer, b.answer),
        article: map_merge(a.article, b.article),
        collection: map_merge(a.collection, b.collection),
        column: map_merge(a.column, b.column),
        pin: map_merge(a.pin, b.pin),
        question: map_merge(a.question, b.question),
        user: map_merge(a.user, b.user),
    }
}

/// What leaf `a` asks for beyond leaf `b`, kind by kind.
pub open spec fn leaf_diff(a: LeafModel, b: LeafModel) -> LeafModel {
    LeafModel {
        answer: map_diff(a.answer, b.answer),
        article: map_diff(a.article, b.article),
        collection: map_diff(a.collection, b.collection),
        column: map_diff(a.column, b.column),
        pin: map_diff(a.pin, b.pin),
        question: map_diff(a.question, b.question),
        user: map_diff(a.user, b.user),
    }
}

/// Whether the shared objects of two leaves may be combined (a user has
/// the same identifier in both).
pub open spec fn leaf_compatible(a: LeafModel, b: LeafModel) -> bool {
    map_compatible(a.answer, b.answer) && map_compatible(a.article, b.article) && map_compatible(a.collection, b.collection) && map_compatible(a.column, b.column) && map_compatible(a.pin, b.pin) && map_compatible(a.question, b.question) && map_compatible(a.user, b.user)
}

impl ManifestLeaf {
    /// The leaf without any object.
    pub fn new() -> (r: Self)
        ensures
            r@ == leaf_empty(),
    {
        ManifestLeaf {
            answer: KeyMap::new(),
            article: KeyMap::new(),
            collection: KeyMap::new(),
            column: KeyMap::new(),
            pin: KeyMap::new(),
            question: KeyMap::new(),
            user: KeyMap::new(),
        }
    }

    /// A copy of the leaf.
    pub fn clone_leaf(&self) -> (r: Self)
        ensures
            r@ == self@,
    {
        ManifestLeaf {
            answer: self.answer.clone_map(),
            article: self.article.clone_map(),
            collection: self.collection.clone_map(),
            column: self.column.clone_map(),
            pin: self.pin.clone_map(),
            question: self.question.clone_map(),
            user: self.user.clone_map(),
        }
    }

    /// Adds everything `other` asks for.
    pub fn merge(&mut self, other: Self)
        ensures
            final(self)@ == leaf_merge(old(self)@, other@),
    {
        let ManifestLeaf { answer, article, collection, column, pin, question, user } = other;
        self.answer.merge(answer);
        self.article.merge(article);
        self.collection.merge(collection);
        self.column.merge(column);
        self.pin.merge(pin);
        self.question.merge(question);
        self.user.merge(user);
    }

    /// Keeps only what is not already asked for by `other`.
    pub fn diff(&mut self, other: &Self)
        ensures
            final(self)@ == leaf_diff(old(self)@, other@),
    {
        self.answer.diff(&other.answer);
        self.article.diff(&other.article);
        self.collection.diff(&other.collection);
        self.column.diff(&other.column);
        self.pin.diff(&other.pin);
        self.question.diff(&other.question);
        self.user.diff(&other.user);
    }

    /// Whether the leaf holds no object.
    pub fn is_default(&self) -> (r: bool)
        ensures
            r == (self@ == leaf_empty()),
    {
        self.answer.is_default() && self.article.is_default() && self.collection.is_default() && self.column.is_default() && self.pin.is_default() && self.question.is_default() && self.user.is_default()
    }
}

impl Default for ManifestLeaf {
    fn default() -> (r: Self)
        ensures
            r@ == leaf_empty(),
    {
        ManifestLeaf::new()
    }
}


/// A manifest: either a leaf of objects, or named sub-manifests, each
/// linked below a directory of that name.
pub enum Manifest {
    Leaf(ManifestLeaf),
    Branch(ManifestBranch),
}

/// Named sub-manifests, each name once, kept in ascending order of the
/// names (by character codes).
pub struct ManifestBranch {
    pub(crate) entries: Vec<(String, Manifest)>,
}

/// Whether the names of `s` ascend strictly (by character codes); no name
/// then occurs twice.
pub open spec fn names_ascending(s: Seq<(String, Manifest)>) -> bool {
    forall|i: int, j: int|
        0 <= i < j < s.len() ==> lex_lt(char_codes(#[trigger] s[i].0@), char_codes(#[trigger] s[j].0@))
}

/// Whether `new` is `old` with the sub-manifest `name` set to `sub`: the
/// entry of that name replaced, or a new entry added; no other entry changes.
pub open spec fn branch_set(
    old: Seq<(String, Manifest)>,
    new: Seq<(String, Manifest)>,
    name: Seq<char>,
    sub: Manifest,
) -> bool {
    &&& new.len() == old.len() + (if exists|k: int| 0 <= k < old.len() && #[trigger] old[k].0@ == name { 0int } else { 1int })
    &&& exists|k: int| 0 <= k < new.len() && #[trigger] new[k].0@ == name && new[k].1 == sub
    &&& forall|i: int| 0 <= i < old.len() && #[trigger] old[i].0@ != name ==> new.contains(old[i])
    &&& forall|j: int| 0 <= j < new.len() && #[trigger] new[j].0@ != name ==> old.contains(new[j])
}

proof fn lemma_insert_ascending(s: Seq<(String, Manifest)>, i: int, x: (String, Manifest))
    requires
        names_ascending(s),
        0 <= i <= s.len(),
        forall|k: int| 0 <= k < i ==> lex_lt(char_codes(#[trigger] s[k].0@), char_codes(x.0@)),
        forall|k: int| i <= k < s.len() ==> lex_lt(char_codes(x.0@), char_codes(#[trigger] s[k].0@)),
    ensures
        names_ascending(s.insert(i, x)),
{
    let t = s.insert(i, x);
    assert forall|p: int, q: int| 0 <= p < q < t.len() implies lex_lt(
        char_codes(#[trigger] t[p].0@),
        char_codes(#[trigger] t[q].0@),
    ) by {
        if p < i && q < i {
            assert(t[p] == s[p] && t[q] == s[q]);
        } else if p < i && q == i {
            assert(t[p] == s[p]);
        } else if p < i {
            assert(t[p] == s[p] && t[q] == s[q - 1]);
        } else if p == i {
            assert(t[q] == s[q - 1]);
        } else {
            assert(t[p] == s[p - 1] && t[q] == s[q - 1]);
        }
    }
}

impl ManifestBranch {
    #[verifier::type_invariant]
    spec fn ascending(self) -> bool {
        names_ascending(self.entries@)
    }

    /// The sub-manifests with their names, in ascending order of the names.
    pub closed spec fn subs(self) -> Seq<(String, Manifest)> {
        self.entries@
    }

    /// A branch with no sub-manifest.
    pub fn new() -> (r: Self)
        ensures
            r.subs() == Seq::<(String, Manifest)>::empty(),
    {
        ManifestBranch { entries: Vec::new() }
    }

    /// The sub-manifests with their names; the names ascend.
    pub fn entries(&self) -> (r: &Vec<(String, Manifest)>)
        ensures
            r@ == self.subs(),
            names_ascending(r@),
    {
        proof {
            use_type_invariant(self);
        }
        &self.entries
    }

    /// Sets the sub-manifest named `name` to `sub`; the names still ascend.
    pub fn insert(&mut self, name: String, sub: Manifest)
        ensures
            names_ascending(final(self).subs()),
            branch_set(old(self).subs(), final(self).subs(), name@, sub),
    {
        proof {
            use_type_invariant(&*self);
        }
        let mut v: Vec<(String, Manifest)> = Vec::new();
        std::mem::swap(&mut v, &mut self.entries);
        let ghost s = v@;
        let ghost n = name@;
        let mut i: usize = 0;
        while i < v.len() && str_lt(v[i].0.as_str(), name.as_str())
            invariant
                0 <= i <= v@.len(),
                v@ == s,
                n == name@,
                names_ascending(s),
                forall|k: int| 0 <= k < i ==> lex_lt(char_codes(#[trigger] s[k].0@), char_codes(n)),
            decreases v@.len() - i,
        {
            i = i + 1;
        }
        proof {
            assert forall|k: int| 0 <= k < i implies s[k].0@ != n by {
                lemma_lex_order(char_codes(s[k].0@), char_codes(n), char_codes(n));
            }
        }
        if i < v.len() && !str_lt(name.as_str(), v[i].0.as_str()) {
            proof {
                lemma_lex_order(char_codes(s[i as int].0@), char_codes(n), char_codes(n));
                lemma_char_codes_injective(s[i as int].0@, n);
                assert(s[i as int].0@ == n);
                assert forall|k: int| i < k < s.len() implies s[k].0@ != n && lex_lt(
                    char_codes(n),
                    char_codes(#[trigger] s[k].0@),
                ) by {
                    assert(lex_lt(char_codes(s[i as int].0@), char_codes(s[k].0@)));
                    lemma_lex_order(char_codes(n), char_codes(s[k].0@), char_codes(s[k].0@));
                }
            }
            let _replaced = v.remove(i);
            let ghost r = s.remove(i as int);
            proof {
                assert forall|p: int, q: int| 0 <= p < q < r.len() implies lex_lt(
                    char_codes(#[trigger] r[p].0@),
                    char_codes(#[trigger] r[q].0@),
                ) by {
                    if p < i {
                        assert(r[p] == s[p]);
                    } else {
                        assert(r[p] == s[p + 1]);
                    }
                    if q < i {
                        assert(r[q] == s[q]);
                    } else {
                        assert(r[q] == s[q + 1]);
                    }
                }
                assert forall|k: int| i <= k < r.len() implies lex_lt(
                    char_codes(n),
                    char_codes(#[trigger] r[k].0@),
                ) by {
                    assert(r[k] == s[k + 1]);
                }
                assert forall|k: int| 0 <= k < i implies lex_lt(
                    char_codes(#[trigger] r[k].0@),
                    char_codes(n),
                ) by {
                    assert(r[k] == s[k]);
                }
            }
            v.insert(i, (name, sub));
            proof {
                lemma_insert_ascending(r, i as int, v@[i as int]);
                let t = v@;
                assert(t == r.insert(i as int, t[i as int]));
                assert(exists|k: int| 0 <= k < s.len() && #[trigger] s[k].0@ == n) by {
                    assert(s[i as int].0@ == n);
                }
                assert(t[i as int].0@ == n);
                assert forall|k: int| 0 <= k < s.len() && #[trigger] s[k].0@ != n implies t.contains(s[k]) by {
                    if k < i {
                        assert(t[k] == s[k]);
                    } else {
                        assert(k != i);
                        assert(t[k] == s[k]);
                    }
                }
                assert forall|j: int| 0 <= j < t.len() && #[trigger] t[j].0@ != n implies s.contains(t[j]) by {
                    assert(j != i);
                    assert(t[j] == s[j]);
                }
            }
        } else {
            proof {
                if i < s.len() {
                    lemma_lex_order(char_codes(s[i as int].0@), char_codes(n), char_codes(n));
                    lemma_lex_order(char_codes(n), char_codes(s[i as int].0@), char_codes(n));
                    lemma_char_codes_injective(s[i as int].0@, n);
                }
                assert forall|k: int| i <= k < s.len() implies lex_lt(
                    char_codes(n),
                    char_codes(#[trigger] s[k].0@),
                ) by {
                    if k > i {
                        assert(lex_lt(char_codes(s[i as int].0@), char_codes(s[k].0@)));
                        lemma_lex_order(char_codes(n), char_codes(s[i as int].0@), char_codes(s[k].0@));
                    }
                }
                assert forall|k: int| i <= k < s.len() implies s[k].0@ != n by {
                    lemma_lex_order(char_codes(n), char_codes(s[k].0@), char_codes(s[k].0@));
                }
            }
            v.insert(i, (name, sub));
            proof {
                lemma_insert_ascending(s, i as int, v@[i as int]);
                let t = v@;
                assert(t == s.insert(i as int, t[i as int]));
                assert(!exists|k: int| 0 <= k < s.len() && #[trigger] s[k].0@ == n);
                assert(t[i as int].0@ == n);
                assert forall|k: int| 0 <= k < s.len() && #[trigger] s[k].0@ != n implies t.contains(s[k]) by {
                    if k < i {
                        assert(t[k] == s[k]);
                    } else {
                        assert(t[k + 1] == s[k]);
                    }
                }
                assert forall|j: int| 0 <= j < t.len() && #[trigger] t[j].0@ != n implies s.contains(t[j]) by {
                    if j < i {
                        assert(t[j] == s[j]);
                    } else {
                        assert(j != i);
                        assert(t[j] == s[j - 1]);
                    }
                }
            }
        }
        self.entries = v;
    }
}

/// What a manifest reaches below it: each sub-manifest of a branch is
/// smaller than the manifest.
pub proof fn lemma_subs_decrease(m: Manifest)
    requires
        m is Branch,
    ensures
        decreases_to!(m => m->Branch_0.subs()),
{
    let b = m->Branch_0;
    assert(decreases_to!(m => b));
    assert(decreases_to!(b => b.entries));
    assert(decreases_to!(b.entries => b.entries@));
}

/// `acc` merged with every leaf of `m`, depth first, in order.
pub open spec fn merge_into(m: Manifest, acc: LeafModel) -> LeafModel
    decreases m, 1int,
{
    match m {
        Manifest::Leaf(l) => leaf_merge(acc, l@),
        Manifest::Branch(b) => {
            proof {
                lemma_subs_decrease(m);
            }
            merge_all(b.subs(), acc, 0)
        },
    }
}

/// `acc` merged with the leaves of the sub-manifests `s[i..]`, in order.
pub open spec fn merge_all(s: Seq<(String, Manifest)>, acc: LeafModel, i: int) -> LeafModel
    decreases s, 0int, s.len() - i,
{
    if 0 <= i < s.len() {
        merge_all(s, merge_into(s[i].1, acc), i + 1)
    } else {
        acc
    }
}

fn merge_leaf(manifest: &Manifest, dest: &mut ManifestLeaf)
    ensures
        final(dest)@ == merge_into(*manifest, old(dest)@),
    decreases manifest,
{
    match manifest {
        Manifest::Leaf(l) => dest.merge(l.clone_leaf()),
        Manifest::Branch(br) => {
            let b = br.entries();
            let ghost start = dest@;
            let mut i: usize = 0;
            while i < b.len()
                invariant
                    0 <= i <= b@.len(),
                    merge_all(b@, start, 0) == merge_all(b@, dest@, i as int),
                    *manifest == Manifest::Branch(*br),
                    b@ == br.subs(),
                decreases b@.len() - i,
            {
                proof {
                    lemma_subs_decrease(*manifest);
                    let v = b@[i as int];
                    assert(decreases_to!(b@ => v));
                    assert(decreases_to!(v => v.1));
                }
                merge_leaf(&b[i].1, dest);
                i = i + 1;
            }
        },
    }
}

/// An object that a leaf may name, by kind: its id, or for columns and
/// users the text they are kept under.
pub enum LeafKey {
    Answer(u64),
    Article(u64),
    Collection(u64),
    Column(Seq<char>),
    Pin(u64),
    Question(u64),
    User(Seq<char>),
}

/// Whether leaf `l` names the object `k`.
pub open spec fn leaf_has(l: LeafModel, k: LeafKey) -> bool {
    match k {
        LeafKey::Answer(i) => l.answer.contains_key(i),
        LeafKey::Article(i) => l.article.contains_key(i),
        LeafKey::Collection(i) => l.collection.contains_key(i),
        LeafKey::Column(i) => l.column.contains_key(i),
        LeafKey::Pin(i) => l.pin.contains_key(i),
        LeafKey::Question(i) => l.question.contains_key(i),
        LeafKey::User(i) => l.user.contains_key(i),
    }
}

/// Whether some leaf under `m` names the object `k`.
pub open spec fn manifest_has(m: Manifest, k: LeafKey) -> bool
    decreases m, 1int,
{
    match m {
        Manifest::Leaf(l) => leaf_has(l@, k),
        Manifest::Branch(b) => {
            proof {
                lemma_subs_decrease(m);
            }
            branch_has(b.subs(), k, 0)
        },
    }
}

/// Whether some leaf under the sub-manifests `s[i..]` names `k`.
pub open spec fn branch_has(s: Seq<(String, Manifest)>, k: LeafKey, i: int) -> bool
    decreases s, 0int, s.len() - i,
{
    if 0 <= i < s.len() {
        manifest_has(s[i].1, k) || branch_has(s, k, i + 1)
    } else {
        false
    }
}

proof fn lemma_merge_into_has(m: Manifest, acc: LeafModel, k: LeafKey)
    ensures
        leaf_has(merge_into(m, acc), k) == (leaf_has(acc, k) || manifest_has(m, k)),
    decreases m, 1int,
{
    match m {
        Manifest::Leaf(l) => {},
        Manifest::Branch(b) => {
            lemma_subs_decrease(m);
            lemma_merge_all_has(b.subs(), acc, k, 0);
        },
    }
}

proof fn lemma_merge_all_has(s: Seq<(String, Manifest)>, acc: LeafModel, k: LeafKey, i: int)
    ensures
        leaf_has(merge_all(s, acc, i), k) == (leaf_has(acc, k) || branch_has(s, k, i)),
    decreases s, 0int, s.len() - i,
{
    if 0 <= i < s.len() {
        let v = s[i];
        assert(decreases_to!(s => v));
        assert(decreases_to!(v => v.1));
        lemma_merge_into_has(v.1, acc, k);
        lemma_merge_all_has(s, merge_into(v.1, acc), k, i + 1);
    }
}

/// What `merged_leaf` gives: a leaf gives itself; a branch with no
/// sub-manifest gives the empty leaf; and the merged leaf names exactly the
/// objects that some leaf under the manifest names, kind by kind.
pub proof fn lemma_merged_leaf(m: Manifest)
    ensures
        m is Leaf ==> merge_into(m, leaf_empty()) == m->Leaf_0@,
        m is Branch && m->Branch_0.subs().len() == 0 ==> merge_into(m, leaf_empty()) == leaf_empty(),
        forall|k: LeafKey| #[trigger] leaf_has(merge_into(m, leaf_empty()), k) == manifest_has(m, k),
{
    if let Manifest::Leaf(l) = m {
        let x = l@;
        lemma_map_merge_empty(x.answer);
        lemma_map_merge_empty(x.article);
        lemma_map_merge_empty(x.collection);
        lemma_map_merge_empty(x.column);
        lemma_map_merge_empty(x.pin);
        lemma_map_merge_empty(x.question);
        lemma_map_merge_empty(x.user);
    }
    assert forall|k: LeafKey| #[trigger] leaf_has(merge_into(m, leaf_empty()), k) == manifest_has(m, k) by {
        lemma_merge_into_has(m, leaf_empty(), k);
    }
}

impl Manifest {
    /// The union of all leaves of the manifest.
    pub fn merged_leaf(&self) -> (r: ManifestLeaf)
        ensures
            r@ == merge_into(*self, leaf_empty()),
    {
        let mut ret = ManifestLeaf::new();
        merge_leaf(self, &mut ret);
        ret
    }

    /// What the manifest asks for beyond the leaf `saved` (the leaves that
    /// were applied before).
    pub fn missing_leaf(&self, saved: &ManifestLeaf) -> (r: ManifestLeaf)
        ensures
            r@ == leaf_diff(merge_into(*self, leaf_empty()), saved@),
    {
        let mut missing = self.merged_leaf();
        missing.diff(saved);
        missing
    }
}

/// Merging leaves is commutative where shared users agree on identifiers.
pub proof fn lemma_leaf_merge_commutative(a: LeafModel, b: LeafModel)
    requires
        leaf_compatible(a, b),
    ensures
        leaf_merge(a, b) == leaf_merge(b, a),
{
    lemma_map_merge_commutative(a.answer, b.answer);
    lemma_map_merge_commutative(a.article, b.article);
    lemma_map_merge_commutative(a.collection, b.collection);
    lemma_map_merge_commutative(a.column, b.column);
    lemma_map_merge_commutative(a.pin, b.pin);
    lemma_map_merge_commutative(a.question, b.question);
    lemma_map_merge_commutative(a.user, b.user);
}

/// Merging leaves is associative.
pub proof fn lemma_leaf_merge_associative(a: LeafModel, b: LeafModel, c: LeafModel)
    ensures
        leaf_merge(leaf_merge(a, b), c) == leaf_merge(a, leaf_merge(b, c)),
{
    lemma_map_merge_associative(a.answer, b.answer, c.answer);
    lemma_map_merge_associative(a.article, b.article, c.article);
    lemma_map_merge_associative(a.collection, b.collection, c.collection);
    lemma_map_merge_associative(a.column, b.column, c.column);
    lemma_map_merge_associative(a.pin, b.pin, c.pin);
    lemma_map_merge_associative(a.question, b.question, c.question);
    lemma_map_merge_associative(a.user, b.user, c.user);
}

/// Merging a leaf with itself leaves it unchanged.
pub proof fn lemma_leaf_merge_idempotent(a: LeafModel)
    ensures
        leaf_merge(a, a) == a,
{
    lemma_map_merge_idempotent(a.answer);
    lemma_map_merge_idempotent(a.article);
    lemma_map_merge_idempotent(a.collection);
    lemma_map_merge_idempotent(a.column);
    lemma_map_merge_idempotent(a.pin);
    lemma_map_merge_idempotent(a.question);
    lemma_map_merge_idempotent(a.user);
}

/// A manifest made of one leaf merges to that leaf.
pub proof fn lemma_merged_single_leaf(l: ManifestLeaf)
    ensures
        merge_into(Manifest::Leaf(l), leaf_empty()) == l@,
{
    lemma_map_merge_empty(l.answer@);
    lemma_map_merge_empty(l.article@);
    lemma_map_merge_empty(l.collection@);
    lemma_map_merge_empty(l.column@);
    lemma_map_merge_empty(l.pin@);
    lemma_map_merge_empty(l.question@);
    lemma_map_merge_empty(l.user@);
}

/// Applying only what is missing and then recording it gives the same leaf as
/// applying everything: the difference merged back with what was saved is
/// the union of the two.
pub proof fn lemma_missing_then_saved(wanted: LeafModel, saved: LeafModel)
    requires
        leaf_compatible(wanted, saved),
    ensures
        leaf_merge(leaf_diff(wanted, saved), saved) == leaf_merge(wanted, saved),
{
    lemma_map_diff_merge(wanted.answer, saved.answer);
    lemma_map_diff_merge(wanted.article, saved.article);
    lemma_map_diff_merge(wanted.collection, saved.collection);
    lemma_map_diff_merge(wanted.column, saved.column);
    lemma_map_diff_merge(wanted.pin, saved.pin);
    lemma_map_diff_merge(wanted.question, saved.question);
    lemma_map_diff_merge(wanted.user, saved.user);
}

/// A leaf diffed against itself asks for nothing: it keeps no object of any
/// kind but users, and every user it keeps asks neither for itself nor for
/// any container.
pub proof fn lemma_leaf_diff_self(a: LeafModel)
    ensures
        ({
            let d = leaf_diff(a, a);
            &&& d.answer == Map::<u64, ItemOption<AnswerChild>>::empty()
            &&& d.article == Map::<u64, ItemOption<ArticleChild>>::empty()
            &&& d.collection == Map::<u64, ItemOption<CollectionChild>>::empty()
            &&& d.column == Map::<Seq<char>, ItemOption<ColumnChild>>::empty()
            &&& d.pin == Map::<u64, ItemOption<PinChild>>::empty()
            &&& d.question == Map::<u64, ItemOption<QuestionChild>>::empty()
            &&& forall|k: Seq<char>| #[trigger]
                d.user.contains_key(k) ==> d.user[k].container is None && d.user[k].child is None
        }),
{
    lemma_map_diff_self(a.answer);
    lemma_map_diff_self(a.article);
    lemma_map_diff_self(a.collection);
    lemma_map_diff_self(a.column);
    lemma_map_diff_self(a.pin);
    lemma_map_diff_self(a.question);
    assert forall|k: Seq<char>| #[trigger] leaf_diff(a, a).user.contains_key(k) implies leaf_diff(
        a,
        a,
    ).user[k].container is None && leaf_diff(a, a).user[k].child is None by {
        <Option<bool> as ConfValue>::lemma_diff_self(a.user[k].container);
        <Option<UserChild> as ConfValue>::lemma_diff_self(a.user[k].child);
    }
}

} // verus!
