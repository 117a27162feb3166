//! The activities of a user: each one points at an item of another kind.
use crate::item::answer::AnswerId;
use crate::item::article::ArticleId;
use crate::item::collection::CollectionId;
use crate::item::column::{ColumnId, ColumnRef};
use crate::item::other::OtherInfo;
use crate::item::pin::PinId;
use crate::item::question::QuestionId;
use crate::store::container::{lemma_marks_union, ItemList};
use crate::store::info::ItemInfo;
use crate::store::{ObjectKey, ObjectRef, Store, StoreKey};
use crate::util::key_map::KeySet;
use crate::util::text::{concat, concat_strs, decimal, u64_to_string};
use vstd::prelude::*;

verus! {

/// The item an activity points at.
#[derive(Debug, Clone, Copy)]
pub enum ActTargetId<'a> {
    Answer(AnswerId),
    Article(ArticleId),
    Collection(CollectionId),
    Column(ColumnRef<'a>),
    Pin(PinId),
    Question(QuestionId),
    /// An object of a kind this program does not know.
    Other(Option<&'a OtherInfo>),
}

/// The identifier of an activity: its number and its target.
#[derive(Debug, Clone, Copy)]
pub struct ActivityId<'a> {
    pub id: u64,
    pub target: ActTargetId<'a>,
}

/// The stored object a target stands for; unknown objects are not stored.
pub open spec fn spec_target_object(t: ActTargetId) -> Option<ObjectKey> {
    match t {
        ActTargetId::Answer(a) => Some(ObjectKey::Answer(a.0)),
        ActTargetId::Article(a) => Some(ObjectKey::Article(a.0)),
        ActTargetId::Collection(c) => Some(ObjectKey::Collection(c.0)),
        ActTargetId::Column(c) => Some(ObjectKey::Column(c.0@)),
        ActTargetId::Pin(p) => Some(ObjectKey::Pin(p.0)),
        ActTargetId::Question(q) => Some(ObjectKey::Question(q.0)),
        ActTargetId::Other(_) => None,
    }
}

/// How an activity is shown: `<number> (<kind> <target>)`, or
/// `<number> (unknown)` when nothing is known of the target.
pub open spec fn spec_activity_text(a: ActivityId) -> Seq<char> {
    let n = decimal(a.id as nat);
    match a.target {
        ActTargetId::Answer(x) => concat(seq![n, " (answer "@, decimal(x.0 as nat), ")"@]),
        ActTargetId::Article(x) => concat(seq![n, " (article "@, decimal(x.0 as nat), ")"@]),
        ActTargetId::Collection(x) => concat(seq![n, " (collection "@, decimal(x.0 as nat), ")"@]),
        ActTargetId::Column(x) => concat(seq![n, " (column "@, x.0@, ")"@]),
        ActTargetId::Pin(x) => concat(seq![n, " (pin "@, decimal(x.0 as nat), ")"@]),
        ActTargetId::Question(x) => concat(seq![n, " (question "@, decimal(x.0 as nat), ")"@]),
        ActTargetId::Other(Some(i)) => concat(
            seq![n, " ("@, i.item_type@, " "@, decimal(i.id as nat), ")"@],
        ),
        ActTargetId::Other(None) => concat(seq![n, " (unknown)"@]),
    }
}

impl<'a> ActTargetId<'a> {
    /// The stored object the target stands for.
    pub fn object_ref(&self) -> (r: Option<ObjectRef>)
        ensures
            match r {
                Some(o) => spec_target_object(*self) == Some(o@),
                None => spec_target_object(*self) is None,
            },
    {
        match self {
            ActTargetId::Answer(a) => Some(ObjectRef::Answer(*a)),
            ActTargetId::Article(a) => Some(ObjectRef::Article(*a)),
            ActTargetId::Collection(c) => Some(ObjectRef::Collection(*c)),
            ActTargetId::Column(c) => Some(ObjectRef::Column(ColumnId(c.0.to_owned()))),
            ActTargetId::Pin(p) => Some(ObjectRef::Pin(*p)),
            ActTargetId::Question(q) => Some(ObjectRef::Question(*q)),
            ActTargetId::Other(_) => None,
        }
    }
}

/// `<number> (<word><text>)`.
fn labelled(n: &str, word: &str, text: &str) -> (r: String)
    ensures
        r@ == concat(seq![n@, word@, text@, ")"@]),
{
    let parts: [&str; 4] = [n, word, text, ")"];
    let r = concat_strs(&parts);
    assert(parts@.map_values(|p: &str| p@) =~= seq![n@, word@, text@, ")"@]);
    r
}

impl<'a> ActivityId<'a> {
    /// How the activity is shown.
    pub fn describe(&self) -> (r: String)
        ensures
            r@ == spec_activity_text(*self),
    {
        let n = u64_to_string(self.id);
        match self.target {
            ActTargetId::Answer(x) => labelled(n.as_str(), " (answer ", u64_to_string(x.0).as_str()),
            ActTargetId::Article(x) => labelled(n.as_str(), " (article ", u64_to_string(x.0).as_str()),
            ActTargetId::Collection(x) => labelled(
                n.as_str(),
                " (collection ",
                u64_to_string(x.0).as_str(),
            ),
            ActTargetId::Column(x) => labelled(n.as_str(), " (column ", x.0),
            ActTargetId::Pin(x) => labelled(n.as_str(), " (pin ", u64_to_string(x.0).as_str()),
            ActTargetId::Question(x) => labelled(
                n.as_str(),
                " (question ",
                u64_to_string(x.0).as_str(),
            ),
            ActTargetId::Other(Some(i)) => {
                let id = u64_to_string(i.id);
                let parts: [&str; 6] = [n.as_str(), " (", i.item_type.as_str(), " ", id.as_str(), ")"];
                let r = concat_strs(&parts);
                assert(parts@.map_values(|p: &str| p@) =~= seq![
                    decimal(self.id as nat),
                    " ("@,
                    i.item_type@,
                    " "@,
                    decimal(i.id as nat),
                    ")"@,
                ]);
                r
            },
            ActTargetId::Other(None) => {
                let parts: [&str; 2] = [n.as_str(), " (unknown)"];
                let r = concat_strs(&parts);
                assert(parts@.map_values(|p: &str| p@) =~= seq![decimal(self.id as nat), " (unknown)"@]);
                r
            },
        }
    }
}

/// The activities of a user, by the items they point at.
#[derive(Debug)]
pub struct ActivityList {
    pub answer: KeySet<AnswerId>,
    pub article: KeySet<ArticleId>,
    pub column: KeySet<ColumnId>,
    pub collection: KeySet<CollectionId>,
    pub pin: KeySet<PinId>,
    pub question: KeySet<QuestionId>,
}

impl ItemList for ActivityList {
    open spec fn spec_accepts(k: ObjectKey) -> bool {
        k is Answer || k is Article || k is Column || k is Collection || k is Pin || k is Question
    }

    open spec fn spec_members(&self) -> Set<ObjectKey> {
        self.answer.spec_members().union(self.article.spec_members()).union(
            self.column.spec_members(),
        ).union(self.collection.spec_members()).union(self.pin.spec_members()).union(
            self.question.spec_members(),
        )
    }

    fn new_list() -> (r: Self) {
        let r = ActivityList {
            answer: KeySet::new_list(),
            article: KeySet::new_list(),
            column: KeySet::new_list(),
            collection: KeySet::new_list(),
            pin: KeySet::new_list(),
            question: KeySet::new_list(),
        };
        assert(r.spec_members() =~= Set::<ObjectKey>::empty());
        r
    }

    fn copy_list(&self) -> (r: Self) {
        ActivityList {
            answer: self.answer.copy_list(),
            article: self.article.copy_list(),
            column: self.column.copy_list(),
            collection: self.collection.copy_list(),
            pin: self.pin.copy_list(),
            question: self.question.copy_list(),
        }
    }

    fn insert(&mut self, obj: &ObjectRef) {
        match obj {
            ObjectRef::Answer(a) => {
                assert(<AnswerId as StoreKey>::spec_object(a@) == obj@);
                ItemList::insert(&mut self.answer, obj);
            },
            ObjectRef::Article(a) => {
                assert(<ArticleId as StoreKey>::spec_object(a@) == obj@);
                ItemList::insert(&mut self.article, obj);
            },
            ObjectRef::Column(c) => {
                assert(<ColumnId as StoreKey>::spec_object(c@) == obj@);
                ItemList::insert(&mut self.column, obj);
            },
            ObjectRef::Collection(c) => {
                assert(<CollectionId as StoreKey>::spec_object(c@) == obj@);
                ItemList::insert(&mut self.collection, obj);
            },
            ObjectRef::Pin(p) => {
                assert(<PinId as StoreKey>::spec_object(p@) == obj@);
                ItemList::insert(&mut self.pin, obj);
            },
            ObjectRef::Question(q) => {
                assert(<QuestionId as StoreKey>::spec_object(q@) == obj@);
                ItemList::insert(&mut self.question, obj);
            },
            _ => {},
        }
        assert(self.spec_members() =~= if Self::spec_accepts(obj@) {
            old(self).spec_members().insert(obj@)
        } else {
            old(self).spec_members()
        });
    }

    fn remove(&mut self, obj: &ObjectRef) {
        ItemList::remove(&mut self.answer, obj);
        ItemList::remove(&mut self.article, obj);
        ItemList::remove(&mut self.column, obj);
        ItemList::remove(&mut self.collection, obj);
        ItemList::remove(&mut self.pin, obj);
        ItemList::remove(&mut self.question, obj);
        assert(self.spec_members() =~= old(self).spec_members().remove(obj@));
    }

    fn set_item_info(&self, info: ItemInfo, store: &mut Store) {
        let ghost s0 = *store;
        self.answer.set_item_info(info, store);
        let ghost s1 = *store;
        self.article.set_item_info(info, store);
        let ghost s2 = *store;
        self.column.set_item_info(info, store);
        let ghost s3 = *store;
        self.collection.set_item_info(info, store);
        let ghost s4 = *store;
        self.pin.set_item_info(info, store);
        let ghost s5 = *store;
        self.question.set_item_info(info, store);
        proof {
            let a = self.answer.spec_members();
            let b = a.union(self.article.spec_members());
            let c = b.union(self.column.spec_members());
            let d = c.union(self.collection.spec_members());
            let e = d.union(self.pin.spec_members());
            lemma_marks_union(s0, s1, s2, a, self.article.spec_members(), info);
            lemma_marks_union(s0, s2, s3, b, self.column.spec_members(), info);
            lemma_marks_union(s0, s3, s4, c, self.collection.spec_members(), info);
            lemma_marks_union(s0, s4, s5, d, self.pin.spec_members(), info);
            lemma_marks_union(s0, s5, *store, e, self.question.spec_members(), info);
        }
    }

    proof fn lemma_members_accepted(&self) {
        self.answer.lemma_members_accepted();
        self.article.lemma_members_accepted();
        self.column.lemma_members_accepted();
        self.collection.lemma_members_accepted();
        self.pin.lemma_members_accepted();
        self.question.lemma_members_accepted();
    }
}

} // verus!
