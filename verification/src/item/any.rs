//! Items of containers that hold answers and articles alike.
use crate::item::answer::AnswerId;
use crate::item::article::ArticleId;
use crate::item::other::OtherInfo;
use crate::store::container::{lemma_marks_union, ItemList};
use crate::store::{ObjectKey, ObjectRef, Store};
use crate::store::info::ItemInfo;
use crate::util::key_map::KeySet;
use crate::util::text::{concat, concat_strs, decimal, u64_to_string};
use vstd::prelude::*;

verus! {

/// The identifier of an item of a mixed container.
#[derive(Debug, Clone, Copy)]
pub enum AnyId<'a> {
    Answer(AnswerId),
    Article(ArticleId),
    /// An object of a kind this program does not know, with what is known
    /// of it.
    Other(Option<&'a OtherInfo>),
}

/// The stored object an item stands for; unknown objects are not stored.
pub open spec fn spec_any_object(id: AnyId) -> Option<ObjectKey> {
    match id {
        AnyId::Answer(a) => Some(ObjectKey::Answer(a.0)),
        AnyId::Article(a) => Some(ObjectKey::Article(a.0)),
        AnyId::Other(_) => None,
    }
}

/// How an item is shown: its kind and identifier.
pub open spec fn spec_any_text(id: AnyId) -> Seq<char> {
    match id {
        AnyId::Answer(a) => concat(seq!["answer "@, decimal(a.0 as nat)]),
        AnyId::Article(a) => concat(seq!["article "@, decimal(a.0 as nat)]),
        AnyId::Other(Some(i)) => concat(
            seq!["unknown ("@, i.item_type@, " "@, decimal(i.id as nat), ")"@],
        ),
        AnyId::Other(None) => "unknown"@,
    }
}

impl<'a> AnyId<'a> {
    /// The stored object the item stands for.
    pub fn object_ref(&self) -> (r: Option<ObjectRef>)
        ensures
            match r {
                Some(o) => spec_any_object(*self) == Some(o@),
                None => spec_any_object(*self) is None,
            },
    {
        match self {
            AnyId::Answer(a) => Some(ObjectRef::Answer(*a)),
            AnyId::Article(a) => Some(ObjectRef::Article(*a)),
            AnyId::Other(_) => None,
        }
    }

    /// How the item is shown.
    pub fn describe(&self) -> (r: String)
        ensures
            r@ == spec_any_text(*self),
    {
        match self {
            AnyId::Answer(a) => {
                let n = u64_to_string(a.0);
                let parts: [&str; 2] = ["answer ", n.as_str()];
                let r = concat_strs(&parts);
                assert(parts@.map_values(|p: &str| p@) =~= seq!["answer "@, decimal(a.0 as nat)]);
                r
            },
            AnyId::Article(a) => {
                let n = u64_to_string(a.0);
                let parts: [&str; 2] = ["article ", n.as_str()];
                let r = concat_strs(&parts);
                assert(parts@.map_values(|p: &str| p@) =~= seq!["article "@, decimal(a.0 as nat)]);
                r
            },
            AnyId::Other(Some(i)) => {
                let n = u64_to_string(i.id);
                let parts: [&str; 5] = ["unknown (", i.item_type.as_str(), " ", n.as_str(), ")"];
                let r = concat_strs(&parts);
                assert(parts@.map_values(|p: &str| p@) =~= seq![
                    "unknown ("@,
                    i.item_type@,
                    " "@,
                    decimal(i.id as nat),
                    ")"@,
                ]);
                r
            },
            AnyId::Other(None) => String::from_str("unknown"),
        }
    }
}

/// The items of a mixed container: its answers and its articles.
#[derive(Debug)]
pub struct AnyList {
    pub answer: KeySet<AnswerId>,
    pub article: KeySet<ArticleId>,
}

impl AnyList {
    /// Adds an item; unknown objects are not listed.
    pub fn insert_any(&mut self, id: &AnyId)
        ensures
            final(self).spec_members() == match spec_any_object(*id) {
                Some(k) => old(self).spec_members().insert(k),
                None => old(self).spec_members(),
            },
    {
        match id.object_ref() {
            Some(o) => ItemList::insert(self, &o),
            None => {},
        }
    }
}

impl ItemList for AnyList {
    open spec fn spec_accepts(k: ObjectKey) -> bool {
        k is Answer || k is Article
    }

    open spec fn spec_members(&self) -> Set<ObjectKey> {
        self.answer.spec_members().union(self.article.spec_members())
    }

    fn new_list() -> (r: Self) {
        let r = AnyList { answer: KeySet::new_list(), article: KeySet::new_list() };
        assert(r.spec_members() =~= Set::<ObjectKey>::empty());
        r
    }

    fn copy_list(&self) -> (r: Self) {
        AnyList { answer: self.answer.copy_list(), article: self.article.copy_list() }
    }

    fn insert(&mut self, obj: &ObjectRef) {
        match obj {
            ObjectRef::Answer(a) => {
                assert(<AnswerId as crate::store::StoreKey>::spec_object(a@) == obj@);
                ItemList::insert(&mut self.answer, obj);
                assert(self.spec_members() =~= old(self).spec_members().insert(obj@));
            },
            ObjectRef::Article(a) => {
                assert(<ArticleId as crate::store::StoreKey>::spec_object(a@) == obj@);
                ItemList::insert(&mut self.article, obj);
                assert(self.spec_members() =~= old(self).spec_members().insert(obj@));
            },
            _ => {},
        }
    }

    fn remove(&mut self, obj: &ObjectRef) {
        ItemList::remove(&mut self.answer, obj);
        ItemList::remove(&mut self.article, obj);
        assert(self.spec_members() =~= old(self).spec_members().remove(obj@));
    }

    fn set_item_info(&self, info: ItemInfo, store: &mut Store) {
        let ghost s0 = *store;
        self.answer.set_item_info(info, store);
        let ghost s1 = *store;
        self.article.set_item_info(info, store);
        proof {
            lemma_marks_union(
                s0,
                s1,
                *store,
                self.answer.spec_members(),
                self.article.spec_members(),
                info,
            );
        }
    }

    proof fn lemma_members_accepted(&self) {
        self.answer.lemma_members_accepted();
        self.article.lemma_members_accepted();
    }
}

} // verus!
