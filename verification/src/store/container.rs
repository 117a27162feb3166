//! Containers in the store: the lists of their items, and the bookkeeping
//! while a container is stored again.
//!
//! A container keeps the list of the items it held; while it is stored
//! again, every item seen is linked and struck off the list of absent
//! items, and what is left absent at the end is what the server no longer
//! has.
use crate::element::author::UserId;
use crate::item::answer::AnswerId;
use crate::item::article::ArticleId;
use crate::item::collection::CollectionId;
use crate::item::column::ColumnId;
use crate::item::pin::PinId;
use crate::item::question::QuestionId;
use crate::store::info::ItemInfo;
use crate::store::{
    call_effect, mark_all, spec_id_text, spec_type_name, ObjectKey, ObjectRef, Store, StoreCall, StoreKey,
};
use crate::util::key_map::KeySet;
use vstd::prelude::*;

verus! {

/// The objects that a set of identifiers stands for.
pub open spec fn objects_of<K: StoreKey>(s: Set<K::V>) -> Set<ObjectKey> {
    Set::new(|o: ObjectKey| exists|kv: K::V| s.contains(kv) && #[trigger] K::spec_object(kv) == o)
}

/// `after` is `before` with `info` recorded for the objects of `s`: other
/// records, the format version and the root stay; the store is changed
/// when `s` is not empty.
pub open spec fn marks(before: Store, after: Store, s: Set<ObjectKey>, info: ItemInfo) -> bool {
    &&& forall|k: ObjectKey| s.contains(k) ==> #[trigger] after.spec_info(k) == info
    &&& forall|k: ObjectKey| !s.contains(k) ==> #[trigger] after.spec_info(k) == before.spec_info(k)
    &&& after.spec_version() == before.spec_version()
    &&& after.spec_root() == before.spec_root()
    &&& after.spec_dirty() == (before.spec_dirty() || !s.is_empty())
}

/// Recording `info` for `a`, then for `b`, records it for both.
pub(crate) proof fn lemma_marks_union(
    s0: Store,
    s1: Store,
    s2: Store,
    a: Set<ObjectKey>,
    b: Set<ObjectKey>,
    info: ItemInfo,
)
    requires
        marks(s0, s1, a, info),
        marks(s1, s2, b, info),
    ensures
        marks(s0, s2, a.union(b), info),
{
    assert forall|k: ObjectKey| a.union(b).contains(k) implies #[trigger] s2.spec_info(k) == info by {
        if !b.contains(k) {
            assert(s1.spec_info(k) == info);
        }
    }
    assert forall|k: ObjectKey| !a.union(b).contains(k) implies #[trigger] s2.spec_info(k)
        == s0.spec_info(k) by {
        assert(s1.spec_info(k) == s0.spec_info(k));
    }
    if a.union(b).is_empty() {
        assert(a =~= Set::<ObjectKey>::empty());
        assert(b =~= Set::<ObjectKey>::empty());
    }
    if !a.is_empty() {
        let x = a.choose();
        assert(a.union(b).contains(x));
    }
    if !b.is_empty() {
        let x = b.choose();
        assert(a.union(b).contains(x));
    }
}

/// The list of the items of a container.
pub trait ItemList: Sized {
    /// Whether the list can hold an object: it is of a kind the list keeps.
    spec fn spec_accepts(k: ObjectKey) -> bool;

    /// The objects listed.
    spec fn spec_members(&self) -> Set<ObjectKey>;

    /// The empty list.
    fn new_list() -> (r: Self)
        ensures
            r.spec_members() == Set::<ObjectKey>::empty(),
    ;

    /// A copy of the list.
    fn copy_list(&self) -> (r: Self)
        ensures
            r.spec_members() == self.spec_members(),
    ;

    /// Adds an object, when the list keeps objects of its kind.
    fn insert(&mut self, obj: &ObjectRef)
        ensures
            final(self).spec_members() == (if Self::spec_accepts(obj@) {
                old(self).spec_members().insert(obj@)
            } else {
                old(self).spec_members()
            }),
    ;

    /// Removes an object.
    fn remove(&mut self, obj: &ObjectRef)
        ensures
            final(self).spec_members() == old(self).spec_members().remove(obj@),
    ;

    /// Records `info` for every object listed; other records stay.
    fn set_item_info(&self, info: ItemInfo, store: &mut Store)
        ensures
            marks(*old(store), *final(store), self.spec_members(), info),
    ;

    /// The list holds only objects of the kinds it keeps.
    proof fn lemma_members_accepted(&self)
        ensures
            forall|k: ObjectKey| #[trigger] self.spec_members().contains(k) ==> Self::spec_accepts(k),
    ;
}

impl<K: StoreKey> ItemList for KeySet<K> {
    open spec fn spec_accepts(k: ObjectKey) -> bool {
        exists|kv: K::V| #[trigger] K::spec_object(kv) == k
    }

    open spec fn spec_members(&self) -> Set<ObjectKey> {
        objects_of::<K>(self@)
    }

    fn new_list() -> (r: Self) {
        let r = KeySet::<K>::new();
        assert(objects_of::<K>(r@) =~= Set::<ObjectKey>::empty());
        r
    }

    fn copy_list(&self) -> (r: Self) {
        self.duplicate()
    }

    fn insert(&mut self, obj: &ObjectRef) {
        match K::of_object(obj) {
            Some(k) => {
                let ghost kv = k@;
                KeySet::<K>::insert(self, k);
                assert(objects_of::<K>(self@) =~= objects_of::<K>(old(self)@).insert(obj@));
            },
            None => {
            },
        }
    }

    fn remove(&mut self, obj: &ObjectRef) {
        match K::of_object(obj) {
            Some(k) => {
                let ghost kv = k@;
                KeySet::<K>::remove(self, &k);
                assert forall|o: ObjectKey| #[trigger]
                    objects_of::<K>(self@).contains(o) == objects_of::<K>(old(self)@).remove(
                        obj@,
                    ).contains(o) by {
                    if objects_of::<K>(old(self)@).remove(obj@).contains(o) {
                        let w = choose|w: K::V| old(self)@.contains(w) && K::spec_object(w) == o;
                        K::lemma_object_injective(w, kv);
                        assert(self@.contains(w));
                    }
                    if objects_of::<K>(self@).contains(o) {
                        let w = choose|w: K::V| self@.contains(w) && K::spec_object(w) == o;
                        K::lemma_object_injective(w, kv);
                        assert(old(self)@.contains(w));
                    }
                }
                assert(objects_of::<K>(self@) =~= objects_of::<K>(old(self)@).remove(obj@));
            },
            None => {
                assert(objects_of::<K>(self@) =~= objects_of::<K>(old(self)@).remove(obj@));
            },
        }
    }

    fn set_item_info(&self, info: ItemInfo, store: &mut Store) {
        mark_all(self, info, store);
        proof {
            assert forall|k: ObjectKey| self.spec_members().contains(k) implies #[trigger] store.spec_info(
                k,
            ) == info by {
                let w = choose|w: K::V| self@.contains(w) && K::spec_object(w) == k;
            }
            if self@.is_empty() {
                assert(objects_of::<K>(self@) =~= Set::<ObjectKey>::empty());
            } else {
                let w = self@.choose();
                assert(objects_of::<K>(self@).contains(K::spec_object(w)));
            }
        }
    }

    proof fn lemma_members_accepted(&self) {
        assert forall|k: ObjectKey| #[trigger] self.spec_members().contains(k) implies Self::spec_accepts(
            k,
        ) by {
            let w = choose|w: K::V| self@.contains(w) && K::spec_object(w) == k;
        }
    }
}


// ----------------------------------------------------------------------------
// A container being stored
// ----------------------------------------------------------------------------

/// Where the items of a container are kept, below the store root: the
/// directory of its owner and then the option that selects the items.
pub open spec fn spec_container_location(owner: ObjectKey, option: Seq<char>) -> Seq<Seq<char>> {
    seq![spec_type_name(owner), spec_id_text(owner), option]
}

/// Where the items of a container are kept, below the store root.
pub fn container_location(owner: &ObjectRef, option: &str) -> (r: Vec<String>)
    ensures
        r@.map_values(|c: String| c@) == spec_container_location(owner@, option@),
{
    let mut r: Vec<String> = Vec::new();
    r.push(owner.kind_name());
    r.push(owner.id_text());
    r.push(option.to_owned());
    assert(r@.map_values(|c: String| c@) =~= spec_container_location(owner@, option@));
    r
}

/// The path, relative to its own directory, that the link of item `obj` in
/// a container at `location` points at: up to the store root, then down to
/// the item.
pub open spec fn link_target(location: Seq<Seq<char>>, obj: ObjectKey) -> Seq<Seq<char>> {
    Seq::new(location.len() + 1, |i: int| ".."@) + seq![spec_type_name(obj), spec_id_text(obj)]
}

/// The value of a container being stored: where it is, the items it lists,
/// and the items of its former list not seen again yet.
pub struct ContainerModel {
    pub location: Seq<Seq<char>>,
    pub items: Set<ObjectKey>,
    pub absent: Set<ObjectKey>,
}

/// A container after its item `obj` is seen: listed if the list keeps
/// objects of its kind, and no longer absent.
pub open spec fn link_step(m: ContainerModel, obj: ObjectKey, accepted: bool) -> ContainerModel {
    ContainerModel {
        location: m.location,
        items: if accepted {
            m.items.insert(obj)
        } else {
            m.items
        },
        absent: m.absent.remove(obj),
    }
}

/// A container after its items `objs` are seen, in order, with a list
/// that keeps the objects `accepts` holds of.
pub open spec fn link_all(
    m: ContainerModel,
    objs: Seq<ObjectKey>,
    accepts: spec_fn(ObjectKey) -> bool,
) -> ContainerModel
    decreases objs.len(),
{
    if objs.len() == 0 {
        m
    } else {
        let prev = link_all(m, objs.drop_last(), accepts);
        link_step(prev, objs.last(), accepts(objs.last()))
    }
}

/// The record of an object the server no longer has.
pub open spec fn gone_info() -> ItemInfo {
    ItemInfo { in_store: true, on_server: false }
}

/// A container of the store while it is stored again.
pub struct Container<L> {
    location: Vec<String>,
    item_list: L,
    absent_list: L,
}

impl<L: ItemList> View for Container<L> {
    type V = ContainerModel;

    closed spec fn view(&self) -> ContainerModel {
        ContainerModel {
            location: self.location@.map_values(|c: String| c@),
            items: self.item_list.spec_members(),
            absent: self.absent_list.spec_members(),
        }
    }
}

impl<L: ItemList> Container<L> {
    /// Starts storing a container at `location` whose former list of items
    /// is `item_list`: every item of it is absent until seen.
    pub fn open(location: Vec<String>, item_list: L) -> (r: Self)
        ensures
            r@.location == location@.map_values(|c: String| c@),
            r@.items == item_list.spec_members(),
            r@.absent == item_list.spec_members(),
    {
        let absent_list = item_list.copy_list();
        Container { location, item_list, absent_list }
    }

    /// Records that item `obj` is in the container, and gives the path its
    /// link is to point at, relative to the link's directory; no link is
    /// made where a file is already at the link's place (`link_exists`).
    /// Every object of a known kind has a link; objects of unknown kind are
    /// not `ObjectRef`s (see `AnyId::object_ref`) and get none.
    pub fn link_item(&mut self, obj: &ObjectRef, link_exists: bool) -> (r: Option<Vec<String>>)
        ensures
            final(self)@ == link_step(old(self)@, obj@, L::spec_accepts(obj@)),
            match r {
                Some(v) => !link_exists && v@.map_values(|c: String| c@) == link_target(
                    old(self)@.location,
                    obj@,
                ),
                None => link_exists,
            },
    {
        self.item_list.insert(obj);
        self.absent_list.remove(obj);
        if link_exists {
            return None;
        }
        let ghost loc = self.location@.map_values(|c: String| c@);
        let mut r: Vec<String> = Vec::new();
        r.push(String::from_str(".."));
        let mut i: usize = 0;
        while i < self.location.len()
            invariant
                0 <= i <= self.location@.len(),
                r@.len() == i + 1,
                forall|j: int| 0 <= j < r@.len() ==> #[trigger] r@[j]@ == ".."@,
            decreases self.location@.len() - i,
        {
            r.push(String::from_str(".."));
            i = i + 1;
        }
        r.push(obj.kind_name());
        r.push(obj.id_text());
        assert(r@.map_values(|c: String| c@) =~= link_target(loc, obj@));
        Some(r)
    }

    /// Records that the items of the former list not seen again are no
    /// longer on the server.
    pub fn mark_missing(&self, store: &mut Store)
        ensures
            marks(*old(store), *final(store), self@.absent, gone_info()),
            call_effect(
                *old(store),
                if self@.absent.is_empty() {
                    StoreCall::Keep
                } else {
                    StoreCall::Write
                },
                *final(store),
            ),
    {
        self.absent_list.set_item_info(ItemInfo { in_store: true, on_server: false }, store);
    }

    /// Ends storing the container, giving back its new list of items and
    /// its location.
    pub fn finish(self) -> (r: (L, Vec<String>))
        ensures
            r.0.spec_members() == self@.items,
            r.1@.map_values(|c: String| c@) == self@.location,
    {
        (self.item_list, self.location)
    }
}

/// Of the items a container listed, those marked as gone after a run are
/// exactly those not seen again in it; the new list holds the items seen
/// that the list keeps, and the former items.
pub proof fn lemma_link_all(
    m: ContainerModel,
    objs: Seq<ObjectKey>,
    accepts: spec_fn(ObjectKey) -> bool,
)
    ensures
        link_all(m, objs, accepts).location == m.location,
        forall|k: ObjectKey|
            #[trigger] link_all(m, objs, accepts).absent.contains(k) <==> (m.absent.contains(k)
                && !objs.contains(k)),
        forall|k: ObjectKey|
            #[trigger] link_all(m, objs, accepts).items.contains(k) <==> (m.items.contains(k) || (
            objs.contains(k) && accepts(k))),
    decreases objs.len(),
{
    if objs.len() > 0 {
        let init = objs.drop_last();
        lemma_link_all(m, init, accepts);
        assert forall|k: ObjectKey| #[trigger] objs.contains(k) <==> (init.contains(k) || k
            == objs.last()) by {
            if objs.contains(k) {
                let j = choose|j: int| 0 <= j < objs.len() && objs[j] == k;
                if j < objs.len() - 1 {
                    assert(init[j] == k);
                }
            }
            if init.contains(k) {
                let j = choose|j: int| 0 <= j < init.len() && init[j] == k;
                assert(objs[j] == k);
            }
        }
    }
}

/// Marking the missing items of a container after a run that saw the
/// items `objs`, the container opened on its former list `former`, records
/// as gone exactly the former items not seen again; every other record
/// stays.
pub proof fn lemma_mark_after_run(
    location: Seq<Seq<char>>,
    former: Set<ObjectKey>,
    objs: Seq<ObjectKey>,
    accepts: spec_fn(ObjectKey) -> bool,
    before: Store,
    after: Store,
)
    requires
        marks(
            before,
            after,
            link_all(ContainerModel { location, items: former, absent: former }, objs, accepts).absent,
            gone_info(),
        ),
    ensures
        forall|k: ObjectKey| former.contains(k) && !objs.contains(k) ==> #[trigger] after.spec_info(k) == gone_info(),
        forall|k: ObjectKey| !(former.contains(k) && !objs.contains(k)) ==> #[trigger] after.spec_info(k) == before.spec_info(k),
{
    lemma_link_all(ContainerModel { location, items: former, absent: former }, objs, accepts);
}

} // verus!
