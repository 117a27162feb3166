//! Storing the items of a container fetched from the site.
use crate::store::container::{
    container_location, link_all, link_target, spec_container_location, Container, ContainerModel,
    ItemList,
};
use crate::store::info::ContainerOption;
use crate::store::{kind_has_container, ObjectKey, ObjectRef, Store};
use crate::util::key_map::MapKey;
use vstd::prelude::*;

verus! {

/// Whether an item fetched with a container still has to be fetched in
/// full and stored: it is not in the store yet.
pub fn needs_processing(store: &Store, item: &ObjectRef) -> (r: bool)
    ensures
        r == !store.spec_info(item@).in_store,
{
    !store.in_store(item).in_store
}

/// The container that a run starts from: at its place in the store, with
/// its former list, all of it absent.
pub open spec fn initial_container(location: Seq<Seq<char>>, former: Set<ObjectKey>) -> ContainerModel {
    ContainerModel { location, items: former, absent: former }
}

/// Records a container of `owner`, selected by `option` and kept under the
/// name `option_name`, once its items `items` (in order) are stored: the
/// former list `former` gains the items the list keeps, and the store
/// records the container as stored. Gives back the new list, the place of
/// the container below the store root, and for each item the path its link
/// is to point at, relative to the link's directory, or none where a file
/// is already at the link's place (`existing`, one per item).
pub fn store_container<L: ItemList>(
    store: &mut Store,
    owner: &ObjectRef,
    option: ContainerOption,
    option_name: &str,
    former: L,
    items: &Vec<ObjectRef>,
    existing: &Vec<bool>,
) -> (r: (L, Vec<String>, Vec<Option<Vec<String>>>))
    requires
        existing@.len() == items@.len(),
    ensures
        ({
            let loc = spec_container_location(owner@, option_name@);
            let objs = items@.map_values(|o: ObjectRef| o@);
            let after = link_all(
                initial_container(loc, former.spec_members()),
                objs,
                |k: ObjectKey| L::spec_accepts(k),
            );
            &&& r.0.spec_members() == after.items
            &&& r.1@.map_values(|c: String| c@) == loc
            &&& r.2@.len() == items@.len()
            &&& forall|j: int|
                0 <= j < items@.len() ==> match #[trigger] r.2@[j] {
                    Some(v) => !existing@[j] && v@.map_values(|c: String| c@) == link_target(loc, items@[j]@),
                    None => existing@[j],
                }
        }),
        final(store).spec_container_stored(owner@, option) == kind_has_container(owner@, option),
        forall|k: ObjectKey, p: ContainerOption|
            !(k == owner@ && p == option) ==> #[trigger] final(store).spec_container_stored(k, p)
                == old(store).spec_container_stored(k, p),
        forall|k: ObjectKey| #[trigger] final(store).spec_info(k) == old(store).spec_info(k),
        final(store).spec_dirty(),
        final(store).spec_version() == old(store).spec_version(),
        final(store).spec_root() == old(store).spec_root(),
{
    let location = container_location(owner, option_name);
    let ghost loc = spec_container_location(owner@, option_name@);
    let ghost objs = items@.map_values(|o: ObjectRef| o@);
    let ghost acc = |k: ObjectKey| L::spec_accepts(k);
    let ghost m0 = initial_container(loc, former.spec_members());
    let mut container = Container::open(location, former);
    let mut links: Vec<Option<Vec<String>>> = Vec::new();
    let mut i: usize = 0;
    while i < items.len()
        invariant
            0 <= i <= items@.len(),
            objs == items@.map_values(|o: ObjectRef| o@),
            acc == (|k: ObjectKey| L::spec_accepts(k)),
            container@ == link_all(m0, objs.subrange(0, i as int), acc),
            container@.location == loc,
            links@.len() == i,
            existing@.len() == items@.len(),
            forall|j: int|
                0 <= j < i ==> match #[trigger] links@[j] {
                    Some(v) => !existing@[j] && v@.map_values(|c: String| c@) == link_target(loc, items@[j]@),
                    None => existing@[j],
                },
        decreases items@.len() - i,
    {
        let ghost before = container@;
        let target = container.link_item(&items[i], existing[i]);
        proof {
            assert(objs.subrange(0, i + 1).drop_last() =~= objs.subrange(0, i as int));
            assert(objs.subrange(0, i + 1).last() == items@[i as int]@);
        }
        links.push(target);
        i = i + 1;
    }
    proof {
        assert(objs.subrange(0, items@.len() as int) =~= objs);
    }
    let (list, location) = container.finish();
    store.add_container_info(owner, option);
    (list, location, links)
}

/// Whether two objects are the same.
fn same_object(a: &ObjectRef, b: &ObjectRef) -> (r: bool)
    ensures
        r == (a@ == b@),
{
    match (a, b) {
        (ObjectRef::Answer(x), ObjectRef::Answer(y)) => x.key_eq(y),
        (ObjectRef::Article(x), ObjectRef::Article(y)) => x.key_eq(y),
        (ObjectRef::Collection(x), ObjectRef::Collection(y)) => x.key_eq(y),
        (ObjectRef::Column(x), ObjectRef::Column(y)) => x.key_eq(y),
        (ObjectRef::Comment(x), ObjectRef::Comment(y)) => x.key_eq(y),
        (ObjectRef::Pin(x), ObjectRef::Pin(y)) => x.key_eq(y),
        (ObjectRef::Question(x), ObjectRef::Question(y)) => x.key_eq(y),
        (ObjectRef::User(x), ObjectRef::User(y)) => x.key_eq(y),
        _ => false,
    }
}

/// Whether the item at place `j` of a run over fetched items is processed
/// (fetched in full, saved and its pictures stored): it was not in the
/// store when the run began, and no earlier item of the run is the same
/// object (once processed, an item is in the store).
pub open spec fn spec_processed(store: Store, items: Seq<ObjectKey>, j: int) -> bool {
    &&& !store.spec_info(items[j]).in_store
    &&& forall|i: int| 0 <= i < j ==> items[i] != items[j]
}

/// The run over the items fetched for a container, in fetch order, given
/// for each item whether processing it succeeded (`ok`, read only for the
/// items that are processed). Where every processed item succeeded, the
/// run yields for each item whether it was processed, and the container's
/// list is written next. Otherwise the run stops at the first processed
/// item that failed, gives its place, and the list is not written; items
/// processed before it stay saved.
pub fn container_run(store: &Store, items: &Vec<ObjectRef>, ok: &Vec<bool>) -> (r: Result<
    Vec<bool>,
    usize,
>)
    requires
        ok@.len() == items@.len(),
    ensures
        ({
            let s = items@.map_values(|o: ObjectRef| o@);
            match r {
                Ok(p) => p@.len() == items@.len() && forall|j: int|
                    0 <= j < items@.len() ==> #[trigger] p@[j] == spec_processed(*store, s, j)
                        && (p@[j] ==> ok@[j]),
                Err(j) => j < items@.len() && spec_processed(*store, s, j as int) && !ok@[j as int]
                    && forall|i: int|
                    0 <= i < j ==> #[trigger] spec_processed(*store, s, i) ==> ok@[i],
            }
        }),
{
    let ghost s = items@.map_values(|o: ObjectRef| o@);
    let mut p: Vec<bool> = Vec::new();
    let mut j: usize = 0;
    while j < items.len()
        invariant
            s == items@.map_values(|o: ObjectRef| o@),
            ok@.len() == items@.len(),
            0 <= j <= items@.len(),
            p@.len() == j,
            forall|i: int|
                0 <= i < j ==> #[trigger] p@[i] == spec_processed(*store, s, i) && (p@[i] ==> ok@[i]),
        decreases items@.len() - j,
    {
        let mut first = true;
        let mut i: usize = 0;
        while i < j
            invariant
                s == items@.map_values(|o: ObjectRef| o@),
                0 <= i <= j < items@.len(),
                first == forall|x: int| 0 <= x < i ==> s[x] != s[j as int],
            decreases j - i,
        {
            assert(s[i as int] == items@[i as int]@ && s[j as int] == items@[j as int]@);
            if same_object(&items[i], &items[j]) {
                first = false;
            }
            assert(first == forall|x: int| 0 <= x < i + 1 ==> s[x] != s[j as int]) by {
                if !first {
                    assert(!(forall|x: int| 0 <= x < i + 1 ==> s[x] != s[j as int])) by {
                        if s[i as int] == s[j as int] {
                            assert(!(s[i as int] != s[j as int]));
                        }
                    }
                }
            }
            i = i + 1;
        }
        let processed = first && needs_processing(store, &items[j]);
        if processed && !ok[j] {
            proof {
                assert forall|x: int| 0 <= x < j && #[trigger] spec_processed(*store, s, x) implies ok@[x] by {
                    assert(p@[x] == spec_processed(*store, s, x));
                }
            }
            return Err(j);
        }
        p.push(processed);
        j = j + 1;
    }
    Ok(p)
}

} // verus!
