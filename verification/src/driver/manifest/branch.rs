//! Linking a manifest: the directories it makes and the links it places.
use crate::driver::manifest::spec::{lemma_subs_decrease, names_ascending, Manifest, ManifestLeaf, UserOption};
use crate::store::{spec_id_text, spec_type_name, ObjectKey, ObjectRef, StoreKey};
use crate::util::key_map::KeyMap;
use vstd::prelude::*;

verus! {

/// What linking a manifest does, below its destination directory.
#[derive(Debug)]
pub enum LinkStep {
    /// Make this directory, when it does not exist.
    Dir(Vec<String>),
    /// Link `dir/name` to the stored object, when it does not exist.
    Link { dir: Vec<String>, name: String, object: ObjectRef },
}

/// The value of a link step.
pub enum LinkStepModel {
    Dir(Seq<Seq<char>>),
    Link { dir: Seq<Seq<char>>, name: Seq<char>, object: ObjectKey },
}

/// The values of a path given by components.
pub open spec fn path_model(v: Seq<String>) -> Seq<Seq<char>> {
    v.map_values(|c: String| c@)
}

impl View for LinkStep {
    type V = LinkStepModel;

    open spec fn view(&self) -> LinkStepModel {
        match self {
            LinkStep::Dir(d) => LinkStepModel::Dir(path_model(d@)),
            LinkStep::Link { dir, name, object } => LinkStepModel::Link {
                dir: path_model(dir@),
                name: name@,
                object: object@,
            },
        }
    }
}

/// The links of the objects of one kind of a leaf, in the order of its map:
/// each under the directory of its kind, named by its identifier.
pub open spec fn item_links<K: StoreKey, V>(s: Seq<(K, V)>, dir: Seq<Seq<char>>) -> Seq<LinkStepModel> {
    s.map_values(
        |e: (K, V)|
            LinkStepModel::Link {
                dir: dir.push(spec_type_name(K::spec_object(e.0@))),
                name: spec_id_text(K::spec_object(e.0@)),
                object: K::spec_object(e.0@),
            },
    )
}

/// The links of the users of a leaf: under `user`, named by URL token.
pub open spec fn user_links(s: Seq<(String, UserOption)>, dir: Seq<Seq<char>>) -> Seq<LinkStepModel> {
    s.map_values(
        |e: (String, UserOption)|
            LinkStepModel::Link {
                dir: dir.push("user"@),
                name: e.0@,
                object: ObjectKey::User(e.1.id@),
            },
    )
}

/// The links of a leaf below `dir`: everything goes under `zhihu.com`,
/// answers, articles, collections, columns, pins, questions, then users.
pub open spec fn leaf_links(l: ManifestLeaf, dir: Seq<Seq<char>>) -> Seq<LinkStepModel> {
    let d = dir.push("zhihu.com"@);
    item_links(l.answer.spec_entries(), d) + item_links(l.article.spec_entries(), d) + item_links(
        l.collection.spec_entries(),
        d,
    ) + item_links(l.column.spec_entries(), d) + item_links(l.pin.spec_entries(), d) + item_links(
        l.question.spec_entries(),
        d,
    ) + user_links(l.user.spec_entries(), d)
}

/// Whether `steps` hold the step `x`.
pub open spec fn has_step(steps: Seq<LinkStepModel>, x: LinkStepModel) -> bool {
    exists|k: int| 0 <= k < steps.len() && steps[k] == x
}

/// The link of the object `o` below `d`: under the directory of its kind,
/// named by its identifier.
pub open spec fn object_link(d: Seq<Seq<char>>, o: ObjectKey) -> LinkStepModel {
    LinkStepModel::Link { dir: d.push(spec_type_name(o)), name: spec_id_text(o), object: o }
}

proof fn lemma_has_step_concat(a: Seq<LinkStepModel>, b: Seq<LinkStepModel>)
    ensures
        forall|x: LinkStepModel| has_step(a, x) ==> #[trigger] has_step(a + b, x),
        forall|x: LinkStepModel| has_step(b, x) ==> #[trigger] has_step(a + b, x),
        forall|k: int| 0 <= k < (a + b).len() && (forall|j: int| 0 <= j < a.len() ==> a[j] is Link) && (
            forall|j: int| 0 <= j < b.len() ==> b[j] is Link) ==> #[trigger] (a + b)[k] is Link,
{
    assert forall|x: LinkStepModel| has_step(a, x) implies #[trigger] has_step(a + b, x) by {
        let k = choose|k: int| 0 <= k < a.len() && a[k] == x;
        assert((a + b)[k] == x);
    }
    assert forall|x: LinkStepModel| has_step(b, x) implies #[trigger] has_step(a + b, x) by {
        let k = choose|k: int| 0 <= k < b.len() && b[k] == x;
        assert((a + b)[a.len() + k] == x);
    }
}

/// Every object that a leaf lists gets exactly one step, a link: the
/// steps of a leaf are as many as its answers, articles, collections,
/// columns, pins, questions and users together, all links, and each listed
/// object is linked under `dir/zhihu.com`, in the directory of its kind,
/// named by its identifier (a user by the URL token it is listed under).
pub proof fn lemma_leaf_links(l: ManifestLeaf, dir: Seq<Seq<char>>)
    ensures
        leaf_links(l, dir).len() == l.answer.spec_entries().len() + l.article.spec_entries().len()
            + l.collection.spec_entries().len() + l.column.spec_entries().len()
            + l.pin.spec_entries().len() + l.question.spec_entries().len()
            + l.user.spec_entries().len(),
        forall|k: int| 0 <= k < leaf_links(l, dir).len() ==> #[trigger] leaf_links(l, dir)[k] is Link,
        forall|i: int| 0 <= i < l.answer.spec_entries().len() ==> has_step(leaf_links(l, dir),
            object_link(dir.push("zhihu.com"@), ObjectKey::Answer(#[trigger] l.answer.spec_entries()[i].0@))),
        forall|i: int| 0 <= i < l.article.spec_entries().len() ==> has_step(leaf_links(l, dir),
            object_link(dir.push("zhihu.com"@), ObjectKey::Article(#[trigger] l.article.spec_entries()[i].0@))),
        forall|i: int| 0 <= i < l.collection.spec_entries().len() ==> has_step(leaf_links(l, dir),
            object_link(dir.push("zhihu.com"@), ObjectKey::Collection(#[trigger] l.collection.spec_entries()[i].0@))),
        forall|i: int| 0 <= i < l.column.spec_entries().len() ==> has_step(leaf_links(l, dir),
            object_link(dir.push("zhihu.com"@), ObjectKey::Column(#[trigger] l.column.spec_entries()[i].0@))),
        forall|i: int| 0 <= i < l.pin.spec_entries().len() ==> has_step(leaf_links(l, dir),
            object_link(dir.push("zhihu.com"@), ObjectKey::Pin(#[trigger] l.pin.spec_entries()[i].0@))),
        forall|i: int| 0 <= i < l.question.spec_entries().len() ==> has_step(leaf_links(l, dir),
            object_link(dir.push("zhihu.com"@), ObjectKey::Question(#[trigger] l.question.spec_entries()[i].0@))),
        forall|i: int| 0 <= i < l.user.spec_entries().len() ==> has_step(leaf_links(l, dir),
            LinkStepModel::Link {
                dir: dir.push("zhihu.com"@).push("user"@),
                name: (#[trigger] l.user.spec_entries()[i]).0@,
                object: ObjectKey::User(l.user.spec_entries()[i].1.id@),
            }),
{
    let d = dir.push("zhihu.com"@);
    let a0 = item_links(l.answer.spec_entries(), d);
    let a1 = item_links(l.article.spec_entries(), d);
    let a2 = item_links(l.collection.spec_entries(), d);
    let a3 = item_links(l.column.spec_entries(), d);
    let a4 = item_links(l.pin.spec_entries(), d);
    let a5 = item_links(l.question.spec_entries(), d);
    let a6 = user_links(l.user.spec_entries(), d);
    assert forall|i: int| 0 <= i < l.answer.spec_entries().len() implies has_step(a0, object_link(d, ObjectKey::Answer(#[trigger] l.answer.spec_entries()[i].0@))) by { assert(a0[i] == object_link(d, ObjectKey::Answer(l.answer.spec_entries()[i].0@))); }
    assert forall|i: int| 0 <= i < l.article.spec_entries().len() implies has_step(a1, object_link(d, ObjectKey::Article(#[trigger] l.article.spec_entries()[i].0@))) by { assert(a1[i] == object_link(d, ObjectKey::Article(l.article.spec_entries()[i].0@))); }
    assert forall|i: int| 0 <= i < l.collection.spec_entries().len() implies has_step(a2, object_link(d, ObjectKey::Collection(#[trigger] l.collection.spec_entries()[i].0@))) by { assert(a2[i] == object_link(d, ObjectKey::Collection(l.collection.spec_entries()[i].0@))); }
    assert forall|i: int| 0 <= i < l.column.spec_entries().len() implies has_step(a3, object_link(d, ObjectKey::Column(#[trigger] l.column.spec_entries()[i].0@))) by { assert(a3[i] == object_link(d, ObjectKey::Column(l.column.spec_entries()[i].0@))); }
    assert forall|i: int| 0 <= i < l.pin.spec_entries().len() implies has_step(a4, object_link(d, ObjectKey::Pin(#[trigger] l.pin.spec_entries()[i].0@))) by { assert(a4[i] == object_link(d, ObjectKey::Pin(l.pin.spec_entries()[i].0@))); }
    assert forall|i: int| 0 <= i < l.question.spec_entries().len() implies has_step(a5, object_link(d, ObjectKey::Question(#[trigger] l.question.spec_entries()[i].0@))) by { assert(a5[i] == object_link(d, ObjectKey::Question(l.question.spec_entries()[i].0@))); }
    assert forall|i: int| 0 <= i < l.user.spec_entries().len() implies has_step(a6, LinkStepModel::Link {
                dir: d.push("user"@),
                name: (#[trigger] l.user.spec_entries()[i]).0@,
                object: ObjectKey::User(l.user.spec_entries()[i].1.id@),
            }) by { assert(a6[i] == LinkStepModel::Link { dir: d.push("user"@), name: l.user.spec_entries()[i].0@, object: ObjectKey::User(l.user.spec_entries()[i].1.id@) }); }
    lemma_has_step_concat(a0, a1);
    lemma_has_step_concat(a0 + a1, a2);
    lemma_has_step_concat(a0 + a1 + a2, a3);
    lemma_has_step_concat(a0 + a1 + a2 + a3, a4);
    lemma_has_step_concat(a0 + a1 + a2 + a3 + a4, a5);
    lemma_has_step_concat(a0 + a1 + a2 + a3 + a4 + a5, a6);
    assert(leaf_links(l, dir) == a0 + a1 + a2 + a3 + a4 + a5 + a6);
}

/// `acc` followed by the steps of linking `m` at `dir`: a branch makes the
/// directory of each sub-manifest before linking it, in order.
pub open spec fn link_into(m: Manifest, dir: Seq<Seq<char>>, acc: Seq<LinkStepModel>) -> Seq<
    LinkStepModel,
>
    decreases m, 1int,
{
    match m {
        Manifest::Leaf(l) => acc + leaf_links(l, dir),
        Manifest::Branch(b) => {
            proof {
                lemma_subs_decrease(m);
            }
            link_all(b.subs(), dir, acc, 0)
        },
    }
}

/// `acc` followed by the steps of linking the sub-manifests `s[i..]`.
pub open spec fn link_all(
    s: Seq<(String, Manifest)>,
    dir: Seq<Seq<char>>,
    acc: Seq<LinkStepModel>,
    i: int,
) -> Seq<LinkStepModel>
    decreases s, 0int, s.len() - i,
{
    if 0 <= i < s.len() {
        let d = dir.push(s[i].0@);
        link_all(s, dir, link_into(s[i].1, d, acc.push(LinkStepModel::Dir(d))), i + 1)
    } else {
        acc
    }
}

/// A copy of a path.
fn copy_path(v: &Vec<String>) -> (r: Vec<String>)
    ensures
        path_model(r@) == path_model(v@),
{
    let mut r: Vec<String> = Vec::new();
    let mut i: usize = 0;
    while i < v.len()
        invariant
            0 <= i <= v@.len(),
            path_model(r@) == path_model(v@.subrange(0, i as int)),
        decreases v@.len() - i,
    {
        r.push(v[i].clone());
        proof {
            assert(path_model(v@.subrange(0, i + 1)) =~= path_model(v@.subrange(0, i as int)).push(
                v@[i as int]@,
            ));
            assert(path_model(r@) =~= path_model(v@.subrange(0, i as int)).push(v@[i as int]@));
        }
        i = i + 1;
    }
    assert(v@.subrange(0, v@.len() as int) =~= v@);
    r
}

/// A path with one more component.
fn joined(v: &Vec<String>, c: String) -> (r: Vec<String>)
    ensures
        path_model(r@) == path_model(v@).push(c@),
{
    let mut r = copy_path(v);
    r.push(c);
    assert(path_model(r@) =~= path_model(v@).push(c@));
    r
}

fn push_step(out: &mut Vec<LinkStep>, s: LinkStep)
    ensures
        final(out)@.map_values(|x: LinkStep| x@) == old(out)@.map_values(|x: LinkStep| x@).push(s@),
{
    out.push(s);
    assert(out@.map_values(|x: LinkStep| x@) =~= old(out)@.map_values(|x: LinkStep| x@).push(s@));
}

fn push_item_links<K: StoreKey, V>(m: &KeyMap<K, V>, dir: &Vec<String>, out: &mut Vec<LinkStep>)
    ensures
        final(out)@.map_values(|x: LinkStep| x@) == old(out)@.map_values(|x: LinkStep| x@) + item_links(
            m.spec_entries(),
            path_model(dir@),
        ),
        m.in_key_order(),
{
    let entries = m.entries();
    let ghost start = out@.map_values(|x: LinkStep| x@);
    let mut i: usize = 0;
    while i < entries.len()
        invariant
            0 <= i <= entries@.len(),
            entries@ == m.spec_entries(),
            out@.map_values(|x: LinkStep| x@) == start + item_links(
                entries@.subrange(0, i as int),
                path_model(dir@),
            ),
        decreases entries@.len() - i,
    {
        let object = entries[i].0.object_ref();
        let name = object.id_text();
        let d = joined(dir, object.kind_name());
        let step = LinkStep::Link { dir: d, name, object };
        proof {
            assert(item_links(entries@.subrange(0, i + 1), path_model(dir@)) =~= item_links(
                entries@.subrange(0, i as int),
                path_model(dir@),
            ).push(step@));
        }
        push_step(out, step);
        i = i + 1;
    }
    assert(entries@.subrange(0, entries@.len() as int) =~= entries@);
}

fn push_leaf_links(l: &ManifestLeaf, dir: &Vec<String>, out: &mut Vec<LinkStep>)
    ensures
        final(out)@.map_values(|x: LinkStep| x@) == old(out)@.map_values(|x: LinkStep| x@) + leaf_links(
            *l,
            path_model(dir@),
        ),
{
    let ghost start = out@.map_values(|x: LinkStep| x@);
    let d = joined(dir, String::from_str("zhihu.com"));
    push_item_links(&l.answer, &d, out);
    push_item_links(&l.article, &d, out);
    push_item_links(&l.collection, &d, out);
    push_item_links(&l.column, &d, out);
    push_item_links(&l.pin, &d, out);
    push_item_links(&l.question, &d, out);
    let entries = l.user.entries();
    let ghost mid = out@.map_values(|x: LinkStep| x@);
    let mut i: usize = 0;
    while i < entries.len()
        invariant
            0 <= i <= entries@.len(),
            entries@ == l.user.spec_entries(),
            out@.map_values(|x: LinkStep| x@) == mid + user_links(
                entries@.subrange(0, i as int),
                path_model(d@),
            ),
        decreases entries@.len() - i,
    {
        let (token, opt) = &entries[i];
        let step = LinkStep::Link {
            dir: joined(&d, String::from_str("user")),
            name: token.clone(),
            object: ObjectRef::User(opt.id),
        };
        proof {
            assert(user_links(entries@.subrange(0, i + 1), path_model(d@)) =~= user_links(
                entries@.subrange(0, i as int),
                path_model(d@),
            ).push(step@));
        }
        push_step(out, step);
        i = i + 1;
    }
    assert(entries@.subrange(0, entries@.len() as int) =~= entries@);
    assert(out@.map_values(|x: LinkStep| x@) =~= start + leaf_links(*l, path_model(dir@)));
}

fn push_link_steps(manifest: &Manifest, dir: &Vec<String>, out: &mut Vec<LinkStep>)
    ensures
        final(out)@.map_values(|x: LinkStep| x@) == link_into(
            *manifest,
            path_model(dir@),
            old(out)@.map_values(|x: LinkStep| x@),
        ),
    decreases manifest,
{
    match manifest {
        Manifest::Leaf(l) => push_leaf_links(l, dir, out),
        Manifest::Branch(br) => {
            let b = br.entries();
            let ghost start = out@.map_values(|x: LinkStep| x@);
            let mut i: usize = 0;
            while i < b.len()
                invariant
                    0 <= i <= b@.len(),
                    link_all(b@, path_model(dir@), start, 0) == link_all(
                        b@,
                        path_model(dir@),
                        out@.map_values(|x: LinkStep| x@),
                        i as int,
                    ),
                    *manifest == Manifest::Branch(*br),
                    b@ == br.subs(),
                decreases b@.len() - i,
            {
                proof {
                    lemma_subs_decrease(*manifest);
                    let v = b@[i as int];
                    assert(decreases_to!(b@ => v));
                    assert(decreases_to!(v => v.1));
                }
                let d = joined(dir, b[i].0.clone());
                push_step(out, LinkStep::Dir(copy_path(&d)));
                push_link_steps(&b[i].1, &d, out);
                i = i + 1;
            }
        },
    }
}

impl Manifest {
    /// What linking the manifest below its destination does, in order: a
    /// branch makes the directory of each sub-manifest, in ascending order
    /// of the names, and links it there; a leaf links each of its objects
    /// (see `leaf_links`).
    pub fn link_steps(&self) -> (r: Vec<LinkStep>)
        ensures
            r@.map_values(|x: LinkStep| x@) == link_into(*self, seq![], seq![]),
            self is Branch ==> names_ascending(self->Branch_0.subs()),
    {
        let mut r: Vec<LinkStep> = Vec::new();
        let base: Vec<String> = Vec::new();
        assert(path_model(base@) =~= Seq::<Seq<char>>::empty());
        assert(r@.map_values(|x: LinkStep| x@) =~= Seq::<LinkStepModel>::empty());
        if let Manifest::Branch(b) = self {
            let _ = b.entries();
        }
        push_link_steps(self, &base, &mut r);
        r
    }
}

} // verus!
