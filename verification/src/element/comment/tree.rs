//! Comment threads: the reply tree built from a flat list of comments, and
//! the list read back from the tree.
//!
//! A comment whose parent is `None` starts a thread; the replies to a comment
//! are the comments whose parent is its id, in the order of the list.
use crate::element::comment::CommentId;
use vstd::prelude::*;

verus! {

/// Where a comment stands in its thread: its id and its parent's id.
#[derive(Debug, Clone, Copy)]
pub struct CommentInfo {
    pub id: CommentId,
    pub parent_id: Option<CommentId>,
}

impl CommentInfo {
    /// The place of a comment as raw data gives it: its id, and the id of
    /// the comment it replies to, where `0` stands for none (the comment
    /// starts a thread).
    pub fn from_raw(id: u64, reply_comment_id: u64) -> (r: CommentInfo)
        ensures
            r.id == CommentId(id),
            r.parent_id == (if reply_comment_id == 0 {
                None
            } else {
                Some(CommentId(reply_comment_id))
            }),
    {
        CommentInfo {
            id: CommentId(id),
            parent_id: if reply_comment_id == 0 {
                None
            } else {
                Some(CommentId(reply_comment_id))
            },
        }
    }
}

/// A comment: its place in the thread, and what else it carries.
#[derive(Debug)]
pub struct Comment<T> {
    pub info: CommentInfo,
    pub content: T,
}

/// A comment with the replies to it.
#[derive(Debug)]
pub struct CommentTree<T> {
    pub node: Comment<T>,
    pub child: Vec<CommentTree<T>>,
}

/// The thread information of each comment of a list.
pub open spec fn infos<T>(cs: Seq<Comment<T>>) -> Seq<CommentInfo> {
    cs.map_values(|c: Comment<T>| c.info)
}

/// The positions, in increasing order, of the comments whose parent is `p`.
pub open spec fn replies_to(s: Seq<CommentInfo>, p: Option<CommentId>) -> Seq<int>
    decreases s.len(),
{
    if s.len() == 0 {
        seq![]
    } else {
        let rest = replies_to(s.drop_last(), p);
        if s.last().parent_id == p {
            rest.push(s.len() - 1)
        } else {
            rest
        }
    }
}

/// The position of the last comment with id `x`, or -1 where there is none.
pub open spec fn last_with(s: Seq<CommentInfo>, x: CommentId) -> int
    decreases s.len(),
{
    if s.len() == 0 {
        -1
    } else if s.last().id == x {
        s.len() - 1
    } else {
        last_with(s.drop_last(), x)
    }
}

/// The ids met in a depth-first walk of the replies to `p`, going at most
/// `depth` levels down: each reply's id, then the ids below it.
pub open spec fn visits(s: Seq<CommentInfo>, p: Option<CommentId>, depth: nat) -> Seq<CommentId>
    decreases depth, 1nat, 0nat,
{
    if depth == 0 {
        seq![]
    } else {
        visits_from(s, replies_to(s, p), depth)
    }
}

/// The ids met in a depth-first walk of the comments at positions `ks` and
/// the replies below them, going at most `depth` levels down.
pub open spec fn visits_from(s: Seq<CommentInfo>, ks: Seq<int>, depth: nat) -> Seq<CommentId>
    decreases depth, 0nat, ks.len(),
{
    if ks.len() == 0 || depth == 0 {
        seq![]
    } else {
        let x = s[ks[0]].id;
        seq![x] + visits(s, Some(x), (depth - 1) as nat) + visits_from(s, ks.drop_first(), depth)
    }
}

/// Whether `ts` is the forest of replies to `p` in `cs`, `depth` levels
/// deep: one tree per reply, in order; its node the last comment of the
/// list with the reply's id, its children the replies to that id.
pub open spec fn is_thread<T>(
    cs: Seq<Comment<T>>,
    p: Option<CommentId>,
    depth: nat,
    ts: Seq<CommentTree<T>>,
) -> bool
    decreases depth,
{
    let s = infos(cs);
    let ks = replies_to(s, p);
    if depth == 0 {
        ts.len() == 0
    } else {
        &&& ts.len() == ks.len()
        &&& forall|k: int|
            #![trigger ts[k]]
            0 <= k < ts.len() ==> {
                let x = s[ks[k]].id;
                &&& ts[k].node == cs[last_with(s, x)]
                &&& is_thread(cs, Some(x), (depth - 1) as nat, ts[k].child@)
            }
    }
}

/// A list without repeats splits into two lists without repeats that have
/// no element in common.
proof fn lemma_no_dup_split<A>(a: Seq<A>, b: Seq<A>)
    requires
        (a + b).no_duplicates(),
    ensures
        a.no_duplicates(),
        b.no_duplicates(),
        forall|y: A| a.contains(y) ==> !b.contains(y),
{
    assert forall|i: int, j: int| 0 <= i < a.len() && 0 <= j < a.len() && i != j implies a[i]
        != a[j] by {
        assert((a + b)[i] == a[i] && (a + b)[j] == a[j]);
    }
    assert forall|i: int, j: int| 0 <= i < b.len() && 0 <= j < b.len() && i != j implies b[i]
        != b[j] by {
        assert((a + b)[a.len() + i] == b[i] && (a + b)[a.len() + j] == b[j]);
    }
    assert forall|y: A| a.contains(y) implies !b.contains(y) by {
        if b.contains(y) {
            let i = choose|i: int| 0 <= i < a.len() && a[i] == y;
            let j = choose|j: int| 0 <= j < b.len() && b[j] == y;
            assert((a + b)[i] == (a + b)[a.len() + j]);
        }
    }
}

/// `last_with` is -1 or the position of the last comment with the id.
proof fn lemma_last_with(s: Seq<CommentInfo>, x: CommentId)
    ensures
        -1 <= last_with(s, x) < s.len(),
        last_with(s, x) >= 0 ==> s[last_with(s, x)].id == x,
        forall|i: int| 0 <= i < s.len() && s[i].id == x ==> i <= last_with(s, x),
    decreases s.len(),
{
    if s.len() > 0 {
        lemma_last_with(s.drop_last(), x);
        assert forall|i: int| 0 <= i < s.len() && s[i].id == x implies i <= last_with(s, x) by {
            if i < s.len() - 1 {
                assert(s.drop_last()[i] == s[i]);
            }
        }
    }
}

/// The replies to `p` are positions of the list, in increasing order, of
/// comments whose parent is `p`.
proof fn lemma_replies_to(s: Seq<CommentInfo>, p: Option<CommentId>)
    ensures
        forall|k: int|
            #![trigger replies_to(s, p)[k]]
            0 <= k < replies_to(s, p).len() ==> 0 <= replies_to(s, p)[k] < s.len()
                && s[replies_to(s, p)[k]].parent_id == p,
        forall|j: int, k: int|
            0 <= j < k < replies_to(s, p).len() ==> replies_to(s, p)[j] < replies_to(s, p)[k],
    decreases s.len(),
{
    if s.len() > 0 {
        lemma_replies_to(s.drop_last(), p);
    }
}

/// Every id met in a walk is the id of a comment of the list.
proof fn lemma_visits_known(s: Seq<CommentInfo>, p: Option<CommentId>, depth: nat)
    ensures
        forall|x: CommentId| #[trigger] visits(s, p, depth).contains(x) ==> last_with(s, x) >= 0,
    decreases depth, 1nat, 0nat,
{
    if depth > 0 {
        lemma_replies_to(s, p);
        lemma_visits_from_known(s, replies_to(s, p), depth);
        assert(visits(s, p, depth) == visits_from(s, replies_to(s, p), depth));
    }
}

/// Every id met in a walk from positions of the list is the id of a comment
/// of the list.
proof fn lemma_visits_from_known(s: Seq<CommentInfo>, ks: Seq<int>, depth: nat)
    requires
        forall|k: int| 0 <= k < ks.len() ==> 0 <= #[trigger] ks[k] < s.len(),
    ensures
        forall|x: CommentId| #[trigger] visits_from(s, ks, depth).contains(x) ==> last_with(s, x)
            >= 0,
    decreases depth, 0nat, ks.len(),
{
    broadcast use vstd::seq_lib::lemma_seq_concat_contains_all_elements;

    if ks.len() > 0 && depth > 0 {
        let x = s[ks[0]].id;
        lemma_last_with(s, x);
        lemma_visits_known(s, Some(x), (depth - 1) as nat);
        lemma_visits_from_known(s, ks.drop_first(), depth);
        let below = visits(s, Some(x), (depth - 1) as nat);
        let rest = visits_from(s, ks.drop_first(), depth);
        assert(visits_from(s, ks, depth) == seq![x] + below + rest);
        assert forall|y: CommentId| #[trigger] visits_from(s, ks, depth).contains(y) implies last_with(
            s,
            y,
        ) >= 0 by {
            assert((seq![x] + below + rest).contains(y));
            if seq![x].contains(y) {
                assert(y == x);
            }
        }
    }
}

/// The comments of a forest in depth-first order: each tree's node, then
/// the comments below it, tree after tree.
pub open spec fn preorder<T>(ts: Seq<CommentTree<T>>) -> Seq<Comment<T>>
    decreases ts,
{
    if ts.len() == 0 {
        seq![]
    } else {
        seq![ts[0].node] + preorder(ts[0].child@) + preorder(ts.drop_first())
    }
}

/// Appending a tree to a forest appends its node and the comments below it.
proof fn lemma_preorder_push<T>(ts: Seq<CommentTree<T>>, t: CommentTree<T>)
    ensures
        preorder(ts.push(t)) == preorder(ts) + seq![t.node] + preorder(t.child@),
    decreases ts.len(),
{
    if ts.len() == 0 {
        assert(ts.push(t).drop_first() =~= Seq::<CommentTree<T>>::empty());
        assert(preorder(Seq::<CommentTree<T>>::empty()) =~= seq![]);
    } else {
        assert(ts.push(t).drop_first() =~= ts.drop_first().push(t));
        lemma_preorder_push(ts.drop_first(), t);
    }
}

/// Whether two optional ids are equal.
fn same_parent(a: Option<CommentId>, b: Option<CommentId>) -> (r: bool)
    ensures
        r == (a == b),
{
    match (a, b) {
        (Some(x), Some(y)) => x.0 == y.0,
        (None, None) => true,
        _ => false,
    }
}

/// The positions of the replies to `p`, in order.
fn replies(s: &Vec<CommentInfo>, p: Option<CommentId>) -> (r: Vec<usize>)
    ensures
        r@.map_values(|i: usize| i as int) == replies_to(s@, p),
{
    let mut r: Vec<usize> = Vec::new();
    let mut i: usize = 0;
    while i < s.len()
        invariant
            0 <= i <= s@.len(),
            r@.map_values(|i: usize| i as int) == replies_to(s@.subrange(0, i as int), p),
        decreases s@.len() - i,
    {
        let ghost pre = s@.subrange(0, i as int);
        assert(s@.subrange(0, i + 1).drop_last() =~= pre);
        if same_parent(s[i].parent_id, p) {
            r.push(i);
            assert(r@.map_values(|i: usize| i as int) =~= replies_to(pre, p).push(i as int));
        }
        i = i + 1;
    }
    assert(s@.subrange(0, s@.len() as int) =~= s@);
    r
}

/// The position of the last comment with id `x`.
fn last_index(s: &Vec<CommentInfo>, x: CommentId) -> (r: usize)
    requires
        last_with(s@, x) >= 0,
    ensures
        r == last_with(s@, x),
{
    let mut i: usize = s.len();
    assert(s@.subrange(0, i as int) =~= s@);
    while i > 0
        invariant
            0 <= i <= s@.len(),
            last_with(s@, x) == last_with(s@.subrange(0, i as int), x),
        decreases i,
    {
        assert(s@.subrange(0, i as int).drop_last() =~= s@.subrange(0, i - 1));
        if s[i - 1].id.0 == x.0 {
            return i - 1;
        }
        i = i - 1;
    }
    0
}

/// Builds the forest of replies to `p`, `depth` levels deep, taking each
/// node out of `slots` at the position of the last comment with its id.
/// Only the slots of comments whose id the walk meets are taken.
fn build_thread<T>(
    s: &Vec<CommentInfo>,
    slots: &mut Vec<Option<Comment<T>>>,
    p: Option<CommentId>,
    depth: usize,
    Ghost(cs): Ghost<Seq<Comment<T>>>,
) -> (r: Vec<CommentTree<T>>)
    requires
        s@ == infos(cs),
        old(slots)@.len() == cs.len(),
        visits(s@, p, depth as nat).no_duplicates(),
        forall|x: CommentId| #[trigger]
            visits(s@, p, depth as nat).contains(x) ==> old(slots)@[last_with(s@, x)] == Some(
                cs[last_with(s@, x)],
            ),
    ensures
        final(slots)@.len() == cs.len(),
        forall|i: int|
            0 <= i < cs.len() && !visits(s@, p, depth as nat).contains(#[trigger] s@[i].id)
                ==> final(slots)@[i] == old(slots)@[i],
        is_thread(cs, p, depth as nat, r@),
    decreases depth,
{
    broadcast use vstd::seq_lib::lemma_seq_concat_contains_all_elements;

    if depth == 0 {
        return Vec::new();
    }
    let ks = replies(s, p);
    let ghost kv = replies_to(s@, p);
    let ghost all = visits(s@, p, depth as nat);
    proof {
        lemma_replies_to(s@, p);
        lemma_visits_known(s@, p, depth as nat);
        assert(kv.skip(0) =~= kv);
        assert forall|j: int| 0 <= j < ks@.len() implies ks@[j] as int == kv[j] by {
            assert(ks@.map_values(|i: usize| i as int)[j] == ks@[j] as int);
        }
    }
    let mut r: Vec<CommentTree<T>> = Vec::new();
    let mut k: usize = 0;
    while k < ks.len()
        invariant
            s@ == infos(cs),
            slots@.len() == cs.len(),
            depth > 0,
            kv == replies_to(s@, p),
            all == visits(s@, p, depth as nat),
            all == visits_from(s@, kv, depth as nat),
            ks@.len() == kv.len(),
            forall|j: int| 0 <= j < ks@.len() ==> ks@[j] as int == #[trigger] kv[j],
            forall|j: int| 0 <= j < kv.len() ==> 0 <= #[trigger] kv[j] < s@.len(),
            forall|x: CommentId| #[trigger] all.contains(x) ==> last_with(s@, x) >= 0,
            0 <= k <= ks@.len(),
            r@.len() == k,
            visits_from(s@, kv.skip(k as int), depth as nat).no_duplicates(),
            forall|x: CommentId| #[trigger]
                visits_from(s@, kv.skip(k as int), depth as nat).contains(x) ==> all.contains(x),
            forall|x: CommentId| #[trigger]
                visits_from(s@, kv.skip(k as int), depth as nat).contains(x) ==> slots@[last_with(
                    s@,
                    x,
                )] == Some(cs[last_with(s@, x)]),
            forall|i: int|
                0 <= i < cs.len() && !all.contains(#[trigger] s@[i].id) ==> slots@[i] == old(
                    slots,
                )@[i],
            forall|j: int|
                #![trigger r@[j]]
                0 <= j < k ==> {
                    let x = s@[kv[j]].id;
                    &&& r@[j].node == cs[last_with(s@, x)]
                    &&& is_thread(cs, Some(x), (depth - 1) as nat, r@[j].child@)
                },
        decreases ks@.len() - k,
    {
        let c = ks[k];
        let x = s[c].id;
        let ghost cur = visits_from(s@, kv.skip(k as int), depth as nat);
        let ghost rest = visits_from(s@, kv.skip(k + 1), depth as nat);
        let ghost below = visits(s@, Some(x), (depth - 1) as nat);
        proof {
            assert(kv.skip(k as int).drop_first() =~= kv.skip(k + 1));
            assert(kv.skip(k as int)[0] == kv[k as int]);
            assert(cur == seq![x] + below + rest);
            lemma_no_dup_split(seq![x] + below, rest);
            lemma_no_dup_split(seq![x], below);
            assert(seq![x][0] == x);
            assert(seq![x].contains(x));
            vstd::seq_lib::lemma_seq_concat_contains_all_elements(seq![x], below, x);
            vstd::seq_lib::lemma_seq_concat_contains_all_elements(seq![x] + below, rest, x);
            assert(cur.contains(x));
            lemma_last_with(s@, x);
            lemma_visits_known(s@, Some(x), (depth - 1) as nat);
        }
        let at = last_index(s, x);
        let ghost before = slots@;
        slots.push(None);
        let taken = slots.swap_remove(at);
        proof {
            assert(slots@ =~= before.update(at as int, None));
            assert forall|y: CommentId| #[trigger] below.contains(y) implies slots@[last_with(
                s@,
                y,
            )] == Some(cs[last_with(s@, y)]) by {
                lemma_last_with(s@, y);
                vstd::seq_lib::lemma_seq_concat_contains_all_elements(seq![x], below, y);
                vstd::seq_lib::lemma_seq_concat_contains_all_elements(seq![x] + below, rest, y);
                assert(cur.contains(y));
                assert(y != x);
            }
        }
        match taken {
            Some(node) => {
                let ghost mid = slots@;
                let child = build_thread(s, slots, Some(x), depth - 1, Ghost(cs));
                proof {
                    assert forall|z: CommentId| #[trigger] rest.contains(z) implies slots@[last_with(
                        s@,
                        z,
                    )] == Some(cs[last_with(s@, z)]) by {
                        lemma_last_with(s@, z);
                        assert(!(seq![x] + below).contains(z));
                        assert(!seq![x].contains(z));
                        assert(z != x);
                        vstd::seq_lib::lemma_seq_concat_contains_all_elements(
                            seq![x] + below,
                            rest,
                            z,
                        );
                        assert(cur.contains(z));
                        assert(all.contains(z));
                        vstd::seq_lib::lemma_seq_concat_contains_all_elements(seq![x], below, z);
                        assert(!below.contains(z));
                        assert(s@[last_with(s@, z)].id == z);
                        assert(slots@[last_with(s@, z)] == mid[last_with(s@, z)]);
                        assert(last_with(s@, z) != at);
                    }
                    assert forall|i: int|
                        0 <= i < cs.len() && !all.contains(#[trigger] s@[i].id) implies slots@[i]
                        == old(slots)@[i] by {
                        let y = s@[i].id;
                        vstd::seq_lib::lemma_seq_concat_contains_all_elements(seq![x], below, y);
                        vstd::seq_lib::lemma_seq_concat_contains_all_elements(
                            seq![x] + below,
                            rest,
                            y,
                        );
                        assert(!below.contains(y));
                        assert(i != at);
                    }
                }
                proof {
                    assert forall|z: CommentId| #[trigger] rest.contains(z) implies all.contains(z) by {
                        vstd::seq_lib::lemma_seq_concat_contains_all_elements(
                            seq![x] + below,
                            rest,
                            z,
                        );
                    }
                }
                r.push(CommentTree { node, child });
            },
            None => {
                assert(false);
            },
        }
        k = k + 1;
    }
    r
}


/// The comment that `from_comments` places at id `x`: the last comment of
/// the list with that id.
pub open spec fn node_of<T>(cs: Seq<Comment<T>>, x: CommentId) -> Comment<T> {
    cs[last_with(infos(cs), x)]
}

/// Reading a thread back in depth-first order gives the comment of each id
/// that the walk from the roots meets, in the order met: for the trees
/// built by `from_comments`, `to_comments` returns exactly these comments.
pub proof fn lemma_thread_preorder<T>(
    cs: Seq<Comment<T>>,
    p: Option<CommentId>,
    depth: nat,
    ts: Seq<CommentTree<T>>,
)
    requires
        is_thread(cs, p, depth, ts),
    ensures
        preorder(ts) == visits(infos(cs), p, depth).map_values(|x: CommentId| node_of(cs, x)),
    decreases depth, 1nat, 0nat,
{
    if depth == 0 {
        assert(preorder(ts) =~= seq![]);
        assert(visits(infos(cs), p, depth).map_values(|x: CommentId| node_of(cs, x)) =~= seq![]);
    } else {
        lemma_thread_list_preorder(cs, replies_to(infos(cs), p), depth, ts);
    }
}

/// `lemma_thread_preorder` for the trees of the comments at positions `ks`.
proof fn lemma_thread_list_preorder<T>(
    cs: Seq<Comment<T>>,
    ks: Seq<int>,
    depth: nat,
    ts: Seq<CommentTree<T>>,
)
    requires
        depth > 0,
        ts.len() == ks.len(),
        forall|k: int|
            #![trigger ts[k]]
            0 <= k < ts.len() ==> {
                let x = infos(cs)[ks[k]].id;
                &&& ts[k].node == cs[last_with(infos(cs), x)]
                &&& is_thread(cs, Some(x), (depth - 1) as nat, ts[k].child@)
            },
    ensures
        preorder(ts) == visits_from(infos(cs), ks, depth).map_values(
            |x: CommentId| node_of(cs, x),
        ),
    decreases depth, 0nat, ks.len(),
{
    let f = |x: CommentId| node_of(cs, x);
    if ks.len() == 0 {
        assert(preorder(ts) =~= seq![]);
        assert(visits_from(infos(cs), ks, depth).map_values(f) =~= seq![]);
    } else {
        let s = infos(cs);
        let x = s[ks[0]].id;
        let below = visits(s, Some(x), (depth - 1) as nat);
        let rest = visits_from(s, ks.drop_first(), depth);
        assert(ts[0].node == cs[last_with(s, x)]);
        lemma_thread_preorder(cs, Some(x), (depth - 1) as nat, ts[0].child@);
        assert forall|k: int|
            #![trigger ts.drop_first()[k]]
            0 <= k < ts.drop_first().len() implies {
                let y = s[ks.drop_first()[k]].id;
                &&& ts.drop_first()[k].node == cs[last_with(s, y)]
                &&& is_thread(cs, Some(y), (depth - 1) as nat, ts.drop_first()[k].child@)
            } by {
            assert(ts.drop_first()[k] == ts[k + 1]);
        }
        lemma_thread_list_preorder(cs, ks.drop_first(), depth, ts.drop_first());
        assert((seq![x] + below + rest).map_values(f) =~= seq![f(x)] + below.map_values(f)
            + rest.map_values(f));
    }
}

/// Whether no two comments of the list have the same id.
pub open spec fn ids_distinct(s: Seq<CommentInfo>) -> bool {
    forall|i: int, j: int| 0 <= i < s.len() && 0 <= j < s.len() && i != j ==> s[i].id != s[j].id
}

/// The parent of the last comment with id `x`; `None` where there is no
/// such comment.
pub open spec fn parent_of(s: Seq<CommentInfo>, x: CommentId) -> Option<CommentId> {
    let i = last_with(s, x);
    if i >= 0 {
        s[i].parent_id
    } else {
        None
    }
}

/// The id `t` steps up the chain of parents from `x`, if the chain is that
/// long.
pub open spec fn ancestor(s: Seq<CommentInfo>, x: CommentId, t: nat) -> Option<CommentId>
    decreases t,
{
    if t == 0 {
        Some(x)
    } else {
        match ancestor(s, x, (t - 1) as nat) {
            Some(y) => parent_of(s, y),
            None => None,
        }
    }
}

/// Whether no chain of parents of less than `depth` steps passes twice
/// through a reply to `p`.
spec fn through_once(s: Seq<CommentInfo>, p: Option<CommentId>, depth: nat) -> bool {
    forall|y: CommentId, t1: nat, t2: nat|
        #![trigger ancestor(s, y, t1), ancestor(s, y, t2)]
        t1 < t2 < depth && ancestor(s, y, t1) is Some && ancestor(s, y, t2) is Some && parent_of(
            s,
            ancestor(s, y, t1)->0,
        ) == p && parent_of(s, ancestor(s, y, t2)->0) == p ==> false
}

/// With distinct ids, the last comment with a comment's id is that comment.
proof fn lemma_last_with_distinct(s: Seq<CommentInfo>, i: int)
    requires
        ids_distinct(s),
        0 <= i < s.len(),
    ensures
        last_with(s, s[i].id) == i,
{
    lemma_last_with(s, s[i].id);
}

/// Past the end of a chain of parents there is nothing.
proof fn lemma_ancestor_none(s: Seq<CommentInfo>, y: CommentId, t: nat, u: nat)
    requires
        ancestor(s, y, t) is None,
        t <= u,
    ensures
        ancestor(s, y, u) is None,
    decreases u - t,
{
    if t < u {
        lemma_ancestor_none(s, y, t, (u - 1) as nat);
    }
}

/// An id met in the walk below `p` lies less than `depth` steps below a
/// reply to `p`.
proof fn lemma_visits_origin(s: Seq<CommentInfo>, p: Option<CommentId>, depth: nat, y: CommentId)
    -> (t: nat)
    requires
        ids_distinct(s),
        visits(s, p, depth).contains(y),
    ensures
        t < depth,
        ancestor(s, y, t) is Some,
        parent_of(s, ancestor(s, y, t)->0) == p,
    decreases depth, 1nat, 0nat,
{
    let ks = replies_to(s, p);
    lemma_replies_to(s, p);
    let (t, k) = lemma_visits_from_origin(s, ks, depth, y);
    lemma_last_with_distinct(s, ks[k]);
    t
}

/// An id met in the walk from the positions `ks` lies less than `depth`
/// steps below one of them.
proof fn lemma_visits_from_origin(s: Seq<CommentInfo>, ks: Seq<int>, depth: nat, y: CommentId)
    -> (r: (nat, int))
    requires
        ids_distinct(s),
        forall|k: int| 0 <= k < ks.len() ==> 0 <= #[trigger] ks[k] < s.len(),
        visits_from(s, ks, depth).contains(y),
    ensures
        r.0 < depth,
        0 <= r.1 < ks.len(),
        ancestor(s, y, r.0) == Some(s[ks[r.1]].id),
    decreases depth, 0nat, ks.len(),
{
    let x = s[ks[0]].id;
    let below = visits(s, Some(x), (depth - 1) as nat);
    let rest = visits_from(s, ks.drop_first(), depth);
    vstd::seq_lib::lemma_seq_concat_contains_all_elements(seq![x] + below, rest, y);
    vstd::seq_lib::lemma_seq_concat_contains_all_elements(seq![x], below, y);
    if seq![x].contains(y) {
        (0, 0)
    } else if below.contains(y) {
        let t = lemma_visits_origin(s, Some(x), (depth - 1) as nat, y);
        (t + 1, 0)
    } else {
        let (t, k) = lemma_visits_from_origin(s, ks.drop_first(), depth, y);
        (t, k + 1)
    }
}

/// With distinct ids, the walk from the replies to `p` meets no id twice
/// when no chain of parents passes twice through a reply to `p`.
proof fn lemma_visits_no_dup(s: Seq<CommentInfo>, p: Option<CommentId>, depth: nat)
    requires
        ids_distinct(s),
        through_once(s, p, depth),
    ensures
        visits(s, p, depth).no_duplicates(),
    decreases depth, 1nat, 0nat,
{
    if depth > 0 {
        lemma_replies_to(s, p);
        lemma_visits_from_no_dup(s, replies_to(s, p), p, depth);
    }
}

/// `lemma_visits_no_dup` for the walk from positions `ks` of replies to `p`.
proof fn lemma_visits_from_no_dup(s: Seq<CommentInfo>, ks: Seq<int>, p: Option<CommentId>, depth: nat)
    requires
        ids_distinct(s),
        depth > 0,
        forall|k: int|
            0 <= k < ks.len() ==> 0 <= #[trigger] ks[k] < s.len() && s[ks[k]].parent_id == p,
        forall|j: int, k: int| 0 <= j < k < ks.len() ==> ks[j] < ks[k],
        through_once(s, p, depth),
    ensures
        visits_from(s, ks, depth).no_duplicates(),
    decreases depth, 0nat, ks.len(),
{
    if ks.len() > 0 {
        let x = s[ks[0]].id;
        let below = visits(s, Some(x), (depth - 1) as nat);
        let rest = visits_from(s, ks.drop_first(), depth);
        lemma_last_with_distinct(s, ks[0]);
        assert(parent_of(s, x) == p);
        assert(ancestor(s, x, 0) == Some(x));
        // Below `x`, no chain passes twice through a reply to `x`.
        assert forall|y: CommentId, t1: nat, t2: nat|
            #![trigger ancestor(s, y, t1), ancestor(s, y, t2)]
            t1 < t2 < depth - 1 && ancestor(s, y, t1) is Some && ancestor(s, y, t2) is Some
                && parent_of(s, ancestor(s, y, t1)->0) == Some(x) && parent_of(
                s,
                ancestor(s, y, t2)->0,
            ) == Some(x) implies false by {
            assert(ancestor(s, y, t1 + 1) == Some(x));
            assert(ancestor(s, y, t2 + 1) == Some(x));
        }
        assert(through_once(s, Some(x), (depth - 1) as nat));
        lemma_visits_no_dup(s, Some(x), (depth - 1) as nat);
        // `x` is not below itself.
        if below.contains(x) {
            let t = lemma_visits_origin(s, Some(x), (depth - 1) as nat, x);
            assert(ancestor(s, x, t + 1) == Some(x));
        }
        assert(seq![x].no_duplicates());
        assert forall|i: int, j: int|
            0 <= i < seq![x].len() && 0 <= j < below.len() implies seq![x][i] != below[j] by {
            assert(below.contains(below[j]));
        }
        vstd::seq_lib::lemma_no_dup_in_concat(seq![x], below);
        // The later replies and the ids below them are not met here.
        assert forall|k: int| 0 <= k < ks.drop_first().len() implies 0
            <= #[trigger] ks.drop_first()[k] < s.len() && s[ks.drop_first()[k]].parent_id == p by {
            assert(ks.drop_first()[k] == ks[k + 1]);
        }
        lemma_visits_from_no_dup(s, ks.drop_first(), p, depth);
        assert forall|i: int, j: int|
            0 <= i < (seq![x] + below).len() && 0 <= j < rest.len() implies (seq![x]
                + below)[i] != rest[j] by {
            let y = rest[j];
            assert(rest.contains(y));
            if (seq![x] + below)[i] == y {
                let (t2, k) = lemma_visits_from_origin(s, ks.drop_first(), depth, y);
                let x2 = s[ks[k + 1]].id;
                assert(ks.drop_first()[k] == ks[k + 1]);
                lemma_last_with_distinct(s, ks[k + 1]);
                assert(x2 != x);
                assert(parent_of(s, x2) == p);
                let t1: nat = if i == 0 {
                    0
                } else {
                    assert(below.contains(y)) by {
                        assert(below[i - 1] == y);
                    }
                    let t = lemma_visits_origin(s, Some(x), (depth - 1) as nat, y);
                    assert(ancestor(s, y, t + 1) == Some(x));
                    t + 1
                };
                assert(ancestor(s, y, t1) == Some(x));
                assert(ancestor(s, y, t2) == Some(x2));
            }
        }
        vstd::seq_lib::lemma_no_dup_in_concat(seq![x] + below, rest);
    }
}

/// With distinct ids, the walk from the roots meets no id twice, whatever
/// its depth: `from_comments` accepts every list of comments whose ids are
/// distinct.
pub proof fn lemma_distinct_ids_walk(s: Seq<CommentInfo>, depth: nat)
    requires
        ids_distinct(s),
    ensures
        visits(s, None, depth).no_duplicates(),
{
    assert forall|y: CommentId, t1: nat, t2: nat|
        #![trigger ancestor(s, y, t1), ancestor(s, y, t2)]
        t1 < t2 < depth && ancestor(s, y, t1) is Some && ancestor(s, y, t2) is Some && parent_of(
            s,
            ancestor(s, y, t1)->0,
        ) == None::<CommentId> && parent_of(s, ancestor(s, y, t2)->0) == None::<CommentId>
        implies false by {
        assert(ancestor(s, y, t1 + 1) is None);
        lemma_ancestor_none(s, y, t1 + 1, t2);
    }
    lemma_visits_no_dup(s, None, depth);
}

/// Whether the chain of parents of the comment at position `i` ends at a
/// comment of the list that has no parent.
pub open spec fn reaches_root(s: Seq<CommentInfo>, i: int) -> bool {
    exists|t: nat|
        #![trigger ancestor(s, s[i].id, t)]
        ancestor(s, s[i].id, t) is Some && last_with(s, ancestor(s, s[i].id, t)->0) >= 0
            && parent_of(s, ancestor(s, s[i].id, t)->0) is None
}

/// A comment whose parent is `p` is among the replies to `p`.
proof fn lemma_replies_index(s: Seq<CommentInfo>, p: Option<CommentId>, i: int) -> (k: int)
    requires
        0 <= i < s.len(),
        s[i].parent_id == p,
    ensures
        0 <= k < replies_to(s, p).len(),
        replies_to(s, p)[k] == i,
    decreases s.len(),
{
    if i == s.len() - 1 {
        replies_to(s.drop_last(), p).len() as int
    } else {
        assert(s.drop_last()[i] == s[i]);
        lemma_replies_index(s.drop_last(), p, i)
    }
}

/// The walk from positions `ks` meets the id at each of them and the ids
/// below it.
proof fn lemma_visits_from_contains(
    s: Seq<CommentInfo>,
    ks: Seq<int>,
    depth: nat,
    k: int,
    y: CommentId,
)
    requires
        depth > 0,
        0 <= k < ks.len(),
        y == s[ks[k]].id || visits(s, Some(s[ks[k]].id), (depth - 1) as nat).contains(y),
    ensures
        visits_from(s, ks, depth).contains(y),
    decreases k,
{
    let x = s[ks[0]].id;
    let below = visits(s, Some(x), (depth - 1) as nat);
    let rest = visits_from(s, ks.drop_first(), depth);
    if k == 0 {
        if y == x {
            assert(seq![x][0] == x);
        }
        vstd::seq_lib::lemma_seq_concat_contains_all_elements(seq![x], below, y);
    } else {
        assert(ks.drop_first()[k - 1] == ks[k]);
        lemma_visits_from_contains(s, ks.drop_first(), depth, k - 1, y);
    }
    vstd::seq_lib::lemma_seq_concat_contains_all_elements(seq![x] + below, rest, y);
}

/// A comment `t` steps below a reply to `p` is met in a walk below `p` that
/// goes more than `t` levels down.
proof fn lemma_visits_cover(
    s: Seq<CommentInfo>,
    p: Option<CommentId>,
    depth: nat,
    y: CommentId,
    t: nat,
)
    requires
        t < depth,
        ancestor(s, y, t) is Some,
        last_with(s, ancestor(s, y, t)->0) >= 0,
        parent_of(s, ancestor(s, y, t)->0) == p,
    ensures
        visits(s, p, depth).contains(y),
    decreases t,
{
    let c = ancestor(s, y, t)->0;
    let i = last_with(s, c);
    lemma_last_with(s, c);
    let k = lemma_replies_index(s, p, i);
    let ks = replies_to(s, p);
    if t > 0 {
        let c1 = ancestor(s, y, (t - 1) as nat)->0;
        assert(ancestor(s, y, (t - 1) as nat) is Some);
        assert(parent_of(s, c1) == Some(c));
        lemma_visits_cover(s, Some(c), (depth - 1) as nat, y, (t - 1) as nat);
    }
    lemma_visits_from_contains(s, ks, depth, k, y);
}

/// Along a chain of parents, equal ids have equal ancestors.
proof fn lemma_ancestor_shift(s: Seq<CommentInfo>, y: CommentId, i: nat, j: nat, m: nat)
    requires
        ancestor(s, y, i) == ancestor(s, y, j),
    ensures
        ancestor(s, y, i + m) == ancestor(s, y, j + m),
    decreases m,
{
    if m > 0 {
        lemma_ancestor_shift(s, y, i, j, (m - 1) as nat);
        assert(ancestor(s, y, i + m) == match ancestor(s, y, (i + m - 1) as nat) {
            Some(z) => parent_of(s, z),
            None => None,
        });
        assert(ancestor(s, y, j + m) == match ancestor(s, y, (j + m - 1) as nat) {
            Some(z) => parent_of(s, z),
            None => None,
        });
    }
}

/// A chain of parents that ends at a root of the list is shorter than the
/// list.
proof fn lemma_root_chain_short(s: Seq<CommentInfo>, y: CommentId, t: nat)
    requires
        ancestor(s, y, t) is Some,
        last_with(s, ancestor(s, y, t)->0) >= 0,
        parent_of(s, ancestor(s, y, t)->0) is None,
    ensures
        t < s.len(),
{
    // Every id of the chain is that of a comment of the list.
    assert forall|k: nat| k <= t implies #[trigger] ancestor(s, y, k) is Some && last_with(
        s,
        ancestor(s, y, k)->0,
    ) >= 0 by {
        if ancestor(s, y, k) is None {
            lemma_ancestor_none(s, y, k, t);
        }
        if k < t {
            if ancestor(s, y, k + 1) is None {
                lemma_ancestor_none(s, y, k + 1, t);
            }
            assert(ancestor(s, y, k + 1) is Some);
            if last_with(s, ancestor(s, y, k)->0) < 0 {
                assert(ancestor(s, y, k + 1) is None);
            }
        }
    }
    // The ids of the chain are distinct: a repeat would make it endless.
    assert forall|i: nat, j: nat| i < j <= t implies #[trigger] ancestor(s, y, i) != #[trigger]
        ancestor(s, y, j) by {
        if ancestor(s, y, i) == ancestor(s, y, j) {
            let m = (t - j + 1) as nat;
            lemma_ancestor_shift(s, y, i, j, m);
            assert(ancestor(s, y, i + m) is Some);
            assert(ancestor(s, y, t + 1) is None);
        }
    }
    let q = Seq::new(t + 1, |k: int| last_with(s, ancestor(s, y, k as nat)->0));
    assert forall|a: int, b: int| 0 <= a < q.len() && 0 <= b < q.len() && a != b implies q[a]
        != q[b] by {
        lemma_last_with(s, ancestor(s, y, a as nat)->0);
        lemma_last_with(s, ancestor(s, y, b as nat)->0);
        if a < b {
            assert(ancestor(s, y, a as nat) != ancestor(s, y, b as nat));
        } else {
            assert(ancestor(s, y, b as nat) != ancestor(s, y, a as nat));
        }
    }
    q.unique_seq_to_set();
    assert forall|v: int| q.to_set().contains(v) implies vstd::set_lib::set_int_range(
        0,
        s.len() as int,
    ).contains(v) by {
        let a = choose|a: int| 0 <= a < q.len() && q[a] == v;
        lemma_last_with(s, ancestor(s, y, a as nat)->0);
    }
    vstd::set_lib::lemma_int_range(0, s.len() as int);
    vstd::set_lib::lemma_len_subset(q.to_set(), vstd::set_lib::set_int_range(0, s.len() as int));
}

/// With distinct ids, where the chain of parents of every comment ends at
/// a comment with no parent, reading back the thread built from a list
/// gives each comment of the list exactly once: nothing is lost and
/// nothing is repeated.
pub proof fn lemma_thread_complete<T>(cs: Seq<Comment<T>>, ts: Seq<CommentTree<T>>)
    requires
        ids_distinct(infos(cs)),
        forall|i: int| 0 <= i < cs.len() ==> #[trigger] reaches_root(infos(cs), i),
        is_thread(cs, None, cs.len() as nat, ts),
    ensures
        preorder(ts).len() == cs.len(),
        preorder(ts).no_duplicates(),
        forall|c: Comment<T>| preorder(ts).contains(c) <==> cs.contains(c),
{
    let s = infos(cs);
    let n = cs.len() as nat;
    let w = visits(s, None, n);
    let f = |x: CommentId| node_of(cs, x);
    lemma_thread_preorder(cs, None, n, ts);
    lemma_distinct_ids_walk(s, n);
    lemma_visits_known(s, None, n);
    assert(preorder(ts) == w.map_values(f));
    // Every comment's id is met.
    assert forall|i: int| 0 <= i < cs.len() implies w.contains(#[trigger] s[i].id) by {
        assert(reaches_root(s, i));
        let t = choose|t: nat|
            #![trigger ancestor(s, s[i].id, t)]
            ancestor(s, s[i].id, t) is Some && last_with(s, ancestor(s, s[i].id, t)->0) >= 0
                && parent_of(s, ancestor(s, s[i].id, t)->0) is None;
        lemma_root_chain_short(s, s[i].id, t);
        lemma_visits_cover(s, None, n, s[i].id, t);
    }
    // The comment placed at a met id carries that id.
    assert forall|x: CommentId| w.contains(x) implies #[trigger] f(x).info.id == x && cs.contains(
        f(x),
    ) by {
        lemma_last_with(s, x);
        assert(cs[last_with(s, x)].info == s[last_with(s, x)]);
    }
    assert forall|a: int, b: int|
        0 <= a < w.len() && 0 <= b < w.len() && a != b implies w.map_values(f)[a] != w.map_values(
        f,
    )[b] by {
        assert(w.contains(w[a]) && w.contains(w[b]));
        assert(f(w[a]).info.id == w[a]);
        assert(f(w[b]).info.id == w[b]);
    }
    assert forall|c: Comment<T>| w.map_values(f).contains(c) implies cs.contains(c) by {
        let a = choose|a: int| 0 <= a < w.len() && w.map_values(f)[a] == c;
        assert(w.contains(w[a]));
        assert(f(w[a]).info.id == w[a]);
        assert(w.map_values(f)[a] == f(w[a]));
    }
    assert forall|c: Comment<T>| cs.contains(c) implies w.map_values(f).contains(c) by {
        let i = choose|i: int| 0 <= i < cs.len() && cs[i] == c;
        assert(s[i] == cs[i].info);
        assert(w.contains(s[i].id));
        let a = choose|a: int| 0 <= a < w.len() && w[a] == s[i].id;
        lemma_last_with_distinct(s, i);
        assert(w.map_values(f)[a] == f(w[a]));
        assert(f(w[a]) == cs[i]);
        assert(w.map_values(f)[a] == c);
    }
    // The met ids are the ids of the list, each once: as many as comments.
    let ids = s.map_values(|c: CommentInfo| c.id);
    assert forall|a: int, b: int| 0 <= a < ids.len() && 0 <= b < ids.len() && a != b implies ids[a]
        != ids[b] by {}
    assert(w.to_set() =~= ids.to_set()) by {
        assert forall|x: CommentId| w.to_set().contains(x) implies ids.to_set().contains(x) by {
            lemma_last_with(s, x);
            assert(ids[last_with(s, x)] == x);
        }
        assert forall|x: CommentId| ids.to_set().contains(x) implies w.to_set().contains(x) by {
            let i = choose|i: int| 0 <= i < ids.len() && ids[i] == x;
            assert(w.contains(s[i].id));
        }
    }
    w.unique_seq_to_set();
    ids.unique_seq_to_set();
}

/// Appends the comments of a forest to `dest`, in depth-first order.
fn write_forest<T>(ts: Vec<CommentTree<T>>, dest: &mut Vec<Comment<T>>)
    ensures
        final(dest)@ == old(dest)@ + preorder(ts@),
    decreases ts,
{
    let ghost all = ts@;
    let ghost start = dest@;
    proof {
        assert(all.take(0) =~= Seq::<CommentTree<T>>::empty());
    }
    for t in it: ts.into_iter()
        invariant
            it.seq() == all,
            all == ts@,
            dest@ == start + preorder(all.take(it.index() as int)),
    {
        let ghost k = it.index() as int;
        let ghost tg = t;
        proof {
            assert(tg == all[k]);
            assert(decreases_to!(ts => ts@));
            assert(decreases_to!(ts@ => all[k]));
            assert(decreases_to!(all[k] => tg.child));
        }
        dest.push(t.node);
        write_forest(t.child, dest);
        proof {
            assert(all.take(k + 1) =~= all.take(k).push(tg));
            lemma_preorder_push(all.take(k), tg);
        }
    }
    assert(all.take(all.len() as int) =~= all);
}

/// The number of comments in a forest.
pub open spec fn node_count<T>(ts: Seq<CommentTree<T>>) -> nat
    decreases ts,
{
    if ts.len() == 0 {
        0
    } else {
        1 + node_count(ts[0].child@) + node_count(ts.drop_first())
    }
}

/// Reading a forest back gives one comment per node.
pub proof fn lemma_preorder_len<T>(ts: Seq<CommentTree<T>>)
    ensures
        preorder(ts).len() == node_count(ts),
    decreases ts,
{
    if ts.len() > 0 {
        let t = ts[0];
        assert(decreases_to!(ts => t));
        assert(decreases_to!(t => t.child));
        assert(decreases_to!(t.child => t.child@));
        lemma_preorder_len(t.child@);
        lemma_preorder_len(ts.drop_first());
    }
}

proof fn lemma_same_multiset<A>(a: Seq<A>, b: Seq<A>)
    requires
        a.no_duplicates(),
        b.no_duplicates(),
        forall|x: A| a.contains(x) <==> b.contains(x),
    ensures
        a.to_multiset() == b.to_multiset(),
{
    broadcast use vstd::multiset::group_multiset_axioms;

    a.lemma_multiset_has_no_duplicates();
    b.lemma_multiset_has_no_duplicates();
    assert forall|x: A| a.to_multiset().count(x) == b.to_multiset().count(x) by {
        vstd::seq_lib::to_multiset_contains(a, x);
        vstd::seq_lib::to_multiset_contains(b, x);
    }
    assert(a.to_multiset() =~= b.to_multiset());
}

/// Building the reply trees of a list of comments (`from_comments`) and
/// reading them back (`to_comments`) gives the same comments, each once,
/// reordered depth first: each comment directly before the replies below
/// it, replies to one comment in the order of the list. This holds where
/// the ids are distinct and the chain of parents of every comment ends at
/// a comment of the list without parent.
pub proof fn lemma_comments_round_trip<T>(cs: Seq<Comment<T>>, ts: Seq<CommentTree<T>>)
    requires
        ids_distinct(infos(cs)),
        forall|i: int| 0 <= i < cs.len() ==> #[trigger] reaches_root(infos(cs), i),
        is_thread(cs, None, cs.len() as nat, ts),
    ensures
        preorder(ts).to_multiset() == cs.to_multiset(),
        preorder(ts) == visits(infos(cs), None, cs.len() as nat).map_values(
            |x: CommentId| node_of(cs, x),
        ),
{
    lemma_thread_complete(cs, ts);
    lemma_thread_preorder(cs, None, cs.len() as nat, ts);
    assert(cs.no_duplicates()) by {
        assert forall|i: int, j: int| 0 <= i < cs.len() && 0 <= j < cs.len() && i != j implies cs[i]
            != cs[j] by {
            assert(infos(cs)[i] == cs[i].info && infos(cs)[j] == cs[j].info);
        }
    }
    lemma_same_multiset(preorder(ts), cs);
}

impl<T> CommentTree<T> {
    /// Builds the reply trees of a list of comments: one tree per comment
    /// whose parent is `None`, in the order of the list, each with the
    /// replies below it (see `is_thread`). A comment whose chain of parents
    /// does not lead to such a comment is left out. Where several comments
    /// have one id, the node is the last of them.
    ///
    /// No id may be met twice in the walk from the roots: a node is taken
    /// out of the list once.
    pub fn from_comments(data: Vec<Comment<T>>) -> (r: Vec<CommentTree<T>>)
        requires
            visits(infos(data@), None, data@.len() as nat).no_duplicates(),
        ensures
            is_thread(data@, None, data@.len() as nat, r@),
    {
        let ghost cs = data@;
        let mut s: Vec<CommentInfo> = Vec::new();
        let mut i: usize = 0;
        while i < data.len()
            invariant
                data@ == cs,
                0 <= i <= cs.len(),
                s@.len() == i,
                forall|j: int| 0 <= j < i ==> #[trigger] s@[j] == cs[j].info,
            decreases cs.len() - i,
        {
            s.push(data[i].info);
            i = i + 1;
        }
        assert(s@ =~= infos(cs));
        let mut slots: Vec<Option<Comment<T>>> = Vec::new();
        for c in it: data.into_iter()
            invariant
                it.seq() == cs,
                slots@.len() == it.index(),
                forall|j: int| 0 <= j < slots@.len() ==> #[trigger] slots@[j] == Some(cs[j]),
        {
            slots.push(Some(c));
        }
        let n = slots.len();
        proof {
            lemma_visits_known(s@, None, n as nat);
            assert forall|x: CommentId| #[trigger]
                visits(s@, None, n as nat).contains(x) implies slots@[last_with(s@, x)] == Some(
                cs[last_with(s@, x)],
            ) by {
                lemma_last_with(s@, x);
            }
        }
        build_thread(&s, &mut slots, None, n, Ghost(cs))
    }

    /// The comments of the trees, in depth-first order: each tree's node,
    /// then the comments below it.
    pub fn to_comments(tree: Vec<CommentTree<T>>) -> (r: Vec<Comment<T>>)
        ensures
            r@ == preorder(tree@),
            r@.len() == node_count(tree@),
    {
        proof {
            lemma_preorder_len(tree@);
        }
        let mut r: Vec<Comment<T>> = Vec::new();
        write_forest(tree, &mut r);
        r
    }
}

} // verus!
