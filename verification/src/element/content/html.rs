//! HTML trees: the nodes of an HTML fragment, rebuilt from the steps of a
//! depth-first walk of the parsed fragment.
use vstd::prelude::*;

verus! {

/// An attribute of an HTML element: its namespace (empty for an ordinary
/// attribute), its local name and its value.
#[derive(Debug)]
pub struct HtmlAttr {
    pub ns: String,
    pub name: String,
    pub value: String,
}

/// What an HTML node is: text, an element with its local name and its
/// attributes, or another kind of node (a comment, for one).
#[derive(Debug)]
pub enum HtmlKind {
    Text(String),
    Element { name: String, attrs: Vec<HtmlAttr> },
    Other,
}

/// An HTML node and its children, in order.
#[derive(Debug)]
pub struct HtmlNode {
    pub kind: HtmlKind,
    pub children: Vec<HtmlNode>,
}

/// A step of a depth-first walk of an HTML tree: entering a node, or
/// leaving the node entered last and not left yet.
#[derive(Debug)]
pub enum HtmlEvent {
    Open(HtmlKind),
    Close,
}

/// The namespace, name and value of an attribute.
pub open spec fn attr_view(a: HtmlAttr) -> (Seq<char>, Seq<char>, Seq<char>) {
    (a.ns@, a.name@, a.value@)
}

/// The namespaces, names and values of attributes.
pub open spec fn attrs_view(s: Seq<HtmlAttr>) -> Seq<(Seq<char>, Seq<char>, Seq<char>)> {
    s.map_values(|a: HtmlAttr| attr_view(a))
}

/// What an HTML node is, with its texts as character sequences.
pub enum KindModel {
    Text(Seq<char>),
    Element { name: Seq<char>, attrs: Seq<(Seq<char>, Seq<char>, Seq<char>)> },
    Other,
}

/// The model of a node's kind.
pub open spec fn kind_view(k: HtmlKind) -> KindModel {
    match k {
        HtmlKind::Text(t) => KindModel::Text(t@),
        HtmlKind::Element { name, attrs } => KindModel::Element {
            name: name@,
            attrs: attrs_view(attrs@),
        },
        HtmlKind::Other => KindModel::Other,
    }
}

/// A step of a walk, with its texts as character sequences.
pub enum EventModel {
    Open(KindModel),
    Close,
}

/// The models of the steps of a walk.
pub open spec fn events_view(s: Seq<HtmlEvent>) -> Seq<EventModel> {
    s.map_values(
        |e: HtmlEvent|
            match e {
                HtmlEvent::Open(k) => EventModel::Open(kind_view(k)),
                HtmlEvent::Close => EventModel::Close,
            },
    )
}

/// The steps of a depth-first walk of the root element of the fragment
/// that a text parses to.
pub uninterp spec fn fragment_events(html: Seq<char>) -> Seq<EventModel>;

/// Parses `html` as an HTML fragment (`scraper::Html::parse_fragment`) and
/// walks its root element depth first (`ego_tree::NodeRef::traverse`): each
/// node entered gives an `Open` of its kind (text; element with its local
/// name and its attributes' namespaces, local names and values; any other
/// node), each node left a `Close`. The steps depend on the text alone;
/// they are named, not stated.
#[verifier::external_body]
fn parse_fragment(html: &str) -> (r: Vec<HtmlEvent>)
    ensures
        events_view(r@) == fragment_events(html@),
{
    scraper::Html::parse_fragment(html).root_element().traverse().map(|edge| match edge {
        ego_tree::iter::Edge::Open(n) => HtmlEvent::Open(match n.value() {
            scraper::Node::Text(t) => HtmlKind::Text(t.text.to_string()),
            scraper::Node::Element(e) => HtmlKind::Element {
                name: e.name().to_string(),
                attrs: e.attrs.iter().map(|(k, v)| HtmlAttr {
                    ns: k.ns.to_string(), name: k.local.to_string(), value: v.to_string() }).collect(),
            },
            _ => HtmlKind::Other,
        }),
        ego_tree::iter::Edge::Close(_) => HtmlEvent::Close,
    }).collect()
}

/// The position of the `Close` that leaves the node entered last, when
/// the walk stands at `k` with `depth` more nodes entered and not left; the
/// end of the walk where there is none.
pub open spec fn close_from(ev: Seq<EventModel>, k: int, depth: nat) -> int
    decreases ev.len() - k,
{
    if k < 0 || k >= ev.len() {
        ev.len() as int
    } else {
        match ev[k] {
            EventModel::Close => if depth == 0 {
                k
            } else {
                close_from(ev, k + 1, (depth - 1) as nat)
            },
            EventModel::Open(_) => close_from(ev, k + 1, depth + 1),
        }
    }
}

/// The matching `Close` comes at or after the position the search starts at.
pub proof fn lemma_close_from(ev: Seq<EventModel>, k: int, depth: nat)
    requires
        0 <= k <= ev.len(),
    ensures
        k <= close_from(ev, k, depth) <= ev.len(),
    decreases ev.len() - k,
{
    if k < ev.len() {
        match ev[k] {
            EventModel::Close => if depth > 0 {
                lemma_close_from(ev, k + 1, (depth - 1) as nat);
            },
            EventModel::Open(_) => lemma_close_from(ev, k + 1, depth + 1),
        }
    }
}

/// Whether `ns` are the nodes that the steps in `[i, end)` of a walk
/// describe: each `Open` starts a node of its kind whose children are
/// described by the steps up to the matching `Close` (or to `end`); a
/// `Close` that leaves no node is passed over.
pub open spec fn builds(ev: Seq<EventModel>, i: int, end: int, ns: Seq<HtmlNode>) -> bool
    decreases end - i,
    via builds_decreases
{
    if i < 0 || i >= end || i >= ev.len() {
        ns.len() == 0
    } else {
        match ev[i] {
            EventModel::Close => builds(ev, i + 1, end, ns),
            EventModel::Open(k) => {
                let c = close_from(ev, i + 1, 0);
                let stop = if c < end {
                    c
                } else {
                    end
                };
                let next = if c < end {
                    c + 1
                } else {
                    end
                };
                &&& ns.len() > 0
                &&& kind_view(ns[0].kind) == k
                &&& builds(ev, i + 1, stop, ns[0].children@)
                &&& builds(ev, next, end, ns.drop_first())
            },
        }
    }
}

#[via_fn]
proof fn builds_decreases(ev: Seq<EventModel>, i: int, end: int, ns: Seq<HtmlNode>) {
    if !(i < 0 || i >= end || i >= ev.len()) {
        lemma_close_from(ev, i + 1, 0);
    }
}

/// The steps of a depth-first walk of nodes: for each node in order,
/// entering it, walking its children, leaving it.
pub open spec fn walk(ns: Seq<HtmlNode>) -> Seq<EventModel>
    decreases ns,
{
    if ns.len() == 0 {
        seq![]
    } else {
        seq![EventModel::Open(kind_view(ns[0].kind))] + walk(ns[0].children@) + seq![
            EventModel::Close,
        ] + walk(ns.drop_first())
    }
}

/// The pieces of the walk of nodes that is found at position `k` of `ev`.
proof fn lemma_walk_parts(ev: Seq<EventModel>, k: int, ns: Seq<HtmlNode>)
    requires
        ns.len() > 0,
        0 <= k,
        k + walk(ns).len() <= ev.len(),
        ev.subrange(k, k + walk(ns).len()) == walk(ns),
    ensures
        ({
            let w0 = walk(ns[0].children@);
            let wr = walk(ns.drop_first());
            &&& walk(ns).len() == w0.len() + wr.len() + 2
            &&& ev[k] == EventModel::Open(kind_view(ns[0].kind))
            &&& ev.subrange(k + 1, k + 1 + w0.len()) == w0
            &&& ev[k + 1 + w0.len()] == EventModel::Close
            &&& ev.subrange(k + 2 + w0.len(), k + 2 + w0.len() + wr.len()) == wr
        }),
{
    let w0 = walk(ns[0].children@);
    let wr = walk(ns.drop_first());
    let w = walk(ns);
    assert(w =~= seq![EventModel::Open(kind_view(ns[0].kind))] + w0 + seq![EventModel::Close] + wr);
    assert(ev[k] == ev.subrange(k, k + w.len())[0]);
    assert(ev.subrange(k + 1, k + 1 + w0.len()) =~= w0) by {
        assert forall|j: int| 0 <= j < w0.len() implies ev.subrange(k + 1, k + 1 + w0.len())[j]
            == w0[j] by {
            assert(ev.subrange(k, k + w.len())[1 + j] == w[1 + j]);
        }
    }
    assert(ev[k + 1 + w0.len()] == ev.subrange(k, k + w.len())[1 + w0.len() as int]);
    assert(ev.subrange(k + 2 + w0.len(), k + 2 + w0.len() + wr.len()) =~= wr) by {
        assert forall|j: int| 0 <= j < wr.len() implies ev.subrange(
            k + 2 + w0.len(),
            k + 2 + w0.len() + wr.len(),
        )[j] == wr[j] by {
            assert(ev.subrange(k, k + w.len())[2 + w0.len() as int + j] == w[2 + w0.len() as int + j]);
        }
    }
}

/// The search for a matching `Close` passes over a walk of nodes.
proof fn lemma_close_skips_walk(ev: Seq<EventModel>, k: int, depth: nat, ns: Seq<HtmlNode>)
    requires
        0 <= k,
        k + walk(ns).len() <= ev.len(),
        ev.subrange(k, k + walk(ns).len()) == walk(ns),
    ensures
        close_from(ev, k, depth) == close_from(ev, k + walk(ns).len(), depth),
    decreases ns,
{
    if ns.len() > 0 {
        let w0 = walk(ns[0].children@);
        let wr = walk(ns.drop_first());
        lemma_walk_parts(ev, k, ns);
        lemma_close_skips_walk(ev, k + 1, depth + 1, ns[0].children@);
        lemma_close_skips_walk(ev, k + 2 + w0.len(), depth, ns.drop_first());
    }
}

/// The steps of a walk of nodes describe those nodes.
proof fn lemma_builds_walk(ev: Seq<EventModel>, k: int, ns: Seq<HtmlNode>)
    requires
        0 <= k,
        k + walk(ns).len() <= ev.len(),
        ev.subrange(k, k + walk(ns).len()) == walk(ns),
    ensures
        builds(ev, k, k + walk(ns).len(), ns),
    decreases ns,
{
    if ns.len() > 0 {
        let w0 = walk(ns[0].children@);
        let wr = walk(ns.drop_first());
        lemma_walk_parts(ev, k, ns);
        lemma_close_skips_walk(ev, k + 1, 0, ns[0].children@);
        assert(close_from(ev, k + 1, 0) == k + 1 + w0.len());
        lemma_builds_walk(ev, k + 1, ns[0].children@);
        lemma_builds_walk(ev, k + 2 + w0.len(), ns.drop_first());
    }
}

/// A depth-first walk of nodes describes those very nodes (see `builds`):
/// from the walk of a tree, `nodes_of` rebuilds the tree.
pub proof fn lemma_nodes_of_walk(ns: Seq<HtmlNode>)
    ensures
        builds(walk(ns), 0, walk(ns).len() as int, ns),
{
    assert(walk(ns).subrange(0, walk(ns).len() as int) =~= walk(ns));
    lemma_builds_walk(walk(ns), 0, ns);
}

/// A copy of an attribute.
fn copy_attr(a: &HtmlAttr) -> (r: HtmlAttr)
    ensures
        attr_view(r) == attr_view(*a),
{
    HtmlAttr { ns: a.ns.clone(), name: a.name.clone(), value: a.value.clone() }
}

/// A copy of a node's kind.
fn copy_kind(k: &HtmlKind) -> (r: HtmlKind)
    ensures
        kind_view(r) == kind_view(*k),
{
    match k {
        HtmlKind::Text(t) => HtmlKind::Text(t.clone()),
        HtmlKind::Element { name, attrs } => {
            let mut v: Vec<HtmlAttr> = Vec::new();
            let mut i: usize = 0;
            while i < attrs.len()
                invariant
                    0 <= i <= attrs@.len(),
                    v@.len() == i,
                    forall|j: int| 0 <= j < i ==> attr_view(#[trigger] v@[j]) == attr_view(attrs@[j]),
                decreases attrs@.len() - i,
            {
                v.push(copy_attr(&attrs[i]));
                i = i + 1;
            }
            assert(attrs_view(v@) =~= attrs_view(attrs@));
            HtmlKind::Element { name: name.clone(), attrs: v }
        },
        HtmlKind::Other => HtmlKind::Other,
    }
}

/// The position of the `Close` that leaves the node entered just before
/// position `k`; the end of the walk where there is none.
fn close_of(ev: &Vec<HtmlEvent>, k: usize) -> (r: usize)
    requires
        k <= ev@.len(),
    ensures
        r == close_from(events_view(ev@), k as int, 0),
{
    let ghost m = events_view(ev@);
    let mut pos: usize = k;
    let mut depth: usize = 0;
    while pos < ev.len()
        invariant
            m == events_view(ev@),
            k <= pos <= ev@.len(),
            depth <= pos - k,
            close_from(m, k as int, 0) == close_from(m, pos as int, depth as nat),
        decreases ev@.len() - pos,
    {
        match &ev[pos] {
            HtmlEvent::Close => {
                if depth == 0 {
                    return pos;
                }
                depth = depth - 1;
            },
            HtmlEvent::Open(_) => {
                depth = depth + 1;
            },
        }
        pos = pos + 1;
    }
    pos
}

/// The nodes that the steps in `[i, end)` of a walk describe.
fn build_nodes(ev: &Vec<HtmlEvent>, i: usize, end: usize) -> (r: Vec<HtmlNode>)
    requires
        i <= end <= ev@.len(),
    ensures
        builds(events_view(ev@), i as int, end as int, r@),
    decreases end - i,
{
    let ghost m = events_view(ev@);
    let mut r: Vec<HtmlNode> = Vec::new();
    let mut pos: usize = i;
    assert forall|rest: Seq<HtmlNode>| #[trigger]
        builds(m, pos as int, end as int, rest) implies builds(m, i as int, end as int, r@ + rest) by {
        assert(r@ + rest =~= rest);
    }
    while pos < end
        invariant
            m == events_view(ev@),
            i <= pos,
            end <= ev@.len(),
            forall|rest: Seq<HtmlNode>| #[trigger]
                builds(m, pos as int, end as int, rest) ==> builds(m, i as int, end as int, r@ + rest),
        decreases end - pos,
    {
        match &ev[pos] {
            HtmlEvent::Close => {
                assert forall|rest: Seq<HtmlNode>| #[trigger]
                    builds(m, pos + 1, end as int, rest) implies builds(m, i as int, end as int, r@ + rest) by {
                    assert(builds(m, pos as int, end as int, rest));
                }
                pos = pos + 1;
            },
            HtmlEvent::Open(k) => {
                let c = close_of(ev, pos + 1);
                proof {
                    lemma_close_from(m, pos + 1, 0);
                }
                let stop = if c < end {
                    c
                } else {
                    end
                };
                let children = build_nodes(ev, pos + 1, stop);
                let node = HtmlNode { kind: copy_kind(k), children };
                let ghost before = r@;
                r.push(node);
                let next = if stop < end {
                    stop + 1
                } else {
                    end
                };
                assert forall|rest: Seq<HtmlNode>| #[trigger]
                    builds(m, next as int, end as int, rest) implies builds(m, i as int, end as int, r@ + rest) by {
                    let ns = seq![node] + rest;
                    assert(ns.drop_first() =~= rest);
                    assert(ns[0] == node);
                    assert(builds(m, pos as int, end as int, ns));
                    assert(before + ns =~= r@ + rest);
                }
                pos = next;
            },
        }
    }
    assert(builds(m, pos as int, end as int, Seq::<HtmlNode>::empty()));
    assert(r@ + Seq::<HtmlNode>::empty() =~= r@);
    r
}

/// The nodes that a walk describes (see `builds`).
pub fn nodes_of(events: &Vec<HtmlEvent>) -> (r: Vec<HtmlNode>)
    ensures
        builds(events_view(events@), 0, events@.len() as int, r@),
{
    build_nodes(events, 0, events.len())
}

/// The nodes of the HTML fragment that `html` parses to: its root element,
/// with the nodes below it.
pub fn parse_html(html: &str) -> (r: Vec<HtmlNode>)
    ensures
        builds(fragment_events(html@), 0, fragment_events(html@).len() as int, r@),
{
    let events = parse_fragment(html);
    nodes_of(&events)
}

} // verus!
