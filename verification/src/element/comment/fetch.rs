//! Decisions of fetching the comments of an object: whose replies are
//! fetched, which comments are still missing, and when to pause.
//!
//! Fetching is done by the caller; these types say what to fetch next.
use crate::element::comment::{spec_root_type_name, CommentId, RootType};
use crate::util::key_map::KeySet;
use crate::util::text::{concat, concat_strs, decimal, u64_to_string};
use vstd::prelude::*;

verus! {

/// The root comments whose replies are fetched: those that have replies,
/// in order.
pub open spec fn spec_with_children(roots: Seq<(CommentId, u32)>) -> Seq<CommentId> {
    roots.filter(|r: (CommentId, u32)| r.1 != 0).map_values(|r: (CommentId, u32)| r.0)
}

/// The root comments whose replies are fetched: those that have replies
/// (`child_count` not zero), in order.
pub fn comments_with_children(roots: &Vec<(CommentId, u32)>) -> (r: Vec<CommentId>)
    ensures
        r@ == spec_with_children(roots@),
{
    let mut r: Vec<CommentId> = Vec::new();
    let mut i: usize = 0;
    while i < roots.len()
        invariant
            0 <= i <= roots@.len(),
            r@ == spec_with_children(roots@.subrange(0, i as int)),
        decreases roots@.len() - i,
    {
        let (id, count) = roots[i];
        let ghost pred = |r: (CommentId, u32)| r.1 != 0;
        let ghost s0 = roots@.subrange(0, i as int);
        proof {
            assert(roots@.subrange(0, i + 1) =~= s0.push(roots@[i as int]));
            s0.lemma_filter_push(roots@[i as int], pred);
        }
        if count != 0 {
            r.push(id);
            proof {
                assert(s0.filter(pred).push(roots@[i as int]).map_values(|r: (CommentId, u32)| r.0)
                    =~= s0.filter(pred).map_values(|r: (CommentId, u32)| r.0).push(id));
            }
        }
        i = i + 1;
    }
    assert(roots@.subrange(0, roots@.len() as int) =~= roots@);
    r
}

/// Whether a list of numbers is strictly increasing.
pub open spec fn strictly_increasing(s: Seq<u64>) -> bool {
    forall|i: int, j: int| 0 <= i < j < s.len() ==> s[i] < s[j]
}

/// The value of a search for missing comments.
pub struct MissingModel {
    /// The comments known to exist: fetched, or requested and answered.
    pub exist: Set<u64>,
    /// The comments replied to that are neither known nor requested.
    pub missing: Set<u64>,
    /// The comment requested and not answered yet.
    pub pending: Option<u64>,
    /// Every comment gathered, with the comment it replies to.
    pub links: Seq<(u64, Option<u64>)>,
}

/// Every comment gathered replies to a comment that is known, missing or
/// requested.
pub open spec fn parents_accounted(m: MissingModel) -> bool {
    forall|i: int|
        0 <= i < m.links.len() && #[trigger] m.links[i].1 is Some ==> {
            let p = m.links[i].1->0;
            m.exist.contains(p) || m.missing.contains(p) || m.pending == Some(p)
        }
}

/// The search for comments that are replied to but were not fetched: the
/// comments fetched first are gathered, the comments they reply to that
/// are not among them are requested one by one, smallest first, and so on
/// for the comments those reply to.
pub struct MissingParents {
    exist: KeySet<CommentId>,
    missing: Vec<u64>,
    pending: Option<u64>,
    links: Ghost<Seq<(u64, Option<u64>)>>,
}

impl View for MissingParents {
    type V = MissingModel;

    closed spec fn view(&self) -> MissingModel {
        MissingModel {
            exist: self.exist@,
            missing: self.missing@.to_set(),
            pending: self.pending,
            links: self.links@,
        }
    }
}

impl MissingParents {
    /// Whether the search is consistent: missing comments are kept in
    /// increasing order, are not known to exist, and every comment gathered
    /// replies to one that is known, missing or requested.
    pub closed spec fn wf(&self) -> bool {
        &&& strictly_increasing(self.missing@)
        &&& forall|i: int| 0 <= i < self.missing@.len() ==> !self.exist@.contains(#[trigger] self.missing@[i])
        &&& self.pending matches Some(m) ==> !self.exist@.contains(m) && !self.missing@.contains(m)
        &&& parents_accounted(self@)
    }

    /// Adds `p` to the missing comments unless it is known, missing or
    /// requested.
    fn note_parent(&mut self, p: u64)
        requires
            strictly_increasing(old(self).missing@),
            forall|i: int|
                0 <= i < old(self).missing@.len() ==> !old(self).exist@.contains(
                    #[trigger] old(self).missing@[i],
                ),
            old(self).pending matches Some(m) ==> !old(self).exist@.contains(m) && !old(self).missing@.contains(m),
        ensures
            strictly_increasing(final(self).missing@),
            forall|i: int|
                0 <= i < final(self).missing@.len() ==> !final(self).exist@.contains(
                    #[trigger] final(self).missing@[i],
                ),
            final(self).pending matches Some(m) ==> !final(self).exist@.contains(m) && !final(self).missing@.contains(m),
            final(self).exist@ == old(self).exist@,
            final(self).pending == old(self).pending,
            final(self).links == old(self).links,
            final(self).missing@.to_set() == if old(self).exist@.contains(p) || old(self).pending
                == Some(p) {
                old(self).missing@.to_set()
            } else {
                old(self).missing@.to_set().insert(p)
            },
    {
        if self.exist.contains(&CommentId(p)) {
            return;
        }
        if let Some(m) = self.pending {
            if m == p {
                return;
            }
        }
        let mut i: usize = 0;
        while i < self.missing.len() && self.missing[i] < p
            invariant
                0 <= i <= self.missing@.len(),
                forall|j: int| 0 <= j < i ==> self.missing@[j] < p,
            decreases self.missing@.len() - i,
        {
            i = i + 1;
        }
        if i < self.missing.len() && self.missing[i] == p {
            return;
        }
        let ghost old_missing = self.missing@;
        self.missing.insert(i, p);
        proof {
            let nm = self.missing@;
            assert forall|x: u64| #[trigger] nm.to_set().contains(x) == old_missing.to_set().insert(
                p,
            ).contains(x) by {
                if nm.to_set().contains(x) {
                    let k = choose|k: int| 0 <= k < nm.len() && nm[k] == x;
                    if k < i {
                        assert(old_missing[k] == x);
                    } else if k > i {
                        assert(old_missing[k - 1] == x);
                    }
                }
                if old_missing.to_set().contains(x) {
                    let k = choose|k: int| 0 <= k < old_missing.len() && old_missing[k] == x;
                    if k < i {
                        assert(nm[k] == x);
                    } else {
                        assert(nm[k + 1] == x);
                    }
                }
                if x == p {
                    assert(nm[i as int] == p);
                }
            }
            assert(nm.to_set() =~= old_missing.to_set().insert(p));
            assert forall|a: int, b: int| 0 <= a < b < nm.len() implies nm[a] < nm[b] by {
                if b < i {
                    assert(nm[a] == old_missing[a] && nm[b] == old_missing[b]);
                } else if b == i {
                    assert(nm[a] == old_missing[a]);
                } else if a < i {
                    assert(nm[b] == old_missing[b - 1]);
                    assert(old_missing[i as int] > p);
                    if b - 1 > i {
                        assert(old_missing[i as int] < old_missing[b - 1]);
                    }
                } else if a == i {
                    assert(nm[b] == old_missing[b - 1]);
                    assert(old_missing[i as int] > p);
                    if b - 1 > i {
                        assert(old_missing[i as int] < old_missing[b - 1]);
                    }
                } else {
                    assert(nm[a] == old_missing[a - 1] && nm[b] == old_missing[b - 1]);
                }
            }
            assert forall|k: int| 0 <= k < nm.len() implies !self.exist@.contains(#[trigger] nm[k]) by {
                if k < i {
                    assert(nm[k] == old_missing[k]);
                } else if k > i {
                    assert(nm[k] == old_missing[k - 1]);
                }
            }
        }
    }

    /// Starts the search from the comments fetched so far, each given by
    /// its identifier and the comment it replies to.
    pub fn new(comments: &Vec<(CommentId, Option<CommentId>)>) -> (r: Self)
        ensures
            r.wf(),
            r@.exist == comments@.map_values(|c: (CommentId, Option<CommentId>)| c.0.0).to_set(),
            r@.pending is None,
            r@.links == comments@.map_values(
                |c: (CommentId, Option<CommentId>)|
                    (
                        c.0.0,
                        match c.1 {
                            Some(p) => Some(p.0),
                            None => None,
                        },
                    ),
            ),
            forall|p: u64|
                #[trigger] r@.missing.contains(p) <==> (!r@.exist.contains(p) && exists|i: int|
                    0 <= i < r@.links.len() && r@.links[i].1 == Some(p)),
    {
        let ghost links = comments@.map_values(
            |c: (CommentId, Option<CommentId>)|
                (
                    c.0.0,
                    match c.1 {
                        Some(p) => Some(p.0),
                        None => None,
                    },
                ),
        );
        let ghost ids = comments@.map_values(|c: (CommentId, Option<CommentId>)| c.0.0);
        let mut exist: KeySet<CommentId> = KeySet::new();
        let mut i: usize = 0;
        while i < comments.len()
            invariant
                0 <= i <= comments@.len(),
                ids == comments@.map_values(|c: (CommentId, Option<CommentId>)| c.0.0),
                exist@ == ids.subrange(0, i as int).to_set(),
            decreases comments@.len() - i,
        {
            exist.insert(comments[i].0);
            proof {
                assert(ids.subrange(0, i + 1) =~= ids.subrange(0, i as int).push(ids[i as int]));
                ids.subrange(0, i as int).lemma_push_to_set_commute(ids[i as int]);
            }
            i = i + 1;
        }
        assert(ids.subrange(0, comments@.len() as int) =~= ids);
        let mut r = MissingParents {
            exist,
            missing: Vec::new(),
            pending: None,
            links: Ghost(Seq::empty()),
        };
        let mut j: usize = 0;
        assert(links.subrange(0, 0) =~= Seq::<(u64, Option<u64>)>::empty());
        while j < comments.len()
            invariant
                0 <= j <= comments@.len(),
                links == comments@.map_values(
                    |c: (CommentId, Option<CommentId>)|
                        (
                            c.0.0,
                            match c.1 {
                                Some(p) => Some(p.0),
                                None => None,
                            },
                        ),
                ),
                ids == comments@.map_values(|c: (CommentId, Option<CommentId>)| c.0.0),
                r.exist@ == ids.to_set(),
                r.pending is None,
                r.links@ == links.subrange(0, j as int),
                strictly_increasing(r.missing@),
                forall|k: int| 0 <= k < r.missing@.len() ==> !r.exist@.contains(#[trigger] r.missing@[k]),
                forall|p: u64|
                    #[trigger] r.missing@.to_set().contains(p) <==> (!r.exist@.contains(p) && exists|k: int|
                        0 <= k < j && links[k].1 == Some(p)),
            decreases comments@.len() - j,
        {
            let ghost before = r.missing@.to_set();
            match comments[j].1 {
                Some(p) => {
                    r.note_parent(p.0);
                },
                None => {},
            }
            r.links = Ghost(links.subrange(0, j + 1));
            proof {
                assert forall|p: u64| #[trigger] r.missing@.to_set().contains(p) <==> (!r.exist@.contains(p)
                    && exists|k: int| 0 <= k < j + 1 && links[k].1 == Some(p)) by {
                    if !r.exist@.contains(p) && links[j as int].1 == Some(p) {
                        assert(r.missing@.to_set().contains(p));
                    }
                    if r.missing@.to_set().contains(p) && !before.contains(p) {
                        assert(links[j as int].1 == Some(p));
                    }
                }
            }
            j = j + 1;
        }
        assert(links.subrange(0, comments@.len() as int) =~= links);
        proof {
            assert forall|i: int|
                0 <= i < r.links@.len() && #[trigger] r.links@[i].1 is Some implies {
                let p = r.links@[i].1->0;
                r.exist@.contains(p) || r.missing@.to_set().contains(p)
            } by {
                let p = r.links@[i].1->0;
                if !r.exist@.contains(p) {
                    assert(links[i].1 == Some(p));
                }
            }
        }
        r
    }

    /// The comment to fetch now: the one requested and not answered yet,
    /// else the smallest missing one, which becomes requested; `None` when
    /// nothing is left, and then every comment gathered replies to one
    /// that is known.
    pub fn next(&mut self) -> (r: Option<CommentId>)
        requires
            old(self).wf(),
        ensures
            final(self).wf(),
            final(self)@.exist == old(self)@.exist,
            final(self)@.links == old(self)@.links,
            match old(self)@.pending {
                Some(m) => r == Some(CommentId(m)) && final(self)@ == old(self)@,
                None => if old(self)@.missing.is_empty() {
                    &&& r is None
                    &&& final(self)@ == old(self)@
                    &&& forall|i: int|
                        0 <= i < final(self)@.links.len() && #[trigger] final(self)@.links[i].1 is Some
                            ==> final(self)@.exist.contains(final(self)@.links[i].1->0)
                } else {
                    &&& r matches Some(c)
                    &&& old(self)@.missing.contains(c.0)
                    &&& forall|x: u64| #[trigger] old(self)@.missing.contains(x) ==> c.0 <= x
                    &&& final(self)@.pending == Some(c.0)
                    &&& final(self)@.missing == old(self)@.missing.remove(c.0)
                },
            },
    {
        if let Some(m) = self.pending {
            return Some(CommentId(m));
        }
        if self.missing.len() == 0 {
            proof {
                assert(self.missing@.to_set() =~= Set::<u64>::empty());
            }
            return None;
        }
        proof {
            assert(self.missing@.to_set().contains(self.missing@[0]));
        }
        let ghost old_missing = self.missing@;
        let m = self.missing.remove(0);
        self.pending = Some(m);
        proof {
            assert forall|x: u64| #[trigger] old_missing.to_set().contains(x) implies m <= x by {
                let k = choose|k: int| 0 <= k < old_missing.len() && old_missing[k] == x;
            }
            assert forall|x: u64| #[trigger] self.missing@.to_set().contains(x) == old_missing.to_set().remove(m).contains(x) by {
                if old_missing.to_set().remove(m).contains(x) {
                    let k = choose|k: int| 0 <= k < old_missing.len() && old_missing[k] == x;
                    assert(self.missing@[k - 1] == x);
                }
                if self.missing@.to_set().contains(x) {
                    let k = choose|k: int| 0 <= k < self.missing@.len() && self.missing@[k] == x;
                    assert(old_missing[k + 1] == x);
                }
            }
            assert(self.missing@.to_set() =~= old_missing.to_set().remove(m));
        }
        Some(CommentId(m))
    }

    /// Records the answer to the request: the comment `id`, replying to
    /// `parent`. The requested comment becomes known, and the comment it
    /// replies to becomes missing unless it is known.
    pub fn fetched(&mut self, id: CommentId, parent: Option<CommentId>)
        requires
            old(self).wf(),
        ensures
            final(self).wf(),
            final(self)@.exist == match old(self)@.pending {
                Some(m) => old(self)@.exist.insert(m),
                None => old(self)@.exist,
            },
            final(self)@.pending is None,
            final(self)@.links == old(self)@.links.push(
                (
                    id.0,
                    match parent {
                        Some(p) => Some(p.0),
                        None => None,
                    },
                ),
            ),
            final(self)@.missing == match parent {
                Some(p) => if final(self)@.exist.contains(p.0) {
                    old(self)@.missing
                } else {
                    old(self)@.missing.insert(p.0)
                },
                None => old(self)@.missing,
            },
    {
        let ghost old_links = self.links@;
        let ghost link = (
            id.0,
            match parent {
                Some(p) => Some(p.0),
                None => None,
            },
        );
        let ghost m0 = self@;
        if let Some(m) = self.pending {
            self.exist.insert(CommentId(m));
        }
        self.pending = None;
        proof {
            assert forall|i: int|
                0 <= i < self.links@.len() && #[trigger] self.links@[i].1 is Some implies {
                let p = self.links@[i].1->0;
                self.exist@.contains(p) || self.missing@.to_set().contains(p)
            } by {
                assert(m0.links[i] == self.links@[i]);
            }
        }
        match parent {
            Some(p) => {
                self.note_parent(p.0);
            },
            None => {},
        }
        self.links = Ghost(old_links.push(link));
        proof {
            assert forall|i: int|
                0 <= i < self.links@.len() && #[trigger] self.links@[i].1 is Some implies {
                let p = self.links@[i].1->0;
                self.exist@.contains(p) || self.missing@.to_set().contains(p)
            } by {
                if i < old_links.len() {
                    assert(self.links@[i] == old_links[i]);
                }
            }
        }
    }
}

/// The pace of image downloads for comments: after 40 comments whose
/// images were fetched, the fetcher pauses for the request interval.
#[derive(Debug, Clone, Copy)]
pub struct ImagePace {
    count: u32,
}

impl View for ImagePace {
    type V = nat;

    closed spec fn view(&self) -> nat {
        self.count as nat
    }
}

impl ImagePace {
    #[verifier::type_invariant]
    closed spec fn wf(&self) -> bool {
        self.count < 40
    }

    /// No comment handled yet.
    pub fn new() -> (r: Self)
        ensures
            r@ == 0,
    {
        ImagePace { count: 0 }
    }

    /// Records that the images of a comment were fetched (or not, when it
    /// has none), and says whether to pause now.
    pub fn comment_done(&mut self, fetched_images: bool) -> (pause: bool)
        ensures
            old(self)@ < 40,
            final(self)@ < 40,
            !fetched_images ==> !pause && final(self)@ == old(self)@,
            fetched_images ==> (pause <==> old(self)@ + 1 == 40),
            fetched_images ==> final(self)@ == (old(self)@ + 1) % 40,
    {
        proof {
            use_type_invariant(&*self);
        }
        if !fetched_images {
            return false;
        }
        if self.count + 1 == 40 {
            self.count = 0;
            true
        } else {
            self.count = self.count + 1;
            false
        }
    }
}

/// What was being fetched when fetching comments failed.
#[derive(Debug, Clone)]
pub enum ErrorComment {
    /// The root comments of an object.
    RootComment { root_type: RootType, root_id: String },
    /// The replies to a comment.
    ChildComment(CommentId),
    /// A single comment.
    Comment(CommentId),
}

/// Which step of a fetch failed.
#[derive(Debug, Clone, Copy)]
pub enum ErrorSource {
    /// The request.
    Http,
    /// Reading the reply.
    Json,
}

/// A failure while fetching comments.
#[derive(Debug, Clone)]
pub struct Error {
    pub comment: ErrorComment,
    pub source: ErrorSource,
}

/// The message of a failure.
pub open spec fn spec_error_text(e: Error) -> Seq<char> {
    let src = match e.source {
        ErrorSource::Http => "Http request"@,
        ErrorSource::Json => "Json parsing"@,
    };
    match e.comment {
        ErrorComment::RootComment { root_type, root_id } => concat(
            seq![
                src,
                " failed while fetching root comment in "@,
                spec_root_type_name(root_type),
                " "@,
                root_id@,
            ],
        ),
        ErrorComment::ChildComment(c) => concat(
            seq![src, " failed while fetching comment "@, decimal(c.0 as nat)],
        ),
        ErrorComment::Comment(c) => concat(
            seq![src, " failed while fetching child comment of "@, decimal(c.0 as nat)],
        ),
    }
}

impl Error {
    /// The message of the failure (its display text).
    pub fn describe(&self) -> (r: String)
        ensures
            r@ == spec_error_text(*self),
    {
        let src = match self.source {
            ErrorSource::Http => "Http request",
            ErrorSource::Json => "Json parsing",
        };
        match &self.comment {
            ErrorComment::RootComment { root_type, root_id } => {
                let t = root_type.name();
                let parts: [&str; 5] = [
                    src,
                    " failed while fetching root comment in ",
                    t.as_str(),
                    " ",
                    root_id.as_str(),
                ];
                let r = concat_strs(&parts);
                assert(parts@.map_values(|p: &str| p@) =~= seq![
                    src@,
                    " failed while fetching root comment in "@,
                    spec_root_type_name(*root_type),
                    " "@,
                    root_id@,
                ]);
                r
            },
            ErrorComment::ChildComment(c) => {
                let n = u64_to_string(c.0);
                let parts: [&str; 3] = [src, " failed while fetching comment ", n.as_str()];
                let r = concat_strs(&parts);
                assert(parts@.map_values(|p: &str| p@) =~= seq![
                    src@,
                    " failed while fetching comment "@,
                    decimal(c.0 as nat),
                ]);
                r
            },
            ErrorComment::Comment(c) => {
                let n = u64_to_string(c.0);
                let parts: [&str; 3] = [src, " failed while fetching child comment of ", n.as_str()];
                let r = concat_strs(&parts);
                assert(parts@.map_values(|p: &str| p@) =~= seq![
                    src@,
                    " failed while fetching child comment of "@,
                    decimal(c.0 as nat),
                ]);
                r
            },
        }
    }
}

} // verus!
