//! What applying a manifest leaf does: which items are brought up to date,
//! and which containers under them are applied in turn.
use crate::driver::manifest::spec::{
    BasicChild, CollectionChild, ColumnChild, CommentChild, ItemOption, ManifestLeaf,
    QuestionChild, UserChild, UserOption,
};
use crate::element::comment::CommentId;
use crate::store::info::{ContainerOption, ItemInfo};
use crate::store::{ObjectKey, ObjectRef, Store, StoreKey};
use crate::util::key_map::KeyMap;
use vstd::prelude::*;

verus! {

/// A container under an item that a manifest asks to apply, with what is
/// asked of its items.
#[derive(Debug, Clone, Copy)]
pub enum SubContainer {
    /// The comments of the item; with `children`, also the replies to each
    /// of its comments that has some.
    Comments { children: bool },
    /// Items with comments only (answers, articles, pins, or items of any
    /// kind), and what is asked of each.
    Basic { option: ContainerOption, child: BasicChild },
    /// Collections, and what is asked of each.
    Collections { option: ContainerOption, child: CollectionChild },
    /// Columns, and what is asked of each.
    Columns { child: ColumnChild },
}

/// The comment container a comment option asks for.
pub open spec fn comment_steps(c: Option<CommentChild>) -> Seq<SubContainer> {
    match c {
        Some(cc) => seq![SubContainer::Comments { children: cc.child == Some(true) }],
        None => seq![],
    }
}

/// The container of items with comments only that an option asks for.
pub open spec fn basic_steps(option: ContainerOption, c: Option<BasicChild>) -> Seq<SubContainer> {
    match c {
        Some(b) => seq![SubContainer::Basic { option, child: b }],
        None => seq![],
    }
}

/// The container of collections that an option asks for.
pub open spec fn collection_steps(option: ContainerOption, c: Option<CollectionChild>) -> Seq<
    SubContainer,
> {
    match c {
        Some(b) => seq![SubContainer::Collections { option, child: b }],
        None => seq![],
    }
}

/// The container of columns that an option asks for.
pub open spec fn column_steps(c: Option<ColumnChild>) -> Seq<SubContainer> {
    match c {
        Some(b) => seq![SubContainer::Columns { child: b }],
        None => seq![],
    }
}

fn push_comments(out: &mut Vec<SubContainer>, c: Option<CommentChild>)
    ensures
        final(out)@ == old(out)@ + comment_steps(c),
{
    match c {
        Some(cc) => {
            let children = match cc.child {
                Some(b) => b,
                None => false,
            };
            out.push(SubContainer::Comments { children });
            assert(out@ =~= old(out)@ + comment_steps(c));
        },
        None => {
            assert(out@ =~= old(out)@ + comment_steps(c));
        },
    }
}

fn push_basic(out: &mut Vec<SubContainer>, option: ContainerOption, c: Option<BasicChild>)
    ensures
        final(out)@ == old(out)@ + basic_steps(option, c),
{
    match c {
        Some(b) => {
            out.push(SubContainer::Basic { option, child: b });
        },
        None => {},
    }
    assert(out@ =~= old(out)@ + basic_steps(option, c));
}

/// Options of the children of an item: the containers under the item they
/// ask to apply, in the order they are applied.
pub trait ChildSteps: Sized {
    /// The containers asked for, in order.
    spec fn spec_steps(self) -> Seq<SubContainer>;

    /// The containers asked for, in order.
    fn steps(&self) -> (r: Vec<SubContainer>)
        ensures
            r@ == self.spec_steps(),
    ;
}

impl ChildSteps for BasicChild {
    /// Its comments.
    open spec fn spec_steps(self) -> Seq<SubContainer> {
        comment_steps(self.comment)
    }

    fn steps(&self) -> (r: Vec<SubContainer>) {
        let mut r: Vec<SubContainer> = Vec::new();
        push_comments(&mut r, self.comment);
        assert(r@ =~= self.spec_steps());
        r
    }
}

impl ChildSteps for CollectionChild {
    /// Its comments, then its items.
    open spec fn spec_steps(self) -> Seq<SubContainer> {
        comment_steps(self.comment) + basic_steps(ContainerOption::Item, self.item)
    }

    fn steps(&self) -> (r: Vec<SubContainer>) {
        let mut r: Vec<SubContainer> = Vec::new();
        push_comments(&mut r, self.comment);
        push_basic(&mut r, ContainerOption::Item, self.item);
        assert(r@ =~= self.spec_steps());
        r
    }
}

impl ChildSteps for ColumnChild {
    /// Its pinned items, then its regular items.
    open spec fn spec_steps(self) -> Seq<SubContainer> {
        basic_steps(ContainerOption::PinnedItem, self.pinned) + basic_steps(
            ContainerOption::Item,
            self.regular,
        )
    }

    fn steps(&self) -> (r: Vec<SubContainer>) {
        let mut r: Vec<SubContainer> = Vec::new();
        push_basic(&mut r, ContainerOption::PinnedItem, self.pinned);
        push_basic(&mut r, ContainerOption::Item, self.regular);
        assert(r@ =~= self.spec_steps());
        r
    }
}

impl ChildSteps for QuestionChild {
    /// Its answers, then its comments.
    open spec fn spec_steps(self) -> Seq<SubContainer> {
        basic_steps(ContainerOption::Answer, self.answer) + comment_steps(self.comment)
    }

    fn steps(&self) -> (r: Vec<SubContainer>) {
        let mut r: Vec<SubContainer> = Vec::new();
        push_basic(&mut r, ContainerOption::Answer, self.answer);
        push_comments(&mut r, self.comment);
        assert(r@ =~= self.spec_steps());
        r
    }
}

impl ChildSteps for UserChild {
    /// Its answers, articles, created and liked collections, columns and
    /// pins; the question option is not applied.
    open spec fn spec_steps(self) -> Seq<SubContainer> {
        basic_steps(ContainerOption::Answer, self.answer) + basic_steps(
            ContainerOption::Article,
            self.article,
        ) + collection_steps(
            ContainerOption::Created,
            match self.collection {
                Some(c) => c.created,
                None => None,
            },
        ) + collection_steps(
            ContainerOption::Liked,
            match self.collection {
                Some(c) => c.liked,
                None => None,
            },
        ) + column_steps(self.column) + basic_steps(ContainerOption::Pin, self.pin)
    }

    fn steps(&self) -> (r: Vec<SubContainer>) {
        let mut r: Vec<SubContainer> = Vec::new();
        push_basic(&mut r, ContainerOption::Answer, self.answer);
        push_basic(&mut r, ContainerOption::Article, self.article);
        let (created, liked) = match self.collection {
            Some(c) => (c.created, c.liked),
            None => (None, None),
        };
        let ghost r0 = r@;
        match created {
            Some(b) => r.push(SubContainer::Collections { option: ContainerOption::Created, child: b }),
            None => {},
        }
        assert(r@ =~= r0 + collection_steps(ContainerOption::Created, created));
        let ghost r1 = r@;
        match liked {
            Some(b) => r.push(SubContainer::Collections { option: ContainerOption::Liked, child: b }),
            None => {},
        }
        assert(r@ =~= r1 + collection_steps(ContainerOption::Liked, liked));
        let ghost r2 = r@;
        match self.column {
            Some(b) => r.push(SubContainer::Columns { child: b }),
            None => {},
        }
        assert(r@ =~= r2 + column_steps(self.column));
        push_basic(&mut r, ContainerOption::Pin, self.pin);
        assert(r@ =~= self.spec_steps());
        r
    }
}

/// What a run asks of each item of a container of items with comments
/// only, given the option of the container.
pub open spec fn spec_sub_steps(s: SubContainer) -> Seq<SubContainer> {
    match s {
        SubContainer::Comments { .. } => seq![],
        SubContainer::Basic { child, .. } => child.spec_steps(),
        SubContainer::Collections { child, .. } => child.spec_steps(),
        SubContainer::Columns { child } => child.spec_steps(),
    }
}

impl SubContainer {
    /// What is applied to each item of the container once it is fetched
    /// (the replies of comments are handled by `Comments` itself).
    pub fn item_steps(&self) -> (r: Vec<SubContainer>)
        ensures
            r@ == spec_sub_steps(*self),
    {
        match self {
            SubContainer::Comments { .. } => Vec::new(),
            SubContainer::Basic { child, .. } => child.steps(),
            SubContainer::Collections { child, .. } => child.steps(),
            SubContainer::Columns { child } => child.steps(),
        }
    }
}

/// One item of a manifest leaf to bring up to date.
#[derive(Debug)]
pub struct LeafJob {
    /// The object.
    pub object: ObjectRef,
    /// For a user, the URL token it is kept under.
    pub url_token: Option<String>,
    /// Whether the object itself is needed afterwards (its options ask for
    /// some of its containers).
    pub wanted: bool,
    /// The containers under it to apply, in order.
    pub steps: Vec<SubContainer>,
}

/// The value of a job.
pub struct JobModel {
    pub object: ObjectKey,
    pub url_token: Option<Seq<char>>,
    pub wanted: bool,
    pub steps: Seq<SubContainer>,
}

impl View for LeafJob {
    type V = JobModel;

    open spec fn view(&self) -> JobModel {
        JobModel {
            object: self.object@,
            url_token: match self.url_token {
                Some(t) => Some(t@),
                None => None,
            },
            wanted: self.wanted,
            steps: self.steps@,
        }
    }
}

/// The job of an item given with its options.
pub open spec fn item_job<K: StoreKey, C: ChildSteps>(e: (K, ItemOption<C>)) -> JobModel {
    JobModel {
        object: K::spec_object(e.0@),
        url_token: None,
        wanted: e.1.child is Some,
        steps: match e.1.child {
            Some(c) => c.spec_steps(),
            None => seq![],
        },
    }
}

/// The jobs of the items of one map, in its order.
pub open spec fn item_jobs<K: StoreKey, C: ChildSteps>(s: Seq<(K, ItemOption<C>)>) -> Seq<JobModel> {
    s.map_values(|e: (K, ItemOption<C>)| item_job(e))
}

/// The job of a user given by URL token with its options.
pub open spec fn user_job(e: (String, UserOption)) -> JobModel {
    JobModel {
        object: ObjectKey::User(e.1.id@),
        url_token: Some(e.0@),
        wanted: e.1.child is Some,
        steps: match e.1.child {
            Some(c) => c.spec_steps(),
            None => seq![],
        },
    }
}

/// The jobs of a manifest leaf: answers, articles, collections, columns,
/// pins, questions and users, each kind in the order of its map.
pub open spec fn spec_leaf_jobs(leaf: ManifestLeaf) -> Seq<JobModel> {
    item_jobs(leaf.answer.spec_entries()) + item_jobs(leaf.article.spec_entries()) + item_jobs(
        leaf.collection.spec_entries(),
    ) + item_jobs(leaf.column.spec_entries()) + item_jobs(leaf.pin.spec_entries()) + item_jobs(
        leaf.question.spec_entries(),
    ) + leaf.user.spec_entries().map_values(|e: (String, UserOption)| user_job(e))
}

fn push_item_jobs<K: StoreKey, C: ChildSteps + Copy>(
    m: &KeyMap<K, ItemOption<C>>,
    out: &mut Vec<LeafJob>,
)
    ensures
        final(out)@.map_values(|j: LeafJob| j@) == old(out)@.map_values(|j: LeafJob| j@) + item_jobs(
            m.spec_entries(),
        ),
        m.in_key_order(),
{
    let entries = m.entries();
    let ghost o0 = out@.map_values(|j: LeafJob| j@);
    let mut i: usize = 0;
    while i < entries.len()
        invariant
            0 <= i <= entries@.len(),
            entries@ == m.spec_entries(),
            out@.map_values(|j: LeafJob| j@) == o0 + item_jobs(entries@.subrange(0, i as int)),
        decreases entries@.len() - i,
    {
        let (k, opt) = &entries[i];
        let steps = match opt.child {
            Some(c) => c.steps(),
            None => Vec::new(),
        };
        let job = LeafJob {
            object: k.object_ref(),
            url_token: None,
            wanted: opt.child.is_some(),
            steps,
        };
        let ghost prev = out@;
        out.push(job);
        proof {
            assert(job@ == item_job(entries@[i as int]));
            assert(out@.map_values(|j: LeafJob| j@) =~= prev.map_values(|j: LeafJob| j@).push(job@));
            assert(item_jobs(entries@.subrange(0, i + 1)) =~= item_jobs(
                entries@.subrange(0, i as int),
            ).push(item_job(entries@[i as int])));
        }
        i = i + 1;
    }
    assert(entries@.subrange(0, entries@.len() as int) =~= entries@);
}

impl ManifestLeaf {
    /// The items the leaf asks to bring up to date, with the containers
    /// under each to apply: kind by kind, each kind's objects in ascending
    /// key order (the maps' entries are in key order).
    pub fn jobs(&self) -> (r: Vec<LeafJob>)
        ensures
            r@.map_values(|j: LeafJob| j@) == spec_leaf_jobs(*self),
            self.answer.in_key_order(),
            self.article.in_key_order(),
            self.collection.in_key_order(),
            self.column.in_key_order(),
            self.pin.in_key_order(),
            self.question.in_key_order(),
            self.user.in_key_order(),
    {
        let mut r: Vec<LeafJob> = Vec::new();
        push_item_jobs(&self.answer, &mut r);
        push_item_jobs(&self.article, &mut r);
        push_item_jobs(&self.collection, &mut r);
        push_item_jobs(&self.column, &mut r);
        push_item_jobs(&self.pin, &mut r);
        push_item_jobs(&self.question, &mut r);
        let entries = self.user.entries();
        let ghost o0 = r@.map_values(|j: LeafJob| j@);
        let mut i: usize = 0;
        while i < entries.len()
            invariant
                0 <= i <= entries@.len(),
                entries@ == self.user.spec_entries(),
                r@.map_values(|j: LeafJob| j@) == o0 + entries@.subrange(0, i as int).map_values(
                    |e: (String, UserOption)| user_job(e),
                ),
            decreases entries@.len() - i,
        {
            let (token, opt) = &entries[i];
            let steps = match opt.child {
                Some(c) => c.steps(),
                None => Vec::new(),
            };
            let job = LeafJob {
                object: ObjectRef::User(opt.id),
                url_token: Some(token.clone()),
                wanted: opt.child.is_some(),
                steps,
            };
            let ghost prev = r@;
            r.push(job);
            proof {
                assert(job@ == user_job(entries@[i as int]));
                assert(r@.map_values(|j: LeafJob| j@) =~= prev.map_values(|j: LeafJob| j@).push(
                    job@,
                ));
                assert(entries@.subrange(0, i + 1).map_values(|e: (String, UserOption)| user_job(e))
                    =~= entries@.subrange(0, i as int).map_values(
                    |e: (String, UserOption)| user_job(e),
                ).push(user_job(entries@[i as int])));
            }
            i = i + 1;
        }
        assert(entries@.subrange(0, entries@.len() as int) =~= entries@);
        assert(r@.map_values(|j: LeafJob| j@) =~= spec_leaf_jobs(*self));
        r
    }
}

/// Whether a job is carried out: the store does not know the object to be
/// gone from the server.
pub fn should_apply(store: &Store, job: &LeafJob) -> (r: bool)
    ensures
        r == store.spec_info(job.object@).on_server,
{
    store.in_store(&job.object).on_server
}

/// Where the object that an item job yields for its containers comes from.
#[derive(Debug, Clone, Copy, PartialEq, Eq)]
pub enum ItemSource {
    /// No object: the containers under it are not applied.
    Nothing,
    /// The object just fetched.
    Fetched,
    /// The object read back from the store.
    Stored,
}

/// What carrying out an item job does.
#[derive(Debug, Clone, Copy, PartialEq, Eq)]
pub struct ItemPlan {
    /// Whether the object is fetched from the site and added to the store.
    pub fetch: bool,
    /// The object the job yields for its containers.
    pub result: ItemSource,
}

/// What an item job does with what the store records of its object: an
/// object known to be gone from the server is neither fetched nor yields
/// anything; otherwise it is fetched where it is not stored yet, and where
/// the job's options ask for containers under it, it yields the fetched
/// object or else the stored one. The containers are applied only under a
/// yielded object.
pub open spec fn spec_item_plan(info: ItemInfo, wanted: bool) -> ItemPlan {
    if !info.on_server {
        ItemPlan { fetch: false, result: ItemSource::Nothing }
    } else {
        ItemPlan {
            fetch: !info.in_store,
            result: if !wanted {
                ItemSource::Nothing
            } else if info.in_store {
                ItemSource::Stored
            } else {
                ItemSource::Fetched
            },
        }
    }
}

/// What carrying out a job does (see `spec_item_plan`).
pub fn item_plan(store: &Store, job: &LeafJob) -> (r: ItemPlan)
    ensures
        r == spec_item_plan(store.spec_info(job.object@), job.wanted),
{
    let info = store.in_store(&job.object);
    if !info.on_server {
        ItemPlan { fetch: false, result: ItemSource::Nothing }
    } else {
        let result = if !job.wanted {
            ItemSource::Nothing
        } else if info.in_store {
            ItemSource::Stored
        } else {
            ItemSource::Fetched
        };
        ItemPlan { fetch: !info.in_store, result }
    }
}

/// How applying a leaf ends, given for each of its jobs, in order, whether
/// carrying it out (the item and the containers under it) succeeded: at the
/// first job that failed, whose place it gives, the later jobs skipped;
/// `Ok` where every job succeeded. A job whose object is gone from the
/// server does nothing and cannot fail.
pub fn leaf_run(store: &Store, jobs: &Vec<LeafJob>, ok: &Vec<bool>) -> (r: Result<(), usize>)
    requires
        ok@.len() == jobs@.len(),
    ensures
        match r {
            Ok(()) => forall|j: int|
                0 <= j < jobs@.len() && #[trigger] store.spec_info(jobs@[j].object@).on_server
                    ==> ok@[j],
            Err(j) => j < jobs@.len() && store.spec_info(jobs@[j as int].object@).on_server
                && !ok@[j as int] && forall|i: int|
                0 <= i < j && #[trigger] store.spec_info(jobs@[i].object@).on_server ==> ok@[i],
        },
{
    let mut j: usize = 0;
    while j < jobs.len()
        invariant
            ok@.len() == jobs@.len(),
            0 <= j <= jobs@.len(),
            forall|i: int|
                0 <= i < j && #[trigger] store.spec_info(jobs@[i].object@).on_server ==> ok@[i],
        decreases jobs@.len() - j,
    {
        if should_apply(store, &jobs[j]) && !ok[j] {
            return Err(j);
        }
        j = j + 1;
    }
    Ok(())
}

/// Whether the comments of an object are applied, for a comments step:
/// only where the object has comments.
pub fn applies_comments(step: &SubContainer, has_comments: bool) -> (r: bool)
    ensures
        r == (step is Comments && has_comments),
{
    match step {
        SubContainer::Comments { .. } => has_comments,
        _ => false,
    }
}

/// Whether the comment section of an object has comments on the server,
/// going by what the site said of the object when it was fetched: for
/// answers, articles and questions, whether their comment count was above
/// zero (`flag`); for a comment, whether it has replies (`flag`);
/// collections and pins carry no such count, and their sections are taken
/// to have comments; columns and users have no comment section, nor has an
/// object of a kind this program does not know (`None`).
pub fn has_item(owner: Option<&ObjectRef>, flag: bool) -> (r: bool)
    ensures
        r == match owner {
            None => false,
            Some(o) => match o {
                ObjectRef::Answer(_) => flag,
                ObjectRef::Article(_) => flag,
                ObjectRef::Question(_) => flag,
                ObjectRef::Comment(_) => flag,
                ObjectRef::Collection(_) => true,
                ObjectRef::Pin(_) => true,
                ObjectRef::Column(_) => false,
                ObjectRef::User(_) => false,
            },
        },
{
    match owner {
        None => false,
        Some(o) => match o {
            ObjectRef::Answer(_) => flag,
            ObjectRef::Article(_) => flag,
            ObjectRef::Question(_) => flag,
            ObjectRef::Comment(_) => flag,
            ObjectRef::Collection(_) => true,
            ObjectRef::Pin(_) => true,
            ObjectRef::Column(_) => false,
            ObjectRef::User(_) => false,
        },
    }
}

/// The root comments whose replies are applied after the comments of an
/// object: where the step asks for replies, those of the roots that have
/// replies, in order; otherwise none.
pub fn reply_roots(step: &SubContainer, roots: &Vec<(CommentId, bool)>) -> (r: Vec<CommentId>)
    ensures
        r@ == (if step matches SubContainer::Comments { children: true } {
            roots@.filter(|e: (CommentId, bool)| e.1).map_values(|e: (CommentId, bool)| e.0)
        } else {
            Seq::<CommentId>::empty()
        }),
{
    let wanted = match step {
        SubContainer::Comments { children } => *children,
        _ => false,
    };
    let mut r: Vec<CommentId> = Vec::new();
    if !wanted {
        return r;
    }
    let ghost f = |e: (CommentId, bool)| e.1;
    let mut i: usize = 0;
    while i < roots.len()
        invariant
            0 <= i <= roots@.len(),
            f == (|e: (CommentId, bool)| e.1),
            r@ == roots@.subrange(0, i as int).filter(f).map_values(|e: (CommentId, bool)| e.0),
        decreases roots@.len() - i,
    {
        let ghost s0 = roots@.subrange(0, i as int);
        proof {
            assert(roots@.subrange(0, i + 1) =~= s0.push(roots@[i as int]));
            s0.lemma_filter_push(roots@[i as int], f);
        }
        let (id, has) = roots[i];
        if has {
            r.push(id);
            proof {
                assert(s0.filter(f).push(roots@[i as int]).map_values(|e: (CommentId, bool)| e.0)
                    =~= s0.filter(f).map_values(|e: (CommentId, bool)| e.0).push(id));
            }
        }
        i = i + 1;
    }
    assert(roots@.subrange(0, roots@.len() as int) =~= roots@);
    r
}

} // verus!
