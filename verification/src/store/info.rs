//! What the store records of each object: whether it is stored, whether
//! it is still on the server, and which of its containers are stored.
use vstd::prelude::*;

verus! {

/// Whether an object is stored, and whether the server still has it.
#[derive(Debug, Clone, Copy, PartialEq, Eq)]
pub struct ItemInfo {
    pub in_store: bool,
    pub on_server: bool,
}

/// The record of an object that was never stored.
pub open spec fn spec_default_item_info() -> ItemInfo {
    ItemInfo { in_store: false, on_server: true }
}

impl Default for ItemInfo {
    fn default() -> (r: Self)
        ensures
            r == spec_default_item_info(),
    {
        ItemInfo { in_store: false, on_server: true }
    }
}

/// Which collections of a user are stored.
#[derive(Debug, Clone, Copy, PartialEq, Eq)]
pub struct UserCollection {
    pub created: bool,
    pub liked: bool,
}

impl Default for UserCollection {
    fn default() -> (r: Self)
        ensures
            !r.created && !r.liked,
    {
        UserCollection { created: false, liked: false }
    }
}

/// The options that select the items of a container of an object.
#[derive(Debug, Clone, Copy, PartialEq, Eq, Structural)]
pub enum ContainerOption {
    Comment,
    Item,
    PinnedItem,
    Answer,
    Activity,
    Article,
    Created,
    Liked,
    Column,
    Pin,
    Question,
}

/// Records that hold an `ItemInfo` for the object itself.
pub trait HasContainer: Sized {
    /// The record of an object never seen.
    spec fn spec_default() -> Self;

    /// The `ItemInfo` of the object itself.
    spec fn spec_container(self) -> ItemInfo;

    /// The record with its `ItemInfo` replaced.
    spec fn spec_with_container(self, info: ItemInfo) -> Self;

    /// The record of an object never seen.
    fn default_record() -> (r: Self)
        ensures
            r == Self::spec_default(),
    ;

    /// The `ItemInfo` of the object itself.
    fn container(&self) -> (r: ItemInfo)
        ensures
            r == self.spec_container(),
    ;

    /// Replaces the `ItemInfo` of the object itself.
    fn set_container(&mut self, info: ItemInfo)
        ensures
            *final(self) == old(self).spec_with_container(info),
    ;

    /// The record of an object never seen holds the default `ItemInfo`.
    proof fn lemma_default_container()
        ensures
            Self::spec_default().spec_container() == spec_default_item_info(),
    ;

    /// Replacing the `ItemInfo` is seen by reading it.
    proof fn lemma_with_container(r: Self, info: ItemInfo)
        ensures
            r.spec_with_container(info).spec_container() == info,
    ;

    /// Replacing the `ItemInfo` keeps the container flags.
    proof fn lemma_with_container_flags(r: Self, info: ItemInfo)
        ensures
            forall|p: ContainerOption| #[trigger] r.spec_with_container(info).spec_flag(p) == r.spec_flag(p),
    ;

    /// Whether the record keeps a flag for the container selected by `o`.
    spec fn spec_has_flag(o: ContainerOption) -> bool;

    /// Whether the container selected by `o` is stored.
    spec fn spec_flag(self, o: ContainerOption) -> bool;

    /// Whether the container selected by `o` is stored.
    fn flag(&self, o: ContainerOption) -> (r: bool)
        ensures
            r == self.spec_flag(o),
    ;

    /// Records that the container selected by `o` is stored, where the
    /// record keeps a flag for it.
    fn set_flag(&mut self, o: ContainerOption)
        ensures
            final(self).spec_container() == old(self).spec_container(),
            forall|p: ContainerOption| #[trigger]
                final(self).spec_flag(p) == if p == o && Self::spec_has_flag(o) {
                    true
                } else {
                    old(self).spec_flag(p)
                },
    ;

    /// A record holds only the flags it keeps, and none is set at first.
    proof fn lemma_flags(r: Self)
        ensures
            forall|p: ContainerOption| #[trigger] r.spec_flag(p) ==> Self::spec_has_flag(p),
            forall|p: ContainerOption| !#[trigger] Self::spec_default().spec_flag(p),
    ;
}

/// The record of a stored answer.
#[derive(Debug, Clone, Copy)]
pub struct Answer {
    pub container: ItemInfo,
    pub comment: bool,
}

impl HasContainer for Answer {
    open spec fn spec_default() -> Self {
        Answer { container: ItemInfo { in_store: false, on_server: true }, comment: false }
    }

    open spec fn spec_container(self) -> ItemInfo {
        self.container
    }

    open spec fn spec_with_container(self, info: ItemInfo) -> Self {
        Answer { container: info, ..self }
    }

    fn default_record() -> (r: Self) {
        Answer { container: ItemInfo { in_store: false, on_server: true }, comment: false }
    }

    fn container(&self) -> (r: ItemInfo) {
        self.container
    }

    fn set_container(&mut self, info: ItemInfo) {
        self.container = info;
    }

    proof fn lemma_default_container() {
    }

    proof fn lemma_with_container(r: Self, info: ItemInfo) {
    }

    proof fn lemma_with_container_flags(r: Self, info: ItemInfo) {
        assert forall|p: ContainerOption| #[trigger] r.spec_with_container(info).spec_flag(p) == r.spec_flag(p) by {
            let q = r.spec_with_container(info);
            assert(q == Self { container: info, ..r });
        }
    }

    open spec fn spec_has_flag(o: ContainerOption) -> bool {
        o == ContainerOption::Comment
    }

    open spec fn spec_flag(self, o: ContainerOption) -> bool {
        match o {
            ContainerOption::Comment => self.comment,
            _ => false,
        }
    }

    fn flag(&self, o: ContainerOption) -> (r: bool) {
        match o {
            ContainerOption::Comment => self.comment,
            _ => false,
        }
    }

    fn set_flag(&mut self, o: ContainerOption) {
        match o {
            ContainerOption::Comment => {
                self.comment = true;
            },
            _ => {},
        }
    }

    proof fn lemma_flags(r: Self) {
    }
}

/// The record of a stored article.
#[derive(Debug, Clone, Copy)]
pub struct Article {
    pub container: ItemInfo,
    pub comment: bool,
}

impl HasContainer for Article {
    open spec fn spec_default() -> Self {
        Article { container: ItemInfo { in_store: false, on_server: true }, comment: false }
    }

    open spec fn spec_container(self) -> ItemInfo {
        self.container
    }

    open spec fn spec_with_container(self, info: ItemInfo) -> Self {
        Article { container: info, ..self }
    }

    fn default_record() -> (r: Self) {
        Article { container: ItemInfo { in_store: false, on_server: true }, comment: false }
    }

    fn container(&self) -> (r: ItemInfo) {
        self.container
    }

    fn set_container(&mut self, info: ItemInfo) {
        self.container = info;
    }

    proof fn lemma_default_container() {
    }

    proof fn lemma_with_container(r: Self, info: ItemInfo) {
    }

    proof fn lemma_with_container_flags(r: Self, info: ItemInfo) {
        assert forall|p: ContainerOption| #[trigger] r.spec_with_container(info).spec_flag(p) == r.spec_flag(p) by {
            let q = r.spec_with_container(info);
            assert(q == Self { container: info, ..r });
        }
    }

    open spec fn spec_has_flag(o: ContainerOption) -> bool {
        o == ContainerOption::Comment
    }

    open spec fn spec_flag(self, o: ContainerOption) -> bool {
        match o {
            ContainerOption::Comment => self.comment,
            _ => false,
        }
    }

    fn flag(&self, o: ContainerOption) -> (r: bool) {
        match o {
            ContainerOption::Comment => self.comment,
            _ => false,
        }
    }

    fn set_flag(&mut self, o: ContainerOption) {
        match o {
            ContainerOption::Comment => {
                self.comment = true;
            },
            _ => {},
        }
    }

    proof fn lemma_flags(r: Self) {
    }
}

/// The record of a stored collection.
#[derive(Debug, Clone, Copy)]
pub struct Collection {
    pub container: ItemInfo,
    pub item: bool,
    pub comment: bool,
}

impl HasContainer for Collection {
    open spec fn spec_default() -> Self {
        Collection { container: ItemInfo { in_store: false, on_server: true }, item: false, comment: false }
    }

    open spec fn spec_container(self) -> ItemInfo {
        self.container
    }

    open spec fn spec_with_container(self, info: ItemInfo) -> Self {
        Collection { container: info, ..self }
    }

    fn default_record() -> (r: Self) {
        Collection { container: ItemInfo { in_store: false, on_server: true }, item: false, comment: false }
    }

    fn container(&self) -> (r: ItemInfo) {
        self.container
    }

    fn set_container(&mut self, info: ItemInfo) {
        self.container = info;
    }

    proof fn lemma_default_container() {
    }

    proof fn lemma_with_container(r: Self, info: ItemInfo) {
    }

    proof fn lemma_with_container_flags(r: Self, info: ItemInfo) {
        assert forall|p: ContainerOption| #[trigger] r.spec_with_container(info).spec_flag(p) == r.spec_flag(p) by {
            let q = r.spec_with_container(info);
            assert(q == Self { container: info, ..r });
        }
    }

    open spec fn spec_has_flag(o: ContainerOption) -> bool {
        o == ContainerOption::Item || o == ContainerOption::Comment
    }

    open spec fn spec_flag(self, o: ContainerOption) -> bool {
        match o {
            ContainerOption::Item => self.item,
            ContainerOption::Comment => self.comment,
            _ => false,
        }
    }

    fn flag(&self, o: ContainerOption) -> (r: bool) {
        match o {
            ContainerOption::Item => self.item,
            ContainerOption::Comment => self.comment,
            _ => false,
        }
    }

    fn set_flag(&mut self, o: ContainerOption) {
        match o {
            ContainerOption::Item => {
                self.item = true;
            },
            ContainerOption::Comment => {
                self.comment = true;
            },
            _ => {},
        }
    }

    proof fn lemma_flags(r: Self) {
    }
}

/// The record of a stored column.
#[derive(Debug, Clone, Copy)]
pub struct Column {
    pub container: ItemInfo,
    pub item: bool,
    pub pinned_item: bool,
}

impl HasContainer for Column {
    open spec fn spec_default() -> Self {
        Column { container: ItemInfo { in_store: false, on_server: true }, item: false, pinned_item: false }
    }

    open spec fn spec_container(self) -> ItemInfo {
        self.container
    }

    open spec fn spec_with_container(self, info: ItemInfo) -> Self {
        Column { container: info, ..self }
    }

    fn default_record() -> (r: Self) {
        Column { container: ItemInfo { in_store: false, on_server: true }, item: false, pinned_item: false }
    }

    fn container(&self) -> (r: ItemInfo) {
        self.container
    }

    fn set_container(&mut self, info: ItemInfo) {
        self.container = info;
    }

    proof fn lemma_default_container() {
    }

    proof fn lemma_with_container(r: Self, info: ItemInfo) {
    }

    proof fn lemma_with_container_flags(r: Self, info: ItemInfo) {
        assert forall|p: ContainerOption| #[trigger] r.spec_with_container(info).spec_flag(p) == r.spec_flag(p) by {
            let q = r.spec_with_container(info);
            assert(q == Self { container: info, ..r });
        }
    }

    open spec fn spec_has_flag(o: ContainerOption) -> bool {
        o == ContainerOption::Item || o == ContainerOption::PinnedItem
    }

    open spec fn spec_flag(self, o: ContainerOption) -> bool {
        match o {
            ContainerOption::Item => self.item,
            ContainerOption::PinnedItem => self.pinned_item,
            _ => false,
        }
    }

    fn flag(&self, o: ContainerOption) -> (r: bool) {
        match o {
            ContainerOption::Item => self.item,
            ContainerOption::PinnedItem => self.pinned_item,
            _ => false,
        }
    }

    fn set_flag(&mut self, o: ContainerOption) {
        match o {
            ContainerOption::Item => {
                self.item = true;
            },
            ContainerOption::PinnedItem => {
                self.pinned_item = true;
            },
            _ => {},
        }
    }

    proof fn lemma_flags(r: Self) {
    }
}

/// The record of a stored comment.
#[derive(Debug, Clone, Copy)]
pub struct Comment {
    pub container: ItemInfo,
    pub comment: bool,
}

impl HasContainer for Comment {
    open spec fn spec_default() -> Self {
        Comment { container: ItemInfo { in_store: false, on_server: true }, comment: false }
    }

    open spec fn spec_container(self) -> ItemInfo {
        self.container
    }

    open spec fn spec_with_container(self, info: ItemInfo) -> Self {
        Comment { container: info, ..self }
    }

    fn default_record() -> (r: Self) {
        Comment { container: ItemInfo { in_store: false, on_server: true }, comment: false }
    }

    fn container(&self) -> (r: ItemInfo) {
        self.container
    }

    fn set_container(&mut self, info: ItemInfo) {
        self.container = info;
    }

    proof fn lemma_default_container() {
    }

    proof fn lemma_with_container(r: Self, info: ItemInfo) {
    }

    proof fn lemma_with_container_flags(r: Self, info: ItemInfo) {
        assert forall|p: ContainerOption| #[trigger] r.spec_with_container(info).spec_flag(p) == r.spec_flag(p) by {
            let q = r.spec_with_container(info);
            assert(q == Self { container: info, ..r });
        }
    }

    open spec fn spec_has_flag(o: ContainerOption) -> bool {
        o == ContainerOption::Comment
    }

    open spec fn spec_flag(self, o: ContainerOption) -> bool {
        match o {
            ContainerOption::Comment => self.comment,
            _ => false,
        }
    }

    fn flag(&self, o: ContainerOption) -> (r: bool) {
        match o {
            ContainerOption::Comment => self.comment,
            _ => false,
        }
    }

    fn set_flag(&mut self, o: ContainerOption) {
        match o {
            ContainerOption::Comment => {
                self.comment = true;
            },
            _ => {},
        }
    }

    proof fn lemma_flags(r: Self) {
    }
}

/// The record of a stored pin.
#[derive(Debug, Clone, Copy)]
pub struct Pin {
    pub container: ItemInfo,
    pub comment: bool,
}

impl HasContainer for Pin {
    open spec fn spec_default() -> Self {
        Pin { container: ItemInfo { in_store: false, on_server: true }, comment: false }
    }

    open spec fn spec_container(self) -> ItemInfo {
        self.container
    }

    open spec fn spec_with_container(self, info: ItemInfo) -> Self {
        Pin { container: info, ..self }
    }

    fn default_record() -> (r: Self) {
        Pin { container: ItemInfo { in_store: false, on_server: true }, comment: false }
    }

    fn container(&self) -> (r: ItemInfo) {
        self.container
    }

    fn set_container(&mut self, info: ItemInfo) {
        self.container = info;
    }

    proof fn lemma_default_container() {
    }

    proof fn lemma_with_container(r: Self, info: ItemInfo) {
    }

    proof fn lemma_with_container_flags(r: Self, info: ItemInfo) {
        assert forall|p: ContainerOption| #[trigger] r.spec_with_container(info).spec_flag(p) == r.spec_flag(p) by {
            let q = r.spec_with_container(info);
            assert(q == Self { container: info, ..r });
        }
    }

    open spec fn spec_has_flag(o: ContainerOption) -> bool {
        o == ContainerOption::Comment
    }

    open spec fn spec_flag(self, o: ContainerOption) -> bool {
        match o {
            ContainerOption::Comment => self.comment,
            _ => false,
        }
    }

    fn flag(&self, o: ContainerOption) -> (r: bool) {
        match o {
            ContainerOption::Comment => self.comment,
            _ => false,
        }
    }

    fn set_flag(&mut self, o: ContainerOption) {
        match o {
            ContainerOption::Comment => {
                self.comment = true;
            },
            _ => {},
        }
    }

    proof fn lemma_flags(r: Self) {
    }
}

/// The record of a stored question.
#[derive(Debug, Clone, Copy)]
pub struct Question {
    pub container: ItemInfo,
    pub answer: bool,
    pub comment: bool,
}

impl HasContainer for Question {
    open spec fn spec_default() -> Self {
        Question { container: ItemInfo { in_store: false, on_server: true }, answer: false, comment: false }
    }

    open spec fn spec_container(self) -> ItemInfo {
        self.container
    }

    open spec fn spec_with_container(self, info: ItemInfo) -> Self {
        Question { container: info, ..self }
    }

    fn default_record() -> (r: Self) {
        Question { container: ItemInfo { in_store: false, on_server: true }, answer: false, comment: false }
    }

    fn container(&self) -> (r: ItemInfo) {
        self.container
    }

    fn set_container(&mut self, info: ItemInfo) {
        self.container = info;
    }

    proof fn lemma_default_container() {
    }

    proof fn lemma_with_container(r: Self, info: ItemInfo) {
    }

    proof fn lemma_with_container_flags(r: Self, info: ItemInfo) {
        assert forall|p: ContainerOption| #[trigger] r.spec_with_container(info).spec_flag(p) == r.spec_flag(p) by {
            let q = r.spec_with_container(info);
            assert(q == Self { container: info, ..r });
        }
    }

    open spec fn spec_has_flag(o: ContainerOption) -> bool {
        o == ContainerOption::Answer || o == ContainerOption::Comment
    }

    open spec fn spec_flag(self, o: ContainerOption) -> bool {
        match o {
            ContainerOption::Answer => self.answer,
            ContainerOption::Comment => self.comment,
            _ => false,
        }
    }

    fn flag(&self, o: ContainerOption) -> (r: bool) {
        match o {
            ContainerOption::Answer => self.answer,
            ContainerOption::Comment => self.comment,
            _ => false,
        }
    }

    fn set_flag(&mut self, o: ContainerOption) {
        match o {
            ContainerOption::Answer => {
                self.answer = true;
            },
            ContainerOption::Comment => {
                self.comment = true;
            },
            _ => {},
        }
    }

    proof fn lemma_flags(r: Self) {
    }
}

/// The record of a stored user.
#[derive(Debug, Clone, Copy)]
pub struct User {
    pub container: ItemInfo,
    pub activity: bool,
    pub answer: bool,
    pub article: bool,
    pub collection: UserCollection,
    pub column: bool,
    pub pin: bool,
    pub question: bool,
}

impl HasContainer for User {
    open spec fn spec_default() -> Self {
        User { container: ItemInfo { in_store: false, on_server: true }, activity: false, answer: false, article: false, collection: UserCollection { created: false, liked: false }, column: false, pin: false, question: false }
    }

    open spec fn spec_container(self) -> ItemInfo {
        self.container
    }

    open spec fn spec_with_container(self, info: ItemInfo) -> Self {
        User { container: info, ..self }
    }

    fn default_record() -> (r: Self) {
        User { container: ItemInfo { in_store: false, on_server: true }, activity: false, answer: false, article: false, collection: UserCollection { created: false, liked: false }, column: false, pin: false, question: false }
    }

    fn container(&self) -> (r: ItemInfo) {
        self.container
    }

    fn set_container(&mut self, info: ItemInfo) {
        self.container = info;
    }

    proof fn lemma_default_container() {
    }

    proof fn lemma_with_container(r: Self, info: ItemInfo) {
    }

    proof fn lemma_with_container_flags(r: Self, info: ItemInfo) {
        assert forall|p: ContainerOption| #[trigger] r.spec_with_container(info).spec_flag(p) == r.spec_flag(p) by {
            let q = r.spec_with_container(info);
            assert(q == Self { container: info, ..r });
        }
    }

    open spec fn spec_has_flag(o: ContainerOption) -> bool {
        o == ContainerOption::Activity || o == ContainerOption::Answer || o == ContainerOption::Article || o == ContainerOption::Created || o == ContainerOption::Liked || o == ContainerOption::Column || o == ContainerOption::Pin || o == ContainerOption::Question
    }

    open spec fn spec_flag(self, o: ContainerOption) -> bool {
        match o {
            ContainerOption::Activity => self.activity,
            ContainerOption::Answer => self.answer,
            ContainerOption::Article => self.article,
            ContainerOption::Created => self.collection.created,
            ContainerOption::Liked => self.collection.liked,
            ContainerOption::Column => self.column,
            ContainerOption::Pin => self.pin,
            ContainerOption::Question => self.question,
            _ => false,
        }
    }

    fn flag(&self, o: ContainerOption) -> (r: bool) {
        match o {
            ContainerOption::Activity => self.activity,
            ContainerOption::Answer => self.answer,
            ContainerOption::Article => self.article,
            ContainerOption::Created => self.collection.created,
            ContainerOption::Liked => self.collection.liked,
            ContainerOption::Column => self.column,
            ContainerOption::Pin => self.pin,
            ContainerOption::Question => self.question,
            _ => false,
        }
    }

    fn set_flag(&mut self, o: ContainerOption) {
        match o {
            ContainerOption::Activity => {
                self.activity = true;
            },
            ContainerOption::Answer => {
                self.answer = true;
            },
            ContainerOption::Article => {
                self.article = true;
            },
            ContainerOption::Created => {
                self.collection.created = true;
            },
            ContainerOption::Liked => {
                self.collection.liked = true;
            },
            ContainerOption::Column => {
                self.column = true;
            },
            ContainerOption::Pin => {
                self.pin = true;
            },
            ContainerOption::Question => {
                self.question = true;
            },
            _ => {},
        }
    }

    proof fn lemma_flags(r: Self) {
    }
}

} // verus!
