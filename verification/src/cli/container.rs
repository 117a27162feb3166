//! Operations on the items of containers, and how each one is reported.
use crate::cli::item::{not_initialized, parenthesized, spec_not_initialized, OperStart};
use crate::cli::{GetOpt, LinkOpt, NumId, StrId, UserSpec};
use crate::util::text::{concat, concat_strs, decimal, u64_to_string};
use vstd::prelude::*;

verus! {

/// An operation on the items of one container, given by an identifier of
/// type `Id`.
#[derive(Debug, Clone)]
pub enum ContainerOper<Id> {
    /// Download the items and add them to the store, but do not link.
    Get { id: Id, get_opt: GetOpt },
    /// Fetch again the items of a stored container.
    Update { id: Id, get_opt: GetOpt },
    /// Download the items, add them to the store and link them.
    Download { id: Id, get_opt: GetOpt, link_opt: LinkOpt },
}

/// The words a container operation is reported with.
#[derive(Debug)]
pub struct ContainerLabels {
    pub start_tag: &'static str,
    /// The identifier of the container as shown.
    pub con_id: String,
    pub ok_tag: &'static str,
    pub verb: &'static str,
    pub opt: String,
}

/// The value of container labels.
#[verifier::ext_equal]
pub struct ContainerLabelsModel {
    pub start_tag: Seq<char>,
    pub con_id: Seq<char>,
    pub ok_tag: Seq<char>,
    pub verb: Seq<char>,
    pub opt: Seq<char>,
}

impl View for ContainerLabels {
    type V = ContainerLabelsModel;

    open spec fn view(&self) -> ContainerLabelsModel {
        ContainerLabelsModel {
            start_tag: self.start_tag@,
            con_id: self.con_id@,
            ok_tag: self.ok_tag@,
            verb: self.verb@,
            opt: self.opt@,
        }
    }
}

/// The labels of an operation whose container is shown as `id_text`.
pub open spec fn spec_container_labels<Id>(
    oper: ContainerOper<Id>,
    id_text: Seq<char>,
) -> ContainerLabelsModel {
    match oper {
        ContainerOper::Get { get_opt, .. } => ContainerLabelsModel {
            start_tag: "Getting"@,
            con_id: id_text,
            ok_tag: "Got"@,
            verb: "get"@,
            opt: parenthesized(get_opt),
        },
        ContainerOper::Download { get_opt, link_opt, .. } => ContainerLabelsModel {
            start_tag: "Downloading"@,
            con_id: id_text,
            ok_tag: "Downloaded"@,
            verb: "download"@,
            opt: link_opt.spec_describe(get_opt),
        },
        ContainerOper::Update { get_opt, .. } => ContainerLabelsModel {
            start_tag: "Updating"@,
            con_id: id_text,
            ok_tag: "Updated"@,
            verb: "update"@,
            opt: parenthesized(get_opt),
        },
    }
}

impl<Id> ContainerOper<Id> {
    /// The labels of the operation, its container shown as `id_text`. Every
    /// container operation needs an initialized client.
    pub fn labels(&self, id_text: &str) -> (r: ContainerLabels)
        ensures
            r@ == spec_container_labels(*self, id_text@),
    {
        match self {
            ContainerOper::Get { get_opt, .. } => {
                let g = get_opt.describe();
                let parts: [&str; 3] = ["(", g.as_str(), ")"];
                let opt = concat_strs(&parts);
                assert(parts@.map_values(|p: &str| p@) =~= seq!["("@, get_opt.spec_describe(), ")"@]);
                ContainerLabels {
                    start_tag: "Getting",
                    con_id: id_text.to_owned(),
                    ok_tag: "Got",
                    verb: "get",
                    opt,
                }
            },
            ContainerOper::Download { get_opt, link_opt, .. } => ContainerLabels {
                start_tag: "Downloading",
                con_id: id_text.to_owned(),
                ok_tag: "Downloaded",
                verb: "download",
                opt: link_opt.describe(get_opt),
            },
            ContainerOper::Update { get_opt, .. } => {
                let g = get_opt.describe();
                let parts: [&str; 3] = ["(", g.as_str(), ")"];
                let opt = concat_strs(&parts);
                assert(parts@.map_values(|p: &str| p@) =~= seq!["("@, get_opt.spec_describe(), ")"@]);
                ContainerLabels {
                    start_tag: "Updating",
                    con_id: id_text.to_owned(),
                    ok_tag: "Updated",
                    verb: "update",
                    opt,
                }
            },
        }
    }
}

/// The kinds an operation works on: the container, its items and the option
/// that selects them, by name.
#[derive(Debug, Clone, Copy)]
pub struct ContainerTarget {
    pub container: &'static str,
    pub item: &'static str,
    pub option: &'static str,
}

impl ContainerLabels {
    /// The part of the messages after the verb:
    /// `<item> (<option>) in <container> <id> <opt>`.
    pub open spec fn spec_subject(self, t: ContainerTarget) -> Seq<char> {
        concat(
            seq![
                t.item@,
                " ("@,
                t.option@,
                ") in "@,
                t.container@,
                " "@,
                self.con_id@,
                " "@,
                self.opt@,
            ],
        )
    }

    /// The part of the messages after the verb.
    pub fn subject(&self, t: &ContainerTarget) -> (r: String)
        ensures
            r@ == self.spec_subject(*t),
    {
        let parts: [&str; 9] = [
            t.item,
            " (",
            t.option,
            ") in ",
            t.container,
            " ",
            self.con_id.as_str(),
            " ",
            self.opt.as_str(),
        ];
        let r = concat_strs(&parts);
        assert(parts@.map_values(|p: &str| p@) =~= seq![
            t.item@,
            " ("@,
            t.option@,
            ") in "@,
            t.container@,
            " "@,
            self.con_id@,
            " "@,
            self.opt@,
        ]);
        r
    }

    /// The line that starts the operation.
    pub fn start_message(&self, t: &ContainerTarget) -> (r: String)
        ensures
            r@ == self.spec_subject(*t),
    {
        self.subject(t)
    }

    /// The context of a failure: `failed to <verb> ` and the subject.
    pub fn failure_message(&self, t: &ContainerTarget) -> (r: String)
        ensures
            r@ == concat(seq!["failed to "@, self.verb@, " "@, self.spec_subject(*t)]),
    {
        let s = self.subject(t);
        let parts: [&str; 4] = ["failed to ", self.verb, " ", s.as_str()];
        let r = concat_strs(&parts);
        assert(parts@.map_values(|p: &str| p@) =~= seq![
            "failed to "@,
            self.verb@,
            " "@,
            self.spec_subject(*t),
        ]);
        r
    }

    /// The line that reports success: the number of items followed by a
    /// space where it is known, then the subject.
    pub fn ok_message(&self, t: &ContainerTarget, count: Option<u64>) -> (r: String)
        ensures
            r@ == match count {
                Some(n) => concat(seq![decimal(n as nat), " "@, self.spec_subject(*t)]),
                None => self.spec_subject(*t),
            },
    {
        let s = self.subject(t);
        match count {
            Some(n) => {
                let num = u64_to_string(n);
                let parts: [&str; 3] = [num.as_str(), " ", s.as_str()];
                let r = concat_strs(&parts);
                assert(parts@.map_values(|p: &str| p@) =~= seq![
                    decimal(n as nat),
                    " "@,
                    self.spec_subject(*t),
                ]);
                r
            },
            None => s,
        }
    }
}

/// Operations on the items of a collection.
#[derive(Debug, Clone)]
pub enum CollectionEntry {
    Item { operation: ContainerOper<NumId> },
}

/// Operations on the items of a column.
#[derive(Debug, Clone)]
pub enum ColumnEntry {
    Item { operation: ContainerOper<StrId> },
    PinnedItem { operation: ContainerOper<StrId> },
}

/// Operations on the answers of a question.
#[derive(Debug, Clone)]
pub enum QuestionEntry {
    Answer { operation: ContainerOper<NumId> },
}

/// Operations on the collections of a user.
#[derive(Debug, Clone)]
pub enum UserCollection {
    Created { operation: ContainerOper<UserSpec> },
    Liked { operation: ContainerOper<UserSpec> },
}

/// Operations on the items of a user.
#[derive(Debug, Clone)]
pub enum UserEntry {
    Answer { operation: ContainerOper<UserSpec> },
    Article { operation: ContainerOper<UserSpec> },
    Column { operation: ContainerOper<UserSpec> },
    Collection { operation: UserCollection },
    Pin { operation: ContainerOper<UserSpec> },
}

/// A container operation of the command line.
#[derive(Debug, Clone)]
pub enum ContainerCmd {
    Collection { operation: CollectionEntry },
    Column { operation: ColumnEntry },
    User { operation: UserEntry },
}

/// A container target by its names.
pub open spec fn target_names(t: ContainerTarget) -> (Seq<char>, Seq<char>, Seq<char>) {
    (t.container@, t.item@, t.option@)
}

/// The names of the kinds a command works on.
pub open spec fn spec_command_target(cmd: ContainerCmd) -> (Seq<char>, Seq<char>, Seq<char>) {
    match cmd {
        ContainerCmd::Collection { .. } => ("collection"@, "any"@, "item"@),
        ContainerCmd::Column { operation } => match operation {
            ColumnEntry::Item { .. } => ("column"@, "any"@, "regular"@),
            ColumnEntry::PinnedItem { .. } => ("column"@, "any"@, "pinned"@),
        },
        ContainerCmd::User { operation } => match operation {
            UserEntry::Answer { .. } => ("user"@, "answer"@, "answer"@),
            UserEntry::Article { .. } => ("user"@, "article"@, "article"@),
            UserEntry::Column { .. } => ("user"@, "column"@, "column"@),
            UserEntry::Collection { operation } => match operation {
                UserCollection::Created { .. } => ("user"@, "collection"@, "created"@),
                UserCollection::Liked { .. } => ("user"@, "collection"@, "liked"@),
            },
            UserEntry::Pin { .. } => ("user"@, "pin"@, "pin"@),
        },
    }
}

impl ContainerCmd {
    /// The container, item and option the command works on.
    pub fn target(&self) -> (r: ContainerTarget)
        ensures
            target_names(r) == spec_command_target(*self),
    {
        match self {
            ContainerCmd::Collection { .. } => ContainerTarget {
                container: "collection",
                item: "any",
                option: "item",
            },
            ContainerCmd::Column { operation } => match operation {
                ColumnEntry::Item { .. } => ContainerTarget {
                    container: "column",
                    item: "any",
                    option: "regular",
                },
                ColumnEntry::PinnedItem { .. } => ContainerTarget {
                    container: "column",
                    item: "any",
                    option: "pinned",
                },
            },
            ContainerCmd::User { operation } => match operation {
                UserEntry::Answer { .. } => ContainerTarget {
                    container: "user",
                    item: "answer",
                    option: "answer",
                },
                UserEntry::Article { .. } => ContainerTarget {
                    container: "user",
                    item: "article",
                    option: "article",
                },
                UserEntry::Column { .. } => ContainerTarget {
                    container: "user",
                    item: "column",
                    option: "column",
                },
                UserEntry::Collection { operation } => match operation {
                    UserCollection::Created { .. } => ContainerTarget {
                        container: "user",
                        item: "collection",
                        option: "created",
                    },
                    UserCollection::Liked { .. } => ContainerTarget {
                        container: "user",
                        item: "collection",
                        option: "liked",
                    },
                },
                UserEntry::Pin { .. } => ContainerTarget {
                    container: "user",
                    item: "pin",
                    option: "pin",
                },
            },
        }
    }
}

/// What the driver is asked to do for a container operation.
#[derive(Debug, Clone, Copy, PartialEq, Eq)]
pub enum ContainerAction {
    /// Fetch the items and add them to the store, without linking them.
    Get,
    /// Fetch again the items of a stored container.
    Update,
    /// Fetch the items, add them to the store and link them.
    Download,
}

impl<Id> ContainerOper<Id> {
    /// The action of the operation.
    pub open spec fn spec_action(self) -> ContainerAction {
        match self {
            ContainerOper::Get { .. } => ContainerAction::Get,
            ContainerOper::Update { .. } => ContainerAction::Update,
            ContainerOper::Download { .. } => ContainerAction::Download,
        }
    }

    /// How the operation starts: every container operation needs the
    /// client, so where it is not initialized the operation is refused with
    /// "client is not initialized" before anything is written or requested;
    /// otherwise it runs its action.
    pub fn start(&self, initialized: bool) -> (r: OperStart<ContainerAction>)
        ensures
            match r {
                OperStart::Refused(m) => !initialized && m@ == spec_not_initialized(),
                OperStart::Run(a) => initialized && a == self.spec_action(),
            },
    {
        if !initialized {
            return OperStart::Refused(not_initialized());
        }
        OperStart::Run(
            match self {
                ContainerOper::Get { .. } => ContainerAction::Get,
                ContainerOper::Update { .. } => ContainerAction::Update,
                ContainerOper::Download { .. } => ContainerAction::Download,
            },
        )
    }
}

} // verus!
