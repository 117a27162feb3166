//! Operations on single items, and how each one is reported.
use crate::cli::{ConvertOper, GetOpt, LinkOpt};
use crate::util::text::{concat, concat_strs};
use vstd::prelude::*;

verus! {

/// An operation on one item, given by an identifier of type `Id`.
#[derive(Debug, Clone)]
pub enum ItemOper<Id> {
    /// Download and add to the store, but do not link.
    Get { id: Id, get_opt: GetOpt },
    /// Add an item from a file holding the site's reply.
    AddRaw { get_opt: GetOpt, path: String },
    /// Download, add to the store and link into a directory.
    Download { id: Id, get_opt: GetOpt, link_opt: LinkOpt },
    /// Fetch again an item of the store.
    Update { id: Id, get_opt: GetOpt },
    /// Convert again the HTML of a stored item.
    ConvertHtml { id: Id },
    /// Convert the document of a stored item to another format.
    Convert { id: Id, dest: String, operation: ConvertOper },
}

/// The words an operation is reported with.
#[derive(Debug)]
pub struct OperLabels {
    /// The tag of the line that starts the operation.
    pub start_tag: &'static str,
    /// What comes before the kind of item.
    pub pre: &'static str,
    /// The identifier as shown when starting.
    pub start_id: String,
    /// The tag of the line that reports success.
    pub ok_tag: &'static str,
    /// The verb of the failure message.
    pub verb: &'static str,
    /// The options as shown.
    pub opt: String,
    /// Whether the operation needs an initialized client.
    pub needs_client: bool,
}

/// The value of the labels.
#[verifier::ext_equal]
pub struct LabelsModel {
    pub start_tag: Seq<char>,
    pub pre: Seq<char>,
    pub start_id: Seq<char>,
    pub ok_tag: Seq<char>,
    pub verb: Seq<char>,
    pub opt: Seq<char>,
    pub needs_client: bool,
}

impl View for OperLabels {
    type V = LabelsModel;

    open spec fn view(&self) -> LabelsModel {
        LabelsModel {
            start_tag: self.start_tag@,
            pre: self.pre@,
            start_id: self.start_id@,
            ok_tag: self.ok_tag@,
            verb: self.verb@,
            opt: self.opt@,
            needs_client: self.needs_client,
        }
    }
}

/// The options of a fetch, between parentheses.
pub open spec fn parenthesized(get_opt: GetOpt) -> Seq<char> {
    concat(seq!["("@, get_opt.spec_describe(), ")"@])
}

/// The labels of an operation whose item is shown as `id_text`.
pub open spec fn spec_item_labels<Id>(oper: ItemOper<Id>, id_text: Seq<char>) -> LabelsModel {
    match oper {
        ItemOper::Get { get_opt, .. } => LabelsModel {
            start_tag: "Getting"@,
            pre: ""@,
            start_id: id_text,
            ok_tag: "Got"@,
            verb: "get"@,
            opt: parenthesized(get_opt),
            needs_client: true,
        },
        ItemOper::AddRaw { get_opt, path } => LabelsModel {
            start_tag: "Adding"@,
            pre: "raw data of "@,
            start_id: "<raw data>"@,
            ok_tag: "Added"@,
            verb: "add raw data of"@,
            opt: concat(seq!["("@, get_opt.spec_describe(), ") from "@, path@]),
            needs_client: true,
        },
        ItemOper::Download { get_opt, link_opt, .. } => LabelsModel {
            start_tag: "Downloading"@,
            pre: ""@,
            start_id: concat(seq![" "@, id_text]),
            ok_tag: "Downloaded"@,
            verb: "download"@,
            opt: link_opt.spec_describe(get_opt),
            needs_client: true,
        },
        ItemOper::Update { get_opt, .. } => LabelsModel {
            start_tag: "Updating"@,
            pre: ""@,
            start_id: concat(seq![" "@, id_text]),
            ok_tag: "Updated"@,
            verb: "update"@,
            opt: parenthesized(get_opt),
            needs_client: true,
        },
        ItemOper::ConvertHtml { .. } => LabelsModel {
            start_tag: "Converting"@,
            pre: "raw html of "@,
            start_id: concat(seq![" "@, id_text]),
            ok_tag: "Converted"@,
            verb: "convert raw html of"@,
            opt: seq![],
            needs_client: false,
        },
        ItemOper::Convert { dest, operation, .. } => LabelsModel {
            start_tag: "Converting"@,
            pre: "document of "@,
            start_id: concat(seq![" "@, id_text]),
            ok_tag: "Converted"@,
            verb: "convert document of"@,
            opt: match operation {
                ConvertOper::Pandoc { format } => concat(
                    seq!["using pandoc to "@, format@, " "@, dest@],
                ),
            },
            needs_client: false,
        },
    }
}

/// The options of a fetch, between parentheses.
fn parenthesize(get_opt: &GetOpt) -> (r: String)
    ensures
        r@ == parenthesized(*get_opt),
{
    let g = get_opt.describe();
    let parts: [&str; 3] = ["(", g.as_str(), ")"];
    let r = concat_strs(&parts);
    assert(parts@.map_values(|p: &str| p@) =~= seq!["("@, get_opt.spec_describe(), ")"@]);
    r
}

/// A space, then the identifier.
fn spaced(id_text: &str) -> (r: String)
    ensures
        r@ == concat(seq![" "@, id_text@]),
{
    let parts: [&str; 2] = [" ", id_text];
    let r = concat_strs(&parts);
    assert(parts@.map_values(|p: &str| p@) =~= seq![" "@, id_text@]);
    r
}

impl<Id> ItemOper<Id> {
    /// The labels of the operation, its item shown as `id_text`.
    pub fn labels(&self, id_text: &str) -> (r: OperLabels)
        ensures
            r@ == spec_item_labels(*self, id_text@),
    {
        match self {
            ItemOper::Get { get_opt, .. } => OperLabels {
                start_tag: "Getting",
                pre: "",
                start_id: id_text.to_owned(),
                ok_tag: "Got",
                verb: "get",
                opt: parenthesize(get_opt),
                needs_client: true,
            },
            ItemOper::AddRaw { get_opt, path } => {
                let g = get_opt.describe();
                let parts: [&str; 4] = ["(", g.as_str(), ") from ", path.as_str()];
                let opt = concat_strs(&parts);
                assert(parts@.map_values(|p: &str| p@) =~= seq![
                    "("@,
                    get_opt.spec_describe(),
                    ") from "@,
                    path@,
                ]);
                OperLabels {
                    start_tag: "Adding",
                    pre: "raw data of ",
                    start_id: String::from_str("<raw data>"),
                    ok_tag: "Added",
                    verb: "add raw data of",
                    opt,
                    needs_client: true,
                }
            },
            ItemOper::Download { get_opt, link_opt, .. } => OperLabels {
                start_tag: "Downloading",
                pre: "",
                start_id: spaced(id_text),
                ok_tag: "Downloaded",
                verb: "download",
                opt: link_opt.describe(get_opt),
                needs_client: true,
            },
            ItemOper::Update { get_opt, .. } => OperLabels {
                start_tag: "Updating",
                pre: "",
                start_id: spaced(id_text),
                ok_tag: "Updated",
                verb: "update",
                opt: parenthesize(get_opt),
                needs_client: true,
            },
            ItemOper::ConvertHtml { .. } => OperLabels {
                start_tag: "Converting",
                pre: "raw html of ",
                start_id: spaced(id_text),
                ok_tag: "Converted",
                verb: "convert raw html of",
                opt: String::new(),
                needs_client: false,
            },
            ItemOper::Convert { dest, operation, .. } => {
                let opt = match operation {
                    ConvertOper::Pandoc { format } => {
                        let parts: [&str; 4] = [
                            "using pandoc to ",
                            format.as_str(),
                            " ",
                            dest.as_str(),
                        ];
                        let o = concat_strs(&parts);
                        assert(parts@.map_values(|p: &str| p@) =~= seq![
                            "using pandoc to "@,
                            format@,
                            " "@,
                            dest@,
                        ]);
                        o
                    },
                };
                OperLabels {
                    start_tag: "Converting",
                    pre: "document of ",
                    start_id: spaced(id_text),
                    ok_tag: "Converted",
                    verb: "convert document of",
                    opt,
                    needs_client: false,
                }
            },
        }
    }
}

impl OperLabels {
    /// The line that starts the operation on an item of kind `item_type`:
    /// `<pre><item> <start id> <opt>`.
    pub open spec fn spec_start_message(self, item_type: Seq<char>) -> Seq<char> {
        concat(seq![self.pre@, item_type, " "@, self.start_id@, " "@, self.opt@])
    }

    /// The line that starts the operation.
    pub fn start_message(&self, item_type: &str) -> (r: String)
        ensures
            r@ == self.spec_start_message(item_type@),
    {
        let parts: [&str; 6] = [
            self.pre,
            item_type,
            " ",
            self.start_id.as_str(),
            " ",
            self.opt.as_str(),
        ];
        let r = concat_strs(&parts);
        assert(parts@.map_values(|p: &str| p@) =~= seq![
            self.pre@,
            item_type@,
            " "@,
            self.start_id@,
            " "@,
            self.opt@,
        ]);
        r
    }

    /// The line that reports success on the item shown as `id`:
    /// `<pre><item> <id> <opt>`.
    pub open spec fn spec_ok_message(self, item_type: Seq<char>, id: Seq<char>) -> Seq<char> {
        concat(seq![self.pre@, item_type, " "@, id, " "@, self.opt@])
    }

    /// The line that reports success.
    pub fn ok_message(&self, item_type: &str, id: &str) -> (r: String)
        ensures
            r@ == self.spec_ok_message(item_type@, id@),
    {
        let parts: [&str; 6] = [self.pre, item_type, " ", id, " ", self.opt.as_str()];
        let r = concat_strs(&parts);
        assert(parts@.map_values(|p: &str| p@) =~= seq![
            self.pre@,
            item_type@,
            " "@,
            id@,
            " "@,
            self.opt@,
        ]);
        r
    }

    /// The context of a failure: `failed to <verb> <item> <start id> <opt>`.
    pub open spec fn spec_failure_message(self, item_type: Seq<char>) -> Seq<char> {
        concat(
            seq!["failed to "@, self.verb@, " "@, item_type, " "@, self.start_id@, " "@, self.opt@],
        )
    }

    /// The context of a failure.
    pub fn failure_message(&self, item_type: &str) -> (r: String)
        ensures
            r@ == self.spec_failure_message(item_type@),
    {
        let parts: [&str; 8] = [
            "failed to ",
            self.verb,
            " ",
            item_type,
            " ",
            self.start_id.as_str(),
            " ",
            self.opt.as_str(),
        ];
        let r = concat_strs(&parts);
        assert(parts@.map_values(|p: &str| p@) =~= seq![
            "failed to "@,
            self.verb@,
            " "@,
            item_type@,
            " "@,
            self.start_id@,
            " "@,
            self.opt@,
        ]);
        r
    }
}

/// The message an operation is refused with when it needs the client and
/// the client is not initialized.
pub open spec fn spec_not_initialized() -> Seq<char> {
    "client is not initialized"@
}

/// The message an operation is refused with when the client is not
/// initialized.
pub fn not_initialized() -> (r: String)
    ensures
        r@ == spec_not_initialized(),
{
    String::from_str("client is not initialized")
}

/// What the driver is asked to do for an item operation.
#[derive(Debug, Clone, Copy, PartialEq, Eq)]
pub enum ItemAction {
    /// Fetch the item and add it to the store, without linking it.
    Get,
    /// Add the item of a reply file to the store.
    AddRaw,
    /// Fetch the item, add it to the store and link it into a directory.
    Download,
    /// Fetch again a stored item.
    Update,
    /// Convert again the HTML of a stored item.
    ConvertHtml,
    /// Convert the document of a stored item.
    Convert,
}

/// How an operation starts: refused with a message before anything is
/// written or fetched, or run as the given action.
#[derive(Debug)]
pub enum OperStart<A> {
    Refused(String),
    Run(A),
}

impl<Id> ItemOper<Id> {
    /// Whether the operation needs an initialized client: all but the two
    /// conversions.
    pub open spec fn spec_needs_client(self) -> bool {
        !(self is ConvertHtml || self is Convert)
    }

    /// The action of the operation.
    pub open spec fn spec_action(self) -> ItemAction {
        match self {
            ItemOper::Get { .. } => ItemAction::Get,
            ItemOper::AddRaw { .. } => ItemAction::AddRaw,
            ItemOper::Download { .. } => ItemAction::Download,
            ItemOper::Update { .. } => ItemAction::Update,
            ItemOper::ConvertHtml { .. } => ItemAction::ConvertHtml,
            ItemOper::Convert { .. } => ItemAction::Convert,
        }
    }

    /// How the operation starts: where it needs the client and the client
    /// is not initialized, it is refused with "client is not initialized"
    /// before anything is written or requested; otherwise it runs its
    /// action.
    pub fn start(&self, initialized: bool) -> (r: OperStart<ItemAction>)
        ensures
            match r {
                OperStart::Refused(m) => self.spec_needs_client() && !initialized
                    && m@ == spec_not_initialized(),
                OperStart::Run(a) => !(self.spec_needs_client() && !initialized)
                    && a == self.spec_action(),
            },
    {
        let (needs, action) = match self {
            ItemOper::Get { .. } => (true, ItemAction::Get),
            ItemOper::AddRaw { .. } => (true, ItemAction::AddRaw),
            ItemOper::Download { .. } => (true, ItemAction::Download),
            ItemOper::Update { .. } => (true, ItemAction::Update),
            ItemOper::ConvertHtml { .. } => (false, ItemAction::ConvertHtml),
            ItemOper::Convert { .. } => (false, ItemAction::Convert),
        };
        if needs && !initialized {
            OperStart::Refused(not_initialized())
        } else {
            OperStart::Run(action)
        }
    }
}

} // verus!
