//! The options of the command line, and what they stand for.
pub mod container;
pub mod item;

use crate::driver::GetConfig;
use crate::element::author::UserId;
use crate::item::answer::AnswerId;
use crate::item::article::ArticleId;
use crate::item::collection::CollectionId;
use crate::item::column::ColumnRef;
use crate::item::pin::PinId;
use crate::item::question::QuestionId;
use crate::item::user::StoreId;
use crate::store::Store;
use crate::util::text::{concat, concat_strs, decimal, hex_lower, u64_to_string};
use vstd::prelude::*;

verus! {

/// How an item is fetched.
#[derive(Debug, Clone, Copy)]
pub struct GetOpt {
    /// Keep the HTML of contents as it is.
    pub no_convert: bool,
    /// Fetch the comments too.
    pub comments: bool,
}

impl GetOpt {
    /// The fetch configuration these options ask for.
    pub fn to_config(self) -> (r: GetConfig)
        ensures
            r.get_comments == self.comments,
            r.convert_html == !self.no_convert,
    {
        GetConfig { get_comments: self.comments, convert_html: !self.no_convert }
    }

    /// The options as text: whether comments are fetched.
    pub open spec fn spec_describe(self) -> Seq<char> {
        if self.comments {
            "with comments"@
        } else {
            "no comments"@
        }
    }

    /// The options as text: whether comments are fetched.
    pub fn describe(&self) -> (r: String)
        ensures
            r@ == self.spec_describe(),
    {
        if self.comments {
            String::from_str("with comments")
        } else {
            String::from_str("no comments")
        }
    }
}

/// Where an item is linked.
#[derive(Debug, Clone)]
pub struct LinkOpt {
    /// Link by absolute rather than relative path.
    pub link_absolute: bool,
    /// The destination directory.
    pub dest: String,
}

impl LinkOpt {
    /// How links are made, as text.
    pub open spec fn spec_link_kind(self) -> Seq<char> {
        if self.link_absolute {
            "link absolute"@
        } else {
            "link relative"@
        }
    }

    /// How links are made, as text.
    pub fn link_kind(&self) -> (r: &'static str)
        ensures
            r@ == self.spec_link_kind(),
    {
        if self.link_absolute {
            "link absolute"
        } else {
            "link relative"
        }
    }

    /// The options as text: `(<fetch options>) to <dest>[<link kind>]`.
    pub open spec fn spec_describe(self, get_opt: GetOpt) -> Seq<char> {
        concat(
            seq!["("@, get_opt.spec_describe(), ") to "@, self.dest@, "["@, self.spec_link_kind(), "]"@],
        )
    }

    /// The options as text: `(<fetch options>) to <dest>[<link kind>]`.
    pub fn describe(&self, get_opt: &GetOpt) -> (r: String)
        ensures
            r@ == self.spec_describe(*get_opt),
    {
        let g = get_opt.describe();
        let parts: [&str; 7] = ["(", g.as_str(), ") to ", self.dest.as_str(), "[", self.link_kind(), "]"];
        let r = concat_strs(&parts);
        assert(parts@.map_values(|p: &str| p@) =~= seq![
            "("@,
            get_opt.spec_describe(),
            ") to "@,
            self.dest@,
            "["@,
            self.spec_link_kind(),
            "]"@,
        ]);
        r
    }
}

/// A user given by identifier and URL token.
#[derive(Debug, Clone)]
pub struct UserSpec {
    pub id: UserId,
    pub url_token: String,
}

impl UserSpec {
    /// The user as shown: the hexadecimal digits of the identifier.
    pub fn text(&self) -> (r: String)
        ensures
            r@ == hex_lower(self.id.0@).map_values(|b: u8| b as char),
    {
        self.id.to_hex()
    }

    /// The store identifier of the user.
    pub fn to_id(&self) -> (r: StoreId<'_>)
        ensures
            r.0 == self.id,
            r.1@ == self.url_token@,
    {
        StoreId(self.id, self.url_token.as_str())
    }
}

/// An item given by its numeric identifier.
#[derive(Debug, Clone, Copy)]
pub struct NumId {
    pub id: u64,
}

impl NumId {
    /// The identifier as shown: its decimal digits.
    pub fn text(&self) -> (r: String)
        ensures
            r@ == decimal(self.id as nat),
    {
        u64_to_string(self.id)
    }

    /// The identifier as an answer's.
    pub fn answer_id(&self) -> (r: AnswerId)
        ensures
            r.0 == self.id,
    {
        AnswerId(self.id)
    }

    /// The identifier as an article's.
    pub fn article_id(&self) -> (r: ArticleId)
        ensures
            r.0 == self.id,
    {
        ArticleId(self.id)
    }

    /// The identifier as a collection's.
    pub fn collection_id(&self) -> (r: CollectionId)
        ensures
            r.0 == self.id,
    {
        CollectionId(self.id)
    }

    /// The identifier as a question's.
    pub fn question_id(&self) -> (r: QuestionId)
        ensures
            r.0 == self.id,
    {
        QuestionId(self.id)
    }

    /// The identifier as a pin's.
    pub fn pin_id(&self) -> (r: PinId)
        ensures
            r.0 == self.id,
    {
        PinId(self.id)
    }
}

/// An item given by its textual identifier.
#[derive(Debug, Clone)]
pub struct StrId {
    pub id: String,
}

impl StrId {
    /// The identifier as shown.
    pub fn text(&self) -> (r: String)
        ensures
            r@ == self.id@,
    {
        self.id.clone()
    }

    /// The identifier as a column's.
    pub fn to_id(&self) -> (r: ColumnRef<'_>)
        ensures
            r.0@ == self.id@,
    {
        ColumnRef(self.id.as_str())
    }
}

/// How a stored item is converted.
#[derive(Debug, Clone)]
pub enum ConvertOper {
    /// With pandoc, to the given output format.
    Pandoc { format: String },
}

/// What to do with a manifest file.
#[derive(Debug, Clone)]
pub enum ManifestCmd {
    /// Fetch what the manifest asks for beyond what was applied, and link it.
    Apply { path: String },
    /// Rewrite the file in canonical form.
    Format { path: String },
    /// Link what the manifest asks for.
    Link { path: String },
}

/// The lines a manifest command reports: the job it starts, if any, and
/// what it reports once done.
#[derive(Debug)]
pub struct CmdMessages {
    pub start: Option<(&'static str, String)>,
    pub done: (&'static str, String),
}

/// `<prefix><path>`.
fn prefixed(prefix: &str, path: &str) -> (r: String)
    ensures
        r@ == prefix@ + path@,
{
    let mut r = prefix.to_owned();
    r.append(path);
    r
}

impl ManifestCmd {
    /// The manifest file the command reads.
    pub fn path(&self) -> (r: &String)
        ensures
            r == match self {
                ManifestCmd::Apply { path } => path,
                ManifestCmd::Format { path } => path,
                ManifestCmd::Link { path } => path,
            },
    {
        match self {
            ManifestCmd::Apply { path } => path,
            ManifestCmd::Format { path } => path,
            ManifestCmd::Link { path } => path,
        }
    }

    /// The lines the command reports.
    pub fn messages(&self) -> (r: CmdMessages)
        ensures
            match self {
                ManifestCmd::Apply { path } => {
                    &&& r.start matches Some((t, m)) && t@ == "Applying"@ && m@ == "manifest "@ + path@
                    &&& r.done.0@ == "Applied"@ && r.done.1@ == "manifest "@ + path@
                },
                ManifestCmd::Format { path } => {
                    &&& r.start is None
                    &&& r.done.0@ == "Formatted"@ && r.done.1@ == "ron manifest "@ + path@
                },
                ManifestCmd::Link { path } => {
                    &&& r.start matches Some((t, m)) && t@ == "Creating"@ && m@
                        == "symbol links according to manifest "@ + path@
                    &&& r.done.0@ == "Created"@ && r.done.1@ == "symbol links according to "@ + path@
                },
            },
    {
        match self {
            ManifestCmd::Apply { path } => CmdMessages {
                start: Some(("Applying", prefixed("manifest ", path.as_str()))),
                done: ("Applied", prefixed("manifest ", path.as_str())),
            },
            ManifestCmd::Format { path } => CmdMessages {
                start: None,
                done: ("Formatted", prefixed("ron manifest ", path.as_str())),
            },
            ManifestCmd::Link { path } => CmdMessages {
                start: Some(
                    ("Creating", prefixed("symbol links according to manifest ", path.as_str())),
                ),
                done: ("Created", prefixed("symbol links according to ", path.as_str())),
            },
        }
    }
}

/// How the shell's `exit` command ends.
#[derive(Debug, Clone, Copy, PartialEq, Eq)]
pub enum ExitOutcome {
    /// The shell ends.
    Exit,
    /// Saving failed but `force` was given: the error is shown as a
    /// warning, and the shell ends.
    ExitWarned,
    /// Saving failed: the shell goes on.
    Stay,
}

/// Whether `exit` saves the store first: exactly when it holds unsaved
/// changes.
pub fn exit_saves(store: &Store) -> (r: bool)
    ensures
        r == store.spec_dirty(),
{
    store.is_dirty()
}

/// How `exit` ends, given how saving went (`None` where nothing needed
/// saving): with nothing to save, or once saved, the shell ends; where
/// saving failed, it ends with a warning if `force` is given and goes on
/// otherwise.
pub fn exit_outcome(saved: Option<bool>, force: bool) -> (r: ExitOutcome)
    ensures
        r == match saved {
            None => ExitOutcome::Exit,
            Some(true) => ExitOutcome::Exit,
            Some(false) => if force {
                ExitOutcome::ExitWarned
            } else {
                ExitOutcome::Stay
            },
        },
{
    match saved {
        None => ExitOutcome::Exit,
        Some(true) => ExitOutcome::Exit,
        Some(false) => if force {
            ExitOutcome::ExitWarned
        } else {
            ExitOutcome::Stay
        },
    }
}

} // verus!
