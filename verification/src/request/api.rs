//! The endpoints of the site's API that items are fetched from, and how
//! each request is made.
use crate::element::author::UserId;
use crate::element::comment::{spec_root_type_segment, CommentId, RootType};
use crate::item::answer::AnswerId;
use crate::item::article::ArticleId;
use crate::item::collection::CollectionId;
use crate::item::column::{spec_column_item_segment, ColumnItem, ColumnRef};
use crate::item::pin::PinId;
use crate::item::question::QuestionId;
use crate::util::text::{concat, concat_strs, decimal, hex_lower, u64_to_string};
use vstd::prelude::*;

verus! {

/// What the site is asked for.
#[derive(Debug, Clone, Copy)]
pub enum Endpoint<'a> {
    /// The page visited to get the cookies of the site.
    Explore,
    /// An answer.
    Answer(AnswerId),
    /// An article.
    Article(ArticleId),
    /// A collection.
    Collection(CollectionId),
    /// The items of a collection (paged).
    CollectionItems(CollectionId),
    /// A column.
    Column(ColumnRef<'a>),
    /// The regular or pinned items of a column (paged).
    ColumnItems(ColumnRef<'a>, ColumnItem),
    /// A pin.
    Pin(PinId),
    /// A question.
    Question(QuestionId),
    /// The answers of a question (paged).
    QuestionAnswers(QuestionId),
    /// A user, by identifier.
    User(UserId),
    /// The answers of a user, by URL token (paged).
    UserAnswers(&'a str),
    /// The articles of a user, by URL token (paged).
    UserArticles(&'a str),
    /// The columns a user contributes to, by URL token (paged).
    UserColumns(&'a str),
    /// The collections a user created, by URL token (paged).
    UserCreated(&'a str),
    /// The collections a user follows, by URL token (paged).
    UserLiked(&'a str),
    /// The pins of a user, by URL token (paged).
    UserPins(&'a str),
    /// The activities of a user, by identifier (paged).
    UserActivities(UserId),
    /// The root comments of an object, given by kind and identifier text (paged).
    RootComments(RootType, &'a str),
    /// The replies to a comment (paged).
    ChildComments(CommentId),
    /// A single comment.
    Comment(CommentId),
}

/// How a request is made: its address, the fields of the reply asked for
/// (the value of the API's field-selection query parameter) if any, whether
/// it is signed (`x-zse-96`), and whether the reply comes in pages.
#[derive(Debug, Clone)]
pub struct Request {
    pub url: String,
    pub fields: Option<&'static str>,
    pub signed: bool,
    pub paged: bool,
}

/// The value of a request.
#[verifier::ext_equal]
pub struct RequestModel {
    pub url: Seq<char>,
    pub fields: Option<Seq<char>>,
    pub signed: bool,
    pub paged: bool,
}

impl View for Request {
    type V = RequestModel;

    open spec fn view(&self) -> RequestModel {
        RequestModel {
            url: self.url@,
            fields: match self.fields {
                Some(i) => Some(i@),
                None => None,
            },
            signed: self.signed,
            paged: self.paged,
        }
    }
}

/// The root of the API.
pub open spec fn api() -> Seq<char> {
    "https://www.zhihu.com/api/v4/"@
}

/// A user identifier as the API takes it: its hexadecimal digits.
pub open spec fn hex(id: UserId) -> Seq<char> {
    hex_lower(id.0@).map_values(|b: u8| b as char)
}

/// How the request for an endpoint is made.
pub open spec fn spec_request(e: Endpoint) -> RequestModel {
    match e {
        Endpoint::Explore => RequestModel {
            url: concat(seq!["https://www.zhihu.com/explore"@]),
            fields: None,
            signed: false,
            paged: false,
        },
        Endpoint::Answer(id) => RequestModel {
            url: concat(seq![api(), "answers/"@, decimal(id.0 as nat)]),
            fields: Some("content;comment_count;voteup_count"@),
            signed: true,
            paged: false,
        },
        Endpoint::Article(id) => RequestModel {
            url: concat(seq![api(), "articles/"@, decimal(id.0 as nat)]),
            fields: None,
            signed: false,
            paged: false,
        },
        Endpoint::Collection(id) => RequestModel {
            url: concat(seq![api(), "collections/"@, decimal(id.0 as nat)]),
            fields: None,
            signed: false,
            paged: false,
        },
        Endpoint::CollectionItems(id) => RequestModel {
            url: concat(seq![api(), "collections/"@, decimal(id.0 as nat), "/items"@]),
            fields: None,
            signed: false,
            paged: true,
        },
        Endpoint::Column(id) => RequestModel {
            url: concat(seq![api(), "columns/"@, id.0@]),
            fields: Some("intro,created"@),
            signed: false,
            paged: false,
        },
        Endpoint::ColumnItems(id, item) => RequestModel {
            url: concat(seq![api(), "columns/"@, id.0@, "/"@, spec_column_item_segment(item)]),
            fields: None,
            signed: false,
            paged: true,
        },
        Endpoint::Pin(id) => RequestModel {
            url: concat(seq![api(), "v2/pins/"@, decimal(id.0 as nat)]),
            fields: None,
            signed: false,
            paged: false,
        },
        Endpoint::Question(id) => RequestModel {
            url: concat(seq![api(), "questions/"@, decimal(id.0 as nat)]),
            fields: Some("author,description,is_anonymous;detail;comment_count;answer_count;excerpt"@),
            signed: true,
            paged: false,
        },
        Endpoint::QuestionAnswers(id) => RequestModel {
            url: concat(seq![api(), "questions/"@, decimal(id.0 as nat), "/answers"@]),
            fields: Some("data[*].is_normal,admin_closed_comment,reward_info,is_collapsed,annotation_action,annotation_detail,collapse_reason,collapsed_by,suggest_edit,comment_count,can_comment,content,editable_content,attachment,voteup_count,reshipment_settings,comment_permission,mark_infos,created_time,updated_time,review_info,excerpt,is_labeled,label_info,relationship.is_authorized,voting,is_author,is_thanked,is_nothelp,is_recognized;data[*].vessay_info;data[*].author.badge[?(type=best_answerer)].topics;data[*].author.vip_info;data[*].question.has_publishing_draft,relationship"@),
            signed: true,
            paged: true,
        },
        Endpoint::User(id) => RequestModel {
            url: concat(seq![api(), "members/"@, hex(id)]),
            fields: Some("description,cover_url"@),
            signed: false,
            paged: false,
        },
        Endpoint::UserAnswers(token) => RequestModel {
            url: concat(seq![api(), "members/"@, token@, "/answers"@]),
            fields: Some("data[*].is_normal,admin_closed_comment,reward_info,is_collapsed,annotation_action,annotation_detail,collapse_reason,collapsed_by,suggest_edit,comment_count,can_comment,content,editable_content,attachment,voteup_count,reshipment_settings,comment_permission,mark_infos,created_time,updated_time,review_info,excerpt,is_labeled,label_info,relationship.is_authorized,voting,is_author,is_thanked,is_nothelp,is_recognized;data[*].vessay_info;data[*].author.badge[?(type=best_answerer)].topics;data[*].author.vip_info;data[*].question.has_publishing_draft,relationship"@),
            signed: true,
            paged: true,
        },
        Endpoint::UserArticles(token) => RequestModel {
            url: concat(seq![api(), "members/"@, token@, "/articles"@]),
            fields: Some("data[*].comment_count,suggest_edit,is_normal,thumbnail_extra_info,thumbnail,can_comment,comment_permission,admin_closed_comment,content,voteup_count,created,updated,upvoted_followees,voting,review_info,is_labeled,label_info;data[*].vessay_info;data[*].author.badge[?(type=best_answerer)].topics;data[*].author.vip_info;"@),
            signed: true,
            paged: true,
        },
        Endpoint::UserColumns(token) => RequestModel {
            url: concat(seq![api(), "members/"@, token@, "/column-contributions"@]),
            fields: Some("data[*].column.intro,followers,articles_count,voteup_count,items_count,description,created"@),
            signed: false,
            paged: true,
        },
        Endpoint::UserCreated(token) => RequestModel {
            url: concat(seq![api(), "people/"@, token@, "/collections"@]),
            fields: Some("data[*].updated_time,answer_count,follower_count,creator,description,is_following,comment_count,created_time;data[*].creator.vip_info"@),
            signed: false,
            paged: true,
        },
        Endpoint::UserLiked(token) => RequestModel {
            url: concat(seq![api(), "members/"@, token@, "/following-favlists"@]),
            fields: Some("data[*].updated_time,answer_count,follower_count,creator,description,is_following,comment_count,created_time"@),
            signed: false,
            paged: true,
        },
        Endpoint::UserPins(token) => RequestModel {
            url: concat(seq![api(), "v2/pins/"@, token@, "/moments"@]),
            fields: None,
            signed: false,
            paged: true,
        },
        Endpoint::UserActivities(id) => RequestModel {
            url: concat(seq![api(), "moments/"@, hex(id), "/activities"@]),
            fields: None,
            signed: true,
            paged: true,
        },
        Endpoint::RootComments(root_type, id_text) => RequestModel {
            url: concat(seq![api(), "comment_v5/"@, spec_root_type_segment(root_type), "/"@, id_text@, "/root_comment"@]),
            fields: None,
            signed: false,
            paged: true,
        },
        Endpoint::ChildComments(id) => RequestModel {
            url: concat(seq![api(), "comment_v5/comment/"@, decimal(id.0 as nat), "/child_comment"@]),
            fields: None,
            signed: false,
            paged: true,
        },
        Endpoint::Comment(id) => RequestModel {
            url: concat(seq![api(), "comment_v5/comment/"@, decimal(id.0 as nat)]),
            fields: None,
            signed: false,
            paged: false,
        },
    }
}

proof fn lemma_concat_step(p: Seq<Seq<char>>)
    requires
        p.len() > 0,
    ensures
        concat(p) == concat(p.drop_last()) + p.last(),
{
}

proof fn lemma_concat1(a: Seq<char>)
    ensures
        concat(seq![a]) == a,
{
    assert(seq![a].drop_last() =~= Seq::<Seq<char>>::empty());
    lemma_concat_step(seq![a]);
    assert(Seq::<char>::empty() + a =~= a);
}

proof fn lemma_concat3(a: Seq<char>, b: Seq<char>, c: Seq<char>)
    ensures
        concat(seq![a, b, c]) == a + b + c,
{
    assert(seq![a, b, c].drop_last() =~= seq![a, b]);
    assert(seq![a, b].drop_last() =~= seq![a]);
    lemma_concat_step(seq![a, b, c]);
    lemma_concat_step(seq![a, b]);
    lemma_concat1(a);
}

proof fn lemma_concat4(a: Seq<char>, b: Seq<char>, c: Seq<char>, d: Seq<char>)
    ensures
        concat(seq![a, b, c, d]) == a + b + c + d,
{
    assert(seq![a, b, c, d].drop_last() =~= seq![a, b, c]);
    lemma_concat_step(seq![a, b, c, d]);
    lemma_concat3(a, b, c);
}

proof fn lemma_concat5(a: Seq<char>, b: Seq<char>, c: Seq<char>, d: Seq<char>, e: Seq<char>)
    ensures
        concat(seq![a, b, c, d, e]) == a + b + c + d + e,
{
    assert(seq![a, b, c, d, e].drop_last() =~= seq![a, b, c, d]);
    lemma_concat_step(seq![a, b, c, d, e]);
    lemma_concat4(a, b, c, d);
}

proof fn lemma_concat6(a: Seq<char>, b: Seq<char>, c: Seq<char>, d: Seq<char>, e: Seq<char>, f: Seq<char>)
    ensures
        concat(seq![a, b, c, d, e, f]) == a + b + c + d + e + f,
{
    assert(seq![a, b, c, d, e, f].drop_last() =~= seq![a, b, c, d, e]);
    lemma_concat_step(seq![a, b, c, d, e, f]);
    lemma_concat5(a, b, c, d, e);
}

/// The address each request goes to: the API's root followed by the path
/// that names what is fetched (the kind of object and its identifier, and
/// for a listing the kind of items listed).
pub proof fn lemma_request_urls(e: Endpoint)
    ensures
        spec_request(e).url == match e {
            Endpoint::Explore => "https://www.zhihu.com/explore"@,
            Endpoint::Answer(id) => api() + "answers/"@ + decimal(id.0 as nat),
            Endpoint::Article(id) => api() + "articles/"@ + decimal(id.0 as nat),
            Endpoint::Collection(id) => api() + "collections/"@ + decimal(id.0 as nat),
            Endpoint::CollectionItems(id) => api() + "collections/"@ + decimal(id.0 as nat) + "/items"@,
            Endpoint::Column(id) => api() + "columns/"@ + id.0@,
            Endpoint::ColumnItems(id, item) => api() + "columns/"@ + id.0@ + "/"@ + spec_column_item_segment(item),
            Endpoint::Pin(id) => api() + "v2/pins/"@ + decimal(id.0 as nat),
            Endpoint::Question(id) => api() + "questions/"@ + decimal(id.0 as nat),
            Endpoint::QuestionAnswers(id) => api() + "questions/"@ + decimal(id.0 as nat) + "/answers"@,
            Endpoint::User(id) => api() + "members/"@ + hex(id),
            Endpoint::UserAnswers(t) => api() + "members/"@ + t@ + "/answers"@,
            Endpoint::UserArticles(t) => api() + "members/"@ + t@ + "/articles"@,
            Endpoint::UserColumns(t) => api() + "members/"@ + t@ + "/column-contributions"@,
            Endpoint::UserCreated(t) => api() + "people/"@ + t@ + "/collections"@,
            Endpoint::UserLiked(t) => api() + "members/"@ + t@ + "/following-favlists"@,
            Endpoint::UserPins(t) => api() + "v2/pins/"@ + t@ + "/moments"@,
            Endpoint::UserActivities(id) => api() + "moments/"@ + hex(id) + "/activities"@,
            Endpoint::RootComments(r, id) => api() + "comment_v5/"@ + spec_root_type_segment(r) + "/"@ + id@ + "/root_comment"@,
            Endpoint::ChildComments(id) => api() + "comment_v5/comment/"@ + decimal(id.0 as nat) + "/child_comment"@,
            Endpoint::Comment(id) => api() + "comment_v5/comment/"@ + decimal(id.0 as nat),
        },
{
    match e {
        Endpoint::Explore => lemma_concat1("https://www.zhihu.com/explore"@),
        Endpoint::Answer(id) => lemma_concat3(api(), "answers/"@, decimal(id.0 as nat)),
        Endpoint::Article(id) => lemma_concat3(api(), "articles/"@, decimal(id.0 as nat)),
        Endpoint::Collection(id) => lemma_concat3(api(), "collections/"@, decimal(id.0 as nat)),
        Endpoint::CollectionItems(id) => lemma_concat4(api(), "collections/"@, decimal(id.0 as nat), "/items"@),
        Endpoint::Column(id) => lemma_concat3(api(), "columns/"@, id.0@),
        Endpoint::ColumnItems(id, item) => lemma_concat5(api(), "columns/"@, id.0@, "/"@, spec_column_item_segment(item)),
        Endpoint::Pin(id) => lemma_concat3(api(), "v2/pins/"@, decimal(id.0 as nat)),
        Endpoint::Question(id) => lemma_concat3(api(), "questions/"@, decimal(id.0 as nat)),
        Endpoint::QuestionAnswers(id) => lemma_concat4(api(), "questions/"@, decimal(id.0 as nat), "/answers"@),
        Endpoint::User(id) => lemma_concat3(api(), "members/"@, hex(id)),
        Endpoint::UserAnswers(t) => lemma_concat4(api(), "members/"@, t@, "/answers"@),
        Endpoint::UserArticles(t) => lemma_concat4(api(), "members/"@, t@, "/articles"@),
        Endpoint::UserColumns(t) => lemma_concat4(api(), "members/"@, t@, "/column-contributions"@),
        Endpoint::UserCreated(t) => lemma_concat4(api(), "people/"@, t@, "/collections"@),
        Endpoint::UserLiked(t) => lemma_concat4(api(), "members/"@, t@, "/following-favlists"@),
        Endpoint::UserPins(t) => lemma_concat4(api(), "v2/pins/"@, t@, "/moments"@),
        Endpoint::UserActivities(id) => lemma_concat4(api(), "moments/"@, hex(id), "/activities"@),
        Endpoint::RootComments(r, id) => lemma_concat6(api(), "comment_v5/"@, spec_root_type_segment(r), "/"@, id@, "/root_comment"@),
        Endpoint::ChildComments(id) => lemma_concat4(api(), "comment_v5/comment/"@, decimal(id.0 as nat), "/child_comment"@),
        Endpoint::Comment(id) => lemma_concat3(api(), "comment_v5/comment/"@, decimal(id.0 as nat)),
    }
}

/// The listings of one user, by URL token, go to different addresses: its
/// answers, articles, columns, created and followed collections and pins
/// are each fetched from their own URL.
pub proof fn lemma_user_listings_differ(t: &str)
    ensures
        spec_request(Endpoint::UserAnswers(t)).url != spec_request(Endpoint::UserArticles(t)).url,
        spec_request(Endpoint::UserAnswers(t)).url != spec_request(Endpoint::UserColumns(t)).url,
        spec_request(Endpoint::UserAnswers(t)).url != spec_request(Endpoint::UserCreated(t)).url,
        spec_request(Endpoint::UserAnswers(t)).url != spec_request(Endpoint::UserLiked(t)).url,
        spec_request(Endpoint::UserAnswers(t)).url != spec_request(Endpoint::UserPins(t)).url,
        spec_request(Endpoint::UserArticles(t)).url != spec_request(Endpoint::UserColumns(t)).url,
        spec_request(Endpoint::UserArticles(t)).url != spec_request(Endpoint::UserCreated(t)).url,
        spec_request(Endpoint::UserArticles(t)).url != spec_request(Endpoint::UserLiked(t)).url,
        spec_request(Endpoint::UserArticles(t)).url != spec_request(Endpoint::UserPins(t)).url,
        spec_request(Endpoint::UserColumns(t)).url != spec_request(Endpoint::UserCreated(t)).url,
        spec_request(Endpoint::UserColumns(t)).url != spec_request(Endpoint::UserLiked(t)).url,
        spec_request(Endpoint::UserColumns(t)).url != spec_request(Endpoint::UserPins(t)).url,
        spec_request(Endpoint::UserCreated(t)).url != spec_request(Endpoint::UserLiked(t)).url,
        spec_request(Endpoint::UserCreated(t)).url != spec_request(Endpoint::UserPins(t)).url,
        spec_request(Endpoint::UserLiked(t)).url != spec_request(Endpoint::UserPins(t)).url,
{
    reveal_strlit("https://www.zhihu.com/api/v4/");
    reveal_strlit("members/");
    reveal_strlit("people/");
    reveal_strlit("v2/pins/");
    reveal_strlit("/answers");
    reveal_strlit("/articles");
    reveal_strlit("/column-contributions");
    reveal_strlit("/collections");
    reveal_strlit("/following-favlists");
    reveal_strlit("/moments");
    lemma_request_urls(Endpoint::UserAnswers(t));
    lemma_request_urls(Endpoint::UserArticles(t));
    lemma_request_urls(Endpoint::UserColumns(t));
    lemma_request_urls(Endpoint::UserCreated(t));
    lemma_request_urls(Endpoint::UserLiked(t));
    lemma_request_urls(Endpoint::UserPins(t));
    let a = api();
    let n = t@.len();
    assert(spec_request(Endpoint::UserAnswers(t)).url.len() == 45 + n);
    assert(spec_request(Endpoint::UserArticles(t)).url.len() == 46 + n);
    assert(spec_request(Endpoint::UserColumns(t)).url.len() == 58 + n);
    assert(spec_request(Endpoint::UserCreated(t)).url.len() == 48 + n);
    assert(spec_request(Endpoint::UserLiked(t)).url.len() == 56 + n);
    assert(spec_request(Endpoint::UserPins(t)).url.len() == 45 + n);
    assert(spec_request(Endpoint::UserAnswers(t)).url[a.len() as int] == 'm');
    assert(spec_request(Endpoint::UserPins(t)).url[a.len() as int] == 'v');
}

/// The decimal text of a number.
fn n(x: u64) -> (r: String)
    ensures
        r@ == decimal(x as nat),
{
    u64_to_string(x)
}

impl<'a> Endpoint<'a> {
    /// How the request for the endpoint is made.
    pub fn request(&self) -> (r: Request)
        ensures
            r@ == spec_request(*self),
    {
        match *self {
            Endpoint::Explore => {
                let parts: [&str; 1] = ["https://www.zhihu.com/explore"];
                let url = concat_strs(&parts);
                assert(parts@.map_values(|p: &str| p@) =~= seq!["https://www.zhihu.com/explore"@]);
                Request { url, fields: None, signed: false, paged: false }
            },
            Endpoint::Answer(id) => {
                let t = n(id.0);
                let parts: [&str; 3] = ["https://www.zhihu.com/api/v4/", "answers/", t.as_str()];
                let url = concat_strs(&parts);
                assert(parts@.map_values(|p: &str| p@) =~= seq![api(), "answers/"@, decimal(id.0 as nat)]);
                Request { url, fields: Some("content;comment_count;voteup_count"), signed: true, paged: false }
            },
            Endpoint::Article(id) => {
                let t = n(id.0);
                let parts: [&str; 3] = ["https://www.zhihu.com/api/v4/", "articles/", t.as_str()];
                let url = concat_strs(&parts);
                assert(parts@.map_values(|p: &str| p@) =~= seq![api(), "articles/"@, decimal(id.0 as nat)]);
                Request { url, fields: None, signed: false, paged: false }
            },
            Endpoint::Collection(id) => {
                let t = n(id.0);
                let parts: [&str; 3] = ["https://www.zhihu.com/api/v4/", "collections/", t.as_str()];
                let url = concat_strs(&parts);
                assert(parts@.map_values(|p: &str| p@) =~= seq![api(), "collections/"@, decimal(id.0 as nat)]);
                Request { url, fields: None, signed: false, paged: false }
            },
            Endpoint::CollectionItems(id) => {
                let t = n(id.0);
                let parts: [&str; 4] = ["https://www.zhihu.com/api/v4/", "collections/", t.as_str(), "/items"];
                let url = concat_strs(&parts);
                assert(parts@.map_values(|p: &str| p@) =~= seq![api(), "collections/"@, decimal(id.0 as nat), "/items"@]);
                Request { url, fields: None, signed: false, paged: true }
            },
            Endpoint::Column(id) => {
                let parts: [&str; 3] = ["https://www.zhihu.com/api/v4/", "columns/", id.0];
                let url = concat_strs(&parts);
                assert(parts@.map_values(|p: &str| p@) =~= seq![api(), "columns/"@, id.0@]);
                Request { url, fields: Some("intro,created"), signed: false, paged: false }
            },
            Endpoint::ColumnItems(id, item) => {
                let t = item.api_segment();
                let parts: [&str; 5] = ["https://www.zhihu.com/api/v4/", "columns/", id.0, "/", t.as_str()];
                let url = concat_strs(&parts);
                assert(parts@.map_values(|p: &str| p@) =~= seq![api(), "columns/"@, id.0@, "/"@, spec_column_item_segment(item)]);
                Request { url, fields: None, signed: false, paged: true }
            },
            Endpoint::Pin(id) => {
                let t = n(id.0);
                let parts: [&str; 3] = ["https://www.zhihu.com/api/v4/", "v2/pins/", t.as_str()];
                let url = concat_strs(&parts);
                assert(parts@.map_values(|p: &str| p@) =~= seq![api(), "v2/pins/"@, decimal(id.0 as nat)]);
                Request { url, fields: None, signed: false, paged: false }
            },
            Endpoint::Question(id) => {
                let t = n(id.0);
                let parts: [&str; 3] = ["https://www.zhihu.com/api/v4/", "questions/", t.as_str()];
                let url = concat_strs(&parts);
                assert(parts@.map_values(|p: &str| p@) =~= seq![api(), "questions/"@, decimal(id.0 as nat)]);
                Request { url, fields: Some("author,description,is_anonymous;detail;comment_count;answer_count;excerpt"), signed: true, paged: false }
            },
            Endpoint::QuestionAnswers(id) => {
                let t = n(id.0);
                let parts: [&str; 4] = ["https://www.zhihu.com/api/v4/", "questions/", t.as_str(), "/answers"];
                let url = concat_strs(&parts);
                assert(parts@.map_values(|p: &str| p@) =~= seq![api(), "questions/"@, decimal(id.0 as nat), "/answers"@]);
                Request { url, fields: Some("data[*].is_normal,admin_closed_comment,reward_info,is_collapsed,annotation_action,annotation_detail,collapse_reason,collapsed_by,suggest_edit,comment_count,can_comment,content,editable_content,attachment,voteup_count,reshipment_settings,comment_permission,mark_infos,created_time,updated_time,review_info,excerpt,is_labeled,label_info,relationship.is_authorized,voting,is_author,is_thanked,is_nothelp,is_recognized;data[*].vessay_info;data[*].author.badge[?(type=best_answerer)].topics;data[*].author.vip_info;data[*].question.has_publishing_draft,relationship"), signed: true, paged: true }
            },
            Endpoint::User(id) => {
                let t = id.to_hex();
                let parts: [&str; 3] = ["https://www.zhihu.com/api/v4/", "members/", t.as_str()];
                let url = concat_strs(&parts);
                assert(parts@.map_values(|p: &str| p@) =~= seq![api(), "members/"@, hex(id)]);
                Request { url, fields: Some("description,cover_url"), signed: false, paged: false }
            },
            Endpoint::UserAnswers(token) => {
                let parts: [&str; 4] = ["https://www.zhihu.com/api/v4/", "members/", token, "/answers"];
                let url = concat_strs(&parts);
                assert(parts@.map_values(|p: &str| p@) =~= seq![api(), "members/"@, token@, "/answers"@]);
                Request { url, fields: Some("data[*].is_normal,admin_closed_comment,reward_info,is_collapsed,annotation_action,annotation_detail,collapse_reason,collapsed_by,suggest_edit,comment_count,can_comment,content,editable_content,attachment,voteup_count,reshipment_settings,comment_permission,mark_infos,created_time,updated_time,review_info,excerpt,is_labeled,label_info,relationship.is_authorized,voting,is_author,is_thanked,is_nothelp,is_recognized;data[*].vessay_info;data[*].author.badge[?(type=best_answerer)].topics;data[*].author.vip_info;data[*].question.has_publishing_draft,relationship"), signed: true, paged: true }
            },
            Endpoint::UserArticles(token) => {
                let parts: [&str; 4] = ["https://www.zhihu.com/api/v4/", "members/", token, "/articles"];
                let url = concat_strs(&parts);
                assert(parts@.map_values(|p: &str| p@) =~= seq![api(), "members/"@, token@, "/articles"@]);
                Request { url, fields: Some("data[*].comment_count,suggest_edit,is_normal,thumbnail_extra_info,thumbnail,can_comment,comment_permission,admin_closed_comment,content,voteup_count,created,updated,upvoted_followees,voting,review_info,is_labeled,label_info;data[*].vessay_info;data[*].author.badge[?(type=best_answerer)].topics;data[*].author.vip_info;"), signed: true, paged: true }
            },
            Endpoint::UserColumns(token) => {
                let parts: [&str; 4] = ["https://www.zhihu.com/api/v4/", "members/", token, "/column-contributions"];
                let url = concat_strs(&parts);
                assert(parts@.map_values(|p: &str| p@) =~= seq![api(), "members/"@, token@, "/column-contributions"@]);
                Request { url, fields: Some("data[*].column.intro,followers,articles_count,voteup_count,items_count,description,created"), signed: false, paged: true }
            },
            Endpoint::UserCreated(token) => {
                let parts: [&str; 4] = ["https://www.zhihu.com/api/v4/", "people/", token, "/collections"];
                let url = concat_strs(&parts);
                assert(parts@.map_values(|p: &str| p@) =~= seq![api(), "people/"@, token@, "/collections"@]);
                Request { url, fields: Some("data[*].updated_time,answer_count,follower_count,creator,description,is_following,comment_count,created_time;data[*].creator.vip_info"), signed: false, paged: true }
            },
            Endpoint::UserLiked(token) => {
                let parts: [&str; 4] = ["https://www.zhihu.com/api/v4/", "members/", token, "/following-favlists"];
                let url = concat_strs(&parts);
                assert(parts@.map_values(|p: &str| p@) =~= seq![api(), "members/"@, token@, "/following-favlists"@]);
                Request { url, fields: Some("data[*].updated_time,answer_count,follower_count,creator,description,is_following,comment_count,created_time"), signed: false, paged: true }
            },
            Endpoint::UserPins(token) => {
                let parts: [&str; 4] = ["https://www.zhihu.com/api/v4/", "v2/pins/", token, "/moments"];
                let url = concat_strs(&parts);
                assert(parts@.map_values(|p: &str| p@) =~= seq![api(), "v2/pins/"@, token@, "/moments"@]);
                Request { url, fields: None, signed: false, paged: true }
            },
            Endpoint::UserActivities(id) => {
                let t = id.to_hex();
                let parts: [&str; 4] = ["https://www.zhihu.com/api/v4/", "moments/", t.as_str(), "/activities"];
                let url = concat_strs(&parts);
                assert(parts@.map_values(|p: &str| p@) =~= seq![api(), "moments/"@, hex(id), "/activities"@]);
                Request { url, fields: None, signed: true, paged: true }
            },
            Endpoint::RootComments(root_type, id_text) => {
                let t = root_type.api_segment();
                let parts: [&str; 6] = ["https://www.zhihu.com/api/v4/", "comment_v5/", t.as_str(), "/", id_text, "/root_comment"];
                let url = concat_strs(&parts);
                assert(parts@.map_values(|p: &str| p@) =~= seq![api(), "comment_v5/"@, spec_root_type_segment(root_type), "/"@, id_text@, "/root_comment"@]);
                Request { url, fields: None, signed: false, paged: true }
            },
            Endpoint::ChildComments(id) => {
                let t = n(id.0);
                let parts: [&str; 4] = ["https://www.zhihu.com/api/v4/", "comment_v5/comment/", t.as_str(), "/child_comment"];
                let url = concat_strs(&parts);
                assert(parts@.map_values(|p: &str| p@) =~= seq![api(), "comment_v5/comment/"@, decimal(id.0 as nat), "/child_comment"@]);
                Request { url, fields: None, signed: false, paged: true }
            },
            Endpoint::Comment(id) => {
                let t = n(id.0);
                let parts: [&str; 3] = ["https://www.zhihu.com/api/v4/", "comment_v5/comment/", t.as_str()];
                let url = concat_strs(&parts);
                assert(parts@.map_values(|p: &str| p@) =~= seq![api(), "comment_v5/comment/"@, decimal(id.0 as nat)]);
                Request { url, fields: None, signed: false, paged: false }
            },
        }
    }
}

} // verus!
