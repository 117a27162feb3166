use zhihu_dl::element::author::UserId;
use zhihu_dl::element::comment::{CommentId, RootType};
use zhihu_dl::item::answer::AnswerId;
use zhihu_dl::item::column::{ColumnItem, ColumnRef};
use zhihu_dl::item::question::QuestionId;
use zhihu_dl::request::api::Endpoint;

#[test]
fn answer_request_is_signed_with_fields() {
    let r = Endpoint::Answer(AnswerId(12)).request();
    assert_eq!(r.url, "https://www.zhihu.com/api/v4/answers/12");
    assert_eq!(r.fields, Some("content;comment_count;voteup_count"));
    assert!(r.signed);
    assert!(!r.paged);
}

#[test]
fn container_requests() {
    let r = Endpoint::ColumnItems(ColumnRef("abc"), ColumnItem::Pinned).request();
    assert_eq!(r.url, "https://www.zhihu.com/api/v4/columns/abc/pinned-items");
    assert!(r.paged);
    assert_eq!(r.fields, None);
    let r = Endpoint::ColumnItems(ColumnRef("abc"), ColumnItem::Regular).request();
    assert_eq!(r.url, "https://www.zhihu.com/api/v4/columns/abc/items");
    let r = Endpoint::QuestionAnswers(QuestionId(5)).request();
    assert_eq!(r.url, "https://www.zhihu.com/api/v4/questions/5/answers");
    assert!(r.signed && r.paged);
    assert!(r.fields.unwrap().starts_with("data[*].is_normal"));
    let r = Endpoint::UserCreated("tok").request();
    assert_eq!(r.url, "https://www.zhihu.com/api/v4/people/tok/collections");
    assert!(!r.signed);
    let r = Endpoint::UserLiked("tok").request();
    assert_eq!(r.url, "https://www.zhihu.com/api/v4/members/tok/following-favlists");
    let r = Endpoint::UserPins("tok").request();
    assert_eq!(r.url, "https://www.zhihu.com/api/v4/v2/pins/tok/moments");
}

#[test]
fn user_requests_by_identifier() {
    let id = UserId([0xab; 16]);
    let r = Endpoint::User(id).request();
    assert_eq!(r.url, format!("https://www.zhihu.com/api/v4/members/{}", "ab".repeat(16)));
    assert_eq!(r.fields, Some("description,cover_url"));
    let r = Endpoint::UserActivities(id).request();
    assert_eq!(r.url, format!("https://www.zhihu.com/api/v4/moments/{}/activities", "ab".repeat(16)));
    assert!(r.signed && r.paged);
}

#[test]
fn comment_requests() {
    let r = Endpoint::RootComments(RootType::Article, "77").request();
    assert_eq!(r.url, "https://www.zhihu.com/api/v4/comment_v5/articles/77/root_comment");
    assert!(r.paged);
    let r = Endpoint::ChildComments(CommentId(9)).request();
    assert_eq!(r.url, "https://www.zhihu.com/api/v4/comment_v5/comment/9/child_comment");
    let r = Endpoint::Comment(CommentId(9)).request();
    assert_eq!(r.url, "https://www.zhihu.com/api/v4/comment_v5/comment/9");
    assert!(!r.paged);
    assert_eq!(Endpoint::Explore.request().url, "https://www.zhihu.com/explore");
}
