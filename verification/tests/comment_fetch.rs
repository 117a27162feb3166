use zhihu_dl::element::comment::fetch::{comments_with_children, ImagePace, MissingParents};
use zhihu_dl::element::comment::{CommentId, RootType};

#[test]
fn replies_fetched_for_comments_that_have_some() {
    let roots = vec![(CommentId(1), 0), (CommentId(2), 3), (CommentId(3), 0), (CommentId(4), 1)];
    let r = comments_with_children(&roots);
    assert_eq!(r, vec![CommentId(2), CommentId(4)]);
    assert!(comments_with_children(&vec![]).is_empty());
}

#[test]
fn missing_parents_fetched_smallest_first() {
    // 10 replies to 5 and 11 replies to 3; neither 5 nor 3 was fetched.
    let got = vec![
        (CommentId(10), Some(CommentId(5))),
        (CommentId(11), Some(CommentId(3))),
        (CommentId(12), Some(CommentId(10))),
        (CommentId(13), None),
    ];
    let mut s = MissingParents::new(&got);
    assert_eq!(s.next(), Some(CommentId(3)));
    // Asking again before the answer gives the same request.
    assert_eq!(s.next(), Some(CommentId(3)));
    // 3 replies to 1, which is missing too.
    s.fetched(CommentId(3), Some(CommentId(1)));
    assert_eq!(s.next(), Some(CommentId(1)));
    s.fetched(CommentId(1), None);
    assert_eq!(s.next(), Some(CommentId(5)));
    // 5 replies to 10, which is known.
    s.fetched(CommentId(5), Some(CommentId(10)));
    assert_eq!(s.next(), None);
    assert_eq!(s.next(), None);
}

#[test]
fn nothing_missing() {
    let got = vec![(CommentId(1), None), (CommentId(2), Some(CommentId(1)))];
    let mut s = MissingParents::new(&got);
    assert_eq!(s.next(), None);
}

#[test]
fn comment_replying_to_the_requested_one_adds_nothing() {
    let got = vec![(CommentId(2), Some(CommentId(1)))];
    let mut s = MissingParents::new(&got);
    assert_eq!(s.next(), Some(CommentId(1)));
    s.fetched(CommentId(1), Some(CommentId(1)));
    assert_eq!(s.next(), None);
}

#[test]
fn image_pace_pauses_every_forty() {
    let mut p = ImagePace::new();
    let mut pauses = 0;
    for i in 0..100 {
        if p.comment_done(i % 2 == 0) {
            pauses += 1;
        }
    }
    // 50 comments with images: one pause after the 40th.
    assert_eq!(pauses, 1);
    let mut p = ImagePace::new();
    for _ in 0..39 {
        assert!(!p.comment_done(true));
    }
    assert!(!p.comment_done(false));
    assert!(p.comment_done(true));
    assert!(!p.comment_done(true));
}

#[test]
fn root_type_names() {
    assert_eq!(RootType::Answer.name(), "answer");
    assert_eq!(RootType::Answer.api_segment(), "answers");
    assert_eq!(RootType::Question.api_segment(), "questions");
    assert_eq!(RootType::Collection.name(), "collection");
}
