use zhihu_dl::element::comment::tree::{Comment, CommentInfo, CommentTree};
use zhihu_dl::element::comment::CommentId;

fn comment(id: u64, parent: Option<u64>, text: &str) -> Comment<String> {
    Comment {
        info: CommentInfo { id: CommentId(id), parent_id: parent.map(CommentId) },
        content: text.to_string(),
    }
}

fn shape(trees: &[CommentTree<String>]) -> String {
    let mut out = String::new();
    for t in trees {
        out.push_str(&t.node.content);
        if !t.child.is_empty() {
            out.push('[');
            out.push_str(&shape(&t.child));
            out.push(']');
        }
        out.push(' ');
    }
    out.trim_end().to_string()
}

fn contents(cs: &[Comment<String>]) -> Vec<&str> {
    cs.iter().map(|c| c.content.as_str()).collect()
}

fn sample() -> Vec<Comment<String>> {
    vec![
        comment(1, None, "a"),
        comment(2, Some(1), "b"),
        comment(3, None, "c"),
        comment(4, Some(2), "d"),
        comment(5, Some(1), "e"),
    ]
}

#[test]
fn replies_hang_below_their_parent_in_list_order() {
    let trees = CommentTree::from_comments(sample());
    assert_eq!(trees.len(), 2);
    assert_eq!(shape(&trees), "a[b[d] e] c");
    assert_eq!(trees[0].node.info.id, CommentId(1));
    assert_eq!(trees[0].child[1].node.info.parent_id, Some(CommentId(1)));
}

#[test]
fn reading_the_trees_back_gives_depth_first_order() {
    let trees = CommentTree::from_comments(sample());
    let back = CommentTree::to_comments(trees);
    assert_eq!(contents(&back), vec!["a", "b", "d", "e", "c"]);
}

#[test]
fn every_comment_comes_back_once_when_all_parents_are_present() {
    let data = vec![
        comment(7, Some(5), "g"),
        comment(5, None, "e"),
        comment(6, Some(7), "f"),
        comment(8, Some(5), "h"),
    ];
    let back = CommentTree::to_comments(CommentTree::from_comments(data));
    assert_eq!(contents(&back), vec!["e", "g", "f", "h"]);
}

#[test]
fn comments_whose_parent_is_missing_are_left_out() {
    let mut data = sample();
    data.push(comment(6, Some(99), "orphan"));
    data.push(comment(7, Some(6), "below orphan"));
    let trees = CommentTree::from_comments(data);
    assert_eq!(shape(&trees), "a[b[d] e] c");
}

#[test]
fn comments_in_a_cycle_are_left_out() {
    let data = vec![comment(1, Some(2), "x"), comment(2, Some(1), "y"), comment(3, None, "z")];
    let trees = CommentTree::from_comments(data);
    assert_eq!(shape(&trees), "z");
}

#[test]
fn the_last_comment_with_an_id_is_the_node() {
    let data = vec![comment(1, None, "first"), comment(1, Some(9), "second")];
    let trees = CommentTree::from_comments(data);
    assert_eq!(trees.len(), 1);
    assert_eq!(trees[0].node.content, "second");
    assert!(trees[0].child.is_empty());
}

#[test]
fn empty_list_gives_no_trees() {
    let trees: Vec<CommentTree<String>> = CommentTree::from_comments(vec![]);
    assert!(trees.is_empty());
    assert!(CommentTree::to_comments(trees).is_empty());
}

#[test]
fn round_trip_reorders_depth_first_and_keeps_every_comment() {
    let back = CommentTree::to_comments(CommentTree::from_comments(sample()));
    assert_eq!(back.len(), 5);
    assert_eq!(contents(&back), vec!["a", "b", "d", "e", "c"]);
    let mut ids: Vec<u64> = back.iter().map(|c| c.info.id.0).collect();
    ids.sort();
    assert_eq!(ids, vec![1, 2, 3, 4, 5]);
}
