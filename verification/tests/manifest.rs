use zhihu_dl::driver::manifest::spec::{
    BasicChild, CommentChild, ItemOption, Manifest, ManifestBranch, ManifestLeaf, UserOption,
};
use zhihu_dl::driver::manifest::{FsOp};
use zhihu_dl::element::author::UserId;
use zhihu_dl::item::answer::AnswerId;
use zhihu_dl::item::question::QuestionId;

fn with_comments(children: Option<bool>) -> ItemOption<BasicChild> {
    ItemOption {
        child: Some(BasicChild {
            comment: Some(CommentChild { child: children }),
        }),
    }
}

fn leaf_a() -> ManifestLeaf {
    let mut a = ManifestLeaf::new();
    a.answer.insert(AnswerId(1), with_comments(Some(true)));
    a.answer.insert(AnswerId(2), ItemOption { child: None });
    a
}

fn leaf_b() -> ManifestLeaf {
    let mut b = ManifestLeaf::new();
    b.answer.insert(AnswerId(1), ItemOption { child: Some(BasicChild { comment: None }) });
    b.question.insert(QuestionId(3), ItemOption { child: None });
    b
}

fn comment_children(l: &ManifestLeaf, id: u64) -> Option<Option<Option<bool>>> {
    l.answer
        .get(&AnswerId(id))
        .map(|o| o.child.map(|c| c.comment.map(|cc| cc.child)).flatten())
}

#[test]
fn merge_is_union_in_either_order() {
    let mut ab = leaf_a();
    ab.merge(leaf_b());
    let mut ba = leaf_b();
    ba.merge(leaf_a());
    for l in [&ab, &ba] {
        assert_eq!(l.answer.len(), 2);
        assert_eq!(comment_children(l, 1), Some(Some(Some(true))));
        assert!(l.answer.get(&AnswerId(2)).is_some());
        assert!(l.question.get(&QuestionId(3)).is_some());
    }
}

#[test]
fn merge_with_itself_changes_nothing() {
    let mut a = leaf_a();
    a.merge(leaf_a());
    assert_eq!(a.answer.len(), 2);
    assert_eq!(comment_children(&a, 1), Some(Some(Some(true))));
    assert_eq!(comment_children(&a, 2), Some(None));
}

#[test]
fn diff_keeps_what_is_not_covered() {
    let mut a = leaf_a();
    a.diff(&leaf_b());
    assert_eq!(a.answer.len(), 2);
    assert_eq!(comment_children(&a, 1), Some(Some(Some(true))));
    let mut b = leaf_b();
    b.diff(&leaf_a());
    // answer 1 of b asks nothing beyond a; question 3 is new.
    assert!(b.answer.get(&AnswerId(1)).is_none());
    assert!(b.question.get(&QuestionId(3)).is_some());
    let mut a2 = leaf_a();
    a2.diff(&leaf_a());
    assert!(a2.is_default());
}

#[test]
fn diff_then_merge_gives_union() {
    let mut d = leaf_a();
    d.diff(&leaf_b());
    d.merge(leaf_b());
    let mut u = leaf_a();
    u.merge(leaf_b());
    assert_eq!(d.answer.len(), u.answer.len());
    assert_eq!(comment_children(&d, 1), comment_children(&u, 1));
    assert_eq!(d.question.len(), u.question.len());
}

#[test]
fn comment_children_flag_diff() {
    let mut a = ManifestLeaf::new();
    a.answer.insert(AnswerId(1), with_comments(Some(true)));
    let mut b = ManifestLeaf::new();
    b.answer.insert(AnswerId(1), with_comments(Some(false)));
    let mut d = a.clone_leaf();
    d.diff(&b);
    assert_eq!(comment_children(&d, 1), Some(Some(Some(true))));
    let mut e = b.clone_leaf();
    e.diff(&a);
    assert!(e.is_default());
}

#[test]
fn users_keep_their_identifier() {
    let mut a = ManifestLeaf::new();
    a.user.insert(
        "t".to_string(),
        UserOption { id: UserId([1; 16]), container: Some(true), child: None },
    );
    let mut b = ManifestLeaf::new();
    b.user.insert(
        "t".to_string(),
        UserOption { id: UserId([1; 16]), container: None, child: None },
    );
    a.merge(b);
    let u = a.user.get(&"t".to_string()).unwrap();
    assert_eq!(u.id.0, [1; 16]);
    assert_eq!(u.container, Some(true));
}

#[test]
fn manifest_leaves_merge_and_missing() {
    let mut inner = ManifestBranch::new();
    inner.insert("z".to_string(), Manifest::Leaf(leaf_b()));
    let mut outer = ManifestBranch::new();
    outer.insert("x".to_string(), Manifest::Leaf(leaf_a()));
    outer.insert("y".to_string(), Manifest::Branch(inner));
    let m = Manifest::Branch(outer);
    let all = m.merged_leaf();
    assert_eq!(all.answer.len(), 2);
    assert_eq!(all.question.len(), 1);
    let missing = m.missing_leaf(&leaf_a());
    assert!(missing.answer.get(&AnswerId(2)).is_none());
    assert!(missing.question.get(&QuestionId(3)).is_some());
    let nothing = m.missing_leaf(&all);
    assert!(nothing.is_default());
}

#[test]
fn fs_op_text() {
    assert_eq!(FsOp::CreateDir.describe(), "create directory");
    assert_eq!(FsOp::Remove.describe(), "remove file");
    assert_eq!(FsOp::RenameFile("a.yaml".to_string()).describe(), "rename to a.yaml from");
}

#[test]
fn merged_leaf_of_leaf_is_itself_and_of_empty_branch_is_default() {
    let m = Manifest::Leaf(leaf_a());
    let got = m.merged_leaf();
    let want = leaf_a();
    assert_eq!(got.answer.len(), want.answer.len());
    assert!(got.answer.get(&AnswerId(2)).is_some() == want.answer.get(&AnswerId(2)).is_some());
    let mut d = got;
    d.diff(&want);
    assert!(d.is_default());
    assert!(Manifest::Branch(ManifestBranch::new()).merged_leaf().is_default());
}
