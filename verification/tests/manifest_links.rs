use zhihu_dl::cli::ManifestCmd;
use zhihu_dl::driver::manifest::branch::LinkStep;
use zhihu_dl::driver::manifest::spec::{ItemOption, Manifest, ManifestBranch, ManifestLeaf, UserOption};
use zhihu_dl::item::question::QuestionId;
use zhihu_dl::element::author::UserId;
use zhihu_dl::element::comment::fetch::{Error, ErrorComment, ErrorSource};
use zhihu_dl::element::comment::{CommentId, RootType};
use zhihu_dl::item::answer::AnswerId;
use zhihu_dl::item::column::ColumnId;
use zhihu_dl::store::ObjectRef;

fn leaf() -> ManifestLeaf {
    let mut l = ManifestLeaf::new();
    l.user.insert(
        "tok".to_string(),
        UserOption { id: UserId([1; 16]), container: None, child: None },
    );
    l.answer.insert(AnswerId(5), ItemOption { child: None });
    l.column.insert(ColumnId("col".to_string()), ItemOption { child: None });
    l
}

fn dir(step: &LinkStep) -> Vec<String> {
    match step {
        LinkStep::Dir(d) => d.clone(),
        LinkStep::Link { dir, name, .. } => {
            let mut v = dir.clone();
            v.push(name.clone());
            v
        }
    }
}

#[test]
fn leaf_links_under_site_directory() {
    let steps = Manifest::Leaf(leaf()).link_steps();
    assert_eq!(steps.len(), 3);
    assert_eq!(dir(&steps[0]), vec!["zhihu.com", "answer", "5"]);
    assert_eq!(dir(&steps[1]), vec!["zhihu.com", "column", "col"]);
    assert_eq!(dir(&steps[2]), vec!["zhihu.com", "user", "tok"]);
    assert!(matches!(&steps[2], LinkStep::Link { object: ObjectRef::User(u), .. } if u.0 == [1; 16]));
}

#[test]
fn branches_make_directories_first() {
    let mut inner = ManifestBranch::new();
    inner.insert("c".to_string(), Manifest::Leaf(ManifestLeaf::new()));
    let mut outer = ManifestBranch::new();
    outer.insert("b".to_string(), Manifest::Branch(inner));
    outer.insert("a".to_string(), Manifest::Leaf(leaf()));
    let m = Manifest::Branch(outer);
    let steps = m.link_steps();
    let dirs: Vec<Vec<String>> = steps.iter().map(dir).collect();
    assert_eq!(
        dirs,
        vec![
            vec!["a".to_string()],
            vec!["a".into(), "zhihu.com".into(), "answer".into(), "5".into()],
            vec!["a".into(), "zhihu.com".into(), "column".into(), "col".into()],
            vec!["a".into(), "zhihu.com".into(), "user".into(), "tok".into()],
            vec!["b".to_string()],
            vec!["b".to_string(), "c".to_string()],
        ]
    );
    assert!(matches!(steps[0], LinkStep::Dir(_)));
    assert!(matches!(steps[5], LinkStep::Dir(_)));
}

#[test]
fn manifest_command_messages() {
    let m = ManifestCmd::Apply { path: "m.ron".to_string() }.messages();
    assert_eq!(m.start, Some(("Applying", "manifest m.ron".to_string())));
    assert_eq!(m.done, ("Applied", "manifest m.ron".to_string()));
    let m = ManifestCmd::Format { path: "m.ron".to_string() }.messages();
    assert_eq!(m.start, None);
    assert_eq!(m.done, ("Formatted", "ron manifest m.ron".to_string()));
    let c = ManifestCmd::Link { path: "x.ron".to_string() };
    let m = c.messages();
    assert_eq!(m.start, Some(("Creating", "symbol links according to manifest x.ron".to_string())));
    assert_eq!(m.done, ("Created", "symbol links according to x.ron".to_string()));
    assert_eq!(c.path(), "x.ron");
}

#[test]
fn comment_fetch_error_messages() {
    let e = Error {
        comment: ErrorComment::RootComment { root_type: RootType::Pin, root_id: "12".to_string() },
        source: ErrorSource::Http,
    };
    assert_eq!(e.describe(), "Http request failed while fetching root comment in pin 12");
    let e = Error { comment: ErrorComment::ChildComment(CommentId(3)), source: ErrorSource::Json };
    assert_eq!(e.describe(), "Json parsing failed while fetching comment 3");
    let e = Error { comment: ErrorComment::Comment(CommentId(4)), source: ErrorSource::Http };
    assert_eq!(e.describe(), "Http request failed while fetching child comment of 4");
}

#[test]
fn branch_names_stay_ascending_and_unique() {
    let mut b = ManifestBranch::new();
    for name in ["m", "b", "z", "b", "a"] {
        b.insert(name.to_string(), Manifest::Leaf(ManifestLeaf::new()));
    }
    let names: Vec<&str> = b.entries().iter().map(|(n, _)| n.as_str()).collect();
    assert_eq!(names, vec!["a", "b", "m", "z"]);
    let mut l = ManifestLeaf::new();
    l.question.insert(QuestionId(7), ItemOption { child: None });
    b.insert("m".to_string(), Manifest::Leaf(l));
    assert_eq!(b.entries().len(), 4);
    assert!(matches!(&b.entries()[2].1, Manifest::Leaf(x) if x.question.len() == 1));
}
