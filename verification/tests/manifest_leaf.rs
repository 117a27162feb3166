use zhihu_dl::driver::manifest::leaf::{should_apply, ChildSteps, SubContainer};
use zhihu_dl::driver::manifest::spec::{
    BasicChild, CollectionChild, ColumnChild, CommentChild, ItemOption, ManifestLeaf,
    QuestionChild, UserChild, UserCollection, UserOption,
};
use zhihu_dl::element::author::UserId;
use zhihu_dl::item::answer::AnswerId;
use zhihu_dl::item::question::QuestionId;
use zhihu_dl::store::info::{ContainerOption, ItemInfo};
use zhihu_dl::store::{ObjectRef, Store};

const COMMENTS: BasicChild = BasicChild {
    comment: Some(CommentChild { child: Some(true) }),
};

#[test]
fn jobs_follow_kind_order() {
    let mut leaf = ManifestLeaf::new();
    leaf.question.insert(
        QuestionId(2),
        ItemOption {
            child: Some(QuestionChild {
                comment: Some(CommentChild { child: None }),
                answer: Some(COMMENTS),
            }),
        },
    );
    leaf.answer.insert(AnswerId(1), ItemOption { child: None });
    leaf.user.insert(
        "tok".to_string(),
        UserOption {
            id: UserId([3; 16]),
            container: None,
            child: None,
        },
    );
    let jobs = leaf.jobs();
    assert_eq!(jobs.len(), 3);
    assert!(matches!(jobs[0].object, ObjectRef::Answer(AnswerId(1))));
    assert!(!jobs[0].wanted);
    assert!(jobs[0].steps.is_empty());
    assert!(matches!(jobs[1].object, ObjectRef::Question(QuestionId(2))));
    assert!(jobs[1].wanted);
    assert_eq!(jobs[1].steps.len(), 2);
    assert!(matches!(
        jobs[1].steps[0],
        SubContainer::Basic { option: ContainerOption::Answer, .. }
    ));
    assert!(matches!(jobs[1].steps[1], SubContainer::Comments { children: false }));
    assert!(matches!(jobs[2].object, ObjectRef::User(_)));
    assert_eq!(jobs[2].url_token.as_deref(), Some("tok"));
    assert!(!jobs[2].wanted);
}

#[test]
fn user_steps_skip_questions() {
    let child = UserChild {
        answer: None,
        article: Some(BasicChild { comment: None }),
        collection: Some(UserCollection {
            created: None,
            liked: Some(CollectionChild {
                item: Some(COMMENTS),
                comment: None,
            }),
        }),
        column: Some(ColumnChild {
            regular: Some(COMMENTS),
            pinned: None,
        }),
        pin: Some(COMMENTS),
        question: Some(QuestionChild {
            comment: None,
            answer: None,
        }),
    };
    let s = child.steps();
    assert_eq!(s.len(), 4);
    assert!(matches!(s[0], SubContainer::Basic { option: ContainerOption::Article, .. }));
    assert!(matches!(s[1], SubContainer::Collections { option: ContainerOption::Liked, .. }));
    assert!(matches!(s[2], SubContainer::Columns { .. }));
    assert!(matches!(s[3], SubContainer::Basic { option: ContainerOption::Pin, .. }));
    let items = s[1].item_steps();
    assert_eq!(items.len(), 1);
    assert!(matches!(items[0], SubContainer::Basic { option: ContainerOption::Item, .. }));
    let cols = s[2].item_steps();
    assert_eq!(cols.len(), 1);
    assert!(matches!(cols[0], SubContainer::Basic { option: ContainerOption::Item, .. }));
    let pins = s[3].item_steps();
    assert!(matches!(pins[..], [SubContainer::Comments { children: true }]));
    assert!(SubContainer::Comments { children: true }.item_steps().is_empty());
}

#[test]
fn column_steps_pinned_first() {
    let c = ColumnChild {
        regular: Some(COMMENTS),
        pinned: Some(COMMENTS),
    };
    let s = c.steps();
    assert!(matches!(s[0], SubContainer::Basic { option: ContainerOption::PinnedItem, .. }));
    assert!(matches!(s[1], SubContainer::Basic { option: ContainerOption::Item, .. }));
    let c = CollectionChild {
        item: Some(COMMENTS),
        comment: Some(CommentChild { child: Some(false) }),
    };
    let s = c.steps();
    assert!(matches!(s[0], SubContainer::Comments { children: false }));
    assert!(matches!(s[1], SubContainer::Basic { option: ContainerOption::Item, .. }));
}

#[test]
fn jobs_skipped_for_objects_gone_from_server() {
    let mut leaf = ManifestLeaf::new();
    leaf.answer.insert(AnswerId(1), ItemOption { child: None });
    leaf.answer.insert(AnswerId(2), ItemOption { child: None });
    let mut store = Store::create("/s".to_string());
    store.add_info(
        &ObjectRef::Answer(AnswerId(2)),
        ItemInfo {
            in_store: true,
            on_server: false,
        },
    );
    let jobs = leaf.jobs();
    assert!(should_apply(&store, &jobs[0]));
    assert!(!should_apply(&store, &jobs[1]));
}
