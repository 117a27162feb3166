use zhihu_dl::driver::container::{needs_processing, store_container};
use zhihu_dl::element::author::UserId;
use zhihu_dl::item::answer::AnswerId;
use zhihu_dl::item::any::{AnyId, AnyList};
use zhihu_dl::item::article::ArticleId;
use zhihu_dl::item::collection::CollectionId;
use zhihu_dl::item::column::{ColumnId, ColumnRef};
use zhihu_dl::item::other::OtherInfo;
use zhihu_dl::item::pin::PinId;
use zhihu_dl::item::question::QuestionId;
use zhihu_dl::item::user::activity::{ActTargetId, ActivityId, ActivityList};
use zhihu_dl::meta::Version;
use zhihu_dl::store::container::{container_location, Container, ItemList};
use zhihu_dl::store::info::{ContainerOption, ItemInfo};
use zhihu_dl::store::{MigrateError, ObjectInfo, ObjectMigration, ObjectRef, Store, StoreError};
use zhihu_dl::util::key_map::KeySet;

fn answers(ids: &[u64]) -> KeySet<AnswerId> {
    let mut s = KeySet::new();
    for i in ids {
        s.insert(AnswerId(*i));
    }
    s
}

const GONE: ItemInfo = ItemInfo {
    in_store: true,
    on_server: false,
};
const UNKNOWN: ItemInfo = ItemInfo {
    in_store: false,
    on_server: true,
};

#[test]
fn container_location_is_owner_dir_then_option() {
    let loc = container_location(&ObjectRef::Question(QuestionId(9)), "answer");
    assert_eq!(loc, vec!["question".to_string(), "9".to_string(), "answer".to_string()]);
}

#[test]
fn link_item_gives_relative_target() {
    let loc = container_location(&ObjectRef::Question(QuestionId(9)), "answer");
    let mut c = Container::open(loc, answers(&[1]));
    let target = c.link_item(&ObjectRef::Answer(AnswerId(2)), false);
    assert_eq!(target, Some(vec!["..".to_string(), "..".to_string(), "..".to_string(), "..".to_string(), "answer".to_string(), "2".to_string()]));
}

#[test]
fn existing_link_is_kept_but_item_is_listed() {
    let loc = container_location(&ObjectRef::Question(QuestionId(9)), "answer");
    let mut c = Container::open(loc, answers(&[1]));
    assert_eq!(c.link_item(&ObjectRef::Answer(AnswerId(3)), true), None);
    let (list, _) = c.finish();
    assert!(list.contains(&AnswerId(3)));
}

#[test]
fn unseen_items_are_marked_missing() {
    let mut store = Store::create("/s".to_string());
    let loc = container_location(&ObjectRef::Question(QuestionId(9)), "answer");
    let mut c = Container::open(loc, answers(&[1, 2, 3]));
    c.link_item(&ObjectRef::Answer(AnswerId(2)), false);
    c.link_item(&ObjectRef::Answer(AnswerId(4)), false);
    c.mark_missing(&mut store);
    assert_eq!(store.in_store(&ObjectRef::Answer(AnswerId(1))), GONE);
    assert_eq!(store.in_store(&ObjectRef::Answer(AnswerId(2))), UNKNOWN);
    assert_eq!(store.in_store(&ObjectRef::Answer(AnswerId(3))), GONE);
    assert_eq!(store.in_store(&ObjectRef::Answer(AnswerId(4))), UNKNOWN);
    assert!(store.is_dirty());
    let (list, loc) = c.finish();
    assert_eq!(loc, vec!["question", "9", "answer"]);
    for i in [1, 2, 3, 4] {
        assert!(list.contains(&AnswerId(i)));
    }
    assert_eq!(list.keys().len(), 4);
}

#[test]
fn nothing_missing_leaves_store_clean() {
    let mut store = Store::create("/s".to_string());
    let loc = container_location(&ObjectRef::Question(QuestionId(9)), "answer");
    let mut c = Container::open(loc, answers(&[5]));
    c.link_item(&ObjectRef::Answer(AnswerId(5)), false);
    c.mark_missing(&mut store);
    assert!(!store.is_dirty());
    assert_eq!(store.in_store(&ObjectRef::Answer(AnswerId(5))), UNKNOWN);
}

#[test]
fn list_ignores_objects_of_other_kinds() {
    let loc = container_location(&ObjectRef::Question(QuestionId(9)), "answer");
    let mut c = Container::open(loc, answers(&[1]));
    c.link_item(&ObjectRef::Article(ArticleId(7)), false);
    let (list, _) = c.finish();
    assert_eq!(list.keys().len(), 1);
    assert!(list.contains(&AnswerId(1)));
}

#[test]
fn any_list_keeps_answers_and_articles() {
    let mut l = AnyList::new_list();
    ItemList::insert(&mut l, &ObjectRef::Answer(AnswerId(1)));
    ItemList::insert(&mut l, &ObjectRef::Article(ArticleId(2)));
    ItemList::insert(&mut l, &ObjectRef::Pin(PinId(3)));
    assert!(l.answer.contains(&AnswerId(1)));
    assert!(l.article.contains(&ArticleId(2)));
    ItemList::remove(&mut l, &ObjectRef::Answer(AnswerId(1)));
    assert!(!l.answer.contains(&AnswerId(1)));
    let info = OtherInfo {
        id: 4,
        item_type: "zvideo".to_string(),
    };
    l.insert_any(&AnyId::Other(Some(&info)));
    l.insert_any(&AnyId::Answer(AnswerId(8)));
    assert!(l.answer.contains(&AnswerId(8)));
    assert_eq!(l.answer.keys().len(), 1);
    assert_eq!(l.article.keys().len(), 1);
}

#[test]
fn any_list_marks_both_kinds() {
    let mut store = Store::create("/s".to_string());
    let mut l = AnyList::new_list();
    ItemList::insert(&mut l, &ObjectRef::Answer(AnswerId(1)));
    ItemList::insert(&mut l, &ObjectRef::Article(ArticleId(1)));
    l.set_item_info(GONE, &mut store);
    assert_eq!(store.in_store(&ObjectRef::Answer(AnswerId(1))), GONE);
    assert_eq!(store.in_store(&ObjectRef::Article(ArticleId(1))), GONE);
    assert_eq!(store.in_store(&ObjectRef::Pin(PinId(1))), UNKNOWN);
}

#[test]
fn activity_list_marks_every_kind() {
    let mut store = Store::create("/s".to_string());
    let mut l = ActivityList::new_list();
    let objs = vec![
        ObjectRef::Answer(AnswerId(1)),
        ObjectRef::Article(ArticleId(2)),
        ObjectRef::Collection(CollectionId(3)),
        ObjectRef::Column(ColumnId("c".to_string())),
        ObjectRef::Pin(PinId(5)),
        ObjectRef::Question(QuestionId(6)),
    ];
    for o in &objs {
        ItemList::insert(&mut l, o);
    }
    ItemList::insert(&mut l, &ObjectRef::Comment(zhihu_dl::element::comment::CommentId(9)));
    let copy = l.copy_list();
    copy.set_item_info(GONE, &mut store);
    for o in &objs {
        assert_eq!(store.in_store(o), GONE);
    }
    assert_eq!(
        store.in_store(&ObjectRef::Comment(zhihu_dl::element::comment::CommentId(9))),
        UNKNOWN
    );
}

#[test]
fn describe_ids() {
    let info = OtherInfo {
        id: 4,
        item_type: "zvideo".to_string(),
    };
    assert_eq!(AnyId::Answer(AnswerId(12)).describe(), "answer 12");
    assert_eq!(AnyId::Article(ArticleId(3)).describe(), "article 3");
    assert_eq!(AnyId::Other(Some(&info)).describe(), "unknown (zvideo 4)");
    assert_eq!(AnyId::Other(None).describe(), "unknown");
    let a = ActivityId {
        id: 100,
        target: ActTargetId::Column(ColumnRef("c1")),
    };
    assert_eq!(a.describe(), "100 (column c1)");
    let b = ActivityId {
        id: 7,
        target: ActTargetId::Other(None),
    };
    assert_eq!(b.describe(), "7 (unknown)");
    let c = ActivityId {
        id: 7,
        target: ActTargetId::Other(Some(&info)),
    };
    assert_eq!(c.describe(), "7 (zvideo 4)");
    assert!(matches!(
        ActTargetId::Column(ColumnRef("c1")).object_ref(),
        Some(ObjectRef::Column(ColumnId(ref s))) if s == "c1"
    ));
    assert!(ActTargetId::Other(None).object_ref().is_none());
}

#[test]
fn store_container_records_list_and_links() {
    let mut store = Store::create("/s".to_string());
    let owner = ObjectRef::Question(QuestionId(9));
    let items = vec![ObjectRef::Answer(AnswerId(1)), ObjectRef::Answer(AnswerId(4))];
    assert!(!store.container_in_store(&owner, ContainerOption::Answer));
    let (list, loc, links) = store_container(
        &mut store,
        &owner,
        ContainerOption::Answer,
        "answer",
        answers(&[1, 2]),
        &items,
        &vec![false, true],
    );
    assert_eq!(loc, vec!["question", "9", "answer"]);
    let up = |id: &str| Some(vec!["..", "..", "..", "..", "answer", id].iter().map(|s| s.to_string()).collect::<Vec<String>>());
    assert_eq!(links, vec![up("1"), None]);
    for i in [1, 2, 4] {
        assert!(list.contains(&AnswerId(i)));
    }
    assert_eq!(list.keys().len(), 3);
    assert!(store.container_in_store(&owner, ContainerOption::Answer));
    assert!(!store.container_in_store(&owner, ContainerOption::Comment));
    assert_eq!(store.in_store(&ObjectRef::Answer(AnswerId(2))), UNKNOWN);
    assert!(store.is_dirty());
}

#[test]
fn needs_processing_only_unstored_items() {
    let mut store = Store::create("/s".to_string());
    store.add_object(true, &ObjectRef::Answer(AnswerId(1)));
    assert!(!needs_processing(&store, &ObjectRef::Answer(AnswerId(1))));
    assert!(needs_processing(&store, &ObjectRef::Answer(AnswerId(2))));
}

#[test]
fn container_flags_per_kind() {
    let mut store = Store::create("/s".to_string());
    let user = ObjectRef::User(UserId([7u8; 16]));
    store.add_container_info(&user, ContainerOption::Created);
    assert!(store.container_in_store(&user, ContainerOption::Created));
    assert!(!store.container_in_store(&user, ContainerOption::Liked));
    let answer = ObjectRef::Answer(AnswerId(3));
    store.add_container_info(&answer, ContainerOption::Item);
    assert!(!store.container_in_store(&answer, ContainerOption::Item));
    store.add_container_info(&answer, ContainerOption::Comment);
    assert!(store.container_in_store(&answer, ContainerOption::Comment));
    assert_eq!(store.in_store(&answer), UNKNOWN);
}

#[test]
fn link_info_paths() {
    let store = Store::create("/s".to_string());
    let l = store.link_info(&ObjectRef::Answer(AnswerId(5)), "/dest");
    assert_eq!(l.source, "/s/answer/5");
    assert_eq!(l.link, "/dest/answer/5");
    let u = store.link_info(&ObjectRef::User(UserId([0xab; 16])), "d");
    assert_eq!(u.link, format!("d/user/{}", "ab".repeat(16)));
}

#[test]
fn store_paths_and_records() {
    let mut store = Store::create("/root".to_string());
    let obj = ObjectRef::Column(ColumnId("c-1".to_string()));
    assert_eq!(store.item_path(&obj), "/root/column/c-1");
    assert_eq!(store.store_path(&obj), "/root/column/c-1/info");
    assert!(!store.is_dirty());
    let p = store.add_object(false, &obj);
    assert_eq!(p, "/root/column/c-1/info");
    assert_eq!(
        store.in_store(&obj),
        ItemInfo {
            in_store: true,
            on_server: false
        }
    );
    assert!(store.is_dirty());
    store.save();
    assert!(!store.is_dirty());
}

#[test]
fn open_refuses_incompatible_versions() {
    assert!(Store::open("/s".to_string(), Version { major: 1, minor: 1 }, ObjectInfo::new()).is_ok());
    assert!(Store::open("/s".to_string(), Version { major: 1, minor: 0 }, ObjectInfo::new()).is_ok());
    match Store::open("/s".to_string(), Version { major: 1, minor: 2 }, ObjectInfo::new()) {
        Err(StoreError::Version(v)) => assert_eq!(v, Version { major: 1, minor: 2 }),
        Ok(_) => panic!("newer minor version accepted"),
    }
    match Store::open("/s".to_string(), Version { major: 2, minor: 0 }, ObjectInfo::new()) {
        Err(StoreError::Version(v)) => assert_eq!(v, Version { major: 2, minor: 0 }),
        Ok(_) => panic!("other major version accepted"),
    }
}

#[test]
fn migrate_lists_stored_objects() {
    let mut s0 = Store::create("/s".to_string());
    s0.add_object(true, &ObjectRef::Answer(AnswerId(3)));
    s0.add_object(true, &ObjectRef::Pin(PinId(1)));
    s0.add_info(&ObjectRef::Answer(AnswerId(4)), UNKNOWN);
    let objects = take_objects(s0);
    let store = Store::open("/s".to_string(), Version { major: 1, minor: 0 }, objects).unwrap();
    let targets = store.migrate().unwrap();
    assert_eq!(targets.len(), 2);
    assert!(matches!(targets[0], ObjectRef::Answer(AnswerId(3))));
    assert!(matches!(targets[1], ObjectRef::Pin(PinId(1))));
    let current = Store::create("/s".to_string());
    match current.migrate() {
        Err(MigrateError::Version(v)) => assert_eq!(v, Version { major: 1, minor: 1 }),
        _ => panic!("current store migrated"),
    }
}

#[test]
fn migration_lists_ids_ascending_and_stops_at_first_failure() {
    let mut s0 = Store::create("/s".to_string());
    for i in [9, 2, 5] {
        s0.add_object(true, &ObjectRef::Answer(AnswerId(i)));
    }
    s0.add_object(true, &ObjectRef::Article(ArticleId(1)));
    let objects = take_objects(s0);
    let mut store = Store::open("/s".to_string(), Version { major: 1, minor: 0 }, objects).unwrap();
    let targets = store.migrate().unwrap();
    let ids: Vec<String> = targets.iter().map(|t| format!("{} {}", t.kind_name(), t.id_text())).collect();
    assert_eq!(ids, vec!["answer 2", "answer 5", "answer 9", "article 1"]);
    let outcomes = vec![ObjectMigration::Done, ObjectMigration::ImageFailed, ObjectMigration::LoadFailed, ObjectMigration::Done];
    match store.end_migration(&targets, &outcomes) {
        Err(MigrateError::Image { kind, id }) => {
            assert_eq!(kind, "answer");
            assert_eq!(id, "5");
        }
        _ => panic!("expected the picture error of answer 5"),
    }
    assert_eq!(store.version(), Version { major: 1, minor: 0 });
    let all_done = vec![ObjectMigration::Done; 4];
    assert!(store.end_migration(&targets, &all_done).is_ok());
    assert_eq!(store.version(), Version { major: 1, minor: 1 });
}

fn take_objects(s: Store) -> ObjectInfo {
    let mut o = ObjectInfo::new();
    for (k, v) in s.objects().answer.entries() {
        o.answer.insert(*k, *v);
    }
    for (k, v) in s.objects().pin.entries() {
        o.pin.insert(*k, *v);
    }
    for (k, v) in s.objects().article.entries() {
        o.article.insert(*k, *v);
    }
    o
}
