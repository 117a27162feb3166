use zhihu_dl::cli::container::{ContainerAction, ContainerOper};
use zhihu_dl::cli::item::{ItemAction, ItemOper, OperStart};
use zhihu_dl::cli::{exit_outcome, exit_saves, ExitOutcome, GetOpt};
use zhihu_dl::driver::container::container_run;
use zhihu_dl::driver::manifest::leaf::{
    applies_comments, has_item, item_plan, leaf_run, reply_roots, ItemPlan, ItemSource, LeafJob, SubContainer,
};
use zhihu_dl::element::comment::tree::CommentInfo;
use zhihu_dl::element::comment::CommentId;
use zhihu_dl::element::content::images::content_image_urls;
use zhihu_dl::item::answer::AnswerId;
use zhihu_dl::item::column::ColumnId;
use zhihu_dl::store::info::ItemInfo;
use zhihu_dl::store::container::Container;
use zhihu_dl::store::{ObjectRef, Store};
use zhihu_dl::util::key_map::{KeyMap, KeySet};

const OPT: GetOpt = GetOpt { no_convert: false, comments: false };

#[test]
fn item_operations_needing_the_client_are_refused_without_it() {
    let get: ItemOper<u64> = ItemOper::Get { id: 1, get_opt: OPT };
    match get.start(false) {
        OperStart::Refused(m) => assert_eq!(m, "client is not initialized"),
        _ => panic!("not refused"),
    }
    assert!(matches!(get.start(true), OperStart::Run(ItemAction::Get)));
    let conv: ItemOper<u64> = ItemOper::ConvertHtml { id: 1 };
    assert!(matches!(conv.start(false), OperStart::Run(ItemAction::ConvertHtml)));
}

#[test]
fn container_operations_always_need_the_client() {
    let op: ContainerOper<u64> = ContainerOper::Update { id: 3, get_opt: OPT };
    assert!(matches!(op.start(false), OperStart::Refused(_)));
    assert!(matches!(op.start(true), OperStart::Run(ContainerAction::Update)));
}

#[test]
fn container_run_processes_new_items_once_and_stops_at_first_failure() {
    let mut store = Store::create("/s".to_string());
    store.add_object(true, &ObjectRef::Answer(AnswerId(2)));
    let items = vec![
        ObjectRef::Answer(AnswerId(1)),
        ObjectRef::Answer(AnswerId(2)),
        ObjectRef::Answer(AnswerId(1)),
        ObjectRef::Answer(AnswerId(3)),
    ];
    assert_eq!(container_run(&store, &items, &vec![true, false, false, true]), Ok(vec![true, false, false, true]));
    assert_eq!(container_run(&store, &items, &vec![true, true, true, false]), Err(3));
}

fn job(id: u64, wanted: bool) -> LeafJob {
    LeafJob { object: ObjectRef::Answer(AnswerId(id)), url_token: None, wanted, steps: vec![] }
}

#[test]
fn item_plan_follows_the_store_record() {
    let mut store = Store::create("/s".to_string());
    store.add_object(true, &ObjectRef::Answer(AnswerId(1)));
    store.add_info(&ObjectRef::Answer(AnswerId(2)), ItemInfo { in_store: true, on_server: false });
    assert_eq!(item_plan(&store, &job(1, true)), ItemPlan { fetch: false, result: ItemSource::Stored });
    assert_eq!(item_plan(&store, &job(1, false)), ItemPlan { fetch: false, result: ItemSource::Nothing });
    assert_eq!(item_plan(&store, &job(2, true)), ItemPlan { fetch: false, result: ItemSource::Nothing });
    assert_eq!(item_plan(&store, &job(3, true)), ItemPlan { fetch: true, result: ItemSource::Fetched });
    let jobs = vec![job(2, true), job(1, true), job(3, true)];
    assert_eq!(leaf_run(&store, &jobs, &vec![false, true, false]), Err(2));
    assert_eq!(leaf_run(&store, &jobs, &vec![false, true, true]), Ok(()));
}

#[test]
fn comments_and_replies_are_applied_only_where_there_are_some() {
    let step = SubContainer::Comments { children: true };
    assert!(applies_comments(&step, true));
    assert!(!applies_comments(&step, false));
    let roots = vec![(CommentId(1), false), (CommentId(2), true), (CommentId(3), true)];
    assert_eq!(reply_roots(&step, &roots), vec![CommentId(2), CommentId(3)]);
    assert!(reply_roots(&SubContainer::Comments { children: false }, &roots).is_empty());
}

#[test]
fn maps_keep_their_keys_ascending() {
    let mut m: KeyMap<AnswerId, u8> = KeyMap::new();
    for k in [5u64, 1, 9, 3, 1] {
        m.insert(AnswerId(k), k as u8);
    }
    let keys: Vec<u64> = m.entries().iter().map(|e| e.0 .0).collect();
    assert_eq!(keys, vec![1, 3, 5, 9]);
    let mut s: KeySet<ColumnId> = KeySet::new();
    for k in ["b", "ab", "a", "é", "Z"] {
        s.insert(ColumnId(k.to_string()));
    }
    let names: Vec<String> = s.keys().into_iter().map(|c| c.0).collect();
    assert_eq!(names, vec!["Z", "a", "ab", "b", "é"]);
}

#[test]
fn content_pictures_come_from_the_html() {
    assert!(content_image_urls(None).is_empty());
    let html = "<p><img src=\"https://pic.example/s.jpg\" data-original=\"https://pic.example/a.jpg\"></p>\
                <figure><img src=\"https://pic.example/b.jpg\"></figure><img src=\"https://pic.example/a.jpg\">";
    assert_eq!(
        content_image_urls(Some(html)),
        vec!["https://pic.example/a.jpg".to_string(), "https://pic.example/b.jpg".to_string()]
    );
}

#[test]
fn comment_reply_zero_means_thread_start() {
    let top = CommentInfo::from_raw(11, 0);
    assert_eq!(top.id, CommentId(11));
    assert!(top.parent_id.is_none());
    let reply = CommentInfo::from_raw(12, 11);
    assert_eq!(reply.parent_id, Some(CommentId(11)));
}

#[test]
fn store_dirty_save_cycle_keeps_root() {
    let mut s = Store::create("/data/zhihu".to_string());
    assert!(!s.is_dirty());
    let a = ObjectRef::Answer(AnswerId(4));
    let p = s.add_object(true, &a);
    assert_eq!(p, "/data/zhihu/answer/4/info");
    assert!(s.is_dirty());
    s.save();
    assert!(!s.is_dirty());
    assert_eq!(s.root(), "/data/zhihu");
    assert_eq!(s.in_store(&a), ItemInfo { in_store: true, on_server: true });
    s.add_info(&a, ItemInfo { in_store: true, on_server: false });
    assert!(s.is_dirty());
    assert_eq!(s.root(), "/data/zhihu");
    let v = s.version();
    assert_eq!((v.major, v.minor), (1, 1));
}

#[test]
fn marking_nothing_leaves_store_saved() {
    let mut s = Store::create("/s".to_string());
    let mut former: KeySet<AnswerId> = KeySet::new();
    former.insert(AnswerId(1));
    let mut c = Container::open(vec!["question".to_string(), "2".to_string(), "answer".to_string()], former);
    let _ = c.link_item(&ObjectRef::Answer(AnswerId(1)), false);
    c.mark_missing(&mut s);
    assert!(!s.is_dirty());
    let mut former: KeySet<AnswerId> = KeySet::new();
    former.insert(AnswerId(3));
    let c = Container::open(vec!["question".to_string(), "2".to_string(), "answer".to_string()], former);
    c.mark_missing(&mut s);
    assert!(s.is_dirty());
    assert_eq!(s.in_store(&ObjectRef::Answer(AnswerId(3))), ItemInfo { in_store: true, on_server: false });
    assert_eq!(s.root(), "/s");
}

#[test]
fn exit_saves_only_unsaved_store_and_stays_on_failure() {
    let mut s = Store::create("/s".to_string());
    assert!(!exit_saves(&s));
    s.add_info(&ObjectRef::Answer(AnswerId(1)), ItemInfo { in_store: false, on_server: false });
    assert!(exit_saves(&s));
    assert_eq!(exit_outcome(None, false), ExitOutcome::Exit);
    assert_eq!(exit_outcome(Some(true), false), ExitOutcome::Exit);
    assert_eq!(exit_outcome(Some(false), true), ExitOutcome::ExitWarned);
    assert_eq!(exit_outcome(Some(false), false), ExitOutcome::Stay);
}

#[test]
fn migration_images_go_beside_the_store() {
    assert_eq!(Store::create("/data/zhihu.com".to_string()).image_store(), "/data/images");
    assert_eq!(Store::create("zhihu.com".to_string()).image_store(), "images");
    assert_eq!(Store::create("/zhihu.com".to_string()).image_store(), "/images");
}

#[test]
fn comment_sections_known_empty_only_by_their_flag() {
    let a = ObjectRef::Answer(AnswerId(1));
    assert!(has_item(Some(&a), true));
    assert!(!has_item(Some(&a), false));
    assert!(!has_item(Some(&ObjectRef::Comment(CommentId(2))), false));
    assert!(has_item(Some(&ObjectRef::Pin(zhihu_dl::item::pin::PinId(3))), false));
    assert!(!has_item(Some(&ObjectRef::Column(ColumnId("c".to_string()))), true));
    assert!(!has_item(None, true));
}

#[test]
fn ids_are_written_in_decimal() {
    let s = Store::create("/r".to_string());
    assert_eq!(s.item_path(&ObjectRef::Answer(AnswerId(0))), "/r/answer/0");
    assert_eq!(s.item_path(&ObjectRef::Answer(AnswerId(1234567890))), "/r/answer/1234567890");
    assert_eq!(
        s.item_path(&ObjectRef::Answer(AnswerId(u64::MAX))),
        format!("/r/answer/{}", u64::MAX)
    );
}
