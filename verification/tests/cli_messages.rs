use zhihu_dl::cli::container::{
    CollectionEntry, ColumnEntry, ContainerCmd, ContainerOper, UserCollection, UserEntry,
};
use zhihu_dl::cli::item::ItemOper;
use zhihu_dl::cli::{ConvertOper, GetOpt, LinkOpt, NumId, StrId, UserSpec};
use zhihu_dl::element::author::UserId;

const WITH: GetOpt = GetOpt {
    no_convert: false,
    comments: true,
};
const WITHOUT: GetOpt = GetOpt {
    no_convert: true,
    comments: false,
};

#[test]
fn get_opt_text_and_config() {
    assert_eq!(WITH.describe(), "with comments");
    assert_eq!(WITHOUT.describe(), "no comments");
    let c = WITHOUT.to_config();
    assert!(!c.get_comments);
    assert!(!c.convert_html);
    let c = WITH.to_config();
    assert!(c.get_comments);
    assert!(c.convert_html);
}

#[test]
fn link_opt_text() {
    let l = LinkOpt {
        link_absolute: true,
        dest: "out".to_string(),
    };
    assert_eq!(l.describe(&WITH), "(with comments) to out[link absolute]");
    let l = LinkOpt {
        link_absolute: false,
        dest: "x/y".to_string(),
    };
    assert_eq!(l.describe(&WITHOUT), "(no comments) to x/y[link relative]");
}

#[test]
fn id_texts() {
    assert_eq!(NumId { id: 42 }.text(), "42");
    assert_eq!(StrId { id: "c1".to_string() }.text(), "c1");
    let u = UserSpec {
        id: UserId([0x0f; 16]),
        url_token: "tok".to_string(),
    };
    assert_eq!(u.text(), "0f".repeat(16));
    let sid = u.to_id();
    assert_eq!(sid.1, "tok");
    assert_eq!(NumId { id: 5 }.answer_id().0, 5);
}

#[test]
fn get_labels_and_messages() {
    let op: ItemOper<NumId> = ItemOper::Get {
        id: NumId { id: 7 },
        get_opt: WITH,
    };
    let l = op.labels("7");
    assert_eq!(l.start_tag, "Getting");
    assert_eq!(l.ok_tag, "Got");
    assert!(l.needs_client);
    assert_eq!(l.start_message("answer"), "answer 7 (with comments)");
    assert_eq!(l.ok_message("answer", "7"), "answer 7 (with comments)");
    assert_eq!(l.failure_message("answer"), "failed to get answer 7 (with comments)");
}

#[test]
fn download_labels() {
    let op: ItemOper<NumId> = ItemOper::Download {
        id: NumId { id: 7 },
        get_opt: WITHOUT,
        link_opt: LinkOpt {
            link_absolute: false,
            dest: "d".to_string(),
        },
    };
    let l = op.labels("7");
    assert_eq!(l.start_tag, "Downloading");
    assert_eq!(l.start_id, " 7");
    assert_eq!(l.opt, "(no comments) to d[link relative]");
    assert_eq!(
        l.start_message("article"),
        "article  7 (no comments) to d[link relative]"
    );
}

#[test]
fn add_raw_and_convert_labels() {
    let op: ItemOper<NumId> = ItemOper::AddRaw {
        get_opt: WITH,
        path: "r.json".to_string(),
    };
    let l = op.labels("ignored");
    assert_eq!(l.pre, "raw data of ");
    assert_eq!(l.start_id, "<raw data>");
    assert_eq!(l.opt, "(with comments) from r.json");
    assert_eq!(
        l.start_message("pin"),
        "raw data of pin <raw data> (with comments) from r.json"
    );
    assert_eq!(l.verb, "add raw data of");
    let op: ItemOper<NumId> = ItemOper::ConvertHtml { id: NumId { id: 1 } };
    let l = op.labels("1");
    assert!(!l.needs_client);
    assert_eq!(l.opt, "");
    assert_eq!(l.failure_message("answer"), "failed to convert raw html of answer  1 ");
    let op: ItemOper<StrId> = ItemOper::Convert {
        id: StrId { id: "c".to_string() },
        dest: "o.pdf".to_string(),
        operation: ConvertOper::Pandoc {
            format: "pdf".to_string(),
        },
    };
    let l = op.labels("c");
    assert!(!l.needs_client);
    assert_eq!(l.opt, "using pandoc to pdf o.pdf");
    assert_eq!(l.ok_message("column", "c"), "document of column c using pandoc to pdf o.pdf");
    let op: ItemOper<NumId> = ItemOper::Update {
        id: NumId { id: 3 },
        get_opt: WITHOUT,
    };
    let l = op.labels("3");
    assert_eq!(l.start_tag, "Updating");
    assert_eq!(l.verb, "update");
    assert!(l.needs_client);
}

#[test]
fn container_messages() {
    let cmd = ContainerCmd::User {
        operation: UserEntry::Collection {
            operation: UserCollection::Liked {
                operation: ContainerOper::Get {
                    id: UserSpec {
                        id: UserId([1; 16]),
                        url_token: "t".to_string(),
                    },
                    get_opt: WITH,
                },
            },
        },
    };
    let t = cmd.target();
    assert_eq!((t.container, t.item, t.option), ("user", "collection", "liked"));
    let op: ContainerOper<NumId> = ContainerOper::Update {
        id: NumId { id: 9 },
        get_opt: WITHOUT,
    };
    let l = op.labels("9");
    let t = ContainerCmd::Column {
        operation: ColumnEntry::PinnedItem {
            operation: ContainerOper::Get {
                id: StrId { id: "c".to_string() },
                get_opt: WITH,
            },
        },
    }
    .target();
    assert_eq!((t.container, t.item, t.option), ("column", "any", "pinned"));
    assert_eq!(
        l.start_message(&t),
        "any (pinned) in column 9 (no comments)"
    );
    assert_eq!(
        l.failure_message(&t),
        "failed to update any (pinned) in column 9 (no comments)"
    );
    assert_eq!(
        l.ok_message(&t, Some(12)),
        "12 any (pinned) in column 9 (no comments)"
    );
    assert_eq!(l.ok_message(&t, None), "any (pinned) in column 9 (no comments)");
    let t = ContainerCmd::Collection {
        operation: CollectionEntry::Item {
            operation: ContainerOper::Get {
                id: NumId { id: 1 },
                get_opt: WITH,
            },
        },
    }
    .target();
    assert_eq!((t.container, t.item, t.option), ("collection", "any", "item"));
    let op: ContainerOper<NumId> = ContainerOper::Download {
        id: NumId { id: 9 },
        get_opt: WITH,
        link_opt: LinkOpt {
            link_absolute: true,
            dest: "o".to_string(),
        },
    };
    let l = op.labels("9");
    assert_eq!(l.start_tag, "Downloading");
    assert_eq!(l.opt, "(with comments) to o[link absolute]");
}
