use zhihu_dl::util::relative_path::{
    link_to_dest, prepare_dest, relative_path_to, same_path, Component, DestPrepError, LinkAction,
    LinkError,
};

fn abs(names: &[&str]) -> Vec<Component> {
    let mut v = vec![Component::RootDir];
    for n in names {
        v.push(Component::Normal(n.to_string()));
    }
    v
}

#[test]
fn relative_path_goes_up_then_down() {
    let source = abs(&["s", "answer", "1"]);
    let link = abs(&["d", "x", "link"]);
    assert_eq!(
        relative_path_to(&source, &link),
        Some(vec!["..".to_string(), "..".to_string(), "s".into(), "answer".into(), "1".into()])
    );
    let link2 = abs(&["s", "answer", "2"]);
    assert_eq!(relative_path_to(&source, &link2), Some(vec!["1".to_string()]));
}

#[test]
fn prepare_dest_cases() {
    let p = prepare_dest(&vec![Component::Normal("a".into())]).unwrap();
    assert!(matches!(p.dir[..], [Component::CurDir]));
    assert_eq!(p.file_name, Some("a".to_string()));
    let p = prepare_dest(&abs(&["d", "f.md"])).unwrap();
    assert_eq!(p.dir.len(), 2);
    assert_eq!(p.file_name, Some("f.md".to_string()));
    let p = prepare_dest(&vec![Component::Normal("a".into()), Component::ParentDir]).unwrap();
    assert_eq!(p.file_name, None);
    assert!(matches!(prepare_dest(&vec![]), Err(DestPrepError::InvalidPath)));
    assert!(matches!(prepare_dest(&vec![Component::RootDir]), Err(DestPrepError::InvalidPath)));
}

#[test]
fn link_actions() {
    let store = abs(&["s", "answer", "1"]);
    assert!(matches!(link_to_dest(true, &store, &store), Ok(LinkAction::Nothing)));
    assert!(matches!(link_to_dest(false, &store, &abs(&["d", "l"])), Ok(LinkAction::Absolute)));
    match link_to_dest(true, &store, &abs(&["d", "l"])) {
        Ok(LinkAction::Relative(p)) => assert_eq!(p, vec!["..", "s", "answer", "1"]),
        other => panic!("unexpected {:?}", other.is_ok()),
    }
    let c = vec![Component::Prefix("C:".into()), Component::RootDir, Component::Normal("s".into())];
    let d = vec![Component::Prefix("D:".into()), Component::RootDir, Component::Normal("l".into())];
    assert!(matches!(link_to_dest(true, &c, &d), Err(LinkError::DifferentPrefix)));
    assert!(same_path(&c, &c));
    assert!(!same_path(&c, &d));
}
