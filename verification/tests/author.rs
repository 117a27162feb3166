use zhihu_dl::element::author::{Author, DecodeError, UserId, UserType};

#[test]
fn hex_round_trip() {
    let id = UserId([0x01, 0x23, 0x45, 0x67, 0x89, 0xab, 0xcd, 0xef, 0, 1, 2, 3, 4, 5, 6, 0xff]);
    let h = id.to_hex();
    assert_eq!(h, "0123456789abcdef000102030405 06ff".replace(' ', ""));
    let back = UserId::from_hex(&h).unwrap();
    assert!(back.same(&id));
    let upper = UserId::from_hex(&h.to_uppercase()).unwrap();
    assert!(upper.same(&id));
}

#[test]
fn hex_errors() {
    assert_eq!(UserId::from_hex("abc").unwrap_err(), DecodeError::Length);
    let mut s = "0".repeat(32);
    s.replace_range(0..1, "z");
    assert_eq!(UserId::from_hex(&s).unwrap_err(), DecodeError::Digit(0));
    let mut s = "0".repeat(32);
    s.replace_range(7..8, "g");
    assert_eq!(UserId::from_hex(&s).unwrap_err(), DecodeError::Digit(7));
}

#[test]
fn raw_ids_and_types() {
    assert!(UserId::from_raw("0").unwrap().is_none());
    let id = UserId::from_raw(&"a".repeat(32)).unwrap().unwrap();
    assert_eq!(id.0, [0xaa; 16]);
    assert_eq!(UserId::from_raw("12").unwrap_err(), DecodeError::Length);
    assert_eq!(UserType::from_raw("people"), Some(UserType::People));
    assert_eq!(UserType::from_raw("organization"), Some(UserType::Organization));
    assert_eq!(UserType::from_raw("bot"), None);
    assert!(UserId::zero().is_zero());
    assert!(!id.is_zero());
}

#[test]
fn anonymous_author_is_none() {
    assert!(Author::from_raw(None, "x".into(), UserType::People, None, "".into()).is_none());
    let a = Author::from_raw(
        Some(UserId([2; 16])),
        "name".into(),
        UserType::Organization,
        Some("tok".into()),
        "head".into(),
    )
    .unwrap();
    assert_eq!(a.name, "name");
    assert_eq!(a.url_token.as_deref(), Some("tok"));
    assert_eq!((a.version.major, a.version.minor), (1, 1));
}
