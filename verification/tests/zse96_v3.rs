use zhihu_dl::request::zse96_v3::{encode_zse96, g, g_r, Zse96V3};

#[test]
fn encode() {
    let d: [u8; 16] = [
        0x20, 0x2c, 0xb9, 0x62, 0xac, 0x59, 0x07, 0x5b, 0x96, 0x4b, 0x07, 0x15, 0x2d, 0x23, 0x4b,
        0x70,
    ];
    assert_eq!(
        encode_zse96(&d),
        "2.0_Bj7+myTibavoPUJRzaV2S1uvi9kx+mqtQcQH9TxBRpiBkgNkW8z86R52P5jL3f=r"
    );
}

#[test]
fn round_function_values() {
    assert_eq!(g(0), 1347440720);
    assert_eq!(g(0x01234567), 2132629824);
}

#[test]
fn block_cipher_value() {
    let block: Vec<u8> = (0u8..16).collect();
    let out = g_r(&block);
    let hex: String = out.iter().map(|b| format!("{:02x}", b)).collect();
    assert_eq!(hex, "08935885f62527284eab45bac5309797");
}

#[test]
fn signature_of_request() {
    assert_eq!(Zse96V3::zse93(), "101_3_3.0");
    assert_eq!(
        Zse96V3::digest_input("/api/v4/x", Some("a=1"), "dc"),
        "101_3_3.0+/api/v4/x?a=1+dc"
    );
    assert_eq!(
        Zse96V3::signature_for("/api/v4/members/abc/answers", Some("limit=20&offset=0"), "AABBCC"),
        "2.0_pN01xCsJeMZKhN4JCh9juUY7jyvRAmwPUARrgYTsO/RRlC2KuV/oPqhK2+vF8HNW"
    );
}

#[test]
fn signature_of_url() {
    assert_eq!(
        Zse96V3::signature(
            "https://www.zhihu.com/api/v4/members/abc/answers?limit=20&offset=0",
            "AABBCC"
        ),
        Some("2.0_pN01xCsJeMZKhN4JCh9juUY7jyvRAmwPUARrgYTsO/RRlC2KuV/oPqhK2+vF8HNW".to_string())
    );
    assert_eq!(
        Zse96V3::signature("https://www.zhihu.com/api/v4/moments/xyz/activities", "d0"),
        Some("2.0_7ZKyqOC7wTWlOvGWyD=682VvnmJPIAJ3XAADfLztnr/PbbxWIgM0YFQ=KRMej0iC".to_string())
    );
    assert_eq!(Zse96V3::signature("not a url", "d0"), None);
}
