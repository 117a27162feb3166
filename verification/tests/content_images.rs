use zhihu_dl::element::content::images::{image_urls, unique_addresses, StartTag};
use zhihu_dl::util::address::UrlFields;

fn tag(name: &str, attrs: &[(&str, &str)]) -> StartTag {
    StartTag {
        name: name.to_string(),
        attrs: attrs.iter().map(|(a, b)| (a.to_string(), b.to_string())).collect(),
    }
}

#[test]
fn original_picture_wins_over_source() {
    let tags = vec![
        tag("img", &[("src", "https://pic1.zhimg.com/a_b.jpg"), ("data-original", "https://pic1.zhimg.com/a_r.jpg")]),
        tag("img", &[("data-original", "https://pic2.zhimg.com/x.png"), ("src", "https://pic2.zhimg.com/y.png")]),
        tag("img", &[("src", "https://pic3.zhimg.com/1.png"), ("src", "https://pic3.zhimg.com/2.png")]),
        tag("a", &[("src", "https://other/z.png")]),
        tag("img", &[("alt", "none")]),
        tag("img", &[("src", "not a url")]),
        tag("img", &[("src", "https://pic1.zhimg.com/a_r.jpg")]),
    ];
    let urls = image_urls(&tags);
    assert_eq!(
        urls,
        vec![
            "https://pic1.zhimg.com/a_r.jpg".to_string(),
            "https://pic2.zhimg.com/x.png".to_string(),
            "https://pic3.zhimg.com/2.png".to_string(),
        ]
    );
}

#[test]
fn urls_are_normalized() {
    let urls = image_urls(&vec![tag("img", &[("src", "HTTPS://Pic.Zhimg.com/a b.jpg")])]);
    assert_eq!(urls, vec!["https://pic.zhimg.com/a%20b.jpg".to_string()]);
    assert!(image_urls(&vec![]).is_empty());
}

fn parsed(text: &str) -> Option<UrlFields> {
    Some(UrlFields {
        text: text.to_string(),
        path: "/".to_string(),
        query: None,
        domain: None,
        pairs: vec![],
    })
}

#[test]
fn unique_addresses_keep_first_occurrences() {
    let v = vec![parsed("https://a/"), None, parsed("https://b/"), parsed("https://a/"), None];
    assert_eq!(unique_addresses(&v), vec!["https://a/".to_string(), "https://b/".to_string()]);
    assert!(unique_addresses(&vec![None, None]).is_empty());
}
