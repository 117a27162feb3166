use zhihu_dl::element::content::html::{nodes_of, parse_html, HtmlAttr, HtmlEvent, HtmlKind};
use zhihu_dl::element::content::html_reader::{
    from_raw_html, from_raw_html_inline, image_inline, read_document, redirect_target,
};
use zhihu_dl::util::address::UrlFields;

fn url(domain: &str, path: &str, pairs: &[(&str, &str)]) -> Option<UrlFields> {
    Some(UrlFields {
        text: format!("https://{}{}", domain, path),
        path: path.to_string(),
        query: None,
        domain: Some(domain.to_string()),
        pairs: pairs.iter().map(|(k, v)| (k.to_string(), v.to_string())).collect(),
    })
}

fn blocks(html: &str) -> String {
    format!("{:?}", from_raw_html(html, &vec![]).data)
}

fn blocks_with(html: &str, images: &[(&str, &str)]) -> String {
    let images: Vec<(String, String)> =
        images.iter().map(|(u, p)| (u.to_string(), p.to_string())).collect();
    format!("{:?}", from_raw_html(html, &images).data)
}

#[test]
fn fragment_parses_to_one_root_element() {
    let nodes = parse_html("<p>a</p>text");
    assert_eq!(nodes.len(), 1);
    match &nodes[0].kind {
        HtmlKind::Element { name, .. } => assert_eq!(name, "html"),
        _ => panic!("root is no element"),
    }
    assert_eq!(nodes[0].children.len(), 2);
}

#[test]
fn headers_paragraphs_and_rules() {
    assert_eq!(
        blocks("<h2>Title</h2>\n<p>Hello <b>bold</b> and <em>em</em><br>next</p><hr>"),
        "[Header { level: 2, content: [Text(\"Title\")] }, Paragraph([Text(\"Hello \"), \
         Strong([Text(\"bold\")]), Text(\" and \"), Emphasis([Text(\"em\")]), Break, \
         Text(\"next\")]), HorizontalRule]"
    );
}

#[test]
fn links_through_zhihu_redirect_keep_their_target() {
    assert_eq!(
        blocks("<p><a href=\"https://link.zhihu.com/?target=https%3A//example.com/a%20b\">site</a></p>"),
        "[Paragraph([Link { description: Some([Text(\"site\")]), target: \"https://example.com/a b\" }])]"
    );
    assert_eq!(
        blocks("<p><a href=\"https://example.com/x\"></a></p>"),
        "[Paragraph([Link { description: None, target: \"https://example.com/x\" }])]"
    );
}

#[test]
fn link_card_reads_as_paragraph_and_link_without_href_is_left_out() {
    assert_eq!(
        blocks("<a href=\"https://example.com/\">card</a><p><a>x</a>y</p>"),
        "[Paragraph([Link { description: Some([Text(\"card\")]), target: \"https://example.com/\" }]), \
         Paragraph([Text(\"y\")])]"
    );
}

#[test]
fn equation_images_read_as_formulas() {
    assert_eq!(
        blocks("<p><img src=\"https://www.zhihu.com/equation?tex=x%5E2\" alt=\"x^2\"></p>"),
        "[Paragraph([Math { tex_code: \"x^2\" }])]"
    );
    assert_eq!(
        blocks("<p><img src=\"https://www.zhihu.com/equation?tex=y%2B1\"></p>"),
        "[Paragraph([Math { tex_code: \"y+1\" }])]"
    );
}

#[test]
fn images_use_stored_pictures_when_known() {
    assert_eq!(
        blocks_with(
            "<p><img data-original=\"https://pic.example/a.jpg\" src=\"https://pic.example/s.jpg\" alt=\"A\"></p>",
            &[("https://pic.example/a.jpg", "old"), ("https://pic.example/a.jpg", "images/a.jpg")],
        ),
        "[Paragraph([Image { alt_text: Some(\"A\"), description: None, src: Local(\"images/a.jpg\") }])]"
    );
    assert_eq!(
        blocks("<p><img src=\"not a url\"></p>"),
        "[Paragraph([Image { alt_text: None, description: None, src: Url(\"not a url\") }])]"
    );
}

#[test]
fn figures_have_picture_and_caption() {
    assert_eq!(
        blocks_with(
            "<figure><img data-actualsrc=\"https://pic.example/f.png\" alt=\"F\"><figcaption>cap <i>it</i></figcaption></figure>",
            &[("https://pic.example/f.png", "images/f.png")],
        ),
        "[Figure { alt_text: Some(\"F\"), description: Some([Text(\"cap \"), Emphasis([Text(\"it\")])]), \
         src: Local(\"images/f.png\") }]"
    );
    assert_eq!(blocks("<figure><figcaption>no picture</figcaption></figure>"), "[]");
}

#[test]
fn code_blocks_keep_their_language() {
    assert_eq!(
        blocks("<div class=\"highlight\"><pre><code class=\"language-rust\">fn <span>main</span>() {}</code></pre></div>"),
        "[CodeBlock { language: Some(\"rust\"), code: \"fn main() {}\" }]"
    );
    assert_eq!(
        blocks("<div class=\"highlight\"><pre><code>x</code></pre></div><div>other</div>"),
        "[CodeBlock { language: None, code: \"x\" }]"
    );
    assert_eq!(blocks("<p><code>a<b>b</b></code></p>"), "[Paragraph([Code { code: \"ab\" }])]");
}

#[test]
fn lists_nest() {
    assert_eq!(
        blocks("<ul><li>a</li><ol><li>b</li></ol></ul>"),
        "[UnorderedList { items: [[Paragraph([Text(\"a\")])], [OrderedList { items: [[Paragraph([Text(\"b\")])]] }]] }]"
    );
}

#[test]
fn tables_read_rows_of_cells() {
    assert_eq!(
        blocks("<table><tbody><tr><td>1</td><td>2</td></tr><tr><td>3</td></tr></tbody></table>"),
        "[SimpleTable { body: [[[Plain([Text(\"1\")])], [Plain([Text(\"2\")])]], [[Plain([Text(\"3\")])]]] }]"
    );
}

#[test]
fn quotes_and_notes() {
    assert_eq!(
        blocks("<blockquote>q</blockquote><p>t<sup data-draft-type=\"reference\" data-text=\"ref\"></sup></p>"),
        "[BlockQuote { content: [Paragraph([Text(\"q\")])] }, Paragraph([Text(\"t\"), \
         Note { content: [Paragraph([Text(\"ref\")])] }])]"
    );
    assert_eq!(
        blocks("<p><sup data-draft-type=\"reference\" data-url=\"https://example.com/r\"></sup><sup>x</sup></p>"),
        "[Paragraph([Note { content: [Plain([Link { description: None, target: \"https://example.com/r\" }])] }])]"
    );
}

#[test]
fn unknown_elements_are_left_out() {
    assert_eq!(blocks("<section><p>x</p></section><p><span>s</span>y</p>"), "[Paragraph([Text(\"y\")])]");
    assert_eq!(blocks(""), "[]");
}

#[test]
fn inline_text_reads_as_one_plain_block() {
    let d = from_raw_html_inline("a <b>b</b><p>c</p>", &vec![]);
    assert_eq!(format!("{:?}", d.data), "[Plain([Text(\"a \"), Strong([Text(\"b\")])])]");
    assert_eq!(format!("{:?}", from_raw_html_inline("", &vec![]).data), "[Plain([])]");
}

#[test]
fn document_of_no_nodes_is_empty() {
    let d = read_document(&vec![], &vec![]);
    assert!(d.data.is_empty());
}

#[test]
fn content_without_html_has_no_document() {
    assert!(zhihu_dl::element::content::html_reader::convert_html(&None, &vec![]).is_none());
    let d = zhihu_dl::element::content::html_reader::convert_html(&Some("<p>x</p>".to_string()), &vec![]);
    assert_eq!(format!("{:?}", d.unwrap().data), "[Paragraph([Text(\"x\")])]");
}

#[test]
fn nodes_are_rebuilt_from_their_walk() {
    let p = || HtmlKind::Element {
        name: "p".to_string(),
        attrs: vec![HtmlAttr { ns: String::new(), name: "class".to_string(), value: "x".to_string() }],
    };
    let events = vec![
        HtmlEvent::Open(p()),
        HtmlEvent::Open(HtmlKind::Text("a".to_string())),
        HtmlEvent::Close,
        HtmlEvent::Open(HtmlKind::Other),
        HtmlEvent::Close,
        HtmlEvent::Close,
        HtmlEvent::Open(HtmlKind::Text("b".to_string())),
        HtmlEvent::Close,
    ];
    let nodes = nodes_of(&events);
    assert_eq!(nodes.len(), 2);
    match &nodes[0].kind {
        HtmlKind::Element { name, attrs } => {
            assert_eq!(name, "p");
            assert_eq!(attrs[0].value, "x");
        }
        _ => panic!("first node is no element"),
    }
    assert_eq!(nodes[0].children.len(), 2);
    assert!(matches!(&nodes[0].children[0].kind, HtmlKind::Text(t) if t == "a"));
    assert!(matches!(&nodes[0].children[1].kind, HtmlKind::Other));
    assert!(matches!(&nodes[1].kind, HtmlKind::Text(t) if t == "b"));
    // An unclosed node holds what follows it.
    let open = vec![HtmlEvent::Open(p()), HtmlEvent::Open(HtmlKind::Text("c".to_string()))];
    let nodes = nodes_of(&open);
    assert_eq!(nodes.len(), 1);
    assert_eq!(nodes[0].children.len(), 1);
}

#[test]
fn redirect_target_reads_the_target_pair_of_zhihu_redirects_only() {
    let href = "https://link.zhihu.com/?target=x".to_string();
    let u = url("link.zhihu.com", "/", &[("a", "1"), ("target", "https://e.com/"), ("target", "second")]);
    assert_eq!(redirect_target(&href, &u), "https://e.com/");
    let u = url("link.zhihu.com", "/", &[("a", "1")]);
    assert_eq!(redirect_target(&href, &u), href);
    let u = url("example.com", "/", &[("target", "https://e.com/")]);
    assert_eq!(redirect_target(&href, &u), href);
    assert_eq!(redirect_target(&href, &None), href);
}

#[test]
fn image_inline_tells_formulas_from_pictures() {
    let src = "https://www.zhihu.com/equation?tex=a".to_string();
    let alt = "a+b".to_string();
    let eq = url("www.zhihu.com", "/equation", &[("tex", "t")]);
    assert_eq!(format!("{:?}", image_inline(Some(&alt), &src, &eq, &vec![])), "Math { tex_code: \"a+b\" }");
    assert_eq!(format!("{:?}", image_inline(None, &src, &eq, &vec![])), "Math { tex_code: \"t\" }");
    let bare = url("www.zhihu.com", "/equation", &[]);
    assert_eq!(
        format!("{:?}", image_inline(None, &src, &bare, &vec![])),
        "Image { alt_text: None, description: None, src: Url(\"https://www.zhihu.com/equation?tex=a\") }"
    );
    let pic = url("pic.example", "/p.png", &[("tex", "t")]);
    let images = vec![(src.clone(), "images/p.png".to_string())];
    assert_eq!(
        format!("{:?}", image_inline(Some(&alt), &src, &pic, &images)),
        "Image { alt_text: Some(\"a+b\"), description: None, src: Local(\"images/p.png\") }"
    );
    assert_eq!(
        format!("{:?}", image_inline(Some(&alt), &src, &None, &images)),
        "Image { alt_text: None, description: None, src: Url(\"https://www.zhihu.com/equation?tex=a\") }"
    );
}
