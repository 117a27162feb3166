use zhihu_dl::element::content::convertor::pandoc::{
    is_whitespace, text, to_pandoc_ast, Pandoc, PandocBlock, PandocConfig, PandocInline,
};
use zhihu_dl::element::content::document::{document_version, Block, Document, Image, Inline};

fn words(inlines: &[PandocInline]) -> Vec<String> {
    inlines
        .iter()
        .map(|i| match i {
            PandocInline::Str(s) => s.clone(),
            PandocInline::Space => " ".to_string(),
            PandocInline::SoftBreak => "\\n".to_string(),
            PandocInline::LineBreak => "<br>".to_string(),
            other => format!("{:?}", other),
        })
        .collect()
}

#[test]
fn text_splits_words_spaces_and_breaks() {
    let mut out = Vec::new();
    text("hello  world\nagain", &mut out);
    assert_eq!(words(&out), vec!["hello", " ", "world", "\\n", "again"]);
}

#[test]
fn text_run_with_tab_is_soft_break() {
    let mut out = vec![PandocInline::LineBreak];
    text(" a \t b", &mut out);
    assert_eq!(words(&out), vec!["<br>", " ", "a", "\\n", "b"]);
}

#[test]
fn text_of_empty_string_adds_nothing() {
    let mut out = Vec::new();
    text("", &mut out);
    assert!(out.is_empty());
}

#[test]
fn unicode_whitespace() {
    assert!(is_whitespace(' '));
    assert!(is_whitespace('\u{3000}'));
    assert!(is_whitespace('\u{a0}'));
    assert!(is_whitespace('\u{2028}'));
    assert!(!is_whitespace('x'));
    assert!(!is_whitespace('\u{200b}'));
    for c in ['\t', '\n', '\r', ' ', '\u{85}', '\u{1680}', '\u{2005}', '\u{202f}', '\u{205f}', '中'] {
        assert_eq!(is_whitespace(c), c.is_whitespace());
    }
    let mut out = Vec::new();
    text("中文\u{3000}字", &mut out);
    assert_eq!(words(&out), vec!["中文", " ", "字"]);
}

fn doc(data: Vec<Block>) -> Document {
    Document {
        version: document_version(),
        data,
    }
}

#[test]
fn header_and_paragraph() {
    let d = doc(vec![
        Block::Header {
            level: 2,
            content: vec![Inline::Text("Title here".to_string())],
        },
        Block::Paragraph(vec![
            Inline::Strong(vec![Inline::Text("bold".to_string())]),
            Inline::Break,
            Inline::Code {
                code: "x+1".to_string(),
            },
        ]),
        Block::HorizontalRule,
    ]);
    let p = to_pandoc_ast(&d);
    assert_eq!(p.blocks.len(), 3);
    match &p.blocks[0] {
        PandocBlock::Header { level, content } => {
            assert_eq!(*level, 2);
            assert_eq!(words(content), vec!["Title", " ", "here"]);
        }
        b => panic!("unexpected {:?}", b),
    }
    match &p.blocks[1] {
        PandocBlock::Para(v) => {
            assert_eq!(v.len(), 3);
            assert!(matches!(&v[0], PandocInline::Strong(s) if words(s) == vec!["bold"]));
            assert!(matches!(v[1], PandocInline::LineBreak));
            assert!(matches!(&v[2], PandocInline::Code(c) if c == "x+1"));
        }
        b => panic!("unexpected {:?}", b),
    }
    assert!(matches!(p.blocks[2], PandocBlock::HorizontalRule));
}

#[test]
fn code_block_language_is_its_class() {
    let d = doc(vec![
        Block::CodeBlock {
            language: Some("rust".to_string()),
            code: "fn f() {}".to_string(),
        },
        Block::CodeBlock {
            language: None,
            code: "plain".to_string(),
        },
    ]);
    let p = to_pandoc_ast(&d);
    match &p.blocks[0] {
        PandocBlock::CodeBlock { classes, code } => {
            assert_eq!(classes, &vec!["rust".to_string()]);
            assert_eq!(code, "fn f() {}");
        }
        b => panic!("unexpected {:?}", b),
    }
    match &p.blocks[1] {
        PandocBlock::CodeBlock { classes, code } => {
            assert!(classes.is_empty());
            assert_eq!(code, "plain");
        }
        b => panic!("unexpected {:?}", b),
    }
}

#[test]
fn figure_becomes_paragraph_with_image() {
    let d = doc(vec![Block::Figure {
        alt_text: Some("a cat".to_string()),
        description: Some(vec![
            Inline::Emphasis(vec![Inline::Text("my".to_string())]),
            Inline::Text(" cat".to_string()),
            Inline::Note { content: vec![] },
            Inline::Math {
                tex_code: "x^2".to_string(),
            },
        ]),
        src: Image::Local("images/ab.jpg".to_string()),
    }]);
    let p = to_pandoc_ast(&d);
    match &p.blocks[0] {
        PandocBlock::Para(v) => match &v[..] {
            [PandocInline::Image { alt, src, title }] => {
                assert_eq!(words(alt), vec!["a", " ", "cat"]);
                assert_eq!(src, "images/ab.jpg");
                assert_eq!(title, "my catx^2");
            }
            other => panic!("unexpected {:?}", other),
        },
        b => panic!("unexpected {:?}", b),
    }
}

#[test]
fn links_notes_and_lists() {
    let d = doc(vec![
        Block::Plain(vec![
            Inline::Link {
                description: None,
                target: "https://example.com".to_string(),
            },
            Inline::Note {
                content: vec![Block::Paragraph(vec![Inline::Text("n".to_string())])],
            },
            Inline::Image {
                alt_text: None,
                description: None,
                src: Image::Url("https://pic/x.png".to_string()),
            },
        ]),
        Block::OrderedList {
            items: vec![vec![Block::Plain(vec![Inline::Text("one".to_string())])], vec![]],
        },
        Block::UnorderedList { items: vec![] },
        Block::BlockQuote {
            content: vec![Block::HorizontalRule],
        },
    ]);
    let p = to_pandoc_ast(&d);
    match &p.blocks[0] {
        PandocBlock::Plain(v) => {
            assert!(matches!(&v[0], PandocInline::Link { content, target }
                if content.is_empty() && target == "https://example.com"));
            assert!(matches!(&v[1], PandocInline::Note(b) if b.len() == 1));
            assert!(matches!(&v[2], PandocInline::Image { alt, src, title }
                if alt.is_empty() && src == "https://pic/x.png" && title.is_empty()));
        }
        b => panic!("unexpected {:?}", b),
    }
    assert!(matches!(&p.blocks[1], PandocBlock::OrderedList(items) if items.len() == 2 && items[1].is_empty()));
    assert!(matches!(&p.blocks[2], PandocBlock::BulletList(items) if items.is_empty()));
    assert!(matches!(&p.blocks[3], PandocBlock::BlockQuote(b) if b.len() == 1));
}

#[test]
fn table_has_as_many_columns_as_its_longest_row() {
    let cell = |s: &str| vec![Block::Plain(vec![Inline::Text(s.to_string())])];
    let d = doc(vec![Block::SimpleTable {
        body: vec![vec![cell("a")], vec![cell("b"), cell("c"), cell("d")], vec![]],
    }]);
    let p = to_pandoc_ast(&d);
    match &p.blocks[0] {
        PandocBlock::Table { columns, rows } => {
            assert_eq!(*columns, 3);
            assert_eq!(rows.len(), 3);
            assert_eq!(rows[1].len(), 3);
            assert!(rows[2].is_empty());
        }
        b => panic!("unexpected {:?}", b),
    }
    let empty = to_pandoc_ast(&doc(vec![Block::SimpleTable { body: vec![] }]));
    assert!(matches!(&empty.blocks[0], PandocBlock::Table { columns: 0, rows } if rows.is_empty()));
}

#[test]
fn pandoc_arguments() {
    let c = PandocConfig {
        format: "docx".to_string(),
    };
    assert_eq!(
        Pandoc::arguments(&c, "out/a.docx"),
        vec!["-f", "json", "-t", "docx", "-o", "out/a.docx"]
    );
}
