//! Reading the HTML of a content into a document: headers, paragraphs,
//! lists, tables, code blocks, figures and quotes; within them text, links,
//! emphasis, code, formulas, notes and images. Elements that are not
//! understood are left out.
//!
//! Pictures that are stored are given by `images`: pairs of an address and
//! the stored picture that stands for it (the last pair with an address
//! counts).
use crate::element::content::document::{
    doc_block,
    doc_blocks,
    doc_block_lists,
    doc_image,
    doc_inline,
    doc_inlines,
    doc_rows,
    doc_text,
    document_version,
    lemma_doc_block_lists_push,
    lemma_doc_blocks_push,
    lemma_doc_inlines_push,
    lemma_doc_rows_append,
    lemma_doc_rows_push,
    spec_document_version,
    Block,
    DocBlock,
    DocImage,
    DocInline,
    Document,
    Image,
    Inline,
};
use crate::element::content::html::{
    attrs_view,
    builds,
    fragment_events,
    kind_view,
    parse_html,
    HtmlAttr,
    HtmlKind,
    HtmlNode,
    KindModel,
};
use crate::util::address::{pairs_view, parse_url, url_parts, url_view, UrlFields, UrlModel};
use crate::util::text::str_eq;
use vstd::prelude::*;

verus! {

// ----------------------------------------------------------------------------
// What is read
// ----------------------------------------------------------------------------

/// The value of the first attribute without namespace named `name`.
pub open spec fn attr_of(attrs: Seq<(Seq<char>, Seq<char>, Seq<char>)>, name: Seq<char>) -> Option<
    Seq<char>,
>
    decreases attrs.len(),
{
    if attrs.len() == 0 {
        None
    } else if attrs[0].0.len() == 0 && attrs[0].1 == name {
        Some(attrs[0].2)
    } else {
        attr_of(attrs.drop_first(), name)
    }
}

/// The name of an element node.
pub open spec fn elem_name(n: HtmlNode) -> Option<Seq<char>> {
    match kind_view(n.kind) {
        KindModel::Element { name, .. } => Some(name),
        _ => None,
    }
}

/// The value of an attribute of an element node.
pub open spec fn elem_attr(n: HtmlNode, name: Seq<char>) -> Option<Seq<char>> {
    match kind_view(n.kind) {
        KindModel::Element { attrs, .. } => attr_of(attrs, name),
        _ => None,
    }
}

/// The text of a node and the nodes below it, in document order.
pub open spec fn node_text(n: HtmlNode) -> Seq<char>
    decreases n,
{
    (match n.kind {
        HtmlKind::Text(t) => t@,
        _ => seq![],
    }) + nodes_text(n.children@)
}

/// The text of nodes and the nodes below them, in document order.
pub open spec fn nodes_text(s: Seq<HtmlNode>) -> Seq<char>
    decreases s,
{
    if s.len() == 0 {
        seq![]
    } else {
        nodes_text(s.drop_last()) + node_text(s.last())
    }
}

/// The value of the first query pair named `name`.
pub open spec fn pair_value(pairs: Seq<(Seq<char>, Seq<char>)>, name: Seq<char>) -> Option<
    Seq<char>,
>
    decreases pairs.len(),
{
    if pairs.len() == 0 {
        None
    } else if pairs[0].0 == name {
        Some(pairs[0].1)
    } else {
        pair_value(pairs.drop_first(), name)
    }
}

/// The target of a link whose address parses to `url`: for a redirection
/// through `link.zhihu.com`, the address in its `target` query pair;
/// otherwise the address itself.
pub open spec fn target_for(href: Seq<char>, url: Option<UrlModel>) -> Seq<char> {
    match url {
        Some(u) => if u.domain == Some("link.zhihu.com"@) {
            match pair_value(u.pairs, "target"@) {
                Some(v) => v,
                None => href,
            }
        } else {
            href
        },
        None => href,
    }
}

/// The target of a link (see `target_for`).
pub open spec fn link_target(href: Seq<char>) -> Seq<char> {
    target_for(href, url_parts(href))
}

/// The picture at an address: the stored one of the last pair with that
/// address, or else the address.
pub open spec fn image_for(images: Seq<(String, String)>, src: Seq<char>) -> DocImage
    decreases images.len(),
{
    if images.len() == 0 {
        DocImage::Url(src)
    } else if images.last().0@ == src {
        DocImage::Local(images.last().1@)
    } else {
        image_for(images.drop_last(), src)
    }
}

/// An inline image whose address parses to `url`: a formula where the
/// address is Zhihu's equation service (its alternative text, or else its
/// `tex` query pair), otherwise the picture. Where the address is no valid
/// URL, or a formula has no text, the bare address.
pub open spec fn image_inline_for(
    alt: Option<Seq<char>>,
    src: Seq<char>,
    url: Option<UrlModel>,
    images: Seq<(String, String)>,
) -> DocInline {
    let bare = DocInline::Image { alt_text: None, description: None, src: DocImage::Url(src) };
    match url {
        Some(u) => if u.domain == Some("www.zhihu.com"@) && u.path == "/equation"@ {
            match alt {
                Some(t) => DocInline::Math(t),
                None => match pair_value(u.pairs, "tex"@) {
                    Some(v) => DocInline::Math(v),
                    None => bare,
                },
            }
        } else {
            DocInline::Image { alt_text: alt, description: None, src: image_for(images, src) }
        },
        None => bare,
    }
}

/// An inline image (see `image_inline_for`).
pub open spec fn inline_image(alt: Option<Seq<char>>, src: Seq<char>, images: Seq<(String, String)>) -> DocInline {
    image_inline_for(alt, src, url_parts(src), images)
}

/// The model of an optional parsed URL.
pub open spec fn opt_url(u: Option<UrlFields>) -> Option<UrlModel> {
    match u {
        Some(v) => Some(url_view(v)),
        None => None,
    }
}

/// A reference note (`sup` element): a link to its `data-url`, or else its
/// `data-text`; none where it is no reference or both are empty.
pub open spec fn note_of(n: HtmlNode) -> Option<DocInline> {
    if elem_attr(n, "data-draft-type"@) != Some("reference"@) {
        None
    } else {
        match elem_attr(n, "data-url"@) {
            Some(v) if v.len() > 0 => Some(
                DocInline::Note(
                    seq![DocBlock::Plain(seq![DocInline::Link { description: None, target: link_target(v) }])],
                ),
            ),
            _ => match elem_attr(n, "data-text"@) {
                Some(v) if v.len() > 0 => Some(
                    DocInline::Note(seq![DocBlock::Paragraph(seq![DocInline::Text(v)])]),
                ),
                _ => None,
            },
        }
    }
}

/// A link (`a` element): the text below it as description, if any, and its
/// target; none without `href`.
pub open spec fn link_of(n: HtmlNode) -> Option<DocInline> {
    match elem_attr(n, "href"@) {
        Some(h) => Some(
            DocInline::Link {
                description: if nodes_text(n.children@).len() == 0 {
                    None
                } else {
                    Some(seq![DocInline::Text(nodes_text(n.children@))])
                },
                target: link_target(h),
            },
        ),
        None => None,
    }
}

/// The address of an inline image: its `data-original`, or else its `src`.
pub open spec fn img_src(n: HtmlNode) -> Option<Seq<char>> {
    match elem_attr(n, "data-original"@) {
        Some(v) => Some(v),
        None => elem_attr(n, "src"@),
    }
}

/// The inline element that a node reads as; none for a node that is not
/// understood.
pub open spec fn inline_of(n: HtmlNode, images: Seq<(String, String)>) -> Option<DocInline>
    decreases n,
{
    match n.kind {
        HtmlKind::Text(t) => Some(DocInline::Text(t@)),
        HtmlKind::Element { name, .. } => {
            let name = name@;
            if name == "a"@ {
                link_of(n)
            } else if name == "b"@ {
                Some(DocInline::Strong(inlines_of(n.children@, images)))
            } else if name == "br"@ {
                Some(DocInline::Break)
            } else if name == "em"@ || name == "i"@ {
                Some(DocInline::Emphasis(inlines_of(n.children@, images)))
            } else if name == "code"@ {
                Some(DocInline::Code(node_text(n)))
            } else if name == "sup"@ {
                note_of(n)
            } else if name == "img"@ {
                match img_src(n) {
                    Some(src) => Some(inline_image(elem_attr(n, "alt"@), src, images)),
                    None => None,
                }
            } else {
                None
            }
        },
        HtmlKind::Other => None,
    }
}

/// How a node reads inline, by its name: text as that text, `b` as strong
/// text and `em` or `i` as emphasis of the inline content of its children,
/// `br` as a line break, `code` as code of its text. Conversely only `b`
/// reads as strong text and only `em` or `i` as emphasis.
pub proof fn lemma_inline_kinds(n: HtmlNode, images: Seq<(String, String)>)
    ensures
        n.kind matches HtmlKind::Text(t) ==> inline_of(n, images) == Some(DocInline::Text(t@)),
        elem_name(n) == Some("b"@) ==> inline_of(n, images) == Some(
            DocInline::Strong(inlines_of(n.children@, images)),
        ),
        elem_name(n) == Some("em"@) ==> inline_of(n, images) == Some(
            DocInline::Emphasis(inlines_of(n.children@, images)),
        ),
        elem_name(n) == Some("i"@) ==> inline_of(n, images) == Some(
            DocInline::Emphasis(inlines_of(n.children@, images)),
        ),
        elem_name(n) == Some("br"@) ==> inline_of(n, images) == Some(DocInline::Break),
        elem_name(n) == Some("code"@) ==> inline_of(n, images) == Some(DocInline::Code(node_text(n))),
        inline_of(n, images) matches Some(DocInline::Strong(_)) ==> elem_name(n) == Some("b"@),
        inline_of(n, images) matches Some(DocInline::Emphasis(_)) ==> (elem_name(n) == Some("em"@)
            || elem_name(n) == Some("i"@)),
{
    reveal_strlit("a");
    reveal_strlit("b");
    reveal_strlit("br");
    reveal_strlit("em");
    reveal_strlit("i");
    reveal_strlit("code");
    reveal_strlit("sup");
    reveal_strlit("img");
    if elem_name(n) == Some("b"@) {
        assert("b"@[0] != "a"@[0]);
        assert("b"@ != "a"@);
    }
    if elem_name(n) == Some("br"@) {
        assert("br"@.len() != "a"@.len());
        assert("br"@ != "a"@);
        assert("br"@.len() != "b"@.len());
        assert("br"@ != "b"@);
    }
    if elem_name(n) == Some("em"@) {
        assert("em"@.len() != "a"@.len());
        assert("em"@ != "a"@);
        assert("em"@.len() != "b"@.len());
        assert("em"@ != "b"@);
        assert("em"@[0] != "br"@[0]);
        assert("em"@ != "br"@);
    }
    if elem_name(n) == Some("i"@) {
        assert("i"@[0] != "a"@[0]);
        assert("i"@ != "a"@);
        assert("i"@[0] != "b"@[0]);
        assert("i"@ != "b"@);
        assert("i"@.len() != "br"@.len());
        assert("i"@ != "br"@);
        assert("i"@.len() != "em"@.len());
        assert("i"@ != "em"@);
    }
    if elem_name(n) == Some("code"@) {
        assert("code"@.len() != "a"@.len());
        assert("code"@ != "a"@);
        assert("code"@.len() != "b"@.len());
        assert("code"@ != "b"@);
        assert("code"@.len() != "br"@.len());
        assert("code"@ != "br"@);
        assert("code"@.len() != "em"@.len());
        assert("code"@ != "em"@);
        assert("code"@.len() != "i"@.len());
        assert("code"@ != "i"@);
    }
}

/// The inline elements that nodes read as, in order.
pub open spec fn inlines_of(s: Seq<HtmlNode>, images: Seq<(String, String)>) -> Seq<DocInline>
    decreases s,
{
    if s.len() == 0 {
        seq![]
    } else {
        let rest = inlines_of(s.drop_last(), images);
        match inline_of(s.last(), images) {
            Some(x) => rest.push(x),
            None => rest,
        }
    }
}

/// The first element among nodes with the given name.
pub open spec fn find_child(s: Seq<HtmlNode>, name: Seq<char>) -> Option<HtmlNode>
    decreases s.len(),
{
    if s.len() == 0 {
        None
    } else if elem_name(s[0]) == Some(name) {
        Some(s[0])
    } else {
        find_child(s.drop_first(), name)
    }
}

/// The language of a code block: its class without the `language-` prefix.
pub open spec fn code_language(class: Seq<char>) -> Option<Seq<char>> {
    let p = "language-"@;
    if p.len() <= class.len() && class.subrange(0, p.len() as int) == p {
        Some(class.subrange(p.len() as int, class.len() as int))
    } else {
        None
    }
}

/// A code block (`div` of class `highlight`): the `code` element in its
/// `pre` element, with its language; none without them.
pub open spec fn code_block_of(n: HtmlNode) -> Option<DocBlock> {
    match find_child(n.children@, "pre"@) {
        Some(pre) => match find_child(pre.children@, "code"@) {
            Some(code) => Some(
                DocBlock::CodeBlock {
                    language: match elem_attr(code, "class"@) {
                        Some(c) => code_language(c),
                        None => None,
                    },
                    code: node_text(code),
                },
            ),
            None => None,
        },
        None => None,
    }
}

/// The address of a figure's picture: its `data-original`, `data-actualsrc`
/// or `src`, the first there is.
pub open spec fn figure_src(img: HtmlNode) -> Option<Seq<char>> {
    match elem_attr(img, "data-original"@) {
        Some(v) => Some(v),
        None => match elem_attr(img, "data-actualsrc"@) {
            Some(v) => Some(v),
            None => elem_attr(img, "src"@),
        },
    }
}

/// A figure: the picture of its `img` element, with the element's
/// alternative text and the figure's caption; none without a picture.
pub open spec fn figure_of(n: HtmlNode, images: Seq<(String, String)>) -> Option<DocBlock> {
    match find_child(n.children@, "img"@) {
        Some(img) => match figure_src(img) {
            Some(src) => Some(
                DocBlock::Figure {
                    alt_text: elem_attr(img, "alt"@),
                    description: match find_child(n.children@, "figcaption"@) {
                        Some(cap) => Some(inlines_of(cap.children@, images)),
                        None => None,
                    },
                    src: image_for(images, src),
                },
            ),
            None => None,
        },
        None => None,
    }
}

/// The item that a node of a list reads as: a paragraph for `li`, a nested
/// list for `ul` and `ol`; none for other nodes.
pub open spec fn list_item(n: HtmlNode, images: Seq<(String, String)>) -> Option<Seq<DocBlock>>
    decreases n,
{
    match n.kind {
        HtmlKind::Element { name, .. } => {
            let name = name@;
            if name == "li"@ {
                Some(seq![DocBlock::Paragraph(inlines_of(n.children@, images))])
            } else if name == "ul"@ {
                Some(seq![DocBlock::UnorderedList(list_items(n.children@, images))])
            } else if name == "ol"@ {
                Some(seq![DocBlock::OrderedList(list_items(n.children@, images))])
            } else {
                None
            }
        },
        _ => None,
    }
}

/// The items of a list, in order.
pub open spec fn list_items(s: Seq<HtmlNode>, images: Seq<(String, String)>) -> Seq<Seq<DocBlock>>
    decreases s,
{
    if s.len() == 0 {
        seq![]
    } else {
        let rest = list_items(s.drop_last(), images);
        match list_item(s.last(), images) {
            Some(x) => rest.push(x),
            None => rest,
        }
    }
}

/// The cells of a table row: one plain block per `td` element.
pub open spec fn row_cells(s: Seq<HtmlNode>, images: Seq<(String, String)>) -> Seq<Seq<DocBlock>>
    decreases s.len(),
{
    if s.len() == 0 {
        seq![]
    } else {
        let rest = row_cells(s.drop_last(), images);
        if elem_name(s.last()) == Some("td"@) {
            rest.push(seq![DocBlock::Plain(inlines_of(s.last().children@, images))])
        } else {
            rest
        }
    }
}

/// The rows of a table body: one per `tr` element.
pub open spec fn body_rows(s: Seq<HtmlNode>, images: Seq<(String, String)>) -> Seq<Seq<Seq<DocBlock>>>
    decreases s.len(),
{
    if s.len() == 0 {
        seq![]
    } else {
        let rest = body_rows(s.drop_last(), images);
        if elem_name(s.last()) == Some("tr"@) {
            rest.push(row_cells(s.last().children@, images))
        } else {
            rest
        }
    }
}

/// The rows of a table: those of its `tbody` elements, in order.
pub open spec fn table_rows(s: Seq<HtmlNode>, images: Seq<(String, String)>) -> Seq<Seq<Seq<DocBlock>>>
    decreases s.len(),
{
    if s.len() == 0 {
        seq![]
    } else {
        let rest = table_rows(s.drop_last(), images);
        if elem_name(s.last()) == Some("tbody"@) {
            rest + body_rows(s.last().children@, images)
        } else {
            rest
        }
    }
}

/// The level of a header element (`h1` to `h6`).
pub open spec fn header_level(name: Seq<char>) -> Option<nat> {
    if name == "h1"@ {
        Some(1)
    } else if name == "h2"@ {
        Some(2)
    } else if name == "h3"@ {
        Some(3)
    } else if name == "h4"@ {
        Some(4)
    } else if name == "h5"@ {
        Some(5)
    } else if name == "h6"@ {
        Some(6)
    } else {
        None
    }
}

/// The block element that a node reads as; none for a node that is not
/// understood.
pub open spec fn block_of(n: HtmlNode, images: Seq<(String, String)>) -> Option<DocBlock> {
    match elem_name(n) {
        Some(name) => match header_level(name) {
            Some(level) => Some(DocBlock::Header { level, content: inlines_of(n.children@, images) }),
            None => if name == "hr"@ {
                Some(DocBlock::HorizontalRule)
            } else if name == "ul"@ {
                Some(DocBlock::UnorderedList(list_items(n.children@, images)))
            } else if name == "ol"@ {
                Some(DocBlock::OrderedList(list_items(n.children@, images)))
            } else if name == "p"@ {
                Some(DocBlock::Paragraph(inlines_of(n.children@, images)))
            } else if name == "table"@ {
                Some(DocBlock::SimpleTable(table_rows(n.children@, images)))
            } else if name == "a"@ {
                match link_of(n) {
                    Some(l) => Some(DocBlock::Paragraph(seq![l])),
                    None => None,
                }
            } else if name == "div"@ {
                if elem_attr(n, "class"@) == Some("highlight"@) {
                    code_block_of(n)
                } else {
                    None
                }
            } else if name == "figure"@ {
                figure_of(n, images)
            } else if name == "blockquote"@ {
                Some(DocBlock::BlockQuote(seq![DocBlock::Paragraph(inlines_of(n.children@, images))]))
            } else {
                None
            },
        },
        None => None,
    }
}

/// How an element reads as a block, by its name: `h1` to `h6` as headers
/// of that level, `hr` as a rule, `ul` as an unordered and `ol` as an
/// ordered list of the items its children read as, `p` as a paragraph of
/// its inline content, `table` as a table of its rows, and `blockquote` as
/// a quote of one such paragraph. Conversely only `ol` reads as an ordered
/// list, only `ul` as an unordered one, only `hr` as a rule and only a
/// `table` as a table; a node that is no element reads as nothing.
pub proof fn lemma_block_kinds(n: HtmlNode, images: Seq<(String, String)>)
    ensures
        elem_name(n) == Some("ol"@) ==> block_of(n, images) == Some(
            DocBlock::OrderedList(list_items(n.children@, images)),
        ),
        elem_name(n) == Some("ul"@) ==> block_of(n, images) == Some(
            DocBlock::UnorderedList(list_items(n.children@, images)),
        ),
        elem_name(n) == Some("p"@) ==> block_of(n, images) == Some(
            DocBlock::Paragraph(inlines_of(n.children@, images)),
        ),
        elem_name(n) == Some("hr"@) ==> block_of(n, images) == Some(DocBlock::HorizontalRule),
        elem_name(n) == Some("table"@) ==> block_of(n, images) == Some(
            DocBlock::SimpleTable(table_rows(n.children@, images)),
        ),
        elem_name(n) == Some("blockquote"@) ==> block_of(n, images) == Some(
            DocBlock::BlockQuote(seq![DocBlock::Paragraph(inlines_of(n.children@, images))]),
        ),
        elem_name(n) == Some("h1"@) ==> block_of(n, images) == Some(
            DocBlock::Header { level: 1, content: inlines_of(n.children@, images) },
        ),
        elem_name(n) == Some("h2"@) ==> block_of(n, images) == Some(
            DocBlock::Header { level: 2, content: inlines_of(n.children@, images) },
        ),
        elem_name(n) == Some("h3"@) ==> block_of(n, images) == Some(
            DocBlock::Header { level: 3, content: inlines_of(n.children@, images) },
        ),
        elem_name(n) == Some("h4"@) ==> block_of(n, images) == Some(
            DocBlock::Header { level: 4, content: inlines_of(n.children@, images) },
        ),
        elem_name(n) == Some("h5"@) ==> block_of(n, images) == Some(
            DocBlock::Header { level: 5, content: inlines_of(n.children@, images) },
        ),
        elem_name(n) == Some("h6"@) ==> block_of(n, images) == Some(
            DocBlock::Header { level: 6, content: inlines_of(n.children@, images) },
        ),
        block_of(n, images) matches Some(DocBlock::OrderedList(_)) ==> elem_name(n) == Some("ol"@),
        block_of(n, images) matches Some(DocBlock::UnorderedList(_)) ==> elem_name(n) == Some("ul"@),
        block_of(n, images) matches Some(DocBlock::HorizontalRule) ==> elem_name(n) == Some("hr"@),
        block_of(n, images) matches Some(DocBlock::SimpleTable(_)) ==> elem_name(n) == Some("table"@),
        elem_name(n) is None ==> block_of(n, images) is None,
{
    reveal_strlit("h1");
    reveal_strlit("h2");
    reveal_strlit("h3");
    reveal_strlit("h4");
    reveal_strlit("h5");
    reveal_strlit("h6");
    reveal_strlit("hr");
    reveal_strlit("ul");
    reveal_strlit("ol");
    reveal_strlit("p");
    reveal_strlit("table");
    reveal_strlit("a");
    reveal_strlit("div");
    reveal_strlit("figure");
    reveal_strlit("blockquote");
    if elem_name(n) == Some("ol"@) {
        assert("ol"@[0] != "h1"@[0]);
        assert("ol"@ != "h1"@);
        assert("ol"@[0] != "h2"@[0]);
        assert("ol"@ != "h2"@);
        assert("ol"@[0] != "h3"@[0]);
        assert("ol"@ != "h3"@);
        assert("ol"@[0] != "h4"@[0]);
        assert("ol"@ != "h4"@);
        assert("ol"@[0] != "h5"@[0]);
        assert("ol"@ != "h5"@);
        assert("ol"@[0] != "h6"@[0]);
        assert("ol"@ != "h6"@);
        assert("ol"@[0] != "hr"@[0]);
        assert("ol"@ != "hr"@);
        assert("ol"@[0] != "ul"@[0]);
        assert("ol"@ != "ul"@);
    }
    if elem_name(n) == Some("ul"@) {
        assert("ul"@[0] != "h1"@[0]);
        assert("ul"@ != "h1"@);
        assert("ul"@[0] != "h2"@[0]);
        assert("ul"@ != "h2"@);
        assert("ul"@[0] != "h3"@[0]);
        assert("ul"@ != "h3"@);
        assert("ul"@[0] != "h4"@[0]);
        assert("ul"@ != "h4"@);
        assert("ul"@[0] != "h5"@[0]);
        assert("ul"@ != "h5"@);
        assert("ul"@[0] != "h6"@[0]);
        assert("ul"@ != "h6"@);
        assert("ul"@[0] != "hr"@[0]);
        assert("ul"@ != "hr"@);
    }
    if elem_name(n) == Some("p"@) {
        assert("p"@.len() != "h1"@.len());
        assert("p"@ != "h1"@);
        assert("p"@.len() != "h2"@.len());
        assert("p"@ != "h2"@);
        assert("p"@.len() != "h3"@.len());
        assert("p"@ != "h3"@);
        assert("p"@.len() != "h4"@.len());
        assert("p"@ != "h4"@);
        assert("p"@.len() != "h5"@.len());
        assert("p"@ != "h5"@);
        assert("p"@.len() != "h6"@.len());
        assert("p"@ != "h6"@);
        assert("p"@.len() != "hr"@.len());
        assert("p"@ != "hr"@);
        assert("p"@.len() != "ul"@.len());
        assert("p"@ != "ul"@);
        assert("p"@.len() != "ol"@.len());
        assert("p"@ != "ol"@);
    }
    if elem_name(n) == Some("hr"@) {
        assert("hr"@[1] != "h1"@[1]);
        assert("hr"@ != "h1"@);
        assert("hr"@[1] != "h2"@[1]);
        assert("hr"@ != "h2"@);
        assert("hr"@[1] != "h3"@[1]);
        assert("hr"@ != "h3"@);
        assert("hr"@[1] != "h4"@[1]);
        assert("hr"@ != "h4"@);
        assert("hr"@[1] != "h5"@[1]);
        assert("hr"@ != "h5"@);
        assert("hr"@[1] != "h6"@[1]);
        assert("hr"@ != "h6"@);
    }
    if elem_name(n) == Some("table"@) {
        assert("table"@.len() != "h1"@.len());
        assert("table"@ != "h1"@);
        assert("table"@.len() != "h2"@.len());
        assert("table"@ != "h2"@);
        assert("table"@.len() != "h3"@.len());
        assert("table"@ != "h3"@);
        assert("table"@.len() != "h4"@.len());
        assert("table"@ != "h4"@);
        assert("table"@.len() != "h5"@.len());
        assert("table"@ != "h5"@);
        assert("table"@.len() != "h6"@.len());
        assert("table"@ != "h6"@);
        assert("table"@.len() != "hr"@.len());
        assert("table"@ != "hr"@);
        assert("table"@.len() != "ul"@.len());
        assert("table"@ != "ul"@);
        assert("table"@.len() != "ol"@.len());
        assert("table"@ != "ol"@);
        assert("table"@.len() != "p"@.len());
        assert("table"@ != "p"@);
    }
    if elem_name(n) == Some("blockquote"@) {
        assert("blockquote"@.len() != "h1"@.len());
        assert("blockquote"@ != "h1"@);
        assert("blockquote"@.len() != "h2"@.len());
        assert("blockquote"@ != "h2"@);
        assert("blockquote"@.len() != "h3"@.len());
        assert("blockquote"@ != "h3"@);
        assert("blockquote"@.len() != "h4"@.len());
        assert("blockquote"@ != "h4"@);
        assert("blockquote"@.len() != "h5"@.len());
        assert("blockquote"@ != "h5"@);
        assert("blockquote"@.len() != "h6"@.len());
        assert("blockquote"@ != "h6"@);
        assert("blockquote"@.len() != "hr"@.len());
        assert("blockquote"@ != "hr"@);
        assert("blockquote"@.len() != "ul"@.len());
        assert("blockquote"@ != "ul"@);
        assert("blockquote"@.len() != "ol"@.len());
        assert("blockquote"@ != "ol"@);
        assert("blockquote"@.len() != "p"@.len());
        assert("blockquote"@ != "p"@);
        assert("blockquote"@.len() != "table"@.len());
        assert("blockquote"@ != "table"@);
        assert("blockquote"@.len() != "a"@.len());
        assert("blockquote"@ != "a"@);
        assert("blockquote"@.len() != "div"@.len());
        assert("blockquote"@ != "div"@);
        assert("blockquote"@.len() != "figure"@.len());
        assert("blockquote"@ != "figure"@);
    }
    if elem_name(n) == Some("h1"@) {
    }
    if elem_name(n) == Some("h2"@) {
        assert("h2"@[1] != "h1"@[1]);
        assert("h2"@ != "h1"@);
    }
    if elem_name(n) == Some("h3"@) {
        assert("h3"@[1] != "h1"@[1]);
        assert("h3"@ != "h1"@);
        assert("h3"@[1] != "h2"@[1]);
        assert("h3"@ != "h2"@);
    }
    if elem_name(n) == Some("h4"@) {
        assert("h4"@[1] != "h1"@[1]);
        assert("h4"@ != "h1"@);
        assert("h4"@[1] != "h2"@[1]);
        assert("h4"@ != "h2"@);
        assert("h4"@[1] != "h3"@[1]);
        assert("h4"@ != "h3"@);
    }
    if elem_name(n) == Some("h5"@) {
        assert("h5"@[1] != "h1"@[1]);
        assert("h5"@ != "h1"@);
        assert("h5"@[1] != "h2"@[1]);
        assert("h5"@ != "h2"@);
        assert("h5"@[1] != "h3"@[1]);
        assert("h5"@ != "h3"@);
        assert("h5"@[1] != "h4"@[1]);
        assert("h5"@ != "h4"@);
    }
    if elem_name(n) == Some("h6"@) {
        assert("h6"@[1] != "h1"@[1]);
        assert("h6"@ != "h1"@);
        assert("h6"@[1] != "h2"@[1]);
        assert("h6"@ != "h2"@);
        assert("h6"@[1] != "h3"@[1]);
        assert("h6"@ != "h3"@);
        assert("h6"@[1] != "h4"@[1]);
        assert("h6"@ != "h4"@);
        assert("h6"@[1] != "h5"@[1]);
        assert("h6"@ != "h5"@);
    }
}

/// The block elements that nodes read as, in order.
pub open spec fn blocks_of(s: Seq<HtmlNode>, images: Seq<(String, String)>) -> Seq<DocBlock>
    decreases s.len(),
{
    if s.len() == 0 {
        seq![]
    } else {
        let rest = blocks_of(s.drop_last(), images);
        match block_of(s.last(), images) {
            Some(x) => rest.push(x),
            None => rest,
        }
    }
}

/// The nodes below the root element of a parsed fragment.
pub open spec fn root_children(nodes: Seq<HtmlNode>) -> Seq<HtmlNode> {
    if nodes.len() > 0 {
        nodes[0].children@
    } else {
        seq![]
    }
}

// ----------------------------------------------------------------------------
// Reading
// ----------------------------------------------------------------------------

/// The model of one inline element alone.
proof fn lemma_one_inline(x: Inline)
    ensures
        doc_inlines(seq![x]) == seq![doc_inline(x)],
{
    let e = seq![x].subrange(0, 0);
    assert(e =~= Seq::<Inline>::empty());
    assert(doc_inlines(e) == Seq::<DocInline>::empty());
    assert(Seq::<DocInline>::empty().push(doc_inline(x)) =~= seq![doc_inline(x)]);
}

/// The model of one block element alone.
proof fn lemma_one_block(x: Block)
    ensures
        doc_blocks(seq![x]) == seq![doc_block(x)],
{
    let e = seq![x].subrange(0, 0);
    assert(e =~= Seq::<Block>::empty());
    assert(doc_blocks(e) == Seq::<DocBlock>::empty());
    assert(Seq::<DocBlock>::empty().push(doc_block(x)) =~= seq![doc_block(x)]);
}

/// The text of an optional borrowed string.
pub open spec fn opt_ref_view(r: Option<&String>) -> Option<Seq<char>> {
    match r {
        Some(v) => Some(v@),
        None => None,
    }
}

/// The value of the first attribute without namespace named `name`.
fn attr_value<'a>(attrs: &'a Vec<HtmlAttr>, name: &str) -> (r: Option<&'a String>)
    ensures
        opt_ref_view(r) == attr_of(attrs_view(attrs@), name@),
{
    let ghost all = attrs_view(attrs@);
    let mut i: usize = 0;
    assert(all.skip(0) =~= all);
    while i < attrs.len()
        invariant
            all == attrs_view(attrs@),
            0 <= i <= attrs@.len(),
            attr_of(all, name@) == attr_of(all.skip(i as int), name@),
        decreases attrs@.len() - i,
    {
        let a = &attrs[i];
        proof {
            let s = all.skip(i as int);
            assert(s.drop_first() =~= all.skip(i + 1));
            assert(s[0] == (a.ns@, a.name@, a.value@));
        }
        if a.ns.as_str().unicode_len() == 0 && str_eq(a.name.as_str(), name) {
            return Some(&a.value);
        }
        i = i + 1;
    }
    assert(all.skip(i as int) =~= Seq::<(Seq<char>, Seq<char>, Seq<char>)>::empty());
    None
}

/// The value of an attribute of an element node.
pub fn elem_attr_value<'a>(n: &'a HtmlNode, name: &str) -> (r: Option<&'a String>)
    ensures
        opt_ref_view(r) == elem_attr(*n, name@),
{
    match &n.kind {
        HtmlKind::Element { attrs, .. } => attr_value(attrs, name),
        _ => None,
    }
}

/// Appends the text of a node and the nodes below it.
fn push_node_text(n: &HtmlNode, out: &mut String)
    ensures
        final(out)@ == old(out)@ + node_text(*n),
    decreases n,
{
    match &n.kind {
        HtmlKind::Text(t) => out.append(t.as_str()),
        _ => {},
    }
    let ghost own = out@;
    let ghost kids = n.children@;
    let mut i: usize = 0;
    assert(kids.take(0) =~= Seq::<HtmlNode>::empty());
    while i < n.children.len()
        invariant
            kids == n.children@,
            0 <= i <= kids.len(),
            out@ == own + nodes_text(kids.take(i as int)),
        decreases kids.len() - i,
    {
        proof {
            assert(decreases_to!(n => n.children));
            assert(decreases_to!(n.children => kids));
            assert(decreases_to!(kids => kids[i as int]));
        }
        push_node_text(&n.children[i], out);
        proof {
            assert(kids.take(i + 1).drop_last() =~= kids.take(i as int));
            assert(kids.take(i + 1).last() == kids[i as int]);
        }
        i = i + 1;
    }
    assert(kids.take(kids.len() as int) =~= kids);
    match &n.kind {
        HtmlKind::Text(t) => {},
        _ => {
            assert(own == old(out)@ + Seq::<char>::empty());
        },
    }
}

/// The text of nodes and the nodes below them.
fn nodes_text_of(s: &Vec<HtmlNode>) -> (r: String)
    ensures
        r@ == nodes_text(s@),
{
    let mut r = String::new();
    let mut i: usize = 0;
    assert(s@.take(0) =~= Seq::<HtmlNode>::empty());
    while i < s.len()
        invariant
            0 <= i <= s@.len(),
            r@ == nodes_text(s@.take(i as int)),
        decreases s@.len() - i,
    {
        push_node_text(&s[i], &mut r);
        proof {
            assert(s@.take(i + 1).drop_last() =~= s@.take(i as int));
            assert(s@.take(i + 1).last() == s@[i as int]);
        }
        i = i + 1;
    }
    assert(s@.take(s@.len() as int) =~= s@);
    r
}

/// The value of the first query pair named `name`.
fn pair_value_of<'a>(pairs: &'a Vec<(String, String)>, name: &str) -> (r: Option<&'a String>)
    ensures
        opt_ref_view(r) == pair_value(pairs_view(pairs@), name@),
{
    let ghost all = pairs_view(pairs@);
    let mut i: usize = 0;
    assert(all.skip(0) =~= all);
    while i < pairs.len()
        invariant
            all == pairs_view(pairs@),
            0 <= i <= pairs@.len(),
            pair_value(all, name@) == pair_value(all.skip(i as int), name@),
        decreases pairs@.len() - i,
    {
        let p = &pairs[i];
        proof {
            let s = all.skip(i as int);
            assert(s.drop_first() =~= all.skip(i + 1));
            assert(s[0] == (p.0@, p.1@));
        }
        if str_eq(p.0.as_str(), name) {
            return Some(&p.1);
        }
        i = i + 1;
    }
    assert(all.skip(i as int) =~= Seq::<(Seq<char>, Seq<char>)>::empty());
    None
}

/// The target of a link whose address `href` parses to `url` (see
/// `target_for`).
pub fn redirect_target(href: &String, url: &Option<UrlFields>) -> (r: String)
    ensures
        r@ == target_for(href@, opt_url(*url)),
{
    match url {
        Some(u) => {
            let redirect = match &u.domain {
                Some(d) => str_eq(d.as_str(), "link.zhihu.com"),
                None => false,
            };
            if redirect {
                match pair_value_of(&u.pairs, "target") {
                    Some(v) => v.clone(),
                    None => href.clone(),
                }
            } else {
                href.clone()
            }
        },
        None => href.clone(),
    }
}

/// The target of a link (see `link_target`).
fn target_of(href: &String) -> (r: String)
    ensures
        r@ == link_target(href@),
{
    let url = parse_url(href.as_str());
    redirect_target(href, &url)
}

/// The picture at an address (see `image_for`).
fn image_at(images: &Vec<(String, String)>, src: &String) -> (r: Image)
    ensures
        doc_image(r) == image_for(images@, src@),
{
    let mut i: usize = images.len();
    assert(images@.subrange(0, i as int) =~= images@);
    while i > 0
        invariant
            0 <= i <= images@.len(),
            image_for(images@, src@) == image_for(images@.subrange(0, i as int), src@),
        decreases i,
    {
        assert(images@.subrange(0, i as int).drop_last() =~= images@.subrange(0, i - 1));
        if images[i - 1].0 == *src {
            return Image::Local(images[i - 1].1.clone());
        }
        i = i - 1;
    }
    Image::Url(src.clone())
}

/// An inline image whose address `src` parses to `url` (see
/// `image_inline_for`).
pub fn image_inline(
    alt: Option<&String>,
    src: &String,
    url: &Option<UrlFields>,
    images: &Vec<(String, String)>,
) -> (r: Inline)
    ensures
        doc_inline(r) == image_inline_for(opt_ref_view(alt), src@, opt_url(*url), images@),
{
    let bare = Inline::Image { alt_text: None, description: None, src: Image::Url(src.clone()) };
    match url {
        Some(u) => {
            let equation = match &u.domain {
                Some(d) => str_eq(d.as_str(), "www.zhihu.com"),
                None => false,
            } && str_eq(u.path.as_str(), "/equation");
            if equation {
                match alt {
                    Some(t) => Inline::Math { tex_code: t.clone() },
                    None => match pair_value_of(&u.pairs, "tex") {
                        Some(v) => Inline::Math { tex_code: v.clone() },
                        None => bare,
                    },
                }
            } else {
                let a: Option<String> = match alt {
                    Some(t) => Some(t.clone()),
                    None => None,
                };
                Inline::Image { alt_text: a, description: None, src: image_at(images, src) }
            }
        },
        None => bare,
    }
}

/// An inline image (see `inline_image`).
fn read_inline_image(alt: Option<&String>, src: &String, images: &Vec<(String, String)>) -> (r:
    Inline)
    ensures
        doc_inline(r) == inline_image(opt_ref_view(alt), src@, images@),
{
    let url = parse_url(src.as_str());
    image_inline(alt, src, &url, images)
}

/// A reference note (see `note_of`).
fn read_note(n: &HtmlNode) -> (r: Option<Inline>)
    ensures
        match r {
            Some(x) => note_of(*n) == Some(doc_inline(x)),
            None => note_of(*n) is None,
        },
{
    let reference = match elem_attr_value(n, "data-draft-type") {
        Some(v) => str_eq(v.as_str(), "reference"),
        None => false,
    };
    if !reference {
        return None;
    }
    match elem_attr_value(n, "data-url") {
        Some(v) => {
            if v.as_str().unicode_len() > 0 {
                let link = Inline::Link { description: None, target: target_of(v) };
                proof {
                    lemma_one_inline(link);
                }
                let inner = vec![link];
                assert(inner@ == seq![link]);
                let plain = Block::Plain(inner);
                proof {
                    lemma_one_block(plain);
                }
                let content = vec![plain];
                assert(content@ == seq![plain]);
                let r = Inline::Note { content };
                assert(doc_inline(r) == DocInline::Note(doc_blocks(content@)));
                assert(doc_block(plain) == DocBlock::Plain(doc_inlines(inner@)));
                return Some(r);
            }
        },
        None => {},
    }
    match elem_attr_value(n, "data-text") {
        Some(v) => {
            if v.as_str().unicode_len() > 0 {
                let text = Inline::Text(v.clone());
                proof {
                    lemma_one_inline(text);
                }
                let inner = vec![text];
                assert(inner@ == seq![text]);
                let para = Block::Paragraph(inner);
                proof {
                    lemma_one_block(para);
                }
                let content = vec![para];
                assert(content@ == seq![para]);
                let r = Inline::Note { content };
                assert(doc_inline(r) == DocInline::Note(doc_blocks(content@)));
                assert(doc_block(para) == DocBlock::Paragraph(doc_inlines(inner@)));
                return Some(r);
            }
        },
        None => {},
    }
    None
}

/// The model of an optional inline element.
pub open spec fn opt_inline(r: Option<Inline>) -> Option<DocInline> {
    match r {
        Some(x) => Some(doc_inline(x)),
        None => None,
    }
}

/// The model of an optional block element.
pub open spec fn opt_block(r: Option<Block>) -> Option<DocBlock> {
    match r {
        Some(x) => Some(doc_block(x)),
        None => None,
    }
}

/// A link (see `link_of`).
fn read_link(n: &HtmlNode) -> (r: Option<Inline>)
    ensures
        opt_inline(r) == link_of(*n),
{
    match elem_attr_value(n, "href") {
        Some(h) => {
            let text = nodes_text_of(&n.children);
            let description = if text.as_str().unicode_len() == 0 {
                None
            } else {
                let t = Inline::Text(text);
                proof {
                    lemma_one_inline(t);
                }
                let v = vec![t];
                assert(v@ == seq![t]);
                Some(v)
            };
            Some(Inline::Link { description, target: target_of(h) })
        },
        None => None,
    }
}

/// The inline element that a node reads as (see `inline_of`).
fn read_inline(n: &HtmlNode, images: &Vec<(String, String)>) -> (r: Option<Inline>)
    ensures
        opt_inline(r) == inline_of(*n, images@),
    decreases n,
{
    match &n.kind {
        HtmlKind::Text(t) => Some(Inline::Text(t.clone())),
        HtmlKind::Element { name, .. } => {
            let name = name.as_str();
            proof {
                assert(decreases_to!(n => n.children));
            }
            if str_eq(name, "a") {
                read_link(n)
            } else if str_eq(name, "b") {
                Some(Inline::Strong(read_inlines(&n.children, images)))
            } else if str_eq(name, "br") {
                Some(Inline::Break)
            } else if str_eq(name, "em") || str_eq(name, "i") {
                Some(Inline::Emphasis(read_inlines(&n.children, images)))
            } else if str_eq(name, "code") {
                let mut code = String::new();
                push_node_text(n, &mut code);
                Some(Inline::Code { code })
            } else if str_eq(name, "sup") {
                read_note(n)
            } else if str_eq(name, "img") {
                let src = match elem_attr_value(n, "data-original") {
                    Some(v) => Some(v),
                    None => elem_attr_value(n, "src"),
                };
                match src {
                    Some(s) => Some(read_inline_image(elem_attr_value(n, "alt"), s, images)),
                    None => None,
                }
            } else {
                None
            }
        },
        HtmlKind::Other => None,
    }
}

/// The inline elements that nodes read as (see `inlines_of`).
fn read_inlines(s: &Vec<HtmlNode>, images: &Vec<(String, String)>) -> (r: Vec<Inline>)
    ensures
        doc_inlines(r@) == inlines_of(s@, images@),
    decreases s,
{
    let mut r: Vec<Inline> = Vec::new();
    let mut i: usize = 0;
    assert(s@.take(0) =~= Seq::<HtmlNode>::empty());
    while i < s.len()
        invariant
            0 <= i <= s@.len(),
            doc_inlines(r@) == inlines_of(s@.take(i as int), images@),
        decreases s@.len() - i,
    {
        proof {
            assert(decreases_to!(s => s@));
            assert(decreases_to!(s@ => s@[i as int]));
            assert(s@.take(i + 1).drop_last() =~= s@.take(i as int));
            assert(s@.take(i + 1).last() == s@[i as int]);
        }
        match read_inline(&s[i], images) {
            Some(x) => {
                proof {
                    lemma_doc_inlines_push(r@, x);
                }
                r.push(x);
            },
            None => {},
        }
        i = i + 1;
    }
    assert(s@.take(s@.len() as int) =~= s@);
    r
}

/// The position of the first element among nodes with the given name.
fn find_elem(s: &Vec<HtmlNode>, name: &str) -> (r: Option<usize>)
    ensures
        match r {
            Some(i) => i < s@.len() && find_child(s@, name@) == Some(s@[i as int]),
            None => find_child(s@, name@) is None,
        },
{
    let mut i: usize = 0;
    assert(s@.skip(0) =~= s@);
    while i < s.len()
        invariant
            0 <= i <= s@.len(),
            find_child(s@, name@) == find_child(s@.skip(i as int), name@),
        decreases s@.len() - i,
    {
        proof {
            assert(s@.skip(i as int).drop_first() =~= s@.skip(i + 1));
            assert(s@.skip(i as int)[0] == s@[i as int]);
        }
        let hit = match &s[i].kind {
            HtmlKind::Element { name: n, .. } => str_eq(n.as_str(), name),
            _ => false,
        };
        if hit {
            return Some(i);
        }
        i = i + 1;
    }
    assert(s@.skip(i as int) =~= Seq::<HtmlNode>::empty());
    None
}

/// The language of a code block (see `code_language`).
fn language_of(class: &String) -> (r: Option<String>)
    ensures
        doc_text(r) == code_language(class@),
{
    let p = "language-";
    let pl = p.unicode_len();
    let c = class.as_str();
    let cl = c.unicode_len();
    if pl <= cl && str_eq(c.substring_char(0, pl), p) {
        Some(String::from_str(c.substring_char(pl, cl)))
    } else {
        None
    }
}

/// A code block (see `code_block_of`).
fn read_code_block(n: &HtmlNode) -> (r: Option<Block>)
    ensures
        opt_block(r) == code_block_of(*n),
{
    match find_elem(&n.children, "pre") {
        Some(i) => {
            let pre = &n.children[i];
            match find_elem(&pre.children, "code") {
                Some(j) => {
                    let code = &pre.children[j];
                    let language = match elem_attr_value(code, "class") {
                        Some(c) => language_of(c),
                        None => None,
                    };
                    let mut text = String::new();
                    push_node_text(code, &mut text);
                    Some(Block::CodeBlock { language, code: text })
                },
                None => None,
            }
        },
        None => None,
    }
}

/// A figure (see `figure_of`).
fn read_figure(n: &HtmlNode, images: &Vec<(String, String)>) -> (r: Option<Block>)
    ensures
        opt_block(r) == figure_of(*n, images@),
{
    match find_elem(&n.children, "img") {
        Some(i) => {
            let img = &n.children[i];
            let src = match elem_attr_value(img, "data-original") {
                Some(v) => Some(v),
                None => match elem_attr_value(img, "data-actualsrc") {
                    Some(v) => Some(v),
                    None => elem_attr_value(img, "src"),
                },
            };
            match src {
                Some(s) => {
                    let alt_text: Option<String> = match elem_attr_value(img, "alt") {
                        Some(a) => Some(a.clone()),
                        None => None,
                    };
                    let description = match find_elem(&n.children, "figcaption") {
                        Some(k) => Some(read_inlines(&n.children[k].children, images)),
                        None => None,
                    };
                    Some(Block::Figure { alt_text, description, src: image_at(images, s) })
                },
                None => None,
            }
        },
        None => None,
    }
}

/// The model of an optional block sequence.
pub open spec fn opt_blocks(r: Option<Vec<Block>>) -> Option<Seq<DocBlock>> {
    match r {
        Some(v) => Some(doc_blocks(v@)),
        None => None,
    }
}

/// A block sequence of one block.
fn one_block(b: Block) -> (r: Vec<Block>)
    ensures
        doc_blocks(r@) == seq![doc_block(b)],
{
    proof {
        lemma_one_block(b);
    }
    let v = vec![b];
    assert(v@ == seq![b]);
    v
}

/// The item that a node of a list reads as (see `list_item`).
fn read_list_item(n: &HtmlNode, images: &Vec<(String, String)>) -> (r: Option<Vec<Block>>)
    ensures
        opt_blocks(r) == list_item(*n, images@),
    decreases n,
{
    match &n.kind {
        HtmlKind::Element { name, .. } => {
            let name = name.as_str();
            proof {
                assert(decreases_to!(n => n.children));
            }
            if str_eq(name, "li") {
                Some(one_block(Block::Paragraph(read_inlines(&n.children, images))))
            } else if str_eq(name, "ul") {
                Some(one_block(Block::UnorderedList { items: read_list(&n.children, images) }))
            } else if str_eq(name, "ol") {
                Some(one_block(Block::OrderedList { items: read_list(&n.children, images) }))
            } else {
                None
            }
        },
        _ => None,
    }
}

/// The items of a list (see `list_items`).
fn read_list(s: &Vec<HtmlNode>, images: &Vec<(String, String)>) -> (r: Vec<Vec<Block>>)
    ensures
        doc_block_lists(r@) == list_items(s@, images@),
    decreases s,
{
    let mut r: Vec<Vec<Block>> = Vec::new();
    let mut i: usize = 0;
    assert(s@.take(0) =~= Seq::<HtmlNode>::empty());
    while i < s.len()
        invariant
            0 <= i <= s@.len(),
            doc_block_lists(r@) == list_items(s@.take(i as int), images@),
        decreases s@.len() - i,
    {
        proof {
            assert(decreases_to!(s => s@));
            assert(decreases_to!(s@ => s@[i as int]));
            assert(s@.take(i + 1).drop_last() =~= s@.take(i as int));
            assert(s@.take(i + 1).last() == s@[i as int]);
        }
        match read_list_item(&s[i], images) {
            Some(x) => {
                proof {
                    lemma_doc_block_lists_push(r@, x);
                }
                r.push(x);
            },
            None => {},
        }
        i = i + 1;
    }
    assert(s@.take(s@.len() as int) =~= s@);
    r
}

/// Whether a node is an element with the given name.
fn is_elem(n: &HtmlNode, name: &str) -> (r: bool)
    ensures
        r == (elem_name(*n) == Some(name@)),
{
    match &n.kind {
        HtmlKind::Element { name: m, .. } => str_eq(m.as_str(), name),
        _ => false,
    }
}

/// The cells of a table row (see `row_cells`).
fn read_cells(s: &Vec<HtmlNode>, images: &Vec<(String, String)>) -> (r: Vec<Vec<Block>>)
    ensures
        doc_block_lists(r@) == row_cells(s@, images@),
{
    let mut r: Vec<Vec<Block>> = Vec::new();
    let mut i: usize = 0;
    assert(s@.take(0) =~= Seq::<HtmlNode>::empty());
    while i < s.len()
        invariant
            0 <= i <= s@.len(),
            doc_block_lists(r@) == row_cells(s@.take(i as int), images@),
        decreases s@.len() - i,
    {
        proof {
            assert(s@.take(i + 1).drop_last() =~= s@.take(i as int));
            assert(s@.take(i + 1).last() == s@[i as int]);
        }
        if is_elem(&s[i], "td") {
            let cell = one_block(Block::Plain(read_inlines(&s[i].children, images)));
            proof {
                lemma_doc_block_lists_push(r@, cell);
            }
            r.push(cell);
        }
        i = i + 1;
    }
    assert(s@.take(s@.len() as int) =~= s@);
    r
}

/// The rows of a table body (see `body_rows`).
fn read_rows(s: &Vec<HtmlNode>, images: &Vec<(String, String)>) -> (r: Vec<Vec<Vec<Block>>>)
    ensures
        doc_rows(r@) == body_rows(s@, images@),
{
    let mut r: Vec<Vec<Vec<Block>>> = Vec::new();
    let mut i: usize = 0;
    assert(s@.take(0) =~= Seq::<HtmlNode>::empty());
    while i < s.len()
        invariant
            0 <= i <= s@.len(),
            doc_rows(r@) == body_rows(s@.take(i as int), images@),
        decreases s@.len() - i,
    {
        proof {
            assert(s@.take(i + 1).drop_last() =~= s@.take(i as int));
            assert(s@.take(i + 1).last() == s@[i as int]);
        }
        if is_elem(&s[i], "tr") {
            let row = read_cells(&s[i].children, images);
            proof {
                lemma_doc_rows_push(r@, row);
            }
            r.push(row);
        }
        i = i + 1;
    }
    assert(s@.take(s@.len() as int) =~= s@);
    r
}

/// The rows of a table (see `table_rows`).
fn read_table(s: &Vec<HtmlNode>, images: &Vec<(String, String)>) -> (r: Vec<Vec<Vec<Block>>>)
    ensures
        doc_rows(r@) == table_rows(s@, images@),
{
    let mut r: Vec<Vec<Vec<Block>>> = Vec::new();
    let mut i: usize = 0;
    assert(s@.take(0) =~= Seq::<HtmlNode>::empty());
    while i < s.len()
        invariant
            0 <= i <= s@.len(),
            doc_rows(r@) == table_rows(s@.take(i as int), images@),
        decreases s@.len() - i,
    {
        proof {
            assert(s@.take(i + 1).drop_last() =~= s@.take(i as int));
            assert(s@.take(i + 1).last() == s@[i as int]);
        }
        if is_elem(&s[i], "tbody") {
            let mut rows = read_rows(&s[i].children, images);
            proof {
                lemma_doc_rows_append(r@, rows@);
            }
            r.append(&mut rows);
        }
        i = i + 1;
    }
    assert(s@.take(s@.len() as int) =~= s@);
    r
}

/// The level of a header element (see `header_level`).
fn heading(name: &str) -> (r: Option<usize>)
    ensures
        match r {
            Some(l) => header_level(name@) == Some(l as nat),
            None => header_level(name@) is None,
        },
{
    if str_eq(name, "h1") {
        Some(1)
    } else if str_eq(name, "h2") {
        Some(2)
    } else if str_eq(name, "h3") {
        Some(3)
    } else if str_eq(name, "h4") {
        Some(4)
    } else if str_eq(name, "h5") {
        Some(5)
    } else if str_eq(name, "h6") {
        Some(6)
    } else {
        None
    }
}

/// The block element that a node reads as (see `block_of`).
fn read_block(n: &HtmlNode, images: &Vec<(String, String)>) -> (r: Option<Block>)
    ensures
        opt_block(r) == block_of(*n, images@),
{
    let name = match &n.kind {
        HtmlKind::Element { name, .. } => name.as_str(),
        _ => {
            return None;
        },
    };
    match heading(name) {
        Some(level) => Some(Block::Header { level, content: read_inlines(&n.children, images) }),
        None => if str_eq(name, "hr") {
            Some(Block::HorizontalRule)
        } else if str_eq(name, "ul") {
            Some(Block::UnorderedList { items: read_list(&n.children, images) })
        } else if str_eq(name, "ol") {
            Some(Block::OrderedList { items: read_list(&n.children, images) })
        } else if str_eq(name, "p") {
            Some(Block::Paragraph(read_inlines(&n.children, images)))
        } else if str_eq(name, "table") {
            Some(Block::SimpleTable { body: read_table(&n.children, images) })
        } else if str_eq(name, "a") {
            match read_link(n) {
                Some(l) => {
                    proof {
                        lemma_one_inline(l);
                    }
                    let v = vec![l];
                    assert(v@ == seq![l]);
                    Some(Block::Paragraph(v))
                },
                None => None,
            }
        } else if str_eq(name, "div") {
            let highlight = match elem_attr_value(n, "class") {
                Some(c) => str_eq(c.as_str(), "highlight"),
                None => false,
            };
            if highlight {
                read_code_block(n)
            } else {
                None
            }
        } else if str_eq(name, "figure") {
            read_figure(n, images)
        } else if str_eq(name, "blockquote") {
            let content = one_block(Block::Paragraph(read_inlines(&n.children, images)));
            Some(Block::BlockQuote { content })
        } else {
            None
        },
    }
}

/// The block elements that nodes read as (see `blocks_of`).
fn read_blocks(s: &Vec<HtmlNode>, images: &Vec<(String, String)>) -> (r: Vec<Block>)
    ensures
        doc_blocks(r@) == blocks_of(s@, images@),
{
    let mut r: Vec<Block> = Vec::new();
    let mut i: usize = 0;
    assert(s@.take(0) =~= Seq::<HtmlNode>::empty());
    while i < s.len()
        invariant
            0 <= i <= s@.len(),
            doc_blocks(r@) == blocks_of(s@.take(i as int), images@),
        decreases s@.len() - i,
    {
        proof {
            assert(s@.take(i + 1).drop_last() =~= s@.take(i as int));
            assert(s@.take(i + 1).last() == s@[i as int]);
        }
        match read_block(&s[i], images) {
            Some(x) => {
                proof {
                    lemma_doc_blocks_push(r@, x);
                }
                r.push(x);
            },
            None => {},
        }
        i = i + 1;
    }
    assert(s@.take(s@.len() as int) =~= s@);
    r
}

/// The document that the nodes of a parsed HTML fragment read as: the
/// blocks that the nodes below its root element read as, in order.
pub fn read_document(nodes: &Vec<HtmlNode>, images: &Vec<(String, String)>) -> (r: Document)
    ensures
        r.version == spec_document_version(),
        doc_blocks(r.data@) == blocks_of(root_children(nodes@), images@),
{
    if nodes.len() > 0 {
        Document { version: document_version(), data: read_blocks(&nodes[0].children, images) }
    } else {
        Document { version: document_version(), data: Vec::new() }
    }
}

/// The document that the nodes of a parsed HTML fragment read as when the
/// fragment is inline text: one plain block of the inline elements that
/// the nodes below its root element read as.
pub fn read_inline_document(nodes: &Vec<HtmlNode>, images: &Vec<(String, String)>) -> (r:
    Document)
    ensures
        r.version == spec_document_version(),
        doc_blocks(r.data@) == seq![DocBlock::Plain(inlines_of(root_children(nodes@), images@))],
{
    let inlines = if nodes.len() > 0 {
        read_inlines(&nodes[0].children, images)
    } else {
        let v: Vec<Inline> = Vec::new();
        assert(doc_inlines(v@) == inlines_of(Seq::<HtmlNode>::empty(), images@));
        v
    };
    Document { version: document_version(), data: one_block(Block::Plain(inlines)) }
}

/// The document that an HTML text reads as (see `read_document`).
pub fn from_raw_html(input: &str, images: &Vec<(String, String)>) -> (r: Document)
    ensures
        r.version == spec_document_version(),
        exists|nodes: Seq<HtmlNode>|
            builds(fragment_events(input@), 0, fragment_events(input@).len() as int, nodes)
                && doc_blocks(r.data@) == blocks_of(root_children(nodes), images@),
{
    let nodes = parse_html(input);
    read_document(&nodes, images)
}

/// The document that an inline HTML text reads as (see
/// `read_inline_document`).
pub fn from_raw_html_inline(input: &str, images: &Vec<(String, String)>) -> (r: Document)
    ensures
        r.version == spec_document_version(),
        exists|nodes: Seq<HtmlNode>|
            builds(fragment_events(input@), 0, fragment_events(input@).len() as int, nodes)
                && doc_blocks(r.data@) == seq![DocBlock::Plain(inlines_of(root_children(nodes), images@))],
{
    let nodes = parse_html(input);
    read_inline_document(&nodes, images)
}

/// The document of a content's HTML, where it has any (see
/// `from_raw_html`); `images` gives the content's stored pictures.
pub fn convert_html(raw_html: &Option<String>, images: &Vec<(String, String)>) -> (r: Option<
    Document,
>)
    ensures
        r is Some <==> raw_html is Some,
        r is Some ==> r.unwrap().version == spec_document_version() && exists|nodes: Seq<HtmlNode>|
            builds(
                fragment_events(raw_html.unwrap()@),
                0,
                fragment_events(raw_html.unwrap()@).len() as int,
                nodes,
            ) && doc_blocks(r.unwrap().data@) == blocks_of(root_children(nodes), images@),
{
    match raw_html {
        Some(h) => Some(from_raw_html(h.as_str(), images)),
        None => None,
    }
}

} // verus!
