//! The document tree that the HTML of a content is read into.
use crate::meta::Version;
use vstd::prelude::*;

verus! {

/// The format version of stored documents.
pub open spec fn spec_document_version() -> Version {
    Version { major: 0, minor: 1 }
}

/// The format version of stored documents.
pub fn document_version() -> (r: Version)
    ensures
        r == spec_document_version(),
{
    Version { major: 0, minor: 1 }
}

/// Where the picture of an image is.
#[derive(Debug, Clone)]
pub enum Image {
    /// Not downloaded: the address on the site.
    Url(String),
    /// Downloaded: its path in the image store.
    Local(String),
}

/// Inline elements of a document.
#[derive(Debug)]
pub enum Inline {
    Text(String),
    Emphasis(Vec<Inline>),
    Strong(Vec<Inline>),
    Break,
    Math { tex_code: String },
    Code { code: String },
    Image { alt_text: Option<String>, description: Option<Vec<Inline>>, src: Image },
    Link { description: Option<Vec<Inline>>, target: String },
    Note { content: Vec<Block> },
}

/// Block elements of a document.
#[derive(Debug)]
pub enum Block {
    Header { level: usize, content: Vec<Inline> },
    HorizontalRule,
    Plain(Vec<Inline>),
    Paragraph(Vec<Inline>),
    CodeBlock { language: Option<String>, code: String },
    Figure { alt_text: Option<String>, description: Option<Vec<Inline>>, src: Image },
    /// Rows of cells, each cell a sequence of blocks.
    SimpleTable { body: Vec<Vec<Vec<Block>>> },
    BlockQuote { content: Vec<Block> },
    UnorderedList { items: Vec<Vec<Block>> },
    OrderedList { items: Vec<Vec<Block>> },
}

/// A document: its format version and its blocks.
#[derive(Debug)]
pub struct Document {
    pub version: Version,
    pub data: Vec<Block>,
}

/// The model of an image: the address of a picture, or the stored picture
/// that stands for it.
pub enum DocImage {
    Url(Seq<char>),
    Local(Seq<char>),
}

/// The model of an inline element, with texts as character sequences.
pub enum DocInline {
    Text(Seq<char>),
    Emphasis(Seq<DocInline>),
    Strong(Seq<DocInline>),
    Break,
    Math(Seq<char>),
    Code(Seq<char>),
    Image { alt_text: Option<Seq<char>>, description: Option<Seq<DocInline>>, src: DocImage },
    Link { description: Option<Seq<DocInline>>, target: Seq<char> },
    Note(Seq<DocBlock>),
}

/// The model of a block element, with texts as character sequences.
pub enum DocBlock {
    Header { level: nat, content: Seq<DocInline> },
    HorizontalRule,
    Plain(Seq<DocInline>),
    Paragraph(Seq<DocInline>),
    CodeBlock { language: Option<Seq<char>>, code: Seq<char> },
    Figure { alt_text: Option<Seq<char>>, description: Option<Seq<DocInline>>, src: DocImage },
    SimpleTable(Seq<Seq<Seq<DocBlock>>>),
    BlockQuote(Seq<DocBlock>),
    UnorderedList(Seq<Seq<DocBlock>>),
    OrderedList(Seq<Seq<DocBlock>>),
}

/// The model of an image.
pub open spec fn doc_image(i: Image) -> DocImage {
    match i {
        Image::Url(u) => DocImage::Url(u@),
        Image::Local(p) => DocImage::Local(p@),
    }
}

/// The model of an optional text.
pub open spec fn doc_text(t: Option<String>) -> Option<Seq<char>> {
    match t {
        Some(s) => Some(s@),
        None => None,
    }
}

/// The model of an inline element.
pub open spec fn doc_inline(i: Inline) -> DocInline
    decreases i,
{
    match i {
        Inline::Text(t) => DocInline::Text(t@),
        Inline::Emphasis(e) => DocInline::Emphasis(doc_inlines(e@)),
        Inline::Strong(e) => DocInline::Strong(doc_inlines(e@)),
        Inline::Break => DocInline::Break,
        Inline::Math { tex_code } => DocInline::Math(tex_code@),
        Inline::Code { code } => DocInline::Code(code@),
        Inline::Image { alt_text, description, src } => DocInline::Image {
            alt_text: doc_text(alt_text),
            description: match description {
                Some(d) => Some(doc_inlines(d@)),
                None => None,
            },
            src: doc_image(src),
        },
        Inline::Link { description, target } => DocInline::Link {
            description: match description {
                Some(d) => Some(doc_inlines(d@)),
                None => None,
            },
            target: target@,
        },
        Inline::Note { content } => DocInline::Note(doc_blocks(content@)),
    }
}

/// The models of a sequence of inline elements.
pub open spec fn doc_inlines(s: Seq<Inline>) -> Seq<DocInline>
    decreases s,
{
    if s.len() == 0 {
        seq![]
    } else {
        doc_inlines(s.subrange(0, s.len() - 1)).push(doc_inline(s[s.len() - 1]))
    }
}

/// The model of a block element.
pub open spec fn doc_block(b: Block) -> DocBlock
    decreases b,
{
    match b {
        Block::Header { level, content } => DocBlock::Header {
            level: level as nat,
            content: doc_inlines(content@),
        },
        Block::HorizontalRule => DocBlock::HorizontalRule,
        Block::Plain(l) => DocBlock::Plain(doc_inlines(l@)),
        Block::Paragraph(l) => DocBlock::Paragraph(doc_inlines(l@)),
        Block::CodeBlock { language, code } => DocBlock::CodeBlock {
            language: doc_text(language),
            code: code@,
        },
        Block::Figure { alt_text, description, src } => DocBlock::Figure {
            alt_text: doc_text(alt_text),
            description: match description {
                Some(d) => Some(doc_inlines(d@)),
                None => None,
            },
            src: doc_image(src),
        },
        Block::SimpleTable { body } => DocBlock::SimpleTable(doc_rows(body@)),
        Block::BlockQuote { content } => DocBlock::BlockQuote(doc_blocks(content@)),
        Block::UnorderedList { items } => DocBlock::UnorderedList(doc_block_lists(items@)),
        Block::OrderedList { items } => DocBlock::OrderedList(doc_block_lists(items@)),
    }
}

/// The models of a sequence of block elements.
pub open spec fn doc_blocks(s: Seq<Block>) -> Seq<DocBlock>
    decreases s,
{
    if s.len() == 0 {
        seq![]
    } else {
        doc_blocks(s.subrange(0, s.len() - 1)).push(doc_block(s[s.len() - 1]))
    }
}

/// The models of a sequence of block sequences.
pub open spec fn doc_block_lists(s: Seq<Vec<Block>>) -> Seq<Seq<DocBlock>>
    decreases s,
{
    if s.len() == 0 {
        seq![]
    } else {
        doc_block_lists(s.subrange(0, s.len() - 1)).push(doc_blocks(s[s.len() - 1]@))
    }
}

/// The models of table rows.
pub open spec fn doc_rows(s: Seq<Vec<Vec<Block>>>) -> Seq<Seq<Seq<DocBlock>>>
    decreases s,
{
    if s.len() == 0 {
        seq![]
    } else {
        doc_rows(s.subrange(0, s.len() - 1)).push(doc_block_lists(s[s.len() - 1]@))
    }
}

/// Appending an inline element appends its model.
pub proof fn lemma_doc_inlines_push(s: Seq<Inline>, x: Inline)
    ensures
        doc_inlines(s.push(x)) == doc_inlines(s).push(doc_inline(x)),
{
    assert(s.push(x).subrange(0, s.len() as int) =~= s);
}

/// Appending a block element appends its model.
pub proof fn lemma_doc_blocks_push(s: Seq<Block>, x: Block)
    ensures
        doc_blocks(s.push(x)) == doc_blocks(s).push(doc_block(x)),
{
    assert(s.push(x).subrange(0, s.len() as int) =~= s);
}

/// Appending a block sequence appends its model.
pub proof fn lemma_doc_block_lists_push(s: Seq<Vec<Block>>, x: Vec<Block>)
    ensures
        doc_block_lists(s.push(x)) == doc_block_lists(s).push(doc_blocks(x@)),
{
    assert(s.push(x).subrange(0, s.len() as int) =~= s);
}

/// Appending a row appends its model.
pub proof fn lemma_doc_rows_push(s: Seq<Vec<Vec<Block>>>, x: Vec<Vec<Block>>)
    ensures
        doc_rows(s.push(x)) == doc_rows(s).push(doc_block_lists(x@)),
{
    assert(s.push(x).subrange(0, s.len() as int) =~= s);
}

/// The models of two row sequences one after the other.
pub proof fn lemma_doc_rows_append(a: Seq<Vec<Vec<Block>>>, b: Seq<Vec<Vec<Block>>>)
    ensures
        doc_rows(a + b) == doc_rows(a) + doc_rows(b),
    decreases b.len(),
{
    if b.len() == 0 {
        assert(a + b =~= a);
        assert(doc_rows(a) + doc_rows(b) =~= doc_rows(a));
    } else {
        lemma_doc_rows_append(a, b.drop_last());
        assert(a + b =~= (a + b.drop_last()).push(b.last()));
        lemma_doc_rows_push(a + b.drop_last(), b.last());
        lemma_doc_rows_push(b.drop_last(), b.last());
        assert(b.drop_last().push(b.last()) =~= b);
        assert(doc_rows(a) + doc_rows(b.drop_last()).push(doc_block_lists(b.last()@)) =~= (doc_rows(
            a,
        ) + doc_rows(b.drop_last())).push(doc_block_lists(b.last()@)));
    }
}

} // verus!
