//! Conversion of documents into pandoc's document tree.
//!
//! The conversion is total and structural: every block becomes one pandoc
//! block and every inline one or more pandoc inlines; text is split into
//! words, spaces and soft breaks.
use crate::element::content::document::{Block, Document, Image, Inline};
use crate::util::text::push_char;
use vstd::prelude::*;

verus! {

// ----------------------------------------------------------------------------
// The pandoc tree
// ----------------------------------------------------------------------------

/// A pandoc inline element.
#[derive(Debug)]
pub enum PandocInline {
    Str(String),
    Space,
    SoftBreak,
    LineBreak,
    Emph(Vec<PandocInline>),
    Strong(Vec<PandocInline>),
    Code(String),
    /// Inline math.
    Math(String),
    Link { content: Vec<PandocInline>, target: String },
    Image { alt: Vec<PandocInline>, src: String, title: String },
    Note(Vec<PandocBlock>),
}

/// A pandoc block element. Attributes not listed are pandoc's defaults.
#[derive(Debug)]
pub enum PandocBlock {
    Plain(Vec<PandocInline>),
    Para(Vec<PandocInline>),
    CodeBlock { classes: Vec<String>, code: String },
    Header { level: usize, content: Vec<PandocInline> },
    HorizontalRule,
    BlockQuote(Vec<PandocBlock>),
    /// Numbered from 1, in the default style and delimiter.
    OrderedList(Vec<Vec<PandocBlock>>),
    BulletList(Vec<Vec<PandocBlock>>),
    /// A table without head, caption or foot: `columns` default-aligned
    /// columns and one body whose rows hold one cell per block sequence.
    Table { columns: usize, rows: Vec<Vec<Vec<PandocBlock>>> },
}

/// A pandoc document: its blocks, for API version 1.22, without metadata.
#[derive(Debug)]
pub struct PandocDocument {
    pub blocks: Vec<PandocBlock>,
}

/// The mathematical value of a pandoc inline.
pub enum InlineModel {
    Str(Seq<char>),
    Space,
    SoftBreak,
    LineBreak,
    Emph(Seq<InlineModel>),
    Strong(Seq<InlineModel>),
    Code(Seq<char>),
    Math(Seq<char>),
    Link { content: Seq<InlineModel>, target: Seq<char> },
    Image { alt: Seq<InlineModel>, src: Seq<char>, title: Seq<char> },
    Note(Seq<BlockModel>),
}

/// The mathematical value of a pandoc block.
pub enum BlockModel {
    Plain(Seq<InlineModel>),
    Para(Seq<InlineModel>),
    CodeBlock { classes: Seq<Seq<char>>, code: Seq<char> },
    Header { level: nat, content: Seq<InlineModel> },
    HorizontalRule,
    BlockQuote(Seq<BlockModel>),
    OrderedList(Seq<Seq<BlockModel>>),
    BulletList(Seq<Seq<BlockModel>>),
    Table { columns: nat, rows: Seq<Seq<Seq<BlockModel>>> },
}

/// The value of a pandoc inline.
pub open spec fn inline_model(x: PandocInline) -> InlineModel
    decreases x,
{
    match x {
        PandocInline::Str(s) => InlineModel::Str(s@),
        PandocInline::Space => InlineModel::Space,
        PandocInline::SoftBreak => InlineModel::SoftBreak,
        PandocInline::LineBreak => InlineModel::LineBreak,
        PandocInline::Emph(v) => InlineModel::Emph(inlines_model(v@)),
        PandocInline::Strong(v) => InlineModel::Strong(inlines_model(v@)),
        PandocInline::Code(s) => InlineModel::Code(s@),
        PandocInline::Math(s) => InlineModel::Math(s@),
        PandocInline::Link { content, target } => InlineModel::Link {
            content: inlines_model(content@),
            target: target@,
        },
        PandocInline::Image { alt, src, title } => InlineModel::Image {
            alt: inlines_model(alt@),
            src: src@,
            title: title@,
        },
        PandocInline::Note(v) => InlineModel::Note(blocks_model(v@)),
    }
}

/// The values of a sequence of pandoc inlines.
pub open spec fn inlines_model(s: Seq<PandocInline>) -> Seq<InlineModel>
    decreases s,
{
    if s.len() == 0 {
        seq![]
    } else {
        inlines_model(s.subrange(0, s.len() - 1)).push(inline_model(s[s.len() - 1]))
    }
}

/// The value of a pandoc block.
pub open spec fn block_model(x: PandocBlock) -> BlockModel
    decreases x,
{
    match x {
        PandocBlock::Plain(v) => BlockModel::Plain(inlines_model(v@)),
        PandocBlock::Para(v) => BlockModel::Para(inlines_model(v@)),
        PandocBlock::CodeBlock { classes, code } => BlockModel::CodeBlock {
            classes: classes@.map_values(|c: String| c@),
            code: code@,
        },
        PandocBlock::Header { level, content } => BlockModel::Header {
            level: level as nat,
            content: inlines_model(content@),
        },
        PandocBlock::HorizontalRule => BlockModel::HorizontalRule,
        PandocBlock::BlockQuote(v) => BlockModel::BlockQuote(blocks_model(v@)),
        PandocBlock::OrderedList(v) => BlockModel::OrderedList(block_lists_model(v@)),
        PandocBlock::BulletList(v) => BlockModel::BulletList(block_lists_model(v@)),
        PandocBlock::Table { columns, rows } => BlockModel::Table {
            columns: columns as nat,
            rows: rows_model(rows@),
        },
    }
}

/// The values of a sequence of pandoc blocks.
pub open spec fn blocks_model(s: Seq<PandocBlock>) -> Seq<BlockModel>
    decreases s,
{
    if s.len() == 0 {
        seq![]
    } else {
        blocks_model(s.subrange(0, s.len() - 1)).push(block_model(s[s.len() - 1]))
    }
}

/// The values of a sequence of block sequences.
pub open spec fn block_lists_model(s: Seq<Vec<PandocBlock>>) -> Seq<Seq<BlockModel>>
    decreases s,
{
    if s.len() == 0 {
        seq![]
    } else {
        block_lists_model(s.subrange(0, s.len() - 1)).push(blocks_model(s[s.len() - 1]@))
    }
}

/// The values of table rows.
pub open spec fn rows_model(s: Seq<Vec<Vec<PandocBlock>>>) -> Seq<Seq<Seq<BlockModel>>>
    decreases s,
{
    if s.len() == 0 {
        seq![]
    } else {
        rows_model(s.subrange(0, s.len() - 1)).push(block_lists_model(s[s.len() - 1]@))
    }
}

// ----------------------------------------------------------------------------
// Text
// ----------------------------------------------------------------------------

/// Whether a character is white space in Unicode (the `White_Space` property).
pub open spec fn spec_is_whitespace(c: char) -> bool {
    let n = c as u32;
    ||| 0x9 <= n <= 0xd
    ||| n == 0x20
    ||| n == 0x85
    ||| n == 0xa0
    ||| n == 0x1680
    ||| 0x2000 <= n <= 0x200a
    ||| n == 0x2028
    ||| n == 0x2029
    ||| n == 0x202f
    ||| n == 0x205f
    ||| n == 0x3000
}

/// Whether a character is white space in Unicode, as `char::is_whitespace`.
pub fn is_whitespace(c: char) -> (r: bool)
    ensures
        r == spec_is_whitespace(c),
{
    let n = c as u32;
    (0x9 <= n && n <= 0xd) || n == 0x20 || n == 0x85 || n == 0xa0 || n == 0x1680 || (0x2000 <= n
        && n <= 0x200a) || n == 0x2028 || n == 0x2029 || n == 0x202f || n == 0x205f || n == 0x3000
}

/// The maximal runs of adjacent characters that agree on being white space,
/// in order.
pub open spec fn runs(s: Seq<char>) -> Seq<Seq<char>>
    decreases s.len(),
{
    if s.len() == 0 {
        seq![]
    } else {
        let g = runs(s.drop_last());
        let c = s.last();
        if g.len() > 0 && spec_is_whitespace(g.last().last()) == spec_is_whitespace(c) {
            g.update(g.len() - 1, g.last().push(c))
        } else {
            g.push(seq![c])
        }
    }
}

/// The pandoc inline of one run: a soft break where it holds a newline or a
/// tab, a space where it holds other white space, the word otherwise.
pub open spec fn run_token(r: Seq<char>) -> InlineModel {
    if r.contains('\n') || r.contains('\t') {
        InlineModel::SoftBreak
    } else if exists|i: int| 0 <= i < r.len() && spec_is_whitespace(#[trigger] r[i]) {
        InlineModel::Space
    } else {
        InlineModel::Str(r)
    }
}

/// The pandoc inlines of a text.
pub open spec fn text_model(s: Seq<char>) -> Seq<InlineModel> {
    runs(s).map_values(|r: Seq<char>| run_token(r))
}

proof fn lemma_inlines_model_push(s: Seq<PandocInline>, x: PandocInline)
    ensures
        inlines_model(s.push(x)) == inlines_model(s).push(inline_model(x)),
{
    assert(s.push(x).subrange(0, s.len() as int) =~= s);
}

/// Appends the token of one run.
fn push_run(run: String, has_break: bool, white: bool, dest: &mut Vec<PandocInline>)
    requires
        run@.len() > 0,
        forall|j: int| 0 <= j < run@.len() ==> spec_is_whitespace(#[trigger] run@[j]) == white,
        has_break == (run@.contains('\n') || run@.contains('\t')),
    ensures
        inlines_model(final(dest)@) == inlines_model(old(dest)@).push(run_token(run@)),
{
    let ghost r = run@;
    let t = if has_break {
        PandocInline::SoftBreak
    } else if white {
        assert(spec_is_whitespace(r[0]));
        PandocInline::Space
    } else {
        PandocInline::Str(run)
    };
    proof {
        lemma_inlines_model_push(dest@, t);
    }
    dest.push(t);
}

/// Splits a text into words, spaces and soft breaks, appended to `dest`.
pub fn text(input: &str, dest: &mut Vec<PandocInline>)
    ensures
        inlines_model(final(dest)@) == inlines_model(old(dest)@) + text_model(input@),
{
    broadcast use vstd::string::group_string_axioms;

    let ghost s = input@;
    let ghost d0 = inlines_model(dest@);
    let mut cur = String::new();
    let mut white = false;
    let mut has_break = false;
    let mut started = false;
    for c in it: input.chars()
        invariant
            it.seq() == s,
            started == (it.index() > 0),
            started ==> {
                let g = runs(s.subrange(0, it.index() as int));
                &&& g.len() > 0
                &&& g.last() == cur@
                &&& cur@.len() > 0
                &&& forall|j: int| 0 <= j < cur@.len() ==> spec_is_whitespace(#[trigger] cur@[j]) == white
                &&& has_break == (cur@.contains('\n') || cur@.contains('\t'))
                &&& inlines_model(dest@) == d0 + g.drop_last().map_values(|r: Seq<char>| run_token(r))
            },
            !started ==> inlines_model(dest@) == d0,
    {
        let ghost i = it.index();
        let ghost p = s.subrange(0, i as int);
        let ghost q = s.subrange(0, i + 1);
        assert(q.drop_last() =~= p);
        assert(q.last() == c);
        let w = is_whitespace(c);
        let brk = c == '\n' || c == '\t';
        if started && w == white {
            let ghost g = runs(p);
            push_char(&mut cur, c);
            has_break = has_break || brk;
            proof {
                assert(runs(q) == g.update(g.len() - 1, g.last().push(c)));
                assert(runs(q).drop_last() =~= g.drop_last());
                assert(cur@ =~= g.last().push(c));
                if brk {
                    assert(cur@[cur@.len() - 1] == c);
                }
                if has_break && !brk {
                    if g.last().contains('\n') {
                        let k = choose|k: int| 0 <= k < g.last().len() && g.last()[k] == '\n';
                        assert(cur@[k] == '\n');
                    } else {
                        let k = choose|k: int| 0 <= k < g.last().len() && g.last()[k] == '\t';
                        assert(cur@[k] == '\t');
                    }
                }
                if !has_break {
                    assert forall|k: int| 0 <= k < cur@.len() implies cur@[k] != '\n' && cur@[k] != '\t' by {
                        if k < g.last().len() {
                            assert(cur@[k] == g.last()[k]);
                        }
                    }
                }
            }
        } else {
            if started {
                let ghost g = runs(p);
                push_run(cur, has_break, white, dest);
                proof {
                    assert(g.drop_last().push(g.last()) =~= g);
                    assert(g.map_values(|r: Seq<char>| run_token(r)) =~= g.drop_last().map_values(
                        |r: Seq<char>| run_token(r),
                    ).push(run_token(g.last())));
                    assert(runs(q) == g.push(seq![c]));
                    assert(runs(q).drop_last() =~= g);
                    assert(inlines_model(dest@) =~= d0 + g.map_values(|r: Seq<char>| run_token(r)));
                }
            } else {
                proof {
                    assert(p =~= Seq::<char>::empty());
                    assert(runs(p) =~= Seq::<Seq<char>>::empty());
                    assert(runs(q) =~= seq![seq![c]]);
                    assert(runs(q).drop_last() =~= Seq::<Seq<char>>::empty());
                    assert(d0 + Seq::<InlineModel>::empty() =~= d0);
                }
            }
            cur = String::new();
            push_char(&mut cur, c);
            white = w;
            has_break = brk;
            started = true;
            proof {
                assert(cur@ =~= seq![c]);
                if !brk {
                    assert(!cur@.contains('\n'));
                    assert(!cur@.contains('\t'));
                } else {
                    assert(cur@[0] == c);
                }
            }
        }
    }
    proof {
        assert(s.subrange(0, s.len() as int) =~= s);
    }
    if started {
        let ghost g = runs(s);
        push_run(cur, has_break, white, dest);
        proof {
            assert(g.drop_last().push(g.last()) =~= g);
            assert(g.map_values(|r: Seq<char>| run_token(r)) =~= g.drop_last().map_values(
                |r: Seq<char>| run_token(r),
            ).push(run_token(g.last())));
            assert(inlines_model(dest@) =~= d0 + text_model(s));
        }
    } else {
        proof {
            assert(runs(s) =~= Seq::<Seq<char>>::empty());
            assert(d0 + text_model(s) =~= d0);
        }
    }
}


// ----------------------------------------------------------------------------
// What the conversion gives
// ----------------------------------------------------------------------------

/// The plain text of an inline: text as written, a break as a newline, code
/// and math as written, emphasis and links by their text, an image by its
/// alternative text; a note gives nothing.
pub open spec fn inline_text(i: Inline) -> Seq<char>
    decreases i,
{
    match i {
        Inline::Text(t) => t@,
        Inline::Break => seq!['\n'],
        Inline::Code { code } => code@,
        Inline::Emphasis(e) => inlines_text(e@),
        Inline::Strong(e) => inlines_text(e@),
        Inline::Math { tex_code } => tex_code@,
        Inline::Note { .. } => seq![],
        Inline::Image { alt_text, .. } => match alt_text {
            Some(t) => t@,
            None => seq![],
        },
        Inline::Link { description, .. } => match description {
            Some(d) => inlines_text(d@),
            None => seq![],
        },
    }
}

/// The plain text of a sequence of inlines, one after the other.
pub open spec fn inlines_text(s: Seq<Inline>) -> Seq<char>
    decreases s,
{
    if s.len() == 0 {
        seq![]
    } else {
        inlines_text(s.subrange(0, s.len() - 1)) + inline_text(s[s.len() - 1])
    }
}

/// Where the picture of an image is taken from.
pub open spec fn image_source(src: Image) -> Seq<char> {
    match src {
        Image::Url(u) => u@,
        Image::Local(p) => p@,
    }
}

/// The pandoc image of an image: its alternative text split into words, its
/// source, and the plain text of its description as title.
pub open spec fn image_model(
    alt_text: Option<String>,
    description: Option<Vec<Inline>>,
    src: Image,
) -> InlineModel {
    InlineModel::Image {
        alt: match alt_text {
            Some(a) => text_model(a@),
            None => seq![],
        },
        src: image_source(src),
        title: match description {
            Some(d) => inlines_text(d@),
            None => seq![],
        },
    }
}

/// The pandoc inlines of an inline.
pub open spec fn conv_inline(i: Inline) -> Seq<InlineModel>
    decreases i,
{
    match i {
        Inline::Break => seq![InlineModel::LineBreak],
        Inline::Code { code } => seq![InlineModel::Code(code@)],
        Inline::Emphasis(e) => seq![InlineModel::Emph(conv_inlines(e@))],
        Inline::Image { alt_text, description, src } => seq![
            image_model(alt_text, description, src),
        ],
        Inline::Link { description, target } => seq![
            InlineModel::Link {
                content: match description {
                    Some(d) => conv_inlines(d@),
                    None => seq![],
                },
                target: target@,
            },
        ],
        Inline::Math { tex_code } => seq![InlineModel::Math(tex_code@)],
        Inline::Note { content } => seq![InlineModel::Note(conv_blocks(content@))],
        Inline::Strong(e) => seq![InlineModel::Strong(conv_inlines(e@))],
        Inline::Text(t) => text_model(t@),
    }
}

/// The pandoc inlines of a sequence of inlines, one after the other.
pub open spec fn conv_inlines(s: Seq<Inline>) -> Seq<InlineModel>
    decreases s,
{
    if s.len() == 0 {
        seq![]
    } else {
        conv_inlines(s.subrange(0, s.len() - 1)) + conv_inline(s[s.len() - 1])
    }
}

/// The largest number of cells in a row of a table.
pub open spec fn max_row_len(rows: Seq<Vec<Vec<Block>>>) -> nat
    decreases rows.len(),
{
    if rows.len() == 0 {
        0
    } else {
        let m = max_row_len(rows.drop_last());
        let n = rows.last()@.len();
        if n > m {
            n
        } else {
            m
        }
    }
}

/// The pandoc block of a block.
pub open spec fn conv_block(b: Block) -> BlockModel
    decreases b,
{
    match b {
        Block::BlockQuote { content } => BlockModel::BlockQuote(conv_blocks(content@)),
        Block::CodeBlock { language, code } => BlockModel::CodeBlock {
            classes: match language {
                Some(l) => seq![l@],
                None => seq![],
            },
            code: code@,
        },
        Block::Figure { alt_text, description, src } => BlockModel::Para(
            seq![image_model(alt_text, description, src)],
        ),
        Block::Header { level, content } => BlockModel::Header {
            level: level as nat,
            content: conv_inlines(content@),
        },
        Block::HorizontalRule => BlockModel::HorizontalRule,
        Block::OrderedList { items } => BlockModel::OrderedList(conv_block_lists(items@)),
        Block::Paragraph(l) => BlockModel::Para(conv_inlines(l@)),
        Block::Plain(l) => BlockModel::Plain(conv_inlines(l@)),
        Block::SimpleTable { body } => BlockModel::Table {
            columns: max_row_len(body@),
            rows: conv_rows(body@),
        },
        Block::UnorderedList { items } => BlockModel::BulletList(conv_block_lists(items@)),
    }
}

/// How an inline converts to pandoc: emphasis to one `Emph` and strong
/// text to one `Strong`, each holding its converted content; code to
/// `Code`, math to `Math` and a note to `Note` of its converted blocks, each
/// carrying what the inline carries; a break to a line break; a link to a
/// `Link` to the same target. Conversely only emphasis converts to `Emph`
/// and only strong text to `Strong`, so the two stay apart.
pub proof fn lemma_inline_kinds(i: Inline)
    ensures
        i matches Inline::Emphasis(e) ==> conv_inline(i) == seq![InlineModel::Emph(conv_inlines(e@))],
        i matches Inline::Strong(e) ==> conv_inline(i) == seq![InlineModel::Strong(conv_inlines(e@))],
        i matches Inline::Code { code } ==> conv_inline(i) == seq![InlineModel::Code(code@)],
        i matches Inline::Math { tex_code } ==> conv_inline(i) == seq![InlineModel::Math(tex_code@)],
        i matches Inline::Note { content } ==> conv_inline(i) == seq![InlineModel::Note(conv_blocks(content@))],
        i is Break ==> conv_inline(i) == seq![InlineModel::LineBreak],
        i matches Inline::Link { target, .. } ==> (conv_inline(i).len() == 1 && (conv_inline(i)[0] matches InlineModel::Link { target: t, .. } && t == target@)),
        forall|k: int| 0 <= k < conv_inline(i).len() && #[trigger] conv_inline(i)[k] is Emph ==> i is Emphasis,
        forall|k: int| 0 <= k < conv_inline(i).len() && #[trigger] conv_inline(i)[k] is Strong ==> i is Strong,
{
    if let Inline::Text(t) = i {
        assert forall|k: int| 0 <= k < conv_inline(i).len() implies !(#[trigger] conv_inline(i)[k] is Emph) && !(conv_inline(i)[k] is Strong) by {
            assert(conv_inline(i)[k] == run_token(runs(t@)[k]));
        }
    }
}

/// Converting blocks gives one pandoc block per block, in the same order.
pub proof fn lemma_blocks_in_order(s: Seq<Block>)
    ensures
        conv_blocks(s).len() == s.len(),
        forall|i: int| 0 <= i < s.len() ==> #[trigger] conv_blocks(s)[i] == conv_block(s[i]),
    decreases s.len(),
{
    if s.len() > 0 {
        let init = s.subrange(0, s.len() - 1);
        lemma_blocks_in_order(init);
        assert forall|i: int| 0 <= i < s.len() implies #[trigger] conv_blocks(s)[i] == conv_block(s[i]) by {
            if i < s.len() - 1 {
                assert(init[i] == s[i]);
            }
        }
    }
}

/// How a block converts to pandoc: a paragraph to `Para` and plain text to
/// `Plain` of its converted inlines, a header to a `Header` of the same
/// level, an ordered list to an `OrderedList` and an unordered list to a
/// `BulletList` of its converted items, a quote to a `BlockQuote`, a rule to
/// a rule. Conversely only an ordered list converts to an `OrderedList`,
/// only an unordered one to a `BulletList`, and only plain text to `Plain`.
pub proof fn lemma_block_kinds(b: Block)
    ensures
        b matches Block::Paragraph(l) ==> conv_block(b) == BlockModel::Para(conv_inlines(l@)),
        b matches Block::Plain(l) ==> conv_block(b) == BlockModel::Plain(conv_inlines(l@)),
        b matches Block::Header { level, content } ==> conv_block(b) == (BlockModel::Header {
            level: level as nat,
            content: conv_inlines(content@),
        }),
        b matches Block::OrderedList { items } ==> conv_block(b) == BlockModel::OrderedList(conv_block_lists(items@)),
        b matches Block::UnorderedList { items } ==> conv_block(b) == BlockModel::BulletList(conv_block_lists(items@)),
        b matches Block::BlockQuote { content } ==> conv_block(b) == BlockModel::BlockQuote(conv_blocks(content@)),
        b is HorizontalRule ==> conv_block(b) == BlockModel::HorizontalRule,
        conv_block(b) is OrderedList ==> b is OrderedList,
        conv_block(b) is BulletList ==> b is UnorderedList,
        conv_block(b) is Plain ==> b is Plain,
{
}

/// The pandoc blocks of a sequence of blocks.
pub open spec fn conv_blocks(s: Seq<Block>) -> Seq<BlockModel>
    decreases s,
{
    if s.len() == 0 {
        seq![]
    } else {
        conv_blocks(s.subrange(0, s.len() - 1)).push(conv_block(s[s.len() - 1]))
    }
}

/// The pandoc block sequences of a sequence of block sequences.
pub open spec fn conv_block_lists(s: Seq<Vec<Block>>) -> Seq<Seq<BlockModel>>
    decreases s,
{
    if s.len() == 0 {
        seq![]
    } else {
        conv_block_lists(s.subrange(0, s.len() - 1)).push(conv_blocks(s[s.len() - 1]@))
    }
}

/// The pandoc rows of table rows.
pub open spec fn conv_rows(s: Seq<Vec<Vec<Block>>>) -> Seq<Seq<Seq<BlockModel>>>
    decreases s,
{
    if s.len() == 0 {
        seq![]
    } else {
        conv_rows(s.subrange(0, s.len() - 1)).push(conv_block_lists(s[s.len() - 1]@))
    }
}


// ----------------------------------------------------------------------------
// The conversion
// ----------------------------------------------------------------------------

proof fn lemma_blocks_model_push(s: Seq<PandocBlock>, x: PandocBlock)
    ensures
        blocks_model(s.push(x)) == blocks_model(s).push(block_model(x)),
{
    assert(s.push(x).subrange(0, s.len() as int) =~= s);
}

proof fn lemma_block_lists_model_push(s: Seq<Vec<PandocBlock>>, x: Vec<PandocBlock>)
    ensures
        block_lists_model(s.push(x)) == block_lists_model(s).push(blocks_model(x@)),
{
    assert(s.push(x).subrange(0, s.len() as int) =~= s);
}

proof fn lemma_rows_model_push(s: Seq<Vec<Vec<PandocBlock>>>, x: Vec<Vec<PandocBlock>>)
    ensures
        rows_model(s.push(x)) == rows_model(s).push(block_lists_model(x@)),
{
    assert(s.push(x).subrange(0, s.len() as int) =~= s);
}

/// Appends one pandoc inline.
fn push_inline(dest: &mut Vec<PandocInline>, x: PandocInline)
    ensures
        inlines_model(final(dest)@) == inlines_model(old(dest)@) + seq![inline_model(x)],
{
    proof {
        lemma_inlines_model_push(dest@, x);
        assert(inlines_model(dest@).push(inline_model(x)) =~= inlines_model(dest@) + seq![
            inline_model(x),
        ]);
    }
    dest.push(x);
}

/// Appends the plain text of an inline.
fn inline_to_text(inline: &Inline, dest: &mut String)
    ensures
        final(dest)@ == old(dest)@ + inline_text(*inline),
    decreases inline,
{
    match inline {
        Inline::Text(t) => dest.append(t.as_str()),
        Inline::Break => push_char(dest, '\n'),
        Inline::Code { code } => dest.append(code.as_str()),
        Inline::Emphasis(e) => inlines_to_text(e, dest),
        Inline::Strong(e) => inlines_to_text(e, dest),
        Inline::Math { tex_code } => dest.append(tex_code.as_str()),
        Inline::Note { .. } => {
            assert(dest@ + Seq::<char>::empty() =~= dest@);
        },
        Inline::Image { alt_text, .. } => match alt_text {
            Some(t) => dest.append(t.as_str()),
            None => {
                assert(dest@ + Seq::<char>::empty() =~= dest@);
            },
        },
        Inline::Link { description, .. } => match description {
            Some(d) => inlines_to_text(d, dest),
            None => {
                assert(dest@ + Seq::<char>::empty() =~= dest@);
            },
        },
    }
}

/// Appends the plain text of a sequence of inlines.
fn inlines_to_text(v: &Vec<Inline>, dest: &mut String)
    ensures
        final(dest)@ == old(dest)@ + inlines_text(v@),
    decreases v,
{
    let ghost d0 = dest@;
    let mut k: usize = 0;
    assert(d0 + inlines_text(v@.subrange(0, 0)) =~= d0);
    while k < v.len()
        invariant
            0 <= k <= v.len(),
            dest@ == d0 + inlines_text(v@.subrange(0, k as int)),
        decreases v.len() - k,
    {
        proof {
            assert(v@.subrange(0, k + 1).subrange(0, k as int) =~= v@.subrange(0, k as int));
        }
        inline_to_text(&v[k], dest);
        proof {
            assert(dest@ =~= d0 + inlines_text(v@.subrange(0, k + 1)));
        }
        k = k + 1;
    }
    assert(v@.subrange(0, v.len() as int) =~= v@);
}

/// The pandoc image of an image.
fn proc_image(alt_text: &Option<String>, description: &Option<Vec<Inline>>, src: &Image) -> (r:
    PandocInline)
    ensures
        inline_model(r) == image_model(*alt_text, *description, *src),
{
    let alt = match alt_text {
        Some(a) => {
            let mut d: Vec<PandocInline> = Vec::new();
            text(a.as_str(), &mut d);
            assert(inlines_model(Seq::<PandocInline>::empty()) + text_model(a@) =~= text_model(
                a@,
            ));
            d
        },
        None => Vec::new(),
    };
    let source = match src {
        Image::Url(u) => u.clone(),
        Image::Local(p) => p.clone(),
    };
    let title = match description {
        Some(d) => {
            let mut t = String::new();
            inlines_to_text(d, &mut t);
            assert(Seq::<char>::empty() + inlines_text(d@) =~= inlines_text(d@));
            t
        },
        None => String::new(),
    };
    PandocInline::Image { alt, src: source, title }
}

/// Appends the pandoc inlines of an inline.
fn proc_inline(inline: &Inline, dest: &mut Vec<PandocInline>)
    ensures
        inlines_model(final(dest)@) == inlines_model(old(dest)@) + conv_inline(*inline),
    decreases inline,
{
    match inline {
        Inline::Break => push_inline(dest, PandocInline::LineBreak),
        Inline::Code { code } => push_inline(dest, PandocInline::Code(code.clone())),
        Inline::Emphasis(e) => {
            let v = proc_inlines(e);
            push_inline(dest, PandocInline::Emph(v));
        },
        Inline::Image { alt_text, description, src } => {
            let x = proc_image(alt_text, description, src);
            push_inline(dest, x);
        },
        Inline::Link { description, target } => {
            let content = match description {
                Some(d) => proc_inlines(d),
                None => Vec::new(),
            };
            push_inline(dest, PandocInline::Link { content, target: target.clone() });
        },
        Inline::Math { tex_code } => push_inline(dest, PandocInline::Math(tex_code.clone())),
        Inline::Note { content } => {
            let v = proc_blocks(content);
            push_inline(dest, PandocInline::Note(v));
        },
        Inline::Strong(e) => {
            let v = proc_inlines(e);
            push_inline(dest, PandocInline::Strong(v));
        },
        Inline::Text(t) => text(t.as_str(), dest),
    }
}

/// The pandoc inlines of a sequence of inlines.
fn proc_inlines(v: &Vec<Inline>) -> (r: Vec<PandocInline>)
    ensures
        inlines_model(r@) == conv_inlines(v@),
    decreases v,
{
    let mut r: Vec<PandocInline> = Vec::new();
    let mut k: usize = 0;
    while k < v.len()
        invariant
            0 <= k <= v.len(),
            inlines_model(r@) == conv_inlines(v@.subrange(0, k as int)),
        decreases v.len() - k,
    {
        proof {
            assert(v@.subrange(0, k + 1).subrange(0, k as int) =~= v@.subrange(0, k as int));
        }
        proc_inline(&v[k], &mut r);
        k = k + 1;
    }
    assert(v@.subrange(0, v.len() as int) =~= v@);
    r
}

/// The pandoc block of a block.
fn proc_block(block: &Block) -> (r: PandocBlock)
    ensures
        block_model(r) == conv_block(*block),
    decreases block,
{
    match block {
        Block::BlockQuote { content } => PandocBlock::BlockQuote(proc_blocks(content)),
        Block::CodeBlock { language, code } => {
            let mut classes: Vec<String> = Vec::new();
            match language {
                Some(l) => {
                    classes.push(l.clone());
                },
                None => {},
            }
            let r = PandocBlock::CodeBlock { classes, code: code.clone() };
            proof {
                match language {
                    Some(l) => {
                        assert(classes@.map_values(|c: String| c@) =~= seq![l@]);
                    },
                    None => {
                        assert(classes@.map_values(|c: String| c@) =~= Seq::<Seq<char>>::empty());
                    },
                }
            }
            r
        },
        Block::Figure { alt_text, description, src } => {
            let x = proc_image(alt_text, description, src);
            let mut v: Vec<PandocInline> = Vec::new();
            push_inline(&mut v, x);
            assert(inlines_model(Seq::<PandocInline>::empty()) + seq![inline_model(x)] =~= seq![
                inline_model(x),
            ]);
            PandocBlock::Para(v)
        },
        Block::Header { level, content } => PandocBlock::Header {
            level: *level,
            content: proc_inlines(content),
        },
        Block::HorizontalRule => PandocBlock::HorizontalRule,
        Block::OrderedList { items } => PandocBlock::OrderedList(proc_block_lists(items)),
        Block::Paragraph(l) => PandocBlock::Para(proc_inlines(l)),
        Block::Plain(l) => PandocBlock::Plain(proc_inlines(l)),
        Block::SimpleTable { body } => {
            let columns = max_row_len_of(body);
            PandocBlock::Table { columns, rows: proc_rows(body) }
        },
        Block::UnorderedList { items } => PandocBlock::BulletList(proc_block_lists(items)),
    }
}

/// The pandoc blocks of a sequence of blocks.
fn proc_blocks(v: &Vec<Block>) -> (r: Vec<PandocBlock>)
    ensures
        blocks_model(r@) == conv_blocks(v@),
    decreases v,
{
    let mut r: Vec<PandocBlock> = Vec::new();
    let mut k: usize = 0;
    while k < v.len()
        invariant
            0 <= k <= v.len(),
            blocks_model(r@) == conv_blocks(v@.subrange(0, k as int)),
        decreases v.len() - k,
    {
        proof {
            assert(v@.subrange(0, k + 1).subrange(0, k as int) =~= v@.subrange(0, k as int));
        }
        let b = proc_block(&v[k]);
        proof {
            lemma_blocks_model_push(r@, b);
        }
        r.push(b);
        k = k + 1;
    }
    assert(v@.subrange(0, v.len() as int) =~= v@);
    r
}

/// The pandoc block sequences of a sequence of block sequences.
fn proc_block_lists(v: &Vec<Vec<Block>>) -> (r: Vec<Vec<PandocBlock>>)
    ensures
        block_lists_model(r@) == conv_block_lists(v@),
    decreases v,
{
    let mut r: Vec<Vec<PandocBlock>> = Vec::new();
    let mut k: usize = 0;
    while k < v.len()
        invariant
            0 <= k <= v.len(),
            block_lists_model(r@) == conv_block_lists(v@.subrange(0, k as int)),
        decreases v.len() - k,
    {
        proof {
            assert(v@.subrange(0, k + 1).subrange(0, k as int) =~= v@.subrange(0, k as int));
        }
        let b = proc_blocks(&v[k]);
        proof {
            lemma_block_lists_model_push(r@, b);
        }
        r.push(b);
        k = k + 1;
    }
    assert(v@.subrange(0, v.len() as int) =~= v@);
    r
}

/// The pandoc rows of table rows.
fn proc_rows(v: &Vec<Vec<Vec<Block>>>) -> (r: Vec<Vec<Vec<PandocBlock>>>)
    ensures
        rows_model(r@) == conv_rows(v@),
    decreases v,
{
    let mut r: Vec<Vec<Vec<PandocBlock>>> = Vec::new();
    let mut k: usize = 0;
    while k < v.len()
        invariant
            0 <= k <= v.len(),
            rows_model(r@) == conv_rows(v@.subrange(0, k as int)),
        decreases v.len() - k,
    {
        proof {
            assert(v@.subrange(0, k + 1).subrange(0, k as int) =~= v@.subrange(0, k as int));
        }
        let b = proc_block_lists(&v[k]);
        proof {
            lemma_rows_model_push(r@, b);
        }
        r.push(b);
        k = k + 1;
    }
    assert(v@.subrange(0, v.len() as int) =~= v@);
    r
}

/// The largest number of cells in a row of a table.
fn max_row_len_of(rows: &Vec<Vec<Vec<Block>>>) -> (r: usize)
    ensures
        r == max_row_len(rows@),
{
    let mut m: usize = 0;
    let mut k: usize = 0;
    while k < rows.len()
        invariant
            0 <= k <= rows.len(),
            m == max_row_len(rows@.subrange(0, k as int)),
        decreases rows.len() - k,
    {
        proof {
            assert(rows@.subrange(0, k + 1).drop_last() =~= rows@.subrange(0, k as int));
        }
        let n = rows[k].len();
        if n > m {
            m = n;
        }
        k = k + 1;
    }
    assert(rows@.subrange(0, rows.len() as int) =~= rows@);
    m
}

/// The pandoc document of a document: its blocks, converted one by one.
pub fn to_pandoc_ast(document: &Document) -> (r: PandocDocument)
    ensures
        blocks_model(r.blocks@) == conv_blocks(document.data@),
{
    PandocDocument { blocks: proc_blocks(&document.data) }
}


// ----------------------------------------------------------------------------
// Running pandoc
// ----------------------------------------------------------------------------

/// The converter that runs pandoc on the JSON form of a document.
#[derive(Debug, Clone, Copy)]
pub struct Pandoc;

/// How pandoc converts: the output format, as pandoc names it.
#[derive(Debug, Clone)]
pub struct PandocConfig {
    pub format: String,
}

impl Pandoc {
    /// The arguments pandoc is run with: read JSON, write `config.format`
    /// to `dest`.
    pub fn arguments(config: &PandocConfig, dest: &str) -> (r: Vec<String>)
        ensures
            r@.map_values(|a: String| a@) == seq![
                "-f"@,
                "json"@,
                "-t"@,
                config.format@,
                "-o"@,
                dest@,
            ],
    {
        let mut r: Vec<String> = Vec::new();
        r.push(String::from_str("-f"));
        r.push(String::from_str("json"));
        r.push(String::from_str("-t"));
        r.push(config.format.clone());
        r.push(String::from_str("-o"));
        r.push(dest.to_owned());
        assert(r@.map_values(|a: String| a@) =~= seq![
            "-f"@,
            "json"@,
            "-t"@,
            config.format@,
            "-o"@,
            dest@,
        ]);
        r
    }
}

} // verus!
