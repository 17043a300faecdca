use vstd::prelude::*;
use crate::math::{MathPart, MathSplit, split_math_placeholders, placeholders_view, split_from};
use crate::md_events::{MdAlign, MdEvent, MdTag, MdTagEnd, CMARK_OPTIONS, parse_cmark_events, cmark_events};
use crate::text::{copy_string, string_from, push_str, is_ws, is_whitespace};

verus! {

/// Span-level attributes in force for a run of text.
#[derive(Clone, Copy, Debug, PartialEq, Eq, Structural)]
pub struct InlineAttrs {
    pub emphasis: bool,
    pub strong: bool,
    pub strike: bool,
    pub link: bool,
}

pub open spec fn no_attrs() -> InlineAttrs {
    InlineAttrs { emphasis: false, strong: false, strike: false, link: false }
}

/// Inline content of a paragraph, heading or table cell.
pub enum Inline {
    Text { content: String, attrs: InlineAttrs },
    Code(String),
    Math { content: String, block: bool },
    Footnote(String),
    Image { label: String, url: String },
    LinkUrl(String),
}

/// The plain-value form of an `Inline`.
pub enum InlineV {
    Text(Seq<char>, InlineAttrs),
    Code(Seq<char>),
    Math(Seq<char>, bool),
    Footnote(Seq<char>),
    Image(Seq<char>, Seq<char>),
    LinkUrl(Seq<char>),
}

impl View for Inline {
    type V = InlineV;

    open spec fn view(&self) -> InlineV {
        match self {
            Inline::Text { content, attrs } => InlineV::Text(content@, *attrs),
            Inline::Code(c) => InlineV::Code(c@),
            Inline::Math { content, block } => InlineV::Math(content@, *block),
            Inline::Footnote(l) => InlineV::Footnote(l@),
            Inline::Image { label, url } => InlineV::Image(label@, url@),
            Inline::LinkUrl(u) => InlineV::LinkUrl(u@),
        }
    }
}

/// The plain-value forms of a list of inlines.
pub open spec fn inlines_view(v: Seq<Inline>) -> Seq<InlineV> {
    v.map_values(|i: Inline| i@)
}

impl Inline {
    /// A copy of this inline.
    pub fn copy(&self) -> (r: Inline)
        ensures
            r@ == self@,
    {
        match self {
            Inline::Text { content, attrs } => Inline::Text { content: copy_string(content), attrs: *attrs },
            Inline::Code(c) => Inline::Code(copy_string(c)),
            Inline::Math { content, block } => Inline::Math { content: copy_string(content), block: *block },
            Inline::Footnote(l) => Inline::Footnote(copy_string(l)),
            Inline::Image { label, url } => Inline::Image { label: copy_string(label), url: copy_string(url) },
            Inline::LinkUrl(u) => Inline::LinkUrl(copy_string(u)),
        }
    }
}

/// Copies a list of inlines.
pub fn copy_inlines(v: &Vec<Inline>) -> (r: Vec<Inline>)
    ensures
        inlines_view(r@) == inlines_view(v@),
{
    let mut out: Vec<Inline> = Vec::new();
    let mut i: usize = 0;
    while i < v.len()
        invariant
            i <= v@.len(),
            out@.len() == i,
            forall|j: int| 0 <= j < i ==> (#[trigger] out@[j])@ == v@[j]@,
        decreases v.len() - i,
    {
        let c = v[i].copy();
        out.push(c);
        i = i + 1;
    }
    assert(inlines_view(out@) =~= inlines_view(v@));
    out
}

/// A block of a Markdown document.
#[allow(inconsistent_fields)]
pub enum MdBlock {
    Paragraph(Vec<Inline>),
    Heading { level: u8, content: Vec<Inline> },
    CodeBlock { lang: Option<String>, code: String },
    List { ordered: bool, items: Vec<Vec<MdBlock>>, open: bool },
    Table { alignments: Vec<MdAlign>, rows: Vec<Vec<Vec<Inline>>> },
    Rule,
    BlockQuote(Vec<MdBlock>),
    FootnoteDefinition { label: String, content: Vec<MdBlock> },
}

/// A table being assembled from parser events.
pub struct TableBuildState {
    pub alignments: Vec<MdAlign>,
    pub rows: Vec<Vec<Vec<Inline>>>,
    pub current_row: Vec<Vec<Inline>>,
    pub current_cell: Vec<Inline>,
    pub in_cell: bool,
}

/// Which span attribute a start tag switches on.
#[derive(Clone, Copy, Debug, PartialEq, Eq, Structural)]
pub enum AttrChange {
    Emphasis,
    Strong,
    Strike,
    Link,
}

pub open spec fn apply_attr(a: InlineAttrs, c: AttrChange) -> InlineAttrs {
    match c {
        AttrChange::Emphasis => InlineAttrs { emphasis: true, ..a },
        AttrChange::Strong => InlineAttrs { strong: true, ..a },
        AttrChange::Strike => InlineAttrs { strike: true, ..a },
        AttrChange::Link => InlineAttrs { link: true, ..a },
    }
}

/// The inlines that the pieces of a text become under `attrs`: non-empty
/// text with the attributes, math as math.
pub open spec fn parts_inlines(parts: Seq<MathPart>, attrs: InlineAttrs) -> Seq<InlineV>
    decreases parts.len(),
{
    if parts.len() == 0 {
        Seq::empty()
    } else {
        let rest = parts_inlines(parts.drop_last(), attrs);
        match parts.last() {
            MathPart::Text(s) => if s.len() > 0 { rest.push(InlineV::Text(s, attrs)) } else { rest },
            MathPart::Math(b, c) => rest.push(InlineV::Math(c, b)),
        }
    }
}

/// A list that is still open.
pub open spec fn is_open_list(b: MdBlock) -> bool {
    b matches MdBlock::List { open, .. } && open
}

/// The position of the last open list among `bs`, if there is one.
pub open spec fn last_open_list(bs: Seq<MdBlock>) -> Option<int>
    decreases bs.len(),
{
    if bs.len() == 0 {
        None
    } else if is_open_list(bs.last()) {
        Some(bs.len() - 1)
    } else {
        last_open_list(bs.drop_last())
    }
}

/// A list block, closed.
pub open spec fn closed_list(b: MdBlock) -> MdBlock {
    match b {
        MdBlock::List { ordered, items, .. } => MdBlock::List { ordered, items, open: false },
        other => other,
    }
}

/// `after` is the open list `before` with `item` added as its last item.
pub open spec fn item_added(before: MdBlock, after: MdBlock, item: Seq<MdBlock>) -> bool {
    match (before, after) {
        (MdBlock::List { ordered: o1, items: i1, open: p1 }, MdBlock::List { ordered: o2, items: i2, open: p2 }) =>
            o2 == o1 && p1 && p2 && i2@.len() == i1@.len() + 1 && i2@.drop_last() =~= i1@ && i2@.last()@ =~= item,
        _ => false,
    }
}

/// The builder's fields other than its blocks are as they were.
pub open spec fn same_but_blocks(a: MarkdownDocumentBuilder, b: MarkdownDocumentBuilder) -> bool {
    &&& b.inline_buf == a.inline_buf
    &&& b.attrs_stack == a.attrs_stack
    &&& b.current_heading == a.current_heading
    &&& b.code_block == a.code_block
    &&& b.link_url == a.link_url
    &&& b.footnote_label == a.footnote_label
    &&& b.footnote_blocks == a.footnote_blocks
    &&& b.quote_depth == a.quote_depth
    &&& b.table == a.table
    &&& b.math_placeholders == a.math_placeholders
}

proof fn lemma_last_open_at(bs: Seq<MdBlock>, i: int)
    requires
        0 <= i < bs.len(),
        is_open_list(bs[i]),
        forall|j: int| i < j < bs.len() ==> !is_open_list(#[trigger] bs[j]),
    ensures
        last_open_list(bs) == Some(i),
    decreases bs.len(),
{
    if i < bs.len() - 1 {
        assert(!is_open_list(bs[bs.len() - 1]));
        assert forall|j: int| i < j < bs.drop_last().len() implies !is_open_list(#[trigger] bs.drop_last()[j]) by {
            assert(bs.drop_last()[j] == bs[j]);
        }
        lemma_last_open_at(bs.drop_last(), i);
    }
}

proof fn lemma_last_open_none(bs: Seq<MdBlock>)
    requires
        forall|j: int| 0 <= j < bs.len() ==> !is_open_list(#[trigger] bs[j]),
    ensures
        last_open_list(bs) is None,
    decreases bs.len(),
{
    if bs.len() > 0 {
        assert(!is_open_list(bs[bs.len() - 1]));
        assert forall|j: int| 0 <= j < bs.drop_last().len() implies !is_open_list(#[trigger] bs.drop_last()[j]) by {
            assert(bs.drop_last()[j] == bs[j]);
        }
        lemma_last_open_none(bs.drop_last());
    }
}

/// The fields of `b` flagged here are those of `a` (the math placeholders
/// always are): blocks, inline buffer, attribute stack, heading, code
/// block, link, footnote label, footnote blocks, quote depth, table.
pub open spec fn kept(a: MarkdownDocumentBuilder, b: MarkdownDocumentBuilder, blocks: bool, inline: bool, attrs: bool,
    heading: bool, code: bool, link: bool, fnote: bool, fblocks: bool, depth: bool, table: bool) -> bool {
    &&& blocks ==> b.blocks == a.blocks
    &&& inline ==> b.inline_buf == a.inline_buf
    &&& attrs ==> b.attrs_stack == a.attrs_stack
    &&& heading ==> b.current_heading == a.current_heading
    &&& code ==> b.code_block == a.code_block
    &&& link ==> b.link_url == a.link_url
    &&& fnote ==> b.footnote_label == a.footnote_label
    &&& fblocks ==> b.footnote_blocks == a.footnote_blocks
    &&& depth ==> b.quote_depth == a.quote_depth
    &&& table ==> b.table == a.table
    &&& b.math_placeholders == a.math_placeholders
}

/// Where a finished block goes: into the footnote being defined, wrapped
/// in a quote inside one, or at the end of the document.
pub open spec fn blocks_after_emit(a: MarkdownDocumentBuilder, b: MarkdownDocumentBuilder, block: MdBlock) -> bool {
    &&& a.footnote_label is Some ==> b.footnote_blocks@ =~= a.footnote_blocks@.push(block) && b.blocks == a.blocks
    &&& (a.footnote_label is None && a.quote_depth > 0) ==> b.blocks@.len() == a.blocks@.len() + 1
        && b.blocks@.drop_last() =~= a.blocks@
        && (b.blocks@.last() matches MdBlock::BlockQuote(q) && q@ =~= seq![block])
        && b.footnote_blocks == a.footnote_blocks
    &&& (a.footnote_label is None && a.quote_depth == 0) ==> b.blocks@ =~= a.blocks@.push(block)
        && b.footnote_blocks == a.footnote_blocks
}

/// What `emit_block` does.
pub open spec fn emitted(a: MarkdownDocumentBuilder, b: MarkdownDocumentBuilder, block: MdBlock) -> bool {
    blocks_after_emit(a, b, block) && kept(a, b, false, true, true, true, true, true, true, false, true, true)
}

/// What `push_inline` does: the inline goes to the open table cell, or to
/// the inline buffer.
pub open spec fn inline_pushed(a: MarkdownDocumentBuilder, b: MarkdownDocumentBuilder, inline: Inline) -> bool {
    &&& a.in_cell() ==> b.table is Some
        && b.table->0.current_cell@ =~= a.table->0.current_cell@.push(inline)
        && b.table->0.in_cell && b.table->0.rows == a.table->0.rows
        && b.table->0.current_row == a.table->0.current_row
        && b.table->0.alignments == a.table->0.alignments
        && b.inline_buf == a.inline_buf
    &&& !a.in_cell() ==> b.inline_buf@ =~= a.inline_buf@.push(inline) && b.table == a.table
    &&& kept(a, b, true, false, true, true, true, true, true, true, true, false)
}

/// What `push_text` does: the text's pieces (math restored from its
/// placeholders) go to the open table cell, or to the inline buffer.
pub open spec fn text_pushed(a: MarkdownDocumentBuilder, b: MarkdownDocumentBuilder, text: Seq<char>) -> bool {
    let added = parts_inlines(split_from(text, placeholders_view(a.math_placeholders@), 0, Seq::empty()), a.attrs());
    &&& a.in_cell() ==> b.table is Some
        && inlines_view(b.table->0.current_cell@) =~= inlines_view(a.table->0.current_cell@) + added
        && b.table->0.rows == a.table->0.rows
        && b.table->0.current_row == a.table->0.current_row
        && b.table->0.alignments == a.table->0.alignments
        && b.inline_buf == a.inline_buf
    &&& !a.in_cell() ==> inlines_view(b.inline_buf@) =~= inlines_view(a.inline_buf@) + added && b.table == a.table
    &&& b.in_cell() == a.in_cell()
    &&& kept(a, b, true, false, true, true, true, true, true, true, true, false)
}

/// What `finish_inlines_as` does: pending inline content becomes a heading
/// when one is open, otherwise a paragraph when `paragraph` is set.
pub open spec fn finished(a: MarkdownDocumentBuilder, b: MarkdownDocumentBuilder, paragraph: bool) -> bool {
    if a.inline_buf@.len() == 0 {
        b == a
    } else {
        match a.current_heading {
            Some(level) => blocks_after_emit(a, b, MdBlock::Heading { level, content: a.inline_buf })
                && b.inline_buf@.len() == 0 && b.current_heading is None
                && kept(a, b, false, false, true, false, true, true, true, false, true, true),
            None => if paragraph {
                blocks_after_emit(a, b, MdBlock::Paragraph(a.inline_buf))
                    && b.inline_buf@.len() == 0 && b.current_heading is None
                    && kept(a, b, false, false, true, false, true, true, true, false, true, true)
            } else {
                b == a
            },
        }
    }
}

/// What `push_attrs` does.
pub open spec fn attrs_pushed(a: MarkdownDocumentBuilder, b: MarkdownDocumentBuilder, change: AttrChange) -> bool {
    b.attrs_stack@ =~= a.attrs_stack@.push(apply_attr(a.attrs(), change))
        && kept(a, b, true, true, false, true, true, true, true, true, true, true)
}

/// What `pop_attrs` does: the top attributes go, the bottom entry stays.
pub open spec fn attrs_popped(a: MarkdownDocumentBuilder, b: MarkdownDocumentBuilder) -> bool {
    &&& a.attrs_stack@.len() > 1 ==> b.attrs_stack@ =~= a.attrs_stack@.drop_last()
    &&& a.attrs_stack@.len() <= 1 ==> b.attrs_stack@ =~= a.attrs_stack@
    &&& kept(a, b, true, true, false, true, true, true, true, true, true, true)
}

/// What closing the last open list does.
pub open spec fn list_closed(a: MarkdownDocumentBuilder, b: MarkdownDocumentBuilder) -> bool {
    &&& match last_open_list(a.blocks@) {
        Some(i) => b.blocks@ =~= a.blocks@.update(i, closed_list(a.blocks@[i])),
        None => b.blocks@ =~= a.blocks@,
    }
    &&& same_but_blocks(a, b)
}

/// What closing a list item does.
pub open spec fn item_closed(a: MarkdownDocumentBuilder, b: MarkdownDocumentBuilder) -> bool {
    &&& match last_open_list(a.blocks@) {
        Some(i) => b.blocks@.len() == i + 1
            && b.blocks@.take(i) =~= a.blocks@.take(i)
            && item_added(a.blocks@[i], b.blocks@[i], a.blocks@.skip(i + 1)),
        None => b.blocks@.len() == 0,
    }
    &&& same_but_blocks(a, b)
}

/// What the start of an element does to the builder.
pub open spec fn start_effect(a: MarkdownDocumentBuilder, b: MarkdownDocumentBuilder, tag: MdTag) -> bool {
    match tag {
        MdTag::Paragraph | MdTag::Item | MdTag::Other => b == a,
        MdTag::Heading(level) => b.current_heading == Some(level)
            && kept(a, b, true, true, true, false, true, true, true, true, true, true),
        MdTag::BlockQuote => b.quote_depth == a.quote_depth + 1
            && kept(a, b, true, true, true, true, true, true, true, true, false, true),
        MdTag::CodeBlock(info) => (b.code_block matches Some((lang, code)) && code@.len() == 0
                && crate::chat::opt_view(lang) == (match info { Some(i) => first_word_spec(i@), None => None }))
            && kept(a, b, true, true, true, true, false, true, true, true, true, true),
        MdTag::List(first) => exists|mid: MarkdownDocumentBuilder, e: MdBlock| #![trigger finished(a, mid, true), emitted(mid, b, e)]
            finished(a, mid, true) && emitted(mid, b, e)
            && (e matches MdBlock::List { ordered, items, open } && ordered == first is Some && items@.len() == 0 && open),
        MdTag::FootnoteDefinition(label) => b.footnote_label == Some(label) && b.footnote_blocks@.len() == 0
            && kept(a, b, true, true, true, true, true, true, false, false, true, true),
        MdTag::Table(alignments) => (b.table matches Some(t) && t.alignments == alignments && t.rows@.len() == 0
                && t.current_row@.len() == 0 && t.current_cell@.len() == 0 && !t.in_cell)
            && kept(a, b, true, true, true, true, true, true, true, true, true, false),
        MdTag::TableHead | MdTag::TableRow => (match a.table {
                Some(t0) => b.table matches Some(t) && t.current_row@.len() == 0 && t.alignments == t0.alignments
                    && t.rows == t0.rows && t.current_cell == t0.current_cell && t.in_cell == t0.in_cell,
                None => b.table is None,
            })
            && kept(a, b, true, true, true, true, true, true, true, true, true, false),
        MdTag::TableCell => (match a.table {
                Some(t0) => b.table matches Some(t) && t.current_cell@.len() == 0 && t.in_cell
                    && t.alignments == t0.alignments && t.rows == t0.rows && t.current_row == t0.current_row,
                None => b.table is None,
            })
            && kept(a, b, true, true, true, true, true, true, true, true, true, false),
        MdTag::Emphasis => attrs_pushed(a, b, AttrChange::Emphasis),
        MdTag::Strong => attrs_pushed(a, b, AttrChange::Strong),
        MdTag::Strikethrough => attrs_pushed(a, b, AttrChange::Strike),
        MdTag::Link { dest_url } => b.link_url == Some(dest_url)
            && b.attrs_stack@ =~= a.attrs_stack@.push(apply_attr(a.attrs(), AttrChange::Link))
            && kept(a, b, true, true, false, true, true, false, true, true, true, true),
        MdTag::Image { dest_url, title } => exists|label: String| #![trigger inline_pushed(a, b, Inline::Image { label, url: dest_url })]
            label@ == (if title@.len() == 0 { "image"@ } else { title@ })
            && inline_pushed(a, b, Inline::Image { label, url: dest_url }),
    }
}

/// What the end of an element does to the builder.
pub open spec fn end_effect(a: MarkdownDocumentBuilder, b: MarkdownDocumentBuilder, tag: MdTagEnd) -> bool {
    match tag {
        MdTagEnd::Paragraph => finished(a, b, true),
        MdTagEnd::Heading => finished(a, b, false),
        MdTagEnd::BlockQuote => b.quote_depth == (if a.quote_depth > 0 { a.quote_depth - 1 } else { 0 })
            && kept(a, b, true, true, true, true, true, true, true, true, false, true),
        MdTagEnd::CodeBlock => match a.code_block {
            Some((lang, code)) => blocks_after_emit(a, b, MdBlock::CodeBlock { lang, code }) && b.code_block is None
                && kept(a, b, false, true, true, true, false, true, true, false, true, true),
            None => b == a,
        },
        MdTagEnd::List => list_closed(a, b),
        MdTagEnd::Item => exists|mid: MarkdownDocumentBuilder| #![trigger finished(a, mid, true), item_closed(mid, b)]
            finished(a, mid, true) && item_closed(mid, b),
        MdTagEnd::FootnoteDefinition => exists|mid: MarkdownDocumentBuilder| #![trigger finished(a, mid, true)]
            finished(a, mid, true) && match mid.footnote_label {
                Some(label) => b.blocks@ =~= mid.blocks@.push(MdBlock::FootnoteDefinition { label, content: mid.footnote_blocks })
                    && b.footnote_label is None && b.footnote_blocks@.len() == 0
                    && kept(mid, b, false, true, true, true, true, true, false, false, true, true),
                None => b == mid,
            },
        MdTagEnd::Table => match a.table {
            Some(t) => blocks_after_emit(a, b, MdBlock::Table { alignments: t.alignments, rows: t.rows }) && b.table is None
                && kept(a, b, false, true, true, true, true, true, true, false, true, false),
            None => b == a,
        },
        MdTagEnd::TableHead | MdTagEnd::TableRow => (match a.table {
                Some(t0) => b.table matches Some(t) && t.rows@ =~= t0.rows@.push(t0.current_row) && t.current_row@.len() == 0
                    && t.alignments == t0.alignments && t.current_cell == t0.current_cell && t.in_cell == t0.in_cell,
                None => b.table is None,
            })
            && kept(a, b, true, true, true, true, true, true, true, true, true, false),
        MdTagEnd::TableCell => (match a.table {
                Some(t0) => b.table matches Some(t) && !t.in_cell && t.current_row@ =~= t0.current_row@.push(t0.current_cell)
                    && t.current_cell@.len() == 0 && t.alignments == t0.alignments && t.rows == t0.rows,
                None => b.table is None,
            })
            && kept(a, b, true, true, true, true, true, true, true, true, true, false),
        MdTagEnd::Emphasis | MdTagEnd::Strong | MdTagEnd::Strikethrough => attrs_popped(a, b),
        MdTagEnd::Link => exists|mid: MarkdownDocumentBuilder| #![trigger attrs_popped(a, mid)]
            attrs_popped(a, mid) && match a.link_url {
                Some(url) => b.link_url is None
                    && inline_pushed(MarkdownDocumentBuilder { link_url: None, ..mid }, b, Inline::LinkUrl(url)),
                None => b == mid,
            },
        MdTagEnd::Image | MdTagEnd::Other => b == a,
    }
}

/// What one parser event does to the builder. Inside a code block only its
/// text and line breaks are collected and its end closes it.
pub open spec fn event_effect(a: MarkdownDocumentBuilder, b: MarkdownDocumentBuilder, event: MdEvent) -> bool {
    if a.code_block is Some {
        match event {
            MdEvent::End(MdTagEnd::CodeBlock) => end_effect(a, b, MdTagEnd::CodeBlock),
            MdEvent::Text(t) => code_appended(a, b, t@),
            MdEvent::SoftBreak | MdEvent::HardBreak => code_appended(a, b, seq!['\n']),
            _ => b == a,
        }
    } else {
        match event {
            MdEvent::Start(tag) => start_effect(a, b, tag),
            MdEvent::End(tag) => end_effect(a, b, tag),
            MdEvent::Text(t) => text_pushed(a, b, t@),
            MdEvent::Code(c) => inline_pushed(a, b, Inline::Code(c)),
            MdEvent::Html(h) => text_pushed(a, b, h@),
            MdEvent::InlineHtml(h) => text_pushed(a, b, h@),
            MdEvent::FootnoteReference(l) => inline_pushed(a, b, Inline::Footnote(l)),
            MdEvent::SoftBreak => text_pushed(a, b, seq![' ']),
            MdEvent::HardBreak => finished(a, b, true),
            MdEvent::Rule => emitted(a, b, MdBlock::Rule),
            MdEvent::TaskListMarker(checked) => text_pushed(a, b, if checked { seq!['☑', ' '] } else { seq!['☐', ' '] }),
        }
    }
}

/// `t` added to the code of the open code block.
pub open spec fn code_appended(a: MarkdownDocumentBuilder, b: MarkdownDocumentBuilder, t: Seq<char>) -> bool {
    (a.code_block matches Some((l0, c0)) && b.code_block matches Some((l, c)) && l == l0 && c@ =~= c0@ + t)
        && kept(a, b, true, true, true, true, false, true, true, true, true, true)
}

/// A builder as `new` makes it, restoring math from placeholders whose
/// plain form is `ph`.
pub open spec fn fresh_builder(b: MarkdownDocumentBuilder, ph: Seq<(bool, Seq<char>)>) -> bool {
    &&& b.blocks@.len() == 0
    &&& b.inline_buf@.len() == 0
    &&& b.attrs_stack@ == seq![no_attrs()]
    &&& b.current_heading is None
    &&& b.code_block is None
    &&& b.link_url is None
    &&& b.footnote_label is None
    &&& b.footnote_blocks@.len() == 0
    &&& b.quote_depth == 0
    &&& b.table is None
    &&& placeholders_view(b.math_placeholders@) == ph
}

/// `r` is what `finish` hands back for `a`: its blocks once pending inline
/// content is closed as a paragraph.
pub open spec fn builder_result(a: MarkdownDocumentBuilder, r: Vec<MdBlock>) -> bool {
    exists|b: MarkdownDocumentBuilder| #![trigger finished(a, b, true)] finished(a, b, true) && r == b.blocks
}

/// `r` is the document that `events` build, one after another, from a
/// fresh builder that restores math from `ph`.
pub open spec fn blocks_from_events(events: Seq<MdEvent>, ph: Seq<(bool, Seq<char>)>, r: Vec<MdBlock>) -> bool {
    exists|st: Seq<MarkdownDocumentBuilder>| #![trigger st.len(), st.last()]
        st.len() == events.len() + 1 && fresh_builder(st[0], ph)
        && (forall|k: int| #![trigger st[k]] 0 <= k < events.len() ==> event_effect(st[k], st[k + 1], events[k]))
        && builder_result(st.last(), r)
}

/// Builds the block structure of a document from the parser's events.
pub struct MarkdownDocumentBuilder {
    pub blocks: Vec<MdBlock>,
    pub inline_buf: Vec<Inline>,
    pub attrs_stack: Vec<InlineAttrs>,
    pub current_heading: Option<u8>,
    pub code_block: Option<(Option<String>, String)>,
    pub link_url: Option<String>,
    pub footnote_label: Option<String>,
    pub footnote_blocks: Vec<MdBlock>,
    pub quote_depth: usize,
    pub table: Option<TableBuildState>,
    pub math_placeholders: Vec<(bool, String)>,
}

impl MarkdownDocumentBuilder {
    /// The attributes in force: those on top of the stack.
    pub open spec fn attrs(&self) -> InlineAttrs {
        if self.attrs_stack@.len() > 0 { self.attrs_stack@.last() } else { no_attrs() }
    }

    /// An empty builder that restores math from `math_placeholders`.
    pub fn new(math_placeholders: Vec<(bool, String)>) -> (r: Self)
        ensures
            r.blocks@.len() == 0,
            r.inline_buf@.len() == 0,
            r.attrs_stack@ == seq![no_attrs()],
            r.current_heading is None,
            r.code_block is None,
            r.link_url is None,
            r.footnote_label is None,
            r.footnote_blocks@.len() == 0,
            r.quote_depth == 0,
            r.table is None,
            r.math_placeholders@ == math_placeholders@,
    {
        let mut attrs_stack = Vec::new();
        attrs_stack.push(InlineAttrs { emphasis: false, strong: false, strike: false, link: false });
        MarkdownDocumentBuilder {
            blocks: Vec::new(),
            inline_buf: Vec::new(),
            attrs_stack,
            current_heading: None,
            code_block: None,
            link_url: None,
            footnote_label: None,
            footnote_blocks: Vec::new(),
            quote_depth: 0,
            table: None,
            math_placeholders,
        }
    }

    /// The attributes in force.
    pub fn current_attrs(&self) -> (r: InlineAttrs)
        ensures
            r == self.attrs(),
    {
        if self.attrs_stack.len() > 0 {
            self.attrs_stack[self.attrs_stack.len() - 1]
        } else {
            InlineAttrs { emphasis: false, strong: false, strike: false, link: false }
        }
    }

    /// Pushes the current attributes with one more switched on.
    pub fn push_attrs(&mut self, change: AttrChange)
        ensures
            attrs_pushed(*old(self), *final(self), change),
            final(self).attrs_stack@ == old(self).attrs_stack@.push(apply_attr(old(self).attrs(), change)),
            final(self).blocks == old(self).blocks,
            final(self).inline_buf == old(self).inline_buf,
            final(self).table == old(self).table,
            final(self).quote_depth == old(self).quote_depth,
            final(self).code_block == old(self).code_block,
            final(self).math_placeholders == old(self).math_placeholders,
            final(self).link_url == old(self).link_url,
            final(self).footnote_label == old(self).footnote_label,
            final(self).footnote_blocks == old(self).footnote_blocks,
            final(self).current_heading == old(self).current_heading,
    {
        let a = self.current_attrs();
        let na = match change {
            AttrChange::Emphasis => InlineAttrs { emphasis: true, ..a },
            AttrChange::Strong => InlineAttrs { strong: true, ..a },
            AttrChange::Strike => InlineAttrs { strike: true, ..a },
            AttrChange::Link => InlineAttrs { link: true, ..a },
        };
        self.attrs_stack.push(na);
    }

    /// Pops the attributes, keeping the bottom entry.
    pub fn pop_attrs(&mut self)
        ensures
            attrs_popped(*old(self), *final(self)),
            old(self).attrs_stack@.len() > 1 ==> final(self).attrs_stack@ == old(self).attrs_stack@.drop_last(),
            old(self).attrs_stack@.len() <= 1 ==> final(self).attrs_stack@ == old(self).attrs_stack@,
            final(self).blocks == old(self).blocks,
            final(self).inline_buf == old(self).inline_buf,
            final(self).table == old(self).table,
            final(self).quote_depth == old(self).quote_depth,
            final(self).code_block == old(self).code_block,
            final(self).math_placeholders == old(self).math_placeholders,
            final(self).link_url == old(self).link_url,
            final(self).footnote_label == old(self).footnote_label,
            final(self).footnote_blocks == old(self).footnote_blocks,
            final(self).current_heading == old(self).current_heading,
    {
        if self.attrs_stack.len() > 1 {
            self.attrs_stack.pop();
        }
    }

    /// Adds a finished block: to the footnote being defined, wrapped in a
    /// quote when inside one, or to the document.
    pub fn emit_block(&mut self, block: MdBlock)
        ensures
            emitted(*old(self), *final(self), block),
            old(self).footnote_label is Some ==> final(self).footnote_blocks@ == old(self).footnote_blocks@.push(block)
                && final(self).blocks == old(self).blocks,
            old(self).footnote_label is None && old(self).quote_depth > 0 ==> final(self).blocks@.len() == old(self).blocks@.len() + 1
                && final(self).blocks@.drop_last() == old(self).blocks@
                && final(self).footnote_blocks == old(self).footnote_blocks,
            old(self).footnote_label is None && old(self).quote_depth == 0 ==> final(self).blocks@ == old(self).blocks@.push(block)
                && final(self).footnote_blocks == old(self).footnote_blocks,
            final(self).footnote_label == old(self).footnote_label,
            final(self).quote_depth == old(self).quote_depth,
            final(self).inline_buf == old(self).inline_buf,
            final(self).table == old(self).table,
            final(self).current_heading == old(self).current_heading,
            final(self).attrs_stack == old(self).attrs_stack,
            final(self).code_block == old(self).code_block,
            final(self).link_url == old(self).link_url,
            final(self).math_placeholders == old(self).math_placeholders,
    {
        if self.footnote_label.is_some() {
            self.footnote_blocks.push(block);
        } else if self.quote_depth > 0 {
            let mut inner = Vec::new();
            inner.push(block);
            assert(inner@ =~= seq![block]);
            self.blocks.push(MdBlock::BlockQuote(inner));
        } else {
            self.blocks.push(block);
        }
    }

    /// Whether inline content currently goes into a table cell.
    pub open spec fn in_cell(&self) -> bool {
        self.table matches Some(t) && t.in_cell
    }

    /// Adds inline content to the open table cell, or else to the buffer.
    pub fn push_inline(&mut self, inline: Inline)
        ensures
            inline_pushed(*old(self), *final(self), inline),
            old(self).in_cell() ==> final(self).table is Some
                && final(self).table->0.current_cell@ == old(self).table->0.current_cell@.push(inline)
                && final(self).table->0.in_cell && final(self).table->0.rows == old(self).table->0.rows
                && final(self).table->0.current_row == old(self).table->0.current_row
                && final(self).table->0.alignments == old(self).table->0.alignments
                && final(self).inline_buf == old(self).inline_buf,
            !old(self).in_cell() ==> final(self).inline_buf@ == old(self).inline_buf@.push(inline)
                && final(self).table == old(self).table,
            final(self).blocks == old(self).blocks,
            final(self).attrs_stack == old(self).attrs_stack,
            final(self).current_heading == old(self).current_heading,
            final(self).footnote_label == old(self).footnote_label,
            final(self).quote_depth == old(self).quote_depth,
            final(self).math_placeholders == old(self).math_placeholders,
            final(self).code_block == old(self).code_block,
            final(self).link_url == old(self).link_url,
            final(self).footnote_blocks == old(self).footnote_blocks,
    {
        if self.table.is_some() {
            let mut t = self.table.take().unwrap();
            if t.in_cell {
                t.current_cell.push(inline);
                self.table = Some(t);
                return;
            }
            self.table = Some(t);
        }
        self.inline_buf.push(inline);
    }

    /// Adds text in the current attributes, restoring math placeholders.
    pub fn push_text(&mut self, text: &str)
        ensures
            text_pushed(*old(self), *final(self), text@),
            ({
                let added = parts_inlines(split_from(text@, placeholders_view(old(self).math_placeholders@), 0, Seq::empty()), old(self).attrs());
                &&& old(self).in_cell() ==> final(self).table is Some
                    && inlines_view(final(self).table->0.current_cell@) == inlines_view(old(self).table->0.current_cell@) + added
                &&& !old(self).in_cell() ==> inlines_view(final(self).inline_buf@) == inlines_view(old(self).inline_buf@) + added
            }),
            final(self).blocks == old(self).blocks,
            final(self).attrs_stack == old(self).attrs_stack,
            final(self).current_heading == old(self).current_heading,
            final(self).footnote_label == old(self).footnote_label,
            final(self).quote_depth == old(self).quote_depth,
            final(self).math_placeholders == old(self).math_placeholders,
            final(self).code_block == old(self).code_block,
            final(self).link_url == old(self).link_url,
            final(self).footnote_blocks == old(self).footnote_blocks,
            final(self).in_cell() == old(self).in_cell(),
            old(self).in_cell() ==> final(self).table->0.rows == old(self).table->0.rows
                && final(self).table->0.current_row == old(self).table->0.current_row
                && final(self).table->0.alignments == old(self).table->0.alignments,
            !old(self).in_cell() ==> final(self).table == old(self).table,
    {
        if text.is_empty() {
            assert(text@ =~= Seq::<char>::empty());
            proof { lemma_split_empty(placeholders_view(self.math_placeholders@)); }
            assert(inlines_view(self.inline_buf@) =~= inlines_view(self.inline_buf@) + Seq::<InlineV>::empty());
            proof {
                if self.in_cell() {
                    assert(inlines_view(self.table->0.current_cell@) =~= inlines_view(self.table->0.current_cell@) + Seq::<InlineV>::empty());
                }
            }
            return;
        }
        let attrs = self.current_attrs();
        let parts = split_math_placeholders(text, &self.math_placeholders);
        let ghost pv = parts@.map_values(|m: MathSplit| m@);
        let ghost cell0 = if self.in_cell() { inlines_view(self.table->0.current_cell@) } else { Seq::empty() };
        let ghost buf0 = inlines_view(self.inline_buf@);
        let ghost was_in_cell = self.in_cell();
        let ghost self0 = *self;
        let mut parts = parts;
        let mut rev: Vec<MathSplit> = Vec::new();
        while parts.len() > 0
            invariant
                rev@.len() + parts@.len() == pv.len(),
                forall|j: int| 0 <= j < parts@.len() ==> (#[trigger] parts@[j])@ == pv[j],
                forall|j: int| 0 <= j < rev@.len() ==> (#[trigger] rev@[j])@ == pv[pv.len() - 1 - j],
            decreases parts.len(),
        {
            let p = parts.pop().unwrap();
            rev.push(p);
        }
        let mut k: usize = 0;
        let n = rev.len();
        while rev.len() > 0
            invariant
                k + rev@.len() == n,
                n == pv.len(),
                forall|j: int| 0 <= j < rev@.len() ==> (#[trigger] rev@[j])@ == pv[pv.len() - 1 - j],
                attrs == self0.attrs(),
                self.in_cell() == was_in_cell,
                was_in_cell ==> self.table is Some
                    && inlines_view(self.table->0.current_cell@) == cell0 + parts_inlines(pv.subrange(0, k as int), attrs)
                    && self.table->0.rows == self0.table->0.rows && self.table->0.current_row == self0.table->0.current_row
                    && self.table->0.alignments == self0.table->0.alignments,
                !was_in_cell ==> inlines_view(self.inline_buf@) == buf0 + parts_inlines(pv.subrange(0, k as int), attrs)
                    && self.table == self0.table,
                was_in_cell ==> self.inline_buf == self0.inline_buf,
                self.blocks == self0.blocks,
                self.attrs_stack == self0.attrs_stack,
                self.current_heading == self0.current_heading,
                self.footnote_label == self0.footnote_label,
                self.quote_depth == self0.quote_depth,
                self.math_placeholders == self0.math_placeholders,
                self.code_block == self0.code_block,
                self.link_url == self0.link_url,
                self.footnote_blocks == self0.footnote_blocks,
            decreases rev.len(),
        {
            let p = rev.pop().unwrap();
            assert(p@ == pv[k as int]);
            assert(pv.subrange(0, k + 1).drop_last() =~= pv.subrange(0, k as int));
            let ghost before_cell = if self.in_cell() { inlines_view(self.table->0.current_cell@) } else { Seq::empty() };
            let ghost before_buf = inlines_view(self.inline_buf@);
            match p {
                MathSplit::Text(s) => {
                    if !s.as_str().is_empty() {
                        let ghost sv = s@;
                        self.push_inline(Inline::Text { content: s, attrs });
                        assert(inlines_view(self.inline_buf@) =~= before_buf.push(InlineV::Text(sv, attrs)) || was_in_cell);
                        proof {
                            if was_in_cell {
                            assert(inlines_view(self.table->0.current_cell@) =~= before_cell.push(InlineV::Text(sv, attrs)));
                            }
                        }
                    }
                },
                MathSplit::Math { block, content } => {
                    let ghost cv = content@;
                    self.push_inline(Inline::Math { content, block });
                    assert(inlines_view(self.inline_buf@) =~= before_buf.push(InlineV::Math(cv, block)) || was_in_cell);
                    proof {
                        if was_in_cell {
                        assert(inlines_view(self.table->0.current_cell@) =~= before_cell.push(InlineV::Math(cv, block)));
                        }
                    }
                },
            }
            k = k + 1;
        }
        assert(pv.subrange(0, pv.len() as int) =~= pv);
        proof {
            if was_in_cell {
                assert(inlines_view(self.table->0.current_cell@) =~= cell0 + parts_inlines(pv, attrs));
            } else {
                assert(inlines_view(self.inline_buf@) =~= buf0 + parts_inlines(pv, attrs));
            }
        }
    }

    /// Closes the pending inline content: as a heading when one is open,
    /// otherwise as a paragraph when `paragraph` is set.
    pub fn finish_inlines_as(&mut self, paragraph: bool)
        ensures
            finished(*old(self), *final(self), paragraph),
            old(self).inline_buf@.len() == 0 ==> *final(self) == *old(self),
            old(self).inline_buf@.len() > 0 && old(self).current_heading is Some ==> final(self).inline_buf@.len() == 0
                && final(self).current_heading is None,
            old(self).inline_buf@.len() > 0 && old(self).current_heading is None && paragraph ==> final(self).inline_buf@.len() == 0,
            old(self).inline_buf@.len() > 0 && old(self).current_heading is None && !paragraph ==> *final(self) == *old(self),
            final(self).quote_depth == old(self).quote_depth,
            final(self).attrs_stack == old(self).attrs_stack,
            final(self).code_block == old(self).code_block,
            final(self).table == old(self).table,
            final(self).footnote_label == old(self).footnote_label,
            final(self).link_url == old(self).link_url,
            final(self).math_placeholders == old(self).math_placeholders,
    {
        if self.inline_buf.len() == 0 {
            return;
        }
        match self.current_heading.take() {
            Some(level) => {
                let mut content = Vec::new();
                std::mem::swap(&mut content, &mut self.inline_buf);
                self.emit_block(MdBlock::Heading { level, content });
            },
            None => {
                if paragraph {
                    let mut content = Vec::new();
                    std::mem::swap(&mut content, &mut self.inline_buf);
                    self.emit_block(MdBlock::Paragraph(content));
                }
            },
        }
    }

    /// Handles the start of an element.
    pub fn handle_start(&mut self, tag: MdTag)
        requires
            old(self).quote_depth < usize::MAX,
        ensures
            start_effect(*old(self), *final(self), tag),
            final(self).quote_depth <= old(self).quote_depth + 1,
            final(self).math_placeholders == old(self).math_placeholders,
            final(self).code_block is Some <==> (old(self).code_block is Some || tag is CodeBlock),
    {
        match tag {
            MdTag::Paragraph => {},
            MdTag::Heading(level) => {
                self.current_heading = Some(level);
            },
            MdTag::BlockQuote => {
                self.quote_depth = self.quote_depth + 1;
            },
            MdTag::CodeBlock(info) => {
                let language = match info {
                    Some(i) => first_word(i.as_str()),
                    None => None,
                };
                self.code_block = Some((language, String::new()));
            },
            MdTag::List(first) => {
                self.finish_inlines_as(true);
                let ghost mid = *self;
                let blk = MdBlock::List { ordered: first.is_some(), items: Vec::new(), open: true };
                let ghost e = blk;
                self.emit_block(blk);
                assert(finished(*old(self), mid, true) && emitted(mid, *self, e));
            },
            MdTag::Item => {},
            MdTag::FootnoteDefinition(label) => {
                self.footnote_label = Some(label);
                self.footnote_blocks.clear();
            },
            MdTag::Table(alignments) => {
                self.table = Some(TableBuildState {
                    alignments,
                    rows: Vec::new(),
                    current_row: Vec::new(),
                    current_cell: Vec::new(),
                    in_cell: false,
                });
            },
            MdTag::TableHead | MdTag::TableRow => {
                if self.table.is_some() {
                    let mut t = self.table.take().unwrap();
                    t.current_row.clear();
                    self.table = Some(t);
                }
            },
            MdTag::TableCell => {
                if self.table.is_some() {
                    let mut t = self.table.take().unwrap();
                    t.current_cell.clear();
                    t.in_cell = true;
                    self.table = Some(t);
                }
            },
            MdTag::Emphasis => self.push_attrs(AttrChange::Emphasis),
            MdTag::Strong => self.push_attrs(AttrChange::Strong),
            MdTag::Strikethrough => self.push_attrs(AttrChange::Strike),
            MdTag::Link { dest_url } => {
                self.link_url = Some(dest_url);
                self.push_attrs(AttrChange::Link);
            },
            MdTag::Image { dest_url, title } => {
                let ghost du = dest_url;
                let ghost tv = title@;
                let label = if title.as_str().is_empty() { string_from("image") } else { title };
                let ghost lv = label;
                proof { reveal_strlit("image"); }
                assert(lv@ == (if tv.len() == 0 { "image"@ } else { tv }));
                self.push_inline(Inline::Image { label, url: dest_url });
                assert(inline_pushed(*old(self), *self, Inline::Image { label: lv, url: du }));
            },
            MdTag::Other => {},
        }
    }

    /// Closes the most recent list that is still open.
    fn close_last_open_list(&mut self)
        ensures
            list_closed(*old(self), *final(self)),
            match last_open_list(old(self).blocks@) {
                Some(i) => final(self).blocks@ == old(self).blocks@.update(i, closed_list(old(self).blocks@[i])),
                None => final(self).blocks@ == old(self).blocks@,
            },
            same_but_blocks(*old(self), *final(self)),
    {
        let ghost b0 = self.blocks@;
        let mut i = self.blocks.len();
        while i > 0
            invariant
                i <= self.blocks@.len(),
                self.blocks@ == b0,
                b0 == old(self).blocks@,
                same_but_blocks(*old(self), *self),
                forall|j: int| i <= j < b0.len() ==> !is_open_list(#[trigger] b0[j]),
            decreases i,
        {
            i = i - 1;
            let is_open = match &self.blocks[i] {
                MdBlock::List { open, .. } => *open,
                _ => false,
            };
            if is_open {
                proof { lemma_last_open_at(b0, i as int); }
                let b = self.blocks.remove(i);
                match b {
                    MdBlock::List { ordered, items, open: _ } => {
                        self.blocks.insert(i, MdBlock::List { ordered, items, open: false });
                    },
                    other => {
                        self.blocks.insert(i, other);
                    },
                }
                assert(self.blocks@ =~= b0.update(i as int, closed_list(b0[i as int])));
                return;
            }
        }
        proof { lemma_last_open_none(b0); }
    }

    /// Moves the blocks after the most recent open list into a new item of
    /// that list (all trailing blocks are taken, and dropped, when no list
    /// is open).
    fn close_item(&mut self)
        ensures
            item_closed(*old(self), *final(self)),
            match last_open_list(old(self).blocks@) {
                Some(i) => final(self).blocks@.len() == i + 1
                    && final(self).blocks@.take(i) == old(self).blocks@.take(i)
                    && item_added(old(self).blocks@[i], final(self).blocks@[i], old(self).blocks@.skip(i + 1)),
                None => final(self).blocks@.len() == 0,
            },
            same_but_blocks(*old(self), *final(self)),
    {
        let ghost b0 = self.blocks@;
        let mut item: Vec<MdBlock> = Vec::new();
        while self.blocks.len() > 0
            invariant
                self.blocks@ == b0.take(self.blocks@.len() as int),
                self.blocks@.len() <= b0.len(),
                b0 == old(self).blocks@,
                item@.len() == b0.len() - self.blocks@.len(),
                forall|k: int| 0 <= k < item@.len() ==> #[trigger] item@[k] == b0[b0.len() - 1 - k],
                forall|j: int| self.blocks@.len() <= j < b0.len() ==> !is_open_list(#[trigger] b0[j]),
                same_but_blocks(*old(self), *self),
            decreases self.blocks@.len(),
        {
            let ghost p = self.blocks@.len() - 1;
            let block = self.blocks.pop().unwrap();
            assert(block == b0[p]);
            match block {
                MdBlock::List { ordered, items, open } => {
                    if open {
                        proof { lemma_last_open_at(b0, p); }
                        let mut items = items;
                        let ghost items0 = items@;
                        let mut ordered_item: Vec<MdBlock> = Vec::new();
                        while item.len() > 0
                            invariant
                                0 <= p < b0.len(),
                                item@.len() + ordered_item@.len() == b0.len() - 1 - p,
                                forall|k: int| 0 <= k < item@.len() ==> #[trigger] item@[k] == b0[b0.len() - 1 - k],
                                ordered_item@ == b0.subrange(p + 1, p + 1 + ordered_item@.len()),
                            decreases item@.len(),
                        {
                            let x = item.pop().unwrap();
                            assert(x == b0[p + 1 + ordered_item@.len()]);
                            ordered_item.push(x);
                            assert(ordered_item@ =~= b0.subrange(p + 1, p + 1 + ordered_item@.len()));
                        }
                        assert(ordered_item@ =~= b0.skip(p + 1));
                        items.push(ordered_item);
                        self.blocks.push(MdBlock::List { ordered, items, open });
                        assert(self.blocks@.take(p) =~= b0.take(p));
                        return;
                    } else {
                        item.push(MdBlock::List { ordered, items, open });
                    }
                },
                other => {
                    item.push(other);
                },
            }
            assert(self.blocks@ =~= b0.take(self.blocks@.len() as int));
        }
        proof { lemma_last_open_none(b0); }
    }

    /// Handles the end of an element.
    pub fn handle_end(&mut self, tag: MdTagEnd)
        ensures
            end_effect(*old(self), *final(self), tag),
            final(self).quote_depth <= old(self).quote_depth,
            final(self).math_placeholders == old(self).math_placeholders,
            tag is CodeBlock ==> final(self).code_block is None,
            !(tag is CodeBlock) ==> final(self).code_block == old(self).code_block,
    {
        match tag {
            MdTagEnd::Paragraph => self.finish_inlines_as(true),
            MdTagEnd::Heading => self.finish_inlines_as(false),
            MdTagEnd::BlockQuote => {
                if self.quote_depth > 0 {
                    self.quote_depth = self.quote_depth - 1;
                }
            },
            MdTagEnd::CodeBlock => {
                match self.code_block.take() {
                    Some((lang, code)) => self.emit_block(MdBlock::CodeBlock { lang, code }),
                    None => {},
                }
            },
            MdTagEnd::List => self.close_last_open_list(),
            MdTagEnd::Item => {
                self.finish_inlines_as(true);
                let ghost mid = *self;
                self.close_item();
                assert(finished(*old(self), mid, true) && item_closed(mid, *self));
            },
            MdTagEnd::FootnoteDefinition => {
                self.finish_inlines_as(true);
                let ghost mid = *self;
                assert(finished(*old(self), mid, true));
                match self.footnote_label.take() {
                    Some(label) => {
                        let mut content = Vec::new();
                        std::mem::swap(&mut content, &mut self.footnote_blocks);
                        self.blocks.push(MdBlock::FootnoteDefinition { label, content });
                    },
                    None => {},
                }
            },
            MdTagEnd::Table => {
                match self.table.take() {
                    Some(t) => self.emit_block(MdBlock::Table { alignments: t.alignments, rows: t.rows }),
                    None => {},
                }
            },
            MdTagEnd::TableHead | MdTagEnd::TableRow => {
                if self.table.is_some() {
                    let mut t = self.table.take().unwrap();
                    let mut row = Vec::new();
                    std::mem::swap(&mut row, &mut t.current_row);
                    t.rows.push(row);
                    self.table = Some(t);
                }
            },
            MdTagEnd::TableCell => {
                if self.table.is_some() {
                    let mut t = self.table.take().unwrap();
                    t.in_cell = false;
                    let mut cell = Vec::new();
                    std::mem::swap(&mut cell, &mut t.current_cell);
                    t.current_row.push(cell);
                    self.table = Some(t);
                }
            },
            MdTagEnd::Emphasis | MdTagEnd::Strong | MdTagEnd::Strikethrough => self.pop_attrs(),
            MdTagEnd::Link => {
                self.pop_attrs();
                let ghost mid = *self;
                assert(attrs_popped(*old(self), mid));
                match self.link_url.take() {
                    Some(url) => {
                        assert(*self == (MarkdownDocumentBuilder { link_url: None, ..mid }));
                        self.push_inline(Inline::LinkUrl(url));
                    },
                    None => {},
                }
            },
            MdTagEnd::Image => {},
            MdTagEnd::Other => {},
        }
    }

    /// Handles one parser event. Inside a code block only its text and line
    /// breaks are collected.
    pub fn handle_event(&mut self, event: MdEvent)
        requires
            old(self).quote_depth < usize::MAX,
        ensures
            event_effect(*old(self), *final(self), event),
            final(self).quote_depth <= old(self).quote_depth + 1,
            final(self).math_placeholders == old(self).math_placeholders,
    {
        if self.code_block.is_some() {
            match event {
                MdEvent::End(MdTagEnd::CodeBlock) => self.handle_end(MdTagEnd::CodeBlock),
                MdEvent::Text(text) => {
                    let (lang, mut code) = self.code_block.take().unwrap();
                    push_str(&mut code, text.as_str());
                    self.code_block = Some((lang, code));
                },
                MdEvent::SoftBreak | MdEvent::HardBreak => {
                    let (lang, mut code) = self.code_block.take().unwrap();
                    code.push('\n');
                    self.code_block = Some((lang, code));
                },
                _ => {},
            }
            return;
        }
        match event {
            MdEvent::Start(tag) => self.handle_start(tag),
            MdEvent::End(tag) => self.handle_end(tag),
            MdEvent::Text(text) => self.push_text(text.as_str()),
            MdEvent::Code(code) => self.push_inline(Inline::Code(code)),
            MdEvent::Html(html) => self.push_text(html.as_str()),
            MdEvent::InlineHtml(html) => self.push_text(html.as_str()),
            MdEvent::FootnoteReference(label) => self.push_inline(Inline::Footnote(label)),
            MdEvent::SoftBreak => {
                proof { reveal_strlit(" "); assert(" "@ =~= seq![' ']); }
                self.push_text(" ");
            },
            MdEvent::HardBreak => self.finish_inlines_as(true),
            MdEvent::Rule => self.emit_block(MdBlock::Rule),
            MdEvent::TaskListMarker(checked) => {
                if checked {
                    proof { reveal_strlit("☑ "); assert("☑ "@ =~= seq!['☑', ' ']); }
                    self.push_text("☑ ");
                } else {
                    proof { reveal_strlit("☐ "); assert("☐ "@ =~= seq!['☐', ' ']); }
                    self.push_text("☐ ");
                }
            },
        }
    }

    /// Closes pending content and returns the document's blocks.
    pub fn finish(self) -> (r: Vec<MdBlock>)
        ensures
            builder_result(self, r),
    {
        let mut b = self;
        b.finish_inlines_as(true);
        assert(finished(self, b, true));
        b.blocks
    }
}

/// The index of the first character at or after `from` that satisfies
/// `want_ws == is_ws`, or the length of `s`.
pub open spec fn skip_while_ws(s: Seq<char>, from: int, ws: bool) -> int
    decreases s.len() - from,
{
    if from < 0 || from >= s.len() {
        if from < 0 { 0 } else { s.len() as int }
    } else if is_ws(s[from]) != ws {
        from
    } else {
        skip_while_ws(s, from + 1, ws)
    }
}

/// The first white-space separated word of `s`, as
/// `s.split_whitespace().next()` gives it.
pub open spec fn first_word_spec(s: Seq<char>) -> Option<Seq<char>> {
    let start = skip_while_ws(s, 0, true);
    if start >= s.len() {
        None
    } else {
        Some(s.subrange(start, skip_while_ws(s, start, false)))
    }
}

pub proof fn lemma_skip_bounds(s: Seq<char>, from: int, ws: bool)
    requires
        0 <= from <= s.len(),
    ensures
        from <= skip_while_ws(s, from, ws) <= s.len(),
    decreases s.len() - from,
{
    if from < s.len() && is_ws(s[from]) == ws {
        lemma_skip_bounds(s, from + 1, ws);
    }
}

/// The first white-space separated word of `s`.
pub fn first_word(s: &str) -> (r: Option<String>)
    ensures
        r is None <==> first_word_spec(s@) is None,
        r matches Some(w) ==> first_word_spec(s@) == Some(w@),
{
    let v = crate::text::to_chars(s);
    let mut i: usize = 0;
    while i < v.len() && is_whitespace(v[i])
        invariant
            i <= v@.len(),
            skip_while_ws(v@, 0, true) == skip_while_ws(v@, i as int, true),
        decreases v.len() - i,
    {
        i = i + 1;
    }
    if i >= v.len() {
        return None;
    }
    let start = i;
    while i < v.len() && !is_whitespace(v[i])
        invariant
            start <= i <= v@.len(),
            skip_while_ws(v@, start as int, false) == skip_while_ws(v@, i as int, false),
        decreases v.len() - i,
    {
        i = i + 1;
    }
    Some(crate::text::string_of_range(&v, start, i))
}

/// Parses Markdown (with math protected from the parser) into blocks.
pub fn parse_markdown_blocks(input: &str) -> (r: Vec<MdBlock>)
    ensures
        ({
            let (protected, ph) = crate::math::protect_from(input@, 0, Seq::empty(), Seq::empty());
            blocks_from_events(cmark_events(protected, CMARK_OPTIONS), ph, r)
        }),
{
    let (protected, math_placeholders) = crate::math::protect_math(input);
    let events = parse_cmark_events(protected.as_str(), CMARK_OPTIONS);
    let ghost evs = events@;
    let ghost ph = placeholders_view(math_placeholders@);
    let mut builder = MarkdownDocumentBuilder::new(math_placeholders);
    let mut events = events;
    let mut rev: Vec<MdEvent> = Vec::new();
    while events.len() > 0
        invariant
            rev@.len() + events@.len() == evs.len(),
            forall|j: int| 0 <= j < events@.len() ==> #[trigger] events@[j] == evs[j],
            forall|j: int| 0 <= j < rev@.len() ==> #[trigger] rev@[j] == evs[evs.len() - 1 - j],
        decreases events@.len(),
    {
        rev.push(events.pop().unwrap());
    }
    let n = rev.len();
    let ghost mut st: Seq<MarkdownDocumentBuilder> = seq![builder];
    assert(fresh_builder(st[0], ph));
    while rev.len() > 0
        invariant
            builder.quote_depth + rev@.len() <= n,
            n == evs.len(),
            forall|j: int| 0 <= j < rev@.len() ==> #[trigger] rev@[j] == evs[evs.len() - 1 - j],
            st.len() == n - rev@.len() + 1,
            fresh_builder(st[0], ph),
            st.last() == builder,
            forall|k: int| #![trigger st[k]] 0 <= k < n - rev@.len() ==> event_effect(st[k], st[k + 1], evs[k]),
        decreases rev@.len(),
    {
        let ghost k = n - rev@.len();
        let e = rev.pop().unwrap();
        assert(e == evs[k]);
        builder.handle_event(e);
        proof {
            let old_st = st;
            st = st.push(builder);
            assert forall|j: int| #![trigger st[j]] 0 <= j < k + 1 implies event_effect(st[j], st[j + 1], evs[j]) by {
                if j < k {
                    assert(st[j] == old_st[j]);
                    assert(st[j + 1] == old_st[j + 1]);
                }
            }
        }
    }
    let r = builder.finish();
    assert(builder_result(st.last(), r));
    r
}


proof fn lemma_split_empty(ph: Seq<(bool, Seq<char>)>)
    ensures
        split_from(Seq::empty(), ph, 0, Seq::empty()) == Seq::<MathPart>::empty(),
{
    crate::text::lemma_find_from_bounds(Seq::empty(), crate::math::ph_prefix(), 0);
}


/// Code-block collection state: the finished blocks and the block being read.
pub open spec fn code_step(st: (Seq<Seq<char>>, Option<Seq<char>>), e: MdEvent) -> (Seq<Seq<char>>, Option<Seq<char>>) {
    let (blocks, cur) = st;
    match e {
        MdEvent::Start(MdTag::CodeBlock(_)) => (blocks, Some(Seq::<char>::empty())),
        MdEvent::End(MdTagEnd::CodeBlock) => match cur {
            Some(c) => (blocks.push(c), None),
            None => (blocks, None),
        },
        MdEvent::Text(t) => match cur {
            Some(c) => (blocks, Some(c + t@)),
            None => (blocks, None),
        },
        MdEvent::SoftBreak | MdEvent::HardBreak => match cur {
            Some(c) => (blocks, Some(c.push('\n'))),
            None => (blocks, None),
        },
        _ => (blocks, cur),
    }
}

/// The collection state after the first `n` events.
pub open spec fn code_fold(events: Seq<MdEvent>, n: nat) -> (Seq<Seq<char>>, Option<Seq<char>>)
    decreases n,
{
    if n == 0 || n > events.len() {
        (Seq::empty(), None)
    } else {
        code_step(code_fold(events, (n - 1) as nat), events[n - 1])
    }
}

/// The texts of the code blocks that an event stream closes, in order.
pub open spec fn code_blocks_of(events: Seq<MdEvent>) -> Seq<Seq<char>> {
    code_fold(events, events.len()).0
}

pub open spec fn strings_view(v: Seq<String>) -> Seq<Seq<char>> {
    v.map_values(|s: String| s@)
}

/// The texts of the code blocks of an event stream: the text events inside
/// each block, with a line feed for each line break.
pub fn code_blocks_from_events(events: &Vec<MdEvent>) -> (r: Vec<String>)
    ensures
        strings_view(r@) == code_blocks_of(events@),
{
    let mut blocks: Vec<String> = Vec::new();
    let mut current: Option<String> = None;
    let mut i: usize = 0;
    while i < events.len()
        invariant
            i <= events@.len(),
            (strings_view(blocks@), match current { Some(c) => Some(c@), None => None::<Seq<char>> })
                == code_fold(events@, i as nat),
        decreases events.len() - i,
    {
        let ghost bv = strings_view(blocks@);
        match &events[i] {
            MdEvent::Start(MdTag::CodeBlock(_)) => {
                current = Some(String::new());
            },
            MdEvent::End(MdTagEnd::CodeBlock) => {
                if let Some(code) = current.take() {
                    blocks.push(code);
                    assert(strings_view(blocks@) =~= bv.push(code@));
                }
            },
            MdEvent::Text(t) => {
                if let Some(code) = current.take() {
                    let mut c = code;
                    push_str(&mut c, t.as_str());
                    current = Some(c);
                }
            },
            MdEvent::SoftBreak | MdEvent::HardBreak => {
                if let Some(code) = current.take() {
                    let mut c = code;
                    c.push('\n');
                    current = Some(c);
                }
            },
            _ => {},
        }
        i = i + 1;
    }
    blocks
}

/// The code blocks of a Markdown text, each as its raw text.
pub fn markdown_code_blocks(input: &str) -> (r: Vec<String>)
    ensures
        strings_view(r@) == code_blocks_of(cmark_events(input@, CMARK_OPTIONS)),
{
    let events = parse_cmark_events(input, CMARK_OPTIONS);
    code_blocks_from_events(&events)
}

} // verus!
