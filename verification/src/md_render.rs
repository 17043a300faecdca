use vstd::prelude::*;
use syntect::easy::HighlightLines;
use syntect::highlighting::Theme as SynTheme;
use syntect::parsing::SyntaxSet;
use crate::style::{Style, Span, Line, Text, Color, default_style, spec_patch, spec_add_modifier, spans_text, line_text, text_lines,
    BOLD, ITALIC, UNDERLINED, REVERSED, CROSSED_OUT};
use crate::theme::Theme;
use crate::text::{grapheme_clusters, concat_all, to_chars, copy_string, push_str, string_from, str_width, graphemes, decimal_string, decimal,
    trim, string_of_range};
use crate::md_doc::{Inline, InlineAttrs, InlineV, MdBlock, inlines_view, parse_markdown_blocks};
use crate::md_events::MdAlign;
use crate::md_layout::{greedy_lines, greedy_wrap, filter_emojis, filter_emojis_spec, inline_display_text, inline_text, inlines_plain, table_widths,
    table_total_width_checked, wrapped_widths, table_separator, pad_cell, wrap_spans, copy_spans, same_spans, repeat_char};
use crate::syn::{SynRgb, find_syntax_by_token, find_syntax_by_name, new_highlighter, highlight_line, syn_to_color};

verus! {

broadcast use vstd::string::group_string_axioms;

/// Numbering state of an open list.
#[derive(Clone, Copy, Debug, PartialEq, Eq, Structural)]
pub struct ListContext {
    pub next_number: Option<u64>,
}

/// Renders Markdown blocks into styled terminal lines.
pub struct MarkdownRenderer<'a> {
    pub text: Text,
    pub current: Vec<Span>,
    pub list_stack: Vec<ListContext>,
    pub pending_list_marker: Option<Vec<Span>>,
    pub quote_depth: usize,
    pub theme: Theme,
    pub inner_width: u16,
    pub ss: &'a SyntaxSet,
    pub syn_theme: &'a SynTheme,
    pub syntax_enabled: bool,
    pub render_emojis: bool,
    pub selected_code_block: Option<usize>,
    pub code_block_index: usize,
}

/// The style of text under span attributes.
pub open spec fn inline_style_spec(t: Theme, attrs: InlineAttrs) -> Style {
    let s0 = default_style();
    let s1 = if attrs.link { spec_add_modifier(Style { fg: Some(t.heading3), ..s0 }, UNDERLINED) } else { s0 };
    let s2 = if attrs.emphasis { spec_add_modifier(s1, ITALIC) } else { s1 };
    let s3 = if attrs.strong { spec_add_modifier(s2, BOLD) } else { s2 };
    if attrs.strike { spec_add_modifier(s3, CROSSED_OUT) } else { s3 }
}

/// The bar that marks each level of block quote.
pub open spec fn quote_bar() -> Seq<char> {
    seq!['▏', ' ']
}

/// Spans as plain values: each one's text and style.
pub open spec fn spans_view(s: Seq<Span>) -> Seq<(Seq<char>, Style)> {
    s.map_values(|x: Span| (x.content@, x.style))
}

/// What a new line starts with: a bar per quote level, then the pending list
/// marker.
pub open spec fn prefix_view(a: MarkdownRenderer) -> Seq<(Seq<char>, Style)> {
    Seq::new(a.quote_depth as nat, |_i: int| (quote_bar(), Style { fg: Some(a.theme.blockquote_bar), ..default_style() }))
        + match a.pending_list_marker {
            Some(m) => spans_view(m@),
            None => Seq::empty(),
        }
}

/// The style an inline is shown in over `base`.
pub open spec fn inline_span_style_spec(t: Theme, i: Inline, base: Style) -> Style {
    match i {
        Inline::Text { attrs, .. } => spec_patch(base, inline_style_spec(t, attrs)),
        Inline::Code(_) => Style { fg: Some(t.inline_code), bg: Some(t.inline_code_bg), ..base },
        Inline::Math { .. } => spec_add_modifier(Style { fg: Some(t.heading2), ..base }, ITALIC),
        Inline::Footnote(_) => Style { fg: Some(t.ordered_number), ..base },
        Inline::Image { .. } => Style { fg: Some(t.status_hint), ..base },
        Inline::LinkUrl(_) => Style { fg: Some(t.status_hint), ..base },
    }
}

/// The spans that inlines become over `base`: each one's text (emoji
/// dropped unless they are rendered) in its style; empty texts give none.
pub open spec fn inline_spans(t: Theme, render_emojis: bool, inlines: Seq<Inline>, base: Style) -> Seq<(Seq<char>, Style)>
    decreases inlines.len(),
{
    if inlines.len() == 0 {
        Seq::empty()
    } else {
        let rest = inline_spans(t, render_emojis, inlines.drop_last(), base);
        let text = filter_emojis_spec(inline_text(inlines.last()@), render_emojis);
        if text.len() > 0 { rest.push((text, inline_span_style_spec(t, inlines.last(), base))) } else { rest }
    }
}

/// The spans a line continues from: those it has, or, when it has none yet,
/// its prefix.
pub open spec fn line_start(a: MarkdownRenderer) -> Seq<(Seq<char>, Style)> {
    if a.current@.len() > 0 { spans_view(a.current@) } else { prefix_view(a) }
}

/// `n` copies of `s`, one after another.
pub open spec fn repeat_seq(s: Seq<char>, n: nat) -> Seq<char>
    decreases n,
{
    if n == 0 { Seq::empty() } else { repeat_seq(s, (n - 1) as nat) + s }
}

/// The marker of the next item of a list: indentation by nesting depth,
/// then the item's number or a bullet.
pub open spec fn list_marker_text(stack: Seq<ListContext>) -> Seq<char> {
    let depth: nat = if stack.len() > 0 { (stack.len() - 1) as nat } else { 0 };
    let indent = repeat_seq(seq![' ', ' '], depth);
    if stack.len() == 0 {
        seq!['•', ' ']
    } else {
        match stack.last().next_number {
            Some(n) => indent + decimal(n as nat) + seq!['.', ' '],
            None => indent + seq!['•', ' '],
        }
    }
}

/// The style of a list marker: numbers and bullets have their own colours.
pub open spec fn marker_style(t: Theme, stack: Seq<ListContext>) -> Style {
    if stack.len() > 0 && stack.last().next_number is Some {
        Style { fg: Some(t.ordered_number), ..default_style() }
    } else {
        Style { fg: Some(t.list_bullet), ..default_style() }
    }
}

/// The list stack after an item was started: the innermost number advances.
pub open spec fn advance_list(stack: Seq<ListContext>) -> Seq<ListContext> {
    if stack.len() == 0 {
        stack
    } else {
        match stack.last().next_number {
            Some(n) => stack.drop_last().push(ListContext { next_number: Some(if n < u64::MAX { (n + 1) as u64 } else { n }) }),
            None => stack,
        }
    }
}

/// `s` repeated `n` times.
pub fn repeat_str(s: &str, n: usize) -> (r: String)
    ensures
        r@ == repeat_seq(s@, n as nat),
{
    let mut out = String::new();
    let mut i: usize = 0;
    while i < n
        invariant
            i <= n,
            out@ == repeat_seq(s@, i as nat),
        decreases n - i,
    {
        push_str(&mut out, s);
        i = i + 1;
    }
    out
}

impl<'a> MarkdownRenderer<'a> {
    /// A renderer with nothing rendered yet.
    pub fn new(
        theme: &Theme,
        inner_width: u16,
        ss: &'a SyntaxSet,
        syn_theme: &'a SynTheme,
        syntax_enabled: bool,
        render_emojis: bool,
        selected_code_block: Option<usize>,
    ) -> (r: Self)
        ensures
            r.text.lines@.len() == 0,
            r.current@.len() == 0,
            r.list_stack@.len() == 0,
            r.pending_list_marker is None,
            r.quote_depth == 0,
            r.theme == *theme,
            r.inner_width == inner_width,
            r.syntax_enabled == syntax_enabled,
            r.render_emojis == render_emojis,
            r.selected_code_block == selected_code_block,
            r.code_block_index == 0,
    {
        MarkdownRenderer {
            text: Text::new(),
            current: Vec::new(),
            list_stack: Vec::new(),
            pending_list_marker: None,
            quote_depth: 0,
            theme: *theme,
            inner_width,
            ss,
            syn_theme,
            syntax_enabled,
            render_emojis,
            selected_code_block,
            code_block_index: 0,
        }
    }

    /// The rendered text, with the pending line closed.
    pub fn finish(self) -> (r: Text)
        ensures
            self.current@.len() == 0 ==> r.lines@ == self.text.lines@,
            self.current@.len() > 0 ==> r.lines@.len() == self.text.lines@.len() + 1
                && r.lines@.drop_last() == self.text.lines@
                && r.lines@.last().spans@ == self.current@,
    {
        let mut me = self;
        me.flush_line();
        me.text
    }

    /// Starts a new line's prefix: a bar per quote level, then the pending
    /// list marker. Does nothing when the line already has content.
    pub fn ensure_prefix(&mut self)
        ensures
            old(self).current@.len() > 0 ==> final(self).current@ == old(self).current@
                && final(self).pending_list_marker == old(self).pending_list_marker,
            old(self).current@.len() == 0 ==> final(self).pending_list_marker is None
                && final(self).current@.len() == old(self).quote_depth + (match old(self).pending_list_marker {
                    Some(m) => m@.len(),
                    None => 0,
                })
                && (forall|i: int| 0 <= i < old(self).quote_depth ==> (#[trigger] final(self).current@[i]).content@ == quote_bar()
                    && final(self).current@[i].style == (Style { fg: Some(old(self).theme.blockquote_bar), ..default_style() }))
                && (old(self).pending_list_marker matches Some(m) ==> final(self).current@.subrange(old(self).quote_depth as int, final(self).current@.len() as int) == m@)
                && spans_view(final(self).current@) == prefix_view(*old(self)),
            final(self).text == old(self).text,
            final(self).quote_depth == old(self).quote_depth,
            final(self).theme == old(self).theme,
            final(self).list_stack == old(self).list_stack,
            final(self).inner_width == old(self).inner_width,
            final(self).render_emojis == old(self).render_emojis,
            final(self).code_block_index == old(self).code_block_index,
            final(self).selected_code_block == old(self).selected_code_block,
            final(self).syntax_enabled == old(self).syntax_enabled,
    {
        if self.current.len() > 0 {
            return;
        }
        let mut i: usize = 0;
        while i < self.quote_depth
            invariant
                i <= self.quote_depth,
                self.quote_depth == old(self).quote_depth,
                self.theme == old(self).theme,
                self.current@.len() == i,
                self.text == old(self).text,
                self.pending_list_marker == old(self).pending_list_marker,
                self.list_stack == old(self).list_stack,
                self.inner_width == old(self).inner_width,
                self.render_emojis == old(self).render_emojis,
                self.code_block_index == old(self).code_block_index,
                self.selected_code_block == old(self).selected_code_block,
                self.syntax_enabled == old(self).syntax_enabled,
                forall|k: int| 0 <= k < i ==> (#[trigger] self.current@[k]).content@ == quote_bar()
                    && self.current@[k].style == (Style { fg: Some(old(self).theme.blockquote_bar), ..default_style() }),
            decreases self.quote_depth - i,
        {
            let bar = string_from("▏ ");
            proof { reveal_strlit("▏ "); }
            assert(bar@ =~= quote_bar());
            let st = Style::new().fg(self.theme.blockquote_bar);
            self.current.push(Span::styled(bar, st));
            i = i + 1;
        }
        let ghost c0 = self.current@;
        match self.pending_list_marker.take() {
            Some(marker) => {
                let mut m = marker;
                let ghost mv = m@;
                let mut k: usize = 0;
                let mut rev: Vec<Span> = Vec::new();
                while m.len() > 0
                    invariant
                        rev@.len() + m@.len() == mv.len(),
                        forall|j: int| 0 <= j < m@.len() ==> #[trigger] m@[j] == mv[j],
                        forall|j: int| 0 <= j < rev@.len() ==> #[trigger] rev@[j] == mv[mv.len() - 1 - j],
                    decreases m@.len(),
                {
                    rev.push(m.pop().unwrap());
                }
                let n = rev.len();
                while rev.len() > 0
                    invariant
                        k + rev@.len() == n,
                        n == mv.len(),
                        forall|j: int| 0 <= j < rev@.len() ==> #[trigger] rev@[j] == mv[mv.len() - 1 - j],
                        self.current@ == c0 + mv.subrange(0, k as int),
                        self.text == old(self).text,
                        self.pending_list_marker is None,
                        self.quote_depth == old(self).quote_depth,
                        self.theme == old(self).theme,
                        self.list_stack == old(self).list_stack,
                        self.inner_width == old(self).inner_width,
                        self.render_emojis == old(self).render_emojis,
                        self.code_block_index == old(self).code_block_index,
                        self.selected_code_block == old(self).selected_code_block,
                        self.syntax_enabled == old(self).syntax_enabled,
                    decreases rev@.len(),
                {
                    let sp = rev.pop().unwrap();
                    self.current.push(sp);
                    assert(self.current@ =~= c0 + mv.subrange(0, k + 1));
                    k = k + 1;
                }
                assert(mv.subrange(0, mv.len() as int) =~= mv);
                assert(self.current@.subrange(old(self).quote_depth as int, self.current@.len() as int) =~= mv);
            },
            None => {},
        }
    }

    /// Appends text in `style` to the current line (emoji dropped unless
    /// rendered); empty text adds nothing.
    pub fn push_span(&mut self, content: String, style: Style)
        ensures
            filter_emojis_spec(content@, old(self).render_emojis).len() == 0 ==> *final(self) == *old(self),
            filter_emojis_spec(content@, old(self).render_emojis).len() > 0 ==>
                final(self).current@.len() > 0
                && final(self).current@.last().content@ == filter_emojis_spec(content@, old(self).render_emojis)
                && final(self).current@.last().style == style
                && (old(self).current@.len() > 0 ==> final(self).current@.drop_last() == old(self).current@)
                && spans_view(final(self).current@) == line_start(*old(self)).push((filter_emojis_spec(content@, old(self).render_emojis), style))
                && (old(self).current@.len() > 0 ==> final(self).pending_list_marker == old(self).pending_list_marker)
                && (old(self).current@.len() == 0 ==> final(self).pending_list_marker is None),
            final(self).text == old(self).text,
            final(self).quote_depth == old(self).quote_depth,
            final(self).theme == old(self).theme,
            final(self).list_stack == old(self).list_stack,
            final(self).inner_width == old(self).inner_width,
            final(self).render_emojis == old(self).render_emojis,
            final(self).code_block_index == old(self).code_block_index,
            final(self).selected_code_block == old(self).selected_code_block,
            final(self).syntax_enabled == old(self).syntax_enabled,
    {
        let c = filter_emojis(content, self.render_emojis);
        if c.as_str().is_empty() {
            return;
        }
        self.ensure_prefix();
        self.current.push(Span::styled(c, style));
    }

    /// Closes the current line, if it has content.
    pub fn flush_line(&mut self)
        ensures
            old(self).current@.len() == 0 ==> *final(self) == *old(self),
            old(self).current@.len() > 0 ==> final(self).text.lines@.len() == old(self).text.lines@.len() + 1
                && final(self).text.lines@.drop_last() == old(self).text.lines@
                && final(self).text.lines@.last().spans@ == old(self).current@
                && final(self).text.lines@.last().style == default_style()
                && final(self).current@.len() == 0,
            final(self).pending_list_marker == old(self).pending_list_marker,
            final(self).quote_depth == old(self).quote_depth,
            final(self).theme == old(self).theme,
            final(self).list_stack == old(self).list_stack,
            final(self).inner_width == old(self).inner_width,
            final(self).render_emojis == old(self).render_emojis,
            final(self).code_block_index == old(self).code_block_index,
            final(self).selected_code_block == old(self).selected_code_block,
            final(self).syntax_enabled == old(self).syntax_enabled,
    {
        if self.current.len() > 0 {
            let mut spans = Vec::new();
            std::mem::swap(&mut spans, &mut self.current);
            let ghost l0 = self.text.lines@;
            self.text.push_line(Line::from_spans(spans));
            assert(self.text.lines@.drop_last() =~= l0);
        }
    }

    /// Adds `modifier` to every span of the last line.
    pub fn add_modifier_to_last_line(&mut self, modifier: u16)
        ensures
            final(self).text.lines@.len() == old(self).text.lines@.len(),
            old(self).text.lines@.len() > 0 ==> final(self).text.lines@.drop_last() == old(self).text.lines@.drop_last()
                && final(self).text.lines@.last().spans@.len() == old(self).text.lines@.last().spans@.len()
                && final(self).text.lines@.last().style == old(self).text.lines@.last().style
                && forall|i: int| 0 <= i < final(self).text.lines@.last().spans@.len() ==>
                    (#[trigger] final(self).text.lines@.last().spans@[i]).content@ == old(self).text.lines@.last().spans@[i].content@
                    && final(self).text.lines@.last().spans@[i].style == spec_add_modifier(old(self).text.lines@.last().spans@[i].style, modifier),
            old(self).text.lines@.len() == 0 ==> final(self).text == old(self).text,
            final(self).current == old(self).current,
            final(self).pending_list_marker == old(self).pending_list_marker,
            final(self).quote_depth == old(self).quote_depth,
            final(self).theme == old(self).theme,
            final(self).list_stack == old(self).list_stack,
            final(self).inner_width == old(self).inner_width,
            final(self).render_emojis == old(self).render_emojis,
            final(self).code_block_index == old(self).code_block_index,
            final(self).selected_code_block == old(self).selected_code_block,
            final(self).syntax_enabled == old(self).syntax_enabled,
    {
        if self.text.lines.len() == 0 {
            return;
        }
        let last = self.text.lines.pop().unwrap();
        let ghost old_spans = last.spans@;
        let mut spans = last.spans;
        let mut rev: Vec<Span> = Vec::new();
        while spans.len() > 0
            invariant
                rev@.len() + spans@.len() == old_spans.len(),
                forall|j: int| 0 <= j < spans@.len() ==> #[trigger] spans@[j] == old_spans[j],
                forall|j: int| 0 <= j < rev@.len() ==> #[trigger] rev@[j] == old_spans[old_spans.len() - 1 - j],
            decreases spans@.len(),
        {
            rev.push(spans.pop().unwrap());
        }
        let mut out: Vec<Span> = Vec::new();
        let n = rev.len();
        while rev.len() > 0
            invariant
                out@.len() + rev@.len() == n,
                n == old_spans.len(),
                forall|j: int| 0 <= j < rev@.len() ==> #[trigger] rev@[j] == old_spans[old_spans.len() - 1 - j],
                forall|j: int| 0 <= j < out@.len() ==> (#[trigger] out@[j]).content@ == old_spans[j].content@
                    && out@[j].style == spec_add_modifier(old_spans[j].style, modifier),
            decreases rev@.len(),
        {
            let sp = rev.pop().unwrap();
            let st = sp.style.add_modifier(modifier);
            out.push(Span { content: sp.content, style: st });
        }
        self.text.lines.push(Line { spans: out, style: last.style });
    }

    /// Closes the current line and adds an empty line, unless there is no
    /// line yet or the last line is already blank.
    pub fn push_blank_line(&mut self)
        ensures
            blank_line_pushed(*old(self), *final(self)),
            final(self).current@.len() == 0,
            final(self).quote_depth == old(self).quote_depth,
            final(self).theme == old(self).theme,
            final(self).list_stack == old(self).list_stack,
            final(self).pending_list_marker == old(self).pending_list_marker,
            final(self).inner_width == old(self).inner_width,
            final(self).render_emojis == old(self).render_emojis,
            final(self).code_block_index == old(self).code_block_index,
            final(self).selected_code_block == old(self).selected_code_block,
            final(self).syntax_enabled == old(self).syntax_enabled,
    {
        self.flush_line();
        let n = self.text.lines.len();
        if n == 0 {
            return;
        }
        let already_blank = line_is_blank(&self.text.lines[n - 1]);
        proof {
            if old(self).current@.len() > 0 {
                assert(self.text.lines@[n - 1].spans@ == old(self).current@);
            }
        }
        if !already_blank {
            let ghost l0 = self.text.lines@;
            self.text.push_line(Line::empty());
            assert(self.text.lines@.subrange(0, l0.len() as int) =~= l0);
        }
    }

    /// The style of text under `attrs`.
    pub fn inline_style(&self, attrs: InlineAttrs) -> (r: Style)
        ensures
            r == inline_style_spec(self.theme, attrs),
    {
        let mut style = Style::new();
        if attrs.link {
            style = style.fg(self.theme.heading3).add_modifier(UNDERLINED);
        }
        if attrs.emphasis {
            style = style.add_modifier(ITALIC);
        }
        if attrs.strong {
            style = style.add_modifier(BOLD);
        }
        if attrs.strike {
            style = style.add_modifier(CROSSED_OUT);
        }
        style
    }

    /// The style an inline is shown in over `base`.
    pub fn inline_span_style(&self, inline: &Inline, base: Style) -> (r: Style)
        ensures
            inline matches Inline::Text { attrs, .. } ==> r == spec_patch(base, inline_style_spec(self.theme, *attrs)),
            inline is Code ==> r == (Style { fg: Some(self.theme.inline_code), bg: Some(self.theme.inline_code_bg), ..base }),
            inline is Math ==> r == spec_add_modifier((Style { fg: Some(self.theme.heading2), ..base }), ITALIC),
            inline is Footnote ==> r == (Style { fg: Some(self.theme.ordered_number), ..base }),
            (inline is Image || inline is LinkUrl) ==> r == (Style { fg: Some(self.theme.status_hint), ..base }),
            r == inline_span_style_spec(self.theme, *inline, base),
    {
        match inline {
            Inline::Text { attrs, .. } => base.patch(self.inline_style(*attrs)),
            Inline::Code(_) => base.fg(self.theme.inline_code).bg(self.theme.inline_code_bg),
            Inline::Math { .. } => base.fg(self.theme.heading2).add_modifier(ITALIC),
            Inline::Footnote(_) => base.fg(self.theme.ordered_number),
            Inline::Image { .. } => base.fg(self.theme.status_hint),
            Inline::LinkUrl(_) => base.fg(self.theme.status_hint),
        }
    }

    /// Appends the inlines to the current line, each in its style over
    /// `base_style`.
    pub fn render_inlines(&mut self, inlines: &Vec<Inline>, base_style: Style)
        ensures
            ({
                let sp = inline_spans(old(self).theme, old(self).render_emojis, inlines@, base_style);
                &&& sp.len() == 0 ==> *final(self) == *old(self)
                &&& sp.len() > 0 ==> spans_view(final(self).current@) == line_start(*old(self)) + sp
                &&& (sp.len() > 0 && old(self).current@.len() == 0) ==> final(self).pending_list_marker is None
                &&& old(self).current@.len() > 0 ==> final(self).pending_list_marker == old(self).pending_list_marker
            }),
            final(self).text == old(self).text,
            final(self).quote_depth == old(self).quote_depth,
            final(self).theme == old(self).theme,
            final(self).list_stack == old(self).list_stack,
            final(self).inner_width == old(self).inner_width,
            final(self).render_emojis == old(self).render_emojis,
            final(self).code_block_index == old(self).code_block_index,
            final(self).selected_code_block == old(self).selected_code_block,
            final(self).syntax_enabled == old(self).syntax_enabled,
    {
        let mut i: usize = 0;
        assert(inlines@.take(0) =~= Seq::<Inline>::empty());
        while i < inlines.len()
            invariant
                i <= inlines@.len(),
                ({
                    let done = inline_spans(old(self).theme, old(self).render_emojis, inlines@.take(i as int), base_style);
                    &&& done.len() == 0 ==> *self == *old(self)
                    &&& done.len() > 0 ==> spans_view(self.current@) == line_start(*old(self)) + done
                    &&& (done.len() > 0 && old(self).current@.len() == 0) ==> self.pending_list_marker is None
                    &&& old(self).current@.len() > 0 ==> self.pending_list_marker == old(self).pending_list_marker
                        && self.current@.len() > 0
                }),
                self.text == old(self).text,
                self.quote_depth == old(self).quote_depth,
                self.theme == old(self).theme,
                self.list_stack == old(self).list_stack,
                self.inner_width == old(self).inner_width,
                self.render_emojis == old(self).render_emojis,
                self.code_block_index == old(self).code_block_index,
                self.selected_code_block == old(self).selected_code_block,
                self.syntax_enabled == old(self).syntax_enabled,
            decreases inlines.len() - i,
        {
            let st = self.inline_span_style(&inlines[i], base_style);
            let t = inline_display_text(&inlines[i]);
            assert(inlines@.take(i + 1).drop_last() =~= inlines@.take(i as int));
            assert(inlines@.take(i + 1).last() == inlines@[i as int]);
            self.push_span(t, st);
            i = i + 1;
        }
        assert(inlines@.take(inlines@.len() as int) =~= inlines@);
    }

    /// Prepares the marker of the next list item.
    pub fn start_list_item(&mut self)
        ensures
            final(self).pending_list_marker is Some,
            final(self).pending_list_marker->0@.len() == 1,
            final(self).pending_list_marker->0@[0].content@ == list_marker_text(old(self).list_stack@),
            final(self).pending_list_marker->0@[0].style == marker_style(old(self).theme, old(self).list_stack@),
            final(self).list_stack@ == advance_list(old(self).list_stack@),
            final(self).text == old(self).text,
            final(self).current == old(self).current,
            final(self).quote_depth == old(self).quote_depth,
            final(self).theme == old(self).theme,
            final(self).inner_width == old(self).inner_width,
            final(self).render_emojis == old(self).render_emojis,
            final(self).code_block_index == old(self).code_block_index,
            final(self).selected_code_block == old(self).selected_code_block,
            final(self).syntax_enabled == old(self).syntax_enabled,
    {
        let len = self.list_stack.len();
        let depth = if len > 0 { len - 1 } else { 0 };
        let indent = repeat_str("  ", depth);
        proof { reveal_strlit("  "); assert("  "@ =~= seq![' ', ' ']); }
        let marker = if len > 0 {
            let ctx = self.list_stack.pop().unwrap();
            match ctx.next_number {
                Some(n) => {
                    let mut m = copy_string(&indent);
                    let digits = decimal_string(n);
                    push_str(&mut m, digits.as_str());
                    push_str(&mut m, ". ");
                    proof { reveal_strlit(". "); }
                    assert(m@ =~= list_marker_text(old(self).list_stack@));
                    let next = if n < u64::MAX { n + 1 } else { n };
                    self.list_stack.push(ListContext { next_number: Some(next) });
                    Span::styled(m, Style::new().fg(self.theme.ordered_number))
                },
                None => {
                    let mut m = copy_string(&indent);
                    push_str(&mut m, "• ");
                    proof { reveal_strlit("• "); }
                    assert(m@ =~= list_marker_text(old(self).list_stack@));
                    self.list_stack.push(ctx);
                    Span::styled(m, Style::new().fg(self.theme.list_bullet))
                },
            }
        } else {
            let m = string_from("• ");
            proof { reveal_strlit("• "); }
            assert(m@ =~= list_marker_text(old(self).list_stack@));
            Span::styled(m, Style::new().fg(self.theme.list_bullet))
        };
        let mut v = Vec::new();
        v.push(marker);
        self.pending_list_marker = Some(v);
    }

    /// Appends a highlighted code line from the highlighter's runs: their
    /// graphemes, each in its run's colour over the code background, filled
    /// greedily into lines of the code width, each line padded with no-break
    /// spaces.
    #[verifier::rlimit(60)]
    pub fn push_highlighted_runs(&mut self, runs: &Vec<(SynRgb, String)>)
        ensures
            final(self).text.lines@.len() > old(self).text.lines@.len(),
            final(self).text.lines@.subrange(0, old(self).text.lines@.len() as int) == old(self).text.lines@,
            lines_view(final(self).text.lines@.subrange(old(self).text.lines@.len() as int, final(self).text.lines@.len() as int))
                == code_hl_lines(runs@.map_values(|p: (SynRgb, String)| (p.0, p.1@)), code_width(old(self).inner_width), old(self).theme),
            final(self).current == old(self).current,
            final(self).pending_list_marker == old(self).pending_list_marker,
            final(self).quote_depth == old(self).quote_depth,
            final(self).theme == old(self).theme,
            final(self).list_stack == old(self).list_stack,
            final(self).inner_width == old(self).inner_width,
            final(self).render_emojis == old(self).render_emojis,
            final(self).code_block_index == old(self).code_block_index,
            final(self).selected_code_block == old(self).selected_code_block,
            final(self).syntax_enabled == old(self).syntax_enabled,
    {
        let style_bg = Style::new().bg(self.theme.code_block_bg);
        let pad_style = style_bg.fg(self.theme.code_block_fg);
        let w: usize = if self.inner_width == 0 { 1 } else { self.inner_width as usize };
        let ghost l0 = self.text.lines@;
        let ghost n0 = l0.len() as int;
        let ghost wn = code_width(self.inner_width);
        assert(pad_style == code_pad_style(self.theme));
        let ghost rs = runs@.map_values(|p: (SynRgb, String)| (p.0, p.1@));
        proof {
            assert(runs@.map_values(|p: (SynRgb, String)| p.1@) =~= rs.map_values(|p: (SynRgb, Seq<char>)| p.1));
        }
        let mut cur_line: Vec<Span> = Vec::new();
        let mut cur_w: usize = 0;
        let mut i: usize = 0;
        while i < runs.len()
            invariant
                i <= runs@.len(),
                w >= 1,
                w as nat == wn,
                rs == runs@.map_values(|p: (SynRgb, String)| (p.0, p.1@)),
                style_bg == (Style { bg: Some(old(self).theme.code_block_bg), ..default_style() }),
                pad_style == code_pad_style(old(self).theme),
                self.text.lines@.len() >= l0.len(),
                n0 == l0.len(),
                self.text.lines@.subrange(0, l0.len() as int) == l0,
                ({
                    let g = greedy_lines(hl_items(rs.take(i as int), old(self).theme.code_block_bg), wn);
                    &&& lines_view(self.text.lines@.subrange(n0, self.text.lines@.len() as int)) == g.0.map_values(|l: Seq<(Seq<char>, Style)>| padded_code_line(l, wn, old(self).theme))
                    &&& spans_view(cur_line@) == g.1
                    &&& cur_w as nat == g.2
                }),
                self.current == old(self).current,
                self.pending_list_marker == old(self).pending_list_marker,
                self.quote_depth == old(self).quote_depth,
                self.theme == old(self).theme,
                self.list_stack == old(self).list_stack,
                self.inner_width == old(self).inner_width,
                self.render_emojis == old(self).render_emojis,
                self.code_block_index == old(self).code_block_index,
                self.selected_code_block == old(self).selected_code_block,
                self.syntax_enabled == old(self).syntax_enabled,
            decreases runs.len() - i,
        {
            let ghost pre = hl_items(rs.take(i as int), old(self).theme.code_block_bg);
            let seg = &runs[i].1;
            proof {
                assert(rs.take(i + 1).drop_last() =~= rs.take(i as int));
                assert(rs.take(i + 1).last() == rs[i as int]);
            }
            if !seg.as_str().is_empty() {
                let st = style_bg.fg(syn_to_color(runs[i].0));
                let gs = graphemes(seg.as_str());
                let ghost gseq = grapheme_clusters(seg@);
                let mut k: usize = 0;
                while k < gs.len()
                    invariant
                        k <= gs@.len(),
                        w >= 1,
                        w as nat == wn,
                        gs@.len() == gseq.len(),
                        forall|q: int| 0 <= q < gs@.len() ==> (#[trigger] gs@[q])@ == gseq[q],
                        pad_style == code_pad_style(old(self).theme),
                        self.text.lines@.len() >= l0.len(),
                        n0 == l0.len(),
                        self.text.lines@.subrange(0, l0.len() as int) == l0,
                        ({
                            let g = greedy_lines(pre + gseq.take(k as int).map_values(|x: Seq<char>| (x, st)), wn);
                            &&& lines_view(self.text.lines@.subrange(n0, self.text.lines@.len() as int)) == g.0.map_values(|l: Seq<(Seq<char>, Style)>| padded_code_line(l, wn, old(self).theme))
                            &&& spans_view(cur_line@) == g.1
                            &&& cur_w as nat == g.2
                        }),
                        self.current == old(self).current,
                        self.pending_list_marker == old(self).pending_list_marker,
                        self.quote_depth == old(self).quote_depth,
                        self.theme == old(self).theme,
                        self.list_stack == old(self).list_stack,
                        self.inner_width == old(self).inner_width,
                        self.render_emojis == old(self).render_emojis,
                        self.code_block_index == old(self).code_block_index,
                        self.selected_code_block == old(self).selected_code_block,
                        self.syntax_enabled == old(self).syntax_enabled,
                    decreases gs.len() - k,
                {
                    let ghost items0 = pre + gseq.take(k as int).map_values(|x: Seq<char>| (x, st));
                    let ghost items1 = pre + gseq.take(k + 1).map_values(|x: Seq<char>| (x, st));
                    let ghost it = (gseq[k as int], st);
                    proof {
                        assert(items1.drop_last() =~= items0);
                        assert(items1.last() == it);
                        lemma_greedy_width(items0, wn);
                    }
                    let ghost g0 = greedy_lines(items0, wn);
                    let gw = str_width(gs[k].as_str());
                    let too_wide = match cur_w.checked_add(gw) {
                        None => true,
                        Some(t) => t > w,
                    };
                    if too_wide && cur_w > 0 {
                        let pad_len = w.saturating_sub(cur_w);
                        let ghost c0 = cur_line@;
                        if pad_len > 0 {
                            cur_line.push(Span::styled(repeat_char('\u{A0}', pad_len), pad_style));
                        }
                        proof {
                            assert(spans_view(cur_line@) =~= padded_code_line(g0.1, wn, old(self).theme).0);
                        }
                        let mut done = Vec::new();
                        std::mem::swap(&mut done, &mut cur_line);
                        let ghost lb = self.text.lines@;
                        let ln = Line::from_spans(done);
                        proof { lemma_lines_view_push(lb, ln, n0); }
                        self.text.push_line(ln);
                        proof {
                            assert(self.text.lines@.subrange(0, l0.len() as int) =~= lb.subrange(0, l0.len() as int));
                            assert(g0.0.push(g0.1).map_values(|l: Seq<(Seq<char>, Style)>| padded_code_line(l, wn, old(self).theme))
                                =~= g0.0.map_values(|l: Seq<(Seq<char>, Style)>| padded_code_line(l, wn, old(self).theme)).push(padded_code_line(g0.1, wn, old(self).theme)));
                            assert(spans_view(cur_line@) =~= Seq::<(Seq<char>, Style)>::empty());
                        }
                        cur_w = 0;
                    }
                    let ghost cv = spans_view(cur_line@);
                    cur_line.push(Span::styled(copy_string(&gs[k]), st));
                    assert(spans_view(cur_line@) =~= cv.push(it));
                    cur_w = cur_w.saturating_add(gw);
                    k = k + 1;
                }
                proof {
                    assert(gseq.take(gseq.len() as int) =~= gseq);
                    assert(hl_items(rs.take(i + 1), old(self).theme.code_block_bg) =~= pre + gseq.take(gs@.len() as int).map_values(|x: Seq<char>| (x, st)));
                }
            } else {
                proof {
                    assert(hl_items(rs.take(i + 1), old(self).theme.code_block_bg) == pre);
                }
            }
            i = i + 1;
        }
        proof {
            assert(rs.take(rs.len() as int) =~= rs);
            lemma_greedy_width(hl_items(rs, old(self).theme.code_block_bg), wn);
        }
        let ghost gf = greedy_lines(hl_items(rs, old(self).theme.code_block_bg), wn);
        let pad_len = w.saturating_sub(cur_w);
        if pad_len > 0 {
            cur_line.push(Span::styled(repeat_char('\u{A0}', pad_len), pad_style));
        }
        assert(spans_view(cur_line@) =~= padded_code_line(gf.1, wn, old(self).theme).0);
        let ghost lb = self.text.lines@;
        let ln = Line::from_spans(cur_line);
        proof { lemma_lines_view_push(lb, ln, n0); }
        self.text.push_line(ln);
        proof {
            assert(self.text.lines@.subrange(0, l0.len() as int) =~= lb.subrange(0, l0.len() as int));
            assert(gf.0.push(gf.1).map_values(|l: Seq<(Seq<char>, Style)>| padded_code_line(l, wn, old(self).theme))
                =~= gf.0.map_values(|l: Seq<(Seq<char>, Style)>| padded_code_line(l, wn, old(self).theme)).push(padded_code_line(gf.1, wn, old(self).theme)));
            assert(lines_view(self.text.lines@.subrange(n0, self.text.lines@.len() as int)) =~= code_hl_lines(rs, wn, old(self).theme));
        }
    }

    /// Appends each line of a code block, padded to the full width with
    /// no-break spaces; highlighted and wrapped by grapheme when a
    /// highlighter is given.
    #[verifier::rlimit(60)]
    fn push_code_block_line(&mut self, raw: &str, high: &mut Option<HighlightLines<'a>>)
        requires
            !raw@.contains('\n'),
        ensures
            final(self).text.lines@.len() > old(self).text.lines@.len(),
            final(self).text.lines@.subrange(0, old(self).text.lines@.len() as int) == old(self).text.lines@,
            code_line_added(raw@, code_width(old(self).inner_width), old(self).theme, (*old(high)) is Some,
                lines_view(final(self).text.lines@.subrange(old(self).text.lines@.len() as int, final(self).text.lines@.len() as int))),
            (*final(high)) is Some == (*old(high)) is Some,
            final(self).current == old(self).current,
            final(self).pending_list_marker == old(self).pending_list_marker,
            final(self).quote_depth == old(self).quote_depth,
            final(self).theme == old(self).theme,
            final(self).list_stack == old(self).list_stack,
            final(self).inner_width == old(self).inner_width,
            final(self).render_emojis == old(self).render_emojis,
            final(self).code_block_index == old(self).code_block_index,
            final(self).selected_code_block == old(self).selected_code_block,
            final(self).syntax_enabled == old(self).syntax_enabled,
    {
        let style_bg = Style::new().bg(self.theme.code_block_bg);
        let pad_style = style_bg.fg(self.theme.code_block_fg);
        let w: usize = if self.inner_width == 0 { 1 } else { self.inner_width as usize };
        let ghost l0 = self.text.lines@;
        let ghost n0 = l0.len() as int;
        let ghost wn = code_width(self.inner_width);
        assert(pad_style == code_pad_style(self.theme));
        if raw.is_empty() {
            let fill = repeat_char('\u{A0}', w);
            assert(!fill@.contains('\n'));
            assert(fill@.last() == '\u{A0}');
            assert(fill@ =~= nbsp(wn));
            let ln = Line::styled(fill, pad_style);
            assert(spans_view(ln.spans@) =~= seq![(nbsp(wn), default_style())]);
            proof { lemma_lines_view_push(l0, ln, n0); }
            self.text.push_line(ln);
            assert(self.text.lines@.subrange(0, l0.len() as int) =~= l0);
            assert(l0.subrange(n0, n0) =~= Seq::<Line>::empty());
            assert(lines_view(self.text.lines@.subrange(n0, self.text.lines@.len() as int))
                =~= seq![(seq![(nbsp(wn), default_style())], code_pad_style(old(self).theme))]);
            return;
        }
        match high {
            Some(h) => {
                let ranges = highlight_line(h, raw, self.ss);
                self.push_highlighted_runs(&ranges);
                proof {
                    let rs = ranges@.map_values(|p: (SynRgb, String)| (p.0, p.1@));
                    assert(ranges@.map_values(|p: (SynRgb, String)| p.1@) =~= rs.map_values(|p: (SynRgb, Seq<char>)| p.1));
                    assert(code_ranges_cover(rs, raw@));
                }
            },
            None => {
                let mut line = string_from(raw);
                let cur_w = str_width(line.as_str());
                if cur_w < w {
                    let fill = repeat_char('\u{A0}', w - cur_w);
                    push_str(&mut line, fill.as_str());
                }
                assert(line@ =~= raw@ + code_fill(raw@, wn));
                assert(!line@.contains('\n')) by {
                    if line@.contains('\n') {
                        let j = choose|j: int| 0 <= j < line@.len() && line@[j] == '\n';
                        if j < raw@.len() {
                            assert(raw@[j] == '\n');
                        }
                    }
                }
                let ghost lv = line@;
                let ln = Line::styled(line, pad_style);
                assert(spans_view(ln.spans@) =~= seq![(strip_cr(lv), default_style())]);
                proof { lemma_lines_view_push(l0, ln, n0); }
                self.text.push_line(ln);
                assert(self.text.lines@.subrange(0, l0.len() as int) =~= l0);
                assert(l0.subrange(n0, n0) =~= Seq::<Line>::empty());
                assert(lines_view(self.text.lines@.subrange(n0, self.text.lines@.len() as int))
                    =~= seq![plain_code_line(raw@, wn, old(self).theme)]);
            },
        }
    }

    /// Renders a code block line by line; the selected block's lines are
    /// shown reversed.
    pub fn render_code_block(&mut self, language: Option<String>, contents: String)
        ensures
            code_block_rendered(*old(self), *final(self), contents@),
            final(self).pending_list_marker == old(self).pending_list_marker,
            final(self).quote_depth == old(self).quote_depth,
            final(self).theme == old(self).theme,
            final(self).list_stack == old(self).list_stack,
            final(self).inner_width == old(self).inner_width,
            final(self).render_emojis == old(self).render_emojis,
            final(self).selected_code_block == old(self).selected_code_block,
            final(self).syntax_enabled == old(self).syntax_enabled,
    {
        let ghost a = *self;
        self.flush_line();
        let ghost n1 = self.text.lines@.len() as int;
        let ghost pre = self.text.lines@;
        assert(lines_view(pre) =~= lines_view(a.text.lines@) + flushed_view(a));
        let selected = match self.selected_code_block {
            Some(k) => k == self.code_block_index,
            None => false,
        };
        if self.code_block_index < usize::MAX {
            self.code_block_index = self.code_block_index + 1;
        }
        let mut high: Option<HighlightLines<'a>> = None;
        if self.syntax_enabled {
            let by_token = match &language {
                Some(lang) => if lang.as_str().is_empty() { None } else { find_syntax_by_token(self.ss, lang.as_str()) },
                None => None,
            };
            let syn = match by_token {
                Some(s) => Some(s),
                None => find_syntax_by_name(self.ss, "Plain Text"),
            };
            match syn {
                Some(s) => {
                    high = Some(new_highlighter(s, self.syn_theme));
                },
                None => {},
            }
        }
        let ghost hl = high is Some;
        let ghost w = code_width(a.inner_width);
        let ghost raws = code_raws(contents@, a.render_emojis);
        let lines = code_lines(contents.as_str());
        let ghost mut groups: Seq<Seq<(Seq<(Seq<char>, Style)>, Style)>> = Seq::empty();
        let mut i: usize = 0;
        while i < lines.len()
            invariant
                i <= lines@.len(),
                lines@.len() == code_lines_spec(contents@).len(),
                forall|j: int| 0 <= j < lines@.len() ==> (#[trigger] lines@[j])@ == code_lines_spec(contents@)[j],
                forall|j: int| 0 <= j < lines@.len() ==> !(#[trigger] lines@[j])@.contains('\n'),
                raws == code_raws(contents@, a.render_emojis),
                w == code_width(a.inner_width),
                selected == (a.selected_code_block == Some(a.code_block_index)),
                (high is Some) == hl,
                !a.syntax_enabled ==> !hl,
                self.text.lines@.len() >= n1,
                n1 == pre.len(),
                self.text.lines@.subrange(0, n1) == pre,
                groups.len() == i,
                forall|j: int| 0 <= j < i ==> code_line_added(#[trigger] raws[j], w, a.theme, hl, groups[j]),
                lines_view(self.text.lines@.subrange(n1, self.text.lines@.len() as int)) == concat_groups(groups, selected),
                self.current@.len() == 0,
                self.code_block_index == (if a.code_block_index < usize::MAX { a.code_block_index + 1 } else { a.code_block_index as int }),
                self.pending_list_marker == a.pending_list_marker,
                self.quote_depth == a.quote_depth,
                self.theme == a.theme,
                self.list_stack == a.list_stack,
                self.inner_width == a.inner_width,
                self.render_emojis == a.render_emojis,
                self.selected_code_block == a.selected_code_block,
                self.syntax_enabled == a.syntax_enabled,
            decreases lines.len() - i,
        {
            let raw = filter_emojis(copy_string(&lines[i]), self.render_emojis);
            assert(!raw@.contains('\n')) by {
                if raw@.contains('\n') {
                    assert(lines@[i as int]@.contains('\n'));
                }
            }
            assert(raw@ == raws[i as int]);
            let ghost before = self.text.lines@;
            self.push_code_block_line(raw.as_str(), &mut high);
            let ghost g = lines_view(self.text.lines@.subrange(before.len() as int, self.text.lines@.len() as int));
            let ghost mid = self.text.lines@;
            proof {
                assert(mid.subrange(0, n1) =~= before.subrange(0, before.len() as int).subrange(0, n1));
                assert(mid.subrange(n1, mid.len() as int) =~= before.subrange(n1, before.len() as int) + mid.subrange(before.len() as int, mid.len() as int));
                assert(lines_view(mid.subrange(n1, mid.len() as int)) =~= lines_view(before.subrange(n1, before.len() as int)) + g);
            }
            if selected {
                self.add_modifier_to_last_line(REVERSED);
                proof {
                    let after = self.text.lines@;
                    assert(after.subrange(0, n1) =~= mid.subrange(0, n1));
                    assert(lines_view(after.subrange(n1, after.len() as int)) =~= lines_view(before.subrange(n1, before.len() as int)) + mark_last(g, true)) by {
                        let lv = lines_view(after.subrange(n1, after.len() as int));
                        let want = lines_view(before.subrange(n1, before.len() as int)) + mark_last(g, true);
                        assert(lv.len() == want.len());
                        let bv = lines_view(before.subrange(n1, before.len() as int));
                        assert(g.len() > 0);
                        assert(after.drop_last() == mid.drop_last());
                        assert forall|q: int| 0 <= q < lv.len() implies lv[q] == want[q] by {
                            if n1 + q < after.len() - 1 {
                                assert(after[n1 + q] == after.drop_last()[n1 + q]);
                                assert(mid[n1 + q] == mid.drop_last()[n1 + q]);
                                assert(lv[q] == line_view(mid[n1 + q]));
                                assert(line_view(mid[n1 + q]) == (bv + g)[q]);
                                if q < bv.len() {
                                    assert(want[q] == bv[q]);
                                } else {
                                    assert(want[q] == mark_last(g, true)[q - bv.len()]);
                                }
                            } else {
                                assert(line_view(after.last()).0 =~= reversed_line(line_view(mid.last())).0);
                                assert(line_view(mid.last()) == (bv + g)[q]);
                            }
                        }
                    }
                }
            }
            proof {
                let og = groups;
                groups = groups.push(g);
                assert(groups.drop_last() =~= og);
                assert(code_line_added(raws[i as int], w, a.theme, hl, groups[i as int]));
                assert forall|j: int| 0 <= j < i + 1 implies code_line_added(#[trigger] raws[j], w, a.theme, hl, groups[j]) by {
                    if j < i {
                        assert(groups[j] == og[j]);
                    }
                }
            }
            i = i + 1;
        }
        proof {
            assert(self.text.lines@ =~= pre + self.text.lines@.subrange(n1, self.text.lines@.len() as int));
            assert(lines_view(self.text.lines@) =~= lines_view(pre) + lines_view(self.text.lines@.subrange(n1, self.text.lines@.len() as int)));
            assert(self.text.lines@.subrange(0, a.text.lines@.len() as int) =~= pre.subrange(0, a.text.lines@.len() as int));
            assert(code_hl_flag(hl));
            assert(lines_view(self.text.lines@) == lines_view(a.text.lines@) + flushed_view(a) + concat_groups(groups, selected));
        }
    }

    /// Renders a table: at its natural width when it fits, with wrapped
    /// cells when it has at most six columns and there are at least six
    /// columns of room per column, and otherwise as one labelled line per
    /// cell.
    pub fn render_table(&mut self, alignments: &Vec<MdAlign>, rows: &Vec<Vec<Vec<Inline>>>)
        ensures
            table_rendered(*old(self), *final(self), alignments@, rows@),
            final(self).current@.len() == 0,
            final(self).pending_list_marker == old(self).pending_list_marker,
            final(self).quote_depth == old(self).quote_depth,
            final(self).theme == old(self).theme,
            final(self).list_stack == old(self).list_stack,
            final(self).inner_width == old(self).inner_width,
            final(self).render_emojis == old(self).render_emojis,
            final(self).code_block_index == old(self).code_block_index,
            final(self).selected_code_block == old(self).selected_code_block,
            final(self).syntax_enabled == old(self).syntax_enabled,
    {
        let ghost a = *self;
        self.flush_line();
        let ghost f = *self;
        assert(lines_view(f.text.lines@) =~= lines_view(a.text.lines@) + flushed_view(a));
        assert(f.text.lines@.subrange(0, a.text.lines@.len() as int) =~= a.text.lines@);
        assert(f.text.lines@.subrange(0, f.text.lines@.len() as int) =~= f.text.lines@);
        if rows.len() == 0 {
            return;
        }
        let mut cols: usize = 0;
        let mut i: usize = 0;
        while i < rows.len()
            invariant
                i <= rows@.len(),
                forall|k: int| 0 <= k < i ==> (#[trigger] rows@[k])@.len() <= cols,
                cols == table_cols(rows@.take(i as int)),
            decreases rows.len() - i,
        {
            assert(rows@.take(i + 1).drop_last() =~= rows@.take(i as int));
            if rows[i].len() > cols {
                cols = rows[i].len();
            }
            i = i + 1;
        }
        assert(rows@.take(rows@.len() as int) =~= rows@);
        if cols == 0 {
            return;
        }
        let natural = table_widths(rows, cols);
        assert(natural@ =~= natural_widths(rows@));
        let available: usize = if self.inner_width == 0 { 1 } else { self.inner_width as usize };
        let fits = match table_total_width_checked(&natural) {
            Some(t) => t <= available,
            None => false,
        };
        if fits {
            self.render_table_normal(alignments, rows, &natural);
        } else if cols <= 6 && available >= cols * 6 + 1 {
            let widths = wrapped_widths(&natural, available, cols);
            self.render_table_wrapped(alignments, rows, &widths);
        } else {
            self.render_table_fallback(rows);
            proof {
                let b = *self;
                assert(text_lines(b.text) == text_lines(f.text) + fallback_lines(rows@));
                assert(b.text.lines@.subrange(f.text.lines@.len() as int, b.text.lines@.len() as int).map_values(|l: Line| line_text(l))
                    =~= fallback_lines(rows@)) by {
                    let x = b.text.lines@.subrange(f.text.lines@.len() as int, b.text.lines@.len() as int).map_values(|l: Line| line_text(l));
                    assert forall|q: int| 0 <= q < x.len() implies x[q] == fallback_lines(rows@)[q] by {
                        assert(text_lines(b.text)[f.text.lines@.len() + q] == x[q]);
                    }
                }
            }
        }
        proof {
            let b = *self;
            let n1 = f.text.lines@.len() as int;
            assert(b.text.lines@.subrange(0, n1) == f.text.lines@);
            assert(b.text.lines@.subrange(0, a.text.lines@.len() as int) =~= f.text.lines@.subrange(0, a.text.lines@.len() as int));
        }
    }

    /// Renders each row on one line, with a separator under the header.
    pub fn render_table_normal(&mut self, alignments: &Vec<MdAlign>, rows: &Vec<Vec<Vec<Inline>>>, widths: &Vec<usize>)
        ensures
            final(self).text.lines@.len() == old(self).text.lines@.len() + rows@.len() + (if rows@.len() > 1 { 1int } else { 0 }),
            final(self).text.lines@.subrange(0, old(self).text.lines@.len() as int) == old(self).text.lines@,
            final(self).text.lines@.subrange(old(self).text.lines@.len() as int, final(self).text.lines@.len() as int).map_values(|l: Line| line_text(l))
                == normal_table_lines(old(self).render_emojis, alignments@, rows@, widths@, rows@.len() as int),
            final(self).current == old(self).current,
            final(self).pending_list_marker == old(self).pending_list_marker,
            final(self).quote_depth == old(self).quote_depth,
            final(self).theme == old(self).theme,
            final(self).list_stack == old(self).list_stack,
            final(self).inner_width == old(self).inner_width,
            final(self).render_emojis == old(self).render_emojis,
            final(self).code_block_index == old(self).code_block_index,
            final(self).selected_code_block == old(self).selected_code_block,
            final(self).syntax_enabled == old(self).syntax_enabled,
    {
        let cols = widths.len();
        let separator = table_separator(widths);
        let mut idx: usize = 0;
        while idx < rows.len()
            invariant
                idx <= rows@.len(),
                cols == widths@.len(),
                separator@ == crate::md_layout::separator_spec(widths@),
                self.text.lines@.len() == old(self).text.lines@.len() + idx + (if rows@.len() > 1 && idx > 0 { 1int } else { 0 }),
                self.text.lines@.subrange(0, old(self).text.lines@.len() as int) == old(self).text.lines@,
                self.text.lines@.subrange(old(self).text.lines@.len() as int, self.text.lines@.len() as int).map_values(|l: Line| line_text(l))
                    == normal_table_lines(old(self).render_emojis, alignments@, rows@, widths@, idx as int),
                self.current == old(self).current,
                self.pending_list_marker == old(self).pending_list_marker,
                self.quote_depth == old(self).quote_depth,
                self.theme == old(self).theme,
                self.list_stack == old(self).list_stack,
                self.inner_width == old(self).inner_width,
                self.render_emojis == old(self).render_emojis,
                self.code_block_index == old(self).code_block_index,
                self.selected_code_block == old(self).selected_code_block,
                self.syntax_enabled == old(self).syntax_enabled,
            decreases rows.len() - idx,
        {
            let spans = table_row_spans(self, alignments, &rows[idx], widths, cols);
            let ghost before_idx = normal_table_lines(old(self).render_emojis, alignments@, rows@, widths@, idx as int);
            let rl = Line::from_spans(spans);
            proof {
                lemma_push_prefix(self.text.lines@, rl, old(self).text.lines@.len() as int);
                lemma_text_push(self.text.lines@, rl, old(self).text.lines@.len() as int);
            }
            self.text.push_line(rl);
            if idx == 0 && rows.len() > 1 {
                let sep = copy_string(&separator);
                proof { lemma_separator_no_lf(widths@); }
                proof { lemma_separator_last(widths@); }
                let sl = Line::styled(sep, Style::new().fg(self.theme.hr));
                proof {
                    lemma_push_prefix(self.text.lines@, sl, old(self).text.lines@.len() as int);
                    lemma_text_push(self.text.lines@, sl, old(self).text.lines@.len() as int);
                    assert(sl.spans@.drop_last() =~= Seq::<Span>::empty());
                    assert(spans_text(Seq::<Span>::empty()) =~= Seq::<char>::empty());
                    assert(line_text(sl) == spans_text(sl.spans@.drop_last()) + sl.spans@.last().content@);
                    assert(line_text(sl) =~= crate::md_layout::separator_spec(widths@));
                }
                self.text.push_line(sl);
            }
            proof {
                assert(normal_table_lines(old(self).render_emojis, alignments@, rows@, widths@, idx + 1)
                    =~= self.text.lines@.subrange(old(self).text.lines@.len() as int, self.text.lines@.len() as int).map_values(|l: Line| line_text(l)));
            }
            idx = idx + 1;
        }
    }

    /// Renders each row over as many lines as its tallest wrapped cell
    /// needs, with a separator under the header.
    pub fn render_table_wrapped(&mut self, alignments: &Vec<MdAlign>, rows: &Vec<Vec<Vec<Inline>>>, widths: &Vec<usize>)
        ensures
            final(self).text.lines@.len() >= old(self).text.lines@.len() + rows@.len(),
            final(self).text.lines@.subrange(0, old(self).text.lines@.len() as int) == old(self).text.lines@,
            final(self).current == old(self).current,
            final(self).pending_list_marker == old(self).pending_list_marker,
            final(self).quote_depth == old(self).quote_depth,
            final(self).theme == old(self).theme,
            final(self).list_stack == old(self).list_stack,
            final(self).inner_width == old(self).inner_width,
            final(self).render_emojis == old(self).render_emojis,
            final(self).code_block_index == old(self).code_block_index,
            final(self).selected_code_block == old(self).selected_code_block,
            final(self).syntax_enabled == old(self).syntax_enabled,
    {
        let cols = widths.len();
        let separator = table_separator(widths);
        let empty: Vec<Inline> = Vec::new();
        let mut idx: usize = 0;
        while idx < rows.len()
            invariant
                idx <= rows@.len(),
                cols == widths@.len(),
                separator@ == crate::md_layout::separator_spec(widths@),
                self.text.lines@.len() >= old(self).text.lines@.len() + idx,
                self.text.lines@.subrange(0, old(self).text.lines@.len() as int) == old(self).text.lines@,
                self.current == old(self).current,
                self.pending_list_marker == old(self).pending_list_marker,
                self.quote_depth == old(self).quote_depth,
                self.theme == old(self).theme,
                self.list_stack == old(self).list_stack,
                self.inner_width == old(self).inner_width,
                self.render_emojis == old(self).render_emojis,
                self.code_block_index == old(self).code_block_index,
                self.selected_code_block == old(self).selected_code_block,
                self.syntax_enabled == old(self).syntax_enabled,
            decreases rows.len() - idx,
        {
            let row = &rows[idx];
            let mut wrapped: Vec<Vec<Vec<Span>>> = Vec::new();
            let mut col: usize = 0;
            while col < cols
                invariant
                    col <= cols,
                    cols == widths@.len(),
                    wrapped@.len() == col,
                    forall|k: int| 0 <= k < col ==> (#[trigger] wrapped@[k])@.len() >= 1,
                decreases cols - col,
            {
                let cell = if col < row.len() { &row[col] } else { &empty };
                let spans = inlines_to_spans(self, cell, Style::new());
                wrapped.push(wrap_spans(spans, widths[col]));
                col = col + 1;
            }
            let mut height: usize = 1;
            let mut c: usize = 0;
            while c < cols
                invariant
                    c <= cols,
                    wrapped@.len() == cols,
                    height >= 1,
                decreases cols - c,
            {
                if wrapped[c].len() > height {
                    height = wrapped[c].len();
                }
                c = c + 1;
            }
            let mut line_idx: usize = 0;
            while line_idx < height
                invariant
                    line_idx <= height,
                    height >= 1,
                    cols == widths@.len(),
                    wrapped@.len() == cols,
                    self.text.lines@.len() >= old(self).text.lines@.len() + idx + line_idx,
                    self.text.lines@.subrange(0, old(self).text.lines@.len() as int) == old(self).text.lines@,
                    self.current == old(self).current,
                    self.pending_list_marker == old(self).pending_list_marker,
                    self.quote_depth == old(self).quote_depth,
                    self.theme == old(self).theme,
                    self.list_stack == old(self).list_stack,
                    self.inner_width == old(self).inner_width,
                    self.render_emojis == old(self).render_emojis,
                    self.code_block_index == old(self).code_block_index,
                    self.selected_code_block == old(self).selected_code_block,
                    self.syntax_enabled == old(self).syntax_enabled,
                decreases height - line_idx,
            {
                let mut line: Vec<Span> = Vec::new();
                line.push(Span::styled(string_from("│ "), Style::new().fg(self.theme.hr)));
                let mut col: usize = 0;
                while col < cols
                    invariant
                        col <= cols,
                        cols == widths@.len(),
                        wrapped@.len() == cols,
                    decreases cols - col,
                {
                    let mut cell: Vec<Span> = if line_idx < wrapped[col].len() {
                        copy_spans(&wrapped[col][line_idx])
                    } else {
                        Vec::new()
                    };
                    let align = if col < alignments.len() { alignments[col] } else { MdAlign::Unaligned };
                    pad_cell(&mut cell, widths[col], align);
                    line.append(&mut cell);
                    line.push(Span::styled(string_from(" │ "), Style::new().fg(self.theme.hr)));
                    col = col + 1;
                }
                let ln = Line::from_spans(line);
                proof { lemma_push_prefix(self.text.lines@, ln, old(self).text.lines@.len() as int); }
                self.text.push_line(ln);
                line_idx = line_idx + 1;
            }
            if idx == 0 && rows.len() > 1 {
                let sep = copy_string(&separator);
                proof { lemma_separator_no_lf(widths@); }
                let sl = Line::styled(sep, Style::new().fg(self.theme.hr));
                proof { lemma_push_prefix(self.text.lines@, sl, old(self).text.lines@.len() as int); }
                self.text.push_line(sl);
            }
            idx = idx + 1;
        }
    }

    /// Renders a table as one `key: value` line per cell, under a `Row n`
    /// line per body row, with the header cells as keys.
    pub fn render_table_fallback(&mut self, rows: &Vec<Vec<Vec<Inline>>>)
        ensures
            text_lines(final(self).text) == text_lines(old(self).text) + fallback_lines(rows@),
            styles_of(final(self).text.lines@.subrange(old(self).text.lines@.len() as int, final(self).text.lines@.len() as int))
                == fallback_styles(rows@, old(self).theme),
            final(self).text.lines@.len() >= old(self).text.lines@.len(),
            final(self).text.lines@.subrange(0, old(self).text.lines@.len() as int) == old(self).text.lines@,
            final(self).current == old(self).current,
            final(self).pending_list_marker == old(self).pending_list_marker,
            final(self).quote_depth == old(self).quote_depth,
            final(self).theme == old(self).theme,
            final(self).list_stack == old(self).list_stack,
            final(self).inner_width == old(self).inner_width,
            final(self).render_emojis == old(self).render_emojis,
            final(self).code_block_index == old(self).code_block_index,
            final(self).selected_code_block == old(self).selected_code_block,
            final(self).syntax_enabled == old(self).syntax_enabled,
    {
        let ghost l0 = self.text.lines@;
        let empty: Vec<Vec<Inline>> = Vec::new();
        let headers: &Vec<Vec<Inline>> = if rows.len() > 0 { &rows[0] } else { &empty };
        assert(headers@ == table_headers(rows@));
        let ghost t0 = text_lines(self.text);
        assert(self.text.lines@.subrange(l0.len() as int, l0.len() as int) =~= Seq::<Line>::empty());
        assert(styles_of(Seq::<Line>::empty()) =~= Seq::empty());
        let mut row_idx: usize = 1;
        while row_idx < rows.len()
            invariant
                1 <= row_idx,
                rows@.len() > 1 ==> row_idx <= rows@.len(),
                headers@ == table_headers(rows@),
                t0 == text_lines(old(self).text),
                text_lines(self.text) == t0 + fallback_rows_lines(rows@, row_idx as int),
                styles_of(self.text.lines@.subrange(l0.len() as int, self.text.lines@.len() as int)) == fallback_rows_styles(rows@, row_idx as int, old(self).theme),
                self.text.lines@.len() >= l0.len(),
                self.text.lines@.subrange(0, l0.len() as int) == l0,
                self.current == old(self).current,
                self.pending_list_marker == old(self).pending_list_marker,
                self.quote_depth == old(self).quote_depth,
                self.theme == old(self).theme,
                self.list_stack == old(self).list_stack,
                self.inner_width == old(self).inner_width,
                self.render_emojis == old(self).render_emojis,
                self.code_block_index == old(self).code_block_index,
                self.selected_code_block == old(self).selected_code_block,
                self.syntax_enabled == old(self).syntax_enabled,
            decreases rows.len() - row_idx,
        {
            let mut title = string_from("Row ");
            let num = decimal_string(row_idx as u64);
            push_str(&mut title, num.as_str());
            proof { reveal_strlit("Row "); lemma_decimal_no_lf(row_idx as nat); }
            assert(!title@.contains('\n')) by {
                if title@.contains('\n') {
                    let j = choose|j: int| 0 <= j < title@.len() && title@[j] == '\n';
                    if j >= 4 { assert(num@[j - 4] == '\n'); }
                }
            }
            let ghost lb = self.text.lines@;
            let ghost tl = text_lines(self.text);
            proof { lemma_decimal_last(row_idx as nat); }
            let ghost tv = title@;
            assert(tv.last() != '\r');
            let title_line = Line::styled(title, Style::new().fg(self.theme.hr).add_modifier(BOLD));
            proof {
                lemma_one_span_text(title_line);
                lemma_styles_push(lb, title_line, l0.len() as int);
                assert(line_styles(title_line) =~= fallback_title_styles(old(self).theme));
            }
            self.text.push_line(title_line);
            assert(self.text.lines@.subrange(0, l0.len() as int) =~= lb.subrange(0, l0.len() as int));
            assert(text_lines(self.text) =~= tl.push(tv));
            let row = &rows[row_idx];
            let mut col: usize = 0;
            while col < row.len()
                invariant
                    col <= row@.len(),
                    1 <= row_idx < rows@.len(),
                    *row == rows@[row_idx as int],
                    headers@ == table_headers(rows@),
                    t0 == text_lines(old(self).text),
                    text_lines(self.text) == t0 + fallback_rows_lines(rows@, row_idx as int) + seq![tv]
                        + Seq::new(col as nat, |c: int| fallback_cell_line(table_headers(rows@), rows@[row_idx as int]@, c)),
                    tv == "Row "@ + decimal(row_idx as nat),
                    styles_of(self.text.lines@.subrange(l0.len() as int, self.text.lines@.len() as int))
                        == fallback_rows_styles(rows@, row_idx as int, old(self).theme) + seq![fallback_title_styles(old(self).theme)]
                            + Seq::new(col as nat, |c: int| fallback_cell_styles(old(self).theme)),
                    self.text.lines@.len() >= l0.len(),
                    self.text.lines@.subrange(0, l0.len() as int) == l0,
                    self.current == old(self).current,
                    self.pending_list_marker == old(self).pending_list_marker,
                    self.quote_depth == old(self).quote_depth,
                    self.theme == old(self).theme,
                    self.list_stack == old(self).list_stack,
                    self.inner_width == old(self).inner_width,
                    self.render_emojis == old(self).render_emojis,
                    self.code_block_index == old(self).code_block_index,
                    self.selected_code_block == old(self).selected_code_block,
                    self.syntax_enabled == old(self).syntax_enabled,
                decreases row.len() - col,
            {
                let key = fallback_key(headers, col);
                let mut label = string_from("  ");
                push_str(&mut label, key.as_str());
                push_str(&mut label, ": ");
                let value = inlines_plain(&row[col]);
                let mut spans = Vec::new();
                spans.push(Span::styled(label, Style::new().fg(self.theme.ordered_number)));
                spans.push(Span::raw(value));
                let ghost lb = self.text.lines@;
                let ghost tl = text_lines(self.text);
                let line = Line::from_spans(spans);
                proof {
                    lemma_styles_push(lb, line, l0.len() as int);
                    assert(line_styles(line) =~= fallback_cell_styles(old(self).theme));
                    assert(fallback_rows_styles(rows@, row_idx as int, old(self).theme) + seq![fallback_title_styles(old(self).theme)]
                            + Seq::new((col + 1) as nat, |c: int| fallback_cell_styles(old(self).theme))
                        =~= (fallback_rows_styles(rows@, row_idx as int, old(self).theme) + seq![fallback_title_styles(old(self).theme)]
                            + Seq::new(col as nat, |c: int| fallback_cell_styles(old(self).theme))).push(fallback_cell_styles(old(self).theme)));
                    reveal_strlit("  ");
                    reveal_strlit(": ");
                    lemma_two_spans_text(line);
                    assert(line_text(line) =~= fallback_cell_line(table_headers(rows@), rows@[row_idx as int]@, col as int));
                }
                self.text.push_line(line);
                assert(self.text.lines@.subrange(0, l0.len() as int) =~= lb.subrange(0, l0.len() as int));
                assert(text_lines(self.text) =~= tl.push(line_text(line)));
                assert(text_lines(self.text) =~= t0 + fallback_rows_lines(rows@, row_idx as int) + seq![tv]
                    + Seq::new((col + 1) as nat, |c: int| fallback_cell_line(table_headers(rows@), rows@[row_idx as int]@, c)));
                col = col + 1;
            }
            proof {
                assert(fallback_rows_styles(rows@, row_idx + 1, old(self).theme) =~= fallback_rows_styles(rows@, row_idx as int, old(self).theme)
                    + seq![fallback_title_styles(old(self).theme)] + Seq::new(rows@[row_idx as int]@.len(), |c: int| fallback_cell_styles(old(self).theme)));
                reveal_strlit("Row ");
                assert(fallback_rows_lines(rows@, row_idx + 1) =~= fallback_rows_lines(rows@, row_idx as int) + seq![tv]
                    + Seq::new(rows@[row_idx as int]@.len(), |c: int| fallback_cell_line(table_headers(rows@), rows@[row_idx as int]@, c)));
            }
            row_idx = row_idx + 1;
        }
        if rows.len() <= 1 {
            assert(fallback_rows_lines(rows@, row_idx as int) =~= Seq::<Seq<char>>::empty());
            let mut col: usize = 0;
            while col < headers.len()
                invariant
                    col <= headers@.len(),
                    rows@.len() <= 1,
                    headers@ == table_headers(rows@),
                    text_lines(self.text) == text_lines(old(self).text) + Seq::new(col as nat, |c: int|
                        "Column "@ + decimal((c + 1) as nat) + ": "@ + crate::md_layout::plain_of(inlines_view(table_headers(rows@)[c]@))),
                    styles_of(self.text.lines@.subrange(l0.len() as int, self.text.lines@.len() as int))
                        == Seq::new(col as nat, |c: int| fallback_cell_styles(old(self).theme)),
                    self.text.lines@.len() >= l0.len(),
                    self.text.lines@.subrange(0, l0.len() as int) == l0,
                    self.current == old(self).current,
                    self.pending_list_marker == old(self).pending_list_marker,
                    self.quote_depth == old(self).quote_depth,
                    self.theme == old(self).theme,
                    self.list_stack == old(self).list_stack,
                    self.inner_width == old(self).inner_width,
                    self.render_emojis == old(self).render_emojis,
                    self.code_block_index == old(self).code_block_index,
                    self.selected_code_block == old(self).selected_code_block,
                    self.syntax_enabled == old(self).syntax_enabled,
                decreases headers.len() - col,
            {
                let mut label = string_from("Column ");
                let n = decimal_string(col as u64 + 1);
                push_str(&mut label, n.as_str());
                push_str(&mut label, ": ");
                let mut spans = Vec::new();
                spans.push(Span::styled(label, Style::new().fg(self.theme.ordered_number)));
                spans.push(Span::raw(inlines_plain(&headers[col])));
                let ghost lb = self.text.lines@;
                let ghost tl = text_lines(self.text);
                let line = Line::from_spans(spans);
                proof {
                    lemma_styles_push(lb, line, l0.len() as int);
                    assert(line_styles(line) =~= fallback_cell_styles(old(self).theme));
                    assert(Seq::new((col + 1) as nat, |c: int| fallback_cell_styles(old(self).theme))
                        =~= Seq::new(col as nat, |c: int| fallback_cell_styles(old(self).theme)).push(fallback_cell_styles(old(self).theme)));
                    reveal_strlit("Column ");
                    reveal_strlit(": ");
                    lemma_two_spans_text(line);
                    assert(line_text(line) =~= "Column "@ + decimal((col + 1) as nat) + ": "@
                        + crate::md_layout::plain_of(inlines_view(table_headers(rows@)[col as int]@)));
                }
                self.text.push_line(line);
                assert(self.text.lines@.subrange(0, l0.len() as int) =~= lb.subrange(0, l0.len() as int));
                assert(text_lines(self.text) =~= tl.push(line_text(line)));
                assert(text_lines(self.text) =~= text_lines(old(self).text) + Seq::new((col + 1) as nat, |c: int|
                    "Column "@ + decimal((c + 1) as nat) + ": "@ + crate::md_layout::plain_of(inlines_view(table_headers(rows@)[c]@))));
                col = col + 1;
            }
            assert(fallback_lines(rows@) =~= Seq::new(headers@.len(), |c: int|
                "Column "@ + decimal((c + 1) as nat) + ": "@ + crate::md_layout::plain_of(inlines_view(table_headers(rows@)[c]@))));
        } else {
            assert(row_idx == rows@.len());
        }
    }

    /// Renders one block.
    pub fn render_block(&mut self, block: &MdBlock)
        ensures
            block_rendered(*old(self), *final(self), *block),
        decreases block,
    {
        match block {
            MdBlock::Paragraph(inlines) => {
                self.render_inlines(inlines, Style::new());
                self.flush_line();
                proof { lemma_paragraph_rendered(*old(self), *self, *inlines); }
            },
            MdBlock::Heading { level, content } => {
                self.push_blank_line();
                let ghost m1 = *self;
                let color = if *level == 1 { self.theme.heading1 }
                    else if *level == 2 { self.theme.heading2 }
                    else if *level == 3 { self.theme.heading3 }
                    else { self.theme.heading4 };
                let style = Style::new().fg(color).add_modifier(BOLD);
                self.render_inlines(content, style);
                self.flush_line();
                let ghost m2 = *self;
                assert(inlines_line_added(m1, m2, content@, heading_style(old(self).theme, *level)));
                self.push_blank_line();
            },
            MdBlock::CodeBlock { lang, code } => {
                let l = match lang {
                    Some(x) => Some(copy_string(x)),
                    None => None,
                };
                self.render_code_block(l, copy_string(code));
            },
            MdBlock::List { ordered, items, open } => {
                let ghost stack0 = self.list_stack@;
                let next_number = if *ordered { Some(1u64) } else { None };
                self.list_stack.push(ListContext { next_number });
                let ghost s0 = *self;
                assert(list_opened(*old(self), s0, *ordered));
                let mut i: usize = 0;
                while i < items.len()
                    invariant
                        i <= items@.len(),
                        *block == (MdBlock::List { ordered: *ordered, items: *items, open: *open }),
                        self.list_stack@.len() == stack0.len() + 1,
                        self.list_stack@.drop_last() == stack0,
                        self.theme == old(self).theme,
                        self.inner_width == old(self).inner_width,
                        self.render_emojis == old(self).render_emojis,
                        self.selected_code_block == old(self).selected_code_block,
                        self.syntax_enabled == old(self).syntax_enabled,
                        self.quote_depth == old(self).quote_depth,
                        items_rendered(s0, *self, items@.take(i as int)),
                    decreases items.len() - i,
                {
                    let ghost x = *self;
                    self.start_list_item();
                    assert(self.list_stack@.drop_last() =~= stack0);
                    let ghost m1 = *self;
                    assert(item_started(x, m1));
                    let item = &items[i];
                    let mut j: usize = 0;
                    while j < item.len()
                        invariant
                            j <= item@.len(),
                            i < items@.len(),
                            *item == items@[i as int],
                            *block == (MdBlock::List { ordered: *ordered, items: *items, open: *open }),
                            self.list_stack@.len() == stack0.len() + 1,
                            self.list_stack@.drop_last() == stack0,
                            self.theme == old(self).theme,
                            self.inner_width == old(self).inner_width,
                            self.render_emojis == old(self).render_emojis,
                            self.selected_code_block == old(self).selected_code_block,
                            self.syntax_enabled == old(self).syntax_enabled,
                            self.quote_depth == old(self).quote_depth,
                            blocks_rendered(m1, *self, item@.take(j as int)),
                        decreases item.len() - j,
                    {
                        proof {
                            assert(decreases_to!(*block => (*block)->List_items));
                            assert(decreases_to!(*items => items@));
                            assert(decreases_to!(items@ => items@[i as int]));
                            assert(decreases_to!(items@[i as int] => items@[i as int]@));
                            assert(decreases_to!(items@[i as int]@ => items@[i as int]@[j as int]));
                        }
                        let ghost p = *self;
                        self.render_block(&item[j]);
                        proof { lemma_chain_push(m1, p, *self, item@, j as int); }
                        j = j + 1;
                    }
                    assert(item@.take(item@.len() as int) =~= item@);
                    let ghost m2 = *self;
                    self.pending_list_marker = None;
                    self.flush_line();
                    proof {
                        assert(item_closed(m2, *self));
                        lemma_items_push(s0, x, m1, m2, *self, items@, i as int);
                    }
                    i = i + 1;
                }
                assert(items@.take(items@.len() as int) =~= items@);
                let ghost s1 = *self;
                self.list_stack.pop();
                assert(self.list_stack@ =~= stack0);
                proof {
                    lemma_list_rendered(*old(self), *self, *ordered, *items, *open, s0, s1);
                }
            },
            MdBlock::Table { alignments, rows } => {
                self.render_table(alignments, rows);
            },
            MdBlock::Rule => {
                self.flush_line();
                let w: usize = if self.inner_width == 0 { 1 } else { self.inner_width as usize };
                let rule = repeat_char('─', w);
                assert(!rule@.contains('\n'));
                assert(rule@.last() == '─');
                let line = Line::styled(rule, Style::new().fg(self.theme.hr));
                proof {
                    assert(line.spans@.drop_last() =~= Seq::<Span>::empty());
                    assert(spans_text(Seq::<Span>::empty()) =~= Seq::<char>::empty());
                    assert(spans_text(line.spans@) == spans_text(line.spans@.drop_last()) + line.spans@.last().content@);
                    assert(spans_text(line.spans@) =~= line.spans@[0].content@);
                }
                self.text.push_line(line);
            },
            MdBlock::BlockQuote(blocks) => {
                let d0 = self.quote_depth;
                self.quote_depth = self.quote_depth.saturating_add(1);
                let d1 = self.quote_depth;
                let ghost m1 = *self;
                assert(m1 == quote_opened(*old(self)));
                let mut j: usize = 0;
                while j < blocks.len()
                    invariant
                        j <= blocks@.len(),
                        *block == MdBlock::BlockQuote(*blocks),
                        self.quote_depth == d1,
                        self.list_stack@ == old(self).list_stack@,
                        self.theme == old(self).theme,
                        self.inner_width == old(self).inner_width,
                        self.render_emojis == old(self).render_emojis,
                        self.selected_code_block == old(self).selected_code_block,
                        self.syntax_enabled == old(self).syntax_enabled,
                        blocks_rendered(m1, *self, blocks@.take(j as int)),
                    decreases blocks.len() - j,
                {
                    proof {
                        assert(decreases_to!(*block => (*block)->BlockQuote_0));
                        assert(decreases_to!(*blocks => blocks@));
                        assert(decreases_to!(blocks@ => blocks@[j as int]));
                    }
                    let ghost p = *self;
                    self.render_block(&blocks[j]);
                    proof { lemma_chain_push(m1, p, *self, blocks@, j as int); }
                    j = j + 1;
                }
                assert(blocks@.take(blocks@.len() as int) =~= blocks@);
                let ghost m2 = *self;
                assert(blocks_rendered(quote_opened(*old(self)), m2, blocks@));
                self.quote_depth = d0;
                assert(*self == (MarkdownRenderer { quote_depth: d0, ..m2 }));
                proof { lemma_quote_rendered(*old(self), *self, m2, *blocks); }
            },
            MdBlock::FootnoteDefinition { label, content } => {
                let mut t = string_from("[");
                push_str(&mut t, label.as_str());
                push_str(&mut t, "]: ");
                proof { reveal_strlit("["); reveal_strlit("]: "); }
                assert(t@ =~= "["@ + label@ + "]: "@);
                self.push_span(t, Style::new().fg(self.theme.ordered_number));
                let ghost m1 = *self;
                assert(span_pushed(*old(self), m1, "["@ + label@ + "]: "@, Style { fg: Some(old(self).theme.ordered_number), ..default_style() }));
                let mut j: usize = 0;
                while j < content.len()
                    invariant
                        j <= content@.len(),
                        *block == (MdBlock::FootnoteDefinition { label: *label, content: *content }),
                        self.quote_depth == old(self).quote_depth,
                        self.list_stack@ == old(self).list_stack@,
                        self.theme == old(self).theme,
                        self.inner_width == old(self).inner_width,
                        self.render_emojis == old(self).render_emojis,
                        self.selected_code_block == old(self).selected_code_block,
                        self.syntax_enabled == old(self).syntax_enabled,
                        blocks_rendered(m1, *self, content@.take(j as int)),
                    decreases content.len() - j,
                {
                    proof {
                        assert(decreases_to!(*block => (*block)->FootnoteDefinition_content));
                        assert(decreases_to!(*content => content@));
                        assert(decreases_to!(content@ => content@[j as int]));
                    }
                    let ghost p = *self;
                    self.render_block(&content[j]);
                    proof { lemma_chain_push(m1, p, *self, content@, j as int); }
                    j = j + 1;
                }
                assert(content@.take(content@.len() as int) =~= content@);
                let ghost m2 = *self;
                assert(blocks_rendered(m1, m2, content@));
                self.flush_line();
                assert(line_flushed(m2, *self));
                proof { lemma_footnote_rendered(*old(self), *self, m1, m2, *label, *content); }
            },
        }
    }

    /// Renders a document and returns its lines.
    pub fn render_document(self, blocks: &Vec<MdBlock>) -> (r: Text)
        ensures
            document_rendered(self, blocks@, r),
    {
        let mut me = self;
        let ghost mut st: Seq<MarkdownRenderer> = seq![me];
        let mut j: usize = 0;
        while j < blocks.len()
            invariant
                j <= blocks@.len(),
                st.len() == j + 1,
                st[0] == self,
                st.last() == me,
                forall|k: int| #![trigger st[k]] 0 <= k < j ==> block_rendered(st[k], st[k + 1], blocks@[k]),
            decreases blocks.len() - j,
        {
            me.render_block(&blocks[j]);
            proof {
                let old_st = st;
                st = st.push(me);
                assert forall|k: int| #![trigger st[k]] 0 <= k < j + 1 implies block_rendered(st[k], st[k + 1], blocks@[k]) by {
                    if k < j {
                        assert(st[k] == old_st[k]);
                        assert(st[k + 1] == old_st[k + 1]);
                    }
                }
            }
            j = j + 1;
        }
        let r = me.finish();
        assert(text_finished(st.last(), r));
        r
    }
}

/// The style of a heading of `level`: its level's colour, bold.
pub open spec fn heading_style(t: Theme, level: u8) -> Style {
    let c = if level == 1 { t.heading1 } else if level == 2 { t.heading2 } else if level == 3 { t.heading3 } else { t.heading4 };
    spec_add_modifier(Style { fg: Some(c), ..default_style() }, BOLD)
}

/// Rendering `inlines` over `base` and closing the line: the line's start
/// followed by the inlines' spans becomes one more line (nothing is added
/// when that is empty); the pending marker is used up when the inlines start
/// a line.
pub open spec fn inlines_line_added(a: MarkdownRenderer, b: MarkdownRenderer, inlines: Seq<Inline>, base: Style) -> bool {
    let sp = inline_spans(a.theme, a.render_emojis, inlines, base);
    let line = if sp.len() > 0 { line_start(a) + sp } else { spans_view(a.current@) };
    &&& line.len() == 0 ==> b.text == a.text
    &&& line.len() > 0 ==> b.text.lines@.len() == a.text.lines@.len() + 1
        && b.text.lines@.drop_last() =~= a.text.lines@
        && spans_view(b.text.lines@.last().spans@) =~= line
        && b.text.lines@.last().style == default_style()
    &&& b.current@.len() == 0
    &&& b.pending_list_marker == (if sp.len() > 0 && a.current@.len() == 0 { None } else { a.pending_list_marker })
    &&& b.quote_depth == a.quote_depth
    &&& b.theme == a.theme
    &&& b.render_emojis == a.render_emojis
    &&& b.inner_width == a.inner_width
    &&& b.list_stack == a.list_stack
}

/// A line as plain values: its spans and its own style.
pub open spec fn line_view(l: Line) -> (Seq<(Seq<char>, Style)>, Style) {
    (spans_view(l.spans@), l.style)
}

pub open spec fn lines_view(ls: Seq<Line>) -> Seq<(Seq<(Seq<char>, Style)>, Style)> {
    ls.map_values(|l: Line| line_view(l))
}

/// The width code lines are padded to: the inner width, at least 1.
pub open spec fn code_width(w: u16) -> nat {
    if w == 0 { 1 } else { w as nat }
}

/// `n` no-break spaces.
pub open spec fn nbsp(n: nat) -> Seq<char> {
    Seq::new(n, |_i: int| '\u{A0}')
}

/// The style of code block padding: the code colours.
pub open spec fn code_pad_style(t: Theme) -> Style {
    Style { fg: Some(t.code_block_fg), bg: Some(t.code_block_bg), ..default_style() }
}

/// The no-break spaces that pad `raw` to `w` columns.
pub open spec fn code_fill(raw: Seq<char>, w: nat) -> Seq<char> {
    let tw = crate::text::text_width(raw) as nat;
    if tw < w { nbsp((w - tw) as nat) } else { Seq::empty() }
}

/// Text as a one-span line keeps it, less one trailing carriage return.
pub open spec fn strip_cr(c: Seq<char>) -> Seq<char> {
    if c.len() > 0 && c.last() == '\r' { c.drop_last() } else { c }
}

/// An unhighlighted code line: its text padded to the width, in the code
/// colours.
pub open spec fn plain_code_line(raw: Seq<char>, w: nat, t: Theme) -> (Seq<(Seq<char>, Style)>, Style) {
    (seq![(strip_cr(raw + code_fill(raw, w)), default_style())], code_pad_style(t))
}

/// The total width of spans.
pub open spec fn items_width(l: Seq<(Seq<char>, Style)>) -> nat
    decreases l.len(),
{
    if l.len() == 0 { 0 } else { items_width(l.drop_last()) + crate::text::text_width(l.last().0) as nat }
}

/// The graphemes of highlighted runs, each in its run's colour over the code
/// background; empty runs give none.
pub open spec fn hl_items(rs: Seq<(SynRgb, Seq<char>)>, bg: Color) -> Seq<(Seq<char>, Style)>
    decreases rs.len(),
{
    if rs.len() == 0 {
        Seq::empty()
    } else {
        let r = rs.last();
        let st = Style { fg: Some(Color::Rgb(r.0.r, r.0.g, r.0.b)), bg: Some(bg), ..default_style() };
        if r.1.len() == 0 {
            hl_items(rs.drop_last(), bg)
        } else {
            hl_items(rs.drop_last(), bg) + grapheme_clusters(r.1).map_values(|g: Seq<char>| (g, st))
        }
    }
}

/// A wrapped highlighted line padded with no-break spaces to `w` columns.
pub open spec fn padded_code_line(l: Seq<(Seq<char>, Style)>, w: nat, t: Theme) -> (Seq<(Seq<char>, Style)>, Style) {
    let lw = items_width(l);
    (if lw < w { l.push((nbsp((w - lw) as nat), code_pad_style(t))) } else { l }, default_style())
}

/// The lines of a highlighted code line: its graphemes filled greedily into
/// lines `w` columns wide, each padded.
pub open spec fn code_hl_lines(rs: Seq<(SynRgb, Seq<char>)>, w: nat, t: Theme) -> Seq<(Seq<(Seq<char>, Style)>, Style)> {
    greedy_wrap(hl_items(rs, t.code_block_bg), w).map_values(|l: Seq<(Seq<char>, Style)>| padded_code_line(l, w, t))
}

/// The highlighter's runs make up the line (or there are none).
pub open spec fn code_ranges_cover(rs: Seq<(SynRgb, Seq<char>)>, raw: Seq<char>) -> bool {
    rs.len() == 0 || concat_all(rs.map_values(|p: (SynRgb, Seq<char>)| p.1)) == raw
}

/// The lines one code line becomes: a line of padding when it is empty;
/// else its text padded, unhighlighted; or, with a highlighter, the lines
/// that the highlighter's runs for it give.
pub open spec fn code_line_added(raw: Seq<char>, w: nat, t: Theme, highlighted: bool, added: Seq<(Seq<(Seq<char>, Style)>, Style)>) -> bool {
    if raw.len() == 0 {
        added == seq![(seq![(nbsp(w), default_style())], code_pad_style(t))]
    } else if !highlighted {
        added == seq![plain_code_line(raw, w, t)]
    } else {
        exists|rs: Seq<(SynRgb, Seq<char>)>| #[trigger] code_ranges_cover(rs, raw) && added == code_hl_lines(rs, w, t)
    }
}

/// The line a pending line becomes when it is closed, if there is one.
pub open spec fn flushed_view(a: MarkdownRenderer) -> Seq<(Seq<(Seq<char>, Style)>, Style)> {
    if a.current@.len() > 0 { seq![(spans_view(a.current@), default_style())] } else { Seq::empty() }
}

/// The lines of a code block as rendered: its lines, emoji dropped unless
/// they are rendered.
pub open spec fn code_raws(code: Seq<char>, render_emojis: bool) -> Seq<Seq<char>> {
    code_lines_spec(code).map_values(|l: Seq<char>| filter_emojis_spec(l, render_emojis))
}

/// A line with `REVERSED` added to each span.
pub open spec fn reversed_line(l: (Seq<(Seq<char>, Style)>, Style)) -> (Seq<(Seq<char>, Style)>, Style) {
    (l.0.map_values(|p: (Seq<char>, Style)| (p.0, spec_add_modifier(p.1, REVERSED))), l.1)
}

/// The lines of one code line, the last one reversed when the block is
/// selected.
pub open spec fn mark_last(g: Seq<(Seq<(Seq<char>, Style)>, Style)>, selected: bool) -> Seq<(Seq<(Seq<char>, Style)>, Style)> {
    if selected && g.len() > 0 { g.update(g.len() - 1, reversed_line(g.last())) } else { g }
}

/// The lines of all code lines, in order.
pub open spec fn concat_groups(gs: Seq<Seq<(Seq<(Seq<char>, Style)>, Style)>>, selected: bool) -> Seq<(Seq<(Seq<char>, Style)>, Style)>
    decreases gs.len(),
{
    if gs.len() == 0 { Seq::empty() } else { concat_groups(gs.drop_last(), selected) + mark_last(gs.last(), selected) }
}

/// The number of columns of a table: the length of its longest row.
pub open spec fn table_cols(rows: Seq<Vec<Vec<Inline>>>) -> nat
    decreases rows.len(),
{
    if rows.len() == 0 {
        0
    } else {
        let p = table_cols(rows.drop_last());
        if rows.last()@.len() > p { rows.last()@.len() } else { p }
    }
}

/// The widths a table's columns take at their natural size.
pub open spec fn natural_widths(rows: Seq<Vec<Vec<Inline>>>) -> Seq<usize> {
    Seq::new(table_cols(rows), |j: int| crate::md_layout::column_width(rows, j, rows.len() as int) as usize)
}

/// What rendering a table does: the pending line is closed; a table with no
/// cell adds nothing more; one that fits the width adds a line per row, its
/// cells padded to the column widths, and a separator under the header; one that does not fit but has at most six
/// columns, with six columns of room for each, adds at least a line per row
/// with its cells wrapped; otherwise each cell becomes a labelled line.
pub open spec fn table_rendered(a: MarkdownRenderer, b: MarkdownRenderer, aligns: Seq<MdAlign>, rows: Seq<Vec<Vec<Inline>>>) -> bool {
    let n1: int = (a.text.lines@.len() + flushed_view(a).len()) as int;
    let cols = table_cols(rows);
    let nw = natural_widths(rows);
    let available = code_width(a.inner_width);
    &&& b.text.lines@.subrange(0, a.text.lines@.len() as int) == a.text.lines@
    &&& b.text.lines@.len() >= n1
    &&& lines_view(b.text.lines@.subrange(0, n1)) == lines_view(a.text.lines@) + flushed_view(a)
    &&& b.current@.len() == 0
    &&& if rows.len() == 0 || cols == 0 {
        b.text.lines@.len() == n1
    } else if crate::md_layout::sum_widths(nw) + 3 * cols + 2 <= available {
        b.text.lines@.len() == n1 + rows.len() + (if rows.len() > 1 { 1int } else { 0 })
        && b.text.lines@.subrange(n1, b.text.lines@.len() as int).map_values(|l: Line| line_text(l))
            == normal_table_lines(a.render_emojis, aligns, rows, nw, rows.len() as int)
    } else if cols <= 6 && available >= cols * 6 + 1 {
        b.text.lines@.len() >= n1 + rows.len()
    } else {
        b.text.lines@.subrange(n1, b.text.lines@.len() as int).map_values(|l: Line| line_text(l)) == fallback_lines(rows)
    }
}

/// What rendering a code block does: the pending line is closed; then each
/// line of the code adds the lines `code_line_added` gives, all highlighted
/// or none (never with syntax highlighting off), the last of them reversed
/// when the block is the selected one; the block count advances.
pub open spec fn code_block_rendered(a: MarkdownRenderer, b: MarkdownRenderer, code: Seq<char>) -> bool {
    let selected = a.selected_code_block == Some(a.code_block_index);
    let raws = code_raws(code, a.render_emojis);
    &&& exists|hl: bool, groups: Seq<Seq<(Seq<(Seq<char>, Style)>, Style)>>| #![trigger concat_groups(groups, selected), code_hl_flag(hl)]
        code_hl_flag(hl)
        && (!a.syntax_enabled ==> !hl)
        && groups.len() == raws.len()
        && (forall|j: int| 0 <= j < raws.len() ==> code_line_added(#[trigger] raws[j], code_width(a.inner_width), a.theme, hl, groups[j]))
        && lines_view(b.text.lines@) == lines_view(a.text.lines@) + flushed_view(a) + concat_groups(groups, selected)
    &&& b.text.lines@.subrange(0, a.text.lines@.len() as int) == a.text.lines@
    &&& b.current@.len() == 0
    &&& b.code_block_index == (if a.code_block_index < usize::MAX { a.code_block_index + 1 } else { a.code_block_index as int })
}

/// Names the choice whether code lines are highlighted; it holds of both
/// choices and serves to find the one made.
pub open spec fn code_hl_flag(hl: bool) -> bool {
    true
}

proof fn lemma_greedy_width(items: Seq<(Seq<char>, Style)>, w: nat)
    ensures
        greedy_lines(items, w).2 == items_width(greedy_lines(items, w).1),
    decreases items.len(),
{
    if items.len() > 0 {
        lemma_greedy_width(items.drop_last(), w);
        let p = greedy_lines(items.drop_last(), w);
        let x = items.last();
        let gw = crate::text::text_width(x.0) as nat;
        assert(seq![x].drop_last() =~= Seq::<(Seq<char>, Style)>::empty());
        assert(items_width(seq![x]) == items_width(Seq::<(Seq<char>, Style)>::empty()) + gw);
        assert(p.1.push(x).drop_last() =~= p.1);
        assert(items_width(p.1.push(x)) == items_width(p.1) + gw);
    }
}

proof fn lemma_text_push(ls: Seq<Line>, l: Line, n0: int)
    requires
        0 <= n0 <= ls.len(),
    ensures
        ls.push(l).subrange(n0, ls.len() as int + 1).map_values(|x: Line| line_text(x))
            == ls.subrange(n0, ls.len() as int).map_values(|x: Line| line_text(x)).push(line_text(l)),
{
    assert(ls.push(l).subrange(n0, ls.len() as int + 1) =~= ls.subrange(n0, ls.len() as int).push(l));
    assert(ls.push(l).subrange(n0, ls.len() as int + 1).map_values(|x: Line| line_text(x))
        =~= ls.subrange(n0, ls.len() as int).map_values(|x: Line| line_text(x)).push(line_text(l)));
}

proof fn lemma_separator_last(w: Seq<usize>)
    ensures
        crate::md_layout::separator_spec(w).len() > 0,
        crate::md_layout::separator_spec(w).last() == '┤',
{
}

/// The texts of a table's first `n` rows at their natural width, with the
/// separator under the header when there is a body.
pub open spec fn normal_table_lines(render_emojis: bool, aligns: Seq<MdAlign>, rows: Seq<Vec<Vec<Inline>>>, widths: Seq<usize>, n: int)
    -> Seq<Seq<char>>
    decreases n,
{
    if n <= 0 {
        Seq::empty()
    } else {
        normal_table_lines(render_emojis, aligns, rows, widths, n - 1)
            + seq![row_text(render_emojis, aligns, rows[n - 1]@, widths, widths.len() as int)]
            + (if n == 1 && rows.len() > 1 { seq![crate::md_layout::separator_spec(widths)] } else { Seq::empty() })
    }
}

proof fn lemma_push_prefix(ls: Seq<Line>, l: Line, n: int)
    requires
        0 <= n <= ls.len(),
    ensures
        ls.push(l).subrange(0, n) == ls.subrange(0, n),
{
    assert(ls.push(l).subrange(0, n) =~= ls.subrange(0, n));
}

proof fn lemma_lines_view_push(ls: Seq<Line>, l: Line, n0: int)
    requires
        0 <= n0 <= ls.len(),
    ensures
        lines_view(ls.push(l).subrange(n0, ls.len() as int + 1)) == lines_view(ls.subrange(n0, ls.len() as int)).push(line_view(l)),
        ls.push(l).subrange(0, n0) == ls.subrange(0, n0),
{
    assert(ls.push(l).subrange(n0, ls.len() as int + 1) =~= ls.subrange(n0, ls.len() as int).push(l));
    assert(lines_view(ls.push(l).subrange(n0, ls.len() as int + 1)) =~= lines_view(ls.subrange(n0, ls.len() as int)).push(line_view(l)));
    assert(ls.push(l).subrange(0, n0) =~= ls.subrange(0, n0));
}

/// What rendering `block` does to the renderer (`a` before, `b` after):
/// settings kept; a paragraph adds one line, its inlines after the line's
/// start; a heading is that line in the heading's style with a blank line
/// before and after it; a block quote renders its blocks one quote level
/// deeper; a list opens a numbering level and renders each item (marker,
/// blocks, closed line); a footnote pushes its `[label]: ` then renders its
/// blocks and closes the line; a code block and a table add the lines that
/// `code_block_rendered` and `table_rendered` say; a rule closes the
/// pending line and adds a full-width line of `─`.
pub open spec fn block_rendered(a: MarkdownRenderer, b: MarkdownRenderer, block: MdBlock) -> bool
    decreases block,
{
    &&& b.theme == a.theme
    &&& b.inner_width == a.inner_width
    &&& b.render_emojis == a.render_emojis
    &&& b.selected_code_block == a.selected_code_block
    &&& b.syntax_enabled == a.syntax_enabled
    &&& b.quote_depth == a.quote_depth
    &&& b.list_stack@ =~= a.list_stack@
    &&& block matches MdBlock::Paragraph(inlines) ==> inlines_line_added(a, b, inlines@, default_style())
    &&& block matches MdBlock::BlockQuote(blocks) ==> exists|m2: MarkdownRenderer|
        #![trigger quote_closed(a, m2)]
        blocks_rendered(quote_opened(a), m2, blocks@)
        && b == quote_closed(a, m2)
    &&& block matches MdBlock::List { ordered, items, open } ==> exists|s0: MarkdownRenderer, s1: MarkdownRenderer|
        #![trigger list_frame(a, b, s0, s1)]
        list_frame(a, b, s0, s1)
        && list_opened(a, s0, ordered)
        && items_rendered(s0, s1, items@)
    &&& block matches MdBlock::FootnoteDefinition { label, content } ==> exists|m1: MarkdownRenderer, m2: MarkdownRenderer|
        #![trigger footnote_ends(a, m1, m2, b, label@)]
        footnote_ends(a, m1, m2, b, label@)
        && blocks_rendered(m1, m2, content@)
    &&& block matches MdBlock::Heading { level, content } ==> exists|m1: MarkdownRenderer, m2: MarkdownRenderer|
        #![trigger blank_line_pushed(a, m1), blank_line_pushed(m2, b)]
        blank_line_pushed(a, m1)
        && inlines_line_added(m1, m2, content@, heading_style(a.theme, level))
        && blank_line_pushed(m2, b)
    &&& block matches MdBlock::CodeBlock { lang, code } ==> code_block_rendered(a, b, code@)
    &&& block matches MdBlock::Table { alignments, rows } ==> table_rendered(a, b, alignments@, rows@)
    &&& block is Rule ==> ({
        let w: nat = if a.inner_width == 0 { 1 } else { a.inner_width as nat };
        let lines0: int = if a.current@.len() > 0 { a.text.lines@.len() as int + 1 } else { a.text.lines@.len() as int };
        &&& b.text.lines@.len() == lines0 + 1
        &&& a.current@.len() > 0 ==> spans_view(b.text.lines@[lines0 - 1].spans@) =~= spans_view(a.current@)
        &&& b.text.lines@.subrange(0, a.text.lines@.len() as int) =~= a.text.lines@
        &&& line_text(b.text.lines@.last()) =~= Seq::new(w, |_i: int| '─')
        &&& b.text.lines@.last().style == (Style { fg: Some(a.theme.hr), ..default_style() })
        &&& b.current@.len() == 0
    })
}

proof fn lemma_paragraph_rendered(a: MarkdownRenderer, b: MarkdownRenderer, inlines: Vec<Inline>)
    requires
        inlines_line_added(a, b, inlines@, default_style()),
        b.selected_code_block == a.selected_code_block,
        b.syntax_enabled == a.syntax_enabled,
    ensures
        block_rendered(a, b, MdBlock::Paragraph(inlines)),
{
}

proof fn lemma_quote_rendered(a: MarkdownRenderer, b: MarkdownRenderer, m2: MarkdownRenderer, blocks: Vec<MdBlock>)
    requires
        blocks_rendered(quote_opened(a), m2, blocks@),
        b == (MarkdownRenderer { quote_depth: a.quote_depth, ..m2 }),
        b.theme == a.theme,
        b.inner_width == a.inner_width,
        b.render_emojis == a.render_emojis,
        b.selected_code_block == a.selected_code_block,
        b.syntax_enabled == a.syntax_enabled,
        b.list_stack@ == a.list_stack@,
    ensures
        block_rendered(a, b, MdBlock::BlockQuote(blocks)),
{
    assert(b == quote_closed(a, m2));
}

proof fn lemma_footnote_rendered(a: MarkdownRenderer, b: MarkdownRenderer, m1: MarkdownRenderer, m2: MarkdownRenderer,
    label: String, content: Vec<MdBlock>)
    requires
        span_pushed(a, m1, "["@ + label@ + "]: "@, Style { fg: Some(a.theme.ordered_number), ..default_style() }),
        blocks_rendered(m1, m2, content@),
        line_flushed(m2, b),
        b.theme == a.theme,
        b.inner_width == a.inner_width,
        b.render_emojis == a.render_emojis,
        b.selected_code_block == a.selected_code_block,
        b.syntax_enabled == a.syntax_enabled,
        b.quote_depth == a.quote_depth,
        b.list_stack@ == a.list_stack@,
    ensures
        block_rendered(a, b, MdBlock::FootnoteDefinition { label, content }),
{
    let blk = MdBlock::FootnoteDefinition { label, content };
    assert(blk->FootnoteDefinition_label == label);
    assert(blk->FootnoteDefinition_content == content);
    assert(footnote_ends(a, m1, m2, b, blk->FootnoteDefinition_label@));
}

proof fn lemma_list_rendered(a: MarkdownRenderer, b: MarkdownRenderer, ordered: bool, items: Vec<Vec<MdBlock>>, open: bool,
    s0: MarkdownRenderer, s1: MarkdownRenderer)
    requires
        list_frame(a, b, s0, s1),
        list_opened(a, s0, ordered),
        items_rendered(s0, s1, items@),
        b.theme == a.theme,
        b.inner_width == a.inner_width,
        b.render_emojis == a.render_emojis,
        b.selected_code_block == a.selected_code_block,
        b.syntax_enabled == a.syntax_enabled,
        b.quote_depth == a.quote_depth,
    ensures
        block_rendered(a, b, MdBlock::List { ordered, items, open }),
{
    let blk = MdBlock::List { ordered, items, open };
    assert(blk->List_items == items);
    assert(blk->List_ordered == ordered);
    assert(list_frame(a, b, s0, s1));
}

/// Rendering `blocks` one after another takes `a` to `b`.
pub open spec fn blocks_rendered(a: MarkdownRenderer, b: MarkdownRenderer, blocks: Seq<MdBlock>) -> bool
    decreases blocks,
{
    if blocks.len() == 0 {
        b == a
    } else {
        exists|m: MarkdownRenderer| #![trigger chain_step(a, m, b)]
            chain_step(a, m, b) && blocks_rendered(a, m, blocks.drop_last()) && block_rendered(m, b, blocks.last())
    }
}

proof fn lemma_chain_push(a: MarkdownRenderer, p: MarkdownRenderer, q: MarkdownRenderer, blocks: Seq<MdBlock>, j: int)
    requires
        0 <= j < blocks.len(),
        blocks_rendered(a, p, blocks.take(j)),
        block_rendered(p, q, blocks[j]),
    ensures
        blocks_rendered(a, q, blocks.take(j + 1)),
{
    assert(blocks.take(j + 1).drop_last() =~= blocks.take(j));
    assert(blocks.take(j + 1).last() == blocks[j]);
    assert(chain_step(a, p, q));
}

proof fn lemma_items_push(s: MarkdownRenderer, x: MarkdownRenderer, m1: MarkdownRenderer, m2: MarkdownRenderer,
    y: MarkdownRenderer, items: Seq<Vec<MdBlock>>, i: int)
    requires
        0 <= i < items.len(),
        items_rendered(s, x, items.take(i)),
        item_started(x, m1),
        blocks_rendered(m1, m2, items[i]@),
        item_closed(m2, y),
    ensures
        items_rendered(s, y, items.take(i + 1)),
{
    assert(items.take(i + 1).drop_last() =~= items.take(i));
    assert(items.take(i + 1).last() == items[i]);
}

/// Names a state `m` between `a` and `b` in a chain of rendering steps; it
/// holds of every such state and serves to find it.
pub open spec fn chain_step(a: MarkdownRenderer, m: MarkdownRenderer, b: MarkdownRenderer) -> bool {
    true
}

/// The renderer inside one more level of block quote.
pub open spec fn quote_opened(a: MarkdownRenderer) -> MarkdownRenderer {
    MarkdownRenderer { quote_depth: if a.quote_depth < usize::MAX { (a.quote_depth + 1) as usize } else { a.quote_depth }, ..a }
}

/// Everything but the list stack is the same.
pub open spec fn same_but_list_stack(x: MarkdownRenderer, y: MarkdownRenderer) -> bool {
    &&& y.text == x.text
    &&& y.current == x.current
    &&& y.pending_list_marker == x.pending_list_marker
    &&& y.quote_depth == x.quote_depth
    &&& y.theme == x.theme
    &&& y.inner_width == x.inner_width
    &&& y.render_emojis == x.render_emojis
    &&& y.selected_code_block == x.selected_code_block
    &&& y.code_block_index == x.code_block_index
    &&& y.syntax_enabled == x.syntax_enabled
}

/// A list opened: a new numbering level, starting at 1 when ordered.
pub open spec fn list_opened(a: MarkdownRenderer, s0: MarkdownRenderer, ordered: bool) -> bool {
    &&& s0.list_stack@ == a.list_stack@.push(ListContext { next_number: if ordered { Some(1u64) } else { None } })
    &&& same_but_list_stack(a, s0)
}

/// A list rendered from `a` to `b` goes through `s0` after it opened and
/// `s1` after its last item; it closes with its numbering level dropped.
pub open spec fn list_frame(a: MarkdownRenderer, b: MarkdownRenderer, s0: MarkdownRenderer, s1: MarkdownRenderer) -> bool {
    &&& b.list_stack@ == a.list_stack@
    &&& same_but_list_stack(s1, b)
}

/// Each item rendered in turn, from `s` to `b`: its marker prepared, its
/// blocks rendered, then its last line closed.
pub open spec fn items_rendered(s: MarkdownRenderer, b: MarkdownRenderer, items: Seq<Vec<MdBlock>>) -> bool
    decreases items,
{
    if items.len() == 0 {
        b == s
    } else {
        exists|x: MarkdownRenderer, m1: MarkdownRenderer, m2: MarkdownRenderer|
            #![trigger item_started(x, m1), item_closed(m2, b)]
            items_rendered(s, x, items.drop_last())
            && item_started(x, m1) && blocks_rendered(m1, m2, items.last()@) && item_closed(m2, b)
    }
}

/// An item started: its marker (indentation, then number or bullet) is
/// pending and the numbering advanced.
pub open spec fn item_started(x: MarkdownRenderer, m: MarkdownRenderer) -> bool {
    &&& m.pending_list_marker is Some
    &&& m.pending_list_marker->0@.len() == 1
    &&& m.pending_list_marker->0@[0].content@ == list_marker_text(x.list_stack@)
    &&& m.pending_list_marker->0@[0].style == marker_style(x.theme, x.list_stack@)
    &&& m.list_stack@ == advance_list(x.list_stack@)
    &&& m.text == x.text
    &&& m.current == x.current
    &&& m.quote_depth == x.quote_depth
    &&& m.theme == x.theme
    &&& m.inner_width == x.inner_width
    &&& m.render_emojis == x.render_emojis
    &&& m.selected_code_block == x.selected_code_block
    &&& m.code_block_index == x.code_block_index
    &&& m.syntax_enabled == x.syntax_enabled
}

/// An item closed: an unused marker is dropped and the pending line closed.
pub open spec fn item_closed(m: MarkdownRenderer, y: MarkdownRenderer) -> bool {
    line_flushed(MarkdownRenderer { pending_list_marker: None, ..m }, y)
}

/// A footnote's label pushed as `[label]: ` in the footnote colour.
pub open spec fn footnote_opened(a: MarkdownRenderer, m: MarkdownRenderer, label: Seq<char>) -> bool {
    span_pushed(a, m, "["@ + label + "]: "@, Style { fg: Some(a.theme.ordered_number), ..default_style() })
}

/// A footnote opened from `a` to `m1` and its last line closed from `m2`
/// to `b`.
pub open spec fn footnote_ends(a: MarkdownRenderer, m1: MarkdownRenderer, m2: MarkdownRenderer, b: MarkdownRenderer,
    label: Seq<char>) -> bool {
    footnote_opened(a, m1, label) && line_flushed(m2, b)
}

/// The renderer after a block quote: its old quote depth back.
pub open spec fn quote_closed<'a>(a: MarkdownRenderer, m: MarkdownRenderer<'a>) -> MarkdownRenderer<'a> {
    MarkdownRenderer { quote_depth: a.quote_depth, ..m }
}

/// What `push_span(content, style)` does: the text, with emoji dropped
/// unless they are rendered, goes at the end of the current line (after the
/// line's start when the line is new); empty text changes nothing.
pub open spec fn span_pushed(a: MarkdownRenderer, b: MarkdownRenderer, content: Seq<char>, style: Style) -> bool {
    let c = filter_emojis_spec(content, a.render_emojis);
    &&& c.len() == 0 ==> b == a
    &&& c.len() > 0 ==> spans_view(b.current@) == line_start(a).push((c, style))
        && b.pending_list_marker == (if a.current@.len() > 0 { a.pending_list_marker } else { None })
    &&& b.text == a.text
    &&& b.quote_depth == a.quote_depth
    &&& b.theme == a.theme
    &&& b.list_stack == a.list_stack
    &&& b.inner_width == a.inner_width
    &&& b.render_emojis == a.render_emojis
    &&& b.code_block_index == a.code_block_index
    &&& b.selected_code_block == a.selected_code_block
    &&& b.syntax_enabled == a.syntax_enabled
}

/// What `flush_line` does: a pending line becomes the last line.
pub open spec fn line_flushed(a: MarkdownRenderer, b: MarkdownRenderer) -> bool {
    &&& a.current@.len() == 0 ==> b == a
    &&& a.current@.len() > 0 ==> b.text.lines@.len() == a.text.lines@.len() + 1
        && b.text.lines@.drop_last() == a.text.lines@
        && b.text.lines@.last().spans@ == a.current@
        && b.text.lines@.last().style == default_style()
        && b.current@.len() == 0
    &&& b.pending_list_marker == a.pending_list_marker
    &&& b.quote_depth == a.quote_depth
    &&& b.theme == a.theme
    &&& b.list_stack == a.list_stack
    &&& b.inner_width == a.inner_width
    &&& b.render_emojis == a.render_emojis
    &&& b.code_block_index == a.code_block_index
    &&& b.selected_code_block == a.selected_code_block
    &&& b.syntax_enabled == a.syntax_enabled
}

/// `r` is what closing the pending line of `a` gives.
pub open spec fn text_finished(a: MarkdownRenderer, r: Text) -> bool {
    &&& a.current@.len() == 0 ==> r.lines@ =~= a.text.lines@
    &&& a.current@.len() > 0 ==> r.lines@.len() == a.text.lines@.len() + 1
        && r.lines@.drop_last() =~= a.text.lines@
        && r.lines@.last().spans@ =~= a.current@
}

/// `r` is the text of `blocks` rendered one after another from `start`:
/// each block as `block_rendered` says, then the pending line closed.
pub open spec fn document_rendered(start: MarkdownRenderer, blocks: Seq<MdBlock>, r: Text) -> bool {
    exists|st: Seq<MarkdownRenderer>| #![trigger st.len(), st.last()]
        st.len() == blocks.len() + 1 && st[0] == start
        && (forall|k: int| #![trigger st[k]] 0 <= k < blocks.len() ==> block_rendered(st[k], st[k + 1], blocks[k]))
        && text_finished(st.last(), r)
}

/// A renderer as `MarkdownRenderer::new` makes it with these settings.
pub open spec fn fresh_renderer(rd: MarkdownRenderer, theme: Theme, inner_width: u16, syntax_enabled: bool,
    render_emojis: bool, selected_code_block: Option<usize>) -> bool {
    &&& rd.text.lines@.len() == 0
    &&& rd.current@.len() == 0
    &&& rd.list_stack@.len() == 0
    &&& rd.pending_list_marker is None
    &&& rd.quote_depth == 0
    &&& rd.theme == theme
    &&& rd.inner_width == inner_width
    &&& rd.syntax_enabled == syntax_enabled
    &&& rd.render_emojis == render_emojis
    &&& rd.selected_code_block == selected_code_block
    &&& rd.code_block_index == 0
}

/// `r` is Markdown `input` rendered with these settings: its blocks, as the
/// parser's events on the normalised input with its math protected build
/// them, rendered one after another by a fresh renderer.
pub open spec fn markdown_rendered(input: Seq<char>, theme: Theme, inner_width: u16, syntax_enabled: bool,
    render_emojis: bool, selected_code_block: Option<usize>, r: Text) -> bool {
    exists|bs: Vec<MdBlock>, rd: MarkdownRenderer| #![trigger document_rendered(rd, bs@, r)]
        ({
            let (protected, ph) = crate::math::protect_from(normalize_input_spec(input), 0, Seq::empty(), Seq::empty());
            crate::md_doc::blocks_from_events(crate::md_events::cmark_events(protected, crate::md_events::CMARK_OPTIONS), ph, bs)
        })
        && fresh_renderer(rd, theme, inner_width, syntax_enabled, render_emojis, selected_code_block)
        && document_rendered(rd, bs@, r)
}

/// Every span is blank after trimming.
pub open spec fn spans_blank(s: Seq<Span>) -> bool {
    forall|i: int| 0 <= i < s.len() ==> crate::text::trim_spec((#[trigger] s[i]).content@).len() == 0
}

/// What `push_blank_line` does: the pending line is closed, then one empty
/// line is added unless there is no line yet or the last line is already
/// blank.
pub open spec fn blank_line_pushed(a: MarkdownRenderer, b: MarkdownRenderer) -> bool {
    let n0: int = a.text.lines@.len() as int;
    let fl = a.current@.len() > 0;
    let n1: int = if fl { n0 + 1 } else { n0 };
    let last_blank = if fl { spans_blank(a.current@) } else { n0 > 0 && line_blank_spec(a.text.lines@[n0 - 1]) };
    let add = n1 > 0 && !last_blank;
    &&& b.text.lines@.len() == n1 + (if add { 1int } else { 0 })
    &&& b.text.lines@.subrange(0, n0) =~= a.text.lines@
    &&& fl ==> b.text.lines@[n0].spans@ =~= a.current@ && b.text.lines@[n0].style == default_style()
    &&& add ==> b.text.lines@.last().spans@.len() == 0 && b.text.lines@.last().style == default_style()
    &&& b.current@.len() == 0
    &&& b.pending_list_marker == a.pending_list_marker
    &&& b.quote_depth == a.quote_depth
    &&& b.theme == a.theme
    &&& b.render_emojis == a.render_emojis
    &&& b.inner_width == a.inner_width
    &&& b.list_stack == a.list_stack
}

/// The key a cell of column `col` is labelled with in the fallback layout.
pub open spec fn fallback_key_spec(headers: Seq<Vec<Inline>>, col: int) -> Seq<char> {
    if 0 <= col < headers.len() && crate::md_layout::plain_of(inlines_view(headers[col]@)).len() > 0 {
        crate::md_layout::plain_of(inlines_view(headers[col]@))
    } else {
        "Column "@ + decimal((col + 1) as nat)
    }
}

/// The header row of a table (none when the table has no rows).
pub open spec fn table_headers(rows: Seq<Vec<Vec<Inline>>>) -> Seq<Vec<Inline>> {
    if rows.len() > 0 { rows[0]@ } else { Seq::empty() }
}

/// The text of the fallback line for cell `col` of a body row.
pub open spec fn fallback_cell_line(headers: Seq<Vec<Inline>>, row: Seq<Vec<Inline>>, col: int) -> Seq<char> {
    "  "@ + fallback_key_spec(headers, col) + ": "@ + crate::md_layout::plain_of(inlines_view(row[col]@))
}

/// The texts of the fallback lines for body rows 1 to `n - 1`: a title
/// "Row k", then one line per cell.
pub open spec fn fallback_rows_lines(rows: Seq<Vec<Vec<Inline>>>, n: int) -> Seq<Seq<char>>
    decreases n,
{
    if n <= 1 || n > rows.len() {
        Seq::empty()
    } else {
        fallback_rows_lines(rows, n - 1) + seq!["Row "@ + decimal((n - 1) as nat)]
            + Seq::new(rows[n - 1]@.len(), |c: int| fallback_cell_line(table_headers(rows), rows[n - 1]@, c))
    }
}

/// A line's span styles and its own style.
pub open spec fn line_styles(l: Line) -> (Seq<Style>, Style) {
    (l.spans@.map_values(|x: Span| x.style), l.style)
}

pub open spec fn styles_of(ls: Seq<Line>) -> Seq<(Seq<Style>, Style)> {
    ls.map_values(|l: Line| line_styles(l))
}

/// The styles of a fallback "Row n" line: the table-rule colour, bold.
pub open spec fn fallback_title_styles(t: Theme) -> (Seq<Style>, Style) {
    (seq![default_style()], spec_add_modifier(Style { fg: Some(t.hr), ..default_style() }, BOLD))
}

/// The styles of a fallback cell line: its key in the number colour, its
/// value plain.
pub open spec fn fallback_cell_styles(t: Theme) -> (Seq<Style>, Style) {
    (seq![Style { fg: Some(t.ordered_number), ..default_style() }, default_style()], default_style())
}

/// The styles of the fallback lines for body rows 1 to `n - 1`.
pub open spec fn fallback_rows_styles(rows: Seq<Vec<Vec<Inline>>>, n: int, t: Theme) -> Seq<(Seq<Style>, Style)>
    decreases n,
{
    if n <= 1 || n > rows.len() {
        Seq::empty()
    } else {
        fallback_rows_styles(rows, n - 1, t) + seq![fallback_title_styles(t)]
            + Seq::new(rows[n - 1]@.len(), |c: int| fallback_cell_styles(t))
    }
}

/// The styles of the lines of the fallback layout.
pub open spec fn fallback_styles(rows: Seq<Vec<Vec<Inline>>>, t: Theme) -> Seq<(Seq<Style>, Style)> {
    if rows.len() <= 1 {
        Seq::new(table_headers(rows).len(), |c: int| fallback_cell_styles(t))
    } else {
        fallback_rows_styles(rows, rows.len() as int, t)
    }
}

proof fn lemma_styles_push(ls: Seq<Line>, l: Line, n0: int)
    requires
        0 <= n0 <= ls.len(),
    ensures
        styles_of(ls.push(l).subrange(n0, ls.len() as int + 1)) == styles_of(ls.subrange(n0, ls.len() as int)).push(line_styles(l)),
{
    assert(ls.push(l).subrange(n0, ls.len() as int + 1) =~= ls.subrange(n0, ls.len() as int).push(l));
    assert(styles_of(ls.push(l).subrange(n0, ls.len() as int + 1)) =~= styles_of(ls.subrange(n0, ls.len() as int)).push(line_styles(l)));
}

/// The texts of the lines of the fallback layout: each body row as a title
/// and its labelled cells or, for a table with only a header, one line per
/// header cell.
pub open spec fn fallback_lines(rows: Seq<Vec<Vec<Inline>>>) -> Seq<Seq<char>> {
    if rows.len() <= 1 {
        Seq::new(table_headers(rows).len(), |c: int|
            "Column "@ + decimal((c + 1) as nat) + ": "@ + crate::md_layout::plain_of(inlines_view(table_headers(rows)[c]@)))
    } else {
        fallback_rows_lines(rows, rows.len() as int)
    }
}

/// The last character of a number in decimal is a digit.
proof fn lemma_decimal_last(n: nat)
    ensures
        decimal(n).len() > 0,
        decimal(n).last() != '\r',
{
}

/// The text of a line of two spans.
proof fn lemma_two_spans_text(l: Line)
    requires
        l.spans@.len() == 2,
    ensures
        line_text(l) == l.spans@[0].content@ + l.spans@[1].content@,
{
    let s = l.spans@;
    assert(s.drop_last().drop_last() =~= Seq::<Span>::empty());
    assert(spans_text(Seq::<Span>::empty()) =~= Seq::<char>::empty());
    assert(spans_text(s.drop_last()) == spans_text(s.drop_last().drop_last()) + s.drop_last().last().content@);
    assert(spans_text(s.drop_last()) =~= s[0].content@);
}

/// The text of a line of one span.
proof fn lemma_one_span_text(l: Line)
    requires
        l.spans@.len() == 1,
    ensures
        line_text(l) == l.spans@[0].content@,
{
    let s = l.spans@;
    assert(s.drop_last() =~= Seq::<Span>::empty());
    assert(spans_text(Seq::<Span>::empty()) =~= Seq::<char>::empty());
    assert(spans_text(s) =~= s[0].content@);
}

/// The key of a cell in the fallback layout: the header's text, or
/// `Column n` when there is no header text.
pub fn fallback_key(headers: &Vec<Vec<Inline>>, col: usize) -> (r: String)
    requires
        col < usize::MAX,
    ensures
        col < headers@.len() && crate::md_layout::plain_of(inlines_view(headers@[col as int]@)).len() > 0
            ==> r@ == crate::md_layout::plain_of(inlines_view(headers@[col as int]@)),
        !(col < headers@.len() && crate::md_layout::plain_of(inlines_view(headers@[col as int]@)).len() > 0)
            ==> r@ == "Column "@ + decimal((col + 1) as nat),
{
    if col < headers.len() {
        let p = inlines_plain(&headers[col]);
        if !p.as_str().is_empty() {
            return p;
        }
    }
    let mut s = string_from("Column ");
    let n = decimal_string(col as u64 + 1);
    push_str(&mut s, n.as_str());
    s
}

pub proof fn lemma_decimal_no_lf(n: nat)
    ensures
        !decimal(n).contains('\n'),
    decreases n,
{
    if n >= 10 {
        lemma_decimal_no_lf(n / 10);
        let d = decimal(n);
        if d.contains('\n') {
            let j = choose|j: int| 0 <= j < d.len() && d[j] == '\n';
            if j < decimal(n / 10).len() {
                assert(decimal(n / 10)[j] == '\n');
            }
        }
    }
}

pub proof fn lemma_separator_no_lf(w: Seq<usize>)
    ensures
        !crate::md_layout::separator_spec(w).contains('\n'),
{
    lemma_separator_body_no_lf(w);
    let s = crate::md_layout::separator_spec(w);
    let b = seq!['├'] + crate::md_layout::separator_body(w);
    if s.contains('\n') {
        let j = choose|j: int| 0 <= j < s.len() && s[j] == '\n';
        if j < b.len() - 1 {
            assert(b[j] == '\n');
            if j > 0 {
                assert(crate::md_layout::separator_body(w)[j - 1] == '\n');
            }
        }
    }
}

proof fn lemma_separator_body_no_lf(w: Seq<usize>)
    ensures
        !crate::md_layout::separator_body(w).contains('\n'),
    decreases w.len(),
{
    if w.len() > 0 {
        lemma_separator_body_no_lf(w.drop_last());
        let a = crate::md_layout::separator_body(w.drop_last());
        let s = crate::md_layout::separator_body(w);
        let dash = Seq::new(crate::md_layout::dash_count(w.last()), |_i: int| '─');
        assert(s == a + dash + seq!['┼']);
        if s.contains('\n') {
            let j = choose|j: int| 0 <= j < s.len() && s[j] == '\n';
            if j < a.len() {
                assert(a[j] == '\n');
            } else if j < a.len() + dash.len() {
                assert(dash[j - a.len()] == '─');
            }
        }
    }
}

/// The spans for a list of inlines: text and code with emoji filtered,
/// each in its style over `base_style`.
pub fn inlines_to_spans(renderer: &MarkdownRenderer, inlines: &Vec<Inline>, base_style: Style) -> (r: Vec<Span>)
    ensures
        spans_text(r@) == concat_all(cell_texts(renderer.render_emojis, inlines@)),
        r@.len() == inlines@.len(),
        forall|i: int| 0 <= i < r@.len() ==> (#[trigger] r@[i]).content@ == (match inlines@[i] {
            Inline::Text { content, .. } => filter_emojis_spec(content@, renderer.render_emojis),
            Inline::Code(c) => filter_emojis_spec(c@, renderer.render_emojis),
            _ => inline_text(inlines@[i]@),
        }),
        forall|i: int| 0 <= i < r@.len() ==> (#[trigger] r@[i]).style == inline_span_style_spec(renderer.theme, inlines@[i], base_style),
{
    let mut spans: Vec<Span> = Vec::new();
    let mut i: usize = 0;
    while i < inlines.len()
        invariant
            i <= inlines@.len(),
            spans@.len() == i,
            forall|k: int| 0 <= k < i ==> (#[trigger] spans@[k]).content@ == (match inlines@[k] {
                Inline::Text { content, .. } => filter_emojis_spec(content@, renderer.render_emojis),
                Inline::Code(c) => filter_emojis_spec(c@, renderer.render_emojis),
                _ => inline_text(inlines@[k]@),
            }),
            forall|k: int| 0 <= k < i ==> (#[trigger] spans@[k]).style == inline_span_style_spec(renderer.theme, inlines@[k], base_style),
        decreases inlines.len() - i,
    {
        let st = renderer.inline_span_style(&inlines[i], base_style);
        let t = inline_display_text(&inlines[i]);
        let content = match &inlines[i] {
            Inline::Text { .. } => filter_emojis(t, renderer.render_emojis),
            Inline::Code(_) => filter_emojis(t, renderer.render_emojis),
            _ => t,
        };
        spans.push(Span::styled(content, st));
        i = i + 1;
    }
    proof {
        assert forall|k: int| 0 <= k < spans@.len() implies (#[trigger] spans@[k]).content@ == cell_texts(renderer.render_emojis, inlines@)[k] by {}
        lemma_spans_contents(spans@, cell_texts(renderer.render_emojis, inlines@));
    }
    spans
}

/// The texts of the spans a table cell's inlines become.
pub open spec fn cell_texts(render_emojis: bool, inlines: Seq<Inline>) -> Seq<Seq<char>> {
    inlines.map_values(|i: Inline| match i {
        Inline::Text { content, .. } => filter_emojis_spec(content@, render_emojis),
        Inline::Code(c) => filter_emojis_spec(c@, render_emojis),
        _ => inline_text(i@),
    })
}

/// The display width of texts side by side.
pub open spec fn texts_width(ts: Seq<Seq<char>>) -> nat
    decreases ts.len(),
{
    if ts.len() == 0 { 0 } else { texts_width(ts.drop_last()) + crate::text::text_width(ts.last()) as nat }
}

/// How many columns short of `width` a cell with texts `ts` is.
pub open spec fn cell_pad(ts: Seq<Seq<char>>, width: usize) -> nat {
    let w = if texts_width(ts) <= usize::MAX { texts_width(ts) } else { usize::MAX as nat };
    if width > w { (width - w) as nat } else { 0 }
}

/// A cell's text padded to `width` by its alignment: spaces on the left for
/// right alignment, split around it when centred, on the right otherwise.
pub open spec fn padded_cell_text(ts: Seq<Seq<char>>, width: usize, align: MdAlign) -> Seq<char> {
    let p = cell_pad(ts, width);
    let t = concat_all(ts);
    match align {
        MdAlign::Right => crate::md_layout::spaces(p) + t,
        MdAlign::Center => crate::md_layout::spaces(p / 2) + t + crate::md_layout::spaces((p - p / 2) as nat),
        _ => t + crate::md_layout::spaces(p),
    }
}

/// The text of a table row's first `n` cells, each padded and followed by a
/// border, after the opening border.
pub open spec fn row_text(render_emojis: bool, aligns: Seq<MdAlign>, row: Seq<Vec<Inline>>, widths: Seq<usize>, n: int) -> Seq<char>
    decreases n,
{
    if n <= 0 {
        "│ "@
    } else {
        let c = n - 1;
        let cell: Seq<Inline> = if c < row.len() { row[c]@ } else { Seq::empty() };
        let align = if c < aligns.len() { aligns[c] } else { MdAlign::Unaligned };
        row_text(render_emojis, aligns, row, widths, n - 1) + padded_cell_text(cell_texts(render_emojis, cell), widths[c], align) + " │ "@
    }
}

/// The texts of inlines, emoji dropped unless they are rendered, one after
/// another.
pub open spec fn shown_text(render_emojis: bool, inlines: Seq<Inline>) -> Seq<char>
    decreases inlines.len(),
{
    if inlines.len() == 0 {
        Seq::empty()
    } else {
        shown_text(render_emojis, inlines.drop_last()) + filter_emojis_spec(inline_text(inlines.last()@), render_emojis)
    }
}

/// The texts of spans given as texts and styles, one after another.
pub open spec fn pairs_text(sp: Seq<(Seq<char>, Style)>) -> Seq<char> {
    concat_all(sp.map_values(|p: (Seq<char>, Style)| p.0))
}

/// The spans that inlines become show exactly the inlines' texts, emoji
/// dropped unless they are rendered; with emoji rendered, that is the plain
/// text of the inlines.
pub proof fn lemma_inline_spans_text(t: Theme, render_emojis: bool, inlines: Seq<Inline>, base: Style)
    ensures
        pairs_text(inline_spans(t, render_emojis, inlines, base)) == shown_text(render_emojis, inlines),
        shown_text(true, inlines) == crate::md_layout::plain_of(inlines_view(inlines)),
    decreases inlines.len(),
{
    if inlines.len() > 0 {
        lemma_inline_spans_text(t, render_emojis, inlines.drop_last(), base);
        let rest = inline_spans(t, render_emojis, inlines.drop_last(), base);
        let text = filter_emojis_spec(inline_text(inlines.last()@), render_emojis);
        if text.len() > 0 {
            let sp = rest.push((text, inline_span_style_spec(t, inlines.last(), base)));
            assert(sp.map_values(|p: (Seq<char>, Style)| p.0).drop_last() =~= rest.map_values(|p: (Seq<char>, Style)| p.0));
        } else {
            assert(text =~= Seq::<char>::empty());
            assert(shown_text(render_emojis, inlines) =~= shown_text(render_emojis, inlines.drop_last()));
        }
        assert(inlines_view(inlines).drop_last() =~= inlines_view(inlines.drop_last()));
    } else {
        assert(inline_spans(t, render_emojis, inlines, base).map_values(|p: (Seq<char>, Style)| p.0) =~= Seq::<Seq<char>>::empty());
    }
}

/// With emoji rendered, the spans of a table cell show the plain text of
/// its inlines.
pub proof fn lemma_cell_texts_plain(inlines: Seq<Inline>)
    ensures
        concat_all(cell_texts(true, inlines)) == crate::md_layout::plain_of(inlines_view(inlines)),
    decreases inlines.len(),
{
    if inlines.len() > 0 {
        lemma_cell_texts_plain(inlines.drop_last());
        assert(cell_texts(true, inlines).drop_last() =~= cell_texts(true, inlines.drop_last()));
        assert(inlines_view(inlines).drop_last() =~= inlines_view(inlines.drop_last()));
    } else {
        assert(cell_texts(true, inlines) =~= Seq::<Seq<char>>::empty());
    }
}

proof fn lemma_spans_contents(spans: Seq<Span>, ts: Seq<Seq<char>>)
    requires
        spans.len() == ts.len(),
        forall|k: int| 0 <= k < spans.len() ==> (#[trigger] spans[k]).content@ == ts[k],
    ensures
        spans_text(spans) == concat_all(ts),
        crate::md_layout::spans_width(spans) == texts_width(ts),
    decreases spans.len(),
{
    if spans.len() > 0 {
        lemma_spans_contents(spans.drop_last(), ts.drop_last());
    }
}

proof fn lemma_spans_text_append(a: Seq<Span>, b: Seq<Span>)
    ensures
        spans_text(a + b) == spans_text(a) + spans_text(b),
    decreases b.len(),
{
    if b.len() == 0 {
        assert(a + b =~= a);
    } else {
        lemma_spans_text_append(a, b.drop_last());
        assert((a + b).drop_last() =~= a + b.drop_last());
    }
}

/// The spans of one table row: each of the `cols` cells padded to its
/// width and alignment, between `│` borders.
pub fn table_row_spans(renderer: &MarkdownRenderer, alignments: &Vec<MdAlign>, row: &Vec<Vec<Inline>>, widths: &Vec<usize>, cols: usize) -> (r: Vec<Span>)
    requires
        cols <= widths@.len(),
    ensures
        r@.len() >= 1,
        r@[0].content@ == "│ "@,
        spans_text(r@) == row_text(renderer.render_emojis, alignments@, row@, widths@, cols as int),
{
    let mut spans: Vec<Span> = Vec::new();
    spans.push(Span::styled(string_from("│ "), Style::new().fg(renderer.theme.hr)));
    proof {
        reveal_strlit("│ ");
        assert(spans@.drop_last() =~= Seq::<Span>::empty());
        assert(spans_text(Seq::<Span>::empty()) =~= Seq::<char>::empty());
        assert(spans_text(spans@) == spans_text(spans@.drop_last()) + spans@.last().content@);
        assert(spans_text(spans@) =~= "│ "@);
    }
    let empty: Vec<Inline> = Vec::new();
    let mut col: usize = 0;
    while col < cols
        invariant
            col <= cols <= widths@.len(),
            spans@.len() >= 1,
            spans@[0].content@ == "│ "@,
            spans_text(spans@) == row_text(renderer.render_emojis, alignments@, row@, widths@, col as int),
            empty@.len() == 0,
        decreases cols - col,
    {
        let cell_in = if col < row.len() { &row[col] } else { &empty };
        let ghost cv: Seq<Inline> = if (col as int) < row@.len() { row@[col as int]@ } else { Seq::empty() };
        assert(cell_in@ =~= cv);
        let mut cell = inlines_to_spans(renderer, cell_in, Style::new());
        let ghost ts = cell_texts(renderer.render_emojis, cv);
        proof {
            assert forall|k: int| 0 <= k < cell@.len() implies (#[trigger] cell@[k]).content@ == ts[k] by {}
            lemma_spans_contents(cell@, ts);
        }
        let align = if col < alignments.len() { alignments[col] } else { MdAlign::Unaligned };
        let ghost c0 = cell@;
        pad_cell(&mut cell, widths[col], align);
        proof {
            assert(crate::md_layout::pad_amount(c0, widths@[col as int]) == cell_pad(ts, widths@[col as int]));
            assert(spans_text(cell@) == padded_cell_text(ts, widths@[col as int], align));
        }
        let ghost s0 = spans@;
        let ghost c1 = cell@;
        spans.append(&mut cell);
        proof {
            lemma_spans_text_append(s0, c1);
            assert(spans@ =~= s0 + c1);
        }
        let ghost s1 = spans@;
        spans.push(Span::styled(string_from(" │ "), Style::new().fg(renderer.theme.hr)));
        proof {
            reveal_strlit(" │ ");
            assert(spans@.drop_last() =~= s1);
            assert(spans@[0] == s0[0]);
            assert(spans_text(spans@) == spans_text(s1) + " │ "@);
            assert(spans_text(s1) == spans_text(s0) + padded_cell_text(ts, widths@[col as int], align));
            let align_spec = if (col as int) < alignments@.len() { alignments@[col as int] } else { MdAlign::Unaligned };
            assert(align == align_spec);
            assert(row_text(renderer.render_emojis, alignments@, row@, widths@, col + 1)
                == row_text(renderer.render_emojis, alignments@, row@, widths@, col as int)
                    + padded_cell_text(cell_texts(renderer.render_emojis, cv), widths@[col as int], align_spec) + " │ "@);
        }
        col = col + 1;
    }
    spans
}

/// `‑` (non-breaking hyphen) as `-` and each tab as four spaces.
pub open spec fn normalize_input_spec(s: Seq<char>) -> Seq<char>
    decreases s.len(),
{
    if s.len() == 0 {
        Seq::empty()
    } else {
        let c = s.last();
        normalize_input_spec(s.drop_last()) + (if c == '\u{2011}' { seq!['-'] } else if c == '\t' { seq![' ', ' ', ' ', ' '] } else { seq![c] })
    }
}

/// Replaces non-breaking hyphens by `-` and tabs by four spaces.
pub fn normalize_markdown_input(input: &str) -> (r: String)
    ensures
        r@ == normalize_input_spec(input@),
{
    let v = to_chars(input);
    let mut out = String::new();
    let mut i: usize = 0;
    while i < v.len()
        invariant
            i <= v@.len(),
            out@ == normalize_input_spec(v@.subrange(0, i as int)),
        decreases v.len() - i,
    {
        let c = v[i];
        let ghost o0 = out@;
        if c == '\u{2011}' {
            out.push('-');
        } else if c == '\t' {
            out.push(' ');
            out.push(' ');
            out.push(' ');
            out.push(' ');
        } else {
            out.push(c);
        }
        assert(v@.subrange(0, i + 1).drop_last() =~= v@.subrange(0, i as int));
        assert(out@ =~= o0 + (if c == '\u{2011}' { seq!['-'] } else if c == '\t' { seq![' ', ' ', ' ', ' '] } else { seq![c] }));
        i = i + 1;
    }
    assert(v@.subrange(0, v@.len() as int) =~= v@);
    out
}

/// Renders Markdown to styled lines `inner_width` columns wide, marking
/// code block number `selected_code_block` (counted from 0) as selected.
pub fn render_markdown_to_text_with_selected_code_block(
    input: &str,
    theme: &Theme,
    inner_width: u16,
    ss: &SyntaxSet,
    syn_theme: &SynTheme,
    syntax_enabled: bool,
    render_emojis: bool,
    selected_code_block: Option<usize>,
) -> (r: Text)
    ensures
        markdown_rendered(input@, *theme, inner_width, syntax_enabled, render_emojis, selected_code_block, r),
{
    let normalized = normalize_markdown_input(input);
    let blocks = parse_markdown_blocks(normalized.as_str());
    let renderer = MarkdownRenderer::new(theme, inner_width, ss, syn_theme, syntax_enabled, render_emojis, selected_code_block);
    let ghost rd = renderer;
    let r = renderer.render_document(&blocks);
    assert(fresh_renderer(rd, *theme, inner_width, syntax_enabled, render_emojis, selected_code_block));
    assert(document_rendered(rd, blocks@, r));
    r
}

/// Renders Markdown to styled lines `inner_width` columns wide.
pub fn render_markdown_to_text(
    input: &str,
    theme: &Theme,
    inner_width: u16,
    ss: &SyntaxSet,
    syn_theme: &SynTheme,
    syntax_enabled: bool,
    render_emojis: bool,
) -> (r: Text)
    ensures
        markdown_rendered(input@, *theme, inner_width, syntax_enabled, render_emojis, None, r),
{
    render_markdown_to_text_with_selected_code_block(input, theme, inner_width, ss, syn_theme, syntax_enabled, render_emojis, None)
}

/// A line whose spans are all blank after trimming.
pub open spec fn line_blank_spec(l: Line) -> bool {
    forall|i: int| 0 <= i < l.spans@.len() ==> crate::text::trim_spec((#[trigger] l.spans@[i]).content@).len() == 0
}

/// Whether every span of the line is blank after trimming.
pub fn line_is_blank(l: &Line) -> (r: bool)
    ensures
        r == line_blank_spec(*l),
{
    let mut i: usize = 0;
    while i < l.spans.len()
        invariant
            i <= l.spans@.len(),
            forall|k: int| 0 <= k < i ==> crate::text::trim_spec((#[trigger] l.spans@[k]).content@).len() == 0,
        decreases l.spans.len() - i,
    {
        let t = trim(l.spans[i].content.as_str());
        if !t.as_str().is_empty() {
            return false;
        }
        i = i + 1;
    }
    true
}


/// The lines of a code block: trailing line feeds dropped, then split at
/// each line feed.
pub open spec fn code_lines_spec(s: Seq<char>) -> Seq<Seq<char>> {
    split_lf(s.subrange(0, strip_trailing_lf(s, s.len() as int)))
}

/// The length of `s[..end]` without trailing line feeds.
pub open spec fn strip_trailing_lf(s: Seq<char>, end: int) -> int
    decreases end,
{
    if end <= 0 || end > s.len() {
        if end <= 0 { 0 } else { s.len() as int }
    } else if s[end - 1] == '\n' {
        strip_trailing_lf(s, end - 1)
    } else {
        end
    }
}

/// The pieces of `s` between line feeds (one piece when there is none).
pub open spec fn split_lf(s: Seq<char>) -> Seq<Seq<char>>
    decreases s.len(),
{
    if s.len() == 0 {
        seq![Seq::empty()]
    } else {
        let rest = split_lf(s.drop_last());
        if s.last() == '\n' {
            rest.push(Seq::empty())
        } else {
            rest.drop_last().push(rest.last().push(s.last()))
        }
    }
}

pub proof fn lemma_split_lf_len(s: Seq<char>)
    ensures
        split_lf(s).len() >= 1,
    decreases s.len(),
{
    if s.len() > 0 {
        lemma_split_lf_len(s.drop_last());
    }
}

pub proof fn lemma_split_lf_no_lf(s: Seq<char>)
    ensures
        forall|j: int| 0 <= j < split_lf(s).len() ==> !(#[trigger] split_lf(s)[j]).contains('\n'),
    decreases s.len(),
{
    lemma_split_lf_len(s);
    if s.len() > 0 {
        lemma_split_lf_no_lf(s.drop_last());
        lemma_split_lf_len(s.drop_last());
        let rest = split_lf(s.drop_last());
        if s.last() != '\n' {
            assert forall|j: int| 0 <= j < split_lf(s).len() implies !(#[trigger] split_lf(s)[j]).contains('\n') by {
                if j == split_lf(s).len() - 1 {
                    let l = rest.last().push(s.last());
                    assert(!rest[rest.len() - 1].contains('\n'));
                    if l.contains('\n') {
                        let k = choose|k: int| 0 <= k < l.len() && l[k] == '\n';
                        assert(rest.last()[k] == '\n');
                    }
                } else {
                    assert(split_lf(s)[j] == rest[j]);
                }
            }
        } else {
            assert forall|j: int| 0 <= j < split_lf(s).len() implies !(#[trigger] split_lf(s)[j]).contains('\n') by {
                if j < rest.len() {
                    assert(split_lf(s)[j] == rest[j]);
                }
            }
        }
    }
}

/// The lines of a code block's text.
pub fn code_lines(contents: &str) -> (r: Vec<String>)
    ensures
        r@.len() == code_lines_spec(contents@).len(),
        forall|j: int| 0 <= j < r@.len() ==> (#[trigger] r@[j])@ == code_lines_spec(contents@)[j],
        forall|j: int| 0 <= j < r@.len() ==> !(#[trigger] r@[j])@.contains('\n'),
{
    let v = to_chars(contents);
    let mut end = v.len();
    while end > 0 && v[end - 1] == '\n'
        invariant
            end <= v@.len(),
            strip_trailing_lf(v@, v@.len() as int) == strip_trailing_lf(v@, end as int),
        decreases end,
    {
        end = end - 1;
    }
    let ghost body = v@.subrange(0, end as int);
    let mut out: Vec<String> = Vec::new();
    let mut cur = String::new();
    let mut i: usize = 0;
    while i < end
        invariant
            i <= end <= v@.len(),
            body == v@.subrange(0, end as int),
            out@.len() + 1 == split_lf(v@.subrange(0, i as int)).len(),
            forall|j: int| 0 <= j < out@.len() ==> (#[trigger] out@[j])@ == split_lf(v@.subrange(0, i as int))[j],
            cur@ == split_lf(v@.subrange(0, i as int)).last(),
        decreases end - i,
    {
        proof {
            assert(v@.subrange(0, i + 1).drop_last() =~= v@.subrange(0, i as int));
            lemma_split_lf_len(v@.subrange(0, i as int));
        }
        if v[i] == '\n' {
            let mut fresh = String::new();
            std::mem::swap(&mut fresh, &mut cur);
            out.push(fresh);
        } else {
            cur.push(v[i]);
        }
        i = i + 1;
    }
    out.push(cur);
    proof {
        assert(v@.subrange(0, end as int) =~= body);
        lemma_split_lf_len(body);
        lemma_split_lf_no_lf(body);
    }
    assert(out@.len() == code_lines_spec(contents@).len());
    out
}

} // verus!
