use vstd::prelude::*;
use crate::style::{Style, Span, Line, Text, Color, default_style, spec_add_modifier, spec_patch, BOLD, ITALIC, REVERSED};
use crate::text::{copy_string, string_from, push_str, push_decimal, decimal, trim, trim_spec, str_width, text_width};
use crate::chat::{Role, Message, Source, Attachment, Focus, Mode, opt_view, message_hash, message_hash_writes, min_int, copy_sources, same_sources};
use crate::client::{ClientState, CacheEntry};
use crate::md_render::{render_markdown_to_text, repeat_seq, repeat_str, markdown_rendered};
use crate::theme::{Theme, apply_selection};
use crate::ui::{message_timestamp, message_ts, clone_with_modifier, modified_line};
use std::collections::hash_map::DefaultHasher;
use vstd::std_specs::hash::DefaultHasherAdditionalSpecFns;
use crate::json::{Json, JsonNumber, JsonV, jv, value_get, value_get_ref, as_u64_v, as_str_v, as_str_ref};
use crate::math::{parse_usize_spec, parse_usize_range};

verus! {

/// A span as plain values.
pub open spec fn span_v(s: Span) -> (Seq<char>, Style) {
    (s.content@, s.style)
}

/// A line as plain values: its spans and its own style.
pub open spec fn line_v(l: Line) -> (Seq<(Seq<char>, Style)>, Style) {
    (l.spans@.map_values(|s: Span| span_v(s)), l.style)
}

pub open spec fn lines_v(ls: Seq<Line>) -> Seq<(Seq<(Seq<char>, Style)>, Style)> {
    ls.map_values(|l: Line| line_v(l))
}

/// A copy of a line.
pub fn copy_line(l: &Line) -> (r: Line)
    ensures
        line_v(r) == line_v(*l),
{
    let mut spans: Vec<Span> = Vec::new();
    let mut i: usize = 0;
    while i < l.spans.len()
        invariant
            i <= l.spans@.len(),
            spans@.len() == i,
            forall|k: int| 0 <= k < i ==> span_v(#[trigger] spans@[k]) == span_v(l.spans@[k]),
        decreases l.spans.len() - i,
    {
        spans.push(Span { content: copy_string(&l.spans[i].content), style: l.spans[i].style });
        i = i + 1;
    }
    assert(spans@.map_values(|s: Span| span_v(s)) =~= l.spans@.map_values(|s: Span| span_v(s)));
    Line { spans, style: l.style }
}

/// A copy of a text.
pub fn copy_text(t: &Text) -> (r: Text)
    ensures
        lines_v(r.lines@) == lines_v(t.lines@),
{
    let mut lines: Vec<Line> = Vec::new();
    let mut i: usize = 0;
    while i < t.lines.len()
        invariant
            i <= t.lines@.len(),
            lines@.len() == i,
            forall|k: int| 0 <= k < i ==> line_v(#[trigger] lines@[k]) == line_v(t.lines@[k]),
        decreases t.lines.len() - i,
    {
        lines.push(copy_line(&t.lines[i]));
        i = i + 1;
    }
    assert(lines_v(lines@) =~= lines_v(t.lines@));
    Text { lines }
}

/// `style`, marked when selected.
pub open spec fn sel_style(style: Style, selected: bool, bold: bool) -> Style {
    if !selected { style } else if bold { spec_add_modifier(style, BOLD) } else { spec_add_modifier(style, REVERSED) }
}

pub open spec fn fg(c: Color) -> Style {
    Style { fg: Some(c), ..default_style() }
}

/// The name a message's author is shown under.
pub open spec fn role_label(r: Role, model: Seq<char>) -> Seq<char> {
    match r {
        Role::User => "You"@,
        Role::Assistant => model,
        Role::System => "System"@,
    }
}

pub open spec fn role_color(r: Role, t: Theme) -> Color {
    match r {
        Role::User => t.user_prefix,
        Role::Assistant => t.assistant_prefix,
        Role::System => t.system_prefix,
    }
}

/// The length of the rule between a message's author and its time.
pub open spec fn rule_len(inner_w: u16, label_w: int, ts_w: int) -> int {
    let used = min_int(min_int(label_w + ts_w, usize::MAX as int) + 2, usize::MAX as int);
    let room = if inner_w as int >= used { inner_w as int - used } else { 0 };
    if room < 1 { 1 } else { room }
}

/// The header line of a message: author, a rule filling the width, time.
pub open spec fn header_v(app: ClientState, m: Message, ts: Seq<char>, inner_w: u16, selected: bool) -> (Seq<(Seq<char>, Style)>, Style) {
    let label = role_label(m.role, app.model@) + ":"@;
    let n = rule_len(inner_w, text_width(label) as int, text_width(ts) as int);
    (seq![
        (label, sel_style(spec_add_modifier(fg(role_color(m.role, app.theme)), BOLD), selected, app.bold_selection)),
        (" "@, default_style()),
        (repeat_seq("─"@, n as nat), sel_style(fg(app.theme.message_rule), selected, app.bold_selection)),
        (" "@, default_style()),
        (ts, sel_style(fg(app.theme.message_meta), selected, app.bold_selection)),
    ], default_style())
}

/// A line of one span.
pub open spec fn one_span_line(t: Seq<char>, s: Style) -> (Seq<(Seq<char>, Style)>, Style) {
    (seq![(t, s)], default_style())
}

pub open spec fn blank_line_v() -> (Seq<(Seq<char>, Style)>, Style) {
    one_span_line(Seq::empty(), default_style())
}

/// A rendered line of the thinking section: a bar, then each span with the
/// thinking style under its own.
pub open spec fn thinking_line_v(l: (Seq<(Seq<char>, Style)>, Style), ts: Style) -> (Seq<(Seq<char>, Style)>, Style) {
    (seq![("▏ "@, ts)] + l.0.map_values(|p: (Seq<char>, Style)| (p.0, spec_patch(ts, p.1))), default_style())
}

/// The thinking section, given the rendered thinking text.
pub open spec fn thinking_part(app: ClientState, m: Message, th: Seq<(Seq<(Seq<char>, Style)>, Style)>) -> Seq<(Seq<(Seq<char>, Style)>, Style)> {
    match m.thinking {
        Some(t) => if app.show_thinking && trim_spec(t@).len() > 0 {
            let ts = fg(app.theme.status_hint);
            seq![(Seq::<(Seq<char>, Style)>::empty(), spec_add_modifier(ts, ITALIC))]
                .map_values(|x: (Seq<(Seq<char>, Style)>, Style)| one_span_line("Thinking"@, x.1))
                + th.map_values(|l: (Seq<(Seq<char>, Style)>, Style)| thinking_line_v(l, ts))
                + seq![blank_line_v()]
        } else {
            Seq::empty()
        },
        None => Seq::empty(),
    }
}

/// The line that shows an attachment.
pub open spec fn attachment_line_v(a: Attachment, t: Theme) -> (Seq<(Seq<char>, Style)>, Style) {
    (seq![
        ("Attachment: "@, spec_add_modifier(fg(t.stats_label), BOLD)),
        (a.original_path@ + " ("@ + a.mime_type@ + ")"@, fg(t.status_hint)),
    ], default_style())
}

pub open spec fn attachments_part(m: Message, t: Theme) -> Seq<(Seq<(Seq<char>, Style)>, Style)> {
    if m.attachments@.len() == 0 {
        Seq::empty()
    } else {
        m.attachments@.map_values(|a: Attachment| attachment_line_v(a, t)) + seq![blank_line_v()]
    }
}

/// The lines that show source number `i` (counted from 0).
pub open spec fn source_lines_v(i: int, s: Source, t: Theme) -> Seq<(Seq<(Seq<char>, Style)>, Style)> {
    let title = if s.title@.len() == 0 { s.url@ } else { s.title@ };
    let head = (seq![("["@ + decimal((i + 1) as nat) + "] "@, fg(t.stats_label)), (title, fg(t.stats_value))], default_style());
    let url = one_span_line(s.url@, fg(t.status_hint));
    if s.snippet@.len() == 0 {
        seq![head, url]
    } else {
        seq![head, url, one_span_line(s.snippet@, fg(t.message_meta))]
    }
}

pub open spec fn sources_lines_from(ss: Seq<Source>, t: Theme, n: int) -> Seq<(Seq<(Seq<char>, Style)>, Style)>
    decreases n,
{
    if n <= 0 || n > ss.len() {
        Seq::empty()
    } else {
        sources_lines_from(ss, t, n - 1) + source_lines_v(n - 1, ss[n - 1], t)
    }
}

pub open spec fn sources_part(m: Message, t: Theme) -> Seq<(Seq<(Seq<char>, Style)>, Style)> {
    if m.sources@.len() == 0 {
        Seq::empty()
    } else {
        seq![blank_line_v(), one_span_line("Sources"@, spec_add_modifier(fg(t.heading2), BOLD))]
            + sources_lines_from(m.sources@, t, m.sources@.len() as int)
    }
}

/// The body lines, marked when the message is selected.
pub open spec fn body_part(app: ClientState, body: Seq<(Seq<(Seq<char>, Style)>, Style)>, selected: bool) -> Seq<(Seq<(Seq<char>, Style)>, Style)> {
    if !selected {
        body
    } else {
        let m: u16 = if app.bold_selection { BOLD } else { REVERSED };
        body.map_values(|l: (Seq<(Seq<char>, Style)>, Style)|
            (l.0.map_values(|p: (Seq<char>, Style)| (p.0, spec_add_modifier(p.1, m))), l.1))
    }
}

/// Everything a message shows, given its time text, its rendered thinking
/// and its rendered body.
pub open spec fn message_block_v(app: ClientState, m: Message, inner_w: u16, selected: bool, ts: Seq<char>,
    th: Seq<(Seq<(Seq<char>, Style)>, Style)>, body: Seq<(Seq<(Seq<char>, Style)>, Style)>) -> Seq<(Seq<(Seq<char>, Style)>, Style)> {
    seq![header_v(app, m, ts, inner_w, selected)]
        + thinking_part(app, m, th)
        + attachments_part(m, app.theme)
        + body_part(app, body, selected)
        + sources_part(m, app.theme)
        + seq![blank_line_v()]
}


fn span(content: String, style: Style) -> (r: Span)
    ensures
        span_v(r) == (content@, style),
{
    Span { content, style }
}

fn line_of(spans: Vec<Span>) -> (r: Line)
    ensures
        line_v(r) == (spans@.map_values(|s: Span| span_v(s)), default_style()),
{
    Line { spans, style: Style::new() }
}

fn one_line(t: String, s: Style) -> (r: Line)
    ensures
        line_v(r) == one_span_line(t@, s),
{
    let v: Vec<Span> = vec![span(t, s)];
    let r = line_of(v);
    assert(line_v(r).0 =~= seq![(t@, s)]);
    r
}

fn push_v(text: &mut Text, l: Line)
    ensures
        lines_v(final(text).lines@) == lines_v(old(text).lines@).push(line_v(l)),
{
    let ghost before = lines_v(text.lines@);
    text.push_line(l);
    assert(lines_v(text.lines@) =~= before.push(line_v(l)));
}

/// The header line of a message.
pub fn header_line(app: &ClientState, m: &Message, ts: &String, inner_w: u16, selected: bool) -> (r: Line)
    ensures
        line_v(r) == header_v(*app, *m, ts@, inner_w, selected),
{
    let mut label = match m.role {
        Role::User => string_from("You"),
        Role::Assistant => copy_string(&app.model),
        Role::System => string_from("System"),
    };
    push_str(&mut label, ":");
    let color = match m.role {
        Role::User => app.theme.user_prefix,
        Role::Assistant => app.theme.assistant_prefix,
        Role::System => app.theme.system_prefix,
    };
    let lw = str_width(label.as_str());
    let tw = str_width(ts.as_str());
    let used = lw.saturating_add(tw).saturating_add(2);
    let room = (inner_w as usize).saturating_sub(used);
    let n = if room < 1 { 1 } else { room };
    let rule = repeat_str("─", n);
    let header_style = apply_selection(Style::new().fg(color).add_modifier(BOLD), selected, app.bold_selection);
    let meta_style = apply_selection(Style::new().fg(app.theme.message_meta), selected, app.bold_selection);
    let rule_style = apply_selection(Style::new().fg(app.theme.message_rule), selected, app.bold_selection);
    let ghost lv = label@;
    let v: Vec<Span> = vec![
        span(label, header_style),
        span(string_from(" "), Style::new()),
        span(rule, rule_style),
        span(string_from(" "), Style::new()),
        span(copy_string(ts), meta_style),
    ];
    let r = line_of(v);
    assert(line_v(r).0 =~= header_v(*app, *m, ts@, inner_w, selected).0);
    r
}

fn push_thinking(text: &mut Text, app: &ClientState, m: &Message, inner_w: u16) -> (th: Ghost<Seq<(Seq<(Seq<char>, Style)>, Style)>>)
    ensures
        lines_v(final(text).lines@) == lines_v(old(text).lines@) + thinking_part(*app, *m, th@),
        thinking_source(*app, *m, inner_w, th@),
{
    let ghost old_lines = lines_v(text.lines@);
    if !app.show_thinking {
        assert(lines_v(text.lines@) =~= old_lines + thinking_part(*app, *m, Seq::empty()));
        return Ghost(Seq::empty());
    }
    match &m.thinking {
        None => {
            assert(lines_v(text.lines@) =~= old_lines + thinking_part(*app, *m, Seq::empty()));
            Ghost(Seq::empty())
        },
        Some(t) => {
            if trim(t.as_str()).as_str().is_empty() {
                assert(lines_v(text.lines@) =~= old_lines + thinking_part(*app, *m, Seq::empty()));
                return Ghost(Seq::empty());
            }
            let ts = Style::new().fg(app.theme.status_hint);
            push_v(text, one_line(string_from("Thinking"), ts.add_modifier(ITALIC)));
            let rendered = render_markdown_to_text(t.as_str(), &app.theme, inner_w.saturating_sub(3), &app.syn_ss,
                &app.syn_theme, app.syntax_enabled, app.render_emojis);
            let ghost th = lines_v(rendered.lines@);
            let ghost mid = lines_v(text.lines@);
            let mut i: usize = 0;
            while i < rendered.lines.len()
                invariant
                    i <= rendered.lines@.len(),
                    th == lines_v(rendered.lines@),
                    lines_v(text.lines@) == mid + th.take(i as int).map_values(|l: (Seq<(Seq<char>, Style)>, Style)| thinking_line_v(l, ts)),
                decreases rendered.lines.len() - i,
            {
                let src = &rendered.lines[i];
                let mut spans: Vec<Span> = vec![span(string_from("▏ "), ts)];
                let mut k: usize = 0;
                assert(spans@.map_values(|s: Span| span_v(s)) =~= seq![("▏ "@, ts)]);
                while k < src.spans.len()
                    invariant
                        k <= src.spans@.len(),
                        spans@.map_values(|s: Span| span_v(s)) == seq![("▏ "@, ts)]
                            + src.spans@.take(k as int).map_values(|s: Span| (s.content@, spec_patch(ts, s.style))),
                    decreases src.spans.len() - k,
                {
                    let ghost before = spans@.map_values(|s: Span| span_v(s));
                    spans.push(span(copy_string(&src.spans[k].content), ts.patch(src.spans[k].style)));
                    assert(spans@.map_values(|s: Span| span_v(s)) =~= before.push((src.spans@[k as int].content@, spec_patch(ts, src.spans@[k as int].style))));
                    assert(src.spans@.take(k + 1).map_values(|s: Span| (s.content@, spec_patch(ts, s.style)))
                        =~= src.spans@.take(k as int).map_values(|s: Span| (s.content@, spec_patch(ts, s.style)))
                            .push((src.spans@[k as int].content@, spec_patch(ts, src.spans@[k as int].style))));
                    k = k + 1;
                }
                assert(src.spans@.take(src.spans@.len() as int) =~= src.spans@);
                let nl = line_of(spans);
                assert(line_v(nl) =~= thinking_line_v(th[i as int], ts));
                push_v(text, nl);
                assert(th.take(i + 1).map_values(|l: (Seq<(Seq<char>, Style)>, Style)| thinking_line_v(l, ts))
                    =~= th.take(i as int).map_values(|l: (Seq<(Seq<char>, Style)>, Style)| thinking_line_v(l, ts)).push(thinking_line_v(th[i as int], ts)));
                i = i + 1;
            }
            assert(th.take(th.len() as int) =~= th);
            push_v(text, one_line(String::new(), Style::new()));
            assert(lines_v(text.lines@) =~= old_lines + thinking_part(*app, *m, th));
            assert(markdown_rendered(t@, app.theme, thinking_width(inner_w), app.syntax_enabled, app.render_emojis, None, rendered));
            Ghost(th)
        },
    }
}

fn push_attachments(text: &mut Text, m: &Message, t: &Theme)
    ensures
        lines_v(final(text).lines@) == lines_v(old(text).lines@) + attachments_part(*m, *t),
{
    let ghost old_lines = lines_v(text.lines@);
    if m.attachments.len() == 0 {
        assert(lines_v(text.lines@) =~= old_lines + attachments_part(*m, *t));
        return;
    }
    let mut i: usize = 0;
    while i < m.attachments.len()
        invariant
            i <= m.attachments@.len(),
            lines_v(text.lines@) == old_lines + m.attachments@.take(i as int).map_values(|a: Attachment| attachment_line_v(a, *t)),
        decreases m.attachments.len() - i,
    {
        let a = &m.attachments[i];
        let mut desc = copy_string(&a.original_path);
        push_str(&mut desc, " (");
        push_str(&mut desc, a.mime_type.as_str());
        push_str(&mut desc, ")");
        let v: Vec<Span> = vec![
            span(string_from("Attachment: "), Style::new().fg(t.stats_label).add_modifier(BOLD)),
            span(desc, Style::new().fg(t.status_hint)),
        ];
        let l = line_of(v);
        assert(line_v(l) =~= attachment_line_v(*a, *t));
        push_v(text, l);
        assert(m.attachments@.take(i + 1).map_values(|a: Attachment| attachment_line_v(a, *t))
            =~= m.attachments@.take(i as int).map_values(|a: Attachment| attachment_line_v(a, *t)).push(attachment_line_v(*a, *t)));
        i = i + 1;
    }
    assert(m.attachments@.take(m.attachments@.len() as int) =~= m.attachments@);
    push_v(text, one_line(String::new(), Style::new()));
    assert(lines_v(text.lines@) =~= old_lines + attachments_part(*m, *t));
}

fn push_sources(text: &mut Text, m: &Message, t: &Theme)
    ensures
        lines_v(final(text).lines@) == lines_v(old(text).lines@) + sources_part(*m, *t),
{
    let ghost old_lines = lines_v(text.lines@);
    if m.sources.len() == 0 {
        assert(lines_v(text.lines@) =~= old_lines + sources_part(*m, *t));
        return;
    }
    push_v(text, one_line(String::new(), Style::new()));
    push_v(text, one_line(string_from("Sources"), Style::new().fg(t.heading2).add_modifier(BOLD)));
    let ghost head = lines_v(text.lines@);
    let mut i: usize = 0;
    while i < m.sources.len()
        invariant
            i <= m.sources@.len(),
            lines_v(text.lines@) == head + sources_lines_from(m.sources@, *t, i as int),
        decreases m.sources.len() - i,
    {
        let src = &m.sources[i];
        let mut num = string_from("[");
        push_decimal(&mut num, (i as u64) + 1);
        push_str(&mut num, "] ");
        let title = if src.title.as_str().is_empty() { copy_string(&src.url) } else { copy_string(&src.title) };
        let v: Vec<Span> = vec![
            span(num, Style::new().fg(t.stats_label)),
            span(title, Style::new().fg(t.stats_value)),
        ];
        let ghost before = lines_v(text.lines@);
        assert(num@ == "["@ + decimal((i + 1) as nat) + "] "@);
        let h = line_of(v);
        assert(line_v(h).0 =~= seq![("["@ + decimal((i + 1) as nat) + "] "@, fg(t.stats_label)),
            (if src.title@.len() == 0 { src.url@ } else { src.title@ }, fg(t.stats_value))]);
        push_v(text, h);
        push_v(text, one_line(copy_string(&src.url), Style::new().fg(t.status_hint)));
        if !src.snippet.as_str().is_empty() {
            push_v(text, one_line(copy_string(&src.snippet), Style::new().fg(t.message_meta)));
        }
        assert(lines_v(text.lines@) =~= before + source_lines_v(i as int, *src, *t));
        i = i + 1;
    }
    assert(lines_v(text.lines@) =~= old_lines + sources_part(*m, *t));
}

/// Position of the cached rendering of message `idx` at `width`.
pub open spec fn cache_find(c: Seq<CacheEntry>, idx: usize, width: u16) -> Option<int>
    decreases c.len(),
{
    if c.len() == 0 {
        None
    } else {
        match cache_find(c.drop_last(), idx, width) {
            Some(k) => Some(k),
            None => if c.last().idx == idx && c.last().width == width { Some(c.len() - 1) } else { None },
        }
    }
}

proof fn lemma_cache_find(c: Seq<CacheEntry>, idx: usize, width: u16)
    ensures
        cache_find(c, idx, width) matches Some(k) ==> 0 <= k < c.len() && c[k].idx == idx && c[k].width == width,
        cache_find(c, idx, width) is None ==> forall|k: int| 0 <= k < c.len() ==> !((#[trigger] c[k]).idx == idx && c[k].width == width),
    decreases c.len(),
{
    if c.len() > 0 {
        lemma_cache_find(c.drop_last(), idx, width);
        assert forall|k: int| 0 <= k < c.len() - 1 implies #[trigger] c[k] == c.drop_last()[k] by {}
    }
}

pub proof fn lemma_cache_find_none(c: Seq<CacheEntry>, idx: usize, width: u16)
    requires
        forall|k: int| 0 <= k < c.len() ==> !((#[trigger] c[k]).idx == idx && c[k].width == width),
    ensures
        cache_find(c, idx, width) is None,
    decreases c.len(),
{
    if c.len() > 0 {
        assert forall|k: int| 0 <= k < c.len() - 1 implies !((#[trigger] c.drop_last()[k]).idx == idx && c.drop_last()[k].width == width) by {
            assert(c.drop_last()[k] == c[k]);
        }
        lemma_cache_find_none(c.drop_last(), idx, width);
    }
}

proof fn lemma_cache_find_prefix(c: Seq<CacheEntry>, idx: usize, width: u16, k: int)
    requires
        0 <= k <= c.len(),
        cache_find(c.take(k), idx, width) is Some,
    ensures
        cache_find(c, idx, width) == cache_find(c.take(k), idx, width),
    decreases c.len(),
{
    if k == c.len() {
        assert(c.take(k) =~= c);
    } else {
        assert(c.drop_last().take(k) =~= c.take(k));
        lemma_cache_find_prefix(c.drop_last(), idx, width, k);
    }
}

fn find_cache(c: &Vec<CacheEntry>, idx: usize, width: u16) -> (r: Option<usize>)
    ensures
        r matches Some(k) ==> cache_find(c@, idx, width) == Some(k as int),
        r is None ==> cache_find(c@, idx, width) is None,
{
    let mut i: usize = 0;
    while i < c.len()
        invariant
            i <= c@.len(),
            cache_find(c@.take(i as int), idx, width) is None,
        decreases c.len() - i,
    {
        assert(c@.take(i + 1).drop_last() =~= c@.take(i as int));
        if c[i].idx == idx && c[i].width == width {
            proof { lemma_cache_find_prefix(c@, idx, width, i + 1); }
            return Some(i);
        }
        i = i + 1;
    }
    assert(c@.take(c@.len() as int) =~= c@);
    None
}

/// The hash the render cache keeps for a message.
pub open spec fn msg_hash(m: Message) -> u64 {
    DefaultHasher::spec_finish(message_hash_writes(m))
}

/// `w - 3`, or 0 when `w` is below 3: the width the thinking section is
/// rendered at.
pub open spec fn thinking_width(w: u16) -> u16 {
    if w >= 3 { (w - 3) as u16 } else { 0 }
}

/// `lv` is what `input` renders to as Markdown with the client's theme and
/// switches, `w` columns wide.
pub open spec fn renders_to(app: ClientState, input: Seq<char>, w: u16, lv: Seq<(Seq<(Seq<char>, Style)>, Style)>) -> bool {
    exists|t: Text| #[trigger] markdown_rendered(input, app.theme, w, app.syntax_enabled, app.render_emojis, None, t)
        && lines_v(t.lines@) == lv
}

/// The cache holds a rendering of message `idx` at `w` made for hash `h`.
pub open spec fn cache_hit(c: Seq<CacheEntry>, idx: usize, w: u16, h: u64) -> bool {
    cache_find(c, idx, w) matches Some(k) && c[k].hash == h
}

/// `b` is `a` with at most its render cache changed.
pub open spec fn only_cache_changed(a: ClientState, b: ClientState) -> bool {
    b == ClientState { render_cache: b.render_cache, ..a }
}

/// Where the body of message `m` comes from: the cache when it holds a
/// rendering for the message's current hash, else a fresh rendering of the
/// message's content.
pub open spec fn body_source(app: ClientState, idx: usize, m: Message, w: u16, body: Seq<(Seq<(Seq<char>, Style)>, Style)>) -> bool {
    if cache_hit(app.render_cache@, idx, w, msg_hash(m)) {
        body == lines_v(app.render_cache@[cache_find(app.render_cache@, idx, w)->0].text.lines@)
    } else {
        renders_to(app, m.content@, w, body)
    }
}

/// The cache after a lookup of message `idx` at `w`: an entry for it exists,
/// in place of the old one or added at the end, and every other entry is
/// kept.
pub open spec fn cache_kept(c0: Seq<CacheEntry>, c1: Seq<CacheEntry>, idx: usize, w: u16) -> bool {
    match cache_find(c0, idx, w) {
        Some(k) => c1.len() == c0.len() && cache_find(c1, idx, w) == Some(k)
            && forall|j: int| 0 <= j < c0.len() && j != k ==> #[trigger] c1[j] == c0[j],
        None => c1.len() == c0.len() + 1 && cache_find(c1, idx, w) == Some(c0.len() as int)
            && forall|j: int| 0 <= j < c0.len() ==> #[trigger] c1[j] == c0[j],
    }
}

impl ClientState {
    /// The rendered body of message `idx`, from the cache when it holds a
    /// rendering for the message's current hash, else freshly rendered and
    /// cached.
    #[verifier::rlimit(40)]
    #[verifier::spinoff_prover]
    pub fn cached_body(&mut self, idx: usize, m: &Message, inner_w: u16) -> (r: Text)
        ensures
            body_source(*old(self), idx, *m, inner_w, lines_v(r.lines@)),
            cache_find(final(self).render_cache@, idx, inner_w) matches Some(k)
                && final(self).render_cache@[k].hash == msg_hash(*m)
                && lines_v(final(self).render_cache@[k].text.lines@) == lines_v(r.lines@),
            cache_hit(old(self).render_cache@, idx, inner_w, msg_hash(*m)) ==> final(self).render_cache == old(self).render_cache,
            cache_kept(old(self).render_cache@, final(self).render_cache@, idx, inner_w),
            final(self).theme == old(self).theme,
            final(self).model == old(self).model,
            final(self).bold_selection == old(self).bold_selection,
            final(self).show_thinking == old(self).show_thinking,
            final(self).syntax_enabled == old(self).syntax_enabled,
            final(self).render_emojis == old(self).render_emojis,
            final(self).messages == old(self).messages,
            only_cache_changed(*old(self), *final(self)),
    {
        let h = message_hash(m);
        let found = find_cache(&self.render_cache, idx, inner_w);
        proof { lemma_cache_find(self.render_cache@, idx, inner_w); }
        match found {
            Some(k) => {
                if self.render_cache[k].hash == h {
                    return copy_text(&self.render_cache[k].text);
                }
                let t = render_markdown_to_text(m.content.as_str(), &self.theme, inner_w, &self.syn_ss, &self.syn_theme,
                    self.syntax_enabled, self.render_emojis);
                let copy = copy_text(&t);
                let ghost c0 = self.render_cache@;
                let ghost tv = t;
                self.render_cache.set(k, CacheEntry { idx, width: inner_w, hash: h, text: t });
                proof {
                    let c1 = self.render_cache@;
                    assert forall|j: int| 0 <= j < k implies #[trigger] c1[j] == c0[j] by {}
                    assert(c1.take(k + 1).drop_last() =~= c0.take(k as int));
                    assert(cache_find(c0.take(k as int), idx, inner_w) is None) by {
                        lemma_cache_find(c0.take(k as int), idx, inner_w);
                        if cache_find(c0.take(k as int), idx, inner_w) is Some {
                            lemma_cache_find_prefix(c0, idx, inner_w, k as int);
                        }
                    }
                    lemma_cache_find_prefix(c1, idx, inner_w, k + 1);
                    assert(markdown_rendered(m.content@, old(self).theme, inner_w, old(self).syntax_enabled, old(self).render_emojis, None, tv));
                }
                copy
            },
            None => {
                let t = render_markdown_to_text(m.content.as_str(), &self.theme, inner_w, &self.syn_ss, &self.syn_theme,
                    self.syntax_enabled, self.render_emojis);
                let copy = copy_text(&t);
                let ghost c0 = self.render_cache@;
                let ghost tv = t;
                self.render_cache.push(CacheEntry { idx, width: inner_w, hash: h, text: t });
                proof {
                    let c1 = self.render_cache@;
                    assert(c1.drop_last() =~= c0);
                    assert(markdown_rendered(m.content@, old(self).theme, inner_w, old(self).syntax_enabled, old(self).render_emojis, None, tv));
                }
                copy
            },
        }
    }
}

/// Where the thinking lines of message `m` come from: a rendering of its
/// thinking text, three columns narrower than the body, when the section is
/// shown; none otherwise.
pub open spec fn thinking_source(app: ClientState, m: Message, w: u16, th: Seq<(Seq<(Seq<char>, Style)>, Style)>) -> bool {
    if shows_thinking(app.show_thinking, m) {
        renders_to(app, m.thinking->0@, thinking_width(w), th)
    } else {
        th.len() == 0
    }
}

/// Appends `lines` to `text`, in order.
fn append_lines(text: &mut Text, lines: Vec<Line>)
    ensures
        lines_v(final(text).lines@) == lines_v(old(text).lines@) + lines_v(lines@),
{
    let mut lines = lines;
    let mut rev: Vec<Line> = Vec::new();
    let ghost orig = lines@;
    while lines.len() > 0
        invariant
            lines@.len() + rev@.len() == orig.len(),
            lines@ == orig.take(lines@.len() as int),
            forall|j: int| 0 <= j < rev@.len() ==> #[trigger] rev@[j] == orig[orig.len() - 1 - j],
        decreases lines@.len(),
    {
        let l = lines.pop().unwrap();
        rev.push(l);
        assert(lines@ =~= orig.take(lines@.len() as int));
    }
    let ghost before = lines_v(text.lines@);
    while rev.len() > 0
        invariant
            rev@.len() <= orig.len(),
            forall|j: int| 0 <= j < rev@.len() ==> #[trigger] rev@[j] == orig[orig.len() - 1 - j],
            lines_v(text.lines@) == before + lines_v(orig.take(orig.len() - rev@.len())),
        decreases rev@.len(),
    {
        let ghost k: int = orig.len() - rev@.len();
        let l = rev.pop().unwrap();
        assert(l == orig[k]);
        push_v(text, l);
        assert(lines_v(orig.take(k + 1)) =~= lines_v(orig.take(k)).push(line_v(l)));
    }
    assert(orig.take(orig.len() as int) =~= orig);
}

/// The body lines as shown: marked when the message is selected.
fn marked_body(app: &ClientState, body: Text, selected: bool) -> (r: Text)
    ensures
        lines_v(r.lines@) == body_part(*app, lines_v(body.lines@), selected),
{
    let ghost bv = lines_v(body.lines@);
    if selected {
        let modifier: u16 = if app.bold_selection { BOLD } else { REVERSED };
        let r = clone_with_modifier(body, modifier);
        proof {
            assert forall|j: int| 0 <= j < r.lines@.len() implies #[trigger] lines_v(r.lines@)[j] == body_part(*app, bv, true)[j] by {
                assert(modified_line(body.lines@[j], r.lines@[j], modifier));
                assert(line_v(r.lines@[j]).0 =~= bv[j].0.map_values(|p: (Seq<char>, Style)| (p.0, spec_add_modifier(p.1, modifier))));
            }
            assert(lines_v(r.lines@) =~= body_part(*app, bv, true));
        }
        r
    } else {
        body
    }
}

/// Appends the lines that show message `m` (number `idx`) to `text`: a
/// header, the thinking section, attachments, the rendered body (marked when
/// selected), the sources and a blank line.
#[verifier::rlimit(80)]
#[verifier::spinoff_prover]
pub fn render_message_block(text: &mut Text, app: &mut ClientState, idx: usize, m: &Message, inner_w: u16, selected: bool)
    ensures
        exists|ts: Seq<char>, th: Seq<(Seq<(Seq<char>, Style)>, Style)>, body: Seq<(Seq<(Seq<char>, Style)>, Style)>|
            #![trigger message_block_v(*old(app), *m, inner_w, selected, ts, th, body)]
            lines_v(final(text).lines@) == lines_v(old(text).lines@) + message_block_v(*old(app), *m, inner_w, selected, ts, th, body)
            && (message_ts(*m, old(app).current_created_ts) <= 0 ==> ts == "Unknown time"@)
            && thinking_source(*old(app), *m, inner_w, th)
            && body_source(*old(app), idx, *m, inner_w, body)
            && (cache_find(final(app).render_cache@, idx, inner_w) matches Some(k)
                && lines_v(final(app).render_cache@[k].text.lines@) == body),
        cache_find(final(app).render_cache@, idx, inner_w) matches Some(k) && final(app).render_cache@[k].hash == msg_hash(*m),
        cache_kept(old(app).render_cache@, final(app).render_cache@, idx, inner_w),
        cache_hit(old(app).render_cache@, idx, inner_w, msg_hash(*m)) ==> final(app).render_cache == old(app).render_cache,
        final(app).messages == old(app).messages,
        final(app).theme == old(app).theme,
        only_cache_changed(*old(app), *final(app)),
{
    let ts = message_timestamp(m, app.current_created_ts);
    let ghost a0 = *app;
    let ghost start = lines_v(text.lines@);
    push_v(text, header_line(app, m, &ts, inner_w, selected));
    let th = push_thinking(text, app, m, inner_w);
    push_attachments(text, m, &app.theme);
    let ghost before_body = lines_v(text.lines@);
    assert(before_body == start + seq![header_v(a0, *m, ts@, inner_w, selected)] + thinking_part(a0, *m, th@) + attachments_part(*m, a0.theme));
    let body = app.cached_body(idx, m, inner_w);
    let ghost bv = lines_v(body.lines@);
    assert(body_part(*app, bv, selected) == body_part(a0, bv, selected));
    let md = marked_body(app, body, selected);
    append_lines(text, md.lines);
    push_sources(text, m, &app.theme);
    push_v(text, one_line(String::new(), Style::new()));
    proof {
        let whole = message_block_v(*old(app), *m, inner_w, selected, ts@, th@, bv);
        assert(lines_v(text.lines@) =~= start + whole);
    }
}

pub open spec fn sat16(a: int, b: int) -> u16 {
    if a + b > 0xffff { 0xffff } else { (a + b) as u16 }
}

/// `a + b` as `u16::wrapping_add` computes it.
pub open spec fn wrap16(a: u16, b: u16) -> u16 {
    if a as int + b as int > 0xffff { (a as int + b as int - 0x10000) as u16 } else { (a + b) as u16 }
}

/// The low sixteen bits of a count.
pub open spec fn low16(n: nat) -> u16 {
    (n % 0x10000) as u16
}

/// Rows of the sources section: two per source, three with a snippet
/// (added as `u16`, wrapping).
pub open spec fn source_rows(ss: Seq<Source>, n: int) -> u16
    decreases n,
{
    if n <= 0 || n > ss.len() {
        0
    } else {
        wrap16(source_rows(ss, n - 1), if ss[n - 1].snippet@.len() == 0 { 2u16 } else { 3u16 })
    }
}

/// Whether a message shows its thinking section.
pub open spec fn shows_thinking(show: bool, m: Message) -> bool {
    show && (m.thinking matches Some(t) && trim_spec(t@).len() > 0)
}

/// Rows a message takes given how many lines its thinking and its body
/// render to: header, thinking section, attachments, body, sources and a
/// blank line.
pub open spec fn message_height_spec(show_thinking: bool, m: Message, th_lines: nat, body_lines: nat) -> u16 {
    let y0: u16 = 1;
    let y1 = if shows_thinking(show_thinking, m) { sat16(sat16(sat16(y0 as int, 1) as int, low16(th_lines) as int) as int, 1) } else { y0 };
    let y2 = if m.attachments@.len() > 0 { sat16(y1 as int, wrap16(low16(m.attachments@.len()), 1) as int) } else { y1 };
    let y3 = sat16(y2 as int, low16(body_lines) as int);
    let y4 = if m.sources@.len() > 0 { sat16(y3 as int, wrap16(source_rows(m.sources@, m.sources@.len() as int), 2) as int) } else { y3 };
    sat16(y4 as int, 1)
}

proof fn lemma_low16(n: usize)
    ensures
        (n as u16) == low16(n as nat),
{
    assert(n as u16 == (n % 0x10000) as u16) by (bit_vector);
}

/// Rows a message takes, given the line counts of its rendered thinking and
/// body.
pub fn message_height_from(show_thinking: bool, m: &Message, th_lines: usize, body_lines: usize) -> (r: u16)
    ensures
        r == message_height_spec(show_thinking, *m, th_lines as nat, body_lines as nat),
{
    let mut y: u16 = 1;
    let shows = match &m.thinking {
        Some(t) => show_thinking && !trim(t.as_str()).as_str().is_empty(),
        None => false,
    };
    proof {
        lemma_low16(th_lines);
        lemma_low16(body_lines);
        lemma_low16(m.attachments@.len() as usize);
    }
    if shows {
        y = y.saturating_add(1);
        y = y.saturating_add(#[verifier::truncate] (th_lines as u16));
        y = y.saturating_add(1);
    }
    let ghost y1 = y;
    if m.attachments.len() > 0 {
        y = y.saturating_add((#[verifier::truncate] (m.attachments.len() as u16)).wrapping_add(1));
    }
    let ghost y2 = y;
    y = y.saturating_add(#[verifier::truncate] (body_lines as u16));
    let ghost y3 = y;
    if m.sources.len() > 0 {
        let mut rows: u16 = 0;
        let mut i: usize = 0;
        while i < m.sources.len()
            invariant
                i <= m.sources@.len(),
                rows == source_rows(m.sources@, i as int),
            decreases m.sources.len() - i,
        {
            let add: u16 = if m.sources[i].snippet.as_str().is_empty() { 2 } else { 3 };
            rows = rows.wrapping_add(add);
            i = i + 1;
        }
        y = y.saturating_add(rows.wrapping_add(2));
    }
    y.saturating_add(1)
}

/// `h` is the row count of message `m` drawn `inner_w` columns wide: the
/// height that the line counts of its rendered thinking and of its rendered
/// content give.
#[verifier::opaque]
pub open spec fn message_height_is(app: ClientState, inner_w: u16, m: Message, h: u16) -> bool {
    exists|th: Seq<(Seq<(Seq<char>, Style)>, Style)>, body: Seq<(Seq<(Seq<char>, Style)>, Style)>|
        #![trigger thinking_source(app, m, inner_w, th), renders_to(app, m.content@, inner_w, body)]
        h == message_height_spec(app.show_thinking, m, th.len(), body.len())
        && thinking_source(app, m, inner_w, th)
        && renders_to(app, m.content@, inner_w, body)
}

/// Rows a message takes when drawn `inner_w` columns wide.
pub fn rendered_message_height(app: &ClientState, inner_w: u16, m: &Message) -> (r: u16)
    ensures
        message_height_is(*app, inner_w, *m, r),
{
    let shows = match &m.thinking {
        Some(t) => app.show_thinking && !trim(t.as_str()).as_str().is_empty(),
        None => false,
    };
    let ghost mut thv: Seq<(Seq<(Seq<char>, Style)>, Style)> = Seq::empty();
    let th_lines: usize = if shows {
        match &m.thinking {
            Some(t) => {
                let rt = render_markdown_to_text(t.as_str(), &app.theme, inner_w.saturating_sub(3), &app.syn_ss,
                    &app.syn_theme, app.syntax_enabled, app.render_emojis);
                proof {
                    thv = lines_v(rt.lines@);
                    assert(markdown_rendered(t@, app.theme, thinking_width(inner_w), app.syntax_enabled, app.render_emojis, None, rt));
                }
                rt.lines.len()
            },
            None => 0,
        }
    } else {
        0
    };
    let body = render_markdown_to_text(m.content.as_str(), &app.theme, inner_w, &app.syn_ss, &app.syn_theme,
        app.syntax_enabled, app.render_emojis);
    let r = message_height_from(app.show_thinking, m, th_lines, body.lines.len());
    proof {
        let bv = lines_v(body.lines@);
        assert(markdown_rendered(m.content@, app.theme, inner_w, app.syntax_enabled, app.render_emojis, None, body));
        assert(renders_to(*app, m.content@, inner_w, bv));
        assert(thinking_source(*app, *m, inner_w, thv));
        assert(r == message_height_spec(app.show_thinking, *m, thv.len(), bv.len()));
        reveal(message_height_is);
    }
    r
}

proof fn lemma_sources_rows(ss: Seq<Source>, t: Theme, n: int)
    requires
        0 <= n <= ss.len(),
        sources_lines_from(ss, t, n).len() <= 0xffff,
    ensures
        source_rows(ss, n) as int == sources_lines_from(ss, t, n).len(),
    decreases n,
{
    if n > 0 {
        lemma_sources_rows(ss, t, n - 1);
    }
}

/// The height of a message is the number of lines that its block appends,
/// for the same rendered thinking and body, as long as that number fits in
/// sixteen bits.
pub proof fn lemma_height_counts_block(app: ClientState, m: Message, inner_w: u16, selected: bool, ts: Seq<char>,
    th: Seq<(Seq<(Seq<char>, Style)>, Style)>, body: Seq<(Seq<(Seq<char>, Style)>, Style)>)
    requires
        message_block_v(app, m, inner_w, selected, ts, th, body).len() <= 0xffff,
    ensures
        message_height_spec(app.show_thinking, m, th.len(), body.len()) as int
            == message_block_v(app, m, inner_w, selected, ts, th, body).len(),
{
    let tp = thinking_part(app, m, th);
    let ap = attachments_part(m, app.theme);
    let bp = body_part(app, body, selected);
    let sp = sources_part(m, app.theme);
    assert(message_block_v(app, m, inner_w, selected, ts, th, body).len() == 1 + tp.len() + ap.len() + bp.len() + sp.len() + 1);
    assert(bp.len() == body.len());
    assert(tp.len() == if shows_thinking(app.show_thinking, m) { th.len() + 2 } else { 0 });
    assert(ap.len() == if m.attachments@.len() > 0 { m.attachments@.len() + 1 } else { 0 });
    if m.sources@.len() > 0 {
        lemma_sources_rows(m.sources@, app.theme, m.sources@.len() as int);
        assert(sp.len() == 2 + sources_lines_from(m.sources@, app.theme, m.sources@.len() as int).len());
    }
    if shows_thinking(app.show_thinking, m) {
        assert(low16(th.len()) == th.len());
    }
    assert(low16(body.len()) == body.len());
    assert(low16(m.attachments@.len()) == m.attachments@.len());
}

/// Rows above message `idx`: the heights of the messages before it, added
/// with saturation.
pub open spec fn offset_spec(heights: Seq<u16>, n: int) -> u16
    decreases n,
{
    if n <= 0 || n > heights.len() { 0 } else { sat16(offset_spec(heights, n - 1) as int, heights[n - 1] as int) }
}

/// The offset of the next message is this one's offset plus this message's
/// height (saturating at the largest row), starting from 0; offsets never
/// decrease from one message to the next.
pub proof fn lemma_offset_steps(hs: Seq<u16>, i: int, j: int)
    requires
        0 <= i <= j <= hs.len(),
    ensures
        offset_spec(hs, 0) == 0,
        i < hs.len() ==> offset_spec(hs, i + 1) == sat16(offset_spec(hs, i) as int, hs[i] as int),
        offset_spec(hs, i) <= offset_spec(hs, j),
    decreases j - i,
{
    if i < j {
        lemma_offset_steps(hs, i, j - 1);
    }
}

proof fn lemma_offset_prefix(hs: Seq<u16>, h: u16, n: int)
    requires
        0 <= n <= hs.len(),
    ensures
        offset_spec(hs.push(h), n) == offset_spec(hs, n),
    decreases n,
{
    if n > 0 {
        lemma_offset_prefix(hs, h, n - 1);
    }
}

/// The row at which message `idx` starts.
pub fn offset_for_message(app: &ClientState, inner_w: u16, idx: usize) -> (r: u16)
    ensures
        exists|hs: Seq<u16>| #![trigger offset_spec(hs, hs.len() as int)]
            hs.len() == (if idx < app.messages@.len() { idx as int } else { app.messages@.len() as int })
            && r == offset_spec(hs, hs.len() as int)
            && forall|k: int| 0 <= k < hs.len() ==> message_height_is(*app, inner_w, app.messages@[k], #[trigger] hs[k]),
{
    let n = if idx < app.messages.len() { idx } else { app.messages.len() };
    let mut y: u16 = 0;
    let ghost mut hs: Seq<u16> = Seq::empty();
    let mut i: usize = 0;
    while i < n
        invariant
            i <= n <= app.messages@.len(),
            hs.len() == i,
            y == offset_spec(hs, i as int),
            forall|k: int| 0 <= k < hs.len() ==> message_height_is(*app, inner_w, app.messages@[k], #[trigger] hs[k]),
        decreases n - i,
    {
        let h = rendered_message_height(app, inner_w, &app.messages[i]);
        proof {
            let nh = hs.push(h);
            assert(nh.drop_last() =~= hs);
            lemma_offset_prefix(hs, h, i as int);
            assert forall|k: int| 0 <= k < nh.len() implies message_height_is(*app, inner_w, app.messages@[k], #[trigger] nh[k]) by {
                if k < hs.len() {
                    assert(nh[k] == hs[k]);
                }
            }
            hs = nh;
        }
        y = y.saturating_add(h);
        i = i + 1;
    }
    y
}

/// The model's context window as the options set it: `num_ctx` as a number
/// or as decimal text.
pub open spec fn context_window_spec(options: Option<JsonV>) -> Option<usize> {
    match options {
        Some(o) => {
            let v = value_get(o, "num_ctx"@);
            match as_u64_v(v) {
                Some(n) => Some(n as usize),
                None => match as_str_v(v) {
                    Some(t) => match parse_usize_spec(t) {
                        Some(k) => Some(k as usize),
                        None => None,
                    },
                    None => None,
                },
            }
        },
        None => None,
    }
}

/// The context window the options give the model, if any.
pub fn context_window_tokens(app: &ClientState) -> (r: Option<usize>)
    ensures
        r == context_window_spec(match app.options { Some(o) => Some(jv(o)), None => None }),
{
    match &app.options {
        None => None,
        Some(o) => {
            let v = value_get_ref(o, "num_ctx");
            match v {
                Some(Json::Number(JsonNumber::PosInt(n))) => Some(#[verifier::truncate] (*n as usize)),
                _ => match as_str_ref(v) {
                    Some(t) => {
                        let cs = crate::text::to_chars(t);
                        assert(cs@.subrange(0, cs@.len() as int) =~= cs@);
                        parse_usize_range(&cs, 0, cs.len())
                    },
                    None => None,
                },
            }
        },
    }
}

/// The block that `render_message_block` appends for message `m` (number
/// `idx`) when the client's state is `app`.
#[verifier::opaque]
pub open spec fn message_block_is(app: ClientState, idx: usize, m: Message, w: u16, selected: bool,
    block: Seq<(Seq<(Seq<char>, Style)>, Style)>) -> bool {
    exists|ts: Seq<char>, th: Seq<(Seq<(Seq<char>, Style)>, Style)>, body: Seq<(Seq<(Seq<char>, Style)>, Style)>|
        #![trigger message_block_v(app, m, w, selected, ts, th, body)]
        block == message_block_v(app, m, w, selected, ts, th, body)
        && (message_ts(m, app.current_created_ts) <= 0 ==> ts == "Unknown time"@)
        && thinking_source(app, m, w, th)
        && body_source(app, idx, m, w, body)
}

/// The lines of `blocks`, one block after another.
pub open spec fn blocks_concat(blocks: Seq<Seq<(Seq<(Seq<char>, Style)>, Style)>>) -> Seq<(Seq<(Seq<char>, Style)>, Style)>
    decreases blocks.len(),
{
    if blocks.len() == 0 {
        Seq::empty()
    } else {
        blocks_concat(blocks.drop_last()) + blocks.last()
    }
}

/// The message that visual mode marks: the chosen one, else the last.
pub open spec fn marked_message(app: ClientState) -> int {
    match app.selected_msg {
        Some(s) => s as int,
        None => if app.messages@.len() == 0 { 0 } else { app.messages@.len() - 1 },
    }
}

/// Whether block `i` of the chat is drawn as selected: the chat has the
/// keyboard, visual mode is on, and it is the marked message.
pub open spec fn block_marked(app: ClientState, i: int) -> bool {
    app.focus == Focus::Chat && app.mode == Mode::Visual && i == marked_message(app)
}

/// The blocks of the chat's body, each of message `msgs[i]` drawn from state
/// `states[i]`: one per message, of a message equal field for field to it,
/// and one more for the reply still arriving, stamped `now`, when there is
/// one.
#[verifier::opaque]
pub open spec fn chat_blocks(app: ClientState, w: u16, now: i64, states: Seq<ClientState>, msgs: Seq<Message>,
    blocks: Seq<Seq<(Seq<(Seq<char>, Style)>, Style)>>) -> bool {
    let n = app.messages@.len();
    &&& blocks.len() == states.len()
    &&& blocks.len() == msgs.len()
    &&& blocks.len() == n + (if has_pending_stream(app) { 1int } else { 0int })
    &&& forall|i: int| 0 <= i < blocks.len() ==> only_cache_changed(app, #[trigger] states[i])
    &&& forall|i: int| 0 <= i < blocks.len() ==>
            message_block_is(states[i], i as usize, msgs[i], w, block_marked(app, i), #[trigger] blocks[i])
    &&& forall|i: int| 0 <= i < n ==> (#[trigger] msgs[i]).same(app.messages@[i])
    &&& has_pending_stream(app) ==> pending_message_is(app, now, msgs[n as int])
}

proof fn lemma_blocks_concat_push(bs: Seq<Seq<(Seq<(Seq<char>, Style)>, Style)>>, b: Seq<(Seq<(Seq<char>, Style)>, Style)>)
    ensures
        blocks_concat(bs.push(b)) == blocks_concat(bs) + b,
{
    assert(bs.push(b).drop_last() =~= bs);
}

/// Appends the block of message `m` (number `idx`) and gives it back with the
/// state it was drawn from.
fn push_message_block(text: &mut Text, app: &mut ClientState, idx: usize, m: &Message, inner_w: u16, selected: bool)
    -> (r: Ghost<Seq<(Seq<(Seq<char>, Style)>, Style)>>)
    ensures
        lines_v(final(text).lines@) == lines_v(old(text).lines@) + r@,
        message_block_is(*old(app), idx, *m, inner_w, selected, r@),
        only_cache_changed(*old(app), *final(app)),
{
    let ghost before = lines_v(text.lines@);
    let ghost a0 = *app;
    render_message_block(text, app, idx, m, inner_w, selected);
    let ghost blk = lines_v(text.lines@).subrange(before.len() as int, lines_v(text.lines@).len() as int);
    proof {
        let (ts, th, body) = choose|ts: Seq<char>, th: Seq<(Seq<(Seq<char>, Style)>, Style)>, body: Seq<(Seq<(Seq<char>, Style)>, Style)>|
            #![trigger message_block_v(a0, *m, inner_w, selected, ts, th, body)]
            lines_v(text.lines@) == before + message_block_v(a0, *m, inner_w, selected, ts, th, body)
            && (message_ts(*m, a0.current_created_ts) <= 0 ==> ts == "Unknown time"@)
            && thinking_source(a0, *m, inner_w, th)
            && body_source(a0, idx, *m, inner_w, body)
            && (cache_find(app.render_cache@, idx, inner_w) matches Some(k)
                && lines_v(app.render_cache@[k].text.lines@) == body);
        assert(blk =~= message_block_v(a0, *m, inner_w, selected, ts, th, body));
        assert(lines_v(text.lines@) =~= before + blk);
        reveal(message_block_is);
    }
    Ghost(blk)
}

/// The chat's body as drawn: the block of each message in turn, then that of
/// the reply still arriving, stamped `now`, when there is one; with the chat
/// focused in visual mode, the chosen message (else the last) is drawn as
/// selected.
#[verifier::rlimit(80)]
#[verifier::spinoff_prover]
pub fn chat_body(app: &mut ClientState, inner_w: u16, now: i64) -> (r: Text)
    ensures
        only_cache_changed(*old(app), *final(app)),
        exists|states: Seq<ClientState>, msgs: Seq<Message>, blocks: Seq<Seq<(Seq<(Seq<char>, Style)>, Style)>>|
            #![trigger chat_blocks(*old(app), inner_w, now, states, msgs, blocks)]
            chat_blocks(*old(app), inner_w, now, states, msgs, blocks) && lines_v(r.lines@) == blocks_concat(blocks),
{
    let ghost a0 = *app;
    let mut body = Text::new();
    let n = app.messages.len();
    let sel: usize = match app.selected_msg {
        Some(s) => s,
        None => n.saturating_sub(1),
    };
    let visual = app.focus == Focus::Chat && app.mode == Mode::Visual;
    let ghost mut states: Seq<ClientState> = Seq::empty();
    let ghost mut msgs: Seq<Message> = Seq::empty();
    let ghost mut blocks: Seq<Seq<(Seq<(Seq<char>, Style)>, Style)>> = Seq::empty();
    let mut i: usize = 0;
    while i < n
        invariant
            i <= n,
            n == a0.messages@.len(),
            sel as int == marked_message(a0),
            visual == (a0.focus == Focus::Chat && a0.mode == Mode::Visual),
            only_cache_changed(a0, *app),
            states.len() == i,
            msgs.len() == i,
            blocks.len() == i,
            lines_v(body.lines@) == blocks_concat(blocks),
            forall|j: int| 0 <= j < i ==> only_cache_changed(a0, #[trigger] states[j]),
            forall|j: int| 0 <= j < i ==>
                message_block_is(states[j], j as usize, msgs[j], inner_w, block_marked(a0, j), #[trigger] blocks[j]),
            forall|j: int| 0 <= j < i ==> (#[trigger] msgs[j]).same(a0.messages@[j]),
        decreases n - i,
    {
        let selected = visual && i == sel;
        let m = app.messages[i].copy();
        let ghost st = *app;
        let blk = push_message_block(&mut body, app, i, &m, inner_w, selected);
        proof {
            lemma_blocks_concat_push(blocks, blk@);
            states = states.push(st);
            msgs = msgs.push(m);
            blocks = blocks.push(blk@);
        }
        i = i + 1;
    }
    match pending_stream_message(app, now) {
        Some(pm) => {
            let selected = visual && n == sel;
            let ghost st = *app;
            let blk = push_message_block(&mut body, app, n, &pm, inner_w, selected);
            proof {
                lemma_blocks_concat_push(blocks, blk@);
                states = states.push(st);
                msgs = msgs.push(pm);
                blocks = blocks.push(blk@);
                assert(chat_blocks(a0, inner_w, now, states, msgs, blocks)) by { reveal(chat_blocks); }
            }
        },
        None => {
            assert(chat_blocks(a0, inner_w, now, states, msgs, blocks)) by { reveal(chat_blocks); }
        },
    }
    body
}

/// Whether a reply is on its way or partly received: a request is being
/// sent, or some answer text, thinking or sources have arrived.
pub open spec fn has_pending_stream(app: ClientState) -> bool {
    app.sending || trim_spec(app.pending_assistant@).len() > 0 || trim_spec(app.pending_thinking@).len() > 0
        || app.pending_sources@.len() > 0
}

/// `m` shows the reply still arriving, stamped `now`: an assistant message
/// with the answer so far (an ellipsis before any text), the thinking when it
/// has text, no attachments and the sources.
pub open spec fn pending_message_is(app: ClientState, now: i64, m: Message) -> bool {
    &&& m.role == Role::Assistant
    &&& m.content@ == (if app.pending_assistant@.len() == 0 { "…"@ } else { app.pending_assistant@ })
    &&& m.created_ts == now
    &&& opt_view(m.thinking) == (if trim_spec(app.pending_thinking@).len() > 0 { Some(app.pending_thinking@) } else { None })
    &&& m.attachments@.len() == 0
    &&& same_sources(m.sources@, app.pending_sources@)
}

/// The message that shows a reply still arriving, stamped `now`: the answer
/// so far (an ellipsis before any text), the thinking when it has text, and
/// the sources; none when no reply is pending.
pub fn pending_stream_message(app: &ClientState, now: i64) -> (r: Option<Message>)
    ensures
        r is Some <==> has_pending_stream(*app),
        r matches Some(m) ==> pending_message_is(*app, now, m),
{
    let pending = app.sending || !trim(app.pending_assistant.as_str()).as_str().is_empty()
        || !trim(app.pending_thinking.as_str()).as_str().is_empty() || app.pending_sources.len() > 0;
    if !pending {
        return None;
    }
    let content = if app.pending_assistant.as_str().is_empty() { string_from("…") } else { copy_string(&app.pending_assistant) };
    let thinking = if trim(app.pending_thinking.as_str()).as_str().is_empty() { None } else { Some(copy_string(&app.pending_thinking)) };
    Some(Message {
        role: Role::Assistant,
        content,
        created_ts: now,
        thinking,
        attachments: Vec::new(),
        sources: copy_sources(&app.pending_sources),
    })
}

} // verus!
