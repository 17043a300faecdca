use vstd::prelude::*;
use crate::style::{Style, Span, Line, Text, spec_add_modifier};
use crate::text::{str_eq, str_width, text_width, graphemes, grapheme_clusters, push_str, string_from};
use crate::chat::{Message, min_int};
use chrono::TimeZone;
use ratatui::layout::{Constraint, Direction, Layout};

verus! {

/// A tab is shown as four spaces.
pub open spec fn display_grapheme_spec(g: Seq<char>) -> Seq<char> {
    if g == seq!['\t'] { seq![' ', ' ', ' ', ' '] } else { g }
}

/// How a grapheme of the input line is drawn.
pub fn display_grapheme(g: &str) -> (r: &str)
    ensures
        r@ == display_grapheme_spec(g@),
{
    proof {
        reveal_strlit("\t");
        reveal_strlit("    ");
        assert("\t"@ =~= seq!['\t']);
        assert("    "@ =~= seq![' ', ' ', ' ', ' ']);
    }
    if str_eq(g, "\t") { "    " } else { g }
}

/// The columns a grapheme of the input line takes: four for a tab.
pub open spec fn display_width_spec(g: Seq<char>) -> int {
    if g == seq!['\t'] { 4 } else { text_width(g) as int }
}

/// The columns a grapheme of the input line takes.
pub fn display_width(g: &str) -> (r: usize)
    ensures
        r == display_width_spec(g@),
{
    proof {
        reveal_strlit("\t");
        assert("\t"@ =~= seq!['\t']);
    }
    if str_eq(g, "\t") { 4 } else { str_width(g) }
}

/// Sum of `w[from..to]`, cut at `usize::MAX`.
pub open spec fn sat_sum(w: Seq<int>, to: int) -> int
    decreases to,
{
    if to <= 0 || to > w.len() {
        0
    } else {
        min_int(sat_sum(w, to - 1) + w[to - 1], usize::MAX as int)
    }
}

/// Where the visible window starts: graphemes are dropped from the left
/// while the cursor lies more than `maxw` columns to the right.
pub open spec fn view_start(w: Seq<int>, maxw: int, k: int, rem: int) -> (int, int)
    decreases w.len() - k,
{
    if rem <= maxw || k < 0 || k >= w.len() {
        (k, rem)
    } else {
        view_start(w, maxw, k + 1, if rem >= w[k] { rem - w[k] } else { 0 })
    }
}

/// How many graphemes from `i` on fit in `maxw - used` columns.
pub open spec fn view_end(w: Seq<int>, maxw: int, i: int, used: int) -> (int, int)
    decreases w.len() - i,
{
    if i < 0 || i >= w.len() || used + w[i] > maxw {
        (i, used)
    } else {
        view_end(w, maxw, i + 1, used + w[i])
    }
}

pub open spec fn concat_display(g: Seq<Seq<char>>, from: int, to: int) -> Seq<char>
    decreases to - from,
{
    if to <= from {
        Seq::empty()
    } else {
        concat_display(g, from, to - 1) + display_grapheme_spec(g[to - 1])
    }
}

/// The part of an input line shown in `maxw` columns with the cursor at
/// grapheme `col`, and the cursor's column within it.
pub open spec fn line_view_spec(s: Seq<char>, col: int, maxw0: int) -> (Seq<char>, int) {
    let maxw = if maxw0 < 1 { 1 } else { maxw0 };
    let g = grapheme_clusters(s);
    let w = g.map_values(|x: Seq<char>| display_width_spec(x));
    let m = if col < w.len() { col } else { w.len() as int };
    let (start, rem) = view_start(w, maxw, 0, sat_sum(w, m));
    let (end, used) = view_end(w, maxw, start, 0);
    (concat_display(g, start, end), min_int(rem, used))
}

proof fn lemma_view_end_bounds(w: Seq<int>, maxw: int, i: int, used: int)
    requires
        0 <= i <= w.len(),
        0 <= used <= maxw,
        forall|k: int| 0 <= k < w.len() ==> w[k] >= 0,
    ensures
        i <= view_end(w, maxw, i, used).0 <= w.len(),
        0 <= view_end(w, maxw, i, used).1 <= maxw,
    decreases w.len() - i,
{
    if i < w.len() && used + w[i] <= maxw {
        lemma_view_end_bounds(w, maxw, i + 1, used + w[i]);
    }
}

/// The visible part of an input line `s` in `maxw` columns (at least one),
/// scrolled so that the cursor at grapheme `col_gi` stays visible, and the
/// cursor's column in it.
pub fn line_view(s: &str, col_gi: usize, maxw: usize) -> (r: (String, usize))
    ensures
        (r.0@, r.1 as int) == line_view_spec(s@, col_gi as int, maxw as int),
{
    let maxw = if maxw < 1 { 1 } else { maxw };
    let gs = graphemes(s);
    let ghost g = grapheme_clusters(s@);
    let mut widths: Vec<usize> = Vec::new();
    let mut i: usize = 0;
    while i < gs.len()
        invariant
            i <= gs@.len(),
            gs@.len() == g.len(),
            forall|k: int| 0 <= k < gs@.len() ==> (#[trigger] gs@[k])@ == g[k],
            widths@.len() == i,
            forall|k: int| 0 <= k < i ==> widths@[k] as int == display_width_spec(#[trigger] g[k]),
        decreases gs.len() - i,
    {
        widths.push(display_width(gs[i].as_str()));
        i = i + 1;
    }
    let ghost w = g.map_values(|x: Seq<char>| display_width_spec(x));
    assert(forall|k: int| 0 <= k < widths@.len() ==> widths@[k] as int == #[trigger] w[k]);
    let m = if col_gi < widths.len() { col_gi } else { widths.len() };
    let mut w_to_cursor: usize = 0;
    let mut k: usize = 0;
    while k < m
        invariant
            k <= m <= widths@.len(),
            w.len() == widths@.len(),
            forall|j: int| 0 <= j < widths@.len() ==> widths@[j] as int == #[trigger] w[j],
            w_to_cursor as int == sat_sum(w, k as int),
        decreases m - k,
    {
        w_to_cursor = w_to_cursor.saturating_add(widths[k]);
        k = k + 1;
    }
    let mut start: usize = 0;
    let mut rem = w_to_cursor;
    while rem > maxw && start < widths.len()
        invariant
            start <= widths@.len(),
            w.len() == widths@.len(),
            forall|j: int| 0 <= j < widths@.len() ==> widths@[j] as int == #[trigger] w[j],
            view_start(w, maxw as int, 0, sat_sum(w, m as int)) == view_start(w, maxw as int, start as int, rem as int),
        decreases widths.len() - start,
    {
        rem = rem.saturating_sub(widths[start]);
        start = start + 1;
    }
    assert(view_start(w, maxw as int, 0, sat_sum(w, m as int)) == (start as int, rem as int));
    let mut out = String::new();
    let mut used: usize = 0;
    let mut j: usize = start;
    while j < gs.len()
        invariant
            start <= j <= gs@.len(),
            gs@.len() == g.len(),
            w.len() == widths@.len(),
            widths@.len() == g.len(),
            forall|x: int| 0 <= x < gs@.len() ==> (#[trigger] gs@[x])@ == g[x],
            forall|x: int| 0 <= x < widths@.len() ==> widths@[x] as int == #[trigger] w[x],
            used <= maxw,
            view_end(w, maxw as int, start as int, 0) == view_end(w, maxw as int, j as int, used as int),
            out@ == concat_display(g, start as int, j as int),
        ensures
            used <= maxw,
            view_end(w, maxw as int, start as int, 0) == (j as int, used as int),
            out@ == concat_display(g, start as int, j as int),
        decreases gs.len() - j,
    {
        let wj = widths[j];
        if wj > maxw - used {
            break;
        }
        push_str(&mut out, display_grapheme(gs[j].as_str()));
        used = used + wj;
        j = j + 1;
    }
    let cursor_x = if rem < used { rem } else { used };
    (out, cursor_x)
}


/// Columns a line of spans takes (cut at `usize::MAX`).
pub open spec fn spans_width(spans: Seq<Span>, n: int) -> int
    decreases n,
{
    if n <= 0 || n > spans.len() {
        0
    } else {
        min_int(spans_width(spans, n - 1) + text_width(spans[n - 1].content@) as int, usize::MAX as int)
    }
}

/// Rows a line of `lw` columns takes when wrapped at `w` columns: at least
/// one, as a `u16`.
pub open spec fn line_rows(lw: int, w: int) -> u16 {
    let rows = if lw % w == 0 { lw / w } else { lw / w + 1 };
    (if rows < 1 { 1 } else { rows }) as u16
}

/// Rows the first `n` lines take (cut at `u16::MAX`).
pub open spec fn text_rows(lines: Seq<Line>, w: int, n: int) -> int
    decreases n,
{
    if n <= 0 || n > lines.len() {
        0
    } else {
        min_int(text_rows(lines, w, n - 1) + line_rows(spans_width(lines[n - 1].spans@, lines[n - 1].spans@.len() as int), w) as int, u16::MAX as int)
    }
}

/// The number of rows `text` takes when wrapped at `width` columns (at
/// least one): each line takes its width divided by `width`, rounded up,
/// and at least one row.
pub fn wrapped_text_height(text: &Text, width: u16) -> (r: u16)
    ensures
        r as int == text_rows(text.lines@, if width < 1 { 1 } else { width as int }, text.lines@.len() as int),
{
    let w: usize = if width < 1 { 1 } else { width as usize };
    let mut total: u16 = 0;
    let mut i: usize = 0;
    while i < text.lines.len()
        invariant
            i <= text.lines@.len(),
            w >= 1,
            w as int == (if width < 1 { 1 } else { width as int }),
            total as int == text_rows(text.lines@, w as int, i as int),
        decreases text.lines.len() - i,
    {
        let line = &text.lines[i];
        let mut lw: usize = 0;
        let mut k: usize = 0;
        while k < line.spans.len()
            invariant
                k <= line.spans@.len(),
                lw as int == spans_width(line.spans@, k as int),
            decreases line.spans.len() - k,
        {
            lw = lw.saturating_add(str_width(line.spans[k].content.as_str()));
            k = k + 1;
        }
        let q = lw / w;
        assert(lw % w != 0 ==> w > 1) by (nonlinear_arith)
            requires w >= 1;
        assert(w > 1 ==> q < usize::MAX) by (nonlinear_arith)
            requires q == lw / w, w >= 1, lw <= usize::MAX;
        let rows: usize = if lw % w == 0 { q } else { q + 1 };
        let rows1: usize = if rows < 1 { 1 } else { rows };
        total = total.saturating_add(#[verifier::truncate] (rows1 as u16));
        i = i + 1;
    }
    total
}

pub open spec fn modified_line(old_line: Line, new_line: Line, m: u16) -> bool {
    &&& new_line.style == old_line.style
    &&& new_line.spans@.len() == old_line.spans@.len()
    &&& forall|k: int| 0 <= k < new_line.spans@.len() ==> {
        &&& (#[trigger] new_line.spans@[k]).content@ == old_line.spans@[k].content@
        &&& new_line.spans@[k].style == spec_add_modifier(old_line.spans@[k].style, m)
    }
}

/// `t` with the modifier `m` added to the style of every span.
pub fn clone_with_modifier(t: Text, m: u16) -> (r: Text)
    ensures
        r.lines@.len() == t.lines@.len(),
        forall|i: int| 0 <= i < r.lines@.len() ==> modified_line(t.lines@[i], #[trigger] r.lines@[i], m),
{
    let mut out: Vec<Line> = Vec::new();
    let mut lines = t.lines;
    let ghost orig = lines@;
    let mut rev: Vec<Line> = Vec::new();
    while lines.len() > 0
        invariant
            lines@.len() + rev@.len() == orig.len(),
            lines@ == orig.take(lines@.len() as int),
            forall|j: int| 0 <= j < rev@.len() ==> #[trigger] rev@[j] == orig[orig.len() - 1 - j],
        decreases lines@.len(),
    {
        let l = lines.pop().unwrap();
        rev.push(l);
        assert(lines@ =~= orig.take(lines@.len() as int));
    }
    while rev.len() > 0
        invariant
            out@.len() + rev@.len() == orig.len(),
            forall|j: int| 0 <= j < rev@.len() ==> #[trigger] rev@[j] == orig[orig.len() - 1 - j],
            forall|i: int| 0 <= i < out@.len() ==> modified_line(orig[i], #[trigger] out@[i], m),
        decreases rev@.len(),
    {
        let line = rev.pop().unwrap();
        let ghost idx = out@.len() as int;
        assert(line == orig[idx]);
        let mut spans = line.spans;
        let ghost os = spans@;
        let mut new_spans: Vec<Span> = Vec::new();
        let mut srev: Vec<Span> = Vec::new();
        while spans.len() > 0
            invariant
                spans@.len() + srev@.len() == os.len(),
                spans@ == os.take(spans@.len() as int),
                forall|j: int| 0 <= j < srev@.len() ==> #[trigger] srev@[j] == os[os.len() - 1 - j],
            decreases spans@.len(),
        {
            let sp = spans.pop().unwrap();
            srev.push(sp);
            assert(spans@ =~= os.take(spans@.len() as int));
        }
        while srev.len() > 0
            invariant
                new_spans@.len() + srev@.len() == os.len(),
                forall|j: int| 0 <= j < srev@.len() ==> #[trigger] srev@[j] == os[os.len() - 1 - j],
                forall|k: int| 0 <= k < new_spans@.len() ==> {
                    &&& (#[trigger] new_spans@[k]).content@ == os[k].content@
                    &&& new_spans@[k].style == spec_add_modifier(os[k].style, m)
                },
            decreases srev@.len(),
        {
            let sp = srev.pop().unwrap();
            let style = sp.style.add_modifier(m);
            new_spans.push(Span { content: sp.content, style });
        }
        out.push(Line { spans: new_spans, style: line.style });
    }
    Text { lines: out }
}

/// The text shown for a message's time: its own time when positive, else
/// the fallback (0 when there is none).
pub open spec fn message_ts(m: Message, fallback: Option<i64>) -> i64 {
    if m.created_ts > 0 {
        m.created_ts
    } else {
        match fallback {
            Some(f) => f,
            None => 0,
        }
    }
}

/// The pattern chat timestamps are shown in, as chrono's `format` reads it:
/// month name, day, year, then hours and minutes ("Jan 02, 2006 · 15:04").
pub open spec fn timestamp_pattern_spec() -> Seq<char> {
    "%b %d, %Y · %H:%M"@
}

/// The pattern chat timestamps are shown in.
pub fn timestamp_pattern() -> (r: &'static str)
    ensures
        r@ == timestamp_pattern_spec(),
{
    "%b %d, %Y · %H:%M"
}

/// The date and time of `ts` seconds after the epoch in the machine's time
/// zone, formatted by chrono with `pattern`; `None` when chrono has no
/// single such instant. chrono's formatting fails (and `to_string` panics)
/// on a pattern it cannot read, so only the timestamp pattern, which it
/// reads, is admitted. The result depends on the machine's time zone, so
/// nothing is stated of it.
#[verifier::external_body]
fn local_time_text(ts: i64, pattern: &str) -> (r: Option<String>)
    requires
        pattern@ == timestamp_pattern_spec(),
{
    chrono::Utc.timestamp_opt(ts, 0).single().map(|t| t.with_timezone(&chrono::Local).format(pattern).to_string())
}

/// The text for a timestamp given what the clock library made of it:
/// "Unknown time" for a time not after the epoch or one the library could
/// not place.
pub fn timestamp_text(ts: i64, local: Option<String>) -> (r: String)
    ensures
        ts <= 0 ==> r@ == "Unknown time"@,
        ts > 0 && local is None ==> r@ == "Unknown time"@,
        ts > 0 ==> (local matches Some(t) ==> r@ == t@),
{
    if ts <= 0 {
        return string_from("Unknown time");
    }
    match local {
        Some(t) => t,
        None => string_from("Unknown time"),
    }
}

/// A timestamp as the chat shows it, in the machine's time zone, in the
/// timestamp pattern.
pub fn format_timestamp(ts: i64) -> (r: String)
    ensures
        ts <= 0 ==> r@ == "Unknown time"@,
{
    if ts <= 0 {
        return string_from("Unknown time");
    }
    let pattern = timestamp_pattern();
    let local = local_time_text(ts, pattern);
    timestamp_text(ts, local)
}

/// The timestamp shown above a message.
pub fn message_timestamp(m: &Message, fallback: Option<i64>) -> (r: String)
    ensures
        message_ts(*m, fallback) <= 0 ==> r@ == "Unknown time"@,
{
    let ts = if m.created_ts > 0 {
        m.created_ts
    } else {
        match fallback {
            Some(f) => f,
            None => 0,
        }
    };
    format_timestamp(ts)
}

/// A rectangle of terminal cells.
#[derive(Clone, Copy, Debug, PartialEq, Eq, Structural)]
pub struct Rect {
    pub x: u16,
    pub y: u16,
    pub width: u16,
    pub height: u16,
}

/// The three areas that the layout engine gives when `area` is split,
/// vertically or horizontally, by three percentage constraints.
pub uninterp spec fn percent_layout(vertical: bool, a: u16, b: u16, c: u16, area: Rect) -> Seq<Rect>;

/// Splits `area` with `ratatui::layout::Layout` into three parts by the
/// percentages `a`, `b`, `c`. The layout engine returns one area per
/// constraint; which areas it picks is named `percent_layout`.
#[verifier::external_body]
fn split_percent(vertical: bool, a: u16, b: u16, c: u16, area: Rect) -> (r: Vec<Rect>)
    ensures
        r@ == percent_layout(vertical, a, b, c, area),
        r@.len() == 3,
{
    let dir = if vertical { Direction::Vertical } else { Direction::Horizontal };
    let cs = [Constraint::Percentage(a), Constraint::Percentage(b), Constraint::Percentage(c)];
    let rect = ratatui::layout::Rect { x: area.x, y: area.y, width: area.width, height: area.height };
    let parts = Layout::default().direction(dir).constraints(cs).split(rect);
    parts.iter().map(|p| Rect { x: p.x, y: p.y, width: p.width, height: p.height }).collect()
}

/// The area of `percent_x` by `percent_y` percent in the middle of `r`.
pub fn centered_rect(percent_x: u16, percent_y: u16, r: Rect) -> (out: Rect)
    requires
        percent_x <= 100,
        percent_y <= 100,
    ensures
        out == percent_layout(false, ((100 - percent_x) / 2) as u16, percent_x, ((100 - percent_x) / 2) as u16,
            percent_layout(true, ((100 - percent_y) / 2) as u16, percent_y, ((100 - percent_y) / 2) as u16, r)[1])[1],
{
    let py = (100 - percent_y) / 2;
    let v = split_percent(true, py, percent_y, py, r);
    let px = (100 - percent_x) / 2;
    let h = split_percent(false, px, percent_x, px, v[1]);
    h[1]
}
} // verus!
