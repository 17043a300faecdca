use vstd::prelude::*;
use crate::style::{Color, Style, Span, Line, Text, BOLD, default_style, spec_add_modifier};
use crate::theme::Theme;
use crate::chat::{ChatMeta, Mode, Focus, opt_view};
use crate::chat_view::{span_v, line_v, lines_v};
use crate::text::{string_from, copy_string, push_str, push_decimal, decimal};
use crate::ui::format_timestamp;
use crate::client::{ClientState, current_stream, find_stream, stream_index, lemma_stream_index};
use crate::chat::{Message, Source};

verus! {

/// Text in a colour.
pub open spec fn fg_style(c: Color) -> Style {
    Style { fg: Some(c), ..default_style() }
}

/// Bold text in a colour.
pub open spec fn bold_style(c: Color) -> Style {
    spec_add_modifier(fg_style(c), BOLD)
}

/// A span of text in a style.
pub fn span_of(text: &str, style: Style) -> (r: Span)
    ensures
        span_v(r) == (text@, style),
{
    Span::styled(string_from(text), style)
}

/// Text in a colour.
pub fn fg(c: Color) -> (r: Style)
    ensures
        r == fg_style(c),
{
    Style::new().fg(c)
}

/// Bold text in a colour.
pub fn bold(c: Color) -> (r: Style)
    ensures
        r == bold_style(c),
{
    Style::new().fg(c).add_modifier(BOLD)
}

/// A line of spans.
pub fn line_of(spans: Vec<Span>) -> (r: Line)
    ensures
        line_v(r) == (spans@.map_values(|s: Span| span_v(s)), default_style()),
{
    Line::from_spans(spans)
}

/// The name of the input box for a mode.
pub open spec fn box_name(mode: Mode) -> Seq<char> {
    match mode {
        Mode::Insert => "Compose"@,
        Mode::Command => "Command Palette"@,
        _ => "Command"@,
    }
}

/// The name of a mode.
pub open spec fn mode_name(mode: Mode) -> Seq<char> {
    match mode {
        Mode::Insert => "INSERT"@,
        Mode::Command => "COMMAND"@,
        Mode::Normal => "NORMAL"@,
        Mode::Visual => "VISUAL"@,
    }
}

/// The colour of a mode's name.
pub open spec fn mode_color(t: Theme, mode: Mode) -> Color {
    match mode {
        Mode::Insert => t.mode_insert,
        Mode::Command => t.mode_insert,
        Mode::Normal => t.mode_normal,
        Mode::Visual => t.mode_visual,
    }
}

/// The title of the input box: its name, the mode, the help hint and, with
/// images attached, how many.
pub open spec fn input_title_spec(t: Theme, mode: Mode, attached: nat) -> Seq<(Seq<char>, Style)> {
    seq![
        (" "@ + box_name(mode) + " "@, bold_style(t.title_input)),
        ("["@ + mode_name(mode) + "]"@, bold_style(mode_color(t, mode))),
        (" • ? help"@, fg_style(t.status_hint)),
        if attached == 0 {
            (Seq::<char>::empty(), default_style())
        } else {
            (" • "@ + decimal(attached) + " image(s) attached"@, fg_style(t.status_hint))
        },
    ]
}

/// The title of the input box.
pub fn input_title_line(t: &Theme, mode: Mode, attached: usize) -> (r: Line)
    ensures
        line_v(r) == (input_title_spec(*t, mode, attached as nat), default_style()),
{
    let name: &str = match mode {
        Mode::Insert => "Compose",
        Mode::Command => "Command Palette",
        _ => "Command",
    };
    let mname: &str = match mode {
        Mode::Insert => "INSERT",
        Mode::Command => "COMMAND",
        Mode::Normal => "NORMAL",
        Mode::Visual => "VISUAL",
    };
    let mcolor = match mode {
        Mode::Insert => t.mode_insert,
        Mode::Command => t.mode_insert,
        Mode::Normal => t.mode_normal,
        Mode::Visual => t.mode_visual,
    };
    let mut a = string_from(" ");
    push_str(&mut a, name);
    push_str(&mut a, " ");
    let mut b = string_from("[");
    push_str(&mut b, mname);
    push_str(&mut b, "]");
    let hint = if attached == 0 {
        Span::raw(String::new())
    } else {
        let mut h = string_from(" • ");
        push_decimal(&mut h, attached as u64);
        push_str(&mut h, " image(s) attached");
        Span::styled(h, fg(t.status_hint))
    };
    let spans = vec![
        Span::styled(a, bold(t.title_input)),
        Span::styled(b, bold(mcolor)),
        span_of(" • ? help", fg(t.status_hint)),
        hint,
    ];
    let r = line_of(spans);
    assert(spans@.map_values(|s: Span| span_v(s)) =~= input_title_spec(*t, mode, attached as nat));
    r
}

/// The header of the chat: its title and the model.
pub open spec fn header_spec(t: Theme, title: Seq<char>, model: Seq<char>) -> Seq<(Seq<char>, Style)> {
    seq![(title, bold_style(t.title_chat)), (" • "@ + model, fg_style(t.message_meta))]
}

/// The header of the chat.
pub fn chat_header_line(t: &Theme, title: String, model: &str) -> (r: Line)
    ensures
        line_v(r) == (header_spec(*t, title@, model@), default_style()),
{
    let mut m = string_from(" • ");
    push_str(&mut m, model);
    let spans = vec![Span::styled(title, bold(t.title_chat)), Span::styled(m, fg(t.message_meta))];
    let r = line_of(spans);
    assert(spans@.map_values(|s: Span| span_v(s)) =~= header_spec(*t, title@, model@));
    r
}

/// A line of one span.
pub open spec fn one(text: Seq<char>, style: Style) -> (Seq<(Seq<char>, Style)>, Style) {
    (seq![(text, style)], default_style())
}

/// The popup that asks to confirm deleting a chat.
pub open spec fn confirm_delete_spec(t: Theme, title: Seq<char>) -> Seq<(Seq<(Seq<char>, Style)>, Style)> {
    seq![
        one(""@, default_style()),
        one("Delete chat:"@, fg_style(t.popup_accent)),
        one("  "@ + title, bold_style(Color::White)),
        one(""@, default_style()),
        one("Press y to confirm, n to cancel"@, fg_style(t.popup_text)),
    ]
}

fn one_line(text: &str, style: Style) -> (r: Line)
    ensures
        line_v(r) == one(text@, style),
{
    let spans = vec![span_of(text, style)];
    let r = line_of(spans);
    assert(spans@.map_values(|s: Span| span_v(s)) =~= seq![(text@, style)]);
    r
}

/// The lines of the popup that asks to confirm deleting the chat `title`.
pub fn confirm_delete_text(t: &Theme, title: &str) -> (r: Text)
    ensures
        lines_v(r.lines@) == confirm_delete_spec(*t, title@),
{
    let mut name = string_from("  ");
    push_str(&mut name, title);
    proof { reveal_strlit(""); }
    let lines = vec![
        one_line("", Style::new()),
        one_line("Delete chat:", fg(t.popup_accent)),
        one_line(name.as_str(), bold(Color::White)),
        one_line("", Style::new()),
        one_line("Press y to confirm, n to cancel", fg(t.popup_text)),
    ];
    assert(lines_v(lines@) =~= confirm_delete_spec(*t, title@));
    Text { lines }
}

/// The keys the help popup lists, by section.
pub open spec fn help_spec(t: Theme) -> Seq<(Seq<(Seq<char>, Style)>, Style)> {
    let h = bold_style(t.heading2);
    let d = default_style();
    seq![
        one("Global"@, h),
        one("  ?: show/close help"@, d),
        one("  Ctrl+T: hide/show left sidebar"@, d),
        one("  Ctrl+P: hide/show right statistics panel"@, d),
        one("  Ctrl+W: toggle web search"@, d),
        one("  : command mode (:attach PATH, :web on)"@, d),
        one("  Ctrl+Y: hide/show thinking blocks"@, d),
        one("  Ctrl+X: terminate generation"@, d),
        one("  q / Ctrl+C: quit"@, d),
        one(""@, d),
        one("Sidebar"@, h),
        one("  j/k: select chat, Enter: load, l: to chat, n: new, d: delete"@, d),
        one(""@, d),
        one("Chat"@, h),
        one("  h/l: move focus, i: insert, v: visual, p: paste clipboard"@, d),
        one("  r: refresh screen"@, d),
        one("  Sidebar focus: / search chats, Enter apply, Esc clear"@, d),
        one("  ↑/k: scroll up, ↓/j: scroll down, g: top, G: bottom"@, d),
        one("  :attach /path/to/image then Enter to attach image"@, d),
        one("  :web on then Enter to enable web search"@, d),
        one("  Ctrl+S: send in INSERT mode, Esc: normal mode"@, d),
    ]
}

/// The lines of the help popup.
pub fn help_text(t: &Theme) -> (r: Text)
    ensures
        lines_v(r.lines@) == help_spec(*t),
{
    let h = bold(t.heading2);
    let d = Style::new();
    proof { reveal_strlit(""); }
    let lines = vec![
        one_line("Global", h),
        one_line("  ?: show/close help", d),
        one_line("  Ctrl+T: hide/show left sidebar", d),
        one_line("  Ctrl+P: hide/show right statistics panel", d),
        one_line("  Ctrl+W: toggle web search", d),
        one_line("  : command mode (:attach PATH, :web on)", d),
        one_line("  Ctrl+Y: hide/show thinking blocks", d),
        one_line("  Ctrl+X: terminate generation", d),
        one_line("  q / Ctrl+C: quit", d),
        one_line("", d),
        one_line("Sidebar", h),
        one_line("  j/k: select chat, Enter: load, l: to chat, n: new, d: delete", d),
        one_line("", d),
        one_line("Chat", h),
        one_line("  h/l: move focus, i: insert, v: visual, p: paste clipboard", d),
        one_line("  r: refresh screen", d),
        one_line("  Sidebar focus: / search chats, Enter apply, Esc clear", d),
        one_line("  ↑/k: scroll up, ↓/j: scroll down, g: top, G: bottom", d),
        one_line("  :attach /path/to/image then Enter to attach image", d),
        one_line("  :web on then Enter to enable web search", d),
        one_line("  Ctrl+S: send in INSERT mode, Esc: normal mode", d),
    ];
    assert(lines_v(lines@) =~= help_spec(*t));
    Text { lines }
}

/// A background colour.
pub open spec fn bg_style(c: Color) -> Style {
    Style { bg: Some(c), ..default_style() }
}

/// One entry of the sidebar's list: its lines and its style.
#[derive(Debug)]
pub struct SidebarItem {
    pub lines: Vec<Line>,
    pub style: Style,
}

/// The search entry at the top of the sidebar.
pub open spec fn search_item_spec(t: Theme, query: Seq<char>, active: bool) -> (Seq<(Seq<(Seq<char>, Style)>, Style)>, Style) {
    let label = if query.len() == 0 { "Search chats…"@ } else { "Search: "@ + query };
    let suffix = if active { "[typing]"@ } else if query.len() == 0 { "[/]"@ } else { "[Esc clears]"@ };
    (seq![(seq![(label, fg_style(t.status_hint)), (" "@, default_style()), (suffix, bold_style(t.mode_insert))], default_style())],
        bg_style(if active { t.sidebar_selected_bg } else { t.panel_alt_bg }))
}

/// `n` copies of `c`.
pub open spec fn repeat_char(c: char, n: nat) -> Seq<char> {
    Seq::new(n, |_i: int| c)
}

/// The rule under the search entry, two columns narrower than the list.
pub open spec fn rule_item_spec(t: Theme, width: u16) -> (Seq<(Seq<(Seq<char>, Style)>, Style)>, Style) {
    (seq![one(repeat_char('─', if width > 2 { (width - 2) as nat } else { 0 }), fg_style(t.message_rule))], default_style())
}

/// The entry of a chat: its title in bold, the time of its last change, the
/// search excerpt where there is one, and an empty line; on the selection's
/// background when selected.
pub open spec fn chat_item_ok(item: SidebarItem, t: Theme, c: ChatMeta, selected: bool) -> bool {
    let ls = lines_v(item.lines@);
    let n = if c.search_excerpt is Some { 4int } else { 3int };
    &&& item.style == bg_style(if selected { t.sidebar_selected_bg } else { t.sidebar_item_bg })
    &&& ls.len() == n
    &&& ls[0] == one(c.title@, bold_style(t.sidebar_item))
    &&& ls[1].0.len() == 1 && ls[1].0[0].1 == fg_style(t.sidebar_timestamp) && ls[1].1 == default_style()
    &&& (c.updated_ts <= 0 ==> ls[1].0[0].0 == "Unknown time"@)
    &&& (c.search_excerpt matches Some(e) ==> ls[2] == one(e@, fg_style(t.status_hint)))
    &&& ls[n - 1] == one(""@, default_style())
}

/// The entries of the sidebar's list: the search entry, a rule, and one
/// entry per chat.
pub fn sidebar_items(t: &Theme, chats: &Vec<ChatMeta>, focus: Focus, sidebar_idx: usize, query: &str,
    search_active: bool, width: u16) -> (r: Vec<SidebarItem>)
    ensures
        r@.len() == chats@.len() + 2,
        (lines_v(r@[0].lines@), r@[0].style) == search_item_spec(*t, query@, search_active),
        (lines_v(r@[1].lines@), r@[1].style) == rule_item_spec(*t, width),
        forall|i: int| 0 <= i < chats@.len() ==>
            chat_item_ok(#[trigger] r@[i + 2], *t, chats@[i], focus == Focus::Sidebar && i == sidebar_idx),
{
    let mut out: Vec<SidebarItem> = Vec::new();
    let empty_q = query.is_empty();
    let label = if empty_q {
        string_from("Search chats…")
    } else {
        let mut l = string_from("Search: ");
        push_str(&mut l, query);
        l
    };
    let suffix: &str = if search_active { "[typing]" } else if empty_q { "[/]" } else { "[Esc clears]" };
    let spans = vec![Span::styled(label, fg(t.status_hint)), span_of(" ", Style::new()), span_of(suffix, bold(t.mode_insert))];
    let ghost sv = spans@.map_values(|s: Span| span_v(s));
    let l0 = line_of(spans);
    let search_bg = if search_active { t.sidebar_selected_bg } else { t.panel_alt_bg };
    let first = vec![l0];
    proof {
        let label_v = if query@.len() == 0 { "Search chats…"@ } else { "Search: "@ + query@ };
        let suffix_v = if search_active { "[typing]"@ } else if query@.len() == 0 { "[/]"@ } else { "[Esc clears]"@ };
        assert(sv =~= seq![(label_v, fg_style(t.status_hint)), (" "@, default_style()), (suffix_v, bold_style(t.mode_insert))]);
        assert(line_v(l0) == (sv, default_style()));
        assert(lines_v(first@) =~= search_item_spec(*t, query@, search_active).0);
    }
    out.push(SidebarItem { lines: first, style: Style::new().bg(search_bg) });
    let n: usize = if width > 2 { (width - 2) as usize } else { 0 };
    let mut rule = String::new();
    let mut k: usize = 0;
    while k < n
        invariant
            k <= n,
            rule@ == repeat_char('─', k as nat),
        decreases n - k,
    {
        rule.push('─');
        k = k + 1;
        assert(rule@ =~= repeat_char('─', k as nat));
    }
    let second = vec![one_line(rule.as_str(), fg(t.message_rule))];
    proof {
        assert(lines_v(second@) =~= rule_item_spec(*t, width).0);
    }
    out.push(SidebarItem { lines: second, style: Style::new() });
    let mut i: usize = 0;
    while i < chats.len()
        invariant
            i <= chats@.len(),
            out@.len() == i + 2,
            (lines_v(out@[0].lines@), out@[0].style) == search_item_spec(*t, query@, search_active),
            (lines_v(out@[1].lines@), out@[1].style) == rule_item_spec(*t, width),
            forall|j: int| 0 <= j < i ==>
                chat_item_ok(#[trigger] out@[j + 2], *t, chats@[j], focus == Focus::Sidebar && j == sidebar_idx),
        decreases chats.len() - i,
    {
        let c = &chats[i];
        let selected = focus == Focus::Sidebar && i == sidebar_idx;
        let ts = format_timestamp(c.updated_ts);
        let mut lines: Vec<Line> = Vec::new();
        lines.push(one_line(c.title.as_str(), bold(t.sidebar_item)));
        lines.push(one_line(ts.as_str(), fg(t.sidebar_timestamp)));
        match &c.search_excerpt {
            Some(e) => { lines.push(one_line(e.as_str(), fg(t.status_hint))); },
            None => {},
        }
        proof { reveal_strlit(""); }
        lines.push(one_line("", Style::new()));
        let bgc = if selected { t.sidebar_selected_bg } else { t.sidebar_item_bg };
        let item = SidebarItem { lines, style: Style::new().bg(bgc) };
        proof {
            assert(chat_item_ok(item, *t, chats@[i as int], selected));
        }
        out.push(item);
        i = i + 1;
    }
    out
}

// ---------------------------------------------------------------------------
// The statistics panel.

/// A line of a label and a value.
pub open spec fn pair_line(label: Seq<char>, ls: Style, value: Seq<char>, vs: Style) -> (Seq<(Seq<char>, Style)>, Style) {
    (seq![(label, ls), (value, vs)], default_style())
}

/// A line of the debug section: label, ": " and value.
pub open spec fn trace_line(t: Theme, label: Seq<char>, value: Seq<char>) -> (Seq<(Seq<char>, Style)>, Style) {
    (seq![(label, fg_style(t.stats_label)), (": "@, default_style()), (value, fg_style(t.stats_value))], default_style())
}

/// "on" or "off".
pub open spec fn on_off(b: bool) -> Seq<char> {
    if b { "on"@ } else { "off"@ }
}

/// "visible" or "hidden".
pub open spec fn shown(b: bool) -> Seq<char> {
    if b { "visible"@ } else { "hidden"@ }
}

/// The name of a mode in lower case.
pub open spec fn mode_word(m: Mode) -> Seq<char> {
    match m {
        Mode::Normal => "normal"@,
        Mode::Insert => "insert"@,
        Mode::Command => "command"@,
        Mode::Visual => "visual"@,
    }
}

/// The top section: the switches, the stream's state, the mode and the model.
pub open spec fn stats_top_spec(a: ClientState) -> Seq<(Seq<(Seq<char>, Style)>, Style)> {
    let t = a.theme;
    let l = fg_style(t.stats_label);
    seq![
        one("Statistics"@, bold_style(t.title_chat)),
        pair_line("web: "@, l, on_off(a.web_search), bold_style(t.stats_accent)),
        pair_line("show reasoning: "@, l, on_off(a.show_thinking), bold_style(if a.show_thinking { t.stats_accent } else { t.status_hint })),
        pair_line("stream: "@, l, if a.sending { "streaming"@ } else { "idle"@ }, bold_style(if a.sending { t.assistant_prefix } else { t.status_hint })),
        pair_line("mode: "@, l, mode_word(a.mode), bold_style(t.stats_value)),
        one(""@, default_style()),
        pair_line("model: "@, l, a.model@, fg_style(t.stats_value)),
    ]
}

fn pair_line_of(label: &str, ls: Style, value: String, vs: Style) -> (r: Line)
    ensures
        line_v(r) == pair_line(label@, ls, value@, vs),
{
    let spans = vec![span_of(label, ls), Span::styled(value, vs)];
    let r = line_of(spans);
    assert(spans@.map_values(|s: Span| span_v(s)) =~= seq![(label@, ls), (value@, vs)]);
    r
}

fn trace_line_of(t: &Theme, label: &str, value: String) -> (r: Line)
    ensures
        line_v(r) == trace_line(*t, label@, value@),
{
    let spans = vec![span_of(label, fg(t.stats_label)), span_of(": ", Style::new()), Span::styled(value, fg(t.stats_value))];
    let r = line_of(spans);
    assert(spans@.map_values(|s: Span| span_v(s)) =~= seq![(label@, fg_style(t.stats_label)), (": "@, default_style()), (value@, fg_style(t.stats_value))]);
    r
}

/// The top section of the statistics panel.
pub fn stats_top(a: &ClientState) -> (r: Text)
    ensures
        lines_v(r.lines@) == stats_top_spec(*a),
{
    let t = &a.theme;
    let l = fg(t.stats_label);
    proof { reveal_strlit(""); }
    let lines = vec![
        one_line("Statistics", bold(t.title_chat)),
        pair_line_of("web: ", l, string_from(if a.web_search { "on" } else { "off" }), bold(t.stats_accent)),
        pair_line_of("show reasoning: ", l, string_from(if a.show_thinking { "on" } else { "off" }),
            bold(if a.show_thinking { t.stats_accent } else { t.status_hint })),
        pair_line_of("stream: ", l, string_from(if a.sending { "streaming" } else { "idle" }),
            bold(if a.sending { t.assistant_prefix } else { t.status_hint })),
        pair_line_of("mode: ", l, string_from(match a.mode {
            Mode::Normal => "normal",
            Mode::Insert => "insert",
            Mode::Command => "command",
            Mode::Visual => "visual",
        }), bold(t.stats_value)),
        one_line("", Style::new()),
        pair_line_of("model: ", l, copy_string(&a.model), fg(t.stats_value)),
    ];
    assert(lines_v(lines@) =~= stats_top_spec(*a));
    Text { lines }
}

/// The session section: counts, the context budget, the last activity,
/// the live streams and the throughput, the texts that need the clock or
/// floating point given.
pub open spec fn stats_session_spec(a: ClientState, tokens: Seq<char>, budget: Seq<char>, activity: Seq<char>, throughput: Seq<char>)
    -> Seq<(Seq<(Seq<char>, Style)>, Style)>
{
    let t = a.theme;
    let l = fg_style(t.stats_label);
    let v = bold_style(t.stats_value);
    seq![
        pair_line("messages: "@, l, decimal(a.messages@.len()), v),
        pair_line("approx tokens: "@, l, tokens, v),
        pair_line("context: "@, l, budget, v),
        one("last activity: "@, l),
        pair_line("  "@, l, activity, fg_style(t.stats_value)),
        pair_line("streams live: "@, l, decimal(a.active_streams@.len()), v),
        pair_line("throughput: "@, l, throughput, v),
    ]
}

/// The session section of the statistics panel.
pub fn stats_session(a: &ClientState, tokens: String, budget: String, activity: String, throughput: String) -> (r: Text)
    ensures
        lines_v(r.lines@) == stats_session_spec(*a, tokens@, budget@, activity@, throughput@),
{
    let t = &a.theme;
    let l = fg(t.stats_label);
    let v = bold(t.stats_value);
    let mut nm = String::new();
    push_decimal(&mut nm, a.messages.len() as u64);
    let mut ns = String::new();
    push_decimal(&mut ns, a.active_streams.len() as u64);
    let lines = vec![
        pair_line_of("messages: ", l, nm, v),
        pair_line_of("approx tokens: ", l, tokens, v),
        pair_line_of("context: ", l, budget, v),
        one_line("last activity: ", l),
        pair_line_of("  ", l, activity, fg(t.stats_value)),
        pair_line_of("streams live: ", l, ns, v),
        pair_line_of("throughput: ", l, throughput, v),
    ];
    assert(lines_v(lines@) =~= stats_session_spec(*a, tokens@, budget@, activity@, throughput@));
    Text { lines }
}

/// `Option<usize>` as `{:?}` prints it.
pub open spec fn debug_opt(o: Option<usize>) -> Seq<char> {
    match o {
        Some(n) => "Some("@ + decimal(n as nat) + ")"@,
        None => "None"@,
    }
}

/// `Focus` as `{:?}` prints it.
pub open spec fn debug_focus(f: Focus) -> Seq<char> {
    match f {
        Focus::Sidebar => "Sidebar"@,
        Focus::Chat => "Chat"@,
    }
}

/// What the input line of the debug section says.
pub open spec fn input_info(a: ClientState) -> Seq<char> {
    if a.mode == Mode::Command {
        "command "@ + decimal(a.command_input@.len()) + " chars • col "@ + decimal(a.command_cursor_col as nat + 1)
    } else {
        decimal(a.input@.len()) + " chars • line "@ + decimal(a.input_cursor_line as nat + 1) + " col "@
            + decimal(a.input_cursor_col as nat + 1)
    }
}

/// The sources shown: those of the open chat's stream, else those of the
/// last message that has some.
pub open spec fn latest_sources(a: ClientState) -> Option<Seq<Source>> {
    match current_stream(a) {
        Some(s) if s.sources@.len() > 0 => Some(s.sources@),
        _ => match last_with_sources(a.messages@, a.messages@.len() as int) {
            Some(k) => Some(a.messages@[k].sources@),
            None => None,
        },
    }
}

/// The last of `ms[..n]` with sources.
pub open spec fn last_with_sources(ms: Seq<Message>, n: int) -> Option<int>
    decreases n,
{
    if n <= 0 || n > ms.len() {
        None
    } else if ms[n - 1].sources@.len() > 0 {
        Some(n - 1)
    } else {
        last_with_sources(ms, n - 1)
    }
}

/// The lines that list the first four sources: number and title, then URL.
pub open spec fn source_lines(t: Theme, ss: Seq<Source>, k: int) -> Seq<(Seq<(Seq<char>, Style)>, Style)>
    decreases k,
{
    if k <= 0 || k > ss.len() {
        Seq::empty()
    } else {
        source_lines(t, ss, k - 1)
            + seq![(seq![(decimal(k as nat) + "."@, fg_style(t.stats_label)), (" "@, default_style()), (ss[k - 1].title@, fg_style(t.stats_value))], default_style()),
                one(ss[k - 1].url@, fg_style(t.status_hint))]
    }
}

/// The debug section: layout, focus, ids, status, pending text, the last
/// token run, viewport, selection, input, and the latest sources.
pub open spec fn stats_trace_spec(a: ClientState, run: Seq<char>) -> Seq<(Seq<(Seq<char>, Style)>, Style)> {
    stats_trace_head(a, run) + stats_trace_sources(a)
        + seq![one(""@, default_style()), one("Ctrl+P toggles this panel."@, fg_style(a.theme.status_hint))]
}

/// The debug section's lines before the sources.
pub open spec fn stats_trace_head(a: ClientState, run: Seq<char>) -> Seq<(Seq<(Seq<char>, Style)>, Style)> {
    let t = a.theme;
    let cs = current_stream(a);
    seq![
        one("Trace log"@, bold_style(t.heading2)),
        one(""@, default_style()),
        trace_line(t, "sidebar"@, shown(a.show_sidebar)),
        trace_line(t, "stats panel"@, shown(a.show_stats_panel)),
        trace_line(t, "focus"@, match a.focus { Focus::Sidebar => "sidebar"@, Focus::Chat => "chat"@ }),
        trace_line(t, "chat id"@, match a.current_chat_id { Some(c) => c@, None => "new chat"@ }),
        trace_line(t, "request"@, match a.pending_request_id {
            Some(r) => r@,
            None => match cs { Some(s) => s.request_id@, None => "none"@ },
        }),
        trace_line(t, "status"@, match a.status_message {
            Some(m) => m@,
            None => match cs { Some(s) => match s.status { Some(st) => st@, None => "waiting"@ }, None => "waiting"@ },
        }),
        trace_line(t, "pending"@, decimal(a.pending_assistant@.len()) + " chars answer / "@
            + decimal(a.pending_thinking@.len()) + " chars thinking"@),
        trace_line(t, "token run"@, run),
        trace_line(t, "viewport"@, "scroll "@ + decimal(a.chat_scroll as nat) + " • inner "@
            + decimal(a.chat_inner_width as nat) + "x"@ + decimal(a.chat_inner_height as nat)),
        trace_line(t, "selection"@, "focus "@ + debug_focus(a.focus) + " • selected "@ + debug_opt(a.selected_msg)),
        trace_line(t, "input"@, input_info(a)),
        one(""@, default_style()),
        one("Sources"@, bold_style(t.heading2)),
    ]
}

/// The debug section's lines about sources.
pub open spec fn stats_trace_sources(a: ClientState) -> Seq<(Seq<(Seq<char>, Style)>, Style)> {
    match latest_sources(a) {
        Some(ss) => source_lines(a.theme, ss, if ss.len() > 4 { 4 } else { ss.len() as int }),
        None => seq![one("No sources yet"@, fg_style(a.theme.status_hint))],
    }
}

/// The decimal notation of `n + 1`.
fn dec_plus_one(n: usize) -> (r: String)
    ensures
        r@ == decimal(n as nat + 1),
{
    if n < usize::MAX {
        dec((n + 1) as u64)
    } else {
        let mut s = String::new();
        push_decimal(&mut s, (n / 10) as u64);
        let d = n % 10 + 1;
        proof {
            assert(usize::MAX % 10 == 5) by {
                assert(usize::MAX == 0xffff_ffff || usize::MAX == 0xffff_ffff_ffff_ffff);
            }
        }
        s.push(match d { 1 => '1', 2 => '2', 3 => '3', 4 => '4', 5 => '5', 6 => '6', 7 => '7', 8 => '8', _ => '9' });
        proof {
            assert(decimal(n as nat + 1) =~= decimal(((n as nat + 1) / 10) as nat).push(crate::text::digit_char(((n as nat + 1) % 10) as nat)));
            assert((n as nat + 1) / 10 == n as nat / 10);
        }
        s
    }
}

fn dec(n: u64) -> (r: String)
    ensures
        r@ == decimal(n as nat),
{
    let mut s = String::new();
    push_decimal(&mut s, n);
    s
}

fn char_count(s: &str) -> (r: u64)
    ensures
        r as nat == s@.len(),
{
    let v = crate::text::to_chars(s);
    v.len() as u64
}

/// The lines that list the first `k` sources.
fn source_lines_of(t: &Theme, ss: &Vec<Source>, k: usize, lines: &mut Vec<Line>)
    requires
        k <= ss@.len(),
    ensures
        lines_v(final(lines)@) == lines_v(old(lines)@) + source_lines(*t, ss@, k as int),
{
    let mut i: usize = 0;
    while i < k
        invariant
            i <= k,
            k <= ss@.len(),
            lines_v(lines@) == lines_v(old(lines)@) + source_lines(*t, ss@, i as int),
        decreases k - i,
    {
        let mut num = dec((i + 1) as u64);
        push_str(&mut num, ".");
        let spans = vec![Span::styled(num, fg(t.stats_label)), span_of(" ", Style::new()),
            Span::styled(copy_string(&ss[i].title), fg(t.stats_value))];
        let ghost sv = spans@.map_values(|s: Span| span_v(s));
        let l1 = line_of(spans);
        let l2 = one_line(ss[i].url.as_str(), fg(t.status_hint));
        let ghost before = lines@;
        lines.push(l1);
        lines.push(l2);
        i = i + 1;
        proof {
            assert(sv =~= seq![(decimal(i as nat) + "."@, fg_style(t.stats_label)), (" "@, default_style()), (ss@[i - 1].title@, fg_style(t.stats_value))]);
            assert(lines_v(lines@) =~= lines_v(before) + seq![line_v(l1), line_v(l2)]);
            assert(lines_v(lines@) =~= lines_v(old(lines)@) + source_lines(*t, ss@, i as int));
        }
    }
}

/// Where the open chat's stream stands among the streams.
fn current_stream_index(a: &ClientState) -> (r: Option<usize>)
    ensures
        match r {
            Some(i) => i < a.active_streams@.len() && current_stream(*a) == Some(a.active_streams@[i as int]),
            None => current_stream(*a) is None,
        },
{
    proof {
        if a.current_chat_id is Some {
            lemma_stream_index(a.active_streams@, a.current_chat_id->0@);
        }
    }
    match &a.current_chat_id {
        Some(id) => find_stream(&a.active_streams, id.as_str()),
        None => None,
    }
}

fn request_text(a: &ClientState) -> (r: String)
    ensures
        r@ == (match a.pending_request_id {
            Some(q) => q@,
            None => match current_stream(*a) { Some(s) => s.request_id@, None => "none"@ },
        }),
{
    let cs = current_stream_index(a);
    match &a.pending_request_id {
        Some(q) => copy_string(q),
        None => match cs {
            Some(i) => copy_string(&a.active_streams[i].request_id),
            None => string_from("none"),
        },
    }
}

fn status_text(a: &ClientState) -> (r: String)
    ensures
        r@ == (match a.status_message {
            Some(m) => m@,
            None => match current_stream(*a) { Some(s) => match s.status { Some(st) => st@, None => "waiting"@ }, None => "waiting"@ },
        }),
{
    let cs = current_stream_index(a);
    match &a.status_message {
        Some(m) => copy_string(m),
        None => match cs {
            Some(i) => match &a.active_streams[i].status {
                Some(st) => copy_string(st),
                None => string_from("waiting"),
            },
            None => string_from("waiting"),
        },
    }
}

fn pending_text(a: &ClientState) -> (r: String)
    ensures
        r@ == decimal(a.pending_assistant@.len()) + " chars answer / "@ + decimal(a.pending_thinking@.len()) + " chars thinking"@,
{
    let mut p = dec(char_count(a.pending_assistant.as_str()));
    push_str(&mut p, " chars answer / ");
    push_decimal(&mut p, char_count(a.pending_thinking.as_str()));
    push_str(&mut p, " chars thinking");
    p
}

fn viewport_text(a: &ClientState) -> (r: String)
    ensures
        r@ == "scroll "@ + decimal(a.chat_scroll as nat) + " • inner "@ + decimal(a.chat_inner_width as nat) + "x"@
            + decimal(a.chat_inner_height as nat),
{
    let mut v = string_from("scroll ");
    push_decimal(&mut v, a.chat_scroll as u64);
    push_str(&mut v, " • inner ");
    push_decimal(&mut v, a.chat_inner_width as u64);
    push_str(&mut v, "x");
    push_decimal(&mut v, a.chat_inner_height as u64);
    v
}

fn selection_text(a: &ClientState) -> (r: String)
    ensures
        r@ == "focus "@ + debug_focus(a.focus) + " • selected "@ + debug_opt(a.selected_msg),
{
    let f: &str = match a.focus { Focus::Sidebar => "Sidebar", Focus::Chat => "Chat" };
    let opt_text = match a.selected_msg {
        Some(n) => {
            let mut o = string_from("Some(");
            push_decimal(&mut o, n as u64);
            push_str(&mut o, ")");
            o
        },
        None => string_from("None"),
    };
    let mut sel = string_from("focus ");
    push_str(&mut sel, f);
    push_str(&mut sel, " • selected ");
    push_str(&mut sel, opt_text.as_str());
    sel
}

fn input_text(a: &ClientState) -> (r: String)
    ensures
        r@ == input_info(*a),
{
    if a.mode == Mode::Command {
        let mut x = string_from("command ");
        push_decimal(&mut x, char_count(a.command_input.as_str()));
        push_str(&mut x, " chars • col ");
        push_str(&mut x, dec_plus_one(a.command_cursor_col).as_str());
        x
    } else {
        let mut x = dec(char_count(a.input.as_str()));
        push_str(&mut x, " chars • line ");
        push_str(&mut x, dec_plus_one(a.input_cursor_line).as_str());
        push_str(&mut x, " col ");
        push_str(&mut x, dec_plus_one(a.input_cursor_col).as_str());
        x
    }
}

/// The debug section's lines before the sources.
fn stats_trace_head_lines(a: &ClientState, run: String) -> (r: Vec<Line>)
    ensures
        lines_v(r@) == stats_trace_head(*a, run@),
{
    let t = &a.theme;
    proof { reveal_strlit(""); }
    let lines = vec![
        one_line("Trace log", bold(t.heading2)),
        one_line("", Style::new()),
        trace_line_of(t, "sidebar", string_from(if a.show_sidebar { "visible" } else { "hidden" })),
        trace_line_of(t, "stats panel", string_from(if a.show_stats_panel { "visible" } else { "hidden" })),
        trace_line_of(t, "focus", string_from(match a.focus { Focus::Sidebar => "sidebar", Focus::Chat => "chat" })),
        trace_line_of(t, "chat id", match &a.current_chat_id { Some(c) => copy_string(c), None => string_from("new chat") }),
        trace_line_of(t, "request", request_text(a)),
        trace_line_of(t, "status", status_text(a)),
        trace_line_of(t, "pending", pending_text(a)),
        trace_line_of(t, "token run", run),
        trace_line_of(t, "viewport", viewport_text(a)),
        trace_line_of(t, "selection", selection_text(a)),
        trace_line_of(t, "input", input_text(a)),
        one_line("", Style::new()),
        one_line("Sources", bold(t.heading2)),
    ];
    assert(lines_v(lines@) =~= stats_trace_head(*a, run@));
    lines
}

/// The debug section of the statistics panel; `run` tells the last token
/// run, which the clock measured.
pub fn stats_trace(a: &ClientState, run: String) -> (r: Text)
    ensures
        lines_v(r.lines@) == stats_trace_spec(*a, run@),
{
    let t = &a.theme;
    let mut lines = stats_trace_head_lines(a, run);
    let cs = current_stream_index(a);
    proof { reveal_strlit(""); }
    let stream_sources: Option<usize> = match cs {
        Some(i) => if a.active_streams[i].sources.len() > 0 { Some(i) } else { None },
        None => None,
    };
    match stream_sources {
        Some(i) => {
            let ss = &a.active_streams[i].sources;
            let k = if ss.len() > 4 { 4 } else { ss.len() };
            source_lines_of(t, ss, k, &mut lines);
        },
        None => {
            let mut n = a.messages.len();
            while n > 0 && a.messages[n - 1].sources.len() == 0
                invariant
                    n <= a.messages@.len(),
                    last_with_sources(a.messages@, a.messages@.len() as int) == last_with_sources(a.messages@, n as int),
                decreases n,
            {
                n = n - 1;
            }
            if n > 0 {
                let ss = &a.messages[n - 1].sources;
                let k = if ss.len() > 4 { 4 } else { ss.len() };
                source_lines_of(t, ss, k, &mut lines);
            } else {
                lines.push(one_line("No sources yet", fg(t.status_hint)));
            }
        },
    }
    let ghost mid = lines_v(lines@);
    assert(mid =~= stats_trace_head(*a, run@) + stats_trace_sources(*a));
    lines.push(one_line("", Style::new()));
    lines.push(one_line("Ctrl+P toggles this panel.", fg(t.status_hint)));
    proof {
        assert(lines_v(lines@) =~= stats_trace_spec(*a, run@));
    }
    Text { lines }
}


/// The characters of the first `n` messages' contents.
pub open spec fn contents_chars(ms: Seq<Message>, n: int) -> nat
    decreases n,
{
    if n <= 0 || n > ms.len() { 0 } else { contents_chars(ms, n - 1) + ms[n - 1].content@.len() }
}

/// The characters the context holds: the messages, the reply so far, the
/// input and the system prompt.
pub open spec fn context_chars(app: ClientState) -> nat {
    contents_chars(app.messages@, app.messages@.len() as int) + app.pending_assistant@.len() + app.input@.len()
        + match app.system_prompt { Some(p) => p@.len(), None => 0 }
}

/// The number of characters in the context, at most `usize::MAX`.
pub fn context_char_count(app: &ClientState) -> (r: usize)
    ensures
        r == (if context_chars(*app) <= usize::MAX { context_chars(*app) } else { usize::MAX as nat }),
{
    let mut total: usize = 0;
    let mut full = false;
    let mut i: usize = 0;
    while i < app.messages.len()
        invariant
            i <= app.messages@.len(),
            !full ==> total == contents_chars(app.messages@, i as int),
            full ==> total == usize::MAX && contents_chars(app.messages@, i as int) > usize::MAX,
        decreases app.messages.len() - i,
    {
        let n = crate::text::to_chars(app.messages[i].content.as_str()).len();
        if !full {
            if total > usize::MAX - n { full = true; total = usize::MAX; } else { total = total + n; }
        }
        i = i + 1;
    }
    let extra_p = crate::text::to_chars(app.pending_assistant.as_str()).len();
    let extra_i = crate::text::to_chars(app.input.as_str()).len();
    let extra_s: usize = match &app.system_prompt {
        Some(p) => crate::text::to_chars(p.as_str()).len(),
        None => 0,
    };
    if full {
        return usize::MAX;
    }
    let t1 = total.saturating_add(extra_p);
    let t2 = t1.saturating_add(extra_i);
    t2.saturating_add(extra_s)
}

} // verus!
