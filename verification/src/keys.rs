use vstd::prelude::*;
use crate::text::{to_chars, string_of_range, string_from, copy_string, push_str, push_chars, graphemes,
    grapheme_clusters, concat_all};
use crate::client::{ClientState, split_lines, join_lf, Popup, PaletteAction, current_stream, globals_kept, input_kept,
    palette_outcome, palette_command};
use crate::chat::{Mode, Focus, VisualSelection, opt_view, min_int, sat_sub, message_to_preview_markdown, preview_markdown_spec};
use crate::chat_view::{offset_for_message, offset_spec};
use crate::commands::{command_byte_index, grapheme_prefix_bytes};
use crate::md_render::{split_lf, lemma_split_lf_len};
use crate::md_doc::strings_view;

verus! {

/// The graphemes of line `line` of the input (none past the last line).
pub open spec fn line_graphemes(input: Seq<char>, line: int) -> Seq<Seq<char>> {
    let ls = split_lf(input);
    if 0 <= line < ls.len() { grapheme_clusters(ls[line]) } else { Seq::empty() }
}

/// Characters before line `line`, counting one line feed after each line.
pub open spec fn lines_before_len(ls: Seq<Seq<char>>, line: int) -> int
    decreases line,
{
    if line <= 0 || line > ls.len() { 0 } else { lines_before_len(ls, line - 1) + ls[line - 1].len() + 1 }
}

/// The character offset of the input cursor: the lines above it with their
/// line feeds, then the first `col` graphemes of its line.
pub open spec fn cursor_offset(input: Seq<char>, line: int, col: int) -> int {
    let g = line_graphemes(input, line);
    lines_before_len(split_lf(input), line) + concat_all(g.take(if col < g.len() { col } else { g.len() as int })).len()
}

/// `s` with `t` inserted at position `p` (at the end when `p` is past it).
pub open spec fn insert_at(s: Seq<char>, p: int, t: Seq<char>) -> Seq<char> {
    let q = if p < s.len() { p } else { s.len() as int };
    s.take(q) + t + s.skip(q)
}

/// The input cursor stands on a line of the input.
pub open spec fn input_cursor_ok(app: ClientState) -> bool {
    app.input_cursor_line < split_lf(app.input@).len()
}

impl ClientState {
    /// Whether the input's cursor stands on one of its lines.
    pub fn input_cursor_in_range(&self) -> (r: bool)
        ensures
            r == input_cursor_ok(*self),
    {
        let lines = split_lines(self.input.as_str());
        self.input_cursor_line < lines.len()
    }
}

/// The graphemes of line `line` of `input`.
fn line_graphemes_exec(input: &str, line: usize) -> (r: Vec<String>)
    ensures
        strings_view(r@) == line_graphemes(input@, line as int),
{
    let lines = split_lines(input);
    if line < lines.len() {
        let g = graphemes(lines[line].as_str());
        assert(strings_view(g@) =~= line_graphemes(input@, line as int));
        g
    } else {
        let r: Vec<String> = Vec::new();
        assert(strings_view(r@) =~= line_graphemes(input@, line as int));
        r
    }
}

/// The character offset of the input cursor.
fn cursor_offset_exec(input: &str, line: usize, col: usize) -> (r: usize)
    requires
        line < split_lf(input@).len(),
    ensures
        r == cursor_offset(input@, line as int, col as int),
        r <= input@.len(),
{
    let lines = split_lines(input);
    let total = to_chars(input).len();
    let ghost ls = split_lf(input@);
    let mut p: usize = 0;
    let mut i: usize = 0;
    proof {
        lemma_lines_before_bound(ls, line as int);
        crate::client::lemma_join_split_lf(input@);
    }
    while i < line
        invariant
            i <= line < ls.len(),
            strings_view(lines@) == ls,
            total == input@.len(),
            p == lines_before_len(ls, i as int),
            lines_before_len(ls, line as int) + ls[line as int].len() <= input@.len(),
        decreases line - i,
    {
        proof { lemma_lines_before_mono(ls, i as int + 1, line as int); }
        assert(lines@[i as int]@ == ls[i as int]);
        let n = lines[i].as_str().unicode_len();
        p = p + n + 1;
        i = i + 1;
    }
    let g = graphemes(lines[line].as_str());
    assert(lines@[line as int]@ == ls[line as int]);
    let ghost gv = strings_view(g@);
    assert(gv =~= line_graphemes(input@, line as int));
    let m = if col < g.len() { col } else { g.len() };
    let mut k: usize = 0;
    let mut q: usize = 0;
    proof {
        assert(gv.take(gv.len() as int) =~= gv);
        lemma_concat_prefix_len(gv, m as int, gv.len() as int);
    }
    while k < m
        invariant
            k <= m <= g@.len(),
            gv == strings_view(g@),
            q == concat_all(gv.take(k as int)).len(),
            concat_all(gv.take(m as int)).len() <= ls[line as int].len(),
            concat_all(gv) == ls[line as int],
            p + ls[line as int].len() <= total,
        decreases m - k,
    {
        proof {
            assert(gv.take(k + 1).drop_last() =~= gv.take(k as int));
            lemma_concat_prefix_len(gv, k + 1, m as int);
        }
        q = q + g[k].as_str().unicode_len();
        k = k + 1;
    }
    p + q
}

proof fn lemma_concat_prefix_len(g: Seq<Seq<char>>, a: int, b: int)
    requires
        0 <= a <= b <= g.len(),
    ensures
        concat_all(g.take(a)).len() <= concat_all(g.take(b)).len(),
    decreases b - a,
{
    if a < b {
        assert(g.take(b).drop_last() =~= g.take(b - 1));
        lemma_concat_prefix_len(g, a, b - 1);
    }
}

proof fn lemma_lines_before_mono(ls: Seq<Seq<char>>, a: int, b: int)
    requires
        0 <= a <= b <= ls.len(),
    ensures
        lines_before_len(ls, a) <= lines_before_len(ls, b),
    decreases b - a,
{
    if a < b {
        lemma_lines_before_mono(ls, a, b - 1);
    }
}

/// The lines before line `k`, with their line feeds, are the start of the
/// joined text.
proof fn lemma_join_prefix(ls: Seq<Seq<char>>, k: int)
    requires
        1 <= k <= ls.len(),
    ensures
        join_lf(ls.take(k)).len() == lines_before_len(ls, k) - 1,
    decreases k,
{
    if k == 1 {
        assert(ls.take(1) =~= seq![ls[0]]);
        assert(join_lf(ls.take(1)) == ls[0]);
        assert(lines_before_len(ls, 0) == 0);
        assert(lines_before_len(ls, 1) == ls[0].len() + 1);
    } else {
        lemma_join_prefix(ls, k - 1);
        assert(ls.take(k).drop_last() =~= ls.take(k - 1));
        assert(ls.take(k).last() == ls[k - 1]);
        assert(join_lf(ls.take(k)) == join_lf(ls.take(k - 1)) + seq!['\n'] + ls[k - 1]);
    }
}

proof fn lemma_lines_before_bound(ls: Seq<Seq<char>>, line: int)
    requires
        0 <= line < ls.len(),
    ensures
        lines_before_len(ls, line) + ls[line].len() <= join_lf(ls).len(),
{
    lemma_join_prefix(ls, line + 1);
    lemma_join_prefix(ls, ls.len() as int);
    lemma_lines_before_mono(ls, line + 1, ls.len() as int);
    assert(ls.take(ls.len() as int) =~= ls);
}


/// Number of line feeds in `s`.
pub open spec fn lf_count(s: Seq<char>) -> nat
    decreases s.len(),
{
    if s.len() == 0 { 0 } else { lf_count(s.drop_last()) + (if s.last() == '\n' { 1nat } else { 0nat }) }
}

/// A text has one more line than it has line feeds.
pub proof fn lemma_split_lf_count(s: Seq<char>)
    ensures
        split_lf(s).len() == lf_count(s) + 1,
    decreases s.len(),
{
    if s.len() > 0 {
        lemma_split_lf_count(s.drop_last());
        lemma_split_lf_len(s.drop_last());
    }
}

pub proof fn lemma_lf_count_concat(a: Seq<char>, b: Seq<char>)
    ensures
        lf_count(a + b) == lf_count(a) + lf_count(b),
    decreases b.len(),
{
    if b.len() == 0 {
        assert(a + b =~= a);
    } else {
        lemma_lf_count_concat(a, b.drop_last());
        assert((a + b).drop_last() =~= a + b.drop_last());
    }
}

proof fn lemma_insert_lines(s: Seq<char>, q: int, t: Seq<char>)
    requires
        0 <= q <= s.len(),
    ensures
        split_lf(s.take(q) + t + s.skip(q)).len() == split_lf(s).len() + lf_count(t),
{
    lemma_split_lf_count(s);
    lemma_split_lf_count(s.take(q) + t + s.skip(q));
    lemma_lf_count_concat(s.take(q), t);
    lemma_lf_count_concat(s.take(q) + t, s.skip(q));
    lemma_lf_count_concat(s.take(q), s.skip(q));
    assert(s.take(q) + s.skip(q) =~= s);
}

/// `s` with `t` inserted at character `p`.
fn insert_chars(s: &str, p: usize, t: &str) -> (r: String)
    requires
        p <= s@.len(),
    ensures
        r@ == insert_at(s@, p as int, t@),
{
    let v = to_chars(s);
    let mut out = string_of_range(&v, 0, p);
    push_str(&mut out, t);
    let tail = string_of_range(&v, p, v.len());
    push_str(&mut out, tail.as_str());
    assert(out@ =~= s@.take(p as int) + t@ + s@.skip(p as int));
    out
}

impl ClientState {
    /// Inserts `t` at the input cursor and moves the cursor `cols`
    /// graphemes right (a tab is typed as four spaces).
    pub fn insert_at_cursor(&mut self, t: &str, cols: usize)
        requires
            input_cursor_ok(*old(self)),
        ensures
            globals_kept(*old(self), *final(self)),
            final(self).input@ == insert_at(old(self).input@, cursor_offset(old(self).input@, old(self).input_cursor_line as int, old(self).input_cursor_col as int), t@),
            final(self).input_cursor_line == old(self).input_cursor_line,
            final(self).input_cursor_col == crate::chat::min_int(old(self).input_cursor_col + cols, usize::MAX as int),
            input_cursor_ok(*final(self)),
            final(self).messages == old(self).messages,
    {
        let p = cursor_offset_exec(self.input.as_str(), self.input_cursor_line, self.input_cursor_col);
        let n = insert_chars(self.input.as_str(), p, t);
        proof { lemma_insert_lines(self.input@, p as int, t@); }
        self.input = n;
        self.input_cursor_col = self.input_cursor_col.saturating_add(cols);
    }

    /// Splits the input line at the cursor; the cursor moves to the start of
    /// the new line.
    pub fn insert_newline_at_cursor(&mut self)
        requires
            input_cursor_ok(*old(self)),
        ensures
            globals_kept(*old(self), *final(self)),
            final(self).input@ == insert_at(old(self).input@, cursor_offset(old(self).input@, old(self).input_cursor_line as int, old(self).input_cursor_col as int), seq!['\n']),
            final(self).input_cursor_line == old(self).input_cursor_line + 1,
            final(self).input_cursor_col == 0,
            input_cursor_ok(*final(self)),
            final(self).messages == old(self).messages,
    {
        let p = cursor_offset_exec(self.input.as_str(), self.input_cursor_line, self.input_cursor_col);
        let count = split_lines(self.input.as_str()).len();
        let n = insert_chars(self.input.as_str(), p, "\n");
        proof {
            reveal_strlit("\n");
            assert("\n"@ =~= seq!['\n']);
            lemma_insert_lines(self.input@, p as int, seq!['\n']);
            reveal_with_fuel(lf_count, 2);
        }
        self.input = n;
        self.input_cursor_line = self.input_cursor_line + 1;
        self.input_cursor_col = 0;
    }

    /// The cursor one grapheme left, or to the end of the line above.
    pub fn cursor_left(&mut self)
        requires
            input_cursor_ok(*old(self)),
        ensures
            globals_kept(*old(self), *final(self)),
            old(self).input_cursor_col > 0 ==> final(self).input_cursor_col == old(self).input_cursor_col - 1
                && final(self).input_cursor_line == old(self).input_cursor_line,
            old(self).input_cursor_col == 0 && old(self).input_cursor_line > 0 ==>
                final(self).input_cursor_line == old(self).input_cursor_line - 1
                && final(self).input_cursor_col == line_graphemes(old(self).input@, old(self).input_cursor_line - 1).len(),
            old(self).input_cursor_col == 0 && old(self).input_cursor_line == 0 ==> final(self).input_cursor_col == 0
                && final(self).input_cursor_line == 0,
            final(self).input == old(self).input,
            input_cursor_ok(*final(self)),
    {
        if self.input_cursor_col > 0 {
            self.input_cursor_col = self.input_cursor_col - 1;
        } else if self.input_cursor_line > 0 {
            self.input_cursor_line = self.input_cursor_line - 1;
            let g = line_graphemes_exec(self.input.as_str(), self.input_cursor_line);
            self.input_cursor_col = g.len();
        }
    }

    /// The cursor one grapheme right, or to the start of the line below.
    pub fn cursor_right(&mut self)
        requires
            input_cursor_ok(*old(self)),
        ensures
            globals_kept(*old(self), *final(self)),
            ({
                let len = line_graphemes(old(self).input@, old(self).input_cursor_line as int).len();
                &&& old(self).input_cursor_col < len ==> final(self).input_cursor_col == old(self).input_cursor_col + 1
                    && final(self).input_cursor_line == old(self).input_cursor_line
                &&& old(self).input_cursor_col >= len && old(self).input_cursor_line + 1 < split_lf(old(self).input@).len() ==>
                    final(self).input_cursor_line == old(self).input_cursor_line + 1 && final(self).input_cursor_col == 0
                &&& old(self).input_cursor_col >= len && old(self).input_cursor_line + 1 >= split_lf(old(self).input@).len() ==>
                    final(self).input_cursor_line == old(self).input_cursor_line && final(self).input_cursor_col == old(self).input_cursor_col
            }),
            final(self).input == old(self).input,
            input_cursor_ok(*final(self)),
    {
        let g = line_graphemes_exec(self.input.as_str(), self.input_cursor_line);
        let total = split_lines(self.input.as_str()).len();
        if self.input_cursor_col < g.len() {
            self.input_cursor_col = self.input_cursor_col + 1;
        } else if self.input_cursor_line + 1 < total {
            self.input_cursor_line = self.input_cursor_line + 1;
            self.input_cursor_col = 0;
        }
    }

    /// The cursor one line up, its column kept within the line.
    pub fn cursor_up(&mut self)
        requires
            input_cursor_ok(*old(self)),
        ensures
            globals_kept(*old(self), *final(self)),
            old(self).input_cursor_line > 0 ==> final(self).input_cursor_line == old(self).input_cursor_line - 1
                && final(self).input_cursor_col == crate::chat::min_int(old(self).input_cursor_col as int,
                    line_graphemes(old(self).input@, old(self).input_cursor_line - 1).len() as int),
            old(self).input_cursor_line == 0 ==> final(self).input_cursor_line == 0
                && final(self).input_cursor_col == old(self).input_cursor_col,
            final(self).input == old(self).input,
            input_cursor_ok(*final(self)),
    {
        if self.input_cursor_line > 0 {
            self.input_cursor_line = self.input_cursor_line - 1;
            let g = line_graphemes_exec(self.input.as_str(), self.input_cursor_line);
            if self.input_cursor_col > g.len() {
                self.input_cursor_col = g.len();
            }
        }
    }

    /// The cursor one line down, its column kept within the line.
    pub fn cursor_down(&mut self)
        requires
            input_cursor_ok(*old(self)),
        ensures
            globals_kept(*old(self), *final(self)),
            old(self).input_cursor_line + 1 < split_lf(old(self).input@).len() ==>
                final(self).input_cursor_line == old(self).input_cursor_line + 1
                && final(self).input_cursor_col == crate::chat::min_int(old(self).input_cursor_col as int,
                    line_graphemes(old(self).input@, old(self).input_cursor_line + 1).len() as int),
            old(self).input_cursor_line + 1 >= split_lf(old(self).input@).len() ==>
                final(self).input_cursor_line == old(self).input_cursor_line
                && final(self).input_cursor_col == old(self).input_cursor_col,
            final(self).input == old(self).input,
            input_cursor_ok(*final(self)),
    {
        let total = split_lines(self.input.as_str()).len();
        if self.input_cursor_line + 1 < total {
            self.input_cursor_line = self.input_cursor_line + 1;
            let g = line_graphemes_exec(self.input.as_str(), self.input_cursor_line);
            if self.input_cursor_col > g.len() {
                self.input_cursor_col = g.len();
            }
        }
    }

    /// The cursor after the last grapheme of the input.
    pub fn cursor_to_input_end(&mut self)
        ensures
            globals_kept(*old(self), *final(self)),
            final(self).input_cursor_line == split_lf(old(self).input@).len() - 1,
            final(self).input_cursor_col == line_graphemes(old(self).input@, split_lf(old(self).input@).len() - 1).len(),
            final(self).input == old(self).input,
            input_cursor_ok(*final(self)),
    {
        let lines = split_lines(self.input.as_str());
        proof { lemma_split_lf_len(self.input@); }
        self.input_cursor_line = lines.len() - 1;
        let g = line_graphemes_exec(self.input.as_str(), self.input_cursor_line);
        self.input_cursor_col = g.len();
    }

    /// Appends pasted text to the input, tabs expanded, with the cursor at
    /// its end.
    pub fn paste_text(&mut self, clip: &str)
        ensures
            globals_kept(*old(self), *final(self)),
            final(self).input@ == old(self).input@ + crate::chat::expand_tabs(clip@),
            final(self).input_cursor_line == split_lf(final(self).input@).len() - 1,
            final(self).input_cursor_col == line_graphemes(final(self).input@, split_lf(final(self).input@).len() - 1).len(),
            input_cursor_ok(*final(self)),
    {
        let t = crate::chat::normalize_tabs(clip);
        push_str(&mut self.input, t.as_str());
        self.cursor_to_input_end();
    }

    /// Scrolls the chat up by a page.
    pub fn page_up(&mut self)
        ensures
            input_kept(*old(self), *final(self)),
            globals_kept(*old(self), *final(self)),
            final(self).chat_scroll as int == crate::chat::sat_sub(old(self).chat_scroll as int,
                if old(self).chat_inner_height < 1 { 1 } else { old(self).chat_inner_height as int }),
            !final(self).scroll_to_bottom_on_draw,
            !final(self).chat_at_bottom,
            final(self).input == old(self).input,
            final(self).input_cursor_line == old(self).input_cursor_line,
    {
        self.scroll_to_bottom_on_draw = false;
        self.chat_at_bottom = false;
        let page: u16 = if self.chat_inner_height < 1 { 1 } else { self.chat_inner_height };
        self.chat_scroll = self.chat_scroll.saturating_sub(page);
    }

    /// Scrolls the chat down by a page.
    pub fn page_down(&mut self)
        ensures
            input_kept(*old(self), *final(self)),
            globals_kept(*old(self), *final(self)),
            final(self).chat_scroll as int == crate::chat::min_int(old(self).chat_scroll as int
                + (if old(self).chat_inner_height < 1 { 1 } else { old(self).chat_inner_height as int }), u16::MAX as int),
            final(self).input == old(self).input,
            final(self).input_cursor_line == old(self).input_cursor_line,
    {
        let page: u16 = if self.chat_inner_height < 1 { 1 } else { self.chat_inner_height };
        self.chat_scroll = self.chat_scroll.saturating_add(page);
    }
}

/// A key of the keyboard, as the client reads it.
#[derive(Clone, Copy, Debug, PartialEq, Eq, Structural)]
pub enum KeyCode {
    Char(char),
    Enter,
    Esc,
    Backspace,
    Left,
    Right,
    Up,
    Down,
    Tab,
    PageUp,
    PageDown,
    Other,
}

/// A key press with its modifiers.
#[derive(Clone, Copy, Debug, PartialEq, Eq, Structural)]
pub struct KeyInput {
    pub code: KeyCode,
    pub control: bool,
    pub alt: bool,
    pub shift: bool,
    pub super_key: bool,
}

/// What a key asks of the caller besides the change of state.
#[derive(Debug)]
pub enum KeyAction {
    /// Nothing more.
    Done,
    /// Delete the stored chat, then call `finish_delete_chat`.
    DeleteChat(String),
    /// Send this cancel request (request id, chat id) to the server.
    CancelStream(String, String),
    /// Redraw the whole screen.
    RefreshScreen,
    /// Start a new chat.
    NewChat,
    /// Paste the clipboard into the input.
    Paste,
    /// Copy the visual selection to the clipboard.
    Yank,
    /// Load the stored chat and show it (`visual`: select its last message).
    OpenChat { id: String, visual: bool },
    /// Preview this Markdown in the browser.
    Preview(String),
    /// Carry out the palette's action.
    Palette(PaletteAction),
    /// Send the typed message.
    Send,
    /// Reload the sidebar, keeping this chat selected when listed.
    RefreshSidebar(Option<String>),
}

/// A key with Ctrl held and the character `c`.
pub open spec fn ctrl_char(k: KeyInput, c: char) -> bool {
    k.control && k.code == KeyCode::Char(c)
}

/// A plain character: no Ctrl, Alt or Super held.
pub open spec fn plain(k: KeyInput) -> bool {
    !k.control && !k.alt && !k.super_key
}

/// What Ctrl+W, Ctrl+Y and Ctrl+P do: switch web search, the thinking
/// sections or the statistics panel, and change nothing else.
pub open spec fn toggle_effect(a: ClientState, b: ClientState, key: KeyInput) -> bool {
    &&& ctrl_char(key, 'w') ==> b == (ClientState { web_search: !a.web_search, ..a })
    &&& ctrl_char(key, 'y') ==> b == (ClientState { show_thinking: !a.show_thinking, ..a })
    &&& ctrl_char(key, 'p') ==> b == (ClientState { show_stats_panel: !a.show_stats_panel, ..a })
}

/// The four spaces a tab types.
pub open spec fn tab_text() -> Seq<char> {
    seq![' ', ' ', ' ', ' ']
}

/// A key that acts the same in every mode (unless a dialog is open).
pub open spec fn global_key(a: ClientState, key: KeyInput) -> bool {
    ||| ctrl_char(key, 'c')
    ||| (key.code == KeyCode::Char('q') && a.mode == Mode::Normal)
    ||| ctrl_char(key, 'x')
    ||| ctrl_char(key, 't')
    ||| ctrl_char(key, 'w')
    ||| ctrl_char(key, 'p')
    ||| ctrl_char(key, 'y')
}

/// A key that goes to the current mode: no dialog, no global key, no
/// sidebar search being typed, and not the Esc that clears a search.
pub open spec fn mode_key(a: ClientState, key: KeyInput) -> bool {
    &&& a.popup is Hidden
    &&& !global_key(a, key)
    &&& !a.sidebar_search_active
    &&& !(key.code == KeyCode::Esc && a.focus == Focus::Sidebar && a.sidebar_search_query@.len() > 0)
}

/// The chat selected in the sidebar, where there is one.
pub open spec fn sidebar_pick(a: ClientState) -> bool {
    a.sidebar_idx < a.chats@.len()
}

/// What a key does while the sidebar search is typed.
pub open spec fn search_key_effect(a: ClientState, b: ClientState, key: KeyInput, r: KeyAction) -> bool {
    if key.code == KeyCode::Esc {
        !b.sidebar_search_active && b.sidebar_search_query@.len() == 0 && r is RefreshSidebar
    } else if key.code == KeyCode::Enter {
        !b.sidebar_search_active && b.sidebar_search_query == a.sidebar_search_query && r is Done
    } else if key.code == KeyCode::Backspace {
        b.sidebar_search_query@ == (if a.sidebar_search_query@.len() > 0 { a.sidebar_search_query@.drop_last() } else { Seq::empty() })
            && r is RefreshSidebar
    } else if key.code is Char && plain(key) {
        b.sidebar_search_query@ == a.sidebar_search_query@.push(key.code->0) && r is RefreshSidebar
    } else {
        b.sidebar_search_query == a.sidebar_search_query && r is Done
    }
}

/// What a key does in insert mode: Esc leaves it, Ctrl+S sends the typed
/// text (when there is text or an attachment and the chat has no running
/// stream), Enter breaks the line, a plain character or Tab is typed at the
/// cursor.
pub open spec fn insert_key_effect(a: ClientState, b: ClientState, key: KeyInput, r: KeyAction) -> bool {
    let at = cursor_offset(a.input@, a.input_cursor_line as int, a.input_cursor_col as int);
    if key.code == KeyCode::Esc {
        b.mode == Mode::Normal && b.input == a.input && r is Done
    } else if ctrl_char(key, 's') {
        let sendable = (crate::text::trim_spec(a.input@).len() > 0 || a.pending_attachments@.len() > 0)
            && current_stream(a) is None;
        &&& b == a
        &&& sendable ==> r is Send
        &&& !sendable ==> r is Done
    } else if key.code == KeyCode::Enter {
        &&& b.mode == a.mode && r is Done
        &&& b.input@ == insert_at(a.input@, at, seq!['\n'])
        &&& b.input_cursor_line == a.input_cursor_line + 1 && b.input_cursor_col == 0
    } else if key.code == KeyCode::Tab || (key.code == KeyCode::Char('\t') && plain(key)) {
        b.mode == a.mode && r is Done && b.input@ == insert_at(a.input@, at, tab_text())
    } else if key.code is Char && plain(key) {
        b.mode == a.mode && r is Done && b.input@ == insert_at(a.input@, at, seq![key.code->0])
    } else {
        b.mode == a.mode && r is Done
    }
}

/// What a key does in command mode.
pub open spec fn command_key_effect(a: ClientState, b: ClientState, key: KeyInput, r: KeyAction) -> bool {
    if key.code == KeyCode::Esc {
        b.mode == Mode::Normal && b.command_input@.len() == 0
            && opt_view(b.status_message) == Some("Command cancelled"@) && r is Done
    } else if key.code == KeyCode::Enter {
        let (status, set, attach, web) = palette_outcome(palette_command(a.command_input@));
        &&& b.mode == Mode::Normal && b.command_input@.len() == 0
        &&& (status matches Some(t) ==> opt_view(b.status_message) == Some(t))
        &&& (status is None ==> b.status_message == a.status_message)
        &&& (set matches Some(x) ==> (r matches KeyAction::Palette(PaletteAction::SetOption(y)) && y@ == x))
        &&& (attach matches Some(p) ==> (r matches KeyAction::Palette(PaletteAction::Attach(y)) && y@ == p))
        &&& (set is None && attach is None ==> (r matches KeyAction::Palette(PaletteAction::Done)))
        &&& b.web_search == (a.web_search || web)
    } else if key.code is Char && plain(key) {
        b.mode == a.mode && r is Done
            && b.command_input@ == insert_at(a.command_input@,
                concat_all(grapheme_clusters(a.command_input@).take(min_int(a.command_cursor_col as int,
                    grapheme_clusters(a.command_input@).len() as int))).len() as int, seq![key.code->0])
    } else {
        b.mode == a.mode && r is Done
    }
}

/// What a key does in normal mode.
pub open spec fn normal_key_effect(a: ClientState, b: ClientState, key: KeyInput, r: KeyAction) -> bool {
    let c = key.code;
    if c == KeyCode::Char('?') {
        b.popup is Help && r is Done
    } else if c == KeyCode::Char(':') {
        b.mode == Mode::Command && b.command_input@.len() == 0
            && opt_view(b.status_message) == Some("Command mode"@) && r is Done
    } else if c == KeyCode::Char('/') {
        b.sidebar_search_active == (a.sidebar_search_active || a.focus == Focus::Sidebar) && r is Done
    } else if c == KeyCode::Char('r') {
        r is RefreshScreen
    } else if c == KeyCode::Char('h') {
        b.focus == (if a.show_sidebar { Focus::Sidebar } else { a.focus }) && r is Done
    } else if c == KeyCode::Char('l') {
        b.focus == Focus::Chat && r is Done
    } else if c == KeyCode::Char('v') {
        &&& a.focus == Focus::Chat ==> b.mode == Mode::Visual && b.visual_selection == VisualSelection::Message
        &&& a.focus != Focus::Chat ==> b.mode == a.mode
        &&& r is Done
    } else if c == KeyCode::Char('i') {
        &&& a.focus == Focus::Chat ==> b.mode == Mode::Insert
        &&& a.focus != Focus::Chat ==> b.mode == a.mode
        &&& r is Done
    } else if c == KeyCode::Char('n') {
        r is NewChat
    } else if c == KeyCode::Char('d') {
        &&& (a.focus == Focus::Sidebar && sidebar_pick(a)) ==> (b.popup matches Popup::ConfirmDelete { id, title }
            && id@ == a.chats@[a.sidebar_idx as int].id@ && title@ == a.chats@[a.sidebar_idx as int].title@)
        &&& !(a.focus == Focus::Sidebar && sidebar_pick(a)) ==> b.popup == a.popup
        &&& r is Done
    } else if c == KeyCode::Char('p') {
        b == a && (if a.focus == Focus::Chat { r is Paste } else { r is Done })
    } else if c == KeyCode::Enter {
        &&& (a.focus == Focus::Sidebar && a.show_sidebar && sidebar_pick(a)) ==> (r matches KeyAction::OpenChat { id, visual }
            && id@ == a.chats@[a.sidebar_idx as int].id@ && !visual)
        &&& !(a.focus == Focus::Sidebar && a.show_sidebar && sidebar_pick(a)) ==> r is Done
    } else {
        &&& b.mode == a.mode && r is Done
        &&& (c == KeyCode::Char('j') || c == KeyCode::Down) ==> (if a.focus == Focus::Sidebar {
                self_sidebar_moved(a, b, true)
            } else {
                b.chat_scroll as int == min_int(a.chat_scroll + 1, u16::MAX as int)
            })
        &&& (c == KeyCode::Char('k') || c == KeyCode::Up) ==> (if a.focus == Focus::Sidebar {
                self_sidebar_moved(a, b, false)
            } else {
                b.chat_scroll as int == sat_sub(a.chat_scroll as int, 1) && !b.scroll_to_bottom_on_draw && !b.chat_at_bottom
            })
        &&& (c == KeyCode::Char('g') && a.focus == Focus::Chat) ==> (if key.shift {
                b.scroll_to_bottom_on_draw
            } else {
                !b.scroll_to_bottom_on_draw && !b.chat_at_bottom && b.chat_scroll == 0
            })
        &&& (c == KeyCode::Char('G') && a.focus == Focus::Chat) ==> b.scroll_to_bottom_on_draw
    }
}

/// What a key does in visual mode.
pub open spec fn visual_key_effect(a: ClientState, b: ClientState, key: KeyInput, r: KeyAction) -> bool {
    let c = key.code;
    if c == KeyCode::Esc || c == KeyCode::Char('v') {
        b.mode == Mode::Normal && b.visual_selection == VisualSelection::Message && r is Done
    } else if c == KeyCode::Char('h') {
        b.focus == (if a.show_sidebar { Focus::Sidebar } else { a.focus }) && r is Done
    } else if c == KeyCode::Char('l') {
        b.focus == Focus::Chat && r is Done
    } else if c == KeyCode::Char('i') {
        &&& a.focus == Focus::Chat ==> b.mode == Mode::Insert
        &&& a.focus != Focus::Chat ==> b.mode == a.mode
        &&& r is Done
    } else if c == KeyCode::Char('y') {
        r is Yank
    } else if c == KeyCode::Char('m') {
        b.visual_selection == VisualSelection::Message
            && opt_view(b.status_message) == Some("Selected whole message"@) && r is Done
    } else if c == KeyCode::Enter {
        &&& (a.focus == Focus::Sidebar && a.show_sidebar && sidebar_pick(a)) ==> (r matches KeyAction::OpenChat { id, visual }
            && id@ == a.chats@[a.sidebar_idx as int].id@ && visual)
        &&& (a.focus == Focus::Chat && (a.selected_msg matches Some(i) && i < a.messages@.len())) ==> (r matches KeyAction::Preview(md)
            && md@ == preview_markdown_spec(a.messages@[a.selected_msg->0 as int]))
        &&& (a.focus == Focus::Sidebar && !(a.show_sidebar && sidebar_pick(a))) ==> r is Done
        &&& (a.focus == Focus::Chat && !(a.selected_msg matches Some(i) && i < a.messages@.len())) ==> r is Done
    } else {
        b.mode == a.mode && r is Done
    }
}

impl ClientState {
    /// Moves the sidebar selection down one chat.
    pub fn sidebar_down(&mut self)
        ensures
            input_kept(*old(self), *final(self)),
            globals_kept(*old(self), *final(self)),
            self_sidebar_moved(*old(self), *final(self), true),
    {
        if self.show_sidebar && self.chats.len() > 0 {
            let n = self.sidebar_idx.saturating_add(1);
            self.sidebar_idx = if n < self.chats.len() - 1 { n } else { self.chats.len() - 1 };
        }
    }

    /// Moves the sidebar selection up one chat.
    pub fn sidebar_up(&mut self)
        ensures
            input_kept(*old(self), *final(self)),
            globals_kept(*old(self), *final(self)),
            self_sidebar_moved(*old(self), *final(self), false),
    {
        if self.show_sidebar && self.chats.len() > 0 {
            self.sidebar_idx = self.sidebar_idx.saturating_sub(1);
        }
    }

    /// Scrolls the chat one row down.
    pub fn scroll_down(&mut self)
        ensures
            input_kept(*old(self), *final(self)),
            globals_kept(*old(self), *final(self)),
            final(self).chat_scroll as int == min_int(old(self).chat_scroll + 1, u16::MAX as int),
            final(self).input == old(self).input,
            final(self).input_cursor_line == old(self).input_cursor_line,
            final(self).scroll_to_bottom_on_draw == old(self).scroll_to_bottom_on_draw,
    {
        self.chat_scroll = self.chat_scroll.saturating_add(1);
    }

    /// Scrolls the chat one row up, no longer following a stream.
    pub fn scroll_up(&mut self)
        ensures
            input_kept(*old(self), *final(self)),
            globals_kept(*old(self), *final(self)),
            final(self).chat_scroll as int == sat_sub(old(self).chat_scroll as int, 1),
            !final(self).scroll_to_bottom_on_draw,
            !final(self).chat_at_bottom,
            final(self).input == old(self).input,
            final(self).input_cursor_line == old(self).input_cursor_line,
    {
        self.scroll_to_bottom_on_draw = false;
        self.chat_at_bottom = false;
        self.chat_scroll = self.chat_scroll.saturating_sub(1);
    }

    /// Moves the visual selection to the next (`down`) or previous message
    /// and scrolls it into view when it is outside.
    pub fn visual_move(&mut self, down: bool)
        ensures
            input_kept(*old(self), *final(self)),
            globals_kept(*old(self), *final(self)),
            old(self).messages@.len() == 0 ==> *final(self) == *old(self),
            old(self).messages@.len() > 0 ==> ({
                let n = old(self).messages@.len();
                let cur: int = match old(self).selected_msg { Some(c) => c as int, None => n - 1 };
                let next: int = if down { min_int(cur + 1, n - 1) } else { sat_sub(cur, 1) };
                &&& final(self).selected_msg == Some(next as usize)
                &&& final(self).visual_selection == VisualSelection::Message
            }),
            final(self).messages == old(self).messages,
            final(self).input == old(self).input,
            final(self).input_cursor_line == old(self).input_cursor_line,
    {
        let n = self.messages.len();
        if n == 0 {
            return;
        }
        let cur = match self.selected_msg {
            Some(c) => c,
            None => n - 1,
        };
        let next = if down {
            let c1 = cur.saturating_add(1);
            if c1 < n - 1 { c1 } else { n - 1 }
        } else {
            cur.saturating_sub(1)
        };
        assert(down ==> cur < usize::MAX ==> next as int == min_int(cur + 1, n - 1));
        self.selected_msg = Some(next);
        self.visual_selection = VisualSelection::Message;
        let w: u16 = if self.chat_inner_width < 1 { 1 } else { self.chat_inner_width };
        let target = offset_for_message(self, w, next);
        let top = self.chat_scroll;
        let h: u16 = if self.chat_inner_height < 1 { 1 } else { self.chat_inner_height };
        let bottom = top.saturating_add(h);
        if target < top || target >= bottom {
            if !down {
                self.scroll_to_bottom_on_draw = false;
                self.chat_at_bottom = false;
            }
            self.chat_scroll = target;
        }
    }

    /// Types `c` at the palette's cursor.
    pub fn command_insert(&mut self, c: char)
        ensures
            input_kept(*old(self), *final(self)),
            globals_kept(*old(self), *final(self)),
            final(self).command_input@ == insert_at(old(self).command_input@,
                concat_all(grapheme_clusters(old(self).command_input@).take(min_int(old(self).command_cursor_col as int,
                    grapheme_clusters(old(self).command_input@).len() as int))).len() as int, seq![c]),
            final(self).command_cursor_col as int == min_int(old(self).command_cursor_col + 1, usize::MAX as int),
            final(self).input == old(self).input,
            final(self).input_cursor_line == old(self).input_cursor_line,
    {
        let p = grapheme_char_offset(self.command_input.as_str(), self.command_cursor_col);
        let mut buf = String::new();
        buf.push(c);
        let n = insert_chars(self.command_input.as_str(), p, buf.as_str());
        self.command_input = n;
        self.command_cursor_col = self.command_cursor_col.saturating_add(1);
    }

    /// Deletes the grapheme before the palette's cursor.
    pub fn command_backspace(&mut self)
        ensures
            input_kept(*old(self), *final(self)),
            globals_kept(*old(self), *final(self)),
            old(self).command_cursor_col == 0 ==> final(self).command_input == old(self).command_input
                && final(self).command_cursor_col == 0,
            old(self).command_cursor_col > 0 ==> final(self).command_cursor_col == old(self).command_cursor_col - 1,
            final(self).input == old(self).input,
            final(self).input_cursor_line == old(self).input_cursor_line,
    {
        if self.command_cursor_col > 0 {
            let a = grapheme_char_offset(self.command_input.as_str(), self.command_cursor_col - 1);
            let b = grapheme_char_offset(self.command_input.as_str(), self.command_cursor_col);
            let v = to_chars(self.command_input.as_str());
            let mut out = string_of_range(&v, 0, a);
            if b <= v.len() {
                let tail = string_of_range(&v, b, v.len());
                push_str(&mut out, tail.as_str());
            }
            self.command_input = out;
            self.command_cursor_col = self.command_cursor_col - 1;
        }
    }
}

/// The sidebar selection after a move down or up.
pub open spec fn self_sidebar_moved(a: ClientState, b: ClientState, down: bool) -> bool {
    &&& (a.show_sidebar && a.chats@.len() > 0) ==> b.sidebar_idx as int == (if down {
            min_int(min_int(a.sidebar_idx + 1, usize::MAX as int), a.chats@.len() - 1)
        } else {
            sat_sub(a.sidebar_idx as int, 1)
        })
    &&& !(a.show_sidebar && a.chats@.len() > 0) ==> b.sidebar_idx == a.sidebar_idx
    &&& b.chats == a.chats
    &&& b.input == a.input
    &&& b.input_cursor_line == a.input_cursor_line
    &&& b.messages == a.messages
}

/// Character offset of grapheme `col` of `s` (its length when there are
/// fewer).
fn grapheme_char_offset(s: &str, col: usize) -> (r: usize)
    ensures
        r == concat_all(grapheme_clusters(s@).take(min_int(col as int, grapheme_clusters(s@).len() as int))).len(),
        r <= s@.len(),
{
    let g = graphemes(s);
    let ghost gv = strings_view(g@);
    assert(gv =~= grapheme_clusters(s@));
    let total = to_chars(s).len();
    let m = if col < g.len() { col } else { g.len() };
    let mut k: usize = 0;
    let mut q: usize = 0;
    proof {
        assert(gv.take(gv.len() as int) =~= gv);
        lemma_concat_prefix_len(gv, m as int, gv.len() as int);
    }
    while k < m
        invariant
            k <= m <= g@.len(),
            gv == strings_view(g@),
            q == concat_all(gv.take(k as int)).len(),
            concat_all(gv.take(m as int)).len() <= s@.len(),
            total == s@.len(),
        decreases m - k,
    {
        proof {
            assert(gv.take(k + 1).drop_last() =~= gv.take(k as int));
            lemma_concat_prefix_len(gv, k + 1, m as int);
        }
        q = q + g[k].as_str().unicode_len();
        k = k + 1;
    }
    q
}

/// A key of the input editor in insert mode.
fn is_send_key(k: KeyInput) -> (r: bool)
    ensures
        r == ctrl_char(k, 's'),
{
    k.control && k.code == KeyCode::Char('s')
}

impl ClientState {
    /// Handles a key press: dialogs first, then the global keys, the
    /// sidebar search, and the keys of the current mode. What needs outside
    /// work is handed back as an action.
    pub fn handle_key(&mut self, key: KeyInput) -> (r: KeyAction)
        requires
            input_cursor_ok(*old(self)),
        ensures
            input_cursor_ok(*final(self)),
            old(self).popup is Help ==> ({
                &&& (key.code == KeyCode::Esc || key.code == KeyCode::Char('?') || key.code == KeyCode::Enter) ==> final(self).popup is Hidden
                &&& r is Done
                &&& final(self).messages == old(self).messages
            }),
            old(self).popup matches Popup::ConfirmDelete { id, .. } ==> ({
                &&& key.code == KeyCode::Char('y') ==> (r matches KeyAction::DeleteChat(d) && d@ == id@)
                &&& (key.code == KeyCode::Char('n') || key.code == KeyCode::Esc) ==> final(self).popup is Hidden && r is Done
                &&& final(self).messages == old(self).messages
            }),
            old(self).popup is Hidden && ctrl_char(key, 'c') ==> final(self).quit,
            old(self).popup is Hidden && key.code == KeyCode::Char('q') && old(self).mode == Mode::Normal ==> final(self).quit,
            old(self).popup is Hidden && ctrl_char(key, 'x') ==> (match current_stream(*old(self)) {
                Some(st) => r matches KeyAction::CancelStream(rid, cid) && rid@ == st.request_id@ && cid@ == st.chat_id@,
                None => r is Done,
            }),
            old(self).popup is Hidden && (ctrl_char(key, 'w') || ctrl_char(key, 'p') || ctrl_char(key, 'y')) ==>
                r is Done && toggle_effect(*old(self), *final(self), key),
            old(self).popup is Hidden && ctrl_char(key, 't') ==> final(self).show_sidebar == !old(self).show_sidebar
                && final(self).focus == (if old(self).show_sidebar { Focus::Chat } else { Focus::Sidebar }),
            old(self).popup is Hidden && !global_key(*old(self), key) && old(self).sidebar_search_active ==>
                search_key_effect(*old(self), *final(self), key, r),
            old(self).popup is Hidden && !global_key(*old(self), key) && !old(self).sidebar_search_active
                && key.code == KeyCode::Esc && old(self).focus == Focus::Sidebar && old(self).sidebar_search_query@.len() > 0 ==>
                final(self).sidebar_search_query@.len() == 0 && r is RefreshSidebar,
            mode_key(*old(self), key) ==> match old(self).mode {
                Mode::Insert => insert_key_effect(*old(self), *final(self), key, r),
                Mode::Command => command_key_effect(*old(self), *final(self), key, r),
                Mode::Normal => normal_key_effect(*old(self), *final(self), key, r),
                Mode::Visual => visual_key_effect(*old(self), *final(self), key, r),
            },
    {
        match &self.popup {
            Popup::ConfirmDelete { id, .. } => {
                match key.code {
                    KeyCode::Char('y') => {
                        let d = copy_string(id);
                        self.popup = Popup::Hidden;
                        return KeyAction::DeleteChat(d);
                    },
                    KeyCode::Char('n') | KeyCode::Esc => {
                        self.popup = Popup::Hidden;
                        return KeyAction::Done;
                    },
                    _ => { return KeyAction::Done; },
                }
            },
            Popup::Help => {
                match key.code {
                    KeyCode::Esc | KeyCode::Char('?') | KeyCode::Enter => {
                        self.popup = Popup::Hidden;
                    },
                    _ => {},
                }
                return KeyAction::Done;
            },
            Popup::Hidden => {},
        }
        if key.code == KeyCode::Char('c') && key.control {
            self.quit = true;
            return KeyAction::Done;
        }
        if key.code == KeyCode::Char('q') && self.mode == Mode::Normal {
            self.quit = true;
            return KeyAction::Done;
        }
        if key.control && key.code == KeyCode::Char('x') {
            return match self.cancel_current_stream() {
                Some((rid, cid)) => KeyAction::CancelStream(rid, cid),
                None => KeyAction::Done,
            };
        }
        if key.control && key.code == KeyCode::Char('t') {
            self.show_sidebar = !self.show_sidebar;
            if self.show_sidebar {
                self.focus = Focus::Sidebar;
                self.mode = Mode::Normal;
            } else {
                self.focus = Focus::Chat;
            }
            return KeyAction::Done;
        }
        if key.control && (key.code == KeyCode::Char('w') || key.code == KeyCode::Char('p') || key.code == KeyCode::Char('y')) {
            return self.toggle_key(key);
        }
        if self.sidebar_search_active {
            return self.sidebar_search_key(key);
        }
        if key.code == KeyCode::Esc && self.focus == Focus::Sidebar && !self.sidebar_search_query.as_str().is_empty() {
            let keep = self.update_sidebar_search(String::new());
            return KeyAction::RefreshSidebar(keep);
        }
        match self.mode {
            Mode::Insert => self.insert_mode_key(key),
            Mode::Command => self.command_mode_key(key),
            Mode::Normal => self.normal_mode_key(key),
            Mode::Visual => self.visual_mode_key(key),
        }
    }

    /// Ctrl+W, Ctrl+P or Ctrl+Y: switches web search, the statistics panel
    /// or the thinking sections on or off, and nothing else.
    fn toggle_key(&mut self, key: KeyInput) -> (r: KeyAction)
        requires
            ctrl_char(key, 'w') || ctrl_char(key, 'p') || ctrl_char(key, 'y'),
        ensures
            r is Done,
            toggle_effect(*old(self), *final(self), key),
    {
        if key.code == KeyCode::Char('w') {
            self.web_search = !self.web_search;
        } else if key.code == KeyCode::Char('p') {
            self.show_stats_panel = !self.show_stats_panel;
        } else {
            self.show_thinking = !self.show_thinking;
        }
        KeyAction::Done
    }

    /// A key while the sidebar search is typed.
    fn sidebar_search_key(&mut self, key: KeyInput) -> (r: KeyAction)
        requires
            input_cursor_ok(*old(self)),
        ensures
            input_cursor_ok(*final(self)),
            search_key_effect(*old(self), *final(self), key, r),
            final(self).quit == old(self).quit,
            final(self).web_search == old(self).web_search,
            final(self).show_thinking == old(self).show_thinking,
            final(self).show_stats_panel == old(self).show_stats_panel,
            final(self).show_sidebar == old(self).show_sidebar,
            final(self).focus == old(self).focus,
    {
        match key.code {
            KeyCode::Esc => {
                self.sidebar_search_active = false;
                let keep = self.update_sidebar_search(String::new());
                KeyAction::RefreshSidebar(keep)
            },
            KeyCode::Enter => {
                self.sidebar_search_active = false;
                KeyAction::Done
            },
            KeyCode::Backspace => {
                let v = to_chars(self.sidebar_search_query.as_str());
                let q = if v.len() > 0 { string_of_range(&v, 0, v.len() - 1) } else { String::new() };
                let keep = self.update_sidebar_search(q);
                KeyAction::RefreshSidebar(keep)
            },
            KeyCode::Char(c) => {
                if key.control || key.alt || key.super_key {
                    return KeyAction::Done;
                }
                let mut q = copy_string(&self.sidebar_search_query);
                q.push(c);
                let keep = self.update_sidebar_search(q);
                KeyAction::RefreshSidebar(keep)
            },
            _ => KeyAction::Done,
        }
    }

    /// A key in insert mode: editing the input, sending it, scrolling.
    fn insert_mode_key(&mut self, key: KeyInput) -> (r: KeyAction)
        requires
            input_cursor_ok(*old(self)),
        ensures
            input_cursor_ok(*final(self)),
            insert_key_effect(*old(self), *final(self), key, r),
            final(self).quit == old(self).quit,
            final(self).web_search == old(self).web_search,
            final(self).show_thinking == old(self).show_thinking,
            final(self).show_stats_panel == old(self).show_stats_panel,
            final(self).show_sidebar == old(self).show_sidebar,
            final(self).focus == old(self).focus,
    {
        match key.code {
            KeyCode::Esc => {
                self.mode = Mode::Normal;
                KeyAction::Done
            },
            KeyCode::Char('s') if key.control => {
                let t = crate::text::trim(self.input.as_str());
                if t.as_str().is_empty() && self.pending_attachments.len() == 0 {
                    return KeyAction::Done;
                }
                if self.cancel_current_stream().is_some() {
                    return KeyAction::Done;
                }
                KeyAction::Send
            },
            KeyCode::Enter => {
                self.insert_newline_at_cursor();
                KeyAction::Done
            },
            KeyCode::Backspace => {
                self.backspace_kept();
                KeyAction::Done
            },
            KeyCode::Left => {
                self.cursor_left();
                KeyAction::Done
            },
            KeyCode::Right => {
                self.cursor_right();
                KeyAction::Done
            },
            KeyCode::Up => {
                self.cursor_up();
                KeyAction::Done
            },
            KeyCode::Down => {
                self.cursor_down();
                KeyAction::Done
            },
            KeyCode::Char('h') if key.control => {
                self.backspace_kept();
                KeyAction::Done
            },
            KeyCode::Char(c) => {
                if key.control || key.alt || key.super_key {
                    return KeyAction::Done;
                }
                if c == '\t' {
                    proof { reveal_strlit("    "); assert("    "@ =~= tab_text()); }
                    self.insert_at_cursor("    ", 4);
                } else {
                    let mut buf = String::new();
                    buf.push(c);
                    self.insert_at_cursor(buf.as_str(), 1);
                }
                KeyAction::Done
            },
            KeyCode::Tab => {
                proof { reveal_strlit("    "); assert("    "@ =~= tab_text()); }
                self.insert_at_cursor("    ", 4);
                KeyAction::Done
            },
            KeyCode::PageUp => {
                self.page_up();
                KeyAction::Done
            },
            KeyCode::PageDown => {
                self.page_down();
                KeyAction::Done
            },
            _ => KeyAction::Done,
        }
    }

    /// Backspace in the input, keeping the cursor on a line.
    fn backspace_kept(&mut self)
        requires
            input_cursor_ok(*old(self)),
        ensures
            globals_kept(*old(self), *final(self)),
            input_cursor_ok(*final(self)),
            final(self).quit == old(self).quit,
            final(self).mode == old(self).mode,
            final(self).focus == old(self).focus,
    {
        self.backspace_input();
    }
}


impl ClientState {
    /// A key in command mode: editing the palette line and running it.
    fn command_mode_key(&mut self, key: KeyInput) -> (r: KeyAction)
        requires
            input_cursor_ok(*old(self)),
        ensures
            input_cursor_ok(*final(self)),
            final(self).quit == old(self).quit,
            final(self).show_thinking == old(self).show_thinking,
            final(self).show_stats_panel == old(self).show_stats_panel,
            final(self).show_sidebar == old(self).show_sidebar,
            final(self).focus == old(self).focus,
            command_key_effect(*old(self), *final(self), key, r),
    {
        match key.code {
            KeyCode::Esc => {
                self.command_input = String::new();
                self.command_cursor_col = 0;
                self.mode = Mode::Normal;
                self.status_message = Some(string_from("Command cancelled"));
                KeyAction::Done
            },
            KeyCode::Enter => {
                let action = self.execute_command_palette();
                self.command_input = String::new();
                self.command_cursor_col = 0;
                self.mode = Mode::Normal;
                KeyAction::Palette(action)
            },
            KeyCode::Backspace => {
                self.command_backspace();
                KeyAction::Done
            },
            KeyCode::Char('h') if key.control => {
                self.command_backspace();
                KeyAction::Done
            },
            KeyCode::Left => {
                self.command_cursor_col = self.command_cursor_col.saturating_sub(1);
                KeyAction::Done
            },
            KeyCode::Right => {
                let len = graphemes(self.command_input.as_str()).len();
                let n = self.command_cursor_col.saturating_add(1);
                self.command_cursor_col = if n < len { n } else { len };
                KeyAction::Done
            },
            KeyCode::Char(c) => {
                if key.control || key.alt || key.super_key {
                    return KeyAction::Done;
                }
                self.command_insert(c);
                KeyAction::Done
            },
            _ => KeyAction::Done,
        }
    }

    /// Enters insert mode with the cursor at the end of the input (when the
    /// chat has the focus).
    fn enter_insert(&mut self)
        requires
            input_cursor_ok(*old(self)),
        ensures
            input_cursor_ok(*final(self)),
            old(self).focus == Focus::Chat ==> final(self).mode == Mode::Insert,
            old(self).focus != Focus::Chat ==> final(self).mode == old(self).mode,
            final(self).quit == old(self).quit,
            final(self).web_search == old(self).web_search,
            final(self).show_thinking == old(self).show_thinking,
            final(self).show_stats_panel == old(self).show_stats_panel,
            final(self).show_sidebar == old(self).show_sidebar,
            final(self).focus == old(self).focus,
    {
        if self.focus == Focus::Chat {
            self.mode = Mode::Insert;
            self.cursor_to_input_end();
        }
    }

    /// A key in normal mode.
    fn normal_mode_key(&mut self, key: KeyInput) -> (r: KeyAction)
        requires
            input_cursor_ok(*old(self)),
        ensures
            input_cursor_ok(*final(self)),
            final(self).quit == old(self).quit,
            final(self).web_search == old(self).web_search,
            final(self).show_thinking == old(self).show_thinking,
            final(self).show_stats_panel == old(self).show_stats_panel,
            final(self).show_sidebar == old(self).show_sidebar,
            normal_key_effect(*old(self), *final(self), key, r),
    {
        let c = key.code;
        if c == KeyCode::Char('?') || c == KeyCode::Char(':') || c == KeyCode::Char('/') || c == KeyCode::Char('r')
            || c == KeyCode::Char('h') || c == KeyCode::Char('l') || c == KeyCode::Char('v') || c == KeyCode::Char('i') {
            self.normal_view_key(key)
        } else if c == KeyCode::Char('n') || c == KeyCode::Char('d') || c == KeyCode::Char('p') || c == KeyCode::Enter {
            self.normal_chat_key(key)
        } else {
            self.normal_move_key(key)
        }
    }

    /// A normal-mode key that changes what is shown: help, the palette, the
    /// sidebar search, a redraw, the focus, visual or insert mode.
    fn normal_view_key(&mut self, key: KeyInput) -> (r: KeyAction)
        requires
            input_cursor_ok(*old(self)),
            key.code == KeyCode::Char('?') || key.code == KeyCode::Char(':') || key.code == KeyCode::Char('/')
                || key.code == KeyCode::Char('r') || key.code == KeyCode::Char('h') || key.code == KeyCode::Char('l')
                || key.code == KeyCode::Char('v') || key.code == KeyCode::Char('i'),
        ensures
            input_cursor_ok(*final(self)),
            final(self).quit == old(self).quit,
            final(self).web_search == old(self).web_search,
            final(self).show_thinking == old(self).show_thinking,
            final(self).show_stats_panel == old(self).show_stats_panel,
            final(self).show_sidebar == old(self).show_sidebar,
            normal_key_effect(*old(self), *final(self), key, r),
    {
        match key.code {
            KeyCode::Char('?') => {
                self.popup = Popup::Help;
                KeyAction::Done
            },
            KeyCode::Char(':') => {
                self.command_input = String::new();
                self.command_cursor_col = 0;
                self.mode = Mode::Command;
                self.status_message = Some(string_from("Command mode"));
                KeyAction::Done
            },
            KeyCode::Char('/') => {
                if self.focus == Focus::Sidebar {
                    self.sidebar_search_active = true;
                }
                KeyAction::Done
            },
            KeyCode::Char('r') => KeyAction::RefreshScreen,
            KeyCode::Char('h') => {
                if self.show_sidebar {
                    self.focus = Focus::Sidebar;
                }
                KeyAction::Done
            },
            KeyCode::Char('l') => {
                self.focus = Focus::Chat;
                KeyAction::Done
            },
            KeyCode::Char('v') => {
                if self.focus == Focus::Chat {
                    self.mode = Mode::Visual;
                    self.visual_selection = VisualSelection::Message;
                    if self.selected_msg.is_none() {
                        self.selected_msg = Some(self.messages.len().saturating_sub(1));
                    }
                }
                KeyAction::Done
            },
            KeyCode::Char('i') => {
                self.enter_insert();
                KeyAction::Done
            },
            _ => KeyAction::Done,
        }
    }

    /// A normal-mode key that acts on a chat: new, delete, paste, open.
    fn normal_chat_key(&mut self, key: KeyInput) -> (r: KeyAction)
        requires
            input_cursor_ok(*old(self)),
            key.code == KeyCode::Char('n') || key.code == KeyCode::Char('d') || key.code == KeyCode::Char('p')
                || key.code == KeyCode::Enter,
        ensures
            input_cursor_ok(*final(self)),
            final(self).quit == old(self).quit,
            final(self).web_search == old(self).web_search,
            final(self).show_thinking == old(self).show_thinking,
            final(self).show_stats_panel == old(self).show_stats_panel,
            final(self).show_sidebar == old(self).show_sidebar,
            normal_key_effect(*old(self), *final(self), key, r),
    {
        match key.code {
            KeyCode::Char('n') => KeyAction::NewChat,
            KeyCode::Char('d') => {
                if self.focus == Focus::Sidebar && self.chats.len() > 0 && self.sidebar_idx < self.chats.len() {
                    let id = copy_string(&self.chats[self.sidebar_idx].id);
                    let title = copy_string(&self.chats[self.sidebar_idx].title);
                    self.popup = Popup::ConfirmDelete { id, title };
                }
                KeyAction::Done
            },
            KeyCode::Char('p') => {
                if self.focus == Focus::Chat { KeyAction::Paste } else { KeyAction::Done }
            },
            KeyCode::Enter => {
                if self.focus == Focus::Sidebar && self.show_sidebar && self.chats.len() > 0 && self.sidebar_idx < self.chats.len() {
                    KeyAction::OpenChat { id: copy_string(&self.chats[self.sidebar_idx].id), visual: false }
                } else {
                    KeyAction::Done
                }
            },
            _ => KeyAction::Done,
        }
    }

    /// Any other normal-mode key: moving through the sidebar or the chat.
    fn normal_move_key(&mut self, key: KeyInput) -> (r: KeyAction)
        requires
            input_cursor_ok(*old(self)),
            !(key.code == KeyCode::Char('?') || key.code == KeyCode::Char(':') || key.code == KeyCode::Char('/')
                || key.code == KeyCode::Char('r') || key.code == KeyCode::Char('h') || key.code == KeyCode::Char('l')
                || key.code == KeyCode::Char('v') || key.code == KeyCode::Char('i') || key.code == KeyCode::Char('n')
                || key.code == KeyCode::Char('d') || key.code == KeyCode::Char('p') || key.code == KeyCode::Enter),
        ensures
            input_cursor_ok(*final(self)),
            final(self).quit == old(self).quit,
            final(self).web_search == old(self).web_search,
            final(self).show_thinking == old(self).show_thinking,
            final(self).show_stats_panel == old(self).show_stats_panel,
            final(self).show_sidebar == old(self).show_sidebar,
            normal_key_effect(*old(self), *final(self), key, r),
    {
        match key.code {
            KeyCode::Char('j') | KeyCode::Down => {
                match self.focus {
                    Focus::Sidebar => self.sidebar_down(),
                    Focus::Chat => self.scroll_down(),
                }
                KeyAction::Done
            },
            KeyCode::Char('k') | KeyCode::Up => {
                match self.focus {
                    Focus::Sidebar => self.sidebar_up(),
                    Focus::Chat => self.scroll_up(),
                }
                KeyAction::Done
            },
            KeyCode::Char('g') => {
                if self.focus == Focus::Chat {
                    if key.shift {
                        self.scroll_to_bottom_on_draw = true;
                    } else {
                        self.scroll_to_bottom_on_draw = false;
                        self.chat_at_bottom = false;
                        self.chat_scroll = 0;
                    }
                }
                KeyAction::Done
            },
            KeyCode::Char('G') => {
                if self.focus == Focus::Chat {
                    self.scroll_to_bottom_on_draw = true;
                }
                KeyAction::Done
            },
            _ => KeyAction::Done,
        }
    }

    /// A key in visual mode.
    fn visual_mode_key(&mut self, key: KeyInput) -> (r: KeyAction)
        requires
            input_cursor_ok(*old(self)),
        ensures
            input_cursor_ok(*final(self)),
            final(self).quit == old(self).quit,
            final(self).web_search == old(self).web_search,
            final(self).show_thinking == old(self).show_thinking,
            final(self).show_stats_panel == old(self).show_stats_panel,
            final(self).show_sidebar == old(self).show_sidebar,
            visual_key_effect(*old(self), *final(self), key, r),
    {
        match key.code {
            KeyCode::Esc | KeyCode::Char('v') => {
                self.mode = Mode::Normal;
                self.visual_selection = VisualSelection::Message;
                KeyAction::Done
            },
            KeyCode::Char('h') | KeyCode::Char('l') | KeyCode::Char('i') => self.visual_focus_key(key),
            KeyCode::Char('y') => KeyAction::Yank,
            KeyCode::Char('c') | KeyCode::Char('m') => self.visual_select_key(key),
            _ => self.visual_nav_key(key),
        }
    }
}

impl ClientState {
    /// `h`, `l` or `i` in visual mode: the focus to the sidebar or the chat,
    /// or insert mode.
    fn visual_focus_key(&mut self, key: KeyInput) -> (r: KeyAction)
        requires
            input_cursor_ok(*old(self)),
            key.code == KeyCode::Char('h') || key.code == KeyCode::Char('l') || key.code == KeyCode::Char('i'),
        ensures
            input_cursor_ok(*final(self)),
            final(self).quit == old(self).quit,
            final(self).web_search == old(self).web_search,
            final(self).show_thinking == old(self).show_thinking,
            final(self).show_stats_panel == old(self).show_stats_panel,
            final(self).show_sidebar == old(self).show_sidebar,
            visual_key_effect(*old(self), *final(self), key, r),
    {
        if key.code == KeyCode::Char('h') {
            if self.show_sidebar {
                self.focus = Focus::Sidebar;
            }
        } else if key.code == KeyCode::Char('l') {
            self.focus = Focus::Chat;
        } else {
            self.enter_insert();
        }
        KeyAction::Done
    }

    /// `c` or `m` in visual mode: the next code block of the selected
    /// message, or the whole message.
    fn visual_select_key(&mut self, key: KeyInput) -> (r: KeyAction)
        requires
            input_cursor_ok(*old(self)),
            key.code == KeyCode::Char('c') || key.code == KeyCode::Char('m'),
        ensures
            input_cursor_ok(*final(self)),
            final(self).quit == old(self).quit,
            final(self).web_search == old(self).web_search,
            final(self).show_thinking == old(self).show_thinking,
            final(self).show_stats_panel == old(self).show_stats_panel,
            final(self).show_sidebar == old(self).show_sidebar,
            visual_key_effect(*old(self), *final(self), key, r),
    {
        if key.code == KeyCode::Char('c') {
            self.select_next_code_block();
        } else {
            self.visual_selection = VisualSelection::Message;
            self.status_message = Some(string_from("Selected whole message"));
        }
        KeyAction::Done
    }

    /// A moving key in visual mode: through the sidebar, the messages, or
    /// opening what is selected.
    #[verifier::rlimit(60)]
    fn visual_nav_key(&mut self, key: KeyInput) -> (r: KeyAction)
        requires
            input_cursor_ok(*old(self)),
            !(key.code == KeyCode::Esc || key.code == KeyCode::Char('v') || key.code == KeyCode::Char('h')
                || key.code == KeyCode::Char('l') || key.code == KeyCode::Char('i') || key.code == KeyCode::Char('y')
                || key.code == KeyCode::Char('m')),
        ensures
            visual_key_effect(*old(self), *final(self), key, r),
            input_cursor_ok(*final(self)),
            final(self).quit == old(self).quit,
            final(self).web_search == old(self).web_search,
            final(self).show_thinking == old(self).show_thinking,
            final(self).show_stats_panel == old(self).show_stats_panel,
            final(self).show_sidebar == old(self).show_sidebar,
    {
        match key.code {
            KeyCode::Char('j') => {
                match self.focus {
                    Focus::Sidebar => self.sidebar_down(),
                    Focus::Chat => self.visual_move(true),
                }
                KeyAction::Done
            },
            KeyCode::Char('k') => {
                match self.focus {
                    Focus::Sidebar => self.sidebar_up(),
                    Focus::Chat => self.visual_move(false),
                }
                KeyAction::Done
            },
            KeyCode::Enter => {
                match self.focus {
                    Focus::Sidebar => {
                        if self.show_sidebar && self.chats.len() > 0 && self.sidebar_idx < self.chats.len() {
                            KeyAction::OpenChat { id: copy_string(&self.chats[self.sidebar_idx].id), visual: true }
                        } else {
                            KeyAction::Done
                        }
                    },
                    Focus::Chat => {
                        match self.selected_msg {
                            Some(i) => if i < self.messages.len() {
                                KeyAction::Preview(message_to_preview_markdown(&self.messages[i]))
                            } else {
                                KeyAction::Done
                            },
                            None => KeyAction::Done,
                        }
                    },
                }
            },
            KeyCode::Up => {
                match self.focus {
                    Focus::Sidebar => self.sidebar_up(),
                    Focus::Chat => self.scroll_up(),
                }
                KeyAction::Done
            },
            KeyCode::Down => {
                match self.focus {
                    Focus::Sidebar => self.sidebar_down(),
                    Focus::Chat => self.scroll_down(),
                }
                KeyAction::Done
            },
            _ => KeyAction::Done,
        }
    }
}
} // verus!
