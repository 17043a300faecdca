use vstd::prelude::*;
use crate::chat::{ChatMeta, Message, Role, Mode, Focus, opt_view, strings_view};
use crate::client::{ClientState, split_lines};
use crate::md_render::split_lf;
use crate::keys::{lf_count, lemma_split_lf_count};
use crate::text::{string_from, copy_string, push_str, str_eq, graphemes, grapheme_clusters, str_width, text_width, concat_all};
use crate::ui::{line_view, line_view_spec, display_width, display_width_spec, display_grapheme, display_grapheme_spec};

verus! {

/// Rows of the input box: one for the palette, else one per line of the
/// input, at most five.
pub open spec fn input_height_spec(mode: Mode, input: Seq<char>) -> u16 {
    if mode == Mode::Command {
        1
    } else if lf_count(input) + 1 < 5 {
        (lf_count(input) + 1) as u16
    } else {
        5
    }
}

/// Rows of the input box.
pub fn input_height(mode: Mode, input: &str) -> (r: u16)
    ensures
        r == input_height_spec(mode, input@),
{
    if mode == Mode::Command {
        return 1;
    }
    let lines = split_lines(input);
    proof {
        lemma_split_lf_count(input@);
    }
    let n = lines.len();
    if n < 5 { n as u16 } else { 5 }
}

/// The title over the chat: the listed title of the open chat, else the
/// first line of its first user message, else "Untitled chat".
pub open spec fn chat_title_spec(chats: Seq<ChatMeta>, current: Option<Seq<char>>, messages: Seq<Message>) -> Seq<char> {
    match (match current { Some(id) => crate::client::chat_position(chats, id, 0), None => None }) {
        Some(k) => chats[k].title@,
        None => match crate::chat::first_user_index(messages, 0) {
            Some(k) => first_line_or_untitled(messages[k].content@),
            None => "Untitled chat"@,
        },
    }
}

/// The first line of a text, as `str::lines` gives it, or "Untitled chat"
/// for a text without lines.
pub open spec fn first_line_or_untitled(t: Seq<char>) -> Seq<char> {
    let ls = crate::file_tools::str_lines_spec(t);
    if ls.len() > 0 { ls[0] } else { "Untitled chat"@ }
}

/// The title over the chat.
pub fn chat_title(chats: &Vec<ChatMeta>, current: &Option<String>, messages: &Vec<Message>) -> (r: String)
    ensures
        r@ == chat_title_spec(chats@, opt_view(*current), messages@),
{
    let listed = match current {
        Some(id) => crate::client::find_chat(chats, id.as_str()),
        None => None,
    };
    match listed {
        Some(k) => {
            proof { crate::client::lemma_chat_position(chats@, opt_view(*current)->0, 0); }
            copy_string(&chats[k].title)
        },
        None => {
            let mut i: usize = 0;
            while i < messages.len()
                invariant
                    i <= messages@.len(),
                    crate::chat::first_user_index(messages@, 0) == crate::chat::first_user_index(messages@, i as int),
                    (match opt_view(*current) { Some(id) => crate::client::chat_position(chats@, id, 0), None => None }) is None,
                decreases messages.len() - i,
            {
                if messages[i].role == Role::User {
                    let ls = crate::file_tools::str_lines(messages[i].content.as_str());
                    if ls.len() > 0 {
                        return copy_string(&ls[0]);
                    } else {
                        return string_from("Untitled chat");
                    }
                }
                i = i + 1;
            }
            string_from("Untitled chat")
        },
    }
}

/// Keeps the chat's scroll within the text: at the bottom when asked to be,
/// else no further than the last screen; notes whether it is at the bottom.
pub open spec fn settled_scroll(scroll: u16, to_bottom: bool, rows: u16, height: u16) -> u16 {
    let max = if rows > height { (rows - height) as u16 } else { 0u16 };
    if to_bottom { max } else if scroll < max { scroll } else { max }
}

impl ClientState {
    /// Settles the scroll of the chat once its text takes `rows` rows.
    pub fn settle_chat_scroll(&mut self, rows: u16)
        ensures
            final(self).chat_scroll == settled_scroll(old(self).chat_scroll, old(self).scroll_to_bottom_on_draw, rows, old(self).chat_inner_height),
            !final(self).scroll_to_bottom_on_draw,
            final(self).chat_at_bottom == (final(self).chat_scroll >= (if rows > old(self).chat_inner_height { (rows - old(self).chat_inner_height) as u16 } else { 0u16 })),
            final(self).messages == old(self).messages,
            final(self).input == old(self).input,
            final(self).chat_inner_height == old(self).chat_inner_height,
    {
        let max = if rows > self.chat_inner_height { rows - self.chat_inner_height } else { 0 };
        if self.scroll_to_bottom_on_draw {
            self.chat_scroll = max;
            self.scroll_to_bottom_on_draw = false;
        } else if self.chat_scroll > max {
            self.chat_scroll = max;
        }
        self.chat_at_bottom = self.chat_scroll >= max;
    }
}

/// The graphemes of `g[k..]` that fit in `w` columns after `acc`: each is
/// added while the width of what is shown, plus its own, stays within `w`.
pub open spec fn fit_from(g: Seq<Seq<char>>, w: int, k: int, acc: Seq<char>) -> Seq<char>
    decreases g.len() - k,
{
    if k < 0 || k >= g.len() {
        acc
    } else if text_width(acc) + display_width_spec(g[k]) > w {
        acc
    } else {
        fit_from(g, w, k + 1, acc + display_grapheme_spec(g[k]))
    }
}

/// The start of a line that fits in `w` columns.
pub fn fit_line(s: &str, w: usize) -> (r: String)
    ensures
        r@ == fit_from(grapheme_clusters(s@), w as int, 0, Seq::<char>::empty()),
{
    let gs = graphemes(s);
    let ghost g = grapheme_clusters(s@);
    let mut out = String::new();
    let mut k: usize = 0;
    while k < gs.len()
        invariant
            k <= gs@.len(),
            g == grapheme_clusters(s@),
            gs@.len() == g.len(),
            forall|i: int| 0 <= i < gs@.len() ==> (#[trigger] gs@[i])@ == g[i],
            fit_from(g, w as int, 0, Seq::<char>::empty()) == fit_from(g, w as int, k as int, out@),
        decreases gs.len() - k,
    {
        let gw = display_width(gs[k].as_str());
        let cur = str_width(out.as_str());
        if cur as u128 + gw as u128 > w as u128 {
            proof {
                assert(gs@[k as int]@ == g[k as int]);
                assert(text_width(out@) + display_width_spec(g[k as int]) > w as int);
                assert(fit_from(g, w as int, k as int, out@) == out@);
                assert(fit_from(g, w as int, 0, Seq::<char>::empty()) == out@);
            }
            return out;
        }
        push_str(&mut out, display_grapheme(gs[k].as_str()));
        k = k + 1;
    }
    out
}

/// The lines of the input box: the palette's line, or the input's lines.
pub open spec fn box_lines(mode: Mode, input: Seq<char>, command: Seq<char>) -> Seq<Seq<char>> {
    if mode == Mode::Command { seq![":"@ + command] } else { split_lf(input) }
}

/// The line that holds the cursor.
pub open spec fn active_line(mode: Mode, total: int, cursor_line: int) -> int {
    if mode == Mode::Command { 0 } else if cursor_line >= total { if total > 0 { total - 1 } else { 0 } } else { cursor_line }
}

/// The first line shown, kept so that the cursor's line shows.
pub open spec fn top_line(top: int, total: int, view_h: int, active: int) -> int {
    let headroom = if view_h > 1 { view_h - 1 } else { 0 };
    let max_allowed = if total > view_h { total - view_h } else { 0 };
    let min_top = if active > headroom { active - headroom } else { 0 };
    let max_top = if active < max_allowed { active } else { max_allowed };
    let t1 = if top < min_top { min_top } else { top };
    let t2 = if t1 > max_top { max_top } else { t1 };
    if t2 > max_allowed { max_allowed } else { t2 }
}

/// The line `li` of the box, or nothing past the last.
pub open spec fn box_line(ls: Seq<Seq<char>>, li: int) -> Seq<char> {
    if 0 <= li < ls.len() { ls[li] } else { Seq::empty() }
}

/// The cursor's grapheme in its line: for the palette one past the typed
/// column, else the input's column, each at most the line's length.
pub open spec fn active_col(mode: Mode, line: Seq<char>, input_col: int, command_col: int) -> int {
    let n = grapheme_clusters(line).len() as int;
    if mode == Mode::Command {
        if command_col + 1 < n { command_col + 1 } else { n }
    } else {
        if input_col > n { n } else { input_col }
    }
}

impl ClientState {
    /// The lines shown in the input box, `view_h` rows of `inner_w`
    /// columns, and the cursor's column among them. The cursor's line and
    /// column are kept within the input, and the first line shown is moved
    /// so that the cursor's line shows.
    #[verifier::rlimit(80)]
    pub fn input_viewport(&mut self, view_h: usize, inner_w: usize) -> (r: (Vec<String>, usize))
        ensures
            ({
                let ls = box_lines(old(self).mode, old(self).input@, old(self).command_input@);
                let act = active_line(old(self).mode, ls.len() as int, old(self).input_cursor_line as int);
                let col = active_col(old(self).mode, box_line(ls, act), old(self).input_cursor_col as int,
                    old(self).command_cursor_col as int);
                let top = top_line(old(self).input_top_line as int, ls.len() as int, view_h as int, act);
                &&& final(self).input_cursor_line == (if old(self).mode == Mode::Command { old(self).input_cursor_line as int } else { act })
                &&& final(self).input_cursor_col == (if old(self).mode == Mode::Command { old(self).input_cursor_col as int } else { col })
                &&& final(self).input_top_line == top
                &&& r.0@.len() == view_h
                &&& forall|i: int| 0 <= i < view_h ==> (#[trigger] r.0@[i])@ == (if top + i == act {
                        line_view_spec(box_line(ls, act), col, inner_w as int).0
                    } else {
                        fit_from(grapheme_clusters(box_line(ls, top + i)), inner_w as int, 0, Seq::<char>::empty())
                    })
                &&& r.1 == (if top <= act < top + view_h { line_view_spec(box_line(ls, act), col, inner_w as int).1 } else { 0 })
            }),
            final(self).input == old(self).input,
            final(self).command_input == old(self).command_input,
            final(self).mode == old(self).mode,
            final(self).messages == old(self).messages,
            final(self).command_cursor_col == old(self).command_cursor_col,
            old(self).mode != Mode::Command ==> final(self).input_cursor_line < split_lf(final(self).input@).len(),
            final(self).input_cursor_line == old(self).input_cursor_line
                || final(self).input_cursor_line < split_lf(final(self).input@).len(),
    {
        let lines = box_lines_exec(self.mode, self.input.as_str(), self.command_input.as_str());
        let ghost ls = strings_view(lines@);
        proof {
            crate::md_render::lemma_split_lf_len(self.input@);
        }
        let total = lines.len();
        let act: usize = if self.mode == Mode::Command {
            0
        } else if self.input_cursor_line >= total {
            if total > 0 { total - 1 } else { 0 }
        } else {
            self.input_cursor_line
        };
        let line: &str = if act < total { lines[act].as_str() } else { "" };
        proof {
            reveal_strlit("");
            if act < total {
                assert(lines@[act as int]@ == box_line(ls, act as int));
            } else {
                assert(line@ =~= box_line(ls, act as int));
            }
        }
        let col = active_col_exec(self.mode, line, self.input_cursor_col, self.command_cursor_col);
        let top = top_line_exec(self.input_top_line, total, view_h, act);
        if self.mode != Mode::Command {
            self.input_cursor_line = act;
            self.input_cursor_col = col;
        }
        self.input_top_line = top;
        viewport_lines(&lines, top, view_h, act, col, inner_w)
    }
}

/// The rows `top..top + view_h` of the box's lines: the cursor's line
/// scrolled to show the cursor, the others cut to fit; and the cursor's
/// column.
fn viewport_lines(lines: &Vec<String>, top: usize, view_h: usize, act: usize, col: usize, inner_w: usize) -> (r: (Vec<String>, usize))
    requires
        top as int + view_h as int <= (if lines@.len() > view_h { lines@.len() as int } else { view_h as int }),
    ensures
        ({
            let ls = strings_view(lines@);
            &&& r.0@.len() == view_h
            &&& forall|i: int| 0 <= i < view_h ==> (#[trigger] r.0@[i])@ == (if top + i == act {
                    line_view_spec(box_line(ls, act as int), col as int, inner_w as int).0
                } else {
                    fit_from(grapheme_clusters(box_line(ls, top + i)), inner_w as int, 0, Seq::<char>::empty())
                })
            &&& r.1 == (if top <= act < top + view_h { line_view_spec(box_line(ls, act as int), col as int, inner_w as int).1 } else { 0 })
        }),
{
    let ghost ls = strings_view(lines@);
    let total = lines.len();
    let mut out: Vec<String> = Vec::new();
    let mut cx: usize = 0;
    let mut i: usize = 0;
    proof { reveal_strlit(""); }
    while i < view_h
        invariant
            i <= view_h,
            out@.len() == i,
            ls == strings_view(lines@),
            total == lines@.len(),
            top as int + view_h as int <= (if total > view_h { total as int } else { view_h as int }),
            ""@ == Seq::<char>::empty(),
            forall|k: int| 0 <= k < i ==> (#[trigger] out@[k])@ == (if top + k == act {
                    line_view_spec(box_line(ls, act as int), col as int, inner_w as int).0
                } else {
                    fit_from(grapheme_clusters(box_line(ls, top + k)), inner_w as int, 0, Seq::<char>::empty())
                }),
            cx == (if top <= act < top + i { line_view_spec(box_line(ls, act as int), col as int, inner_w as int).1 } else { 0 }),
        decreases view_h - i,
    {
        let li = top + i;
        let s: &str = if li < total { lines[li].as_str() } else { "" };
        proof {
            if li < total {
                assert(lines@[li as int]@ == box_line(ls, li as int));
            } else {
                assert(s@ =~= box_line(ls, li as int));
            }
        }
        if li == act {
            let (visible, x) = line_view(s, col, inner_w);
            cx = x;
            out.push(visible);
        } else {
            out.push(fit_line(s, inner_w));
        }
        i = i + 1;
    }
    (out, cx)
}

/// The lines of the input box.
fn box_lines_exec(mode: Mode, input: &str, command: &str) -> (r: Vec<String>)
    ensures
        strings_view(r@) == box_lines(mode, input@, command@),
{
    if mode == Mode::Command {
        let mut c = string_from(":");
        push_str(&mut c, command);
        let v = vec![c];
        assert(strings_view(v@) =~= seq![":"@ + command@]);
        v
    } else {
        split_lines(input)
    }
}

/// The cursor's grapheme in its line.
fn active_col_exec(mode: Mode, line: &str, input_col: usize, command_col: usize) -> (r: usize)
    ensures
        r == active_col(mode, line@, input_col as int, command_col as int),
{
    let n = graphemes(line).len();
    if mode == Mode::Command {
        if command_col < n && command_col + 1 < n { command_col + 1 } else { n }
    } else if input_col > n {
        n
    } else {
        input_col
    }
}

/// The first line shown.
fn top_line_exec(top: usize, total: usize, view_h: usize, act: usize) -> (r: usize)
    ensures
        r == top_line(top as int, total as int, view_h as int, act as int),
        r as int + view_h as int <= (if total > view_h { total as int } else { view_h as int }),
{
    let headroom = if view_h > 1 { view_h - 1 } else { 0 };
    let max_allowed = if total > view_h { total - view_h } else { 0 };
    let min_top = if act > headroom { act - headroom } else { 0 };
    let max_top = if act < max_allowed { act } else { max_allowed };
    let t1 = if top < min_top { min_top } else { top };
    let t2 = if t1 > max_top { max_top } else { t1 };
    if t2 > max_allowed { max_allowed } else { t2 }
}

} // verus!
