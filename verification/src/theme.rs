use vstd::prelude::*;
use crate::style::Color;
use crate::text::{to_chars, string_from, str_eq, lowercase_of, to_lowercase, trim, trim_spec, replace_char, replace_char_spec,
    is_ascii_text, ascii_lower, lemma_trim_bounds, lemma_trim_end_bounds, trim_start_index, trim_end_index, is_ws};

verus! {

/// Number of configurable colours of a theme.
pub const THEME_COLOR_COUNT: usize = 43;

/// The colours of the user interface.
#[derive(Clone, Copy, Debug, PartialEq, Eq, Structural)]
pub struct Theme {
    pub app_bg: Color,
    pub panel_bg: Color,
    pub panel_alt_bg: Color,
    pub input_bg: Color,
    pub sidebar_title: Color,
    pub sidebar_timestamp: Color,
    pub sidebar_item: Color,
    pub sidebar_item_bg: Color,
    pub sidebar_selected_bg: Color,
    pub title_chat: Color,
    pub title_input: Color,
    pub title_bar_bg: Color,
    pub user_prefix: Color,
    pub assistant_prefix: Color,
    pub system_prefix: Color,
    pub message_meta: Color,
    pub message_rule: Color,
    pub heading1: Color,
    pub heading2: Color,
    pub heading3: Color,
    pub heading4: Color,
    pub blockquote_bar: Color,
    pub list_bullet: Color,
    pub ordered_number: Color,
    pub inline_code: Color,
    pub inline_code_bg: Color,
    pub code_block_fg: Color,
    pub code_block_bg: Color,
    pub hr: Color,
    pub status_hint: Color,
    pub mode_insert: Color,
    pub mode_normal: Color,
    pub mode_visual: Color,
    pub mode_focus: Color,
    pub border_sidebar: Color,
    pub border_chat: Color,
    pub border_input: Color,
    pub popup_title: Color,
    pub popup_accent: Color,
    pub popup_text: Color,
    pub stats_label: Color,
    pub stats_value: Color,
    pub stats_accent: Color,
}

/// The colour option name with index `k` (the order of the fields of `Theme`).
pub open spec fn color_key_name(k: int) -> Seq<char> {
    if k == 0 { "app_bg"@ }
    else if k == 1 { "panel_bg"@ }
    else if k == 2 { "panel_alt_bg"@ }
    else if k == 3 { "input_bg"@ }
    else if k == 4 { "sidebar_title"@ }
    else if k == 5 { "sidebar_timestamp"@ }
    else if k == 6 { "sidebar_item"@ }
    else if k == 7 { "sidebar_item_bg"@ }
    else if k == 8 { "sidebar_selected_bg"@ }
    else if k == 9 { "title_chat"@ }
    else if k == 10 { "title_input"@ }
    else if k == 11 { "title_bar_bg"@ }
    else if k == 12 { "user_prefix"@ }
    else if k == 13 { "assistant_prefix"@ }
    else if k == 14 { "system_prefix"@ }
    else if k == 15 { "message_meta"@ }
    else if k == 16 { "message_rule"@ }
    else if k == 17 { "heading1"@ }
    else if k == 18 { "heading2"@ }
    else if k == 19 { "heading3"@ }
    else if k == 20 { "heading4"@ }
    else if k == 21 { "blockquote_bar"@ }
    else if k == 22 { "list_bullet"@ }
    else if k == 23 { "ordered_number"@ }
    else if k == 24 { "inline_code"@ }
    else if k == 25 { "inline_code_bg"@ }
    else if k == 26 { "code_block_fg"@ }
    else if k == 27 { "code_block_bg"@ }
    else if k == 28 { "hr"@ }
    else if k == 29 { "status_hint"@ }
    else if k == 30 { "mode_insert"@ }
    else if k == 31 { "mode_normal"@ }
    else if k == 32 { "mode_visual"@ }
    else if k == 33 { "mode_focus"@ }
    else if k == 34 { "border_sidebar"@ }
    else if k == 35 { "border_chat"@ }
    else if k == 36 { "border_input"@ }
    else if k == 37 { "popup_title"@ }
    else if k == 38 { "popup_accent"@ }
    else if k == 39 { "popup_text"@ }
    else if k == 40 { "stats_label"@ }
    else if k == 41 { "stats_value"@ }
    else { "stats_accent"@ }
}

/// The index of the colour option named `key`, if there is one.
pub open spec fn color_key_index(key: Seq<char>) -> Option<int> {
    if key == "app_bg"@ { Some(0) }
    else if key == "panel_bg"@ { Some(1) }
    else if key == "panel_alt_bg"@ { Some(2) }
    else if key == "input_bg"@ { Some(3) }
    else if key == "sidebar_title"@ { Some(4) }
    else if key == "sidebar_timestamp"@ { Some(5) }
    else if key == "sidebar_item"@ { Some(6) }
    else if key == "sidebar_item_bg"@ { Some(7) }
    else if key == "sidebar_selected_bg"@ { Some(8) }
    else if key == "title_chat"@ { Some(9) }
    else if key == "title_input"@ { Some(10) }
    else if key == "title_bar_bg"@ { Some(11) }
    else if key == "user_prefix"@ { Some(12) }
    else if key == "assistant_prefix"@ { Some(13) }
    else if key == "system_prefix"@ { Some(14) }
    else if key == "message_meta"@ { Some(15) }
    else if key == "message_rule"@ { Some(16) }
    else if key == "heading1"@ { Some(17) }
    else if key == "heading2"@ { Some(18) }
    else if key == "heading3"@ { Some(19) }
    else if key == "heading4"@ { Some(20) }
    else if key == "blockquote_bar"@ { Some(21) }
    else if key == "list_bullet"@ { Some(22) }
    else if key == "ordered_number"@ { Some(23) }
    else if key == "inline_code"@ { Some(24) }
    else if key == "inline_code_bg"@ { Some(25) }
    else if key == "code_block_fg"@ { Some(26) }
    else if key == "code_block_bg"@ { Some(27) }
    else if key == "hr"@ { Some(28) }
    else if key == "status_hint"@ { Some(29) }
    else if key == "mode_insert"@ { Some(30) }
    else if key == "mode_normal"@ { Some(31) }
    else if key == "mode_visual"@ { Some(32) }
    else if key == "mode_focus"@ { Some(33) }
    else if key == "border_sidebar"@ { Some(34) }
    else if key == "border_chat"@ { Some(35) }
    else if key == "border_input"@ { Some(36) }
    else if key == "popup_title"@ { Some(37) }
    else if key == "popup_accent"@ { Some(38) }
    else if key == "popup_text"@ { Some(39) }
    else if key == "stats_label"@ { Some(40) }
    else if key == "stats_value"@ { Some(41) }
    else if key == "stats_accent"@ { Some(42) }
    else { None }
}

/// The colour of option `k` in theme `t`.
pub open spec fn theme_color(t: Theme, k: int) -> Color {
    if k == 0 { t.app_bg }
    else if k == 1 { t.panel_bg }
    else if k == 2 { t.panel_alt_bg }
    else if k == 3 { t.input_bg }
    else if k == 4 { t.sidebar_title }
    else if k == 5 { t.sidebar_timestamp }
    else if k == 6 { t.sidebar_item }
    else if k == 7 { t.sidebar_item_bg }
    else if k == 8 { t.sidebar_selected_bg }
    else if k == 9 { t.title_chat }
    else if k == 10 { t.title_input }
    else if k == 11 { t.title_bar_bg }
    else if k == 12 { t.user_prefix }
    else if k == 13 { t.assistant_prefix }
    else if k == 14 { t.system_prefix }
    else if k == 15 { t.message_meta }
    else if k == 16 { t.message_rule }
    else if k == 17 { t.heading1 }
    else if k == 18 { t.heading2 }
    else if k == 19 { t.heading3 }
    else if k == 20 { t.heading4 }
    else if k == 21 { t.blockquote_bar }
    else if k == 22 { t.list_bullet }
    else if k == 23 { t.ordered_number }
    else if k == 24 { t.inline_code }
    else if k == 25 { t.inline_code_bg }
    else if k == 26 { t.code_block_fg }
    else if k == 27 { t.code_block_bg }
    else if k == 28 { t.hr }
    else if k == 29 { t.status_hint }
    else if k == 30 { t.mode_insert }
    else if k == 31 { t.mode_normal }
    else if k == 32 { t.mode_visual }
    else if k == 33 { t.mode_focus }
    else if k == 34 { t.border_sidebar }
    else if k == 35 { t.border_chat }
    else if k == 36 { t.border_input }
    else if k == 37 { t.popup_title }
    else if k == 38 { t.popup_accent }
    else if k == 39 { t.popup_text }
    else if k == 40 { t.stats_label }
    else if k == 41 { t.stats_value }
    else { t.stats_accent }
}

/// The built-in theme.
pub open spec fn default_theme() -> Theme {
    Theme {
        app_bg: Color::Rgb(13, 15, 20),
        panel_bg: Color::Rgb(22, 24, 30),
        panel_alt_bg: Color::Rgb(28, 31, 38),
        input_bg: Color::Rgb(22, 24, 30),
        sidebar_title: Color::Rgb(126, 211, 255),
        sidebar_timestamp: Color::Rgb(125, 129, 138),
        sidebar_item: Color::Rgb(232, 234, 238),
        sidebar_item_bg: Color::Rgb(13, 15, 20),
        sidebar_selected_bg: Color::Rgb(47, 54, 64),
        title_chat: Color::Rgb(126, 211, 255),
        title_input: Color::Rgb(227, 228, 232),
        title_bar_bg: Color::Rgb(31, 34, 41),
        user_prefix: Color::Rgb(126, 211, 255),
        assistant_prefix: Color::Rgb(241, 215, 122),
        system_prefix: Color::Rgb(255, 195, 110),
        message_meta: Color::Rgb(140, 144, 154),
        message_rule: Color::Rgb(68, 73, 83),
        heading1: Color::Rgb(241, 215, 122),
        heading2: Color::LightYellow,
        heading3: Color::Cyan,
        heading4: Color::LightCyan,
        blockquote_bar: Color::DarkGray,
        list_bullet: Color::Green,
        ordered_number: Color::Green,
        inline_code: Color::Yellow,
        inline_code_bg: Color::DarkGray,
        code_block_fg: Color::Gray,
        code_block_bg: Color::Black,
        hr: Color::DarkGray,
        status_hint: Color::Gray,
        mode_insert: Color::Green,
        mode_normal: Color::Yellow,
        mode_visual: Color::LightMagenta,
        mode_focus: Color::Blue,
        border_sidebar: Color::Gray,
        border_chat: Color::Gray,
        border_input: Color::Gray,
        popup_title: Color::LightRed,
        popup_accent: Color::Rgb(241, 215, 122),
        popup_text: Color::Rgb(220, 223, 228),
        stats_label: Color::Rgb(170, 174, 182),
        stats_value: Color::Rgb(230, 232, 236),
        stats_accent: Color::Rgb(111, 219, 123),
    }
}

impl Default for Theme {
    /// The built-in theme.
    fn default() -> (r: Theme)
        ensures
            r == default_theme(),
    {
        Theme::default_theme()
    }
}

impl Theme {
    /// The built-in theme.
    pub fn default_theme() -> (r: Theme)
        ensures
            r == default_theme(),
    {
        Theme {
            app_bg: Color::Rgb(13, 15, 20),
            panel_bg: Color::Rgb(22, 24, 30),
            panel_alt_bg: Color::Rgb(28, 31, 38),
            input_bg: Color::Rgb(22, 24, 30),
            sidebar_title: Color::Rgb(126, 211, 255),
            sidebar_timestamp: Color::Rgb(125, 129, 138),
            sidebar_item: Color::Rgb(232, 234, 238),
            sidebar_item_bg: Color::Rgb(13, 15, 20),
            sidebar_selected_bg: Color::Rgb(47, 54, 64),
            title_chat: Color::Rgb(126, 211, 255),
            title_input: Color::Rgb(227, 228, 232),
            title_bar_bg: Color::Rgb(31, 34, 41),
            user_prefix: Color::Rgb(126, 211, 255),
            assistant_prefix: Color::Rgb(241, 215, 122),
            system_prefix: Color::Rgb(255, 195, 110),
            message_meta: Color::Rgb(140, 144, 154),
            message_rule: Color::Rgb(68, 73, 83),
            heading1: Color::Rgb(241, 215, 122),
            heading2: Color::LightYellow,
            heading3: Color::Cyan,
            heading4: Color::LightCyan,
            blockquote_bar: Color::DarkGray,
            list_bullet: Color::Green,
            ordered_number: Color::Green,
            inline_code: Color::Yellow,
            inline_code_bg: Color::DarkGray,
            code_block_fg: Color::Gray,
            code_block_bg: Color::Black,
            hr: Color::DarkGray,
            status_hint: Color::Gray,
            mode_insert: Color::Green,
            mode_normal: Color::Yellow,
            mode_visual: Color::LightMagenta,
            mode_focus: Color::Blue,
            border_sidebar: Color::Gray,
            border_chat: Color::Gray,
            border_input: Color::Gray,
            popup_title: Color::LightRed,
            popup_accent: Color::Rgb(241, 215, 122),
            popup_text: Color::Rgb(220, 223, 228),
            stats_label: Color::Rgb(170, 174, 182),
            stats_value: Color::Rgb(230, 232, 236),
            stats_accent: Color::Rgb(111, 219, 123),
        }
    }

    /// Sets colour option `k` to `c`.
    pub fn set_color_at(&mut self, k: usize, c: Color)
        requires
            k < 43,
        ensures
            theme_color(*final(self), k as int) == c,
            forall|j: int| 0 <= j < 43 && j != k ==> theme_color(*final(self), j) == theme_color(*old(self), j),
    {
        if k == 0 { self.app_bg = c; }
        else if k == 1 { self.panel_bg = c; }
        else if k == 2 { self.panel_alt_bg = c; }
        else if k == 3 { self.input_bg = c; }
        else if k == 4 { self.sidebar_title = c; }
        else if k == 5 { self.sidebar_timestamp = c; }
        else if k == 6 { self.sidebar_item = c; }
        else if k == 7 { self.sidebar_item_bg = c; }
        else if k == 8 { self.sidebar_selected_bg = c; }
        else if k == 9 { self.title_chat = c; }
        else if k == 10 { self.title_input = c; }
        else if k == 11 { self.title_bar_bg = c; }
        else if k == 12 { self.user_prefix = c; }
        else if k == 13 { self.assistant_prefix = c; }
        else if k == 14 { self.system_prefix = c; }
        else if k == 15 { self.message_meta = c; }
        else if k == 16 { self.message_rule = c; }
        else if k == 17 { self.heading1 = c; }
        else if k == 18 { self.heading2 = c; }
        else if k == 19 { self.heading3 = c; }
        else if k == 20 { self.heading4 = c; }
        else if k == 21 { self.blockquote_bar = c; }
        else if k == 22 { self.list_bullet = c; }
        else if k == 23 { self.ordered_number = c; }
        else if k == 24 { self.inline_code = c; }
        else if k == 25 { self.inline_code_bg = c; }
        else if k == 26 { self.code_block_fg = c; }
        else if k == 27 { self.code_block_bg = c; }
        else if k == 28 { self.hr = c; }
        else if k == 29 { self.status_hint = c; }
        else if k == 30 { self.mode_insert = c; }
        else if k == 31 { self.mode_normal = c; }
        else if k == 32 { self.mode_visual = c; }
        else if k == 33 { self.mode_focus = c; }
        else if k == 34 { self.border_sidebar = c; }
        else if k == 35 { self.border_chat = c; }
        else if k == 36 { self.border_input = c; }
        else if k == 37 { self.popup_title = c; }
        else if k == 38 { self.popup_accent = c; }
        else if k == 39 { self.popup_text = c; }
        else if k == 40 { self.stats_label = c; }
        else if k == 41 { self.stats_value = c; }
        else { self.stats_accent = c; }
    }

    /// The colour of option `k`.
    pub fn color_at(&self, k: usize) -> (r: Color)
        requires
            k < 43,
        ensures
            r == theme_color(*self, k as int),
    {
        if k == 0 { self.app_bg }
        else if k == 1 { self.panel_bg }
        else if k == 2 { self.panel_alt_bg }
        else if k == 3 { self.input_bg }
        else if k == 4 { self.sidebar_title }
        else if k == 5 { self.sidebar_timestamp }
        else if k == 6 { self.sidebar_item }
        else if k == 7 { self.sidebar_item_bg }
        else if k == 8 { self.sidebar_selected_bg }
        else if k == 9 { self.title_chat }
        else if k == 10 { self.title_input }
        else if k == 11 { self.title_bar_bg }
        else if k == 12 { self.user_prefix }
        else if k == 13 { self.assistant_prefix }
        else if k == 14 { self.system_prefix }
        else if k == 15 { self.message_meta }
        else if k == 16 { self.message_rule }
        else if k == 17 { self.heading1 }
        else if k == 18 { self.heading2 }
        else if k == 19 { self.heading3 }
        else if k == 20 { self.heading4 }
        else if k == 21 { self.blockquote_bar }
        else if k == 22 { self.list_bullet }
        else if k == 23 { self.ordered_number }
        else if k == 24 { self.inline_code }
        else if k == 25 { self.inline_code_bg }
        else if k == 26 { self.code_block_fg }
        else if k == 27 { self.code_block_bg }
        else if k == 28 { self.hr }
        else if k == 29 { self.status_hint }
        else if k == 30 { self.mode_insert }
        else if k == 31 { self.mode_normal }
        else if k == 32 { self.mode_visual }
        else if k == 33 { self.mode_focus }
        else if k == 34 { self.border_sidebar }
        else if k == 35 { self.border_chat }
        else if k == 36 { self.border_input }
        else if k == 37 { self.popup_title }
        else if k == 38 { self.popup_accent }
        else if k == 39 { self.popup_text }
        else if k == 40 { self.stats_label }
        else if k == 41 { self.stats_value }
        else { self.stats_accent }
    }
}

/// The index of the colour option named `key`.
pub fn color_key_index_of(key: &str) -> (r: Option<usize>)
    ensures
        r is None <==> color_key_index(key@) is None,
        r matches Some(k) ==> color_key_index(key@) == Some(k as int) && k < 43,
{
    if str_eq(key, "app_bg") { Some(0) }
    else if str_eq(key, "panel_bg") { Some(1) }
    else if str_eq(key, "panel_alt_bg") { Some(2) }
    else if str_eq(key, "input_bg") { Some(3) }
    else if str_eq(key, "sidebar_title") { Some(4) }
    else if str_eq(key, "sidebar_timestamp") { Some(5) }
    else if str_eq(key, "sidebar_item") { Some(6) }
    else if str_eq(key, "sidebar_item_bg") { Some(7) }
    else if str_eq(key, "sidebar_selected_bg") { Some(8) }
    else if str_eq(key, "title_chat") { Some(9) }
    else if str_eq(key, "title_input") { Some(10) }
    else if str_eq(key, "title_bar_bg") { Some(11) }
    else if str_eq(key, "user_prefix") { Some(12) }
    else if str_eq(key, "assistant_prefix") { Some(13) }
    else if str_eq(key, "system_prefix") { Some(14) }
    else if str_eq(key, "message_meta") { Some(15) }
    else if str_eq(key, "message_rule") { Some(16) }
    else if str_eq(key, "heading1") { Some(17) }
    else if str_eq(key, "heading2") { Some(18) }
    else if str_eq(key, "heading3") { Some(19) }
    else if str_eq(key, "heading4") { Some(20) }
    else if str_eq(key, "blockquote_bar") { Some(21) }
    else if str_eq(key, "list_bullet") { Some(22) }
    else if str_eq(key, "ordered_number") { Some(23) }
    else if str_eq(key, "inline_code") { Some(24) }
    else if str_eq(key, "inline_code_bg") { Some(25) }
    else if str_eq(key, "code_block_fg") { Some(26) }
    else if str_eq(key, "code_block_bg") { Some(27) }
    else if str_eq(key, "hr") { Some(28) }
    else if str_eq(key, "status_hint") { Some(29) }
    else if str_eq(key, "mode_insert") { Some(30) }
    else if str_eq(key, "mode_normal") { Some(31) }
    else if str_eq(key, "mode_visual") { Some(32) }
    else if str_eq(key, "mode_focus") { Some(33) }
    else if str_eq(key, "border_sidebar") { Some(34) }
    else if str_eq(key, "border_chat") { Some(35) }
    else if str_eq(key, "border_input") { Some(36) }
    else if str_eq(key, "popup_title") { Some(37) }
    else if str_eq(key, "popup_accent") { Some(38) }
    else if str_eq(key, "popup_text") { Some(39) }
    else if str_eq(key, "stats_label") { Some(40) }
    else if str_eq(key, "stats_value") { Some(41) }
    else if str_eq(key, "stats_accent") { Some(42) }
    else { None }
}

/// The option name for the colour option named `key`, if `key` names one.
pub fn theme_color_key(key: &str) -> (r: Option<&'static str>)
    ensures
        r is None <==> color_key_index(key@) is None,
        r matches Some(k) ==> k@ == key@,
{
    if str_eq(key, "app_bg") { Some("app_bg") }
    else if str_eq(key, "panel_bg") { Some("panel_bg") }
    else if str_eq(key, "panel_alt_bg") { Some("panel_alt_bg") }
    else if str_eq(key, "input_bg") { Some("input_bg") }
    else if str_eq(key, "sidebar_title") { Some("sidebar_title") }
    else if str_eq(key, "sidebar_timestamp") { Some("sidebar_timestamp") }
    else if str_eq(key, "sidebar_item") { Some("sidebar_item") }
    else if str_eq(key, "sidebar_item_bg") { Some("sidebar_item_bg") }
    else if str_eq(key, "sidebar_selected_bg") { Some("sidebar_selected_bg") }
    else if str_eq(key, "title_chat") { Some("title_chat") }
    else if str_eq(key, "title_input") { Some("title_input") }
    else if str_eq(key, "title_bar_bg") { Some("title_bar_bg") }
    else if str_eq(key, "user_prefix") { Some("user_prefix") }
    else if str_eq(key, "assistant_prefix") { Some("assistant_prefix") }
    else if str_eq(key, "system_prefix") { Some("system_prefix") }
    else if str_eq(key, "message_meta") { Some("message_meta") }
    else if str_eq(key, "message_rule") { Some("message_rule") }
    else if str_eq(key, "heading1") { Some("heading1") }
    else if str_eq(key, "heading2") { Some("heading2") }
    else if str_eq(key, "heading3") { Some("heading3") }
    else if str_eq(key, "heading4") { Some("heading4") }
    else if str_eq(key, "blockquote_bar") { Some("blockquote_bar") }
    else if str_eq(key, "list_bullet") { Some("list_bullet") }
    else if str_eq(key, "ordered_number") { Some("ordered_number") }
    else if str_eq(key, "inline_code") { Some("inline_code") }
    else if str_eq(key, "inline_code_bg") { Some("inline_code_bg") }
    else if str_eq(key, "code_block_fg") { Some("code_block_fg") }
    else if str_eq(key, "code_block_bg") { Some("code_block_bg") }
    else if str_eq(key, "hr") { Some("hr") }
    else if str_eq(key, "status_hint") { Some("status_hint") }
    else if str_eq(key, "mode_insert") { Some("mode_insert") }
    else if str_eq(key, "mode_normal") { Some("mode_normal") }
    else if str_eq(key, "mode_visual") { Some("mode_visual") }
    else if str_eq(key, "mode_focus") { Some("mode_focus") }
    else if str_eq(key, "border_sidebar") { Some("border_sidebar") }
    else if str_eq(key, "border_chat") { Some("border_chat") }
    else if str_eq(key, "border_input") { Some("border_input") }
    else if str_eq(key, "popup_title") { Some("popup_title") }
    else if str_eq(key, "popup_accent") { Some("popup_accent") }
    else if str_eq(key, "popup_text") { Some("popup_text") }
    else if str_eq(key, "stats_label") { Some("stats_label") }
    else if str_eq(key, "stats_value") { Some("stats_value") }
    else if str_eq(key, "stats_accent") { Some("stats_accent") }
    else { None }
}

pub open spec fn hex_val(c: char) -> Option<nat> {
    if '0' <= c && c <= '9' { Some((c as nat - '0' as nat) as nat) }
    else if 'a' <= c && c <= 'f' { Some((c as nat - 'a' as nat + 10) as nat) }
    else if 'A' <= c && c <= 'F' { Some((c as nat - 'A' as nat + 10) as nat) }
    else { None }
}

/// What `u8::from_str_radix` gives in base 16 for the two characters `a b`.
pub open spec fn hex_pair(a: char, b: char) -> Option<u8> {
    if a == '+' {
        match hex_val(b) { Some(v) => Some(v as u8), None => None }
    } else {
        match (hex_val(a), hex_val(b)) {
            (Some(x), Some(y)) => Some((x * 16 + y) as u8),
            _ => None,
        }
    }
}

/// `#rrggbb` after the `#`: six ASCII characters forming three base-16
/// bytes.
pub open spec fn hex_color(h: Seq<char>) -> Option<Color> {
    if h.len() != 6 {
        None
    } else {
        match (hex_pair(h[0], h[1]), hex_pair(h[2], h[3]), hex_pair(h[4], h[5])) {
            (Some(r), Some(g), Some(b)) => Some(Color::Rgb(r, g, b)),
            _ => None,
        }
    }
}

/// The colour a normalised colour name stands for.
pub open spec fn color_by_name(t: Seq<char>) -> Option<Color> {
    if t == "black"@ { Some(Color::Black) }
    else if t == "red"@ { Some(Color::Red) }
    else if t == "green"@ { Some(Color::Green) }
    else if t == "yellow"@ { Some(Color::Yellow) }
    else if t == "blue"@ { Some(Color::Blue) }
    else if t == "magenta"@ { Some(Color::Magenta) }
    else if t == "cyan"@ { Some(Color::Cyan) }
    else if t == "gray"@ || t == "grey"@ { Some(Color::Gray) }
    else if t == "dark_gray"@ || t == "dark_grey"@ { Some(Color::DarkGray) }
    else if t == "light_red"@ { Some(Color::LightRed) }
    else if t == "light_green"@ { Some(Color::LightGreen) }
    else if t == "light_yellow"@ { Some(Color::LightYellow) }
    else if t == "light_blue"@ { Some(Color::LightBlue) }
    else if t == "light_magenta"@ { Some(Color::LightMagenta) }
    else if t == "light_cyan"@ { Some(Color::LightCyan) }
    else if t == "white"@ { Some(Color::White) }
    else if t.len() > 0 && t[0] == '#' { hex_color(t.drop_first()) }
    else { None }
}

/// A colour name trimmed, lower-cased, with `-` read as `_`.
pub open spec fn normalize_color_name(s: Seq<char>) -> Seq<char> {
    replace_char_spec(lowercase_of(trim_spec(s)), '-', '_')
}

/// The colour that `s` names.
pub open spec fn color_name_spec(s: Seq<char>) -> Option<Color> {
    color_by_name(normalize_color_name(s))
}

/// The colour that ASCII text `s` names: trimmed, `A`..`Z` lower-cased,
/// `-` read as `_`.
pub open spec fn ascii_color_name(s: Seq<char>) -> Option<Color> {
    color_by_name(replace_char_spec(trim_spec(s).map_values(|c: char| ascii_lower(c)), '-', '_'))
}

/// "red" names the colour red; with the contracts of `theme_color_key` and
/// `set_color`, setting a key to "red" succeeds exactly for the keys that
/// `theme_color_key` knows, whatever their case.
pub proof fn lemma_red_is_a_colour()
    ensures
        is_ascii_text("red"@),
        ascii_color_name("red"@) == Some(Color::Red),
{
    reveal_strlit("red");
    reveal_strlit("black");
    let s = "red"@;
    assert(s != "black"@) by { assert(s.len() != "black"@.len()); }
    assert(s.len() == 3 && s[0] == 'r' && s[1] == 'e' && s[2] == 'd');
    assert(!is_ws(s[0]) && !is_ws(s[2]));
    assert(trim_start_index(s, 0) == 0);
    assert(trim_end_index(s, 0, 3) == 3);
    assert(trim_spec(s) =~= s);
    assert(replace_char_spec(s.map_values(|c: char| ascii_lower(c)), '-', '_') =~= s);
    assert(color_by_name(s) == Some(Color::Red));
}

fn hex_val_of(c: char) -> (r: Option<u8>)
    ensures
        r matches Some(v) ==> hex_val(c) == Some(v as nat),
        r is None ==> hex_val(c) is None,
{
    if c >= '0' && c <= '9' { Some((c as u32 - '0' as u32) as u8) }
    else if c >= 'a' && c <= 'f' { Some((c as u32 - 'a' as u32 + 10) as u8) }
    else if c >= 'A' && c <= 'F' { Some((c as u32 - 'A' as u32 + 10) as u8) }
    else { None }
}

pub fn hex_pair_of(a: char, b: char) -> (r: Option<u8>)
    ensures
        r == hex_pair(a, b),
{
    if a == '+' {
        hex_val_of(b)
    } else {
        match (hex_val_of(a), hex_val_of(b)) {
            (Some(x), Some(y)) => Some(x * 16 + y),
            _ => None,
        }
    }
}

/// Parses a colour name: one of the sixteen named colours (`gray`/`grey`,
/// `dark_gray`/`dark_grey`, `-` allowed for `_`, any case) or `#rrggbb`.
/// A `#` followed by six bytes of text that are not six ASCII characters
/// gives `None`.
pub fn parse_color_name(s: &str) -> (r: Option<Color>)
    ensures
        r == color_name_spec(s@),
        is_ascii_text(s@) ==> color_name_spec(s@) == ascii_color_name(s@),
{
    let t0 = trim(s);
    proof {
        if is_ascii_text(s@) {
            lemma_trim_bounds(s@, 0);
            let a = trim_start_index(s@, 0);
            lemma_trim_end_bounds(s@, a, s@.len() as int);
            assert forall|i: int| 0 <= i < t0@.len() implies (#[trigger] t0@[i] as u32) < 128 by {
                assert(t0@[i] == s@[a + i]);
            }
        }
    }
    let t1 = to_lowercase(t0.as_str());
    let t2 = replace_char(t1.as_str(), '-', '_');
    let t = t2.as_str();
    if str_eq(t, "black") { Some(Color::Black) }
    else if str_eq(t, "red") { Some(Color::Red) }
    else if str_eq(t, "green") { Some(Color::Green) }
    else if str_eq(t, "yellow") { Some(Color::Yellow) }
    else if str_eq(t, "blue") { Some(Color::Blue) }
    else if str_eq(t, "magenta") { Some(Color::Magenta) }
    else if str_eq(t, "cyan") { Some(Color::Cyan) }
    else if str_eq(t, "gray") || str_eq(t, "grey") { Some(Color::Gray) }
    else if str_eq(t, "dark_gray") || str_eq(t, "dark_grey") { Some(Color::DarkGray) }
    else if str_eq(t, "light_red") { Some(Color::LightRed) }
    else if str_eq(t, "light_green") { Some(Color::LightGreen) }
    else if str_eq(t, "light_yellow") { Some(Color::LightYellow) }
    else if str_eq(t, "light_blue") { Some(Color::LightBlue) }
    else if str_eq(t, "light_magenta") { Some(Color::LightMagenta) }
    else if str_eq(t, "light_cyan") { Some(Color::LightCyan) }
    else if str_eq(t, "white") { Some(Color::White) }
    else {
        let v = to_chars(t);
        if v.len() == 7 && v[0] == '#' {
            let ghost h = v@.drop_first();
            assert(h[0] == v@[1] && h[1] == v@[2] && h[2] == v@[3] && h[3] == v@[4] && h[4] == v@[5] && h[5] == v@[6]);
            match (hex_pair_of(v[1], v[2]), hex_pair_of(v[3], v[4]), hex_pair_of(v[5], v[6])) {
                (Some(r), Some(g), Some(b)) => Some(Color::Rgb(r, g, b)),
                _ => None,
            }
        } else {
            None
        }
    }
}

/// Why a colour option could not be set.
#[derive(Debug)]
pub enum ThemeError {
    InvalidColor { key: String, value: String },
    UnknownOption { key: String },
}

impl ThemeError {
    /// The message shown to the user.
    pub fn message(&self) -> (r: String)
        ensures
            self matches ThemeError::InvalidColor { key, value } ==> r@ == "invalid color '"@ + value@ + "' for colors."@ + key@,
            self matches ThemeError::UnknownOption { key } ==> r@ == "unknown color option colors."@ + key@,
    {
        match self {
            ThemeError::InvalidColor { key, value } => {
                let mut s = string_from("invalid color '");
                crate::text::push_str(&mut s, value.as_str());
                crate::text::push_str(&mut s, "' for colors.");
                crate::text::push_str(&mut s, key.as_str());
                s
            },
            ThemeError::UnknownOption { key } => {
                let mut s = string_from("unknown color option colors.");
                crate::text::push_str(&mut s, key.as_str());
                s
            },
        }
    }
}

impl Theme {
    /// Sets the colour option `key` to the colour named `value`.
    pub fn set_color(&mut self, key: &str, value: &str) -> (r: Result<(), ThemeError>)
        ensures
            color_name_spec(value@) is None ==> (r matches Err(ThemeError::InvalidColor { key: k, value: v })
                && k@ == key@ && v@ == value@) && *final(self) == *old(self),
            color_name_spec(value@) is Some && color_key_index(key@) is None ==> (r matches Err(ThemeError::UnknownOption { key: k })
                && k@ == key@) && *final(self) == *old(self),
            color_name_spec(value@) is Some && color_key_index(key@) is Some ==> r is Ok
                && theme_color(*final(self), color_key_index(key@)->0) == color_name_spec(value@)->0
                && forall|j: int| 0 <= j < THEME_COLOR_COUNT && j != color_key_index(key@)->0
                    ==> theme_color(*final(self), j) == theme_color(*old(self), j),
            is_ascii_text(value@) ==> color_name_spec(value@) == ascii_color_name(value@),
    {
        let color = match parse_color_name(value) {
            Some(c) => c,
            None => {
                return Err(ThemeError::InvalidColor { key: string_from(key), value: string_from(value) });
            },
        };
        match color_key_index_of(key) {
            Some(k) => {
                self.set_color_at(k, color);
                Ok(())
            },
            None => Err(ThemeError::UnknownOption { key: string_from(key) }),
        }
    }

    /// The built-in theme with every colour named in `tbl` (option name and
    /// colour name pairs) that parses replaced.
    pub fn from_config(tbl: Option<&Vec<(String, String)>>) -> (r: Theme)
        ensures
            tbl is None ==> r == default_theme(),
            tbl matches Some(t) ==> forall|k: int| 0 <= k < THEME_COLOR_COUNT ==>
                theme_color(r, k) == configured_color(t@, k),
    {
        let mut t = Theme::default_theme();
        match tbl {
            None => t,
            Some(map) => {
                let mut k: usize = 0;
                while k < THEME_COLOR_COUNT
                    invariant
                        k <= THEME_COLOR_COUNT,
                        forall|j: int| 0 <= j < k ==> theme_color(t, j) == configured_color(map@, j),
                        forall|j: int| k <= j < THEME_COLOR_COUNT ==> theme_color(t, j) == theme_color(default_theme(), j),
                    decreases THEME_COLOR_COUNT - k,
                {
                    let name = color_key_str(k);
                    match lookup_value(map, name) {
                        Some(v) => {
                            match parse_color_name(v.as_str()) {
                                Some(c) => t.set_color_at(k, c),
                                None => {},
                            }
                        },
                        None => {},
                    }
                    k = k + 1;
                }
                t
            },
        }
    }
}

/// The value of the first entry named `key`.
pub open spec fn lookup_spec(tbl: Seq<(String, String)>, key: Seq<char>) -> Option<Seq<char>>
    decreases tbl.len(),
{
    if tbl.len() == 0 {
        None
    } else if tbl[0].0@ == key {
        Some(tbl[0].1@)
    } else {
        lookup_spec(tbl.drop_first(), key)
    }
}

/// The colour option `k` gets from a configuration table.
pub open spec fn configured_color(tbl: Seq<(String, String)>, k: int) -> Color {
    match lookup_spec(tbl, color_key_name(k)) {
        Some(v) => match color_name_spec(v) {
            Some(c) => c,
            None => theme_color(default_theme(), k),
        },
        None => theme_color(default_theme(), k),
    }
}

/// The value of the first entry named `key`.
pub fn lookup_value(tbl: &Vec<(String, String)>, key: &str) -> (r: Option<String>)
    ensures
        r is None <==> lookup_spec(tbl@, key@) is None,
        r matches Some(v) ==> lookup_spec(tbl@, key@) == Some(v@),
{
    let mut i: usize = 0;
    assert(tbl@.subrange(0, tbl@.len() as int) =~= tbl@);
    while i < tbl.len()
        invariant
            i <= tbl@.len(),
            lookup_spec(tbl@, key@) == lookup_spec(tbl@.subrange(i as int, tbl@.len() as int), key@),
        decreases tbl.len() - i,
    {
        assert(tbl@.subrange(i as int, tbl@.len() as int).drop_first() =~= tbl@.subrange(i + 1, tbl@.len() as int));
        if str_eq(tbl[i].0.as_str(), key) {
            return Some(crate::text::copy_string(&tbl[i].1));
        }
        i = i + 1;
    }
    None
}

/// The name of colour option `k`.
pub fn color_key_str(k: usize) -> (r: &'static str)
    requires
        k < 43,
    ensures
        r@ == color_key_name(k as int),
{
    if k == 0 { "app_bg" }
    else if k == 1 { "panel_bg" }
    else if k == 2 { "panel_alt_bg" }
    else if k == 3 { "input_bg" }
    else if k == 4 { "sidebar_title" }
    else if k == 5 { "sidebar_timestamp" }
    else if k == 6 { "sidebar_item" }
    else if k == 7 { "sidebar_item_bg" }
    else if k == 8 { "sidebar_selected_bg" }
    else if k == 9 { "title_chat" }
    else if k == 10 { "title_input" }
    else if k == 11 { "title_bar_bg" }
    else if k == 12 { "user_prefix" }
    else if k == 13 { "assistant_prefix" }
    else if k == 14 { "system_prefix" }
    else if k == 15 { "message_meta" }
    else if k == 16 { "message_rule" }
    else if k == 17 { "heading1" }
    else if k == 18 { "heading2" }
    else if k == 19 { "heading3" }
    else if k == 20 { "heading4" }
    else if k == 21 { "blockquote_bar" }
    else if k == 22 { "list_bullet" }
    else if k == 23 { "ordered_number" }
    else if k == 24 { "inline_code" }
    else if k == 25 { "inline_code_bg" }
    else if k == 26 { "code_block_fg" }
    else if k == 27 { "code_block_bg" }
    else if k == 28 { "hr" }
    else if k == 29 { "status_hint" }
    else if k == 30 { "mode_insert" }
    else if k == 31 { "mode_normal" }
    else if k == 32 { "mode_visual" }
    else if k == 33 { "mode_focus" }
    else if k == 34 { "border_sidebar" }
    else if k == 35 { "border_chat" }
    else if k == 36 { "border_input" }
    else if k == 37 { "popup_title" }
    else if k == 38 { "popup_accent" }
    else if k == 39 { "popup_text" }
    else if k == 40 { "stats_label" }
    else if k == 41 { "stats_value" }
    else { "stats_accent" }
}

/// The style for an item, marked when selected: bold when
/// `bold_selection` is set, reversed otherwise.
pub fn apply_selection(style: crate::style::Style, selected: bool, bold_selection: bool) -> (r: crate::style::Style)
    ensures
        !selected ==> r == style,
        selected && bold_selection ==> r == crate::style::spec_add_modifier(style, crate::style::BOLD),
        selected && !bold_selection ==> r == crate::style::spec_add_modifier(style, crate::style::REVERSED),
{
    if selected {
        if bold_selection {
            style.add_modifier(crate::style::BOLD)
        } else {
            style.add_modifier(crate::style::REVERSED)
        }
    } else {
        style
    }
}

} // verus!
