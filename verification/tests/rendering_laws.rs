use syntect::highlighting::Theme as SynTheme;
use syntect::parsing::SyntaxSet;
use tuillama::chat::{Focus, Message, Mode, Role, VisualSelection};
use tuillama::chat_view::{chat_body, offset_for_message, render_message_block, rendered_message_height};
use tuillama::client::{ClientState, Popup};
use tuillama::md_layout::{wrap_spans, wrapped_widths};
use tuillama::md_render::{render_markdown_to_text, MarkdownRenderer};
use tuillama::style::{Color, Span, Style, Text};
use tuillama::syn::SynRgb;
use tuillama::theme::Theme;
use tuillama::md_doc::{Inline, InlineAttrs};
use tuillama::md_render::inlines_to_spans;
use tuillama::style::{BOLD, ITALIC};
use tuillama::chat_view::pending_stream_message;
use tuillama::screens::context_char_count;
use tuillama::math::{protect_math, split_math_placeholders, MathSplit};

fn state() -> ClientState {
    ClientState {
        current_chat_id: None,
        current_created_ts: None,
        messages: Vec::new(),
        pending_assistant: String::new(),
        pending_thinking: String::new(),
        pending_sources: Vec::new(),
        status_message: None,
        pending_request_id: None,
        sending: false,
        active_streams: Vec::new(),
        pending_cache: None,
        render_cache: Vec::new(),
        chats: Vec::new(),
        sidebar_idx: 0,
        sidebar_search_query: String::new(),
        selected_msg: None,
        focus: Focus::Chat,
        mode: Mode::Normal,
        visual_selection: VisualSelection::Message,
        chat_scroll: 0,
        chat_inner_height: 10,
        chat_inner_width: 40,
        scroll_to_bottom_on_draw: false,
        chat_at_bottom: true,
        pending_attachments: Vec::new(),
        input: String::new(),
        input_cursor_line: 0,
        input_cursor_col: 0,
        command_input: String::new(),
        command_cursor_col: 0,
        input_top_line: 0,
        web_search: false,
        show_thinking: true,
        show_sidebar: true,
        show_stats_panel: false,
        bold_selection: false,
        quit: false,
        popup: Popup::Hidden,
        sidebar_search_active: false,
        model: "llama3".to_string(),
        api_url: "http://localhost:11434/api/chat".to_string(),
        ollama_api_key: None,
        system_prompt: None,
        options: None,
        theme: Theme::default(),
        syntax_enabled: false,
        render_emojis: true,
        syn_ss: SyntaxSet::load_defaults_newlines(),
        syn_theme: SynTheme::default(),
        preview_fmt: "html".to_string(),
        preview_open: "xdg-open".to_string(),
        server_addr: "127.0.0.1:7878".to_string(),
        syntax_theme_name: "base16-ocean.dark".to_string(),
        syntax_custom: None,
        stream_throttle_ms: 33,
        input_poll_ms: 250,
    }
}

fn msg(role: Role, content: &str) -> Message {
    Message { role, content: content.to_string(), created_ts: 0, thinking: None, attachments: Vec::new(), sources: Vec::new() }
}

fn plain(text: &Text) -> Vec<String> {
    text.lines.iter().map(|l| l.spans.iter().map(|s| s.content.clone()).collect::<String>()).collect()
}

fn span(s: &str) -> Span {
    Span { content: s.to_string(), style: Style::new() }
}

#[test]
fn wrapped_widths_shrink_the_widest_column_first() {
    assert_eq!(wrapped_widths(&vec![4, 53], 32, 2), vec![4, 20]);
    assert_eq!(wrapped_widths(&vec![3, 20], 20, 2), vec![4, 9]);
}

#[test]
fn wrapped_widths_shrink_the_last_of_equally_wide_columns_first() {
    assert_eq!(wrapped_widths(&vec![10, 10], 20, 2), vec![6, 6]);
    assert_eq!(wrapped_widths(&vec![10, 10], 19, 2), vec![6, 5]);
}

#[test]
fn wrapped_widths_keep_columns_that_fit() {
    assert_eq!(wrapped_widths(&vec![2, 5], 80, 2), vec![4, 5]);
}

#[test]
fn wrap_spans_fills_each_line_before_starting_the_next() {
    let lines = wrap_spans(vec![span("abc"), span("de")], 4);
    let texts: Vec<String> = lines.iter().map(|l| l.iter().map(|s| s.content.clone()).collect()).collect();
    assert_eq!(texts, vec!["abcd".to_string(), "e".to_string()]);
    assert_eq!(lines[0].len(), 4);
    let narrow = wrap_spans(vec![span("ab")], 0);
    assert_eq!(narrow.len(), 2);
    let empty = wrap_spans(Vec::new(), 5);
    assert_eq!(empty.len(), 1);
    assert!(empty[0].is_empty());
}

#[test]
fn code_lines_are_padded_to_the_width_with_no_break_spaces() {
    let ss = SyntaxSet::load_defaults_newlines();
    let syn = SynTheme::default();
    let text = render_markdown_to_text("```\nab\n\ncd\n```", &Theme::default(), 4, &ss, &syn, false, true);
    let lines = plain(&text);
    assert!(lines.iter().any(|l| l == "ab\u{a0}\u{a0}"));
    assert!(lines.iter().any(|l| l == "\u{a0}\u{a0}\u{a0}\u{a0}"));
}

#[test]
fn a_blank_line_is_added_once() {
    let ss = SyntaxSet::load_defaults_newlines();
    let syn = SynTheme::default();
    let theme = Theme::default();
    let mut r = MarkdownRenderer::new(&theme, 20, &ss, &syn, false, true, None);
    r.push_blank_line();
    assert!(r.text.lines.is_empty());
    r.push_span("x".to_string(), Style::new());
    r.push_blank_line();
    r.push_blank_line();
    let text = r.finish();
    assert_eq!(plain(&text), vec!["x".to_string(), String::new()]);
}

#[test]
fn message_height_counts_the_lines_of_its_block() {
    let mut app = state();
    let a = msg(Role::User, "Hello there");
    let b = msg(Role::Assistant, "# Title\n\nBody text");
    app.messages = vec![msg(Role::User, "Hello there"), msg(Role::Assistant, "# Title\n\nBody text")];
    let mut text = Text::new();
    render_message_block(&mut text, &mut app, 0, &a, 40, false);
    let ha = rendered_message_height(&app, 40, &a);
    assert_eq!(text.lines.len(), ha as usize);
    let before = text.lines.len();
    render_message_block(&mut text, &mut app, 1, &b, 40, false);
    let hb = rendered_message_height(&app, 40, &b);
    assert_eq!(text.lines.len() - before, hb as usize);
    assert_eq!(offset_for_message(&app, 40, 0), 0);
    assert_eq!(offset_for_message(&app, 40, 1), ha);
    assert_eq!(offset_for_message(&app, 40, 2), ha + hb);
}

#[test]
fn the_render_cache_keeps_other_entries() {
    let mut app = state();
    let a = msg(Role::User, "first");
    let b = msg(Role::User, "second");
    let mut text = Text::new();
    render_message_block(&mut text, &mut app, 0, &a, 40, false);
    render_message_block(&mut text, &mut app, 1, &b, 40, false);
    assert_eq!(app.render_cache.len(), 2);
    let kept = app.render_cache[1].hash;
    let a2 = msg(Role::User, "first, edited");
    render_message_block(&mut text, &mut app, 0, &a2, 40, false);
    assert_eq!(app.render_cache.len(), 2);
    assert_eq!(app.render_cache[1].hash, kept);
    assert_eq!(app.render_cache[0].idx, 0);
    let body: Vec<String> = plain(&app.render_cache[0].text);
    assert_eq!(body, vec!["first, edited".to_string()]);
}

#[test]
fn table_cell_spans_keep_their_inline_styles() {
    let ss = SyntaxSet::load_defaults_newlines();
    let syn = SynTheme::default();
    let theme = Theme::default();
    let r = MarkdownRenderer::new(&theme, 20, &ss, &syn, false, true, None);
    let bold = InlineAttrs { emphasis: false, strong: true, strike: false, link: false };
    let plain_attrs = InlineAttrs { emphasis: false, strong: false, strike: false, link: false };
    let inlines = vec![
        Inline::Text { content: "a".to_string(), attrs: bold },
        Inline::Text { content: "b".to_string(), attrs: plain_attrs },
        Inline::Code("c".to_string()),
    ];
    let base = Style::new().add_modifier(ITALIC);
    let spans = inlines_to_spans(&r, &inlines, base);
    assert_eq!(spans.len(), 3);
    assert_eq!(spans[0].style.add_modifier, ITALIC | BOLD);
    assert_eq!(spans[1].style.add_modifier, ITALIC);
    assert_eq!(spans[2].style.fg, Some(theme.inline_code));
    assert_eq!(spans[2].style.bg, Some(theme.inline_code_bg));
}

#[test]
fn a_pending_reply_is_shown_as_an_assistant_message() {
    let mut app = state();
    assert!(pending_stream_message(&app, 5).is_none());
    app.sending = true;
    let m = pending_stream_message(&app, 5).unwrap();
    assert_eq!(m.content, "…");
    assert!(m.thinking.is_none());
    app.pending_assistant = "partial".to_string();
    app.pending_thinking = "  ".to_string();
    let m = pending_stream_message(&app, 5).unwrap();
    assert_eq!(m.content, "partial");
    assert_eq!(m.created_ts, 5);
    assert!(m.thinking.is_none());
}

#[test]
fn the_context_counts_characters_not_bytes() {
    let mut app = state();
    app.messages = vec![msg(Role::User, "héllo"), msg(Role::Assistant, "ok")];
    app.input = "ab".to_string();
    app.system_prompt = Some("s".to_string());
    assert_eq!(context_char_count(&app), 5 + 2 + 2 + 1);
}


#[test]
fn protected_math_splits_back_into_its_spans() {
    let (text, ph) = protect_math("a $x$ b \\[y\\]");
    let parts = split_math_placeholders(&text, &ph);
    assert_eq!(parts.len(), 4);
    match &parts[0] { MathSplit::Text(t) => assert_eq!(t, "a "), _ => panic!("text expected") }
    match &parts[1] { MathSplit::Math { block, content } => { assert!(!*block); assert_eq!(content, "x"); } _ => panic!("math expected") }
    match &parts[2] { MathSplit::Text(t) => assert_eq!(t, " b "), _ => panic!("text expected") }
    match &parts[3] { MathSplit::Math { block, content } => { assert!(*block); assert_eq!(content, "y"); } _ => panic!("math expected") }
    assert_eq!(ph.len(), 2);
}

#[test]
fn highlighted_runs_keep_their_colours_and_fill_the_width() {
    let ss = SyntaxSet::load_defaults_newlines();
    let syn = SynTheme::default();
    let theme = Theme::default();
    let mut r = MarkdownRenderer::new(&theme, 4, &ss, &syn, true, true, None);
    let first = SynRgb { r: 1, g: 2, b: 3, a: 255 };
    let second = SynRgb { r: 4, g: 5, b: 6, a: 255 };
    let runs = vec![(first, "ab".to_string()), (second, "cdef".to_string())];
    r.push_highlighted_runs(&runs);
    let text = r.finish();
    assert_eq!(plain(&text), vec!["abcd".to_string(), "ef\u{a0}\u{a0}".to_string()]);
    let head = &text.lines[0].spans[0];
    assert_eq!(head.content, "a");
    assert_eq!(head.style.fg, Some(Color::Rgb(1, 2, 3)));
    assert_eq!(head.style.bg, Some(theme.code_block_bg));
    let tail = &text.lines[1].spans[0];
    assert_eq!(tail.style.fg, Some(Color::Rgb(4, 5, 6)));
}

#[test]
fn the_table_fallback_styles_row_titles_and_keys() {
    let ss = SyntaxSet::load_defaults_newlines();
    let syn = SynTheme::default();
    let theme = Theme::default();
    let mut r = MarkdownRenderer::new(&theme, 20, &ss, &syn, false, true, None);
    let attrs = InlineAttrs { emphasis: false, strong: false, strike: false, link: false };
    let cell = |s: &str| vec![Inline::Text { content: s.to_string(), attrs }];
    let rows = vec![vec![cell("Name")], vec![cell("x")]];
    r.render_table_fallback(&rows);
    let text = r.finish();
    assert_eq!(plain(&text), vec!["Row 1".to_string(), "  Name: x".to_string()]);
    assert_eq!(text.lines[0].style.fg, Some(theme.hr));
    assert_eq!(text.lines[0].style.add_modifier & BOLD, BOLD);
    assert_eq!(text.lines[1].spans[0].style.fg, Some(theme.ordered_number));
    assert_eq!(text.lines[1].spans[1].style.fg, None);
}

#[test]
fn the_chat_body_is_the_blocks_of_its_messages_in_turn() {
    let a = msg(Role::User, "Hello there");
    let b = msg(Role::Assistant, "# Title\n\nBody text");
    let mut app = state();
    app.messages = vec![msg(Role::User, "Hello there"), msg(Role::Assistant, "# Title\n\nBody text")];
    app.focus = Focus::Chat;
    app.mode = Mode::Visual;
    let body = chat_body(&mut app, 40, 0);
    let mut fresh = state();
    fresh.messages = vec![msg(Role::User, "Hello there"), msg(Role::Assistant, "# Title\n\nBody text")];
    fresh.focus = Focus::Chat;
    fresh.mode = Mode::Visual;
    let mut expect = Text::new();
    render_message_block(&mut expect, &mut fresh, 0, &a, 40, false);
    render_message_block(&mut expect, &mut fresh, 1, &b, 40, true);
    assert_eq!(plain(&body), plain(&expect));
    assert_eq!(body.lines.len(), expect.lines.len());
    for (x, y) in body.lines.iter().zip(expect.lines.iter()) {
        assert_eq!(x.style, y.style);
    }
}
