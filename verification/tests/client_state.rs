use tuillama::chat::message_hash;
use tuillama::client::{join_lines, split_lines};
use tuillama::commands::{normalize_set_key, parse_bool, parse_set_args, parse_u64, CommandError};
use tuillama::json::normalize_tool_payload;
use tuillama::keys::{KeyAction, KeyCode};
use tuillama::streams::StreamOutcome;
use syntect::highlighting::Theme as SynTheme;
use syntect::parsing::SyntaxSet;
use tuillama::chat::{Chat, ChatMeta, Focus, Message, Mode, Role, VisualSelection};
use tuillama::chat_layout::{chat_title, input_height};
use tuillama::client::{ClientState, Popup};
use tuillama::file_tools::{client_file_tool_kind, collect_file_matches, file_read_refusal, file_read_result, search_reads_file, search_wants_more, str_lines, FileTool};
use tuillama::json::{json_to_text, json_to_value, Json, JsonNumber};
use tuillama::settings::{parse_i64, parse_jsonish_value, SetError};
use tuillama::storage::{list_chats, search_chats, sort_by_recency};
use tuillama::theme::Theme;

fn state() -> ClientState {
    ClientState {
        current_chat_id: None,
        current_created_ts: None,
        messages: Vec::new(),
        pending_assistant: String::new(),
        pending_thinking: String::new(),
        pending_sources: Vec::new(),
        status_message: None,
        pending_request_id: None,
        sending: false,
        active_streams: Vec::new(),
        pending_cache: None,
        render_cache: Vec::new(),
        chats: Vec::new(),
        sidebar_idx: 0,
        sidebar_search_query: String::new(),
        selected_msg: None,
        focus: Focus::Chat,
        mode: Mode::Normal,
        visual_selection: VisualSelection::Message,
        chat_scroll: 0,
        chat_inner_height: 10,
        chat_inner_width: 40,
        scroll_to_bottom_on_draw: false,
        chat_at_bottom: true,
        pending_attachments: Vec::new(),
        input: String::new(),
        input_cursor_line: 0,
        input_cursor_col: 0,
        command_input: String::new(),
        command_cursor_col: 0,
        input_top_line: 0,
        web_search: false,
        show_thinking: true,
        show_sidebar: true,
        show_stats_panel: false,
        bold_selection: false,
        quit: false,
        popup: Popup::Hidden,
        sidebar_search_active: false,
        model: "llama3".to_string(),
        api_url: "http://localhost:11434/api/chat".to_string(),
        ollama_api_key: None,
        system_prompt: None,
        options: None,
        theme: Theme::default(),
        syntax_enabled: true,
        render_emojis: true,
        syn_ss: SyntaxSet::load_defaults_newlines(),
        syn_theme: SynTheme::default(),
        preview_fmt: "html".to_string(),
        preview_open: "xdg-open".to_string(),
        server_addr: "127.0.0.1:7878".to_string(),
        syntax_theme_name: "base16-ocean.dark".to_string(),
        syntax_custom: None,
        stream_throttle_ms: 33,
        input_poll_ms: 250,
    }
}

fn msg(role: Role, content: &str) -> Message {
    Message { role, content: content.to_string(), created_ts: 1, thinking: None, attachments: Vec::new(), sources: Vec::new() }
}

fn chat(id: &str, title: &str, ts: i64, messages: Vec<Message>) -> Chat {
    Chat { id: id.to_string(), title: title.to_string(), created_ts: ts, updated_ts: ts, messages }
}

#[test]
fn set_changes_the_named_setting_and_answers() {
    let mut app = state();
    assert_eq!(app.execute_set_command("model mistral").unwrap(), "Set model = mistral");
    assert_eq!(app.model, "mistral");
    assert_eq!(app.execute_set_command("system-prompt = none").unwrap(), "Set system_prompt = none");
    assert_eq!(app.system_prompt, None);
    app.execute_set_command("performance.stream_fps 0").unwrap();
    assert_eq!(app.stream_throttle_ms, 1000);
    app.execute_set_command("performance.stream_fps 60").unwrap();
    assert_eq!(app.stream_throttle_ms, 16);
}

#[test]
fn set_refuses_bad_values_and_changes_nothing() {
    let mut app = state();
    match app.execute_set_command("") {
        Err(SetError::Command(e)) => assert_eq!(e.message(), "usage: :set <option> <value>"),
        other => panic!("unexpected {other:?}"),
    }
    match app.execute_set_command("bold_selection maybe") {
        Err(e) => assert_eq!(e.message(), "expected boolean true/false, on/off, yes/no, or 1/0"),
        Ok(_) => panic!("accepted"),
    }
    assert!(!app.bold_selection);
    match app.execute_set_command("performance.input_poll_ms fast") {
        Err(e) => assert_eq!(e.message(), "invalid integer 'fast'"),
        Ok(_) => panic!("accepted"),
    }
    match app.execute_set_command("colors.app_bg nocolor") {
        Err(e) => assert_eq!(e.message(), "invalid color 'nocolor' for colors.app_bg"),
        Ok(_) => panic!("accepted"),
    }
    match app.execute_set_command("syntax.custom.keyword nocolor") {
        Err(e) => assert_eq!(e.message(), "invalid color 'nocolor' for syntax.custom.keyword"),
        Ok(_) => panic!("accepted"),
    }
}

#[test]
fn set_writes_model_options_and_null_removes_them() {
    let mut app = state();
    app.execute_set_command("options.temperature 0.5").unwrap();
    app.execute_set_command("num_ctx 4096").unwrap();
    let v = json_to_value(app.options.as_ref().unwrap());
    assert_eq!(v["temperature"], serde_json::Value::from(0.5f64));
    assert_eq!(v["num_ctx"], serde_json::Value::from(4096u64));
    app.execute_set_command("num_ctx null").unwrap();
    let v = json_to_value(app.options.as_ref().unwrap());
    assert!(v.get("num_ctx").is_none());
}

#[test]
fn set_colours_the_theme_and_the_custom_highlighting() {
    let mut app = state();
    app.execute_set_command("colors.app_bg red").unwrap();
    assert_eq!(app.theme.app_bg, tuillama::style::Color::Red);
    app.execute_set_command("panel_bg #102030").unwrap();
    assert_eq!(app.theme.panel_bg, tuillama::style::Color::Rgb(0x10, 0x20, 0x30));
    app.execute_set_command("syntax.custom.keyword blue").unwrap();
    app.execute_set_command("syntax.custom.keyword green").unwrap();
    assert_eq!(app.syntax_custom, Some(vec![("keyword".to_string(), "green".to_string())]));
}

#[test]
fn jsonish_values_read_as_the_client_expects() {
    assert_eq!(parse_jsonish_value(" 42 "), Json::Number(JsonNumber::PosInt(42)));
    assert_eq!(parse_jsonish_value("+7"), Json::Number(JsonNumber::PosInt(7)));
    assert_eq!(parse_jsonish_value("-3"), Json::Number(JsonNumber::NegInt(-3)));
    assert_eq!(parse_jsonish_value("YES"), Json::Bool(true));
    assert_eq!(parse_jsonish_value("off"), Json::Bool(false));
    assert_eq!(parse_jsonish_value("None"), Json::Null);
    assert_eq!(parse_jsonish_value(".5"), Json::Number(JsonNumber::Float("0.5".to_string())));
    assert_eq!(parse_jsonish_value("hello"), Json::Str("hello".to_string()));
    assert_eq!(parse_i64("-9223372036854775808"), Some(i64::MIN));
    assert_eq!(parse_i64("9223372036854775808"), None);
    assert_eq!(parse_i64("+-1"), None);
}

#[test]
fn chats_are_listed_most_recent_first_and_searched() {
    let chats = vec![
        chat("a", "Old notes", 10, vec![msg(Role::User, "alpha beta")]),
        chat("b", "Rust plans", 30, vec![msg(Role::User, "gamma")]),
        chat("c", "Misc", 20, vec![msg(Role::Assistant, "talk about RUST here")]),
    ];
    let copy: Vec<Chat> = chats.iter().map(|c| chat(&c.id, &c.title, c.updated_ts, c.messages.iter().map(|m| msg(m.role, &m.content)).collect())).collect();
    let listed = list_chats(copy);
    let ids: Vec<&str> = listed.iter().map(|m| m.id.as_str()).collect();
    assert_eq!(ids, vec!["b", "c", "a"]);
    let found = search_chats(chats, "  rust ");
    let ids: Vec<&str> = found.iter().map(|m| m.id.as_str()).collect();
    assert_eq!(ids, vec!["b", "c"]);
    assert_eq!(found[0].search_excerpt, None);
    assert_eq!(found[1].search_excerpt.as_deref(), Some("talk about RUST here"));
}

#[test]
fn sorting_by_recency_keeps_ties_in_order() {
    let meta = |id: &str, ts: i64| ChatMeta { id: id.to_string(), title: String::new(), updated_ts: ts, search_excerpt: None };
    let sorted = sort_by_recency(vec![meta("x", 1), meta("y", 5), meta("z", 1), meta("w", 5)]);
    let ids: Vec<&str> = sorted.iter().map(|m| m.id.as_str()).collect();
    assert_eq!(ids, vec!["y", "w", "x", "z"]);
}

#[test]
fn file_read_numbers_the_lines_asked_for() {
    let args = Json::Object(vec![
        ("path".to_string(), Json::Str("f.txt".to_string())),
        ("start_line".to_string(), Json::Number(JsonNumber::PosInt(2))),
        ("end_line".to_string(), Json::Number(JsonNumber::PosInt(9))),
    ]);
    let v = json_to_value(&file_read_result("/tmp/f.txt", "one\r\ntwo\nthree\n", &args));
    assert_eq!(v["start_line"], serde_json::Value::from(2u64));
    assert_eq!(v["end_line"], serde_json::Value::from(3u64));
    assert_eq!(v["lines"][0]["line"], serde_json::Value::from(2u64));
    assert_eq!(v["lines"][1]["text"], serde_json::Value::from("three"));
    assert_eq!(v["lines"].as_array().unwrap().len(), 2);
    assert_eq!(str_lines("a\r\nb\r"), vec!["a".to_string(), "b\r".to_string()]);
    assert_eq!(file_read_refusal(false, 1).as_deref(), Some("path is not a file"));
    assert_eq!(file_read_refusal(true, 200_001).as_deref(), Some("file exceeds max byte limit (200000)"));
    assert_eq!(file_read_refusal(true, 200_000), None);
}

#[test]
fn file_search_matches_case_insensitively_up_to_the_limit() {
    let mut matches = Vec::new();
    collect_file_matches(&mut matches, "/p", "Alpha\nbeta\nALPHA beta", "alpha");
    assert_eq!(matches.len(), 2);
    let v = json_to_value(&matches[1]);
    assert_eq!(v["line"], serde_json::Value::from(3u64));
    let mut many = Vec::new();
    let text = "x\n".repeat(300);
    collect_file_matches(&mut many, "/p", &text, "x");
    assert_eq!(many.len(), 200);
    let mut literal = Vec::new();
    collect_file_matches(&mut literal, "/p", "a(b\nab", "a(b");
    assert_eq!(literal.len(), 1);
    assert!(matches!(client_file_tool_kind("file_list"), Ok(FileTool::List)));
    match client_file_tool_kind("rm") {
        Err(e) => assert_eq!(json_to_value(&e)["error"], serde_json::Value::from("unsupported client tool: rm")),
        Ok(_) => panic!("accepted"),
    }
}

#[test]
fn input_box_height_and_chat_title() {
    assert_eq!(input_height(Mode::Normal, "a\nb"), 2);
    assert_eq!(input_height(Mode::Insert, "1\n2\n3\n4\n5\n6\n7"), 5);
    assert_eq!(input_height(Mode::Command, "1\n2\n3"), 1);
    let messages = vec![msg(Role::Assistant, "hi"), msg(Role::User, "first line\nsecond")];
    assert_eq!(chat_title(&Vec::new(), &None, &messages), "first line");
    assert_eq!(chat_title(&Vec::new(), &None, &Vec::new()), "Untitled chat");
    let listed = vec![ChatMeta { id: "k".into(), title: "Listed".into(), updated_ts: 1, search_excerpt: None }];
    assert_eq!(chat_title(&listed, &Some("k".to_string()), &messages), "Listed");
}

#[test]
fn input_viewport_keeps_the_cursor_line_in_view() {
    let mut app = state();
    app.mode = Mode::Insert;
    app.input = "l1\nl2\nl3\nl4\nl5\nl6".to_string();
    app.input_cursor_line = 5;
    app.input_cursor_col = 9;
    let (lines, cx) = app.input_viewport(3, 10);
    assert_eq!(app.input_top_line, 3);
    assert_eq!(app.input_cursor_col, 2);
    assert_eq!(lines, vec!["l4".to_string(), "l5".to_string(), "l6".to_string()]);
    assert_eq!(cx, 2);
}

#[test]
fn chat_scroll_settles_at_the_bottom_when_asked() {
    let mut app = state();
    app.scroll_to_bottom_on_draw = true;
    app.settle_chat_scroll(25);
    assert_eq!(app.chat_scroll, 15);
    assert!(app.chat_at_bottom);
    app.chat_scroll = 40;
    app.settle_chat_scroll(12);
    assert_eq!(app.chat_scroll, 2);
}

fn running(chat_id: &str, request_id: &str) -> tuillama::client::ActiveStream {
    tuillama::session::new_stream(chat_id.to_string(), request_id.to_string())
}

fn chunk(request_id: &str, chat_id: &str, delta: &str) -> tuillama::protocol::ServerEvent {
    tuillama::protocol::ServerEvent::Chunk {
        request_id: request_id.to_string(),
        chat_id: chat_id.to_string(),
        delta: delta.to_string(),
    }
}

#[test]
fn stream_events_of_another_chat_never_reach_the_open_one() {
    let mut app = state();
    app.current_chat_id = Some("a".to_string());
    app.active_streams = vec![running("a", "r1"), running("b", "r2")];

    let out = app.handle_server_event(chunk("r2", "b", "hello there"), 5);
    assert!(matches!(out, StreamOutcome::Updated { current: false }));
    assert_eq!(app.pending_assistant, "");
    assert_eq!(app.active_streams[1].buffer, "hello there");
    assert_eq!(app.active_streams[1].generated_tokens, 2);

    let out = app.handle_server_event(chunk("r1", "a", "yo"), 5);
    assert!(matches!(out, StreamOutcome::Updated { current: true }));
    assert_eq!(app.pending_assistant, "yo");

    // An event of an older request of the same chat is ignored.
    let out = app.handle_server_event(chunk("r9", "a", "stale"), 5);
    assert!(matches!(out, StreamOutcome::Nothing));
    assert_eq!(app.pending_assistant, "yo");

    let done = tuillama::protocol::ServerEvent::Done { request_id: "r2".to_string(), chat_id: "b".to_string(), status: None };
    match app.handle_server_event(done, 6) {
        StreamOutcome::Finished { tokens, persist_current, store_reply } => {
            assert_eq!(tokens, 2);
            assert!(!persist_current);
            let reply = store_reply.expect("a reply for the stored chat");
            assert_eq!(reply.chat_id, "b");
            assert_eq!(reply.content, "hello there");
        }
        other => panic!("unexpected outcome {:?}", other),
    }
    assert_eq!(app.active_streams.len(), 1);
    assert_eq!(app.active_streams[0].chat_id, "a");
    assert!(app.messages.is_empty());

    let done = tuillama::protocol::ServerEvent::Done { request_id: "r1".to_string(), chat_id: "a".to_string(), status: Some("cancelled".to_string()) };
    match app.handle_server_event(done, 7) {
        StreamOutcome::Finished { persist_current, store_reply, .. } => {
            assert!(persist_current);
            assert!(store_reply.is_none());
        }
        other => panic!("unexpected outcome {:?}", other),
    }
    assert_eq!(app.messages.len(), 1);
    assert_eq!(app.messages[0].role, Role::Assistant);
    assert_eq!(app.messages[0].content, "yo");
    assert_eq!(app.status_message.as_deref(), Some("Stream cancelled"));
}

#[test]
fn stream_errors_go_to_the_chat_they_belong_to() {
    let mut app = state();
    app.current_chat_id = Some("a".to_string());
    app.active_streams = vec![running("b", "r2")];
    let err = tuillama::protocol::ServerEvent::Error { request_id: "r2".to_string(), chat_id: "b".to_string(), message: "boom".to_string() };
    match app.handle_server_event(err, 3) {
        StreamOutcome::Failed { store_error } => {
            assert_eq!(store_error, Some(("b".to_string(), "Error: boom".to_string())));
        }
        other => panic!("unexpected outcome {:?}", other),
    }
    assert!(app.active_streams.is_empty());
    assert!(app.messages.is_empty());
}

#[test]
fn trimming_twice_is_trimming_once() {
    let once = tuillama::text::trim("  \t hi there \n ");
    assert_eq!(once, "hi there");
    assert_eq!(tuillama::text::trim(&once), once);
    assert_eq!(tuillama::text::trim("   "), "");
}

#[test]
fn normalizing_a_web_payload_twice_changes_nothing() {
    let once = normalize_tool_payload("web_search", Json::Str("latest rust news".to_string()));
    let twice = normalize_tool_payload("web_search", tuillama::json::copy_json(&once));
    let expected = Json::Object(vec![("query".to_string(), Json::Str("latest rust news".to_string()))]);
    assert_eq!(json_to_value(&once), json_to_value(&expected));
    assert_eq!(json_to_value(&twice), json_to_value(&once));
}

#[test]
fn message_hash_reads_only_role_and_content() {
    let a = msg(Role::User, "same words");
    let mut b = msg(Role::User, "same words");
    b.created_ts = 99;
    b.thinking = Some("pondering".to_string());
    assert_eq!(message_hash(&a), message_hash(&b));
    assert_ne!(message_hash(&a), message_hash(&msg(Role::Assistant, "same words")));
}

#[test]
fn input_lines_split_and_join_back() {
    let lines = split_lines("one\ntwo\n\nthree");
    assert_eq!(lines, vec!["one", "two", "", "three"]);
    assert_eq!(join_lines(&lines), "one\ntwo\n\nthree");
    assert_eq!(split_lines(""), vec![""]);
}

#[test]
fn set_arguments_and_values_read_as_the_palette_expects() {
    let (k, v) = parse_set_args("  model  llama3 70b ").unwrap();
    assert_eq!((k.as_str(), v.as_str()), ("model", "llama3 70b"));
    let (k, v) = parse_set_args("temperature = 0.2").unwrap();
    assert_eq!((k.as_str(), v.as_str()), ("temperature", "0.2"));
    assert!(matches!(parse_set_args("   "), Err(CommandError::Usage)));
    assert!(matches!(parse_set_args("model"), Err(CommandError::Usage)));
    assert!(matches!(parse_set_args("=x"), Err(CommandError::Usage)));
    assert_eq!(normalize_set_key(":show-thinking"), "show_thinking");
    assert_eq!(parse_bool(" ON ").unwrap(), true);
    assert_eq!(parse_bool("0").unwrap(), false);
    let e = parse_bool("maybe").unwrap_err();
    assert_eq!(e.message(), "expected boolean true/false, on/off, yes/no, or 1/0");
    assert_eq!(parse_u64(" 42 ").unwrap(), 42);
    let e = parse_u64("4x2").unwrap_err();
    assert!(matches!(e, CommandError::InvalidInteger(_)));
    assert_eq!(e.message(), "invalid integer '4x2'");
}

#[test]
fn code_blocks_of_the_selected_message_are_cycled() {
    let mut app = state();
    app.messages = vec![msg(Role::Assistant, "a\n\n```\none\n```\n\n```\ntwo\n```")];
    app.selected_msg = Some(0);
    app.focus = Focus::Chat;
    app.select_next_code_block();
    assert_eq!(app.visual_selection, VisualSelection::CodeBlock(0));
    assert_eq!(app.status_message.as_deref(), Some("Selected code block 1 of 2"));
    app.select_next_code_block();
    assert_eq!(app.visual_selection, VisualSelection::CodeBlock(1));
    app.select_next_code_block();
    assert_eq!(app.visual_selection, VisualSelection::CodeBlock(0));
    app.messages = vec![msg(Role::Assistant, "no code")];
    app.select_next_code_block();
    assert_eq!(app.visual_selection, VisualSelection::Message);
    assert_eq!(app.status_message.as_deref(), Some("No code blocks in selected message"));
}

#[test]
fn custom_highlighting_colour_reads_back_after_set() {
    let mut app = state();
    app.execute_set_command("syntax.custom.string red").unwrap();
    app.execute_set_command("syntax.custom.comment gray").unwrap();
    app.execute_set_command("syntax.custom.string yellow").unwrap();
    let t = app.syntax_custom.clone().unwrap();
    assert_eq!(tuillama::theme::lookup_value(&t, "string").as_deref(), Some("yellow"));
    assert_eq!(tuillama::theme::lookup_value(&t, "comment").as_deref(), Some("gray"));
    assert!(app.execute_set_command("syntax.custom.string nocolour").is_err());
    assert_eq!(app.syntax_custom, Some(t));
}

fn key(code: tuillama::keys::KeyCode, control: bool) -> tuillama::keys::KeyInput {
    tuillama::keys::KeyInput { code, control, alt: false, shift: false, super_key: false }
}

#[test]
fn typing_a_message_and_sending_it() {
    let mut app = state();
    assert!(matches!(app.handle_key(key(KeyCode::Char('i'), false)), KeyAction::Done));
    assert_eq!(app.mode, Mode::Insert);
    // Nothing typed: Ctrl+S sends nothing.
    assert!(matches!(app.handle_key(key(KeyCode::Char('s'), true)), KeyAction::Done));
    app.handle_key(key(KeyCode::Char('h'), false));
    app.handle_key(key(KeyCode::Char('i'), false));
    assert_eq!(app.input, "hi");
    assert!(matches!(app.handle_key(key(KeyCode::Char('s'), true)), KeyAction::Send));
    assert!(matches!(app.handle_key(key(KeyCode::Esc, false)), KeyAction::Done));
    assert_eq!(app.mode, Mode::Normal);
    assert!(matches!(app.handle_key(key(KeyCode::Char('n'), false)), KeyAction::NewChat));
    app.handle_key(key(KeyCode::Char('q'), false));
    assert!(app.quit);
}

#[test]
fn a_bare_unknown_key_sets_the_model_option_like_options_dot_key() {
    let mut a = state();
    let mut b = state();
    assert!(a.execute_set_command("num_ctx 32768").is_ok());
    assert!(b.execute_set_command("options.num_ctx 32768").is_ok());
    let oa = a.options.map(|o| json_to_text(&o));
    let ob = b.options.map(|o| json_to_text(&o));
    assert_eq!(oa, ob);
    assert!(oa.is_some());
}

#[test]
fn the_sidebar_lists_all_chats_for_a_blank_query_and_searches_otherwise() {
    let stored = || {
        vec![
            chat("a", "Apples", 1, vec![msg(Role::User, "red fruit")]),
            chat("b", "Bananas", 2, vec![msg(Role::User, "yellow fruit")]),
        ]
    };
    let mut app = state();
    app.sidebar_search_query = "   ".to_string();
    app.reload_sidebar(stored(), Some("a"));
    let ids: Vec<String> = app.chats.iter().map(|c| c.id.clone()).collect();
    assert_eq!(ids, vec!["b".to_string(), "a".to_string()]);
    assert_eq!(app.sidebar_idx, 1);
    app.sidebar_search_query = "YELLOW".to_string();
    app.reload_sidebar(stored(), Some("a"));
    let ids: Vec<String> = app.chats.iter().map(|c| c.id.clone()).collect();
    assert_eq!(ids, vec!["b".to_string()]);
    assert_eq!(app.sidebar_idx, 0);
}

#[test]
fn file_search_stops_at_the_match_limit_and_skips_large_files() {
    assert!(search_wants_more(0));
    assert!(search_wants_more(199));
    assert!(!search_wants_more(200));
    assert!(search_reads_file(200_000));
    assert!(!search_reads_file(200_001));
}
