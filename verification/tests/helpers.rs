use tuillama::attach::attachment_from_data;
use tuillama::chat::{derive_title, mime_type_for_path, search_excerpt_for_text, sniff_mime_type, truncate_for_context, Message, Role};
use tuillama::json::{json_to_text, summarize_tool_result, Json, JsonNumber};
use tuillama::preview::sanitize_for_html;
use tuillama::style::{Line, Text};
use tuillama::syn::{build_custom_syn_theme, build_syntect_theme, SynThemeSource};
use tuillama::tools::api_base_from_chat_url;
use tuillama::ui::{centered_rect, format_timestamp, timestamp_text, wrapped_text_height, Rect};

fn message(role: Role, content: &str) -> Message {
    Message { role, content: content.to_string(), created_ts: 1, thinking: None, attachments: Vec::new(), sources: Vec::new() }
}

fn pairs(v: &[(&str, &str)]) -> Vec<(String, String)> {
    v.iter().map(|(k, c)| (k.to_string(), c.to_string())).collect()
}

#[test]
fn attachments_are_named_by_their_sha256() {
    let a = attachment_from_data("notes.txt", b"hello", "/store").unwrap();
    let sha = "2cf24dba5fb0a30e26e83b2ac5b9e29e1b161e5c1fa7425e73043362938b9824";
    assert_eq!(a.sha256, sha);
    assert_eq!(a.id, "2cf24dba5fb0a30e");
    assert_eq!(a.mime_type, "text/plain");
    assert_eq!(a.size_bytes, 5);
    assert_eq!(a.store_path, format!("/store/{}", sha));
    assert_eq!(a.original_path, "notes.txt");
    assert!(a.data_base64.is_none());
}

#[test]
fn attachments_over_the_limit_are_refused() {
    let data = vec![0u8; 10 * 1024 * 1024 + 1];
    let e = attachment_from_data("big.bin", &data, "/store").unwrap_err();
    assert_eq!(e, "attachment exceeds max size of 10485760 bytes");
    let data = vec![0u8; 10 * 1024 * 1024];
    assert!(attachment_from_data("big.bin", &data, "/store").is_ok());
}

#[test]
fn mime_types_come_from_magic_bytes_then_the_extension() {
    assert_eq!(sniff_mime_type("x.bin", b"\x89PNG\r\n\x1a\nrest"), "image/png");
    assert_eq!(sniff_mime_type("x.bin", &[0xff, 0xd8, 0xff, 0x00]), "image/jpeg");
    assert_eq!(sniff_mime_type("x.bin", b"GIF89a..."), "image/gif");
    assert_eq!(sniff_mime_type("x.bin", b"RIFF\0\0\0\0WEBPxx"), "image/webp");
    assert_eq!(sniff_mime_type("photo.JPG", b"plain"), "image/jpeg");
    assert_eq!(mime_type_for_path("src/main.rs"), "text/plain");
    assert_eq!(mime_type_for_path("doc.pdf"), "application/pdf");
    assert_eq!(mime_type_for_path("archive.tar.gz"), "application/octet-stream");
    assert_eq!(mime_type_for_path("Makefile"), "application/octet-stream");
}

#[test]
fn preview_markdown_gets_mathjax_delimiters() {
    assert_eq!(sanitize_for_html("a \\( y \\) b"), "a $y$ b");
    assert_eq!(sanitize_for_html("cost $ 5 $ now"), "cost $5$ now");
    assert_eq!(sanitize_for_html("x\u{2011}y"), "x-y");
    assert_eq!(sanitize_for_html("\\[x\\]"), "$$x$$");
    assert_eq!(sanitize_for_html("no math"), "no math");
}

#[test]
fn highlighting_theme_sources() {
    let (_, src) = build_syntect_theme("base16-ocean.dark", None);
    assert_eq!(src, SynThemeSource::Named);
    let (_, src) = build_syntect_theme("no such theme", None);
    assert_eq!(src, SynThemeSource::Fallback);
    let custom = pairs(&[("keyword", "red"), ("string", "#00ff00")]);
    let (_, src) = build_syntect_theme("base16-ocean.dark", Some(&custom));
    assert_eq!(src, SynThemeSource::Custom);
    let useless = pairs(&[("keyword", "not a colour"), ("unknown", "red")]);
    let (_, src) = build_syntect_theme("base16-ocean.dark", Some(&useless));
    assert_eq!(src, SynThemeSource::Named);
    assert!(build_custom_syn_theme(&Vec::new()).is_none());
    let th = build_custom_syn_theme(&pairs(&[("comment", "gray")])).unwrap();
    assert_eq!(th.scopes.len(), 1);
}

#[test]
fn centered_rect_takes_the_middle_percentages() {
    let r = centered_rect(50, 50, Rect { x: 0, y: 0, width: 100, height: 40 });
    assert_eq!(r, Rect { x: 25, y: 10, width: 50, height: 20 });
}

#[test]
fn wrapped_height_counts_rows_per_line() {
    let mut t = Text::new();
    t.push_line(Line::from_string("abcdef".to_string()));
    t.push_line(Line::from_string(String::new()));
    t.push_line(Line::from_string("abcd".to_string()));
    assert_eq!(wrapped_text_height(&t, 4), 4);
    assert_eq!(wrapped_text_height(&t, 0), 11);
}

#[test]
fn tool_results_are_summarized() {
    let obj = |k: &str, v: Json| Json::Object(vec![(k.to_string(), v)]);
    let one = || Json::Number(JsonNumber::PosInt(1));
    assert_eq!(summarize_tool_result(&obj("entries", Json::Array(vec![one(), one()]))), "2 entries");
    assert_eq!(summarize_tool_result(&obj("matches", Json::Array(vec![]))), "0 matches");
    assert_eq!(summarize_tool_result(&obj("lines", Json::Array(vec![one()]))), "1 lines");
    assert_eq!(summarize_tool_result(&obj("error", Json::Str("bad path".to_string()))), "error: bad path");
    assert_eq!(summarize_tool_result(&obj("x", one())), "object with 1 fields");
    assert_eq!(summarize_tool_result(&Json::Array(vec![one(), one(), one()])), "3 items");
    assert_eq!(summarize_tool_result(&Json::Str("hi".to_string())), "\"hi\"");
    assert_eq!(json_to_text(&obj("a", one())), "{\"a\":1}");
}

#[test]
fn texts_are_cut_by_characters() {
    assert_eq!(truncate_for_context("héllo", 2), "hé");
    assert_eq!(truncate_for_context("hi", 10), "hi");
}

#[test]
fn chat_titles_and_search_excerpts() {
    let ms = vec![message(Role::Assistant, "hello"), message(Role::User, "  First line\nsecond")];
    assert_eq!(derive_title(&ms), "First line");
    assert_eq!(derive_title(&Vec::new()), "Untitled chat");
    assert_eq!(derive_title(&vec![message(Role::System, "   ")]), "Untitled chat");
    assert_eq!(search_excerpt_for_text("Hello   World", "world").as_deref(), Some("Hello World"));
    assert_eq!(search_excerpt_for_text("Hello World", "absent"), None);
    let long = format!("{}needle{}", "a ".repeat(40), " b".repeat(40));
    let ex = search_excerpt_for_text(&long, "needle").unwrap();
    assert!(ex.starts_with('…') && ex.ends_with('…') && ex.contains("needle"));
}

#[test]
fn api_base_is_the_chat_url_without_its_path() {
    assert_eq!(api_base_from_chat_url("http://localhost:11434/api/chat"), "http://localhost:11434");
    assert_eq!(api_base_from_chat_url("https://ollama.com/"), "https://ollama.com");
}

#[test]
fn unknown_timestamps_are_named() {
    assert_eq!(format_timestamp(0), "Unknown time");
    assert_eq!(format_timestamp(-5), "Unknown time");
    assert_eq!(format_timestamp(1_700_000_000).chars().count(), "Nov 14, 2023 · 22:13".chars().count());
    assert_eq!(timestamp_text(5, Some("Jan 01, 1970 · 00:00".to_string())), "Jan 01, 1970 · 00:00");
    assert_eq!(timestamp_text(5, None), "Unknown time");
    assert_eq!(timestamp_text(0, Some("x".to_string())), "Unknown time");
}
