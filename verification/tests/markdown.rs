use syntect::highlighting::Theme as SynTheme;
use syntect::parsing::SyntaxSet;
use tuillama::md_doc::markdown_code_blocks;
use tuillama::md_render::render_markdown_to_text;
use tuillama::theme::Theme;
use unicode_width::UnicodeWidthStr;

fn render_plain(input: &str) -> Vec<String> {
    render_plain_with_width_and_emoji_config(input, 80, true)
}

fn render_plain_with_width(input: &str, width: u16) -> Vec<String> {
    render_plain_with_width_and_emoji_config(input, width, true)
}

fn render_plain_with_emoji_config(input: &str, render_emojis: bool) -> Vec<String> {
    render_plain_with_width_and_emoji_config(input, 80, render_emojis)
}

fn render_plain_with_width_and_emoji_config(input: &str, width: u16, render_emojis: bool) -> Vec<String> {
    let ss = SyntaxSet::load_defaults_newlines();
    let syn_theme = SynTheme::default();
    render_markdown_to_text(
        input,
        &Theme::default(),
        width,
        &ss,
        &syn_theme,
        false,
        render_emojis,
    )
    .lines
    .into_iter()
    .map(|line| line.spans.into_iter().map(|span| span.content).collect::<String>())
    .collect()
}

#[test]
fn renders_commonmark_links_tasks_footnotes_and_tables() {
    let lines = render_plain(
        "- [x] Ship [docs](https://example.com) with footnote[^1]\n\n[^1]: Citation text\n\n| Name | Done |\n| :--- | ---: |\n| API | yes |",
    );

    assert!(lines.iter().any(|line| line == "• ☑ Ship docs (https://example.com) with footnote[1]"));
    assert!(lines.iter().any(|line| line == "[1]: Citation text"));
    assert!(lines.iter().any(|line| line.contains("│ Name │ Done │")));
    assert!(lines.iter().any(|line| line.contains("│ API  │  yes │")));
}

#[test]
fn parser_handles_nested_lists_and_escaped_delimiters() {
    let lines = render_plain("1. Parent with \\*literal stars\\*\n   - Child with **bold** text");

    assert_eq!(lines[0], "1. Parent with *literal stars*");
    assert_eq!(lines[1], "  • Child with bold text");
}

#[test]
fn parser_preserves_multiple_list_items() {
    let lines = render_plain("1. First\n2. Second\n   - Child");

    assert_eq!(lines[0], "1. First");
    assert_eq!(lines[1], "2. Second");
    assert_eq!(lines[2], "  • Child");
}

#[test]
fn can_suppress_emoji_graphemes() {
    let lines = render_plain_with_emoji_config("Status 😀 is good", false);

    assert_eq!(lines[0], "Status  is good");
}

#[test]
fn wraps_wide_tables_and_falls_back_for_tiny_widths() {
    let markdown = "| Name | Description |\n| --- | --- |\n| API | This is a very long description for a narrow viewport |";
    let wrapped = render_plain_with_width(markdown, 32);
    assert!(wrapped.iter().any(|line| line.contains("│ API")));
    assert!(wrapped.iter().all(|line| UnicodeWidthStr::width(line.as_str()) <= 32));

    let fallback = render_plain_with_width(markdown, 12);
    assert!(fallback.iter().any(|line| line == "Row 1"));
    assert!(fallback.iter().any(|line| line.contains("Name: API")));
}

#[test]
fn math_is_rendered_as_atomic_styled_inline_and_block_spans() {
    let lines = render_plain("Inline $a_b * c$ and \\(x^2\\)\n\n$$E = mc^2$$\n\nNot *emphasis*.");

    assert!(lines.iter().any(|line| line.contains("a_b * c")));
    assert!(lines.iter().any(|line| line.contains("x^2")));
    assert!(lines.iter().any(|line| line.contains("E = mc^2")));
    assert!(lines.iter().all(|line| !line.contains("MATH")));
    assert!(lines.iter().any(|line| line == "Not emphasis."));
}

#[test]
fn latex_environments_render_as_latex_without_placeholders() {
    let lines = render_plain("Before\n\n\\begin{equation}\na_b = c_d\n\\end{equation}\n\nAfter");

    assert!(lines.iter().any(|line| line == "a_b = c_d"));
    assert!(lines.iter().all(|line| !line.contains("MATH")));
    assert!(lines.iter().all(|line| !line.contains("PLACEHOLDER")));
}

#[test]
fn headings_have_breathing_room_without_leading_blank_space() {
    let lines = render_plain("# Title\n\nBody\n\n## Next\nMore");

    assert_eq!(lines, vec!["Title", "", "Body", "", "Next", "", "More"]);
}

#[test]
fn extracts_fenced_code_blocks_for_visual_yank() {
    let blocks = markdown_code_blocks("Text\n\n```rust\nfn main() {}\n```\n\n```\nplain\n```");

    assert_eq!(blocks, vec!["fn main() {}\n", "plain\n"]);
}
