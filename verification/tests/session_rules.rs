use tuillama::client::ActiveStream;
use tuillama::settings::pick_setting;
use tuillama::streams::active_streams_unique;
use tuillama::file_tools::{walk_full, walk_step, WalkStep};
use tuillama::ui::{format_timestamp, timestamp_pattern};
use tuillama::theme::Theme;

fn stream(chat: &str, req: &str) -> ActiveStream {
    ActiveStream {
        chat_id: chat.to_string(),
        request_id: req.to_string(),
        buffer: String::new(),
        thinking: String::new(),
        sources: Vec::new(),
        status: None,
        generated_tokens: 0,
    }
}

#[test]
fn settings_come_from_the_environment_then_the_config_then_the_default() {
    assert_eq!(pick_setting(Some("env".to_string()), Some("cfg".to_string()), "dflt"), "env");
    assert_eq!(pick_setting(None, Some("cfg".to_string()), "dflt"), "cfg");
    assert_eq!(pick_setting(None, None, "dflt"), "dflt");
}

#[test]
fn two_streams_of_one_chat_are_detected() {
    assert!(active_streams_unique(&vec![stream("a", "1"), stream("b", "2")]));
    assert!(!active_streams_unique(&vec![stream("a", "1"), stream("b", "2"), stream("a", "3")]));
    assert!(active_streams_unique(&Vec::new()));
}

#[test]
fn a_file_walk_skips_tool_directories_and_stops_at_its_limit() {
    assert_eq!(walk_step(".git", true, false), WalkStep::Skip);
    assert_eq!(walk_step("src", true, false), WalkStep::Descend);
    assert_eq!(walk_step("main.rs", false, true), WalkStep::Take);
    assert_eq!(walk_step("fifo", false, false), WalkStep::Skip);
    assert!(walk_full(3, 3));
    assert!(!walk_full(2, 3));
}

#[test]
fn timestamps_use_the_month_day_year_pattern() {
    assert_eq!(timestamp_pattern(), "%b %d, %Y · %H:%M");
    assert_eq!(format_timestamp(0), "Unknown time");
    assert!(format_timestamp(1_700_000_000).contains(", 2023 · "));
}

#[test]
fn colour_values_are_read_in_any_case() {
    let mut t = Theme::default();
    assert!(t.set_color("app_bg", "RED").is_ok());
    assert!(t.set_color("app_bg", "Light-Blue").is_ok());
    assert!(t.set_color("no_such_key", "red").is_err());
}
