use tuillama::json::{normalize_tool_payload, Json};
use tuillama::tools::extract_urls_from_text;

fn obj(key: &str, value: Json) -> Json {
    Json::Object(vec![(key.to_string(), value)])
}

fn text(s: &str) -> Json {
    Json::Str(s.to_string())
}

#[test]
fn normalizes_web_search_argument_aliases() {
    assert_eq!(
        normalize_tool_payload("web_search", obj("text", text("latest rust news"))),
        obj("query", text("latest rust news"))
    );
    assert_eq!(
        normalize_tool_payload("websearch", Json::Str("weather sf".into())),
        obj("query", text("weather sf"))
    );
    assert_eq!(
        normalize_tool_payload("web_search", Json::Str("{\"q\":\"mars\"}".into())),
        obj("query", text("mars"))
    );
}

#[test]
fn normalizes_web_fetch_argument_aliases() {
    assert_eq!(
        normalize_tool_payload("web_fetch", obj("href", text("https://example.com"))),
        obj("url", text("https://example.com"))
    );
    assert_eq!(
        normalize_tool_payload("webfetch", Json::Str("https://example.com".into())),
        obj("url", text("https://example.com"))
    );
}

#[test]
fn extracts_urls_from_text() {
    assert_eq!(
        extract_urls_from_text("Summarize https://example.com/a?x=1 and https://foo.bar/b."),
        vec!["https://example.com/a?x=1".to_string(), "https://foo.bar/b".to_string()]
    );
}

#[test]
fn extracts_unique_urls_from_text() {
    assert_eq!(
        extract_urls_from_text("Read https://example.com and https://example.com"),
        vec!["https://example.com".to_string()]
    );
}

#[test]
fn advertises_all_tool_parameters() {
    let tools: Vec<serde_json::Value> = tuillama::server::tool_schemas()
        .iter()
        .map(tuillama::json::json_to_value)
        .collect();
    let names = tools
        .iter()
        .filter_map(|tool| tool["function"]["name"].as_str())
        .collect::<Vec<_>>();
    assert_eq!(
        names,
        vec!["web_search", "web_fetch", "file_list", "file_read", "file_search"]
    );
    assert_eq!(
        tools[0]["function"]["parameters"]["required"],
        serde_json::Value::from(vec!["query"])
    );
    assert_eq!(
        tools[1]["function"]["parameters"]["required"],
        serde_json::Value::from(vec!["url"])
    );
    assert_eq!(
        tools[3]["function"]["parameters"]["required"],
        serde_json::Value::from(vec!["path"])
    );
}
