use tuillama::agent::{AgentAction, AgentLoop, AgentPhase};
use tuillama::chat::{Message, Role};
use tuillama::json::{json_to_value, Json, JsonNumber};
use tuillama::ndjson::{feed_bytes, stream_line_events, stream_end_events, take_line, ChunkMessage, StreamChunk, StreamMode, StreamStep};
use tuillama::protocol::ServerEvent;
use tuillama::server::{plan_tool_call, tool_finished_event, web_tool_value, CancelOutcome, ServerSession, ToolRoute};

fn user(content: &str) -> Message {
    Message {
        role: Role::User,
        content: content.to_string(),
        created_ts: 1,
        thinking: None,
        attachments: Vec::new(),
        sources: Vec::new(),
    }
}

fn obj(pairs: Vec<(&str, Json)>) -> Json {
    Json::Object(pairs.into_iter().map(|(k, v)| (k.to_string(), v)).collect())
}

fn s(t: &str) -> Json {
    Json::Str(t.to_string())
}

#[test]
fn take_line_splits_on_the_first_newline_and_keeps_the_rest() {
    let mut buf: Vec<u8> = Vec::new();
    feed_bytes(&mut buf, b"{\"a\":1}\n{\"b\"");
    let line = take_line(&mut buf).unwrap();
    assert_eq!(line, b"{\"a\":1}".to_vec());
    assert_eq!(buf, b"{\"b\"".to_vec());
    assert!(take_line(&mut buf).is_none());
    feed_bytes(&mut buf, b":2}\n");
    assert_eq!(take_line(&mut buf).unwrap(), b"{\"b\":2}".to_vec());
    assert!(buf.is_empty());
}

#[test]
fn plain_stream_passes_empty_content_and_ends_on_done() {
    let chunk = StreamChunk {
        done: true,
        error: None,
        message: Some(ChunkMessage { role: "assistant".into(), thinking: "hm".into(), content: String::new() }),
    };
    let (evs, step) = stream_line_events(StreamMode::Plain, "r1", "c1", Some(chunk));
    assert_eq!(step, StreamStep::Stop);
    assert_eq!(evs.len(), 3);
    assert!(matches!(&evs[0], ServerEvent::Thinking { delta, .. } if delta == "hm"));
    assert!(matches!(&evs[1], ServerEvent::Chunk { delta, .. } if delta.is_empty()));
    assert!(matches!(&evs[2], ServerEvent::Done { status: None, .. }));
}

#[test]
fn final_stream_skips_empty_content_and_reports_errors() {
    let chunk = StreamChunk {
        done: false,
        error: None,
        message: Some(ChunkMessage { role: "assistant".into(), thinking: String::new(), content: String::new() }),
    };
    let (evs, step) = stream_line_events(StreamMode::Final, "r1", "c1", Some(chunk));
    assert!(evs.is_empty());
    assert_eq!(step, StreamStep::Continue);
    let err = StreamChunk { done: false, error: Some("boom".into()), message: None };
    let (evs, step) = stream_line_events(StreamMode::Final, "r1", "c1", Some(err));
    assert_eq!(step, StreamStep::Stop);
    assert!(matches!(&evs[0], ServerEvent::Error { message, .. } if message == "boom"));
    let (evs, step) = stream_line_events(StreamMode::Final, "r1", "c1", None);
    assert!(evs.is_empty() && step == StreamStep::Continue);
    assert_eq!(stream_end_events(StreamMode::Final, "r1", "c1").len(), 1);
    assert_eq!(stream_end_events(StreamMode::Plain, "r1", "c1").len(), 0);
}

#[test]
fn cancelling_a_running_stream_answers_done_cancelled() {
    let mut session = ServerSession::new();
    assert!(!session.on_start("c1", "r1"));
    assert!(session.on_start("c1", "r1"));
    match session.on_cancel("c1", "r1", false) {
        CancelOutcome::Abort(ServerEvent::Done { status, .. }) => assert_eq!(status.as_deref(), Some("cancelled")),
        other => panic!("unexpected {other:?}"),
    }
    match session.on_cancel("c1", "r1", false) {
        CancelOutcome::Reply(ServerEvent::Error { message, .. }) => assert_eq!(message, "cancelled"),
        other => panic!("unexpected {other:?}"),
    }
    session.on_start("c2", "r2");
    assert!(matches!(session.on_cancel("c2", "r2", true), CancelOutcome::Ignore));
    session.on_start("c3", "r3");
    session.prune(&vec![("c3".to_string(), "r3".to_string())]);
    assert!(session.running.is_empty());
}

#[test]
fn tool_calls_are_routed_by_name() {
    let plan = plan_tool_call("websearch", s("rust"));
    assert_eq!(plan.name, "web_search");
    assert!(matches!(&plan.route, ToolRoute::Web { endpoint } if endpoint == "https://ollama.com/api/web_search"));
    assert_eq!(plan.payload, obj(vec![("query", s("rust"))]));
    assert!(matches!(plan_tool_call("file_read", obj(vec![])).route, ToolRoute::Client));
    match plan_tool_call("nope", obj(vec![])).route {
        ToolRoute::Missing { result } => assert_eq!(result, obj(vec![("error", s("Tool nope not found"))])),
        other => panic!("unexpected {other:?}"),
    }
}

#[test]
fn web_tool_replies_parse_or_become_text() {
    assert_eq!(web_tool_value("{\"a\":1}"), obj(vec![("a", Json::Number(JsonNumber::PosInt(1)))]));
    assert_eq!(web_tool_value("plain words"), obj(vec![("text", s("plain words"))]));
    let long = "x".repeat(9000);
    match web_tool_value(&long) {
        Json::Object(m) => assert!(matches!(&m[0].1, Json::Str(t) if t.chars().count() == 8000)),
        other => panic!("unexpected {other:?}"),
    }
}

#[test]
fn failed_tool_results_give_failed_events() {
    let ev = tool_finished_event("r", "c", "t1", &obj(vec![("error", s("bad"))]));
    assert!(matches!(ev, ServerEvent::ToolCallFailed { error, .. } if error == "bad"));
    let ev = tool_finished_event("r", "c", "t1", &obj(vec![("entries", Json::Array(vec![Json::Null, Json::Null]))]));
    assert!(matches!(ev, ServerEvent::ToolCallFinished { result_summary, .. } if result_summary == "2 entries"));
}

#[test]
fn agent_asks_then_streams_when_no_tool_is_called() {
    let messages = vec![user("hello")];
    let (mut st, a) = AgentLoop::start("m".into(), None, &messages, 2, false);
    match a {
        AgentAction::Ask { status, request } => {
            assert_eq!(status, "Reasoning over retrieved context (step 1 of 2)");
            let v = json_to_value(&request);
            assert_eq!(v["stream"], serde_json::Value::Bool(false));
            assert_eq!(v["tools"].as_array().unwrap().len(), 5);
        }
        other => panic!("unexpected {other:?}"),
    }
    let reply = obj(vec![("message", obj(vec![("role", s("assistant")), ("content", s("")), ("thinking", s("mull"))]))]);
    let (thinking, a) = st.on_reply(reply);
    assert_eq!(thinking.as_deref(), Some("mull"));
    match a {
        AgentAction::Stream { status, request } => {
            assert_eq!(status, "Synthesizing final answer");
            let v = json_to_value(&request);
            assert_eq!(v["stream"], serde_json::Value::Bool(true));
            assert_eq!(v["messages"].as_array().unwrap().len(), 3);
        }
        other => panic!("unexpected {other:?}"),
    }
    assert!(matches!(st.phase, AgentPhase::Finished));
}

#[test]
fn agent_runs_tool_calls_and_stops_at_the_limit() {
    let messages = vec![user("hello")];
    let (mut st, _) = AgentLoop::start("m".into(), None, &messages, 1, false);
    let call = obj(vec![("function", obj(vec![("name", s("web_fetch")), ("arguments", obj(vec![("href", s(" https://a.b "))]))]))]);
    let reply = obj(vec![("message", obj(vec![("role", s("assistant")), ("tool_calls", Json::Array(vec![call]))]))]);
    let (_, a) = st.on_reply(reply);
    match a {
        AgentAction::RunTool { status, tool_call_id, name, .. } => {
            assert_eq!(status, "Parsing website https://a.b");
            assert_eq!(tool_call_id, "tool-call-1-1");
            assert_eq!(name, "web_fetch");
        }
        other => panic!("unexpected {other:?}"),
    }
    let result = obj(vec![("url", s("https://a.b")), ("title", s("A"))]);
    let (sources, a) = st.on_tool_result(result);
    assert_eq!(sources.len(), 1);
    assert_eq!(sources[0].url, "https://a.b");
    match a {
        AgentAction::Fail { message } => assert_eq!(message, "agentic search exceeded iteration limit without final content"),
        other => panic!("unexpected {other:?}"),
    }
}

#[test]
fn agent_searches_the_web_first_when_asked() {
    let messages = vec![user("  rust news  ")];
    let (mut st, a) = AgentLoop::start("m".into(), None, &messages, 3, true);
    match a {
        AgentAction::RunTool { status, tool_call_id, name, args } => {
            assert_eq!(status, "Searching the web for: rust news");
            assert_eq!(tool_call_id, "preflight-web-search");
            assert_eq!(name, "web_search");
            assert_eq!(args, obj(vec![("query", s("rust news"))]));
        }
        other => panic!("unexpected {other:?}"),
    }
    let result = obj(vec![("results", Json::Array(vec![obj(vec![("url", s("https://x.y"))])]))]);
    let (_, a) = st.on_tool_result(result);
    match a {
        AgentAction::RunTool { tool_call_id, name, .. } => {
            assert_eq!(tool_call_id, "preflight-web-fetch-1");
            assert_eq!(name, "web_fetch");
        }
        other => panic!("unexpected {other:?}"),
    }
    let (sources, a) = st.on_tool_result(obj(vec![("url", s("https://x.y"))]));
    assert!(sources.is_empty());
    assert!(matches!(a, AgentAction::Ask { .. }));
    assert_eq!(st.convo.len(), 2);
}
