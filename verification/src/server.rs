use vstd::prelude::*;
use crate::protocol::ServerEvent;
use crate::json::{Json, JsonV, jv, jv_list, jv_entries, lemma_jv_list, lemma_jv_entries, normalize_tool_payload,
    normalize_payload_spec, parse_json, parsed_json, make_obj1, obj1, value_get, as_str_v, value_get_ref, as_str_ref,
    summarize_tool_result, summarize_spec, take_chars};
use crate::tools::{tool_name_spec, normalize_tool_name, client_tool_spec, is_client_filesystem_tool};
use crate::text::{string_from, copy_string, str_eq, push_str};
use crate::chat::truncate_for_context;
use crate::math::{parse_usize_range, parse_usize_spec};
use crate::text::to_chars;

verus! {

// ---------------------------------------------------------------------------
// The streams a connection runs.

/// `(chat, request)` of a running stream, as plain values.
pub open spec fn key_v(k: (String, String)) -> (Seq<char>, Seq<char>) {
    (k.0@, k.1@)
}

/// Whether the stream `(chat, request)` is in `s`.
pub open spec fn running_has(s: Seq<(String, String)>, chat: Seq<char>, request: Seq<char>) -> bool {
    exists|i: int| 0 <= i < s.len() && #[trigger] key_v(s[i]) == (chat, request)
}

/// No stream is listed twice.
pub open spec fn keys_distinct(s: Seq<(String, String)>) -> bool {
    forall|i: int, j: int| 0 <= i < j < s.len() ==> key_v(#[trigger] s[i]) != key_v(#[trigger] s[j])
}

/// The streams that one client connection has running, each by chat and
/// request.
pub struct ServerSession {
    pub running: Vec<(String, String)>,
}

/// What answers a request to cancel a stream.
#[derive(Debug)]
pub enum CancelOutcome {
    /// The stream runs: stop it and send this event.
    Abort(ServerEvent),
    /// The stream ended already: nothing to do.
    Ignore,
    /// No such stream: send this event.
    Reply(ServerEvent),
}

/// `s` without the stream `(chat, request)`.
fn without_key(s: &Vec<(String, String)>, chat: &str, request: &str) -> (r: Vec<(String, String)>)
    requires
        keys_distinct(s@),
    ensures
        keys_distinct(r@),
        forall|c: Seq<char>, q: Seq<char>|
            running_has(r@, c, q) <==> (running_has(s@, c, q) && (c, q) != (chat@, request@)),
{
    let mut out: Vec<(String, String)> = Vec::new();
    let mut i: usize = 0;
    while i < s.len()
        invariant
            i <= s@.len(),
            keys_distinct(s@),
            keys_distinct(out@),
            forall|k: int| 0 <= k < out@.len() ==> exists|j: int| 0 <= j < i && key_v(s@[j]) == #[trigger] key_v(out@[k]),
            forall|k: int| 0 <= k < out@.len() ==> #[trigger] key_v(out@[k]) != (chat@, request@),
            forall|c: Seq<char>, q: Seq<char>|
                running_has(out@, c, q) <==> ((exists|j: int| 0 <= j < i && #[trigger] key_v(s@[j]) == (c, q))
                    && (c, q) != (chat@, request@)),
        decreases s.len() - i,
    {
        let same = str_eq(s[i].0.as_str(), chat) && str_eq(s[i].1.as_str(), request);
        if !same {
            let ghost before = out@;
            out.push((copy_string(&s[i].0), copy_string(&s[i].1)));
            proof {
                assert(key_v(out@[out@.len() - 1]) == key_v(s@[i as int]));
                assert forall|a: int, b: int| 0 <= a < b < out@.len() implies key_v(#[trigger] out@[a]) != key_v(#[trigger] out@[b]) by {
                    if b == out@.len() - 1 {
                        let j = choose|j: int| 0 <= j < i && key_v(s@[j]) == key_v(before[a]);
                        assert(key_v(out@[a]) == key_v(before[a]));
                        assert(key_v(s@[j]) != key_v(s@[i as int]));
                    } else {
                        assert(out@[a] == before[a] && out@[b] == before[b]);
                    }
                }
                assert forall|c: Seq<char>, q: Seq<char>|
                    running_has(out@, c, q) <==> ((exists|j: int| 0 <= j < i + 1 && #[trigger] key_v(s@[j]) == (c, q))
                        && (c, q) != (chat@, request@)) by {
                    if running_has(out@, c, q) {
                        let k = choose|k: int| 0 <= k < out@.len() && #[trigger] key_v(out@[k]) == (c, q);
                        if k < before.len() {
                            assert(key_v(before[k]) == (c, q));
                            assert(running_has(before, c, q));
                        } else {
                            assert(key_v(s@[i as int]) == (c, q));
                        }
                    }
                    if (exists|j: int| 0 <= j < i + 1 && #[trigger] key_v(s@[j]) == (c, q)) && (c, q) != (chat@, request@) {
                        let j = choose|j: int| 0 <= j < i + 1 && #[trigger] key_v(s@[j]) == (c, q);
                        if j < i {
                            assert(running_has(before, c, q));
                            let k = choose|k: int| 0 <= k < before.len() && #[trigger] key_v(before[k]) == (c, q);
                            assert(key_v(out@[k]) == (c, q));
                        } else {
                            assert(key_v(out@[out@.len() - 1]) == (c, q));
                        }
                    }
                }
                assert forall|k: int| 0 <= k < out@.len() implies exists|j: int| 0 <= j < i + 1 && key_v(s@[j]) == #[trigger] key_v(out@[k]) by {
                    if k < before.len() {
                        assert(key_v(out@[k]) == key_v(before[k]));
                    } else {
                        assert(key_v(s@[i as int]) == key_v(out@[k]));
                    }
                }
            }
        } else {
            proof {
                assert forall|c: Seq<char>, q: Seq<char>|
                    running_has(out@, c, q) <==> ((exists|j: int| 0 <= j < i + 1 && #[trigger] key_v(s@[j]) == (c, q))
                        && (c, q) != (chat@, request@)) by {
                    if (exists|j: int| 0 <= j < i + 1 && #[trigger] key_v(s@[j]) == (c, q)) && (c, q) != (chat@, request@) {
                        let j = choose|j: int| 0 <= j < i + 1 && #[trigger] key_v(s@[j]) == (c, q);
                        assert(j < i);
                    }
                }
            }
        }
        i = i + 1;
    }
    proof {
        assert forall|c: Seq<char>, q: Seq<char>|
            running_has(out@, c, q) <==> (running_has(s@, c, q) && (c, q) != (chat@, request@)) by {
            if running_has(s@, c, q) {
                let j = choose|j: int| 0 <= j < s@.len() && #[trigger] key_v(s@[j]) == (c, q);
                assert(exists|j2: int| 0 <= j2 < i && #[trigger] key_v(s@[j2]) == (c, q));
            }
        }
    }
    out
}

/// Whether `s` lists the stream `(chat, request)`.
fn has_key(s: &Vec<(String, String)>, chat: &str, request: &str) -> (r: bool)
    ensures
        r == running_has(s@, chat@, request@),
{
    let mut i: usize = 0;
    while i < s.len()
        invariant
            i <= s@.len(),
            forall|k: int| 0 <= k < i ==> #[trigger] key_v(s@[k]) != (chat@, request@),
        decreases s.len() - i,
    {
        if str_eq(s[i].0.as_str(), chat) && str_eq(s[i].1.as_str(), request) {
            assert(key_v(s@[i as int]) == (chat@, request@));
            return true;
        }
        i = i + 1;
    }
    false
}

/// The `Done` event that says a stream was cancelled.
pub open spec fn cancelled_done(e: ServerEvent, chat: Seq<char>, request: Seq<char>) -> bool {
    e matches ServerEvent::Done { request_id, chat_id, status }
        && request_id@ == request && chat_id@ == chat
        && (status matches Some(s) && s@ == "cancelled"@)
}

/// The `Error` event that says there was no stream to cancel.
pub open spec fn cancel_refused(e: ServerEvent, chat: Seq<char>, request: Seq<char>) -> bool {
    e matches ServerEvent::Error { request_id, chat_id, message }
        && request_id@ == request && chat_id@ == chat && message@ == "cancelled"@
}

impl ServerSession {
    /// Each stream is listed once.
    pub open spec fn wf(&self) -> bool {
        keys_distinct(self.running@)
    }

    /// A connection with no stream running.
    pub fn new() -> (r: ServerSession)
        ensures
            r.wf(),
            r.running@.len() == 0,
    {
        ServerSession { running: Vec::new() }
    }

    /// Forgets the streams that have ended.
    pub fn prune(&mut self, finished: &Vec<(String, String)>)
        requires
            old(self).wf(),
        ensures
            final(self).wf(),
            forall|c: Seq<char>, q: Seq<char>|
                running_has(final(self).running@, c, q) <==> (running_has(old(self).running@, c, q) && !running_has(finished@, c, q)),
    {
        let mut i: usize = 0;
        while i < finished.len()
            invariant
                i <= finished@.len(),
                self.wf(),
                forall|c: Seq<char>, q: Seq<char>|
                    running_has(self.running@, c, q) <==> (running_has(old(self).running@, c, q)
                        && !(exists|j: int| 0 <= j < i && #[trigger] key_v(finished@[j]) == (c, q))),
            decreases finished.len() - i,
        {
            let next = without_key(&self.running, finished[i].0.as_str(), finished[i].1.as_str());
            self.running = next;
            i = i + 1;
            proof {
                assert forall|c: Seq<char>, q: Seq<char>|
                    running_has(self.running@, c, q) <==> (running_has(old(self).running@, c, q)
                        && !(exists|j: int| 0 <= j < i && #[trigger] key_v(finished@[j]) == (c, q))) by {
                    if exists|j: int| 0 <= j < i && #[trigger] key_v(finished@[j]) == (c, q) {
                        let j = choose|j: int| 0 <= j < i && #[trigger] key_v(finished@[j]) == (c, q);
                        if j < i - 1 {
                            assert(exists|j2: int| 0 <= j2 < i - 1 && #[trigger] key_v(finished@[j2]) == (c, q));
                        }
                    }
                    if (c, q) == key_v(finished@[i - 1]) {
                        assert(exists|j: int| 0 <= j < i && #[trigger] key_v(finished@[j]) == (c, q));
                    } else if !(exists|j: int| 0 <= j < i - 1 && #[trigger] key_v(finished@[j]) == (c, q)) {
                        assert forall|j: int| 0 <= j < i implies #[trigger] key_v(finished@[j]) != (c, q) by {
                            if j < i - 1 {
                                assert(!(0 <= j < i - 1 && key_v(finished@[j]) == (c, q)));
                            }
                        }
                    }
                }
            }
        }
        proof {
            assert forall|c: Seq<char>, q: Seq<char>|
                running_has(self.running@, c, q) <==> (running_has(old(self).running@, c, q) && !running_has(finished@, c, q)) by {
                if running_has(finished@, c, q) {
                    let j = choose|j: int| 0 <= j < finished@.len() && #[trigger] key_v(finished@[j]) == (c, q);
                    assert(exists|j2: int| 0 <= j2 < i && #[trigger] key_v(finished@[j2]) == (c, q));
                }
            }
        }
    }

    /// A new stream starts for `(chat, request)`. The result says whether a
    /// stream with the same chat and request was running; it is replaced.
    pub fn on_start(&mut self, chat_id: &str, request_id: &str) -> (replaced: bool)
        requires
            old(self).wf(),
        ensures
            final(self).wf(),
            replaced == running_has(old(self).running@, chat_id@, request_id@),
            forall|c: Seq<char>, q: Seq<char>|
                running_has(final(self).running@, c, q) <==> (running_has(old(self).running@, c, q) || (c, q) == (chat_id@, request_id@)),
    {
        let replaced = has_key(&self.running, chat_id, request_id);
        let mut next = without_key(&self.running, chat_id, request_id);
        let ghost before = next@;
        next.push((string_from(chat_id), string_from(request_id)));
        proof {
            assert forall|a: int, b: int| 0 <= a < b < next@.len() implies key_v(#[trigger] next@[a]) != key_v(#[trigger] next@[b]) by {
                if b == next@.len() - 1 {
                    assert(next@[a] == before[a]);
                    assert(running_has(before, key_v(before[a]).0, key_v(before[a]).1));
                } else {
                    assert(next@[a] == before[a] && next@[b] == before[b]);
                }
            }
            assert forall|c: Seq<char>, q: Seq<char>|
                running_has(next@, c, q) <==> (running_has(old(self).running@, c, q) || (c, q) == (chat_id@, request_id@)) by {
                if running_has(next@, c, q) {
                    let k = choose|k: int| 0 <= k < next@.len() && #[trigger] key_v(next@[k]) == (c, q);
                    if k < before.len() {
                        assert(key_v(before[k]) == (c, q));
                        assert(running_has(before, c, q));
                    }
                }
                if (c, q) == (chat_id@, request_id@) {
                    assert(key_v(next@[next@.len() - 1]) == (c, q));
                } else if running_has(old(self).running@, c, q) {
                    assert(running_has(before, c, q));
                    let k = choose|k: int| 0 <= k < before.len() && #[trigger] key_v(before[k]) == (c, q);
                    assert(key_v(next@[k]) == (c, q));
                }
            }
        }
        self.running = next;
        replaced
    }

    /// A request to cancel the stream `(chat, request)`; `finished` says
    /// whether its task has ended already. A running stream is stopped and
    /// answered with `Done` and the status "cancelled"; one that ended is
    /// forgotten silently; an unknown one is answered with the error
    /// "cancelled".
    pub fn on_cancel(&mut self, chat_id: &str, request_id: &str, finished: bool) -> (r: CancelOutcome)
        requires
            old(self).wf(),
        ensures
            final(self).wf(),
            forall|c: Seq<char>, q: Seq<char>|
                running_has(final(self).running@, c, q) <==> (running_has(old(self).running@, c, q) && (c, q) != (chat_id@, request_id@)),
            running_has(old(self).running@, chat_id@, request_id@) && !finished ==>
                (r matches CancelOutcome::Abort(e) && cancelled_done(e, chat_id@, request_id@)),
            running_has(old(self).running@, chat_id@, request_id@) && finished ==> r is Ignore,
            !running_has(old(self).running@, chat_id@, request_id@) ==>
                (r matches CancelOutcome::Reply(e) && cancel_refused(e, chat_id@, request_id@)),
    {
        let known = has_key(&self.running, chat_id, request_id);
        let next = without_key(&self.running, chat_id, request_id);
        self.running = next;
        if known {
            if finished {
                CancelOutcome::Ignore
            } else {
                let status = string_from("cancelled");
                CancelOutcome::Abort(ServerEvent::Done {
                    request_id: string_from(request_id),
                    chat_id: string_from(chat_id),
                    status: Some(status),
                })
            }
        } else {
            CancelOutcome::Reply(ServerEvent::Error {
                request_id: string_from(request_id),
                chat_id: string_from(chat_id),
                message: string_from("cancelled"),
            })
        }
    }
}

/// Starting a stream twice for one chat and request leaves one stream, and
/// cancelling it then leaves none.
pub proof fn lemma_start_cancel(s0: Seq<(String, String)>, s1: Seq<(String, String)>, s2: Seq<(String, String)>,
    chat: Seq<char>, request: Seq<char>)
    requires
        forall|c: Seq<char>, q: Seq<char>| running_has(s1, c, q) <==> (running_has(s0, c, q) || (c, q) == (chat, request)),
        forall|c: Seq<char>, q: Seq<char>| running_has(s2, c, q) <==> (running_has(s1, c, q) && (c, q) != (chat, request)),
    ensures
        running_has(s1, chat, request),
        !running_has(s2, chat, request),
        forall|c: Seq<char>, q: Seq<char>| (c, q) != (chat, request) ==> (running_has(s2, c, q) <==> running_has(s0, c, q)),
{
}

// ---------------------------------------------------------------------------
// Tool calls.

/// The address of the model server's endpoint for a web tool.
pub open spec fn web_endpoint_spec(name: Seq<char>) -> Option<Seq<char>> {
    if name == "web_search"@ {
        Some("https://ollama.com/api/web_search"@)
    } else if name == "web_fetch"@ {
        Some("https://ollama.com/api/web_fetch"@)
    } else {
        None
    }
}

/// Where a tool call is run.
#[derive(Debug)]
pub enum ToolRoute {
    /// On the connected client, which owns the files.
    Client,
    /// On the model server's web endpoint.
    Web { endpoint: String },
    /// Nowhere: the tool is unknown and this is its result.
    Missing { result: Json },
}

/// A tool call as it is run: the registered name, the arguments in the form
/// the tool takes, and where it runs.
#[derive(Debug)]
pub struct ToolPlan {
    pub name: String,
    pub payload: Json,
    pub route: ToolRoute,
}

/// A JSON string.
pub fn jstr(s: &str) -> (r: Json)
    ensures
        jv(r) == JsonV::Str(s@),
{
    Json::Str(string_from(s))
}

/// The result of a tool call that failed: `{"error": message}`.
pub fn tool_error_value(message: &str) -> (r: Json)
    ensures
        jv(r) == obj1("error"@, JsonV::Str(message@)),
{
    make_obj1("error", jstr(message))
}

/// How a tool call is run: client tools go to the client, the web tools to
/// their endpoints, and any other name gives the error "Tool <name> not
/// found".
pub fn plan_tool_call(tool_name: &str, args: Json) -> (r: ToolPlan)
    ensures
        r.name@ == tool_name_spec(tool_name@),
        jv(r.payload) == normalize_payload_spec(tool_name@, jv(args)),
        r.route is Client <==> client_tool_spec(tool_name@),
        !client_tool_spec(tool_name@) ==> match web_endpoint_spec(tool_name_spec(tool_name@)) {
            Some(e) => r.route matches ToolRoute::Web { endpoint } && endpoint@ == e,
            None => r.route matches ToolRoute::Missing { result }
                && jv(result) == obj1("error"@, JsonV::Str("Tool "@ + tool_name_spec(tool_name@) + " not found"@)),
        },
{
    let name = normalize_tool_name(tool_name);
    let payload = normalize_tool_payload(name, args);
    proof {
        reveal_strlit("webfetch");
        reveal_strlit("web_fetch");
        reveal_strlit("websearch");
        reveal_strlit("web_search");
        assert("web_fetch"@.len() != "webfetch"@.len());
        assert("web_search"@.len() != "websearch"@.len());
        assert("web_fetch"@[3] != "websearch"@[3]);
        assert(tool_name_spec(tool_name_spec(tool_name@)) == tool_name_spec(tool_name@));
    }
    let route = if is_client_filesystem_tool(name) {
        ToolRoute::Client
    } else if str_eq(name, "web_search") {
        ToolRoute::Web { endpoint: string_from("https://ollama.com/api/web_search") }
    } else if str_eq(name, "web_fetch") {
        ToolRoute::Web { endpoint: string_from("https://ollama.com/api/web_fetch") }
    } else {
        let mut msg = string_from("Tool ");
        push_str(&mut msg, name);
        push_str(&mut msg, " not found");
        ToolRoute::Missing { result: tool_error_value(msg.as_str()) }
    };
    ToolPlan { name: string_from(name), payload, route }
}

/// Most characters of a web tool's reply that are kept.
pub const TOOL_RESULT_LIMIT: usize = 8000;

/// The result of a web tool from the body of its reply: the body cut to
/// `TOOL_RESULT_LIMIT` characters, as JSON where it parses, else as
/// `{"text": ..}`.
pub open spec fn web_value_spec(body: Seq<char>) -> JsonV {
    let t = take_chars(body, TOOL_RESULT_LIMIT as int);
    match parsed_json(t) {
        Some(v) => v,
        None => obj1("text"@, JsonV::Str(t)),
    }
}

/// The result of a web tool from the body of its reply.
pub fn web_tool_value(body: &str) -> (r: Json)
    ensures
        jv(r) == web_value_spec(body@),
{
    let t = truncate_for_context(body, TOOL_RESULT_LIMIT);
    proof {
        assert(t@ == take_chars(body@, TOOL_RESULT_LIMIT as int));
    }
    match parse_json(t.as_str()) {
        Some(v) => v,
        None => make_obj1("text", Json::Str(t)),
    }
}

/// The result of a web tool whose endpoint answered with an error status.
pub fn web_tool_http_error(body: &str) -> (r: Json)
    ensures
        jv(r) == obj1("error"@, JsonV::Str("tool HTTP error: "@ + body@)),
{
    let mut msg = string_from("tool HTTP error: ");
    push_str(&mut msg, body);
    tool_error_value(msg.as_str())
}

/// The event that says a tool call starts, with its arguments as the tool
/// takes them.
pub fn tool_started_event(request_id: &str, chat_id: &str, tool_call_id: &str, plan: &ToolPlan) -> (r: ServerEvent)
    ensures
        r matches ServerEvent::ToolCallStarted { request_id: q, chat_id: c, tool_call_id: t, name, args }
            && q@ == request_id@ && c@ == chat_id@ && t@ == tool_call_id@ && name@ == plan.name@
            && jv(args) == jv(plan.payload),
{
    ServerEvent::ToolCallStarted {
        request_id: string_from(request_id),
        chat_id: string_from(chat_id),
        tool_call_id: string_from(tool_call_id),
        name: copy_string(&plan.name),
        args: crate::json::copy_json(&plan.payload),
    }
}

/// The event that says how a tool call ended: failed, with the result's
/// `error` text, or finished, with a summary of the result.
pub fn tool_finished_event(request_id: &str, chat_id: &str, tool_call_id: &str, result: &Json) -> (r: ServerEvent)
    ensures
        r.request() == request_id@,
        r.chat() == chat_id@,
        match as_str_v(value_get(jv(*result), "error"@)) {
            Some(e) => r matches ServerEvent::ToolCallFailed { tool_call_id: t, error, .. }
                && t@ == tool_call_id@ && error@ == e,
            None => r matches ServerEvent::ToolCallFinished { tool_call_id: t, result_summary, .. }
                && t@ == tool_call_id@ && result_summary@ == summarize_spec(jv(*result)),
        },
{
    match as_str_ref(value_get_ref(result, "error")) {
        Some(e) => ServerEvent::ToolCallFailed {
            request_id: string_from(request_id),
            chat_id: string_from(chat_id),
            tool_call_id: string_from(tool_call_id),
            error: string_from(e),
        },
        None => ServerEvent::ToolCallFinished {
            request_id: string_from(request_id),
            chat_id: string_from(chat_id),
            tool_call_id: string_from(tool_call_id),
            result_summary: summarize_tool_result(result),
        },
    }
}

/// The request to the client to run one of its tools.
pub fn client_tool_request_event(request_id: &str, chat_id: &str, tool_call_id: &str, plan: &ToolPlan) -> (r: ServerEvent)
    ensures
        r matches ServerEvent::ClientToolRequest { request_id: q, chat_id: c, tool_call_id: t, name, args }
            && q@ == request_id@ && c@ == chat_id@ && t@ == tool_call_id@ && name@ == plan.name@
            && jv(args) == jv(plan.payload),
{
    ServerEvent::ClientToolRequest {
        request_id: string_from(request_id),
        chat_id: string_from(chat_id),
        tool_call_id: string_from(tool_call_id),
        name: copy_string(&plan.name),
        args: crate::json::copy_json(&plan.payload),
    }
}

// ---------------------------------------------------------------------------
// The tools offered to the model.

/// An object of the given members, in order.
pub fn json_object(m: Vec<(String, Json)>) -> (r: Json)
    ensures
        jv(r) == JsonV::Object(m@.map_values(|e: (String, Json)| (e.0@, jv(e.1)))),
{
    proof {
        lemma_jv_entries(m@, 0);
        assert(jv_entries(m@, 0) =~= m@.map_values(|e: (String, Json)| (e.0@, jv(e.1))));
    }
    Json::Object(m)
}

/// A member of an object.
pub fn member(k: &str, v: Json) -> (r: (String, Json))
    ensures
        r.0@ == k@,
        r.1 == v,
{
    (string_from(k), v)
}

/// A string parameter, with its description where it has one.
pub open spec fn string_param(desc: Option<Seq<char>>) -> JsonV {
    match desc {
        Some(d) => JsonV::Object(seq![("type"@, JsonV::Str("string"@)), ("description"@, JsonV::Str(d))]),
        None => JsonV::Object(seq![("type"@, JsonV::Str("string"@))]),
    }
}

/// An integer parameter of at least 1.
pub open spec fn line_param() -> JsonV {
    JsonV::Object(seq![("type"@, JsonV::Str("integer"@)), ("minimum"@, JsonV::PosInt(1))])
}

/// The description of a tool to the model: a function with a name, a
/// description, and parameters with the required ones named and no others
/// allowed.
pub open spec fn schema_spec(name: Seq<char>, desc: Seq<char>, props: JsonV, required: Seq<Seq<char>>) -> JsonV {
    JsonV::Object(seq![
        ("type"@, JsonV::Str("function"@)),
        ("function"@, JsonV::Object(seq![
            ("name"@, JsonV::Str(name)),
            ("description"@, JsonV::Str(desc)),
            ("parameters"@, JsonV::Object(seq![
                ("type"@, JsonV::Str("object"@)),
                ("required"@, JsonV::Array(required.map_values(|r: Seq<char>| JsonV::Str(r)))),
                ("properties"@, props),
                ("additionalProperties"@, JsonV::Bool(false)),
            ])),
        ])),
    ])
}

fn string_param_value(desc: Option<&str>) -> (r: Json)
    ensures
        jv(r) == string_param(match desc { Some(d) => Some(d@), None => None }),
{
    match desc {
        Some(d) => {
            let m = vec![member("type", jstr("string")), member("description", jstr(d))];
            let r = json_object(m);
            assert(m@.map_values(|e: (String, Json)| (e.0@, jv(e.1))) =~= seq![("type"@, JsonV::Str("string"@)), ("description"@, JsonV::Str(d@))]);
            r
        },
        None => {
            let m = vec![member("type", jstr("string"))];
            let r = json_object(m);
            assert(m@.map_values(|e: (String, Json)| (e.0@, jv(e.1))) =~= seq![("type"@, JsonV::Str("string"@))]);
            r
        },
    }
}

fn line_param_value() -> (r: Json)
    ensures
        jv(r) == line_param(),
{
    let m = vec![member("type", jstr("integer")), member("minimum", Json::Number(crate::json::JsonNumber::PosInt(1)))];
    let r = json_object(m);
    assert(m@.map_values(|e: (String, Json)| (e.0@, jv(e.1))) =~= seq![("type"@, JsonV::Str("integer"@)), ("minimum"@, JsonV::PosInt(1))]);
    r
}

/// The description of a tool to the model.
pub fn tool_schema(name: &str, description: &str, properties: Json, required: &Vec<&str>) -> (r: Json)
    ensures
        jv(r) == schema_spec(name@, description@, jv(properties), required@.map_values(|s: &str| s@)),
{
    let mut req: Vec<Json> = Vec::new();
    let mut i: usize = 0;
    while i < required.len()
        invariant
            i <= required@.len(),
            req@.len() == i,
            forall|k: int| 0 <= k < i ==> #[trigger] jv(req@[k]) == JsonV::Str(required@[k]@),
        decreases required.len() - i,
    {
        req.push(jstr(required[i]));
        i = i + 1;
    }
    proof {
        lemma_jv_list(req@, 0);
        assert(jv_list(req@, 0) =~= required@.map_values(|s: &str| s@).map_values(|r: Seq<char>| JsonV::Str(r)));
    }
    let params_m = vec![
        member("type", jstr("object")),
        member("required", Json::Array(req)),
        member("properties", properties),
        member("additionalProperties", Json::Bool(false)),
    ];
    let ghost pv = params_m@.map_values(|e: (String, Json)| (e.0@, jv(e.1)));
    let params = json_object(params_m);
    let fun_m = vec![member("name", jstr(name)), member("description", jstr(description)), member("parameters", params)];
    let ghost fv = fun_m@.map_values(|e: (String, Json)| (e.0@, jv(e.1)));
    let fun = json_object(fun_m);
    let top_m = vec![member("type", jstr("function")), member("function", fun)];
    let ghost tv = top_m@.map_values(|e: (String, Json)| (e.0@, jv(e.1)));
    let r = json_object(top_m);
    proof {
        assert(pv =~= seq![
            ("type"@, JsonV::Str("object"@)),
            ("required"@, JsonV::Array(required@.map_values(|s: &str| s@).map_values(|r: Seq<char>| JsonV::Str(r)))),
            ("properties"@, jv(properties)),
            ("additionalProperties"@, JsonV::Bool(false)),
        ]);
        assert(fv =~= seq![("name"@, JsonV::Str(name@)), ("description"@, JsonV::Str(description@)), ("parameters"@, JsonV::Object(pv))]);
        assert(tv =~= seq![("type"@, JsonV::Str("function"@)), ("function"@, JsonV::Object(fv))]);
    }
    r
}

/// The parameters of `web_search`.
pub open spec fn web_search_props() -> JsonV {
    JsonV::Object(seq![("query"@, string_param(Some("The search query to send to the web search API."@)))])
}

/// The parameters of `web_fetch`.
pub open spec fn web_fetch_props() -> JsonV {
    JsonV::Object(seq![("url"@, string_param(Some("The absolute http or https URL to fetch."@)))])
}

/// The parameters of `file_list`.
pub open spec fn file_list_props() -> JsonV {
    JsonV::Object(seq![
        ("path"@, string_param(Some("Directory to list. Defaults to the current directory."@))),
        ("glob"@, string_param(Some("Optional glob pattern such as **/*.rs."@))),
    ])
}

/// The parameters of `file_read`.
pub open spec fn file_read_props() -> JsonV {
    JsonV::Object(seq![
        ("path"@, string_param(Some("File path to read."@))),
        ("start_line"@, line_param()),
        ("end_line"@, line_param()),
    ])
}

/// The parameters of `file_search`.
pub open spec fn file_search_props() -> JsonV {
    JsonV::Object(seq![
        ("query"@, string_param(None)),
        ("path"@, string_param(Some("Directory to search. Defaults to the current directory."@))),
        ("glob"@, string_param(Some("Optional glob pattern such as **/*.rs."@))),
    ])
}

/// The descriptions of the tools offered to the model, in order.
pub open spec fn schemas_v() -> Seq<JsonV> {
    seq![
        schema_spec("web_search"@,
            "Search the web for up-to-date information. Always pass the user's search text in the required `query` string field."@,
            web_search_props(), seq!["query"@]),
        schema_spec("web_fetch"@,
            "Fetch the contents of a specific web page. Always pass the target page in the required `url` string field."@,
            web_fetch_props(), seq!["url"@]),
        schema_spec("file_list"@,
            "List files in a local directory. Optional glob filters entries."@,
            file_list_props(), Seq::empty()),
        schema_spec("file_read"@,
            "Read a local file with line numbers for citations. Respects the server max file byte limit."@,
            file_read_props(), seq!["path"@]),
        schema_spec("file_search"@,
            "Search local files for a regex or literal query and return line-cited matches. Optional path and glob narrow the search."@,
            file_search_props(), seq!["query"@]),
    ]
}

/// The tools offered to the model, in order: `web_search`, `web_fetch`,
/// `file_list`, `file_read`, `file_search`.
pub fn tool_schemas() -> (r: Vec<Json>)
    ensures
        r@.len() == 5,
        r@.map_values(|j: Json| jv(j)) == schemas_v(),
        jv(r@[0]) == schema_spec("web_search"@,
            "Search the web for up-to-date information. Always pass the user's search text in the required `query` string field."@,
            web_search_props(), seq!["query"@]),
        jv(r@[1]) == schema_spec("web_fetch"@,
            "Fetch the contents of a specific web page. Always pass the target page in the required `url` string field."@,
            web_fetch_props(), seq!["url"@]),
        jv(r@[2]) == schema_spec("file_list"@,
            "List files in a local directory. Optional glob filters entries."@,
            file_list_props(), Seq::empty()),
        jv(r@[3]) == schema_spec("file_read"@,
            "Read a local file with line numbers for citations. Respects the server max file byte limit."@,
            file_read_props(), seq!["path"@]),
        jv(r@[4]) == schema_spec("file_search"@,
            "Search local files for a regex or literal query and return line-cited matches. Optional path and glob narrow the search."@,
            file_search_props(), seq!["query"@]),
{
    let m0 = vec![member("query", string_param_value(Some("The search query to send to the web search API.")))];
    let ghost v0 = m0@.map_values(|e: (String, Json)| (e.0@, jv(e.1)));
    let p0 = json_object(m0);
    let req0: Vec<&str> = vec!["query"];
    let s0 = tool_schema("web_search",
        "Search the web for up-to-date information. Always pass the user's search text in the required `query` string field.",
        p0, &req0);

    let m1 = vec![member("url", string_param_value(Some("The absolute http or https URL to fetch.")))];
    let ghost v1 = m1@.map_values(|e: (String, Json)| (e.0@, jv(e.1)));
    let p1 = json_object(m1);
    let req1: Vec<&str> = vec!["url"];
    let s1 = tool_schema("web_fetch",
        "Fetch the contents of a specific web page. Always pass the target page in the required `url` string field.",
        p1, &req1);

    let m2 = vec![
        member("path", string_param_value(Some("Directory to list. Defaults to the current directory."))),
        member("glob", string_param_value(Some("Optional glob pattern such as **/*.rs."))),
    ];
    let ghost v2 = m2@.map_values(|e: (String, Json)| (e.0@, jv(e.1)));
    let p2 = json_object(m2);
    let req2: Vec<&str> = Vec::new();
    let s2 = tool_schema("file_list", "List files in a local directory. Optional glob filters entries.", p2, &req2);

    let m3 = vec![
        member("path", string_param_value(Some("File path to read."))),
        member("start_line", line_param_value()),
        member("end_line", line_param_value()),
    ];
    let ghost v3 = m3@.map_values(|e: (String, Json)| (e.0@, jv(e.1)));
    let p3 = json_object(m3);
    let req3: Vec<&str> = vec!["path"];
    let s3 = tool_schema("file_read",
        "Read a local file with line numbers for citations. Respects the server max file byte limit.", p3, &req3);

    let m4 = vec![
        member("query", string_param_value(None)),
        member("path", string_param_value(Some("Directory to search. Defaults to the current directory."))),
        member("glob", string_param_value(Some("Optional glob pattern such as **/*.rs."))),
    ];
    let ghost v4 = m4@.map_values(|e: (String, Json)| (e.0@, jv(e.1)));
    let p4 = json_object(m4);
    let req4: Vec<&str> = vec!["query"];
    let s4 = tool_schema("file_search",
        "Search local files for a regex or literal query and return line-cited matches. Optional path and glob narrow the search.",
        p4, &req4);
    proof {
        assert(v0 =~= seq![("query"@, string_param(Some("The search query to send to the web search API."@)))]);
        assert(v1 =~= seq![("url"@, string_param(Some("The absolute http or https URL to fetch."@)))]);
        assert(v2 =~= seq![
            ("path"@, string_param(Some("Directory to list. Defaults to the current directory."@))),
            ("glob"@, string_param(Some("Optional glob pattern such as **/*.rs."@))),
        ]);
        assert(v3 =~= seq![("path"@, string_param(Some("File path to read."@))), ("start_line"@, line_param()), ("end_line"@, line_param())]);
        assert(v4 =~= seq![
            ("query"@, string_param(None)),
            ("path"@, string_param(Some("Directory to search. Defaults to the current directory."@))),
            ("glob"@, string_param(Some("Optional glob pattern such as **/*.rs."@))),
        ]);
        assert(req0@.map_values(|s: &str| s@) =~= seq!["query"@]);
        assert(req1@.map_values(|s: &str| s@) =~= seq!["url"@]);
        assert(req2@.map_values(|s: &str| s@) =~= Seq::<Seq<char>>::empty());
        assert(req3@.map_values(|s: &str| s@) =~= seq!["path"@]);
        assert(req4@.map_values(|s: &str| s@) =~= seq!["query"@]);
    }
    let r = vec![s0, s1, s2, s3, s4];
    assert(r@.map_values(|j: Json| jv(j)) =~= schemas_v());
    r
}

// ---------------------------------------------------------------------------
// The server's command line.

/// The address the server listens on unless told otherwise.
pub open spec fn default_addr() -> Seq<char> { "0.0.0.0:7878"@ }

/// Tool steps of one answer unless told otherwise.
pub const DEFAULT_MAX_TOOL_ITERS: usize = 12;

/// How the server runs.
#[derive(Debug)]
pub struct ServerConfig {
    pub server_addr: String,
    pub max_tool_iters: usize,
}

/// What the command line asks for.
#[derive(Debug)]
pub enum ServerArgs {
    Run(ServerConfig),
    Help,
}

/// The usage text.
pub open spec fn usage_text() -> Seq<char> {
    "Usage: tuillama-server [--addr <IP:PORT>] [--max-tool-iters <N>]\n\nDefaults:\n  --addr 0.0.0.0:7878\n  --max-tool-iters 12"@
}

/// The usage text.
pub fn server_usage() -> (r: String)
    ensures
        r@ == usage_text(),
{
    string_from("Usage: tuillama-server [--addr <IP:PORT>] [--max-tool-iters <N>]\n\nDefaults:\n  --addr 0.0.0.0:7878\n  --max-tool-iters 12")
}

/// What the arguments `args[i..]` ask for, from the configuration so far:
/// `--addr <a>`, `--max-tool-iters <n>` (a positive integer), `--help` or
/// `-h`; anything else is an error.
pub open spec fn server_args_spec(args: Seq<Seq<char>>, i: int, addr: Seq<char>, iters: nat) -> Result<Option<(Seq<char>, nat)>, Seq<char>>
    decreases args.len() - i,
{
    if i < 0 || i >= args.len() {
        Ok(Some((addr, iters)))
    } else if args[i] == "--addr"@ {
        if i + 1 < args.len() { server_args_spec(args, i + 2, args[i + 1], iters) } else { Err("missing value for --addr"@) }
    } else if args[i] == "--max-tool-iters"@ {
        if i + 1 < args.len() {
            match parse_usize_spec(args[i + 1]) {
                Some(n) => if n == 0 { Err("--max-tool-iters must be greater than 0"@) } else { server_args_spec(args, i + 2, addr, n) },
                None => Err("invalid value for --max-tool-iters"@),
            }
        } else {
            Err("missing value for --max-tool-iters"@)
        }
    } else if args[i] == "--help"@ || args[i] == "-h"@ {
        Ok(None)
    } else {
        Err("unknown argument: "@ + args[i] + ". Use --help for usage."@)
    }
}

/// Reads the server's command line (without the program's name).
pub fn parse_server_config(args: &Vec<String>) -> (r: Result<ServerArgs, String>)
    ensures
        ({
            let spec = server_args_spec(args@.map_values(|a: String| a@), 0, default_addr(), DEFAULT_MAX_TOOL_ITERS as nat);
            match r {
                Ok(ServerArgs::Run(c)) => spec == Ok::<Option<(Seq<char>, nat)>, Seq<char>>(Some((c.server_addr@, c.max_tool_iters as nat))),
                Ok(ServerArgs::Help) => spec == Ok::<Option<(Seq<char>, nat)>, Seq<char>>(None),
                Err(m) => spec == Err::<Option<(Seq<char>, nat)>, Seq<char>>(m@),
            }
        }),
{
    let ghost av = args@.map_values(|a: String| a@);
    let mut addr = string_from("0.0.0.0:7878");
    let mut iters: usize = DEFAULT_MAX_TOOL_ITERS;
    let mut i: usize = 0;
    proof {
        reveal_strlit("--addr");
        reveal_strlit("--max-tool-iters");
        reveal_strlit("--help");
        reveal_strlit("-h");
    }
    while i < args.len()
        invariant
            i <= args@.len(),
            av == args@.map_values(|a: String| a@),
            server_args_spec(av, 0, default_addr(), DEFAULT_MAX_TOOL_ITERS as nat)
                == server_args_spec(av, i as int, addr@, iters as nat),
        decreases args.len() - i,
    {
        let a = args[i].as_str();
        assert(av[i as int] == a@);
        if str_eq(a, "--addr") {
            if i + 1 < args.len() {
                addr = copy_string(&args[i + 1]);
                assert(av[i + 1] == addr@);
                i = i + 2;
            } else {
                return Err(string_from("missing value for --addr"));
            }
        } else if str_eq(a, "--max-tool-iters") {
            if i + 1 < args.len() {
                let v = to_chars(args[i + 1].as_str());
                assert(v@ == av[i + 1]);
                match parse_usize_range(&v, 0, v.len()) {
                    Some(n) => {
                        assert(v@.subrange(0, v@.len() as int) =~= v@);
                        if n == 0 {
                            return Err(string_from("--max-tool-iters must be greater than 0"));
                        }
                        iters = n;
                        i = i + 2;
                    },
                    None => {
                        assert(v@.subrange(0, v@.len() as int) =~= v@);
                        return Err(string_from("invalid value for --max-tool-iters"));
                    },
                }
            } else {
                return Err(string_from("missing value for --max-tool-iters"));
            }
        } else if str_eq(a, "--help") || str_eq(a, "-h") {
            return Ok(ServerArgs::Help);
        } else {
            let mut m = string_from("unknown argument: ");
            push_str(&mut m, a);
            push_str(&mut m, ". Use --help for usage.");
            return Err(m);
        }
    }
    Ok(ServerArgs::Run(ServerConfig { server_addr: addr, max_tool_iters: iters }))
}

/// Whether the value of `TUILLAMA_DEBUG_WEB` turns on the debug log.
pub fn debug_enabled_by(value: Option<&str>) -> (r: bool)
    ensures
        r == (match value {
            Some(v) => v@ == "1"@ || v@ == "true"@ || v@ == "TRUE"@ || v@ == "yes"@ || v@ == "YES"@,
            None => false,
        }),
{
    match value {
        Some(v) => str_eq(v, "1") || str_eq(v, "true") || str_eq(v, "TRUE") || str_eq(v, "yes") || str_eq(v, "YES"),
        None => false,
    }
}

} // verus!
