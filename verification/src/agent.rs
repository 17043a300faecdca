use vstd::prelude::*;
use crate::chat::{Message, Source, latest_user_query, last_user_query_index, truncate_for_context};
use crate::json::{Json, JsonV, jv, jv_list, lemma_jv_list, obj1, value_get, as_str_v, as_array_v, value_get_ref,
    as_str_ref, make_obj1, normalize_tool_payload, normalize_payload_spec, json_to_text, json_text, copy_json,
    take_chars, collect_urls, urls_fold, sources_from_value, sources_fold, source_v, sources_v, message_json_spec,
    message_to_ollama_json};
use crate::chat::strings_view;
use crate::server::{jstr, json_object, member, tool_schemas, schemas_v, TOOL_RESULT_LIMIT};
use crate::text::{string_from, copy_string, push_str, decimal, push_decimal, str_eq, trim_spec};
use crate::tools::{tool_name_spec, normalize_tool_name, urls_in_text, extract_urls_from_text};

verus! {

// ---------------------------------------------------------------------------
// The messages and requests of the tool loop, as plain values.

/// A message with a role and a text.
pub open spec fn text_message(role: Seq<char>, content: Seq<char>) -> JsonV {
    JsonV::Object(seq![("role"@, JsonV::Str(role)), ("content"@, JsonV::Str(content))])
}

/// The result of a tool, as the conversation carries it.
pub open spec fn tool_message(name: Seq<char>, content: Seq<char>) -> JsonV {
    JsonV::Object(seq![("role"@, JsonV::Str("tool"@)), ("tool_name"@, JsonV::Str(name)), ("content"@, JsonV::Str(content))])
}

/// Options as plain values.
pub open spec fn opts_v(o: Option<Json>) -> Option<JsonV> {
    match o {
        Some(x) => Some(jv(x)),
        None => None,
    }
}

/// The options of a request: those given, or `null`.
pub open spec fn options_v(o: Option<JsonV>) -> JsonV {
    match o {
        Some(v) => v,
        None => JsonV::Null,
    }
}

/// A request to the model that may call tools: the reply comes whole.
pub open spec fn ask_request(model: Seq<char>, convo: Seq<JsonV>, options: Option<JsonV>, tools: Seq<JsonV>) -> JsonV {
    JsonV::Object(seq![
        ("model"@, JsonV::Str(model)),
        ("messages"@, JsonV::Array(convo)),
        ("stream"@, JsonV::Bool(false)),
        ("think"@, JsonV::Bool(true)),
        ("options"@, options_v(options)),
        ("tools"@, JsonV::Array(tools)),
    ])
}

/// The request for the final answer, which streams and offers no tool.
pub open spec fn final_request(model: Seq<char>, convo: Seq<JsonV>, options: Option<JsonV>) -> JsonV {
    JsonV::Object(seq![
        ("model"@, JsonV::Str(model)),
        ("messages"@, JsonV::Array(convo)),
        ("stream"@, JsonV::Bool(true)),
        ("think"@, JsonV::Bool(true)),
        ("options"@, options_v(options)),
    ])
}

/// The status shown while the model is asked for the `k`-th time of at
/// most `max`.
pub open spec fn step_status(k: nat, max: nat) -> Seq<char> {
    "Reasoning over retrieved context (step "@ + decimal(k) + " of "@ + decimal(max) + ")"@
}

/// The instruction that ends tool use.
pub open spec fn finish_text() -> Seq<char> {
    "Tool use is complete. Stream the final answer now. Cite sources by URL when useful."@
}

/// The message that carries what the web gave before the first request.
pub open spec fn web_context_message(context: JsonV) -> JsonV {
    text_message("system"@, "Use the following live web retrieval data to answer with citations (URLs): "@
        + take_chars(json_text(context), TOOL_RESULT_LIMIT as int))
}

/// What the web gave: the search and the pages fetched after it, or only
/// the pages of the URLs that the question names.
pub open spec fn web_context(search: Option<JsonV>, fetches: Seq<JsonV>) -> JsonV {
    match search {
        Some(s) => JsonV::Object(seq![
            ("mode"@, JsonV::Str("search_then_fetch"@)),
            ("search"@, s),
            ("fetch"@, JsonV::Array(fetches)),
        ]),
        None => JsonV::Object(seq![
            ("mode"@, JsonV::Str("direct_url_fetch"@)),
            ("fetch"@, JsonV::Array(fetches)),
        ]),
    }
}

/// The first three of `s`.
pub open spec fn first_three(s: Seq<Seq<char>>) -> Seq<Seq<char>> {
    if s.len() > 3 { s.take(3) } else { s }
}

/// The question of the conversation: the last user message with text, trimmed.
pub open spec fn latest_query_spec(ms: Seq<Message>) -> Option<Seq<char>> {
    match last_user_query_index(ms, ms.len() as int) {
        Some(i) => Some(trim_spec(ms[i].content@)),
        None => None,
    }
}

// ---------------------------------------------------------------------------
// Tool calls that the model asks for.

/// The `function` member of a tool call, or an empty object.
pub open spec fn call_function(tc: JsonV) -> JsonV {
    match value_get(tc, "function"@) {
        Some(f) => f,
        None => JsonV::Object(Seq::empty()),
    }
}

/// The name of the tool a call asks for, or "unknown_tool".
pub open spec fn call_name(tc: JsonV) -> Seq<char> {
    match as_str_v(value_get(call_function(tc), "name"@)) {
        Some(n) => n,
        None => "unknown_tool"@,
    }
}

/// The arguments of a call, or an empty object.
pub open spec fn call_args(tc: JsonV) -> JsonV {
    match value_get(call_function(tc), "arguments"@) {
        Some(a) => a,
        None => JsonV::Object(Seq::empty()),
    }
}

/// The status shown while a call runs.
pub open spec fn call_status(tc: JsonV) -> Seq<char> {
    let n = tool_name_spec(call_name(tc));
    if n == "web_search"@ {
        "Running a web search"@
    } else if n == "web_fetch"@ {
        match as_str_v(value_get(normalize_payload_spec(call_name(tc), call_args(tc)), "url"@)) {
            Some(u) => "Parsing website "@ + u,
            None => "Parsing website"@,
        }
    } else {
        "Running tool "@ + n
    }
}

/// The id of the call, or one made of the step and the call's place in it.
pub open spec fn call_id(tc: JsonV, step: nat, idx: nat) -> Seq<char> {
    match as_str_v(value_get(tc, "id"@)) {
        Some(i) => i,
        None => "tool-call-"@ + decimal(step) + "-"@ + decimal(idx + 1),
    }
}

// ---------------------------------------------------------------------------
// Sources.

/// The sources of `found[..n]` whose URL is not in `seen` nor earlier among
/// them, and `seen` with their URLs added.
pub open spec fn fresh_upto(seen: Seq<Seq<char>>, found: Seq<(Seq<char>, Seq<char>, Seq<char>)>, n: int)
    -> (Seq<(Seq<char>, Seq<char>, Seq<char>)>, Seq<Seq<char>>)
    decreases n,
{
    if n <= 0 || n > found.len() {
        (Seq::empty(), seen)
    } else {
        let (o, sn) = fresh_upto(seen, found, n - 1);
        let s = found[n - 1];
        if sn.contains(s.1) {
            (o, sn)
        } else {
            (o.push(s), sn.push(s.1))
        }
    }
}

// ---------------------------------------------------------------------------
// The loop.

/// What the loop waits for.
#[derive(Debug)]
pub enum AgentPhase {
    /// The web search for the question runs.
    Search { query: String },
    /// The page `urls[fetches.len()]` is fetched.
    Fetch { search: Option<Json>, urls: Vec<String>, fetches: Vec<Json> },
    /// The model is asked.
    Ask,
    /// The call `calls[next]` runs.
    Tools { calls: Vec<Json>, next: usize },
    /// Nothing: the loop is over.
    Finished,
}

/// What the server does next for the loop.
#[derive(Debug)]
pub enum AgentAction {
    /// Shows the status, then runs the tool and hands its result back.
    RunTool { status: String, tool_call_id: String, name: String, args: Json },
    /// Shows the status, then asks the model and hands its reply back.
    Ask { status: String, request: Json },
    /// Shows the status, then streams the final answer.
    Stream { status: String, request: Json },
    /// Ends the stream with this error.
    Fail { message: String },
}

/// The state of the tool loop of one answer: the conversation so far, the
/// tools offered, how many times the model was asked, the source URLs
/// already shown, and what it waits for.
#[derive(Debug)]
pub struct AgentLoop {
    pub model: String,
    pub options: Option<Json>,
    pub tools: Vec<Json>,
    pub convo: Vec<Json>,
    pub max_iters: usize,
    pub iter: usize,
    pub seen_urls: Vec<String>,
    pub phase: AgentPhase,
}

/// The conversation as plain values.
pub open spec fn convo_v(c: Seq<Json>) -> Seq<JsonV> {
    c.map_values(|j: Json| jv(j))
}

/// `a` runs the tool call `tc`, the `idx`-th of step `step`.
pub open spec fn is_call_action(a: AgentAction, tc: JsonV, step: nat, idx: nat) -> bool {
    a matches AgentAction::RunTool { status, tool_call_id, name, args }
        && status@ == call_status(tc) && tool_call_id@ == call_id(tc, step, idx)
        && name@ == call_name(tc) && jv(args) == call_args(tc)
}

/// `a` fetches `url`, the `k`-th page of the web step before the first request.
pub open spec fn is_fetch_action(a: AgentAction, url: Seq<char>, k: nat) -> bool {
    a matches AgentAction::RunTool { status, tool_call_id, name, args }
        && status@ == "Parsing website "@ + url && tool_call_id@ == "preflight-web-fetch-"@ + decimal(k)
        && name@ == "web_fetch"@ && jv(args) == obj1("url"@, JsonV::Str(url))
}

impl AgentLoop {
    /// The loop's own bounds: the steps taken stay within the limit, the
    /// calls and pages waited for exist, and no source URL is kept twice.
    pub open spec fn wf(&self) -> bool {
        &&& self.iter <= self.max_iters
        &&& strings_view(self.seen_urls@).no_duplicates()
        &&& (self.phase matches AgentPhase::Fetch { urls, fetches, .. } ==> fetches@.len() < urls@.len())
        &&& (self.phase matches AgentPhase::Tools { calls, next } ==> next < calls@.len())
    }

    /// Whether the loop waits for the result of a tool.
    pub open spec fn waits_for_tool(&self) -> bool {
        self.phase is Search || self.phase is Fetch || self.phase is Tools
    }

    /// `a` asks the model again after `old_iter` steps, or fails when the
    /// limit is reached.
    pub open spec fn asked(&self, old_iter: usize, a: AgentAction) -> bool {
        if old_iter >= self.max_iters {
            &&& self.iter == old_iter
            &&& self.phase is Finished
            &&& a matches AgentAction::Fail { message }
                && message@ == "agentic search exceeded iteration limit without final content"@
        } else {
            &&& self.iter == old_iter + 1
            &&& self.phase is Ask
            &&& a matches AgentAction::Ask { status, request }
                && status@ == step_status(self.iter as nat, self.max_iters as nat)
                && jv(request) == ask_request(self.model@, convo_v(self.convo@),
                    opts_v(self.options), convo_v(self.tools@))
        }
    }

    /// The fields that no step changes.
    pub open spec fn same_setup(&self, other: &AgentLoop) -> bool {
        &&& self.model@ == other.model@
        &&& (opts_v(self.options))
            == (opts_v(other.options))
        &&& convo_v(self.tools@) == convo_v(other.tools@)
        &&& self.max_iters == other.max_iters
    }
}

// ---------------------------------------------------------------------------
// Building the values.

/// Copies of the values of `v`.
pub fn copy_json_list(v: &Vec<Json>) -> (r: Vec<Json>)
    ensures
        convo_v(r@) == convo_v(v@),
{
    let mut out: Vec<Json> = Vec::new();
    let mut i: usize = 0;
    while i < v.len()
        invariant
            i <= v@.len(),
            out@.len() == i,
            forall|k: int| 0 <= k < i ==> #[trigger] jv(out@[k]) == jv(v@[k]),
        decreases v.len() - i,
    {
        out.push(copy_json(&v[i]));
        i = i + 1;
    }
    assert(convo_v(out@) =~= convo_v(v@));
    out
}

/// An array of copies of the values of `v`.
fn array_of(v: &Vec<Json>) -> (r: Json)
    ensures
        jv(r) == JsonV::Array(convo_v(v@)),
{
    let c = copy_json_list(v);
    proof {
        lemma_jv_list(c@, 0);
        assert(jv_list(c@, 0) =~= convo_v(c@));
    }
    Json::Array(c)
}

fn copy_options(o: &Option<Json>) -> (r: Json)
    ensures
        jv(r) == options_v(opts_v(*o)),
{
    match o {
        Some(x) => copy_json(x),
        None => Json::Null,
    }
}

/// A message with a role and a text.
pub fn text_message_value(role: &str, content: String) -> (r: Json)
    ensures
        jv(r) == text_message(role@, content@),
{
    let m = vec![member("role", jstr(role)), member("content", Json::Str(content))];
    let r = json_object(m);
    assert(m@.map_values(|e: (String, Json)| (e.0@, jv(e.1))) =~= seq![("role"@, JsonV::Str(role@)), ("content"@, JsonV::Str(content@))]);
    r
}

/// The status shown while the model is asked for the `k`-th time.
pub fn step_status_text(k: usize, max: usize) -> (r: String)
    ensures
        r@ == step_status(k as nat, max as nat),
{
    let mut s = string_from("Reasoning over retrieved context (step ");
    push_decimal(&mut s, k as u64);
    push_str(&mut s, " of ");
    push_decimal(&mut s, max as u64);
    push_str(&mut s, ")");
    s
}

/// The run of the `k`-th page fetch of the web step.
fn fetch_action(url: &str, k: usize) -> (r: AgentAction)
    ensures
        is_fetch_action(r, url@, k as nat),
{
    let mut status = string_from("Parsing website ");
    push_str(&mut status, url);
    let mut id = string_from("preflight-web-fetch-");
    push_decimal(&mut id, k as u64);
    AgentAction::RunTool { status, tool_call_id: id, name: string_from("web_fetch"), args: make_obj1("url", jstr(url)) }
}

/// The run of a tool call of the model, the `idx`-th of step `step`.
fn call_action(tc: &Json, step: usize, idx: usize) -> (r: AgentAction)
    requires
        idx < usize::MAX,
    ensures
        is_call_action(r, jv(*tc), step as nat, idx as nat),
{
    let empty: Vec<(String, Json)> = Vec::new();
    let empty_obj = Json::Object(empty);
    proof {
        assert(crate::json::jv_entries(empty@, 0) =~= Seq::<(Seq<char>, JsonV)>::empty());
    }
    let f: &Json = match value_get_ref(tc, "function") {
        Some(f) => f,
        None => &empty_obj,
    };
    let name: &str = match as_str_ref(value_get_ref(f, "name")) {
        Some(n) => n,
        None => "unknown_tool",
    };
    let args: Json = match value_get_ref(f, "arguments") {
        Some(a) => copy_json(a),
        None => Json::Object(Vec::new()),
    };
    proof {
        assert(crate::json::jv_entries(Seq::<(String, Json)>::empty(), 0) =~= Seq::<(Seq<char>, JsonV)>::empty());
    }
    let n = normalize_tool_name(name);
    let status = if str_eq(n, "web_search") {
        string_from("Running a web search")
    } else if str_eq(n, "web_fetch") {
        let p = normalize_tool_payload(name, copy_json(&args));
        match as_str_ref(value_get_ref(&p, "url")) {
            Some(u) => {
                let mut s = string_from("Parsing website ");
                push_str(&mut s, u);
                s
            },
            None => string_from("Parsing website"),
        }
    } else {
        let mut s = string_from("Running tool ");
        push_str(&mut s, n);
        s
    };
    let id = match as_str_ref(value_get_ref(tc, "id")) {
        Some(i) => string_from(i),
        None => {
            let mut s = string_from("tool-call-");
            push_decimal(&mut s, step as u64);
            push_str(&mut s, "-");
            push_decimal(&mut s, (idx + 1) as u64);
            s
        },
    };
    AgentAction::RunTool { status, tool_call_id: id, name: string_from(name), args }
}

/// The sources of a tool result whose URLs were not shown yet, in order;
/// their URLs are added to `seen`.
pub fn fresh_sources(seen: &mut Vec<String>, value: &Json) -> (r: Vec<Source>)
    requires
        strings_view(old(seen)@).no_duplicates(),
    ensures
        strings_view(final(seen)@).no_duplicates(),
        ({
            let f = fresh_upto(strings_view(old(seen)@), sources_fold(jv(*value), Seq::empty()),
                sources_fold(jv(*value), Seq::empty()).len() as int);
            sources_v(r@) == f.0 && strings_view(final(seen)@) == f.1
        }),
{
    let found = sources_from_value(value);
    let mut out: Vec<Source> = Vec::new();
    let mut i: usize = 0;
    while i < found.len()
        invariant
            i <= found@.len(),
            strings_view(seen@).no_duplicates(),
            ({
                let f = fresh_upto(strings_view(old(seen)@), sources_v(found@), i as int);
                sources_v(out@) == f.0 && strings_view(seen@) == f.1
            }),
        decreases found.len() - i,
    {
        let src = &found[i];
        let known = crate::json::contains_string_pub(seen, src.url.as_str());
        proof {
            assert(sources_v(found@)[i as int] == source_v(found@[i as int]));
        }
        if !known {
            let ghost so = sources_v(out@);
            let ghost sn = strings_view(seen@);
            out.push(Source { title: copy_string(&src.title), url: copy_string(&src.url), snippet: copy_string(&src.snippet) });
            seen.push(copy_string(&src.url));
            proof {
                assert(sources_v(out@) =~= so.push(source_v(found@[i as int])));
                assert(strings_view(seen@) =~= sn.push(found@[i as int].url@));
            }
        }
        i = i + 1;
    }
    out
}

impl AgentLoop {
    /// Asks the model once more, or fails when the limit of steps is reached.
    fn ask(&mut self) -> (r: AgentAction)
        requires
            old(self).iter <= old(self).max_iters,
        ensures
            final(self).asked(old(self).iter, r),
            convo_v(final(self).convo@) == convo_v(old(self).convo@),
            final(self).seen_urls@ == old(self).seen_urls@,
            final(self).same_setup(old(self)),
            final(self).model == old(self).model,
            final(self).options == old(self).options,
            final(self).tools == old(self).tools,
            final(self).convo == old(self).convo,
    {
        if self.iter >= self.max_iters {
            self.phase = AgentPhase::Finished;
            return AgentAction::Fail { message: string_from("agentic search exceeded iteration limit without final content") };
        }
        self.iter = self.iter + 1;
        self.phase = AgentPhase::Ask;
        let status = step_status_text(self.iter, self.max_iters);
        let m = vec![
            member("model", Json::Str(copy_string(&self.model))),
            member("messages", array_of(&self.convo)),
            member("stream", Json::Bool(false)),
            member("think", Json::Bool(true)),
            member("options", copy_options(&self.options)),
            member("tools", array_of(&self.tools)),
        ];
        let ghost mv = m@.map_values(|e: (String, Json)| (e.0@, jv(e.1)));
        let request = json_object(m);
        proof {
            assert(mv =~= seq![
                ("model"@, JsonV::Str(self.model@)),
                ("messages"@, JsonV::Array(convo_v(self.convo@))),
                ("stream"@, JsonV::Bool(false)),
                ("think"@, JsonV::Bool(true)),
                ("options"@, options_v(opts_v(self.options))),
                ("tools"@, JsonV::Array(convo_v(self.tools@))),
            ]);
        }
        AgentAction::Ask { status, request }
    }

    /// Adds what the web gave to the conversation.
    fn push_web_context(&mut self, context: &Json)
        ensures
            convo_v(final(self).convo@) == convo_v(old(self).convo@).push(web_context_message(jv(*context))),
            final(self).model == old(self).model,
            final(self).options == old(self).options,
            final(self).tools == old(self).tools,
            final(self).max_iters == old(self).max_iters,
            final(self).iter == old(self).iter,
            final(self).seen_urls == old(self).seen_urls,
            final(self).phase == old(self).phase,
    {
        let text = json_to_text(context);
        let cut = truncate_for_context(text.as_str(), TOOL_RESULT_LIMIT);
        let mut content = string_from("Use the following live web retrieval data to answer with citations (URLs): ");
        push_str(&mut content, cut.as_str());
        proof {
            assert(cut@ == take_chars(json_text(jv(*context)), TOOL_RESULT_LIMIT as int));
        }
        let msg = text_message_value("system", content);
        let ghost before = self.convo@;
        self.convo.push(msg);
        assert(convo_v(self.convo@) =~= convo_v(before).push(jv(msg)));
    }
}

/// The conversation sent to the model: each message as its chat API takes it.
pub fn convo_of(messages: &Vec<Message>) -> (r: Vec<Json>)
    ensures
        convo_v(r@) == messages@.map_values(|m: Message| message_json_spec(m)),
{
    let mut out: Vec<Json> = Vec::new();
    let mut i: usize = 0;
    while i < messages.len()
        invariant
            i <= messages@.len(),
            out@.len() == i,
            forall|k: int| 0 <= k < i ==> #[trigger] jv(out@[k]) == message_json_spec(messages@[k]),
        decreases messages.len() - i,
    {
        out.push(message_to_ollama_json(&messages[i]));
        i = i + 1;
    }
    assert(convo_v(out@) =~= messages@.map_values(|m: Message| message_json_spec(m)));
    out
}

/// The first `n` of `v`, copied.
fn first_urls(v: &Vec<String>, n: usize) -> (r: Vec<String>)
    ensures
        strings_view(r@) == (if strings_view(v@).len() > n { strings_view(v@).take(n as int) } else { strings_view(v@) }),
{
    let mut out: Vec<String> = Vec::new();
    let mut i: usize = 0;
    while i < v.len() && i < n
        invariant
            i <= v@.len(),
            i <= n,
            strings_view(out@) == strings_view(v@).take(i as int),
        decreases v.len() - i,
    {
        let ghost before = out@;
        out.push(copy_string(&v[i]));
        i = i + 1;
        proof {
            assert(strings_view(out@) =~= strings_view(before).push(v@[i - 1]@));
            assert(strings_view(v@).take(i as int) =~= strings_view(v@).take(i - 1).push(v@[i - 1]@));
        }
    }
    proof {
        if strings_view(v@).len() <= n {
            assert(strings_view(v@).take(i as int) =~= strings_view(v@));
        }
    }
    out
}

impl AgentLoop {
    /// The loop for one answer. When the user asked for the web and the
    /// conversation has a question, the web comes first: the pages of the
    /// URLs the question names, or else a search for it; otherwise the
    /// model is asked at once.
    pub fn start(model: String, options: Option<Json>, messages: &Vec<Message>, max_iters: usize, web_search: bool)
        -> (r: (AgentLoop, AgentAction))
        ensures
            r.0.wf(),
            r.0.model@ == model@,
            opts_v(r.0.options) == opts_v(options),
            convo_v(r.0.tools@) == schemas_v(),
            r.0.max_iters == max_iters,
            convo_v(r.0.convo@) == messages@.map_values(|m: Message| message_json_spec(m)),
            strings_view(r.0.seen_urls@) == Seq::<Seq<char>>::empty(),
            match (if web_search { latest_query_spec(messages@) } else { None }) {
                Some(q) => r.0.iter == 0 && if urls_in_text(q).len() == 0 {
                    &&& r.0.phase matches AgentPhase::Search { query } && query@ == q
                    &&& r.1 matches AgentAction::RunTool { status, tool_call_id, name, args }
                        && status@ == "Searching the web for: "@ + q && tool_call_id@ == "preflight-web-search"@
                        && name@ == "web_search"@ && jv(args) == obj1("query"@, JsonV::Str(q))
                } else {
                    &&& r.0.phase matches AgentPhase::Fetch { search, urls, fetches }
                        && search is None && strings_view(urls@) == urls_in_text(q) && fetches@.len() == 0
                    &&& is_fetch_action(r.1, urls_in_text(q)[0], 1)
                },
                None => r.0.asked(0, r.1),
            },
    {
        let convo = convo_of(messages);
        let tools = tool_schemas();
        let mut st = AgentLoop {
            model,
            options,
            tools,
            convo,
            max_iters,
            iter: 0,
            seen_urls: Vec::new(),
            phase: AgentPhase::Finished,
        };
        proof {
            assert(strings_view(st.seen_urls@) =~= Seq::<Seq<char>>::empty());
        }
        if web_search {
            match latest_user_query(messages) {
                Some(q) => {
                    proof {
                        assert(latest_query_spec(messages@) == Some(q@));
                    }
                    let direct = extract_urls_from_text(q.as_str());
                    proof {
                        assert(strings_view(direct@) == urls_in_text(q@));
                    }
                    if direct.len() == 0 {
                        let mut status = string_from("Searching the web for: ");
                        push_str(&mut status, q.as_str());
                        let args = make_obj1("query", jstr(q.as_str()));
                        st.phase = AgentPhase::Search { query: q };
                        let a = AgentAction::RunTool {
                            status,
                            tool_call_id: string_from("preflight-web-search"),
                            name: string_from("web_search"),
                            args,
                        };
                        return (st, a);
                    } else {
                        let a = fetch_action(direct[0].as_str(), 1);
                        st.phase = AgentPhase::Fetch { search: None, urls: direct, fetches: Vec::new() };
                        return (st, a);
                    }
                },
                None => {},
            }
        }
        let a = st.ask();
        (st, a)
    }

    /// The result of the tool that ran. Its new sources are handed out to
    /// be shown. After the web search, its first three URLs are fetched;
    /// after the last page, what the web gave joins the conversation and the
    /// model is asked; after a call of the model, its result joins the
    /// conversation and the next call runs, or the model is asked again.
    pub fn on_tool_result(&mut self, result: Json) -> (r: (Vec<Source>, AgentAction))
        requires
            old(self).wf(),
            old(self).waits_for_tool(),
        ensures
            final(self).wf(),
            final(self).same_setup(old(self)),
            ({
                let found = sources_fold(jv(result), Seq::empty());
                let f = fresh_upto(strings_view(old(self).seen_urls@), found, found.len() as int);
                sources_v(r.0@) == f.0 && strings_view(final(self).seen_urls@) == f.1
            }),
            match old(self).phase {
                AgentPhase::Search { .. } => {
                    let urls = first_three(urls_fold(jv(result), Seq::empty()));
                    if urls.len() == 0 {
                        &&& convo_v(final(self).convo@) == convo_v(old(self).convo@).push(
                            web_context_message(web_context(Some(jv(result)), Seq::empty())))
                        &&& final(self).asked(old(self).iter, r.1)
                    } else {
                        &&& convo_v(final(self).convo@) == convo_v(old(self).convo@)
                        &&& final(self).iter == old(self).iter
                        &&& final(self).phase matches AgentPhase::Fetch { search, urls: u, fetches }
                            && opts_v(search) == Some(jv(result)) && strings_view(u@) == urls && fetches@.len() == 0
                        &&& is_fetch_action(r.1, urls[0], 1)
                    }
                },
                AgentPhase::Fetch { search, urls, fetches } => {
                    let fs = convo_v(fetches@).push(jv(result));
                    if fs.len() < urls@.len() {
                        &&& convo_v(final(self).convo@) == convo_v(old(self).convo@)
                        &&& final(self).iter == old(self).iter
                        &&& final(self).phase matches AgentPhase::Fetch { search: s2, urls: u2, fetches: f2 }
                            && opts_v(s2) == opts_v(search) && strings_view(u2@) == strings_view(urls@)
                            && convo_v(f2@) == fs
                        &&& is_fetch_action(r.1, urls@[fs.len() as int]@, fs.len() + 1)
                    } else {
                        &&& convo_v(final(self).convo@) == convo_v(old(self).convo@).push(
                            web_context_message(web_context(opts_v(search), fs)))
                        &&& final(self).asked(old(self).iter, r.1)
                    }
                },
                AgentPhase::Tools { calls, next } => {
                    &&& convo_v(final(self).convo@) == convo_v(old(self).convo@).push(
                        tool_message(call_name(jv(calls@[next as int])), json_text(jv(result))))
                    &&& if next + 1 < calls@.len() {
                        &&& final(self).iter == old(self).iter
                        &&& final(self).phase matches AgentPhase::Tools { calls: c2, next: n2 }
                            && convo_v(c2@) == convo_v(calls@) && n2 == next + 1
                        &&& is_call_action(r.1, jv(calls@[next + 1]), old(self).iter as nat, (next + 1) as nat)
                    } else {
                        final(self).asked(old(self).iter, r.1)
                    }
                },
                _ => true,
            },
    {
        let sources = fresh_sources(&mut self.seen_urls, &result);
        let mut phase = AgentPhase::Finished;
        std::mem::swap(&mut self.phase, &mut phase);
        assert(phase == old(self).phase);
        match phase {
            AgentPhase::Search { query: _ } => {
                let mut all: Vec<String> = Vec::new();
                proof { assert(strings_view(all@) =~= Seq::<Seq<char>>::empty()); }
                collect_urls(&result, &mut all);
                let urls = first_urls(&all, 3);
                proof {
                    assert(strings_view(urls@) == first_three(urls_fold(jv(result), Seq::empty())));
                }
                if urls.len() == 0 {
                    let fetches: Vec<Json> = Vec::new();
                    let ghost rv = jv(result);
                    let context = self.web_context_value(Some(result), &fetches);
                    proof {
                        assert(convo_v(fetches@) =~= Seq::<JsonV>::empty());
                        assert(jv(context) == web_context(Some(rv), Seq::empty()));
                    }
                    self.push_web_context(&context);
                    let a = self.ask();
                    (sources, a)
                } else {
                    let a = fetch_action(urls[0].as_str(), 1);
                    proof {
                        assert(urls@[0]@ == strings_view(urls@)[0]);
                    }
                    self.phase = AgentPhase::Fetch { search: Some(result), urls, fetches: Vec::new() };
                    (sources, a)
                }
            },
            AgentPhase::Fetch { search, urls, fetches } => {
                let mut fetches = fetches;
                let ghost f0 = fetches@;
                fetches.push(result);
                proof {
                    assert(convo_v(fetches@) =~= convo_v(f0).push(jv(result)));
                }
                if fetches.len() < urls.len() {
                    let k = fetches.len();
                    let a = fetch_action(urls[k].as_str(), k + 1);
                    self.phase = AgentPhase::Fetch { search, urls, fetches };
                    (sources, a)
                } else {
                    let context = self.web_context_value(search, &fetches);
                    self.push_web_context(&context);
                    let a = self.ask();
                    (sources, a)
                }
            },
            AgentPhase::Tools { calls, next } => {
                assert(next < calls@.len());
                let name = tool_result_name(&calls[next]);
                let content = json_to_text(&result);
                let msg = tool_message_value(name.as_str(), content);
                let ghost before = self.convo@;
                self.convo.push(msg);
                assert(convo_v(self.convo@) =~= convo_v(before).push(jv(msg)));
                let n = calls.len();
                if next + 1 < n {
                    let a = call_action(&calls[next + 1], self.iter, next + 1);
                    self.phase = AgentPhase::Tools { calls, next: next + 1 };
                    (sources, a)
                } else {
                    let a = self.ask();
                    (sources, a)
                }
            },
            _ => (sources, AgentAction::Fail { message: string_from("no tool is running") }),
        }
    }

    /// What the web gave, as a value.
    fn web_context_value(&self, search: Option<Json>, fetches: &Vec<Json>) -> (r: Json)
        ensures
            jv(r) == web_context(opts_v(search), convo_v(fetches@)),
    {
        match search {
            Some(s) => {
                let m = vec![
                    member("mode", jstr("search_then_fetch")),
                    member("search", s),
                    member("fetch", array_of(fetches)),
                ];
                let ghost mv = m@.map_values(|e: (String, Json)| (e.0@, jv(e.1)));
                let r = json_object(m);
                assert(mv =~= seq![
                    ("mode"@, JsonV::Str("search_then_fetch"@)),
                    ("search"@, jv(s)),
                    ("fetch"@, JsonV::Array(convo_v(fetches@))),
                ]);
                r
            },
            None => {
                let m = vec![member("mode", jstr("direct_url_fetch")), member("fetch", array_of(fetches))];
                let ghost mv = m@.map_values(|e: (String, Json)| (e.0@, jv(e.1)));
                let r = json_object(m);
                assert(mv =~= seq![("mode"@, JsonV::Str("direct_url_fetch"@)), ("fetch"@, JsonV::Array(convo_v(fetches@)))]);
                r
            },
        }
    }
}

/// The name of the tool a call asks for, or "unknown_tool".
fn tool_result_name(tc: &Json) -> (r: String)
    ensures
        r@ == call_name(jv(*tc)),
{
    let empty_obj = Json::Object(Vec::new());
    proof {
        assert(crate::json::jv_entries(Seq::<(String, Json)>::empty(), 0) =~= Seq::<(Seq<char>, JsonV)>::empty());
    }
    let f: &Json = match value_get_ref(tc, "function") {
        Some(f) => f,
        None => &empty_obj,
    };
    match as_str_ref(value_get_ref(f, "name")) {
        Some(n) => string_from(n),
        None => string_from("unknown_tool"),
    }
}

/// The result of a tool, as the conversation carries it.
fn tool_message_value(name: &str, content: String) -> (r: Json)
    ensures
        jv(r) == tool_message(name@, content@),
{
    let m = vec![member("role", jstr("tool")), member("tool_name", jstr(name)), member("content", Json::Str(content))];
    let ghost mv = m@.map_values(|e: (String, Json)| (e.0@, jv(e.1)));
    let r = json_object(m);
    assert(mv =~= seq![("role"@, JsonV::Str("tool"@)), ("tool_name"@, JsonV::Str(name@)), ("content"@, JsonV::Str(content@))]);
    r
}

/// The tool calls of a reply message: its `tool_calls` array, or none.
pub open spec fn reply_calls(m: JsonV) -> Seq<JsonV> {
    match as_array_v(value_get(m, "tool_calls"@)) {
        Some(a) => a,
        None => Seq::empty(),
    }
}

/// The thinking of a reply message, where it has some.
pub open spec fn reply_thinking(m: JsonV) -> Option<Seq<char>> {
    match as_str_v(value_get(m, "thinking"@)) {
        Some(t) => if t.len() > 0 { Some(t) } else { None },
        None => None,
    }
}

/// Copies of the tool calls of a reply message.
fn calls_of(m: &Json) -> (r: Vec<Json>)
    ensures
        convo_v(r@) == reply_calls(jv(*m)),
{
    match value_get_ref(m, "tool_calls") {
        Some(Json::Array(a)) => {
            let c = copy_json_list(a);
            proof {
                lemma_jv_list(a@, 0);
                assert(jv_list(a@, 0) =~= convo_v(a@));
            }
            c
        },
        _ => {
            let c: Vec<Json> = Vec::new();
            assert(convo_v(c@) =~= Seq::<JsonV>::empty());
            c
        },
    }
}

impl AgentLoop {
    /// The model's reply to a request that may call tools. An `error` in it
    /// ends the stream with that error, as does a reply without a message.
    /// The message joins the conversation, and its thinking, where it has
    /// some, is handed out to be shown. When it calls no tool, the
    /// instruction to finish joins the conversation and the final answer is
    /// streamed; else its calls run in order.
    pub fn on_reply(&mut self, parsed: Json) -> (r: (Option<String>, AgentAction))
        requires
            old(self).wf(),
            old(self).phase is Ask,
        ensures
            final(self).wf(),
            final(self).same_setup(old(self)),
            final(self).iter == old(self).iter,
            final(self).seen_urls@ == old(self).seen_urls@,
            match as_str_v(value_get(jv(parsed), "error"@)) {
                Some(e) => {
                    &&& r.1 matches AgentAction::Fail { message } && message@ == e
                    &&& r.0 is None
                    &&& final(self).phase is Finished
                    &&& convo_v(final(self).convo@) == convo_v(old(self).convo@)
                },
                None => match value_get(jv(parsed), "message"@) {
                    None => {
                        &&& r.1 matches AgentAction::Fail { message } && message@ == "chat response missing message"@
                        &&& r.0 is None
                        &&& final(self).phase is Finished
                        &&& convo_v(final(self).convo@) == convo_v(old(self).convo@)
                    },
                    Some(m) => {
                        &&& (match r.0 { Some(t) => Some(t@), None => None }) == reply_thinking(m)
                        &&& if reply_calls(m).len() == 0 {
                            let c = convo_v(old(self).convo@).push(m).push(text_message("system"@, finish_text()));
                            &&& convo_v(final(self).convo@) == c
                            &&& final(self).phase is Finished
                            &&& r.1 matches AgentAction::Stream { status, request }
                                && status@ == "Synthesizing final answer"@
                                && jv(request) == final_request(old(self).model@, c, opts_v(old(self).options))
                        } else {
                            &&& convo_v(final(self).convo@) == convo_v(old(self).convo@).push(m)
                            &&& final(self).phase matches AgentPhase::Tools { calls, next }
                                && convo_v(calls@) == reply_calls(m) && next == 0
                            &&& is_call_action(r.1, reply_calls(m)[0], old(self).iter as nat, 0)
                        }
                    },
                },
            },
    {
        if let Some(e) = as_str_ref(value_get_ref(&parsed, "error")) {
            self.phase = AgentPhase::Finished;
            return (None, AgentAction::Fail { message: string_from(e) });
        }
        let msg: Json = match value_get_ref(&parsed, "message") {
            Some(m) => copy_json(m),
            None => {
                self.phase = AgentPhase::Finished;
                return (None, AgentAction::Fail { message: string_from("chat response missing message") });
            },
        };
        let thinking: Option<String> = match as_str_ref(value_get_ref(&msg, "thinking")) {
            Some(t) => if t.is_empty() { None } else { Some(string_from(t)) },
            None => None,
        };
        let calls = calls_of(&msg);
        let ghost mv = jv(msg);
        let ghost before = self.convo@;
        self.convo.push(msg);
        assert(convo_v(self.convo@) =~= convo_v(before).push(mv));
        if calls.len() == 0 {
            let done = text_message_value("system", string_from("Tool use is complete. Stream the final answer now. Cite sources by URL when useful."));
            let ghost b2 = self.convo@;
            self.convo.push(done);
            assert(convo_v(self.convo@) =~= convo_v(b2).push(jv(done)));
            self.phase = AgentPhase::Finished;
            let m = vec![
                member("model", Json::Str(copy_string(&self.model))),
                member("messages", array_of(&self.convo)),
                member("stream", Json::Bool(true)),
                member("think", Json::Bool(true)),
                member("options", copy_options(&self.options)),
            ];
            let ghost fv = m@.map_values(|e: (String, Json)| (e.0@, jv(e.1)));
            let request = json_object(m);
            proof {
                assert(fv =~= seq![
                    ("model"@, JsonV::Str(self.model@)),
                    ("messages"@, JsonV::Array(convo_v(self.convo@))),
                    ("stream"@, JsonV::Bool(true)),
                    ("think"@, JsonV::Bool(true)),
                    ("options"@, options_v(opts_v(self.options))),
                ]);
            }
            (thinking, AgentAction::Stream { status: string_from("Synthesizing final answer"), request })
        } else {
            let a = call_action(&calls[0], self.iter, 0);
            self.phase = AgentPhase::Tools { calls, next: 0 };
            (thinking, a)
        }
    }
}

/// A source is shown once per answer: the sources handed out have URLs
/// not shown before and distinct among themselves, and every URL shown is
/// remembered.
pub proof fn lemma_fresh_sources_new(seen: Seq<Seq<char>>, found: Seq<(Seq<char>, Seq<char>, Seq<char>)>, n: int)
    requires
        0 <= n <= found.len(),
    ensures
        ({
            let (out, sn) = fresh_upto(seen, found, n);
            &&& forall|i: int| 0 <= i < out.len() ==> !seen.contains(#[trigger] out[i].1)
            &&& forall|i: int, j: int| 0 <= i < j < out.len() ==> out[i].1 != out[j].1
            &&& forall|i: int| 0 <= i < out.len() ==> sn.contains(#[trigger] out[i].1)
            &&& forall|u: Seq<char>| seen.contains(u) ==> sn.contains(u)
        }),
    decreases n,
{
    if n > 0 {
        lemma_fresh_sources_new(seen, found, n - 1);
        let (o, sn) = fresh_upto(seen, found, n - 1);
        let s = found[n - 1];
        if !sn.contains(s.1) {
            let o2 = o.push(s);
            let sn2 = sn.push(s.1);
            assert forall|i: int| 0 <= i < o2.len() implies sn2.contains(#[trigger] o2[i].1) by {
                if i < o.len() {
                    assert(sn.contains(o[i].1));
                    let k = choose|k: int| 0 <= k < sn.len() && sn[k] == o[i].1;
                    assert(sn2[k] == o2[i].1);
                } else {
                    assert(sn2[sn.len() as int] == s.1);
                }
            }
            assert forall|u: Seq<char>| seen.contains(u) implies sn2.contains(u) by {
                if seen.contains(u) {
                    assert(sn.contains(u));
                    let k = choose|k: int| 0 <= k < sn.len() && sn[k] == u;
                    assert(sn2[k] == u);
                }
            }
            assert forall|i: int, j: int| 0 <= i < j < o2.len() implies o2[i].1 != o2[j].1 by {
                if j == o.len() {
                    assert(sn.contains(o[i].1));
                }
            }
            assert forall|i: int| 0 <= i < o2.len() implies !seen.contains(#[trigger] o2[i].1) by {
                if i == o.len() {
                    if seen.contains(s.1) {
                        assert(sn.contains(s.1));
                    }
                }
            }
        }
    }
}

} // verus!
