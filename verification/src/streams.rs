use vstd::prelude::*;
use crate::chat::{Role, Message, Source, Mode, opt_view, copy_sources, same_sources, estimate_token_count, words,
    min_int};
use crate::client::{ClientState, ActiveStream, stream_index, lemma_stream_index, find_stream, system_message,
    current_stream, pending_matches_stream, same_except_pending};
use crate::protocol::ServerEvent;
use crate::text::{copy_string, string_from, push_str, str_eq};

verus! {

/// What the caller has to do after a stream event.
#[derive(Debug)]
pub enum StreamOutcome {
    /// The event matched no running stream.
    Nothing,
    /// The stream of the event was updated; `current` tells whether it is
    /// the stream of the open chat.
    Updated { current: bool },
    /// The stream ended after `tokens` words. The open chat is to be saved
    /// when `persist_current`; a reply of another chat is to be added to that
    /// stored chat when `store_reply` holds it.
    Finished { tokens: usize, persist_current: bool, store_reply: Option<StoredReply> },
    /// The stream failed; the error text is to be added to the stored chat
    /// named here when it is not the open one.
    Failed { store_error: Option<(String, String)> },
}

/// A reply to add to a stored chat that is not open.
#[derive(Debug)]
pub struct StoredReply {
    pub chat_id: String,
    pub content: String,
    pub thinking: Option<String>,
    pub sources: Vec<Source>,
}

/// Whether `id` is the open chat.
pub open spec fn is_current(app: ClientState, id: Seq<char>) -> bool {
    opt_view(app.current_chat_id) == Some(id)
}

/// The position of the running stream that an event answers: the stream of
/// its chat, when the request ids agree.
pub open spec fn event_stream(app: ClientState, ev: ServerEvent) -> Option<int> {
    match stream_index(app.active_streams@, ev.chat()) {
        Some(i) => if app.active_streams@[i].request_id@ == ev.request() { Some(i) } else { None },
        None => None,
    }
}

/// Streams other than number `i` are as they were.
pub open spec fn others_kept(a: Seq<ActiveStream>, b: Seq<ActiveStream>, i: int) -> bool {
    a.len() == b.len() && forall|k: int| 0 <= k < a.len() && k != i ==> #[trigger] b[k] == a[k]
}

/// What the open chat shows of its reply is as it was.
pub open spec fn view_kept(a: ClientState, b: ClientState) -> bool {
    &&& b.pending_assistant == a.pending_assistant
    &&& b.pending_thinking == a.pending_thinking
    &&& b.pending_sources == a.pending_sources
    &&& b.status_message == a.status_message
    &&& b.messages == a.messages
    &&& b.current_chat_id == a.current_chat_id
}

/// Whether a stream holds a source with URL `u`.
pub open spec fn has_url(ss: Seq<Source>, u: Seq<char>) -> bool {
    exists|k: int| 0 <= k < ss.len() && (#[trigger] ss[k]).url@ == u
}

fn has_url_exec(ss: &Vec<Source>, u: &str) -> (r: bool)
    ensures
        r == has_url(ss@, u@),
{
    let mut i: usize = 0;
    while i < ss.len()
        invariant
            i <= ss@.len(),
            forall|k: int| 0 <= k < i ==> ss@[k].url@ != u@,
        decreases ss.len() - i,
    {
        if str_eq(ss[i].url.as_str(), u) {
            return true;
        }
        i = i + 1;
    }
    false
}

fn is_current_exec(app: &ClientState, id: &str) -> (r: bool)
    ensures
        r == is_current(*app, id@),
{
    match &app.current_chat_id {
        Some(c) => str_eq(c.as_str(), id),
        None => false,
    }
}

/// The position of the stream that an event for `chat`/`request` answers.
fn find_event_stream(app: &ClientState, chat: &str, request: &str) -> (r: Option<usize>)
    ensures
        r matches Some(i) ==> stream_index(app.active_streams@, chat@) == Some(i as int)
            && app.active_streams@[i as int].request_id@ == request@ && i < app.active_streams@.len(),
        r is None ==> (match stream_index(app.active_streams@, chat@) {
            Some(i) => app.active_streams@[i].request_id@ != request@,
            None => true,
        }),
{
    let found = find_stream(&app.active_streams, chat);
    proof { lemma_stream_index(app.active_streams@, chat@); }
    match found {
        Some(i) => if str_eq(app.active_streams[i].request_id.as_str(), request) { Some(i) } else { None },
        None => None,
    }
}


/// The position of the running stream that an event for `chat`/`request`
/// answers.
pub open spec fn event_index(app: ClientState, chat: Seq<char>, request: Seq<char>) -> Option<int> {
    match stream_index(app.active_streams@, chat) {
        Some(i) => if app.active_streams@[i].request_id@ == request { Some(i) } else { None },
        None => None,
    }
}

/// The running stream that an event answers.
pub open spec fn ev_stream(app: ClientState, chat: Seq<char>, request: Seq<char>) -> ActiveStream {
    app.active_streams@[event_index(app, chat, request)->0]
}

/// Whether a finished stream brought any text.
pub open spec fn has_partial(st: ActiveStream) -> bool {
    st.buffer@.len() > 0 || st.thinking@.len() > 0
}

/// The thinking a finished stream leaves: its text when there is any.
pub open spec fn stream_thinking(st: ActiveStream) -> Option<Seq<char>> {
    if st.thinking@.len() > 0 { Some(st.thinking@) } else { None }
}

/// A reply handed back to be stored is the stream's.
pub open spec fn stored_matches(sr: StoredReply, chat: Seq<char>, st: ActiveStream) -> bool {
    &&& sr.chat_id@ == chat
    &&& sr.content@ == st.buffer@
    &&& opt_view(sr.thinking) == stream_thinking(st)
    &&& same_sources(sr.sources@, st.sources@)
}

/// The message a finished stream leaves in the open chat.
pub open spec fn reply_message(m: Message, st: ActiveStream, now: i64) -> bool {
    &&& m.role == Role::Assistant
    &&& m.content@ == st.buffer@
    &&& m.created_ts == now
    &&& opt_view(m.thinking) == stream_thinking(st)
    &&& m.attachments@.len() == 0
    &&& same_sources(m.sources@, st.sources@)
}

/// No two running streams belong to the same chat.
pub open spec fn streams_unique(s: Seq<ActiveStream>) -> bool {
    forall|a: int, b: int| 0 <= a < b < s.len() ==> (#[trigger] s[a]).chat_id@ != (#[trigger] s[b]).chat_id@
}

/// Whether no two running streams belong to the same chat.
pub fn active_streams_unique(streams: &Vec<ActiveStream>) -> (r: bool)
    ensures
        r == streams_unique(streams@),
{
    let mut a: usize = 0;
    while a < streams.len()
        invariant
            a <= streams@.len(),
            forall|x: int, y: int| 0 <= x < a && x < y < streams@.len() ==> (#[trigger] streams@[x]).chat_id@ != (#[trigger] streams@[y]).chat_id@,
        decreases streams.len() - a,
    {
        let mut b: usize = a + 1;
        while b < streams.len()
            invariant
                a < streams@.len(),
                a + 1 <= b <= streams@.len(),
                forall|x: int, y: int| 0 <= x < a && x < y < streams@.len() ==> (#[trigger] streams@[x]).chat_id@ != (#[trigger] streams@[y]).chat_id@,
                forall|y: int| a < y < b ==> streams@[a as int].chat_id@ != (#[trigger] streams@[y]).chat_id@,
            decreases streams.len() - b,
        {
            if str_eq(streams[a].chat_id.as_str(), streams[b].chat_id.as_str()) {
                assert(streams@[a as int].chat_id@ == streams@[b as int].chat_id@);
                return false;
            }
            b = b + 1;
        }
        a = a + 1;
    }
    true
}

proof fn lemma_remove_unique(s: Seq<ActiveStream>, i: int, id: Seq<char>)
    requires
        streams_unique(s),
        0 <= i < s.len(),
        s[i].chat_id@ == id,
    ensures
        stream_index(s.remove(i), id) is None,
        streams_unique(s.remove(i)),
{
    let r = s.remove(i);
    lemma_stream_index(r, id);
    if stream_index(r, id) is Some {
        let k = stream_index(r, id)->0;
        if k < i {
            assert(r[k] == s[k]);
        } else {
            assert(r[k] == s[k + 1]);
        }
    }
    assert forall|a: int, b: int| 0 <= a < b < r.len() implies (#[trigger] r[a]).chat_id@ != (#[trigger] r[b]).chat_id@ by {
        let a2 = if a < i { a } else { a + 1 };
        let b2 = if b < i { b } else { b + 1 };
        assert(r[a] == s[a2]);
        assert(r[b] == s[b2]);
    }
}

pub proof fn lemma_remove_unique_pub(s: Seq<ActiveStream>, i: int, id: Seq<char>)
    requires
        streams_unique(s),
        0 <= i < s.len(),
        s[i].chat_id@ == id,
    ensures
        stream_index(s.remove(i), id) is None,
        streams_unique(s.remove(i)),
{
    lemma_remove_unique(s, i, id);
}

/// The stream's fields other than the reply text are as they were.
pub open spec fn same_stream_meta(a: ActiveStream, b: ActiveStream) -> bool {
    &&& b.chat_id == a.chat_id
    &&& b.request_id == a.request_id
}

/// The answer of a chunk handler as an outcome: whether a stream took it
/// and, if so, whether it is the open chat's.
pub open spec fn updated_flag(r: StreamOutcome) -> Option<bool> {
    match r {
        StreamOutcome::Updated { current } => Some(current),
        _ => None,
    }
}

/// What a chunk of reply text `delta` for stream `chat_id`/`request_id` does
/// to the client (`a` before, `b` after), and the answer `r` of `on_chunk`.
pub open spec fn chunk_effect(a: ClientState, b: ClientState, request_id: Seq<char>, chat_id: Seq<char>, delta: Seq<char>, r: Option<bool>) -> bool {
    &&& {
        let ev_i = match stream_index(a.active_streams@, chat_id) {
            Some(i) => if a.active_streams@[i].request_id@ == request_id { Some(i) } else { None },
            None => None,
        };
        &&& ev_i is None ==> r is None && b == a
        &&& ev_i matches Some(i) ==> {
            &&& r == Some(is_current(a, chat_id))
            &&& others_kept(a.active_streams@, b.active_streams@, i)
            &&& b.active_streams@[i].buffer@ =~= a.active_streams@[i].buffer@ + delta
            &&& same_stream_meta(a.active_streams@[i], b.active_streams@[i])
            &&& b.active_streams@[i].thinking == a.active_streams@[i].thinking
            &&& b.active_streams@[i].sources == a.active_streams@[i].sources
            &&& b.active_streams@[i].status == a.active_streams@[i].status
            &&& b.active_streams@[i].generated_tokens as int
                == min_int(a.active_streams@[i].generated_tokens + words(delta).len(), usize::MAX as int)
            &&& is_current(a, chat_id) ==> b.pending_assistant@ =~= a.pending_assistant@ + delta
                && b.pending_cache is None
                && (a.chat_at_bottom ==> b.scroll_to_bottom_on_draw)
            &&& !is_current(a, chat_id) ==> view_kept(a, b)
        }
    }
    &&& b.messages == a.messages
    &&& b.current_chat_id == a.current_chat_id
    &&& b.pending_thinking == a.pending_thinking
    &&& b.status_message == a.status_message
}

/// What a chunk of thinking text does, and the answer of `on_thinking`.
pub open spec fn thinking_effect(a: ClientState, b: ClientState, request_id: Seq<char>, chat_id: Seq<char>, delta: Seq<char>, r: Option<bool>) -> bool {
    &&& {
        let ev_i = match stream_index(a.active_streams@, chat_id) {
            Some(i) => if a.active_streams@[i].request_id@ == request_id { Some(i) } else { None },
            None => None,
        };
        &&& ev_i is None ==> r is None && b == a
        &&& ev_i matches Some(i) ==> {
            &&& r == Some(is_current(a, chat_id))
            &&& others_kept(a.active_streams@, b.active_streams@, i)
            &&& b.active_streams@[i].thinking@ =~= a.active_streams@[i].thinking@ + delta
            &&& same_stream_meta(a.active_streams@[i], b.active_streams@[i])
            &&& b.active_streams@[i].buffer == a.active_streams@[i].buffer
            &&& is_current(a, chat_id) ==> b.pending_thinking@ =~= a.pending_thinking@ + delta
                && (a.chat_at_bottom ==> b.scroll_to_bottom_on_draw)
            &&& !is_current(a, chat_id) ==> view_kept(a, b)
        }
    }
    &&& b.messages == a.messages
    &&& b.current_chat_id == a.current_chat_id
    &&& b.pending_assistant == a.pending_assistant
}

/// What a status line does, and the answer of `on_status`.
pub open spec fn status_effect(a: ClientState, b: ClientState, request_id: Seq<char>, chat_id: Seq<char>, message: Seq<char>, r: bool) -> bool {
    &&& {
        let ev_i = match stream_index(a.active_streams@, chat_id) {
            Some(i) => if a.active_streams@[i].request_id@ == request_id { Some(i) } else { None },
            None => None,
        };
        &&& r == ev_i is Some
        &&& ev_i is None ==> b == a
        &&& ev_i matches Some(i) ==> {
            &&& others_kept(a.active_streams@, b.active_streams@, i)
            &&& opt_view(b.active_streams@[i].status) == Some(message)
            &&& same_stream_meta(a.active_streams@[i], b.active_streams@[i])
            &&& b.active_streams@[i].buffer == a.active_streams@[i].buffer
            &&& is_current(a, chat_id) ==> opt_view(b.status_message) == Some(message)
            &&& !is_current(a, chat_id) ==> view_kept(a, b)
        }
    }
    &&& b.messages == a.messages
    &&& b.current_chat_id == a.current_chat_id
    &&& b.pending_assistant == a.pending_assistant
    &&& b.pending_thinking == a.pending_thinking
}

/// What a cited source does, and the answer of `on_source`.
pub open spec fn source_effect(a: ClientState, b: ClientState, request_id: Seq<char>, chat_id: Seq<char>, title: Seq<char>, url: Seq<char>, snippet: Seq<char>, r: bool) -> bool {
    &&& {
        let ev_i = match stream_index(a.active_streams@, chat_id) {
            Some(i) => if a.active_streams@[i].request_id@ == request_id { Some(i) } else { None },
            None => None,
        };
        &&& r == (ev_i matches Some(i) && !has_url(a.active_streams@[i].sources@, url))
        &&& !r ==> b == a
        &&& r ==> (ev_i matches Some(i) && {
            &&& others_kept(a.active_streams@, b.active_streams@, i)
            &&& b.active_streams@[i].sources@.len() == a.active_streams@[i].sources@.len() + 1
            &&& b.active_streams@[i].sources@.drop_last() =~= a.active_streams@[i].sources@
            &&& b.active_streams@[i].sources@.last().url@ == url
            &&& b.active_streams@[i].sources@.last().title@ == title
            &&& b.active_streams@[i].sources@.last().snippet@ == snippet
            &&& same_stream_meta(a.active_streams@[i], b.active_streams@[i])
            &&& is_current(a, chat_id) ==> same_sources(b.pending_sources@, b.active_streams@[i].sources@)
            &&& !is_current(a, chat_id) ==> view_kept(a, b)
        })
    }
    &&& b.messages == a.messages
    &&& b.current_chat_id == a.current_chat_id
    &&& b.pending_assistant == a.pending_assistant
    &&& b.status_message == a.status_message
}

/// What the end of a stream does, and the outcome `on_done` hands back.
pub open spec fn done_effect(a: ClientState, b: ClientState, request_id: Seq<char>, chat_id: Seq<char>, status: Option<String>, now: i64, r: StreamOutcome) -> bool {
    &&& streams_unique(b.active_streams@)
    &&& (event_index(a, chat_id, request_id) is None ==> r is Nothing && b == a)
    &&& (event_index(a, chat_id, request_id) matches Some(i) ==>
        b.active_streams@ =~= a.active_streams@.remove(i))
    &&& (event_index(a, chat_id, request_id) matches Some(i) ==>
        (r matches StreamOutcome::Finished { tokens, persist_current, store_reply }
        && tokens == a.active_streams@[i].generated_tokens
        && persist_current == (is_current(a, chat_id) && has_partial(a.active_streams@[i]))
        && (is_current(a, chat_id) ==> store_reply is None)
        && (!is_current(a, chat_id) ==> (has_partial(a.active_streams@[i]) <==> store_reply is Some))
        && (store_reply matches Some(sr) ==> stored_matches(sr, chat_id, a.active_streams@[i]))))
    &&& (event_index(a, chat_id, request_id) is Some && !is_current(a, chat_id) ==>
        view_kept(a, b))
    &&& (event_index(a, chat_id, request_id) is Some && is_current(a, chat_id)
        && has_partial(ev_stream(a, chat_id, request_id)) ==>
        b.messages@.drop_last() =~= a.messages@
        && reply_message(b.messages@.last(), ev_stream(a, chat_id, request_id), now)
        && b.messages@.len() == a.messages@.len() + 1)
    &&& (event_index(a, chat_id, request_id) is Some && is_current(a, chat_id)
        && !has_partial(ev_stream(a, chat_id, request_id)) ==>
        b.messages == a.messages && b.pending_request_id is None
        && b.pending_assistant@.len() == 0 && !b.sending)
    &&& (event_index(a, chat_id, request_id) is Some && is_current(a, chat_id)
        && opt_view(status) == Some("cancelled"@) ==>
        opt_view(b.status_message) == Some("Stream cancelled"@))
    &&& b.current_chat_id == a.current_chat_id
}

/// What the failure of a stream does, and the outcome `on_error` hands back.
pub open spec fn error_effect(a: ClientState, b: ClientState, request_id: Seq<char>, chat_id: Seq<char>, message: Seq<char>, now: i64, r: StreamOutcome) -> bool {
    &&& streams_unique(b.active_streams@)
    &&& {
        let ev_i = match stream_index(a.active_streams@, chat_id) {
            Some(i) => if a.active_streams@[i].request_id@ == request_id { Some(i) } else { None },
            None => None,
        };
        &&& ev_i is None ==> r is Nothing && b == a
        &&& ev_i matches Some(i) ==> {
            &&& b.active_streams@ =~= a.active_streams@.remove(i)
            &&& r matches StreamOutcome::Failed { store_error }
            &&& (!is_current(a, chat_id) ==> view_kept(a, b)
                && (store_error matches Some(p) && p.0@ == chat_id && p.1@ == "Error: "@ + message))
            &&& (is_current(a, chat_id) ==> store_error is None
                && b.messages@.len() == a.messages@.len() + 1
                && b.messages@.drop_last() =~= a.messages@
                && b.messages@.last().role == Role::System
                && b.messages@.last().content@ =~= "Error: "@ + message)
        }
    }
    &&& b.current_chat_id == a.current_chat_id
}

impl ClientState {
    /// A chunk of reply text for stream `chat`/`request`: added to the
    /// stream and, for the open chat, to the reply shown. Returns whether a
    /// stream took it and whether it is the open chat's.
    pub fn on_chunk(&mut self, request_id: &str, chat_id: &str, delta: &str) -> (r: Option<bool>)
        ensures
            chunk_effect(*old(self), *final(self), request_id@, chat_id@, delta@, r),
    {
        let found = find_event_stream(self, chat_id, request_id);
        match found {
            None => None,
            Some(i) => {
                let ghost s0 = self.active_streams@;
                let mut st = self.active_streams.remove(i);
                push_str(&mut st.buffer, delta);
                st.generated_tokens = st.generated_tokens.saturating_add(estimate_token_count(delta));
                self.active_streams.insert(i, st);
                assert(others_kept(s0, self.active_streams@, i as int)) by {
                    assert forall|k: int| 0 <= k < s0.len() && k != i implies #[trigger] self.active_streams@[k] == s0[k] by {}
                }
                let current = is_current_exec(self, chat_id);
                if current {
                    push_str(&mut self.pending_assistant, delta);
                    self.pending_cache = None;
                    if self.chat_at_bottom {
                        self.scroll_to_bottom_on_draw = true;
                    }
                }
                Some(current)
            },
        }
    }

    /// A chunk of thinking text for stream `chat`/`request`: added to the
    /// stream and, for the open chat, to the thinking shown.
    pub fn on_thinking(&mut self, request_id: &str, chat_id: &str, delta: &str) -> (r: Option<bool>)
        ensures
            thinking_effect(*old(self), *final(self), request_id@, chat_id@, delta@, r),
    {
        let found = find_event_stream(self, chat_id, request_id);
        match found {
            None => None,
            Some(i) => {
                let ghost s0 = self.active_streams@;
                let mut st = self.active_streams.remove(i);
                push_str(&mut st.thinking, delta);
                st.generated_tokens = st.generated_tokens.saturating_add(estimate_token_count(delta));
                self.active_streams.insert(i, st);
                assert(others_kept(s0, self.active_streams@, i as int)) by {
                    assert forall|k: int| 0 <= k < s0.len() && k != i implies #[trigger] self.active_streams@[k] == s0[k] by {}
                }
                let current = is_current_exec(self, chat_id);
                if current {
                    push_str(&mut self.pending_thinking, delta);
                    if self.chat_at_bottom {
                        self.scroll_to_bottom_on_draw = true;
                    }
                }
                Some(current)
            },
        }
    }

    /// A status line for stream `chat`/`request`: kept by the stream and
    /// shown when it is the open chat's.
    pub fn on_status(&mut self, request_id: &str, chat_id: &str, message: String) -> (r: bool)
        ensures
            status_effect(*old(self), *final(self), request_id@, chat_id@, message@, r),
    {
        let found = find_event_stream(self, chat_id, request_id);
        match found {
            None => false,
            Some(i) => {
                let ghost s0 = self.active_streams@;
                let current = is_current_exec(self, chat_id);
                let shown = copy_string(&message);
                let mut st = self.active_streams.remove(i);
                st.status = Some(message);
                self.active_streams.insert(i, st);
                assert(others_kept(s0, self.active_streams@, i as int)) by {
                    assert forall|k: int| 0 <= k < s0.len() && k != i implies #[trigger] self.active_streams@[k] == s0[k] by {}
                }
                if current {
                    self.status_message = Some(shown);
                }
                true
            },
        }
    }

    /// A web source cited by stream `chat`/`request`: kept once per URL, and
    /// shown when it is the open chat's.
    pub fn on_source(&mut self, request_id: &str, chat_id: &str, title: String, url: String, snippet: String) -> (r: bool)
        ensures
            source_effect(*old(self), *final(self), request_id@, chat_id@, title@, url@, snippet@, r),
    {
        let found = find_event_stream(self, chat_id, request_id);
        match found {
            None => false,
            Some(i) => {
                if has_url_exec(&self.active_streams[i].sources, url.as_str()) {
                    return false;
                }
                let ghost s0 = self.active_streams@;
                let current = is_current_exec(self, chat_id);
                let mut st = self.active_streams.remove(i);
                st.sources.push(Source { title, url, snippet });
                let shown = if current { Some(copy_sources(&st.sources)) } else { None };
                self.active_streams.insert(i, st);
                assert(others_kept(s0, self.active_streams@, i as int)) by {
                    assert forall|k: int| 0 <= k < s0.len() && k != i implies #[trigger] self.active_streams@[k] == s0[k] by {}
                }
                if let Some(v) = shown {
                    self.pending_sources = v;
                }
                true
            },
        }
    }
}

impl ClientState {
    /// The end of stream `chat`/`request`. The stream is dropped. For the
    /// open chat its reply, if any text came, becomes a message (selected
    /// in visual mode when nothing is) and the chat is to be saved; without
    /// text the reply shown is cleared. For another chat a reply with text
    /// is handed back to be stored.
    pub fn on_done(&mut self, request_id: &str, chat_id: &str, status: Option<String>, now: i64) -> (r: StreamOutcome)
        requires
            streams_unique(old(self).active_streams@),
        ensures
            done_effect(*old(self), *final(self), request_id@, chat_id@, status, now, r),
    {
        let found = find_event_stream(self, chat_id, request_id);
        let i = match found {
            None => { return StreamOutcome::Nothing; },
            Some(i) => i,
        };
        proof { lemma_stream_index(self.active_streams@, chat_id@); lemma_remove_unique(self.active_streams@, i as int, chat_id@); }
        let active = self.active_streams.remove(i);
        let tokens = active.generated_tokens;
        let has_thinking = !active.thinking.as_str().is_empty();
        let has_partial = !active.buffer.as_str().is_empty() || has_thinking;
        let cancelled = match &status {
            Some(t) => str_eq(t.as_str(), "cancelled"),
            None => false,
        };
        let current = is_current_exec(self, chat_id);
        let thinking = if has_thinking { Some(active.thinking) } else { None };
        if current {
            if has_partial {
                let sources = copy_sources(&active.sources);
                self.messages.push(Message {
                    role: Role::Assistant,
                    content: active.buffer,
                    created_ts: now,
                    thinking,
                    attachments: Vec::new(),
                    sources,
                });
                if self.mode == Mode::Visual && self.selected_msg.is_none() {
                    self.selected_msg = Some(self.messages.len() - 1);
                }
            } else {
                self.refresh_current_stream_state();
            }
            if cancelled {
                self.status_message = Some(string_from("Stream cancelled"));
            }
            if self.chat_at_bottom {
                self.scroll_to_bottom_on_draw = true;
            }
            StreamOutcome::Finished { tokens, persist_current: has_partial, store_reply: None }
        } else {
            let store_reply = if has_partial {
                Some(StoredReply {
                    chat_id: string_from(chat_id),
                    content: active.buffer,
                    thinking,
                    sources: copy_sources(&active.sources),
                })
            } else {
                None
            };
            StreamOutcome::Finished { tokens, persist_current: false, store_reply }
        }
    }

    /// A failure of stream `chat`/`request`. The stream is dropped; the
    /// error text goes into the open chat as a system message, or is handed
    /// back to be stored with its own chat.
    pub fn on_error(&mut self, request_id: &str, chat_id: &str, message: &str, now: i64) -> (r: StreamOutcome)
        requires
            streams_unique(old(self).active_streams@),
        ensures
            error_effect(*old(self), *final(self), request_id@, chat_id@, message@, now, r),
    {
        let found = find_event_stream(self, chat_id, request_id);
        let i = match found {
            None => { return StreamOutcome::Nothing; },
            Some(i) => i,
        };
        proof { lemma_stream_index(self.active_streams@, chat_id@); lemma_remove_unique(self.active_streams@, i as int, chat_id@); }
        let _gone = self.active_streams.remove(i);
        let mut formatted = string_from("Error: ");
        push_str(&mut formatted, message);
        if is_current_exec(self, chat_id) {
            self.refresh_current_stream_state();
            self.messages.push(system_message(formatted, now));
            StreamOutcome::Failed { store_error: None }
        } else {
            StreamOutcome::Failed { store_error: Some((string_from(chat_id), formatted)) }
        }
    }
}

/// Every stream of another chat than `chat` is still running, unchanged.
pub open spec fn other_chats_kept(a: Seq<ActiveStream>, b: Seq<ActiveStream>, chat: Seq<char>) -> bool {
    forall|k: int| 0 <= k < a.len() && (#[trigger] a[k]).chat_id@ != chat ==> b.contains(a[k])
}

proof fn lemma_others_kept_chats(a: Seq<ActiveStream>, b: Seq<ActiveStream>, i: int, chat: Seq<char>)
    requires
        others_kept(a, b, i),
        0 <= i < a.len(),
        a[i].chat_id@ == chat,
    ensures
        other_chats_kept(a, b, chat),
{
    assert forall|k: int| 0 <= k < a.len() && (#[trigger] a[k]).chat_id@ != chat implies b.contains(a[k]) by {
        assert(b[k] == a[k]);
    }
}

proof fn lemma_remove_chats(a: Seq<ActiveStream>, i: int, chat: Seq<char>)
    requires
        0 <= i < a.len(),
        a[i].chat_id@ == chat,
    ensures
        other_chats_kept(a, a.remove(i), chat),
{
    let b = a.remove(i);
    assert forall|k: int| 0 <= k < a.len() && (#[trigger] a[k]).chat_id@ != chat implies b.contains(a[k]) by {
        if k < i {
            assert(b[k] == a[k]);
        } else {
            assert(b[k - 1] == a[k]);
        }
    }
}

proof fn lemma_unique_kept(a: Seq<ActiveStream>, b: Seq<ActiveStream>, i: int)
    requires
        streams_unique(a),
        others_kept(a, b, i),
        0 <= i < a.len(),
        b[i].chat_id == a[i].chat_id,
    ensures
        streams_unique(b),
{
    assert forall|x: int, y: int| 0 <= x < y < b.len() implies (#[trigger] b[x]).chat_id@ != (#[trigger] b[y]).chat_id@ by {
        assert(b[x].chat_id == a[x].chat_id);
        assert(b[y].chat_id == a[y].chat_id);
    }
}

impl ClientState {
    /// Applies an event of the server to the running streams and to what the
    /// open chat shows. An event about another chat never changes what the
    /// open chat shows, and an event never touches the stream of another
    /// chat.
    pub fn handle_server_event(&mut self, ev: ServerEvent, now: i64) -> (r: StreamOutcome)
        requires
            streams_unique(old(self).active_streams@),
        ensures
            streams_unique(final(self).active_streams@),
            !is_current(*old(self), ev.chat()) ==> view_kept(*old(self), *final(self)),
            other_chats_kept(old(self).active_streams@, final(self).active_streams@, ev.chat()),
            r is Nothing ==> *final(self) == *old(self),
            final(self).current_chat_id == old(self).current_chat_id,
            ev matches ServerEvent::Chunk { request_id, chat_id, delta } ==>
                chunk_effect(*old(self), *final(self), request_id@, chat_id@, delta@, updated_flag(r)),
            ev matches ServerEvent::Thinking { request_id, chat_id, delta } ==>
                thinking_effect(*old(self), *final(self), request_id@, chat_id@, delta@, updated_flag(r)),
            ev matches ServerEvent::Status { request_id, chat_id, message } ==>
                status_effect(*old(self), *final(self), request_id@, chat_id@, message@, r is Updated),
            ev matches ServerEvent::Source { request_id, chat_id, title, url, snippet } ==>
                source_effect(*old(self), *final(self), request_id@, chat_id@, title@, url@, snippet@, r is Updated),
            ev matches ServerEvent::ToolCallStarted { request_id, chat_id, name, .. } ==>
                status_effect(*old(self), *final(self), request_id@, chat_id@, "Running tool "@ + name@, r is Updated),
            ev matches ServerEvent::ToolCallFinished { request_id, chat_id, result_summary, .. } ==>
                status_effect(*old(self), *final(self), request_id@, chat_id@, "Tool finished: "@ + result_summary@, r is Updated),
            ev matches ServerEvent::ToolCallFailed { request_id, chat_id, error, .. } ==>
                status_effect(*old(self), *final(self), request_id@, chat_id@, "Tool failed: "@ + error@, r is Updated),
            ev is ClientToolRequest ==> r is Nothing,
            ev matches ServerEvent::Done { request_id, chat_id, status } ==>
                done_effect(*old(self), *final(self), request_id@, chat_id@, status, now, r),
            ev matches ServerEvent::Error { request_id, chat_id, message } ==>
                error_effect(*old(self), *final(self), request_id@, chat_id@, message@, now, r),
    {
        let ghost s0 = self.active_streams@;
        let ghost chat = ev.chat();
        proof {
            lemma_stream_index(s0, chat);
        }
        match ev {
            ServerEvent::Chunk { request_id, chat_id, delta } => {
                let ghost idx = event_index(*self, chat_id@, request_id@);
                match self.on_chunk(request_id.as_str(), chat_id.as_str(), delta.as_str()) {
                    Some(current) => {
                        proof {
                            lemma_others_kept_chats(s0, self.active_streams@, idx->0, chat);
                            lemma_unique_kept(s0, self.active_streams@, idx->0);
                        }
                        StreamOutcome::Updated { current }
                    },
                    None => StreamOutcome::Nothing,
                }
            },
            ServerEvent::Thinking { request_id, chat_id, delta } => {
                let ghost idx = event_index(*self, chat_id@, request_id@);
                match self.on_thinking(request_id.as_str(), chat_id.as_str(), delta.as_str()) {
                    Some(current) => {
                        proof {
                            lemma_others_kept_chats(s0, self.active_streams@, idx->0, chat);
                            lemma_unique_kept(s0, self.active_streams@, idx->0);
                        }
                        StreamOutcome::Updated { current }
                    },
                    None => StreamOutcome::Nothing,
                }
            },
            ServerEvent::Status { request_id, chat_id, message } => {
                self.status_event(request_id.as_str(), chat_id.as_str(), message)
            },
            ServerEvent::Source { request_id, chat_id, title, url, snippet } => {
                let ghost idx = event_index(*self, chat_id@, request_id@);
                if self.on_source(request_id.as_str(), chat_id.as_str(), title, url, snippet) {
                    proof {
                        lemma_others_kept_chats(s0, self.active_streams@, idx->0, chat);
                        lemma_unique_kept(s0, self.active_streams@, idx->0);
                    }
                    let current = is_current_exec(self, chat_id.as_str());
                    StreamOutcome::Updated { current }
                } else {
                    StreamOutcome::Nothing
                }
            },
            ServerEvent::ToolCallStarted { request_id, chat_id, name, .. } => {
                let mut t = string_from("Running tool ");
                push_str(&mut t, name.as_str());
                self.status_event(request_id.as_str(), chat_id.as_str(), t)
            },
            ServerEvent::ToolCallFinished { request_id, chat_id, result_summary, .. } => {
                let mut t = string_from("Tool finished: ");
                push_str(&mut t, result_summary.as_str());
                self.status_event(request_id.as_str(), chat_id.as_str(), t)
            },
            ServerEvent::ToolCallFailed { request_id, chat_id, error, .. } => {
                let mut t = string_from("Tool failed: ");
                push_str(&mut t, error.as_str());
                self.status_event(request_id.as_str(), chat_id.as_str(), t)
            },
            ServerEvent::ClientToolRequest { .. } => StreamOutcome::Nothing,
            ServerEvent::Done { request_id, chat_id, status } => {
                let ghost idx = event_index(*self, chat_id@, request_id@);
                let r = self.on_done(request_id.as_str(), chat_id.as_str(), status, now);
                proof {
                    if idx is Some {
                        lemma_remove_chats(s0, idx->0, chat);
                    }
                }
                r
            },
            ServerEvent::Error { request_id, chat_id, message } => {
                let ghost idx = event_index(*self, chat_id@, request_id@);
                let r = self.on_error(request_id.as_str(), chat_id.as_str(), message.as_str(), now);
                proof {
                    if idx is Some {
                        lemma_remove_chats(s0, idx->0, chat);
                    }
                }
                r
            },
        }
    }

    /// A status text for stream `chat`/`request`, as an outcome.
    fn status_event(&mut self, request_id: &str, chat_id: &str, message: String) -> (r: StreamOutcome)
        requires
            streams_unique(old(self).active_streams@),
        ensures
            streams_unique(final(self).active_streams@),
            !is_current(*old(self), chat_id@) ==> view_kept(*old(self), *final(self)),
            other_chats_kept(old(self).active_streams@, final(self).active_streams@, chat_id@),
            r is Nothing ==> *final(self) == *old(self),
            final(self).current_chat_id == old(self).current_chat_id,
            status_effect(*old(self), *final(self), request_id@, chat_id@, message@, r is Updated),
    {
        let ghost s0 = self.active_streams@;
        let ghost idx = event_index(*self, chat_id@, request_id@);
        proof { lemma_stream_index(s0, chat_id@); }
        let current = is_current_exec(self, chat_id);
        if self.on_status(request_id, chat_id, message) {
            proof {
                lemma_others_kept_chats(s0, self.active_streams@, idx->0, chat_id@);
                lemma_unique_kept(s0, self.active_streams@, idx->0);
            }
            StreamOutcome::Updated { current }
        } else {
            proof {
                assert forall|k: int| 0 <= k < s0.len() && (#[trigger] s0[k]).chat_id@ != chat_id@ implies self.active_streams@.contains(s0[k]) by {
                    assert(self.active_streams@[k] == s0[k]);
                }
            }
            StreamOutcome::Nothing
        }
    }
}
} // verus!
