use vstd::prelude::*;
use crate::chat::{Role, Message, Source, Attachment, Chat, Mode, Focus, VisualSelection, opt_view, copy_opt,
    copy_messages, same_messages, min_int};
use crate::client::{ClientState, ActiveStream, Popup, CacheEntry, system_message, stream_index, lemma_stream_index, lemma_stream_index_at,
    find_stream, current_stream, pending_matches_stream};
use crate::chat_view::{offset_for_message, cache_find, offset_spec};
use crate::json::{Json, jv, copy_json};
use crate::md_doc::{markdown_code_blocks, code_blocks_of, strings_view};
use crate::md_events::{cmark_events, CMARK_OPTIONS};
use crate::protocol::ClientRequest;
use crate::streams::streams_unique;
use crate::text::{copy_string, string_from, push_str, push_decimal, decimal, trim, trim_spec, str_eq, to_chars};
use crate::keys::{input_cursor_ok};
use crate::md_render::split_lf;

verus! {

/// Whether `s` begins with "Error:".
pub open spec fn is_error_text(s: Seq<char>) -> bool {
    s.len() >= 6 && s.take(6) == "Error:"@
}

/// The messages sent to the model: the chat without the client's own error
/// notes.
pub open spec fn keep_for_model(m: Message) -> bool {
    !(m.role == Role::System && is_error_text(m.content@))
}

pub open spec fn filter_for_model(ms: Seq<Message>) -> Seq<Message>
    decreases ms.len(),
{
    if ms.len() == 0 {
        Seq::empty()
    } else {
        let rest = filter_for_model(ms.drop_last());
        if keep_for_model(ms.last()) { rest.push(ms.last()) } else { rest }
    }
}

impl ClientState {
    /// Takes the typed text (or "[image]" when only attachments are sent)
    /// into the chat as a user message written at `now`, clears the input,
    /// and returns the chat as it is to be saved; a new chat gets `new_id`.
    pub fn begin_send(&mut self, now: i64, new_id: String) -> (r: Chat)
        ensures
            final(self).input@.len() == 0,
            final(self).input_cursor_line == 0,
            final(self).input_cursor_col == 0,
            final(self).input_top_line == 0,
            final(self).pending_attachments@.len() == 0,
            final(self).messages@.len() == old(self).messages@.len() + 1,
            final(self).messages@.drop_last() == old(self).messages@,
            final(self).messages@.last().role == Role::User,
            final(self).messages@.last().content@ == (if trim_spec(old(self).input@).len() == 0 { "[image]"@ } else { trim_spec(old(self).input@) }),
            final(self).messages@.last().created_ts == now,
            final(self).messages@.last().attachments@ == old(self).pending_attachments@,
            final(self).current_chat_id is Some,
            old(self).current_chat_id is None ==> opt_view(final(self).current_chat_id) == Some(new_id@),
            old(self).current_chat_id is Some ==> final(self).current_chat_id == old(self).current_chat_id,
            Some(r.id@) == opt_view(final(self).current_chat_id),
            same_messages(r.messages@, final(self).messages@),
            r.updated_ts == now,
            input_cursor_ok(*final(self)),
            final(self).active_streams == old(self).active_streams,
    {
        let input = trim(self.input.as_str());
        let mut attachments: Vec<Attachment> = Vec::new();
        std::mem::swap(&mut attachments, &mut self.pending_attachments);
        let content = if input.as_str().is_empty() { string_from("[image]") } else { input };
        self.messages.push(Message { role: Role::User, content, created_ts: now, thinking: None, attachments, sources: Vec::new() });
        let key = self.messages.len() - 1;
        let h = self.chat_inner_height;
        self.remove_cached(key, h);
        let chat = self.persist_current_chat(new_id, now);
        self.input = String::new();
        self.input_cursor_line = 0;
        self.input_cursor_col = 0;
        self.input_top_line = 0;
        proof {
            assert(split_lf(self.input@) =~= seq![Seq::<char>::empty()]);
        }
        chat
    }

    /// Drops the cached rendering of message `idx` at `width`.
    pub fn remove_cached(&mut self, idx: usize, width: u16)
        ensures
            cache_find(final(self).render_cache@, idx, width) is None,
            final(self).messages == old(self).messages,
            final(self).input == old(self).input,
            final(self).input_cursor_line == old(self).input_cursor_line,
            final(self).input_cursor_col == old(self).input_cursor_col,
            final(self).input_top_line == old(self).input_top_line,
            final(self).pending_attachments == old(self).pending_attachments,
            final(self).current_chat_id == old(self).current_chat_id,
            final(self).current_created_ts == old(self).current_created_ts,
            final(self).active_streams == old(self).active_streams,
    {
        let mut kept: Vec<CacheEntry> = Vec::new();
        let mut old_cache: Vec<CacheEntry> = Vec::new();
        std::mem::swap(&mut old_cache, &mut self.render_cache);
        while old_cache.len() > 0
            invariant
                forall|k: int| 0 <= k < kept@.len() ==> !((#[trigger] kept@[k]).idx == idx && kept@[k].width == width),
            decreases old_cache@.len(),
        {
            let e = old_cache.pop().unwrap();
            if !(e.idx == idx && e.width == width) {
                kept.push(e);
            }
        }
        proof {
            crate::chat_view::lemma_cache_find_none(kept@, idx, width);
        }
        self.render_cache = kept;
    }
}


/// Whether the messages hold a system message.
pub open spec fn has_system(ms: Seq<Message>) -> bool {
    exists|k: int| 0 <= k < ms.len() && (#[trigger] ms[k]).role == Role::System
}

/// The conversation sent to the model: the chat without error notes, with
/// the system prompt, written at `now`, put first when no system message is
/// left.
pub open spec fn conversation_ok(convo: Seq<Message>, ms: Seq<Message>, prompt: Option<Seq<char>>, now: i64) -> bool {
    let f = filter_for_model(ms);
    if !has_system(f) && prompt is Some {
        &&& convo.len() == f.len() + 1
        &&& convo[0].role == Role::System
        &&& convo[0].content@ == prompt->0
        &&& convo[0].created_ts == now
        &&& same_messages(convo.skip(1), f)
    } else {
        same_messages(convo, f)
    }
}

fn is_error_text_exec(s: &str) -> (r: bool)
    ensures
        r == is_error_text(s@),
{
    let v = to_chars(s);
    let p = to_chars("Error:");
    proof { reveal_strlit("Error:"); }
    let r = crate::text::occurs_at(&v, 0, &p);
    assert(v@.len() >= 6 ==> v@.subrange(0, 6) =~= v@.take(6));
    r
}

/// The messages the model is to see.
pub fn conversation_for_model(ms: &Vec<Message>, prompt: &Option<String>, now: i64) -> (r: Vec<Message>)
    ensures
        conversation_ok(r@, ms@, opt_view(*prompt), now),
{
    let mut convo: Vec<Message> = Vec::new();
    let mut i: usize = 0;
    let mut any_system = false;
    while i < ms.len()
        invariant
            i <= ms@.len(),
            same_messages(convo@, filter_for_model(ms@.take(i as int))),
            any_system == has_system(filter_for_model(ms@.take(i as int))),
        decreases ms.len() - i,
    {
        let m = &ms[i];
        let ghost before = filter_for_model(ms@.take(i as int));
        assert(ms@.take(i + 1).drop_last() =~= ms@.take(i as int));
        assert(ms@.take(i + 1).last() == ms@[i as int]);
        let keep = !(m.role == Role::System && is_error_text_exec(m.content.as_str()));
        if keep {
            convo.push(m.copy());
            if m.role == Role::System {
                any_system = true;
            }
            let ghost after = before.push(ms@[i as int]);
            assert(has_system(after) == (has_system(before) || ms@[i as int].role == Role::System)) by {
                if ms@[i as int].role == Role::System {
                    assert(after[after.len() - 1].role == Role::System);
                }
                if has_system(after) && ms@[i as int].role != Role::System {
                    let k = choose|k: int| 0 <= k < after.len() && (#[trigger] after[k]).role == Role::System;
                    assert(before[k] == after[k]);
                }
                if has_system(before) {
                    let k = choose|k: int| 0 <= k < before.len() && (#[trigger] before[k]).role == Role::System;
                    assert(after[k] == before[k]);
                }
            }
        }
        i = i + 1;
    }
    assert(ms@.take(ms@.len() as int) =~= ms@);
    if !any_system {
        if let Some(sp) = prompt {
            let ghost f = convo@;
            convo.insert(0, system_message(copy_string(sp), now));
            assert(convo@.skip(1) =~= f);
        }
    }
    convo
}

/// A running stream that has received nothing yet.
pub fn new_stream(chat_id: String, request_id: String) -> (r: ActiveStream)
    ensures
        r.chat_id@ == chat_id@,
        r.request_id@ == request_id@,
        r.buffer@.len() == 0,
        r.thinking@.len() == 0,
        r.sources@.len() == 0,
        r.status is None,
        r.generated_tokens == 0,
{
    ActiveStream { chat_id, request_id, buffer: String::new(), thinking: String::new(), sources: Vec::new(), status: None, generated_tokens: 0 }
}

impl ClientState {
    /// Starts the stream of request `request_id` for the open chat (replacing
    /// any stream the chat had), shows it as the pending reply, and returns
    /// the request for the server.
    pub fn start_stream(&mut self, request_id: String, now: i64) -> (r: ClientRequest)
        requires
            old(self).current_chat_id is Some,
            streams_unique(old(self).active_streams@),
        ensures
            streams_unique(final(self).active_streams@),
            current_stream(*final(self)) matches Some(st) && st.request_id@ == request_id@ && st.buffer@.len() == 0,
            final(self).sending,
            r matches ClientRequest::StartStream { request_id: rid, chat_id, created_ts, messages, web_search,
                    api_url, model, options, ollama_api_key }
                && rid@ == request_id@
                && api_url@ == old(self).api_url@
                && model@ == old(self).model@
                && crate::agent::opts_v(options) == crate::agent::opts_v(old(self).options)
                && opt_view(ollama_api_key) == opt_view(old(self).ollama_api_key)
                && Some(chat_id@) == opt_view(old(self).current_chat_id)
                && created_ts == (match old(self).current_created_ts { Some(c) => c, None => now })
                && web_search == old(self).web_search
                && conversation_ok(messages@, old(self).messages@, opt_view(old(self).system_prompt), now),
            final(self).messages == old(self).messages,
            final(self).current_chat_id == old(self).current_chat_id,
    {
        let chat_id = match &self.current_chat_id {
            Some(c) => copy_string(c),
            None => String::new(),
        };
        let convo = conversation_for_model(&self.messages, &self.system_prompt, now);
        let created = match self.current_created_ts {
            Some(c) => c,
            None => now,
        };
        let options = match &self.options {
            Some(o) => Some(copy_json(o)),
            None => None,
        };
        let req = ClientRequest::StartStream {
            request_id: copy_string(&request_id),
            chat_id: copy_string(&chat_id),
            created_ts: created,
            api_url: copy_string(&self.api_url),
            model: copy_string(&self.model),
            options,
            ollama_api_key: copy_opt(&self.ollama_api_key),
            web_search: self.web_search,
            messages: convo,
        };
        let ghost s0 = self.active_streams@;
        let found = find_stream(&self.active_streams, chat_id.as_str());
        proof { lemma_stream_index(s0, chat_id@); }
        let ghost cid = chat_id@;
        let st = new_stream(chat_id, request_id);
        match found {
            Some(i) => {
                self.active_streams.set(i, st);
                proof {
                    assert forall|a: int, b: int| 0 <= a < b < self.active_streams@.len() implies
                        (#[trigger] self.active_streams@[a]).chat_id@ != (#[trigger] self.active_streams@[b]).chat_id@ by {
                        assert(a != i ==> self.active_streams@[a] == s0[a]);
                        assert(b != i ==> self.active_streams@[b] == s0[b]);
                    }
                    assert forall|k: int| 0 <= k < i implies (#[trigger] self.active_streams@[k]).chat_id@ != cid by {
                        assert(self.active_streams@[k] == s0[k]);
                    }
                    lemma_stream_index_at(self.active_streams@, self.current_chat_id->0@, i as int);
                }
            },
            None => {
                self.active_streams.push(st);
                proof {
                    assert forall|a: int, b: int| 0 <= a < b < self.active_streams@.len() implies
                        (#[trigger] self.active_streams@[a]).chat_id@ != (#[trigger] self.active_streams@[b]).chat_id@ by {
                        assert(a < s0.len());
                        assert(self.active_streams@[a] == s0[a]);
                        if b < s0.len() {
                            assert(self.active_streams@[b] == s0[b]);
                        }
                    }
                    assert(self.active_streams@.drop_last() =~= s0);
                    assert forall|k: int| 0 <= k < s0.len() implies (#[trigger] self.active_streams@[k]).chat_id@ != cid by {
                        assert(self.active_streams@[k] == s0[k]);
                    }
                    lemma_stream_index_at(self.active_streams@, self.current_chat_id->0@, s0.len() as int);
                }
            },
        }
        self.refresh_current_stream_state();
        if self.chat_at_bottom {
            self.scroll_to_bottom_on_draw = true;
        }
        req
    }
}

impl ClientState {
    /// The server could not be reached: the stream of request `request_id`
    /// is dropped and an error note is added to the open chat.
    pub fn stream_send_failed(&mut self, request_id: &str, now: i64)
        requires
            streams_unique(old(self).active_streams@),
        ensures
            streams_unique(final(self).active_streams@),
            final(self).active_streams@ == keep_other_requests(old(self).active_streams@, request_id@),
            forall|k: int| 0 <= k < final(self).active_streams@.len() ==> (#[trigger] final(self).active_streams@[k]).request_id@ != request_id@,
            forall|k: int| 0 <= k < old(self).active_streams@.len() && (#[trigger] old(self).active_streams@[k]).request_id@ != request_id@
                ==> final(self).active_streams@.contains(old(self).active_streams@[k]),
            final(self).messages@.len() == old(self).messages@.len() + 1,
            final(self).messages@.drop_last() == old(self).messages@,
            final(self).messages@.last().role == Role::System,
            final(self).messages@.last().content@ == "Error: background server is unavailable"@,
            final(self).current_chat_id == old(self).current_chat_id,
    {
        let mut kept: Vec<ActiveStream> = Vec::new();
        let mut rest: Vec<ActiveStream> = Vec::new();
        std::mem::swap(&mut rest, &mut self.active_streams);
        let ghost s0 = rest@;
        let mut rev: Vec<ActiveStream> = Vec::new();
        while rest.len() > 0
            invariant
                rest@.len() + rev@.len() == s0.len(),
                rest@ == s0.take(rest@.len() as int),
                forall|j: int| 0 <= j < rev@.len() ==> #[trigger] rev@[j] == s0[s0.len() - 1 - j],
            decreases rest@.len(),
        {
            let st = rest.pop().unwrap();
            rev.push(st);
            assert(rest@ =~= s0.take(rest@.len() as int));
        }
        while rev.len() > 0
            invariant
                rev@.len() <= s0.len(),
                forall|j: int| 0 <= j < rev@.len() ==> #[trigger] rev@[j] == s0[s0.len() - 1 - j],
                kept@ == crate::session::keep_other_requests(s0.take(s0.len() - rev@.len()), request_id@),
            decreases rev@.len(),
        {
            let ghost k: int = s0.len() - rev@.len();
            let st = rev.pop().unwrap();
            assert(st == s0[k]);
            assert(s0.take(k + 1).drop_last() =~= s0.take(k));
            if !str_eq(st.request_id.as_str(), request_id) {
                kept.push(st);
            }
        }
        assert(s0.take(s0.len() as int) =~= s0);
        proof { lemma_keep_other_requests(s0, request_id@); }
        self.active_streams = kept;
        self.refresh_current_stream_state();
        self.messages.push(system_message(string_from("Error: background server is unavailable"), now));
    }
}

impl ClientState {
    /// Shows a chat loaded from storage. In visual mode the last message is
    /// selected and scrolled to; otherwise the view follows the end.
    pub fn open_chat(&mut self, chat: Chat, visual: bool)
        ensures
            opt_view(final(self).current_chat_id) == Some(chat.id@),
            final(self).current_created_ts == Some(chat.created_ts),
            final(self).messages == chat.messages,
            final(self).render_cache@.len() == 0,
            final(self).focus == Focus::Chat,
            pending_matches_stream(*final(self), current_stream(*final(self))),
            !visual ==> final(self).scroll_to_bottom_on_draw,
            visual ==> final(self).selected_msg == Some(if chat.messages@.len() > 0 { (chat.messages@.len() - 1) as usize } else { 0usize }),
            final(self).active_streams == old(self).active_streams,
    {
        self.current_chat_id = Some(chat.id);
        self.current_created_ts = Some(chat.created_ts);
        self.messages = chat.messages;
        self.render_cache = Vec::new();
        self.refresh_current_stream_state();
        if visual {
            let last = self.messages.len().saturating_sub(1);
            self.selected_msg = Some(last);
            let w: u16 = if self.chat_inner_width < 1 { 1 } else { self.chat_inner_width };
            self.chat_scroll = offset_for_message(self, w, last);
        } else {
            self.scroll_to_bottom_on_draw = true;
        }
        self.focus = Focus::Chat;
    }

    /// After chat `id` was deleted from storage: its stream is dropped, and
    /// when it was open the view is emptied; the dialog closes.
    pub fn finish_delete_chat(&mut self, id: &str)
        requires
            streams_unique(old(self).active_streams@),
        ensures
            streams_unique(final(self).active_streams@),
            stream_index(final(self).active_streams@, id@) is None,
            match stream_index(old(self).active_streams@, id@) {
                Some(i) => final(self).active_streams@ == old(self).active_streams@.remove(i),
                None => final(self).active_streams@ == old(self).active_streams@,
            },
            opt_view(old(self).current_chat_id) == Some(id@) ==> final(self).current_chat_id is None
                && final(self).messages@.len() == 0 && final(self).selected_msg is None && final(self).chat_scroll == 0,
            opt_view(old(self).current_chat_id) != Some(id@) ==> final(self).current_chat_id == old(self).current_chat_id
                && final(self).messages == old(self).messages,
            final(self).popup is Hidden,
    {
        let found = find_stream(&self.active_streams, id);
        proof { lemma_stream_index(self.active_streams@, id@); }
        if let Some(i) = found {
            proof { crate::streams::lemma_remove_unique_pub(self.active_streams@, i as int, id@); }
            let _gone = self.active_streams.remove(i);
        }
        let is_open = match &self.current_chat_id {
            Some(c) => str_eq(c.as_str(), id),
            None => false,
        };
        if is_open {
            self.current_chat_id = None;
            self.current_created_ts = None;
            self.messages = Vec::new();
            self.selected_msg = None;
            self.chat_scroll = 0;
            self.render_cache = Vec::new();
            self.refresh_current_stream_state();
        }
        self.popup = Popup::Hidden;
    }

    /// What visual mode copies: the selected message, or its selected code
    /// block, with a label. A code block that no longer exists switches the
    /// selection back to the message and copies nothing.
    pub fn yank_target(&mut self) -> (r: Option<(String, String)>)
        ensures
            old(self).focus != Focus::Chat ==> r is None && *final(self) == *old(self),
            old(self).focus == Focus::Chat && (old(self).selected_msg matches Some(i) && i < old(self).messages@.len()) ==> ({
                let m = old(self).messages@[old(self).selected_msg->0 as int];
                match old(self).visual_selection {
                    VisualSelection::Message => (r matches Some(p) && p.0@ == m.content@ && p.1@ == "message"@),
                    VisualSelection::CodeBlock(k) => {
                        let blocks = code_blocks_of(cmark_events(m.content@, CMARK_OPTIONS));
                        if k < blocks.len() {
                            r matches Some(p) && p.0@ == blocks[k as int] && p.1@ == "code block "@ + decimal((k + 1) as nat)
                        } else {
                            r is None && final(self).visual_selection == VisualSelection::Message
                                && opt_view(final(self).status_message) == Some("Selected code block no longer exists"@)
                        }
                    },
                }
            }),
            !(old(self).focus == Focus::Chat && (old(self).selected_msg matches Some(i) && i < old(self).messages@.len())) ==> r is None,
            final(self).messages == old(self).messages,
    {
        if self.focus != Focus::Chat {
            return None;
        }
        let i = match self.selected_msg {
            Some(i) => i,
            None => { return None; },
        };
        if i >= self.messages.len() {
            return None;
        }
        match self.visual_selection {
            VisualSelection::Message => Some((copy_string(&self.messages[i].content), string_from("message"))),
            VisualSelection::CodeBlock(k) => {
                let blocks = markdown_code_blocks(self.messages[i].content.as_str());
                if k < blocks.len() {
                    let mut label = string_from("code block ");
                    push_decimal(&mut label, (k as u64) + 1);
                    assert(blocks@[k as int]@ == strings_view(blocks@)[k as int]);
                    Some((copy_string(&blocks[k]), label))
                } else {
                    self.visual_selection = VisualSelection::Message;
                    self.status_message = Some(string_from("Selected code block no longer exists"));
                    None
                }
            },
        }
    }

    /// After a copy to the clipboard succeeded.
    pub fn yank_done(&mut self, label: &str)
        ensures
            opt_view(final(self).status_message) == Some("Yanked "@ + label@ + " to clipboard"@),
            final(self).mode == Mode::Normal,
            final(self).messages == old(self).messages,
    {
        let mut m = string_from("Yanked ");
        push_str(&mut m, label);
        push_str(&mut m, " to clipboard");
        self.status_message = Some(m);
        self.mode = Mode::Normal;
    }
}

/// The streams whose request is not `rid`, in order.
pub open spec fn keep_other_requests(s: Seq<ActiveStream>, rid: Seq<char>) -> Seq<ActiveStream>
    decreases s.len(),
{
    if s.len() == 0 {
        Seq::empty()
    } else {
        let rest = keep_other_requests(s.drop_last(), rid);
        if s.last().request_id@ != rid { rest.push(s.last()) } else { rest }
    }
}

pub proof fn lemma_keep_other_requests(s: Seq<ActiveStream>, rid: Seq<char>)
    ensures
        forall|k: int| 0 <= k < keep_other_requests(s, rid).len() ==> (#[trigger] keep_other_requests(s, rid)[k]).request_id@ != rid,
        forall|k: int| 0 <= k < s.len() && (#[trigger] s[k]).request_id@ != rid ==> keep_other_requests(s, rid).contains(s[k]),
        streams_unique(s) ==> streams_unique(keep_other_requests(s, rid)),
        forall|x: ActiveStream| keep_other_requests(s, rid).contains(x) ==> s.contains(x),
    decreases s.len(),
{
    if s.len() > 0 {
        let p = s.drop_last();
        lemma_keep_other_requests(p, rid);
        let rest = keep_other_requests(p, rid);
        let r = keep_other_requests(s, rid);
        assert forall|k: int| 0 <= k < s.len() && (#[trigger] s[k]).request_id@ != rid implies r.contains(s[k]) by {
            if k < s.len() - 1 {
                assert(p[k] == s[k]);
                assert(rest.contains(s[k]));
                let j = choose|j: int| 0 <= j < rest.len() && rest[j] == s[k];
                assert(r[j] == rest[j]);
            } else {
                assert(r[r.len() - 1] == s[k]);
            }
        }
        assert forall|x: ActiveStream| r.contains(x) implies s.contains(x) by {
            let j = choose|j: int| 0 <= j < r.len() && r[j] == x;
            if j < rest.len() {
                assert(r[j] == rest[j]);
                assert(rest[j] == x);
                assert(rest.contains(x));
                assert(p.contains(x));
                let q = choose|q: int| 0 <= q < p.len() && p[q] == x;
                assert(s[q] == x);
            } else {
                assert(s[s.len() - 1] == x);
            }
        }
        if streams_unique(s) {
            assert(streams_unique(p)) by {
                assert forall|a: int, b: int| 0 <= a < b < p.len() implies (#[trigger] p[a]).chat_id@ != (#[trigger] p[b]).chat_id@ by {
                    assert(p[a] == s[a]);
                    assert(p[b] == s[b]);
                }
            }
            assert forall|a: int, b: int| 0 <= a < b < r.len() implies (#[trigger] r[a]).chat_id@ != (#[trigger] r[b]).chat_id@ by {
                if b < rest.len() {
                    assert(r[a] == rest[a]);
                    assert(r[b] == rest[b]);
                } else {
                    assert(r[a] == rest[a]);
                    assert(rest.contains(rest[a]));
                    assert(p.contains(rest[a]));
                    let q = choose|q: int| 0 <= q < p.len() && p[q] == rest[a];
                    assert(s[q] == rest[a]);
                    assert(r[b] == s[s.len() - 1]);
                }
            }
        }
    }
}
} // verus!
