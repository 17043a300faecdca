use vstd::prelude::*;
use crate::chat::{Role, Message, Source, Attachment, Chat, ChatMeta, Mode, Focus, VisualSelection, opt_view,
    copy_opt, copy_sources, same_sources, copy_messages, same_messages, derive_title, derive_title_spec};
use crate::text::{copy_string, string_from, push_str, trim, trim_spec, str_eq, to_chars, string_of_range,
    decimal, push_decimal};
use crate::md_doc::{markdown_code_blocks, code_blocks_of, strings_view};
use crate::md_events::{cmark_events, CMARK_OPTIONS};
use crate::style::{Style, Span, Line, Text};
use crate::theme::Theme;
use crate::json::Json;
use syntect::highlighting::Theme as SynTheme;
use syntect::parsing::SyntaxSet;
use crate::md_render::{split_lf, lemma_split_lf_len};
use crate::text::{graphemes, grapheme_clusters, concat_all};
use crate::storage::{list_chats, search_chats, recency_sorted, metas_v, meta_of, needle_spec, search_hits};

verus! {

/// A cached rendering of message `idx` at `width` columns, valid while the
/// message's hash is `hash`.
pub struct CacheEntry {
    pub idx: usize,
    pub width: u16,
    pub hash: u64,
    pub text: Text,
}

/// A dialog over the main screen.
#[derive(Debug)]
pub enum Popup {
    Hidden,
    ConfirmDelete { id: String, title: String },
    Help,
}

/// A reply that the server is streaming for one chat.
#[derive(Debug)]
pub struct ActiveStream {
    pub chat_id: String,
    pub request_id: String,
    pub buffer: String,
    pub thinking: String,
    pub sources: Vec<Source>,
    pub status: Option<String>,
    /// Words received so far, a rough token count.
    pub generated_tokens: usize,
}

/// The client's state as its logic reads and changes it.
pub struct ClientState {
    pub current_chat_id: Option<String>,
    pub current_created_ts: Option<i64>,
    pub messages: Vec<Message>,
    pub pending_assistant: String,
    pub pending_thinking: String,
    pub pending_sources: Vec<Source>,
    pub status_message: Option<String>,
    pub pending_request_id: Option<String>,
    pub sending: bool,
    /// The replies being streamed, at most one per chat.
    pub active_streams: Vec<ActiveStream>,
    /// The cached rendering of the pending reply: width, hash of its text,
    /// and the lines.
    pub pending_cache: Option<(u16, u64, Text)>,
    /// Cached renderings of messages.
    pub render_cache: Vec<CacheEntry>,
    pub chats: Vec<ChatMeta>,
    pub sidebar_idx: usize,
    pub sidebar_search_query: String,
    pub selected_msg: Option<usize>,
    pub focus: Focus,
    pub mode: Mode,
    pub visual_selection: VisualSelection,
    pub chat_scroll: u16,
    pub chat_inner_height: u16,
    pub chat_inner_width: u16,
    pub scroll_to_bottom_on_draw: bool,
    pub chat_at_bottom: bool,
    pub pending_attachments: Vec<Attachment>,
    pub input: String,
    pub input_cursor_line: usize,
    pub input_cursor_col: usize,
    pub command_input: String,
    pub command_cursor_col: usize,
    pub input_top_line: usize,
    pub web_search: bool,
    pub show_thinking: bool,
    pub show_sidebar: bool,
    pub show_stats_panel: bool,
    pub bold_selection: bool,
    pub quit: bool,
    pub popup: Popup,
    pub sidebar_search_active: bool,
    pub model: String,
    pub api_url: String,
    pub ollama_api_key: Option<String>,
    pub system_prompt: Option<String>,
    pub options: Option<Json>,
    pub theme: Theme,
    pub syntax_enabled: bool,
    pub render_emojis: bool,
    pub syn_ss: SyntaxSet,
    pub syn_theme: SynTheme,
    pub preview_fmt: String,
    pub preview_open: String,
    pub server_addr: String,
    pub syntax_theme_name: String,
    /// Colours of a custom highlighting theme, by key.
    pub syntax_custom: Option<Vec<(String, String)>>,
    /// Least time between redraws while a reply streams.
    pub stream_throttle_ms: u64,
    /// How long the terminal is polled for input each turn.
    pub input_poll_ms: u64,
}

/// Position of the stream of chat `id`.
pub open spec fn stream_index(streams: Seq<ActiveStream>, id: Seq<char>) -> Option<int>
    decreases streams.len(),
{
    if streams.len() == 0 {
        None
    } else {
        match stream_index(streams.drop_last(), id) {
            Some(i) => Some(i),
            None => if streams.last().chat_id@ == id { Some(streams.len() - 1) } else { None },
        }
    }
}

pub proof fn lemma_stream_index(streams: Seq<ActiveStream>, id: Seq<char>)
    ensures
        stream_index(streams, id) matches Some(i) ==> 0 <= i < streams.len() && streams[i].chat_id@ == id,
        stream_index(streams, id) is None ==> forall|k: int| 0 <= k < streams.len() ==> (#[trigger] streams[k]).chat_id@ != id,
    decreases streams.len(),
{
    if streams.len() > 0 {
        lemma_stream_index(streams.drop_last(), id);
        assert forall|k: int| 0 <= k < streams.len() - 1 implies #[trigger] streams[k] == streams.drop_last()[k] by {}
    }
}

pub proof fn lemma_stream_index_prefix(s: Seq<ActiveStream>, id: Seq<char>, k: int)
    requires
        0 <= k <= s.len(),
        stream_index(s.take(k), id) is Some,
    ensures
        stream_index(s, id) == stream_index(s.take(k), id),
    decreases s.len(),
{
    if k == s.len() {
        assert(s.take(k) =~= s);
    } else {
        assert(s.drop_last().take(k) =~= s.take(k));
        lemma_stream_index_prefix(s.drop_last(), id, k);
    }
}

pub proof fn lemma_stream_index_at(s: Seq<ActiveStream>, id: Seq<char>, i: int)
    requires
        0 <= i < s.len(),
        s[i].chat_id@ == id,
        forall|k: int| 0 <= k < i ==> (#[trigger] s[k]).chat_id@ != id,
    ensures
        stream_index(s, id) == Some(i),
    decreases s.len(),
{
    if i == s.len() - 1 {
        lemma_stream_index(s.drop_last(), id);
        if stream_index(s.drop_last(), id) is Some {
            let k = stream_index(s.drop_last(), id)->0;
            assert(s.drop_last()[k] == s[k]);
        }
    } else {
        assert forall|k: int| 0 <= k < i implies (#[trigger] s.drop_last()[k]).chat_id@ != id by {
            assert(s.drop_last()[k] == s[k]);
        }
        assert(s.drop_last()[i] == s[i]);
        lemma_stream_index_at(s.drop_last(), id, i);
    }
}

/// Finds the stream of chat `id`.
pub fn find_stream(streams: &Vec<ActiveStream>, id: &str) -> (r: Option<usize>)
    ensures
        r matches Some(i) ==> stream_index(streams@, id@) == Some(i as int),
        r is None ==> stream_index(streams@, id@) is None,
{
    let mut i: usize = 0;
    while i < streams.len()
        invariant
            i <= streams@.len(),
            stream_index(streams@.take(i as int), id@) is None,
        decreases streams.len() - i,
    {
        assert(streams@.take(i + 1).drop_last() =~= streams@.take(i as int));
        if str_eq(streams[i].chat_id.as_str(), id) {
            proof { lemma_stream_index_prefix(streams@, id@, i + 1); }
            return Some(i);
        }
        i = i + 1;
    }
    assert(streams@.take(streams@.len() as int) =~= streams@);
    None
}

/// What the pending-reply fields hold after a refresh: the stream of the
/// current chat, or nothing.
pub open spec fn pending_matches_stream(app: ClientState, s: Option<ActiveStream>) -> bool {
    match s {
        Some(st) => {
            &&& opt_view(app.pending_request_id) == Some(st.request_id@)
            &&& app.pending_assistant@ == st.buffer@
            &&& app.pending_thinking@ == st.thinking@
            &&& same_sources(app.pending_sources@, st.sources@)
            &&& opt_view(app.status_message) == opt_view(st.status)
            &&& app.sending
        },
        None => {
            &&& app.pending_request_id is None
            &&& app.pending_assistant@.len() == 0
            &&& app.pending_thinking@.len() == 0
            &&& app.pending_sources@.len() == 0
            &&& app.status_message is None
            &&& !app.sending
        },
    }
}

/// The stream of the current chat, if one is running.
pub open spec fn current_stream(app: ClientState) -> Option<ActiveStream> {
    match app.current_chat_id {
        Some(id) => match stream_index(app.active_streams@, id@) {
            Some(i) => Some(app.active_streams@[i]),
            None => None,
        },
        None => None,
    }
}

/// The fields that a refresh of the pending reply leaves alone.
pub open spec fn same_except_pending(a: ClientState, b: ClientState) -> bool {
    &&& a.current_chat_id == b.current_chat_id
    &&& a.current_created_ts == b.current_created_ts
    &&& a.messages == b.messages
    &&& a.active_streams == b.active_streams
    &&& a.render_cache == b.render_cache
    &&& a.chats == b.chats
    &&& a.sidebar_idx == b.sidebar_idx
    &&& a.sidebar_search_query == b.sidebar_search_query
    &&& a.selected_msg == b.selected_msg
    &&& a.focus == b.focus
    &&& a.mode == b.mode
    &&& a.visual_selection == b.visual_selection
    &&& a.input == b.input
    &&& a.command_input == b.command_input
    &&& a.web_search == b.web_search
    &&& a.chat_scroll == b.chat_scroll
    &&& a.chat_inner_width == b.chat_inner_width
    &&& a.chat_inner_height == b.chat_inner_height
    &&& a.scroll_to_bottom_on_draw == b.scroll_to_bottom_on_draw
    &&& a.chat_at_bottom == b.chat_at_bottom
    &&& a.pending_attachments == b.pending_attachments
    &&& a.input_cursor_line == b.input_cursor_line
    &&& a.input_cursor_col == b.input_cursor_col
    &&& a.show_thinking == b.show_thinking
    &&& a.theme == b.theme
    &&& a.model == b.model
    &&& a.bold_selection == b.bold_selection
    &&& a.system_prompt == b.system_prompt
    &&& a.current_created_ts == b.current_created_ts
}

impl ClientState {
    /// Shows the stream of the current chat, if one runs, as the pending
    /// reply; otherwise clears the pending reply.
    pub fn refresh_current_stream_state(&mut self)
        ensures
            pending_matches_stream(*final(self), current_stream(*old(self))),
            final(self).pending_cache is None,
            same_except_pending(*final(self), *old(self)),
    {
        let found = match &self.current_chat_id {
            Some(id) => find_stream(&self.active_streams, id.as_str()),
            None => None,
        };
        proof {
            if self.current_chat_id is Some {
                lemma_stream_index(self.active_streams@, self.current_chat_id->0@);
            }
        }
        match found {
            Some(i) => {
                let st = &self.active_streams[i];
                let rid = copy_string(&st.request_id);
                let buf = copy_string(&st.buffer);
                let th = copy_string(&st.thinking);
                let src = copy_sources(&st.sources);
                let status = copy_opt(&st.status);
                self.pending_request_id = Some(rid);
                self.pending_assistant = buf;
                self.pending_thinking = th;
                self.pending_sources = src;
                self.status_message = status;
                self.sending = true;
            },
            None => {
                self.pending_request_id = None;
                self.pending_assistant = String::new();
                self.pending_thinking = String::new();
                self.pending_sources = Vec::new();
                self.status_message = None;
                self.sending = false;
            },
        }
        self.pending_cache = None;
    }

    /// The cancel request (request id, chat id) for the stream of the
    /// current chat, or `None` when none runs.
    pub fn cancel_current_stream(&self) -> (r: Option<(String, String)>)
        ensures
            r is None <==> current_stream(*self) is None,
            r matches Some(p) ==> (current_stream(*self) matches Some(st)
                && p.0@ == st.request_id@ && p.1@ == st.chat_id@
                && Some(p.1@) == opt_view(self.current_chat_id)),
    {
        match &self.current_chat_id {
            None => None,
            Some(id) => {
                let found = find_stream(&self.active_streams, id.as_str());
                proof { lemma_stream_index(self.active_streams@, id@); }
                match found {
                    None => None,
                    Some(i) => Some((copy_string(&self.active_streams[i].request_id), copy_string(id))),
                }
            },
        }
    }

    /// Stops keeping the view at the newest text of a stream.
    pub fn stop_following_stream(&mut self)
        ensures
            !final(self).scroll_to_bottom_on_draw,
            !final(self).chat_at_bottom,
            final(self).messages == old(self).messages,
            final(self).input == old(self).input,
    {
        self.scroll_to_bottom_on_draw = false;
        self.chat_at_bottom = false;
    }

    /// Records a failed clipboard action as a system message and drops the
    /// cached renderings.
    pub fn push_clipboard_error(&mut self, action: &str, error: &str, now: i64)
        ensures
            final(self).messages@.len() == old(self).messages@.len() + 1,
            final(self).messages@.drop_last() == old(self).messages@,
            final(self).messages@.last().role == Role::System,
            final(self).messages@.last().content@ == "Clipboard "@ + action@ + " failed: "@ + error@,
            final(self).messages@.last().created_ts == now,
            final(self).render_cache@.len() == 0,
    {
        let mut content = string_from("Clipboard ");
        push_str(&mut content, action);
        push_str(&mut content, " failed: ");
        push_str(&mut content, error);
        self.messages.push(system_message(content, now));
        self.render_cache = Vec::new();
    }
}

/// A system message written at `now`.
pub fn system_message(content: String, now: i64) -> (r: Message)
    ensures
        r.role == Role::System,
        r.content@ == content@,
        r.created_ts == now,
        r.thinking is None,
        r.attachments@.len() == 0,
        r.sources@.len() == 0,
{
    Message { role: Role::System, content, created_ts: now, thinking: None, attachments: Vec::new(), sources: Vec::new() }
}

/// Adds an assistant reply, written at `now`, to a stored chat.
pub fn append_assistant_to_chat(chat: &mut Chat, content: String, thinking: Option<String>, sources: Vec<Source>, now: i64)
    ensures
        final(chat).messages@.len() == old(chat).messages@.len() + 1,
        final(chat).messages@.drop_last() == old(chat).messages@,
        final(chat).messages@.last().role == Role::Assistant,
        final(chat).messages@.last().content@ == content@,
        final(chat).messages@.last().created_ts == now,
        opt_view(final(chat).messages@.last().thinking) == opt_view(thinking),
        final(chat).messages@.last().attachments@.len() == 0,
        final(chat).messages@.last().sources@ == sources@,
        final(chat).updated_ts == now,
        final(chat).id == old(chat).id,
        final(chat).title == old(chat).title,
        final(chat).created_ts == old(chat).created_ts,
{
    chat.messages.push(Message { role: Role::Assistant, content, created_ts: now, thinking, attachments: Vec::new(), sources });
    chat.updated_ts = now;
}

/// Adds a system message, written at `now`, to a stored chat.
pub fn append_system_to_chat(chat: &mut Chat, content: String, now: i64)
    ensures
        final(chat).messages@.len() == old(chat).messages@.len() + 1,
        final(chat).messages@.drop_last() == old(chat).messages@,
        final(chat).messages@.last().role == Role::System,
        final(chat).messages@.last().content@ == content@,
        final(chat).messages@.last().created_ts == now,
        final(chat).messages@.last().thinking is None,
        final(chat).messages@.last().sources@.len() == 0,
        final(chat).updated_ts == now,
        final(chat).id == old(chat).id,
        final(chat).title == old(chat).title,
        final(chat).created_ts == old(chat).created_ts,
{
    chat.messages.push(system_message(content, now));
    chat.updated_ts = now;
}

/// Seconds since the Unix epoch by the system clock (0 for a clock set
/// before the epoch). Nothing is stated of the time read.
#[verifier::external_body]
pub fn now_sec() -> i64 {
    std::time::SystemTime::now().duration_since(std::time::UNIX_EPOCH).unwrap_or_default().as_secs() as i64
}

/// A random 32-bit number from the thread's generator. Nothing is stated of
/// the number drawn.
#[verifier::external_body]
fn random_u32() -> u32 {
    rand::random::<u32>()
}

/// The lower-case hexadecimal digit for `d < 16`.
pub open spec fn hex_digit(d: int) -> char {
    if d < 10 { ((d + 48) as u32) as char } else { ((d - 10 + 97) as u32) as char }
}

/// `n` as eight lower-case hexadecimal digits.
pub open spec fn hex8(n: u32) -> Seq<char> {
    Seq::new(8, |i: int| hex_digit(((n as int) / pow16(7 - i)) % 16))
}

pub open spec fn pow16(k: int) -> int
    decreases k,
{
    if k <= 0 { 1 } else { 16 * pow16(k - 1) }
}

/// The decimal form of a possibly negative number.
pub open spec fn signed_decimal(n: i64) -> Seq<char> {
    if n < 0 { seq!['-'] + decimal((-(n as int)) as nat) } else { decimal(n as nat) }
}

/// A chat id: the time, a dash and a random number in eight hex digits.
pub open spec fn chat_id_spec(now: i64, rand: u32) -> Seq<char> {
    signed_decimal(now) + seq!['-'] + hex8(rand)
}

/// The id of a chat made at `now` with the random number `rand`.
pub fn chat_id_from(now: i64, rand: u32) -> (r: String)
    ensures
        r@ == chat_id_spec(now, rand),
{
    let mut s = String::new();
    if now < 0 {
        s.push('-');
        let mag: u64 = if now == i64::MIN { 9223372036854775808u64 } else { (-now) as u64 };
        push_decimal(&mut s, mag);
    } else {
        push_decimal(&mut s, now as u64);
    }
    s.push('-');
    let ghost head = s@;
    let mut k: usize = 0;
    while k < 8
        invariant
            k <= 8,
            s@ == head + hex8(rand).take(k as int),
        decreases 8 - k,
    {
        let shift: u32 = (28 - 4 * k) as u32;
        let d = (rand >> shift) & 15;
        proof {
            assert(d as int == ((rand as int) / pow16(7 - k as int)) % 16) by {
                lemma_shift_digit(rand, k as int);
            }
        }
        let c = if d < 10 { ((d + 48) as u8) as char } else { ((d - 10 + 97) as u8) as char };
        s.push(c);
        assert(hex8(rand).take(k + 1) =~= hex8(rand).take(k as int).push(hex_digit(((rand as int) / pow16(7 - k as int)) % 16)));
        k = k + 1;
    }
    assert(hex8(rand).take(8) =~= hex8(rand));
    s
}

proof fn lemma_shift_digit(n: u32, k: int)
    requires
        0 <= k < 8,
    ensures
        ((n >> ((28 - 4 * k) as u32)) & 15) as int == ((n as int) / pow16(7 - k)) % 16,
{
    reveal_with_fuel(pow16, 8);
    if k == 0 {
        assert((n >> 28u32) & 15 == (n / 0x1000_0000) % 16) by (bit_vector);
    } else if k == 1 {
        assert((n >> 24u32) & 15 == (n / 0x100_0000) % 16) by (bit_vector);
    } else if k == 2 {
        assert((n >> 20u32) & 15 == (n / 0x10_0000) % 16) by (bit_vector);
    } else if k == 3 {
        assert((n >> 16u32) & 15 == (n / 0x1_0000) % 16) by (bit_vector);
    } else if k == 4 {
        assert((n >> 12u32) & 15 == (n / 0x1000) % 16) by (bit_vector);
    } else if k == 5 {
        assert((n >> 8u32) & 15 == (n / 0x100) % 16) by (bit_vector);
    } else if k == 6 {
        assert((n >> 4u32) & 15 == (n / 0x10) % 16) by (bit_vector);
    } else {
        assert((n >> 0u32) & 15 == n % 16) by (bit_vector);
    }
}

/// A new chat id from the clock and the random generator: for some time
/// and some random number, the id they give.
pub fn gen_chat_id() -> (r: String)
    ensures
        exists|now: i64, rand: u32| r@ == #[trigger] chat_id_spec(now, rand),
{
    let now = now_sec();
    let rand = random_u32();
    let r = chat_id_from(now, rand);
    assert(r@ == chat_id_spec(now, rand));
    r
}


/// A command of the palette, after the `:` and surrounding space are dropped.
pub open spec fn palette_command(input: Seq<char>) -> Seq<char> {
    trim_spec(crate::commands::drop_leading_colons(trim_spec(input)))
}

/// What the palette hands back to the caller to carry out.
#[derive(Debug)]
pub enum PaletteAction {
    /// Nothing left to do.
    Done,
    /// Run `:set` with these arguments.
    SetOption(String),
    /// Attach the file at this path.
    Attach(String),
}

/// The action and status text of a palette command.
pub open spec fn palette_outcome(cmd: Seq<char>) -> (Option<Seq<char>>, Option<Seq<char>>, Option<Seq<char>>, bool) {
    // (status, set arguments, attach path, web search switched on)
    if cmd.len() == 0 {
        (Some("Command cancelled"@), None, None, false)
    } else if cmd.len() >= 4 && cmd.take(4) == "set "@ {
        (None, Some(trim_spec(cmd.skip(4))), None, false)
    } else if cmd.len() >= 7 && cmd.take(7) == "attach "@ && trim_spec(cmd.skip(7)).len() > 0 {
        (None, None, Some(trim_spec(cmd.skip(7))), false)
    } else if cmd == "web on"@ {
        (Some("Web search enabled"@), None, None, true)
    } else {
        (Some("Unknown command: :"@ + cmd), None, None, false)
    }
}

/// Whether `s` begins with the literal `p`.
pub fn starts_with_str(s: &Vec<char>, p: &str) -> (r: bool)
    ensures
        r == (s@.len() >= p@.len() && s@.take(p@.len() as int) == p@),
{
    let pv = to_chars(p);
    let r = crate::text::occurs_at(s, 0, &pv);
    assert(s@.len() >= p@.len() ==> s@.subrange(0, p@.len() as int) =~= s@.take(p@.len() as int));
    r
}

impl ClientState {
    /// Runs the command typed in the palette: the parts that need no outside
    /// work here, the rest handed back as an action.
#[verifier::rlimit(40)]
    pub fn execute_command_palette(&mut self) -> (r: PaletteAction)
        ensures
            final(self).options == old(self).options,
            final(self).pending_attachments == old(self).pending_attachments,
            final(self).quit == old(self).quit,
            final(self).show_thinking == old(self).show_thinking,
            final(self).show_stats_panel == old(self).show_stats_panel,
            final(self).show_sidebar == old(self).show_sidebar,
            final(self).focus == old(self).focus,
            final(self).mode == old(self).mode,
            crate::client::input_kept(*old(self), *final(self)),
            ({
                let (status, set, attach, web) = palette_outcome(palette_command(old(self).command_input@));
                &&& (status matches Some(t) ==> opt_view(final(self).status_message) == Some(t))
                &&& (status is None ==> final(self).status_message == old(self).status_message)
                &&& (set matches Some(a) ==> (r matches PaletteAction::SetOption(x) && x@ == a))
                &&& (attach matches Some(p) ==> (r matches PaletteAction::Attach(x) && x@ == p))
                &&& (set is None && attach is None ==> r is Done)
                &&& final(self).web_search == (old(self).web_search || web)
            }),
            final(self).messages == old(self).messages,
            final(self).command_input == old(self).command_input,
    {
        let t0 = trim(self.command_input.as_str());
        let v0 = to_chars(t0.as_str());
        let mut i: usize = 0;
        assert(v0@.skip(0) =~= v0@);
        while i < v0.len() && v0[i] == ':'
            invariant
                i <= v0@.len(),
                crate::commands::drop_leading_colons(v0@) == crate::commands::drop_leading_colons(v0@.skip(i as int)),
            decreases v0.len() - i,
        {
            assert(v0@.skip(i as int).drop_first() =~= v0@.skip(i + 1));
            i = i + 1;
        }
        assert(i < v0@.len() ==> v0@.skip(i as int)[0] == v0@[i as int]);
        assert(v0@.subrange(i as int, v0@.len() as int) =~= v0@.skip(i as int));
        let rest = string_of_range(&v0, i, v0.len());
        let command = trim(rest.as_str());
        let cv = to_chars(command.as_str());
        proof {
            reveal_strlit("set ");
            reveal_strlit("attach ");
            reveal_strlit("web on");
        }
        if cv.len() == 0 {
            self.status_message = Some(string_from("Command cancelled"));
            return PaletteAction::Done;
        }
        if starts_with_str(&cv, "set ") {
            let args = trim(string_of_range(&cv, 4, cv.len()).as_str());
            assert(cv@.subrange(4, cv@.len() as int) =~= cv@.skip(4));
            return PaletteAction::SetOption(args);
        }
        if starts_with_str(&cv, "attach ") {
            let path = trim(string_of_range(&cv, 7, cv.len()).as_str());
            assert(cv@.subrange(7, cv@.len() as int) =~= cv@.skip(7));
            if !path.as_str().is_empty() {
                return PaletteAction::Attach(path);
            }
        }
        if str_eq(command.as_str(), "web on") {
            self.web_search = true;
            self.status_message = Some(string_from("Web search enabled"));
        } else {
            let mut m = string_from("Unknown command: :");
            push_str(&mut m, command.as_str());
            self.status_message = Some(m);
        }
        PaletteAction::Done
    }

    /// Shows the outcome of `:set`: its message, or why it failed.
    pub fn finish_set_command(&mut self, outcome: Result<String, String>)
        ensures
            outcome matches Ok(m) ==> opt_view(final(self).status_message) == Some(m@),
            outcome matches Err(e) ==> opt_view(final(self).status_message) == Some("Set failed: "@ + e@),
            final(self).messages == old(self).messages,
    {
        match outcome {
            Ok(m) => self.status_message = Some(m),
            Err(e) => {
                let mut m = string_from("Set failed: ");
                push_str(&mut m, e.as_str());
                self.status_message = Some(m);
            },
        }
    }

    /// Keeps a file read for attaching until the next message is sent.
    pub fn attach_succeeded(&mut self, attachment: Attachment)
        ensures
            final(self).pending_attachments@ == old(self).pending_attachments@.push(attachment),
            opt_view(final(self).status_message) == Some("Attached file "@ + attachment.original_path@),
            final(self).messages == old(self).messages,
    {
        let mut m = string_from("Attached file ");
        push_str(&mut m, attachment.original_path.as_str());
        self.pending_attachments.push(attachment);
        self.status_message = Some(m);
    }

    /// Records a file that could not be attached as a system message.
    pub fn attach_failed(&mut self, error: &str, now: i64)
        ensures
            final(self).messages@.len() == old(self).messages@.len() + 1,
            final(self).messages@.drop_last() == old(self).messages@,
            final(self).messages@.last().role == Role::System,
            final(self).messages@.last().content@ == "Attachment failed: "@ + error@,
            final(self).render_cache@.len() == 0,
    {
        let mut content = string_from("Attachment failed: ");
        push_str(&mut content, error);
        self.messages.push(system_message(content, now));
        self.render_cache = Vec::new();
    }

    /// The code blocks of the selected message, each as its raw text.
    pub fn selected_message_code_blocks(&self) -> (r: Vec<String>)
        ensures
            strings_view(r@) == (match self.selected_msg {
                Some(i) => if i < self.messages@.len() {
                    code_blocks_of(cmark_events(self.messages@[i as int].content@, CMARK_OPTIONS))
                } else {
                    Seq::empty()
                },
                None => Seq::empty(),
            }),
    {
        match self.selected_msg {
            Some(i) => {
                if i < self.messages.len() {
                    markdown_code_blocks(self.messages[i].content.as_str())
                } else {
                    let r: Vec<String> = Vec::new();
                    assert(strings_view(r@) =~= Seq::<Seq<char>>::empty());
                    r
                }
            },
            None => {
                let r: Vec<String> = Vec::new();
                assert(strings_view(r@) =~= Seq::<Seq<char>>::empty());
                r
            },
        }
    }

    /// Moves the visual selection to the next code block of the selected
    /// message, wrapping around after the last.
    pub fn select_next_code_block(&mut self)
        ensures
            crate::client::globals_kept(*old(self), *final(self)),
            crate::client::input_kept(*old(self), *final(self)),
            old(self).focus != Focus::Chat ==> *final(self) == *old(self),
            old(self).focus == Focus::Chat ==> ({
                let n = (match old(self).selected_msg {
                    Some(i) => if i < old(self).messages@.len() {
                        code_blocks_of(cmark_events(old(self).messages@[i as int].content@, CMARK_OPTIONS))
                    } else {
                        Seq::empty()
                    },
                    None => Seq::empty(),
                }).len();
                &&& n == 0 ==> final(self).visual_selection == VisualSelection::Message
                    && opt_view(final(self).status_message) == Some("No code blocks in selected message"@)
                &&& n > 0 ==> final(self).visual_selection == VisualSelection::CodeBlock(match old(self).visual_selection {
                        VisualSelection::Message => 0usize,
                        VisualSelection::CodeBlock(k) => ((k as int + 1) % (n as int)) as usize,
                    })
                &&& n > 0 ==> (final(self).visual_selection matches VisualSelection::CodeBlock(k)
                        && opt_view(final(self).status_message)
                            == Some("Selected code block "@ + decimal((k + 1) as nat) + " of "@ + decimal(n)))
            }),
            final(self).messages == old(self).messages,
            final(self).selected_msg == old(self).selected_msg,
            final(self).focus == old(self).focus,
    {
        if self.focus != Focus::Chat {
            return;
        }
        let blocks = self.selected_message_code_blocks();
        let n = blocks.len();
        if n == 0 {
            self.visual_selection = VisualSelection::Message;
            self.status_message = Some(string_from("No code blocks in selected message"));
            return;
        }
        let next = match self.visual_selection {
            VisualSelection::Message => 0,
            VisualSelection::CodeBlock(k) => {
                let m = k % n;
                let r = (m + 1) % n;
                assert(r as int == (k as int + 1) % (n as int)) by (nonlinear_arith)
                    requires m as int == k as int % n as int, r as int == (m as int + 1) % (n as int), n > 0;
                r
            },
        };
        self.visual_selection = VisualSelection::CodeBlock(next);
        let mut m = string_from("Selected code block ");
        push_decimal(&mut m, (next as u64) + 1);
        push_str(&mut m, " of ");
        push_decimal(&mut m, n as u64);
        self.status_message = Some(m);
    }
}

/// Position of the first chat with id `id`.
pub open spec fn chat_position(chats: Seq<ChatMeta>, id: Seq<char>, from: int) -> Option<int>
    decreases chats.len() - from,
{
    if from < 0 || from >= chats.len() {
        None
    } else if chats[from].id@ == id {
        Some(from)
    } else {
        chat_position(chats, id, from + 1)
    }
}

pub proof fn lemma_chat_position(chats: Seq<ChatMeta>, id: Seq<char>, from: int)
    requires
        0 <= from,
    ensures
        chat_position(chats, id, from) matches Some(k) ==> from <= k < chats.len(),
    decreases chats.len() - from,
{
    if from < chats.len() && chats[from].id@ != id {
        lemma_chat_position(chats, id, from + 1);
    }
}

/// The sidebar index after the chat list is replaced: the preferred chat
/// when listed, else the old index kept within the list.
pub open spec fn sidebar_index_after(chats: Seq<ChatMeta>, preferred: Option<Seq<char>>, idx: usize) -> usize {
    let found = match preferred {
        Some(p) => chat_position(chats, p, 0),
        None => None,
    };
    match found {
        Some(k) => k as usize,
        None => if idx >= chats.len() { if chats.len() == 0 { 0 } else { (chats.len() - 1) as usize } } else { idx },
    }
}

/// Finds the first chat with id `id`.
pub fn find_chat(chats: &Vec<ChatMeta>, id: &str) -> (r: Option<usize>)
    ensures
        r matches Some(k) ==> chat_position(chats@, id@, 0) == Some(k as int),
        r is None ==> chat_position(chats@, id@, 0) is None,
{
    let mut i: usize = 0;
    while i < chats.len()
        invariant
            i <= chats@.len(),
            chat_position(chats@, id@, 0) == chat_position(chats@, id@, i as int),
        decreases chats.len() - i,
    {
        if str_eq(chats[i].id.as_str(), id) {
            return Some(i);
        }
        i = i + 1;
    }
    None
}

impl ClientState {
    /// Whether the sidebar shows all chats (no search is typed), rather than
    /// the results of a search.
    pub fn sidebar_lists_all(&self) -> (r: bool)
        ensures
            r == (trim_spec(self.sidebar_search_query@).len() == 0),
    {
        trim(self.sidebar_search_query.as_str()).as_str().is_empty()
    }

    /// Replaces the sidebar's chats by `chats` (all chats, or the search
    /// results), keeping the preferred chat selected when it is listed.
    pub fn refresh_sidebar_chats(&mut self, chats: Vec<ChatMeta>, preferred_id: Option<&str>)
        ensures
            final(self).chats@ == chats@,
            final(self).sidebar_idx == sidebar_index_after(chats@, match preferred_id { Some(p) => Some(p@), None => None }, old(self).sidebar_idx),
            final(self).sidebar_search_query == old(self).sidebar_search_query,
            final(self).messages == old(self).messages,
            final(self).current_chat_id == old(self).current_chat_id,
    {
        let found = match preferred_id {
            Some(id) => find_chat(&chats, id),
            None => None,
        };
        self.chats = chats;
        match found {
            Some(k) => {
                self.sidebar_idx = k;
            },
            None => {
                if self.sidebar_idx >= self.chats.len() {
                    self.sidebar_idx = self.chats.len().saturating_sub(1);
                }
            },
        }
    }

    /// Reloads the sidebar from the stored chats: every one of them while the
    /// search text is blank, else those the search finds; the preferred chat
    /// stays selected when it is listed.
    pub fn reload_sidebar(&mut self, stored: Vec<Chat>, preferred_id: Option<&str>)
        ensures
            recency_sorted(final(self).chats@),
            trim_spec(old(self).sidebar_search_query@).len() == 0 || needle_spec(old(self).sidebar_search_query@).len() == 0 ==>
                metas_v(final(self).chats@).to_multiset() == stored@.map_values(|c: Chat| meta_of(c)).to_multiset(),
            trim_spec(old(self).sidebar_search_query@).len() > 0 && needle_spec(old(self).sidebar_search_query@).len() > 0 ==>
                metas_v(final(self).chats@).to_multiset()
                    == search_hits(stored@, needle_spec(old(self).sidebar_search_query@), stored@.len() as int).to_multiset(),
            final(self).sidebar_idx == sidebar_index_after(final(self).chats@,
                match preferred_id { Some(p) => Some(p@), None => None }, old(self).sidebar_idx),
            final(self).sidebar_search_query == old(self).sidebar_search_query,
            final(self).messages == old(self).messages,
            final(self).current_chat_id == old(self).current_chat_id,
    {
        let chats = if self.sidebar_lists_all() {
            list_chats(stored)
        } else {
            search_chats(stored, self.sidebar_search_query.as_str())
        };
        self.refresh_sidebar_chats(chats, preferred_id);
    }

    /// Sets the sidebar search text; returns the id of the selected chat,
    /// which the refreshed list should keep selected.
    pub fn update_sidebar_search(&mut self, query: String) -> (r: Option<String>)
        ensures
            crate::client::globals_kept(*old(self), *final(self)),
            crate::client::input_kept(*old(self), *final(self)),
            final(self).sidebar_search_query@ == query@,
            old(self).sidebar_idx < old(self).chats@.len() ==> (r matches Some(id) && id@ == old(self).chats@[old(self).sidebar_idx as int].id@),
            old(self).sidebar_idx >= old(self).chats@.len() ==> r is None,
            final(self).chats == old(self).chats,
            final(self).sidebar_idx == old(self).sidebar_idx,
            final(self).sidebar_search_active == old(self).sidebar_search_active,
    {
        let selected = if self.sidebar_idx < self.chats.len() {
            Some(copy_string(&self.chats[self.sidebar_idx].id))
        } else {
            None
        };
        self.sidebar_search_query = query;
        selected
    }

    /// Starts an empty chat with id `id` at time `now` and returns it for
    /// saving.
    pub fn start_new_chat(&mut self, id: String, now: i64) -> (r: Chat)
        ensures
            opt_view(final(self).current_chat_id) == Some(id@),
            final(self).current_created_ts == Some(now),
            final(self).messages@.len() == 0,
            final(self).pending_assistant@.len() == 0,
            final(self).pending_thinking@.len() == 0,
            final(self).status_message is None,
            final(self).pending_request_id is None,
            !final(self).sending,
            final(self).selected_msg is None,
            final(self).chat_scroll == 0,
            final(self).chat_inner_height == 0,
            final(self).chat_inner_width == 0,
            !final(self).scroll_to_bottom_on_draw,
            final(self).chat_at_bottom,
            final(self).render_cache@.len() == 0,
            final(self).pending_cache is None,
            final(self).pending_attachments@.len() == 0,
            r.id@ == id@,
            r.title@ == "Untitled chat"@,
            r.created_ts == now,
            r.updated_ts == now,
            r.messages@.len() == 0,
    {
        self.current_chat_id = Some(copy_string(&id));
        self.current_created_ts = Some(now);
        self.messages = Vec::new();
        self.pending_assistant = String::new();
        self.pending_thinking = String::new();
        self.status_message = None;
        self.pending_request_id = None;
        self.sending = false;
        self.selected_msg = None;
        self.chat_scroll = 0;
        self.chat_inner_height = 0;
        self.chat_inner_width = 0;
        self.scroll_to_bottom_on_draw = false;
        self.chat_at_bottom = true;
        self.render_cache = Vec::new();
        self.pending_cache = None;
        self.pending_attachments = Vec::new();
        Chat { id, title: string_from("Untitled chat"), created_ts: now, updated_ts: now, messages: Vec::new() }
    }

    /// The current chat as it is to be saved at `now`; a chat without an id
    /// gets `new_id` and is dated `now`.
    pub fn persist_current_chat(&mut self, new_id: String, now: i64) -> (r: Chat)
        ensures
            old(self).current_chat_id is None ==> opt_view(final(self).current_chat_id) == Some(new_id@)
                && final(self).current_created_ts == Some(now),
            old(self).current_chat_id is Some ==> final(self).current_chat_id == old(self).current_chat_id
                && final(self).current_created_ts == old(self).current_created_ts,
            Some(r.id@) == opt_view(final(self).current_chat_id),
            r.title@ == derive_title_spec(old(self).messages@),
            r.created_ts == (match final(self).current_created_ts { Some(c) => c, None => now }),
            r.updated_ts == now,
            same_messages(r.messages@, old(self).messages@),
            final(self).messages == old(self).messages,
            final(self).active_streams == old(self).active_streams,
            final(self).pending_attachments == old(self).pending_attachments,
    {
        if self.current_chat_id.is_none() {
            self.current_chat_id = Some(new_id);
            self.current_created_ts = Some(now);
        }
        let id = match &self.current_chat_id {
            Some(i) => copy_string(i),
            None => String::new(),
        };
        let created = match self.current_created_ts {
            Some(c) => c,
            None => now,
        };
        let title = derive_title(&self.messages);
        Chat { id, title, created_ts: created, updated_ts: now, messages: copy_messages(&self.messages) }
    }
}

/// Lines joined with line feeds.
pub open spec fn join_lf(lines: Seq<Seq<char>>) -> Seq<char>
    decreases lines.len(),
{
    if lines.len() == 0 {
        Seq::empty()
    } else if lines.len() == 1 {
        lines[0]
    } else {
        join_lf(lines.drop_last()) + seq!['\n'] + lines.last()
    }
}

/// Splitting a text at its line feeds and joining the pieces with line
/// feeds gives the text back.
pub proof fn lemma_join_split_lf(s: Seq<char>)
    ensures
        join_lf(split_lf(s)) == s,
    decreases s.len(),
{
    if s.len() > 0 {
        lemma_join_split_lf(s.drop_last());
        lemma_split_lf_len(s.drop_last());
        let rest = split_lf(s.drop_last());
        if s.last() == '\n' {
            assert(split_lf(s).drop_last() =~= rest);
        } else {
            let l = split_lf(s);
            assert(l.last() == rest.last().push(s.last()));
            if rest.len() == 1 {
                assert(join_lf(rest) == rest[0]);
            } else {
                assert(l.drop_last() =~= rest.drop_last());
            }
        }
        assert(s.drop_last().push(s.last()) =~= s);
    } else {
        assert(split_lf(s) =~= seq![Seq::<char>::empty()]);
    }
}

/// The lines of a text: the pieces between line feeds.
pub fn split_lines(s: &str) -> (r: Vec<String>)
    ensures
        strings_view(r@) == split_lf(s@),
{
    let v = to_chars(s);
    let mut out: Vec<String> = Vec::new();
    let mut cur = String::new();
    let mut i: usize = 0;
    assert(v@.subrange(0, 0) =~= Seq::<char>::empty());
    while i < v.len()
        invariant
            i <= v@.len(),
            strings_view(out@).push(cur@) == split_lf(v@.subrange(0, i as int)),
        decreases v.len() - i,
    {
        proof {
            assert(v@.subrange(0, i + 1).drop_last() =~= v@.subrange(0, i as int));
            lemma_split_lf_len(v@.subrange(0, i as int));
        }
        let ghost before = strings_view(out@).push(cur@);
        if v[i] == '\n' {
            let mut fresh = String::new();
            std::mem::swap(&mut fresh, &mut cur);
            out.push(fresh);
            assert(strings_view(out@).push(cur@) =~= before.push(Seq::<char>::empty()));
        } else {
            cur.push(v[i]);
            assert(strings_view(out@).push(cur@) =~= before.drop_last().push(before.last().push(v@[i as int])));
        }
        i = i + 1;
    }
    assert(v@.subrange(0, v@.len() as int) =~= v@);
    out.push(cur);
    out
}

/// Lines joined with line feeds.
pub fn join_lines(lines: &Vec<String>) -> (r: String)
    ensures
        r@ == join_lf(strings_view(lines@)),
{
    let mut out = String::new();
    let mut i: usize = 0;
    while i < lines.len()
        invariant
            i <= lines@.len(),
            out@ == join_lf(strings_view(lines@.take(i as int))),
        decreases lines.len() - i,
    {
        assert(strings_view(lines@.take(i + 1)).drop_last() =~= strings_view(lines@.take(i as int)));
        if i > 0 {
            out.push('\n');
        }
        push_str(&mut out, lines[i].as_str());
        i = i + 1;
    }
    assert(lines@.take(lines@.len() as int) =~= lines@);
    out
}

/// The input after deleting the grapheme before the cursor: inside a line
/// the grapheme goes; at the start of a line the line joins the one above.
pub open spec fn delete_prev_spec(input: Seq<char>, line: int, col: int) -> (Seq<char>, int, int) {
    let lines = split_lf(input);
    if line == 0 && col == 0 {
        (input, line, col)
    } else if col > 0 {
        let g = grapheme_clusters(lines[line]);
        let nl = concat_all(g.take(col - 1)) + concat_all(g.skip(col));
        (join_lf(lines.update(line, nl)), line, col - 1)
    } else {
        let prev_len = grapheme_clusters(lines[line - 1]).len() as int;
        let merged = lines[line - 1] + lines[line];
        (join_lf(lines.take(line - 1).push(merged) + lines.skip(line + 1)), line - 1, prev_len)
    }
}

/// The cursor stands on a line of the input, at most after its last grapheme.
pub open spec fn cursor_valid(input: Seq<char>, line: int, col: int) -> bool {
    let lines = split_lf(input);
    &&& 0 <= line < lines.len()
    &&& 0 <= col <= grapheme_clusters(lines[line]).len()
}

proof fn lemma_concat_all_take_push(g: Seq<Seq<char>>, k: int)
    requires
        0 <= k < g.len(),
    ensures
        concat_all(g.take(k + 1)) == concat_all(g.take(k)) + g[k],
{
    assert(g.take(k + 1).drop_last() =~= g.take(k));
}

impl ClientState {
    /// Deletes the grapheme before the input cursor (joining the line with
    /// the one above when the cursor is at its start).
    pub fn delete_prev_input_grapheme(&mut self)
        requires
            cursor_valid(old(self).input@, old(self).input_cursor_line as int, old(self).input_cursor_col as int),
        ensures
            (final(self).input@, final(self).input_cursor_line as int, final(self).input_cursor_col as int)
                == delete_prev_spec(old(self).input@, old(self).input_cursor_line as int, old(self).input_cursor_col as int),
            final(self).input_cursor_line < split_lf(final(self).input@).len(),
            final(self).messages == old(self).messages,
            globals_kept(*old(self), *final(self)),
            *final(self) == (ClientState { input: final(self).input, input_cursor_line: final(self).input_cursor_line,
                input_cursor_col: final(self).input_cursor_col, ..*old(self) }),
    {
        let (input, line, col) = input_after_delete(self.input.as_str(), self.input_cursor_line, self.input_cursor_col);
        self.input = input;
        self.input_cursor_line = line;
        self.input_cursor_col = col;
    }
}

/// The input, cursor line and cursor column after deleting the grapheme
/// before the cursor.
fn input_after_delete(input: &str, line: usize, col: usize) -> (r: (String, usize, usize))
    requires
        cursor_valid(input@, line as int, col as int),
    ensures
        (r.0@, r.1 as int, r.2 as int) == delete_prev_spec(input@, line as int, col as int),
        r.1 < split_lf(r.0@).len(),
{
        
        
        if line == 0 && col == 0 {
            proof { lemma_delete_keeps_cursor_if(input@, line as int, col as int); }
            return (string_from(input), line, col);
        }
        let mut lines = split_lines(input);
        let ghost ls = split_lf(input@);
        assert(lines@.len() == ls.len());
        assert(lines@[line as int]@ == ls[line as int]);
        if col > 0 {
            let gs = graphemes(lines[line].as_str());
            let ghost g = grapheme_clusters(ls[line as int]);
            assert(gs@.len() == g.len());
            proof {
                assert(gs@.map_values(|x: String| x@) =~= g);
                lemma_delete_keeps_cursor(input@, line as int, col as int);
            }
            let mut nl = String::new();
            let mut k: usize = 0;
            while k < col - 1
                invariant
                    0 < col <= gs@.len(),
                    k <= col - 1,
                    gs@.len() == g.len(),
                    forall|x: int| 0 <= x < gs@.len() ==> (#[trigger] gs@[x])@ == g[x],
                    nl@ == concat_all(g.take(k as int)),
                decreases col - 1 - k,
            {
                proof { lemma_concat_all_take_push(g, k as int); }
                push_str(&mut nl, gs[k].as_str());
                k = k + 1;
            }
            let ghost head = nl@;
            let mut j: usize = col;
            assert(g.subrange(col as int, col as int) =~= Seq::<Seq<char>>::empty());
            while j < gs.len()
                invariant
                    col <= j <= gs@.len(),
                    gs@.len() == g.len(),
                    forall|x: int| 0 <= x < gs@.len() ==> (#[trigger] gs@[x])@ == g[x],
                    nl@ == head + concat_all(g.subrange(col as int, j as int)),
                decreases gs.len() - j,
            {
                assert(g.subrange(col as int, j + 1).drop_last() =~= g.subrange(col as int, j as int));
                push_str(&mut nl, gs[j].as_str());
                j = j + 1;
            }
            assert(g.subrange(col as int, g.len() as int) =~= g.skip(col as int));
            let ghost nlv = nl@;
            lines.set(line, nl);
            assert(strings_view(lines@) =~= ls.update(line as int, nlv));
            (join_lines(&lines), line, col - 1)
        } else {
            assert(lines@[line - 1]@ == ls[line - 1]);
            proof { lemma_delete_keeps_cursor(input@, line as int, col as int); }
            let prev_len = graphemes(lines[line - 1].as_str()).len();
            let cur = lines.remove(line);
            let mut prev = copy_string(&lines[line - 1]);
            push_str(&mut prev, cur.as_str());
            let ghost merged = prev@;
            lines.set(line - 1, prev);
            assert(strings_view(lines@) =~= ls.take(line - 1).push(merged) + ls.skip(line as int + 1));
            (join_lines(&lines), line - 1, prev_len)
        }
}

impl ClientState {

    /// Backspace in the input: deletes the grapheme before the cursor when
    /// the cursor stands within the input; returns whether it did.
    pub fn backspace_input(&mut self) -> (r: bool)
        ensures
            crate::client::globals_kept(*old(self), *final(self)),
            r == cursor_valid(old(self).input@, old(self).input_cursor_line as int, old(self).input_cursor_col as int),
            r ==> (final(self).input@, final(self).input_cursor_line as int, final(self).input_cursor_col as int)
                == delete_prev_spec(old(self).input@, old(self).input_cursor_line as int, old(self).input_cursor_col as int),
            !r ==> final(self).input == old(self).input,
            r ==> final(self).input_cursor_line < split_lf(final(self).input@).len(),
            !r ==> final(self).input_cursor_line == old(self).input_cursor_line,
            final(self).quit == old(self).quit,
            final(self).mode == old(self).mode,
            final(self).focus == old(self).focus,
    {
        let lines = split_lines(self.input.as_str());
        let ghost ls = split_lf(self.input@);
        if self.input_cursor_line >= lines.len() {
            return false;
        }
        assert(lines@[self.input_cursor_line as int]@ == ls[self.input_cursor_line as int]);
        let n = graphemes(lines[self.input_cursor_line].as_str()).len();
        if self.input_cursor_col > n {
            return false;
        }
        self.delete_prev_input_grapheme();
        true
    }
}

/// A text without line feeds is one line.
pub proof fn lemma_split_lf_single(b: Seq<char>)
    requires
        !b.contains('\n'),
    ensures
        split_lf(b) == seq![b],
    decreases b.len(),
{
    if b.len() > 0 {
        assert(!b.drop_last().contains('\n')) by {
            if b.drop_last().contains('\n') {
                let k = choose|k: int| 0 <= k < b.drop_last().len() && b.drop_last()[k] == '\n';
                assert(b[k] == '\n');
            }
        }
        lemma_split_lf_single(b.drop_last());
        assert(b.last() != '\n') by {
            assert(b[b.len() - 1] == b.last());
        }
        assert(b.drop_last().push(b.last()) =~= b);
    } else {
        assert(b =~= Seq::<char>::empty());
    }
}

/// A line feed followed by a text without line feeds adds that text as a
/// last line.
pub proof fn lemma_split_lf_append(a: Seq<char>, b: Seq<char>)
    requires
        !b.contains('\n'),
    ensures
        split_lf(a + seq!['\n'] + b) == split_lf(a).push(b),
    decreases b.len(),
{
    if b.len() == 0 {
        assert(b =~= Seq::<char>::empty());
        assert(a + seq!['\n'] + b =~= a.push('\n'));
        assert((a + seq!['\n'] + b).drop_last() =~= a);
    } else {
        let b0 = b.drop_last();
        assert(!b0.contains('\n')) by {
            if b0.contains('\n') {
                let k = choose|k: int| 0 <= k < b0.len() && b0[k] == '\n';
                assert(b[k] == '\n');
            }
        }
        lemma_split_lf_append(a, b0);
        assert((a + seq!['\n'] + b).drop_last() =~= a + seq!['\n'] + b0);
        assert(b.last() != '\n') by {
            assert(b[b.len() - 1] == b.last());
        }
        assert(b0.push(b.last()) =~= b);
    }
}

/// Lines without line feeds, joined with line feeds and split again, come
/// back as they were.
pub proof fn lemma_split_join_lf(lines: Seq<Seq<char>>)
    requires
        lines.len() >= 1,
        forall|k: int| 0 <= k < lines.len() ==> !(#[trigger] lines[k]).contains('\n'),
    ensures
        split_lf(join_lf(lines)) == lines,
    decreases lines.len(),
{
    if lines.len() == 1 {
        lemma_split_lf_single(lines[0]);
        assert(seq![lines[0]] =~= lines);
    } else {
        let p = lines.drop_last();
        assert forall|k: int| 0 <= k < p.len() implies !(#[trigger] p[k]).contains('\n') by {
            assert(p[k] == lines[k]);
        }
        lemma_split_join_lf(p);
        assert(!lines.last().contains('\n')) by {
            assert(lines[lines.len() - 1] == lines.last());
        }
        lemma_split_lf_append(join_lf(p), lines.last());
        assert(p.push(lines.last()) =~= lines);
    }
}

/// The characters of the first `a` parts and those of the rest make up
/// all of them.
pub proof fn lemma_concat_all_split(g: Seq<Seq<char>>, a: int)
    requires
        0 <= a <= g.len(),
    ensures
        concat_all(g) == concat_all(g.take(a)) + concat_all(g.skip(a)),
    decreases g.len() - a,
{
    if a == g.len() {
        assert(g.take(a) =~= g);
        assert(g.skip(a) =~= Seq::<Seq<char>>::empty());
    } else {
        lemma_concat_all_split(g, a + 1);
        assert(g.take(a + 1).drop_last() =~= g.take(a));
        lemma_concat_all_prepend(g.skip(a));
        assert(g.skip(a).drop_first() =~= g.skip(a + 1));
    }
}

pub proof fn lemma_concat_all_prepend(g: Seq<Seq<char>>)
    requires
        g.len() > 0,
    ensures
        concat_all(g) == g[0] + concat_all(g.drop_first()),
    decreases g.len(),
{
    if g.len() == 1 {
        assert(g.drop_first() =~= Seq::<Seq<char>>::empty());
        assert(g.drop_last() =~= Seq::<Seq<char>>::empty());
    } else {
        lemma_concat_all_prepend(g.drop_last());
        assert(g.drop_last().drop_first() =~= g.drop_first().drop_last());
    }
}

/// Parts of a text without line feeds have none either.
pub proof fn lemma_no_lf_parts(x: Seq<char>, y: Seq<char>)
    requires
        !(x + y).contains('\n'),
    ensures
        !x.contains('\n'),
        !y.contains('\n'),
{
    if x.contains('\n') {
        let k = choose|k: int| 0 <= k < x.len() && x[k] == '\n';
        assert((x + y)[k] == '\n');
    }
    if y.contains('\n') {
        let k = choose|k: int| 0 <= k < y.len() && y[k] == '\n';
        assert((x + y)[x.len() + k] == '\n');
    }
}

pub proof fn lemma_no_lf_concat(x: Seq<char>, y: Seq<char>)
    requires
        !x.contains('\n'),
        !y.contains('\n'),
    ensures
        !(x + y).contains('\n'),
{
    if (x + y).contains('\n') {
        let k = choose|k: int| 0 <= k < (x + y).len() && (x + y)[k] == '\n';
        if k < x.len() {
            assert(x[k] == '\n');
        } else {
            assert(y[k - x.len()] == '\n');
        }
    }
}

proof fn lemma_delete_keeps_cursor_if(input: Seq<char>, line: int, col: int)
    requires
        cursor_valid(input, line, col),
        line == 0 && col == 0,
    ensures
        ({
            let (s, l, c) = delete_prev_spec(input, line, col);
            0 <= l < split_lf(s).len()
        }),
{
}

/// After deleting before a valid cursor the cursor stands on a line of the
/// new input.
pub proof fn lemma_delete_keeps_cursor(input: Seq<char>, line: int, col: int)
    requires
        cursor_valid(input, line, col),
        col > 0 ==> concat_all(grapheme_clusters(split_lf(input)[line])) == split_lf(input)[line],
    ensures
        ({
            let (s, l, c) = delete_prev_spec(input, line, col);
            0 <= l < split_lf(s).len()
        }),
{
    let lines = split_lf(input);
    crate::md_render::lemma_split_lf_no_lf(input);
    if line == 0 && col == 0 {
    } else if col > 0 {
        let g = grapheme_clusters(lines[line]);
        let nl = concat_all(g.take(col - 1)) + concat_all(g.skip(col));
        lemma_concat_all_split(g, col - 1);
        lemma_concat_all_split(g.skip(col - 1), 1);
        assert(g.skip(col - 1).skip(1) =~= g.skip(col));
        lemma_no_lf_parts(concat_all(g.take(col - 1)), concat_all(g.skip(col - 1)));
        lemma_no_lf_parts(concat_all(g.skip(col - 1).take(1)), concat_all(g.skip(col - 1).skip(1)));
        lemma_no_lf_concat(concat_all(g.take(col - 1)), concat_all(g.skip(col)));
        let nls = lines.update(line, nl);
        assert forall|k: int| 0 <= k < nls.len() implies !(#[trigger] nls[k]).contains('\n') by {
            if k != line {
                assert(nls[k] == lines[k]);
            }
        }
        lemma_split_join_lf(nls);
    } else {
        let merged = lines[line - 1] + lines[line];
        lemma_no_lf_concat(lines[line - 1], lines[line]);
        let nls = lines.take(line - 1).push(merged) + lines.skip(line + 1);
        assert forall|k: int| 0 <= k < nls.len() implies !(#[trigger] nls[k]).contains('\n') by {
            if k < line - 1 {
                assert(nls[k] == lines[k]);
            } else if k > line - 1 {
                assert(nls[k] == lines[k + 1]);
            }
        }
        lemma_split_join_lf(nls);
    }
}
/// The frame that every mode's key handler keeps: the global switches.
pub open spec fn globals_kept(a: ClientState, b: ClientState) -> bool {
    &&& b.quit == a.quit
    &&& b.web_search == a.web_search
    &&& b.show_thinking == a.show_thinking
    &&& b.show_stats_panel == a.show_stats_panel
    &&& b.show_sidebar == a.show_sidebar
    &&& b.focus == a.focus
    &&& b.mode == a.mode
}

/// The frame of a helper that leaves the input alone.
pub open spec fn input_kept(a: ClientState, b: ClientState) -> bool {
    &&& b.input == a.input
    &&& b.input_cursor_line == a.input_cursor_line
}

} // verus!
