use vstd::prelude::*;
use std::collections::hash_map::DefaultHasher;
use std::hash::Hasher;
use vstd::std_specs::hash::DefaultHasherAdditionalSpecFns;
use vstd::utf8::encode_utf8;
use crate::text::{to_chars, string_of_range, copy_string, string_from, push_str, trim, trim_spec, is_ws,
    find_from, starts_at, lemma_find_from_bounds, find_chars_from};
use crate::md_doc::{skip_while_ws, lemma_skip_bounds};
use crate::math::utf8_len_seq;
use crate::text::{lowercase_of, to_lowercase};

verus! {

/// Who wrote a message.
#[derive(Clone, Copy, Debug, PartialEq, Eq, Structural)]
pub enum Role {
    System,
    User,
    Assistant,
}

/// A web page that an answer cites.
#[derive(Debug)]
pub struct Source {
    pub title: String,
    pub url: String,
    pub snippet: String,
}

/// A file attached to a message: its metadata and, for images sent to the
/// model, its bytes in base64.
#[derive(Debug)]
pub struct Attachment {
    pub id: String,
    pub original_path: String,
    pub mime_type: String,
    pub sha256: String,
    pub size_bytes: u64,
    pub store_path: String,
    pub data_base64: Option<String>,
}

/// One message of a conversation.
#[derive(Debug)]
pub struct Message {
    pub role: Role,
    pub content: String,
    pub created_ts: i64,
    pub thinking: Option<String>,
    pub attachments: Vec<Attachment>,
    pub sources: Vec<Source>,
}

/// A stored conversation.
#[derive(Debug)]
pub struct Chat {
    pub id: String,
    pub title: String,
    pub created_ts: i64,
    pub updated_ts: i64,
    pub messages: Vec<Message>,
}

/// A conversation as the sidebar lists it.
#[derive(Debug)]
pub struct ChatMeta {
    pub id: String,
    pub title: String,
    pub updated_ts: i64,
    pub search_excerpt: Option<String>,
}

/// The editor mode of the client.
#[derive(Clone, Copy, Debug, PartialEq, Eq, Structural)]
pub enum Mode {
    Normal,
    Insert,
    Command,
    Visual,
}

/// Which pane has the keyboard.
#[derive(Clone, Copy, Debug, PartialEq, Eq, Structural)]
pub enum Focus {
    Sidebar,
    Chat,
}

/// What visual mode has selected: the whole message or one of its code blocks.
#[derive(Clone, Copy, Debug, PartialEq, Eq, Structural)]
pub enum VisualSelection {
    Message,
    CodeBlock(usize),
}

pub open spec fn opt_view(o: Option<String>) -> Option<Seq<char>> {
    match o {
        Some(s) => Some(s@),
        None => None,
    }
}

/// A copy of an optional string.
pub fn copy_opt(o: &Option<String>) -> (r: Option<String>)
    ensures
        opt_view(r) == opt_view(*o),
{
    match o {
        Some(s) => Some(copy_string(s)),
        None => None,
    }
}

impl Source {
    pub open spec fn same(self, other: Source) -> bool {
        self.title@ == other.title@ && self.url@ == other.url@ && self.snippet@ == other.snippet@
    }

    /// A field-for-field copy.
    pub fn copy(&self) -> (r: Source)
        ensures
            r.same(*self),
    {
        Source { title: copy_string(&self.title), url: copy_string(&self.url), snippet: copy_string(&self.snippet) }
    }
}

impl Attachment {
    pub open spec fn same(self, other: Attachment) -> bool {
        &&& self.id@ == other.id@
        &&& self.original_path@ == other.original_path@
        &&& self.mime_type@ == other.mime_type@
        &&& self.sha256@ == other.sha256@
        &&& self.size_bytes == other.size_bytes
        &&& self.store_path@ == other.store_path@
        &&& opt_view(self.data_base64) == opt_view(other.data_base64)
    }

    /// A field-for-field copy.
    pub fn copy(&self) -> (r: Attachment)
        ensures
            r.same(*self),
    {
        Attachment {
            id: copy_string(&self.id),
            original_path: copy_string(&self.original_path),
            mime_type: copy_string(&self.mime_type),
            sha256: copy_string(&self.sha256),
            size_bytes: self.size_bytes,
            store_path: copy_string(&self.store_path),
            data_base64: copy_opt(&self.data_base64),
        }
    }
}

pub open spec fn same_sources(a: Seq<Source>, b: Seq<Source>) -> bool {
    a.len() == b.len() && forall|i: int| 0 <= i < a.len() ==> (#[trigger] a[i]).same(b[i])
}

pub open spec fn same_attachments(a: Seq<Attachment>, b: Seq<Attachment>) -> bool {
    a.len() == b.len() && forall|i: int| 0 <= i < a.len() ==> (#[trigger] a[i]).same(b[i])
}

/// Copies a list of sources.
pub fn copy_sources(v: &Vec<Source>) -> (r: Vec<Source>)
    ensures
        same_sources(r@, v@),
{
    let mut out: Vec<Source> = Vec::new();
    let mut i: usize = 0;
    while i < v.len()
        invariant
            i <= v@.len(),
            out@.len() == i,
            forall|k: int| 0 <= k < i ==> (#[trigger] out@[k]).same(v@[k]),
        decreases v.len() - i,
    {
        out.push(v[i].copy());
        i = i + 1;
    }
    out
}

/// Copies a list of attachments.
pub fn copy_attachments(v: &Vec<Attachment>) -> (r: Vec<Attachment>)
    ensures
        same_attachments(r@, v@),
{
    let mut out: Vec<Attachment> = Vec::new();
    let mut i: usize = 0;
    while i < v.len()
        invariant
            i <= v@.len(),
            out@.len() == i,
            forall|k: int| 0 <= k < i ==> (#[trigger] out@[k]).same(v@[k]),
        decreases v.len() - i,
    {
        out.push(v[i].copy());
        i = i + 1;
    }
    out
}

impl Message {
    pub open spec fn same(self, other: Message) -> bool {
        &&& self.role == other.role
        &&& self.content@ == other.content@
        &&& self.created_ts == other.created_ts
        &&& opt_view(self.thinking) == opt_view(other.thinking)
        &&& same_attachments(self.attachments@, other.attachments@)
        &&& same_sources(self.sources@, other.sources@)
    }

    /// A field-for-field copy.
    pub fn copy(&self) -> (r: Message)
        ensures
            r.same(*self),
    {
        Message {
            role: self.role,
            content: copy_string(&self.content),
            created_ts: self.created_ts,
            thinking: copy_opt(&self.thinking),
            attachments: copy_attachments(&self.attachments),
            sources: copy_sources(&self.sources),
        }
    }
}

pub open spec fn same_messages(a: Seq<Message>, b: Seq<Message>) -> bool {
    a.len() == b.len() && forall|i: int| 0 <= i < a.len() ==> (#[trigger] a[i]).same(b[i])
}

/// Copies a list of messages.
pub fn copy_messages(v: &Vec<Message>) -> (r: Vec<Message>)
    ensures
        same_messages(r@, v@),
{
    let mut out: Vec<Message> = Vec::new();
    let mut i: usize = 0;
    while i < v.len()
        invariant
            i <= v@.len(),
            out@.len() == i,
            forall|k: int| 0 <= k < i ==> (#[trigger] out@[k]).same(v@[k]),
        decreases v.len() - i,
    {
        out.push(v[i].copy());
        i = i + 1;
    }
    out
}

pub open spec fn role_tag_spec(r: Role) -> u8 {
    match r {
        Role::User => 1,
        Role::Assistant => 2,
        Role::System => 3,
    }
}

/// A small number for each role, used when hashing a message.
pub fn role_tag(r: &Role) -> (t: u8)
    ensures
        t == role_tag_spec(*r),
{
    match r {
        Role::User => 1,
        Role::Assistant => 2,
        Role::System => 3,
    }
}

pub open spec fn role_wire_spec(r: Role) -> Seq<char> {
    match r {
        Role::System => "system"@,
        Role::User => "user"@,
        Role::Assistant => "assistant"@,
    }
}

/// The role's name in the model's chat API.
pub fn role_to_wire(role: &Role) -> (r: &'static str)
    ensures
        r@ == role_wire_spec(*role),
{
    match role {
        Role::System => "system",
        Role::User => "user",
        Role::Assistant => "assistant",
    }
}

/// The bytes that hashing a string feeds the hasher: its UTF-8 form and a
/// terminating `0xff`.
pub open spec fn str_hash_writes(s: Seq<char>) -> Seq<Seq<u8>> {
    seq![encode_utf8(s), seq![0xffu8]]
}

/// The hash of a string under the standard library's default hasher.
pub fn str_hash(s: &str) -> (r: u64)
    ensures
        r == DefaultHasher::spec_finish(str_hash_writes(s@)),
{
    let mut h = DefaultHasher::new();
    let b = s.as_bytes();
    h.write(b);
    assert(h@ =~= seq![encode_utf8(s@)]);
    let end: Vec<u8> = vec![0xffu8];
    assert(end@ =~= seq![0xffu8]);
    h.write(end.as_slice());
    assert(h@ =~= str_hash_writes(s@));
    h.finish()
}

/// The writes that hashing a message feeds the hasher: its role tag, then
/// its content.
pub open spec fn message_hash_writes(m: Message) -> Seq<Seq<u8>> {
    seq![seq![role_tag_spec(m.role)], encode_utf8(m.content@), seq![0xffu8]]
}

/// The hash of a message's role and content; the render cache keys on it.
pub fn message_hash(m: &Message) -> (r: u64)
    ensures
        r == DefaultHasher::spec_finish(message_hash_writes(*m)),
{
    let mut h = DefaultHasher::new();
    let tag: Vec<u8> = vec![role_tag(&m.role)];
    assert(tag@ =~= seq![role_tag_spec(m.role)]);
    h.write(tag.as_slice());
    let text = m.content.as_str();
    assert(text@ == m.content@);
    h.write(text.as_bytes());
    let end: Vec<u8> = vec![0xffu8];
    assert(end@ =~= seq![0xffu8]);
    h.write(end.as_slice());
    assert(h@ =~= message_hash_writes(*m));
    h.finish()
}


/// The white-space separated words of `s` from position `i` on, as
/// `split_whitespace` yields them.
pub open spec fn words_from(s: Seq<char>, i: int) -> Seq<Seq<char>>
    decreases s.len() - i,
{
    if i < 0 || i >= s.len() {
        Seq::empty()
    } else {
        let a = skip_while_ws(s, i, true);
        if a >= s.len() || a < i {
            Seq::empty()
        } else {
            let b = skip_while_ws(s, a, false);
            if b <= a || b > s.len() {
                Seq::empty()
            } else {
                seq![s.subrange(a, b)] + words_from(s, b)
            }
        }
    }
}

/// `s.split_whitespace()`.
pub open spec fn words(s: Seq<char>) -> Seq<Seq<char>> {
    words_from(s, 0)
}

/// The words joined by single spaces.
pub open spec fn join_spaces(ws: Seq<Seq<char>>) -> Seq<char>
    decreases ws.len(),
{
    if ws.len() == 0 {
        Seq::empty()
    } else if ws.len() == 1 {
        ws[0]
    } else {
        join_spaces(ws.drop_last()) + seq![' '] + ws.last()
    }
}

proof fn lemma_skip_ws_true_stops(s: Seq<char>, from: int)
    requires
        0 <= from <= s.len(),
    ensures
        skip_while_ws(s, from, true) < s.len() ==> !is_ws(s[skip_while_ws(s, from, true)]),
        skip_while_ws(s, from, false) < s.len() ==> is_ws(s[skip_while_ws(s, from, false)]),
        from < s.len() && !is_ws(s[from]) ==> skip_while_ws(s, from, false) > from,
    decreases s.len() - from,
{
    if from < s.len() {
        lemma_skip_ws_true_stops(s, from + 1);
    }
}

/// The white-space separated words of `v`, with the text they form when
/// joined by single spaces.
pub fn words_joined(v: &Vec<char>, from: usize, to: usize) -> (r: (usize, String))
    requires
        from <= to <= v@.len(),
    ensures
        r.0 == words(v@.subrange(from as int, to as int)).len(),
        r.1@ == join_spaces(words(v@.subrange(from as int, to as int))),
{
    let ghost s = v@.subrange(from as int, to as int);
    let mut count: usize = 0;
    let mut out = String::new();
    let ghost mut done: Seq<Seq<char>> = Seq::empty();
    let mut i: usize = from;
    while i < to
        invariant
            from <= i <= to <= v@.len(),
            s == v@.subrange(from as int, to as int),
            done + words_from(s, i - from) == words(s),
            out@ == join_spaces(done),
            count == done.len(),
            count <= i - from,
        ensures
            i == to,
            done + words_from(s, i - from) == words(s),
            out@ == join_spaces(done),
            count == done.len(),
        decreases to - i,
    {
        let ghost k = i - from;
        proof {
            lemma_skip_bounds(s, k as int, true);
        }
        let mut a = i;
        while a < to && crate::text::is_whitespace(v[a])
            invariant
                from <= i <= a <= to <= v@.len(),
                s == v@.subrange(from as int, to as int),
                skip_while_ws(s, k as int, true) == skip_while_ws(s, a - from, true),
            decreases to - a,
        {
            assert(s[a - from] == v@[a as int]);
            a = a + 1;
        }
        if a >= to {
            assert(words_from(s, k as int) =~= Seq::<Seq<char>>::empty());
            assert(done + words_from(s, k as int) =~= done);
            i = to;
            break;
        }
        let mut b = a;
        while b < to && !crate::text::is_whitespace(v[b])
            invariant
                from <= a <= b <= to <= v@.len(),
                s == v@.subrange(from as int, to as int),
                skip_while_ws(s, a - from, false) == skip_while_ws(s, b - from, false),
            decreases to - b,
        {
            assert(s[b - from] == v@[b as int]);
            b = b + 1;
        }
        proof {
            lemma_skip_ws_true_stops(s, a - from);
            assert(b > a);
            assert(words_from(s, k as int) == seq![s.subrange(a - from, b - from)] + words_from(s, b - from));
            assert(s.subrange(a - from, b - from) =~= v@.subrange(a as int, b as int));
        }
        let ghost w = v@.subrange(a as int, b as int);
        if count > 0 {
            out.push(' ');
        }
        let piece = string_of_range(v, a, b);
        push_str(&mut out, piece.as_str());
        proof {
            let nd = done.push(w);
            assert(nd.drop_last() =~= done);
            assert(nd + words_from(s, b - from) =~= done + words_from(s, k as int));
            done = nd;
        }
        count = count + 1;
        i = b;
    }
    proof {
        if i == to {
            assert(words_from(s, to - from) =~= Seq::<Seq<char>>::empty());
            assert(done + words_from(s, to - from) =~= done);
        }
    }
    (count, out)
}

/// The number of white-space separated words of `text`, a rough token count.
pub fn estimate_token_count(text: &str) -> (r: usize)
    ensures
        r == words(text@).len(),
{
    let v = to_chars(text);
    assert(v@.subrange(0, v@.len() as int) =~= v@);
    words_joined(&v, 0, v.len()).0
}

/// `text` with each tab replaced by four spaces.
pub open spec fn expand_tabs(s: Seq<char>) -> Seq<char>
    decreases s.len(),
{
    if s.len() == 0 {
        Seq::empty()
    } else {
        expand_tabs(s.drop_last()) + (if s.last() == '\t' { seq![' ', ' ', ' ', ' '] } else { seq![s.last()] })
    }
}

/// Replaces each tab by four spaces.
pub fn normalize_tabs(text: &str) -> (r: String)
    ensures
        r@ == expand_tabs(text@),
{
    let v = to_chars(text);
    let mut out = String::new();
    let mut i: usize = 0;
    while i < v.len()
        invariant
            i <= v@.len(),
            out@ == expand_tabs(v@.subrange(0, i as int)),
        decreases v.len() - i,
    {
        let c = v[i];
        let ghost o0 = out@;
        if c == '\t' {
            out.push(' ');
            out.push(' ');
            out.push(' ');
            out.push(' ');
        } else {
            out.push(c);
        }
        assert(v@.subrange(0, i + 1).drop_last() =~= v@.subrange(0, i as int));
        assert(out@ =~= o0 + (if c == '\t' { seq![' ', ' ', ' ', ' '] } else { seq![c] }));
        i = i + 1;
    }
    assert(v@.subrange(0, v@.len() as int) =~= v@);
    out
}

/// The first `max` characters of `s`.
pub fn truncate_for_context(s: &str, max: usize) -> (r: String)
    ensures
        r@ == s@.take(if max < s@.len() { max as int } else { s@.len() as int }),
{
    let v = to_chars(s);
    let n = if max < v.len() { max } else { v.len() };
    let r = string_of_range(&v, 0, n);
    assert(v@.subrange(0, n as int) =~= s@.take(n as int));
    r
}

/// Index of the last user message, before position `n`, whose trimmed
/// content is not empty.
pub open spec fn last_user_query_index(ms: Seq<Message>, n: int) -> Option<int>
    decreases n,
{
    if n <= 0 || n > ms.len() {
        None
    } else if ms[n - 1].role == Role::User && trim_spec(ms[n - 1].content@).len() > 0 {
        Some(n - 1)
    } else {
        last_user_query_index(ms, n - 1)
    }
}

pub proof fn lemma_last_user_query_index(ms: Seq<Message>, n: int)
    requires
        0 <= n <= ms.len(),
    ensures
        last_user_query_index(ms, n) matches Some(i) ==> 0 <= i < n,
    decreases n,
{
    if n > 0 {
        lemma_last_user_query_index(ms, n - 1);
    }
}

/// The trimmed content of the latest user message that is not blank.
pub fn latest_user_query(messages: &Vec<Message>) -> (r: Option<String>)
    ensures
        r is None <==> last_user_query_index(messages@, messages@.len() as int) is None,
        r matches Some(q) ==> q@ == trim_spec(messages@[last_user_query_index(messages@, messages@.len() as int)->0].content@),
{
    let mut n = messages.len();
    while n > 0
        invariant
            n <= messages@.len(),
            last_user_query_index(messages@, messages@.len() as int) == last_user_query_index(messages@, n as int),
        decreases n,
    {
        let m = &messages[n - 1];
        if m.role == Role::User {
            let t = trim(m.content.as_str());
            if !t.as_str().is_empty() {
                return Some(t);
            }
        }
        n = n - 1;
    }
    None
}

/// Index of the first user message at or after `i`.
pub open spec fn first_user_index(ms: Seq<Message>, i: int) -> Option<int>
    decreases ms.len() - i,
{
    if i < 0 || i >= ms.len() {
        None
    } else if ms[i].role == Role::User {
        Some(i)
    } else {
        first_user_index(ms, i + 1)
    }
}

pub proof fn lemma_first_user_index(ms: Seq<Message>, i: int)
    requires
        0 <= i,
    ensures
        first_user_index(ms, i) matches Some(k) ==> i <= k < ms.len(),
    decreases ms.len() - i,
{
    if i < ms.len() && ms[i].role != Role::User {
        lemma_first_user_index(ms, i + 1);
    }
}

/// The text a chat's title comes from: the first user message, or else the
/// first message.
pub open spec fn title_source(ms: Seq<Message>) -> Seq<char> {
    match first_user_index(ms, 0) {
        Some(i) => ms[i].content@,
        None => if ms.len() > 0 { ms[0].content@ } else { Seq::empty() },
    }
}

/// Everything before the first line feed.
pub open spec fn first_line(s: Seq<char>) -> Seq<char> {
    match find_from(s, seq!['\n'], 0) {
        Some(i) => s.take(i),
        None => s,
    }
}

/// The title of a chat: the first line of its first user message, trimmed
/// and cut to 60 characters, or "Untitled chat".
pub open spec fn derive_title_spec(ms: Seq<Message>) -> Seq<char> {
    let one = trim_spec(first_line(trim_spec(title_source(ms))));
    let t = if one.len() > 60 { one.take(60) } else { one };
    if t.len() == 0 { "Untitled chat"@ } else { t }
}

/// The title of a chat with these messages.
pub fn derive_title(messages: &Vec<Message>) -> (r: String)
    ensures
        r@ == derive_title_spec(messages@),
{
    let mut i: usize = 0;
    while i < messages.len() && messages[i].role != Role::User
        invariant
            i <= messages@.len(),
            first_user_index(messages@, 0) == first_user_index(messages@, i as int),
        decreases messages.len() - i,
    {
        i = i + 1;
    }
    proof {
        lemma_first_user_index(messages@, i as int);
    }
    let raw = if i < messages.len() {
        trim(messages[i].content.as_str())
    } else if messages.len() > 0 {
        trim(messages[0].content.as_str())
    } else {
        String::new()
    };
    let v = to_chars(raw.as_str());
    let nl: Vec<char> = vec!['\n'];
    assert(nl@ =~= seq!['\n']);
    let cut = match find_chars_from(&v, &nl, 0) {
        Some(k) => {
            proof { lemma_find_from_bounds(v@, nl@, 0); }
            k
        },
        None => v.len(),
    };
    let line = string_of_range(&v, 0, cut);
    assert(line@ =~= first_line(v@));
    let one = to_chars(trim(line.as_str()).as_str());
    let n = if one.len() > 60 { 60 } else { one.len() };
    let t = string_of_range(&one, 0, n);
    assert(t@ =~= (if one@.len() > 60 { one@.take(60) } else { one@ }));
    if n == 0 {
        proof { reveal_strlit("Untitled chat"); }
        string_from("Untitled chat")
    } else {
        t
    }
}

/// Byte offset of character number `target` of `text`, or the byte length
/// when `text` has no such character (a byte count past `usize::MAX`, which
/// no string in memory reaches, would be cut to `usize::MAX`).
pub fn byte_index_for_char(text: &str, target: usize) -> (r: usize)
    ensures
        r == min_int(
            (if target < text@.len() { utf8_len_seq(text@.take(target as int)) } else { utf8_len_seq(text@) }) as int,
            usize::MAX as int,
        ),
{
    let v = to_chars(text);
    let n = if target < v.len() { target } else { v.len() };
    let mut total: usize = 0;
    let mut i: usize = 0;
    while i < n
        invariant
            i <= n <= v@.len(),
            total == min_int(utf8_len_seq(v@.take(i as int)) as int, usize::MAX as int),
        decreases n - i,
    {
        assert(v@.take(i + 1).drop_last() =~= v@.take(i as int));
        total = total.saturating_add(crate::math::char_utf8_len(v[i]));
        i = i + 1;
    }
    assert(v@.take(v@.len() as int) =~= v@);
    total
}

pub open spec fn sat_sub(a: int, b: int) -> int {
    if a >= b { a - b } else { 0 }
}

pub open spec fn min_int(a: int, b: int) -> int {
    if a <= b { a } else { b }
}

/// The window of characters an excerpt shows around a match at character
/// `mc` of length `n`: forty characters either side, within the text.
pub open spec fn excerpt_window(len: int, mc: int, n: int) -> (int, int) {
    let start = sat_sub(mc, 40);
    let end = min_int(mc + n + 40, usize::MAX as int);
    (min_int(start, len), min_int(end, len))
}

/// The search excerpt of `text` for a lower-case `needle`: the words around
/// the first match in the lower-cased text, joined by single spaces, with
/// an ellipsis on each side that was cut.
pub open spec fn search_excerpt_spec(text: Seq<char>, needle: Seq<char>) -> Option<Seq<char>> {
    match find_from(lowercase_of(text), needle, 0) {
        None => None,
        Some(mc) => {
            let (a, b) = excerpt_window(text.len() as int, mc, needle.len() as int);
            let body = join_spaces(words(text.subrange(a, b)));
            let pre = if a > 0 { seq!['…'] + body } else { body };
            Some(if b < text.len() { pre.push('…') } else { pre })
        },
    }
}

/// An excerpt of `text` around the first place where `needle` occurs in its
/// lower-case form, or `None` when it does not occur.
pub fn search_excerpt_for_text(text: &str, needle: &str) -> (r: Option<String>)
    ensures
        opt_view(r) == search_excerpt_spec(text@, needle@),
{
    let lower = to_lowercase(text);
    let lv = to_chars(lower.as_str());
    let nv = to_chars(needle);
    let found = find_chars_from(&lv, &nv, 0);
    match found {
        None => None,
        Some(mc) => {
            proof { lemma_find_from_bounds(lv@, nv@, 0); }
            let tv = to_chars(text);
            let start_char = mc.saturating_sub(40);
            let end_char = mc.saturating_add(nv.len()).saturating_add(40);
            let a = if start_char < tv.len() { start_char } else { tv.len() };
            let b = if end_char < tv.len() { end_char } else { tv.len() };
            assert((a as int, b as int) == excerpt_window(text@.len() as int, mc as int, needle@.len() as int));
            let (_, body) = words_joined(&tv, a, b);
            let mut out = String::new();
            if a > 0 {
                out.push('…');
            }
            push_str(&mut out, body.as_str());
            if b < tv.len() {
                out.push('…');
            }
            Some(out)
        },
    }
}

/// The Markdown a message is previewed as: its content, then a list of its
/// sources.
pub open spec fn source_lines(ss: Seq<Source>) -> Seq<char>
    decreases ss.len(),
{
    if ss.len() == 0 {
        Seq::empty()
    } else {
        let s = ss.last();
        source_lines(ss.drop_last()) + (if s.title@.len() == 0 {
            "- "@ + s.url@ + "\n"@
        } else {
            "- ["@ + s.title@ + "]("@ + s.url@ + ")\n"@
        })
    }
}

pub open spec fn preview_markdown_spec(m: Message) -> Seq<char> {
    if m.sources@.len() == 0 {
        m.content@
    } else {
        m.content@ + "\n\n## Sources\n"@ + source_lines(m.sources@)
    }
}

/// The Markdown a message is previewed as.
pub fn message_to_preview_markdown(message: &Message) -> (r: String)
    ensures
        r@ == preview_markdown_spec(*message),
{
    let mut out = copy_string(&message.content);
    if message.sources.len() > 0 {
        proof { reveal_strlit("\n\n## Sources\n"); }
        push_str(&mut out, "\n\n## Sources\n");
        let ghost head = out@;
        let mut i: usize = 0;
        while i < message.sources.len()
            invariant
                i <= message.sources@.len(),
                out@ == head + source_lines(message.sources@.take(i as int)),
            decreases message.sources.len() - i,
        {
            let s = &message.sources[i];
            proof {
                reveal_strlit("- ");
                reveal_strlit("\n");
                reveal_strlit("- [");
                reveal_strlit("](");
                reveal_strlit(")\n");
                assert(message.sources@.take(i + 1).drop_last() =~= message.sources@.take(i as int));
            }
            if s.title.as_str().is_empty() {
                push_str(&mut out, "- ");
                push_str(&mut out, s.url.as_str());
                push_str(&mut out, "\n");
            } else {
                push_str(&mut out, "- [");
                push_str(&mut out, s.title.as_str());
                push_str(&mut out, "](");
                push_str(&mut out, s.url.as_str());
                push_str(&mut out, ")\n");
            }
            assert(out@ =~= head + source_lines(message.sources@.take(i + 1)));
            i = i + 1;
        }
        assert(message.sources@.take(message.sources@.len() as int) =~= message.sources@);
    }
    out
}

/// A message as the model's chat API takes it.
pub struct OllamaWireMessage {
    pub role: String,
    pub content: String,
    pub images: Vec<String>,
}

/// The base64 data of the attachments that carry any, in order.
pub open spec fn attachment_images(a: Seq<Attachment>) -> Seq<Seq<char>>
    decreases a.len(),
{
    if a.len() == 0 {
        Seq::empty()
    } else {
        let rest = attachment_images(a.drop_last());
        match a.last().data_base64 {
            Some(d) => rest.push(d@),
            None => rest,
        }
    }
}

pub open spec fn strings_view(v: Seq<String>) -> Seq<Seq<char>> {
    v.map_values(|s: String| s@)
}

/// The base64 images of a message's attachments.
pub fn attachment_image_data(a: &Vec<Attachment>) -> (r: Vec<String>)
    ensures
        strings_view(r@) == attachment_images(a@),
{
    let mut out: Vec<String> = Vec::new();
    let mut i: usize = 0;
    while i < a.len()
        invariant
            i <= a@.len(),
            strings_view(out@) == attachment_images(a@.take(i as int)),
        decreases a.len() - i,
    {
        assert(a@.take(i + 1).drop_last() =~= a@.take(i as int));
        match &a[i].data_base64 {
            Some(d) => {
                let ghost o0 = strings_view(out@);
                out.push(copy_string(d));
                assert(strings_view(out@) =~= o0.push(d@));
            },
            None => {},
        }
        i = i + 1;
    }
    assert(a@.take(a@.len() as int) =~= a@);
    out
}

/// A message in the form the model's chat API takes.
pub fn message_to_ollama_wire(message: &Message) -> (r: OllamaWireMessage)
    ensures
        r.role@ == role_wire_spec(message.role),
        r.content@ == message.content@,
        strings_view(r.images@) == attachment_images(message.attachments@),
{
    OllamaWireMessage {
        role: string_from(role_to_wire(&message.role)),
        content: copy_string(&message.content),
        images: attachment_image_data(&message.attachments),
    }
}

/// The UTF-8 length of `s` (cut to `usize::MAX`, which no string in memory
/// reaches).
pub fn utf8_len_sat(s: &str) -> (r: usize)
    ensures
        r == min_int(utf8_len_seq(s@) as int, usize::MAX as int),
{
    let v = to_chars(s);
    let mut total: usize = 0;
    let mut i: usize = 0;
    while i < v.len()
        invariant
            i <= v@.len(),
            total == min_int(utf8_len_seq(v@.take(i as int)) as int, usize::MAX as int),
        decreases v.len() - i,
    {
        assert(v@.take(i + 1).drop_last() =~= v@.take(i as int));
        total = total.saturating_add(crate::math::char_utf8_len(v[i]));
        i = i + 1;
    }
    assert(v@.take(v@.len() as int) =~= v@);
    total
}

/// What `Path::extension` gives for a path: the part of the file name
/// after its last dot.
pub uninterp spec fn path_extension(path: Seq<char>) -> Option<Seq<char>>;

/// `std::path::Path::extension` on `path`, as a string. Which part of the
/// path counts as the extension is named `path_extension`.
#[verifier::external_body]
fn extension_of(path: &str) -> (r: Option<String>)
    ensures
        opt_view(r) == path_extension(path@),
{
    std::path::Path::new(path).extension().and_then(|e| e.to_str()).map(|e| e.to_string())
}

/// The MIME type for a lower-case file extension.
pub open spec fn mime_for_ext(e: Seq<char>) -> Seq<char> {
    if e == "jpg"@ || e == "jpeg"@ {
        "image/jpeg"@
    } else if e == "png"@ {
        "image/png"@
    } else if e == "gif"@ {
        "image/gif"@
    } else if e == "webp"@ {
        "image/webp"@
    } else if e == "bmp"@ {
        "image/bmp"@
    } else if e == "txt"@ || e == "md"@ || e == "rs"@ || e == "toml"@ || e == "json"@ || e == "yaml"@ || e == "yml"@ {
        "text/plain"@
    } else if e == "pdf"@ {
        "application/pdf"@
    } else {
        "application/octet-stream"@
    }
}

/// The MIME type a path's extension suggests, compared without regard to
/// ASCII case.
pub open spec fn mime_for_path_spec(path: Seq<char>) -> Seq<char> {
    let e = match path_extension(path) {
        Some(e) => e,
        None => Seq::empty(),
    };
    mime_for_ext(e.map_values(|c: char| crate::text::ascii_lower(c)))
}

/// A path whose extension is `txt`, `md`, `rs`, `toml`, `json`, `yaml` or
/// `yml`, in any ASCII case, is plain text.
pub proof fn lemma_text_extensions_are_plain_text(path: Seq<char>, e: Seq<char>)
    requires
        path_extension(path) == Some(e),
        ({
            let l = e.map_values(|c: char| crate::text::ascii_lower(c));
            l == "txt"@ || l == "md"@ || l == "rs"@ || l == "toml"@ || l == "json"@ || l == "yaml"@ || l == "yml"@
        }),
    ensures
        mime_for_path_spec(path) == "text/plain"@,
{
    reveal_strlit("txt");
    reveal_strlit("md");
    reveal_strlit("rs");
    reveal_strlit("toml");
    reveal_strlit("json");
    reveal_strlit("yaml");
    reveal_strlit("yml");
    reveal_strlit("jpg");
    reveal_strlit("jpeg");
    reveal_strlit("png");
    reveal_strlit("gif");
    reveal_strlit("webp");
    reveal_strlit("bmp");
    let l = e.map_values(|c: char| crate::text::ascii_lower(c));
    assert(l != "jpg"@ && l != "jpeg"@ && l != "png"@ && l != "gif"@ && l != "webp"@ && l != "bmp"@) by {
        if l.len() == 3 {
            assert(l[0] == 't' || l[0] == 'r' || l[0] == 'm' || l[0] == 'y' || l[0] == 'j');
            if l[0] == 'j' || l[0] == 'y' {
                assert(l[1] == 's' || l[1] == 'm');
            }
        }
        if l.len() == 4 {
            assert(l[0] == 't' || l[0] == 'j' || l[0] == 'y');
            if l[0] == 'j' {
                assert(l[1] == 's');
            }
        }
    }
}

/// A path with no extension gets the generic binary MIME type.
pub proof fn lemma_no_extension_is_binary(path: Seq<char>)
    requires
        path_extension(path) is None,
    ensures
        mime_for_path_spec(path) == "application/octet-stream"@,
{
    let l = Seq::<char>::empty().map_values(|c: char| crate::text::ascii_lower(c));
    assert(l.len() == 0);
    reveal_strlit("jpg");
    reveal_strlit("jpeg");
    reveal_strlit("png");
    reveal_strlit("gif");
    reveal_strlit("webp");
    reveal_strlit("bmp");
    reveal_strlit("txt");
    reveal_strlit("md");
    reveal_strlit("rs");
    reveal_strlit("toml");
    reveal_strlit("json");
    reveal_strlit("yaml");
    reveal_strlit("yml");
    reveal_strlit("pdf");
}

/// A file whose first bytes are not those of a PNG, JPEG, GIF or WebP
/// image gets the MIME type its path's extension suggests.
pub proof fn lemma_sniff_falls_back_to_the_extension(path: Seq<char>, data: Seq<u8>)
    requires
        data.len() == 0 || (data[0] != 0x89u8 && data[0] != 0xffu8 && data[0] != 0x47u8 && data[0] != 0x52u8),
    ensures
        sniff_spec(path, data) == mime_for_path_spec(path),
{
    if data.len() > 0 {
        if data.len() >= 8 { assert(data.take(8)[0] == data[0]); }
        if data.len() >= 3 { assert(data.take(3)[0] == data[0]); }
        if data.len() >= 6 { assert(data.take(6)[0] == data[0]); }
        if data.len() >= 4 { assert(data.subrange(0, 4)[0] == data[0]); }
    }
}

/// The MIME type of a file, judged by its extension.
pub fn mime_type_for_path(path: &str) -> (r: String)
    ensures
        r@ == mime_for_path_spec(path@),
{
    let ext = match extension_of(path) {
        Some(e) => e,
        None => String::new(),
    };
    let l = crate::text::to_ascii_lowercase(ext.as_str());
    let e = l.as_str();
    if str_eq_any2(e, "jpg", "jpeg") {
        string_from("image/jpeg")
    } else if crate::text::str_eq(e, "png") {
        string_from("image/png")
    } else if crate::text::str_eq(e, "gif") {
        string_from("image/gif")
    } else if crate::text::str_eq(e, "webp") {
        string_from("image/webp")
    } else if crate::text::str_eq(e, "bmp") {
        string_from("image/bmp")
    } else if str_eq_any2(e, "txt", "md") || str_eq_any2(e, "rs", "toml") || str_eq_any2(e, "json", "yaml")
        || crate::text::str_eq(e, "yml") {
        string_from("text/plain")
    } else if crate::text::str_eq(e, "pdf") {
        string_from("application/pdf")
    } else {
        string_from("application/octet-stream")
    }
}

fn str_eq_any2(s: &str, a: &str, b: &str) -> (r: bool)
    ensures
        r == (s@ == a@ || s@ == b@),
{
    crate::text::str_eq(s, a) || crate::text::str_eq(s, b)
}

/// `data` begins with `p`.
pub open spec fn bytes_start_with(data: Seq<u8>, p: Seq<u8>) -> bool {
    data.len() >= p.len() && data.take(p.len() as int) == p
}

pub open spec fn png_magic() -> Seq<u8> { seq![0x89u8, 0x50, 0x4e, 0x47, 0x0d, 0x0a, 0x1a, 0x0a] }
pub open spec fn jpeg_magic() -> Seq<u8> { seq![0xffu8, 0xd8, 0xff] }
pub open spec fn gif87_magic() -> Seq<u8> { seq![0x47u8, 0x49, 0x46, 0x38, 0x37, 0x61] }
pub open spec fn gif89_magic() -> Seq<u8> { seq![0x47u8, 0x49, 0x46, 0x38, 0x39, 0x61] }
pub open spec fn riff_magic() -> Seq<u8> { seq![0x52u8, 0x49, 0x46, 0x46] }
pub open spec fn webp_magic() -> Seq<u8> { seq![0x57u8, 0x45, 0x42, 0x50] }

/// The MIME type of a file: by its first bytes for PNG, JPEG, GIF and WebP
/// images, else by its extension.
pub open spec fn sniff_spec(path: Seq<char>, data: Seq<u8>) -> Seq<char> {
    if bytes_start_with(data, png_magic()) {
        "image/png"@
    } else if bytes_start_with(data, jpeg_magic()) {
        "image/jpeg"@
    } else if bytes_start_with(data, gif87_magic()) || bytes_start_with(data, gif89_magic()) {
        "image/gif"@
    } else if data.len() >= 12 && data.subrange(0, 4) == riff_magic() && data.subrange(8, 12) == webp_magic() {
        "image/webp"@
    } else {
        mime_for_path_spec(path)
    }
}

/// `data[from..]` begins with `p`.
fn starts_with_at(data: &[u8], from: usize, p: &Vec<u8>) -> (r: bool)
    requires
        from <= data@.len(),
    ensures
        r == (data@.len() - from >= p@.len() && data@.subrange(from as int, from + p@.len()) == p@),
{
    let n = data.len();
    if n - from < p.len() {
        return false;
    }
    let mut k: usize = 0;
    while k < p.len()
        invariant
            n == data@.len(),
            from + p@.len() <= data@.len(),
            k <= p@.len(),
            forall|j: int| 0 <= j < k ==> data@[from + j] == p@[j],
        decreases p.len() - k,
    {
        if data[from + k] != p[k] {
            assert(data@.subrange(from as int, from + p@.len())[k as int] != p@[k as int]);
            return false;
        }
        k = k + 1;
    }
    assert(data@.subrange(from as int, from + p@.len()) =~= p@);
    true
}

/// The MIME type of a file from its content and path.
pub fn sniff_mime_type(path: &str, data: &[u8]) -> (r: String)
    ensures
        r@ == sniff_spec(path@, data@),
{
    let png: Vec<u8> = vec![0x89u8, 0x50, 0x4e, 0x47, 0x0d, 0x0a, 0x1a, 0x0a];
    let jpeg: Vec<u8> = vec![0xffu8, 0xd8, 0xff];
    let gif87: Vec<u8> = vec![0x47u8, 0x49, 0x46, 0x38, 0x37, 0x61];
    let gif89: Vec<u8> = vec![0x47u8, 0x49, 0x46, 0x38, 0x39, 0x61];
    let riff: Vec<u8> = vec![0x52u8, 0x49, 0x46, 0x46];
    let webp: Vec<u8> = vec![0x57u8, 0x45, 0x42, 0x50];
    proof {
        assert(png@ =~= png_magic());
        assert(jpeg@ =~= jpeg_magic());
        assert(gif87@ =~= gif87_magic());
        assert(gif89@ =~= gif89_magic());
        assert(riff@ =~= riff_magic());
        assert(webp@ =~= webp_magic());
        assert(data@.subrange(0, 8) =~= data@.take(8));
        assert(data@.subrange(0, 3) =~= data@.take(3));
        assert(data@.subrange(0, 6) =~= data@.take(6));
    }
    if starts_with_at(data, 0, &png) {
        string_from("image/png")
    } else if starts_with_at(data, 0, &jpeg) {
        string_from("image/jpeg")
    } else if starts_with_at(data, 0, &gif87) || starts_with_at(data, 0, &gif89) {
        string_from("image/gif")
    } else if data.len() >= 12 && starts_with_at(data, 0, &riff) && starts_with_at(data, 8, &webp) {
        string_from("image/webp")
    } else {
        mime_type_for_path(path)
    }
}
/// The render cache's hash of a message reads its role and content only:
/// messages that agree on those hash alike, whatever their time, thinking,
/// attachments or sources.
pub proof fn lemma_message_hash_reads_role_and_content(a: Message, b: Message)
    requires
        a.role == b.role,
        a.content@ == b.content@,
    ensures
        message_hash_writes(a) == message_hash_writes(b),
{
}

} // verus!
