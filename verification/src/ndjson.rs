use vstd::prelude::*;
use crate::protocol::ServerEvent;
use crate::text::string_from;

verus! {

/// The byte that ends a line of a streamed response.
pub const NEWLINE: u8 = 10u8;

/// `pos` is where the first line break of `s` stands.
pub open spec fn first_newline_at(s: Seq<u8>, pos: int) -> bool {
    &&& 0 <= pos < s.len()
    &&& s[pos] == NEWLINE
    &&& forall|i: int| 0 <= i < pos ==> s[i] != NEWLINE
}

/// Whether `s` holds a line break.
pub open spec fn has_newline(s: Seq<u8>) -> bool {
    exists|i: int| 0 <= i < s.len() && s[i] == NEWLINE
}

/// Appends the bytes of a chunk that came to what is waiting.
pub fn feed_bytes(buf: &mut Vec<u8>, chunk: &[u8])
    ensures
        final(buf)@ == old(buf)@ + chunk@,
{
    let mut i: usize = 0;
    while i < chunk.len()
        invariant
            i <= chunk@.len(),
            buf@ == old(buf)@ + chunk@.take(i as int),
        decreases chunk.len() - i,
    {
        buf.push(chunk[i]);
        i = i + 1;
        proof {
            assert(chunk@.take(i as int) =~= chunk@.take(i - 1) + seq![chunk@[i - 1]]);
        }
    }
    proof {
        assert(chunk@.take(chunk@.len() as int) =~= chunk@);
    }
}

/// Takes the first complete line from what is waiting: the bytes before the
/// first line break, which leaves together with the break. Where no line is
/// complete, nothing changes.
pub fn take_line(buf: &mut Vec<u8>) -> (r: Option<Vec<u8>>)
    ensures
        r is None ==> final(buf)@ == old(buf)@ && !has_newline(old(buf)@),
        r matches Some(line) ==> exists|pos: int|
            #[trigger] first_newline_at(old(buf)@, pos)
            && line@ == old(buf)@.take(pos)
            && final(buf)@ == old(buf)@.skip(pos + 1),
{
    let mut pos: usize = 0;
    while pos < buf.len()
        invariant
            pos <= buf@.len(),
            buf@ == old(buf)@,
            forall|i: int| 0 <= i < pos ==> buf@[i] != NEWLINE,
        decreases buf.len() - pos,
    {
        if buf[pos] == NEWLINE {
            let mut rest = buf.split_off(pos + 1);
            std::mem::swap(buf, &mut rest);
            rest.pop();
            proof {
                assert(first_newline_at(old(buf)@, pos as int));
                assert(rest@ =~= old(buf)@.take(pos as int));
                assert(buf@ =~= old(buf)@.skip(pos + 1));
            }
            return Some(rest);
        }
        pos = pos + 1;
    }
    None
}

/// Splitting off a line loses no byte: the line, its break and what stays
/// make up what was waiting.
pub proof fn lemma_take_line_keeps_bytes(old_buf: Seq<u8>, line: Seq<u8>, rest: Seq<u8>, pos: int)
    requires
        first_newline_at(old_buf, pos),
        line == old_buf.take(pos),
        rest == old_buf.skip(pos + 1),
    ensures
        line + seq![NEWLINE] + rest == old_buf,
        !has_newline(line),
{
    assert(line + seq![NEWLINE] + rest =~= old_buf);
}

/// The message part of a streamed chunk of a chat response.
#[derive(Debug)]
pub struct ChunkMessage {
    pub role: String,
    pub thinking: String,
    pub content: String,
}

/// One line of a streamed chat response, as the model server sends it.
#[derive(Debug)]
pub struct StreamChunk {
    pub done: bool,
    pub error: Option<String>,
    pub message: Option<ChunkMessage>,
}

/// Whose answer a stream carries: the model's plain reply (every content
/// delta is passed on, empty ones too), or the final answer after tool use
/// (empty deltas are left out).
#[derive(Debug, Clone, Copy, PartialEq, Eq, Structural)]
pub enum StreamMode {
    Plain,
    Final,
}

/// Whether a stream goes on after a line.
#[derive(Debug, Clone, Copy, PartialEq, Eq, Structural)]
pub enum StreamStep {
    Continue,
    Stop,
}

/// The events that the message part of a chunk gives.
pub open spec fn message_events_spec(mode: StreamMode, m: (Seq<char>, Seq<char>))
    -> Seq<(nat, Seq<char>)>
{
    let (thinking, content) = m;
    let t: Seq<(nat, Seq<char>)> = if thinking.len() > 0 { seq![(1nat, thinking)] } else { Seq::empty() };
    let c: Seq<(nat, Seq<char>)> = if mode == StreamMode::Plain || content.len() > 0 {
        seq![(0nat, content)]
    } else {
        Seq::empty()
    };
    t + c
}

/// An event in the plain form `(kind, text)`: kind 0 is a content delta,
/// 1 a thinking delta, 2 the end of the stream and 3 an error.
pub open spec fn event_form(e: ServerEvent) -> (nat, Seq<char>) {
    match e {
        ServerEvent::Chunk { delta, .. } => (0nat, delta@),
        ServerEvent::Thinking { delta, .. } => (1nat, delta@),
        ServerEvent::Done { .. } => (2nat, Seq::empty()),
        ServerEvent::Error { message, .. } => (3nat, message@),
        _ => (4nat, Seq::empty()),
    }
}

/// What a line of the stream gives: the events in order, and whether the
/// stream goes on. A line that is not a chunk gives nothing.
pub open spec fn line_spec(mode: StreamMode, chunk: Option<(bool, Option<Seq<char>>, Option<(Seq<char>, Seq<char>)>)>)
    -> (Seq<(nat, Seq<char>)>, StreamStep)
{
    match chunk {
        None => (Seq::empty(), StreamStep::Continue),
        Some((done, error, message)) => match error {
            Some(err) => (seq![(3nat, err)], StreamStep::Stop),
            None => {
                let evs = match message {
                    Some(m) => message_events_spec(mode, m),
                    None => Seq::empty(),
                };
                if done {
                    (evs + seq![(2nat, Seq::<char>::empty())], StreamStep::Stop)
                } else {
                    (evs, StreamStep::Continue)
                }
            },
        },
    }
}

/// The plain form of a chunk.
pub open spec fn chunk_view(c: StreamChunk) -> (bool, Option<Seq<char>>, Option<(Seq<char>, Seq<char>)>) {
    (
        c.done,
        match c.error { Some(e) => Some(e@), None => None },
        match c.message { Some(m) => Some((m.thinking@, m.content@)), None => None },
    )
}

/// Every event answers request `rid` of chat `cid`, and a `Done` carries no
/// status.
pub open spec fn events_about(evs: Seq<ServerEvent>, rid: Seq<char>, cid: Seq<char>) -> bool {
    forall|i: int| 0 <= i < evs.len() ==> {
        &&& (#[trigger] evs[i]).request() == rid
        &&& evs[i].chat() == cid
        &&& (evs[i] matches ServerEvent::Done { status, .. } ==> status is None)
    }
}

/// The events a line of a streamed chat response gives, and whether the
/// stream goes on: an error ends it with an `Error` event; thinking and
/// content deltas are passed on; `done` ends it with `Done`.
pub fn stream_line_events(mode: StreamMode, request_id: &str, chat_id: &str, chunk: Option<StreamChunk>)
    -> (r: (Vec<ServerEvent>, StreamStep))
    ensures
        r.0@.map_values(|e: ServerEvent| event_form(e)) == line_spec(mode,
            match chunk { Some(c) => Some(chunk_view(c)), None => None }).0,
        r.1 == line_spec(mode, match chunk { Some(c) => Some(chunk_view(c)), None => None }).1,
        events_about(r.0@, request_id@, chat_id@),
{
    let mut evs: Vec<ServerEvent> = Vec::new();
    match chunk {
        None => {
            proof { assert(evs@.map_values(|e: ServerEvent| event_form(e)) =~= Seq::empty()); }
            (evs, StreamStep::Continue)
        },
        Some(c) => {
            let StreamChunk { done, error, message } = c;
            match error {
                Some(err) => {
                    evs.push(ServerEvent::Error {
                        request_id: string_from(request_id),
                        chat_id: string_from(chat_id),
                        message: err,
                    });
                    proof {
                        assert(evs@.map_values(|e: ServerEvent| event_form(e)) =~= seq![(3nat, err@)]);
                    }
                    (evs, StreamStep::Stop)
                },
                None => {
                    let ghost mv = match &message { Some(m) => Some((m.thinking@, m.content@)), None => None };
                    let ghost want: Seq<(nat, Seq<char>)> = match mv {
                        Some(m) => message_events_spec(mode, m),
                        None => Seq::empty(),
                    };
                    match message {
                        Some(m) => {
                            let ChunkMessage { role: _, thinking, content } = m;
                            let tl = !thinking.as_str().is_empty();
                            if tl {
                                evs.push(ServerEvent::Thinking {
                                    request_id: string_from(request_id),
                                    chat_id: string_from(chat_id),
                                    delta: thinking,
                                });
                            }
                            if mode == StreamMode::Plain || !content.as_str().is_empty() {
                                evs.push(ServerEvent::Chunk {
                                    request_id: string_from(request_id),
                                    chat_id: string_from(chat_id),
                                    delta: content,
                                });
                            }
                            proof {
                                assert(evs@.map_values(|e: ServerEvent| event_form(e)) =~= want);
                            }
                        },
                        None => {
                            proof { assert(evs@.map_values(|e: ServerEvent| event_form(e)) =~= want); }
                        },
                    }
                    if done {
                        let ghost before = evs@;
                        evs.push(ServerEvent::Done {
                            request_id: string_from(request_id),
                            chat_id: string_from(chat_id),
                            status: None,
                        });
                        proof {
                            assert(evs@ =~= before.push(evs@.last()));
                            assert(evs@.map_values(|e: ServerEvent| event_form(e)) =~=
                                before.map_values(|e: ServerEvent| event_form(e)) + seq![(2nat, Seq::<char>::empty())]);
                        }
                        (evs, StreamStep::Stop)
                    } else {
                        (evs, StreamStep::Continue)
                    }
                },
            }
        },
    }
}

/// What the end of a response body gives before any chunk said `done`: the
/// final answer is closed with `Done`; a plain reply ends without an event.
pub fn stream_end_events(mode: StreamMode, request_id: &str, chat_id: &str) -> (r: Vec<ServerEvent>)
    ensures
        mode == StreamMode::Plain ==> r@.len() == 0,
        mode == StreamMode::Final ==> r@.len() == 1 && event_form(r@[0]) == (2nat, Seq::<char>::empty()),
        events_about(r@, request_id@, chat_id@),
{
    let mut evs: Vec<ServerEvent> = Vec::new();
    if mode == StreamMode::Final {
        evs.push(ServerEvent::Done {
            request_id: string_from(request_id),
            chat_id: string_from(chat_id),
            status: None,
        });
    }
    evs
}

} // verus!
