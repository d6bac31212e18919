//! The log message that a client sends and a server receives: its wire form
//! (a JSON object), how a client builds it from a log line, and how a server
//! frames it back out of received bytes.

use vstd::prelude::*;
use crate::json::{first_index, frame_json_objects, lemma_first_index_concat, frames, json_escape, json_escape_char,
    json_quote, json_string_literal};
use crate::text::{decimal, decimal_spec, decode_utf8_lossy, escape_newlines,
    escape_newlines_spec, trim, trim_spec, utf8_lossy};

verus! {

/// A log message: when it was read, which input it belongs to, and its text.
pub struct MessageFormat {
    pub timestamp: String,
    pub tag: String,
    pub message: String,
}

/// The JSON object for a message with these fields, in the field order
/// `timestamp`, `tag`, `message`, with no white space.
pub open spec fn message_json(timestamp: Seq<char>, tag: Seq<char>, message: Seq<char>) -> Seq<char> {
    "{\"timestamp\":"@ + json_string_literal(timestamp) + ",\"tag\":"@ + json_string_literal(tag)
        + ",\"message\":"@ + json_string_literal(message) + "}"@
}

impl MessageFormat {
    /// The JSON object of this message.
    pub open spec fn json_spec(&self) -> Seq<char> {
        message_json(self.timestamp@, self.tag@, self.message@)
    }

    /// The JSON text of this message, as serde writes the struct.
    pub fn to_json(&self) -> (out: String)
        ensures
            out@ == self.json_spec(),
    {
        let mut out = "{\"timestamp\":".to_owned();
        out.append(json_quote(self.timestamp.as_str()).as_str());
        out.append(",\"tag\":");
        out.append(json_quote(self.tag.as_str()).as_str());
        out.append(",\"message\":");
        out.append(json_quote(self.message.as_str()).as_str());
        out.append("}");
        out
    }
}

/// The size of the pieces in which a client writes a message to its stream.
pub const SEND_CHUNK_SIZE: usize = 1024;

/// The views of `chunks`, in order.
pub open spec fn chunk_views(chunks: Seq<Vec<u8>>) -> Seq<Seq<u8>> {
    chunks.map_values(|c: Vec<u8>| c@)
}

/// `data` cut into consecutive pieces of `size` bytes; the last piece may be
/// shorter, and no piece is empty.
pub fn split_chunks(data: &[u8], size: usize) -> (out: Vec<Vec<u8>>)
    requires
        size > 0,
    ensures
        chunk_views(out@).flatten() == data@,
        forall|i: int| 0 <= i < out@.len() ==> 0 < (#[trigger] out@[i]@).len() <= size,
        forall|i: int| 0 <= i < out@.len() - 1 ==> (#[trigger] out@[i]@).len() == size,
{
    let n = data.len();
    let mut out: Vec<Vec<u8>> = Vec::new();
    let mut pos: usize = 0;
    while pos < n
        invariant
            n == data@.len(),
            size > 0,
            pos <= n,
            chunk_views(out@).flatten() == data@.take(pos as int),
            forall|i: int| 0 <= i < out@.len() ==> 0 < (#[trigger] out@[i]@).len() <= size,
            forall|i: int| 0 <= i < out@.len() - 1 ==> (#[trigger] out@[i]@).len() == size,
            out@.len() > 0 && pos < n ==> out@.last()@.len() == size,
        decreases n - pos,
    {
        let end = if n - pos > size { pos + size } else { n };
        let mut piece: Vec<u8> = Vec::new();
        for j in pos..end
            invariant
                n == data@.len(),
                pos <= end <= n,
                piece@ == data@.subrange(pos as int, j as int),
        {
            piece.push(data[j]);
            assert(data@.subrange(pos as int, j + 1) =~= data@.subrange(pos as int, j as int).push(data@[j as int]));
        }
        let ghost before = out@;
        out.push(piece);
        proof {
            assert(chunk_views(out@) =~= chunk_views(before).push(data@.subrange(pos as int, end as int)));
            chunk_views(before).lemma_flatten_push(data@.subrange(pos as int, end as int));
            assert(data@.take(pos as int) + data@.subrange(pos as int, end as int) =~= data@.take(end as int));
        }
        pos = end;
    }
    assert(data@.take(n as int) =~= data@);
    out
}

/// The bytes a client writes for a message: the UTF-8 encoding of its JSON text.
pub open spec fn wire_bytes(m: MessageFormat) -> Seq<u8> {
    vstd::utf8::encode_utf8(m.json_spec())
}

/// The pieces in which a client writes `m` to its stream: the UTF-8 bytes of
/// its JSON text, cut every `SEND_CHUNK_SIZE` bytes.
pub fn wire_chunks(m: &MessageFormat) -> (out: Vec<Vec<u8>>)
    ensures
        chunk_views(out@).flatten() == wire_bytes(*m),
        forall|i: int| 0 <= i < out@.len() ==> 0 < (#[trigger] out@[i]@).len() <= SEND_CHUNK_SIZE,
        forall|i: int| 0 <= i < out@.len() - 1 ==> (#[trigger] out@[i]@).len() == SEND_CHUNK_SIZE,
{
    let json = m.to_json();
    let bytes = json.as_str().as_bytes();
    split_chunks(bytes, SEND_CHUNK_SIZE)
}

/// The message a client builds from a line it read: the line without its
/// surrounding white space and with line feeds written as `\n`, tagged with the
/// client's tag and stamped with the time in milliseconds, in decimal.
pub fn build_message(line: &str, tag: &str, now_millis: u128) -> (m: MessageFormat)
    ensures
        m.timestamp@ == decimal_spec(now_millis as nat),
        m.tag@ == tag@,
        m.message@ == escape_newlines_spec(trim_spec(line@)),
{
    let trimmed = trim(line);
    MessageFormat {
        timestamp: decimal(now_millis),
        tag: tag.to_owned(),
        message: escape_newlines(trimmed.as_str()),
    }
}

/// The JSON objects a server frames out of a received piece of data, read as
/// UTF-8 with invalid sequences replaced.
pub fn frame_received(data: &[u8]) -> (out: Vec<String>)
    ensures
        out@.len() == frames(utf8_lossy(data@)).len(),
        forall|i: int| 0 <= i < out@.len() ==> #[trigger] out@[i]@ == frames(utf8_lossy(data@))[i],
        vstd::utf8::valid_utf8(data@) ==> frames(utf8_lossy(data@)) == frames(
            vstd::utf8::decode_utf8(data@),
        ),
{
    let text = decode_utf8_lossy(data);
    frame_json_objects(text.as_str())
}

/// No `}` occurs in `s`.
pub open spec fn no_close_brace(s: Seq<char>) -> bool {
    forall|i: int| 0 <= i < s.len() ==> s[i] != '}'
}

/// `t` is a JSON object as the framing sees one: `{`, then text without `}`, then `}`.
pub open spec fn single_frame(t: Seq<char>) -> bool {
    exists|body: Seq<char>| no_close_brace(body) && t == seq!['{'] + body + seq!['}']
}

proof fn lemma_frames_single_then_rest(t: Seq<char>, rest: Seq<char>)
    requires
        single_frame(t),
    ensures
        frames(t + rest) == seq![t] + frames(rest),
{
    let body = choose|body: Seq<char>| no_close_brace(body) && t == seq!['{'] + body + seq!['}'];
    let s = t + rest;
    assert(s[0] == '{');
    assert(first_index(s, '{') == 0);
    let r = s.skip(1);
    assert(r =~= body + (seq!['}'] + rest));
    lemma_first_index_concat(body, seq!['}'] + rest, '}');
    assert(first_index(seq!['}'] + rest, '}') == 0);
    let k = body.len() as int;
    assert(s.subrange(0, k + 2) =~= t);
    assert(r.skip(k + 1) =~= rest);
}

/// Framing recovers a run of JSON objects: when each text is `{`, text without
/// `}`, and `}`, the frames of their concatenation are exactly those texts.
pub proof fn lemma_frames_of_concatenation(texts: Seq<Seq<char>>)
    requires
        forall|i: int| 0 <= i < texts.len() ==> single_frame(#[trigger] texts[i]),
    ensures
        frames(texts.flatten()) == texts,
    decreases texts.len(),
{
    if texts.len() == 0 {
        assert(frames(Seq::<char>::empty()) =~= Seq::<Seq<char>>::empty()) by {
            assert(first_index(Seq::<char>::empty(), '{') == 0);
        }
    } else {
        lemma_frames_of_concatenation(texts.drop_first());
        lemma_frames_single_then_rest(texts[0], texts.drop_first().flatten());
        assert(seq![texts[0]] + texts.drop_first() =~= texts);
    }
}

proof fn lemma_escape_char_no_close(c: char)
    requires
        c != '}',
    ensures
        no_close_brace(json_escape_char(c)),
{
    let d = c as nat;
    if (c as u32) < 0x20 && c != '\u{8}' && c != '\t' && c != '\n' && c != '\u{c}' && c != '\r' {
        let hi = d / 16;
        let lo = d % 16;
        assert(hi < 16 && lo < 16);
        assert(crate::json::hex_digit(hi) != '}');
        assert(crate::json::hex_digit(lo) != '}');
    }
}

proof fn lemma_escape_no_close(s: Seq<char>)
    requires
        no_close_brace(s),
    ensures
        no_close_brace(json_escape(s)),
    decreases s.len(),
{
    if s.len() > 0 {
        lemma_escape_no_close(s.drop_last());
        lemma_escape_char_no_close(s.last());
        let a = json_escape(s.drop_last());
        let b = json_escape_char(s.last());
        assert forall|i: int| 0 <= i < (a + b).len() implies (a + b)[i] != '}' by {
            if i >= a.len() {
                assert((a + b)[i] == b[i - a.len()]);
            }
        }
    }
}

/// The wire form of a message whose fields hold no `}` is one frame: `{`, text
/// without `}`, and `}`.
pub proof fn lemma_message_json_is_single_frame(timestamp: Seq<char>, tag: Seq<char>, message: Seq<char>)
    requires
        no_close_brace(timestamp),
        no_close_brace(tag),
        no_close_brace(message),
    ensures
        single_frame(message_json(timestamp, tag, message)),
{
    reveal_strlit("{\"timestamp\":");
    reveal_strlit(",\"tag\":");
    reveal_strlit(",\"message\":");
    reveal_strlit("}");
    reveal_strlit("\"timestamp\":");
    lemma_escape_no_close(timestamp);
    lemma_escape_no_close(tag);
    lemma_escape_no_close(message);
    assert("{\"timestamp\":"@ =~= seq!['{'] + "\"timestamp\":"@);
    let body = "\"timestamp\":"@ + json_string_literal(timestamp) + ",\"tag\":"@
        + json_string_literal(tag) + ",\"message\":"@ + json_string_literal(message);
    assert(message_json(timestamp, tag, message) =~= seq!['{'] + body + seq!['}']);
    assert(no_close_brace(body));
}

/// The texts a server frames out of a piece of data that holds the wire bytes
/// of messages, one after another, are those messages' JSON texts, when no
/// field of them holds a `}`.
pub proof fn lemma_server_frames_client_messages(ms: Seq<MessageFormat>)
    requires
        forall|i: int| 0 <= i < ms.len() ==> {
            &&& no_close_brace((#[trigger] ms[i]).timestamp@)
            &&& no_close_brace(ms[i].tag@)
            &&& no_close_brace(ms[i].message@)
        },
    ensures
        frames(vstd::utf8::decode_utf8(vstd::utf8::encode_utf8(
            ms.map_values(|m: MessageFormat| m.json_spec()).flatten(),
        ))) == ms.map_values(|m: MessageFormat| m.json_spec()),
{
    let texts = ms.map_values(|m: MessageFormat| m.json_spec());
    assert forall|i: int| 0 <= i < texts.len() implies single_frame(#[trigger] texts[i]) by {
        lemma_message_json_is_single_frame(ms[i].timestamp@, ms[i].tag@, ms[i].message@);
    }
    lemma_frames_of_concatenation(texts);
    vstd::utf8::encode_utf8_decode_utf8(texts.flatten());
}

} // verus!
