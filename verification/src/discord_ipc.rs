//! The IPC session: frames on the wire, the handshake, activity commands and
//! the connect / close / reconnect life cycle, above a byte transport.

use vstd::prelude::*;
use vstd::utf8::{
    decode_utf8, encode_utf8, encode_utf8_decode_utf8, encode_utf8_valid_utf8, valid_utf8,
};
use crate::activity::Activity;
use crate::error::{Error, Failure};
use crate::nonce::{fresh_nonce, is_nonce};
use crate::json::{
    as_integer, as_text, as_unsigned, integer_value, json_model, json_parse, json_text, member,
    no_members, null_value, object_insert, object_new, object_value, parse, text_value, to_text,
    utf8_text, JsonValue, Members,
};
use crate::pack_unpack::{
    header_bytes, header_fields, lemma_unpack_pack, pack, unpack, HEADER_LEN,
};

verus! {

/// The opcode of the handshake frame.
pub const OPCODE_HANDSHAKE: u32 = 0;

/// The opcode of a frame that carries a command.
pub const OPCODE_FRAME: u32 = 1;

/// An error reply of the remote end: a JSON object with an integer `code`
/// and a string `message`.
#[derive(Debug, Clone, PartialEq, Eq)]
pub struct DiscordRpcError {
    /// The code, which may be any integer that a JSON number holds.
    pub code: i128,
    pub message: String,
}

/// The error reply that a document is: its code and its message. A document
/// is one when it is an object whose member `code` is an integer and whose
/// member `message` is a string; other members do not matter.
pub open spec fn error_reply_of(document: JsonValue) -> Option<(int, Seq<char>)> {
    match document {
        JsonValue::Object(members) => {
            if members.dom().contains("code"@) && members.dom().contains("message"@) {
                match (members["code"@], members["message"@]) {
                    (JsonValue::Integer(code), JsonValue::Text(message)) => Some((code, message)),
                    _ => None,
                }
            } else {
                None
            }
        },
        _ => None,
    }
}

impl DiscordRpcError {
    /// Reads a value as an error reply; `None` where it is none.
    pub fn from_value(value: &serde_json::Value) -> (reply: Option<DiscordRpcError>)
        ensures
            match reply {
                Some(e) => error_reply_of(json_model(*value)) == Some((e.code as int, e.message@)),
                None => error_reply_of(json_model(*value)) is None,
            },
    {
        let code: i128 = match member(value, "code") {
            Some(inner) => match as_integer(inner) {
                Some(n) => n as i128,
                None => match as_unsigned(inner) {
                    Some(n) => n as i128,
                    None => { return None; },
                },
            },
            None => { return None; },
        };
        match member(value, "message") {
            Some(inner) => match as_text(inner) {
                Some(text) => Some(DiscordRpcError { code, message: text.to_owned() }),
                None => None,
            },
            None => None,
        }
    }
}

/// The bytes of a frame: the header for this opcode and the payload's
/// length, then the payload.
pub open spec fn frame_bytes(opcode: u32, payload: Seq<u8>) -> Seq<u8>
    recommends
        payload.len() <= u32::MAX,
{
    header_bytes(opcode, payload.len() as u32) + payload
}

/// The payload of a frame that carries a document: the UTF-8 bytes of its
/// compact JSON text.
pub open spec fn payload_bytes(document: JsonValue) -> Seq<u8> {
    encode_utf8(json_text(document))
}

/// Puts the header for `opcode` in front of `payload`.
pub fn frame(opcode: u32, payload: &[u8]) -> (bytes: Vec<u8>)
    requires
        payload@.len() <= u32::MAX,
    ensures
        bytes@ == frame_bytes(opcode, payload@),
{
    let mut bytes: Vec<u8> = pack(opcode, payload.len() as u32);
    bytes.extend_from_slice(payload);
    bytes
}

/// What a received payload amounts to: the opcode with the document, or the
/// failure that the payload is.
pub open spec fn reply_of(opcode: u32, payload: Seq<u8>) -> Result<(u32, JsonValue), Failure> {
    if !valid_utf8(payload) {
        Err(Failure::DecodeFailed)
    } else {
        match json_parse(decode_utf8(payload)) {
            None => Err(Failure::DecodeFailed),
            Some(document) => match error_reply_of(document) {
                Some((_, message)) => Err(Failure::RemoteProtocolError(message)),
                None => Ok((opcode, document)),
            },
        }
    }
}

/// A received reply in contracts: the document in place of the value, the
/// failure in place of the error.
pub open spec fn reply_view(reply: Result<(u32, serde_json::Value), Error>) -> Result<
    (u32, JsonValue),
    Failure,
> {
    match reply {
        Ok((opcode, value)) => Ok((opcode, json_model(value))),
        Err(e) => Err(e@),
    }
}

/// Decodes the payload of a received frame.
///
/// Fails with `DecodeFailed` where the payload is not UTF-8 or not JSON, and
/// with `RemoteProtocolError` and the remote message where the document is an
/// error reply; otherwise gives the opcode and the document.
pub fn decode_reply(opcode: u32, payload: Vec<u8>) -> (reply: Result<
    (u32, serde_json::Value),
    Error,
>)
    ensures
        reply_view(reply) == reply_of(opcode, payload@),
{
    let text: String = match utf8_text(payload) {
        Ok(text) => text,
        Err(_) => { return Err(Error::DecodeFailed); },
    };
    let value: serde_json::Value = match parse(text.as_str()) {
        Some(value) => value,
        None => { return Err(Error::DecodeFailed); },
    };
    match DiscordRpcError::from_value(&value) {
        Some(e) => Err(Error::RemoteProtocolError(e.message)),
        None => Ok((opcode, value)),
    }
}

/// The document of the handshake: the protocol version 1 and the client id.
pub open spec fn handshake_document(client_id: Seq<char>) -> JsonValue {
    JsonValue::Object(
        no_members().insert("v"@, JsonValue::Integer(1)).insert(
            "client_id"@,
            JsonValue::Text(client_id),
        ),
    )
}

/// Builds the handshake for a client id.
pub fn handshake_payload(client_id: &str) -> (value: serde_json::Value)
    ensures
        json_model(value) == handshake_document(client_id@),
{
    let object = object_new();
    let object = object_insert(object, "v", integer_value(1));
    let object = object_insert(object, "client_id", text_value(client_id));
    object_value(object)
}

/// The envelope of the command that sets the activity of the process `pid`:
/// the command's name, its arguments and a nonce. For `activity`, the
/// document of an activity sets it and `null` clears it.
pub open spec fn command_document(pid: u32, activity: JsonValue, nonce: Seq<char>) -> JsonValue {
    JsonValue::Object(
        no_members().insert("cmd"@, JsonValue::Text("SET_ACTIVITY"@)).insert(
            "args"@,
            JsonValue::Object(
                no_members().insert("pid"@, JsonValue::Integer(pid as int)).insert(
                    "activity"@,
                    activity,
                ),
            ),
        ).insert("nonce"@, JsonValue::Text(nonce)),
    )
}

/// Builds the envelope of the command that sets the activity.
pub fn command_payload(pid: u32, activity: serde_json::Value, nonce: &str) -> (value:
    serde_json::Value)
    ensures
        json_model(value) == command_document(pid, json_model(activity), nonce@),
{
    let args = object_new();
    let args = object_insert(args, "pid", integer_value(pid as i64));
    let args = object_insert(args, "activity", activity);
    let object = object_new();
    let object = object_insert(object, "cmd", text_value("SET_ACTIVITY"));
    let object = object_insert(object, "args", object_value(args));
    let object = object_insert(object, "nonce", text_value(nonce));
    object_value(object)
}

/// One call of a method of the transport, with how it ended.
pub enum Event {
    /// `connect_ipc`, and whether it opened the transport.
    Open { opened: bool },
    /// `write` with this data, and whether the transport took it.
    Write { data: Seq<u8>, written: bool },
    /// `read` into a buffer of this length, and the bytes that filled it, if
    /// it was filled.
    Read { len: nat, filled: Option<Seq<u8>> },
    /// `close`.
    Close,
}

/// A read that failed.
pub open spec fn failed_read(len: nat) -> Event {
    Event::Read { len, filled: None }
}

/// A read that was filled with these bytes.
pub open spec fn filled_read(data: Seq<u8>) -> Event {
    Event::Read { len: data.len(), filled: Some(data) }
}

/// A session in contracts.
pub struct SessionState {
    /// The client id, fixed when the session is made.
    pub client_id: Seq<char>,
    /// Whether the transport is open.
    pub connected: bool,
    /// Every call of the transport so far, in order.
    pub events: Seq<Event>,
    /// The bytes that the transport will still supply to reads, in order.
    pub incoming: Seq<u8>,
}

/// A result in contracts: the failure in place of the error.
pub open spec fn outcome<T>(result: Result<T, Error>) -> Result<T, Failure> {
    match result {
        Ok(value) => Ok(value),
        Err(e) => Err(e@),
    }
}

/// A result without the value that it holds.
pub open spec fn discard<T>(result: Result<T, Failure>) -> Result<(), Failure> {
    match result {
        Ok(_) => Ok(()),
        Err(e) => Err(e),
    }
}

/// What `send` does with a document: the frame that holds it goes to the
/// transport in one write, and `send` succeeds exactly if that write does.
/// A document whose payload is too long for the 32 bits of the header is
/// not written at all. Nothing is read: the bytes that were still to be
/// read are still to be read, before whatever the write may have added.
pub open spec fn sends(
    before: SessionState,
    after: SessionState,
    result: Result<(), Failure>,
    opcode: u32,
    document: JsonValue,
) -> bool {
    &&& after.client_id == before.client_id
    &&& after.connected == before.connected
    &&& before.incoming.is_prefix_of(after.incoming)
    &&& result is Ok || result == Err::<(), Failure>(Failure::WriteFailed)
    &&& if payload_bytes(document).len() <= u32::MAX {
        after.events == before.events.push(
            Event::Write {
                data: frame_bytes(opcode, payload_bytes(document)),
                written: result is Ok,
            },
        )
    } else {
        after == before && result is Err
    }
}

/// Whether `incoming` starts with a whole frame: a header, and as many bytes
/// after it as the header declares.
pub open spec fn has_frame(incoming: Seq<u8>) -> bool {
    8 <= incoming.len() && 8 + header_fields(incoming).1 <= incoming.len()
}

/// The length of the frame that `incoming` starts with.
pub open spec fn frame_len(incoming: Seq<u8>) -> int {
    8 + header_fields(incoming).1
}

/// What the bytes that a transport supplies are received as: the reply that
/// the first frame holds, or `ReadFailed` where they end before the frame
/// does.
pub open spec fn next_reply(incoming: Seq<u8>) -> Result<(u32, JsonValue), Failure> {
    if has_frame(incoming) {
        reply_of(header_fields(incoming).0, incoming.subrange(8, frame_len(incoming)))
    } else {
        Err(Failure::ReadFailed)
    }
}

/// What `recv` does. It reads the eight bytes of a header, and fails with
/// `ReadFailed` if that read fails. Else it reads as many bytes as the
/// header declares, and fails with `ReadFailed` if that read fails. Else the
/// frame is taken off the incoming bytes and what it holds is returned. No
/// other read is made.
pub open spec fn receives(
    before: SessionState,
    after: SessionState,
    result: Result<(u32, JsonValue), Failure>,
) -> bool {
    let header = filled_read(before.incoming.take(8));
    let length = header_fields(before.incoming).1 as nat;
    &&& after.client_id == before.client_id
    &&& after.connected == before.connected
    &&& {
        ||| {
            &&& after.events == before.events.push(failed_read(8))
            &&& result == Err::<(u32, JsonValue), Failure>(Failure::ReadFailed)
        }
        ||| {
            &&& 8 <= before.incoming.len()
            &&& after.events == before.events.push(header).push(failed_read(length))
            &&& result == Err::<(u32, JsonValue), Failure>(Failure::ReadFailed)
        }
        ||| {
            &&& has_frame(before.incoming)
            &&& after.events == before.events.push(header).push(
                filled_read(before.incoming.subrange(8, frame_len(before.incoming))),
            )
            &&& after.incoming == before.incoming.skip(frame_len(before.incoming))
            &&& result == next_reply(before.incoming)
        }
    }
}

/// What `close` does: it releases the transport and never fails, whether or
/// not the session was connected. The session is disconnected afterwards.
pub open spec fn closes(
    before: SessionState,
    after: SessionState,
    result: Result<(), Failure>,
) -> bool {
    &&& result is Ok
    &&& !after.connected
    &&& after.client_id == before.client_id
    &&& after.events == before.events.push(Event::Close)
}

/// What the handshake does: it sends the handshake document with opcode 0
/// and fails if that fails; else it receives one reply and fails if that
/// fails. What a reply that is received holds is not looked at.
pub open spec fn shakes_hands(
    before: SessionState,
    after: SessionState,
    result: Result<(), Failure>,
) -> bool {
    ||| result is Err && sends(before, after, result, 0, handshake_document(before.client_id))
    ||| exists|sent: SessionState, reply: Result<(u32, JsonValue), Failure>|
        {
            &&& sends(before, sent, Ok(()), 0, handshake_document(before.client_id))
            &&& #[trigger] receives(sent, after, reply)
            &&& result == discard(reply)
        }
}

/// What `connect` does. It opens the transport; if that fails, it closes the
/// session and fails with `ConnectionFailed`. Else it makes the handshake;
/// if that fails, it closes the session and fails as the handshake did. So
/// the session is connected afterwards exactly if the call succeeds.
pub open spec fn connects(
    before: SessionState,
    after: SessionState,
    result: Result<(), Failure>,
) -> bool {
    &&& after.client_id == before.client_id
    &&& after.connected <==> result is Ok
    &&& {
        ||| {
            &&& result == Err::<(), Failure>(Failure::ConnectionFailed)
            &&& after.events == before.events.push(Event::Open { opened: false }).push(
                Event::Close,
            )
        }
        ||| exists|opened: SessionState, greeted: SessionState|
            {
                &&& opened.client_id == before.client_id
                &&& opened.connected
                &&& opened.events == before.events.push(Event::Open { opened: true })
                &&& #[trigger] shakes_hands(opened, greeted, result)
                &&& if result is Ok {
                    after == greeted
                } else {
                    after.events == greeted.events.push(Event::Close)
                }
            }
    }
}

/// What `reconnect` does: it closes the session, whether or not it was
/// connected, and then does what `connect` does.
pub open spec fn reconnects(
    before: SessionState,
    after: SessionState,
    result: Result<(), Failure>,
) -> bool {
    exists|closed: SessionState, ignored: Result<(), Failure>|
        {
            &&& #[trigger] closes(before, closed, ignored)
            &&& connects(closed, after, result)
        }
}

/// A frame that is handed to a transport is, where the transport supplies
/// it again, received as the frame that it is: with its opcode and its
/// payload, whatever bytes follow it.
pub proof fn lemma_frame_is_received(opcode: u32, payload: Seq<u8>, rest: Seq<u8>)
    requires
        payload.len() <= u32::MAX,
    ensures
        has_frame(frame_bytes(opcode, payload) + rest),
        frame_len(frame_bytes(opcode, payload) + rest) == 8 + payload.len(),
        next_reply(frame_bytes(opcode, payload) + rest) == reply_of(opcode, payload),
        (frame_bytes(opcode, payload) + rest).skip(8 + payload.len() as int) == rest,
{
    let length = payload.len() as u32;
    let incoming = frame_bytes(opcode, payload) + rest;
    lemma_unpack_pack(opcode, length);
    assert(incoming.subrange(0, 4) =~= header_bytes(opcode, length).subrange(0, 4));
    assert(incoming.subrange(4, 8) =~= header_bytes(opcode, length).subrange(4, 8));
    assert(header_fields(incoming) == (opcode, length));
    assert(incoming.subrange(8, 8 + payload.len() as int) =~= payload);
    assert(incoming.skip(8 + payload.len() as int) =~= rest);
}

/// What is received of a document that was sent: the document that its text
/// is read as. The frame and the UTF-8 encoding lose nothing, so `recv` gets
/// the very text that `send` wrote.
pub proof fn lemma_sent_document_is_received(opcode: u32, document: JsonValue, rest: Seq<u8>)
    requires
        payload_bytes(document).len() <= u32::MAX,
    ensures
        next_reply(frame_bytes(opcode, payload_bytes(document)) + rest) == match json_parse(
            json_text(document),
        ) {
            None => Err::<(u32, JsonValue), Failure>(Failure::DecodeFailed),
            Some(read) => match error_reply_of(read) {
                Some((_, message)) => Err(Failure::RemoteProtocolError(message)),
                None => Ok((opcode, read)),
            },
        },
{
    lemma_frame_is_received(opcode, payload_bytes(document), rest);
    encode_utf8_valid_utf8(json_text(document));
    encode_utf8_decode_utf8(json_text(document));
}

/// `send` followed by `recv` over a loopback. Where the send succeeds, the
/// transport then supplies the written frame and no read fails, `recv`
/// returns the opcode that was sent and the document that the sent text is
/// read as: the document itself, if `serde_json` reads it back from its own
/// text and it is no error reply. Nothing is left to read.
pub proof fn lemma_send_then_recv_over_loopback(
    before: SessionState,
    sent: SessionState,
    after: SessionState,
    opcode: u32,
    document: JsonValue,
    reply: Result<(u32, JsonValue), Failure>,
)
    requires
        sends(before, sent, Ok(()), opcode, document),
        sent.incoming == frame_bytes(opcode, payload_bytes(document)),
        receives(sent, after, reply),
        reply != Err::<(u32, JsonValue), Failure>(Failure::ReadFailed),
    ensures
        reply == reply_of(opcode, payload_bytes(document)),
        json_parse(json_text(document)) == Some(document) && error_reply_of(document) is None
            ==> reply == Ok::<(u32, JsonValue), Failure>((opcode, document)),
        after.incoming.len() == 0,
        after.events == before.events.push(
            Event::Write { data: frame_bytes(opcode, payload_bytes(document)), written: true },
        ).push(filled_read(header_bytes(opcode, payload_bytes(document).len() as u32))).push(
            filled_read(payload_bytes(document)),
        ),
{
    let payload = payload_bytes(document);
    lemma_frame_is_received(opcode, payload, Seq::empty());
    assert(frame_bytes(opcode, payload) + Seq::<u8>::empty() =~= frame_bytes(opcode, payload));
    lemma_sent_document_is_received(opcode, document, Seq::empty());
    assert(sent.incoming.take(8) =~= header_bytes(opcode, payload.len() as u32));
    assert(sent.incoming.subrange(8, frame_len(sent.incoming)) =~= payload);
}

/// A document that is an error reply is never received as data: receiving
/// it fails with the remote message, whatever integer the code is.
pub proof fn lemma_error_reply_is_a_failure(
    opcode: u32,
    payload: Seq<u8>,
    members: Members,
    code: int,
    message: Seq<char>,
)
    requires
        valid_utf8(payload),
        json_parse(decode_utf8(payload)) == Some(JsonValue::Object(members)),
        members.dom().contains("code"@),
        members.dom().contains("message"@),
        members["code"@] == JsonValue::Integer(code),
        members["message"@] == JsonValue::Text(message),
    ensures
        reply_of(opcode, payload) == Err::<(u32, JsonValue), Failure>(
            Failure::RemoteProtocolError(message),
        ),
{
}

/// Where the incoming bytes end before the frame that they start does,
/// whether within the header or within the length that it declares, `recv`
/// fails with `ReadFailed`.
pub proof fn lemma_truncated_frame_is_read_failed(
    before: SessionState,
    after: SessionState,
    result: Result<(u32, JsonValue), Failure>,
)
    requires
        receives(before, after, result),
        before.incoming.len() < 8 || before.incoming.len() < 8 + header_fields(before.incoming).1,
    ensures
        result == Err::<(u32, JsonValue), Failure>(Failure::ReadFailed),
{
}

/// `recv` makes one read or two, never more: one if the read of the header
/// fails, else two, the first of eight bytes. It fails with `ReadFailed`
/// exactly if its last read failed; else it returns what the bytes that
/// filled the two reads hold.
pub proof fn lemma_recv_reads_twice(
    before: SessionState,
    after: SessionState,
    result: Result<(u32, JsonValue), Failure>,
)
    requires
        receives(before, after, result),
    ensures
        after.events.len() == before.events.len() + 1 || after.events.len() == before.events.len()
            + 2,
        after.events.subrange(0, before.events.len() as int) == before.events,
        after.events.last() is Read,
        after.events[before.events.len() as int] is Read,
        after.events[before.events.len() as int]->Read_len == 8,
        after.events.last()->Read_filled is None <==> result == Err::<(u32, JsonValue), Failure>(
            Failure::ReadFailed,
        ),
        after.events.last()->Read_filled matches Some(payload) ==> {
            &&& after.events.len() == before.events.len() + 2
            &&& after.events[before.events.len() as int]->Read_filled matches Some(header)
            &&& header.len() == 8
            &&& payload.len() == header_fields(header).1
            &&& result == reply_of(header_fields(header).0, payload)
        },
{
    let n = before.events.len() as int;
    let header = before.incoming.take(8);
    if after.events.len() == n + 1 {
        assert(after.events.subrange(0, n) =~= before.events);
    } else {
        assert(after.events.subrange(0, n) =~= before.events);
        assert(after.events[n] == filled_read(header));
        assert(header.subrange(0, 4) =~= before.incoming.subrange(0, 4));
        assert(header.subrange(4, 8) =~= before.incoming.subrange(4, 8));
    }
}

/// What `connect` does to a session depends on its client id and on the
/// calls made so far, not on whether it was connected before nor on what an
/// earlier connection had still to read.
pub proof fn lemma_connects_from_any_state(
    first: SessionState,
    second: SessionState,
    after: SessionState,
    result: Result<(), Failure>,
)
    requires
        first.client_id == second.client_id,
        first.events == second.events,
    ensures
        connects(first, after, result) == connects(second, after, result),
{
}

/// `reconnect` on a session that was never connected does, after the close
/// that changes nothing but the record of calls, what `connect` does on a
/// fresh session with that client id: the two are held to one description.
pub proof fn lemma_reconnect_is_close_then_connect(
    before: SessionState,
    after: SessionState,
    result: Result<(), Failure>,
)
    requires
        reconnects(before, after, result),
    ensures
        connects(
            SessionState {
                client_id: before.client_id,
                connected: false,
                events: before.events.push(Event::Close),
                incoming: before.incoming,
            },
            after,
            result,
        ),
        after.client_id == before.client_id,
        after.connected <==> result is Ok,
{
    let (closed, ignored) = choose|closed: SessionState, ignored: Result<(), Failure>|
        #[trigger] closes(before, closed, ignored) && connects(closed, after, result);
    lemma_connects_from_any_state(
        closed,
        SessionState {
            client_id: before.client_id,
            connected: false,
            events: before.events.push(Event::Close),
            incoming: before.incoming,
        },
        after,
        result,
    );
}

/// Closing twice in a row never fails and leaves the session disconnected
/// both times.
pub proof fn lemma_close_twice(
    before: SessionState,
    between: SessionState,
    after: SessionState,
    first: Result<(), Failure>,
    second: Result<(), Failure>,
)
    requires
        closes(before, between, first),
        closes(between, after, second),
    ensures
        first is Ok,
        second is Ok,
        !between.connected,
        !after.connected,
        after.client_id == before.client_id,
        after.events == before.events.push(Event::Close).push(Event::Close),
{
}

/// No half-connected session is left behind: after `connect` the session is
/// connected if the call succeeded and disconnected if it failed, and a call
/// that failed has closed the transport as its last step.
pub proof fn lemma_connects_leaves_no_half_open_session(
    before: SessionState,
    after: SessionState,
    result: Result<(), Failure>,
)
    requires
        connects(before, after, result),
    ensures
        result is Err ==> !after.connected && after.events.last() == Event::Close,
        result is Ok ==> after.connected,
        after.client_id == before.client_id,
{
}

/// `send` never hides a failed write, and never fails a write that was
/// made: where a frame was handed to the transport, `send` succeeds exactly
/// if the transport took it.
pub proof fn lemma_send_reports_the_write(
    before: SessionState,
    after: SessionState,
    result: Result<(), Failure>,
    opcode: u32,
    document: JsonValue,
)
    requires
        sends(before, after, result, opcode, document),
        payload_bytes(document).len() <= u32::MAX,
    ensures
        after.events.len() == before.events.len() + 1,
        after.events.last() is Write,
        after.events.last()->Write_data == frame_bytes(opcode, payload_bytes(document)),
        after.events.last()->Write_written <==> result is Ok,
{
}

/// The calls of the transport that were made between two states of a
/// session, in order.
pub open spec fn calls_since(before: SessionState, after: SessionState) -> Seq<Event> {
    after.events.skip(before.events.len() as int)
}

/// `recv` of a frame that is pending. Where the incoming bytes start with
/// the frame of this opcode and payload and the transport fails no read,
/// `recv` reads the header and then the payload, takes exactly the frame and
/// returns what the payload holds, with the opcode that the header was packed
/// from.
pub proof fn lemma_recv_of_a_pending_frame(
    before: SessionState,
    after: SessionState,
    result: Result<(u32, JsonValue), Failure>,
    opcode: u32,
    payload: Seq<u8>,
    rest: Seq<u8>,
)
    requires
        receives(before, after, result),
        payload.len() <= u32::MAX,
        before.incoming == frame_bytes(opcode, payload) + rest,
        after.events.last()->Read_filled is Some,
    ensures
        result == reply_of(opcode, payload),
        after.events == before.events.push(
            filled_read(header_bytes(opcode, payload.len() as u32)),
        ).push(filled_read(payload)),
        after.incoming == rest,
{
    lemma_frame_is_received(opcode, payload, rest);
    assert(before.incoming.take(8) =~= header_bytes(opcode, payload.len() as u32));
    assert(before.incoming.subrange(8, frame_len(before.incoming)) =~= payload);
}

/// `connect` on a transport that serves it. Where the transport opened, took
/// the write and filled the two reads of the reply, and the reply holds a
/// document that is no error reply, `connect` succeeds and leaves the
/// session connected, having made just these four calls: the open, the write
/// of the handshake frame for the session's client id, and the two reads.
pub proof fn lemma_connect_on_a_serving_transport(
    before: SessionState,
    after: SessionState,
    result: Result<(), Failure>,
    header: Seq<u8>,
    payload: Seq<u8>,
)
    requires
        connects(before, after, result),
        calls_since(before, after).len() >= 4,
        calls_since(before, after)[0] == (Event::Open { opened: true }),
        calls_since(before, after)[1] is Write,
        calls_since(before, after)[1]->written,
        calls_since(before, after)[2] == filled_read(header),
        calls_since(before, after)[3] == filled_read(payload),
        reply_of(header_fields(header).0, payload) is Ok,
    ensures
        result is Ok,
        after.connected,
        after.events == before.events.push(Event::Open { opened: true }).push(
            Event::Write {
                data: frame_bytes(0, payload_bytes(handshake_document(before.client_id))),
                written: true,
            },
        ).push(filled_read(header)).push(filled_read(payload)),
{
    let n = before.events.len() as int;
    let (opened, greeted) = choose|opened: SessionState, greeted: SessionState|
        {
            &&& opened.client_id == before.client_id
            &&& opened.connected
            &&& opened.events == before.events.push(Event::Open { opened: true })
            &&& #[trigger] shakes_hands(opened, greeted, result)
            &&& if result is Ok {
                after == greeted
            } else {
                after.events == greeted.events.push(Event::Close)
            }
        };
    let document = handshake_document(before.client_id);
    if result is Err && sends(opened, greeted, result, 0, document) {
        assert(after.events == greeted.events.push(Event::Close));
        assert(false);
    }
    let (sent, reply) = choose|sent: SessionState, reply: Result<(u32, JsonValue), Failure>|
        {
            &&& sends(opened, sent, Ok(()), 0, document)
            &&& #[trigger] receives(sent, greeted, reply)
            &&& result == discard(reply)
        };
    assert(sent.events.len() == n + 2);
    if result is Err {
        assert(after.events == greeted.events.push(Event::Close));
    }
    assert(greeted.events.len() == n + 4);
    assert(greeted.events[n + 2] == after.events[n + 2]);
    assert(greeted.events[n + 3] == after.events[n + 3]);
    assert(header == sent.incoming.take(8));
    assert(header.subrange(0, 4) =~= sent.incoming.subrange(0, 4));
    assert(header.subrange(4, 8) =~= sent.incoming.subrange(4, 8));
    assert(reply == reply_of(header_fields(header).0, payload));
}

/// `connect` where no transport accepts: it fails with `ConnectionFailed`
/// and leaves the session disconnected, having made the open and a close.
pub proof fn lemma_connect_without_a_transport(
    before: SessionState,
    after: SessionState,
    result: Result<(), Failure>,
)
    requires
        connects(before, after, result),
        calls_since(before, after).len() >= 1,
        calls_since(before, after)[0] == (Event::Open { opened: false }),
    ensures
        result == Err::<(), Failure>(Failure::ConnectionFailed),
        !after.connected,
        after.events == before.events.push(Event::Open { opened: false }).push(Event::Close),
{
    if result != Err::<(), Failure>(Failure::ConnectionFailed) {
        let (opened, greeted) = choose|opened: SessionState, greeted: SessionState|
            {
                &&& opened.client_id == before.client_id
                &&& opened.connected
                &&& opened.events == before.events.push(Event::Open { opened: true })
                &&& #[trigger] shakes_hands(opened, greeted, result)
                &&& if result is Ok {
                    after == greeted
                } else {
                    after.events == greeted.events.push(Event::Close)
                }
            };
        lemma_handshake_keeps_the_record(opened, greeted, result);
        let n = before.events.len() as int;
        assert(after.events[n] == opened.events[n]);
        assert(false);
    }
}

/// The handshake adds to the record of calls and changes none that was
/// made before.
pub proof fn lemma_handshake_keeps_the_record(
    before: SessionState,
    after: SessionState,
    result: Result<(), Failure>,
)
    requires
        shakes_hands(before, after, result),
    ensures
        before.events.is_prefix_of(after.events),
{
    let document = handshake_document(before.client_id);
    if result is Err && sends(before, after, result, 0, document) {
    } else {
        let (sent, reply) = choose|sent: SessionState, reply: Result<(u32, JsonValue), Failure>|
            {
                &&& sends(before, sent, Ok(()), 0, document)
                &&& #[trigger] receives(sent, after, reply)
                &&& result == discard(reply)
            };
        assert(before.events.is_prefix_of(sent.events));
        assert(sent.events.is_prefix_of(after.events));
    }
}

/// A handshake whose write the transport does not take: it fails with
/// `WriteFailed` and makes no read, so the bytes that were still to be read
/// are still to be read.
pub proof fn lemma_handshake_without_a_write(
    before: SessionState,
    after: SessionState,
    result: Result<(), Failure>,
)
    requires
        shakes_hands(before, after, result),
        calls_since(before, after).len() >= 1,
        calls_since(before, after)[0] is Write,
        !calls_since(before, after)[0]->written,
    ensures
        result == Err::<(), Failure>(Failure::WriteFailed),
        after.events == before.events.push(
            Event::Write {
                data: frame_bytes(0, payload_bytes(handshake_document(before.client_id))),
                written: false,
            },
        ),
        before.incoming.is_prefix_of(after.incoming),
        after.connected == before.connected,
{
    let document = handshake_document(before.client_id);
    if !(result is Err && sends(before, after, result, 0, document)) {
        let (sent, reply) = choose|sent: SessionState, reply: Result<(u32, JsonValue), Failure>|
            {
                &&& sends(before, sent, Ok(()), 0, document)
                &&& #[trigger] receives(sent, after, reply)
                &&& result == discard(reply)
            };
        assert(sent.events.is_prefix_of(after.events));
        let n = before.events.len() as int;
        assert(after.events[n] == sent.events[n]);
        assert(false);
    }
}

/// `reconnect` on a transport that serves it, from any state: connected,
/// closed once or twice, or never connected. Where the transport then
/// opened, took the write and filled the two reads of the reply, and the
/// reply holds a document that is no error reply, `reconnect` succeeds and
/// leaves the session connected. It made one close, one open, one write of a
/// fresh handshake frame for the session's client id, and the two reads.
pub proof fn lemma_reconnect_on_a_serving_transport(
    before: SessionState,
    after: SessionState,
    result: Result<(), Failure>,
    header: Seq<u8>,
    payload: Seq<u8>,
)
    requires
        reconnects(before, after, result),
        calls_since(before, after).len() >= 5,
        calls_since(before, after)[1] == (Event::Open { opened: true }),
        calls_since(before, after)[2] is Write,
        calls_since(before, after)[2]->written,
        calls_since(before, after)[3] == filled_read(header),
        calls_since(before, after)[4] == filled_read(payload),
        reply_of(header_fields(header).0, payload) is Ok,
    ensures
        result is Ok,
        after.connected,
        after.events == before.events.push(Event::Close).push(Event::Open { opened: true }).push(
            Event::Write {
                data: frame_bytes(0, payload_bytes(handshake_document(before.client_id))),
                written: true,
            },
        ).push(filled_read(header)).push(filled_read(payload)),
{
    let (closed, ignored) = choose|closed: SessionState, ignored: Result<(), Failure>|
        #[trigger] closes(before, closed, ignored) && connects(closed, after, result);
    lemma_connect_on_a_serving_transport(closed, after, result, header, payload);
}

/// `reconnect` where no transport accepts, from any state: the close that
/// it starts with does not fail it, and it fails with `ConnectionFailed`,
/// the failure of the open, leaving the session disconnected.
pub proof fn lemma_reconnect_without_a_transport(
    before: SessionState,
    after: SessionState,
    result: Result<(), Failure>,
)
    requires
        reconnects(before, after, result),
        calls_since(before, after).len() >= 2,
        calls_since(before, after)[1] == (Event::Open { opened: false }),
    ensures
        result == Err::<(), Failure>(Failure::ConnectionFailed),
        !after.connected,
        after.events == before.events.push(Event::Close).push(Event::Open { opened: false }).push(
            Event::Close,
        ),
{
    let (closed, ignored) = choose|closed: SessionState, ignored: Result<(), Failure>|
        #[trigger] closes(before, closed, ignored) && connects(closed, after, result);
    lemma_connect_without_a_transport(closed, after, result);
}

/// A client of the IPC channel.
///
/// A transport gives the methods without a body: how to open, write, read
/// and close the byte channel, and the client id. The protocol on top of
/// them is the same for every transport, and is proved for every transport
/// that keeps the contracts of those methods.
pub trait DiscordIpc {
    /// The session as contracts see it. It is read in contracts only and
    /// never called when the program runs.
    spec fn view(&self) -> SessionState;

    /// The client id that the session was made with.
    fn get_client_id(&self) -> (client_id: &String)
        ensures
            client_id@ == self@.client_id,
    ;

    /// Opens the transport. Success leaves the session connected.
    fn connect_ipc(&mut self) -> (opened: Result<(), Error>)
        ensures
            final(self)@.client_id == old(self)@.client_id,
            final(self)@.events == old(self)@.events.push(Event::Open { opened: opened is Ok }),
            opened is Ok ==> final(self)@.connected,
    ;

    /// Writes all of `data` to the transport, or fails. It takes none of the
    /// bytes that are still to be read; an answer to the write may follow
    /// them.
    fn write(&mut self, data: &[u8]) -> (written: Result<(), Error>)
        ensures
            final(self)@.client_id == old(self)@.client_id,
            final(self)@.connected == old(self)@.connected,
            old(self)@.incoming.is_prefix_of(final(self)@.incoming),
            final(self)@.events == old(self)@.events.push(
                Event::Write { data: data@, written: written is Ok },
            ),
    ;

    /// Fills `buffer` with the next bytes of the transport, or fails. It
    /// succeeds only if the transport supplies as many bytes as the buffer
    /// holds.
    fn read(&mut self, buffer: &mut [u8]) -> (filled: Result<(), Error>)
        ensures
            final(buffer)@.len() == old(buffer)@.len(),
            final(self)@.client_id == old(self)@.client_id,
            final(self)@.connected == old(self)@.connected,
            final(self)@.events == old(self)@.events.push(
                if filled is Ok {
                    filled_read(final(buffer)@)
                } else {
                    failed_read(old(buffer)@.len())
                },
            ),
            filled is Ok ==> {
                &&& old(buffer)@.len() <= old(self)@.incoming.len()
                &&& final(buffer)@ == old(self)@.incoming.take(old(buffer)@.len() as int)
                &&& final(self)@.incoming == old(self)@.incoming.skip(old(buffer)@.len() as int)
            },
    ;

    /// Releases the transport, as far as that can be done, and succeeds: on
    /// a connected session and on one that is disconnected already. The
    /// session is disconnected afterwards.
    fn close(&mut self) -> (closed: Result<(), Error>)
        ensures
            closes(old(self)@, final(self)@, outcome(closed)),
    ;

    /// Opens the transport and makes the handshake.
    ///
    /// Fails with `ConnectionFailed` where the transport cannot be opened,
    /// and with the handshake's failure where that fails. A failed call
    /// leaves the session disconnected.
    fn connect(&mut self) -> (connected: Result<(), Error>)
        ensures
            connects(old(self)@, final(self)@, outcome(connected)),
    {
        match self.connect_ipc() {
            Ok(()) => {},
            Err(_) => {
                let _ = self.close();
                return Err(Error::ConnectionFailed);
            },
        }
        let ghost opened = self@;
        match self.send_handshake() {
            Ok(()) => {
                assert(shakes_hands(opened, self@, Ok::<(), Failure>(())));
                Ok(())
            },
            Err(e) => {
                let ghost greeted = self@;
                let _ = self.close();
                assert(shakes_hands(opened, greeted, Err::<(), Failure>(e@)));
                Err(e)
            },
        }
    }

    /// Closes the session, whether or not it was connected, and connects it
    /// again. Nothing of the earlier connection is carried over: after the
    /// close, the call does what `connect` does.
    fn reconnect(&mut self) -> (connected: Result<(), Error>)
        ensures
            reconnects(old(self)@, final(self)@, outcome(connected)),
    {
        let closed = self.close();
        let ghost between = self@;
        let connected = self.connect();
        assert(closes(old(self)@, between, outcome(closed)));
        assert(connects(between, self@, outcome(connected)));
        connected
    }

    /// Sends the handshake and receives the reply to it.
    ///
    /// The reply's content is not validated: only an error reply, or a reply
    /// that cannot be read or decoded, fails the handshake.
    fn send_handshake(&mut self) -> (greeted: Result<(), Error>)
        ensures
            shakes_hands(old(self)@, final(self)@, outcome(greeted)),
    {
        let data = handshake_payload(self.get_client_id().as_str());
        match self.send(data, OPCODE_HANDSHAKE) {
            Ok(()) => {},
            Err(e) => { return Err(e); },
        }
        let ghost sent = self@;
        match self.recv() {
            Ok(reply) => {
                assert(receives(sent, self@, reply_view(Ok(reply))));
                Ok(())
            },
            Err(e) => {
                assert(receives(sent, self@, reply_view(Err(e))));
                Err(e)
            },
        }
    }

    /// Sends a document as one frame with the given opcode: the header and
    /// the payload go to the transport in a single write.
    ///
    /// Fails with `WriteFailed` where the transport fails the write, and,
    /// without writing, where the payload is longer than the header's 32 bits
    /// can say.
    fn send(&mut self, data: serde_json::Value, opcode: u32) -> (sent: Result<(), Error>)
        ensures
            sends(old(self)@, final(self)@, outcome(sent), opcode, json_model(data)),
    {
        let data_string: String = to_text(&data);
        let payload: &[u8] = data_string.as_str().as_bytes();
        if payload.len() > 0xffff_ffff {
            return Err(Error::WriteFailed);
        }
        let bytes: Vec<u8> = frame(opcode, payload);
        match self.write(bytes.as_slice()) {
            Ok(()) => Ok(()),
            Err(_) => Err(Error::WriteFailed),
        }
    }

    /// Receives one frame: reads the eight bytes of the header, then as many
    /// bytes as the header declares, and decodes them.
    ///
    /// Fails with `ReadFailed` where the transport cannot supply the bytes,
    /// with `DecodeFailed` where the payload is not UTF-8 or not JSON, and
    /// with `RemoteProtocolError` where the document is an error reply.
    fn recv(&mut self) -> (reply: Result<(u32, serde_json::Value), Error>)
        ensures
            receives(old(self)@, final(self)@, reply_view(reply)),
    {
        let mut header: Vec<u8> = vec![0u8; HEADER_LEN];
        match self.read(header.as_mut_slice()) {
            Ok(()) => {},
            Err(_) => { return Err(Error::ReadFailed); },
        }
        let ghost incoming = old(self)@.incoming;
        assert(header@ =~= incoming.subrange(0, 8));
        let (opcode, length) = match unpack(header) {
            Ok(fields) => fields,
            Err(e) => { return Err(e); },
        };
        assert(incoming.subrange(0, 8).subrange(0, 4) =~= incoming.subrange(0, 4));
        assert(incoming.subrange(0, 8).subrange(4, 8) =~= incoming.subrange(4, 8));
        let mut data: Vec<u8> = vec![0u8; length as usize];
        match self.read(data.as_mut_slice()) {
            Ok(()) => {},
            Err(_) => { return Err(Error::ReadFailed); },
        }
        assert(data@ =~= incoming.subrange(8, frame_len(incoming)));
        assert(self@.incoming =~= incoming.skip(frame_len(incoming)));
        decode_reply(opcode, data)
    }

    /// Sets the activity shown for the process `pid`: sends the command with
    /// opcode 1 and a fresh nonce. No reply is awaited.
    fn set_activity(&mut self, activity_payload: Activity, pid: u32) -> (sent: Result<(), Error>)
        ensures
            exists|nonce: Seq<char>|
                {
                    &&& is_nonce(nonce)
                    &&& #[trigger] sends(
                        old(self)@,
                        final(self)@,
                        outcome(sent),
                        1,
                        command_document(pid, activity_payload.document(), nonce),
                    )
                },
    {
        let nonce: String = fresh_nonce();
        let data = command_payload(pid, activity_payload.to_json(), nonce.as_str());
        let sent = self.send(data, OPCODE_FRAME);
        assert(sends(
            old(self)@,
            self@,
            outcome(sent),
            1,
            command_document(pid, activity_payload.document(), nonce@),
        ));
        sent
    }

    /// Clears the activity shown for the process `pid`: the same command with
    /// `null` for the activity.
    fn clear_activity(&mut self, pid: u32) -> (sent: Result<(), Error>)
        ensures
            exists|nonce: Seq<char>|
                {
                    &&& is_nonce(nonce)
                    &&& #[trigger] sends(
                        old(self)@,
                        final(self)@,
                        outcome(sent),
                        1,
                        command_document(pid, JsonValue::Null, nonce),
                    )
                },
    {
        let nonce: String = fresh_nonce();
        let data = command_payload(pid, null_value(), nonce.as_str());
        let sent = self.send(data, OPCODE_FRAME);
        assert(sends(
            old(self)@,
            self@,
            outcome(sent),
            1,
            command_document(pid, JsonValue::Null, nonce@),
        ));
        sent
    }
}

} // verus!
