//! Frames on a WebTransport stream: four bytes of length, two bytes of header
//! length, the header, then raw data. Numbers are big-endian.

use crate::text::{decimal, decimal_text, join_text};
use vstd::prelude::*;
use vstd::slice::slice_to_vec;
use vstd::string::*;

verus! {

/// The longest frame that is read, in bytes after the length.
pub const MAX_FRAME: u32 = 10_485_760;

/// Two big-endian bytes.
pub open spec fn be16(n: int) -> Seq<u8> {
    seq![((n / 256) % 256) as u8, (n % 256) as u8]
}

/// Four big-endian bytes.
pub open spec fn be32(n: int) -> Seq<u8> {
    seq![
        ((n / 16777216) % 256) as u8,
        ((n / 65536) % 256) as u8,
        ((n / 256) % 256) as u8,
        (n % 256) as u8,
    ]
}

/// The number that big-endian bytes write.
pub open spec fn be_value(bytes: Seq<u8>) -> int
    decreases bytes.len(),
{
    if bytes.len() == 0 {
        0
    } else {
        be_value(bytes.drop_last()) * 256 + bytes.last()
    }
}

proof fn lemma_be16(n: int)
    requires
        0 <= n < 65536,
    ensures
        be_value(be16(n)) == n,
{
    reveal_with_fuel(be_value, 3);
    let b = be16(n);
    assert(b.drop_last().drop_last() =~= Seq::<u8>::empty());
}

proof fn lemma_be32(n: int)
    requires
        0 <= n < 0x1_0000_0000,
    ensures
        be_value(be32(n)) == n,
{
    reveal_with_fuel(be_value, 5);
    let b = be32(n);
    assert(b.drop_last().drop_last().drop_last().drop_last() =~= Seq::<u8>::empty());
}

fn be_number(bytes: &Vec<u8>) -> (n: u32)
    requires
        bytes@.len() <= 4,
    ensures
        n == be_value(bytes@),
{
    let mut n: u64 = 0;
    let mut i: usize = 0;
    let ghost mut bound: int = 1;
    assert(bytes@.take(0) == Seq::<u8>::empty());
    while i < bytes.len()
        invariant
            bytes@.len() <= 4,
            i <= bytes@.len(),
            n == be_value(bytes@.take(i as int)),
            bound == (if i == 0 {
                1int
            } else if i == 1 {
                256
            } else if i == 2 {
                65536
            } else if i == 3 {
                16777216
            } else {
                4294967296
            }),
            n < bound,
        decreases bytes@.len() - i,
    {
        proof {
            assert(bytes@.take(i + 1).drop_last() == bytes@.take(i as int));
            assert(bytes@.take(i + 1).last() == bytes@[i as int]);
            bound = bound * 256;
        }
        n = n * 256 + bytes[i] as u64;
        i = i + 1;
    }
    assert(bytes@.take(bytes@.len() as int) == bytes@);
    n as u32
}

// ---------------------------------------------------------------------------
// Reading
// ---------------------------------------------------------------------------

/// How far the reading of a frame has come.
#[derive(Debug)]
pub enum FrameState {
    AwaitLength,
    AwaitJsonLength { length: u32 },
    AwaitJson { length: u32, json_len: u32 },
    AwaitData { length: u32, json: Vec<u8> },
    Finished,
}

/// What the stream gave.
#[derive(Debug)]
pub enum FrameEvent {
    /// Exactly the bytes that were asked for.
    Bytes(Vec<u8>),
    Failed(String),
}

/// What to do next to read a frame.
#[derive(Debug)]
pub enum FrameAction {
    /// Read exactly so many bytes.
    Read { count: u32 },
    Done { json: Vec<u8>, data: Vec<u8> },
    Fail(String),
    /// The frame is read already; nothing changes.
    Ignore,
}

/// A state is one that reading can be in.
pub open spec fn frame_state_ok(state: FrameState) -> bool {
    match state {
        FrameState::AwaitJsonLength { length } => 2 <= length <= MAX_FRAME,
        FrameState::AwaitJson { length, json_len } => 2 + json_len <= length <= MAX_FRAME,
        FrameState::AwaitData { length, json } => 2 + json@.len() <= length <= MAX_FRAME,
        _ => true,
    }
}

/// How many bytes a state waits for.
pub open spec fn frame_wants(state: FrameState) -> int {
    match state {
        FrameState::AwaitLength => 4,
        FrameState::AwaitJsonLength { .. } => 2,
        FrameState::AwaitJson { json_len, .. } => json_len as int,
        FrameState::AwaitData { length, json } => length - 2 - json@.len(),
        FrameState::Finished => 0,
    }
}

/// What is said where the stream fails.
pub open spec fn frame_failure(state: FrameState) -> Seq<char> {
    match state {
        FrameState::AwaitLength => "read length: "@,
        FrameState::AwaitJsonLength { .. } => "read json length: "@,
        FrameState::AwaitJson { .. } => "read json payload: "@,
        _ => "read data payload: "@,
    }
}

/// Whether a step ends in the given error.
pub open spec fn frame_fails(next: FrameState, action: FrameAction, message: Seq<char>) -> bool {
    &&& next is Finished
    &&& action matches FrameAction::Fail(e)
    &&& e@ == message
}

/// Whether a step ends with the given frame.
pub open spec fn frame_done(
    next: FrameState,
    action: FrameAction,
    header: Seq<u8>,
    rest: Seq<u8>,
) -> bool {
    &&& next is Finished
    &&& action matches FrameAction::Done { json, data }
    &&& json@ == header
    &&& data@ == rest
}

/// One step in the reading of a frame. The length counts what follows it: from
/// two bytes to ten megabytes; the header must fit in it; the rest is data.
pub open spec fn frame_step(
    state: FrameState,
    event: FrameEvent,
    next: FrameState,
    action: FrameAction,
) -> bool {
    match event {
        FrameEvent::Failed(e) => if state is Finished {
            next is Finished && action is Ignore
        } else {
            frame_fails(next, action, frame_failure(state) + e@)
        },
        FrameEvent::Bytes(bytes) => match state {
            FrameState::AwaitLength => {
                let n = be_value(bytes@);
                if n < 2 || n > MAX_FRAME {
                    frame_fails(next, action, "invalid frame length: "@ + decimal(n as nat))
                } else {
                    &&& next == (FrameState::AwaitJsonLength { length: n as u32 })
                    &&& action == (FrameAction::Read { count: 2 })
                }
            },
            FrameState::AwaitJsonLength { length } => {
                let n = be_value(bytes@);
                if n + 2 > length {
                    frame_fails(next, action, "invalid json length: "@ + decimal(n as nat))
                } else {
                    &&& next == (FrameState::AwaitJson { length, json_len: n as u32 })
                    &&& action == (FrameAction::Read { count: n as u32 })
                }
            },
            FrameState::AwaitJson { length, json_len } => {
                let rest = length - 2 - json_len;
                if rest == 0 {
                    frame_done(next, action, bytes@, Seq::empty())
                } else {
                    &&& next matches FrameState::AwaitData { length: l, json }
                    &&& l == length
                    &&& json@ == bytes@
                    &&& action == (FrameAction::Read { count: rest as u32 })
                }
            },
            FrameState::AwaitData { json, .. } => frame_done(next, action, json@, bytes@),
            FrameState::Finished => next is Finished && action is Ignore,
        },
    }
}

/// Goes one step in the reading of a frame.
pub fn read_frame(state: FrameState, event: FrameEvent) -> (r: (FrameState, FrameAction))
    requires
        frame_state_ok(state),
        event matches FrameEvent::Bytes(bytes) ==> bytes@.len() == frame_wants(state),
    ensures
        frame_step(state, event, r.0, r.1),
        frame_state_ok(r.0),
        r.1 matches FrameAction::Read { count } ==> count == frame_wants(r.0),
{
    match event {
        FrameEvent::Failed(e) => {
            let message = match &state {
                FrameState::AwaitLength => join_text("read length: ", e.as_str()),
                FrameState::AwaitJsonLength { .. } => join_text("read json length: ", e.as_str()),
                FrameState::AwaitJson { .. } => join_text("read json payload: ", e.as_str()),
                FrameState::AwaitData { .. } => join_text("read data payload: ", e.as_str()),
                FrameState::Finished => {
                    return (FrameState::Finished, FrameAction::Ignore);
                },
            };
            (FrameState::Finished, FrameAction::Fail(message))
        },
        FrameEvent::Bytes(bytes) => match state {
            FrameState::AwaitLength => {
                let length: u32 = be_number(&bytes);
                if length < 2 || length > MAX_FRAME {
                    let message = join_text(
                        "invalid frame length: ",
                        decimal_text(length as u64).as_str(),
                    );
                    (FrameState::Finished, FrameAction::Fail(message))
                } else {
                    (FrameState::AwaitJsonLength { length }, FrameAction::Read { count: 2 })
                }
            },
            FrameState::AwaitJsonLength { length } => {
                let json_len: u32 = be_number(&bytes);
                if json_len > length - 2 {
                    let message = join_text(
                        "invalid json length: ",
                        decimal_text(json_len as u64).as_str(),
                    );
                    (FrameState::Finished, FrameAction::Fail(message))
                } else {
                    (
                        FrameState::AwaitJson { length, json_len },
                        FrameAction::Read { count: json_len },
                    )
                }
            },
            FrameState::AwaitJson { length, json_len } => {
                let rest: u32 = length - 2 - json_len;
                if rest == 0 {
                    (
                        FrameState::Finished,
                        FrameAction::Done { json: bytes, data: Vec::new() },
                    )
                } else {
                    (
                        FrameState::AwaitData { length, json: bytes },
                        FrameAction::Read { count: rest },
                    )
                }
            },
            FrameState::AwaitData { json, .. } => (
                FrameState::Finished,
                FrameAction::Done { json, data: bytes },
            ),
            FrameState::Finished => (FrameState::Finished, FrameAction::Ignore),
        },
    }
}

// ---------------------------------------------------------------------------
// Writing
// ---------------------------------------------------------------------------

/// A frame as bytes. Lengths that do not fit keep their low bits.
pub open spec fn frame_bytes(json: Seq<u8>, data: Seq<u8>) -> Seq<u8> {
    be32((2 + json.len() + data.len()) as int) + be16(json.len() as int) + json + data
}

/// Writes a frame.
pub fn build_frame(json: &[u8], data: &[u8]) -> (frame: Vec<u8>)
    requires
        2 + json@.len() + data@.len() <= usize::MAX,
    ensures
        frame@ == frame_bytes(json@, data@),
{
    let total: usize = 2 + json.len() + data.len();
    let n: usize = json.len();
    let mut frame: Vec<u8> = Vec::new();
    frame.push(((total / 16777216) % 256) as u8);
    frame.push(((total / 65536) % 256) as u8);
    frame.push(((total / 256) % 256) as u8);
    frame.push((total % 256) as u8);
    frame.push(((n / 256) % 256) as u8);
    frame.push((n % 256) as u8);
    assert(frame@ =~= be32(total as int) + be16(n as int));
    let mut head = slice_to_vec(json);
    frame.append(&mut head);
    let mut body = slice_to_vec(data);
    frame.append(&mut body);
    assert(frame@ =~= frame_bytes(json@, data@));
    frame
}

/// One step of a reader.
pub struct FrameStep {
    pub state: FrameState,
    pub event: FrameEvent,
    pub next: FrameState,
    pub action: FrameAction,
}

/// Whether a row of steps reads a stream from its start, without a gap.
pub open spec fn reads_stream(steps: Seq<FrameStep>, stream: Seq<u8>) -> bool {
    &&& steps.len() > 0 ==> steps[0].state is AwaitLength
    &&& forall|i: int|
        0 <= i < steps.len() ==> {
            let step = #[trigger] steps[i];
            frame_step(step.state, step.event, step.next, step.action)
        }
    &&& forall|i: int, j: int|
        0 <= i < steps.len() && j == i + 1 && j < steps.len() ==> (#[trigger] steps[j]).state == (
        #[trigger] steps[i]).next
    &&& forall|i: int|
        0 <= i < steps.len() ==> ((#[trigger] steps[i]).event matches FrameEvent::Bytes(bytes)
            && bytes@ == stream.subrange(
            consumed(steps, i),
            consumed(steps, i) + frame_wants(steps[i].state),
        ))
}

/// How many bytes of the stream the first steps have used.
pub open spec fn consumed(steps: Seq<FrameStep>, n: int) -> int
    decreases n,
{
    if n <= 0 {
        0
    } else {
        consumed(steps, n - 1) + frame_wants(steps[n - 1].state)
    }
}

/// A frame that was written reads back as it was: after the third step where it
/// holds no data, after the fourth where it does.
pub proof fn law_frame_round_trip(
    json: Seq<u8>,
    data: Seq<u8>,
    more: Seq<u8>,
    steps: Seq<FrameStep>,
)
    requires
        json.len() < 65536,
        2 + json.len() + data.len() <= MAX_FRAME,
        steps.len() == (if data.len() == 0 {
            3int
        } else {
            4
        }),
        reads_stream(steps, frame_bytes(json, data) + more),
    ensures
        frame_done(steps.last().next, steps.last().action, json, data),
        consumed(steps, steps.len() as int) == frame_bytes(json, data).len(),
{
    let frame = frame_bytes(json, data);
    let stream = frame + more;
    let h = json.len() as int;
    let total = 2 + json.len() + data.len();
    reveal_with_fuel(consumed, 5);
    lemma_be32(total as int);
    lemma_be16(json.len() as int);
    let s0 = steps[0];
    assert(stream.subrange(0, 4) =~= be32(total as int));
    assert(s0.next == FrameState::AwaitJsonLength { length: total as u32 });
    let s1 = steps[1];
    assert(s1.state == s0.next);
    assert(stream.subrange(4, 6) =~= be16(json.len() as int));
    assert(s1.next == FrameState::AwaitJson { length: total as u32, json_len: json.len() as u32 });
    let s2 = steps[2];
    assert(s2.state == s1.next);
    assert(stream.subrange(6, 6 + h) =~= json);
    if data.len() == 0 {
        assert(data =~= Seq::<u8>::empty());
    } else {
        let s3 = steps[3];
        assert(s3.state == s2.next);
        assert(stream.subrange(6 + h, 6 + h + data.len()) =~= data);
    }
}

// ---------------------------------------------------------------------------
// Headers
// ---------------------------------------------------------------------------

/// The header of a response.
#[derive(Debug)]
pub struct ResponseHeader {
    pub id: String,
    pub command: String,
    pub status: String,
    pub chunk_index: Option<u64>,
    pub message: Option<String>,
}

/// Whether a header announces a chunk.
pub open spec fn announces_chunk(
    header: ResponseHeader,
    id: Seq<char>,
    command: Seq<char>,
    chunk_index: u64,
) -> bool {
    &&& header.id@ == id
    &&& header.command@ == command
    &&& header.status@ == "success"@
    &&& header.chunk_index == Some(chunk_index)
    &&& header.message is None
}

/// Whether a header reports an error.
pub open spec fn reports_error(
    header: ResponseHeader,
    id: Seq<char>,
    command: Seq<char>,
    text: Seq<char>,
) -> bool {
    &&& header.id@ == id
    &&& header.command@ == command
    &&& header.status@ == "error"@
    &&& header.chunk_index is None
    &&& header.message matches Some(message)
    &&& message@ == text
}

/// The header of a response with a chunk.
pub fn chunk_header(id: &str, command: &str, chunk_index: u64) -> (header: ResponseHeader)
    ensures
        announces_chunk(header, id@, command@, chunk_index),
{
    ResponseHeader {
        id: id.to_owned(),
        command: command.to_owned(),
        status: "success".to_owned(),
        chunk_index: Some(chunk_index),
        message: None,
    }
}

/// The header of a response with an error.
pub fn error_header(id: &str, command: &str, message: String) -> (header: ResponseHeader)
    ensures
        reports_error(header, id@, command@, message@),
{
    ResponseHeader {
        id: id.to_owned(),
        command: command.to_owned(),
        status: "error".to_owned(),
        chunk_index: None,
        message: Some(message),
    }
}

/// Numbers are written with the highest byte first.
pub proof fn law_numbers_are_big_endian(n: int)
    ensures
        0 <= n < 65536 ==> be16(n).len() == 2 && n == 256 * be16(n)[0] + be16(n)[1],
        0 <= n < 0x1_0000_0000 ==> be32(n).len() == 4 && n == 16777216 * be32(n)[0] + 65536
            * be32(n)[1] + 256 * be32(n)[2] + be32(n)[3],
{
}

/// A frame is laid out so: four bytes with the length of all that follows them, two
/// with the length of the header, the header, the data.
pub proof fn law_frame_layout(json: Seq<u8>, data: Seq<u8>)
    requires
        json.len() < 65536,
        2 + json.len() + data.len() < 0x1_0000_0000,
    ensures
        ({
            let frame = frame_bytes(json, data);
            let h = json.len() as int;
            &&& frame.len() == 6 + json.len() + data.len()
            &&& 16777216 * frame[0] + 65536 * frame[1] + 256 * frame[2] + frame[3] == frame.len()
                - 4
            &&& 256 * frame[4] + frame[5] == json.len()
            &&& frame.subrange(6, 6 + h) == json
            &&& frame.skip(6 + h) == data
        }),
{
    let total = 2 + json.len() + data.len();
    law_numbers_are_big_endian(total as int);
    law_numbers_are_big_endian(json.len() as int);
    let frame = frame_bytes(json, data);
    let h = json.len() as int;
    assert(frame[0] == be32(total as int)[0]);
    assert(frame[1] == be32(total as int)[1]);
    assert(frame[2] == be32(total as int)[2]);
    assert(frame[3] == be32(total as int)[3]);
    assert(frame[4] == be16(h)[0]);
    assert(frame[5] == be16(h)[1]);
    assert(frame.subrange(6, 6 + h) =~= json);
    assert(frame.skip(6 + h) =~= data);
}

/// A frame is read on exactly if its length is at least two bytes and at most ten
/// mebibytes, and its header fits in it; otherwise it is refused, and the number is
/// told. So many bytes are asked for as the lengths leave.
pub proof fn law_frame_lengths_are_checked(
    state: FrameState,
    bytes: Vec<u8>,
    next: FrameState,
    action: FrameAction,
)
    requires
        frame_step(state, FrameEvent::Bytes(bytes), next, action),
        frame_state_ok(state),
        bytes@.len() == frame_wants(state),
    ensures
        state is AwaitLength ==> ({
            let n = 16777216 * bytes@[0] + 65536 * bytes@[1] + 256 * bytes@[2] + bytes@[3];
            if 2 <= n <= 10_485_760 {
                &&& next == (FrameState::AwaitJsonLength { length: n as u32 })
                &&& action == (FrameAction::Read { count: 2 })
            } else {
                &&& next is Finished
                &&& action matches FrameAction::Fail(e)
                &&& e@ == "invalid frame length: "@ + decimal(n as nat)
            }
        }),
        state matches FrameState::AwaitJsonLength { length } ==> ({
            let n = 256 * bytes@[0] + bytes@[1];
            if n <= length - 2 {
                &&& next == (FrameState::AwaitJson { length, json_len: n as u32 })
                &&& action == (FrameAction::Read { count: n as u32 })
            } else {
                &&& next is Finished
                &&& action matches FrameAction::Fail(e)
                &&& e@ == "invalid json length: "@ + decimal(n as nat)
            }
        }),
        state matches FrameState::AwaitJson { length, json_len } ==> if length == 2 + json_len {
            &&& next is Finished
            &&& action matches FrameAction::Done { json, data }
            &&& json@ == bytes@
            &&& data@.len() == 0
        } else {
            &&& next matches FrameState::AwaitData { length: l, json }
            &&& l == length
            &&& json@ == bytes@
            &&& action == (FrameAction::Read { count: (length - 2 - json_len) as u32 })
        },
        state matches FrameState::AwaitData { json: header, .. } ==> {
            &&& next is Finished
            &&& action matches FrameAction::Done { json, data }
            &&& json@ == header@
            &&& data@ == bytes@
        },
{
    reveal_with_fuel(be_value, 5);
    if state is AwaitLength {
        let b = bytes@;
        assert(b.drop_last().drop_last().drop_last().drop_last() =~= Seq::<u8>::empty());
        assert(be_value(b) == 16777216 * b[0] + 65536 * b[1] + 256 * b[2] + b[3]);
    } else if state is AwaitJsonLength {
        let b = bytes@;
        assert(b.drop_last().drop_last() =~= Seq::<u8>::empty());
        assert(be_value(b) == 256 * b[0] + b[1]);
    }
}

/// A stream that fails ends the reading, and it is told at which part of the frame.
pub proof fn law_failing_stream_is_told(
    state: FrameState,
    why: String,
    next: FrameState,
    action: FrameAction,
)
    requires
        frame_step(state, FrameEvent::Failed(why), next, action),
        !(state is Finished),
    ensures
        next is Finished,
        action matches FrameAction::Fail(e) && match state {
            FrameState::AwaitLength => e@ == "read length: "@ + why@,
            FrameState::AwaitJsonLength { .. } => e@ == "read json length: "@ + why@,
            FrameState::AwaitJson { .. } => e@ == "read json payload: "@ + why@,
            _ => e@ == "read data payload: "@ + why@,
        },
{
}

/// A header says one of two things: that a chunk is there, with its number and no
/// message, or that there was an error, with a message and no number. It carries the
/// id and the command that it answers.
pub proof fn law_headers_say_one_thing(
    header: ResponseHeader,
    id: Seq<char>,
    command: Seq<char>,
    chunk_index: u64,
    text: Seq<char>,
)
    ensures
        announces_chunk(header, id, command, chunk_index) <==> header.id@ == id && header.command@
            == command && header.status@ == "success"@ && header.chunk_index == Some(chunk_index)
            && header.message is None,
        reports_error(header, id, command, text) <==> header.id@ == id && header.command@
            == command && header.status@ == "error"@ && header.chunk_index is None && (
        header.message matches Some(message) && message@ == text),
        !(announces_chunk(header, id, command, chunk_index) && reports_error(
            header,
            id,
            command,
            text,
        )),
{
}

/// A frame that was read, or failed, stays so whatever comes.
pub proof fn law_read_frame_is_done(
    state: FrameState,
    event: FrameEvent,
    next: FrameState,
    action: FrameAction,
)
    requires
        frame_step(state, event, next, action),
    ensures
        state is Finished ==> next is Finished && action is Ignore,
{
}

} // verus!
