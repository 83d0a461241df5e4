//! What the node does with a WebTransport stream: one request, one response.

use crate::cache::{lookup, Caches, CachesView, ReceivedMap, SessionMap, UploadMap};
use crate::download_manager::{
    carries_on, completes, counted_down, descrease_chunk_count, has_budget, is_readable, well_keyed,
};
use crate::ethereum::{chunk_reply, handle_download_request, DownloadStep};
use crate::frame::{
    announces_chunk, chunk_header, error_header, frame_state_ok, frame_step, frame_wants,
    read_frame, reports_error, FrameAction, FrameEvent, FrameState, ResponseHeader,
};
use crate::models::{DownloadChunkPayload, UploadChunkPayload, CHUNK_SIZE};
use crate::storage::{
    bin_path, has_levels, joined, keeps_chunk, key_has_levels, key_path,
    law_full_chunk_reads_back, law_last_chunk_reads_back, read_back, read_place, write_chunk,
    written, WritePlan,
};
use crate::text::{decimal, join_text, same_text, strip_0x, texts, without_0x};
use crate::tracker::{
    completes_share, is_duplicate, noted, received_of, share_is_countable, share_size, track_chunk,
};
use vstd::prelude::*;
use vstd::slice::slice_to_vec;
use vstd::string::*;

verus! {

/// The command in every response to a chunk request.
pub open spec fn chunk_command() -> Seq<char> {
    "chunk_response"@
}

// ---------------------------------------------------------------------------
// Reading a request
// ---------------------------------------------------------------------------

/// A request, without its payload.
#[derive(Debug)]
pub struct WtRequest {
    pub id: String,
    pub command: String,
}

/// Asks for a chunk under a download key.
#[derive(Debug)]
pub struct WtDownloadPayload {
    pub download_key: String,
    pub chunk_index: u64,
    pub signature: String,
}

/// How far a stream has come.
#[derive(Debug)]
pub enum StreamState {
    Reading(FrameState),
    Parsing { data: Vec<u8> },
    Finished,
}

/// What happened on a stream.
#[derive(Debug)]
pub enum StreamEvent {
    Frame(FrameEvent),
    /// The header as a request, or why it is none.
    Parsed(Result<WtRequest, String>),
}

/// What to do next on a stream.
#[derive(Debug)]
pub enum StreamAction {
    /// Read exactly so many bytes.
    Read { count: u32 },
    /// Read a request from the header.
    Parse { json: Vec<u8> },
    /// Answer with an error, and that is all.
    Reply(ResponseHeader),
    Download { id: String },
    Upload { id: String, data: Vec<u8> },
    /// The event does not belong here; nothing changes.
    Ignore,
}

/// Whether a step answers with an error and ends.
pub open spec fn stream_fails(
    next: StreamState,
    action: StreamAction,
    id: Seq<char>,
    command: Seq<char>,
    text: Seq<char>,
) -> bool {
    &&& next is Finished
    &&& action matches StreamAction::Reply(header)
    &&& reports_error(header, id, command, text)
}

/// Whether a step follows from a step of the frame reader.
pub open spec fn stream_follows(
    inner: FrameState,
    read: FrameAction,
    next: StreamState,
    action: StreamAction,
) -> bool {
    match read {
        FrameAction::Read { count } => {
            &&& next == StreamState::Reading(inner)
            &&& action == (StreamAction::Read { count })
        },
        FrameAction::Done { json, data } => {
            &&& next == (StreamState::Parsing { data })
            &&& action == (StreamAction::Parse { json })
        },
        FrameAction::Fail(e) => stream_fails(next, action, ""@, ""@, "frame_read_error: "@ + e@),
        FrameAction::Ignore => next == StreamState::Reading(inner) && action is Ignore,
    }
}

/// Whether a step sends a request where its command says.
pub open spec fn dispatches(
    request: WtRequest,
    data: Vec<u8>,
    next: StreamState,
    action: StreamAction,
) -> bool {
    if request.command@ == "download_chunk"@ {
        next is Finished && action == (StreamAction::Download { id: request.id })
    } else if request.command@ == "upload_chunk"@ {
        next is Finished && action == (StreamAction::Upload { id: request.id, data })
    } else {
        stream_fails(next, action, request.id@, request.command@, "unsupported command"@)
    }
}

/// One step on a stream: a frame is read, its header is a request, and the
/// command of the request decides who handles it.
pub open spec fn stream_step(
    state: StreamState,
    event: StreamEvent,
    next: StreamState,
    action: StreamAction,
) -> bool {
    match (state, event) {
        (StreamState::Reading(frame), StreamEvent::Frame(read)) => exists|
            inner: FrameState,
            step: FrameAction,
        |
            {
                &&& #[trigger] frame_step(frame, read, inner, step)
                &&& stream_follows(inner, step, next, action)
            },
        (StreamState::Parsing { data }, StreamEvent::Parsed(parsed)) => match parsed {
            Err(e) => stream_fails(next, action, ""@, ""@, "invalid_json: "@ + e@),
            Ok(request) => dispatches(request, data, next, action),
        },
        _ => next == state && action is Ignore,
    }
}

/// Whether a stream is in a state that it can be in.
pub open spec fn stream_state_ok(state: StreamState) -> bool {
    state matches StreamState::Reading(frame) ==> frame_state_ok(frame)
}

/// Goes one step on a stream.
pub fn handle_stream(state: StreamState, event: StreamEvent) -> (r: (StreamState, StreamAction))
    requires
        stream_state_ok(state),
        match (state, event) {
            (
                StreamState::Reading(frame),
                StreamEvent::Frame(FrameEvent::Bytes(bytes)),
            ) => bytes@.len() == frame_wants(frame),
            _ => true,
        },
    ensures
        stream_step(state, event, r.0, r.1),
        stream_state_ok(r.0),
        r.1 matches StreamAction::Read { count } ==> (r.0 matches StreamState::Reading(frame)
            && count == frame_wants(frame)),
{
    match (state, event) {
        (StreamState::Reading(frame), StreamEvent::Frame(read)) => {
            let (inner, step) = read_frame(frame, read);
            let ghost inner_now = inner;
            let ghost step_now = step;
            let r = match step {
                FrameAction::Read { count } => (
                    StreamState::Reading(inner),
                    StreamAction::Read { count },
                ),
                FrameAction::Done { json, data } => (
                    StreamState::Parsing { data },
                    StreamAction::Parse { json },
                ),
                FrameAction::Fail(e) => (
                    StreamState::Finished,
                    StreamAction::Reply(
                        error_header("", "", join_text("frame_read_error: ", e.as_str())),
                    ),
                ),
                FrameAction::Ignore => (StreamState::Reading(inner), StreamAction::Ignore),
            };
            assert(stream_follows(inner_now, step_now, r.0, r.1));
            r
        },
        (StreamState::Parsing { data }, StreamEvent::Parsed(parsed)) => {
            match parsed {
                Err(e) => (
                    StreamState::Finished,
                    StreamAction::Reply(
                        error_header("", "", join_text("invalid_json: ", e.as_str())),
                    ),
                ),
                Ok(request) => {
                    if same_text(request.command.as_str(), "download_chunk") {
                        (StreamState::Finished, StreamAction::Download { id: request.id })
                    } else if same_text(request.command.as_str(), "upload_chunk") {
                        (StreamState::Finished, StreamAction::Upload { id: request.id, data })
                    } else {
                        (
                            StreamState::Finished,
                            StreamAction::Reply(
                                error_header(
                                    request.id.as_str(),
                                    request.command.as_str(),
                                    "unsupported command".to_owned(),
                                ),
                            ),
                        )
                    }
                },
            }
        },
        (state, _) => (state, StreamAction::Ignore),
    }
}

// ---------------------------------------------------------------------------
// A download
// ---------------------------------------------------------------------------

/// How far a download of a chunk has come.
#[derive(Debug)]
pub enum WtDownloadState {
    Start,
    AwaitVerify { payload: WtDownloadPayload },
    AwaitRead { download_key: String, chunk_index: u64 },
    AwaitSend { download_key: String },
    Finished,
}

/// What happened while a chunk is downloaded.
#[derive(Debug)]
pub enum WtDownloadEvent {
    /// The payload of the request, or why there is none.
    Payload(Result<WtDownloadPayload, String>),
    /// Whether the request may go on.
    Verified(Result<bool, String>),
    /// What was read from disk, if anything.
    ChunkRead(Option<Vec<u8>>),
    /// Whether the response went out.
    Sent(bool),
}

/// What to do next while a chunk is downloaded.
#[derive(Debug)]
pub enum WtDownloadAction {
    Verify { payload: DownloadChunkPayload },
    Read { file_key: String, offset: u64, limit: u64 },
    /// Answer with an error, and that is all.
    Reply(ResponseHeader),
    Send { header: ResponseHeader, data: Vec<u8> },
    /// Close the stream; a complete download is to be confirmed.
    Close { should_confirm: bool },
    Stop,
    /// The event does not belong here; nothing changes.
    Ignore,
}

/// Whether a step answers with an error and ends.
pub open spec fn download_fails(
    next: WtDownloadState,
    action: WtDownloadAction,
    id: Seq<char>,
    text: Seq<char>,
) -> bool {
    &&& next is Finished
    &&& action matches WtDownloadAction::Reply(header)
    &&& reports_error(header, id, chunk_command(), text)
}

/// Whether a request that may go on is looked up: its session names the file and
/// must have a chunk left.
pub open spec fn looks_up(
    id: Seq<char>,
    payload: WtDownloadPayload,
    sessions: SessionMap,
    next: WtDownloadState,
    action: WtDownloadAction,
) -> bool {
    match lookup(sessions, payload.download_key@) {
        None => download_fails(next, action, id, "session not found after verify"@),
        Some(session) => if !has_budget(session) {
            download_fails(next, action, id, "No remaining downloads for this key"@)
        } else {
            &&& next == (WtDownloadState::AwaitRead {
                download_key: payload.download_key,
                chunk_index: payload.chunk_index,
            })
            &&& action matches WtDownloadAction::Read { file_key, offset, limit }
            &&& file_key@ == session.file_key
            &&& (offset as nat, limit as nat) == read_place(payload.chunk_index)
        },
    }
}

/// One step of a download. A chunk is counted once it has gone out.
pub open spec fn wt_download_step(
    id: Seq<char>,
    state: WtDownloadState,
    event: WtDownloadEvent,
    before: SessionMap,
    after: SessionMap,
    next: WtDownloadState,
    action: WtDownloadAction,
) -> bool {
    match (state, event) {
        (WtDownloadState::Start, WtDownloadEvent::Payload(parsed)) => {
            &&& after == before
            &&& match parsed {
                Err(e) => download_fails(next, action, id, "invalid payload: "@ + e@),
                Ok(request) => {
                    &&& next == (WtDownloadState::AwaitVerify { payload: request })
                    &&& action matches WtDownloadAction::Verify { payload }
                    &&& payload.file_key@ == ""@
                    &&& payload.download_key@ == request.download_key@
                    &&& payload.chunk_index == request.chunk_index
                    &&& payload.signature@ == request.signature@
                },
            }
        },
        (WtDownloadState::AwaitVerify { payload }, WtDownloadEvent::Verified(verdict)) => {
            &&& after == before
            &&& match verdict {
                Err(e) => download_fails(next, action, id, e@),
                Ok(false) => download_fails(next, action, id, "verification failed"@),
                Ok(true) => looks_up(id, payload, before, next, action),
            }
        },
        (
            WtDownloadState::AwaitRead { download_key, chunk_index },
            WtDownloadEvent::ChunkRead(read),
        ) => {
            &&& after == before
            &&& match read {
                None => download_fails(next, action, id, "Chunk data not found"@),
                Some(chunk) => {
                    &&& next == (WtDownloadState::AwaitSend { download_key })
                    &&& action matches WtDownloadAction::Send { header, data }
                    &&& announces_chunk(header, id, chunk_command(), chunk_index)
                    &&& data == chunk
                },
            }
        },
        (WtDownloadState::AwaitSend { download_key }, WtDownloadEvent::Sent(sent)) => {
            &&& next is Finished
            &&& if !sent {
                after == before && action is Stop
            } else {
                match lookup(before, download_key@) {
                    Some(session) if has_budget(session) => {
                        &&& after == before.insert(download_key@, counted_down(session))
                        &&& action == (WtDownloadAction::Close {
                            should_confirm: completes(session),
                        })
                    },
                    _ => {
                        &&& after == before
                        &&& action == (WtDownloadAction::Close { should_confirm: false })
                    },
                }
            }
        },
        _ => after == before && next == state && action is Ignore,
    }
}

fn download_error(id: &str, message: String) -> (r: (WtDownloadState, WtDownloadAction))
    ensures
        download_fails(r.0, r.1, id@, message@),
{
    (
        WtDownloadState::Finished,
        WtDownloadAction::Reply(error_header(id, "chunk_response", message)),
    )
}

/// Whether the chunk that a request is about to read has a place in a file.
pub open spec fn read_fits(
    sessions: SessionMap,
    state: WtDownloadState,
    event: WtDownloadEvent,
) -> bool {
    match (state, event) {
        (
            WtDownloadState::AwaitVerify { payload },
            WtDownloadEvent::Verified(Ok(true)),
        ) => is_readable(sessions, payload.download_key@, payload.chunk_index),
        _ => true,
    }
}

/// Goes one step in a download.
pub fn handle_download_chunk(
    caches: &mut Caches,
    id: &str,
    state: WtDownloadState,
    event: WtDownloadEvent,
) -> (r: (WtDownloadState, WtDownloadAction))
    requires
        read_fits(old(caches)@.sessions, state, event),
    ensures
        wt_download_step(
            id@,
            state,
            event,
            old(caches)@.sessions,
            final(caches)@.sessions,
            r.0,
            r.1,
        ),
        final(caches)@ == (CachesView { sessions: final(caches)@.sessions, ..old(caches)@ }),
{
    match (state, event) {
        (WtDownloadState::Start, WtDownloadEvent::Payload(parsed)) => {
            match parsed {
                Err(e) => download_error(id, join_text("invalid payload: ", e.as_str())),
                Ok(request) => {
                    let payload = DownloadChunkPayload {
                        file_key: "".to_owned(),
                        download_key: request.download_key.clone(),
                        chunk_index: request.chunk_index,
                        signature: request.signature.clone(),
                    };
                    (
                        WtDownloadState::AwaitVerify { payload: request },
                        WtDownloadAction::Verify { payload },
                    )
                },
            }
        },
        (WtDownloadState::AwaitVerify { payload }, WtDownloadEvent::Verified(verdict)) => {
            match verdict {
                Err(e) => download_error(id, e),
                Ok(false) => download_error(id, "verification failed".to_owned()),
                Ok(true) => match caches.session(payload.download_key.as_str()) {
                    None => download_error(id, "session not found after verify".to_owned()),
                    Some(session) => {
                        let request = DownloadChunkPayload {
                            file_key: session.file_key,
                            download_key: payload.download_key.clone(),
                            chunk_index: payload.chunk_index,
                            signature: payload.signature.clone(),
                        };
                        match handle_download_request(caches, &request) {
                            DownloadStep::Answer(response) => download_error(id, response.message),
                            DownloadStep::Read { offset, limit } => (
                                WtDownloadState::AwaitRead {
                                    download_key: payload.download_key,
                                    chunk_index: payload.chunk_index,
                                },
                                WtDownloadAction::Read {
                                    file_key: request.file_key,
                                    offset,
                                    limit,
                                },
                            ),
                        }
                    },
                },
            }
        },
        (
            WtDownloadState::AwaitRead { download_key, chunk_index },
            WtDownloadEvent::ChunkRead(read),
        ) => {
            match chunk_reply(read) {
                (_, Some(data)) => (
                    WtDownloadState::AwaitSend { download_key },
                    WtDownloadAction::Send {
                        header: chunk_header(id, "chunk_response", chunk_index),
                        data,
                    },
                ),
                (response, None) => download_error(id, response.message),
            }
        },
        (WtDownloadState::AwaitSend { download_key }, WtDownloadEvent::Sent(sent)) => {
            if !sent {
                (WtDownloadState::Finished, WtDownloadAction::Stop)
            } else {
                let should_confirm = match descrease_chunk_count(caches, download_key.as_str()) {
                    Ok(count) => count.should_confirm,
                    Err(_) => false,
                };
                (WtDownloadState::Finished, WtDownloadAction::Close { should_confirm })
            }
        },
        (state, _) => (state, WtDownloadAction::Ignore),
    }
}

/// A download that ends before a chunk was sent is answered with an error, under
/// the request's own id.
pub proof fn law_refused_download_is_answered(
    id: Seq<char>,
    state: WtDownloadState,
    event: WtDownloadEvent,
    before: SessionMap,
    after: SessionMap,
    next: WtDownloadState,
    action: WtDownloadAction,
)
    requires
        wt_download_step(id, state, event, before, after, next, action),
        next is Finished,
        !(state is AwaitSend) && !(state is Finished),
    ensures
        after == before,
        action matches WtDownloadAction::Reply(header) && header.message matches Some(message)
            && reports_error(header, id, chunk_command(), message@),
{
}

/// No chunk is read for a request unless it was verified, and none is counted
/// unless it has gone out.
pub proof fn law_downloads_are_verified_and_sent(
    id: Seq<char>,
    state: WtDownloadState,
    event: WtDownloadEvent,
    before: SessionMap,
    after: SessionMap,
    next: WtDownloadState,
    action: WtDownloadAction,
)
    requires
        wt_download_step(id, state, event, before, after, next, action),
    ensures
        action is Read ==> state is AwaitVerify && event == WtDownloadEvent::Verified(Ok(true)),
        after != before ==> state is AwaitSend && event == WtDownloadEvent::Sent(true),
{
}

// ---------------------------------------------------------------------------
// An upload
// ---------------------------------------------------------------------------

/// How far an upload of a chunk has come.
#[derive(Debug)]
pub enum WtUploadState {
    Start,
    /// The chunk that is being verified, and where it goes.
    AwaitVerify { file_key: String, chunk_index: u64, data: Vec<u8> },
    AwaitWrite { file_key: String, chunk_index: u64 },
    AwaitAck { file_key: String, chunk_index: u64 },
    Finished,
}

/// What happened while a chunk is uploaded.
#[derive(Debug)]
pub enum WtUploadEvent {
    /// The payload of the request, or why there is none.
    Payload(Result<UploadChunkPayload, String>),
    /// Whether the chunk may be kept.
    Verified(Result<(), String>),
    /// Whether the chunk is on disk.
    Written(bool),
    /// The response went out, or was lost.
    Acked,
}

/// What to do next while a chunk is uploaded.
#[derive(Debug)]
pub enum WtUploadAction {
    Verify { payload: UploadChunkPayload, data: Vec<u8> },
    /// Write the chunk that was verified as planned.
    Write { plan: WritePlan, data: Vec<u8> },
    Acknowledge(ResponseHeader),
    /// Answer and stop; close the stream first where that is asked.
    Reply { header: ResponseHeader, close: bool },
    /// Close the stream; a file whose share is complete is to be confirmed.
    Close { complete: Option<String> },
    /// The event does not belong here; nothing changes.
    Ignore,
}

/// Whether a step answers with an error and ends.
pub open spec fn upload_fails(
    next: WtUploadState,
    action: WtUploadAction,
    id: Seq<char>,
    text: Seq<char>,
    closing: bool,
) -> bool {
    &&& next is Finished
    &&& action matches WtUploadAction::Reply { header, close }
    &&& reports_error(header, id, chunk_command(), text)
    &&& close == closing
}

/// Whether two payloads are the same but for the file key.
pub open spec fn same_chunk(a: UploadChunkPayload, b: UploadChunkPayload) -> bool {
    &&& a.chunk_index == b.chunk_index
    &&& a.signature@ == b.signature@
    &&& texts(a.merkle_proof_hashes@) == texts(b.merkle_proof_hashes@)
    &&& a.merkle_root@ == b.merkle_root@
}

/// Whether a chunk has a place on disk.
pub open spec fn has_place(file_key: Seq<char>, chunk_index: u64) -> bool {
    has_levels(file_key) && chunk_index * CHUNK_SIZE <= u64::MAX
}

/// One step of an upload. File keys lose their prefix; a chunk that is there
/// already is acknowledged at once; a chunk without a place on disk counts as one
/// that could not be written.
pub open spec fn wt_upload_step(
    id: Seq<char>,
    chunk_data: Seq<u8>,
    storage_root: Seq<char>,
    uploads: UploadMap,
    state: WtUploadState,
    event: WtUploadEvent,
    before: ReceivedMap,
    after: ReceivedMap,
    next: WtUploadState,
    action: WtUploadAction,
) -> bool {
    match (state, event) {
        (WtUploadState::Start, WtUploadEvent::Payload(parsed)) => {
            &&& after == before
            &&& match parsed {
                Err(e) => upload_fails(next, action, id, "invalid payload: "@ + e@, false),
                Ok(request) => {
                    let key = without_0x(request.file_key@);
                    if chunk_data.len() == 0 {
                        upload_fails(next, action, id, "chunk data is empty"@, false)
                    } else if received_of(before, key).contains(request.chunk_index) {
                        &&& next is Finished
                        &&& action matches WtUploadAction::Reply { header, close }
                        &&& announces_chunk(header, id, chunk_command(), request.chunk_index)
                        &&& !close
                    } else {
                        &&& next matches WtUploadState::AwaitVerify {
                            file_key,
                            chunk_index,
                            data: kept,
                        }
                        &&& file_key@ == key
                        &&& chunk_index == request.chunk_index
                        &&& kept@ == chunk_data
                        &&& action matches WtUploadAction::Verify { payload, data }
                        &&& payload.file_key@ == key
                        &&& data@ == chunk_data
                        &&& same_chunk(payload, request)
                    }
                },
            }
        },
        (
            WtUploadState::AwaitVerify { file_key, chunk_index, data: verified },
            WtUploadEvent::Verified(verdict),
        ) => {
            &&& after == before
            &&& match verdict {
                Err(e) => upload_fails(next, action, id, e@, true),
                Ok(_) => if has_place(file_key@, chunk_index) {
                    &&& next == (WtUploadState::AwaitWrite { file_key, chunk_index })
                    &&& action matches WtUploadAction::Write { plan, data }
                    &&& keeps_chunk(plan, storage_root, file_key@, chunk_index, CHUNK_SIZE)
                    &&& data@ == verified@
                } else {
                    upload_fails(next, action, id, "disk write error"@, true)
                },
            }
        },
        (WtUploadState::AwaitWrite { file_key, chunk_index }, WtUploadEvent::Written(ok)) => {
            &&& after == before
            &&& if ok {
                &&& next == (WtUploadState::AwaitAck { file_key, chunk_index })
                &&& action matches WtUploadAction::Acknowledge(header)
                &&& announces_chunk(header, id, chunk_command(), chunk_index)
            } else {
                upload_fails(next, action, id, "disk write error"@, true)
            }
        },
        (WtUploadState::AwaitAck { file_key, chunk_index }, WtUploadEvent::Acked) => {
            &&& after == noted(uploads, before, file_key@, chunk_index)
            &&& next is Finished
            &&& action matches WtUploadAction::Close { complete }
            &&& match complete {
                Some(key) => key@ == file_key@ && completes_share(
                    uploads,
                    before,
                    file_key@,
                    chunk_index,
                ),
                None => !completes_share(uploads, before, file_key@, chunk_index),
            }
        },
        _ => after == before && next == state && action is Ignore,
    }
}

fn upload_error(id: &str, message: String, close: bool) -> (r: (WtUploadState, WtUploadAction))
    ensures
        upload_fails(r.0, r.1, id@, message@, close),
{
    (
        WtUploadState::Finished,
        WtUploadAction::Reply { header: error_header(id, "chunk_response", message), close },
    )
}

/// Goes one step in an upload.
pub fn handle_upload_chunk(
    caches: &mut Caches,
    id: &str,
    chunk_data: &[u8],
    storage_root: &str,
    state: WtUploadState,
    event: WtUploadEvent,
) -> (r: (WtUploadState, WtUploadAction))
    requires
        state matches WtUploadState::AwaitAck { file_key, chunk_index } ==> share_is_countable(
            old(caches)@.uploads,
            file_key@,
            chunk_index,
        ),
    ensures
        wt_upload_step(
            id@,
            chunk_data@,
            storage_root@,
            old(caches)@.uploads,
            state,
            event,
            old(caches)@.received,
            final(caches)@.received,
            r.0,
            r.1,
        ),
        final(caches)@ == (CachesView { received: final(caches)@.received, ..old(caches)@ }),
{
    match (state, event) {
        (WtUploadState::Start, WtUploadEvent::Payload(parsed)) => {
            match parsed {
                Err(e) => upload_error(id, join_text("invalid payload: ", e.as_str()), false),
                Ok(request) => {
                    let file_key = strip_0x(request.file_key.as_str());
                    let chunk_index: u64 = request.chunk_index;
                    if chunk_data.len() == 0 {
                        return upload_error(id, "chunk data is empty".to_owned(), false);
                    }
                    if is_duplicate(caches, file_key.as_str(), chunk_index) {
                        let header = chunk_header(id, "chunk_response", chunk_index);
                        return (
                            WtUploadState::Finished,
                            WtUploadAction::Reply { header, close: false },
                        );
                    }
                    let payload = UploadChunkPayload {
                        file_key: file_key.clone(),
                        chunk_index,
                        signature: request.signature,
                        merkle_proof_hashes: request.merkle_proof_hashes,
                        merkle_root: request.merkle_root,
                    };
                    (
                        WtUploadState::AwaitVerify {
                            file_key,
                            chunk_index,
                            data: slice_to_vec(chunk_data),
                        },
                        WtUploadAction::Verify { payload, data: slice_to_vec(chunk_data) },
                    )
                },
            }
        },
        (
            WtUploadState::AwaitVerify { file_key, chunk_index, data },
            WtUploadEvent::Verified(verdict),
        ) => {
            match verdict {
                Err(e) => upload_error(id, e, true),
                Ok(_) => {
                    if key_has_levels(file_key.as_str()) && chunk_index <= u64::MAX / CHUNK_SIZE {
                        let plan = write_chunk(storage_root, file_key.as_str(), chunk_index);
                        (
                            WtUploadState::AwaitWrite { file_key, chunk_index },
                            WtUploadAction::Write { plan, data },
                        )
                    } else {
                        upload_error(id, "disk write error".to_owned(), true)
                    }
                },
            }
        },
        (WtUploadState::AwaitWrite { file_key, chunk_index }, WtUploadEvent::Written(ok)) => {
            if ok {
                let header = chunk_header(id, "chunk_response", chunk_index);
                (
                    WtUploadState::AwaitAck { file_key, chunk_index },
                    WtUploadAction::Acknowledge(header),
                )
            } else {
                upload_error(id, "disk write error".to_owned(), true)
            }
        },
        (WtUploadState::AwaitAck { file_key, chunk_index }, WtUploadEvent::Acked) => {
            if track_chunk(caches, file_key.as_str(), chunk_index) {
                (WtUploadState::Finished, WtUploadAction::Close { complete: Some(file_key) })
            } else {
                (WtUploadState::Finished, WtUploadAction::Close { complete: None })
            }
        },
        (state, _) => (state, WtUploadAction::Ignore),
    }
}

/// An upload that ends before its chunk is on disk is answered, under the
/// request's own id: with an error, or with success where the chunk is there
/// already.
pub proof fn law_refused_upload_is_answered(
    id: Seq<char>,
    chunk_data: Seq<u8>,
    storage_root: Seq<char>,
    uploads: UploadMap,
    state: WtUploadState,
    event: WtUploadEvent,
    before: ReceivedMap,
    after: ReceivedMap,
    next: WtUploadState,
    action: WtUploadAction,
)
    requires
        wt_upload_step(
            id,
            chunk_data,
            storage_root,
            uploads,
            state,
            event,
            before,
            after,
            next,
            action,
        ),
        next is Finished,
        !(state is AwaitAck) && !(state is Finished),
    ensures
        after == before,
        action matches WtUploadAction::Reply { header, .. } && match header.message {
            Some(message) => reports_error(header, id, chunk_command(), message@),
            None => event matches WtUploadEvent::Payload(Ok(request)) && received_of(
                before,
                without_0x(request.file_key@),
            ).contains(request.chunk_index) && announces_chunk(
                header,
                id,
                chunk_command(),
                request.chunk_index,
            ),
        },
{
}

/// No chunk is written unless it was verified, and none is noted unless it was
/// written and acknowledged.
pub proof fn law_uploads_are_verified_and_written(
    id: Seq<char>,
    chunk_data: Seq<u8>,
    storage_root: Seq<char>,
    uploads: UploadMap,
    state: WtUploadState,
    event: WtUploadEvent,
    before: ReceivedMap,
    after: ReceivedMap,
    next: WtUploadState,
    action: WtUploadAction,
)
    requires
        wt_upload_step(
            id,
            chunk_data,
            storage_root,
            uploads,
            state,
            event,
            before,
            after,
            next,
            action,
        ),
    ensures
        action is Write ==> state is AwaitVerify && (event matches WtUploadEvent::Verified(verdict)
            && verdict is Ok),
        action is Acknowledge ==> state is AwaitWrite && event == WtUploadEvent::Written(true),
        after != before ==> state is AwaitAck && event is Acked,
{
}

/// One step that an upload took.
pub struct WtUploadStep {
    pub uploads: UploadMap,
    pub state: WtUploadState,
    pub event: WtUploadEvent,
    pub before: ReceivedMap,
    pub after: ReceivedMap,
    pub next: WtUploadState,
    pub action: WtUploadAction,
}

/// Whether a row of steps is one upload. Between them others may change what the
/// node keeps in memory.
pub open spec fn wt_upload_run(
    id: Seq<char>,
    chunk_data: Seq<u8>,
    storage_root: Seq<char>,
    run: Seq<WtUploadStep>,
) -> bool {
    &&& run.len() > 0 ==> run[0].state is Start
    &&& forall|i: int|
        0 <= i < run.len() ==> {
            let step = #[trigger] run[i];
            wt_upload_step(
                id,
                chunk_data,
                storage_root,
                step.uploads,
                step.state,
                step.event,
                step.before,
                step.after,
                step.next,
                step.action,
            )
        }
    &&& forall|i: int, j: int|
        0 <= i < run.len() && j == i + 1 && j < run.len() ==> (#[trigger] run[j]).state == (
        #[trigger] run[i]).next
}

/// Whether a step hands a chunk out to be verified.
pub open spec fn has_verified(
    step: WtUploadStep,
    chunk: Seq<u8>,
    file_key: Seq<char>,
    chunk_index: u64,
) -> bool {
    &&& step.action matches WtUploadAction::Verify { payload, data }
    &&& data@ == chunk
    &&& payload.file_key@ == file_key
    &&& payload.chunk_index == chunk_index
}

proof fn lemma_held_chunk_was_handed_out(
    id: Seq<char>,
    chunk_data: Seq<u8>,
    storage_root: Seq<char>,
    run: Seq<WtUploadStep>,
    j: int,
)
    requires
        wt_upload_run(id, chunk_data, storage_root, run),
        0 <= j < run.len(),
        run[j].state is AwaitVerify,
    ensures
        run[j].state matches WtUploadState::AwaitVerify { file_key, chunk_index, data } && data@
            == chunk_data && exists|i: int|
            0 <= i < j && has_verified(#[trigger] run[i], data@, file_key@, chunk_index),
    decreases j,
{
    let earlier = run[j - 1];
    assert(run[j].state == earlier.next);
    if earlier.state is AwaitVerify {
        lemma_held_chunk_was_handed_out(id, chunk_data, storage_root, run, j - 1);
    } else if let WtUploadState::AwaitVerify { file_key, chunk_index, data } = run[j].state {
        assert(has_verified(earlier, data@, file_key@, chunk_index));
    }
}

/// The bytes that are written are those that came in and were verified, and they go
/// where the verified payload says: before a chunk is written, the same bytes were
/// handed out to be verified, and the verdict was good.
pub proof fn law_written_bytes_were_verified(
    id: Seq<char>,
    chunk_data: Seq<u8>,
    storage_root: Seq<char>,
    run: Seq<WtUploadStep>,
    j: int,
)
    requires
        wt_upload_run(id, chunk_data, storage_root, run),
        0 <= j < run.len(),
        run[j].action is Write,
    ensures
        run[j].event matches WtUploadEvent::Verified(verdict) && verdict is Ok,
        match (run[j].state, run[j].action) {
            (
                WtUploadState::AwaitVerify { file_key, chunk_index, .. },
                WtUploadAction::Write { plan, data },
            ) => {
                &&& data@ == chunk_data
                &&& keeps_chunk(plan, storage_root, file_key@, chunk_index, CHUNK_SIZE)
                &&& exists|i: int|
                    0 <= i < j && has_verified(#[trigger] run[i], data@, file_key@, chunk_index)
            },
            _ => false,
        },
{
    lemma_held_chunk_was_handed_out(id, chunk_data, storage_root, run, j);
}

/// What a download reads is what an upload wrote: a full chunk, or the last one
/// of its file, comes out of the same file at the same place.
pub proof fn law_uploaded_chunk_is_downloaded(
    plan: WritePlan,
    storage_root: Seq<char>,
    key: Seq<char>,
    file: Seq<u8>,
    data: Seq<u8>,
    id: Seq<char>,
    payload: WtDownloadPayload,
    sessions: SessionMap,
    next: WtDownloadState,
    action: WtDownloadAction,
)
    requires
        keeps_chunk(plan, storage_root, key, payload.chunk_index, CHUNK_SIZE),
        data.len() == CHUNK_SIZE || (data.len() <= CHUNK_SIZE && file.len() <= plan.offset
            + data.len()),
        looks_up(id, payload, sessions, next, action),
        lookup(sessions, payload.download_key@) matches Some(session) && session.file_key == key
            && has_budget(session),
    ensures
        action matches WtDownloadAction::Read { file_key, offset, limit } && {
            &&& plan.bin_path@ == bin_path(storage_root, file_key@)
            &&& read_back(written(file, plan.offset as nat, data), offset as nat, limit as nat)
                == data
        },
{
    if data.len() == CHUNK_SIZE {
        law_full_chunk_reads_back(plan, storage_root, key, payload.chunk_index, file, data);
    } else {
        law_last_chunk_reads_back(plan, storage_root, key, payload.chunk_index, file, data);
    }
}

/// Sending a chunk keeps whose download each session is.
pub proof fn law_sending_carries_sessions_on(
    id: Seq<char>,
    state: WtDownloadState,
    event: WtDownloadEvent,
    before: SessionMap,
    after: SessionMap,
    next: WtDownloadState,
    action: WtDownloadAction,
)
    requires
        wt_download_step(id, state, event, before, after, next, action),
    ensures
        carries_on(before, after),
        well_keyed(before) ==> well_keyed(after),
{
}

/// A download whose every step goes well hands over the chunk that was asked for: the
/// request is verified as it came, the file is that of the session, its bytes are read
/// at the chunk's place, what was read goes out under the request's id and the chunk's
/// number, and then one chunk is taken off the session and no other.
pub proof fn law_chunk_goes_out(
    id: Seq<char>,
    request: WtDownloadPayload,
    chunk: Vec<u8>,
    sessions: Seq<SessionMap>,
    states: Seq<WtDownloadState>,
    actions: Seq<WtDownloadAction>,
)
    requires
        sessions.len() == 5 && states.len() == 5 && actions.len() == 4,
        states[0] is Start,
        wt_download_step(
            id,
            states[0],
            WtDownloadEvent::Payload(Ok(request)),
            sessions[0],
            sessions[1],
            states[1],
            actions[0],
        ),
        wt_download_step(
            id,
            states[1],
            WtDownloadEvent::Verified(Ok(true)),
            sessions[1],
            sessions[2],
            states[2],
            actions[1],
        ),
        wt_download_step(
            id,
            states[2],
            WtDownloadEvent::ChunkRead(Some(chunk)),
            sessions[2],
            sessions[3],
            states[3],
            actions[2],
        ),
        wt_download_step(
            id,
            states[3],
            WtDownloadEvent::Sent(true),
            sessions[3],
            sessions[4],
            states[4],
            actions[3],
        ),
        sessions[0].contains_key(request.download_key@),
        sessions[0][request.download_key@].remaining_chunks
            + sessions[0][request.download_key@].retry_remaining > 0,
    ensures
        actions[0] matches WtDownloadAction::Verify { payload } && payload.file_key@.len() == 0
            && payload.download_key@ == request.download_key@ && payload.chunk_index == request.chunk_index
            && payload.signature@ == request.signature@,
        actions[1] matches WtDownloadAction::Read { file_key, offset, limit } && file_key@
            == sessions[0][request.download_key@].file_key && offset == request.chunk_index
            * 1_048_576 && limit == 1_048_576,
        actions[2] matches WtDownloadAction::Send { header, data } && data@ == chunk@ && header.id@
            == id && header.command@ == "chunk_response"@ && header.status@ == "success"@
            && header.chunk_index == Some(request.chunk_index) && header.message is None,
        actions[3] == (WtDownloadAction::Close {
            should_confirm: sessions[0][request.download_key@].remaining_chunks == 1,
        }),
        sessions[3] == sessions[0],
        sessions[4].dom() == sessions[0].dom(),
        forall|key: Seq<char>|
            key != request.download_key@ && sessions[0].contains_key(key) ==> #[trigger] sessions[4][key]
                == sessions[0][key],
        sessions[4][request.download_key@].remaining_chunks
            + sessions[4][request.download_key@].retry_remaining + 1
            == sessions[0][request.download_key@].remaining_chunks
            + sessions[0][request.download_key@].retry_remaining,
        states[4] is Finished,
{
    reveal_strlit("");
    assert(sessions[4].dom() =~= sessions[0].dom());
}

/// What stands in the way of a download is told in words, under the request's id, and
/// nothing is read, sent or counted.
pub proof fn law_download_is_refused_in_words(
    id: Seq<char>,
    state: WtDownloadState,
    event: WtDownloadEvent,
    before: SessionMap,
    after: SessionMap,
    next: WtDownloadState,
    action: WtDownloadAction,
    words: Seq<char>,
)
    requires
        wt_download_step(id, state, event, before, after, next, action),
        match (state, event) {
            (WtDownloadState::Start, WtDownloadEvent::Payload(Err(e))) => words
                == "invalid payload: "@ + e@,
            (WtDownloadState::AwaitVerify { .. }, WtDownloadEvent::Verified(Err(e))) => words == e@,
            (WtDownloadState::AwaitVerify { .. }, WtDownloadEvent::Verified(Ok(false))) => words
                == "verification failed"@,
            (
                WtDownloadState::AwaitVerify { payload },
                WtDownloadEvent::Verified(Ok(true)),
            ) => if before.contains_key(payload.download_key@) {
                &&& before[payload.download_key@].remaining_chunks == 0
                &&& before[payload.download_key@].retry_remaining == 0
                &&& words == "No remaining downloads for this key"@
            } else {
                words == "session not found after verify"@
            },
            (WtDownloadState::AwaitRead { .. }, WtDownloadEvent::ChunkRead(None)) => words
                == "Chunk data not found"@,
            _ => false,
        },
    ensures
        next is Finished,
        after == before,
        action matches WtDownloadAction::Reply(header) && header.id@ == id && header.command@
            == "chunk_response"@ && header.status@ == "error"@ && header.chunk_index is None && (
        header.message matches Some(message) && message@ == words),
{
}

/// A response that was lost counts for nothing, and neither does one under a key whose
/// session is gone or used up by then; what happens out of turn changes nothing.
pub proof fn law_lost_download_counts_for_nothing(
    id: Seq<char>,
    state: WtDownloadState,
    event: WtDownloadEvent,
    before: SessionMap,
    after: SessionMap,
    next: WtDownloadState,
    action: WtDownloadAction,
)
    requires
        wt_download_step(id, state, event, before, after, next, action),
    ensures
        state is AwaitSend && event == WtDownloadEvent::Sent(false) ==> next is Finished && after
            == before && action is Stop,
        state matches WtDownloadState::AwaitSend { download_key } ==> (event
            == WtDownloadEvent::Sent(true) && (before.contains_key(download_key@)
            ==> before[download_key@].remaining_chunks == 0
            && before[download_key@].retry_remaining == 0) ==> next is Finished && after == before
            && action == (WtDownloadAction::Close { should_confirm: false })),
        !(state is Start && event is Payload) && !(state is AwaitVerify && event is Verified) && !(
        state is AwaitRead && event is ChunkRead) && !(state is AwaitSend && event is Sent)
            ==> next == state && after == before && action is Ignore,
{
}

/// An upload whose every step goes well keeps the chunk that came in: under the file
/// key without its prefix, the payload and the bytes are verified as they came, the
/// bytes that were verified are written at the chunk's place, the chunk is acknowledged
/// under the request's id, and only then is it noted.
pub proof fn law_chunk_comes_in(
    id: Seq<char>,
    chunk_data: Seq<u8>,
    storage_root: Seq<char>,
    request: UploadChunkPayload,
    uploads: UploadMap,
    received: Seq<ReceivedMap>,
    states: Seq<WtUploadState>,
    actions: Seq<WtUploadAction>,
    verdict: Result<(), String>,
)
    requires
        received.len() == 5 && states.len() == 5 && actions.len() == 4,
        states[0] is Start,
        verdict is Ok,
        chunk_data.len() > 0,
        !received_of(received[0], without_0x(request.file_key@)).contains(request.chunk_index),
        has_levels(without_0x(request.file_key@)),
        request.chunk_index * 1_048_576 <= u64::MAX,
        wt_upload_step(
            id,
            chunk_data,
            storage_root,
            uploads,
            states[0],
            WtUploadEvent::Payload(Ok(request)),
            received[0],
            received[1],
            states[1],
            actions[0],
        ),
        wt_upload_step(
            id,
            chunk_data,
            storage_root,
            uploads,
            states[1],
            WtUploadEvent::Verified(verdict),
            received[1],
            received[2],
            states[2],
            actions[1],
        ),
        wt_upload_step(
            id,
            chunk_data,
            storage_root,
            uploads,
            states[2],
            WtUploadEvent::Written(true),
            received[2],
            received[3],
            states[3],
            actions[2],
        ),
        wt_upload_step(
            id,
            chunk_data,
            storage_root,
            uploads,
            states[3],
            WtUploadEvent::Acked,
            received[3],
            received[4],
            states[4],
            actions[3],
        ),
    ensures
        ({
            let key = without_0x(request.file_key@);
            let index = request.chunk_index;
            let dir = key_path(storage_root, key);
            &&& actions[0] matches WtUploadAction::Verify { payload, data } && payload.file_key@
                == key && payload.chunk_index == index && payload.signature@ == request.signature@
                && payload.merkle_root@ == request.merkle_root@ && texts(
                payload.merkle_proof_hashes@,
            ) == texts(request.merkle_proof_hashes@) && data@ == chunk_data
            &&& actions[1] matches WtUploadAction::Write { plan, data } && data@ == chunk_data
                && plan.dir@ == dir && plan.bin_path@ == joined(dir, key + ".bin"@)
                && plan.meta_path@ == joined(dir, key + ".meta"@) && plan.offset == index
                * 1_048_576 && plan.meta_line@ == decimal(index as nat) + "\n"@
            &&& actions[2] matches WtUploadAction::Acknowledge(header) && header.id@ == id
                && header.command@ == "chunk_response"@ && header.status@ == "success"@
                && header.chunk_index == Some(index) && header.message is None
            &&& received[3] == received[0]
            &&& states[4] is Finished
            &&& !uploads.contains_key(key) ==> received[4] == received[0]
            &&& forall|other: Seq<char>|
                other != key ==> #[trigger] received_of(received[4], other) == received_of(
                    received[0],
                    other,
                )
            &&& uploads.contains_key(key) && action_is_open(actions[3]) ==> received_of(
                received[4],
                key,
            ) == received_of(received[0], key).insert(index)
            &&& actions[3] matches WtUploadAction::Close { complete } && (complete is Some <==> (
            uploads.contains_key(key) && received_of(received[0], key).insert(index).len()
                == share_size(uploads[key].total_chunks, index))) && (complete matches Some(name)
                ==> name@ == key && !received[4].contains_key(key))
        }),
{
}

/// Whether a stream is closed without its file being complete.
pub open spec fn action_is_open(action: WtUploadAction) -> bool {
    action matches WtUploadAction::Close { complete } && complete is None
}

/// What stands in the way of an upload is told in words, under the request's id, and
/// nothing is written or noted. A chunk that is there already is acknowledged without
/// being verified or written again.
pub proof fn law_upload_is_refused_in_words(
    id: Seq<char>,
    chunk_data: Seq<u8>,
    storage_root: Seq<char>,
    uploads: UploadMap,
    state: WtUploadState,
    event: WtUploadEvent,
    before: ReceivedMap,
    after: ReceivedMap,
    next: WtUploadState,
    action: WtUploadAction,
    words: Option<Seq<char>>,
)
    requires
        wt_upload_step(
            id,
            chunk_data,
            storage_root,
            uploads,
            state,
            event,
            before,
            after,
            next,
            action,
        ),
        match (state, event) {
            (WtUploadState::Start, WtUploadEvent::Payload(Err(e))) => words == Some(
                "invalid payload: "@ + e@,
            ),
            (WtUploadState::Start, WtUploadEvent::Payload(Ok(request))) => if chunk_data.len()
                == 0 {
                words == Some("chunk data is empty"@)
            } else {
                &&& before.contains_key(without_0x(request.file_key@))
                &&& before[without_0x(request.file_key@)].contains(request.chunk_index)
                &&& words is None
            },
            (WtUploadState::AwaitVerify { .. }, WtUploadEvent::Verified(Err(e))) => words == Some(
                e@,
            ),
            (
                WtUploadState::AwaitVerify { file_key, chunk_index, .. },
                WtUploadEvent::Verified(Ok(_)),
            ) => {
                &&& !has_levels(file_key@) || chunk_index * 1_048_576 > u64::MAX
                &&& words == Some("disk write error"@)
            },
            (WtUploadState::AwaitWrite { .. }, WtUploadEvent::Written(false)) => words == Some(
                "disk write error"@,
            ),
            _ => false,
        },
    ensures
        next is Finished,
        after == before,
        action matches WtUploadAction::Reply { header, close } && {
            &&& header.id@ == id
            &&& header.command@ == "chunk_response"@
            &&& close == !(state is Start)
            &&& match words {
                Some(text) => header.status@ == "error"@ && header.chunk_index is None && (
                header.message matches Some(message) && message@ == text),
                None => header.status@ == "success"@ && header.message is None && (
                event matches WtUploadEvent::Payload(Ok(request)) && header.chunk_index == Some(
                    request.chunk_index,
                )),
            }
        },
{
}

/// What happens to an upload out of turn changes nothing.
pub proof fn law_upload_ignores_strays(
    id: Seq<char>,
    chunk_data: Seq<u8>,
    storage_root: Seq<char>,
    uploads: UploadMap,
    state: WtUploadState,
    event: WtUploadEvent,
    before: ReceivedMap,
    after: ReceivedMap,
    next: WtUploadState,
    action: WtUploadAction,
)
    requires
        wt_upload_step(
            id,
            chunk_data,
            storage_root,
            uploads,
            state,
            event,
            before,
            after,
            next,
            action,
        ),
        !(state is Start && event is Payload),
        !(state is AwaitVerify && event is Verified),
        !(state is AwaitWrite && event is Written),
        !(state is AwaitAck && event is Acked),
    ensures
        next == state && after == before && action is Ignore,
{
}

/// A request goes where its command says, with its own id and the data of its frame;
/// a command that is not known, and a header that is no request, are answered with an
/// error.
pub proof fn law_requests_go_where_they_say(
    data: Vec<u8>,
    parsed: Result<WtRequest, String>,
    next: StreamState,
    action: StreamAction,
)
    requires
        stream_step(
            StreamState::Parsing { data },
            StreamEvent::Parsed(parsed),
            next,
            action,
        ),
    ensures
        next is Finished,
        parsed matches Ok(request) ==> {
            &&& request.command@ == "download_chunk"@ ==> action == (StreamAction::Download {
                id: request.id,
            })
            &&& request.command@ == "upload_chunk"@ ==> action == (StreamAction::Upload {
                id: request.id,
                data,
            })
            &&& request.command@ != "download_chunk"@ && request.command@ != "upload_chunk"@ ==> (
            action matches StreamAction::Reply(header) && header.id@ == request.id@
                && header.command@ == request.command@ && header.status@ == "error"@
                && header.chunk_index is None && (header.message matches Some(message) && message@
                == "unsupported command"@))
        },
        parsed matches Err(e) ==> (action matches StreamAction::Reply(header) && header.id@.len()
            == 0 && header.command@.len() == 0 && header.status@ == "error"@
            && header.chunk_index is None && (header.message matches Some(message) && message@
            == "invalid_json: "@ + e@)),
{
    reveal_strlit("");
    reveal_strlit("download_chunk");
    reveal_strlit("upload_chunk");
    assert("download_chunk"@.len() != "upload_chunk"@.len());
}

/// While its frame is read, a stream does what the frame asks; the header of a whole
/// frame is to be read as a request, its data is kept for it, and a frame that cannot
/// be read is answered with an error.
pub proof fn law_stream_reads_one_frame(
    frame: FrameState,
    read: FrameEvent,
    next: StreamState,
    action: StreamAction,
)
    requires
        stream_step(StreamState::Reading(frame), StreamEvent::Frame(read), next, action),
    ensures
        exists|inner: FrameState, step: FrameAction| #[trigger]
            frame_step(frame, read, inner, step) && match step {
                FrameAction::Read { count } => next == StreamState::Reading(inner) && action == (
                StreamAction::Read { count }),
                FrameAction::Done { json, data } => next == (StreamState::Parsing { data })
                    && action == (StreamAction::Parse { json }),
                FrameAction::Fail(e) => next is Finished && (action matches StreamAction::Reply(
                    header,
                ) && header.id@.len() == 0 && header.command@.len() == 0 && header.status@
                    == "error"@ && header.chunk_index is None && (header.message matches Some(
                    message,
                ) && message@ == "frame_read_error: "@ + e@)),
                FrameAction::Ignore => next == StreamState::Reading(inner) && action is Ignore,
            },
{
    reveal_strlit("");
    let (inner, step) = choose|inner: FrameState, step: FrameAction| #[trigger]
        frame_step(frame, read, inner, step) && stream_follows(inner, step, next, action);
    assert(frame_step(frame, read, inner, step));
}

/// What happens on a stream out of turn changes nothing.
pub proof fn law_stream_ignores_strays(
    state: StreamState,
    event: StreamEvent,
    next: StreamState,
    action: StreamAction,
)
    requires
        stream_step(state, event, next, action),
        !(state is Reading && event is Frame),
        !(state is Parsing && event is Parsed),
    ensures
        next == state && action is Ignore,
{
}

} // verus!
