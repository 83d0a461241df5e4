//! What the node does with a QUIC connection: requests are lines of JSON, each on
//! a stream of its own, and so are responses.

use crate::cache::{lookup, Caches, CachesView, SessionMap};
use crate::download_manager::{
    carries_on, completes, counted_down, descrease_chunk_count, has_budget, is_readable, well_keyed,
};
use crate::encoding::{base64_encode, base64_text};
use crate::ethereum::{chunk_reply, handle_download_request, DownloadStep};
use crate::listing::{
    ascending, chunk_indices, list_chunks, listing_entries, listing_error, newest_first, sort_logs,
    DirListing, LogFile,
};
use crate::models::{
    Command, DownloadChunkPayload, GenericResponse, GetLogContentPayload, ListChunksPayload,
    ListChunksResponse, LogFileContent, LogsContentResponse, LogsListResponse, UploadChunkPayload,
};
use crate::storage::{
    climbs, get_file_key_path, has_levels, is_absolute, join_path, joined, keeps_chunk,
    key_has_levels, key_path, law_plain_names_stay_inside, path_stays_inside, read_place,
    stays_inside, store_chunk, WritePlan, QUIC_CHUNK_STRIDE,
};
use crate::text::{
    all_white, decimal, decimal_text, from_utf8_lossy, is_white, join_text,
    law_trimming_takes_white_ends, trim_text, trimmed, utf8_lossy,
};
use vstd::prelude::*;
use vstd::string::*;
use vstd::utf8::{decode_utf8, valid_utf8};

verus! {

// ---------------------------------------------------------------------------
// Lines
// ---------------------------------------------------------------------------

/// The request in a received text, if there is any: the text without the white
/// space around it.
pub fn request_line(text: &str) -> (r: Option<String>)
    ensures
        match r {
            Some(line) => line@ == trimmed(text@) && trimmed(text@).len() > 0,
            None => trimmed(text@).len() == 0,
        },
{
    let line = trim_text(text);
    if line.as_str().is_empty() {
        None
    } else {
        Some(line)
    }
}

/// The line that carries a response.
pub open spec fn line_of(json: Seq<u8>) -> Seq<u8> {
    json.push(10u8)
}

/// A response is its JSON as it is, ended by one line feed.
pub proof fn law_line_is_json_and_feed(json: Seq<u8>)
    ensures
        line_of(json).len() == json.len() + 1,
        line_of(json).take(json.len() as int) == json,
        line_of(json)[json.len() as int] as char == '\n',
{
    assert(line_of(json).take(json.len() as int) =~= json);
}

/// The line that carries a response: its JSON, then a line feed.
pub fn response_line(json: Vec<u8>) -> (line: Vec<u8>)
    ensures
        line@ == json@.push(10u8),
        line@ == line_of(json@),
{
    let mut line = json;
    line.push(10);
    line
}

// ---------------------------------------------------------------------------
// Responses
// ---------------------------------------------------------------------------

/// The outcome of a chunk request, with the chunk in Base64.
#[derive(Debug)]
pub struct ChunkResponse {
    pub status: String,
    pub message: String,
    pub chunk_data_base64: Option<String>,
}

/// A response to a request.
#[derive(Debug)]
pub enum Response {
    Generic(GenericResponse),
    Download(ChunkResponse),
    ListChunks(ListChunksResponse),
    LogsList(LogsListResponse),
    LogsContent(LogsContentResponse),
}

/// Whether a response is a bare outcome with the given words.
pub open spec fn says(response: Response, status: Seq<char>, message: Seq<char>) -> bool {
    &&& response matches Response::Generic(generic)
    &&& generic.status@ == status
    &&& generic.message@ == message
}

/// Whether a response refuses a chunk request with the given words.
pub open spec fn refuses_chunk(response: Response, message: Seq<char>) -> bool {
    &&& response matches Response::Download(chunk)
    &&& chunk.status@ == "ERROR"@
    &&& chunk.message@ == message
    &&& chunk.chunk_data_base64 is None
}

/// Whether a response carries a chunk.
pub open spec fn carries_chunk(response: Response, data: Seq<u8>) -> bool {
    &&& response matches Response::Download(chunk)
    &&& chunk.status@ == "SUCCESS"@
    &&& chunk.message@.len() == 0
    &&& chunk.chunk_data_base64 matches Some(text)
    &&& text@ == base64_text(data)
}

fn say(status: &str, message: String) -> (response: Response)
    ensures
        says(response, status@, message@),
{
    Response::Generic(GenericResponse { status: status.to_owned(), message })
}

fn refuse_chunk(message: String) -> (response: ChunkResponse)
    ensures
        refuses_chunk(Response::Download(response), message@),
{
    ChunkResponse { status: "ERROR".to_owned(), message, chunk_data_base64: None }
}

/// Words the response to a read of a chunk, with the chunk in Base64.
pub fn encode_chunk(read: Option<Vec<u8>>) -> (response: ChunkResponse)
    ensures
        match read {
            Some(data) => carries_chunk(Response::Download(response), data@),
            None => refuses_chunk(Response::Download(response), "Chunk data not found"@),
        },
{
    match chunk_reply(read) {
        (response, Some(data)) => ChunkResponse {
            status: response.status,
            message: response.message,
            chunk_data_base64: Some(base64_encode(data.as_slice())),
        },
        (response, None) => ChunkResponse {
            status: response.status,
            message: response.message,
            chunk_data_base64: None,
        },
    }
}

// ---------------------------------------------------------------------------
// A connection
// ---------------------------------------------------------------------------

/// How far a connection has come.
#[derive(Clone, Copy, PartialEq, Eq, Structural, Debug)]
pub enum ConnectionState {
    AwaitStream,
    AwaitData,
    AwaitCommand,
    Closed,
}

/// What happened on a connection.
#[derive(Debug)]
pub enum ConnectionEvent {
    /// A stream was opened, or the connection is gone.
    Accepted(bool),
    /// What the stream gave, if anything.
    Received(Option<Vec<u8>>),
    /// The request as a command, or why it is none.
    Parsed(Result<Command, String>),
}

/// What to do next on a connection.
#[derive(Debug)]
pub enum ConnectionAction {
    /// Wait for the next stream.
    Accept,
    Receive,
    Parse { line: String },
    /// Answer, then wait for the next stream.
    Refuse(Response),
    /// Start a task for the command, then wait for the next stream.
    Spawn(Command),
    Stop,
    /// The event does not belong here; nothing changes.
    Ignore,
}

/// One step on a connection, given the text of what was received.
pub open spec fn connection_step(
    state: ConnectionState,
    event: ConnectionEvent,
    text: Seq<char>,
    next: ConnectionState,
    action: ConnectionAction,
) -> bool {
    match (state, event) {
        (ConnectionState::AwaitStream, ConnectionEvent::Accepted(ok)) => if ok {
            next is AwaitData && action is Receive
        } else {
            next is Closed && action is Stop
        },
        (ConnectionState::AwaitData, ConnectionEvent::Received(data)) => if data is None
            || trimmed(text).len() == 0 {
            next is AwaitStream && action is Accept
        } else {
            &&& next is AwaitCommand
            &&& action matches ConnectionAction::Parse { line }
            &&& line@ == trimmed(text)
        },
        (ConnectionState::AwaitCommand, ConnectionEvent::Parsed(parsed)) => {
            &&& next is AwaitStream
            &&& match parsed {
                Ok(command) => action == ConnectionAction::Spawn(command),
                Err(_) => {
                    &&& action matches ConnectionAction::Refuse(response)
                    &&& says(response, "ERROR"@, "Invalid command format"@)
                },
            }
        },
        _ => next == state && action is Ignore,
    }
}

/// The text of what an event received.
pub open spec fn received_text(event: ConnectionEvent) -> Seq<char> {
    match event {
        ConnectionEvent::Received(Some(data)) => utf8_lossy(data@),
        _ => Seq::empty(),
    }
}

/// Goes on with a received text: a request is to be read from it, or the next
/// stream is waited for.
pub fn take_text(text: &str) -> (r: (ConnectionState, ConnectionAction))
    ensures
        if trimmed(text@).len() == 0 {
            r.0 is AwaitStream && r.1 is Accept
        } else {
            &&& r.0 is AwaitCommand
            &&& r.1 matches ConnectionAction::Parse { line }
            &&& line@ == trimmed(text@)
        },
{
    match request_line(text) {
        None => (ConnectionState::AwaitStream, ConnectionAction::Accept),
        Some(line) => (ConnectionState::AwaitCommand, ConnectionAction::Parse { line }),
    }
}

/// Goes one step on a connection.
pub fn handle_connection(state: ConnectionState, event: ConnectionEvent) -> (r: (
    ConnectionState,
    ConnectionAction,
))
    ensures
        connection_step(state, event, received_text(event), r.0, r.1),
        event matches ConnectionEvent::Received(Some(data)) ==> (valid_utf8(data@)
            ==> connection_step(state, event, decode_utf8(data@), r.0, r.1)),
{
    match (state, event) {
        (ConnectionState::AwaitStream, ConnectionEvent::Accepted(ok)) => {
            if ok {
                (ConnectionState::AwaitData, ConnectionAction::Receive)
            } else {
                (ConnectionState::Closed, ConnectionAction::Stop)
            }
        },
        (ConnectionState::AwaitData, ConnectionEvent::Received(data)) => {
            match data {
                None => (ConnectionState::AwaitStream, ConnectionAction::Accept),
                Some(bytes) => {
                    let text = from_utf8_lossy(bytes.as_slice());
                    take_text(text.as_str())
                },
            }
        },
        (ConnectionState::AwaitCommand, ConnectionEvent::Parsed(parsed)) => {
            match parsed {
                Ok(command) => (ConnectionState::AwaitStream, ConnectionAction::Spawn(command)),
                Err(_) => (
                    ConnectionState::AwaitStream,
                    ConnectionAction::Refuse(say("ERROR", "Invalid command format".to_owned())),
                ),
            }
        },
        (state, _) => (state, ConnectionAction::Ignore),
    }
}

// ---------------------------------------------------------------------------
// A command
// ---------------------------------------------------------------------------

/// How far a command has come.
#[derive(Debug)]
#[allow(inconsistent_fields)]
pub enum TaskState {
    Start,
    UploadPermit { payload: UploadChunkPayload },
    UploadData { payload: UploadChunkPayload },
    /// The chunk that is being verified, and where it goes.
    UploadVerify { file_key: String, chunk_index: u64, data: Vec<u8> },
    UploadStore,
    DownloadPermit { payload: DownloadChunkPayload },
    DownloadVerify { payload: DownloadChunkPayload },
    DownloadRead { download_key: String },
    DownloadSend { download_key: String },
    Listing,
    LogList,
    LogProbe { file_name: String },
    LogRead { file_name: String },
    Finished,
}

/// What happened while a command is carried out.
#[derive(Debug)]
pub enum TaskEvent {
    Begin(Command),
    /// There is room for one more task, or the node shuts down.
    Permit(bool),
    /// The second message on the stream, if it came.
    ChunkReceived(Option<Vec<u8>>),
    /// Whether the uploaded chunk may be kept.
    UploadVerified(Result<(), String>),
    /// Whether the uploaded chunk is on disk.
    Stored(bool),
    /// Whether the chunk request may go on.
    DownloadVerified(Result<bool, String>),
    /// What was read from disk, if anything.
    ChunkRead(Option<Vec<u8>>),
    /// Whether the response went out.
    Sent(bool),
    Listed(DirListing),
    /// The log files there are.
    LogsListed(Result<Vec<LogFile>, String>),
    /// Whether there is a regular file at the path.
    Probed(bool),
    LogLoaded(Result<String, String>),
}

/// What to do next to carry a command out.
#[derive(Debug)]
#[allow(inconsistent_fields)]
pub enum TaskAction {
    Acquire,
    /// Wait for the second message on the stream.
    ReceiveChunk,
    VerifyUpload { payload: UploadChunkPayload, data: Vec<u8> },
    /// Write the chunk that was verified as planned.
    Store { plan: WritePlan, data: Vec<u8> },
    VerifyDownload { payload: DownloadChunkPayload },
    ReadChunk { file_key: String, offset: u64, limit: u64 },
    ListDir { path: String },
    ListLogs,
    Probe { path: String },
    LoadLog { path: String },
    /// Answer, and that is all.
    Reply(Response),
    /// Answer, and say whether that went well.
    Send(Response),
    /// Over; a complete download is to be confirmed.
    Done { should_confirm: bool },
    /// The event does not belong here; nothing changes.
    Ignore,
}

/// Whether a step ends with a bare outcome.
pub open spec fn task_says(
    next: TaskState,
    action: TaskAction,
    status: Seq<char>,
    message: Seq<char>,
) -> bool {
    &&& next is Finished
    &&& action matches TaskAction::Reply(response)
    &&& says(response, status, message)
}

/// Whether a step refuses a chunk request.
pub open spec fn task_refuses(next: TaskState, action: TaskAction, message: Seq<char>) -> bool {
    &&& next is Finished
    &&& action matches TaskAction::Reply(response)
    &&& refuses_chunk(response, message)
}

/// Whether an uploaded chunk has a place on disk.
pub open spec fn has_quic_place(file_key: Seq<char>, chunk_index: u64) -> bool {
    has_levels(file_key) && chunk_index * QUIC_CHUNK_STRIDE <= u64::MAX
}

/// Whether a step takes a command up. The chunk commands wait for room first; a
/// log file whose name leads out of the log directory is not looked for.
pub open spec fn takes_up(
    command: Command,
    storage_root: Seq<char>,
    log_dir: Seq<char>,
    next: TaskState,
    action: TaskAction,
) -> bool {
    match command {
        Command::UploadChunk { payload } => next == (TaskState::UploadPermit { payload })
            && action is Acquire,
        Command::DownloadChunkRequest { payload } => next == (TaskState::DownloadPermit { payload })
            && action is Acquire,
        Command::ListChunksRequest { payload } => {
            &&& next is Listing
            &&& action matches TaskAction::ListDir { path }
            &&& path@ == key_path(storage_root, payload.file_key@)
        },
        Command::GetLogList { .. } => next is LogList && action is ListLogs,
        Command::GetLogContent { payload } => {
            let target = joined(log_dir, payload.file_name@);
            if !stays_inside(target, log_dir) {
                log_missing(next, action, payload.file_name@)
            } else {
                &&& next == (TaskState::LogProbe { file_name: payload.file_name })
                &&& action matches TaskAction::Probe { path }
                &&& path@ == target
            }
        },
    }
}

/// Whether a step reports on a log file.
pub open spec fn log_reported(
    next: TaskState,
    action: TaskAction,
    status: Seq<char>,
    message: Seq<char>,
    content: Option<(Seq<char>, Seq<char>)>,
) -> bool {
    &&& next is Finished
    &&& action matches TaskAction::Reply(response)
    &&& response matches Response::LogsContent(logs)
    &&& logs.status@ == status
    &&& logs.message@ == message
    &&& match (logs.log_content, content) {
        (Some(file), Some((name, body))) => file.file_name@ == name && file.content@ == body,
        (None, None) => true,
        _ => false,
    }
}

/// Whether a step reports that there is no such log file.
pub open spec fn log_missing(next: TaskState, action: TaskAction, file_name: Seq<char>) -> bool {
    log_reported(
        next,
        action,
        "ERROR"@,
        "Error: File '"@ + file_name + "' not found or invalid."@,
        None,
    )
}

/// Whether a step reports the chunks in a directory.
pub open spec fn reports_chunks(listing: DirListing, next: TaskState, action: TaskAction) -> bool {
    match listing_error(listing) {
        Some(e) => task_says(next, action, "ERROR"@, e),
        None => {
            &&& next is Finished
            &&& action matches TaskAction::Reply(response)
            &&& response matches Response::ListChunks(chunks)
            &&& chunks.status@ == "SUCCESS"@
            &&& chunks.message@ == "Found "@ + decimal(chunks.chunk_indices@.len()) + " chunks"@
            &&& ascending(chunks.chunk_indices@)
            &&& chunks.chunk_indices@.to_multiset() == chunk_indices(
                listing_entries(listing),
            ).to_multiset()
        },
    }
}

/// Whether names are those of log files, the newest first.
pub open spec fn names_newest_first(names: Seq<String>, files: Seq<LogFile>) -> bool {
    exists|order: Seq<usize>| #[trigger]
        newest_first(order, files) && names.len() == order.len() && forall|k: int|
            0 <= k < order.len() ==> (#[trigger] names[k])@ == files[order[k] as int].name@
}

/// Whether a step reports the log files.
pub open spec fn reports_logs(
    listed: Result<Vec<LogFile>, String>,
    next: TaskState,
    action: TaskAction,
) -> bool {
    &&& next is Finished
    &&& action matches TaskAction::Reply(response)
    &&& response matches Response::LogsList(logs)
    &&& match listed {
        Err(e) => {
            &&& logs.status@ == "ERROR"@
            &&& logs.message@ == "Failed to read log directory: "@ + e@
            &&& logs.available_files@.len() == 0
        },
        Ok(files) => {
            &&& logs.status@ == "SUCCESS"@
            &&& logs.message@ == "Found "@ + decimal(files@.len()) + " log files."@
            &&& names_newest_first(logs.available_files@, files@)
        },
    }
}

/// Whether a chunk request that may go on is looked up.
pub open spec fn finds_chunk(
    payload: DownloadChunkPayload,
    sessions: SessionMap,
    next: TaskState,
    action: TaskAction,
) -> bool {
    let key = payload.download_key;
    match lookup(sessions, key@) {
        None => task_refuses(
            next,
            action,
            "Download session not found, please verify first."@,
        ),
        Some(session) => if !has_budget(session) {
            task_refuses(next, action, "No remaining downloads for this key"@)
        } else {
            &&& next == (TaskState::DownloadRead { download_key: key })
            &&& action matches TaskAction::ReadChunk { file_key, offset, limit }
            &&& file_key@ == session.file_key
            &&& (offset as nat, limit as nat) == read_place(payload.chunk_index)
        },
    }
}

/// One step in carrying a command out.
pub open spec fn task_step(
    storage_root: Seq<char>,
    log_dir: Seq<char>,
    state: TaskState,
    event: TaskEvent,
    before: SessionMap,
    after: SessionMap,
    next: TaskState,
    action: TaskAction,
) -> bool {
    match (state, event) {
        (TaskState::DownloadSend { download_key }, TaskEvent::Sent(sent)) => {
            &&& next is Finished
            &&& match lookup(before, download_key@) {
                Some(session) if sent && has_budget(session) => {
                    &&& after == before.insert(download_key@, counted_down(session))
                    &&& action == (TaskAction::Done { should_confirm: completes(session) })
                },
                _ => {
                    &&& after == before
                    &&& action == (TaskAction::Done { should_confirm: false })
                },
            }
        },
        _ => after == before && still_step(
            storage_root,
            log_dir,
            state,
            event,
            before,
            next,
            action,
        ),
    }
}

/// One step in carrying a command out that leaves the sessions as they are.
pub open spec fn still_step(
    storage_root: Seq<char>,
    log_dir: Seq<char>,
    state: TaskState,
    event: TaskEvent,
    sessions: SessionMap,
    next: TaskState,
    action: TaskAction,
) -> bool {
    match (state, event) {
        (TaskState::Start, TaskEvent::Begin(command)) => takes_up(
            command,
            storage_root,
            log_dir,
            next,
            action,
        ),
        (TaskState::UploadPermit { payload }, TaskEvent::Permit(room)) => if room {
            next == (TaskState::UploadData { payload }) && action is ReceiveChunk
        } else {
            task_says(next, action, "ERROR"@, "Server is shutting down"@)
        },
        (
            TaskState::UploadData { payload: announced },
            TaskEvent::ChunkReceived(received),
        ) => match received {
            None => task_says(next, action, "ERROR"@, "Failed to receive binary chunk data"@),
            Some(chunk) => {
                &&& next matches TaskState::UploadVerify { file_key, chunk_index, data: kept }
                &&& file_key@ == announced.file_key@
                &&& chunk_index == announced.chunk_index
                &&& kept@ == chunk@
                &&& action matches TaskAction::VerifyUpload { payload, data }
                &&& payload == announced
                &&& data@ == chunk@
            },
        },
        (
            TaskState::UploadVerify { file_key, chunk_index, data: verified },
            TaskEvent::UploadVerified(verdict),
        ) => match verdict {
            Err(e) => task_says(next, action, "ERROR"@, "Verification failed: "@ + e@),
            Ok(_) => if has_quic_place(file_key@, chunk_index) {
                &&& next is UploadStore
                &&& action matches TaskAction::Store { plan, data }
                &&& keeps_chunk(plan, storage_root, file_key@, chunk_index, QUIC_CHUNK_STRIDE)
                &&& data@ == verified@
            } else {
                task_says(next, action, "ERROR"@, "Failed to store chunk on disk"@)
            },
        },
        (TaskState::UploadStore, TaskEvent::Stored(ok)) => if ok {
            task_says(next, action, "SUCCESS"@, "Chunk stored successfully"@)
        } else {
            task_says(next, action, "ERROR"@, "Failed to store chunk on disk"@)
        },
        (TaskState::DownloadPermit { payload: asked }, TaskEvent::Permit(room)) => if room {
            &&& next == (TaskState::DownloadVerify { payload: asked })
            &&& action matches TaskAction::VerifyDownload { payload }
            &&& payload.file_key@ == asked.file_key@
            &&& payload.download_key@ == asked.download_key@
            &&& payload.chunk_index == asked.chunk_index
            &&& payload.signature@ == asked.signature@
        } else {
            task_says(next, action, "ERROR"@, "Server is shutting down"@)
        },
        (
            TaskState::DownloadVerify { payload },
            TaskEvent::DownloadVerified(verdict),
        ) => match verdict {
            Err(e) => task_refuses(next, action, "Verification error: "@ + e@),
            Ok(false) => task_refuses(
                next,
                action,
                "Ownership or signature verification failed"@,
            ),
            Ok(true) => finds_chunk(payload, sessions, next, action),
        },
        (TaskState::DownloadRead { download_key }, TaskEvent::ChunkRead(read)) => match read {
            None => task_refuses(next, action, "Chunk data not found"@),
            Some(chunk) => {
                &&& next == (TaskState::DownloadSend { download_key })
                &&& action matches TaskAction::Send(response)
                &&& carries_chunk(response, chunk@)
            },
        },
        (TaskState::Listing, TaskEvent::Listed(listing)) => reports_chunks(listing, next, action),
        (TaskState::LogList, TaskEvent::LogsListed(listed)) => reports_logs(listed, next, action),
        (TaskState::LogProbe { file_name }, TaskEvent::Probed(is_file)) => if is_file {
            &&& next == (TaskState::LogRead { file_name })
            &&& action matches TaskAction::LoadLog { path }
            &&& path@ == joined(log_dir, file_name@)
        } else {
            log_missing(next, action, file_name@)
        },
        (TaskState::LogRead { file_name }, TaskEvent::LogLoaded(loaded)) => match loaded {
            Ok(content) => log_reported(
                next,
                action,
                "SUCCESS"@,
                "Retrieved content for file: "@ + file_name@,
                Some((file_name@, content@)),
            ),
            Err(e) => log_reported(
                next,
                action,
                "ERROR"@,
                "Found file '"@ + file_name@ + "', but failed to read its content: "@ + e@,
                None,
            ),
        },
        _ => next == state && action is Ignore,
    }
}

fn reply(status: &str, message: String) -> (r: (TaskState, TaskAction))
    ensures
        task_says(r.0, r.1, status@, message@),
{
    (TaskState::Finished, TaskAction::Reply(say(status, message)))
}

fn reply_refusal(message: String) -> (r: (TaskState, TaskAction))
    ensures
        task_refuses(r.0, r.1, message@),
{
    (TaskState::Finished, TaskAction::Reply(Response::Download(refuse_chunk(message))))
}

fn reply_log(status: &str, message: String, log_content: Option<LogFileContent>) -> (r: (
    TaskState,
    TaskAction,
))
    ensures
        log_reported(
            r.0,
            r.1,
            status@,
            message@,
            match log_content {
                Some(file) => Some((file.file_name@, file.content@)),
                None => None,
            },
        ),
{
    (
        TaskState::Finished,
        TaskAction::Reply(
            Response::LogsContent(
                LogsContentResponse { status: status.to_owned(), message, log_content },
            ),
        ),
    )
}

fn reply_log_missing(file_name: &str) -> (r: (TaskState, TaskAction))
    ensures
        log_missing(r.0, r.1, file_name@),
{
    let mut message = join_text("Error: File '", file_name);
    message.append("' not found or invalid.");
    reply_log("ERROR", message, None)
}

/// Takes a command up.
pub fn begin_command(command: Command, storage_root: &str, log_dir: &str) -> (r: (
    TaskState,
    TaskAction,
))
    requires
        command matches Command::ListChunksRequest { payload } ==> has_levels(payload.file_key@),
    ensures
        takes_up(command, storage_root@, log_dir@, r.0, r.1),
{
    match command {
        Command::UploadChunk { payload } => (
            TaskState::UploadPermit { payload },
            TaskAction::Acquire,
        ),
        Command::DownloadChunkRequest { payload } => (
            TaskState::DownloadPermit { payload },
            TaskAction::Acquire,
        ),
        Command::ListChunksRequest { payload } => (
            TaskState::Listing,
            TaskAction::ListDir {
                path: get_file_key_path(storage_root, payload.file_key.as_str()),
            },
        ),
        Command::GetLogList { .. } => (TaskState::LogList, TaskAction::ListLogs),
        Command::GetLogContent { payload } => {
            let path = join_path(log_dir, payload.file_name.as_str());
            if path_stays_inside(path.as_str(), log_dir) {
                (
                    TaskState::LogProbe { file_name: payload.file_name },
                    TaskAction::Probe { path },
                )
            } else {
                reply_log_missing(payload.file_name.as_str())
            }
        },
    }
}

/// Reports the chunks in a directory.
pub fn report_chunks(listing: &DirListing) -> (r: (TaskState, TaskAction))
    ensures
        reports_chunks(*listing, r.0, r.1),
{
    match list_chunks(listing) {
        Err(e) => reply("ERROR", e),
        Ok(chunk_indices) => {
            let mut message = join_text(
                "Found ",
                decimal_text(chunk_indices.len() as u64).as_str(),
            );
            message.append(" chunks");
            (
                TaskState::Finished,
                TaskAction::Reply(
                    Response::ListChunks(
                        ListChunksResponse {
                            status: "SUCCESS".to_owned(),
                            message,
                            chunk_indices,
                        },
                    ),
                ),
            )
        },
    }
}

/// Reports the log files, the newest first.
pub fn report_logs(listed: &Result<Vec<LogFile>, String>) -> (r: (TaskState, TaskAction))
    ensures
        reports_logs(*listed, r.0, r.1),
{
    let response = match listed {
        Err(e) => LogsListResponse {
            status: "ERROR".to_owned(),
            message: join_text("Failed to read log directory: ", e.as_str()),
            available_files: Vec::new(),
        },
        Ok(files) => {
            let available_files = sort_logs(files);
            let mut message = join_text(
                "Found ",
                decimal_text(available_files.len() as u64).as_str(),
            );
            message.append(" log files.");
            LogsListResponse { status: "SUCCESS".to_owned(), message, available_files }
        },
    };
    (TaskState::Finished, TaskAction::Reply(Response::LogsList(response)))
}

/// Whether what a step needs is there: a file key to list with two levels, a
/// chunk to read with a place in a file.
pub open spec fn task_fits(sessions: SessionMap, state: TaskState, event: TaskEvent) -> bool {
    match (state, event) {
        (TaskState::Start, TaskEvent::Begin(Command::ListChunksRequest { payload })) => has_levels(
            payload.file_key@,
        ),
        (
            TaskState::DownloadVerify { payload },
            TaskEvent::DownloadVerified(Ok(true)),
        ) => is_readable(sessions, payload.download_key@, payload.chunk_index),
        _ => true,
    }
}

/// Goes one step in carrying a command out.
pub fn handle_command(
    caches: &mut Caches,
    storage_root: &str,
    log_dir: &str,
    state: TaskState,
    event: TaskEvent,
) -> (r: (TaskState, TaskAction))
    requires
        task_fits(old(caches)@.sessions, state, event),
    ensures
        task_step(
            storage_root@,
            log_dir@,
            state,
            event,
            old(caches)@.sessions,
            final(caches)@.sessions,
            r.0,
            r.1,
        ),
        final(caches)@ == (CachesView { sessions: final(caches)@.sessions, ..old(caches)@ }),
{
    match (state, event) {
        (TaskState::Start, TaskEvent::Begin(command)) => begin_command(
            command,
            storage_root,
            log_dir,
        ),
        (TaskState::UploadPermit { payload }, TaskEvent::Permit(room)) => {
            if room {
                (TaskState::UploadData { payload }, TaskAction::ReceiveChunk)
            } else {
                reply("ERROR", "Server is shutting down".to_owned())
            }
        },
        (TaskState::UploadData { payload }, TaskEvent::ChunkReceived(received)) => {
            match received {
                None => reply("ERROR", "Failed to receive binary chunk data".to_owned()),
                Some(data) => {
                    let kept = data.clone();
                    (
                        TaskState::UploadVerify {
                            file_key: payload.file_key.clone(),
                            chunk_index: payload.chunk_index,
                            data: kept,
                        },
                        TaskAction::VerifyUpload { payload, data },
                    )
                },
            }
        },
        (
            TaskState::UploadVerify { file_key, chunk_index, data },
            TaskEvent::UploadVerified(verdict),
        ) => {
            match verdict {
                Err(e) => reply("ERROR", join_text("Verification failed: ", e.as_str())),
                Ok(_) => {
                    if key_has_levels(file_key.as_str()) && chunk_index <= u64::MAX
                        / QUIC_CHUNK_STRIDE {
                        let plan = store_chunk(storage_root, file_key.as_str(), chunk_index);
                        (TaskState::UploadStore, TaskAction::Store { plan, data })
                    } else {
                        reply("ERROR", "Failed to store chunk on disk".to_owned())
                    }
                },
            }
        },
        (TaskState::UploadStore, TaskEvent::Stored(ok)) => {
            if ok {
                reply("SUCCESS", "Chunk stored successfully".to_owned())
            } else {
                reply("ERROR", "Failed to store chunk on disk".to_owned())
            }
        },
        (TaskState::DownloadPermit { payload: asked }, TaskEvent::Permit(room)) => {
            if room {
                let payload = DownloadChunkPayload {
                    file_key: asked.file_key.clone(),
                    download_key: asked.download_key.clone(),
                    chunk_index: asked.chunk_index,
                    signature: asked.signature.clone(),
                };
                (
                    TaskState::DownloadVerify { payload: asked },
                    TaskAction::VerifyDownload { payload },
                )
            } else {
                reply("ERROR", "Server is shutting down".to_owned())
            }
        },
        (TaskState::DownloadVerify { payload }, TaskEvent::DownloadVerified(verdict)) => {
            match verdict {
                Err(e) => reply_refusal(join_text("Verification error: ", e.as_str())),
                Ok(false) => reply_refusal(
                    "Ownership or signature verification failed".to_owned(),
                ),
                Ok(true) => match handle_download_request(caches, &payload) {
                    DownloadStep::Answer(response) => reply_refusal(response.message),
                    DownloadStep::Read { offset, limit } => match caches.session(
                        payload.download_key.as_str(),
                    ) {
                        Some(session) => (
                            TaskState::DownloadRead { download_key: payload.download_key },
                            TaskAction::ReadChunk { file_key: session.file_key, offset, limit },
                        ),
                        None => reply_refusal(
                            "Download session not found, please verify first.".to_owned(),
                        ),
                    },
                },
            }
        },
        (TaskState::DownloadRead { download_key }, TaskEvent::ChunkRead(read)) => {
            let found = read.is_some();
            let response = Response::Download(encode_chunk(read));
            if found {
                (TaskState::DownloadSend { download_key }, TaskAction::Send(response))
            } else {
                (TaskState::Finished, TaskAction::Reply(response))
            }
        },
        (TaskState::DownloadSend { download_key }, TaskEvent::Sent(sent)) => {
            let should_confirm = if sent {
                match descrease_chunk_count(caches, download_key.as_str()) {
                    Ok(count) => count.should_confirm,
                    Err(_) => false,
                }
            } else {
                false
            };
            (TaskState::Finished, TaskAction::Done { should_confirm })
        },
        (TaskState::Listing, TaskEvent::Listed(listing)) => report_chunks(&listing),
        (TaskState::LogList, TaskEvent::LogsListed(listed)) => report_logs(&listed),
        (TaskState::LogProbe { file_name }, TaskEvent::Probed(is_file)) => {
            if is_file {
                let path = join_path(log_dir, file_name.as_str());
                (TaskState::LogRead { file_name }, TaskAction::LoadLog { path })
            } else {
                reply_log_missing(file_name.as_str())
            }
        },
        (TaskState::LogRead { file_name }, TaskEvent::LogLoaded(loaded)) => {
            match loaded {
                Ok(content) => {
                    let message = join_text("Retrieved content for file: ", file_name.as_str());
                    reply_log("SUCCESS", message, Some(LogFileContent { file_name, content }))
                },
                Err(e) => {
                    let mut message = join_text("Found file '", file_name.as_str());
                    message.append("', but failed to read its content: ");
                    message.append(e.as_str());
                    reply_log("ERROR", message, None)
                },
            }
        },
        (state, _) => (state, TaskAction::Ignore),
    }
}

/// A command is answered when it ends, and a chunk that was asked for is answered
/// before it is counted.
pub proof fn law_commands_are_answered(
    storage_root: Seq<char>,
    log_dir: Seq<char>,
    state: TaskState,
    event: TaskEvent,
    before: SessionMap,
    after: SessionMap,
    next: TaskState,
    action: TaskAction,
)
    requires
        task_step(storage_root, log_dir, state, event, before, after, next, action),
        !(state is Finished),
    ensures
        next is Finished && !(state is DownloadSend) ==> action is Reply,
        next is DownloadSend && !(state is DownloadSend) ==> action is Send,
        after != before ==> state is DownloadSend && event == TaskEvent::Sent(true),
{
}

/// Carrying a command out keeps whose download each session is.
pub proof fn law_commands_carry_sessions_on(
    storage_root: Seq<char>,
    log_dir: Seq<char>,
    state: TaskState,
    event: TaskEvent,
    before: SessionMap,
    after: SessionMap,
    next: TaskState,
    action: TaskAction,
)
    requires
        task_step(storage_root, log_dir, state, event, before, after, next, action),
    ensures
        carries_on(before, after),
        well_keyed(before) ==> well_keyed(after),
{
}

/// Whether the log file that a state is busy with, if any, lies in the log
/// directory.
pub open spec fn seeks_inside(log_dir: Seq<char>, state: TaskState) -> bool {
    match state {
        TaskState::LogProbe { file_name } => stays_inside(joined(log_dir, file_name@), log_dir),
        TaskState::LogRead { file_name } => stays_inside(joined(log_dir, file_name@), log_dir),
        _ => true,
    }
}

/// A log file is looked for, and read, only inside the log directory: its path
/// starts there and leads nowhere else.
pub proof fn law_logs_are_sought_inside(
    storage_root: Seq<char>,
    log_dir: Seq<char>,
    state: TaskState,
    event: TaskEvent,
    before: SessionMap,
    after: SessionMap,
    next: TaskState,
    action: TaskAction,
)
    requires
        task_step(storage_root, log_dir, state, event, before, after, next, action),
        seeks_inside(log_dir, state),
    ensures
        seeks_inside(log_dir, next),
        action matches TaskAction::Probe { path } ==> stays_inside(path@, log_dir),
        action matches TaskAction::LoadLog { path } ==> stays_inside(path@, log_dir),
{
}

/// A log file whose name has no `..` in it, and is not absolute, is looked for under
/// its name; so is any other that stays inside the log directory, and no more.
pub proof fn law_logs_inside_are_sought(
    storage_root: Seq<char>,
    log_dir: Seq<char>,
    payload: GetLogContentPayload,
    next: TaskState,
    action: TaskAction,
)
    requires
        takes_up(Command::GetLogContent { payload }, storage_root, log_dir, next, action),
    ensures
        !is_absolute(payload.file_name@) && !climbs(payload.file_name@) ==> action is Probe,
        action is Probe <==> stays_inside(joined(log_dir, payload.file_name@), log_dir),
        action matches TaskAction::Probe { path } ==> path@ == joined(
            log_dir,
            payload.file_name@,
        ),
{
    if !is_absolute(payload.file_name@) && !climbs(payload.file_name@) {
        law_plain_names_stay_inside(log_dir, payload.file_name@);
    }
}

/// No chunk is read for a request, and none is stored, unless it was verified.
pub proof fn law_commands_touch_disk_only_verified(
    storage_root: Seq<char>,
    log_dir: Seq<char>,
    state: TaskState,
    event: TaskEvent,
    before: SessionMap,
    after: SessionMap,
    next: TaskState,
    action: TaskAction,
)
    requires
        task_step(storage_root, log_dir, state, event, before, after, next, action),
    ensures
        action is ReadChunk ==> state is DownloadVerify && event == TaskEvent::DownloadVerified(
            Ok(true),
        ),
        action is Store ==> state is UploadVerify && (event matches TaskEvent::UploadVerified(
            verdict,
        ) && verdict is Ok),
{
}

/// One step that a command took.
pub struct TaskStep {
    pub state: TaskState,
    pub event: TaskEvent,
    pub before: SessionMap,
    pub after: SessionMap,
    pub next: TaskState,
    pub action: TaskAction,
}

/// Whether a row of steps carries one command out. Between them other commands may
/// change the sessions.
pub open spec fn task_run(
    storage_root: Seq<char>,
    log_dir: Seq<char>,
    run: Seq<TaskStep>,
) -> bool {
    &&& run.len() > 0 ==> run[0].state is Start
    &&& forall|i: int|
        0 <= i < run.len() ==> {
            let step = #[trigger] run[i];
            task_step(
                storage_root,
                log_dir,
                step.state,
                step.event,
                step.before,
                step.after,
                step.next,
                step.action,
            )
        }
    &&& forall|i: int, j: int|
        0 <= i < run.len() && j == i + 1 && j < run.len() ==> (#[trigger] run[j]).state == (
        #[trigger] run[i]).next
}

/// Whether a step hands a chunk out to be verified.
pub open spec fn has_verified(
    step: TaskStep,
    chunk: Seq<u8>,
    file_key: Seq<char>,
    chunk_index: u64,
) -> bool {
    &&& step.action matches TaskAction::VerifyUpload { payload, data }
    &&& data@ == chunk
    &&& payload.file_key@ == file_key
    &&& payload.chunk_index == chunk_index
}

proof fn lemma_held_chunk_was_handed_out(
    storage_root: Seq<char>,
    log_dir: Seq<char>,
    run: Seq<TaskStep>,
    j: int,
)
    requires
        task_run(storage_root, log_dir, run),
        0 <= j < run.len(),
        run[j].state is UploadVerify,
    ensures
        run[j].state matches TaskState::UploadVerify { file_key, chunk_index, data } && exists|
            i: int,
        |
            0 <= i < j && has_verified(#[trigger] run[i], data@, file_key@, chunk_index),
    decreases j,
{
    let earlier = run[j - 1];
    assert(run[j].state == earlier.next);
    if earlier.state is UploadVerify {
        lemma_held_chunk_was_handed_out(storage_root, log_dir, run, j - 1);
    } else if let TaskState::UploadVerify { file_key, chunk_index, data } = run[j].state {
        assert(has_verified(earlier, data@, file_key@, chunk_index));
    }
}

/// The bytes that are stored are those that were verified, and they go where the
/// verified payload says: before a chunk is stored, the same bytes were handed out
/// to be verified, and the verdict was good.
pub proof fn law_stored_bytes_were_verified(
    storage_root: Seq<char>,
    log_dir: Seq<char>,
    run: Seq<TaskStep>,
    j: int,
)
    requires
        task_run(storage_root, log_dir, run),
        0 <= j < run.len(),
        run[j].action is Store,
    ensures
        run[j].event matches TaskEvent::UploadVerified(verdict) && verdict is Ok,
        match (run[j].state, run[j].action) {
            (
                TaskState::UploadVerify { file_key, chunk_index, .. },
                TaskAction::Store { plan, data },
            ) => {
                &&& keeps_chunk(plan, storage_root, file_key@, chunk_index, QUIC_CHUNK_STRIDE)
                &&& exists|i: int|
                    0 <= i < j && has_verified(#[trigger] run[i], data@, file_key@, chunk_index)
            },
            _ => false,
        },
{
    lemma_held_chunk_was_handed_out(storage_root, log_dir, run, j);
}

/// A connection takes stream after stream until there is none; a stream with a request
/// on it leads to the request being read from its text, and a request that is a command
/// starts a task for it. What is no request is answered so.
pub proof fn law_connection_takes_requests(
    state: ConnectionState,
    event: ConnectionEvent,
    text: Seq<char>,
    next: ConnectionState,
    action: ConnectionAction,
)
    requires
        connection_step(state, event, text, next, action),
    ensures
        state is AwaitStream && event == ConnectionEvent::Accepted(true) ==> next is AwaitData
            && action is Receive,
        state is AwaitStream && event == ConnectionEvent::Accepted(false) ==> next is Closed
            && action is Stop,
        state is AwaitData && event == ConnectionEvent::Received(None) ==> next is AwaitStream
            && action is Accept,
        state is AwaitData && all_white(text) && event is Received ==> next is AwaitStream
            && action is Accept,
        state is AwaitData && !all_white(text) ==> (event matches ConnectionEvent::Received(
            Some(_),
        ) ==> next is AwaitCommand && (action matches ConnectionAction::Parse { line } && line@
            == trimmed(text))),
        state is AwaitCommand ==> (event matches ConnectionEvent::Parsed(Ok(command)) ==> next
            is AwaitStream && action == ConnectionAction::Spawn(command)),
        state is AwaitCommand ==> (event matches ConnectionEvent::Parsed(Err(_)) ==> next
            is AwaitStream && (action matches ConnectionAction::Refuse(Response::Generic(
            generic,
        )) && generic.status@ == "ERROR"@ && generic.message@ == "Invalid command format"@)),
        state is Closed ==> next is Closed && action is Ignore,
        event matches ConnectionEvent::Received(Some(data)) ==> received_text(event) == utf8_lossy(
            data@,
        ),
{
    let (front, back) = law_trimming_takes_white_ends(text);
    if all_white(text) && trimmed(text).len() > 0 {
        assert(trimmed(text)[0] == text[front.len() as int]);
    }
    if trimmed(text).len() == 0 {
        assert forall|i: int| 0 <= i < text.len() implies is_white(#[trigger] text[i]) by {
            if i < front.len() {
                assert(text[i] == front[i]);
            } else {
                assert(text[i] == back[i - front.len()]);
            }
        }
    }
}

/// An upload whose every step goes well keeps the chunk that came in: it waits for
/// room, the payload is verified as it came with the bytes of the second message, those
/// bytes are stored at the chunk's place, and the client is told so.
pub proof fn law_chunk_is_stored(
    storage_root: Seq<char>,
    log_dir: Seq<char>,
    payload: UploadChunkPayload,
    chunk: Vec<u8>,
    verdict: Result<(), String>,
    sessions: SessionMap,
    states: Seq<TaskState>,
    actions: Seq<TaskAction>,
)
    requires
        states.len() == 6 && actions.len() == 5,
        states[0] is Start,
        verdict is Ok,
        has_levels(payload.file_key@),
        payload.chunk_index * 256_000 <= u64::MAX,
        task_step(
            storage_root,
            log_dir,
            states[0],
            TaskEvent::Begin(Command::UploadChunk { payload }),
            sessions,
            sessions,
            states[1],
            actions[0],
        ),
        task_step(
            storage_root,
            log_dir,
            states[1],
            TaskEvent::Permit(true),
            sessions,
            sessions,
            states[2],
            actions[1],
        ),
        task_step(
            storage_root,
            log_dir,
            states[2],
            TaskEvent::ChunkReceived(Some(chunk)),
            sessions,
            sessions,
            states[3],
            actions[2],
        ),
        task_step(
            storage_root,
            log_dir,
            states[3],
            TaskEvent::UploadVerified(verdict),
            sessions,
            sessions,
            states[4],
            actions[3],
        ),
        task_step(
            storage_root,
            log_dir,
            states[4],
            TaskEvent::Stored(true),
            sessions,
            sessions,
            states[5],
            actions[4],
        ),
    ensures
        ({
            let dir = key_path(storage_root, payload.file_key@);
            &&& actions[0] is Acquire
            &&& actions[1] is ReceiveChunk
            &&& actions[2] matches TaskAction::VerifyUpload { payload: shown, data } && shown
                == payload && data@ == chunk@
            &&& actions[3] matches TaskAction::Store { plan, data } && data@ == chunk@ && plan.dir@
                == dir && plan.bin_path@ == joined(dir, payload.file_key@ + ".bin"@)
                && plan.meta_path@ == joined(dir, payload.file_key@ + ".meta"@) && plan.offset
                == payload.chunk_index * 256_000 && plan.meta_line@ == decimal(
                payload.chunk_index as nat,
            ) + "\n"@
            &&& states[5] is Finished
            &&& actions[4] matches TaskAction::Reply(Response::Generic(generic)) && generic.status@
                == "SUCCESS"@ && generic.message@ == "Chunk stored successfully"@
        }),
{
}

/// A download whose every step goes well hands over the chunk that was asked for: it
/// waits for room, the request is verified as it came, the file is that of the session,
/// its bytes are read at the chunk's place, what was read goes out in Base64, and then
/// one chunk is taken off the session and no other.
pub proof fn law_chunk_is_handed_over(
    storage_root: Seq<char>,
    log_dir: Seq<char>,
    asked: DownloadChunkPayload,
    chunk: Vec<u8>,
    sessions: Seq<SessionMap>,
    states: Seq<TaskState>,
    actions: Seq<TaskAction>,
)
    requires
        sessions.len() == 6 && states.len() == 6 && actions.len() == 5,
        states[0] is Start,
        task_step(
            storage_root,
            log_dir,
            states[0],
            TaskEvent::Begin(Command::DownloadChunkRequest { payload: asked }),
            sessions[0],
            sessions[1],
            states[1],
            actions[0],
        ),
        task_step(
            storage_root,
            log_dir,
            states[1],
            TaskEvent::Permit(true),
            sessions[1],
            sessions[2],
            states[2],
            actions[1],
        ),
        task_step(
            storage_root,
            log_dir,
            states[2],
            TaskEvent::DownloadVerified(Ok(true)),
            sessions[2],
            sessions[3],
            states[3],
            actions[2],
        ),
        task_step(
            storage_root,
            log_dir,
            states[3],
            TaskEvent::ChunkRead(Some(chunk)),
            sessions[3],
            sessions[4],
            states[4],
            actions[3],
        ),
        task_step(
            storage_root,
            log_dir,
            states[4],
            TaskEvent::Sent(true),
            sessions[4],
            sessions[5],
            states[5],
            actions[4],
        ),
        sessions[0].contains_key(asked.download_key@),
        sessions[0][asked.download_key@].remaining_chunks
            + sessions[0][asked.download_key@].retry_remaining > 0,
    ensures
        actions[0] is Acquire,
        actions[1] matches TaskAction::VerifyDownload { payload } && payload.file_key@
            == asked.file_key@ && payload.download_key@ == asked.download_key@
            && payload.chunk_index == asked.chunk_index && payload.signature@ == asked.signature@,
        actions[2] matches TaskAction::ReadChunk { file_key, offset, limit } && file_key@
            == sessions[0][asked.download_key@].file_key && offset == asked.chunk_index * 1_048_576
            && limit == 1_048_576,
        actions[3] matches TaskAction::Send(Response::Download(response)) && response.status@
            == "SUCCESS"@ && response.message@.len() == 0 && (
        response.chunk_data_base64 matches Some(text) && text@ == base64_text(chunk@)),
        actions[4] == (TaskAction::Done {
            should_confirm: sessions[0][asked.download_key@].remaining_chunks == 1,
        }),
        sessions[4] == sessions[0],
        sessions[5].dom() == sessions[0].dom(),
        forall|key: Seq<char>|
            key != asked.download_key@ && sessions[0].contains_key(key) ==> #[trigger] sessions[5][key]
                == sessions[0][key],
        sessions[5][asked.download_key@].remaining_chunks
            + sessions[5][asked.download_key@].retry_remaining + 1
            == sessions[0][asked.download_key@].remaining_chunks
            + sessions[0][asked.download_key@].retry_remaining,
        states[5] is Finished,
{
    assert(sessions[5].dom() =~= sessions[0].dom());
}

/// What stands in the way of an upload is told in words.
pub proof fn law_upload_command_is_refused_in_words(
    storage_root: Seq<char>,
    log_dir: Seq<char>,
    state: TaskState,
    event: TaskEvent,
    before: SessionMap,
    after: SessionMap,
    next: TaskState,
    action: TaskAction,
    words: Seq<char>,
)
    requires
        task_step(storage_root, log_dir, state, event, before, after, next, action),
        match (state, event) {
            (TaskState::UploadPermit { .. }, TaskEvent::Permit(false)) => words
                == "Server is shutting down"@,
            (TaskState::DownloadPermit { .. }, TaskEvent::Permit(false)) => words
                == "Server is shutting down"@,
            (TaskState::UploadData { .. }, TaskEvent::ChunkReceived(None)) => words
                == "Failed to receive binary chunk data"@,
            (TaskState::UploadVerify { .. }, TaskEvent::UploadVerified(Err(e))) => words
                == "Verification failed: "@ + e@,
            (
                TaskState::UploadVerify { file_key, chunk_index, .. },
                TaskEvent::UploadVerified(Ok(_)),
            ) => {
                &&& !has_levels(file_key@) || chunk_index * 256_000 > u64::MAX
                &&& words == "Failed to store chunk on disk"@
            },
            (TaskState::UploadStore, TaskEvent::Stored(false)) => words
                == "Failed to store chunk on disk"@,
            _ => false,
        },
    ensures
        next is Finished,
        after == before,
        action matches TaskAction::Reply(Response::Generic(generic)) && generic.status@
            == "ERROR"@ && generic.message@ == words,
{
}

/// What stands in the way of a chunk request is told in words, and nothing is counted.
pub proof fn law_chunk_request_is_refused_in_words(
    storage_root: Seq<char>,
    log_dir: Seq<char>,
    state: TaskState,
    event: TaskEvent,
    before: SessionMap,
    after: SessionMap,
    next: TaskState,
    action: TaskAction,
    words: Seq<char>,
)
    requires
        task_step(storage_root, log_dir, state, event, before, after, next, action),
        match (state, event) {
            (TaskState::DownloadVerify { .. }, TaskEvent::DownloadVerified(Err(e))) => words
                == "Verification error: "@ + e@,
            (TaskState::DownloadVerify { .. }, TaskEvent::DownloadVerified(Ok(false))) => words
                == "Ownership or signature verification failed"@,
            (
                TaskState::DownloadVerify { payload },
                TaskEvent::DownloadVerified(Ok(true)),
            ) => if before.contains_key(payload.download_key@) {
                &&& before[payload.download_key@].remaining_chunks == 0
                &&& before[payload.download_key@].retry_remaining == 0
                &&& words == "No remaining downloads for this key"@
            } else {
                words == "Download session not found, please verify first."@
            },
            (TaskState::DownloadRead { .. }, TaskEvent::ChunkRead(None)) => words
                == "Chunk data not found"@,
            _ => false,
        },
    ensures
        next is Finished,
        after == before,
        action matches TaskAction::Reply(Response::Download(response)) && response.status@
            == "ERROR"@ && response.message@ == words && response.chunk_data_base64 is None,
{
}

/// A response that was lost counts for nothing, and neither does one under a key whose
/// session is gone or used up by then.
pub proof fn law_lost_response_counts_for_nothing(
    storage_root: Seq<char>,
    log_dir: Seq<char>,
    download_key: String,
    sent: bool,
    before: SessionMap,
    after: SessionMap,
    next: TaskState,
    action: TaskAction,
)
    requires
        task_step(
            storage_root,
            log_dir,
            TaskState::DownloadSend { download_key },
            TaskEvent::Sent(sent),
            before,
            after,
            next,
            action,
        ),
        !sent || (before.contains_key(download_key@) ==> before[download_key@].remaining_chunks
            == 0 && before[download_key@].retry_remaining == 0),
    ensures
        next is Finished,
        after == before,
        action == (TaskAction::Done { should_confirm: false }),
{
}

/// The chunks of a file are looked for in its own directory, and those that are found
/// there are told with how many they are; a directory that cannot be read is told of
/// instead.
pub proof fn law_chunks_are_listed(
    storage_root: Seq<char>,
    log_dir: Seq<char>,
    payload: ListChunksPayload,
    listing: DirListing,
    sessions: SessionMap,
    states: Seq<TaskState>,
    actions: Seq<TaskAction>,
)
    requires
        states.len() == 3 && actions.len() == 2,
        states[0] is Start,
        task_step(
            storage_root,
            log_dir,
            states[0],
            TaskEvent::Begin(Command::ListChunksRequest { payload }),
            sessions,
            sessions,
            states[1],
            actions[0],
        ),
        task_step(
            storage_root,
            log_dir,
            states[1],
            TaskEvent::Listed(listing),
            sessions,
            sessions,
            states[2],
            actions[1],
        ),
    ensures
        actions[0] matches TaskAction::ListDir { path } && path@ == key_path(
            storage_root,
            payload.file_key@,
        ),
        states[2] is Finished,
        listing_error(listing) matches Some(e) ==> (actions[1] matches TaskAction::Reply(
            Response::Generic(generic),
        ) && generic.status@ == "ERROR"@ && generic.message@ == e),
        listing_error(listing) is None ==> (actions[1] matches TaskAction::Reply(
            Response::ListChunks(chunks),
        ) && chunks.status@ == "SUCCESS"@ && chunks.message@ == "Found "@ + decimal(
            chunks.chunk_indices@.len(),
        ) + " chunks"@ && chunks.chunk_indices@.len() == chunk_indices(
            listing_entries(listing),
        ).len() && (forall|index: u64| #[trigger]
            chunks.chunk_indices@.contains(index) <==> chunk_indices(
                listing_entries(listing),
            ).contains(index)) && (forall|i: int, j: int|
            0 <= i < j < chunks.chunk_indices@.len() ==> #[trigger] chunks.chunk_indices@[i]
                <= #[trigger] chunks.chunk_indices@[j])),
{
    broadcast use vstd::seq_lib::group_to_multiset_ensures;

    if listing_error(listing) is None {
        if let TaskAction::Reply(Response::ListChunks(chunks)) = actions[1] {
            let found = chunks.chunk_indices@;
            let there = chunk_indices(listing_entries(listing));
            assert(found.to_multiset() == there.to_multiset());
            assert(found.len() == found.to_multiset().len());
            assert(there.len() == there.to_multiset().len());
            assert forall|index: u64| #[trigger] found.contains(index) <==> there.contains(
                index,
            ) by {
                assert(found.contains(index) <==> found.to_multiset().count(index) > 0);
                assert(there.contains(index) <==> there.to_multiset().count(index) > 0);
            }
        }
    }
}

/// Every log file that there is stands in the report once under its name, and of two
/// the newer stands first.
pub proof fn law_logs_are_listed(
    files: Vec<LogFile>,
    next: TaskState,
    action: TaskAction,
) -> (order: Seq<usize>)
    requires
        reports_logs(Ok(files), next, action),
    ensures
        next is Finished,
        action matches TaskAction::Reply(Response::LogsList(logs)) && {
            &&& logs.status@ == "SUCCESS"@
            &&& logs.message@ == "Found "@ + decimal(files@.len()) + " log files."@
            &&& logs.available_files@.len() == order.len()
            &&& forall|k: int|
                0 <= k < order.len() ==> (#[trigger] logs.available_files@[k])@
                    == files@[order[k] as int].name@
        },
        newest_first(order, files@),
{
    if let TaskAction::Reply(Response::LogsList(logs)) = action {
        let names = logs.available_files@;
        choose|order: Seq<usize>| #[trigger]
            newest_first(order, files@) && names.len() == order.len() && forall|k: int|
                0 <= k < order.len() ==> (#[trigger] names[k])@ == files@[order[k] as int].name@
    } else {
        Seq::empty()
    }
}

/// A log directory that cannot be read is told of, and no log file is named.
pub proof fn law_missing_logs_are_told_of(why: String, next: TaskState, action: TaskAction)
    requires
        reports_logs(Err(why), next, action),
    ensures
        next is Finished,
        action matches TaskAction::Reply(Response::LogsList(logs)) && logs.status@ == "ERROR"@
            && logs.message@ == "Failed to read log directory: "@ + why@
            && logs.available_files@.len() == 0,
{
}

/// A log file that is there is told under its name, with its content; one that is not
/// there, or cannot be read, is told of in words.
pub proof fn law_log_is_told(
    storage_root: Seq<char>,
    log_dir: Seq<char>,
    state: TaskState,
    event: TaskEvent,
    before: SessionMap,
    after: SessionMap,
    next: TaskState,
    action: TaskAction,
    name: String,
)
    requires
        task_step(storage_root, log_dir, state, event, before, after, next, action),
    ensures
        state == (TaskState::LogProbe { file_name: name }) && event == TaskEvent::Probed(true)
            ==> next == (TaskState::LogRead { file_name: name }) && (
        action matches TaskAction::LoadLog { path } && path@ == joined(log_dir, name@)),
        state == (TaskState::LogProbe { file_name: name }) && event == TaskEvent::Probed(false)
            ==> next is Finished && (action matches TaskAction::Reply(Response::LogsContent(logs))
            && logs.status@ == "ERROR"@ && logs.message@ == "Error: File '"@ + name@
            + "' not found or invalid."@ && logs.log_content is None),
        state == (TaskState::LogRead { file_name: name }) ==> (event matches TaskEvent::LogLoaded(
            Ok(body),
        ) ==> next is Finished && (action matches TaskAction::Reply(Response::LogsContent(logs))
            && logs.status@ == "SUCCESS"@ && logs.message@ == "Retrieved content for file: "@
            + name@ && (logs.log_content matches Some(file) && file.file_name@ == name@
            && file.content@ == body@))),
        state == (TaskState::LogRead { file_name: name }) ==> (event matches TaskEvent::LogLoaded(
            Err(e),
        ) ==> next is Finished && (action matches TaskAction::Reply(Response::LogsContent(logs))
            && logs.status@ == "ERROR"@ && logs.message@ == "Found file '"@ + name@
            + "', but failed to read its content: "@ + e@ && logs.log_content is None)),
        state is Finished ==> next is Finished && after == before && action is Ignore,
        state is Start && event == TaskEvent::Begin(Command::GetLogList { payload: None }) ==> next
            is LogList && action is ListLogs,
        state is LogList ==> (event matches TaskEvent::LogsListed(listed) ==> reports_logs(
            listed,
            next,
            action,
        )),
{
}

/// What happens on a connection out of turn changes nothing.
pub proof fn law_connection_ignores_strays(
    state: ConnectionState,
    event: ConnectionEvent,
    text: Seq<char>,
    next: ConnectionState,
    action: ConnectionAction,
)
    requires
        connection_step(state, event, text, next, action),
        !(state is AwaitStream && event is Accepted),
        !(state is AwaitData && event is Received),
        !(state is AwaitCommand && event is Parsed),
    ensures
        next == state && action is Ignore,
{
}

/// What happens to a command out of turn changes nothing.
pub proof fn law_commands_ignore_strays(
    storage_root: Seq<char>,
    log_dir: Seq<char>,
    state: TaskState,
    event: TaskEvent,
    before: SessionMap,
    after: SessionMap,
    next: TaskState,
    action: TaskAction,
)
    requires
        task_step(storage_root, log_dir, state, event, before, after, next, action),
        !(state is Start && event is Begin),
        !(state is UploadPermit && event is Permit),
        !(state is UploadData && event is ChunkReceived),
        !(state is UploadVerify && event is UploadVerified),
        !(state is UploadStore && event is Stored),
        !(state is DownloadPermit && event is Permit),
        !(state is DownloadVerify && event is DownloadVerified),
        !(state is DownloadRead && event is ChunkRead),
        !(state is DownloadSend && event is Sent),
        !(state is Listing && event is Listed),
        !(state is LogList && event is LogsListed),
        !(state is LogProbe && event is Probed),
        !(state is LogRead && event is LogLoaded),
    ensures
        next == state && after == before && action is Ignore,
{
}

} // verus!
