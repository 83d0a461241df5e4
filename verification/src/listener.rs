//! What the chain reports: the node asks for new blocks and acts on the events in
//! them.

use crate::cache::{lookup, Caches, CachesView, SessionMap};
use crate::crypto::{hex_encode, hex_text, law_hex_round_trip, Address, Key32};
use crate::download_manager::{carries_on, well_keyed};
use crate::models::{opt_text, SessionView};
use crate::storage::{
    bin_path, get_file_key_path, join_path, joined, keeps_chunk, key_levels, key_path,
    law_file_lies_in_its_directory, law_levels_stand_in_the_path, lemma_ascii_levels, level1,
    level2, WritePlan,
};
use crate::text::{
    all_digits, join_text, law_number_is_its_digits_by_place, number_error, number_error_text,
    number_value, parse_number, place_value, same_text, strip_0x, unsigned_part, without_0x,
};
use vstd::prelude::*;
use vstd::string::*;

verus! {

/// How long a new block is left to settle before its logs are asked for.
pub const SETTLE_MILLIS: u64 = 2_500;

/// How long the listener rests between two looks at the chain.
pub const POLL_MILLIS: u64 = 2_000;

/// How long the listener waits before it starts anew.
pub const RESTART_MILLIS: u64 = 100;

// ---------------------------------------------------------------------------
// Block numbers
// ---------------------------------------------------------------------------

/// What became of a request for the newest block's number.
#[derive(Debug)]
pub enum BlockReply {
    /// It could not be sent; what the client says of that.
    Unsent(String),
    /// The client could not read the reply, or not as JSON; what it says of that.
    Unread(String),
    /// The JSON that the client read, as text.
    Json(Vec<u8>),
}

/// The member of a JSON text under a name as a string; `None` where the text is no
/// JSON, has no such member, or one that is no string.
pub uninterp spec fn json_member_text(body: Seq<u8>, name: Seq<char>) -> Option<Seq<char>>;

/// `serde_json::from_slice` into a `Value`, of which `Value::get` and
/// `Value::as_str` take the member under a name where it is a string: named
/// `json_member_text`.
#[verifier::external_body]
fn json_member(body: &[u8], name: &str) -> (r: Option<String>)
    ensures
        opt_text(r) == json_member_text(body@, name@),
{
    let json = serde_json::from_slice::<serde_json::Value>(body).ok()?;
    let text = json.get(name)?.as_str()?;
    Some(text.to_string())
}

/// The block number in the result of a request for it, or what is wrong with it.
pub open spec fn block_number(result: Option<Seq<char>>) -> Result<nat, Seq<char>> {
    match result {
        None => Err("Invalid response"@),
        Some(text) => match number_value(without_0x(text), 16) {
            Ok(n) => Ok(n),
            Err(e) => Err("Parse error: "@ + number_error(e)),
        },
    }
}

/// A block number, or an error, as plain values.
pub open spec fn block_result(r: Result<u64, String>) -> Result<nat, Seq<char>> {
    match r {
        Ok(n) => Ok(n as nat),
        Err(e) => Err(e@),
    }
}

/// Reads a block number from the result of a request for it.
pub fn read_block_number(result: &Option<String>) -> (r: Result<u64, String>)
    ensures
        block_result(r) == block_number(opt_text(*result)),
{
    match result {
        None => Err("Invalid response".to_owned()),
        Some(text) => match parse_number(strip_0x(text.as_str()).as_str(), 16) {
            Ok(n) => Ok(n),
            Err(e) => Err(join_text("Parse error: ", number_error_text(e).as_str())),
        },
    }
}

/// The block number in what became of a request for it, or why there is none.
pub open spec fn block_in_reply(reply: BlockReply) -> Result<nat, Seq<char>> {
    match reply {
        BlockReply::Unsent(e) => Err("Request error: "@ + e@),
        BlockReply::Unread(e) => Err("JSON error: "@ + e@),
        BlockReply::Json(body) => block_number(json_member_text(body@, "result"@)),
    }
}

/// The block number is what the member `result` of the reply writes in hex, with a
/// prefix or without, its digits by place; where there is none, it is said why.
pub proof fn law_block_number_is_read(reply: BlockReply)
    ensures
        reply matches BlockReply::Unsent(e) ==> block_in_reply(reply) == Err::<nat, Seq<char>>(
            "Request error: "@ + e@,
        ),
        reply matches BlockReply::Unread(e) ==> block_in_reply(reply) == Err::<nat, Seq<char>>(
            "JSON error: "@ + e@,
        ),
        reply matches BlockReply::Json(body) ==> match json_member_text(body@, "result"@) {
            None => block_in_reply(reply) == Err::<nat, Seq<char>>("Invalid response"@),
            Some(text) => {
                let digits = unsigned_part(without_0x(text));
                &&& digits.len() > 0 && all_digits(digits, 16) && place_value(digits, 16)
                    <= u64::MAX ==> block_in_reply(reply) == Ok::<nat, Seq<char>>(
                    place_value(digits, 16) as nat,
                )
                &&& without_0x(text).len() == 0 ==> block_in_reply(reply) == Err::<
                    nat,
                    Seq<char>,
                >("Parse error: cannot parse integer from empty string"@)
                &&& digits.len() > 0 && all_digits(digits, 16) && place_value(digits, 16)
                    > u64::MAX ==> block_in_reply(reply) == Err::<nat, Seq<char>>(
                    "Parse error: number too large to fit in target type"@,
                )
            },
        },
{
    if let BlockReply::Json(body) = reply {
        if let Some(text) = json_member_text(body@, "result"@) {
            law_number_is_its_digits_by_place(without_0x(text), 16);
            reveal_strlit("Parse error: ");
            reveal_strlit("cannot parse integer from empty string");
            reveal_strlit("number too large to fit in target type");
            reveal_strlit("Parse error: cannot parse integer from empty string");
            reveal_strlit("Parse error: number too large to fit in target type");
            assert("Parse error: "@ + "cannot parse integer from empty string"@
                =~= "Parse error: cannot parse integer from empty string"@);
            assert("Parse error: "@ + "number too large to fit in target type"@
                =~= "Parse error: number too large to fit in target type"@);
        }
    }
}

/// Reads a block number from what became of a request for it.
pub fn get_block_number(reply: &BlockReply) -> (r: Result<u64, String>)
    ensures
        block_result(r) == block_in_reply(*reply),
        block_result(r) == match *reply {
            BlockReply::Unsent(e) => Err("Request error: "@ + e@),
            BlockReply::Unread(e) => Err("JSON error: "@ + e@),
            BlockReply::Json(body) => block_number(json_member_text(body@, "result"@)),
        },
{
    match reply {
        BlockReply::Unsent(e) => Err(join_text("Request error: ", e.as_str())),
        BlockReply::Unread(e) => Err(join_text("JSON error: ", e.as_str())),
        BlockReply::Json(body) => read_block_number(&json_member(body.as_slice(), "result")),
    }
}

// ---------------------------------------------------------------------------
// Polling
// ---------------------------------------------------------------------------

/// A log of the chain, as its node reports it: who wrote it, its topics and its
/// data.
#[derive(Debug)]
pub struct RawLog {
    pub address: Address,
    pub topics: Vec<Key32>,
    pub data: Vec<u8>,
}

/// A log as plain values: its writer, its topics, its data.
pub type LogRow = (Seq<u8>, Seq<Seq<u8>>, Seq<u8>);

/// A log as plain values.
pub open spec fn raw_row(log: RawLog) -> LogRow {
    (log.address@, log.topics@.map_values(|topic: Key32| topic@), log.data@)
}

/// Logs as plain values.
pub open spec fn raw_rows(logs: Seq<RawLog>) -> Seq<LogRow> {
    logs.map_values(|log: RawLog| raw_row(log))
}

/// Logs, where there are any, as plain values.
pub open spec fn optional_rows(logs: Option<Vec<RawLog>>) -> Option<Seq<LogRow>> {
    match logs {
        Some(logs) => Some(raw_rows(logs@)),
        None => None,
    }
}

/// The member of a JSON text under a name, written as JSON; `None` where the text
/// is no JSON or has no such member.
pub uninterp spec fn json_member_json(body: Seq<u8>, name: Seq<char>) -> Option<Seq<char>>;

/// The logs that a JSON text lists, if it lists any.
pub uninterp spec fn json_logs(text: Seq<char>) -> Option<
    Seq<(Seq<u8>, Seq<Seq<u8>>, Seq<u8>)>,
>;

/// `serde_json::from_slice` into a `Value`, of which `Value::get` takes the member
/// under a name and `Value::to_string` writes it: named `json_member_json`.
#[verifier::external_body]
fn json_member_value(body: &[u8], name: &str) -> (r: Option<String>)
    ensures
        opt_text(r) == json_member_json(body@, name@),
{
    match serde_json::from_slice::<serde_json::Value>(body) {
        Ok(json) => json.get(name).map(|member| member.to_string()),
        Err(_) => None,
    }
}

/// `serde_json::from_str` into a `Value`, and `serde_json::from_value` of that into
/// a list of `alloy::rpc::types::eth::Log`, each taken as its address, topics and
/// data: named `json_logs`.
#[verifier::external_body]
fn parse_logs(text: &str) -> (r: Option<Vec<RawLog>>)
    ensures
        optional_rows(r) == json_logs(text@),
{
    let json = serde_json::from_str::<serde_json::Value>(text).ok()?;
    let logs = serde_json::from_value::<Vec<alloy::rpc::types::eth::Log>>(json).ok()?;
    let row = logs.into_iter().map(|log| RawLog {
        address: log.address().into_array(),
        topics: log.topics().iter().map(|topic| topic.0).collect(),
        data: log.data().data.to_vec(),
    });
    Some(row.collect())
}

/// The text that is to list logs, in the result of a request for them: none where
/// there is no result, or where it is null.
pub open spec fn listed_text(result: Option<Seq<char>>) -> Option<Seq<char>> {
    match result {
        Some(text) if text != "null"@ => Some(text),
        _ => None,
    }
}

/// Finds the text that is to list logs in the result of a request for them.
pub fn find_listed_text(result: Option<String>) -> (text: Option<String>)
    ensures
        opt_text(text) == listed_text(opt_text(result)),
{
    match result {
        Some(text) => {
            if same_text(text.as_str(), "null") {
                None
            } else {
                Some(text)
            }
        },
        None => None,
    }
}

/// The logs to go through: those that could be read, or none.
pub open spec fn rows_or_none(parsed: Option<Seq<LogRow>>) -> Seq<LogRow> {
    match parsed {
        Some(rows) => rows,
        None => Seq::empty(),
    }
}

/// Takes the logs that could be read, or none.
pub fn logs_or_none(parsed: Option<Vec<RawLog>>) -> (logs: Vec<RawLog>)
    ensures
        raw_rows(logs@) == rows_or_none(optional_rows(parsed)),
{
    match parsed {
        Some(logs) => logs,
        None => {
            let logs: Vec<RawLog> = Vec::new();
            assert(raw_rows(logs@) =~= Seq::<LogRow>::empty());
            logs
        },
    }
}

/// The logs in the reply to a request for them; none where there is no reply, or
/// none that lists logs.
pub open spec fn logs_in_reply(reply: Result<Vec<u8>, String>) -> Seq<LogRow> {
    match reply {
        Err(_) => Seq::empty(),
        Ok(body) => match listed_text(json_member_json(body@, "result"@)) {
            Some(text) => rows_or_none(json_logs(text)),
            None => Seq::empty(),
        },
    }
}

/// Reads the logs in the reply to a request for them: the bytes of its body, or
/// why there are none.
pub fn read_logs(reply: &Result<Vec<u8>, String>) -> (logs: Vec<RawLog>)
    ensures
        raw_rows(logs@) == logs_in_reply(*reply),
{
    match reply {
        Err(_) => logs_or_none(None),
        Ok(body) => match find_listed_text(json_member_value(body.as_slice(), "result")) {
            Some(text) => logs_or_none(parse_logs(text.as_str())),
            None => logs_or_none(None),
        },
    }
}

fn copy_log(log: &RawLog) -> (copy: RawLog)
    ensures
        raw_row(copy) == raw_row(*log),
{
    let mut topics: Vec<Key32> = Vec::new();
    let mut i: usize = 0;
    while i < log.topics.len()
        invariant
            i <= log.topics@.len(),
            topics@ == log.topics@.take(i as int),
        decreases log.topics@.len() - i,
    {
        topics.push(log.topics[i]);
        i = i + 1;
    }
    assert(log.topics@.take(i as int) =~= log.topics@);
    RawLog { address: log.address, topics, data: log.data.clone() }
}

/// What decoding made of a log: the key in it under each event as which it can be
/// read.
#[derive(Clone, Copy, Debug)]
pub struct DecodedLog {
    pub download_confirmed: Option<Key32>,
    pub file_activated: Option<Key32>,
    pub file_deleted: Option<Key32>,
}

/// An event that the node acts on.
#[derive(Clone, Copy, Debug)]
pub enum ChainEvent {
    DownloadKeyConfirmed(Key32),
    FileActivated(Key32),
    FileDeleted(Key32),
}

/// The event that a log is: the first as which it can be read.
pub open spec fn event_of(log: DecodedLog) -> Option<ChainEvent> {
    match log.download_confirmed {
        Some(key) => Some(ChainEvent::DownloadKeyConfirmed(key)),
        None => match log.file_activated {
            Some(key) => Some(ChainEvent::FileActivated(key)),
            None => match log.file_deleted {
                Some(key) => Some(ChainEvent::FileDeleted(key)),
                None => None,
            },
        },
    }
}

/// Finds the event that a log is.
pub fn classify_log(log: &DecodedLog) -> (event: Option<ChainEvent>)
    ensures
        event == event_of(*log),
{
    match log.download_confirmed {
        Some(key) => Some(ChainEvent::DownloadKeyConfirmed(key)),
        None => match log.file_activated {
            Some(key) => Some(ChainEvent::FileActivated(key)),
            None => match log.file_deleted {
                Some(key) => Some(ChainEvent::FileDeleted(key)),
                None => None,
            },
        },
    }
}

/// How far the listener has come. `last_block` is the last block whose logs need
/// not be asked for any more.
#[derive(Debug)]
pub enum PollState {
    Start,
    Restarting,
    Polling { last_block: u64 },
    Settling { last_block: u64, current_block: u64 },
    Fetching { current_block: u64 },
    /// The logs from `at` on are still to be looked at.
    Checking { current_block: u64, logs: Vec<RawLog>, at: usize },
    Decoding { current_block: u64, logs: Vec<RawLog>, at: usize },
    Acting { current_block: u64, logs: Vec<RawLog>, at: usize },
    Resting { last_block: u64 },
}

/// What happened to the listener.
#[derive(Debug)]
pub enum PollEvent {
    /// The number of the newest block, or why it is not known.
    Block(Result<u64, String>),
    Woke,
    /// The reply to a request for logs: the bytes of its body, or why there are
    /// none.
    Fetched(Result<Vec<u8>, String>),
    /// Whether the contract of the log is valid.
    Validity(bool),
    /// What decoding made of the log.
    Decoded(DecodedLog),
    /// The event was acted on.
    Acted,
}

/// What the listener does next.
#[derive(Debug)]
pub enum PollAction {
    FetchBlock,
    Sleep { millis: u64 },
    /// Sleep, then start anew.
    Restart { reason: String, millis: u64 },
    FetchLogs { from_block: u64, to_block: u64 },
    CheckContract { address: Address },
    Decode { log: RawLog },
    Act(ChainEvent),
    /// The event does not belong here; nothing changes.
    Ignore,
}

/// Whether a listener is in a state that it can be in.
pub open spec fn poll_state_ok(state: PollState) -> bool {
    match state {
        PollState::Settling { last_block, current_block } => last_block < current_block,
        PollState::Checking { logs, at, .. } => at < logs@.len(),
        PollState::Decoding { logs, at, .. } => at < logs@.len(),
        PollState::Acting { logs, at, .. } => at < logs@.len(),
        _ => true,
    }
}

/// Whether a step turns to the logs from a place on, or rests where there are no
/// more.
pub open spec fn turns_to(
    current: u64,
    rows: Seq<LogRow>,
    place: int,
    next: PollState,
    action: PollAction,
) -> bool {
    if place < rows.len() {
        &&& next matches PollState::Checking { current_block, logs, at }
        &&& current_block == current
        &&& raw_rows(logs@) == rows
        &&& at == place
        &&& action matches PollAction::CheckContract { address }
        &&& address@ == rows[place].0
    } else {
        &&& next == (PollState::Resting { last_block: current })
        &&& action == (PollAction::Sleep { millis: POLL_MILLIS })
    }
}

/// One step of the listener. It starts from the newest block; a block number that
/// cannot be had counts as no news; logs of contracts that are not valid are
/// passed over; and whatever became of the logs, their blocks are done with.
pub open spec fn poll_step(
    state: PollState,
    event: PollEvent,
    next: PollState,
    action: PollAction,
) -> bool {
    match (state, event) {
        (PollState::Start, PollEvent::Block(reply)) => match reply {
            Err(e) => {
                &&& next is Restarting
                &&& action matches PollAction::Restart { reason, millis }
                &&& reason@ == "Failed to get initial block number: "@ + e@
                &&& millis == RESTART_MILLIS
            },
            Ok(block) => {
                &&& next == (PollState::Polling { last_block: block })
                &&& action is FetchBlock
            },
        },
        (PollState::Restarting, PollEvent::Woke) => next is Start && action is FetchBlock,
        (PollState::Polling { last_block }, PollEvent::Block(reply)) => match reply {
            Ok(block) if block > last_block => {
                &&& next == (PollState::Settling { last_block, current_block: block })
                &&& action == (PollAction::Sleep { millis: SETTLE_MILLIS })
            },
            _ => {
                &&& next == (PollState::Resting { last_block })
                &&& action == (PollAction::Sleep { millis: POLL_MILLIS })
            },
        },
        (PollState::Settling { last_block, current_block }, PollEvent::Woke) => {
            &&& next == (PollState::Fetching { current_block })
            &&& action == (PollAction::FetchLogs {
                from_block: (last_block + 1) as u64,
                to_block: current_block,
            })
        },
        (PollState::Fetching { current_block }, PollEvent::Fetched(reply)) => turns_to(
            current_block,
            logs_in_reply(reply),
            0,
            next,
            action,
        ),
        (PollState::Checking { current_block, logs, at }, PollEvent::Validity(valid)) => if valid {
            &&& next == (PollState::Decoding { current_block, logs, at })
            &&& action matches PollAction::Decode { log }
            &&& raw_row(log) == raw_rows(logs@)[at as int]
        } else {
            turns_to(current_block, raw_rows(logs@), at + 1, next, action)
        },
        (PollState::Decoding { current_block, logs, at }, PollEvent::Decoded(decoded)) => match (
        event_of(decoded)) {
            Some(found) => {
                &&& next == (PollState::Acting { current_block, logs, at })
                &&& action == PollAction::Act(found)
            },
            None => turns_to(current_block, raw_rows(logs@), at + 1, next, action),
        },
        (PollState::Acting { current_block, logs, at }, PollEvent::Acted) => turns_to(
            current_block,
            raw_rows(logs@),
            at + 1,
            next,
            action,
        ),
        (PollState::Resting { last_block }, PollEvent::Woke) => {
            &&& next == (PollState::Polling { last_block })
            &&& action is FetchBlock
        },
        _ => next == state && action is Ignore,
    }
}

fn turn_to(current_block: u64, logs: Vec<RawLog>, at: usize) -> (r: (PollState, PollAction))
    ensures
        turns_to(current_block, raw_rows(logs@), at as int, r.0, r.1),
        poll_state_ok(r.0),
{
    if at < logs.len() {
        let address = logs[at].address;
        (
            PollState::Checking { current_block, logs, at },
            PollAction::CheckContract { address },
        )
    } else {
        (
            PollState::Resting { last_block: current_block },
            PollAction::Sleep { millis: POLL_MILLIS },
        )
    }
}

fn turn_past(current_block: u64, logs: Vec<RawLog>, at: usize) -> (r: (PollState, PollAction))
    requires
        at < logs@.len(),
    ensures
        turns_to(current_block, raw_rows(logs@), at + 1, r.0, r.1),
        poll_state_ok(r.0),
{
    let count: usize = logs.len();
    assert(at < count);
    turn_to(current_block, logs, at + 1)
}

/// Goes one step in listening to the chain.
pub fn listen_download_confirmed_events(state: PollState, event: PollEvent) -> (r: (
    PollState,
    PollAction,
))
    requires
        poll_state_ok(state),
    ensures
        poll_step(state, event, r.0, r.1),
        poll_state_ok(r.0),
{
    match (state, event) {
        (PollState::Start, PollEvent::Block(reply)) => {
            match &reply {
                Err(e) => (
                    PollState::Restarting,
                    PollAction::Restart {
                        reason: join_text("Failed to get initial block number: ", e.as_str()),
                        millis: RESTART_MILLIS,
                    },
                ),
                Ok(block) => (PollState::Polling { last_block: *block }, PollAction::FetchBlock),
            }
        },
        (PollState::Restarting, PollEvent::Woke) => (PollState::Start, PollAction::FetchBlock),
        (PollState::Polling { last_block }, PollEvent::Block(reply)) => {
            let current_block: u64 = match reply {
                Ok(block) => block,
                Err(_) => last_block,
            };
            if current_block > last_block {
                (
                    PollState::Settling { last_block, current_block },
                    PollAction::Sleep { millis: SETTLE_MILLIS },
                )
            } else {
                (PollState::Resting { last_block }, PollAction::Sleep { millis: POLL_MILLIS })
            }
        },
        (PollState::Settling { last_block, current_block }, PollEvent::Woke) => (
            PollState::Fetching { current_block },
            PollAction::FetchLogs { from_block: last_block + 1, to_block: current_block },
        ),
        (PollState::Fetching { current_block }, PollEvent::Fetched(reply)) => turn_to(
            current_block,
            read_logs(&reply),
            0,
        ),
        (PollState::Checking { current_block, logs, at }, PollEvent::Validity(valid)) => {
            if valid {
                let log = copy_log(&logs[at]);
                (PollState::Decoding { current_block, logs, at }, PollAction::Decode { log })
            } else {
                turn_past(current_block, logs, at)
            }
        },
        (PollState::Decoding { current_block, logs, at }, PollEvent::Decoded(decoded)) => {
            match classify_log(&decoded) {
                Some(found) => (
                    PollState::Acting { current_block, logs, at },
                    PollAction::Act(found),
                ),
                None => turn_past(current_block, logs, at),
            }
        },
        (PollState::Acting { current_block, logs, at }, PollEvent::Acted) => turn_past(
            current_block,
            logs,
            at,
        ),
        (PollState::Resting { last_block }, PollEvent::Woke) => (
            PollState::Polling { last_block },
            PollAction::FetchBlock,
        ),
        (state, _) => (state, PollAction::Ignore),
    }
}

/// One step that the listener took.
pub struct PollStep {
    pub state: PollState,
    pub event: PollEvent,
    pub next: PollState,
    pub action: PollAction,
}

/// Whether a row of steps is a run of the listener.
pub open spec fn poll_run(run: Seq<PollStep>) -> bool {
    &&& forall|i: int|
        0 <= i < run.len() ==> {
            let step = #[trigger] run[i];
            poll_state_ok(step.state) && poll_step(step.state, step.event, step.next, step.action)
        }
    &&& forall|i: int, j: int|
        0 <= i < run.len() && j == i + 1 && j < run.len() ==> (#[trigger] run[j]).state == (
        #[trigger] run[i]).next
}

/// The last block that a state is done with, where it is past the start.
pub open spec fn done_with(state: PollState) -> Option<u64> {
    match state {
        PollState::Start => None,
        PollState::Restarting => None,
        PollState::Polling { last_block } => Some(last_block),
        PollState::Settling { last_block, .. } => Some(last_block),
        PollState::Fetching { current_block } => Some(current_block),
        PollState::Checking { current_block, .. } => Some(current_block),
        PollState::Decoding { current_block, .. } => Some(current_block),
        PollState::Acting { current_block, .. } => Some(current_block),
        PollState::Resting { last_block } => Some(last_block),
    }
}

proof fn lemma_done_with(run: Seq<PollStep>, i: int, j: int)
    requires
        poll_run(run),
        0 <= i <= j < run.len(),
        done_with(run[i].next) is Some,
        forall|k: int| i < k <= j ==> !((#[trigger] run[k]).action is FetchLogs),
    ensures
        done_with(run[j].next) == done_with(run[i].next),
    decreases j - i,
{
    if i < j {
        lemma_done_with(run, i, j - 1);
        let before = run[j - 1];
        let step = run[j];
        assert(step.state == before.next);
        assert(!(step.action is FetchLogs));
    }
}

/// No block is passed over and none is asked about twice: logs are asked for from
/// the block after the last one that was asked about.
pub proof fn law_blocks_are_asked_in_turn(run: Seq<PollStep>, i: int, j: int)
    requires
        poll_run(run),
        0 <= i < j < run.len(),
        run[i].action is FetchLogs,
        run[j].action is FetchLogs,
        forall|k: int| i < k < j ==> !((#[trigger] run[k]).action is FetchLogs),
    ensures
        match (run[i].action, run[j].action) {
            (
                PollAction::FetchLogs { to_block, .. },
                PollAction::FetchLogs { from_block, to_block: later },
            ) => from_block == to_block + 1 && from_block <= later,
            _ => false,
        },
{
    lemma_done_with(run, i, j - 1);
    assert(run[j].state == run[j - 1].next);
}

/// Where the listener starts, the first block that it asks about is the one after
/// the block that was the newest then.
pub proof fn law_first_block_follows_the_start(run: Seq<PollStep>, i: int, j: int, block: u64)
    requires
        poll_run(run),
        0 <= i < j < run.len(),
        run[i].state is Start,
        run[i].event == PollEvent::Block(Ok(block)),
        run[j].action is FetchLogs,
        forall|k: int| i < k < j ==> !((#[trigger] run[k]).action is FetchLogs),
    ensures
        run[j].action matches PollAction::FetchLogs { from_block, to_block } && from_block == block
            + 1 && from_block <= to_block,
{
    lemma_done_with(run, i, j - 1);
    assert(run[j].state == run[j - 1].next);
}

/// Whether a step finds that the contract of a log is valid.
pub open spec fn vouches_for(step: PollStep, row: Seq<RawLog>, place: usize) -> bool {
    &&& step.event == PollEvent::Validity(true)
    &&& step.state matches PollState::Checking { logs, at, .. }
    &&& logs@ == row
    &&& at == place
    &&& step.action matches PollAction::Decode { log }
    &&& raw_row(log) == raw_row(row[place as int])
}

/// Only events of valid contracts are acted on: before that, the contract of the
/// log was found valid, and the event is the first as which the log could be read.
pub proof fn law_only_valid_contracts_act(run: Seq<PollStep>, j: int)
    requires
        poll_run(run),
        0 <= j < run.len(),
        run[0].state is Start,
        run[j].action is Act,
    ensures
        match (run[j].state, run[j].event) {
            (PollState::Decoding { logs, at, .. }, PollEvent::Decoded(decoded)) => {
                &&& event_of(decoded) == Some(run[j].action->Act_0)
                &&& exists|i: int| 0 <= i < j && vouches_for(#[trigger] run[i], logs@, at)
            },
            _ => false,
        },
{
    lemma_decoding_was_vouched_for(run, j);
}

proof fn lemma_decoding_was_vouched_for(run: Seq<PollStep>, j: int)
    requires
        poll_run(run),
        0 <= j < run.len(),
        run[0].state is Start,
        run[j].state is Decoding,
    ensures
        run[j].state matches PollState::Decoding { logs, at, .. } && exists|i: int|
            0 <= i < j && vouches_for(#[trigger] run[i], logs@, at),
    decreases j,
{
    let before = run[j - 1];
    assert(run[j].state == before.next);
    if before.state is Decoding {
        lemma_decoding_was_vouched_for(run, j - 1);
    } else if let PollState::Decoding { logs, at, .. } = run[j].state {
        assert(vouches_for(before, logs@, at));
    }
}

/// The contract that is asked about is the one that wrote the log turned to, and
/// no log is turned to unasked.
pub proof fn law_the_writer_is_asked_about(
    state: PollState,
    event: PollEvent,
    next: PollState,
    action: PollAction,
)
    requires
        poll_step(state, event, next, action),
        next != state,
    ensures
        next is Checking <==> action is CheckContract,
        next matches PollState::Checking { logs, at, .. } ==> (
        action matches PollAction::CheckContract { address } && address@
            == logs@[at as int].address@),
{
    if let PollState::Checking { logs, at, .. } = next {
        assert(raw_rows(logs@)[at as int] == raw_row(logs@[at as int]));
    }
}

/// When a log was gone through: the steps in which its contract was asked about, in
/// which the answer came, and in which it was decoded.
pub struct Visit {
    pub asked: int,
    pub judged: int,
    pub read: int,
}

/// Whether what is done with a decoded log is right: the first event as which it can
/// be read is acted on, with the key in it, and nothing where there is none.
pub open spec fn acts_rightly(decoded: DecodedLog, action: PollAction) -> bool {
    if decoded.download_confirmed is Some {
        action == PollAction::Act(
            ChainEvent::DownloadKeyConfirmed(decoded.download_confirmed->0),
        )
    } else if decoded.file_activated is Some {
        action == PollAction::Act(ChainEvent::FileActivated(decoded.file_activated->0))
    } else if decoded.file_deleted is Some {
        action == PollAction::Act(ChainEvent::FileDeleted(decoded.file_deleted->0))
    } else {
        !(action is Act)
    }
}

/// Whether a step asks about a contract.
pub open spec fn asks_about(step: PollStep, address: Seq<u8>) -> bool {
    step.action matches PollAction::CheckContract { address: a } && a@ == address
}

/// Whether a step hands a log out to be decoded.
pub open spec fn hands_out(step: PollStep, row: LogRow) -> bool {
    step.action matches PollAction::Decode { log } && raw_row(log) == row
}

/// Whether a log was gone through between two steps: its contract was asked about,
/// and where it is valid the log was decoded and rightly acted on.
pub open spec fn visited(run: Seq<PollStep>, from: int, to: int, row: LogRow, visit: Visit) -> bool {
    &&& from <= visit.asked < visit.judged <= visit.read <= to
    &&& asks_about(run[visit.asked], row.0)
    &&& run[visit.judged].event matches PollEvent::Validity(valid)
    &&& if valid {
        &&& hands_out(run[visit.judged], row)
        &&& visit.judged < visit.read
        &&& run[visit.read].event matches PollEvent::Decoded(decoded)
        &&& acts_rightly(decoded, run[visit.read].action)
    } else {
        visit.read == visit.judged
    }
}

/// Whether some logs were gone through between two steps, one after the other, and
/// nothing else was asked about, decoded or acted on.
pub open spec fn all_visited(
    run: Seq<PollStep>,
    from: int,
    to: int,
    rows: Seq<LogRow>,
    visits: Seq<Visit>,
) -> bool {
    &&& visits.len() == rows.len()
    &&& forall|i: int|
        0 <= i < visits.len() ==> visited(run, from, to, rows[i], #[trigger] visits[i])
    &&& forall|i: int, j: int|
        0 <= i < j < visits.len() ==> (#[trigger] visits[i]).read <= (#[trigger] visits[j]).asked
    &&& forall|k: int|
        from <= k <= to && (#[trigger] run[k]).action is CheckContract ==> exists|i: int|
            0 <= i < visits.len() && (#[trigger] visits[i]).asked == k
    &&& forall|k: int|
        from <= k <= to && (#[trigger] run[k]).action is Decode ==> exists|i: int|
            0 <= i < visits.len() && (#[trigger] visits[i]).judged == k
    &&& forall|k: int|
        from <= k <= to && (#[trigger] run[k]).action is Act ==> exists|i: int|
            0 <= i < visits.len() && (#[trigger] visits[i]).read == k
}

/// The logs that a state is going through.
spec fn state_rows(state: PollState) -> Seq<LogRow> {
    match state {
        PollState::Checking { logs, .. } => raw_rows(logs@),
        PollState::Decoding { logs, .. } => raw_rows(logs@),
        PollState::Acting { logs, .. } => raw_rows(logs@),
        _ => Seq::empty(),
    }
}

/// The place of the log that a state is at.
spec fn state_place(state: PollState) -> int {
    match state {
        PollState::Checking { at, .. } => at as int,
        PollState::Decoding { at, .. } => at as int,
        PollState::Acting { at, .. } => at as int,
        _ => 0,
    }
}

/// Whether the logs before the one that a state is at were gone through, and that
/// one as far as the state says.
spec fn visited_so_far(
    run: Seq<PollStep>,
    from: int,
    to: int,
    rows: Seq<LogRow>,
    visits: Seq<Visit>,
) -> bool {
    let state = run[to].next;
    let place = state_place(state);
    let last = visits.last();
    &&& state is Checking || state is Decoding || state is Acting
    &&& state_rows(state) == rows
    &&& 0 <= place < rows.len()
    &&& visits.len() == place + 1
    &&& forall|i: int|
        0 <= i < place ==> visited(run, from, to, rows[i], #[trigger] visits[i])
    &&& forall|i: int, j: int|
        0 <= i < j < visits.len() ==> (#[trigger] visits[i]).read <= (#[trigger] visits[j]).asked
    &&& from <= last.asked <= to
    &&& asks_about(run[last.asked], rows[place].0)
    &&& !(state is Checking) ==> {
        &&& last.asked < last.judged <= to
        &&& run[last.judged].event == PollEvent::Validity(true)
        &&& hands_out(run[last.judged], rows[place])
    }
    &&& state is Acting ==> {
        &&& last.judged < last.read <= to
        &&& run[last.read].event matches PollEvent::Decoded(decoded)
        &&& acts_rightly(decoded, run[last.read].action)
    }
    &&& forall|k: int|
        from <= k <= to && (#[trigger] run[k]).action is CheckContract ==> exists|i: int|
            0 <= i < visits.len() && (#[trigger] visits[i]).asked == k
    &&& forall|k: int|
        from <= k <= to && (#[trigger] run[k]).action is Decode ==> exists|i: int|
            0 <= i < visits.len() && (i < place || !(state is Checking)) && (
            #[trigger] visits[i]).judged == k
    &&& forall|k: int|
        from <= k <= to && (#[trigger] run[k]).action is Act ==> exists|i: int|
            0 <= i < visits.len() && (i < place || state is Acting) && (#[trigger] visits[i]).read
                == k
}

/// Whether a step turned on to the logs, or rests with all of them gone through.
spec fn going_through(
    run: Seq<PollStep>,
    from: int,
    to: int,
    rows: Seq<LogRow>,
    visits: Seq<Visit>,
) -> bool {
    if run[to].next is Resting {
        all_visited(run, from, to, rows, visits)
    } else {
        visited_so_far(run, from, to, rows, visits)
    }
}

proof fn lemma_visit_begins(run: Seq<PollStep>, from: int, rows: Seq<LogRow>) -> (visits: Seq<
    Visit,
>)
    requires
        poll_run(run),
        0 <= from < run.len(),
        turns_to_rows(run[from].next, run[from].action, rows, 0),
    ensures
        going_through(run, from, from, rows, visits),
{
    if rows.len() == 0 {
        Seq::empty()
    } else {
        let visits = seq![Visit { asked: from, judged: from, read: from }];
        assert(visits[0].asked == from);
        visits
    }
}

/// Whether a step turns to a log, or rests where there is none at that place.
spec fn turns_to_rows(
    next: PollState,
    action: PollAction,
    rows: Seq<LogRow>,
    place: int,
) -> bool {
    if place < rows.len() {
        &&& next is Checking
        &&& state_rows(next) == rows
        &&& state_place(next) == place
        &&& action matches PollAction::CheckContract { address }
        &&& address@ == rows[place].0
    } else {
        &&& next is Resting
        &&& action is Sleep
    }
}

proof fn lemma_visit_ends(
    run: Seq<PollStep>,
    from: int,
    to: int,
    rows: Seq<LogRow>,
    done: Seq<Visit>,
    place: int,
) -> (visits: Seq<Visit>)
    requires
        0 <= from < to < run.len(),
        0 <= place < rows.len(),
        done.len() == place + 1,
        turns_to_rows(run[to].next, run[to].action, rows, place + 1),
        forall|i: int|
            0 <= i < done.len() ==> visited(run, from, to, rows[i], #[trigger] done[i]),
        forall|i: int, j: int|
            0 <= i < j < done.len() ==> (#[trigger] done[i]).read <= (#[trigger] done[j]).asked,
        forall|k: int|
            from <= k < to && (#[trigger] run[k]).action is CheckContract ==> exists|i: int|
                0 <= i < done.len() && (#[trigger] done[i]).asked == k,
        forall|k: int|
            from <= k < to && (#[trigger] run[k]).action is Decode ==> exists|i: int|
                0 <= i < done.len() && (#[trigger] done[i]).judged == k,
        forall|k: int|
            from <= k < to && (#[trigger] run[k]).action is Act ==> exists|i: int|
                0 <= i < done.len() && (#[trigger] done[i]).read == k,
    ensures
        going_through(run, from, to, rows, visits),
{
    if place + 1 < rows.len() {
        let visits = done.push(Visit { asked: to, judged: to, read: to });
        assert(visits[place + 1].asked == to);
        assert forall|i: int| 0 <= i < place + 1 implies visited(
            run,
            from,
            to,
            rows[i],
            #[trigger] visits[i],
        ) by {
            assert(visits[i] == done[i]);
        }
        assert forall|i: int, j: int| 0 <= i < j < visits.len() implies (#[trigger] visits[i]).read
            <= (#[trigger] visits[j]).asked by {
            assert(visits[i] == done[i]);
            if j < done.len() {
                assert(visits[j] == done[j]);
            } else {
                assert(visited(run, from, to, rows[i], done[i]));
            }
        }
        assert forall|k: int|
            from <= k <= to && (#[trigger] run[k]).action is CheckContract implies exists|i: int|
            0 <= i < visits.len() && (#[trigger] visits[i]).asked == k by {
            if k < to {
                let i = choose|i: int| 0 <= i < done.len() && (#[trigger] done[i]).asked == k;
                assert(visits[i].asked == k);
            }
        }
        assert forall|k: int|
            from <= k <= to && (#[trigger] run[k]).action is Decode implies exists|i: int|
            0 <= i < visits.len() && (i < place + 1 || !(run[to].next is Checking)) && (
            #[trigger] visits[i]).judged == k by {
            let i = choose|i: int| 0 <= i < done.len() && (#[trigger] done[i]).judged == k;
            assert(visits[i].judged == k);
        }
        assert forall|k: int|
            from <= k <= to && (#[trigger] run[k]).action is Act implies exists|i: int|
            0 <= i < visits.len() && (i < place + 1 || run[to].next is Acting) && (
            #[trigger] visits[i]).read == k by {
            let i = choose|i: int| 0 <= i < done.len() && (#[trigger] done[i]).read == k;
            assert(visits[i].read == k);
        }
        visits
    } else {
        done
    }
}

proof fn lemma_visit_step(
    run: Seq<PollStep>,
    from: int,
    to: int,
    rows: Seq<LogRow>,
    before: Seq<Visit>,
) -> (visits: Seq<Visit>)
    requires
        poll_run(run),
        0 <= from < to < run.len(),
        visited_so_far(run, from, to - 1, rows, before),
    ensures
        going_through(run, from, to, rows, visits),
{
    let step = run[to];
    let state = run[to - 1].next;
    assert(step.state == state);
    let place = state_place(state);
    let last = before.last();
    assert(poll_step(step.state, step.event, step.next, step.action));
    if step.action is Ignore {
        assert forall|i: int| 0 <= i < place implies visited(
            run,
            from,
            to,
            rows[i],
            #[trigger] before[i],
        ) by {
            assert(visited(run, from, to - 1, rows[i], before[i]));
        }
        before
    } else if state is Checking && step.event == PollEvent::Validity(true) {
        let visits = before.update(
            place,
            Visit { asked: last.asked, judged: to, read: last.read },
        );
        lemma_same_but_last(run, from, to, rows, before, visits, place);
        assert(visits[place].judged == to);
        visits
    } else if state is Checking {
        let done = before.update(place, Visit { asked: last.asked, judged: to, read: to });
        lemma_same_but_last(run, from, to, rows, before, done, place);
        lemma_visit_ends(run, from, to, rows, done, place)
    } else if state is Decoding {
        let visits = before.update(
            place,
            Visit { asked: last.asked, judged: last.judged, read: to },
        );
        lemma_same_but_last(run, from, to, rows, before, visits, place);
        assert(visits[place].judged == last.judged);
        if step.next is Acting {
            assert(visits[place].read == to);
            visits
        } else {
            lemma_visit_ends(run, from, to, rows, visits, place)
        }
    } else {
        lemma_same_but_last(run, from, to, rows, before, before, place);
        lemma_visit_ends(run, from, to, rows, before, place)
    }
}

proof fn lemma_same_but_last(
    run: Seq<PollStep>,
    from: int,
    to: int,
    rows: Seq<LogRow>,
    before: Seq<Visit>,
    visits: Seq<Visit>,
    place: int,
)
    requires
        0 <= from < to < run.len(),
        visited_so_far(run, from, to - 1, rows, before),
        place == state_place(run[to - 1].next),
        visits.len() == before.len(),
        forall|i: int| 0 <= i < place ==> visits[i] == before[i],
        visits.last().asked == before.last().asked,
        run[to - 1].next is Checking || visits.last().judged == before.last().judged,
        run[to - 1].next is Acting ==> visits.last() == before.last(),
    ensures
        forall|i: int|
            0 <= i < place ==> visited(run, from, to, rows[i], #[trigger] visits[i]),
        forall|i: int, j: int|
            0 <= i < j < visits.len() ==> (#[trigger] visits[i]).read <= (
            #[trigger] visits[j]).asked,
        forall|k: int|
            from <= k < to && (#[trigger] run[k]).action is CheckContract ==> exists|i: int|
                0 <= i < visits.len() && (#[trigger] visits[i]).asked == k,
        forall|k: int|
            from <= k < to && (#[trigger] run[k]).action is Decode ==> exists|i: int|
                0 <= i < visits.len() && (i < place || !(run[to - 1].next is Checking)) && (
                #[trigger] visits[i]).judged == k,
        forall|k: int|
            from <= k < to && (#[trigger] run[k]).action is Act ==> exists|i: int|
                0 <= i < visits.len() && (i < place || run[to - 1].next is Acting) && (
                #[trigger] visits[i]).read == k,
{
    assert(visits[place] == visits.last() && before[place] == before.last());
    assert forall|i: int| 0 <= i < place implies visited(
        run,
        from,
        to,
        rows[i],
        #[trigger] visits[i],
    ) by {
        assert(visited(run, from, to - 1, rows[i], before[i]));
    }
    assert forall|i: int, j: int| 0 <= i < j < visits.len() implies (#[trigger] visits[i]).read <= (
    #[trigger] visits[j]).asked by {
        assert(before[i].read <= before[j].asked);
    }
    assert forall|k: int| from <= k < to && (#[trigger] run[k]).action is CheckContract implies
        exists|i: int| 0 <= i < visits.len() && (#[trigger] visits[i]).asked == k by {
        let i = choose|i: int| 0 <= i < before.len() && (#[trigger] before[i]).asked == k;
        assert(visits[i].asked == k);
    }
    assert forall|k: int| from <= k < to && (#[trigger] run[k]).action is Decode implies exists|
        i: int,
    |
        0 <= i < visits.len() && (i < place || !(run[to - 1].next is Checking)) && (
        #[trigger] visits[i]).judged == k by {
        let i = choose|i: int|
            0 <= i < before.len() && (i < place || !(run[to - 1].next is Checking)) && (
            #[trigger] before[i]).judged == k;
        assert(visits[i].judged == k);
    }
    assert forall|k: int| from <= k < to && (#[trigger] run[k]).action is Act implies exists|
        i: int,
    |
        0 <= i < visits.len() && (i < place || run[to - 1].next is Acting) && (
        #[trigger] visits[i]).read == k by {
        let i = choose|i: int|
            0 <= i < before.len() && (i < place || run[to - 1].next is Acting) && (
            #[trigger] before[i]).read == k;
        assert(visits[i].read == k);
    }
}

proof fn lemma_going_through(run: Seq<PollStep>, from: int, to: int, rows: Seq<LogRow>) -> (visits:
    Seq<Visit>)
    requires
        poll_run(run),
        0 <= from <= to < run.len(),
        turns_to_rows(run[from].next, run[from].action, rows, 0),
        forall|k: int| from <= k < to ==> !((#[trigger] run[k]).next is Resting),
    ensures
        going_through(run, from, to, rows, visits),
    decreases to - from,
{
    if from == to {
        lemma_visit_begins(run, from, rows)
    } else {
        let before = lemma_going_through(run, from, to - 1, rows);
        assert(!(run[to - 1].next is Resting));
        lemma_visit_step(run, from, to, rows, before)
    }
}

/// Every log of a reply is gone through. Between the reply that lists some logs and
/// the rest that follows it, the contract of each log is asked about exactly once
/// and in order; each log whose contract is valid is decoded, and each event found
/// in one is acted on.
pub proof fn law_every_log_is_gone_through(
    run: Seq<PollStep>,
    from: int,
    to: int,
    reply: Result<Vec<u8>, String>,
) -> (visits: Seq<Visit>)
    requires
        poll_run(run),
        0 <= from <= to < run.len(),
        run[from].state is Fetching,
        run[from].event == PollEvent::Fetched(reply),
        run[to].next is Resting,
        forall|k: int| from <= k < to ==> !((#[trigger] run[k]).next is Resting),
    ensures
        all_visited(run, from, to, logs_in_reply(reply), visits),
{
    lemma_going_through(run, from, to, logs_in_reply(reply))
}

/// Every answer brings the listener on through its logs: from asking about the
/// contract of a log to decoding it, from there to acting on it, and from the log to
/// the next one, or to its rest after the last one.
pub proof fn law_every_answer_brings_on(
    state: PollState,
    event: PollEvent,
    next: PollState,
    action: PollAction,
)
    requires
        poll_step(state, event, next, action),
        poll_state_ok(state),
    ensures
        state matches PollState::Checking { current_block, logs, at } ==> (
        event matches PollEvent::Validity(valid) ==> if valid {
            next == (PollState::Decoding { current_block, logs, at })
        } else {
            stands_at_log(next, current_block, logs@, at + 1)
        }),
        state matches PollState::Decoding { current_block, logs, at } ==> (
        event is Decoded ==> next == (PollState::Acting { current_block, logs, at })
            || stands_at_log(next, current_block, logs@, at + 1)),
        state matches PollState::Acting { current_block, logs, at } ==> (event is Acted
            ==> stands_at_log(next, current_block, logs@, at + 1)),
        state matches PollState::Fetching { current_block } ==> (event is Fetched ==> next
            is Checking || next == (PollState::Resting { last_block: current_block })),
{
}

/// Whether a state stands at a log, or rests behind the last one.
pub open spec fn stands_at_log(
    state: PollState,
    current: u64,
    row: Seq<RawLog>,
    place: int,
) -> bool {
    if place < row.len() {
        &&& state matches PollState::Checking { current_block, logs, at }
        &&& current_block == current
        &&& raw_rows(logs@) == raw_rows(row)
        &&& at == place
    } else {
        state == (PollState::Resting { last_block: current })
    }
}

/// A reply lists the logs in its result, in their order. It lists none where there is
/// no reply, no result, a result of null, or one that cannot be read as logs.
pub proof fn law_reply_lists_its_logs(reply: Result<Vec<u8>, String>)
    ensures
        reply is Err ==> logs_in_reply(reply).len() == 0,
        reply matches Ok(body) ==> match json_member_json(body@, "result"@) {
            None => logs_in_reply(reply).len() == 0,
            Some(text) => match json_logs(text) {
                Some(rows) => logs_in_reply(reply) == if text == "null"@ {
                    Seq::empty()
                } else {
                    rows
                },
                None => logs_in_reply(reply).len() == 0,
            },
        },
{
}

/// The listener goes on: it looks at the chain again after every rest, starts anew
/// where it could not begin, asks for logs only after a new block was left to
/// settle, and takes no news for a block number that cannot be had or is not new.
pub proof fn law_the_listener_goes_on(
    state: PollState,
    event: PollEvent,
    next: PollState,
    action: PollAction,
)
    requires
        poll_step(state, event, next, action),
    ensures
        state is Start ==> (event matches PollEvent::Block(Ok(block)) ==> action is FetchBlock
            && next == (PollState::Polling { last_block: block })),
        state is Start ==> (event matches PollEvent::Block(Err(e)) ==> next is Restarting && (
        action matches PollAction::Restart { reason, millis } && millis == 100 && reason@
            == "Failed to get initial block number: "@ + e@)),
        state is Restarting && event is Woke ==> next is Start && action is FetchBlock,
        state matches PollState::Resting { last_block } ==> (event is Woke ==> next
            == (PollState::Polling { last_block }) && action is FetchBlock),
        state matches PollState::Polling { last_block } ==> (event matches PollEvent::Block(
            reply,
        ) ==> if reply matches Ok(block) && block > last_block {
            &&& next == (PollState::Settling { last_block, current_block: reply->Ok_0 })
            &&& action == (PollAction::Sleep { millis: 2500 })
        } else {
            &&& next == (PollState::Resting { last_block })
            &&& action == (PollAction::Sleep { millis: 2000 })
        }),
        state matches PollState::Settling { last_block, current_block } ==> (event is Woke
            && last_block < current_block ==> (action matches PollAction::FetchLogs {
            from_block,
            to_block,
        } && from_block == last_block + 1 && to_block == current_block)),
        next is Resting && !(state is Resting) ==> action == (PollAction::Sleep { millis: 2000 }),
{
}

// ---------------------------------------------------------------------------
// Events
// ---------------------------------------------------------------------------

/// The sessions after a download was confirmed on the chain.
pub open spec fn with_confirmation(
    sessions: SessionMap,
    download_key: Seq<char>,
    now: u128,
) -> SessionMap {
    match lookup(sessions, download_key) {
        Some(session) => sessions.insert(
            download_key,
            SessionView { confirmed_at: Some(now), ..session },
        ),
        None => sessions,
    }
}

/// Whether the caches changed, and a session is named, as a confirmation on the chain
/// asks.
pub open spec fn notes_confirmation(
    before: CachesView,
    after: CachesView,
    download_key: Seq<u8>,
    now: u128,
    named: Option<Seq<char>>,
) -> bool {
    &&& after == (CachesView {
        sessions: with_confirmation(before.sessions, hex_text(download_key), now),
        ..before
    })
    &&& named == if before.sessions.contains_key(hex_text(download_key)) {
        Some(hex_text(download_key))
    } else {
        None
    }
}

/// A confirmation on the chain concerns the session under the key in hex: that session
/// alone is marked with the time and named to be dropped, and nothing else in memory
/// changes. Where there is none, nothing changes at all.
pub proof fn law_confirmation_names_its_session(
    before: CachesView,
    after: CachesView,
    download_key: Seq<u8>,
    now: u128,
    named: Option<Seq<char>>,
    other: Seq<char>,
)
    requires
        notes_confirmation(before, after, download_key, now, named),
    ensures
        after.uploads == before.uploads,
        after.received == before.received,
        after.contracts == before.contracts,
        after.sessions.contains_key(other) <==> before.sessions.contains_key(other),
        before.sessions.contains_key(other) && other != hex_text(download_key)
            ==> after.sessions[other] == before.sessions[other],
        !before.sessions.contains_key(hex_text(download_key)) ==> named is None && after == before,
        before.sessions.contains_key(hex_text(download_key)) ==> ({
            let then = before.sessions[hex_text(download_key)];
            let now_is = after.sessions[hex_text(download_key)];
            &&& named == Some(hex_text(download_key))
            &&& now_is.confirmed_at == Some(now)
            &&& now_is.download_key == then.download_key
            &&& now_is.file_key == then.file_key
            &&& now_is.file_owner == then.file_owner
            &&& now_is.remaining_chunks == then.remaining_chunks
            &&& now_is.total_chunks == then.total_chunks
            &&& now_is.first_ip == then.first_ip
            &&& now_is.retry_remaining == then.retry_remaining
            &&& now_is.verified_signature == then.verified_signature
            &&& now_is.is_public == then.is_public
            &&& now_is.whitelist == then.whitelist
            &&& now_is.created_at == then.created_at
        }),
{
}

/// Notes that a download was confirmed on the chain. The session that is to be
/// dropped next is named, if there is one.
pub fn process_download_confirmed_event(caches: &mut Caches, download_key: &Key32, now: u128) -> (r:
    Option<String>)
    ensures
        final(caches)@ == (CachesView {
            sessions: with_confirmation(old(caches)@.sessions, hex_text(download_key@), now),
            ..old(caches)@
        }),
        match r {
            Some(key) => key@ == hex_text(download_key@) && old(caches)@.sessions.contains_key(
                hex_text(download_key@),
            ),
            None => !old(caches)@.sessions.contains_key(hex_text(download_key@)),
        },
        notes_confirmation(old(caches)@, final(caches)@, download_key@, now, opt_text(r)),
{
    let key = hex_encode(download_key.as_slice());
    match caches.session(key.as_str()) {
        None => None,
        Some(mut session) => {
            session.confirmed_at = Some(now);
            caches.put_session(key.clone(), session);
            Some(key)
        },
    }
}

/// Noting a confirmation, and dropping a session then, keeps whose download each
/// session is that stays.
pub proof fn law_confirming_carries_sessions_on(
    sessions: SessionMap,
    download_key: Seq<char>,
    now: u128,
)
    ensures
        carries_on(sessions, with_confirmation(sessions, download_key, now)),
        carries_on(sessions, sessions.remove(download_key)),
        well_keyed(sessions) ==> well_keyed(with_confirmation(sessions, download_key, now)),
        well_keyed(sessions) ==> well_keyed(sessions.remove(download_key)),
{
}

/// Whether the caches changed as dropping a session asks.
pub open spec fn drops_session(
    before: CachesView,
    after: CachesView,
    download_key: Seq<char>,
    dropped: bool,
) -> bool {
    &&& after == (CachesView { sessions: before.sessions.remove(download_key), ..before })
    &&& dropped == before.sessions.contains_key(download_key)
}

/// Dropping a session takes out that session and no other, and nothing else in memory
/// changes; it is said whether there was one.
pub proof fn law_one_session_is_dropped(
    before: CachesView,
    after: CachesView,
    download_key: Seq<char>,
    dropped: bool,
    other: Seq<char>,
)
    requires
        drops_session(before, after, download_key, dropped),
    ensures
        !after.sessions.contains_key(download_key),
        dropped <==> before.sessions.contains_key(download_key),
        other != download_key ==> lookup(after.sessions, other) == lookup(before.sessions, other),
        after.uploads == before.uploads,
        after.received == before.received,
        after.contracts == before.contracts,
{
}

/// Drops a session whose download was confirmed.
pub fn drop_confirmed_session(caches: &mut Caches, download_key: &str) -> (dropped: bool)
    ensures
        final(caches)@ == (CachesView {
            sessions: old(caches)@.sessions.remove(download_key@),
            ..old(caches)@
        }),
        dropped == old(caches)@.sessions.contains_key(download_key@),
        drops_session(old(caches)@, final(caches)@, download_key@, dropped),
{
    caches.take_session(download_key).is_some()
}

/// Whether the caches changed, and a key is given, as the activation of a file asks.
pub open spec fn forgets_upload(
    before: CachesView,
    after: CachesView,
    file_key: Seq<u8>,
    key: Seq<char>,
) -> bool {
    &&& after == (CachesView { uploads: before.uploads.remove(hex_text(file_key)), ..before })
    &&& key == hex_text(file_key)
}

/// The activation of a file ends its upload, which is kept under the file's key in hex,
/// and no other; nothing else in memory changes.
pub proof fn law_activation_ends_one_upload(
    before: CachesView,
    after: CachesView,
    file_key: Seq<u8>,
    key: Seq<char>,
    other: Seq<char>,
)
    requires
        forgets_upload(before, after, file_key, key),
    ensures
        key == hex_text(file_key),
        !after.uploads.contains_key(hex_text(file_key)),
        other != hex_text(file_key) ==> lookup(after.uploads, other) == lookup(
            before.uploads,
            other,
        ),
        after.sessions == before.sessions,
        after.received == before.received,
        after.contracts == before.contracts,
{
}

/// Forgets the upload of a file that is active now. Its key is given, under which
/// open files are to be closed.
pub fn process_file_activated_event(caches: &mut Caches, file_key: &Key32) -> (key: String)
    ensures
        final(caches)@ == (CachesView {
            uploads: old(caches)@.uploads.remove(hex_text(file_key@)),
            ..old(caches)@
        }),
        key@ == hex_text(file_key@),
        forgets_upload(old(caches)@, final(caches)@, file_key@, key@),
{
    let key = hex_encode(file_key.as_slice());
    let _ = caches.forget_upload(key.as_str());
    key
}

/// How far the deletion of a file has come.
#[derive(Debug)]
pub enum DeleteState {
    Start,
    RemovingTree,
    RemovingLevel2,
    RemovingLevel1,
    Finished,
}

/// What happened while a file is deleted.
#[derive(Clone, Copy, PartialEq, Eq, Structural, Debug)]
pub enum DeleteEvent {
    Begin,
    /// Whether a directory is gone.
    Removed(bool),
}

/// What to do next to delete a file.
#[derive(Debug)]
pub enum DeleteAction {
    /// Remove a directory with all that is in it.
    RemoveTree { path: String },
    /// Remove a directory if it is empty.
    RemoveEmpty { path: String },
    /// Close open files under this key.
    CloseFiles { key: String },
    /// The event does not belong here; nothing changes.
    Ignore,
}

/// The directory of the first level of a file.
pub open spec fn level1_dir(storage_root: Seq<char>, file_key: Seq<char>) -> Seq<char> {
    joined(storage_root, level1(file_key))
}

/// The directory of the second level of a file.
pub open spec fn level2_dir(storage_root: Seq<char>, file_key: Seq<char>) -> Seq<char> {
    joined(level1_dir(storage_root, file_key), level2(file_key))
}

/// One step in the deletion of a file: its directory goes, then the levels above
/// where they are empty, and in any case what is known of its upload.
pub open spec fn delete_step(
    storage_root: Seq<char>,
    key: Seq<char>,
    state: DeleteState,
    event: DeleteEvent,
    before: crate::cache::UploadMap,
    after: crate::cache::UploadMap,
    next: DeleteState,
    action: DeleteAction,
) -> bool {
    let ends = {
        &&& after == before.remove(key)
        &&& next is Finished
        &&& action matches DeleteAction::CloseFiles { key: closing }
        &&& closing@ == key
    };
    match (state, event) {
        (DeleteState::Start, DeleteEvent::Begin) => {
            &&& after == before
            &&& next is RemovingTree
            &&& action matches DeleteAction::RemoveTree { path }
            &&& path@ == key_path(storage_root, key)
        },
        (DeleteState::RemovingTree, DeleteEvent::Removed(gone)) => if gone {
            &&& after == before
            &&& next is RemovingLevel2
            &&& action matches DeleteAction::RemoveEmpty { path }
            &&& path@ == level2_dir(storage_root, key)
        } else {
            ends
        },
        (DeleteState::RemovingLevel2, DeleteEvent::Removed(_)) => {
            &&& after == before
            &&& next is RemovingLevel1
            &&& action matches DeleteAction::RemoveEmpty { path }
            &&& path@ == level1_dir(storage_root, key)
        },
        (DeleteState::RemovingLevel1, DeleteEvent::Removed(_)) => ends,
        _ => after == before && next == state && action is Ignore,
    }
}

/// Goes one step in the deletion of a file that the chain has given up.
pub fn process_file_deleted_event(
    caches: &mut Caches,
    storage_root: &str,
    file_key: &Key32,
    state: DeleteState,
    event: DeleteEvent,
) -> (r: (DeleteState, DeleteAction))
    ensures
        delete_step(
            storage_root@,
            hex_text(file_key@),
            state,
            event,
            old(caches)@.uploads,
            final(caches)@.uploads,
            r.0,
            r.1,
        ),
        final(caches)@ == (CachesView { uploads: final(caches)@.uploads, ..old(caches)@ }),
{
    let key = hex_encode(file_key.as_slice());
    proof {
        law_hex_round_trip(file_key@);
        lemma_ascii_levels(key@);
    }
    let (first, second) = key_levels(key.as_str());
    let upper = join_path(storage_root, first.as_str());
    match (state, event) {
        (DeleteState::Start, DeleteEvent::Begin) => (
            DeleteState::RemovingTree,
            DeleteAction::RemoveTree { path: get_file_key_path(storage_root, key.as_str()) },
        ),
        (DeleteState::RemovingTree, DeleteEvent::Removed(gone)) => {
            if gone {
                (
                    DeleteState::RemovingLevel2,
                    DeleteAction::RemoveEmpty { path: join_path(upper.as_str(), second.as_str()) },
                )
            } else {
                let _ = caches.forget_upload(key.as_str());
                (DeleteState::Finished, DeleteAction::CloseFiles { key })
            }
        },
        (DeleteState::RemovingLevel2, DeleteEvent::Removed(_)) => (
            DeleteState::RemovingLevel1,
            DeleteAction::RemoveEmpty { path: upper },
        ),
        (DeleteState::RemovingLevel1, DeleteEvent::Removed(_)) => {
            let _ = caches.forget_upload(key.as_str());
            (DeleteState::Finished, DeleteAction::CloseFiles { key })
        },
        (state, _) => (state, DeleteAction::Ignore),
    }
}

/// One step that a deletion took.
pub struct DeleteStep {
    pub state: DeleteState,
    pub event: DeleteEvent,
    pub before: crate::cache::UploadMap,
    pub after: crate::cache::UploadMap,
    pub next: DeleteState,
    pub action: DeleteAction,
}

/// Whether a row of steps deletes a file.
pub open spec fn delete_run(
    storage_root: Seq<char>,
    key: Seq<char>,
    run: Seq<DeleteStep>,
) -> bool {
    &&& run.len() > 0 ==> run[0].state is Start
    &&& forall|i: int|
        0 <= i < run.len() ==> {
            let step = #[trigger] run[i];
            delete_step(
                storage_root,
                key,
                step.state,
                step.event,
                step.before,
                step.after,
                step.next,
                step.action,
            )
        }
    &&& forall|i: int, j: int|
        0 <= i < run.len() && j == i + 1 && j < run.len() ==> (#[trigger] run[j]).state == (
        #[trigger] run[i]).next
}

/// What a deletion removes is what was stored: the tree that goes is the directory
/// of every plan by which a chunk of the file was kept, over whatever transport, and
/// so holds the file of its chunks and the list of them. It is the directory in
/// which the chunks are counted and looked for.
pub proof fn law_deletion_removes_what_was_stored(
    storage_root: Seq<char>,
    file_key: Key32,
    before: crate::cache::UploadMap,
    after: crate::cache::UploadMap,
    next: DeleteState,
    action: DeleteAction,
    plan: WritePlan,
    chunk_index: u64,
    stride: u64,
)
    requires
        delete_step(
            storage_root,
            hex_text(file_key@),
            DeleteState::Start,
            DeleteEvent::Begin,
            before,
            after,
            next,
            action,
        ),
        keeps_chunk(plan, storage_root, hex_text(file_key@), chunk_index, stride),
    ensures
        after == before,
        next is RemovingTree,
        action matches DeleteAction::RemoveTree { path } && {
            &&& path@ == plan.dir@
            &&& plan.bin_path@ == path@ + "/"@ + hex_text(file_key@) + ".bin"@
            &&& plan.meta_path@ == path@ + "/"@ + hex_text(file_key@) + ".meta"@
            &&& bin_path(storage_root, hex_text(file_key@)) == plan.bin_path@
        },
{
    law_hex_round_trip(file_key@);
    law_file_lies_in_its_directory(storage_root, hex_text(file_key@));
}

/// A deletion takes the file's directory and, where that went, the two levels above
/// it, the lower one first and each only if it is empty: each directory that is taken
/// is the parent of the one before. In any case it ends by forgetting the upload of
/// the file, and of no other, and by closing what is open under its key.
pub proof fn law_deletion_clears_up(
    storage_root: Seq<char>,
    file_key: Key32,
    run: Seq<DeleteStep>,
    gone: bool,
)
    requires
        delete_run(storage_root, hex_text(file_key@), run),
        run.len() == (if gone {
            4int
        } else {
            2
        }),
        run[0].event is Begin,
        run[1].event == DeleteEvent::Removed(gone),
        forall|i: int| 2 <= i < run.len() ==> (#[trigger] run[i]).event is Removed,
    ensures
        run[0].action is RemoveTree,
        gone ==> {
            let key = hex_text(file_key@);
            &&& run[0].action matches DeleteAction::RemoveTree { path: tree }
            &&& run[1].action matches DeleteAction::RemoveEmpty { path: lower }
            &&& run[2].action matches DeleteAction::RemoveEmpty { path: upper }
            &&& tree@ == lower@ + "/"@ + key
            &&& lower@ == upper@ + "/"@ + key.subrange(2, 4)
            &&& upper@ == joined(storage_root, key.subrange(0, 2))
        },
        run.last().next is Finished,
        run.last().action matches DeleteAction::CloseFiles { key } && key@ == hex_text(file_key@),
        !run.last().after.contains_key(hex_text(file_key@)),
        forall|key: Seq<char>|
            key != hex_text(file_key@) ==> lookup(run.last().after, key) == #[trigger] lookup(
                run.last().before,
                key,
            ),
        forall|i: int| 0 <= i < run.len() - 1 ==> (#[trigger] run[i]).after == run[i].before,
{
    let key = hex_text(file_key@);
    law_hex_round_trip(file_key@);
    law_levels_stand_in_the_path(storage_root, key);
    assert(run[1].state == run[0].next);
    if gone {
        assert(run[2].state == run[1].next);
        assert(run[3].state == run[2].next);
    }
}

/// The sessions and uploads that an event of the chain does not name stay as they
/// are, and the one that it names is marked.
pub proof fn law_confirmation_marks_one_session(
    sessions: SessionMap,
    download_key: Key32,
    now: u128,
    key: Seq<char>,
)
    ensures
        key != hex_text(download_key@) ==> lookup(
            with_confirmation(sessions, hex_text(download_key@), now),
            key,
        ) == lookup(sessions, key),
        sessions.contains_key(hex_text(download_key@)) ==> lookup(
            with_confirmation(sessions, hex_text(download_key@), now),
            hex_text(download_key@),
        ) == Some(
            SessionView { confirmed_at: Some(now), ..sessions[hex_text(download_key@)] },
        ),
        !sessions.contains_key(hex_text(download_key@)) ==> with_confirmation(
            sessions,
            hex_text(download_key@),
            now,
        ) == sessions,
{
}

/// A log is seen as it is: its writer, its topics in order, its data; and so is a row of
/// logs, log by log.
pub proof fn law_logs_are_seen_whole(logs: Seq<RawLog>, i: int, t: int)
    requires
        0 <= i < logs.len(),
        0 <= t < logs[i].topics@.len(),
    ensures
        raw_rows(logs).len() == logs.len(),
        raw_rows(logs)[i].0 == logs[i].address@,
        raw_rows(logs)[i].1.len() == logs[i].topics@.len(),
        raw_rows(logs)[i].1[t] == logs[i].topics@[t]@,
        raw_rows(logs)[i].2 == logs[i].data@,
        raw_row(logs[i]) == raw_rows(logs)[i],
{
}

/// A block number is seen as it is, and so is the text of an error.
pub proof fn law_block_is_seen_whole(r: Result<u64, String>)
    ensures
        r matches Ok(n) ==> (block_result(r) matches Ok(seen) && seen == n),
        r matches Err(e) ==> block_result(r) == Err::<nat, Seq<char>>(e@),
{
}

/// What happens to the listener out of turn changes nothing.
pub proof fn law_listener_ignores_strays(
    state: PollState,
    event: PollEvent,
    next: PollState,
    action: PollAction,
)
    requires
        poll_step(state, event, next, action),
        !(state is Start && event is Block),
        !(state is Restarting && event is Woke),
        !(state is Polling && event is Block),
        !(state is Settling && event is Woke),
        !(state is Fetching && event is Fetched),
        !(state is Checking && event is Validity),
        !(state is Decoding && event is Decoded),
        !(state is Acting && event is Acted),
        !(state is Resting && event is Woke),
    ensures
        next == state && action is Ignore,
{
}

/// What happens to a deletion out of turn changes nothing.
pub proof fn law_deletion_ignores_strays(
    storage_root: Seq<char>,
    key: Seq<char>,
    state: DeleteState,
    event: DeleteEvent,
    before: crate::cache::UploadMap,
    after: crate::cache::UploadMap,
    next: DeleteState,
    action: DeleteAction,
)
    requires
        delete_step(storage_root, key, state, event, before, after, next, action),
        !(state is Start && event is Begin),
        !(state is RemovingTree && event is Removed),
        !(state is RemovingLevel2 && event is Removed),
        !(state is RemovingLevel1 && event is Removed),
    ensures
        next == state && after == before && action is Ignore,
{
}

} // verus!
