//! The HTTP side: one chunk for a GET on a download key and a chunk index.

use crate::cache::{lookup, Caches, CachesView, SessionMap};
use crate::download_manager::{
    carries_on, completes, counted_down, descrease_chunk_count, has_budget, is_readable, well_keyed,
};
use crate::encoding::{base64_bytes, base64_decode, base64_text};
use crate::ethereum::{handle_download_request, DownloadStep};
use crate::models::{DownloadChunkPayload, IpAddr};
use crate::server::{encode_chunk, ChunkResponse};
use crate::storage::read_place;
use crate::text::{
    all_white, is_white, lemma_split_without, lemma_trimmed_padded, same_text, split_on, split_text,
    texts, trim_text, trimmed,
};
use vstd::prelude::*;
use vstd::string::*;

verus! {

/// What a forwarding header names first: what stands before its first comma, without
/// the white space around it.
pub open spec fn first_forwarded(header: Seq<char>) -> Seq<char> {
    trimmed(split_on(header, ',')[0])
}

/// The text that may be the client's address: what stands before the first comma
/// of the forwarding header, without the white space around it.
pub fn forwarded_address(header: &str) -> (text: String)
    ensures
        text@ == trimmed(split_on(header@, ',')[0]),
        text@ == first_forwarded(header@),
{
    let parts = split_text(header, ',');
    assert(texts(parts@)[0] == parts@[0]@);
    trim_text(parts[0].as_str())
}

/// How far a GET has come.
#[derive(Debug)]
pub enum GetState {
    Start,
    AwaitVerify,
    AwaitRead,
    Finished,
}

/// What happened during a GET.
#[derive(Debug)]
pub enum GetEvent {
    /// The headers: the address that a proxy forwarded, and the signature.
    Headers { forwarded: Option<IpAddr>, signature: Option<String> },
    /// Whether the request may go on.
    Verified(Result<bool, String>),
    /// What was read from disk, if anything.
    ChunkRead(Option<Vec<u8>>),
}

/// What to do next during a GET.
#[derive(Debug)]
pub enum GetAction {
    Verify { payload: DownloadChunkPayload, request_ip: IpAddr },
    Read { file_key: String, offset: u64, limit: u64 },
    /// Answer with a status and a text.
    Refuse { status: u16, message: String },
    /// Answer with a chunk; a complete download is to be confirmed.
    Serve {
        status: u16,
        content_type: String,
        cache_control: String,
        body: Vec<u8>,
        should_confirm: bool,
    },
    /// The event does not belong here; nothing changes.
    Ignore,
}

/// Whether a step answers with a status and a text.
pub open spec fn get_refuses(
    next: GetState,
    action: GetAction,
    code: u16,
    text: Seq<char>,
) -> bool {
    &&& next is Finished
    &&& action matches GetAction::Refuse { status, message }
    &&& status == code
    &&& message@ == text
}

/// Whether a step answers with a chunk.
pub open spec fn get_serves(
    next: GetState,
    action: GetAction,
    chunk: Seq<u8>,
    confirm: bool,
) -> bool {
    &&& next is Finished
    &&& action matches GetAction::Serve {
        status,
        content_type,
        cache_control,
        body,
        should_confirm,
    }
    &&& status == 200
    &&& content_type@ == "application/octet-stream"@
    &&& cache_control@ == "no-store"@
    &&& body@ == chunk
    &&& should_confirm == confirm
}

/// One step of a GET. A proxy's word for the client's address goes before the
/// address of the connection.
pub open spec fn get_step(
    download_key: Seq<char>,
    chunk_index: u64,
    peer_ip: IpAddr,
    state: GetState,
    event: GetEvent,
    before: SessionMap,
    after: SessionMap,
    next: GetState,
    action: GetAction,
) -> bool {
    match (state, event) {
        (GetState::Start, GetEvent::Headers { forwarded, signature }) => {
            &&& after == before
            &&& match signature {
                None => get_refuses(next, action, 401, "Missing X-Signature header"@),
                Some(given) => {
                    &&& next is AwaitVerify
                    &&& action matches GetAction::Verify { payload, request_ip }
                    &&& request_ip == match forwarded {
                        Some(ip) => ip,
                        None => peer_ip,
                    }
                    &&& payload.file_key@ == ""@
                    &&& payload.download_key@ == download_key
                    &&& payload.chunk_index == chunk_index
                    &&& payload.signature@ == given@
                },
            }
        },
        (GetState::AwaitVerify, GetEvent::Verified(verdict)) => {
            &&& after == before
            &&& match verdict {
                Err(e) => get_refuses(next, action, 403, e@),
                Ok(false) => get_refuses(next, action, 401, "Verification failed"@),
                Ok(true) => match lookup(before, download_key) {
                    None => get_refuses(next, action, 500, "Session not found after verify"@),
                    Some(session) => if !has_budget(session) {
                        get_refuses(next, action, 500, "No remaining downloads for this key"@)
                    } else {
                        &&& next is AwaitRead
                        &&& action matches GetAction::Read { file_key, offset, limit }
                        &&& file_key@ == session.file_key
                        &&& (offset as nat, limit as nat) == read_place(chunk_index)
                    },
                },
            }
        },
        (GetState::AwaitRead, GetEvent::ChunkRead(read)) => match read {
            None => after == before && get_refuses(next, action, 500, "Chunk data not found"@),
            Some(chunk) => match lookup(before, download_key) {
                Some(session) if has_budget(session) => {
                    &&& after == before.insert(download_key, counted_down(session))
                    &&& get_serves(next, action, chunk@, completes(session))
                },
                _ => after == before && get_serves(next, action, chunk@, false),
            },
        },
        _ => after == before && next == state && action is Ignore,
    }
}

fn refuse(status: u16, message: String) -> (r: (GetState, GetAction))
    ensures
        get_refuses(r.0, r.1, status, message@),
{
    (GetState::Finished, GetAction::Refuse { status, message })
}

/// The bytes that a chunk response carries; none where it carries no Base64.
pub open spec fn carried_bytes(response: ChunkResponse) -> Seq<u8> {
    let text = match response.chunk_data_base64 {
        Some(text) => text@,
        None => Seq::empty(),
    };
    match base64_bytes(text) {
        Some(bytes) => bytes,
        None => Seq::empty(),
    }
}

/// Takes the chunk out of a response.
pub fn decode_chunk(response: &ChunkResponse) -> (body: Vec<u8>)
    ensures
        body@ == carried_bytes(*response),
        forall|data: Seq<u8>|
            (response.chunk_data_base64 matches Some(text) && text@ == #[trigger] base64_text(
                data,
            )) ==> body@ == data,
{
    let decoded = match &response.chunk_data_base64 {
        Some(text) => base64_decode(text.as_str()),
        None => {
            let text = String::new();
            base64_decode(text.as_str())
        },
    };
    match decoded {
        Some(bytes) => bytes,
        None => Vec::new(),
    }
}

/// Goes one step in a GET.
pub fn download_chunk_handler(
    caches: &mut Caches,
    download_key: &str,
    chunk_index: u64,
    peer_ip: IpAddr,
    state: GetState,
    event: GetEvent,
) -> (r: (GetState, GetAction))
    requires
        match (state, event) {
            (GetState::AwaitVerify, GetEvent::Verified(Ok(true))) => is_readable(
                old(caches)@.sessions,
                download_key@,
                chunk_index,
            ),
            _ => true,
        },
    ensures
        get_step(
            download_key@,
            chunk_index,
            peer_ip,
            state,
            event,
            old(caches)@.sessions,
            final(caches)@.sessions,
            r.0,
            r.1,
        ),
        final(caches)@ == (CachesView { sessions: final(caches)@.sessions, ..old(caches)@ }),
{
    match (state, event) {
        (GetState::Start, GetEvent::Headers { forwarded, signature }) => {
            match signature {
                None => refuse(401, "Missing X-Signature header".to_owned()),
                Some(signature) => {
                    let request_ip = match forwarded {
                        Some(ip) => ip,
                        None => peer_ip,
                    };
                    let payload = DownloadChunkPayload {
                        file_key: "".to_owned(),
                        download_key: download_key.to_owned(),
                        chunk_index,
                        signature,
                    };
                    (GetState::AwaitVerify, GetAction::Verify { payload, request_ip })
                },
            }
        },
        (GetState::AwaitVerify, GetEvent::Verified(verdict)) => {
            match verdict {
                Err(e) => refuse(403, e),
                Ok(false) => refuse(401, "Verification failed".to_owned()),
                Ok(true) => match caches.session(download_key) {
                    None => refuse(500, "Session not found after verify".to_owned()),
                    Some(session) => {
                        let payload = DownloadChunkPayload {
                            file_key: session.file_key,
                            download_key: download_key.to_owned(),
                            chunk_index,
                            signature: String::new(),
                        };
                        match handle_download_request(caches, &payload) {
                            DownloadStep::Answer(response) => refuse(500, response.message),
                            DownloadStep::Read { offset, limit } => (
                                GetState::AwaitRead,
                                GetAction::Read { file_key: payload.file_key, offset, limit },
                            ),
                        }
                    },
                },
            }
        },
        (GetState::AwaitRead, GetEvent::ChunkRead(read)) => {
            let response = encode_chunk(read);
            proof {
                reveal_strlit("SUCCESS");
                reveal_strlit("ERROR");
                assert("SUCCESS"@.len() != "ERROR"@.len());
            }
            if same_text(response.status.as_str(), "SUCCESS") {
                let body = decode_chunk(&response);
                let should_confirm = match descrease_chunk_count(caches, download_key) {
                    Ok(count) => count.should_confirm,
                    Err(_) => false,
                };
                (
                    GetState::Finished,
                    GetAction::Serve {
                        status: 200,
                        content_type: "application/octet-stream".to_owned(),
                        cache_control: "no-store".to_owned(),
                        body,
                        should_confirm,
                    },
                )
            } else {
                refuse(500, response.message)
            }
        },
        (state, _) => (state, GetAction::Ignore),
    }
}

/// A GET is answered when it ends; no chunk is read for it unless it was
/// verified, and none is counted unless it is served.
pub proof fn law_gets_are_verified_and_answered(
    download_key: Seq<char>,
    chunk_index: u64,
    peer_ip: IpAddr,
    state: GetState,
    event: GetEvent,
    before: SessionMap,
    after: SessionMap,
    next: GetState,
    action: GetAction,
)
    requires
        get_step(
            download_key,
            chunk_index,
            peer_ip,
            state,
            event,
            before,
            after,
            next,
            action,
        ),
    ensures
        next is Finished && !(state is Finished) ==> action is Refuse || action is Serve,
        action is Read ==> state is AwaitVerify && event == GetEvent::Verified(Ok(true)),
        after != before ==> action is Serve,
{
}

/// Serving a chunk keeps whose download each session is.
pub proof fn law_serving_carries_sessions_on(
    download_key: Seq<char>,
    chunk_index: u64,
    peer_ip: IpAddr,
    state: GetState,
    event: GetEvent,
    before: SessionMap,
    after: SessionMap,
    next: GetState,
    action: GetAction,
)
    requires
        get_step(download_key, chunk_index, peer_ip, state, event, before, after, next, action),
    ensures
        carries_on(before, after),
        well_keyed(before) ==> well_keyed(after),
{
}

/// A GET whose every step goes well is answered with the chunk that it asks for: it is
/// verified for the address that a proxy forwarded or else for the peer's own, the file
/// is that of the session, its bytes are read at the chunk's place, what was read is
/// served as it is, and one chunk is taken off the session and no other.
pub proof fn law_get_serves_the_chunk(
    download_key: Seq<char>,
    chunk_index: u64,
    peer_ip: IpAddr,
    forwarded: Option<IpAddr>,
    signature: String,
    chunk: Vec<u8>,
    sessions: Seq<SessionMap>,
    states: Seq<GetState>,
    actions: Seq<GetAction>,
)
    requires
        sessions.len() == 4 && states.len() == 4 && actions.len() == 3,
        states[0] is Start,
        get_step(
            download_key,
            chunk_index,
            peer_ip,
            states[0],
            GetEvent::Headers { forwarded, signature: Some(signature) },
            sessions[0],
            sessions[1],
            states[1],
            actions[0],
        ),
        get_step(
            download_key,
            chunk_index,
            peer_ip,
            states[1],
            GetEvent::Verified(Ok(true)),
            sessions[1],
            sessions[2],
            states[2],
            actions[1],
        ),
        get_step(
            download_key,
            chunk_index,
            peer_ip,
            states[2],
            GetEvent::ChunkRead(Some(chunk)),
            sessions[2],
            sessions[3],
            states[3],
            actions[2],
        ),
        sessions[0].contains_key(download_key),
        sessions[0][download_key].remaining_chunks + sessions[0][download_key].retry_remaining > 0,
    ensures
        actions[0] matches GetAction::Verify { payload, request_ip } && payload.file_key@.len() == 0
            && payload.download_key@ == download_key && payload.chunk_index == chunk_index && payload.signature@
            == signature@ && (forwarded matches Some(ip) ==> request_ip == ip) && (
        forwarded is None ==> request_ip == peer_ip),
        actions[1] matches GetAction::Read { file_key, offset, limit } && file_key@
            == sessions[0][download_key].file_key && offset == chunk_index * 1_048_576 && limit
            == 1_048_576,
        actions[2] matches GetAction::Serve {
            status,
            content_type,
            cache_control,
            body,
            should_confirm,
        } && status == 200 && content_type@ == "application/octet-stream"@ && cache_control@
            == "no-store"@ && body@ == chunk@ && should_confirm == (
        sessions[0][download_key].remaining_chunks == 1),
        sessions[2] == sessions[0],
        sessions[3].dom() == sessions[0].dom(),
        forall|key: Seq<char>|
            key != download_key && sessions[0].contains_key(key) ==> #[trigger] sessions[3][key]
                == sessions[0][key],
        sessions[3][download_key].remaining_chunks + sessions[3][download_key].retry_remaining + 1
            == sessions[0][download_key].remaining_chunks
            + sessions[0][download_key].retry_remaining,
        states[3] is Finished,
{
    reveal_strlit("");
    assert(sessions[3].dom() =~= sessions[0].dom());
}

/// What stands in the way of a GET is told by a status and in words, and nothing is
/// counted: 401 where the signature is missing or is not accepted, 403 where the
/// verification fails, 500 where there is nothing to serve.
pub proof fn law_get_is_refused_in_words(
    download_key: Seq<char>,
    chunk_index: u64,
    peer_ip: IpAddr,
    state: GetState,
    event: GetEvent,
    before: SessionMap,
    after: SessionMap,
    next: GetState,
    action: GetAction,
    code: u16,
    words: Seq<char>,
)
    requires
        get_step(download_key, chunk_index, peer_ip, state, event, before, after, next, action),
        match (state, event) {
            (GetState::Start, GetEvent::Headers { signature, .. }) => signature is None && code
                == 401 && words == "Missing X-Signature header"@,
            (GetState::AwaitVerify, GetEvent::Verified(Err(e))) => code == 403 && words == e@,
            (GetState::AwaitVerify, GetEvent::Verified(Ok(false))) => code == 401 && words
                == "Verification failed"@,
            (GetState::AwaitVerify, GetEvent::Verified(Ok(true))) => code == 500
                && if before.contains_key(download_key) {
                &&& before[download_key].remaining_chunks == 0
                &&& before[download_key].retry_remaining == 0
                &&& words == "No remaining downloads for this key"@
            } else {
                words == "Session not found after verify"@
            },
            (GetState::AwaitRead, GetEvent::ChunkRead(None)) => code == 500 && words
                == "Chunk data not found"@,
            _ => false,
        },
    ensures
        next is Finished,
        after == before,
        action matches GetAction::Refuse { status, message } && status == code && message@ == words,
{
}

/// A chunk whose session is gone or used up by the time it was read is served and
/// counts for nothing; what happens to a GET out of turn changes nothing.
pub proof fn law_get_counts_only_what_is_left(
    download_key: Seq<char>,
    chunk_index: u64,
    peer_ip: IpAddr,
    state: GetState,
    event: GetEvent,
    before: SessionMap,
    after: SessionMap,
    next: GetState,
    action: GetAction,
)
    requires
        get_step(download_key, chunk_index, peer_ip, state, event, before, after, next, action),
    ensures
        state is AwaitRead && (before.contains_key(download_key)
            ==> before[download_key].remaining_chunks == 0
            && before[download_key].retry_remaining == 0) ==> (event matches GetEvent::ChunkRead(
            Some(chunk),
        ) ==> after == before && (action matches GetAction::Serve { body, should_confirm, .. }
            && body@ == chunk@ && !should_confirm)),
        !(state is Start && event is Headers) && !(state is AwaitVerify && event is Verified) && !(
        state is AwaitRead && event is ChunkRead) ==> next == state && after == before
            && action is Ignore,
{
}

/// The client's address, where a proxy forwards it, is the first of the list, without
/// the white space around it.
pub proof fn law_first_forwarded_counts(
    front: Seq<char>,
    address: Seq<char>,
    back: Seq<char>,
    rest: Seq<char>,
)
    requires
        all_white(front) && all_white(back),
        address.len() > 0 && !is_white(address[0]) && !is_white(address.last()),
        !address.contains(','),
    ensures
        first_forwarded(front + address + back) == address,
        first_forwarded((front + address + back).push(',') + rest) == address,
{
    let first = front + address + back;
    assert(!first.contains(',')) by {
        if first.contains(',') {
            let i = choose|i: int| 0 <= i < first.len() && first[i] == ',';
            if i < front.len() {
                assert(is_white(front[i]));
            } else if i < front.len() + address.len() {
                assert(address[i - front.len()] == ',');
            } else {
                assert(is_white(back[i - front.len() - address.len()]));
            }
        }
    }
    lemma_trimmed_padded(front, address, back);
    lemma_split_without(first, ',');
    lemma_first_part(first, rest, ',');
}

proof fn lemma_first_part(first: Seq<char>, rest: Seq<char>, sep: char)
    requires
        !first.contains(sep),
    ensures
        split_on(first.push(sep) + rest, sep).len() >= 2,
        split_on(first.push(sep) + rest, sep)[0] == first,
    decreases rest.len(),
{
    let whole = first.push(sep) + rest;
    if rest.len() == 0 {
        assert(whole =~= first.push(sep));
        assert(whole.drop_last() =~= first);
        lemma_split_without(first, sep);
    } else {
        lemma_first_part(first, rest.drop_last(), sep);
        assert(whole.drop_last() =~= first.push(sep) + rest.drop_last());
    }
}

} // verus!
