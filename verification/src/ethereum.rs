//! Who may download and who may upload, and what is confirmed on the chain.

use crate::cache::{lookup, Caches, CachesView, SessionMap, UploadMap};
use crate::crypto::{
    address_digits, address_result, hex_bytes, hex_decode, hex_error, hex_text, is_address, is_hex,
    law_hex_round_trip, parse_address, recover_address_from_signature, signer_of, Address, Key32,
};
use crate::download_manager::{
    carries_on, has_budget, init_step, initialize_download_session, is_readable, key_bytes,
    law_opening_keeps_keys, same_binding, timed_out, to_key, well_keyed, InitAction, InitEvent,
    InitRequest, InitState,
};
use crate::merkle::{proof_depth_allowed, proof_depth_ok, proof_verdict, verify_merkle_proof};
use crate::models::{
    addresses, DownloadChunkPayload, DownloadResponse, DownloadSession, IpAddr, SessionView,
    UploadChunkPayload, UploadFileInfo, UploadView, CHUNK_SIZE,
};
use crate::storage::read_place;
use crate::text::{
    decimal, join_text, same_bytes, same_text, strip_0x, text_result, texts, without_0x,
};
use vstd::prelude::*;
use vstd::string::*;
use vstd::utf8::*;

verus! {

// ---------------------------------------------------------------------------
// Downloads: who may
// ---------------------------------------------------------------------------

/// What a request for a chunk gets.
#[derive(Debug)]
pub enum DownloadCheck {
    Refused(String),
    /// The request may go on.
    Granted,
    /// The signer has to be looked at.
    NeedsSigner,
    /// The request may go on, and its signature is now that of the session.
    GrantedNow,
}

/// Whether a signer may download: the owner of the file, or one on its list.
pub open spec fn may_download(session: SessionView, signer: Seq<u8>) -> bool {
    signer == session.file_owner || session.whitelist.contains(signer)
}

/// What is settled before a signer is looked at: the client's address must be
/// that of the first request, a public file is for everybody, and a session that
/// has accepted a signature accepts no other.
pub open spec fn early_check(
    session: SessionView,
    signature: Seq<char>,
    request_ip: IpAddr,
    check: DownloadCheck,
) -> bool {
    if session.first_ip != request_ip {
        check matches DownloadCheck::Refused(e) && e@ == "IP address mismatch"@
    } else if session.is_public {
        check is Granted
    } else {
        match session.verified_signature {
            None => check is NeedsSigner,
            Some(accepted) => if accepted == signature {
                check is Granted
            } else {
                check matches DownloadCheck::Refused(e) && e@
                    == "Invalid signature (mismatch with cached)"@
            },
        }
    }
}

/// Settles what can be settled without looking at the signer.
pub fn check_request(session: &DownloadSession, signature: &str, request_ip: IpAddr) -> (check:
    DownloadCheck)
    ensures
        early_check(session@, signature@, request_ip, check),
{
    if session.first_ip != request_ip {
        return DownloadCheck::Refused("IP address mismatch".to_owned());
    }
    if session.is_public {
        return DownloadCheck::Granted;
    }
    match &session.verified_signature {
        None => DownloadCheck::NeedsSigner,
        Some(accepted) => {
            if same_text(accepted.as_str(), signature) {
                DownloadCheck::Granted
            } else {
                DownloadCheck::Refused("Invalid signature (mismatch with cached)".to_owned())
            }
        },
    }
}

/// What a session says of an outcome of signature recovery.
pub open spec fn signer_check(
    session: SessionView,
    outcome: Result<Seq<u8>, Seq<char>>,
    check: DownloadCheck,
) -> bool {
    match outcome {
        Err(e) => check matches DownloadCheck::Refused(m) && m@ == e,
        Ok(signer) => if may_download(session, signer) {
            check is GrantedNow
        } else {
            check matches DownloadCheck::Refused(m) && m@
                == "Signer address does not match file owner and is not in whitelist"@
        },
    }
}

/// Whether an address stands in a row.
fn lists_address(row: &Vec<Address>, address: &Address) -> (found: bool)
    ensures
        found == addresses(row@).contains(address@),
{
    let mut i: usize = 0;
    while i < row.len()
        invariant
            i <= row@.len(),
            forall|j: int| 0 <= j < i ==> (#[trigger] addresses(row@)[j]) != address@,
        decreases row@.len() - i,
    {
        if same_bytes(row[i].as_slice(), address.as_slice()) {
            assert(addresses(row@)[i as int] == address@);
            return true;
        }
        i = i + 1;
    }
    false
}

/// Decides on an outcome of signature recovery.
pub fn admit_signer(session: &DownloadSession, outcome: Result<Address, String>) -> (check:
    DownloadCheck)
    ensures
        signer_check(session@, address_result(outcome), check),
{
    match outcome {
        Err(e) => DownloadCheck::Refused(e),
        Ok(signer) => {
            if same_bytes(signer.as_slice(), session.file_owner.as_slice()) || lists_address(
                &session.whitelist,
                &signer,
            ) {
                DownloadCheck::GrantedNow
            } else {
                DownloadCheck::Refused(
                    "Signer address does not match file owner and is not in whitelist".to_owned(),
                )
            }
        },
    }
}

/// Exactly the owner and those on the list may download: a request is granted
/// whoever of them signed it, wherever on the list the signer stands, and refused
/// to everybody else. A signature from which no signer can be recovered is refused
/// in the words of the recovery.
pub proof fn law_exactly_the_listed_are_admitted(
    session: DownloadSession,
    outcome: Result<Address, String>,
    check: DownloadCheck,
)
    requires
        signer_check(session@, address_result(outcome), check),
    ensures
        outcome matches Ok(signer) ==> (signer@ == session.file_owner@ ==> check is GrantedNow),
        forall|i: int|
            0 <= i < session.whitelist@.len() ==> (outcome matches Ok(signer) && signer@ == (
            #[trigger] session.whitelist@[i])@ ==> check is GrantedNow),
        outcome matches Ok(signer) ==> (signer@ != session.file_owner@ && (forall|i: int|
            0 <= i < session.whitelist@.len() ==> signer@ != (#[trigger] session.whitelist@[i])@)
            ==> (check matches DownloadCheck::Refused(e) && e@
            == "Signer address does not match file owner and is not in whitelist"@)),
        outcome matches Err(e) ==> (check matches DownloadCheck::Refused(m) && m@ == e@),
{
    let row = session@.whitelist;
    if let Ok(signer) = outcome {
        assert forall|i: int|
            0 <= i < session.whitelist@.len() && signer@ == (
            #[trigger] session.whitelist@[i])@ implies check is GrantedNow by {
            assert(row[i] == signer@);
        }
        if row.contains(signer@) {
            let i = choose|i: int| 0 <= i < row.len() && row[i] == signer@;
            assert(session.whitelist@[i]@ == signer@);
        }
    }
}

/// What a request for a chunk gets from its session.
pub open spec fn download_check(
    session: SessionView,
    download_key: Seq<char>,
    signature: Seq<char>,
    request_ip: IpAddr,
    check: DownloadCheck,
) -> bool {
    if session.first_ip == request_ip && !session.is_public && session.verified_signature is None {
        signer_check(session, signer_of(download_key, signature), check)
    } else {
        early_check(session, signature, request_ip, check)
    }
}

/// Decides whether a request for a chunk may go on, given its open session.
pub fn check_download(
    session: &DownloadSession,
    payload: &DownloadChunkPayload,
    request_ip: IpAddr,
) -> (check: DownloadCheck)
    ensures
        download_check(
            session@,
            payload.download_key@,
            payload.signature@,
            request_ip,
            check,
        ),
        !(check is NeedsSigner),
{
    match check_request(session, payload.signature.as_str(), request_ip) {
        DownloadCheck::NeedsSigner => admit_signer(
            session,
            recover_address_from_signature(
                payload.download_key.as_str(),
                payload.signature.as_str(),
            ),
        ),
        check => check,
    }
}

/// The sessions after a signature was accepted in the one under a key: it is kept
/// where that session is still there and has none yet.
pub open spec fn with_signature(
    sessions: SessionMap,
    download_key: Seq<char>,
    session: SessionView,
    signature: Seq<char>,
) -> SessionMap {
    match lookup(sessions, download_key) {
        Some(kept) if kept.created_at == session.created_at && kept.verified_signature is None =>
            sessions.insert(
                download_key,
                SessionView { verified_signature: Some(signature), ..kept },
            ),
        _ => sessions,
    }
}

/// An accepted signature is kept in the session that accepted it and in no other: one
/// that was opened anew under the same key does not have it, one that has a signature
/// already keeps that, and nothing but the signature changes.
pub proof fn law_signature_is_kept_where_accepted(
    sessions: SessionMap,
    download_key: Seq<char>,
    session: SessionView,
    signature: Seq<char>,
    other: Seq<char>,
)
    ensures
        ({
            let after = with_signature(sessions, download_key, session, signature);
            let there = sessions.contains_key(download_key);
            let kept = sessions[download_key];
            let now = after[download_key];
            &&& other != download_key ==> lookup(after, other) == lookup(sessions, other)
            &&& !there ==> after == sessions
            &&& there && kept.created_at != session.created_at ==> after == sessions
            &&& there && kept.verified_signature is Some ==> after == sessions
            &&& there && kept.created_at == session.created_at && kept.verified_signature is None
                ==> {
                &&& after.contains_key(download_key)
                &&& now.verified_signature == Some(signature)
                &&& now.download_key == kept.download_key
                &&& now.file_key == kept.file_key
                &&& now.file_owner == kept.file_owner
                &&& now.remaining_chunks == kept.remaining_chunks
                &&& now.total_chunks == kept.total_chunks
                &&& now.first_ip == kept.first_ip
                &&& now.retry_remaining == kept.retry_remaining
                &&& now.confirmed_at == kept.confirmed_at
                &&& now.is_public == kept.is_public
                &&& now.whitelist == kept.whitelist
                &&& now.created_at == kept.created_at
            }
        }),
{
}

/// Keeps the signature that was accepted in the session under a key.
pub fn remember_signature(
    caches: &mut Caches,
    download_key: &str,
    session: &DownloadSession,
    signature: &str,
)
    ensures
        final(caches)@ == (CachesView {
            sessions: with_signature(
                old(caches)@.sessions,
                download_key@,
                session@,
                signature@,
            ),
            ..old(caches)@
        }),
{
    match caches.session(download_key) {
        None => {},
        Some(mut kept) => {
            if kept.created_at == session.created_at && kept.verified_signature.is_none() {
                kept.verified_signature = Some(signature.to_owned());
                caches.put_session(download_key.to_owned(), kept);
            }
        },
    }
}

/// What to do next while a request for a chunk is checked.
#[derive(Debug)]
pub enum VerifyAction {
    /// The session is still being opened.
    Open(InitAction),
    /// The request may go on, or may not; the lock may be forgotten if the session
    /// was opened just now.
    Decided { verdict: Result<bool, String>, forget_lock: bool },
}

/// Whether a check comes out as the given verdict.
pub open spec fn check_verdict(check: DownloadCheck, verdict: Result<bool, String>) -> bool {
    match check {
        DownloadCheck::Refused(e) => text_result(verdict) == Err::<bool, Seq<char>>(e@),
        _ => verdict == Ok::<bool, String>(true),
    }
}

/// Whether an action follows from a step in the opening of the session: a session
/// at hand is asked about the request, and keeps a signature that it accepts.
pub open spec fn verify_follows(
    payload: DownloadChunkPayload,
    request_ip: IpAddr,
    opened: SessionMap,
    step: InitAction,
    after: SessionMap,
    action: VerifyAction,
) -> bool {
    match step {
        InitAction::Ready { session, forget_lock: forget } => {
            &&& action matches VerifyAction::Decided { verdict, forget_lock }
            &&& forget_lock == forget
            &&& exists|check: DownloadCheck|
                {
                    &&& #[trigger] download_check(
                        session@,
                        payload.download_key@,
                        payload.signature@,
                        request_ip,
                        check,
                    )
                    &&& check_verdict(check, verdict)
                    &&& after == if check is GrantedNow {
                        with_signature(
                            opened,
                            payload.download_key@,
                            session@,
                            payload.signature@,
                        )
                    } else {
                        opened
                    }
                }
        },
        InitAction::Fail(e) => {
            &&& action matches VerifyAction::Decided { verdict, forget_lock }
            &&& text_result(verdict) == Err::<bool, Seq<char>>(e@)
            &&& !forget_lock
            &&& after == opened
        },
        _ => action == VerifyAction::Open(step) && after == opened,
    }
}

/// One step in the check of a request for a chunk.
pub open spec fn verify_step(
    payload: DownloadChunkPayload,
    request: InitRequest,
    state: InitState,
    event: InitEvent,
    before: SessionMap,
    after: SessionMap,
    next: InitState,
    action: VerifyAction,
) -> bool {
    exists|opened: SessionMap, step: InitAction|
        {
            &&& #[trigger] init_step(request, state, event, before, opened, next, step)
            &&& verify_follows(payload, request.ip, opened, step, after, action)
        }
}

/// Goes one step in the check of a request for a chunk: first the session is
/// opened, then it is asked.
pub fn verify_download_chunk(
    caches: &mut Caches,
    payload: &DownloadChunkPayload,
    request_ip: IpAddr,
    storage_root: &str,
    session_timeout_seconds: u64,
    state: InitState,
    event: InitEvent,
) -> (r: (InitState, VerifyAction))
    requires
        state matches InitState::AwaitWhitelist { chunk_count, .. } ==> chunk_count * 3 <= u64::MAX,
    ensures
        verify_step(
            *payload,
            InitRequest {
                download_key: payload.download_key@,
                ip: request_ip,
                storage_root: storage_root@,
                timeout_secs: session_timeout_seconds,
            },
            state,
            event,
            old(caches)@.sessions,
            final(caches)@.sessions,
            r.0,
            r.1,
        ),
        final(caches)@ == (CachesView { sessions: final(caches)@.sessions, ..old(caches)@ }),
{
    let (next, step) = initialize_download_session(
        caches,
        payload.download_key.as_str(),
        request_ip,
        storage_root,
        session_timeout_seconds,
        state,
        event,
    );
    let ghost opened = caches@.sessions;
    let ghost step_taken = step;
    let action = match step {
        InitAction::Ready { session, forget_lock } => {
            let check = check_download(&session, payload, request_ip);
            match check {
                DownloadCheck::Refused(e) => VerifyAction::Decided {
                    verdict: Err(e),
                    forget_lock,
                },
                DownloadCheck::GrantedNow => {
                    remember_signature(
                        caches,
                        payload.download_key.as_str(),
                        &session,
                        payload.signature.as_str(),
                    );
                    VerifyAction::Decided { verdict: Ok(true), forget_lock }
                },
                _ => VerifyAction::Decided { verdict: Ok(true), forget_lock },
            }
        },
        InitAction::Fail(e) => VerifyAction::Decided { verdict: Err(e), forget_lock: false },
        other => VerifyAction::Open(other),
    };
    assert(verify_follows(*payload, request_ip, opened, step_taken, caches@.sessions, action));
    (next, action)
}

/// Checking a request keeps each session under its own key, and changes whose
/// download it is in none but one that is opened just now.
pub proof fn law_verifying_keeps_keys(
    payload: DownloadChunkPayload,
    request: InitRequest,
    state: InitState,
    event: InitEvent,
    before: SessionMap,
    after: SessionMap,
    next: InitState,
    action: VerifyAction,
)
    requires
        verify_step(payload, request, state, event, before, after, next, action),
        request.download_key == payload.download_key@,
    ensures
        well_keyed(before) ==> well_keyed(after),
        carries_on(before.remove(request.download_key), after.remove(request.download_key)),
        !(event is WhitelistFetched) ==> carries_on(before, after),
{
    let (opened, step) = choose|opened: SessionMap, step: InitAction|
        {
            &&& #[trigger] init_step(request, state, event, before, opened, next, step)
            &&& verify_follows(payload, request.ip, opened, step, after, action)
        };
    law_opening_keeps_keys(request, state, event, before, opened, next, step);
    assert(carries_on(opened, after));
    assert(carries_on(before.remove(request.download_key), after.remove(request.download_key)));
}

/// The first accepted signature binds the session: once a request for a file that
/// is not public was granted, a later request from the same address is granted
/// exactly if it carries the same signature, as long as the session is there and
/// has not timed out. Whatever the later request carries, the session keeps the
/// signature.
pub proof fn law_first_signature_binds(
    first: DownloadChunkPayload,
    request: InitRequest,
    state: InitState,
    event: InitEvent,
    before: SessionMap,
    after: SessionMap,
    next: InitState,
    action: VerifyAction,
    later: DownloadChunkPayload,
    later_request: InitRequest,
    now: u128,
    later_before: SessionMap,
    later_after: SessionMap,
    later_next: InitState,
    later_action: VerifyAction,
)
    requires
        verify_step(first, request, state, event, before, after, next, action),
        action matches VerifyAction::Decided { verdict, .. } && verdict == Ok::<bool, String>(true),
        request.download_key == first.download_key@,
        after.contains_key(request.download_key),
        !after[request.download_key].is_public,
        later_before.contains_key(request.download_key),
        same_binding(after[request.download_key], later_before[request.download_key]),
        !timed_out(later_before[request.download_key], now, later_request.timeout_secs),
        later_request.download_key == request.download_key,
        later_request.download_key == later.download_key@,
        later_request.ip == request.ip,
        verify_step(
            later,
            later_request,
            InitState::Start,
            InitEvent::Begin { now },
            later_before,
            later_after,
            later_next,
            later_action,
        ),
    ensures
        after[request.download_key].verified_signature == Some(first.signature@),
        later_action matches VerifyAction::Decided { verdict, .. } && text_result(verdict) == if (
        later.signature@ == first.signature@) {
            Ok::<bool, Seq<char>>(true)
        } else {
            Err("Invalid signature (mismatch with cached)"@)
        },
        later_after == later_before,
{
}

/// Whether an address is the owner of a session's file or stands on its list.
pub open spec fn owns_or_is_listed(session: SessionView, address: Seq<u8>) -> bool {
    address == session.file_owner || exists|i: int|
        0 <= i < session.whitelist.len() && #[trigger] session.whitelist[i] == address
}

/// Who gets a chunk of an open session. From another address than the session's
/// nobody does, a public file is for everybody else, and of a private one it takes
/// the signature that the session has accepted or, where it has none yet, one by
/// the owner or by somebody listed, which it then keeps. Nothing else is noted.
pub proof fn law_open_session_decides(
    payload: DownloadChunkPayload,
    request: InitRequest,
    now: u128,
    before: SessionMap,
    after: SessionMap,
    next: InitState,
    action: VerifyAction,
)
    requires
        verify_step(
            payload,
            request,
            InitState::Start,
            InitEvent::Begin { now },
            before,
            after,
            next,
            action,
        ),
        request.download_key == payload.download_key@,
        before.contains_key(request.download_key),
        before[request.download_key].confirmed_at is None,
    ensures
        next is Finished,
        action matches VerifyAction::Decided { verdict, forget_lock } && !forget_lock && ({
            let session = before[request.download_key];
            let given = payload.signature@;
            if request.ip != session.first_ip {
                text_result(verdict) == Err::<bool, Seq<char>>("IP address mismatch"@) && after
                    == before
            } else if session.is_public {
                verdict == Ok::<bool, String>(true) && after == before
            } else if session.verified_signature is Some {
                &&& session.verified_signature == Some(given) ==> verdict == Ok::<bool, String>(
                    true,
                )
                &&& session.verified_signature != Some(given) ==> text_result(verdict) == Err::<
                    bool,
                    Seq<char>,
                >("Invalid signature (mismatch with cached)"@)
                &&& after == before
            } else {
                match signer_of(payload.download_key@, given) {
                    Err(e) => text_result(verdict) == Err::<bool, Seq<char>>(e) && after == before,
                    Ok(signer) => if owns_or_is_listed(session, signer) {
                        &&& verdict == Ok::<bool, String>(true)
                        &&& after == before.insert(
                            request.download_key,
                            SessionView { verified_signature: Some(given), ..session },
                        )
                    } else {
                        &&& text_result(verdict) == Err::<bool, Seq<char>>(
                            "Signer address does not match file owner and is not in whitelist"@,
                        )
                        &&& after == before
                    },
                }
            }
        }),
{
    let session = before[request.download_key];
    assert forall|address: Seq<u8>| owns_or_is_listed(session, address) == may_download(
        session,
        address,
    ) by {
        if session.whitelist.contains(address) {
            let i = choose|i: int|
                0 <= i < session.whitelist.len() && session.whitelist[i] == address;
            assert(session.whitelist[i] == address);
        }
    }
}

/// A check goes as far as the opening of its session. While that is under way, what it
/// asks for is passed on; where it fails, so does the check, in the same words; and a
/// session at hand decides, whether it was opened just now or before: whoever holds the
/// lock for it is told when to let go.
pub proof fn law_check_follows_the_opening(
    payload: DownloadChunkPayload,
    request: InitRequest,
    state: InitState,
    event: InitEvent,
    before: SessionMap,
    after: SessionMap,
    next: InitState,
    action: VerifyAction,
) -> (opening: (SessionMap, InitAction))
    requires
        verify_step(payload, request, state, event, before, after, next, action),
    ensures
        init_step(request, state, event, before, opening.0, next, opening.1),
        opening.1 matches InitAction::Fail(e) ==> after == opening.0 && (
        action matches VerifyAction::Decided { verdict, forget_lock } && text_result(verdict)
            == Err::<bool, Seq<char>>(e@) && !forget_lock),
        !(opening.1 is Fail) && !(opening.1 is Ready) ==> after == opening.0 && action
            == VerifyAction::Open(opening.1),
        opening.1 matches InitAction::Ready { session, forget_lock: forget } ==> (
        action matches VerifyAction::Decided { verdict, forget_lock } && forget_lock == forget && {
            let given = payload.signature@;
            let open = session@;
            if request.ip != open.first_ip {
                text_result(verdict) == Err::<bool, Seq<char>>("IP address mismatch"@) && after
                    == opening.0
            } else if open.is_public || open.verified_signature == Some(given) {
                verdict == Ok::<bool, String>(true) && after == opening.0
            } else if open.verified_signature is Some {
                text_result(verdict) == Err::<bool, Seq<char>>(
                    "Invalid signature (mismatch with cached)"@,
                ) && after == opening.0
            } else {
                match signer_of(payload.download_key@, given) {
                    Err(e) => text_result(verdict) == Err::<bool, Seq<char>>(e) && after
                        == opening.0,
                    Ok(signer) => if owns_or_is_listed(open, signer) {
                        &&& verdict == Ok::<bool, String>(true)
                        &&& after == with_signature(
                            opening.0,
                            payload.download_key@,
                            open,
                            given,
                        )
                    } else {
                        &&& text_result(verdict) == Err::<bool, Seq<char>>(
                            "Signer address does not match file owner and is not in whitelist"@,
                        )
                        &&& after == opening.0
                    },
                }
            }
        }),
{
    let (opened, step) = choose|opened: SessionMap, step: InitAction|
        {
            &&& #[trigger] init_step(request, state, event, before, opened, next, step)
            &&& verify_follows(payload, request.ip, opened, step, after, action)
        };
    if let InitAction::Ready { session, .. } = step {
        let open = session@;
        assert forall|address: Seq<u8>| owns_or_is_listed(open, address) == may_download(
            open,
            address,
        ) by {
            if open.whitelist.contains(address) {
                let i = choose|i: int|
                    0 <= i < open.whitelist.len() && open.whitelist[i] == address;
                assert(open.whitelist[i] == address);
            }
        }
    }
    (opened, step)
}

// ---------------------------------------------------------------------------
// Downloads: the chunk
// ---------------------------------------------------------------------------

/// What to do about a request for a chunk that may go on.
#[derive(Debug)]
pub enum DownloadStep {
    Answer(DownloadResponse),
    /// Read at most so many bytes of the file at the offset.
    Read { offset: u64, limit: u64 },
}

/// Whether a response is an error with the given text.
pub open spec fn is_error(response: DownloadResponse, message: Seq<char>) -> bool {
    response.status@ == "ERROR"@ && response.message@ == message
}

/// Decides where the chunk of a request is read, if the session has any left.
pub fn handle_download_request(caches: &Caches, payload: &DownloadChunkPayload) -> (step:
    DownloadStep)
    requires
        is_readable(caches@.sessions, payload.download_key@, payload.chunk_index),
    ensures
        match lookup(caches@.sessions, payload.download_key@) {
            None => step matches DownloadStep::Answer(response) && is_error(
                response,
                "Download session not found, please verify first."@,
            ),
            Some(session) => if !has_budget(session) {
                step matches DownloadStep::Answer(response) && is_error(
                    response,
                    "No remaining downloads for this key"@,
                )
            } else {
                step matches DownloadStep::Read { offset, limit } && (offset as nat, limit as nat)
                    == read_place(payload.chunk_index)
            },
        },
{
    match caches.session(payload.download_key.as_str()) {
        None => DownloadStep::Answer(
            DownloadResponse {
                status: "ERROR".to_owned(),
                message: "Download session not found, please verify first.".to_owned(),
            },
        ),
        Some(session) => {
            if session.remaining_chunks > 0 || session.retry_remaining > 0 {
                DownloadStep::Read { offset: payload.chunk_index * CHUNK_SIZE, limit: CHUNK_SIZE }
            } else {
                DownloadStep::Answer(
                    DownloadResponse {
                        status: "ERROR".to_owned(),
                        message: "No remaining downloads for this key".to_owned(),
                    },
                )
            }
        },
    }
}

/// Words the response to a read, and hands on what was read.
pub fn chunk_reply(read: Option<Vec<u8>>) -> (r: (DownloadResponse, Option<Vec<u8>>))
    ensures
        match read {
            None => is_error(r.0, "Chunk data not found"@) && r.1 is None,
            Some(data) => r.0.status@ == "SUCCESS"@ && r.0.message@.len() == 0 && r.1 == Some(data),
        },
{
    match read {
        None => (
            DownloadResponse {
                status: "ERROR".to_owned(),
                message: "Chunk data not found".to_owned(),
            },
            None,
        ),
        Some(data) => (
            DownloadResponse { status: "SUCCESS".to_owned(), message: String::new() },
            Some(data),
        ),
    }
}

// ---------------------------------------------------------------------------
// Uploads
// ---------------------------------------------------------------------------

/// What is known of an upload says of one more chunk: whether its uploader is
/// still the admin, and its root that of the file.
pub open spec fn known_upload_verdict(
    info: UploadView,
    admin: Seq<u8>,
    merkle_root: Seq<char>,
) -> Result<(), Seq<char>> {
    if info.verified_address != admin {
        Err("Uploader is not validator"@)
    } else if info.merkle_root != merkle_root {
        Err(
            "Merkle root mismatch: expected "@ + info.merkle_root + ", got "@ + merkle_root,
        )
    } else {
        Ok(())
    }
}

/// Holds a chunk against what is known of its upload.
pub fn check_known_upload(info: &UploadFileInfo, admin: &Address, merkle_root: &str) -> (r: Result<
    (),
    String,
>)
    ensures
        text_result(r) == known_upload_verdict(info@, admin@, merkle_root@),
{
    if !same_bytes(info.verified_address.as_slice(), admin.as_slice()) {
        return Err("Uploader is not validator".to_owned());
    }
    if !same_text(info.merkle_root.as_str(), merkle_root) {
        let mut message = join_text(
            "Merkle root mismatch: expected ",
            info.merkle_root.as_str(),
        );
        message.append(", got ");
        message.append(merkle_root);
        return Err(message);
    }
    Ok(())
}

/// What is said of an outcome of signature recovery for an upload.
pub open spec fn uploader_verdict(
    outcome: Result<Seq<u8>, Seq<char>>,
    admin: Seq<u8>,
) -> Result<(), Seq<char>> {
    match outcome {
        Err(e) => Err(e),
        Ok(signer) => if signer == admin {
            Ok(())
        } else {
            Err("Signer is not the authorized admin uploader"@)
        },
    }
}

/// Decides on an outcome of signature recovery for an upload.
pub fn admit_uploader(outcome: Result<Address, String>, admin: &Address) -> (r: Result<(), String>)
    ensures
        text_result(r) == uploader_verdict(address_result(outcome), admin@),
{
    match outcome {
        Err(e) => Err(e),
        Ok(signer) => {
            if same_bytes(signer.as_slice(), admin.as_slice()) {
                Ok(())
            } else {
                Err("Signer is not the authorized admin uploader".to_owned())
            }
        },
    }
}

/// The thirty-two bytes that a file key writes, or why it writes none.
pub open spec fn file_key_bytes(file_key: Seq<char>) -> Result<Seq<u8>, Seq<char>> {
    let digits = encode_utf8(without_0x(file_key));
    if !is_hex(digits) {
        Err("Invalid file_key hex: "@ + hex_error(digits))
    } else if digits.len() != 64 {
        Err("Invalid file_key length"@)
    } else {
        Ok(hex_bytes(digits))
    }
}

/// Reads a file key.
pub fn decode_file_key(file_key: &str) -> (r: Result<Key32, String>)
    ensures
        match r {
            Ok(key) => file_key_bytes(file_key@) == Ok::<Seq<u8>, Seq<char>>(key@),
            Err(e) => file_key_bytes(file_key@) == Err::<Seq<u8>, Seq<char>>(e@),
        },
{
    match hex_decode(strip_0x(file_key).as_str()) {
        Err(e) => Err(join_text("Invalid file_key hex: ", e.as_str())),
        Ok(bytes) => {
            if bytes.len() != 32 {
                Err("Invalid file_key length".to_owned())
            } else {
                Ok(to_key(&bytes))
            }
        },
    }
}

/// A key of thirty-two bytes that is written in hex reads back as the same key,
/// with a prefix or without.
pub proof fn law_keys_round_trip(bytes: Seq<u8>)
    requires
        bytes.len() == 32,
    ensures
        key_bytes(hex_text(bytes)) == Ok::<Seq<u8>, Seq<char>>(bytes),
        key_bytes("0x"@ + hex_text(bytes)) == Ok::<Seq<u8>, Seq<char>>(bytes),
        file_key_bytes(hex_text(bytes)) == Ok::<Seq<u8>, Seq<char>>(bytes),
        file_key_bytes("0x"@ + hex_text(bytes)) == Ok::<Seq<u8>, Seq<char>>(bytes),
{
    reveal_strlit("0x");
    law_hex_round_trip(bytes);
    let text = hex_text(bytes);
    assert(text[1] != 'x');
    assert(without_0x(text) == text);
    let prefixed = "0x"@ + text;
    assert(prefixed.skip(2) =~= text);
    assert(without_0x(prefixed) == text);
    is_ascii_chars_encode_utf8(text);
    assert(encode_utf8(text).len() == 64);
}

/// How far the check of an uploaded chunk has come.
#[derive(Clone, Copy, Debug)]
pub enum UploadState {
    Start,
    AwaitLock { admin: Address },
    AwaitContract { admin: Address },
    AwaitFile { admin: Address },
    Finished,
}

/// What happened while an uploaded chunk is checked.
#[derive(Debug)]
pub enum UploadEvent {
    /// A chunk came in.
    Begin,
    /// This chunk alone may be the first of its file.
    Locked,
    /// The contract is at hand, or is not.
    ContractOpened(Result<(), String>),
    /// How many chunks the file has in all.
    FileFetched(Result<u64, String>),
}

/// What to do next while an uploaded chunk is checked.
#[derive(Debug)]
pub enum UploadAction {
    /// Wait until this chunk alone may be the first of its file.
    Lock { key: String },
    OpenContract,
    FetchFile { file_key: Key32 },
    /// The chunk may be kept, or may not; the lock may be forgotten if it was
    /// taken and the upload is known.
    Decided { verdict: Result<(), String>, forget_lock: bool },
    /// The event does not belong here; nothing changes.
    Ignore,
}

/// What a step in the check of an uploaded chunk amounts to.
pub enum UploadGate {
    Refuse(Seq<char>),
    Lock,
    OpenContract,
    FetchFile(Seq<u8>),
    /// Only the Merkle proof is left to check.
    Pass { forget_lock: bool, learned: Option<UploadView> },
    Ignore,
}

/// What a step amounts to where the upload of the file is known.
pub open spec fn known_gate(
    info: UploadView,
    admin: Seq<u8>,
    merkle_root: Seq<char>,
    forget_lock: bool,
) -> UploadGate {
    match known_upload_verdict(info, admin, merkle_root) {
        Err(e) => UploadGate::Refuse(e),
        Ok(_) => UploadGate::Pass { forget_lock, learned: None },
    }
}

/// What one step in the check of an uploaded chunk amounts to. The first chunk of
/// a file must be signed by the admin over the file's key and root; what the
/// chain tells of the file is then learned. Later chunks are held against that.
pub open spec fn upload_gate(
    payload: UploadChunkPayload,
    admin_text: Seq<char>,
    uploads: UploadMap,
    state: UploadState,
    event: UploadEvent,
) -> UploadGate {
    let key = payload.file_key@;
    let root = payload.merkle_root@;
    match (state, event) {
        (UploadState::Start, UploadEvent::Begin) => if !is_address(admin_text) {
            UploadGate::Refuse("Invalid Admin Uploader Address"@)
        } else {
            match lookup(uploads, key) {
                Some(info) => known_gate(
                    info,
                    hex_bytes(address_digits(admin_text)),
                    root,
                    false,
                ),
                None => UploadGate::Lock,
            }
        },
        (UploadState::AwaitLock { admin }, UploadEvent::Locked) => match lookup(uploads, key) {
            Some(info) => known_gate(info, admin@, root, true),
            None => match uploader_verdict(signer_of(key + root, payload.signature@), admin@) {
                Err(e) => UploadGate::Refuse(e),
                Ok(_) => UploadGate::OpenContract,
            },
        },
        (UploadState::AwaitContract { admin }, UploadEvent::ContractOpened(reply)) => match reply {
            Err(e) => UploadGate::Refuse("Contract err: "@ + e@),
            Ok(_) => match file_key_bytes(key) {
                Err(e) => UploadGate::Refuse(e),
                Ok(bytes) => UploadGate::FetchFile(bytes),
            },
        },
        (UploadState::AwaitFile { admin }, UploadEvent::FileFetched(reply)) => match reply {
            Err(e) => UploadGate::Refuse("getFileInfo failed: "@ + e@),
            Ok(total_chunks) => UploadGate::Pass {
                forget_lock: true,
                learned: Some(
                    UploadView { verified_address: admin@, merkle_root: root, total_chunks },
                ),
            },
        },
        _ => UploadGate::Ignore,
    }
}

/// Whether a step comes to the Merkle proof.
pub open spec fn proof_is_next(
    payload: UploadChunkPayload,
    admin_text: Seq<char>,
    uploads: UploadMap,
    state: UploadState,
    event: UploadEvent,
) -> bool {
    let known_good = lookup(uploads, payload.file_key@) matches Some(info)
        && known_upload_verdict(
        info,
        upload_admin(admin_text, state),
        payload.merkle_root@,
    ) is Ok;
    match (state, event) {
        (UploadState::Start, UploadEvent::Begin) => is_address(admin_text) && known_good,
        (UploadState::AwaitLock { .. }, UploadEvent::Locked) => known_good,
        (UploadState::AwaitFile { .. }, UploadEvent::FileFetched(reply)) => reply is Ok,
        _ => false,
    }
}

/// The admin whom a state is about.
pub open spec fn upload_admin(admin_text: Seq<char>, state: UploadState) -> Seq<u8> {
    match state {
        UploadState::AwaitLock { admin } => admin@,
        UploadState::AwaitContract { admin } => admin@,
        UploadState::AwaitFile { admin } => admin@,
        _ => hex_bytes(address_digits(admin_text)),
    }
}

/// Whether a step does what it amounts to.
pub open spec fn upload_step(
    payload: UploadChunkPayload,
    chunk_data: Seq<u8>,
    admin_text: Seq<char>,
    state: UploadState,
    event: UploadEvent,
    before: UploadMap,
    after: UploadMap,
    next: UploadState,
    action: UploadAction,
) -> bool {
    let admin = upload_admin(admin_text, state);
    match upload_gate(payload, admin_text, before, state, event) {
        UploadGate::Refuse(message) => {
            &&& after == before
            &&& next is Finished
            &&& action matches UploadAction::Decided { verdict, forget_lock }
            &&& text_result(verdict) == Err::<(), Seq<char>>(message)
            &&& !forget_lock
        },
        UploadGate::Lock => {
            &&& after == before
            &&& next matches UploadState::AwaitLock { admin: a }
            &&& a@ == admin
            &&& action matches UploadAction::Lock { key }
            &&& key@ == "upload_"@ + payload.file_key@
        },
        UploadGate::OpenContract => {
            &&& after == before
            &&& next matches UploadState::AwaitContract { admin: a }
            &&& a@ == admin
            &&& action is OpenContract
        },
        UploadGate::FetchFile(bytes) => {
            &&& after == before
            &&& next matches UploadState::AwaitFile { admin: a }
            &&& a@ == admin
            &&& action matches UploadAction::FetchFile { file_key }
            &&& file_key@ == bytes
        },
        UploadGate::Pass { forget_lock: forget, learned } => {
            &&& after == match learned {
                Some(info) => before.insert(payload.file_key@, info),
                None => before,
            }
            &&& next is Finished
            &&& action matches UploadAction::Decided { verdict, forget_lock }
            &&& text_result(verdict) == proof_verdict(
                chunk_data,
                payload.chunk_index,
                texts(payload.merkle_proof_hashes@),
                payload.merkle_root@,
            )
            &&& forget_lock == forget
        },
        UploadGate::Ignore => after == before && next == state && action is Ignore,
    }
}

fn refuse_upload(message: String) -> (r: (UploadState, UploadAction))
    ensures
        r.0 is Finished,
        r.1 matches UploadAction::Decided { verdict, forget_lock } && text_result(verdict) == Err::<
            (),
            Seq<char>,
        >(message@) && !forget_lock,
{
    (UploadState::Finished, UploadAction::Decided { verdict: Err(message), forget_lock: false })
}

fn decide_upload(payload: &UploadChunkPayload, chunk_data: &[u8], forget: bool) -> (r: (
    UploadState,
    UploadAction,
))
    requires
        proof_depth_ok(texts(payload.merkle_proof_hashes@)),
    ensures
        r.0 is Finished,
        r.1 matches UploadAction::Decided { verdict, forget_lock } && text_result(verdict)
            == proof_verdict(
            chunk_data@,
            payload.chunk_index,
            texts(payload.merkle_proof_hashes@),
            payload.merkle_root@,
        ) && forget_lock == forget,
{
    let verdict = verify_merkle_proof(
        chunk_data,
        payload.chunk_index,
        &payload.merkle_proof_hashes,
        payload.merkle_root.as_str(),
    );
    (UploadState::Finished, UploadAction::Decided { verdict, forget_lock: forget })
}

/// Whether a step in the check of an uploaded chunk can be gone: where it comes to
/// the Merkle proof, that must not go too high.
pub fn upload_fits(
    caches: &Caches,
    payload: &UploadChunkPayload,
    admin_uploader: &str,
    state: &UploadState,
    event: &UploadEvent,
) -> (r: bool)
    ensures
        r == (proof_is_next(*payload, admin_uploader@, caches@.uploads, *state, *event)
            ==> proof_depth_ok(texts(payload.merkle_proof_hashes@))),
{
    let known = caches.upload(payload.file_key.as_str());
    let root = payload.merkle_root.as_str();
    let near = match (state, event) {
        (UploadState::Start, UploadEvent::Begin) => match (known, parse_address(admin_uploader)) {
            (Some(info), Ok(admin)) => check_known_upload(&info, &admin, root).is_ok(),
            _ => false,
        },
        (UploadState::AwaitLock { admin }, UploadEvent::Locked) => match known {
            Some(info) => check_known_upload(&info, admin, root).is_ok(),
            None => false,
        },
        (UploadState::AwaitFile { .. }, UploadEvent::FileFetched(reply)) => reply.is_ok(),
        _ => false,
    };
    !near || proof_depth_allowed(&payload.merkle_proof_hashes)
}

/// Goes one step in the check of an uploaded chunk.
pub fn verify_upload_chunk(
    caches: &mut Caches,
    payload: &UploadChunkPayload,
    chunk_data: &[u8],
    admin_uploader: &str,
    state: UploadState,
    event: UploadEvent,
) -> (r: (UploadState, UploadAction))
    requires
        proof_is_next(*payload, admin_uploader@, old(caches)@.uploads, state, event)
            ==> proof_depth_ok(texts(payload.merkle_proof_hashes@)),
    ensures
        upload_step(
            *payload,
            chunk_data@,
            admin_uploader@,
            state,
            event,
            old(caches)@.uploads,
            final(caches)@.uploads,
            r.0,
            r.1,
        ),
        final(caches)@ == (CachesView { uploads: final(caches)@.uploads, ..old(caches)@ }),
{
    match (state, event) {
        (UploadState::Start, UploadEvent::Begin) => {
            match parse_address(admin_uploader) {
                Err(_) => refuse_upload("Invalid Admin Uploader Address".to_owned()),
                Ok(admin) => match caches.upload(payload.file_key.as_str()) {
                    Some(info) => match check_known_upload(
                        &info,
                        &admin,
                        payload.merkle_root.as_str(),
                    ) {
                        Err(e) => refuse_upload(e),
                        Ok(_) => decide_upload(payload, chunk_data, false),
                    },
                    None => (
                        UploadState::AwaitLock { admin },
                        UploadAction::Lock { key: join_text("upload_", payload.file_key.as_str()) },
                    ),
                },
            }
        },
        (UploadState::AwaitLock { admin }, UploadEvent::Locked) => {
            match caches.upload(payload.file_key.as_str()) {
                Some(info) => match check_known_upload(
                    &info,
                    &admin,
                    payload.merkle_root.as_str(),
                ) {
                    Err(e) => refuse_upload(e),
                    Ok(_) => decide_upload(payload, chunk_data, true),
                },
                None => {
                    let message = join_text(
                        payload.file_key.as_str(),
                        payload.merkle_root.as_str(),
                    );
                    let outcome = recover_address_from_signature(
                        message.as_str(),
                        payload.signature.as_str(),
                    );
                    match admit_uploader(outcome, &admin) {
                        Err(e) => refuse_upload(e),
                        Ok(_) => (
                            UploadState::AwaitContract { admin },
                            UploadAction::OpenContract,
                        ),
                    }
                },
            }
        },
        (UploadState::AwaitContract { admin }, UploadEvent::ContractOpened(reply)) => {
            match &reply {
                Err(e) => refuse_upload(join_text("Contract err: ", e.as_str())),
                Ok(_) => match decode_file_key(payload.file_key.as_str()) {
                    Err(e) => refuse_upload(e),
                    Ok(file_key) => (
                        UploadState::AwaitFile { admin },
                        UploadAction::FetchFile { file_key },
                    ),
                },
            }
        },
        (UploadState::AwaitFile { admin }, UploadEvent::FileFetched(reply)) => {
            match &reply {
                Err(e) => refuse_upload(join_text("getFileInfo failed: ", e.as_str())),
                Ok(total_chunks) => {
                    let info = UploadFileInfo {
                        verified_address: admin,
                        merkle_root: payload.merkle_root.clone(),
                        total_chunks: *total_chunks,
                    };
                    caches.put_upload(payload.file_key.clone(), info);
                    decide_upload(payload, chunk_data, true)
                },
            }
        },
        _ => (state, UploadAction::Ignore),
    }
}

/// A chunk is accepted only with a proof that leads from it to the root: also
/// where the upload of its file is known.
pub proof fn law_upload_needs_proof(
    payload: UploadChunkPayload,
    chunk_data: Seq<u8>,
    admin_text: Seq<char>,
    state: UploadState,
    event: UploadEvent,
    before: UploadMap,
    after: UploadMap,
    next: UploadState,
    action: UploadAction,
)
    requires
        upload_step(
            payload,
            chunk_data,
            admin_text,
            state,
            event,
            before,
            after,
            next,
            action,
        ),
        action matches UploadAction::Decided { verdict, .. } && verdict is Ok,
    ensures
        proof_verdict(
            chunk_data,
            payload.chunk_index,
            texts(payload.merkle_proof_hashes@),
            payload.merkle_root@,
        ) is Ok,
        lookup(after, payload.file_key@) matches Some(info) && info.merkle_root
            == payload.merkle_root@ && info.verified_address == upload_admin(admin_text, state),
{
}

/// One step in the check of an uploaded chunk that was taken. Other chunks may
/// change what is known of uploads in between.
pub struct UploadStep {
    pub state: UploadState,
    pub event: UploadEvent,
    pub before: UploadMap,
    pub after: UploadMap,
    pub next: UploadState,
    pub action: UploadAction,
}

/// Whether a row of steps is a run of the check for an uploaded chunk.
pub open spec fn upload_run(
    payload: UploadChunkPayload,
    chunk_data: Seq<u8>,
    admin_text: Seq<char>,
    run: Seq<UploadStep>,
) -> bool {
    &&& forall|i: int|
        0 <= i < run.len() ==> {
            let step = #[trigger] run[i];
            upload_step(
                payload,
                chunk_data,
                admin_text,
                step.state,
                step.event,
                step.before,
                step.after,
                step.next,
                step.action,
            )
        }
    &&& run.len() > 0 ==> run[0].state is Start
    &&& forall|i: int, j: int|
        0 <= i < run.len() && j == i + 1 && j < run.len() ==> (#[trigger] run[j]).state == (
        #[trigger] run[i]).next
}

/// Whether what a state stands for was established: past the lock the admin is
/// the one of the settings, and past the signature the admin has signed.
pub open spec fn upload_grounded(
    payload: UploadChunkPayload,
    admin_text: Seq<char>,
    state: UploadState,
) -> bool {
    let admin = hex_bytes(address_digits(admin_text));
    let signed = signer_of(payload.file_key@ + payload.merkle_root@, payload.signature@) == Ok::<
        Seq<u8>,
        Seq<char>,
    >(admin);
    match state {
        UploadState::AwaitLock { admin: a } => is_address(admin_text) && a@ == admin,
        UploadState::AwaitContract { admin: a } => is_address(admin_text) && a@ == admin && signed,
        UploadState::AwaitFile { admin: a } => is_address(admin_text) && a@ == admin && signed,
        _ => true,
    }
}

proof fn lemma_upload_grounded(
    payload: UploadChunkPayload,
    chunk_data: Seq<u8>,
    admin_text: Seq<char>,
    run: Seq<UploadStep>,
    n: int,
)
    requires
        upload_run(payload, chunk_data, admin_text, run),
        0 <= n < run.len(),
    ensures
        upload_grounded(payload, admin_text, run[n].state),
        upload_grounded(payload, admin_text, run[n].next),
    decreases n,
{
    let step = run[n];
    if n > 0 {
        lemma_upload_grounded(payload, chunk_data, admin_text, run, n - 1);
        assert(step.state == run[n - 1].next);
    }
    assert(upload_step(
        payload,
        chunk_data,
        admin_text,
        step.state,
        step.event,
        step.before,
        step.after,
        step.next,
        step.action,
    ));
}

/// An upload becomes known only if the admin of the settings has signed the
/// file's key and root, and it is known under that admin and that root.
pub proof fn law_upload_is_signed_by_admin(
    payload: UploadChunkPayload,
    chunk_data: Seq<u8>,
    admin_text: Seq<char>,
    run: Seq<UploadStep>,
    n: int,
)
    requires
        upload_run(payload, chunk_data, admin_text, run),
        0 <= n < run.len(),
        run[n].after != run[n].before,
    ensures
        is_address(admin_text),
        signer_of(payload.file_key@ + payload.merkle_root@, payload.signature@) == Ok::<
            Seq<u8>,
            Seq<char>,
        >(hex_bytes(address_digits(admin_text))),
        lookup(run[n].after, payload.file_key@) matches Some(info) && info.verified_address
            == hex_bytes(address_digits(admin_text)) && info.merkle_root == payload.merkle_root@,
        forall|key: Seq<char>|
            key != payload.file_key@ ==> lookup(run[n].after, key) == #[trigger] lookup(
                run[n].before,
                key,
            ),
{
    lemma_upload_grounded(payload, chunk_data, admin_text, run, n);
    let step = run[n];
    assert(upload_step(
        payload,
        chunk_data,
        admin_text,
        step.state,
        step.event,
        step.before,
        step.after,
        step.next,
        step.action,
    ));
}

/// The first chunk of a file is accepted if all is well: the admin of the settings
/// has signed the file's key and root, the chain knows the file, and the proof leads
/// to the root. The chain is asked about the file of the key, and what it says is
/// learned; what is known of other files stays.
pub proof fn law_good_first_chunk_is_accepted(
    payload: UploadChunkPayload,
    chunk_data: Seq<u8>,
    admin_text: Seq<char>,
    total_chunks: u64,
    run: Seq<UploadStep>,
)
    requires
        upload_run(payload, chunk_data, admin_text, run),
        run.len() == 4,
        run[0].event is Begin,
        run[1].event is Locked,
        run[2].event matches UploadEvent::ContractOpened(reply) && reply is Ok,
        run[3].event == UploadEvent::FileFetched(Ok(total_chunks)),
        !run[0].before.contains_key(payload.file_key@),
        !run[1].before.contains_key(payload.file_key@),
        is_address(admin_text),
        signer_of(payload.file_key@ + payload.merkle_root@, payload.signature@) == Ok::<
            Seq<u8>,
            Seq<char>,
        >(hex_bytes(address_digits(admin_text))),
        is_hex(encode_utf8(without_0x(payload.file_key@))),
        encode_utf8(without_0x(payload.file_key@)).len() == 64,
        proof_verdict(
            chunk_data,
            payload.chunk_index,
            texts(payload.merkle_proof_hashes@),
            payload.merkle_root@,
        ) is Ok,
    ensures
        run[0].action matches UploadAction::Lock { key } && key@ == "upload_"@
            + payload.file_key@,
        run[1].action is OpenContract,
        run[2].action matches UploadAction::FetchFile { file_key } && file_key@ == hex_bytes(
            encode_utf8(without_0x(payload.file_key@)),
        ),
        run[3].action matches UploadAction::Decided { verdict, forget_lock } && verdict is Ok
            && forget_lock,
        run[0].after == run[0].before,
        run[1].after == run[1].before,
        run[2].after == run[2].before,
        run[3].after == run[3].before.insert(
            payload.file_key@,
            UploadView {
                verified_address: hex_bytes(address_digits(admin_text)),
                merkle_root: payload.merkle_root@,
                total_chunks,
            },
        ),
{
    assert(run[1].state == run[0].next);
    assert(run[2].state == run[1].next);
    assert(run[3].state == run[2].next);
    lemma_upload_grounded(payload, chunk_data, admin_text, run, 3);
    lemma_upload_grounded(payload, chunk_data, admin_text, run, 1);
}

/// Of a file that is known, a chunk is held against what is known: its uploader must
/// be the admin of the settings and its root that of the file, and then its proof
/// decides. Nothing is learned.
pub proof fn law_known_upload_is_held_to(
    payload: UploadChunkPayload,
    chunk_data: Seq<u8>,
    admin_text: Seq<char>,
    before: UploadMap,
    after: UploadMap,
    next: UploadState,
    action: UploadAction,
)
    requires
        upload_step(
            payload,
            chunk_data,
            admin_text,
            UploadState::Start,
            UploadEvent::Begin,
            before,
            after,
            next,
            action,
        ),
    ensures
        after == before,
        !is_address(admin_text) ==> (action matches UploadAction::Decided { verdict, forget_lock }
            && !forget_lock && text_result(verdict) == Err::<(), Seq<char>>("Invalid Admin Uploader Address"@)),
        is_address(admin_text) && before.contains_key(payload.file_key@) ==> ({
            let info = before[payload.file_key@];
            &&& action matches UploadAction::Decided { verdict, forget_lock }
            &&& !forget_lock
            &&& if info.verified_address != hex_bytes(address_digits(admin_text)) {
                text_result(verdict) == Err::<(), Seq<char>>("Uploader is not validator"@)
            } else if info.merkle_root != payload.merkle_root@ {
                text_result(verdict) == Err::<(), Seq<char>>(
                    "Merkle root mismatch: expected "@ + info.merkle_root + ", got "@
                        + payload.merkle_root@,
                )
            } else {
                text_result(verdict) == proof_verdict(
                    chunk_data,
                    payload.chunk_index,
                    texts(payload.merkle_proof_hashes@),
                    payload.merkle_root@,
                )
            }
        }),
        is_address(admin_text) && !before.contains_key(payload.file_key@) ==> action is Lock,
{
}

/// What goes wrong in the check of a first chunk ends it, in words, and nothing is
/// learned: a signature that is not the admin's, a contract that cannot be reached,
/// a key that writes no thirty-two bytes, and a file that the chain does not know.
pub proof fn law_bad_first_chunk_is_refused(
    payload: UploadChunkPayload,
    chunk_data: Seq<u8>,
    admin_text: Seq<char>,
    state: UploadState,
    event: UploadEvent,
    before: UploadMap,
    after: UploadMap,
    next: UploadState,
    action: UploadAction,
)
    requires
        upload_step(
            payload,
            chunk_data,
            admin_text,
            state,
            event,
            before,
            after,
            next,
            action,
        ),
        match (state, event) {
            (UploadState::AwaitLock { admin }, UploadEvent::Locked) => !before.contains_key(
                payload.file_key@,
            ) && signer_of(payload.file_key@ + payload.merkle_root@, payload.signature@) != Ok::<
                Seq<u8>,
                Seq<char>,
            >(admin@),
            (UploadState::AwaitContract { .. }, UploadEvent::ContractOpened(reply)) => reply is Err
                || !is_hex(encode_utf8(without_0x(payload.file_key@))) || encode_utf8(
                without_0x(payload.file_key@),
            ).len() != 64,
            (UploadState::AwaitFile { .. }, UploadEvent::FileFetched(reply)) => reply is Err,
            _ => false,
        },
    ensures
        after == before,
        next is Finished,
        action matches UploadAction::Decided { verdict, forget_lock } && !forget_lock && (
        verdict matches Err(e) && match event {
            UploadEvent::Locked => match signer_of(
                payload.file_key@ + payload.merkle_root@,
                payload.signature@,
            ) {
                Ok(_) => e@ == "Signer is not the authorized admin uploader"@,
                Err(words) => e@ == words,
            },
            UploadEvent::ContractOpened(Err(words)) => e@ == "Contract err: "@ + words@,
            UploadEvent::ContractOpened(Ok(_)) => ({
                let digits = encode_utf8(without_0x(payload.file_key@));
                &&& !is_hex(digits) ==> e@ == "Invalid file_key hex: "@ + hex_error(digits)
                &&& is_hex(digits) ==> e@ == "Invalid file_key length"@
            }),
            UploadEvent::FileFetched(Err(words)) => e@ == "getFileInfo failed: "@ + words@,
            _ => true,
        }),
{
}

/// A chunk that waited for the lock while another made its file known is held against
/// what is known then, and where the proof has the word, the lock may be let go.
pub proof fn law_late_chunk_is_held_to(
    payload: UploadChunkPayload,
    chunk_data: Seq<u8>,
    admin_text: Seq<char>,
    admin: Address,
    before: UploadMap,
    after: UploadMap,
    next: UploadState,
    action: UploadAction,
)
    requires
        upload_step(
            payload,
            chunk_data,
            admin_text,
            UploadState::AwaitLock { admin },
            UploadEvent::Locked,
            before,
            after,
            next,
            action,
        ),
        before.contains_key(payload.file_key@),
    ensures
        after == before,
        next is Finished,
        action matches UploadAction::Decided { verdict, forget_lock } && ({
            let info = before[payload.file_key@];
            if info.verified_address != admin@ {
                !forget_lock && text_result(verdict) == Err::<(), Seq<char>>(
                    "Uploader is not validator"@,
                )
            } else if info.merkle_root != payload.merkle_root@ {
                !forget_lock && text_result(verdict) == Err::<(), Seq<char>>(
                    "Merkle root mismatch: expected "@ + info.merkle_root + ", got "@
                        + payload.merkle_root@,
                )
            } else {
                forget_lock && text_result(verdict) == proof_verdict(
                    chunk_data,
                    payload.chunk_index,
                    texts(payload.merkle_proof_hashes@),
                    payload.merkle_root@,
                )
            }
        }),
{
}

/// What the chain says of a file is learned, and the lock may be let go, whatever the
/// proof then says of the chunk; what is known of other files stays.
pub proof fn law_file_is_learned_whatever_the_proof(
    payload: UploadChunkPayload,
    chunk_data: Seq<u8>,
    admin_text: Seq<char>,
    admin: Address,
    total_chunks: u64,
    before: UploadMap,
    after: UploadMap,
    next: UploadState,
    action: UploadAction,
    other: Seq<char>,
)
    requires
        upload_step(
            payload,
            chunk_data,
            admin_text,
            UploadState::AwaitFile { admin },
            UploadEvent::FileFetched(Ok(total_chunks)),
            before,
            after,
            next,
            action,
        ),
    ensures
        next is Finished,
        action matches UploadAction::Decided { verdict, forget_lock } && forget_lock && text_result(
            verdict,
        ) == proof_verdict(
            chunk_data,
            payload.chunk_index,
            texts(payload.merkle_proof_hashes@),
            payload.merkle_root@,
        ),
        after.contains_key(payload.file_key@),
        after[payload.file_key@].verified_address == admin@,
        after[payload.file_key@].merkle_root == payload.merkle_root@,
        after[payload.file_key@].total_chunks == total_chunks,
        other != payload.file_key@ ==> lookup(after, other) == lookup(before, other),
{
}

/// A text that does not write thirty-two bytes in hex is no key, and it is said whether
/// it is no hex or how long it is.
pub proof fn law_bad_keys_are_told_of(text: Seq<char>)
    ensures
        ({
            let digits = encode_utf8(without_0x(text));
            &&& !is_hex(digits) ==> key_bytes(text) == Err::<Seq<u8>, Seq<char>>(
                "Invalid download key hex: "@ + hex_error(digits),
            ) && file_key_bytes(text) == Err::<Seq<u8>, Seq<char>>(
                "Invalid file_key hex: "@ + hex_error(digits),
            )
            &&& is_hex(digits) && digits.len() != 64 ==> key_bytes(text) == Err::<
                Seq<u8>,
                Seq<char>,
            >(
                "Invalid download key length: expected 32 bytes, got "@ + decimal(digits.len() / 2)
                    + " bytes"@,
            ) && file_key_bytes(text) == Err::<Seq<u8>, Seq<char>>("Invalid file_key length"@)
            &&& is_hex(digits) && digits.len() == 64 ==> key_bytes(text) == Ok::<
                Seq<u8>,
                Seq<char>,
            >(hex_bytes(digits)) && file_key_bytes(text) == Ok::<Seq<u8>, Seq<char>>(
                hex_bytes(digits),
            )
        }),
{
}

// ---------------------------------------------------------------------------
// Confirmations
// ---------------------------------------------------------------------------

/// The keys among some texts: those that write thirty-two bytes, in order.
pub open spec fn readable_keys(file_keys: Seq<Seq<char>>) -> Seq<Seq<u8>>
    decreases file_keys.len(),
{
    if file_keys.len() == 0 {
        Seq::empty()
    } else {
        let front = readable_keys(file_keys.drop_last());
        match file_key_bytes(file_keys.last()) {
            Ok(bytes) => front.push(bytes),
            Err(_) => front,
        }
    }
}

/// Keys by their bytes.
pub open spec fn key_rows(keys: Seq<Key32>) -> Seq<Seq<u8>> {
    keys.map_values(|k: Key32| k@)
}

/// Picks the keys that can be read.
pub fn batch_keys(file_keys: &Vec<String>) -> (keys: Vec<Key32>)
    ensures
        key_rows(keys@) == readable_keys(texts(file_keys@)),
{
    let mut keys: Vec<Key32> = Vec::new();
    let ghost row = texts(file_keys@);
    let mut i: usize = 0;
    assert(row.take(0) == Seq::<Seq<char>>::empty());
    assert(key_rows(keys@) =~= readable_keys(row.take(0)));
    while i < file_keys.len()
        invariant
            i <= file_keys@.len(),
            row == texts(file_keys@),
            key_rows(keys@) == readable_keys(row.take(i as int)),
        decreases file_keys@.len() - i,
    {
        let ghost before = keys@;
        proof {
            assert(row.take(i + 1).drop_last() == row.take(i as int));
            assert(row.take(i + 1).last() == file_keys@[i as int]@);
        }
        match decode_file_key(file_keys[i].as_str()) {
            Ok(key) => {
                keys.push(key);
                assert(key_rows(keys@) =~= key_rows(before).push(key@));
            },
            Err(_) => {},
        }
        i = i + 1;
    }
    assert(row.take(row.len() as int) == row);
    keys
}

/// Whether a text writes a key: thirty-two bytes in hex, behind prefixes or not.
pub open spec fn writes_key(text: Seq<char>, key: Seq<u8>) -> bool {
    let digits = encode_utf8(without_0x(text));
    digits.len() == 64 && is_hex(digits) && key == hex_bytes(digits)
}

/// Whether the given places are those of the texts that write keys, each once and
/// in order, and the keys are the ones that they write.
pub open spec fn picks_keys(
    places: Seq<int>,
    file_keys: Seq<Seq<char>>,
    keys: Seq<Seq<u8>>,
) -> bool {
    &&& places.len() == keys.len()
    &&& forall|k: int|
        0 <= k < places.len() ==> 0 <= #[trigger] places[k] < file_keys.len() && writes_key(
            file_keys[places[k]],
            keys[k],
        )
    &&& forall|j: int, k: int|
        0 <= j < k < places.len() ==> #[trigger] places[j] < #[trigger] places[k]
    &&& forall|i: int|
        0 <= i < file_keys.len() && (exists|key: Seq<u8>| #[trigger] writes_key(file_keys[i], key))
            ==> #[trigger] places.contains(i)
}

proof fn lemma_picks_keys(file_keys: Seq<Seq<char>>) -> (places: Seq<int>)
    ensures
        picks_keys(places, file_keys, readable_keys(file_keys)),
        forall|k: int| 0 <= k < places.len() ==> #[trigger] places[k] < file_keys.len(),
    decreases file_keys.len(),
{
    if file_keys.len() == 0 {
        Seq::empty()
    } else {
        let front = file_keys.drop_last();
        let last = file_keys.len() - 1;
        let before = lemma_picks_keys(front);
        let keys = readable_keys(file_keys);
        let places = match file_key_bytes(file_keys.last()) {
            Ok(bytes) => before.push(last),
            Err(_) => before,
        };
        assert forall|k: int| 0 <= k < places.len() implies 0 <= #[trigger] places[k]
            < file_keys.len() && writes_key(file_keys[places[k]], keys[k]) by {
            if k < before.len() {
                assert(before[k] == places[k]);
                assert(front[before[k]] == file_keys[before[k]]);
            }
        }
        assert forall|i: int|
            0 <= i < file_keys.len() && (exists|key: Seq<u8>| #[trigger]
                writes_key(file_keys[i], key)) implies #[trigger] places.contains(i) by {
            if i < last {
                assert(front[i] == file_keys[i]);
                assert(before.contains(i));
                let k = choose|k: int| 0 <= k < before.len() && before[k] == i;
                assert(places[k] == i);
            } else {
                assert(places[places.len() - 1] == i);
            }
        }
        places
    }
}

/// Whether a text writes some key.
pub open spec fn writes_some_key(text: Seq<char>) -> bool {
    exists|key: Seq<u8>| writes_key(text, key)
}

/// The keys that are picked from some texts are those that they write, each at its
/// turn: every key that a text writes is among them, each of them is written by a
/// text, and where every text writes a key, the key at each place is that of the
/// text there.
pub proof fn law_every_written_key_is_picked(file_keys: Seq<Seq<char>>, keys: Seq<Key32>)
    requires
        key_rows(keys) == readable_keys(file_keys),
    ensures
        forall|i: int, key: Seq<u8>|
            0 <= i < file_keys.len() && #[trigger] writes_key(file_keys[i], key) ==> exists|k: int|
                0 <= k < keys.len() && (#[trigger] keys[k])@ == key,
        forall|k: int|
            #![trigger keys[k]]
            0 <= k < keys.len() ==> exists|i: int|
                0 <= i < file_keys.len() && writes_key(#[trigger] file_keys[i], keys[k]@),
        exists|places: Seq<int>| picks_keys(places, file_keys, key_rows(keys)),
        (forall|i: int| 0 <= i < file_keys.len() ==> writes_some_key(#[trigger] file_keys[i])) ==> (
        keys.len() == file_keys.len() && forall|i: int|
            0 <= i < keys.len() ==> writes_key(file_keys[i], (#[trigger] keys[i])@)),
{
    let places = lemma_picks_keys(file_keys);
    let rows = key_rows(keys);
    assert(rows.len() == keys.len());
    assert forall|i: int, key: Seq<u8>|
        0 <= i < file_keys.len() && #[trigger] writes_key(file_keys[i], key) implies exists|k: int|
        0 <= k < keys.len() && (#[trigger] keys[k])@ == key by {
        assert(places.contains(i));
        let k = choose|k: int| 0 <= k < places.len() && places[k] == i;
        assert(writes_key(file_keys[places[k]], rows[k]));
        assert(keys[k]@ == key);
    }
    assert forall|k: int|
        #![trigger keys[k]]
        0 <= k < keys.len() implies exists|i: int|
        0 <= i < file_keys.len() && writes_key(#[trigger] file_keys[i], keys[k]@) by {
        assert(0 <= places[k] < file_keys.len());
        assert(rows[k] == keys[k]@);
        assert(writes_key(file_keys[places[k]], keys[k]@));
    }
    if forall|i: int| 0 <= i < file_keys.len() ==> writes_some_key(#[trigger] file_keys[i]) {
        assert forall|i: int| 0 <= i < file_keys.len() implies #[trigger] places.contains(i) by {
            assert(writes_some_key(file_keys[i]));
            let key = choose|key: Seq<u8>| writes_key(file_keys[i], key);
            assert(writes_key(file_keys[i], key));
        }
        lemma_every_place(places, file_keys.len() as int);
        assert forall|i: int| 0 <= i < keys.len() implies writes_key(
            file_keys[i],
            (#[trigger] keys[i])@,
        ) by {
            assert(places[i] == i);
            assert(rows[i] == keys[i]@);
        }
    }
}

/// Once the contract is at hand, a batch is confirmed at once: the keys that are
/// sent are those that its texts write. Nothing is sent, and that is no error,
/// exactly where no text writes a key.
pub proof fn law_batch_is_sent_whole(
    file_keys: Seq<Seq<char>>,
    reply: Result<(), String>,
    next: BatchState,
    action: BatchAction,
)
    requires
        batch_step(
            file_keys,
            BatchState::AwaitContract,
            BatchEvent::ContractOpened(reply),
            next,
            action,
        ),
        reply is Ok,
    ensures
        action matches BatchAction::Send { keys } ==> next is AwaitSend && keys@.len() > 0
            && key_rows(keys@) == readable_keys(file_keys),
        action is Send <==> exists|i: int|
            0 <= i < file_keys.len() && writes_some_key(#[trigger] file_keys[i]),
        !(action is Send) ==> next is Finished && action == BatchAction::Decided(Ok(())),
{
    let places = lemma_picks_keys(file_keys);
    let rows = readable_keys(file_keys);
    if rows.len() > 0 {
        assert(writes_key(file_keys[places[0]], rows[0]));
        assert(writes_some_key(file_keys[places[0]]));
    }
    if exists|i: int| 0 <= i < file_keys.len() && writes_some_key(#[trigger] file_keys[i]) {
        let i = choose|i: int|
            0 <= i < file_keys.len() && writes_some_key(#[trigger] file_keys[i]);
        let key = choose|key: Seq<u8>| writes_key(file_keys[i], key);
        assert(writes_key(file_keys[i], key));
        assert(places.contains(i));
    }
    if let BatchAction::Send { keys } = action {
        assert(key_rows(keys@).len() == keys@.len());
    }
}

proof fn lemma_every_place(places: Seq<int>, n: int)
    requires
        0 <= n,
        forall|k: int| 0 <= k < places.len() ==> 0 <= #[trigger] places[k] < n,
        forall|j: int, k: int|
            0 <= j < k < places.len() ==> #[trigger] places[j] < #[trigger] places[k],
        forall|i: int| 0 <= i < n ==> #[trigger] places.contains(i),
    ensures
        places.len() == n,
        forall|k: int| 0 <= k < n ==> #[trigger] places[k] == k,
    decreases n,
{
    if n == 0 {
        if places.len() > 0 {
            assert(places[0] < n);
        }
    } else {
        assert(places.contains(n - 1));
        let at = choose|k: int| 0 <= k < places.len() && places[k] == n - 1;
        if at < places.len() - 1 {
            assert(places[at] < places[places.len() - 1]);
        }
        let front = places.drop_last();
        assert forall|i: int| 0 <= i < n - 1 implies #[trigger] front.contains(i) by {
            assert(places.contains(i));
            let k = choose|k: int| 0 <= k < places.len() && places[k] == i;
            assert(front[k] == i);
        }
        assert forall|k: int| 0 <= k < front.len() implies 0 <= #[trigger] front[k] < n - 1 by {
            assert(places[k] < places[places.len() - 1]);
        }
        assert forall|j: int, k: int| 0 <= j < k < front.len() implies #[trigger] front[j]
            < #[trigger] front[k] by {
            assert(places[j] < places[k]);
        }
        lemma_every_place(front, n - 1);
        assert forall|k: int| 0 <= k < n implies #[trigger] places[k] == k by {
            if k < n - 1 {
                assert(front[k] == k);
            }
        }
    }
}

/// How far the confirmation of uploads has come.
#[derive(Clone, Copy, PartialEq, Eq, Structural, Debug)]
pub enum BatchState {
    Start,
    AwaitContract,
    AwaitSend,
    AwaitReceipt,
    Finished,
}

/// What happened while uploads are confirmed.
#[derive(Debug)]
pub enum BatchEvent {
    Begin,
    /// The contract is at hand, or is not.
    ContractOpened(Result<(), String>),
    /// The transaction was sent, or was not.
    Sent(Result<(), String>),
    /// The transaction's receipt, and whether it went through.
    Receipt(Result<bool, String>),
}

/// What to do next while uploads are confirmed.
#[derive(Debug)]
pub enum BatchAction {
    OpenContract,
    Send { keys: Vec<Key32> },
    FetchReceipt,
    Decided(Result<(), String>),
    /// The event does not belong here; nothing changes.
    Ignore,
}

/// Whether a step ends the confirmation with the given outcome.
pub open spec fn batch_ends(
    next: BatchState,
    action: BatchAction,
    outcome: Result<(), Seq<char>>,
) -> bool {
    &&& next is Finished
    &&& action matches BatchAction::Decided(r)
    &&& text_result(r) == outcome
}

/// One step in the confirmation of uploads. Keys that cannot be read are left
/// out, and without any key nothing is sent. A transaction that was mined but
/// did not go through is no error.
pub open spec fn batch_step(
    file_keys: Seq<Seq<char>>,
    state: BatchState,
    event: BatchEvent,
    next: BatchState,
    action: BatchAction,
) -> bool {
    match (state, event) {
        (BatchState::Start, BatchEvent::Begin) => if file_keys.len() == 0 {
            batch_ends(next, action, Ok(()))
        } else {
            next is AwaitContract && action is OpenContract
        },
        (BatchState::AwaitContract, BatchEvent::ContractOpened(reply)) => match reply {
            Err(e) => batch_ends(next, action, Err(e@)),
            Ok(_) => if readable_keys(file_keys).len() == 0 {
                batch_ends(next, action, Ok(()))
            } else {
                &&& next is AwaitSend
                &&& action matches BatchAction::Send { keys }
                &&& key_rows(keys@) == readable_keys(file_keys)
            },
        },
        (BatchState::AwaitSend, BatchEvent::Sent(reply)) => match reply {
            Err(e) => batch_ends(next, action, Err("Failed to send tx: "@ + e@)),
            Ok(_) => next is AwaitReceipt && action is FetchReceipt,
        },
        (BatchState::AwaitReceipt, BatchEvent::Receipt(reply)) => match reply {
            Err(e) => batch_ends(next, action, Err("Failed to get receipt: "@ + e@)),
            Ok(_) => batch_ends(next, action, Ok(())),
        },
        _ => next == state && action is Ignore,
    }
}

/// Goes one step in the confirmation of uploads.
pub fn confirm_upload_batch(file_keys: &Vec<String>, state: BatchState, event: BatchEvent) -> (r: (
    BatchState,
    BatchAction,
))
    ensures
        batch_step(texts(file_keys@), state, event, r.0, r.1),
{
    match (state, event) {
        (BatchState::Start, BatchEvent::Begin) => {
            if file_keys.len() == 0 {
                (BatchState::Finished, BatchAction::Decided(Ok(())))
            } else {
                (BatchState::AwaitContract, BatchAction::OpenContract)
            }
        },
        (BatchState::AwaitContract, BatchEvent::ContractOpened(reply)) => {
            match reply {
                Err(e) => (BatchState::Finished, BatchAction::Decided(Err(e))),
                Ok(_) => {
                    let keys = batch_keys(file_keys);
                    assert(key_rows(keys@).len() == keys@.len());
                    if keys.len() == 0 {
                        (BatchState::Finished, BatchAction::Decided(Ok(())))
                    } else {
                        (BatchState::AwaitSend, BatchAction::Send { keys })
                    }
                },
            }
        },
        (BatchState::AwaitSend, BatchEvent::Sent(reply)) => {
            match &reply {
                Err(e) => (
                    BatchState::Finished,
                    BatchAction::Decided(Err(join_text("Failed to send tx: ", e.as_str()))),
                ),
                Ok(_) => (BatchState::AwaitReceipt, BatchAction::FetchReceipt),
            }
        },
        (BatchState::AwaitReceipt, BatchEvent::Receipt(reply)) => {
            match &reply {
                Err(e) => (
                    BatchState::Finished,
                    BatchAction::Decided(Err(join_text("Failed to get receipt: ", e.as_str()))),
                ),
                Ok(_) => (BatchState::Finished, BatchAction::Decided(Ok(()))),
            }
        },
        _ => (state, BatchAction::Ignore),
    }
}

/// A batch goes its way to the end: the contract is opened where there is anything
/// to confirm, what was sent is waited for, and whatever fails ends it, in words. A
/// transaction that is mined ends it well, whether or not it went through.
pub proof fn law_batch_goes_its_way(
    file_keys: Seq<Seq<char>>,
    state: BatchState,
    event: BatchEvent,
    next: BatchState,
    action: BatchAction,
)
    requires
        batch_step(file_keys, state, event, next, action),
    ensures
        state is Start && event is Begin ==> if file_keys.len() > 0 {
            next is AwaitContract && action is OpenContract
        } else {
            next is Finished && action == BatchAction::Decided(Ok(()))
        },
        state is AwaitContract ==> (event matches BatchEvent::ContractOpened(Err(e)) ==> next
            is Finished && (action matches BatchAction::Decided(Err(m)) && m@ == e@)),
        state is AwaitSend ==> (event matches BatchEvent::Sent(Ok(_)) ==> next is AwaitReceipt
            && action is FetchReceipt),
        state is AwaitSend ==> (event matches BatchEvent::Sent(Err(e)) ==> next is Finished && (
        action matches BatchAction::Decided(Err(m)) && m@ == "Failed to send tx: "@ + e@)),
        state is AwaitReceipt ==> (event matches BatchEvent::Receipt(Ok(_)) ==> next is Finished
            && action == BatchAction::Decided(Ok(()))),
        state is AwaitReceipt ==> (event matches BatchEvent::Receipt(Err(e)) ==> next is Finished
            && (action matches BatchAction::Decided(Err(m)) && m@ == "Failed to get receipt: "@
            + e@)),
        action is Send ==> state is AwaitContract && (event matches BatchEvent::ContractOpened(
            reply,
        ) && reply is Ok),
{
}

/// Whether a download key can be taken for one on the chain, or be refused as no hex.
pub open spec fn is_confirmable(key: Seq<char>) -> bool {
    is_hex(encode_utf8(key)) ==> encode_utf8(key).len() == 64
}

/// Bytes in hex can be taken for a key exactly if they are thirty-two.
pub proof fn law_thirty_two_bytes_are_confirmable(bytes: Seq<u8>, text: Seq<char>)
    ensures
        is_confirmable(hex_text(bytes)) <==> bytes.len() == 32,
        !is_hex(encode_utf8(text)) ==> is_confirmable(text),
{
    law_hex_round_trip(bytes);
    is_ascii_chars_encode_utf8(hex_text(bytes));
}

/// Whether a download key can be taken for one on the chain: hex digits must write
/// thirty-two bytes.
pub fn key_is_confirmable(key: &str) -> (r: bool)
    ensures
        r == (is_hex(encode_utf8(key@)) ==> encode_utf8(key@).len() == 64),
        r == is_confirmable(key@),
{
    match hex_decode(key) {
        Ok(bytes) => bytes.len() == 32,
        Err(_) => true,
    }
}

/// The bytes of the key of a download that is confirmed on the chain, or why there is
/// none.
pub open spec fn confirmed_key(download_key: Seq<char>) -> Result<Seq<u8>, Seq<char>> {
    if is_hex(encode_utf8(download_key)) {
        Ok(hex_bytes(encode_utf8(download_key)))
    } else {
        Err(hex_error(encode_utf8(download_key)))
    }
}

/// A key as plain values, or the text of an error.
pub open spec fn key_result(r: Result<Key32, String>) -> Result<Seq<u8>, Seq<char>> {
    match r {
        Ok(key) => Ok(key@),
        Err(e) => Err(e@),
    }
}

/// The key that is confirmed on the chain is the one that the text writes in hex, so
/// that of a session which was opened under the bytes of a key they are those bytes. A
/// text that is no hex confirms nothing.
pub proof fn law_confirmed_key_is_the_written_one(bytes: Seq<u8>, text: Seq<char>)
    ensures
        confirmed_key(hex_text(bytes)) == Ok::<Seq<u8>, Seq<char>>(bytes),
        confirmed_key(text) is Ok <==> is_hex(encode_utf8(text)),
        !is_hex(encode_utf8(text)) ==> confirmed_key(text) == Err::<Seq<u8>, Seq<char>>(
            hex_error(encode_utf8(text)),
        ),
{
    law_hex_round_trip(bytes);
}

/// The key of a download that is confirmed on the chain, or why there is none.
pub fn handle_confirm_download(download_key: &str) -> (r: Result<Key32, String>)
    requires
        is_hex(encode_utf8(download_key@)) ==> encode_utf8(download_key@).len() == 64,
    ensures
        match r {
            Ok(key) => is_hex(encode_utf8(download_key@)) && key@ == hex_bytes(
                encode_utf8(download_key@),
            ),
            Err(e) => !is_hex(encode_utf8(download_key@)) && e@ == hex_error(
                encode_utf8(download_key@),
            ),
        },
        key_result(r) == confirmed_key(download_key@),
{
    match hex_decode(download_key) {
        Ok(bytes) => Ok(to_key(&bytes)),
        Err(e) => Err(e),
    }
}

/// Keys are seen as they are, key by key.
pub proof fn law_keys_are_seen_whole(keys: Seq<Key32>, i: int)
    requires
        0 <= i < keys.len(),
    ensures
        key_rows(keys).len() == keys.len(),
        key_rows(keys)[i] == keys[i]@,
        key_result(Ok(keys[i])) == Ok::<Seq<u8>, Seq<char>>(keys[i]@),
        forall|e: String| #[trigger] key_result(Err(e)) == Err::<Seq<u8>, Seq<char>>(e@),
{
}

/// What happens to the check of an upload out of turn changes nothing.
pub proof fn law_upload_check_ignores_strays(
    payload: UploadChunkPayload,
    chunk_data: Seq<u8>,
    admin_text: Seq<char>,
    state: UploadState,
    event: UploadEvent,
    before: UploadMap,
    after: UploadMap,
    next: UploadState,
    action: UploadAction,
)
    requires
        upload_step(
            payload,
            chunk_data,
            admin_text,
            state,
            event,
            before,
            after,
            next,
            action,
        ),
        !(state is Start && event is Begin),
        !(state is AwaitLock && event is Locked),
        !(state is AwaitContract && event is ContractOpened),
        !(state is AwaitFile && event is FileFetched),
    ensures
        next == state && after == before && action is Ignore,
{
}

/// What happens to the confirmation of uploads out of turn changes nothing.
pub proof fn law_batch_ignores_strays(
    file_keys: Seq<Seq<char>>,
    state: BatchState,
    event: BatchEvent,
    next: BatchState,
    action: BatchAction,
)
    requires
        batch_step(file_keys, state, event, next, action),
        !(state is Start && event is Begin),
        !(state is AwaitContract && event is ContractOpened),
        !(state is AwaitSend && event is Sent),
        !(state is AwaitReceipt && event is Receipt),
    ensures
        next == state && action is Ignore,
{
}

/// The proof is next exactly where nothing else is left to be checked.
pub proof fn law_proof_is_what_is_left(
    payload: UploadChunkPayload,
    admin_text: Seq<char>,
    uploads: UploadMap,
    state: UploadState,
    event: UploadEvent,
)
    ensures
        proof_is_next(payload, admin_text, uploads, state, event) <==> upload_gate(
            payload,
            admin_text,
            uploads,
            state,
            event,
        ) is Pass,
{
}

/// An error is told as such, in the words given.
pub proof fn law_errors_are_told_as_such(response: DownloadResponse, message: Seq<char>)
    ensures
        is_error(response, message) <==> response.status@ == "ERROR"@ && response.message@
            == message,
{
}

} // verus!
