//! Background work: forgotten sessions and confirmations that wait on disk.

use crate::cache::{lists_sessions, Caches, CachesView, SessionMap};
use crate::download_manager::{carries_on, well_keyed, NANOS_PER_SEC};
use crate::storage::{join_path, joined};
use crate::text::{
    all_white, is_white, lemma_split_without, lemma_trimmed_padded, split_on, split_text, texts,
    trim_end, trim_start, trim_text, trimmed,
};
use vstd::prelude::*;
use vstd::string::*;

verus! {

/// How long the sweeper sleeps between two rounds, in seconds.
pub const SWEEP_INTERVAL_SECS: u64 = 36_000;

/// How old a session may become, in whole seconds.
pub const SESSION_MAX_AGE_SECS: u64 = 86_400;

/// How long the worker that retries confirmations sleeps, in seconds.
pub const RETRY_INTERVAL_SECS: u64 = 120;

// ---------------------------------------------------------------------------
// Sweeping
// ---------------------------------------------------------------------------

/// Whether a session born then is abandoned now: its age in whole seconds is
/// above the limit.
pub open spec fn is_abandoned(created_at: u128, now: u128) -> bool {
    now >= created_at && (now - created_at) / NANOS_PER_SEC as int > SESSION_MAX_AGE_SECS
}

/// The sessions that are not abandoned.
pub open spec fn swept(sessions: SessionMap, now: u128) -> SessionMap {
    Map::new(
        |key: Seq<char>| sessions.contains_key(key) && !is_abandoned(sessions[key].created_at, now),
        |key: Seq<char>| sessions[key],
    )
}

/// How many sessions a sweep drops.
pub open spec fn swept_count(sessions: SessionMap, now: u128) -> nat {
    sessions.dom().difference(swept(sessions, now).dom()).len()
}

/// What a sweep drops and what it leaves are together what was there.
pub proof fn law_sweep_counts_what_it_drops(sessions: SessionMap, now: u128)
    requires
        sessions.dom().finite(),
    ensures
        swept_count(sessions, now) + swept(sessions, now).dom().len() == sessions.dom().len(),
{
    let all = sessions.dom();
    let kept = swept(sessions, now).dom();
    let dropped = all.difference(kept);
    assert(kept.subset_of(all));
    vstd::set_lib::lemma_len_subset(kept, all);
    vstd::set_lib::lemma_set_disjoint_lens(dropped, kept);
    assert(dropped + kept =~= all);
}

/// Drops the abandoned sessions, and says how many there were.
pub fn sweep_sessions(caches: &mut Caches, now: u128) -> (dropped: usize)
    ensures
        final(caches)@ == (CachesView {
            sessions: swept(old(caches)@.sessions, now),
            ..old(caches)@
        }),
        dropped == old(caches)@.sessions.dom().difference(final(caches)@.sessions.dom()).len(),
        dropped == swept_count(old(caches)@.sessions, now),
{
    let row = caches.list_sessions();
    let ghost all = caches@.sessions;
    let mut dropped: usize = 0;
    let mut i: usize = 0;
    assert(all.dom().difference(caches@.sessions.dom()) =~= Set::empty());
    while i < row.len()
        invariant
            i <= row@.len(),
            dropped <= i,
            lists_sessions(row@, all),
            all == old(caches)@.sessions,
            caches@ == (CachesView { sessions: caches@.sessions, ..old(caches)@ }),
            caches@.sessions.submap_of(all),
            forall|k: int|
                0 <= k < i ==> (caches@.sessions.contains_key((#[trigger] row@[k]).0@)
                    <==> !is_abandoned(row@[k].1, now)),
            forall|k: int|
                i <= k < row@.len() ==> caches@.sessions.contains_key((#[trigger] row@[k]).0@),
            all.dom().difference(caches@.sessions.dom()).finite(),
            dropped == all.dom().difference(caches@.sessions.dom()).len(),
        decreases row@.len() - i,
    {
        let created_at: u128 = row[i].1;
        if now > created_at && (now - created_at) / NANOS_PER_SEC > SESSION_MAX_AGE_SECS as u128 {
            let ghost before = caches@.sessions;
            let ghost key = row@[i as int].0@;
            let _ = caches.take_session(row[i].0.as_str());
            proof {
                assert(all.dom().difference(caches@.sessions.dom()) =~= all.dom().difference(
                    before.dom(),
                ).insert(key));
            }
            dropped = dropped + 1;
        }
        i = i + 1;
    }
    assert(caches@.sessions =~= swept(all, now)) by {
        assert forall|key: Seq<char>| caches@.sessions.contains_key(key) <==> swept(
            all,
            now,
        ).contains_key(key) by {
            if all.contains_key(key) {
                let k = choose|k: int| 0 <= k < row@.len() && (#[trigger] row@[k]).0@ == key;
                assert(row@[k].0@ == key);
            }
        }
    }
    dropped
}

/// A sweep drops exactly the sessions that were born more than a day ago, by whole
/// seconds, and leaves every other as it is. One from the future is no older than one
/// from now.
pub proof fn law_sweep_drops_the_old(sessions: SessionMap, now: u128, key: Seq<char>)
    ensures
        swept(sessions, now).contains_key(key) <==> sessions.contains_key(key) && now
            < sessions[key].created_at + 86_401 * 1_000_000_000,
        swept(sessions, now).contains_key(key) ==> swept(sessions, now)[key] == sessions[key],
{
    if sessions.contains_key(key) {
        let age = now - sessions[key].created_at;
        if age >= 0 {
            assert((age / 1_000_000_000 > 86_400) <==> age >= 86_401 * 1_000_000_000);
        }
    }
}

/// Sweeping keeps whose download each session is that stays.
pub proof fn law_sweeping_carries_sessions_on(sessions: SessionMap, now: u128)
    ensures
        carries_on(sessions, swept(sessions, now)),
        well_keyed(sessions) ==> well_keyed(swept(sessions, now)),
{
}

// ---------------------------------------------------------------------------
// Confirmations on disk
// ---------------------------------------------------------------------------

/// A confirmation that waits on disk: the download key, and the contract.
#[derive(Debug)]
pub struct PendingConfirmation {
    pub key: String,
    pub address: String,
}

/// A waiting confirmation as plain values.
pub open spec fn pending_view(pending: PendingConfirmation) -> (Seq<char>, Seq<char>) {
    (pending.key@, pending.address@)
}

/// Waiting confirmations as plain values.
pub open spec fn pending_row(row: Seq<PendingConfirmation>) -> Seq<(Seq<char>, Seq<char>)> {
    row.map_values(|p: PendingConfirmation| pending_view(p))
}

/// The confirmation that a line holds: exactly two texts with a comma between
/// them, neither empty, without the white space around them.
pub open spec fn line_confirmation(line: Seq<char>) -> Option<(Seq<char>, Seq<char>)> {
    let parts = split_on(trimmed(line), ',');
    if parts.len() == 2 && trimmed(parts[0]).len() > 0 && trimmed(parts[1]).len() > 0 {
        Some((trimmed(parts[0]), trimmed(parts[1])))
    } else {
        None
    }
}

/// The confirmations in some lines, in order.
pub open spec fn line_confirmations(lines: Seq<Seq<char>>) -> Seq<(Seq<char>, Seq<char>)>
    decreases lines.len(),
{
    if lines.len() == 0 {
        Seq::empty()
    } else {
        let front = line_confirmations(lines.drop_last());
        match line_confirmation(lines.last()) {
            Some(pending) => front.push(pending),
            None => front,
        }
    }
}

/// Reads the confirmation that a line holds.
pub fn parse_pending_line(line: &str) -> (r: Option<PendingConfirmation>)
    ensures
        match r {
            Some(pending) => line_confirmation(line@) == Some(pending_view(pending)),
            None => line_confirmation(line@) is None,
        },
{
    let parts = split_text(trim_text(line).as_str(), ',');
    let ghost row = texts(parts@);
    assert(row == split_on(trimmed(line@), ','));
    assert(row.len() == parts@.len());
    if parts.len() != 2 {
        return None;
    }
    assert(row[0] == parts@[0]@ && row[1] == parts@[1]@);
    let key = trim_text(parts[0].as_str());
    let address = trim_text(parts[1].as_str());
    if key.as_str().is_empty() || address.as_str().is_empty() {
        None
    } else {
        Some(PendingConfirmation { key, address })
    }
}

/// Reads the confirmations that a file holds, one in a line. Lines that hold
/// none are passed over.
pub fn parse_pending(content: &str) -> (row: Vec<PendingConfirmation>)
    ensures
        pending_row(row@) == line_confirmations(split_on(content@, '\n')),
{
    let lines = split_text(content, '\n');
    let ghost all = texts(lines@);
    let mut row: Vec<PendingConfirmation> = Vec::new();
    let mut i: usize = 0;
    assert(all.take(0) == Seq::<Seq<char>>::empty());
    assert(pending_row(row@) =~= line_confirmations(all.take(0)));
    while i < lines.len()
        invariant
            i <= lines@.len(),
            all == texts(lines@),
            pending_row(row@) == line_confirmations(all.take(i as int)),
        decreases lines@.len() - i,
    {
        let ghost before = row@;
        proof {
            assert(all.take(i + 1).drop_last() == all.take(i as int));
            assert(all.take(i + 1).last() == lines@[i as int]@);
        }
        match parse_pending_line(lines[i].as_str()) {
            Some(pending) => {
                let ghost view = pending_view(pending);
                row.push(pending);
                assert(pending_row(row@) =~= pending_row(before).push(view));
            },
            None => {},
        }
        i = i + 1;
    }
    assert(all.take(all.len() as int) == all);
    row
}

/// A line that was appended alone is read by itself: it gives back the
/// confirmation that it holds, if it holds one. A key without a contract holds
/// none.
pub proof fn law_single_line_is_read(line: Seq<char>)
    requires
        !line.contains('\n'),
    ensures
        line_confirmations(split_on(line + "\n"@, '\n')) == match line_confirmation(line) {
            Some(pending) => seq![pending],
            None => Seq::empty(),
        },
        !line.contains(',') ==> line_confirmation(line) is None,
{
    reveal_strlit("\n");
    let text = line + "\n"@;
    assert(text.drop_last() =~= line);
    assert(text.last() == '\n');
    lemma_split_without(line, '\n');
    let lines = seq![line].push(Seq::empty());
    assert(split_on(text, '\n') == lines);
    assert(lines.drop_last() =~= seq![line]);
    assert(seq![line].drop_last() =~= Seq::<Seq<char>>::empty());
    assert(line_confirmation(Seq::empty()) is None) by {
        assert(split_on(Seq::empty(), ',').len() == 1);
    }
    assert(line_confirmations(seq![line]) =~= match line_confirmation(line) {
        Some(pending) => seq![pending],
        None => Seq::empty(),
    }) by {
        assert(seq![line].last() == line);
        assert(line_confirmations(Seq::<Seq<char>>::empty()) =~= Seq::empty());
    }
    if !line.contains(',') {
        lemma_trimmed_within(line, ',');
        lemma_split_without(trimmed(line), ',');
    }
}

proof fn lemma_trim_start_within(s: Seq<char>, c: char)
    requires
        !s.contains(c),
    ensures
        !trim_start(s).contains(c),
    decreases s.len(),
{
    if s.len() > 0 && is_white(s[0]) {
        assert(!s.skip(1).contains(c)) by {
            if s.skip(1).contains(c) {
                let i = choose|i: int| 0 <= i < s.skip(1).len() && s.skip(1)[i] == c;
                assert(s[i + 1] == c);
            }
        }
        lemma_trim_start_within(s.skip(1), c);
    }
}

proof fn lemma_trim_end_within(s: Seq<char>, c: char)
    requires
        !s.contains(c),
    ensures
        !trim_end(s).contains(c),
    decreases s.len(),
{
    if s.len() > 0 && is_white(s.last()) {
        assert(!s.drop_last().contains(c)) by {
            if s.drop_last().contains(c) {
                let i = choose|i: int| 0 <= i < s.drop_last().len() && s.drop_last()[i] == c;
                assert(s[i] == c);
            }
        }
        lemma_trim_end_within(s.drop_last(), c);
    }
}

proof fn lemma_trimmed_within(s: Seq<char>, c: char)
    requires
        !s.contains(c),
    ensures
        !trimmed(s).contains(c),
{
    lemma_trim_start_within(s, c);
    lemma_trim_end_within(trim_start(s), c);
}

/// How far a round of the worker that retries confirmations has come.
#[derive(Clone, Copy, PartialEq, Eq, Structural, Debug)]
pub enum WorkerState {
    Sleeping,
    Looking,
    Renaming,
    Reading,
    Queueing,
    Removing,
}

/// What happened in a round.
#[derive(Debug)]
pub enum WorkerEvent {
    Woke,
    /// Whether there is a file with waiting confirmations.
    Exists(bool),
    Renamed(bool),
    /// What the file holds, if it could be read.
    Content(Option<String>),
    /// All confirmations were offered to the queue.
    Queued,
    Removed,
}

/// What to do next in a round.
#[derive(Debug)]
pub enum WorkerAction {
    Sleep { secs: u64 },
    Look { path: String },
    Rename { from: String, to: String },
    Read { path: String },
    /// Offer these to the queue, one by one, waiting where it is full.
    Queue { row: Vec<PendingConfirmation> },
    Remove { path: String },
    /// The event does not belong here; nothing changes.
    Ignore,
}

/// The file to which confirmations are appended.
pub open spec fn pending_path(storage_root: Seq<char>) -> Seq<char> {
    joined(storage_root, "pending_confirmations.txt"@)
}

/// The file from which confirmations are read.
pub open spec fn processing_path(storage_root: Seq<char>) -> Seq<char> {
    joined(storage_root, "processing_confirmations.txt"@)
}

/// Whether a step goes back to sleep.
pub open spec fn worker_sleeps(next: WorkerState, action: WorkerAction) -> bool {
    next is Sleeping && action == (WorkerAction::Sleep { secs: RETRY_INTERVAL_SECS })
}

/// Whether a step removes the file that was read.
pub open spec fn worker_removes(
    storage_root: Seq<char>,
    next: WorkerState,
    action: WorkerAction,
) -> bool {
    &&& next is Removing
    &&& action matches WorkerAction::Remove { path }
    &&& path@ == processing_path(storage_root)
}

/// One step in a round of the worker. The file is renamed before it is read, so
/// that confirmations that come meanwhile go to a new one, and is removed in any
/// case once that has worked.
pub open spec fn worker_step(
    storage_root: Seq<char>,
    state: WorkerState,
    event: WorkerEvent,
    next: WorkerState,
    action: WorkerAction,
) -> bool {
    match (state, event) {
        (WorkerState::Sleeping, WorkerEvent::Woke) => {
            &&& next is Looking
            &&& action matches WorkerAction::Look { path }
            &&& path@ == pending_path(storage_root)
        },
        (WorkerState::Looking, WorkerEvent::Exists(found)) => if found {
            &&& next is Renaming
            &&& action matches WorkerAction::Rename { from, to }
            &&& from@ == pending_path(storage_root)
            &&& to@ == processing_path(storage_root)
        } else {
            worker_sleeps(next, action)
        },
        (WorkerState::Renaming, WorkerEvent::Renamed(ok)) => if ok {
            &&& next is Reading
            &&& action matches WorkerAction::Read { path }
            &&& path@ == processing_path(storage_root)
        } else {
            worker_sleeps(next, action)
        },
        (WorkerState::Reading, WorkerEvent::Content(content)) => match content {
            Some(text) => {
                &&& next is Queueing
                &&& action matches WorkerAction::Queue { row }
                &&& pending_row(row@) == line_confirmations(split_on(text@, '\n'))
            },
            None => worker_removes(storage_root, next, action),
        },
        (WorkerState::Queueing, WorkerEvent::Queued) => worker_removes(storage_root, next, action),
        (WorkerState::Removing, WorkerEvent::Removed) => worker_sleeps(next, action),
        _ => next == state && action is Ignore,
    }
}

/// Goes one step in a round of the worker that retries confirmations.
pub fn retry_confirmations(storage_root: &str, state: WorkerState, event: WorkerEvent) -> (r: (
    WorkerState,
    WorkerAction,
))
    ensures
        worker_step(storage_root@, state, event, r.0, r.1),
{
    let pending = join_path(storage_root, "pending_confirmations.txt");
    let processing = join_path(storage_root, "processing_confirmations.txt");
    match (state, event) {
        (WorkerState::Sleeping, WorkerEvent::Woke) => (
            WorkerState::Looking,
            WorkerAction::Look { path: pending },
        ),
        (WorkerState::Looking, WorkerEvent::Exists(found)) => {
            if found {
                (WorkerState::Renaming, WorkerAction::Rename { from: pending, to: processing })
            } else {
                (WorkerState::Sleeping, WorkerAction::Sleep { secs: RETRY_INTERVAL_SECS })
            }
        },
        (WorkerState::Renaming, WorkerEvent::Renamed(ok)) => {
            if ok {
                (WorkerState::Reading, WorkerAction::Read { path: processing })
            } else {
                (WorkerState::Sleeping, WorkerAction::Sleep { secs: RETRY_INTERVAL_SECS })
            }
        },
        (WorkerState::Reading, WorkerEvent::Content(content)) => {
            match content {
                Some(text) => (
                    WorkerState::Queueing,
                    WorkerAction::Queue { row: parse_pending(text.as_str()) },
                ),
                None => (WorkerState::Removing, WorkerAction::Remove { path: processing }),
            }
        },
        (WorkerState::Queueing, WorkerEvent::Queued) => (
            WorkerState::Removing,
            WorkerAction::Remove { path: processing },
        ),
        (WorkerState::Removing, WorkerEvent::Removed) => (
            WorkerState::Sleeping,
            WorkerAction::Sleep { secs: RETRY_INTERVAL_SECS },
        ),
        (state, _) => (state, WorkerAction::Ignore),
    }
}

proof fn lemma_split_two(a: Seq<char>, b: Seq<char>, sep: char)
    requires
        !a.contains(sep),
        !b.contains(sep),
    ensures
        split_on(a.push(sep) + b, sep) == seq![a, b],
    decreases b.len(),
{
    let whole = a.push(sep) + b;
    if b.len() == 0 {
        assert(whole =~= a.push(sep));
        assert(whole.drop_last() =~= a);
        lemma_split_without(a, sep);
        assert(b =~= Seq::empty());
        assert(seq![a].push(Seq::empty()) =~= seq![a, b]);
    } else {
        let shorter = b.drop_last();
        assert(!shorter.contains(sep)) by {
            if shorter.contains(sep) {
                let i = choose|i: int| 0 <= i < shorter.len() && shorter[i] == sep;
                assert(b[i] == sep);
            }
        }
        lemma_split_two(a, shorter, sep);
        assert(whole.drop_last() =~= a.push(sep) + shorter);
        assert(b[b.len() - 1] == b.last());
        assert(whole.last() == b.last());
        assert(seq![a, shorter].drop_last().push(seq![a, shorter].last().push(b.last())) =~= seq![
            a,
            b,
        ]) by {
            assert(shorter.push(b.last()) =~= b);
        }
    }
}

/// A line with a key and a contract, one comma between them and any white space
/// around each, holds exactly that pair, and the parts of a file hold what their
/// lines hold, in order.
pub proof fn law_pair_on_a_line_is_read(
    a: Seq<char>,
    key: Seq<char>,
    b: Seq<char>,
    c: Seq<char>,
    address: Seq<char>,
    d: Seq<char>,
)
    requires
        all_white(a) && all_white(b) && all_white(c) && all_white(d),
        key.len() > 0 && !is_white(key[0]) && !is_white(key.last()),
        address.len() > 0 && !is_white(address[0]) && !is_white(address.last()),
        !key.contains(','),
        !address.contains(','),
    ensures
        line_confirmation((a + key + b).push(',') + (c + address + d)) == Some((key, address)),
{
    let line = (a + key + b).push(',') + (c + address + d);
    let core = (key + b).push(',') + (c + address);
    assert(line =~= a + core + d);
    assert(core[0] == key[0]);
    assert(core.last() == address.last());
    lemma_trimmed_padded(a, core, d);
    let left = key + b;
    let right = c + address;
    assert(!left.contains(',')) by {
        if left.contains(',') {
            let i = choose|i: int| 0 <= i < left.len() && left[i] == ',';
            if i < key.len() {
                assert(key[i] == ',');
            } else {
                assert(is_white(b[i - key.len()]));
            }
        }
    }
    assert(!right.contains(',')) by {
        if right.contains(',') {
            let i = choose|i: int| 0 <= i < right.len() && right[i] == ',';
            if i < c.len() {
                assert(is_white(c[i]));
            } else {
                assert(address[i - c.len()] == ',');
            }
        }
    }
    lemma_split_two(left, right, ',');
    let none: Seq<char> = Seq::empty();
    lemma_trimmed_padded(none, key, b);
    lemma_trimmed_padded(c, address, none);
    assert(none + key + b =~= left);
    assert(c + address + none =~= right);
}

/// A file holds what its lines hold, line by line, and a line without exactly one
/// comma holds nothing.
pub proof fn law_lines_are_read_one_by_one(
    front: Seq<Seq<char>>,
    back: Seq<Seq<char>>,
    line: Seq<char>,
)
    ensures
        line_confirmations(front + back) == line_confirmations(front) + line_confirmations(back),
        line_confirmations(seq![line]) == match line_confirmation(line) {
            Some(pair) => seq![pair],
            None => Seq::empty(),
        },
        split_on(trimmed(line), ',').len() != 2 ==> line_confirmation(line) is None,
    decreases back.len(),
{
    assert(seq![line].drop_last() =~= Seq::<Seq<char>>::empty());
    assert(line_confirmations(Seq::<Seq<char>>::empty()) =~= Seq::empty());
    assert(seq![line].last() == line);
    assert(line_confirmations(seq![line]) =~= match line_confirmation(line) {
        Some(pair) => seq![pair],
        None => Seq::empty(),
    });
    if back.len() == 0 {
        assert(front + back =~= front);
        assert(line_confirmations(front) + line_confirmations(back) =~= line_confirmations(front));
    } else {
        law_lines_are_read_one_by_one(front, back.drop_last(), line);
        assert((front + back).drop_last() =~= front + back.drop_last());
        assert((front + back).last() == back.last());
        assert(line_confirmations(front + back) =~= line_confirmations(front)
            + line_confirmations(back));
    }
}

/// A round of the worker takes up what waits: the file to which confirmations are
/// appended is looked for, moved aside, read, all that it holds is offered to the
/// queue, and only then is it removed. What is appended meanwhile goes to a new file.
/// The worker sleeps two minutes between rounds, also where there is no file or it
/// cannot be moved.
pub proof fn law_a_round_takes_up_what_waits(
    storage_root: Seq<char>,
    state: WorkerState,
    event: WorkerEvent,
    next: WorkerState,
    action: WorkerAction,
)
    requires
        worker_step(storage_root, state, event, next, action),
    ensures
        ({
            let waiting = joined(storage_root, "pending_confirmations.txt"@);
            let aside = joined(storage_root, "processing_confirmations.txt"@);
            &&& state is Sleeping && event is Woke ==> next is Looking && (
            action matches WorkerAction::Look { path } && path@ == waiting)
            &&& state is Looking && event == WorkerEvent::Exists(true) ==> next is Renaming && (
            action matches WorkerAction::Rename { from, to } && from@ == waiting && to@ == aside)
            &&& state is Looking && event == WorkerEvent::Exists(false) ==> next is Sleeping
                && action == (WorkerAction::Sleep { secs: 120 })
            &&& state is Renaming && event == WorkerEvent::Renamed(true) ==> next is Reading && (
            action matches WorkerAction::Read { path } && path@ == aside)
            &&& state is Renaming && event == WorkerEvent::Renamed(false) ==> next is Sleeping
                && action == (WorkerAction::Sleep { secs: 120 })
            &&& state is Reading ==> (event matches WorkerEvent::Content(Some(text)) ==> next
                is Queueing && (action matches WorkerAction::Queue { row } && pending_row(row@)
                == line_confirmations(split_on(text@, '\n'))))
            &&& state is Reading && event == WorkerEvent::Content(None) ==> next is Removing && (
            action matches WorkerAction::Remove { path } && path@ == aside)
            &&& state is Queueing && event is Queued ==> next is Removing && (
            action matches WorkerAction::Remove { path } && path@ == aside)
            &&& state is Removing && event is Removed ==> next is Sleeping && action
                == (WorkerAction::Sleep { secs: 120 })
            &&& action matches WorkerAction::Remove { path } ==> state is Queueing || (state
                is Reading && event == WorkerEvent::Content(None))
        }),
{
}

/// What is offered to the queue are the pairs that were read, each key with its own
/// contract.
pub proof fn law_pairs_are_offered_as_read(row: Seq<PendingConfirmation>, i: int)
    requires
        0 <= i < row.len(),
    ensures
        pending_row(row).len() == row.len(),
        pending_row(row)[i].0 == row[i].key@,
        pending_row(row)[i].1 == row[i].address@,
{
}

/// What happens to the worker out of turn changes nothing.
pub proof fn law_worker_ignores_strays(
    storage_root: Seq<char>,
    state: WorkerState,
    event: WorkerEvent,
    next: WorkerState,
    action: WorkerAction,
)
    requires
        worker_step(storage_root, state, event, next, action),
        !(state is Sleeping && event is Woke),
        !(state is Looking && event is Exists),
        !(state is Renaming && event is Renamed),
        !(state is Reading && event is Content),
        !(state is Queueing && event is Queued),
        !(state is Removing && event is Removed),
    ensures
        next == state && action is Ignore,
{
}

/// A line on which the key or the contract is blank holds nothing.
pub proof fn law_half_a_pair_is_none(key: Seq<char>, address: Seq<char>)
    requires
        !key.contains(',') && !address.contains(','),
        trimmed(key).len() == 0 || trimmed(address).len() == 0,
        key.len() > 0 ==> !is_white(key[0]),
        address.len() > 0 ==> !is_white(address.last()),
    ensures
        line_confirmation(key.push(',') + address) is None,
{
    let line = key.push(',') + address;
    let none: Seq<char> = Seq::empty();
    assert(line[0] == if key.len() > 0 {
        key[0]
    } else {
        ','
    });
    assert(line.last() == if address.len() > 0 {
        address.last()
    } else {
        ','
    });
    lemma_trimmed_padded(none, line, none);
    assert(none + line + none =~= line);
    lemma_split_two(key, address, ',');
}

/// Sessions are swept every ten hours, and the limit on their age is a day.
pub proof fn law_sweeps_outpace_the_limit()
    ensures
        SWEEP_INTERVAL_SECS == 10 * 3_600,
        SESSION_MAX_AGE_SECS == 24 * 3_600,
        SWEEP_INTERVAL_SECS < SESSION_MAX_AGE_SECS,
{
}

} // verus!
