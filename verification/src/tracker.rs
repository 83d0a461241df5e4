//! Which chunks of a file have come in, and when the node's share is complete.
//! Two nodes share a file: one keeps the even chunks, the other the odd ones.

use crate::cache::{lookup, Caches, CachesView, ReceivedMap, UploadMap};
use std::collections::HashSet;
use vstd::prelude::*;

verus! {

broadcast use vstd::std_specs::hash::group_hash_axioms;

/// How many chunks the node keeps of a file, told from one of them.
pub open spec fn share_size(total_chunks: u64, chunk_index: u64) -> int {
    if chunk_index % 2 == 0 {
        (total_chunks + 1) / 2
    } else {
        total_chunks as int / 2
    }
}

/// The chunks that the node keeps of a file, told from one of them.
pub open spec fn share(total_chunks: u64, chunk_index: u64) -> Set<u64> {
    Set::new(|i: u64| i < total_chunks && i % 2 == chunk_index % 2)
}

proof fn lemma_share_size(total_chunks: u64, chunk_index: u64)
    ensures
        share(total_chunks, chunk_index).finite(),
        share(total_chunks, chunk_index).len() == share_size(total_chunks, chunk_index),
    decreases total_chunks,
{
    let whole = share(total_chunks, chunk_index);
    if total_chunks == 0 {
        assert(whole =~= Set::empty());
    } else {
        let last = (total_chunks - 1) as u64;
        let below = share(last, chunk_index);
        lemma_share_size(last, chunk_index);
        if last % 2 == chunk_index % 2 {
            assert(whole =~= below.insert(last));
        } else {
            assert(whole =~= below);
        }
    }
}

/// The node's share is as large as it is counted: every chunk of the file with
/// the parity of the given one.
pub proof fn law_share_size(total_chunks: u64, chunk_index: u64)
    ensures
        share(total_chunks, chunk_index).len() == share_size(total_chunks, chunk_index),
{
    lemma_share_size(total_chunks, chunk_index);
}

/// The chunks of a file that have come in so far.
pub open spec fn received_of(received: ReceivedMap, file_key: Seq<char>) -> Set<u64> {
    match lookup(received, file_key) {
        Some(chunks) => chunks,
        None => Set::empty(),
    }
}

/// Whether a chunk completes the node's share of its file.
pub open spec fn completes_share(
    uploads: UploadMap,
    received: ReceivedMap,
    file_key: Seq<char>,
    chunk_index: u64,
) -> bool {
    lookup(uploads, file_key) matches Some(info) && received_of(received, file_key).insert(
        chunk_index,
    ).len() == share_size(info.total_chunks, chunk_index)
}

/// The received chunks after one more came in. Of a file that is not known
/// nothing is noted, and a complete share is forgotten.
pub open spec fn noted(
    uploads: UploadMap,
    received: ReceivedMap,
    file_key: Seq<char>,
    chunk_index: u64,
) -> ReceivedMap {
    match lookup(uploads, file_key) {
        None => received,
        Some(_) => if completes_share(uploads, received, file_key, chunk_index) {
            received.remove(file_key)
        } else {
            received.insert(file_key, received_of(received, file_key).insert(chunk_index))
        },
    }
}

/// Whether a chunk has come in before.
pub fn is_duplicate(caches: &mut Caches, file_key: &str, chunk_index: u64) -> (known: bool)
    ensures
        known == received_of(old(caches)@.received, file_key@).contains(chunk_index),
        final(caches)@ == old(caches)@,
{
    match caches.take_received(file_key) {
        None => {
            assert(caches@.received =~= old(caches)@.received);
            false
        },
        Some(chunks) => {
            let known = chunks.contains(&chunk_index);
            caches.put_received(file_key.to_owned(), chunks);
            assert(caches@.received =~= old(caches)@.received);
            known
        },
    }
}

/// Whether the node's share of a file can be counted: the number of all chunks
/// leaves room for one more where it is halved upwards.
pub open spec fn share_is_countable(
    uploads: UploadMap,
    file_key: Seq<char>,
    chunk_index: u64,
) -> bool {
    lookup(uploads, file_key) matches Some(info) ==> (chunk_index % 2 == 0 ==> info.total_chunks
        < u64::MAX)
}

/// Whether the node's share of a file can be counted.
pub fn share_can_be_counted(caches: &Caches, file_key: &str, chunk_index: u64) -> (r: bool)
    ensures
        r == share_is_countable(caches@.uploads, file_key@, chunk_index),
{
    match caches.upload(file_key) {
        Some(info) => chunk_index % 2 != 0 || info.total_chunks < u64::MAX,
        None => true,
    }
}

/// Notes that a chunk has come in, and says whether the node's share of the file
/// is complete with it.
pub fn track_chunk(caches: &mut Caches, file_key: &str, chunk_index: u64) -> (complete: bool)
    requires
        share_is_countable(old(caches)@.uploads, file_key@, chunk_index),
    ensures
        complete == completes_share(
            old(caches)@.uploads,
            old(caches)@.received,
            file_key@,
            chunk_index,
        ),
        final(caches)@ == (CachesView {
            received: noted(
                old(caches)@.uploads,
                old(caches)@.received,
                file_key@,
                chunk_index,
            ),
            ..old(caches)@
        }),
{
    let info = match caches.upload(file_key) {
        None => {
            return false;
        },
        Some(info) => info,
    };
    let expected: u64 = if chunk_index % 2 == 0 {
        (info.total_chunks + 1) / 2
    } else {
        info.total_chunks / 2
    };
    let mut chunks = match caches.take_received(file_key) {
        Some(chunks) => chunks,
        None => HashSet::<u64>::new(),
    };
    assert(chunks@ == received_of(old(caches)@.received, file_key@));
    chunks.insert(chunk_index);
    if chunks.len() as u64 == expected {
        true
    } else {
        caches.put_received(file_key.to_owned(), chunks);
        assert(caches@.received =~= noted(
            old(caches)@.uploads,
            old(caches)@.received,
            file_key@,
            chunk_index,
        ));
        false
    }
}

/// A chunk that was noted is known when it comes again, unless the share of its
/// file was complete with it.
pub proof fn law_noted_chunk_is_duplicate(
    uploads: UploadMap,
    received: ReceivedMap,
    file_key: Seq<char>,
    chunk_index: u64,
)
    requires
        uploads.contains_key(file_key),
        !completes_share(uploads, received, file_key, chunk_index),
    ensures
        received_of(noted(uploads, received, file_key, chunk_index), file_key).contains(
            chunk_index,
        ),
{
}

/// Where only chunks of the node's share come in, the share is complete exactly
/// when every one of them is there.
pub proof fn law_complete_when_all_received(
    uploads: UploadMap,
    received: ReceivedMap,
    file_key: Seq<char>,
    chunk_index: u64,
    total_chunks: u64,
)
    requires
        lookup(uploads, file_key) matches Some(info) && info.total_chunks == total_chunks,
        chunk_index < total_chunks,
        received_of(received, file_key).subset_of(share(total_chunks, chunk_index)),
    ensures
        completes_share(uploads, received, file_key, chunk_index) <==> received_of(
            received,
            file_key,
        ).insert(chunk_index) == share(total_chunks, chunk_index),
{
    let whole = share(total_chunks, chunk_index);
    let now = received_of(received, file_key).insert(chunk_index);
    lemma_share_size(total_chunks, chunk_index);
    assert(now.subset_of(whole));
    vstd::set_lib::lemma_len_subset(now, whole);
    if now.len() == whole.len() {
        vstd::set_lib::lemma_subset_equality(now, whole);
    }
}

/// Noting a chunk concerns its file alone. Of a file that is not known nothing is
/// noted; of another the chunks that had come in stay noted, with the new one; and a
/// share that is complete is forgotten.
pub proof fn law_noting_concerns_one_file(
    uploads: UploadMap,
    received: ReceivedMap,
    file_key: Seq<char>,
    chunk_index: u64,
    other: Seq<char>,
    index: u64,
)
    ensures
        other != file_key ==> lookup(noted(uploads, received, file_key, chunk_index), other)
            == lookup(received, other),
        !uploads.contains_key(file_key) ==> noted(uploads, received, file_key, chunk_index)
            == received && !completes_share(uploads, received, file_key, chunk_index),
        uploads.contains_key(file_key) && !completes_share(
            uploads,
            received,
            file_key,
            chunk_index,
        ) ==> (received_of(noted(uploads, received, file_key, chunk_index), file_key).contains(
            index,
        ) <==> index == chunk_index || (received.contains_key(file_key)
            && received[file_key].contains(index))),
        completes_share(uploads, received, file_key, chunk_index) ==> !noted(
            uploads,
            received,
            file_key,
            chunk_index,
        ).contains_key(file_key),
{
}

/// A chunk completes the share exactly if, with it, as many chunks have come in as
/// the share has: half of the file's chunks, rounded up where the even ones are
/// kept and down where the odd ones are.
pub proof fn law_share_is_half_of_the_file(
    uploads: UploadMap,
    received: ReceivedMap,
    file_key: Seq<char>,
    chunk_index: u64,
)
    requires
        uploads.contains_key(file_key),
    ensures
        ({
            let total = uploads[file_key].total_chunks;
            let now = received_of(received, file_key).insert(chunk_index).len();
            &&& chunk_index % 2 == 0 ==> (completes_share(uploads, received, file_key, chunk_index)
                <==> 2 * now == total || 2 * now == total + 1)
            &&& chunk_index % 2 == 1 ==> (completes_share(uploads, received, file_key, chunk_index)
                <==> 2 * now == total || 2 * now + 1 == total)
        }),
{
}

/// A share can be counted unless the file has as many chunks as a number can say and
/// the even ones are kept, which would be one too many before they are halved.
pub proof fn law_shares_can_be_counted(
    uploads: UploadMap,
    file_key: Seq<char>,
    chunk_index: u64,
)
    ensures
        share_is_countable(uploads, file_key, chunk_index) <==> !(uploads.contains_key(file_key)
            && chunk_index % 2 == 0 && uploads[file_key].total_chunks + 1 > u64::MAX),
{
}

} // verus!
