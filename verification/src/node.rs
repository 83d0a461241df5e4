//! Starting the node, and the batches in which uploads are confirmed.

use crate::crypto::Address;
use crate::text::{
    join_text, lemma_split_nonempty, lemma_split_without, same_bytes, same_text, split_on,
    split_text, texts,
};
use vstd::prelude::*;
use vstd::string::*;

verus! {

/// How many files the node must be able to hold open.
pub const MIN_REQUIRED_FILES: u64 = 10_000;

/// How many uploads of one contract are confirmed at once.
pub const MAX_BATCH: usize = 50;

/// Whether a limit on open files lets the node start.
pub open spec fn may_start(soft_limit: u64) -> bool {
    soft_limit >= MIN_REQUIRED_FILES
}

/// The node starts from ten thousand open files on.
pub proof fn law_ten_thousand_files_suffice(soft_limit: u64)
    ensures
        may_start(soft_limit) <==> soft_limit >= 10_000,
{
}

/// Whether the node may start with the given limit on open files.
pub fn enough_files(soft_limit: u64) -> (ok: bool)
    ensures
        ok == (soft_limit >= MIN_REQUIRED_FILES),
        ok == may_start(soft_limit),
{
    soft_limit >= MIN_REQUIRED_FILES
}

/// The directory for the logs of a node, given its address.
pub open spec fn log_dir_of(server_addr: Seq<char>) -> Seq<char> {
    "log_"@ + split_on(server_addr, ':').last()
}

proof fn lemma_last_part(front: Seq<char>, last: Seq<char>, sep: char)
    requires
        !last.contains(sep),
    ensures
        split_on(front.push(sep) + last, sep).last() == last,
    decreases last.len(),
{
    let whole = front.push(sep) + last;
    lemma_split_nonempty(front, sep);
    if last.len() == 0 {
        assert(whole =~= front.push(sep));
        assert(whole.drop_last() =~= front);
        assert(last =~= Seq::empty());
    } else {
        let shorter = last.drop_last();
        assert forall|i: int| 0 <= i < shorter.len() implies shorter[i] != sep by {
            assert(last[i] == shorter[i]);
        }
        lemma_last_part(front, shorter, sep);
        lemma_split_nonempty(front.push(sep) + shorter, sep);
        assert(last[last.len() - 1] == last.last());
        assert(whole.drop_last() =~= front.push(sep) + shorter);
        assert(shorter.push(last.last()) =~= last);
    }
}

/// The logs of two nodes on one machine lie apart: the directory bears the port that
/// the node listens on, whatever host stands before it.
pub proof fn law_logs_lie_by_port(host: Seq<char>, port: Seq<char>)
    requires
        !port.contains(':'),
    ensures
        log_dir_of(host.push(':') + port) == "log_"@ + port,
        log_dir_of(port) == "log_"@ + port,
{
    lemma_last_part(host, port, ':');
    lemma_split_without(port, ':');
}

/// The directory for the logs of a node: named after what follows the last colon
/// of its address.
pub fn log_dir_name(server_addr: &str) -> (name: String)
    ensures
        name@ == "log_"@ + split_on(server_addr@, ':').last(),
        name@ == log_dir_of(server_addr@),
{
    let parts = split_text(server_addr, ':');
    let last: usize = parts.len() - 1;
    assert(texts(parts@).last() == parts@[last as int]@);
    join_text("log_", parts[last].as_str())
}

// ---------------------------------------------------------------------------
// Batches
// ---------------------------------------------------------------------------

/// The uploads of one contract that are confirmed at once.
#[derive(Debug)]
pub struct Batch {
    pub contract: Address,
    pub file_keys: Vec<String>,
}

/// A batch as plain values.
pub type BatchView = (Seq<u8>, Seq<Seq<char>>);

/// A batch by its contract and its keys.
pub open spec fn batch_view(batch: Batch) -> BatchView {
    (batch.contract@, texts(batch.file_keys@))
}

/// Batches by their contracts and keys.
pub open spec fn batch_views(batches: Seq<Batch>) -> Seq<BatchView> {
    batches.map_values(|b: Batch| batch_view(b))
}

/// Keys with one more, unless it is there already.
pub open spec fn with_key(keys: Seq<Seq<char>>, key: Seq<char>) -> Seq<Seq<char>> {
    if keys.contains(key) {
        keys
    } else {
        keys.push(key)
    }
}

/// Where the batch of a contract stands, if it has one.
pub open spec fn batch_of(batches: Seq<BatchView>, contract: Seq<u8>) -> Option<int>
    decreases batches.len(),
{
    if batches.len() == 0 {
        None
    } else if batches.last().0 == contract {
        Some(batches.len() - 1)
    } else {
        batch_of(batches.drop_last(), contract)
    }
}

/// Batches after one more upload: it joins the batch of its contract, or starts
/// one.
pub open spec fn with_upload(
    batches: Seq<BatchView>,
    contract: Seq<u8>,
    key: Seq<char>,
) -> Seq<BatchView> {
    match batch_of(batches, contract) {
        Some(i) => batches.update(i, (contract, with_key(batches[i].1, key))),
        None => batches.push((contract, seq![key])),
    }
}

/// The keys in the batch of a contract.
pub open spec fn keys_for(batches: Seq<BatchView>, contract: Seq<u8>) -> Seq<Seq<char>> {
    match batch_of(batches, contract) {
        Some(i) => batches[i].1,
        None => Seq::empty(),
    }
}

proof fn lemma_batch_of(batches: Seq<BatchView>, contract: Seq<u8>)
    ensures
        match batch_of(batches, contract) {
            Some(i) => 0 <= i < batches.len() && batches[i].0 == contract,
            None => forall|i: int|
                0 <= i < batches.len() ==> (#[trigger] batches[i]).0 != contract,
        },
    decreases batches.len(),
{
    if batches.len() > 0 && batches.last().0 != contract {
        let front = batches.drop_last();
        lemma_batch_of(front, contract);
        if batch_of(front, contract) is None {
            assert forall|i: int| 0 <= i < batches.len() implies (#[trigger] batches[i]).0
                != contract by {
                if i < front.len() {
                    assert(front[i] == batches[i]);
                }
            }
        }
    }
}

proof fn lemma_batch_of_take(batches: Seq<BatchView>, contract: Seq<u8>, n: int)
    requires
        0 <= n <= batches.len(),
        forall|i: int| n <= i < batches.len() ==> (#[trigger] batches[i]).0 != contract,
    ensures
        batch_of(batches, contract) == batch_of(batches.take(n), contract),
    decreases batches.len() - n,
{
    if n == batches.len() {
        assert(batches.take(n) == batches);
    } else {
        lemma_batch_of_take(batches, contract, n + 1);
        assert(batches.take(n + 1).drop_last() == batches.take(n));
        assert(batches.take(n + 1).last() == batches[n]);
    }
}

/// Whether no contract has two batches, and no batch is empty, holds a key twice
/// or is too long.
pub open spec fn well_batched(batches: Seq<BatchView>) -> bool {
    &&& forall|i: int, j: int|
        0 <= i < j < batches.len() ==> (#[trigger] batches[i]).0 != (#[trigger] batches[j]).0
    &&& forall|i: int| 0 <= i < batches.len() ==> {
        &&& 0 < (#[trigger] batches[i]).1.len() <= MAX_BATCH
        &&& batches[i].1.no_duplicates()
    }
}

fn holds_key(keys: &Vec<String>, key: &str) -> (found: bool)
    ensures
        found == texts(keys@).contains(key@),
{
    let ghost row = texts(keys@);
    let mut i: usize = 0;
    while i < keys.len()
        invariant
            i <= keys@.len(),
            row == texts(keys@),
            forall|j: int| 0 <= j < i ==> (#[trigger] row[j]) != key@,
        decreases keys@.len() - i,
    {
        assert(row[i as int] == keys@[i as int]@);
        if same_text(keys[i].as_str(), key) {
            return true;
        }
        i = i + 1;
    }
    false
}

/// The batches after a first upload.
pub fn start_batches(file_key: String, contract: Address) -> (batches: Vec<Batch>)
    ensures
        batch_views(batches@) == with_upload(Seq::empty(), contract@, file_key@),
{
    let mut file_keys: Vec<String> = Vec::new();
    let ghost key = file_key@;
    file_keys.push(file_key);
    assert(texts(file_keys@) =~= seq![key]);
    let mut batches: Vec<Batch> = Vec::new();
    batches.push(Batch { contract, file_keys });
    assert(batch_views(batches@) =~= Seq::<BatchView>::empty().push((contract@, seq![key])));
    batches
}

/// Adds one more upload, and says whether the batch of its contract is full now.
pub fn add_upload(batches: &mut Vec<Batch>, file_key: String, contract: Address) -> (full: bool)
    ensures
        batch_views(final(batches)@) == with_upload(
            batch_views(old(batches)@),
            contract@,
            file_key@,
        ),
        full == (keys_for(batch_views(final(batches)@), contract@).len() >= MAX_BATCH),
        full == is_full(batch_views(final(batches)@), contract@),
{
    let ghost views = batch_views(batches@);
    let ghost key = file_key@;
    let mut i: usize = batches.len();
    while i > 0
        invariant
            i <= batches@.len(),
            batches@ == old(batches)@,
            views == batch_views(batches@),
            key == file_key@,
            forall|k: int| i <= k < views.len() ==> (#[trigger] views[k]).0 != contract@,
        decreases i,
    {
        i = i - 1;
        assert(views[i as int].0 == batches@[i as int].contract@);
        if same_bytes(batches[i].contract.as_slice(), contract.as_slice()) {
            proof {
                lemma_batch_of_take(views, contract@, i + 1);
                assert(views.take(i + 1).last() == views[i as int]);
                assert(batch_of(views, contract@) == Some(i as int));
            }
            let mut batch = batches.remove(i);
            let ghost keys = texts(batch.file_keys@);
            assert(keys == views[i as int].1);
            if !holds_key(&batch.file_keys, file_key.as_str()) {
                batch.file_keys.push(file_key);
                assert(texts(batch.file_keys@) =~= keys.push(key));
            }
            let full = batch.file_keys.len() >= MAX_BATCH;
            let ghost view = batch_view(batch);
            batches.insert(i, batch);
            proof {
                let after = batch_views(batches@);
                assert(after =~= views.update(i as int, view));
                lemma_batch_of_take(after, contract@, i + 1);
                assert(after.take(i + 1).last() == after[i as int]);
                assert(batch_of(after, contract@) == Some(i as int));
                assert(texts(batch.file_keys@).len() == batch.file_keys@.len());
            }
            return full;
        }
    }
    proof {
        lemma_batch_of_take(views, contract@, 0);
    }
    let mut file_keys: Vec<String> = Vec::new();
    file_keys.push(file_key);
    assert(texts(file_keys@) =~= seq![key]);
    batches.push(Batch { contract, file_keys });
    proof {
        let after = batch_views(batches@);
        assert(after =~= views.push((contract@, seq![key])));
        assert(after.last().0 == contract@);
    }
    false
}

/// Uploads are batched well: a first upload gives a good batch, and one more
/// keeps the batches good as long as the batch that it joins is not full.
pub proof fn law_batches_stay_good(batches: Seq<BatchView>, contract: Seq<u8>, key: Seq<char>)
    requires
        well_batched(batches),
        keys_for(batches, contract).len() < MAX_BATCH,
    ensures
        well_batched(with_upload(batches, contract, key)),
        keys_for(with_upload(batches, contract, key), contract).contains(key),
{
    let after = with_upload(batches, contract, key);
    lemma_batch_of(batches, contract);
    lemma_batch_of(after, contract);
    match batch_of(batches, contract) {
        Some(i) => {
            let keys = with_key(batches[i].1, key);
            assert(after[i] == (contract, keys));
            assert(keys.no_duplicates()) by {
                if !batches[i].1.contains(key) {
                    assert forall|a: int, b: int| 0 <= a < b < keys.len() implies keys[a]
                        != keys[b] by {
                        if b == keys.len() - 1 {
                            assert(batches[i].1.contains(keys[a]));
                        }
                    }
                }
            }
            assert(keys.contains(key)) by {
                if !batches[i].1.contains(key) {
                    assert(keys[keys.len() - 1] == key);
                }
            }
            assert(batch_of(after, contract) == Some(i)) by {
                let j = batch_of(after, contract)->0;
                if batch_of(after, contract) is None {
                    assert(after[i].0 == contract);
                } else if j != i {
                    assert(after[j].0 == batches[j].0);
                    assert(batches[i].0 == contract && batches[j].0 == contract);
                    if i < j {
                        assert(batches[i].0 != batches[j].0);
                    } else {
                        assert(batches[j].0 != batches[i].0);
                    }
                }
            }
        },
        None => {
            assert(after.last() == (contract, seq![key]));
            assert(seq![key][0] == key);
        },
    }
}

/// An upload joins the batch of its own contract and no other: there the keys that
/// were in it stay, in order, and the new one stands behind them unless it was there
/// already. The batches of other contracts stay as they are.
pub proof fn law_upload_joins_its_contract(
    batches: Seq<BatchView>,
    contract: Seq<u8>,
    key: Seq<char>,
    other: Seq<u8>,
)
    requires
        forall|i: int, j: int|
            0 <= i < j < batches.len() ==> (#[trigger] batches[i]).0 != (#[trigger] batches[j]).0,
    ensures
        other != contract ==> keys_for(with_upload(batches, contract, key), other) == keys_for(
            batches,
            other,
        ),
        keys_for(batches, contract).contains(key) ==> keys_for(
            with_upload(batches, contract, key),
            contract,
        ) == keys_for(batches, contract),
        !keys_for(batches, contract).contains(key) ==> keys_for(
            with_upload(batches, contract, key),
            contract,
        ) == keys_for(batches, contract).push(key),
        forall|i: int|
            0 <= i < batches.len() && (#[trigger] batches[i]).0 != contract ==> with_upload(
                batches,
                contract,
                key,
            )[i] == batches[i],
{
    let after = with_upload(batches, contract, key);
    lemma_batch_of(batches, contract);
    lemma_batch_of(batches, other);
    assert forall|i: int, j: int| 0 <= i < j < after.len() implies (#[trigger] after[i]).0 != (
    #[trigger] after[j]).0 by {
        match batch_of(batches, contract) {
            Some(k) => {
                assert(after[i].0 == batches[i].0);
                assert(after[j].0 == batches[j].0);
            },
            None => {
                assert(after[i] == batches[i]);
                if j < batches.len() {
                    assert(after[j] == batches[j]);
                }
            },
        }
    }
    match batch_of(batches, contract) {
        Some(k) => {
            assert(after[k].0 == contract);
            lemma_batch_is(after, contract, k);
        },
        None => {
            let k = batches.len() as int;
            assert(after[k] == (contract, seq![key]));
            lemma_batch_is(after, contract, k);
            assert(seq![key] =~= Seq::<Seq<char>>::empty().push(key));
            assert(keys_for(batches, contract).len() == 0);
        },
    }
    if other != contract {
        match batch_of(batches, other) {
            Some(k) => {
                assert(after[k] == batches[k]);
                lemma_batch_is(after, other, k);
            },
            None => {
                lemma_batch_of(after, other);
                if let Some(k) = batch_of(after, other) {
                    assert(after[k].0 == other);
                    if k < batches.len() {
                        assert(after[k].0 == batches[k].0);
                    }
                }
            },
        }
    }
}

proof fn lemma_batch_is(batches: Seq<BatchView>, contract: Seq<u8>, k: int)
    requires
        forall|i: int, j: int|
            0 <= i < j < batches.len() ==> (#[trigger] batches[i]).0 != (#[trigger] batches[j]).0,
        0 <= k < batches.len(),
        batches[k].0 == contract,
    ensures
        batch_of(batches, contract) == Some(k),
{
    lemma_batch_of(batches, contract);
    match batch_of(batches, contract) {
        Some(i) => {
            if i < k {
                assert(batches[i].0 != batches[k].0);
            } else if k < i {
                assert(batches[k].0 != batches[i].0);
            }
        },
        None => {
            assert(batches[k].0 == contract);
        },
    }
}

/// A batch is what it holds: its contract, and its keys in order.
pub proof fn law_batch_is_seen_whole(batches: Seq<Batch>, i: int, k: int)
    requires
        0 <= i < batches.len(),
        0 <= k < batches[i].file_keys@.len(),
    ensures
        batch_views(batches).len() == batches.len(),
        batch_views(batches)[i].0 == batches[i].contract@,
        batch_views(batches)[i].1.len() == batches[i].file_keys@.len(),
        batch_views(batches)[i].1[k] == batches[i].file_keys@[k]@,
{
}

/// Whether the batch of a contract takes no more uploads.
pub open spec fn is_full(batches: Seq<BatchView>, contract: Seq<u8>) -> bool {
    keys_for(batches, contract).len() >= MAX_BATCH
}

/// A batch is full from fifty uploads on, however few other contracts have.
pub proof fn law_fifty_uploads_fill_a_batch(batches: Seq<BatchView>, contract: Seq<u8>, i: int)
    requires
        forall|i: int, j: int|
            0 <= i < j < batches.len() ==> (#[trigger] batches[i]).0 != (#[trigger] batches[j]).0,
        0 <= i < batches.len(),
        batches[i].0 == contract,
    ensures
        is_full(batches, contract) <==> batches[i].1.len() >= 50,
{
    lemma_batch_is(batches, contract, i);
}

/// No batch grows beyond fifty uploads as long as adding stops where one is full, and
/// one that is full holds fifty.
pub proof fn law_batches_hold_fifty(batches: Seq<BatchView>, contract: Seq<u8>, key: Seq<char>)
    requires
        well_batched(batches),
        keys_for(batches, contract).len() < MAX_BATCH,
    ensures
        keys_for(with_upload(batches, contract, key), contract).len() <= 50,
        keys_for(with_upload(batches, contract, key), contract).len() >= MAX_BATCH ==> keys_for(
            with_upload(batches, contract, key),
            contract,
        ).len() == 50,
{
    law_upload_joins_its_contract(batches, contract, key, contract);
}

} // verus!
