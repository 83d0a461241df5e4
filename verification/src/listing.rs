//! Directory listings: the chunks of a file, the log files of the node.

use crate::text::{decimal, join_text, law_decimal_round_trip, number_value, parse_number};
use vstd::prelude::*;
use vstd::string::*;

verus! {

/// What the walk through a directory meets.
#[derive(Debug)]
pub enum DirEntry {
    /// The next entry could not be read.
    EntryFailed(String),
    /// The entry's type could not be read.
    TypeFailed(String),
    /// A regular file, with its name if that is text.
    File(Option<String>),
    /// Anything else.
    Other,
}

/// A directory as it was found.
#[derive(Debug)]
pub enum DirListing {
    /// There is nothing at that path.
    Missing,
    /// It could not be opened.
    ReadFailed(String),
    /// Its entries in the order of the walk.
    Entries(Vec<DirEntry>),
}

/// What is said of the first entry that fails, if any.
pub open spec fn walk_error(entries: Seq<DirEntry>) -> Option<Seq<char>>
    decreases entries.len(),
{
    if entries.len() == 0 {
        None
    } else {
        match walk_error(entries.drop_last()) {
            Some(e) => Some(e),
            None => match entries.last() {
                DirEntry::EntryFailed(e) => Some("Failed to read entry: "@ + e@),
                DirEntry::TypeFailed(e) => Some("Failed to get file type: "@ + e@),
                _ => None,
            },
        }
    }
}

/// What is said of a listing that fails, if it does.
pub open spec fn listing_error(listing: DirListing) -> Option<Seq<char>> {
    match listing {
        DirListing::Missing => Some("File path does not exist"@),
        DirListing::ReadFailed(e) => Some("Failed to read directory: "@ + e@),
        DirListing::Entries(entries) => walk_error(entries@),
    }
}

/// The entries of a listing.
pub open spec fn listing_entries(listing: DirListing) -> Seq<DirEntry> {
    match listing {
        DirListing::Entries(entries) => entries@,
        _ => Seq::empty(),
    }
}

proof fn lemma_walk_error_prefix(entries: Seq<DirEntry>, n: int)
    requires
        0 <= n <= entries.len(),
        walk_error(entries.take(n)) is Some,
    ensures
        walk_error(entries) == walk_error(entries.take(n)),
    decreases entries.len() - n,
{
    if n == entries.len() {
        assert(entries.take(n) == entries);
    } else {
        assert(entries.take(n + 1).drop_last() == entries.take(n));
        lemma_walk_error_prefix(entries, n + 1);
    }
}

/// How many entries are regular files.
pub open spec fn file_count(entries: Seq<DirEntry>) -> nat
    decreases entries.len(),
{
    if entries.len() == 0 {
        0
    } else {
        file_count(entries.drop_last()) + if entries.last() is File {
            1nat
        } else {
            0nat
        }
    }
}

/// The chunk index that an entry stands for: the number that a file's name is.
pub open spec fn entry_index(entry: DirEntry) -> Option<u64> {
    match entry {
        DirEntry::File(Some(name)) => match number_value(name@, 10) {
            Ok(n) => Some(n as u64),
            Err(_) => None,
        },
        _ => None,
    }
}

/// The chunk indices among the entries, in the order of the walk.
pub open spec fn chunk_indices(entries: Seq<DirEntry>) -> Seq<u64>
    decreases entries.len(),
{
    if entries.len() == 0 {
        Seq::empty()
    } else {
        let front = chunk_indices(entries.drop_last());
        match entry_index(entries.last()) {
            Some(index) => front.push(index),
            None => front,
        }
    }
}

/// Whether numbers stand in ascending order.
pub open spec fn ascending(row: Seq<u64>) -> bool {
    forall|i: int, j: int| 0 <= i < j < row.len() ==> row[i] <= row[j]
}

/// Counts the regular files in a directory.
pub fn count_chunks(listing: &DirListing) -> (r: Result<u64, String>)
    ensures
        match r {
            Ok(n) => listing_error(*listing) is None && n == file_count(listing_entries(*listing)),
            Err(e) => listing_error(*listing) == Some(e@),
        },
{
    match listing {
        DirListing::Missing => Err("File path does not exist".to_owned()),
        DirListing::ReadFailed(e) => Err(join_text("Failed to read directory: ", e.as_str())),
        DirListing::Entries(entries) => {
            let mut count: u64 = 0;
            let mut i: usize = 0;
            assert(entries@.take(0) == Seq::<DirEntry>::empty());
            while i < entries.len()
                invariant
                    i <= entries@.len(),
                    *listing == DirListing::Entries(*entries),
                    walk_error(entries@.take(i as int)) is None,
                    count == file_count(entries@.take(i as int)),
                    count <= i,
                decreases entries@.len() - i,
            {
                proof {
                    assert(entries@.take(i + 1).drop_last() == entries@.take(i as int));
                    assert(entries@.take(i + 1).last() == entries@[i as int]);
                }
                match &entries[i] {
                    DirEntry::EntryFailed(e) => {
                        proof {
                            lemma_walk_error_prefix(entries@, i + 1);
                        }
                        return Err(join_text("Failed to read entry: ", e.as_str()));
                    },
                    DirEntry::TypeFailed(e) => {
                        proof {
                            lemma_walk_error_prefix(entries@, i + 1);
                        }
                        return Err(join_text("Failed to get file type: ", e.as_str()));
                    },
                    DirEntry::File(_) => {
                        count = count + 1;
                    },
                    DirEntry::Other => {},
                }
                i = i + 1;
            }
            assert(entries@.take(entries@.len() as int) == entries@);
            Ok(count)
        },
    }
}

/// Puts a number into ascending numbers.
fn insert_ascending(row: &mut Vec<u64>, n: u64)
    requires
        ascending(old(row)@),
    ensures
        ascending(final(row)@),
        final(row)@.to_multiset() == old(row)@.to_multiset().insert(n),
{
    let mut p: usize = row.len();
    while p > 0 && row[p - 1] > n
        invariant
            p <= row@.len(),
            ascending(row@),
            forall|i: int| p <= i < row@.len() ==> row@[i] > n,
        decreases p,
    {
        p = p - 1;
    }
    let ghost before = row@;
    row.insert(p, n);
    proof {
        let front = before.subrange(0, p as int);
        let back = before.subrange(p as int, before.len() as int);
        assert(before =~= front + back);
        assert(row@ =~= front.push(n) + back);
        vstd::seq_lib::lemma_multiset_commutative(front, back);
        vstd::seq_lib::lemma_multiset_commutative(front.push(n), back);
        vstd::seq_lib::to_multiset_build(front, n);
        assert(row@.to_multiset() =~= before.to_multiset().insert(n));
    }
}

/// Lists the chunk indices in a directory, in ascending order.
pub fn list_chunks(listing: &DirListing) -> (r: Result<Vec<u64>, String>)
    ensures
        match r {
            Ok(row) => listing_error(*listing) is None && ascending(row@) && row@.to_multiset()
                == chunk_indices(listing_entries(*listing)).to_multiset(),
            Err(e) => listing_error(*listing) == Some(e@),
        },
{
    match listing {
        DirListing::Missing => Err("File path does not exist".to_owned()),
        DirListing::ReadFailed(e) => Err(join_text("Failed to read directory: ", e.as_str())),
        DirListing::Entries(entries) => {
            let mut row: Vec<u64> = Vec::new();
            let mut i: usize = 0;
            assert(entries@.take(0) == Seq::<DirEntry>::empty());
            while i < entries.len()
                invariant
                    i <= entries@.len(),
                    *listing == DirListing::Entries(*entries),
                    walk_error(entries@.take(i as int)) is None,
                    ascending(row@),
                    row@.to_multiset() == chunk_indices(entries@.take(i as int)).to_multiset(),
                decreases entries@.len() - i,
            {
                let ghost front = chunk_indices(entries@.take(i as int));
                proof {
                    assert(entries@.take(i + 1).drop_last() == entries@.take(i as int));
                    assert(entries@.take(i + 1).last() == entries@[i as int]);
                }
                match &entries[i] {
                    DirEntry::EntryFailed(e) => {
                        proof {
                            lemma_walk_error_prefix(entries@, i + 1);
                        }
                        return Err(join_text("Failed to read entry: ", e.as_str()));
                    },
                    DirEntry::TypeFailed(e) => {
                        proof {
                            lemma_walk_error_prefix(entries@, i + 1);
                        }
                        return Err(join_text("Failed to get file type: ", e.as_str()));
                    },
                    DirEntry::File(Some(name)) => {
                        match parse_number(name.as_str(), 10) {
                            Ok(index) => {
                                insert_ascending(&mut row, index);
                                proof {
                                    vstd::seq_lib::to_multiset_build(front, index);
                                }
                            },
                            Err(_) => {},
                        }
                    },
                    _ => {},
                }
                i = i + 1;
            }
            assert(entries@.take(entries@.len() as int) == entries@);
            Ok(row)
        },
    }
}

// ---------------------------------------------------------------------------
// Log files
// ---------------------------------------------------------------------------

/// A log file and when it was last modified, in nanoseconds since the epoch.
#[derive(Debug)]
pub struct LogFile {
    pub name: String,
    pub modified: i128,
}

/// Whether one log file is listed before another: it is newer, or as new and
/// found earlier.
pub open spec fn listed_before(files: Seq<LogFile>, a: int, b: int) -> bool {
    files[a].modified > files[b].modified || (files[a].modified == files[b].modified && a < b)
}

/// Whether an order lists every file once, the newest first, and files of the
/// same age as they were found.
pub open spec fn newest_first(order: Seq<usize>, files: Seq<LogFile>) -> bool {
    &&& order.len() == files.len()
    &&& forall|k: int| 0 <= k < order.len() ==> 0 <= #[trigger] order[k] < files.len()
    &&& forall|j: int, k: int|
        0 <= j < k < order.len() ==> listed_before(
            files,
            #[trigger] order[j] as int,
            #[trigger] order[k] as int,
        )
}

/// The names of log files, the newest first.
pub fn sort_logs(files: &Vec<LogFile>) -> (names: Vec<String>)
    ensures
        exists|order: Seq<usize>| #[trigger]
            newest_first(order, files@) && names@.len() == order.len() && forall|k: int|
                0 <= k < order.len() ==> (#[trigger] names@[k])@ == files@[order[k] as int].name@,
{
    let mut order: Vec<usize> = Vec::new();
    let mut i: usize = 0;
    while i < files.len()
        invariant
            i <= files@.len(),
            order@.len() == i,
            forall|k: int| 0 <= k < i ==> 0 <= #[trigger] order@[k] < i,
            forall|j: int, k: int|
                0 <= j < k < i ==> listed_before(
                    files@,
                    #[trigger] order@[j] as int,
                    #[trigger] order@[k] as int,
                ),
        decreases files@.len() - i,
    {
        let mut p: usize = order.len();
        while p > 0 && files[order[p - 1]].modified < files[i].modified
            invariant
                i < files@.len(),
                p <= order@.len(),
                order@.len() == i,
                forall|k: int| 0 <= k < i ==> 0 <= #[trigger] order@[k] < i,
                forall|k: int|
                    p <= k < i ==> files@[(#[trigger] order@[k]) as int].modified
                        < files@[i as int].modified,
            decreases p,
        {
            p = p - 1;
        }
        let ghost before = order@;
        order.insert(p, i);
        proof {
            assert forall|j: int, k: int| 0 <= j < k < i + 1 implies listed_before(
                files@,
                #[trigger] order@[j] as int,
                #[trigger] order@[k] as int,
            ) by {
                let a = if j < p {
                    j
                } else {
                    j - 1
                };
                let b = if k < p {
                    k
                } else {
                    k - 1
                };
                if k == p {
                    assert(order@[j] == before[j]);
                    assert(listed_before(files@, before[j] as int, before[p - 1] as int)
                        || j == p - 1);
                } else if j == p {
                    assert(order@[k] == before[k - 1]);
                } else {
                    assert(order@[j] == before[a]);
                    assert(order@[k] == before[b]);
                }
            }
        }
        i = i + 1;
    }
    let mut names: Vec<String> = Vec::new();
    let mut k: usize = 0;
    while k < order.len()
        invariant
            newest_first(order@, files@),
            k <= order@.len(),
            names@.len() == k,
            forall|j: int|
                0 <= j < k ==> (#[trigger] names@[j])@ == files@[order@[j] as int].name@,
        decreases order@.len() - k,
    {
        names.push(files[order[k]].name.clone());
        k = k + 1;
    }
    names
}

/// What an entry says of a walk that fails at it, if it does.
pub open spec fn entry_error(entry: DirEntry) -> Option<Seq<char>> {
    match entry {
        DirEntry::EntryFailed(e) => Some("Failed to read entry: "@ + e@),
        DirEntry::TypeFailed(e) => Some("Failed to get file type: "@ + e@),
        _ => None,
    }
}

/// A walk fails exactly if an entry does, and in the words of the first that does.
pub proof fn law_first_failure_is_told(entries: Seq<DirEntry>, i: int)
    ensures
        0 <= i < entries.len() && entry_error(entries[i]) is Some && (forall|j: int|
            0 <= j < i ==> entry_error(#[trigger] entries[j]) is None) ==> walk_error(entries)
            == entry_error(entries[i]),
        (forall|j: int| 0 <= j < entries.len() ==> entry_error(#[trigger] entries[j]) is None)
            ==> walk_error(entries) is None,
{
    if forall|j: int| 0 <= j < entries.len() ==> entry_error(#[trigger] entries[j]) is None {
        lemma_no_failure(entries, entries.len() as int);
        assert(entries.take(entries.len() as int) =~= entries);
    }
    if 0 <= i < entries.len() && entry_error(entries[i]) is Some && (forall|j: int|
        0 <= j < i ==> entry_error(#[trigger] entries[j]) is None) {
        lemma_no_failure(entries, i);
        assert(entries.take(i + 1).drop_last() =~= entries.take(i));
        assert(entries.take(i + 1).last() == entries[i]);
        lemma_walk_error_prefix(entries, i + 1);
    }
}

proof fn lemma_no_failure(entries: Seq<DirEntry>, n: int)
    requires
        0 <= n <= entries.len(),
        forall|j: int| 0 <= j < n ==> entry_error(#[trigger] entries[j]) is None,
    ensures
        walk_error(entries.take(n)) is None,
    decreases n,
{
    if n > 0 {
        lemma_no_failure(entries, n - 1);
        assert(entries.take(n).drop_last() =~= entries.take(n - 1));
        assert(entries.take(n).last() == entries[n - 1]);
    }
}

/// A listing fails where there is no directory, where it cannot be opened, or where
/// the walk through it fails.
pub proof fn law_listing_fails_in_words(listing: DirListing)
    ensures
        listing is Missing ==> listing_error(listing) == Some("File path does not exist"@),
        listing matches DirListing::ReadFailed(e) ==> listing_error(listing) == Some(
            "Failed to read directory: "@ + e@,
        ),
        listing matches DirListing::Entries(entries) ==> listing_error(listing) == walk_error(
            entries@,
        ) && listing_entries(listing) == entries@,
{
}

/// Every regular file counts once, whatever its name, and nothing else counts: so
/// many in one part of a directory and so many in the rest are as many in all.
pub proof fn law_files_are_counted_once(a: Seq<DirEntry>, b: Seq<DirEntry>, entry: DirEntry)
    ensures
        file_count(a + b) == file_count(a) + file_count(b),
        file_count(seq![entry]) == (if entry is File {
            1nat
        } else {
            0nat
        }),
        file_count(Seq::empty()) == 0,
    decreases b.len(),
{
    reveal_with_fuel(file_count, 2);
    assert(seq![entry].drop_last() =~= Seq::<DirEntry>::empty());
    if b.len() == 0 {
        assert(a + b =~= a);
    } else {
        law_files_are_counted_once(a, b.drop_last(), entry);
        assert((a + b).drop_last() =~= a + b.drop_last());
        assert((a + b).last() == b.last());
    }
}

/// Every regular file whose name is a number gives that number, and nothing else
/// gives any: the numbers of a directory are those of its parts.
pub proof fn law_files_give_their_numbers(
    a: Seq<DirEntry>,
    b: Seq<DirEntry>,
    name: String,
    n: u64,
    entry: DirEntry,
)
    ensures
        chunk_indices(a + b) == chunk_indices(a) + chunk_indices(b),
        name@ == decimal(n as nat) ==> chunk_indices(seq![DirEntry::File(Some(name))]) == seq![n],
        number_value(name@, 10) is Err ==> chunk_indices(seq![DirEntry::File(Some(name))])
            == Seq::<u64>::empty(),
        !(entry matches DirEntry::File(Some(_))) ==> chunk_indices(seq![entry])
            == Seq::<u64>::empty(),
    decreases b.len(),
{
    reveal_with_fuel(chunk_indices, 2);
    law_decimal_round_trip(n);
    let one = seq![DirEntry::File(Some(name))];
    assert(one.drop_last() =~= Seq::<DirEntry>::empty());
    assert(seq![entry].drop_last() =~= Seq::<DirEntry>::empty());
    assert(name@ == decimal(n as nat) ==> chunk_indices(one) =~= seq![n]);
    if b.len() == 0 {
        assert(a + b =~= a);
        assert(chunk_indices(a) + chunk_indices(b) =~= chunk_indices(a));
    } else {
        law_files_give_their_numbers(a, b.drop_last(), name, n, entry);
        assert((a + b).drop_last() =~= a + b.drop_last());
        assert((a + b).last() == b.last());
        assert(chunk_indices(a + b) =~= chunk_indices(a) + chunk_indices(b));
    }
}

/// Log files are listed from the newest to the oldest, each once and none left out;
/// of files of the same age the one that was found first stands first.
pub proof fn law_newest_logs_stand_first(order: Seq<usize>, files: Seq<LogFile>, j: int, k: int)
    requires
        newest_first(order, files),
    ensures
        order.len() == files.len(),
        0 <= j < k < order.len() ==> order[j] != order[k] && files[order[j] as int].modified
            >= files[order[k] as int].modified,
        0 <= j < k < order.len() && files[order[j] as int].modified
            == files[order[k] as int].modified ==> order[j] < order[k],
        0 <= k < order.len() ==> order[k] < files.len(),
        order.no_duplicates(),
{
    if 0 <= j < k < order.len() {
        assert(listed_before(files, order[j] as int, order[k] as int));
    }
    assert forall|a: int, b: int| 0 <= a < order.len() && 0 <= b < order.len() && a != b implies
        order[a] != order[b] by {
        if a < b {
            assert(listed_before(files, order[a] as int, order[b] as int));
        } else {
            assert(listed_before(files, order[b] as int, order[a] as int));
        }
    }
}

/// Numbers in ascending order never fall from one to the next.
pub proof fn law_ascending_never_falls(row: Seq<u64>, i: int, j: int)
    requires
        ascending(row),
    ensures
        0 <= i <= j < row.len() ==> row[i] <= row[j],
{
}

/// An entry that cannot be read, and one whose type cannot be, is told of in its own
/// words; a file and anything else that is found is not.
pub proof fn law_entry_fails_in_words(front: Seq<DirEntry>, e: String, entry: DirEntry)
    requires
        walk_error(front) is None,
    ensures
        walk_error(front.push(DirEntry::EntryFailed(e))) == Some("Failed to read entry: "@ + e@),
        walk_error(front.push(DirEntry::TypeFailed(e))) == Some("Failed to get file type: "@ + e@),
        entry is File || entry is Other ==> walk_error(front.push(entry)) is None,
{
    assert(front.push(DirEntry::EntryFailed(e)).drop_last() =~= front);
    assert(front.push(DirEntry::TypeFailed(e)).drop_last() =~= front);
    assert(front.push(entry).drop_last() =~= front);
}

} // verus!
