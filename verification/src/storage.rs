//! Where chunks and logs lie on disk.

use crate::models::CHUNK_SIZE;
use crate::text::{
    chars_of, decimal, decimal_text, join_text, lemma_split_nonempty, lemma_split_without, same_text, split_on,
    split_text, texts,
};
use vstd::prelude::*;
use vstd::string::*;
use vstd::utf8::*;

verus! {

// ---------------------------------------------------------------------------
// Paths
// ---------------------------------------------------------------------------

/// Whether a path starts at the root.
pub open spec fn is_absolute(path: Seq<char>) -> bool {
    path.len() > 0 && path[0] == '/'
}

/// A path below another; an absolute one takes its place.
pub open spec fn joined(base: Seq<char>, part: Seq<char>) -> Seq<char> {
    if is_absolute(part) {
        part
    } else if base.len() == 0 || base.last() == '/' {
        base + part
    } else {
        base.push('/') + part
    }
}

/// Joins a path to another.
pub fn join_path(base: &str, part: &str) -> (path: String)
    ensures
        path@ == joined(base@, part@),
{
    let b = chars_of(base);
    let p = chars_of(part);
    if p.len() > 0 && p[0] == '/' {
        part.to_owned()
    } else if b.len() == 0 || b[b.len() - 1] == '/' {
        join_text(base, part)
    } else {
        let mut path = base.to_owned();
        path.push('/');
        path.append(part);
        path
    }
}

/// Whether a file key can be cut after its second and its fourth byte.
pub open spec fn has_levels(file_key: Seq<char>) -> bool {
    is_char_boundary(encode_utf8(file_key), 2) && is_char_boundary(encode_utf8(file_key), 4)
}

/// The first directory level of a file key: its first two bytes.
pub open spec fn level1(file_key: Seq<char>) -> Seq<char> {
    decode_utf8(encode_utf8(file_key).subrange(0, 2))
}

/// The second directory level of a file key: its next two bytes.
pub open spec fn level2(file_key: Seq<char>) -> Seq<char> {
    decode_utf8(encode_utf8(file_key).subrange(2, 4))
}

/// The directory of a file: two levels, then the key itself.
pub open spec fn key_path(storage_root: Seq<char>, file_key: Seq<char>) -> Seq<char> {
    joined(joined(joined(storage_root, level1(file_key)), level2(file_key)), file_key)
}

/// Whether a file key can be cut into its directory levels.
pub fn key_has_levels(file_key: &str) -> (ok: bool)
    ensures
        ok == has_levels(file_key@),
{
    file_key.is_char_boundary(2) && file_key.is_char_boundary(4)
}

/// The two directory levels of a file key.
pub fn key_levels(file_key: &str) -> (levels: (String, String))
    requires
        has_levels(file_key@),
    ensures
        levels.0@ == level1(file_key@),
        levels.1@ == level2(file_key@),
{
    broadcast use {encode_utf8_valid_utf8, encode_utf8_decode_utf8};

    let ghost bytes = encode_utf8(file_key@);
    proof {
        lemma_boundary_in_range(bytes, 4);
        is_char_boundary_iff_not_is_continuation_byte(bytes, 2);
    }
    let (head, _) = file_key.split_at(4);
    let ghost head_bytes = encode_utf8(head@);
    proof {
        assert(head_bytes == bytes.subrange(0, 4));
        assert(head_bytes[2] == bytes[2]);
        is_char_boundary_iff_not_is_continuation_byte(head_bytes, 2);
    }
    let (a, b) = head.split_at(2);
    proof {
        assert(encode_utf8(a@) =~= bytes.subrange(0, 2));
        assert(encode_utf8(b@) =~= bytes.subrange(2, 4));
    }
    (a.to_owned(), b.to_owned())
}

proof fn lemma_boundary_in_range(bytes: Seq<u8>, index: int)
    requires
        valid_utf8(bytes),
        is_char_boundary(bytes, index),
    ensures
        0 <= index <= bytes.len(),
{
}

/// A key in ASCII with at least four characters has levels, and they are its
/// first two and its next two characters.
pub proof fn lemma_ascii_levels(file_key: Seq<char>)
    requires
        is_ascii_chars(file_key),
        file_key.len() >= 4,
    ensures
        has_levels(file_key),
        level1(file_key) == file_key.subrange(0, 2),
        level2(file_key) == file_key.subrange(2, 4),
{
    broadcast use {
        encode_utf8_valid_utf8,
        encode_utf8_decode_utf8,
        is_char_boundary_start_end_of_seq,
        utf8_byte_ranges_bitwise,
    };

    let bytes = encode_utf8(file_key);
    is_ascii_chars_encode_utf8(file_key);
    assert forall|i: int| 0 <= i < bytes.len() implies !is_continuation_byte(
        #[trigger] bytes[i],
    ) by {
        assert(file_key[i] as u8 == bytes[i]);
    }
    is_char_boundary_iff_not_is_continuation_byte(bytes, 2);
    if bytes.len() > 4 {
        is_char_boundary_iff_not_is_continuation_byte(bytes, 4);
    }
    let a = file_key.subrange(0, 2);
    let b = file_key.subrange(2, 4);
    is_ascii_chars_encode_utf8(a);
    is_ascii_chars_encode_utf8(b);
    assert(encode_utf8(a) =~= bytes.subrange(0, 2)) by {
        assert forall|i: int| 0 <= i < 2 implies encode_utf8(a)[i] == bytes[i] by {
            assert(a[i] as u8 == encode_utf8(a)[i]);
            assert(file_key[i] as u8 == bytes[i]);
        }
    }
    assert(encode_utf8(b) =~= bytes.subrange(2, 4)) by {
        assert forall|i: int| 0 <= i < 2 implies encode_utf8(b)[i] == bytes[i + 2] by {
            assert(b[i] as u8 == encode_utf8(b)[i]);
            assert(file_key[i + 2] as u8 == bytes[i + 2]);
        }
    }
}

/// The directory of a file.
pub fn get_file_key_path(storage_root: &str, file_key: &str) -> (path: String)
    requires
        has_levels(file_key@),
    ensures
        path@ == key_path(storage_root@, file_key@),
{
    let (a, b) = key_levels(file_key);
    let first = join_path(storage_root, a.as_str());
    let second = join_path(first.as_str(), b.as_str());
    join_path(second.as_str(), file_key)
}

/// A path below another is the other, one slash, and the name; a slash that is there
/// already is not doubled, and an absolute name stands alone.
pub proof fn law_joining_puts_one_slash(base: Seq<char>, name: Seq<char>)
    ensures
        name.len() > 0 && name[0] == '/' ==> joined(base, name) == name,
        !(name.len() > 0 && name[0] == '/') ==> ({
            &&& base.len() == 0 ==> joined(base, name) == name
            &&& base.len() > 0 && base.last() == '/' ==> joined(base, name) == base + name
            &&& base.len() > 0 && base.last() != '/' ==> joined(base, name) == base + "/"@ + name
        }),
{
    reveal_strlit("/");
    assert(base.push('/') + name =~= base + "/"@ + name);
    assert(base.len() == 0 ==> base + name =~= name);
}

/// The directory of a file stands two levels below the storage root: first the first
/// two characters of its key, then the next two, then the key.
pub proof fn law_levels_stand_in_the_path(storage_root: Seq<char>, file_key: Seq<char>)
    requires
        is_ascii_chars(file_key),
        file_key.len() >= 4,
        forall|i: int| 0 <= i < file_key.len() ==> #[trigger] file_key[i] != '/',
    ensures
        has_levels(file_key),
        level1(file_key) == file_key.subrange(0, 2),
        level2(file_key) == file_key.subrange(2, 4),
        key_path(storage_root, file_key) == joined(storage_root, file_key.subrange(0, 2)) + "/"@
            + file_key.subrange(2, 4) + "/"@ + file_key,
        joined(joined(storage_root, file_key.subrange(0, 2)), file_key.subrange(2, 4)) == joined(
            storage_root,
            file_key.subrange(0, 2),
        ) + "/"@ + file_key.subrange(2, 4),
        key_path(storage_root, file_key).last() != '/',
{
    lemma_ascii_levels(file_key);
    let a = file_key.subrange(0, 2);
    let b = file_key.subrange(2, 4);
    let upper = joined(storage_root, a);
    law_joining_puts_one_slash(storage_root, a);
    assert(a[0] == file_key[0] && a[1] == file_key[1]);
    assert(upper.last() == file_key[1]);
    law_joining_puts_one_slash(upper, b);
    assert(b[0] == file_key[2] && b[1] == file_key[3]);
    let lower = joined(upper, b);
    assert(lower.last() == file_key[3]);
    law_joining_puts_one_slash(lower, file_key);
    assert(lower + "/"@ + file_key =~= upper + "/"@ + b + "/"@ + file_key);
    assert(key_path(storage_root, file_key).last() == file_key[file_key.len() - 1]);
}

/// The chunks of a file lie in its directory, in a file named after its key.
pub proof fn law_file_lies_in_its_directory(storage_root: Seq<char>, file_key: Seq<char>)
    requires
        is_ascii_chars(file_key),
        file_key.len() >= 4,
        forall|i: int| 0 <= i < file_key.len() ==> #[trigger] file_key[i] != '/',
    ensures
        bin_path(storage_root, file_key) == key_path(storage_root, file_key) + "/"@ + file_key
            + ".bin"@,
        joined(key_path(storage_root, file_key), file_key + ".meta"@) == key_path(
            storage_root,
            file_key,
        ) + "/"@ + file_key + ".meta"@,
{
    law_levels_stand_in_the_path(storage_root, file_key);
    let dir = key_path(storage_root, file_key);
    let bin = file_key + ".bin"@;
    let meta = file_key + ".meta"@;
    assert(bin[0] == file_key[0] && meta[0] == file_key[0]);
    law_joining_puts_one_slash(dir, bin);
    law_joining_puts_one_slash(dir, meta);
    assert(dir + "/"@ + bin =~= dir + "/"@ + file_key + ".bin"@);
    assert(dir + "/"@ + meta =~= dir + "/"@ + file_key + ".meta"@);
}

// ---------------------------------------------------------------------------
// Writing and reading chunks
// ---------------------------------------------------------------------------

/// The distance between chunks in a file that is filled over plain QUIC.
pub const QUIC_CHUNK_STRIDE: u64 = 256_000;

/// What to do on disk to keep a chunk: make the directory, write the data at the
/// offset, append the line to the list of chunks.
#[derive(Debug)]
pub struct WritePlan {
    pub dir: String,
    pub bin_path: String,
    pub meta_path: String,
    pub offset: u64,
    pub meta_line: String,
}

/// The file that holds the chunks of a file.
pub open spec fn bin_path(storage_root: Seq<char>, file_key: Seq<char>) -> Seq<char> {
    joined(key_path(storage_root, file_key), file_key + ".bin"@)
}

/// The file that holds the chunks of a file.
pub fn chunk_file(storage_root: &str, file_key: &str) -> (path: String)
    requires
        has_levels(file_key@),
    ensures
        path@ == bin_path(storage_root@, file_key@),
{
    let dir = get_file_key_path(storage_root, file_key);
    join_path(dir.as_str(), join_text(file_key, ".bin").as_str())
}

/// Whether a plan keeps a chunk of a file in its place.
pub open spec fn keeps_chunk(
    plan: WritePlan,
    storage_root: Seq<char>,
    file_key: Seq<char>,
    chunk_index: u64,
    stride: u64,
) -> bool {
    let dir = key_path(storage_root, file_key);
    &&& plan.dir@ == dir
    &&& plan.bin_path@ == bin_path(storage_root, file_key)
    &&& plan.meta_path@ == joined(dir, file_key + ".meta"@)
    &&& plan.offset == chunk_index * stride
    &&& plan.meta_line@ == decimal(chunk_index as nat) + "\n"@
}

fn plan_write(storage_root: &str, file_key: &str, chunk_index: u64, stride: u64) -> (plan:
    WritePlan)
    requires
        has_levels(file_key@),
        chunk_index * stride <= u64::MAX,
    ensures
        keeps_chunk(plan, storage_root@, file_key@, chunk_index, stride),
{
    let dir = get_file_key_path(storage_root, file_key);
    let bin_path = chunk_file(storage_root, file_key);
    let meta_path = join_path(dir.as_str(), join_text(file_key, ".meta").as_str());
    let meta_line = decimal_text(chunk_index).concat("\n");
    WritePlan { dir, bin_path, meta_path, offset: chunk_index * stride, meta_line }
}

/// Where a chunk that came over WebTransport goes.
pub fn write_chunk(storage_root: &str, file_key: &str, chunk_index: u64) -> (plan: WritePlan)
    requires
        has_levels(file_key@),
        chunk_index * CHUNK_SIZE <= u64::MAX,
    ensures
        keeps_chunk(plan, storage_root@, file_key@, chunk_index, CHUNK_SIZE),
{
    plan_write(storage_root, file_key, chunk_index, CHUNK_SIZE)
}

/// Where a chunk that came over plain QUIC goes.
pub fn store_chunk(storage_root: &str, file_key: &str, chunk_index: u64) -> (plan: WritePlan)
    requires
        has_levels(file_key@),
        chunk_index * QUIC_CHUNK_STRIDE <= u64::MAX,
    ensures
        keeps_chunk(plan, storage_root@, file_key@, chunk_index, QUIC_CHUNK_STRIDE),
{
    plan_write(storage_root, file_key, chunk_index, QUIC_CHUNK_STRIDE)
}

/// A file after bytes were written into it at an offset, with zeros in any gap.
pub open spec fn written(file: Seq<u8>, offset: nat, data: Seq<u8>) -> Seq<u8> {
    let end = offset + data.len();
    Seq::new(
        if file.len() > end {
            file.len()
        } else {
            end
        },
        |i: int|
            if offset <= i < end {
                data[i - offset]
            } else if i < file.len() {
                file[i]
            } else {
                0u8
            },
    )
}

/// What reading at most so many bytes at an offset gives.
pub open spec fn read_back(file: Seq<u8>, offset: nat, limit: nat) -> Seq<u8> {
    if offset >= file.len() {
        Seq::empty()
    } else if offset + limit >= file.len() {
        file.skip(offset as int)
    } else {
        file.subrange(offset as int, (offset + limit) as int)
    }
}

/// Where a chunk is read: its offset, and how many bytes at most.
pub open spec fn read_place(chunk_index: u64) -> (nat, nat) {
    ((chunk_index * CHUNK_SIZE) as nat, CHUNK_SIZE as nat)
}

/// What reading the place of a chunk gives.
pub open spec fn chunk_read(file: Seq<u8>, chunk_index: u64) -> Seq<u8> {
    read_back(file, read_place(chunk_index).0, read_place(chunk_index).1)
}

/// Where a chunk is kept: in the directory of its file, at a whole number of strides
/// from the start of the file with the chunks, and with its number on a line of the
/// list. Over WebTransport a stride is a mebibyte, which is also what is read; over
/// plain QUIC it is two hundred and fifty-six thousand bytes.
pub proof fn law_chunk_has_its_place(
    plan: WritePlan,
    storage_root: Seq<char>,
    file_key: Seq<char>,
    chunk_index: u64,
)
    ensures
        keeps_chunk(plan, storage_root, file_key, chunk_index, CHUNK_SIZE) ==> plan.offset
            == chunk_index * 1_048_576,
        keeps_chunk(plan, storage_root, file_key, chunk_index, QUIC_CHUNK_STRIDE) ==> plan.offset
            == chunk_index * 256_000,
        forall|stride: u64|
            #![trigger keeps_chunk(plan, storage_root, file_key, chunk_index, stride)]
            keeps_chunk(plan, storage_root, file_key, chunk_index, stride) ==> {
                &&& plan.offset == chunk_index * stride
                &&& plan.dir@ == key_path(storage_root, file_key)
                &&& plan.bin_path@ == joined(plan.dir@, file_key + ".bin"@)
                &&& plan.meta_path@ == joined(plan.dir@, file_key + ".meta"@)
                &&& plan.meta_line@ == decimal(chunk_index as nat).push('\n')
            },
        read_place(chunk_index) == ((chunk_index * 1_048_576) as nat, 1_048_576nat),
{
    reveal_strlit("\n");
    assert(decimal(chunk_index as nat) + "\n"@ =~= decimal(chunk_index as nat).push('\n'));
}

/// Writing changes the bytes that it covers and no others, and where it goes past the
/// end the gap before it is filled with zeros. Reading gives the bytes from its place
/// on, no more than asked for and no fewer than there are.
pub proof fn law_reading_and_writing(
    file: Seq<u8>,
    offset: nat,
    data: Seq<u8>,
    limit: nat,
    i: int,
)
    ensures
        0 <= i < data.len() ==> written(file, offset, data)[offset + i] == data[i],
        0 <= i < file.len() && !(offset <= i < offset + data.len()) ==> written(file, offset, data)[
        i] == file[i],
        file.len() <= i < offset ==> written(file, offset, data)[i] == 0,
        written(file, offset, data).len() >= file.len(),
        written(file, offset, data).len() >= offset + data.len(),
        written(file, offset, data).len() == file.len() || written(file, offset, data).len()
            == offset + data.len(),
        read_back(file, offset, limit).len() <= limit,
        offset <= file.len() ==> read_back(file, offset, limit).len() == limit || offset
            + read_back(file, offset, limit).len() == file.len(),
        0 <= i < read_back(file, offset, limit).len() ==> read_back(file, offset, limit)[i]
            == file[offset + i],
{
}

/// A full chunk reads back as it was written, whatever the file held before.
pub proof fn law_full_chunk_reads_back(
    plan: WritePlan,
    storage_root: Seq<char>,
    file_key: Seq<char>,
    chunk_index: u64,
    file: Seq<u8>,
    data: Seq<u8>,
)
    requires
        keeps_chunk(plan, storage_root, file_key, chunk_index, CHUNK_SIZE),
        data.len() == CHUNK_SIZE,
    ensures
        chunk_read(written(file, plan.offset as nat, data), chunk_index) == data,
{
}

/// A shorter chunk reads back as it was written if it is the last of its file.
pub proof fn law_last_chunk_reads_back(
    plan: WritePlan,
    storage_root: Seq<char>,
    file_key: Seq<char>,
    chunk_index: u64,
    file: Seq<u8>,
    data: Seq<u8>,
)
    requires
        keeps_chunk(plan, storage_root, file_key, chunk_index, CHUNK_SIZE),
        data.len() <= CHUNK_SIZE,
        file.len() <= plan.offset + data.len(),
    ensures
        chunk_read(written(file, plan.offset as nat, data), chunk_index) == data,
{
}

/// Writing a chunk leaves what is read of every other chunk as it was, unless a
/// shorter one ended the file before it.
pub proof fn law_chunks_do_not_overlap(
    plan: WritePlan,
    storage_root: Seq<char>,
    file_key: Seq<char>,
    chunk_index: u64,
    file: Seq<u8>,
    data: Seq<u8>,
    other: u64,
)
    requires
        keeps_chunk(plan, storage_root, file_key, chunk_index, CHUNK_SIZE),
        data.len() <= CHUNK_SIZE,
        other != chunk_index,
        chunk_index < other || (other + 1) * CHUNK_SIZE <= file.len(),
    ensures
        chunk_read(written(file, plan.offset as nat, data), other) == chunk_read(file, other),
{
    assert(chunk_read(written(file, plan.offset as nat, data), other) =~= chunk_read(file, other));
}

/// The first chunk of a file that is filled over plain QUIC reads back as it was
/// written while it is alone. Later ones are written closer than they are read.
pub proof fn law_first_quic_chunk_reads_back(
    plan: WritePlan,
    storage_root: Seq<char>,
    file_key: Seq<char>,
    file: Seq<u8>,
    data: Seq<u8>,
)
    requires
        keeps_chunk(plan, storage_root, file_key, 0, QUIC_CHUNK_STRIDE),
        data.len() <= CHUNK_SIZE,
        file.len() <= data.len(),
    ensures
        chunk_read(written(file, plan.offset as nat, data), 0) == data,
{
}

/// A chunk that comes over plain QUIC leaves the bytes of every other one as they
/// were, unless a shorter one ended the file before it.
pub proof fn law_quic_chunks_do_not_overlap(
    plan: WritePlan,
    storage_root: Seq<char>,
    file_key: Seq<char>,
    chunk_index: u64,
    file: Seq<u8>,
    data: Seq<u8>,
    other: nat,
)
    requires
        keeps_chunk(plan, storage_root, file_key, chunk_index, QUIC_CHUNK_STRIDE),
        data.len() <= QUIC_CHUNK_STRIDE,
        other != chunk_index,
        chunk_index < other || (other + 1) * QUIC_CHUNK_STRIDE <= file.len(),
    ensures
        read_back(
            written(file, plan.offset as nat, data),
            other * QUIC_CHUNK_STRIDE as nat,
            QUIC_CHUNK_STRIDE as nat,
        ) == read_back(file, other * QUIC_CHUNK_STRIDE as nat, QUIC_CHUNK_STRIDE as nat),
{
    let at = other * QUIC_CHUNK_STRIDE as nat;
    assert(read_back(
        written(file, plan.offset as nat, data),
        at,
        QUIC_CHUNK_STRIDE as nat,
    ) =~= read_back(file, at, QUIC_CHUNK_STRIDE as nat));
}

// ---------------------------------------------------------------------------
// Path components
// ---------------------------------------------------------------------------

/// The parts of a path that count: empty ones do not, nor does `.` but in front
/// of a relative path.
pub open spec fn kept_parts(parts: Seq<Seq<char>>, absolute: bool) -> Seq<Seq<char>>
    decreases parts.len(),
{
    if parts.len() == 0 {
        Seq::empty()
    } else {
        let front = kept_parts(parts.drop_last(), absolute);
        let part = parts.last();
        if part.len() == 0 || (part == "."@ && (absolute || parts.len() > 1)) {
            front
        } else {
            front.push(part)
        }
    }
}

/// The components of a path; the root is one.
pub open spec fn components(path: Seq<char>) -> Seq<Seq<char>> {
    let parts = kept_parts(split_on(path, '/'), is_absolute(path));
    if is_absolute(path) {
        seq!["/"@] + parts
    } else {
        parts
    }
}

/// Whether a path lies at or below another, by whole components.
pub open spec fn lies_under(path: Seq<char>, base: Seq<char>) -> bool {
    components(base).is_prefix_of(components(path))
}

fn path_components(path: &str) -> (parts: Vec<String>)
    ensures
        texts(parts@) == components(path@),
{
    let pieces = split_text(path, '/');
    let chars = chars_of(path);
    let absolute = chars.len() > 0 && chars[0] == '/';
    let mut parts: Vec<String> = Vec::new();
    let ghost mut head: Seq<Seq<char>> = Seq::empty();
    if absolute {
        parts.push("/".to_owned());
        proof {
            head = seq!["/"@];
        }
    }
    assert(texts(parts@) =~= head);
    let ghost row = texts(pieces@);
    let mut i: usize = 0;
    assert(row.take(0) == Seq::<Seq<char>>::empty());
    assert(head + kept_parts(row.take(0), absolute) =~= head);
    while i < pieces.len()
        invariant
            i <= pieces@.len(),
            row == texts(pieces@),
            texts(parts@) == head + kept_parts(row.take(i as int), absolute),
        decreases pieces@.len() - i,
    {
        let ghost before = parts@;
        proof {
            assert(row.take(i + 1).drop_last() == row.take(i as int));
            assert(row.take(i + 1).last() == pieces@[i as int]@);
        }
        let piece = pieces[i].clone();
        if !(piece.as_str().is_empty() || (same_text(piece.as_str(), ".") && (absolute || i > 0))) {
            parts.push(piece);
            assert(texts(parts@) =~= texts(before).push(piece@));
            assert(head + kept_parts(row.take(i + 1), absolute) =~= (head + kept_parts(
                row.take(i as int),
                absolute,
            )).push(piece@));
        }
        i = i + 1;
    }
    assert(row.take(row.len() as int) == row);
    parts
}

/// Whether a path lies at or below another.
pub fn path_starts_with(path: &str, base: &str) -> (r: bool)
    ensures
        r == lies_under(path@, base@),
{
    let p = path_components(path);
    let b = path_components(base);
    let ghost ps = texts(p@);
    let ghost bs = texts(b@);
    if b.len() > p.len() {
        return false;
    }
    let mut i: usize = 0;
    while i < b.len()
        invariant
            ps == texts(p@),
            bs == texts(b@),
            ps == components(path@),
            bs == components(base@),
            b@.len() <= p@.len(),
            i <= b@.len(),
            forall|j: int| 0 <= j < i ==> ps[j] == bs[j],
        decreases b@.len() - i,
    {
        if !same_text(p[i].as_str(), b[i].as_str()) {
            assert(ps.subrange(0, bs.len() as int)[i as int] != bs[i as int]);
            return false;
        }
        assert(ps[i as int] == bs[i as int]);
        i = i + 1;
    }
    assert(bs =~= ps.subrange(0, bs.len() as int));
    true
}

/// Whether a name has a `..` between its slashes.
pub open spec fn climbs(name: Seq<char>) -> bool {
    split_on(name, '/').contains(".."@)
}

/// Where the components of a path lead, by their names alone: `.` stays, `..` takes
/// back the step before it. At the root it stays there, and in front of a relative
/// path it is kept.
pub open spec fn resolved(parts: Seq<Seq<char>>) -> Seq<Seq<char>>
    decreases parts.len(),
{
    if parts.len() == 0 {
        Seq::empty()
    } else {
        let front = resolved(parts.drop_last());
        let part = parts.last();
        if part == "."@ {
            front
        } else if part == ".."@ && front.len() > 0 && front.last() == "/"@ {
            front
        } else if part == ".."@ && front.len() > 0 && front.last() != ".."@ {
            front.drop_last()
        } else {
            front.push(part)
        }
    }
}

/// Whether the components of a path lead to a directory or to a place below it.
pub open spec fn leads_inside(path: Seq<Seq<char>>, dir: Seq<Seq<char>>) -> bool {
    let inner = resolved(path);
    let outer = resolved(dir);
    outer.is_prefix_of(inner) && !inner.skip(outer.len() as int).contains(".."@)
}

/// Whether a path stands below a directory, and leads to a place inside it
/// whatever `..` it goes through. Links on disk are not looked at.
pub open spec fn stays_inside(path: Seq<char>, dir: Seq<char>) -> bool {
    lies_under(path, dir) && leads_inside(components(path), components(dir))
}

fn resolve_parts(parts: &Vec<String>) -> (r: Vec<String>)
    ensures
        texts(r@) == resolved(texts(parts@)),
{
    let ghost row = texts(parts@);
    let mut r: Vec<String> = Vec::new();
    let mut i: usize = 0;
    assert(texts(r@) =~= resolved(row.take(0)));
    while i < parts.len()
        invariant
            i <= parts@.len(),
            row == texts(parts@),
            texts(r@) == resolved(row.take(i as int)),
        decreases parts@.len() - i,
    {
        let ghost before = r@;
        proof {
            assert(row.take(i + 1).drop_last() =~= row.take(i as int));
            assert(row.take(i + 1).last() == parts@[i as int]@);
            assert(texts(before).len() == before.len());
            assert(before.len() > 0 ==> texts(before).last() == before.last()@);
        }
        let part = parts[i].as_str();
        let up = same_text(part, "..");
        let at_root = r.len() > 0 && same_text(r[r.len() - 1].as_str(), "/");
        let stepped = r.len() > 0 && !same_text(r[r.len() - 1].as_str(), "..");
        if same_text(part, ".") || (up && at_root) {
        } else if up && stepped {
            let _ = r.pop();
            assert(texts(r@) =~= texts(before).drop_last());
        } else {
            r.push(part.to_owned());
            assert(texts(r@) =~= texts(before).push(part@));
        }
        i = i + 1;
    }
    assert(row.take(i as int) =~= row);
    r
}

/// Whether a path stands below a directory and leads to a place inside it.
pub fn path_stays_inside(path: &str, dir: &str) -> (r: bool)
    ensures
        r == stays_inside(path@, dir@),
{
    let inner = resolve_parts(&path_components(path));
    let outer = resolve_parts(&path_components(dir));
    let ghost is = texts(inner@);
    let ghost os = texts(outer@);
    if !path_starts_with(path, dir) || outer.len() > inner.len() {
        return false;
    }
    let mut i: usize = 0;
    while i < inner.len()
        invariant
            is == texts(inner@),
            os == texts(outer@),
            os.len() <= is.len(),
            is == resolved(components(path@)),
            os == resolved(components(dir@)),
            i <= inner@.len(),
            forall|j: int| 0 <= j < i && j < os.len() ==> is[j] == os[j],
            forall|j: int| os.len() <= j < i ==> is[j] != ".."@,
        decreases inner@.len() - i,
    {
        assert(is[i as int] == inner@[i as int]@);
        if i < outer.len() {
            assert(os[i as int] == outer@[i as int]@);
            if !same_text(inner[i].as_str(), outer[i].as_str()) {
                assert(is.subrange(0, os.len() as int)[i as int] != os[i as int]);
                return false;
            }
        } else if same_text(inner[i].as_str(), "..") {
            assert(is.skip(os.len() as int)[i - os.len()] == ".."@);
            return false;
        }
        i = i + 1;
    }
    assert(os =~= is.subrange(0, os.len() as int));
    true
}

proof fn lemma_split_across(a: Seq<char>, b: Seq<char>, sep: char)
    ensures
        split_on(a.push(sep) + b, sep) == split_on(a, sep) + split_on(b, sep),
    decreases b.len(),
{
    let whole = a.push(sep) + b;
    lemma_split_nonempty(b, sep);
    if b.len() == 0 {
        assert(whole =~= a.push(sep));
        assert(whole.drop_last() =~= a);
        assert(split_on(a, sep).push(Seq::empty()) =~= split_on(a, sep) + split_on(b, sep));
    } else {
        lemma_split_across(a, b.drop_last(), sep);
        lemma_split_nonempty(b.drop_last(), sep);
        assert(whole.drop_last() =~= a.push(sep) + b.drop_last());
        assert(whole.last() == b.last());
        let front = split_on(a, sep) + split_on(b.drop_last(), sep);
        assert(front.drop_last() =~= split_on(a, sep) + split_on(b.drop_last(), sep).drop_last());
        assert(split_on(whole, sep) =~= split_on(a, sep) + split_on(b, sep));
    }
}

proof fn lemma_kept_prefix(parts: Seq<Seq<char>>, n: int, absolute: bool)
    requires
        0 <= n <= parts.len(),
    ensures
        kept_parts(parts.take(n), absolute).is_prefix_of(kept_parts(parts, absolute)),
    decreases parts.len() - n,
{
    if n == parts.len() {
        assert(parts.take(n) == parts);
        let kept = kept_parts(parts, absolute);
        assert(kept =~= kept.subrange(0, kept.len() as int));
    } else {
        lemma_kept_prefix(parts, n + 1, absolute);
        let more = parts.take(n + 1);
        assert(more.drop_last() == parts.take(n));
        let a = kept_parts(parts.take(n), absolute);
        let b = kept_parts(more, absolute);
        let c = kept_parts(parts, absolute);
        assert(a =~= b.subrange(0, a.len() as int));
        assert(a =~= c.subrange(0, a.len() as int));
    }
}

/// A name that is not absolute always lies under the directory it is joined to.
pub proof fn law_relative_names_lie_under(dir: Seq<char>, name: Seq<char>)
    requires
        !is_absolute(name),
    ensures
        lies_under(joined(dir, name), dir),
{
    let path = joined(dir, name);
    let absolute = is_absolute(dir);
    let dir_parts = split_on(dir, '/');
    let parts = split_on(path, '/');
    if dir.len() == 0 {
        assert(path =~= name);
        assert(kept_parts(Seq::<Seq<char>>::empty(), false) =~= Seq::<Seq<char>>::empty());
        assert(dir_parts.drop_last() =~= Seq::<Seq<char>>::empty());
        assert(components(dir) =~= Seq::<Seq<char>>::empty());
        assert(components(dir) =~= components(path).subrange(0, 0));
    } else {
        assert(is_absolute(path) == absolute);
        let kept_dir = kept_parts(dir_parts, absolute);
        let kept = kept_parts(parts, absolute);
        if dir.last() == '/' {
            let body = dir.drop_last();
            lemma_split_across(body, name, '/');
            assert(body.push('/') =~= dir);
            assert(path =~= body.push('/') + name);
            assert(dir_parts == split_on(body, '/').push(Seq::empty()));
            assert(dir_parts.drop_last() =~= split_on(body, '/'));
            assert(parts.take(split_on(body, '/').len() as int) =~= split_on(body, '/'));
            lemma_kept_prefix(parts, split_on(body, '/').len() as int, absolute);
            assert(kept_dir == kept_parts(split_on(body, '/'), absolute));
        } else {
            lemma_split_across(dir, name, '/');
            assert(parts.take(dir_parts.len() as int) =~= dir_parts);
            lemma_kept_prefix(parts, dir_parts.len() as int, absolute);
        }
        assert(kept_dir.is_prefix_of(kept));
        assert(components(dir) =~= components(path).subrange(0, components(dir).len() as int)) by {
            assert(kept_dir =~= kept.subrange(0, kept_dir.len() as int));
        }
    }
}

proof fn lemma_kept_split(front: Seq<Seq<char>>, back: Seq<Seq<char>>, absolute: bool)
    requires
        front.len() > 0,
    ensures
        kept_parts(front + back, absolute) == kept_parts(front, absolute) + kept_parts(back, true),
    decreases back.len(),
{
    let whole = front + back;
    if back.len() == 0 {
        assert(whole =~= front);
        assert(kept_parts(back, true) =~= Seq::<Seq<char>>::empty());
        assert(kept_parts(whole, absolute) =~= kept_parts(front, absolute) + kept_parts(
            back,
            true,
        ));
    } else {
        lemma_kept_split(front, back.drop_last(), absolute);
        assert(whole.drop_last() =~= front + back.drop_last());
        assert(whole.last() == back.last());
        assert(kept_parts(whole, absolute) =~= kept_parts(front, absolute) + kept_parts(
            back,
            true,
        ));
    }
}

proof fn lemma_kept_are_parts(parts: Seq<Seq<char>>, absolute: bool, i: int)
    requires
        0 <= i < kept_parts(parts, absolute).len(),
    ensures
        parts.contains(kept_parts(parts, absolute)[i]),
    decreases parts.len(),
{
    if parts.len() > 0 {
        let front = parts.drop_last();
        let kept = kept_parts(parts, absolute);
        let before = kept_parts(front, absolute);
        if i < before.len() {
            lemma_kept_are_parts(front, absolute, i);
            let k = choose|k: int| 0 <= k < front.len() && front[k] == before[i];
            assert(parts[k] == kept[i]);
        } else {
            assert(parts[parts.len() - 1] == kept[i]);
        }
    }
}

/// A name without a `..` between its slashes goes nowhere but down from the
/// directory it is joined to, unless it is absolute and lies elsewhere.
pub proof fn law_plain_names_go_down(dir: Seq<char>, name: Seq<char>)
    requires
        is_absolute(name) ==> lies_under(name, dir),
        !climbs(name),
    ensures
        lies_under(joined(dir, name), dir),
        !components(joined(dir, name)).skip(components(dir).len() as int).contains(".."@),
{
    if !is_absolute(name) {
        law_relative_names_lie_under(dir, name);
    }
    let path = joined(dir, name);
    let whole = components(path);
    let start = components(dir).len() as int;
    let rest = whole.skip(start);
    let pieces = split_on(name, '/');
    if rest.contains(".."@) {
        let i = choose|i: int| 0 <= i < rest.len() && rest[i] == ".."@;
        if is_absolute(name) {
            let k = start + i;
            assert(whole[k] == ".."@);
            reveal_strlit("/");
            reveal_strlit("..");
            lemma_kept_are_parts(pieces, true, k - 1);
        } else if dir.len() == 0 {
            assert(path =~= name);
            assert(kept_parts(Seq::<Seq<char>>::empty(), false) =~= Seq::<Seq<char>>::empty());
            assert(split_on(dir, '/').drop_last() =~= Seq::<Seq<char>>::empty());
            assert(components(dir) =~= Seq::<Seq<char>>::empty());
            lemma_kept_are_parts(pieces, false, i);
        } else {
            let absolute = is_absolute(dir);
            assert(is_absolute(path) == absolute);
            let body = if dir.last() == '/' {
                dir.drop_last()
            } else {
                dir
            };
            let head = split_on(body, '/');
            lemma_split_nonempty(body, '/');
            lemma_split_across(body, name, '/');
            assert(path =~= body.push('/') + name);
            assert(kept_parts(split_on(dir, '/'), absolute) == kept_parts(head, absolute)) by {
                if dir.last() == '/' {
                    assert(split_on(dir, '/').drop_last() =~= head);
                }
            }
            lemma_kept_split(head, pieces, absolute);
            let below = kept_parts(pieces, true);
            assert(rest =~= below);
            lemma_kept_are_parts(pieces, true, i);
        }
    }
}

proof fn lemma_plain_steps_lead_on(front: Seq<Seq<char>>, back: Seq<Seq<char>>)
    requires
        !back.contains(".."@),
    ensures
        leads_inside(front + back, front),
    decreases back.len(),
{
    let whole = front + back;
    let outer = resolved(front);
    let inner = resolved(whole);
    if back.len() == 0 {
        assert(whole =~= front);
        assert(outer =~= inner.subrange(0, outer.len() as int));
        assert(inner.skip(outer.len() as int) =~= Seq::<Seq<char>>::empty());
    } else {
        let shorter = back.drop_last();
        assert forall|k: int| 0 <= k < shorter.len() implies #[trigger] shorter[k] != ".."@ by {
            assert(back[k] == shorter[k]);
        }
        lemma_plain_steps_lead_on(front, shorter);
        let before = resolved(front + shorter);
        assert(whole.drop_last() =~= front + shorter);
        assert(whole.last() == back.last());
        assert(back[back.len() - 1] != ".."@);
        assert(outer =~= before.subrange(0, outer.len() as int));
        assert(outer =~= inner.subrange(0, outer.len() as int));
        let rest = inner.skip(outer.len() as int);
        let rest_before = before.skip(outer.len() as int);
        if rest.contains(".."@) {
            let k = choose|k: int| 0 <= k < rest.len() && rest[k] == ".."@;
            if k < rest_before.len() {
                assert(rest_before[k] == ".."@);
            }
        }
    }
}

/// A name without a `..` between its slashes stays inside the directory it is
/// joined to, unless it is absolute and lies elsewhere.
pub proof fn law_plain_names_stay_inside(dir: Seq<char>, name: Seq<char>)
    requires
        is_absolute(name) ==> lies_under(name, dir),
        !climbs(name),
    ensures
        stays_inside(joined(dir, name), dir),
{
    law_plain_names_go_down(dir, name);
    let whole = components(joined(dir, name));
    let front = components(dir);
    let back = whole.skip(front.len() as int);
    assert(whole =~= front + back);
    lemma_plain_steps_lead_on(front, back);
}

/// Below a directory, a plain name is one component more; an empty name and `.` are
/// none.
pub proof fn law_plain_name_is_one_component(dir: Seq<char>, name: Seq<char>)
    requires
        dir.len() > 0,
        !name.contains('/'),
    ensures
        name.len() > 0 && name != "."@ ==> components(joined(dir, name)) == components(dir).push(
            name,
        ),
        name.len() == 0 || name == "."@ ==> components(joined(dir, name)) == components(dir),
{
    let absolute = is_absolute(dir);
    let path = joined(dir, name);
    assert(!is_absolute(name)) by {
        if is_absolute(name) {
            assert(name[0] == '/');
        }
    }
    assert(is_absolute(path) == absolute);
    let body = if dir.last() == '/' {
        dir.drop_last()
    } else {
        dir
    };
    let head = split_on(body, '/');
    lemma_split_nonempty(body, '/');
    lemma_split_across(body, name, '/');
    assert(path =~= body.push('/') + name);
    assert(kept_parts(split_on(dir, '/'), absolute) == kept_parts(head, absolute)) by {
        if dir.last() == '/' {
            assert(split_on(dir, '/').drop_last() =~= head);
        }
    }
    lemma_split_without(name, '/');
    let pieces = seq![name];
    assert(split_on(name, '/') =~= pieces);
    lemma_kept_split(head, pieces, absolute);
    let none = Seq::<Seq<char>>::empty();
    assert(pieces.drop_last() =~= none);
    assert(pieces.last() == name);
    assert(kept_parts(none, true) == none);
    if name.len() > 0 && name != "."@ {
        assert(kept_parts(pieces, true) =~= seq![name]);
        assert(components(path) =~= components(dir).push(name));
    } else {
        assert(kept_parts(pieces, true) =~= none);
        assert(components(path) =~= components(dir));
    }
}

/// A path lies under another exactly if its components begin with those of the other.
pub proof fn law_lying_under_is_by_components(path: Seq<char>, base: Seq<char>)
    ensures
        lies_under(path, base) <==> components(base).len() <= components(path).len() && (forall|
            i: int,
        |
            0 <= i < components(base).len() ==> #[trigger] components(path)[i] == components(
                base,
            )[i]),
{
    let p = components(path);
    let b = components(base);
    if b.len() <= p.len() && (forall|i: int| 0 <= i < b.len() ==> #[trigger] p[i] == b[i]) {
        assert(b =~= p.subrange(0, b.len() as int));
    }
    if lies_under(path, base) {
        assert forall|i: int| 0 <= i < b.len() implies #[trigger] p[i] == b[i] by {
            assert(p.subrange(0, b.len() as int)[i] == b[i]);
        }
    }
}

/// A step down and back leads nowhere else: a plain name leads one step on, `..` behind
/// it takes that step back, and `.` stays.
pub proof fn law_steps_lead_there_and_back(front: Seq<Seq<char>>, name: Seq<char>)
    requires
        name != "."@ && name != ".."@ && name != "/"@,
    ensures
        resolved(front.push(name)) == resolved(front).push(name),
        resolved(front.push(name).push(".."@)) == resolved(front),
        resolved(front.push("."@)) == resolved(front),
        resolved(seq!["/"@, ".."@]) == seq!["/"@],
{
    reveal_strlit(".");
    reveal_strlit("..");
    reveal_strlit("/");
    assert("."@.len() == 1 && ".."@.len() == 2 && "/"@.len() == 1);
    assert("."@[0] != "/"@[0]);
    let down = front.push(name);
    assert(down.drop_last() =~= front);
    assert(down.last() == name);
    let back = down.push(".."@);
    assert(back.drop_last() =~= down);
    assert(back.last() == ".."@);
    assert(resolved(down) == resolved(front).push(name));
    assert(resolved(down).last() == name);
    assert(resolved(back) == resolved(down).drop_last());
    assert(resolved(front).push(name).drop_last() =~= resolved(front));
    let still = front.push("."@);
    assert(still.drop_last() =~= front);
    let none = Seq::<Seq<char>>::empty();
    let root = seq!["/"@];
    assert(root.drop_last() =~= none);
    assert(root.last() == "/"@);
    assert(resolved(none) == none);
    assert(resolved(root) == none.push("/"@));
    assert(none.push("/"@) =~= root);
    let up = seq!["/"@, ".."@];
    assert(up.drop_last() =~= root);
    assert(up.last() == ".."@);
}

/// One step up leads out of every directory but the root.
pub proof fn law_stepping_up_leads_out(dir: Seq<Seq<char>>)
    requires
        resolved(dir).len() > 0 ==> resolved(dir).last() != "/"@,
    ensures
        !leads_inside(dir.push(".."@), dir),
{
    reveal_strlit(".");
    reveal_strlit("..");
    assert("."@.len() == 1 && ".."@.len() == 2);
    let path = dir.push(".."@);
    assert(path.drop_last() =~= dir);
    assert(path.last() == ".."@);
    let outer = resolved(dir);
    let inner = resolved(path);
    if outer.len() == 0 || outer.last() == ".."@ {
        assert(inner == outer.push(".."@));
        assert(inner.skip(outer.len() as int)[0] == ".."@);
    } else {
        assert(inner.len() < outer.len());
    }
}

/// A path that stays inside a directory leads to a place that is reached from the
/// directory by steps down alone.
pub proof fn law_staying_inside_leads_down(path: Seq<char>, dir: Seq<char>) -> (steps: Seq<
    Seq<char>,
>)
    requires
        stays_inside(path, dir),
    ensures
        resolved(components(path)) == resolved(components(dir)) + steps,
        forall|i: int| 0 <= i < steps.len() ==> #[trigger] steps[i] != ".."@,
        lies_under(path, dir),
{
    let inner = resolved(components(path));
    let outer = resolved(components(dir));
    let steps = inner.skip(outer.len() as int);
    assert(inner =~= outer + steps);
    assert forall|i: int| 0 <= i < steps.len() implies #[trigger] steps[i] != ".."@ by {
        if steps[i] == ".."@ {
            assert(steps.contains(".."@));
        }
    }
    steps
}

/// A `.` in front of a relative path is kept, as its first component.
pub proof fn law_leading_dot_is_kept(path: Seq<char>)
    requires
        !is_absolute(path),
        split_on(path, '/')[0] == "."@,
    ensures
        components(path).len() > 0,
        components(path)[0] == "."@,
{
    reveal_strlit(".");
    lemma_split_nonempty(path, '/');
    let parts = split_on(path, '/');
    let first = parts.take(1);
    let none = Seq::<Seq<char>>::empty();
    assert(first.drop_last() =~= none);
    assert(first.last() == "."@);
    assert(kept_parts(none, false) == none);
    assert(kept_parts(first, false) == none.push("."@));
    lemma_kept_prefix(parts, 1, false);
    let kept = kept_parts(parts, false);
    assert(kept.subrange(0, 1)[0] == "."@);
}

} // verus!
