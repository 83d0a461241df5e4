//! Merkle proofs: whether a chunk belongs to a file.

use crate::crypto::{hex_bytes, hex_decode, hex_error, is_hex, keccak, keccak256};
use crate::text::{
    decimal, decimal_text, join_text, same_bytes, strip_0x, text_result, texts, without_0x,
};
use vstd::arithmetic::power2::pow2;
use vstd::prelude::*;
use vstd::slice::slice_to_vec;
use vstd::string::*;
use vstd::utf8::*;

verus! {

/// The digits of a hash text, without its prefix.
pub open spec fn hash_digits(hash: Seq<char>) -> Seq<u8> {
    encode_utf8(without_0x(hash))
}

/// Whether a text writes a hash of thirty-two bytes in hex.
pub open spec fn is_hash(hash: Seq<char>) -> bool {
    is_hex(hash_digits(hash)) && hash_digits(hash).len() == 64
}

/// The bytes of a hash text.
pub open spec fn hash_bytes(hash: Seq<char>) -> Seq<u8> {
    hex_bytes(hash_digits(hash))
}

/// The lowest level whose sibling is not a hash, if any.
pub open spec fn bad_level(siblings: Seq<Seq<char>>) -> Option<nat>
    decreases siblings.len(),
{
    if siblings.len() == 0 {
        None
    } else {
        match bad_level(siblings.drop_last()) {
            Some(level) => Some(level),
            None => if is_hash(siblings.last()) {
                None
            } else {
                Some((siblings.len() - 1) as nat)
            },
        }
    }
}

/// What is said of a sibling that is not a hash.
pub open spec fn sibling_error(level: nat, sibling: Seq<char>) -> Seq<char> {
    if !is_hex(hash_digits(sibling)) {
        "Invalid sibling hash at level "@ + decimal(level) + ": "@ + hex_error(hash_digits(sibling))
    } else {
        "Invalid sibling hash length at level "@ + decimal(level) + ": expected 32, got "@
            + decimal(hash_digits(sibling).len() / 2)
    }
}

/// Whether the node above a chunk stands on the left at a level.
pub open spec fn on_left(chunk_index: u64, level: nat) -> bool {
    (chunk_index as nat / pow2(level)) % 2 == 0
}

/// What is hashed into the parent of two nodes.
pub open spec fn parent_input(current: Seq<u8>, sibling: Seq<u8>, left: bool) -> Seq<u8> {
    if left {
        current + sibling
    } else {
        sibling + current
    }
}

/// The hash reached from a leaf hash by climbing past the given siblings.
pub open spec fn climb(leaf: Seq<u8>, siblings: Seq<Seq<char>>, chunk_index: u64) -> Seq<u8>
    decreases siblings.len(),
{
    if siblings.len() == 0 {
        leaf
    } else {
        let level = (siblings.len() - 1) as nat;
        keccak(
            parent_input(
                climb(leaf, siblings.drop_last(), chunk_index),
                hash_bytes(siblings.last()),
                on_left(chunk_index, level),
            ),
        )
    }
}

/// What comparing a computed root with the expected one gives.
pub open spec fn root_verdict(computed: Seq<u8>, root: Seq<char>) -> Result<(), Seq<char>> {
    if !is_hex(hash_digits(root)) {
        Err("Invalid merkle root: "@ + hex_error(hash_digits(root)))
    } else if computed != hash_bytes(root) {
        Err("Merkle proof verification failed"@)
    } else {
        Ok(())
    }
}

/// Whether a chunk belongs to the file with the given root.
pub open spec fn proof_verdict(
    chunk: Seq<u8>,
    chunk_index: u64,
    siblings: Seq<Seq<char>>,
    root: Seq<char>,
) -> Result<(), Seq<char>> {
    match bad_level(siblings) {
        Some(level) => Err(sibling_error(level, siblings[level as int])),
        None => root_verdict(climb(keccak(chunk), siblings, chunk_index), root),
    }
}

/// Whether the climb never goes above the sixty-fourth level, where a chunk index
/// has no further bit: the proof is that short, or a bad sibling ends it before.
pub open spec fn proof_depth_ok(siblings: Seq<Seq<char>>) -> bool {
    siblings.len() <= 64 || bad_level(siblings.take(65)) is Some
}

/// A bad level among the first siblings is the bad level of all.
proof fn lemma_bad_level_prefix(siblings: Seq<Seq<char>>, n: int)
    requires
        0 <= n <= siblings.len(),
        bad_level(siblings.take(n)) is Some,
    ensures
        bad_level(siblings) == bad_level(siblings.take(n)),
    decreases siblings.len() - n,
{
    if n == siblings.len() {
        assert(siblings.take(n) == siblings);
    } else {
        assert(siblings.take(n + 1).drop_last() == siblings.take(n));
        lemma_bad_level_prefix(siblings, n + 1);
    }
}

/// Without a bad level among some siblings there is none among fewer.
proof fn lemma_no_bad_level_prefix(siblings: Seq<Seq<char>>, n: int)
    requires
        0 <= n <= siblings.len(),
        bad_level(siblings) is None,
    ensures
        bad_level(siblings.take(n)) is None,
{
    if bad_level(siblings.take(n)) is Some {
        lemma_bad_level_prefix(siblings, n);
    }
}

/// Reads the sibling hash of a level.
pub fn sibling_hash(sibling: &str, level: usize) -> (r: Result<Vec<u8>, String>)
    ensures
        match r {
            Ok(hash) => is_hash(sibling@) && hash@ == hash_bytes(sibling@),
            Err(e) => !is_hash(sibling@) && e@ == sibling_error(level as nat, sibling@),
        },
{
    let digits = strip_0x(sibling);
    match hex_decode(digits.as_str()) {
        Err(e) => {
            let mut message = join_text(
                "Invalid sibling hash at level ",
                decimal_text(level as u64).as_str(),
            );
            message.append(": ");
            message.append(e.as_str());
            Err(message)
        },
        Ok(hash) => {
            if hash.len() != 32 {
                let mut message = join_text(
                    "Invalid sibling hash length at level ",
                    decimal_text(level as u64).as_str(),
                );
                message.append(": expected 32, got ");
                message.append(decimal_text(hash.len() as u64).as_str());
                Err(message)
            } else {
                Ok(hash)
            }
        },
    }
}

/// Joins a node and its sibling in the order in which they are hashed.
pub fn parent_bytes(current: &[u8], sibling: &[u8], chunk_index: u64, level: usize) -> (joined: Vec<
    u8,
>)
    requires
        level < 64,
    ensures
        joined@ == parent_input(current@, sibling@, on_left(chunk_index, level as nat)),
{
    proof {
        vstd::bits::lemma_u64_shr_is_div(chunk_index, level as u64);
    }
    let level_index: u64 = chunk_index >> (level as u64);
    let mut joined: Vec<u8>;
    if level_index % 2 == 0 {
        joined = slice_to_vec(current);
        joined.append(&mut slice_to_vec(sibling));
    } else {
        joined = slice_to_vec(sibling);
        joined.append(&mut slice_to_vec(current));
    }
    joined
}

/// Compares a computed root with the expected one.
pub fn check_root(computed: &[u8], root: &str) -> (r: Result<(), String>)
    ensures
        text_result(r) == root_verdict(computed@, root@),
{
    let digits = strip_0x(root);
    match hex_decode(digits.as_str()) {
        Err(e) => Err(join_text("Invalid merkle root: ", e.as_str())),
        Ok(expected) => {
            if same_bytes(computed, expected.as_slice()) {
                Ok(())
            } else {
                Err("Merkle proof verification failed".to_owned())
            }
        },
    }
}

/// Whether the climb past the given siblings never goes too high.
pub fn proof_depth_allowed(siblings: &Vec<String>) -> (ok: bool)
    ensures
        ok == proof_depth_ok(texts(siblings@)),
{
    if siblings.len() <= 64 {
        return true;
    }
    let ghost row = texts(siblings@);
    let ghost low = row.take(65);
    let mut level: usize = 0;
    assert(low.take(0) == Seq::<Seq<char>>::empty());
    while level < 65
        invariant
            siblings@.len() > 64,
            row == texts(siblings@),
            low == row.take(65),
            level <= 65,
            bad_level(low.take(level as int)) is None,
        decreases 65 - level,
    {
        proof {
            assert(low.take(level + 1).drop_last() == low.take(level as int));
            assert(low.take(level + 1).last() == siblings@[level as int]@);
        }
        if sibling_hash(siblings[level].as_str(), level).is_err() {
            proof {
                lemma_bad_level_prefix(low, level + 1);
            }
            return true;
        }
        level = level + 1;
    }
    assert(low.take(65) == low);
    false
}

/// Checks that a chunk belongs to the file with the given root.
pub fn verify_merkle_proof(
    chunk_data: &[u8],
    chunk_index: u64,
    siblings: &Vec<String>,
    root: &str,
) -> (r: Result<(), String>)
    requires
        proof_depth_ok(texts(siblings@)),
    ensures
        text_result(r) == proof_verdict(
            chunk_data@,
            chunk_index,
            texts(siblings@),
            root@,
        ),
{
    let ghost row = texts(siblings@);
    let leaf = keccak256(chunk_data);
    let mut computed: Vec<u8> = slice_to_vec(leaf.as_slice());
    let mut level: usize = 0;
    assert(row.take(0) == Seq::<Seq<char>>::empty());
    while level < siblings.len()
        invariant
            row == texts(siblings@),
            proof_depth_ok(row),
            level <= row.len(),
            bad_level(row.take(level as int)) is None,
            computed@ == climb(keccak(chunk_data@), row.take(level as int), chunk_index),
        decreases siblings@.len() - level,
    {
        proof {
            assert(row.take(level + 1).drop_last() == row.take(level as int));
            assert(row.take(level + 1).last() == siblings@[level as int]@);
        }
        match sibling_hash(siblings[level].as_str(), level) {
            Err(e) => {
                proof {
                    lemma_bad_level_prefix(row, level + 1);
                }
                return Err(e);
            },
            Ok(sibling) => {
                proof {
                    if level >= 64 {
                        assert(row.take(level + 1).take(65) == row.take(65));
                        lemma_no_bad_level_prefix(row.take(level + 1), 65);
                    }
                }
                let joined = parent_bytes(
                    computed.as_slice(),
                    sibling.as_slice(),
                    chunk_index,
                    level,
                );
                let digest = keccak256(joined.as_slice());
                computed = slice_to_vec(digest.as_slice());
            },
        }
        level = level + 1;
    }
    assert(row.take(row.len() as int) == row);
    check_root(computed.as_slice(), root)
}

/// Whether two different byte strings have the same digest.
pub open spec fn collision(a: Seq<u8>, b: Seq<u8>) -> bool {
    a != b && keccak(a) == keccak(b)
}

/// What is hashed at a level on the way from a leaf hash past the given siblings.
pub open spec fn level_input(
    leaf: Seq<u8>,
    siblings: Seq<Seq<char>>,
    chunk_index: u64,
    level: int,
) -> Seq<u8> {
    parent_input(
        climb(leaf, siblings.take(level), chunk_index),
        hash_bytes(siblings[level]),
        on_left(chunk_index, level as nat),
    )
}

/// Whether two ways up meet at a level where different inputs have one digest.
pub open spec fn ways_collide(
    leaf_a: Seq<u8>,
    siblings_a: Seq<Seq<char>>,
    leaf_b: Seq<u8>,
    siblings_b: Seq<Seq<char>>,
    chunk_index: u64,
    level: int,
) -> bool {
    collision(
        level_input(leaf_a, siblings_a, chunk_index, level),
        level_input(leaf_b, siblings_b, chunk_index, level),
    )
}

proof fn lemma_climb_step(leaf: Seq<u8>, siblings: Seq<Seq<char>>, chunk_index: u64, level: int)
    requires
        0 <= level < siblings.len(),
    ensures
        climb(leaf, siblings.take(level + 1), chunk_index) == keccak(
            level_input(leaf, siblings, chunk_index, level),
        ),
{
    let upto = siblings.take(level + 1);
    assert(upto.drop_last() =~= siblings.take(level));
    assert(upto.last() == siblings[level]);
}

proof fn lemma_parent_binds(
    a: Seq<u8>,
    beside_a: Seq<u8>,
    b: Seq<u8>,
    beside_b: Seq<u8>,
    left: bool,
)
    requires
        a.len() == 32,
        b.len() == 32,
        beside_a.len() == 32,
        beside_b.len() == 32,
        parent_input(a, beside_a, left) == parent_input(b, beside_b, left),
    ensures
        a == b,
{
    let whole = parent_input(a, beside_a, left);
    if left {
        assert(whole.take(32) =~= a);
        assert(whole.take(32) =~= b);
    } else {
        assert(whole.skip(32) =~= a);
        assert(whole.skip(32) =~= b);
    }
}

proof fn lemma_level_binds(
    leaf_a: Seq<u8>,
    siblings_a: Seq<Seq<char>>,
    leaf_b: Seq<u8>,
    siblings_b: Seq<Seq<char>>,
    chunk_index: u64,
    level: int,
)
    requires
        leaf_a.len() == 32,
        leaf_b.len() == 32,
        0 <= level < siblings_a.len(),
        siblings_a.len() == siblings_b.len(),
        climb(leaf_a, siblings_a.take(level + 1), chunk_index) == climb(
            leaf_b,
            siblings_b.take(level + 1),
            chunk_index,
        ),
        is_hash(siblings_a[level]),
        is_hash(siblings_b[level]),
    ensures
        ways_collide(leaf_a, siblings_a, leaf_b, siblings_b, chunk_index, level) || climb(
            leaf_a,
            siblings_a.take(level),
            chunk_index,
        ) == climb(leaf_b, siblings_b.take(level), chunk_index),
{
    lemma_climb_step(leaf_a, siblings_a, chunk_index, level);
    lemma_climb_step(leaf_b, siblings_b, chunk_index, level);
    let in_a = level_input(leaf_a, siblings_a, chunk_index, level);
    let in_b = level_input(leaf_b, siblings_b, chunk_index, level);
    if in_a == in_b {
        lemma_climb_len(leaf_a, siblings_a.take(level), chunk_index);
        lemma_climb_len(leaf_b, siblings_b.take(level), chunk_index);
        lemma_parent_binds(
            climb(leaf_a, siblings_a.take(level), chunk_index),
            hash_bytes(siblings_a[level]),
            climb(leaf_b, siblings_b.take(level), chunk_index),
            hash_bytes(siblings_b[level]),
            on_left(chunk_index, level as nat),
        );
    }
}

proof fn lemma_climb_binds(
    leaf_a: Seq<u8>,
    siblings_a: Seq<Seq<char>>,
    leaf_b: Seq<u8>,
    siblings_b: Seq<Seq<char>>,
    chunk_index: u64,
    n: int,
)
    requires
        leaf_a.len() == 32,
        leaf_b.len() == 32,
        0 <= n <= siblings_a.len(),
        siblings_a.len() == siblings_b.len(),
        climb(leaf_a, siblings_a.take(n), chunk_index) == climb(
            leaf_b,
            siblings_b.take(n),
            chunk_index,
        ),
        forall|l: int| 0 <= l < n ==> is_hash(#[trigger] siblings_a[l]),
        forall|l: int| 0 <= l < n ==> is_hash(#[trigger] siblings_b[l]),
    ensures
        leaf_a == leaf_b || exists|level: int|
            0 <= level < n && #[trigger] ways_collide(
                leaf_a,
                siblings_a,
                leaf_b,
                siblings_b,
                chunk_index,
                level,
            ),
    decreases n,
{
    if n == 0 {
        assert(siblings_a.take(0).len() == 0);
        assert(siblings_b.take(0).len() == 0);
    } else {
        let level = n - 1;
        lemma_level_binds(leaf_a, siblings_a, leaf_b, siblings_b, chunk_index, level);
        if !ways_collide(leaf_a, siblings_a, leaf_b, siblings_b, chunk_index, level) {
            lemma_climb_binds(leaf_a, siblings_a, leaf_b, siblings_b, chunk_index, level);
        }
    }
}

proof fn lemma_climb_len(leaf: Seq<u8>, siblings: Seq<Seq<char>>, chunk_index: u64)
    requires
        leaf.len() == 32,
    ensures
        climb(leaf, siblings, chunk_index).len() == 32,
{
}

proof fn lemma_all_hashes(siblings: Seq<Seq<char>>, level: int)
    requires
        bad_level(siblings) is None,
        0 <= level < siblings.len(),
    ensures
        is_hash(siblings[level]),
    decreases siblings.len(),
{
    if level < siblings.len() - 1 {
        lemma_all_hashes(siblings.drop_last(), level);
        assert(siblings.drop_last()[level] == siblings[level]);
    }
}

/// A root binds its chunks: two chunks that are accepted at one place of one file
/// with proofs of one depth are the same chunk. Otherwise the two ways up to the
/// root show a collision of the hash, at the chunks themselves or at a level.
pub proof fn law_root_binds_chunks(
    chunk_a: Seq<u8>,
    siblings_a: Seq<Seq<char>>,
    chunk_b: Seq<u8>,
    siblings_b: Seq<Seq<char>>,
    chunk_index: u64,
    root: Seq<char>,
)
    requires
        proof_verdict(chunk_a, chunk_index, siblings_a, root) is Ok,
        proof_verdict(chunk_b, chunk_index, siblings_b, root) is Ok,
        siblings_a.len() == siblings_b.len(),
    ensures
        chunk_a == chunk_b || collision(chunk_a, chunk_b) || exists|level: int|
            0 <= level < siblings_a.len() && #[trigger] ways_collide(
                keccak(chunk_a),
                siblings_a,
                keccak(chunk_b),
                siblings_b,
                chunk_index,
                level,
            ),
{
    let n = siblings_a.len() as int;
    assert(siblings_a.take(n) =~= siblings_a);
    assert(siblings_b.take(n) =~= siblings_b);
    assert forall|l: int| 0 <= l < n implies is_hash(#[trigger] siblings_a[l]) by {
        lemma_all_hashes(siblings_a, l);
    }
    assert forall|l: int| 0 <= l < n implies is_hash(#[trigger] siblings_b[l]) by {
        lemma_all_hashes(siblings_b, l);
    }
    lemma_climb_binds(keccak(chunk_a), siblings_a, keccak(chunk_b), siblings_b, chunk_index, n);
}

/// The node at a level and a position of the tree over the given leaf hashes.
pub open spec fn tree_node(leaves: Seq<Seq<u8>>, level: nat, position: nat) -> Seq<u8>
    decreases level,
{
    if level == 0 {
        leaves[position as int]
    } else {
        keccak(
            tree_node(leaves, (level - 1) as nat, 2 * position) + tree_node(
                leaves,
                (level - 1) as nat,
                2 * position + 1,
            ),
        )
    }
}

/// The position next to a position under the same parent.
pub open spec fn buddy(position: nat) -> nat {
    if position % 2 == 0 {
        position + 1
    } else {
        (position - 1) as nat
    }
}

/// Whether the siblings are those that a chunk has in the tree.
pub open spec fn honest_siblings(
    siblings: Seq<Seq<char>>,
    leaves: Seq<Seq<u8>>,
    chunk_index: u64,
) -> bool {
    forall|level: int|
        0 <= level < siblings.len() ==> is_hash(#[trigger] siblings[level]) && hash_bytes(
            siblings[level],
        ) == tree_node(
            leaves,
            level as nat,
            buddy(chunk_index as nat / pow2(level as nat)),
        )
}

proof fn lemma_honest_climb(siblings: Seq<Seq<char>>, leaves: Seq<Seq<u8>>, chunk_index: u64)
    requires
        honest_siblings(siblings, leaves, chunk_index),
    ensures
        bad_level(siblings) is None,
        climb(leaves[chunk_index as int], siblings, chunk_index) == tree_node(
            leaves,
            siblings.len(),
            chunk_index as nat / pow2(siblings.len()),
        ),
    decreases siblings.len(),
{
    vstd::arithmetic::power2::lemma2_to64();
    if siblings.len() == 0 {
        assert(chunk_index as nat / 1 == chunk_index);
    } else {
        let below = siblings.drop_last();
        let level = below.len();
        assert forall|l: int| 0 <= l < below.len() implies is_hash(#[trigger] below[l])
            && hash_bytes(below[l]) == tree_node(
            leaves,
            l as nat,
            buddy(chunk_index as nat / pow2(l as nat)),
        ) by {
            assert(below[l] == siblings[l]);
        }
        lemma_honest_climb(below, leaves, chunk_index);
        let here = chunk_index as nat / pow2(level);
        vstd::arithmetic::power2::lemma_pow2_pos(level);
        vstd::arithmetic::power2::lemma_pow2_unfold(level + 1);
        assert(pow2(level + 1) == pow2(level) * 2) by (nonlinear_arith)
            requires
                pow2(level + 1) == 2 * pow2(level),
        ;
        vstd::arithmetic::div_mod::lemma_div_denominator(
            chunk_index as int,
            pow2(level) as int,
            2,
        );
        assert(chunk_index as nat / pow2(level + 1) == here / 2);
        assert(siblings.last() == siblings[level as int]);
        if here % 2 == 0 {
            assert(2 * (here / 2) == here);
        } else {
            assert(2 * (here / 2) + 1 == here);
        }
    }
}

/// A true proof is accepted: a chunk whose hash is a leaf of a tree, shown with
/// the siblings that it has there, belongs to the file with the tree's root.
pub proof fn law_honest_proof_accepted(
    chunk: Seq<u8>,
    chunk_index: u64,
    siblings: Seq<Seq<char>>,
    root: Seq<char>,
    leaves: Seq<Seq<u8>>,
)
    requires
        leaves[chunk_index as int] == keccak(chunk),
        honest_siblings(siblings, leaves, chunk_index),
        is_hex(hash_digits(root)),
        hash_bytes(root) == tree_node(
            leaves,
            siblings.len(),
            chunk_index as nat / pow2(siblings.len()),
        ),
    ensures
        proof_verdict(chunk, chunk_index, siblings, root) is Ok,
{
    lemma_honest_climb(siblings, leaves, chunk_index);
}

/// A proof with a sibling that is no hash of thirty-two bytes is refused, and the
/// lowest such level is named.
pub proof fn law_bad_sibling_is_named(
    chunk: Seq<u8>,
    chunk_index: u64,
    siblings: Seq<Seq<char>>,
    root: Seq<char>,
    level: int,
)
    requires
        0 <= level < siblings.len(),
        !(is_hex(encode_utf8(without_0x(siblings[level]))) && encode_utf8(
            without_0x(siblings[level]),
        ).len() == 64),
        forall|l: int|
            0 <= l < level ==> is_hex(encode_utf8(without_0x(#[trigger] siblings[l])))
                && encode_utf8(without_0x(siblings[l])).len() == 64,
    ensures
        ({
            let digits = encode_utf8(without_0x(siblings[level]));
            let place = decimal(level as nat);
            proof_verdict(chunk, chunk_index, siblings, root) == if !is_hex(digits) {
                Err::<(), Seq<char>>(
                    "Invalid sibling hash at level "@ + place + ": "@ + hex_error(digits),
                )
            } else {
                Err(
                    "Invalid sibling hash length at level "@ + place + ": expected 32, got "@
                        + decimal(digits.len() / 2),
                )
            }
        }),
{
    lemma_good_below(siblings, level);
    let upto = siblings.take(level + 1);
    assert(upto.drop_last() =~= siblings.take(level));
    assert(upto.last() == siblings[level]);
    lemma_bad_level_prefix(siblings, level + 1);
}

proof fn lemma_good_below(siblings: Seq<Seq<char>>, n: int)
    requires
        0 <= n <= siblings.len(),
        forall|l: int|
            0 <= l < n ==> is_hex(encode_utf8(without_0x(#[trigger] siblings[l]))) && encode_utf8(
                without_0x(siblings[l]),
            ).len() == 64,
    ensures
        bad_level(siblings.take(n)) is None,
    decreases n,
{
    if n > 0 {
        lemma_good_below(siblings, n - 1);
        assert(siblings.take(n).drop_last() =~= siblings.take(n - 1));
        assert(siblings.take(n).last() == siblings[n - 1]);
    }
}

/// A proof is accepted only for the root that the climb from the chunk reaches, which
/// must be written in hex: another root is refused, and one that is no hex is refused
/// in words of its own. A chunk without siblings is its own tree.
pub proof fn law_only_the_root_reached_is_accepted(
    chunk: Seq<u8>,
    chunk_index: u64,
    siblings: Seq<Seq<char>>,
    root: Seq<char>,
    other: Seq<char>,
)
    requires
        proof_verdict(chunk, chunk_index, siblings, root) is Ok,
    ensures
        is_hex(encode_utf8(without_0x(root))),
        siblings.len() == 0 ==> hex_bytes(encode_utf8(without_0x(root))) == keccak(chunk),
        is_hex(encode_utf8(without_0x(other))) ==> proof_verdict(
            chunk,
            chunk_index,
            siblings,
            other,
        ) == if hex_bytes(encode_utf8(without_0x(other))) == hex_bytes(
            encode_utf8(without_0x(root)),
        ) {
            Ok::<(), Seq<char>>(())
        } else {
            Err("Merkle proof verification failed"@)
        },
        !is_hex(encode_utf8(without_0x(other))) ==> proof_verdict(
            chunk,
            chunk_index,
            siblings,
            other,
        ) == Err::<(), Seq<char>>(
            "Invalid merkle root: "@ + hex_error(encode_utf8(without_0x(other))),
        ),
{
}

/// A proof of up to sixty-four levels can be climbed, and a longer one exactly where one
/// of its first sixty-five siblings is no hash, which ends the climb there.
pub proof fn law_sixty_four_levels_can_be_climbed(siblings: Seq<Seq<char>>)
    ensures
        siblings.len() <= 64 ==> proof_depth_ok(siblings),
        siblings.len() > 64 ==> (proof_depth_ok(siblings) <==> exists|l: int|
            0 <= l < 65 && !(is_hex(encode_utf8(without_0x(#[trigger] siblings[l])))
                && encode_utf8(without_0x(siblings[l])).len() == 64)),
{
    if siblings.len() > 64 {
        let low = siblings.take(65);
        if forall|l: int|
            0 <= l < 65 ==> is_hex(encode_utf8(without_0x(#[trigger] siblings[l]))) && encode_utf8(
                without_0x(siblings[l]),
            ).len() == 64 {
            lemma_good_below(siblings, 65);
        } else {
            let l = choose|l: int|
                0 <= l < 65 && !(is_hex(encode_utf8(without_0x(#[trigger] siblings[l])))
                    && encode_utf8(without_0x(siblings[l])).len() == 64);
            assert(low[l] == siblings[l]);
            if bad_level(low) is None {
                lemma_all_hashes(low, l);
            }
        }
    }
}

} // verus!
