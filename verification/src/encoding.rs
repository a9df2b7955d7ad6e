//! The bytes that proofs and coins are written down in.

use melstructs::TxHash;
use stdcode::StdcodeSerializeExt;
use tmelcrypt::HashVal;
use vstd::prelude::*;

use crate::chain::CoinID;

verus! {

/// The low `count` bytes of a number, the lowest first.
pub open spec fn little_endian(n: nat, count: nat) -> Seq<u8>
    decreases count,
{
    if count == 0 {
        Seq::empty()
    } else {
        seq![(n % 256) as u8] + little_endian(n / 256, (count - 1) as nat)
    }
}

/// A number in as few bytes as it needs: small ones as they are, others behind a byte that says
/// how many follow.
pub open spec fn varint(n: nat) -> Seq<u8> {
    if n < 251 {
        seq![n as u8]
    } else if n < 0x1_0000 {
        seq![251u8] + little_endian(n, 2)
    } else if n < 0x1_0000_0000 {
        seq![252u8] + little_endian(n, 4)
    } else {
        seq![253u8] + little_endian(n, 8)
    }
}

/// The data of a transaction that claims the reward for a proof: the difficulty, then the proof
/// behind its length.
pub open spec fn claim_bytes(difficulty: nat, proof: Seq<u8>) -> Seq<u8> {
    varint(difficulty) + varint(proof.len()) + proof
}

/// A coin's identifier: the hash, then the index.
pub open spec fn coin_bytes(id: CoinID) -> Seq<u8> {
    id.txhash@.push(id.index)
}

/// Calls `stdcode::StdcodeSerializeExt::stdcode` on a pair of a `usize` and a `Vec<u8>`. It writes
/// the parts one after the other, a vector behind its length, and numbers as [`varint`] says.
#[verifier::external_body]
pub(crate) fn encode_claim(difficulty: usize, proof: Vec<u8>) -> (bytes: Vec<u8>)
    ensures
        bytes@ == claim_bytes(difficulty as nat, proof@),
{
    (difficulty, proof).stdcode()
}

/// Calls `stdcode::StdcodeSerializeExt::stdcode` on a `melstructs::CoinID`: the bytes of the hash,
/// without a length, and the byte of the index.
#[verifier::external_body]
pub(crate) fn encode_coin(id: CoinID) -> (bytes: Vec<u8>)
    ensures
        bytes@ == coin_bytes(id),
{
    melstructs::CoinID::new(TxHash(HashVal(id.txhash)), id.index).stdcode()
}

proof fn lemma_little_endian_len(n: nat, count: nat)
    ensures
        little_endian(n, count).len() == count,
    decreases count,
{
    if count > 0 {
        lemma_little_endian_len(n / 256, (count - 1) as nat);
    }
}

/// The value that bytes stand for, the lowest first.
spec fn le_value(bytes: Seq<u8>) -> nat
    decreases bytes.len(),
{
    if bytes.len() == 0 {
        0
    } else {
        bytes[0] as nat + 256 * le_value(bytes.skip(1))
    }
}

/// 256 to the power of a count.
spec fn span(count: nat) -> nat
    decreases count,
{
    if count == 0 {
        1
    } else {
        256 * span((count - 1) as nat)
    }
}

proof fn lemma_le_value(n: nat, count: nat)
    requires
        n < span(count),
    ensures
        le_value(little_endian(n, count)) == n,
    decreases count,
{
    if count > 0 {
        let rest = little_endian(n / 256, (count - 1) as nat);
        assert(n / 256 < span((count - 1) as nat));
        lemma_le_value(n / 256, (count - 1) as nat);
        lemma_little_endian_len(n / 256, (count - 1) as nat);
        assert(little_endian(n, count).skip(1) =~= rest);
    }
}

/// How many bytes a number takes.
spec fn varint_len(first: u8) -> int {
    if first < 251 {
        1
    } else if first == 251 {
        3
    } else if first == 252 {
        5
    } else {
        9
    }
}

/// The value of the number at the start of some bytes.
spec fn varint_value(bytes: Seq<u8>) -> nat {
    if bytes[0] < 251 {
        bytes[0] as nat
    } else {
        le_value(bytes.subrange(1, varint_len(bytes[0])))
    }
}

proof fn lemma_varint_reads_back(n: nat, rest: Seq<u8>)
    requires
        n <= u64::MAX,
    ensures
        varint(n).len() >= 1,
        varint_len((varint(n) + rest)[0]) == varint(n).len(),
        varint_value(varint(n) + rest) == n,
{
    let all = varint(n) + rest;
    if n >= 251 {
        let count: nat = if n < 0x1_0000 {
            2
        } else if n < 0x1_0000_0000 {
            4
        } else {
            8
        };
        reveal_with_fuel(span, 9);
        lemma_little_endian_len(n, count);
        lemma_le_value(n, count);
        assert(all.subrange(1, varint_len(all[0])) =~= little_endian(n, count));
    }
}

/// A number and what follows it can be told apart: no two pairs give the same bytes.
proof fn lemma_varint_prefix_free(n: nat, a: Seq<u8>, m: nat, b: Seq<u8>)
    requires
        n <= u64::MAX,
        m <= u64::MAX,
        varint(n) + a == varint(m) + b,
    ensures
        n == m,
        a == b,
{
    lemma_varint_reads_back(n, a);
    lemma_varint_reads_back(m, b);
    assert(a =~= (varint(n) + a).skip(varint(n).len() as int));
    assert(b =~= (varint(m) + b).skip(varint(m).len() as int));
}

/// The data of a claim says what is claimed: no two difficulties and proofs give the same bytes.
pub proof fn law_claims_differ(difficulty: u64, proof: Seq<u8>, other: u64, other_proof: Seq<u8>)
    requires
        proof.len() <= u64::MAX,
        other_proof.len() <= u64::MAX,
        claim_bytes(difficulty as nat, proof) == claim_bytes(other as nat, other_proof),
    ensures
        difficulty == other,
        proof == other_proof,
{
    let a = varint(proof.len()) + proof;
    let b = varint(other_proof.len()) + other_proof;
    assert(claim_bytes(difficulty as nat, proof) =~= varint(difficulty as nat) + a);
    assert(claim_bytes(other as nat, other_proof) =~= varint(other as nat) + b);
    lemma_varint_prefix_free(difficulty as nat, a, other as nat, b);
    lemma_varint_prefix_free(proof.len(), proof, other_proof.len(), other_proof);
}

/// No two coins are written down in the same bytes.
pub proof fn law_coins_differ(id: CoinID, other: CoinID)
    requires
        coin_bytes(id) == coin_bytes(other),
    ensures
        id == other,
{
    assert(id.index == coin_bytes(id)[32]);
    assert(other.index == coin_bytes(other)[32]);
    assert forall|i: int| 0 <= i < 32 implies id.txhash[i] == other.txhash[i] by {
        assert(id.txhash[i] == coin_bytes(id)[i]);
        assert(other.txhash[i] == coin_bytes(other)[i]);
    }
    assert(id.txhash =~= other.txhash);
}

/// The number that so many bytes of a sequence stand for, the lowest first.
pub open spec fn number_at(bytes: Seq<u8>, from: int, count: nat) -> nat
    decreases count,
{
    if count == 0 {
        0
    } else {
        bytes[from] as nat + 256 * number_at(bytes, from + 1, (count - 1) as nat)
    }
}

proof fn lemma_number_at(n: nat, count: nat, bytes: Seq<u8>, from: int)
    requires
        n < span(count),
        0 <= from,
        from + count <= bytes.len(),
        bytes.subrange(from, from + count) == little_endian(n, count),
    ensures
        number_at(bytes, from, count) == n,
    decreases count,
{
    if count > 0 {
        let rest = little_endian(n / 256, (count - 1) as nat);
        lemma_little_endian_len(n / 256, (count - 1) as nat);
        assert(bytes[from] == bytes.subrange(from, from + count)[0]);
        assert(bytes.subrange(from + 1, from + count) =~= rest) by {
            assert forall|i: int| 0 <= i < count - 1 implies bytes.subrange(
                from + 1,
                from + count,
            )[i] == rest[i] by {
                assert(bytes.subrange(from, from + count)[i + 1] == bytes[from + 1 + i]);
            }
        }
        assert(n / 256 < span((count - 1) as nat));
        lemma_number_at(n / 256, (count - 1) as nat, bytes, from + 1);
    }
}

/// A number is written in one byte if it is below 251, and otherwise behind a byte that says
/// whether two, four or eight follow, in as few as hold it.
pub proof fn law_numbers_are_written_out(n: u64, rest: Seq<u8>)
    ensures
        ({
            let bytes = varint(n as nat) + rest;
            if n < 251 {
                varint(n as nat).len() == 1 && bytes[0] == n
            } else if n < 65_536 {
                varint(n as nat).len() == 3 && bytes[0] == 251 && number_at(bytes, 1, 2) == n
            } else if n < 4_294_967_296 {
                varint(n as nat).len() == 5 && bytes[0] == 252 && number_at(bytes, 1, 4) == n
            } else {
                varint(n as nat).len() == 9 && bytes[0] == 253 && number_at(bytes, 1, 8) == n
            }
        }),
{
    let bytes = varint(n as nat) + rest;
    if n >= 251 {
        let count: nat = if n < 65_536 {
            2
        } else if n < 4_294_967_296 {
            4
        } else {
            8
        };
        reveal_with_fuel(span, 9);
        lemma_little_endian_len(n as nat, count);
        assert(bytes.subrange(1, (1 + count) as int) =~= little_endian(n as nat, count));
        lemma_number_at(n as nat, count, bytes, 1);
    }
}

/// A claim is the difficulty, then the length of the proof, then the proof, and nothing else.
pub proof fn law_claims_are_written_out(difficulty: u64, proof: Seq<u8>)
    requires
        proof.len() <= u64::MAX,
    ensures
        ({
            let bytes = claim_bytes(difficulty as nat, proof);
            let first = varint(difficulty as nat);
            let second = varint(proof.len());
            &&& bytes.len() == first.len() + second.len() + proof.len()
            &&& bytes.subrange(0, first.len() as int) == first
            &&& bytes.subrange(first.len() as int, (first.len() + second.len()) as int) == second
            &&& bytes.skip((first.len() + second.len()) as int) == proof
        }),
{
    let bytes = claim_bytes(difficulty as nat, proof);
    let (first, second) = (varint(difficulty as nat), varint(proof.len()));
    assert(bytes.subrange(0, first.len() as int) =~= first);
    assert(bytes.subrange(first.len() as int, (first.len() + second.len()) as int) =~= second);
    assert(bytes.skip((first.len() + second.len()) as int) =~= proof);
}

/// A coin's identifier is the 32 bytes of its hash and the byte of its index.
pub proof fn law_coins_are_written_out(id: CoinID)
    ensures
        coin_bytes(id).len() == 33,
        forall|i: int| 0 <= i < 32 ==> coin_bytes(id)[i] == id.txhash[i],
        coin_bytes(id)[32] == id.index,
{
}

} // verus!
