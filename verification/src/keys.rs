//! The minter's secret key, the address that goes with it, and the puzzles it is set.

use melstructs::{BlockHeight, CoinValue};
use stdcode::StdcodeSerializeExt;
use tmelcrypt::{Ed25519PK, Ed25519SK, HashVal};
use vstd::prelude::*;

use crate::chain::{CoinID, Header};
use crate::encoding::{coin_bytes, encode_coin};

verus! {

/// An ed25519 secret key: 32 secret bytes, then the 32 bytes of the public key.
#[derive(Clone, Copy)]
pub struct SecretKey {
    pub bytes: [u8; 64],
}

/// The file with the secret key holds something else.
#[derive(Clone, Copy, Debug, PartialEq, Eq)]
pub struct BadSecret;

/// Where the secret key comes from.
pub enum SecretSource {
    /// It was in its file.
    Stored(SecretKey),
    /// It was made just now; `file` is to be written to its file.
    Fresh { key: SecretKey, file: Vec<u8> },
}

/// The public key that goes with a secret: what `tmelcrypt::Ed25519SK::generate` puts behind it.
pub uninterp spec fn public_half(secret: Seq<u8>) -> Seq<u8>;

/// The address of the coins that `melvm::Covenant::std_ed25519_pk_new` locks to a public key.
pub uninterp spec fn standard_address(public_key: Seq<u8>) -> [u8; 32];

/// The hash that `tmelcrypt::hash_keyed` gives for a key and a value.
pub uninterp spec fn keyed_hash(key: Seq<u8>, value: Seq<u8>) -> [u8; 32];

/// The hash that `melstructs::Header::hash` gives for a header, field by field.
pub uninterp spec fn header_hash(
    network: u8,
    previous: Seq<u8>,
    height: u64,
    history_hash: Seq<u8>,
    coins_hash: Seq<u8>,
    transactions_hash: Seq<u8>,
    fee_pool: u128,
    fee_multiplier: u128,
    dosc_speed: u128,
    pools_hash: Seq<u8>,
    stakes_hash: Seq<u8>,
) -> [u8; 32];

/// The hash of a block header.
pub open spec fn block_hash(header: Header) -> [u8; 32] {
    header_hash(
        header.network.spec_code(),
        header.previous@,
        header.height,
        header.history_hash@,
        header.coins_hash@,
        header.transactions_hash@,
        header.fee_pool,
        header.fee_multiplier,
        header.dosc_speed,
        header.pools_hash@,
        header.stakes_hash@,
    )
}

/// The puzzle that a proof must solve where it starts from a seed coin, given the header of the
/// block that holds the coin.
pub open spec fn puzzle(header: Header, seed: CoinID) -> [u8; 32] {
    keyed_hash(block_hash(header)@, coin_bytes(seed))
}

/// Calls `stdcode::StdcodeSerializeExt::stdcode` on a `tmelcrypt::Ed25519SK`: its 64 bytes, without
/// a length.
#[verifier::external_body]
fn encode_secret(key: SecretKey) -> (bytes: Vec<u8>)
    ensures
        bytes@ == key.bytes@,
{
    Ed25519SK(key.bytes).stdcode()
}

/// Calls `stdcode::deserialize` for a `tmelcrypt::Ed25519SK`: takes 64 bytes, no fewer and no more.
#[verifier::external_body]
fn decode_secret(bytes: &Vec<u8>) -> (key: Option<SecretKey>)
    ensures
        key is Some == (bytes@.len() == 64),
        key matches Some(key) ==> key.bytes@ == bytes@,
{
    stdcode::deserialize::<Ed25519SK>(bytes).ok().map(|key| SecretKey { bytes: key.0 })
}

/// Calls `tmelcrypt::Ed25519SK::generate`, which makes a secret by chance and puts its public key
/// behind it. Of the secret itself nothing is said.
#[verifier::external_body]
fn generate_secret() -> (key: SecretKey)
    ensures
        key.bytes@.subrange(32, 64) == public_half(key.bytes@.subrange(0, 32)),
{
    SecretKey { bytes: Ed25519SK::generate().0 }
}

/// Calls `tmelcrypt::Ed25519SK::to_public`: the last 32 bytes.
#[verifier::external_body]
fn to_public(key: SecretKey) -> (public_key: [u8; 32])
    ensures
        public_key@ == key.bytes@.subrange(32, 64),
{
    Ed25519SK(key.bytes).to_public().0
}

/// Calls `melvm::Covenant::std_ed25519_pk_new` and then `melvm::Covenant::hash`.
#[verifier::external_body]
fn covenant_address(public_key: [u8; 32]) -> (address: [u8; 32])
    ensures
        address == standard_address(public_key@),
{
    melvm::Covenant::std_ed25519_pk_new(Ed25519PK(public_key)).hash().0.0
}

/// Calls `tmelcrypt::hash_keyed`.
#[verifier::external_body]
fn hash_keyed(key: &[u8; 32], value: &Vec<u8>) -> (hash: [u8; 32])
    ensures
        hash == keyed_hash(key@, value@),
{
    tmelcrypt::hash_keyed(key, value).0
}

/// Calls `melstructs::Header::hash`. `network` is the byte that stands for a network.
#[verifier::external_body]
fn hash_header(header: &Header, network: u8) -> (hash: [u8; 32])
    requires
        network == header.network.spec_code(),
    ensures
        hash == header_hash(
            network,
            header.previous@,
            header.height,
            header.history_hash@,
            header.coins_hash@,
            header.transactions_hash@,
            header.fee_pool,
            header.fee_multiplier,
            header.dosc_speed,
            header.pools_hash@,
            header.stakes_hash@,
        ),
{
    melstructs::Header {
        network: network.try_into().unwrap(),
        previous: HashVal(header.previous),
        height: BlockHeight(header.height),
        history_hash: HashVal(header.history_hash),
        coins_hash: HashVal(header.coins_hash),
        transactions_hash: HashVal(header.transactions_hash),
        fee_pool: CoinValue(header.fee_pool),
        fee_multiplier: header.fee_multiplier,
        dosc_speed: header.dosc_speed,
        pools_hash: HashVal(header.pools_hash),
        stakes_hash: HashVal(header.stakes_hash),
    }.hash().0
}

/// The address of a secret key's coins.
pub open spec fn key_address(key: SecretKey) -> [u8; 32] {
    standard_address(key.bytes@.subrange(32, 64))
}

/// Whether the public key that a key holds goes with its secret.
pub open spec fn is_pair(key: SecretKey) -> bool {
    key.bytes@.subrange(32, 64) == public_half(key.bytes@.subrange(0, 32))
}

/// The bytes that a key's file holds.
pub open spec fn file_of(key: SecretKey) -> Seq<u8> {
    key.bytes@
}

/// Whether `read` is what a file of such bytes gives: the key whose file it is, where it is one.
pub open spec fn is_read_from(read: Result<SecretKey, BadSecret>, bytes: Seq<u8>) -> bool {
    match read {
        Ok(key) => file_of(key) == bytes,
        Err(_) => forall|key: SecretKey| #[trigger] file_of(key) != bytes,
    }
}

impl SecretKey {
    /// The address of the key's coins.
    pub fn address(&self) -> (address: [u8; 32])
        ensures
            address == key_address(*self),
    {
        covenant_address(to_public(*self))
    }

    /// The bytes that the key's file holds.
    pub fn to_file(&self) -> (bytes: Vec<u8>)
        ensures
            bytes@ == file_of(*self),
    {
        encode_secret(*self)
    }

    /// The key that a file holds.
    pub fn from_file(bytes: &Vec<u8>) -> (read: Result<SecretKey, BadSecret>)
        ensures
            is_read_from(read, bytes@),
            read is Ok == (bytes@.len() == 64),
    {
        match decode_secret(bytes) {
            Some(key) => Ok(key),
            None => {
                assert forall|key: SecretKey| #[trigger] file_of(key) != bytes@ by {
                    assert(file_of(key).len() == 64);
                }
                Err(BadSecret)
            },
        }
    }

    /// Takes the key from its file, where that could be read, and makes a new pair of keys where it
    /// could not.
    pub fn load(file: Option<Vec<u8>>) -> (source: Result<SecretSource, BadSecret>)
        ensures
            match file {
                Some(bytes) => match source {
                    Ok(SecretSource::Stored(key)) => file_of(key) == bytes@,
                    Ok(SecretSource::Fresh { .. }) => false,
                    Err(_) => bytes@.len() != 64,
                },
                None => match source {
                    Ok(SecretSource::Fresh { key, file }) => {
                        &&& file@ == file_of(key)
                        &&& is_pair(key)
                    },
                    _ => false,
                },
            },
    {
        match file {
            Some(bytes) => match SecretKey::from_file(&bytes) {
                Ok(key) => Ok(SecretSource::Stored(key)),
                Err(bad) => Err(bad),
            },
            None => {
                let key: SecretKey = generate_secret();
                Ok(SecretSource::Fresh { key, file: key.to_file() })
            },
        }
    }
}

/// Computes the puzzle that a proof must solve.
pub fn set_puzzle(header: &Header, seed: CoinID) -> (chi: [u8; 32])
    ensures
        chi == puzzle(*header, seed),
{
    hash_keyed(&hash_header(header, header.network.code()), &encode_coin(seed))
}

/// What is read from a file that a key was written to is that key.
pub proof fn law_keys_survive_their_file(key: SecretKey, read: Result<SecretKey, BadSecret>)
    requires
        is_read_from(read, file_of(key)),
    ensures
        read == Ok::<SecretKey, BadSecret>(key),
{
    assert(file_of(key) == file_of(key));
    let found = read->Ok_0;
    assert forall|i: int| 0 <= i < 64 implies found.bytes[i] == key.bytes[i] by {
        assert(file_of(found)[i] == file_of(key)[i]);
    }
    assert(found.bytes =~= key.bytes);
}

/// The address of a key is that of its public half, its last 32 bytes, whatever the others are.
pub proof fn law_addresses_are_of_the_public_half(key: SecretKey, public_key: Seq<u8>)
    requires
        public_key.len() == 32,
        forall|i: int| 0 <= i < 32 ==> public_key[i] == key.bytes[32 + i],
    ensures
        key_address(key) == standard_address(public_key),
{
    assert(key.bytes@.subrange(32, 64) =~= public_key);
}

/// A puzzle is the hash, keyed by the hash of a header with all that it holds, of a coin's
/// identifier.
pub proof fn law_puzzles_take_in_header_and_seed(header: Header, seed: CoinID, id: Seq<u8>)
    requires
        id.len() == 33,
        forall|i: int| 0 <= i < 32 ==> id[i] == seed.txhash[i],
        id[32] == seed.index,
    ensures
        puzzle(header, seed) == keyed_hash(
            header_hash(
                header.network.spec_code(),
                header.previous@,
                header.height,
                header.history_hash@,
                header.coins_hash@,
                header.transactions_hash@,
                header.fee_pool,
                header.fee_multiplier,
                header.dosc_speed,
                header.pools_hash@,
                header.stakes_hash@,
            )@,
            id,
        ),
{
    assert(coin_bytes(seed) =~= id);
}

/// The file of a key holds its 64 bytes, and what is read from 64 bytes is the key of these bytes;
/// of any other length nothing is read.
pub proof fn law_files_hold_the_key(
    key: SecretKey,
    read: Result<SecretKey, BadSecret>,
    bytes: Seq<u8>,
)
    requires
        is_read_from(read, bytes),
    ensures
        file_of(key).len() == 64,
        forall|i: int| 0 <= i < 64 ==> file_of(key)[i] == key.bytes[i],
        read matches Ok(found) ==> bytes.len() == 64 && forall|i: int|
            0 <= i < 64 ==> found.bytes[i] == bytes[i],
        read is Err ==> bytes != file_of(key),
{
    if let Ok(found) = read {
        assert(file_of(found).len() == 64);
        assert forall|i: int| 0 <= i < 64 implies found.bytes[i] == bytes[i] by {
            assert(file_of(found)[i] == bytes[i]);
        }
    }
}

/// A pair of keys is a secret of 32 bytes, followed by the public key that goes with it.
pub proof fn law_pairs_go_together(key: SecretKey, secret: Seq<u8>)
    requires
        is_pair(key),
        secret.len() == 32,
        forall|i: int| 0 <= i < 32 ==> secret[i] == key.bytes[i],
    ensures
        public_half(secret).len() == 32,
        forall|i: int| 0 <= i < 32 ==> public_half(secret)[i] == key.bytes[32 + i],
{
    assert(key.bytes@.subrange(0, 32) =~= secret);
    assert forall|i: int| 0 <= i < 32 implies public_half(secret)[i] == key.bytes[32 + i] by {
        assert(key.bytes@.subrange(32, 64)[i] == key.bytes[32 + i]);
    }
}

} // verus!
