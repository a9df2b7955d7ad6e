use melminter::chain::{CoinID, Header, NetID};
use melminter::keys::{set_puzzle, BadSecret, SecretKey, SecretSource};
use melstructs::{BlockHeight, CoinValue, TxHash};
use stdcode::StdcodeSerializeExt;
use tmelcrypt::{Ed25519SK, HashVal};

fn some_key() -> SecretKey {
    SecretKey { bytes: Ed25519SK::generate().0 }
}

fn some_header() -> Header {
    Header {
        network: NetID::Testnet,
        previous: [1u8; 32],
        height: 77,
        history_hash: [2u8; 32],
        coins_hash: [3u8; 32],
        transactions_hash: [4u8; 32],
        fee_pool: 5,
        fee_multiplier: 6,
        dosc_speed: 7,
        pools_hash: [8u8; 32],
        stakes_hash: [9u8; 32],
    }
}

fn the_same_header() -> melstructs::Header {
    melstructs::Header {
        network: melstructs::NetID::Testnet,
        previous: HashVal([1u8; 32]),
        height: BlockHeight(77),
        history_hash: HashVal([2u8; 32]),
        coins_hash: HashVal([3u8; 32]),
        transactions_hash: HashVal([4u8; 32]),
        fee_pool: CoinValue(5),
        fee_multiplier: 6,
        dosc_speed: 7,
        pools_hash: HashVal([8u8; 32]),
        stakes_hash: HashVal([9u8; 32]),
    }
}

#[test]
fn address_is_that_of_the_standard_covenant() {
    let key = some_key();
    let public = Ed25519SK(key.bytes).to_public();
    let expected = melvm::Covenant::std_ed25519_pk_new(public).hash();
    assert_eq!(key.address(), expected.0 .0);
}

#[test]
fn keys_survive_their_file() {
    let key = some_key();
    let file = key.to_file();
    assert_eq!(file, key.bytes.to_vec());
    let read = SecretKey::from_file(&file);
    assert!(read.is_ok());
    assert_eq!(read.ok().map(|k| k.bytes), Some(key.bytes));
}

#[test]
fn files_of_another_length_hold_no_key() {
    assert_eq!(SecretKey::from_file(&vec![]).err(), Some(BadSecret));
    assert_eq!(SecretKey::from_file(&vec![7u8; 63]).err(), Some(BadSecret));
    assert_eq!(SecretKey::from_file(&vec![7u8; 65]).err(), Some(BadSecret));
    assert!(SecretKey::from_file(&vec![7u8; 64]).is_ok());
}

#[test]
fn stored_keys_are_taken_from_their_file() {
    let key = some_key();
    match SecretKey::load(Some(key.to_file())) {
        Ok(SecretSource::Stored(found)) => assert_eq!(found.bytes, key.bytes),
        _ => panic!("the key was in its file"),
    }
}

#[test]
fn bad_files_are_not_overwritten() {
    assert_eq!(SecretKey::load(Some(vec![1, 2, 3])).err(), Some(BadSecret));
}

#[test]
fn fresh_keys_come_with_their_file() {
    match SecretKey::load(None) {
        Ok(SecretSource::Fresh { key, file }) => {
            assert_eq!(file, key.bytes.to_vec());
            // The second half is the public key of the first: what one signs the other verifies.
            let secret = Ed25519SK(key.bytes);
            let signed = secret.sign(b"some message");
            assert!(secret.to_public().verify(b"some message", &signed));
        }
        _ => panic!("there was no file"),
    }
}

#[test]
fn fresh_keys_differ() {
    let first = match SecretKey::load(None) {
        Ok(SecretSource::Fresh { key, .. }) => key.bytes,
        _ => panic!("there was no file"),
    };
    let second = match SecretKey::load(None) {
        Ok(SecretSource::Fresh { key, .. }) => key.bytes,
        _ => panic!("there was no file"),
    };
    assert_ne!(first, second);
}

#[test]
fn puzzles_are_set_by_header_and_seed() {
    let seed = CoinID { txhash: [42u8; 32], index: 3 };
    let outside = melstructs::CoinID::new(TxHash(HashVal([42u8; 32])), 3);
    let expected = tmelcrypt::hash_keyed(the_same_header().hash(), &outside.stdcode());
    assert_eq!(set_puzzle(&some_header(), seed), expected.0);
}

#[test]
fn different_seeds_are_set_different_puzzles() {
    let header = some_header();
    let a = set_puzzle(&header, CoinID { txhash: [42u8; 32], index: 3 });
    let b = set_puzzle(&header, CoinID { txhash: [42u8; 32], index: 4 });
    let c = set_puzzle(&header, CoinID { txhash: [43u8; 32], index: 3 });
    assert_ne!(a, b);
    assert_ne!(a, c);
}

#[test]
fn networks_have_codes() {
    assert_eq!(NetID::Testnet.code(), 0x01);
    assert_eq!(NetID::Mainnet.code(), 0xff);
    assert_eq!(NetID::from_code(0x05), Some(NetID::Custom05));
    assert_eq!(NetID::from_code(0xff), Some(NetID::Mainnet));
    assert_eq!(NetID::from_code(0x00), None);
    assert_eq!(NetID::from_code(0x09), None);
}
