use melminter::batch::{minted, proof_of, Batch, BatchAction, BatchEvent};
use melminter::chain::{CoinData, CoinDataHeight, CoinID, Denom, Header, NetID};
use melminter::keys::{set_puzzle, SecretKey};
use melminter::state::MintState;
use tmelcrypt::Ed25519SK;

fn id(tag: u8) -> CoinID {
    CoinID { txhash: [tag; 32], index: 0 }
}

fn seed_coin(owner: [u8; 32], height: u64) -> CoinDataHeight {
    let denom = Denom::Custom([7; 32]);
    let coin_data = CoinData { covhash: owner, value: 1, denom, additional_data: vec![] };
    CoinDataHeight { coin_data, height }
}

fn header(height: u64) -> Header {
    Header {
        network: NetID::Testnet,
        previous: [1u8; 32],
        height,
        history_hash: [2u8; 32],
        coins_hash: [3u8; 32],
        transactions_hash: [4u8; 32],
        fee_pool: 5,
        fee_multiplier: 6,
        dosc_speed: 7,
        pools_hash: [8u8; 32],
        stakes_hash: [9u8; 32],
    }
}

fn open(seeds: u8) -> MintState {
    let key = SecretKey { bytes: Ed25519SK::generate().0 };
    let me = key.address();
    let listed = (1..seeds + 1).map(|tag| (id(tag), seed_coin(me, 90 + tag as u64))).collect();
    match MintState::open(key, NetID::Testnet, 100, Some(listed)) {
        Ok(state) => state,
        Err(error) => panic!("{:?}", error),
    }
}

fn told(batch: &mut Batch, event: BatchEvent) -> BatchAction {
    assert!(batch.admits(&event));
    batch.next(event)
}

fn found(state: &MintState, height: u64) -> BatchEvent {
    BatchEvent::Coin(Ok(Some(seed_coin(state.address(), height))))
}

#[test]
fn batches_without_seeds_are_empty() {
    let (batch, action) = open(0).mint_batch(20, 4);
    assert!(matches!(action, BatchAction::Finish));
    assert!(batch.finish().is_empty());
    let (batch, action) = open(2).mint_batch(20, 0);
    assert!(matches!(action, BatchAction::Finish));
    assert!(batch.finish().is_empty());
}

#[test]
fn batches_are_built_seed_by_seed() {
    let state = open(3);
    let (mut batch, action) = state.mint_batch(20, 2);
    assert!(matches!(action, BatchAction::FetchCoin { seed } if seed == id(1)));
    let action = told(&mut batch, found(&state, 91));
    assert!(matches!(action, BatchAction::FetchLatest));
    let action = told(&mut batch, BatchEvent::Latest(Ok(())));
    assert!(matches!(action, BatchAction::FetchHeader { height: 91 }));
    match told(&mut batch, BatchEvent::Header(Ok(header(91)))) {
        BatchAction::Spawn { index, chi, difficulty } => {
            assert_eq!(index, 0);
            assert_eq!(chi, set_puzzle(&header(91), id(1)));
            assert_eq!(difficulty, 20);
        }
        _ => panic!("the puzzle is set"),
    }
    let action = told(&mut batch, BatchEvent::Spawned);
    assert!(matches!(action, BatchAction::FetchCoin { seed } if seed == id(2)));
    told(&mut batch, found(&state, 92));
    told(&mut batch, BatchEvent::Latest(Ok(())));
    match told(&mut batch, BatchEvent::Header(Ok(header(92)))) {
        BatchAction::Spawn { index, chi, .. } => {
            assert_eq!(index, 1);
            assert_eq!(chi, set_puzzle(&header(92), id(2)));
        }
        _ => panic!("the puzzle is set"),
    }
    // There are three seeds, but only two threads.
    let action = told(&mut batch, BatchEvent::Spawned);
    assert!(matches!(action, BatchAction::Join { index: 0 }));
    let action = told(&mut batch, BatchEvent::Proof(vec![1, 1]));
    assert!(matches!(action, BatchAction::Join { index: 1 }));
    let action = told(&mut batch, BatchEvent::Proof(vec![2, 2]));
    assert!(matches!(action, BatchAction::Finish));
    let me = state.address();
    let expected = vec![
        (id(1), seed_coin(me, 91), vec![1, 1]),
        (id(2), seed_coin(me, 92), vec![2, 2]),
    ];
    assert_eq!(batch.finish(), expected);
}

#[test]
fn fewer_seeds_than_threads_make_fewer_proofs() {
    let state = open(1);
    let (mut batch, _) = state.mint_batch(20, 5);
    told(&mut batch, found(&state, 91));
    told(&mut batch, BatchEvent::Latest(Ok(())));
    told(&mut batch, BatchEvent::Header(Ok(header(91))));
    let action = told(&mut batch, BatchEvent::Spawned);
    assert!(matches!(action, BatchAction::Join { index: 0 }));
    let action = told(&mut batch, BatchEvent::Proof(vec![]));
    assert!(matches!(action, BatchAction::Finish));
    assert_eq!(batch.finish().len(), 1);
}

#[test]
fn failed_fetches_are_repeated() {
    let state = open(1);
    let (mut batch, _) = state.mint_batch(20, 1);
    let action = told(&mut batch, BatchEvent::Coin(Err("no route".to_string())));
    assert!(matches!(action, BatchAction::Rest { secs: 1 }));
    let action = told(&mut batch, BatchEvent::Rested);
    assert!(matches!(action, BatchAction::FetchCoin { seed } if seed == id(1)));
    told(&mut batch, found(&state, 91));
    told(&mut batch, BatchEvent::Latest(Ok(())));
    let action = told(&mut batch, BatchEvent::Header(Err("no route".to_string())));
    assert!(matches!(action, BatchAction::Rest { secs: 1 }));
    let action = told(&mut batch, BatchEvent::Rested);
    assert!(matches!(action, BatchAction::FetchHeader { height: 91 }));
}

#[test]
fn spent_seeds_fail_the_batch() {
    let (mut batch, _) = open(1).mint_batch(20, 1);
    let action = told(&mut batch, BatchEvent::Coin(Ok(None)));
    assert!(matches!(action, BatchAction::SpentBehindOurBack));
    assert!(!batch.admits(&BatchEvent::Rested));
}

#[test]
fn an_unknown_tip_fails_the_batch() {
    let state = open(1);
    let (mut batch, _) = state.mint_batch(20, 1);
    told(&mut batch, found(&state, 91));
    let action = told(&mut batch, BatchEvent::Latest(Err("no route".to_string())));
    assert!(matches!(action, BatchAction::Fail(why) if why == "no route"));
}

#[test]
fn events_out_of_turn_are_not_admitted() {
    let (batch, _) = open(1).mint_batch(20, 1);
    assert!(!batch.admits(&BatchEvent::Spawned));
    assert!(!batch.admits(&BatchEvent::Proof(vec![])));
    assert!(!batch.admits(&BatchEvent::Header(Ok(header(1)))));
    assert!(!batch.admits(&BatchEvent::Latest(Ok(()))));
}

#[test]
fn sent_proofs_are_those_of_their_seeds() {
    let built = vec![
        (id(1), seed_coin([0u8; 32], 91), vec![1, 1]),
        (id(2), seed_coin([0u8; 32], 95), vec![2, 2]),
    ];
    let listed = minted(&built);
    assert_eq!(listed.len(), 2);
    assert_eq!(listed[0].seed, id(1));
    assert_eq!(listed[0].coin_height, 91);
    assert_eq!(listed[1].seed, id(2));
    assert_eq!(listed[1].coin_height, 95);
    assert_eq!(proof_of(&built, 0), Some(vec![1, 1]));
    assert_eq!(proof_of(&built, 1), Some(vec![2, 2]));
    assert_eq!(proof_of(&built, 2), None);
    assert!(minted(&vec![]).is_empty());
}
