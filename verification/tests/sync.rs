use melminter::chain::{CoinData, CoinDataHeight, CoinID, Denom, NetID};
use melminter::errand::{Deed, Errand, News};
use melminter::keys::SecretKey;
use melminter::state::{pay_out, MintState, Wait};
use melminter::sync::{CoinChange, SyncAction, SyncEvent, Syncer};
use tmelcrypt::Ed25519SK;

fn id(tag: u8) -> CoinID {
    CoinID { txhash: [tag; 32], index: 0 }
}

fn coin(owner: [u8; 32], denom: Denom, value: u128) -> CoinData {
    CoinData { covhash: owner, value, denom, additional_data: vec![] }
}

fn open() -> MintState {
    let key = SecretKey { bytes: Ed25519SK::generate().0 };
    let me = key.address();
    let listed = vec![
        (id(1), CoinDataHeight { coin_data: coin(me, Denom::Mel, 2_000_000), height: 90 }),
        (id(2), CoinDataHeight { coin_data: coin(me, Denom::Custom([7; 32]), 1), height: 90 }),
    ];
    match MintState::open(key, NetID::Testnet, 100, Some(listed)) {
        Ok(state) => state,
        Err(error) => panic!("{:?}", error),
    }
}

fn told(syncer: Syncer, state: &mut MintState, event: SyncEvent) -> (Syncer, SyncAction) {
    assert!(syncer.admits(state, &event));
    syncer.next(state, event)
}

#[test]
fn nothing_is_fetched_where_nothing_is_new() {
    let mut state = open();
    for height in [0, 99, 100] {
        let (syncer, action) = told(Syncer::start(), &mut state, SyncEvent::Latest { height });
        assert_eq!(action, SyncAction::Rest { secs: 10 });
        assert_eq!(state.wallet.height.0, 100);
        let (_, action) = told(syncer, &mut state, SyncEvent::Rested);
        assert_eq!(action, SyncAction::FetchLatest);
    }
}

#[test]
fn blocks_are_taken_in_one_by_one() {
    let mut state = open();
    let me = state.address();
    let (syncer, action) = told(Syncer::start(), &mut state, SyncEvent::Latest { height: 102 });
    assert_eq!(action, SyncAction::FetchChanges { height: 101 });
    let changes = vec![
        CoinChange::Delete(id(2)),
        CoinChange::Add(id(3)),
        CoinChange::Delete(id(9)),
        CoinChange::Add(id(4)),
        CoinChange::Add(id(5)),
    ];
    let (syncer, action) = told(syncer, &mut state, SyncEvent::Changes { height: 101, changes });
    assert_eq!(action, SyncAction::FetchCoin { height: 101, id: id(3) });
    let found = SyncEvent::Coin(Some(coin(me, Denom::Erg, 30)));
    let (syncer, action) = told(syncer, &mut state, found);
    assert_eq!(action, SyncAction::FetchCoin { height: 101, id: id(4) });
    let (syncer, action) = told(syncer, &mut state, SyncEvent::Coin(None));
    assert_eq!(action, SyncAction::FetchCoin { height: 101, id: id(5) });
    assert_eq!(state.wallet.height.0, 100);
    let found = SyncEvent::Coin(Some(coin(me, Denom::Erg, 50)));
    let (syncer, action) = told(syncer, &mut state, found);
    assert_eq!(action, SyncAction::FetchChanges { height: 102 });
    assert_eq!(state.wallet.height.0, 101);
    assert_eq!(state.balance(Denom::Erg), Some(80));
    assert_eq!(state.balance(Denom::Mel), Some(2_000_000));
    // The spent seed is gone.
    assert!(state.get_seeds_raw().is_empty());
    let empty = SyncEvent::Changes { height: 102, changes: vec![] };
    let (_, action) = told(syncer, &mut state, empty);
    assert_eq!(action, SyncAction::Rest { secs: 10 });
    assert_eq!(state.wallet.height.0, 102);
}

#[test]
fn new_coins_are_recorded_at_the_height_of_their_block() {
    let mut state = open();
    let me = state.address();
    let (syncer, _) = told(Syncer::start(), &mut state, SyncEvent::Latest { height: 101 });
    let changes = vec![CoinChange::Add(id(3))];
    let (syncer, _) = told(syncer, &mut state, SyncEvent::Changes { height: 101, changes });
    told(syncer, &mut state, SyncEvent::Coin(Some(coin(me, Denom::Erg, 0))));
    let found = state.empty_ergs();
    assert_eq!(found.len(), 1);
    assert_eq!(found[0].0, id(3));
    assert_eq!(found[0].1.height, 101);
}

#[test]
fn blocks_out_of_turn_are_refused() {
    let mut state = open();
    let (syncer, _) = told(Syncer::start(), &mut state, SyncEvent::Latest { height: 105 });
    let changes = vec![CoinChange::Delete(id(1))];
    let (syncer, action) = told(syncer, &mut state, SyncEvent::Changes { height: 103, changes });
    assert_eq!(action, SyncAction::Rest { secs: 1 });
    assert_eq!(state.wallet.height.0, 100);
    assert_eq!(state.balance(Denom::Mel), Some(2_000_000));
    let (_, action) = told(syncer, &mut state, SyncEvent::Rested);
    assert_eq!(action, SyncAction::FetchLatest);
}

#[test]
fn blocks_with_coins_of_others_are_refused() {
    let mut state = open();
    let (syncer, _) = told(Syncer::start(), &mut state, SyncEvent::Latest { height: 101 });
    let changes = vec![CoinChange::Add(id(3)), CoinChange::Delete(id(1))];
    let (syncer, _) = told(syncer, &mut state, SyncEvent::Changes { height: 101, changes });
    let strange = SyncEvent::Coin(Some(coin([9u8; 32], Denom::Mel, 5)));
    let (_, action) = told(syncer, &mut state, strange);
    assert_eq!(action, SyncAction::Rest { secs: 1 });
    assert_eq!(state.wallet.height.0, 100);
    assert_eq!(state.balance(Denom::Mel), Some(2_000_000));
}

#[test]
fn failures_leave_the_wallet() {
    let mut state = open();
    let (_, action) = told(Syncer::start(), &mut state, SyncEvent::Failed);
    assert_eq!(action, SyncAction::Rest { secs: 1 });
    let (syncer, _) = told(Syncer::start(), &mut state, SyncEvent::Latest { height: 102 });
    let (_, action) = told(syncer, &mut state, SyncEvent::Failed);
    assert_eq!(action, SyncAction::Rest { secs: 1 });
    let (syncer, _) = told(Syncer::start(), &mut state, SyncEvent::Latest { height: 102 });
    let changes = vec![CoinChange::Delete(id(1)), CoinChange::Add(id(3))];
    let (syncer, _) = told(syncer, &mut state, SyncEvent::Changes { height: 101, changes });
    let (_, action) = told(syncer, &mut state, SyncEvent::Failed);
    assert_eq!(action, SyncAction::Rest { secs: 1 });
    assert_eq!(state.wallet.height.0, 100);
    assert_eq!(state.balance(Denom::Mel), Some(2_000_000));
}

#[test]
fn the_end_of_all_heights_is_not_reached() {
    let state = open();
    assert!(!Syncer::start().admits(&state, &SyncEvent::Latest { height: u64::MAX }));
    assert!(!Syncer::start().admits(&state, &SyncEvent::Rested));
}

#[test]
fn pending_transactions_are_sent_again_after_new_blocks() {
    let mut state = open();
    let me = state.address();
    let mut errand = Errand::for_one(pay_out([6u8; 32], 500), false);
    assert!(matches!(errand.next(&mut state, News::Fee(10)), Deed::Send));
    let txhash = match errand.next(&mut state, News::Accepted) {
        Deed::Finish(txhash) => txhash,
        _ => panic!("the transaction was accepted"),
    };
    // Nothing new: nothing is sent again.
    let (syncer, action) = told(Syncer::start(), &mut state, SyncEvent::Latest { height: 100 });
    assert_eq!(action, SyncAction::Rest { secs: 10 });
    assert!(syncer.transaction().is_none());
    // A block without the transaction.
    let (syncer, _) = told(Syncer::start(), &mut state, SyncEvent::Latest { height: 101 });
    let empty = SyncEvent::Changes { height: 101, changes: vec![] };
    let (syncer, action) = told(syncer, &mut state, empty);
    assert_eq!(action, SyncAction::Resend);
    match syncer.transaction() {
        Some(tx) => assert_eq!(tx.hash_nosigs().0 .0, txhash),
        None => panic!("the transaction is pending"),
    }
    let (_, action) = told(syncer, &mut state, SyncEvent::Resent);
    assert_eq!(action, SyncAction::Rest { secs: 10 });
    // A block with the transaction.
    let (syncer, _) = told(Syncer::start(), &mut state, SyncEvent::Latest { height: 102 });
    let changes = vec![CoinChange::Add(CoinID { txhash, index: 1 })];
    let (syncer, _) = told(syncer, &mut state, SyncEvent::Changes { height: 102, changes });
    let change = SyncEvent::Coin(Some(coin(me, Denom::Mel, 1)));
    let (_, action) = told(syncer, &mut state, change);
    assert_eq!(action, SyncAction::Rest { secs: 10 });
    assert_eq!(state.wait_tx(txhash), Wait::Over);
}

#[test]
fn several_transactions_are_sent_again_in_order() {
    let key = SecretKey { bytes: Ed25519SK::generate().0 };
    let me = key.address();
    let listed = (1..4u8)
        .map(|tag| {
            let coin_data = coin(me, Denom::Mel, 2_000_000);
            (id(tag), CoinDataHeight { coin_data, height: 90 })
        })
        .collect();
    let mut state = match MintState::open(key, NetID::Testnet, 100, Some(listed)) {
        Ok(state) => state,
        Err(error) => panic!("{:?}", error),
    };
    let mut hashes = vec![];
    for _ in 0..3 {
        let mut errand = Errand::for_one(pay_out([6u8; 32], 500), false);
        errand.next(&mut state, News::Fee(10));
        match errand.next(&mut state, News::Accepted) {
            Deed::Finish(txhash) => hashes.push(txhash),
            _ => panic!("the transaction was accepted"),
        }
    }
    hashes.sort();
    let (syncer, _) = told(Syncer::start(), &mut state, SyncEvent::Latest { height: 101 });
    let empty = SyncEvent::Changes { height: 101, changes: vec![] };
    let (mut syncer, mut action) = told(syncer, &mut state, empty);
    for txhash in hashes {
        assert_eq!(action, SyncAction::Resend);
        assert_eq!(syncer.transaction().map(|tx| tx.hash_nosigs().0 .0), Some(txhash));
        let (next, then) = told(syncer, &mut state, SyncEvent::Resent);
        syncer = next;
        action = then;
    }
    assert_eq!(action, SyncAction::Rest { secs: 10 });
}

#[test]
fn sending_in_the_meantime_does_no_harm() {
    let mut state = open();
    let (syncer, _) = told(Syncer::start(), &mut state, SyncEvent::Latest { height: 101 });
    let mut errand = Errand::for_one(pay_out([6u8; 32], 500), false);
    errand.next(&mut state, News::Fee(10));
    errand.next(&mut state, News::Accepted);
    let empty = SyncEvent::Changes { height: 101, changes: vec![] };
    let (_, action) = told(syncer, &mut state, empty);
    assert_eq!(action, SyncAction::Resend);
    assert_eq!(state.wallet.height.0, 101);
}
