use melminter::chain::{CoinData, CoinDataHeight, CoinID, Denom, NetID};
use melminter::errand::{Deed, Errand, News};
use melminter::keys::SecretKey;
use melminter::state::{pay_out, MintState};
use melminter::sync::{CoinChange, SyncAction, SyncEvent, Syncer};
use tmelcrypt::Ed25519SK;

fn id(tag: u8) -> CoinID {
    CoinID { txhash: [tag; 32], index: 0 }
}

fn coin(owner: [u8; 32], denom: Denom, value: u128) -> CoinData {
    CoinData { covhash: owner, value, denom, additional_data: vec![] }
}

fn open(coins: u8) -> MintState {
    let key = SecretKey { bytes: Ed25519SK::generate().0 };
    let me = key.address();
    let listed = (0..coins)
        .map(|tag| {
            let coin_data = coin(me, Denom::Mel, 2_000_000);
            (id(tag), CoinDataHeight { coin_data, height: 90 })
        })
        .collect();
    match MintState::open(key, NetID::Testnet, 100, Some(listed)) {
        Ok(state) => state,
        Err(error) => panic!("{:?}", error),
    }
}

fn told(errand: &mut Errand, state: &mut MintState, news: News) -> Deed {
    assert!(errand.admits(state, &news));
    errand.next(state, news)
}

fn hash_of(errand: &Errand) -> [u8; 32] {
    match errand.transaction() {
        Some(tx) => tx.hash_nosigs().0 .0,
        None => panic!("nothing is being sent"),
    }
}

fn block(
    state: &mut MintState,
    height: u64,
    added: Vec<(CoinID, CoinData)>,
    deleted: Vec<CoinID>,
) {
    let (syncer, action) = Syncer::start().next(state, SyncEvent::Latest { height });
    assert_eq!(action, SyncAction::FetchChanges { height });
    let mut changes: Vec<CoinChange> = deleted.into_iter().map(CoinChange::Delete).collect();
    changes.extend(added.iter().map(|entry| CoinChange::Add(entry.0)));
    let (mut syncer, _) = syncer.next(state, SyncEvent::Changes { height, changes });
    for (_, data) in added {
        let (next, _) = syncer.next(state, SyncEvent::Coin(Some(data)));
        syncer = next;
    }
}

#[test]
fn errands_end_with_acceptance_where_that_is_enough() {
    let mut state = open(1);
    let mut errand = Errand::for_one(pay_out([6u8; 32], 500), false);
    assert!(errand.transaction().is_none());
    assert!(matches!(told(&mut errand, &mut state, News::Fee(10)), Deed::Send));
    let txhash = hash_of(&errand);
    let deed = told(&mut errand, &mut state, News::Accepted);
    assert!(matches!(deed, Deed::Finish(h) if h == txhash));
    assert!(state.wallet.pending_outgoing.len() == 1);
    assert!(!errand.admits(&state, &News::Rested));
}

#[test]
fn errands_end_with_confirmation_where_that_is_wanted() {
    let mut state = open(1);
    let me = state.address();
    let mut errand = Errand::for_one(pay_out([6u8; 32], 500), true);
    assert!(matches!(told(&mut errand, &mut state, News::Fee(10)), Deed::Send));
    let txhash = hash_of(&errand);
    assert!(matches!(told(&mut errand, &mut state, News::Accepted), Deed::Rest { secs: 1 }));
    assert!(matches!(told(&mut errand, &mut state, News::Rested), Deed::Rest { secs: 1 }));
    block(&mut state, 101, vec![(CoinID { txhash, index: 1 }, coin(me, Denom::Mel, 9))], vec![]);
    assert!(matches!(told(&mut errand, &mut state, News::Rested), Deed::Finish(h) if h == txhash));
}

#[test]
fn refused_transactions_change_nothing() {
    let mut state = open(1);
    let mut errand = Errand::for_one(pay_out([6u8; 32], 500), true);
    assert!(matches!(told(&mut errand, &mut state, News::Fee(10)), Deed::Send));
    let failed = News::Failed("timeout".to_string());
    assert!(matches!(told(&mut errand, &mut state, failed), Deed::Fail(why) if why == "timeout"));
    assert!(state.wallet.pending_outgoing.is_empty());
    assert!(errand.transaction().is_none());
}

#[test]
fn errands_fail_where_the_fee_is_unknown() {
    let mut state = open(1);
    let mut errand = Errand::for_one(pay_out([6u8; 32], 500), true);
    let failed = News::Failed("no route".to_string());
    assert!(matches!(told(&mut errand, &mut state, failed), Deed::Fail(why) if why == "no route"));
}

#[test]
fn errands_fail_where_money_is_short() {
    let mut state = open(0);
    let mut errand = Errand::for_one(pay_out([6u8; 32], 500), true);
    match told(&mut errand, &mut state, News::Fee(10)) {
        Deed::Fail(why) => assert!(why.contains("not enough money")),
        _ => panic!("there is no money"),
    }
}

#[test]
fn no_coin_is_picked_twice() {
    let mut state = open(2);
    let mut first = Errand::for_one(pay_out([6u8; 32], 500), false);
    told(&mut first, &mut state, News::Fee(10));
    let spent = match first.transaction() {
        Some(tx) => tx.inputs.clone(),
        None => panic!("nothing is being sent"),
    };
    told(&mut first, &mut state, News::Accepted);
    let mut second = Errand::for_one(pay_out([6u8; 32], 500), false);
    told(&mut second, &mut state, News::Fee(10));
    match second.transaction() {
        Some(tx) => assert!(tx.inputs.iter().all(|input| !spent.contains(input))),
        None => panic!("nothing is being sent"),
    }
    told(&mut second, &mut state, News::Accepted);
    let mut third = Errand::for_one(pay_out([6u8; 32], 500), false);
    assert!(matches!(told(&mut third, &mut state, News::Fee(10)), Deed::Fail(_)));
}

#[test]
fn no_seeds_are_sought_where_there_are_enough() {
    assert!(Errand::for_seeds(&open(1), 0).is_none());
    assert!(Errand::for_seeds(&open(1), 1).is_some());
}

#[test]
fn seeds_are_sought_until_there_are_enough() {
    let mut state = open(3);
    let me = state.address();
    let mut errand = match Errand::for_seeds(&state, 2) {
        Some(errand) => errand,
        None => panic!("there are no seeds"),
    };
    assert!(matches!(told(&mut errand, &mut state, News::Fee(10)), Deed::Send));
    let txhash = hash_of(&errand);
    assert!(matches!(told(&mut errand, &mut state, News::Accepted), Deed::Rest { secs: 1 }));
    // One of the two coins turns up: everything is done once more.
    let seed = coin(me, Denom::Custom(txhash), 1);
    block(&mut state, 101, vec![(CoinID { txhash, index: 0 }, seed.clone())], vec![id(0)]);
    assert!(matches!(told(&mut errand, &mut state, News::Rested), Deed::FetchFee));
    assert!(matches!(told(&mut errand, &mut state, News::Fee(10)), Deed::Send));
    let again = hash_of(&errand);
    assert_ne!(again, txhash);
    assert!(matches!(told(&mut errand, &mut state, News::Accepted), Deed::Rest { secs: 1 }));
    let added = vec![
        (CoinID { txhash: again, index: 0 }, seed.clone()),
        (CoinID { txhash: again, index: 1 }, seed),
    ];
    block(&mut state, 102, added, vec![id(1)]);
    assert!(matches!(told(&mut errand, &mut state, News::Rested), Deed::Finish(h) if h == again));
    assert_eq!(state.get_seeds_raw().len(), 3);
}

#[test]
fn what_the_wallet_prepares_is_sent() {
    let state = open(1);
    let tx = match state.prepare_tx(&pay_out([6u8; 32], 500), 10) {
        Ok(tx) => tx,
        Err(error) => panic!("{}", error),
    };
    let txhash = tx.hash_nosigs().0 .0;
    let mut errand = Errand::for_one(pay_out([6u8; 32], 500), true);
    assert!(matches!(errand.take_prepared(Ok(tx)), Deed::Send));
    assert_eq!(hash_of(&errand), txhash);
    let mut errand = Errand::for_one(pay_out([6u8; 32], 500), true);
    let deed = errand.take_prepared(Err("no money".to_string()));
    assert!(matches!(deed, Deed::Fail(why) if why == "no money"));
    assert!(errand.transaction().is_none());
}
