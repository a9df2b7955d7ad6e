use melminter::chain::{CoinData, CoinDataHeight, CoinID, Denom, NetID, TxKind};
use melminter::keys::SecretKey;
use melminter::state::{
    needs_seed_money, open_wallet, pay_out, MintState, OpenError, Wait,
};
use melminter::tx::{TxRequest, MEL_LIMIT};
use melminter::wallet::{all_totals_within, last_of_each, CoinsRefused};
use tmelcrypt::Ed25519SK;

fn some_key() -> SecretKey {
    SecretKey { bytes: Ed25519SK::generate().0 }
}

fn id(tag: u8, index: u8) -> CoinID {
    CoinID { txhash: [tag; 32], index }
}

fn coin(owner: [u8; 32], denom: Denom, value: u128) -> CoinDataHeight {
    let coin_data = CoinData { covhash: owner, value, denom, additional_data: vec![] };
    CoinDataHeight { coin_data, height: 90 }
}

fn open(key: SecretKey, coins: Vec<(CoinID, CoinDataHeight)>) -> MintState {
    match MintState::open(key, NetID::Testnet, 100, Some(coins)) {
        Ok(state) => state,
        Err(error) => panic!("{:?}", error),
    }
}

#[test]
fn wallets_open_with_the_listed_coins() {
    let key = some_key();
    let me = key.address();
    let listed = vec![(id(2, 0), coin(me, Denom::Mel, 5)), (id(1, 1), coin(me, Denom::Erg, 7))];
    match open_wallet(key, NetID::Testnet, 100, Some(listed)) {
        Ok(wallet) => {
            assert_eq!(wallet.height.0, 100);
            assert_eq!(wallet.address.0 .0, me);
            assert_eq!(wallet.netid, melstructs::NetID::Testnet);
            assert_eq!(wallet.confirmed_utxos.len(), 2);
            assert!(wallet.pending_outgoing.is_empty());
        }
        Err(error) => panic!("{:?}", error),
    }
}

#[test]
fn the_later_of_two_entries_stands() {
    let key = some_key();
    let me = key.address();
    let state = open(
        key,
        vec![(id(1, 0), coin(me, Denom::Mel, 5)), (id(1, 0), coin(me, Denom::Mel, 8))],
    );
    assert_eq!(state.balance(Denom::Mel), Some(8));
}

#[test]
fn a_coin_index_is_needed() {
    let opened = MintState::open(some_key(), NetID::Mainnet, 100, None);
    assert_eq!(opened.err(), Some(OpenError::NoCoinIndex));
}

#[test]
fn coins_of_others_are_refused() {
    let key = some_key();
    let listed = vec![(id(1, 0), coin([9u8; 32], Denom::Mel, 5))];
    let opened = MintState::open(key, NetID::Mainnet, 100, Some(listed));
    assert_eq!(opened.err(), Some(OpenError::Refused(CoinsRefused::WrongAddress)));
}

#[test]
fn balances_are_told_by_denomination() {
    let key = some_key();
    let me = key.address();
    let state = open(
        key,
        vec![
            (id(1, 0), coin(me, Denom::Mel, 5)),
            (id(1, 1), coin(me, Denom::Mel, 6)),
            (id(2, 0), coin(me, Denom::Custom([3u8; 32]), 1)),
            (id(3, 0), coin(me, Denom::Erg, 0)),
        ],
    );
    assert!(state.has_balances());
    assert_eq!(state.balance(Denom::Mel), Some(11));
    assert_eq!(state.balance(Denom::Erg), Some(0));
    assert_eq!(state.balance(Denom::Sym), None);
    assert_eq!(state.balance(Denom::NewCustom), None);
    assert_eq!(state.balance(Denom::Custom([3u8; 32])), Some(1));
    assert_eq!(state.balance(Denom::Custom([4u8; 32])), None);
    assert_eq!(state.address(), me);
}

#[test]
fn balances_that_exceed_a_number_are_noticed() {
    let key = some_key();
    let me = key.address();
    let coins = vec![
        (id(1, 0), coin(me, Denom::Mel, u128::MAX)),
        (id(1, 1), coin(me, Denom::Mel, 1)),
    ];
    assert!(!all_totals_within(&coins, u128::MAX));
    assert!(!open(key, coins).has_balances());
    let coins = vec![
        (id(1, 0), coin(me, Denom::Mel, u128::MAX)),
        (id(1, 1), coin(me, Denom::Erg, u128::MAX)),
    ];
    assert!(open(key, coins).has_balances());
}

#[test]
fn seed_coins_come_in_order() {
    let key = some_key();
    let me = key.address();
    let token = Denom::Custom([3u8; 32]);
    let state = open(
        key,
        vec![
            (id(7, 1), coin(me, token, 1)),
            (id(1, 0), coin(me, Denom::Mel, 5)),
            (id(7, 0), coin(me, token, 1)),
            (id(2, 9), coin(me, Denom::Custom([4u8; 32]), 2)),
        ],
    );
    assert_eq!(state.get_seeds_raw(), vec![id(2, 9), id(7, 0), id(7, 1)]);
}

#[test]
fn empty_ergs_are_found() {
    let key = some_key();
    let me = key.address();
    let state = open(
        key,
        vec![
            (id(3, 0), coin(me, Denom::Erg, 0)),
            (id(2, 0), coin(me, Denom::Erg, 4)),
            (id(1, 0), coin(me, Denom::Mel, 0)),
            (id(1, 1), coin(me, Denom::Erg, 0)),
        ],
    );
    let found = state.empty_ergs();
    let empty = coin(me, Denom::Erg, 0);
    assert_eq!(found, vec![(id(1, 1), empty.clone()), (id(3, 0), empty)]);
}

#[test]
fn seed_money_is_a_twentieth_of_a_mel() {
    assert!(needs_seed_money(None));
    assert!(needs_seed_money(Some(0)));
    assert!(needs_seed_money(Some(49_999)));
    assert!(!needs_seed_money(Some(50_000)));
}

#[test]
fn seeds_are_asked_for_only_where_they_are_missing() {
    let key = some_key();
    let me = key.address();
    let state = open(key, vec![(id(1, 0), coin(me, Denom::Custom([3u8; 32]), 1))]);
    assert!(state.generate_seeds(0).is_none());
    assert!(state.generate_seeds(1).is_none());
    match state.generate_seeds(2) {
        Some(wanted) => {
            assert_eq!(wanted.kind, TxKind::Normal);
            assert!(wanted.inputs.is_empty());
            assert!(wanted.data.is_empty());
            let seed = CoinData {
                covhash: me,
                value: 1,
                denom: Denom::NewCustom,
                additional_data: vec![],
            };
            assert_eq!(wanted.outputs, vec![seed.clone(), seed]);
        }
        None => panic!("one seed is not two"),
    }
}

#[test]
fn claims_show_their_proof() {
    let key = some_key();
    let me = key.address();
    let state = open(key, vec![]);
    let seed_coin = coin(me, Denom::Custom([3u8; 32]), 1);
    let wanted = state.send_mint_transaction(id(1, 0), seed_coin.clone(), 5, vec![1, 2, 3], 44);
    assert_eq!(wanted.kind, TxKind::DoscMint);
    assert_eq!(wanted.inputs, vec![(id(1, 0), seed_coin)]);
    assert_eq!(wanted.outputs.len(), 1);
    assert_eq!(wanted.outputs[0].covhash, me);
    assert_eq!(wanted.outputs[0].value, 44);
    assert_eq!(wanted.outputs[0].denom, Denom::Erg);
    assert_eq!(wanted.data, vec![5, 3, 1, 2, 3]);
}

#[test]
fn claims_write_numbers_in_few_bytes() {
    let key = some_key();
    let state = open(key, vec![]);
    let data = |difficulty: usize, proof: Vec<u8>| {
        let seed_coin = coin([0u8; 32], Denom::Mel, 1);
        state.send_mint_transaction(id(1, 0), seed_coin, difficulty, proof, 0).data
    };
    assert_eq!(data(250, vec![]), vec![250, 0]);
    assert_eq!(data(251, vec![]), vec![251, 251, 0, 0]);
    assert_eq!(data(300, vec![]), vec![251, 44, 1, 0]);
    assert_eq!(data(65_536, vec![]), vec![252, 0, 0, 1, 0, 0]);
    assert_eq!(data(0x1_0000_0000, vec![]), vec![253, 0, 0, 0, 0, 1, 0, 0, 0, 0]);
    let long = data(1, vec![8u8; 300]);
    assert_eq!(long[..4].to_vec(), vec![1, 251, 44, 1]);
    assert_eq!(long[4..].to_vec(), vec![8u8; 300]);
    // Different claims are written differently.
    assert_ne!(data(1, vec![2]), data(1, vec![3]));
    assert_ne!(data(1, vec![2]), data(2, vec![2]));
}

#[test]
fn conversions_name_their_pool() {
    let key = some_key();
    let me = key.address();
    let wanted = open(key, vec![]).convert_doscs(77);
    assert_eq!(wanted.kind, TxKind::Swap);
    assert!(wanted.inputs.is_empty());
    assert_eq!(wanted.outputs.len(), 1);
    assert_eq!(wanted.outputs[0].covhash, me);
    assert_eq!(wanted.outputs[0].value, 77);
    assert_eq!(wanted.outputs[0].denom, Denom::Erg);
    assert_eq!(wanted.data, b"d".to_vec());
}

#[test]
fn empty_ergs_are_sent_to_nowhere() {
    let key = some_key();
    let me = key.address();
    let state = open(key, vec![(id(1, 1), coin(me, Denom::Erg, 0))]);
    let wanted = state.clean_ergs(state.empty_ergs());
    assert_eq!(wanted.kind, TxKind::Normal);
    assert_eq!(wanted.inputs, vec![(id(1, 1), coin(me, Denom::Erg, 0))]);
    assert_eq!(wanted.outputs.len(), 1);
    assert_eq!(wanted.outputs[0].covhash, [0u8; 32]);
    assert_eq!(wanted.outputs[0].value, 0);
    assert_eq!(wanted.outputs[0].denom, Denom::Erg);
    assert!(wanted.data.is_empty());
}

#[test]
fn profits_go_where_they_should() {
    let wanted = pay_out([6u8; 32], 500);
    assert_eq!(wanted.kind, TxKind::Normal);
    assert!(wanted.inputs.is_empty());
    assert_eq!(wanted.outputs.len(), 1);
    assert_eq!(wanted.outputs[0].covhash, [6u8; 32]);
    assert_eq!(wanted.outputs[0].value, 500);
    assert_eq!(wanted.outputs[0].denom, Denom::Mel);
}

#[test]
fn transactions_are_what_was_asked_for() {
    let key = some_key();
    let me = key.address();
    let state = open(
        key,
        vec![
            (id(1, 0), coin(me, Denom::Mel, 3_000_000)),
            (id(2, 0), coin(me, Denom::Erg, 100)),
        ],
    );
    let wanted = state.convert_doscs(60);
    assert!(state.can_prepare(&wanted));
    let tx = match state.prepare_tx(&wanted, 10) {
        Ok(tx) => tx,
        Err(error) => panic!("{}", error),
    };
    assert_eq!(tx.kind, melstructs::TxKind::Swap);
    assert_eq!(tx.data.to_vec(), b"d".to_vec());
    assert_eq!(tx.outputs[0].value.0, 60);
    assert_eq!(tx.inputs.len(), 2);
    assert_eq!(tx.covenants.len(), 2);
    // Nothing is lost.
    let total = |denom: melstructs::Denom| -> u128 {
        tx.outputs.iter().filter(|output| output.denom == denom).map(|output| output.value.0).sum()
    };
    assert_eq!(total(melstructs::Denom::Erg), 100);
    assert_eq!(total(melstructs::Denom::Mel) + tx.fee.0, 3_000_000);
}

#[test]
fn claims_spend_their_seed() {
    let key = some_key();
    let me = key.address();
    let seed_coin = coin(me, Denom::Custom([3u8; 32]), 1);
    let state = open(
        key,
        vec![(id(1, 0), coin(me, Denom::Mel, 3_000_000)), (id(2, 0), seed_coin.clone())],
    );
    let wanted = state.send_mint_transaction(id(2, 0), seed_coin, 9, vec![4, 5], 1_000);
    match state.prepare_tx(&wanted, 10) {
        Ok(tx) => {
            assert_eq!(tx.inputs[0].txhash.0 .0, [2u8; 32]);
            assert_eq!(tx.outputs[0].value.0, 1_000);
            assert_eq!(tx.outputs[0].denom, melstructs::Denom::Erg);
            assert_eq!(tx.data.to_vec(), vec![9, 2, 4, 5]);
        }
        Err(error) => panic!("{}", error),
    }
}

#[test]
fn poor_wallets_prepare_nothing() {
    let key = some_key();
    let state = open(key, vec![]);
    let wanted = pay_out([6u8; 32], 500);
    assert!(state.can_prepare(&wanted));
    match state.prepare_tx(&wanted, 10) {
        Ok(_) => panic!("there is no money"),
        Err(error) => assert!(error.contains("not enough money")),
    }
}

#[test]
fn sums_that_exceed_a_number_are_not_prepared() {
    let key = some_key();
    let me = key.address();
    let little = pay_out([6u8; 32], 500);
    let rich = open(key, vec![(id(1, 0), coin(me, Denom::Mel, MEL_LIMIT + 1))]);
    assert!(!rich.can_prepare(&little));
    let state = open(
        key,
        vec![
            (id(1, 0), coin(me, Denom::Mel, MEL_LIMIT)),
            (id(2, 0), coin(me, Denom::Erg, u128::MAX)),
        ],
    );
    assert!(state.can_prepare(&little));
    assert!(state.prepare_tx(&little, 1_000).is_ok());
    // All of it, and more than there is.
    let all = pay_out([6u8; 32], MEL_LIMIT - 10);
    assert!(state.can_prepare(&all));
    assert!(state.prepare_tx(&all, u128::MAX).is_err());
    let more = pay_out([6u8; 32], u128::MAX - 1);
    assert!(state.can_prepare(&more));
    assert!(state.prepare_tx(&more, 1_000).is_err());
    assert!(!state.can_prepare(&pay_out([6u8; 32], u128::MAX)));
    assert!(state.can_prepare(&state.convert_doscs(u128::MAX)));
    assert!(state.prepare_tx(&state.convert_doscs(u128::MAX), 1_000).is_ok());
}

#[test]
fn what_is_created_is_not_summed_up() {
    let key = some_key();
    let me = key.address();
    let state = open(key, vec![(id(1, 0), coin(me, Denom::Mel, 3_000_000))]);
    let request = |kind: TxKind, denom: Denom| {
        let output = CoinData { covhash: me, value: u128::MAX, denom, additional_data: vec![] };
        TxRequest { kind, inputs: vec![], outputs: vec![output.clone(), output], data: vec![] }
    };
    assert!(state.can_prepare(&request(TxKind::Normal, Denom::NewCustom)));
    assert!(state.can_prepare(&request(TxKind::DoscMint, Denom::Erg)));
    assert!(state.prepare_tx(&request(TxKind::DoscMint, Denom::Erg), 10).is_ok());
    assert!(!state.can_prepare(&request(TxKind::Normal, Denom::Erg)));
    assert!(!state.can_prepare(&request(TxKind::Normal, Denom::Sym)));
}

#[test]
fn seed_coins_are_read_at_the_wallets_height() {
    let state = open(some_key(), vec![]);
    assert_eq!(state.seed_query(id(7, 3)), (100, id(7, 3)));
}

#[test]
fn the_last_of_each_coin_is_kept() {
    let me = [3u8; 32];
    let kept = last_of_each(vec![
        (id(1, 0), coin(me, Denom::Mel, 1)),
        (id(2, 0), coin(me, Denom::Mel, 2)),
        (id(1, 0), coin(me, Denom::Mel, 3)),
        (id(1, 1), coin(me, Denom::Mel, 4)),
        (id(1, 0), coin(me, Denom::Mel, 5)),
    ]);
    assert_eq!(
        kept,
        vec![
            (id(1, 0), coin(me, Denom::Mel, 5)),
            (id(2, 0), coin(me, Denom::Mel, 2)),
            (id(1, 1), coin(me, Denom::Mel, 4)),
        ]
    );
}

#[test]
fn only_the_later_of_two_entries_decides() {
    let key = some_key();
    let me = key.address();
    let mine = coin(me, Denom::Mel, 5);
    let strange = coin([9u8; 32], Denom::Mel, 5);
    let listed = vec![(id(1, 0), strange.clone()), (id(1, 0), mine.clone())];
    assert!(MintState::open(key, NetID::Mainnet, 100, Some(listed)).is_ok());
    let listed = vec![(id(1, 0), mine), (id(1, 0), strange)];
    let opened = MintState::open(key, NetID::Mainnet, 100, Some(listed));
    assert_eq!(opened.err(), Some(OpenError::Refused(CoinsRefused::WrongAddress)));
}

#[test]
fn accepted_transactions_are_pending() {
    let key = some_key();
    let me = key.address();
    let mut state = open(key, vec![(id(1, 0), coin(me, Denom::Mel, 3_000_000))]);
    let tx = match state.prepare_tx(&pay_out([6u8; 32], 500), 10) {
        Ok(tx) => tx,
        Err(error) => panic!("{}", error),
    };
    let txhash = tx.hash_nosigs().0 .0;
    assert_eq!(state.wait_tx(txhash), Wait::Over);
    assert_eq!(state.send_raw(tx.clone(), false), None);
    assert_eq!(state.wait_tx(txhash), Wait::Over);
    assert_eq!(state.send_raw(tx, true), Some(txhash));
    assert_eq!(state.wait_tx(txhash), Wait::Again { secs: 1 });
    assert_eq!(state.balance(Denom::Mel), Some(3_000_000));
    // The only coin is locked.
    assert!(state.prepare_tx(&pay_out([6u8; 32], 500), 10).is_err());
}

#[test]
fn without_a_fee_multiplier_one_micro_mel_is_enough() {
    let key = some_key();
    let me = key.address();
    let state = open(key, vec![(id(1, 0), coin(me, Denom::Mel, 501))]);
    match state.prepare_tx(&pay_out([6u8; 32], 500), 0) {
        Ok(tx) => assert_eq!(tx.fee.0, 1),
        Err(error) => panic!("{}", error),
    }
    match state.prepare_tx(&pay_out([6u8; 32], 501), 0) {
        Ok(_) => panic!("nothing is left for the fee"),
        Err(error) => assert_eq!(error, "not enough money (more of MEL needed)"),
    }
}

#[test]
fn fees_are_at_most_twice_what_is_enough() {
    let key = some_key();
    let me = key.address();
    let state = open(key, vec![(id(1, 0), coin(me, Denom::Mel, u128::MAX / 4))]);
    for fee_multiplier in [1u128, 1_000, 65_536, 10_000_000, 1 << 60] {
        match state.prepare_tx(&pay_out([6u8; 32], 500), fee_multiplier) {
            Ok(tx) => {
                let enough =
                    tx.base_fee(fee_multiplier, 0, melvm::covenant_weight_from_bytes).0.max(1);
                assert!(enough <= tx.fee.0 && tx.fee.0 <= 2 * enough);
            }
            Err(error) => panic!("{}", error),
        }
    }
}

#[test]
fn the_lacking_denomination_is_named() {
    let key = some_key();
    let me = key.address();
    let token = Denom::Custom([0xa7u8; 32]);
    let state = open(
        key,
        vec![
            (id(1, 0), coin(me, Denom::Mel, 3_000_000)),
            (id(2, 0), coin(me, Denom::Erg, 50)),
            (id(3, 0), coin(me, Denom::Sym, 0)),
            (id(4, 0), coin(me, token, 1)),
        ],
    );
    let refusal = |denom: Denom| {
        let output = CoinData { covhash: me, value: 60, denom, additional_data: vec![] };
        let wanted = TxRequest {
            kind: TxKind::Normal,
            inputs: vec![],
            outputs: vec![output],
            data: vec![],
        };
        state.prepare_tx(&wanted, 10).err()
    };
    let text = |name: &str| Some(format!("not enough money (more of {} needed)", name));
    assert_eq!(refusal(Denom::Erg), text("ERG"));
    assert_eq!(refusal(Denom::Sym), text("SYM"));
    assert_eq!(refusal(token), text(&format!("CUSTOM-{}", "a7".repeat(32))));
    assert_eq!(refusal(Denom::Mel), None);
    assert_eq!(refusal(Denom::NewCustom), None);
    // Of a denomination without any coin, nothing is lacking.
    assert_eq!(refusal(Denom::Custom([1u8; 32])), None);
}

#[test]
fn locked_coins_do_not_count() {
    let key = some_key();
    let me = key.address();
    let mut state = open(key, vec![(id(1, 0), coin(me, Denom::Mel, 3_000_000))]);
    let tx = match state.prepare_tx(&pay_out([6u8; 32], 500), 0) {
        Ok(tx) => tx,
        Err(error) => panic!("{}", error),
    };
    state.send_raw(tx, true);
    let refused = state.prepare_tx(&pay_out([6u8; 32], 500), 0).err();
    assert_eq!(refused, Some("not enough money (more of MEL needed)".to_string()));
}

#[test]
fn every_input_is_signed() {
    let key = some_key();
    let me = key.address();
    let state = open(
        key,
        vec![(id(1, 0), coin(me, Denom::Mel, 400)), (id(2, 0), coin(me, Denom::Mel, 400))],
    );
    match state.prepare_tx(&pay_out([6u8; 32], 500), 0) {
        Ok(tx) => {
            let secret = Ed25519SK(key.bytes);
            let signed = secret.sign(&tx.hash_nosigs().0);
            assert_eq!(tx.inputs.len(), 2);
            assert_eq!(tx.sigs.len(), 2);
            assert!(tx.sigs.iter().all(|sig| sig.to_vec() == signed));
            assert!(secret.to_public().verify(&tx.hash_nosigs().0, &tx.sigs[0]));
        }
        Err(error) => panic!("{}", error),
    }
}

#[test]
fn the_first_coins_that_are_enough_are_picked() {
    let key = some_key();
    let me = key.address();
    let state = open(
        key,
        vec![
            (id(1, 0), coin(me, Denom::Erg, 50)),
            (id(2, 0), coin(me, Denom::Mel, 1)),
            (id(3, 0), coin(me, Denom::Erg, 50)),
            (id(4, 0), coin(me, Denom::Erg, 50)),
            (id(5, 0), coin(me, Denom::Mel, 1)),
            (id(6, 0), coin(me, Denom::Sym, 9)),
        ],
    );
    match state.prepare_tx(&state.convert_doscs(60), 0) {
        Ok(tx) => {
            // Mels for the fee first, then ergs, each in the order of the coins.
            let spent: Vec<u8> = tx.inputs.iter().map(|input| input.txhash.0 .0[0]).collect();
            assert_eq!(spent, vec![2, 1, 3]);
            assert_eq!(tx.outputs.len(), 2);
            assert_eq!(tx.outputs[1].denom, melstructs::Denom::Erg);
            assert_eq!(tx.outputs[1].value.0, 40);
            assert_eq!(tx.outputs[1].covhash.0 .0, me);
        }
        Err(error) => panic!("{}", error),
    }
}
