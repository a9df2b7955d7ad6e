//! What the minter's transactions are for, and what becomes of its state.

use melstructs::Transaction;
use melwallet::Wallet;
use vstd::prelude::*;

use crate::chain::{CoinDataHeightView, CoinID, Denom, NetID};
use crate::encoding::claim_bytes;
use crate::keys::{key_address, SecretKey};
use crate::state::{
    all_owned, claim_request, clean_request, denom_bytes, is_opened, nowhere, payout_request,
    recorded, seeds_request, swap_request, MintState,
};
use crate::tx::{is_answer, tx_data, tx_hash, tx_inputs, tx_kind, tx_outputs};
use crate::tx_laws::law_answers_are_what_was_asked_for;
use crate::wallet::{
    table, unlocked, wallet_address, wallet_coins, wallet_height, wallet_network, wallet_pending,
};
use crate::wallet_laws::{law_tables_have_what_is_listed, law_the_last_entry_stands};

verus! {

/// Every transaction that converts ergs is a swap: its first output is all of the ergs, to the
/// wallet's own address, and its data names the pool of mels and ergs. What is left over comes back
/// to the wallet, and no coin is spent that something pending spends.
pub proof fn law_conversions_swap_all_the_ergs(
    tx: Transaction,
    state: MintState,
    ergs: u128,
    fee_multiplier: u128,
)
    requires
        is_answer(
            tx,
            state.wallet,
            swap_request(wallet_address(state.wallet), ergs),
            state.key,
            fee_multiplier,
        ),
    ensures
        tx_kind(tx) == 81,
        tx_outputs(tx).len() >= 1,
        tx_outputs(tx)[0].denom == Denom::Erg,
        tx_outputs(tx)[0].value == ergs,
        tx_outputs(tx)[0].covhash == wallet_address(state.wallet),
        tx_outputs(tx)[0].additional_data.len() == 0,
        tx_data(tx) == seq![100u8],
        forall|i: int|
            1 <= i < tx_outputs(tx).len() ==> (#[trigger] tx_outputs(tx)[i]).covhash
                == wallet_address(state.wallet),
        forall|i: int|
            0 <= i < tx_inputs(tx).len() ==> unlocked(state.wallet, #[trigger] tx_inputs(tx)[i]),
        swap_request(wallet_address(state.wallet), ergs).ballast == 0,
{
    law_answers_are_what_was_asked_for(
        tx,
        state.wallet,
        swap_request(wallet_address(state.wallet), ergs),
        state.key,
        fee_multiplier,
    );
}

/// Every transaction that claims a reward is a minting one: it spends the seed coin first, its
/// first output is the ergs that are claimed, to the wallet's own address, and its data is the
/// difficulty and the proof.
pub proof fn law_claims_mint_the_ergs(
    tx: Transaction,
    state: MintState,
    seed: CoinID,
    seed_coin: CoinDataHeightView,
    difficulty: nat,
    proof: Seq<u8>,
    ergs: u128,
    fee_multiplier: u128,
)
    requires
        is_answer(
            tx,
            state.wallet,
            claim_request(
                wallet_address(state.wallet),
                seed,
                seed_coin,
                difficulty,
                proof,
                ergs,
            ),
            state.key,
            fee_multiplier,
        ),
    ensures
        tx_kind(tx) == 80,
        tx_inputs(tx).len() >= 1,
        tx_inputs(tx)[0] == seed,
        tx_outputs(tx).len() >= 1,
        tx_outputs(tx)[0].denom == Denom::Erg,
        tx_outputs(tx)[0].value == ergs,
        tx_outputs(tx)[0].covhash == wallet_address(state.wallet),
        tx_outputs(tx)[0].additional_data.len() == 0,
        tx_data(tx) == claim_bytes(difficulty, proof),
        forall|i: int|
            1 <= i < tx_outputs(tx).len() ==> (#[trigger] tx_outputs(tx)[i]).covhash
                == wallet_address(state.wallet),
        forall|i: int|
            1 <= i < tx_inputs(tx).len() ==> unlocked(state.wallet, #[trigger] tx_inputs(tx)[i]),
        claim_request(
            wallet_address(state.wallet),
            seed,
            seed_coin,
            difficulty,
            proof,
            ergs,
        ).inputs == seq![(seed, seed_coin)],
        claim_request(
            wallet_address(state.wallet),
            seed,
            seed_coin,
            difficulty,
            proof,
            ergs,
        ).ballast == 0,
{
    law_answers_are_what_was_asked_for(
        tx,
        state.wallet,
        claim_request(wallet_address(state.wallet), seed, seed_coin, difficulty, proof, ergs),
        state.key,
        fee_multiplier,
    );
}

/// Every transaction for seed coins makes one for each thread: coins of a new token, to the
/// wallet's own address, each of them worth one.
pub proof fn law_seedings_make_a_coin_for_each_thread(
    tx: Transaction,
    state: MintState,
    threads: nat,
    fee_multiplier: u128,
)
    requires
        is_answer(
            tx,
            state.wallet,
            seeds_request(wallet_address(state.wallet), threads),
            state.key,
            fee_multiplier,
        ),
    ensures
        tx_kind(tx) == 0,
        tx_data(tx).len() == 0,
        tx_outputs(tx).len() >= threads,
        forall|i: int|
            0 <= i < threads ==> {
                &&& (#[trigger] tx_outputs(tx)[i]).denom == Denom::NewCustom
                &&& tx_outputs(tx)[i].value == 1
                &&& tx_outputs(tx)[i].covhash == wallet_address(state.wallet)
                &&& tx_outputs(tx)[i].additional_data.len() == 0
            },
        forall|i: int|
            threads <= i < tx_outputs(tx).len() ==> (#[trigger] tx_outputs(tx)[i]).covhash
                == wallet_address(state.wallet),
        forall|i: int|
            0 <= i < tx_inputs(tx).len() ==> unlocked(state.wallet, #[trigger] tx_inputs(tx)[i]),
        seeds_request(wallet_address(state.wallet), threads).outputs.len() == threads,
        seeds_request(wallet_address(state.wallet), threads).ballast == 0,
{
    law_answers_are_what_was_asked_for(
        tx,
        state.wallet,
        seeds_request(wallet_address(state.wallet), threads),
        state.key,
        fee_multiplier,
    );
}

/// Every transaction that cleans up spends each of the given coins, and sends nothing, in ergs, to
/// the address of 32 zeros.
pub proof fn law_cleanings_spend_the_empty_coins(
    tx: Transaction,
    state: MintState,
    address: [u8; 32],
    empty: Seq<(CoinID, CoinDataHeightView)>,
    fee_multiplier: u128,
)
    requires
        address@ == nowhere(),
        is_answer(
            tx,
            state.wallet,
            clean_request(address, empty),
            state.key,
            fee_multiplier,
        ),
    ensures
        tx_kind(tx) == 0,
        tx_data(tx).len() == 0,
        tx_inputs(tx).len() >= empty.len(),
        forall|i: int| 0 <= i < empty.len() ==> (#[trigger] tx_inputs(tx)[i]) == empty[i].0,
        tx_outputs(tx).len() >= 1,
        tx_outputs(tx)[0].denom == Denom::Erg,
        tx_outputs(tx)[0].value == 0,
        forall|i: int| 0 <= i < 32 ==> tx_outputs(tx)[0].covhash[i] == 0,
        tx_outputs(tx)[0].additional_data.len() == 0,
        forall|i: int|
            1 <= i < tx_outputs(tx).len() ==> (#[trigger] tx_outputs(tx)[i]).covhash
                == wallet_address(state.wallet),
        forall|i: int|
            empty.len() <= i < tx_inputs(tx).len() ==> unlocked(
                state.wallet,
                #[trigger] tx_inputs(tx)[i],
            ),
        clean_request(address, empty).inputs == empty,
        clean_request(address, empty).ballast == 0,
{
    law_answers_are_what_was_asked_for(
        tx,
        state.wallet,
        clean_request(address, empty),
        state.key,
        fee_multiplier,
    );
    assert forall|i: int| 0 <= i < 32 implies address[i] == 0 by {
        assert(address@[i] == nowhere()[i]);
    }
}

/// Every transaction that pays out sends the whole amount, in mels, to the address that it is for.
pub proof fn law_payouts_reach_their_address(
    tx: Transaction,
    state: MintState,
    to: [u8; 32],
    value: u128,
    fee_multiplier: u128,
)
    requires
        is_answer(tx, state.wallet, payout_request(to, value), state.key, fee_multiplier),
    ensures
        tx_kind(tx) == 0,
        tx_data(tx).len() == 0,
        tx_outputs(tx).len() >= 1,
        tx_outputs(tx)[0].denom == Denom::Mel,
        tx_outputs(tx)[0].value == value,
        tx_outputs(tx)[0].covhash == to,
        tx_outputs(tx)[0].additional_data.len() == 0,
        forall|i: int|
            1 <= i < tx_outputs(tx).len() ==> (#[trigger] tx_outputs(tx)[i]).covhash
                == wallet_address(state.wallet),
        forall|i: int|
            0 <= i < tx_inputs(tx).len() ==> unlocked(state.wallet, #[trigger] tx_inputs(tx)[i]),
        payout_request(to, value).ballast == 0,
{
    law_answers_are_what_was_asked_for(
        tx,
        state.wallet,
        payout_request(to, value),
        state.key,
        fee_multiplier,
    );
}

/// No two denominations are written down in the same bytes, and each is in its own way: a letter
/// for the built-in ones, nothing for a new token, and 32 bytes for the others.
pub proof fn law_denominations_have_their_bytes(denom: Denom)
    ensures
        denom == Denom::Mel ==> denom_bytes(denom) == seq![109u8],
        denom == Denom::Sym ==> denom_bytes(denom) == seq![115u8],
        denom == Denom::Erg ==> denom_bytes(denom) == seq![100u8],
        denom == Denom::NewCustom ==> denom_bytes(denom).len() == 0,
        denom matches Denom::Custom(hash) ==> denom_bytes(denom).len() == 32 && forall|i: int|
            0 <= i < 32 ==> (#[trigger] denom_bytes(denom)[i]) == hash[i],
{
}

/// Taking note of a transaction makes it pending under its hash. Everything else that is pending
/// stays so, and coins, address, network, height and key are as before.
pub proof fn law_noted_transactions_are_pending(
    before: MintState,
    tx: Transaction,
    after: MintState,
    txhash: [u8; 32],
)
    requires
        recorded(before, tx, after),
    ensures
        wallet_pending(after.wallet).contains_key(tx_hash(tx)),
        wallet_pending(after.wallet)[tx_hash(tx)] == tx,
        txhash != tx_hash(tx) ==> (wallet_pending(after.wallet).contains_key(txhash)
            <==> wallet_pending(before.wallet).contains_key(txhash)),
        txhash != tx_hash(tx) && wallet_pending(before.wallet).contains_key(txhash)
            ==> wallet_pending(after.wallet)[txhash] == wallet_pending(before.wallet)[txhash],
        wallet_coins(after.wallet) == wallet_coins(before.wallet),
        wallet_address(after.wallet) == wallet_address(before.wallet),
        wallet_network(after.wallet) == wallet_network(before.wallet),
        wallet_height(after.wallet) == wallet_height(before.wallet),
        after.key == before.key,
{
}

/// A wallet that was just opened is the key's own, at the height and on the network that it was
/// opened for, with nothing pending. It has exactly the coins that were listed for it, each as last
/// listed.
pub proof fn law_opened_wallets_hold_the_listed_coins(
    wallet: Wallet,
    key: SecretKey,
    network: NetID,
    height: u64,
    coins: Seq<(CoinID, CoinDataHeightView)>,
    id: CoinID,
    last: int,
    txhash: [u8; 32],
)
    requires
        is_opened(wallet, key, network, height, coins),
        0 <= last < coins.len() ==> forall|j: int|
            last < j < coins.len() ==> (#[trigger] coins[j]).0 != coins[last].0,
    ensures
        wallet_address(wallet) == key_address(key),
        wallet_network(wallet) == network.spec_code(),
        wallet_height(wallet) == height,
        !wallet_pending(wallet).contains_key(txhash),
        table(wallet_coins(wallet)).contains_key(id) <==> exists|i: int|
            0 <= i < coins.len() && (#[trigger] coins[i]).0 == id,
        0 <= last < coins.len() ==> table(wallet_coins(wallet))[coins[last].0] == coins[last].1,
{
    law_tables_have_what_is_listed(coins, id);
    if 0 <= last < coins.len() {
        law_the_last_entry_stands(coins, last);
    }
}

/// A list is all owned if and only if each coin that is last listed for its identifier is of the
/// address.
pub proof fn law_owned_lists_have_only_own_coins(
    coins: Seq<(CoinID, CoinDataHeightView)>,
    address: [u8; 32],
    last: int,
)
    requires
        0 <= last < coins.len(),
        forall|j: int| last < j < coins.len() ==> (#[trigger] coins[j]).0 != coins[last].0,
    ensures
        all_owned(coins, address) ==> coins[last].1.coin_data.covhash == address,
        (forall|i: int|
            0 <= i < coins.len() ==> (#[trigger] coins[i]).1.coin_data.covhash == address)
            ==> all_owned(coins, address),
        all_owned(Seq::empty(), address),
{
    law_the_last_entry_stands(coins, last);
    if all_owned(coins, address) {
        assert(table(coins)[coins[last].0].coin_data.covhash == address);
    }
    if forall|i: int|
        0 <= i < coins.len() ==> (#[trigger] coins[i]).1.coin_data.covhash == address {
        lemma_owned(coins, address);
    }
}

proof fn lemma_owned(coins: Seq<(CoinID, CoinDataHeightView)>, address: [u8; 32])
    requires
        forall|i: int|
            0 <= i < coins.len() ==> (#[trigger] coins[i]).1.coin_data.covhash == address,
    ensures
        all_owned(coins, address),
    decreases coins.len(),
{
    if coins.len() > 0 {
        let shorter = coins.drop_last();
        assert forall|i: int| 0 <= i < shorter.len() implies (
        #[trigger] shorter[i]).1.coin_data.covhash == address by {
            assert(coins[i].1.coin_data.covhash == address);
        }
        lemma_owned(shorter, address);
        assert(coins[coins.len() - 1].1.coin_data.covhash == address);
        assert forall|id: CoinID| table(coins).contains_key(id) implies (#[trigger] table(
            coins,
        )[id]).coin_data.covhash == address by {
            if id != coins.last().0 {
                assert(table(shorter)[id].coin_data.covhash == address);
            }
        }
    }
}

} // verus!
