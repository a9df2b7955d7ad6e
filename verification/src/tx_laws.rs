//! What holds of the transactions that a wallet prepares, whatever is asked of it.

use melstructs::Transaction;
use melwallet::Wallet;
use vstd::prelude::*;

use crate::chain::{CoinDataHeightView, CoinDataView, CoinID, Denom, TxKind};
use crate::keys::SecretKey;
use crate::refusal::shortage;
use crate::tx::{
    free_coins, fulfils, funded, ids, in_range, is_answer, is_outcome, lacks, need, output_total,
    signature, standard_covenant, suffices, tx_covenants, tx_data, tx_fee, tx_hash, tx_inputs,
    tx_kind, tx_least_fee, tx_outputs, tx_sigs, usable, RequestView, TxRequest,
};
use crate::wallet::{denom_total, has_denom, unlocked, wallet_address, wallet_coins};
use crate::wallet_laws::law_totals_add_up;

verus! {

/// What outputs of a denomination are worth together adds up: nothing for no outputs, the output's
/// value for one of the denomination and nothing for one of another, and the sum for two lists.
pub proof fn law_outputs_add_up(
    a: Seq<CoinDataView>,
    b: Seq<CoinDataView>,
    output: CoinDataView,
    denom: Denom,
)
    ensures
        output_total(Seq::empty(), denom) == 0,
        output.denom == denom ==> output_total(seq![output], denom) == output.value,
        output.denom != denom ==> output_total(seq![output], denom) == 0,
        output_total(a + b, denom) == output_total(a, denom) + output_total(b, denom),
    decreases b.len(),
{
    reveal_with_fuel(output_total, 2);
    assert(seq![output].drop_last() =~= Seq::empty());
    if b.len() == 0 {
        assert(a + b =~= a);
    } else {
        law_outputs_add_up(a, b.drop_last(), output, denom);
        assert((a + b).drop_last() =~= a + b.drop_last());
    }
}

/// The inputs have to cover the outputs and, in mels, the fee. Only what the transaction itself
/// makes, a new token, or ergs where they are minted, is not taken from them.
pub proof fn law_inputs_cover_outputs_and_fee(wanted: RequestView, denom: Denom, fee: nat)
    ensures
        denom == Denom::NewCustom || (denom == Denom::Erg && wanted.kind == 80) ==> need(
            wanted,
            denom,
            fee,
        ) == 0,
        denom == Denom::Mel ==> need(wanted, denom, fee) == output_total(wanted.outputs, denom)
            + fee,
        denom == Denom::Erg && wanted.kind != 80 || denom == Denom::Sym || denom is Custom ==> need(
            wanted,
            denom,
            fee,
        ) == output_total(wanted.outputs, denom),
{
}

/// A request has the content of everything in it: the kind by its byte, each input and output at
/// its index, the data, and no ballast.
pub proof fn law_requests_hold_what_is_asked(wanted: TxRequest)
    ensures
        wanted.kind == TxKind::Normal ==> wanted@.kind == 0,
        wanted.kind == TxKind::DoscMint ==> wanted@.kind == 80,
        wanted.kind == TxKind::Swap ==> wanted@.kind == 81,
        wanted@.inputs.len() == wanted.inputs@.len(),
        forall|i: int|
            0 <= i < wanted.inputs@.len() ==> (#[trigger] wanted@.inputs[i]) == (
                wanted.inputs@[i].0,
                wanted.inputs@[i].1@,
            ),
        wanted@.outputs.len() == wanted.outputs@.len(),
        forall|i: int|
            0 <= i < wanted.outputs@.len() ==> (#[trigger] wanted@.outputs[i])
                == wanted.outputs@[i]@,
        wanted@.data == wanted.data@,
        wanted@.ballast == 0,
{
}

/// A transaction can be prepared if and only if the sums fit: the coins of each denomination into
/// 128 bits, the mels into ten elevenths of that, less a little, and the outputs with a fee of one
/// into 128 bits.
pub proof fn law_sums_have_to_fit(wallet: Wallet, wanted: RequestView)
    ensures
        in_range(wallet, wanted) <==> {
            let coins = wallet_coins(wallet) + wanted.inputs;
            &&& forall|denom: Denom| #[trigger] denom_total(coins, denom) <= u128::MAX
            &&& denom_total(coins, Denom::Mel) <= 309316671531133063288207518155477303799
            &&& forall|denom: Denom| #[trigger] need(wanted, denom, 1) <= u128::MAX
        },
{
}

/// Whatever a wallet prepares is what was asked for: the kind, the data, the inputs and the outputs
/// stand in it as they were asked for, and first. What it adds are its own unlocked coins, and
/// outputs to its own address.
pub proof fn law_answers_are_what_was_asked_for(
    tx: Transaction,
    wallet: Wallet,
    wanted: RequestView,
    key: SecretKey,
    fee_multiplier: u128,
)
    requires
        is_answer(tx, wallet, wanted, key, fee_multiplier),
    ensures
        tx_kind(tx) == wanted.kind,
        tx_data(tx) == wanted.data,
        tx_inputs(tx).len() >= wanted.inputs.len(),
        forall|i: int|
            0 <= i < wanted.inputs.len() ==> (#[trigger] tx_inputs(tx)[i]) == wanted.inputs[i].0,
        forall|i: int|
            wanted.inputs.len() <= i < tx_inputs(tx).len() ==> unlocked(
                wallet,
                #[trigger] tx_inputs(tx)[i],
            ) && exists|k: int|
                0 <= k < wallet_coins(wallet).len() && (#[trigger] wallet_coins(wallet)[k]).0
                    == tx_inputs(tx)[i],
        tx_outputs(tx).len() >= wanted.outputs.len(),
        forall|i: int|
            0 <= i < wanted.outputs.len() ==> (#[trigger] tx_outputs(tx)[i]) == wanted.outputs[i],
        forall|i: int|
            wanted.outputs.len() <= i < tx_outputs(tx).len() ==> (#[trigger] tx_outputs(
                tx,
            )[i]).covhash == wallet_address(wallet) && tx_outputs(tx)[i].value > 0,
{
    let picked = choose|picked: Seq<(CoinID, CoinDataHeightView)>|
        fulfils(tx, wallet, wanted, picked);
    let spent = wanted.inputs + picked;
    let change = tx_outputs(tx).skip(wanted.outputs.len() as int);
    assert forall|i: int| 0 <= i < wanted.inputs.len() implies (#[trigger] tx_inputs(tx)[i])
        == wanted.inputs[i].0 by {
        assert(ids(spent)[i] == spent[i].0);
    }
    assert forall|i: int| wanted.inputs.len() <= i < tx_inputs(tx).len() implies unlocked(
        wallet,
        #[trigger] tx_inputs(tx)[i],
    ) && exists|k: int|
        0 <= k < wallet_coins(wallet).len() && (#[trigger] wallet_coins(wallet)[k]).0 == tx_inputs(
            tx,
        )[i] by {
        let entry = picked[i - wanted.inputs.len()];
        assert(ids(spent)[i] == entry.0);
        assert(wallet_coins(wallet).contains(entry));
        let k = choose|k: int|
            0 <= k < wallet_coins(wallet).len() && wallet_coins(wallet)[k] == entry;
        assert(wallet_coins(wallet)[k].0 == tx_inputs(tx)[i]);
    }
    assert forall|i: int|
        wanted.outputs.len() <= i < tx_outputs(tx).len() implies (#[trigger] tx_outputs(
        tx,
    )[i]).covhash == wallet_address(wallet) && tx_outputs(tx)[i].value > 0 by {
        assert(change[i - wanted.outputs.len()] == tx_outputs(tx)[i]);
    }
    assert forall|i: int| 0 <= i < wanted.outputs.len() implies (#[trigger] tx_outputs(tx)[i])
        == wanted.outputs[i] by {
        assert(tx_outputs(tx).take(wanted.outputs.len() as int)[i] == tx_outputs(tx)[i]);
    }
}

/// Nothing is lost and nothing is made up. There are coins of the wallet so that, of each
/// denomination that the transaction spends, the inputs are worth as much as the outputs and, in
/// mels, the fee; but for what the transaction itself makes.
pub proof fn law_nothing_is_lost(
    tx: Transaction,
    wallet: Wallet,
    wanted: RequestView,
    key: SecretKey,
    fee_multiplier: u128,
)
    requires
        is_answer(tx, wallet, wanted, key, fee_multiplier),
    ensures
        exists|picked: Seq<(CoinID, CoinDataHeightView)>| #[trigger]
            balances(tx, wanted, picked),
{
    let picked = choose|picked: Seq<(CoinID, CoinDataHeightView)>|
        fulfils(tx, wallet, wanted, picked);
    let spent = wanted.inputs + picked;
    let change = tx_outputs(tx).skip(wanted.outputs.len() as int);
    assert(tx_outputs(tx) =~= wanted.outputs + change);
    assert(tx_inputs(tx).len() == wanted.inputs.len() + picked.len());
    assert forall|i: int| 0 <= i < picked.len() implies tx_inputs(tx)[wanted.inputs.len() + i] == (
    #[trigger] picked[i]).0 by {
        assert(ids(spent)[wanted.inputs.len() + i] == spent[wanted.inputs.len() + i].0);
    }
    assert forall|denom: Denom|
        denom != Denom::NewCustom && !(denom == Denom::Erg && tx_kind(tx) == 80) && has_denom(
            wanted.inputs + picked,
            denom,
        ) implies #[trigger] denom_total(wanted.inputs, denom) + denom_total(picked, denom)
        == output_total(tx_outputs(tx), denom) + (if denom == Denom::Mel {
        tx_fee(tx) as nat
    } else {
        0
    }) by {
        let (entry, output) = (arbitrary(), arbitrary());
        law_totals_add_up(wanted.inputs, picked, entry, denom);
        law_outputs_add_up(wanted.outputs, change, output, denom);
        assert(denom_total(spent, denom) == need(wanted, denom, tx_fee(tx) as nat) + output_total(
            change,
            denom,
        ));
    }
    assert(balances(tx, wanted, picked));
}

/// Whether a transaction that spends what was asked for and then `picked` balances: of each
/// denomination that it spends and does not make, inputs are worth outputs and fee.
pub open spec fn balances(
    tx: Transaction,
    wanted: RequestView,
    picked: Seq<(CoinID, CoinDataHeightView)>,
) -> bool {
    &&& tx_inputs(tx).len() == wanted.inputs.len() + picked.len()
    &&& forall|i: int|
        0 <= i < picked.len() ==> tx_inputs(tx)[wanted.inputs.len() + i] == (
        #[trigger] picked[i]).0
    &&& forall|denom: Denom|
        denom != Denom::NewCustom && !(denom == Denom::Erg && tx_kind(tx) == 80) && has_denom(
            wanted.inputs + picked,
            denom,
        ) ==> #[trigger] denom_total(wanted.inputs, denom) + denom_total(picked, denom)
            == output_total(tx_outputs(tx), denom) + (if denom == Denom::Mel {
            tx_fee(tx) as nat
        } else {
            0
        })
}

/// Every input is under the covenant of the public half of the key and signed with its secret half,
/// and what is signed is the hash of the transaction itself. The fee is at least the least fee.
pub proof fn law_answers_are_signed_and_paid_for(
    tx: Transaction,
    wallet: Wallet,
    wanted: RequestView,
    key: SecretKey,
    fee_multiplier: u128,
    secret: Seq<u8>,
    public_key: Seq<u8>,
)
    requires
        is_answer(tx, wallet, wanted, key, fee_multiplier),
        secret.len() == 32,
        forall|i: int| 0 <= i < 32 ==> secret[i] == key.bytes[i],
        public_key.len() == 32,
        forall|i: int| 0 <= i < 32 ==> public_key[i] == key.bytes[32 + i],
    ensures
        tx_covenants(tx).len() == tx_inputs(tx).len(),
        forall|i: int|
            0 <= i < tx_inputs(tx).len() ==> (#[trigger] tx_covenants(tx)[i]) == standard_covenant(
                public_key,
            ),
        tx_sigs(tx).len() == tx_inputs(tx).len(),
        forall|i: int|
            0 <= i < tx_inputs(tx).len() ==> (#[trigger] tx_sigs(tx)[i]) == signature(
                secret,
                tx_hash(tx)@,
            ),
        tx_fee(tx) >= tx_least_fee(tx, fee_multiplier, wanted.ballast),
        tx_fee(tx) >= 1,
{
    assert(key.bytes@.subrange(0, 32) =~= secret);
    assert(key.bytes@.subrange(32, 64) =~= public_key);
}

/// A wallet can pay for a request and a fee if and only if there is some mel among the coins that
/// it can use, and of each denomination that there is, enough.
pub proof fn law_funds_are_enough_of_each_denomination(
    wallet: Wallet,
    wanted: RequestView,
    fee: nat,
)
    ensures
        funded(wallet, wanted, fee) <==> {
            let coins = usable(wallet, wanted);
            &&& has_denom(coins, Denom::Mel)
            &&& forall|denom: Denom|
                has_denom(coins, denom) ==> #[trigger] denom_total(coins, denom) >= need(
                    wanted,
                    denom,
                    fee,
                )
        },
{
    let coins = usable(wallet, wanted);
    if funded(wallet, wanted, fee) {
        assert(!lacks(wallet, wanted, Denom::Mel, fee));
        assert forall|denom: Denom| has_denom(coins, denom) implies #[trigger] denom_total(
            coins,
            denom,
        ) >= need(wanted, denom, fee) by {
            assert(!lacks(wallet, wanted, denom, fee));
        }
    }
}

/// The coins that a wallet can use are those that are to be spent in any case, and then its own
/// that nothing pending spends.
pub proof fn law_usable_coins_are_asked_for_or_free(
    wallet: Wallet,
    wanted: RequestView,
    entry: (CoinID, CoinDataHeightView),
)
    ensures
        usable(wallet, wanted) == wanted.inputs + free_coins(wallet),
        free_coins(wallet).contains(entry) <==> wallet_coins(wallet).contains(entry) && unlocked(
            wallet,
            entry.0,
        ),
{
    let free = |entry: (CoinID, CoinDataHeightView)| unlocked(wallet, entry.0);
    let coins = wallet_coins(wallet);
    if free_coins(wallet).contains(entry) {
        coins.lemma_filter_contains_rev(free, entry);
        let i = choose|i: int| 0 <= i < coins.filter(free).len() && coins.filter(free)[i] == entry;
        coins.lemma_filter_pred(free, i);
    }
    if coins.contains(entry) && unlocked(wallet, entry.0) {
        let i = choose|i: int| 0 <= i < coins.len() && coins[i] == entry;
        coins.lemma_filter_contains(free, i);
    }
}

/// A request succeeds where some fee suffices, and at most twice that fee is paid; without a fee
/// multiplier it succeeds if and only if one micro-mel can be paid. Where it fails, what is said
/// names a denomination of which there is not enough.
pub proof fn law_success_is_owed(
    result: Result<Transaction, String>,
    wallet: Wallet,
    wanted: RequestView,
    key: SecretKey,
    fee_multiplier: u128,
    enough: nat,
)
    requires
        is_outcome(result, wallet, wanted, key, fee_multiplier),
    ensures
        suffices(wallet, wanted, key.bytes@.subrange(32, 64), fee_multiplier, enough) ==> (result
            matches Ok(tx) && tx_fee(tx) <= 2 * enough),
        fee_multiplier == 0 ==> (result is Ok <==> funded(wallet, wanted, 1)),
        fee_multiplier == 0 ==> (result matches Ok(tx) ==> tx_fee(tx) == 1),
        result matches Ok(tx) ==> is_answer(tx, wallet, wanted, key, fee_multiplier) && funded(
            wallet,
            wanted,
            tx_fee(tx) as nat,
        ),
        result matches Err(why) ==> exists|denom: Denom, fee: nat|
            why@ == #[trigger] shortage(denom) && #[trigger] lacks(wallet, wanted, denom, fee),
{
}

} // verus!
