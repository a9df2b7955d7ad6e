//! Transactions: what is asked of the wallet, and what it prepares.

use melstructs::{
    Address, BlockHeight, CoinData as MelCoinData, CoinDataHeight as MelCoinDataHeight,
    CoinID as MelCoinID, CoinValue, Denom as MelDenom, Transaction, TxHash, TxKind as MelTxKind,
};
use melwallet::{PrepareTxArgs, StdEd25519Signer, Wallet};
use tmelcrypt::{Ed25519SK, HashVal};
use vstd::prelude::*;

use crate::chain::{
    CoinData, CoinDataHeight, CoinDataHeightView, CoinDataView, CoinID, Denom, TxKind,
};
use crate::keys::SecretKey;
use crate::refusal::shortage;
use crate::wallet::{
    all_totals_within, coins_of, denom_total, entries, has_denom, hash_before, total_within,
    totals_within, unlocked, wallet_address, wallet_coins, wallet_height, wallet_network,
    wallet_pending,
};

verus! {

/// `melwallet::PrepareTxArgs`: constraints on a transaction that is to be prepared.
#[verifier::external_type_specification]
#[verifier::external_body]
pub struct ExPrepareTxArgs(melwallet::PrepareTxArgs);

/// `melstructs::Transaction`: a transaction of the chain.
#[verifier::external_type_specification]
#[verifier::external_body]
pub struct ExTransaction(melstructs::Transaction);

/// The kind that is asked for, as the byte that stands for it.
pub uninterp spec fn args_kind(args: PrepareTxArgs) -> u8;

/// The coins that are to be spent in any case.
pub uninterp spec fn args_inputs(args: PrepareTxArgs) -> Seq<(CoinID, CoinDataHeightView)>;

/// The outputs that are asked for.
pub uninterp spec fn args_outputs(args: PrepareTxArgs) -> Seq<CoinDataView>;

/// The data that is asked for.
pub uninterp spec fn args_data(args: PrepareTxArgs) -> Seq<u8>;

/// How many bytes to count on top when the fee is reckoned.
pub uninterp spec fn args_ballast(args: PrepareTxArgs) -> usize;

/// A transaction's kind, as the byte that stands for it.
pub uninterp spec fn tx_kind(tx: Transaction) -> u8;

/// The coins that a transaction spends.
pub uninterp spec fn tx_inputs(tx: Transaction) -> Seq<CoinID>;

/// The outputs that a transaction makes.
pub uninterp spec fn tx_outputs(tx: Transaction) -> Seq<CoinDataView>;

/// The fee that a transaction pays, in micro-mels.
pub uninterp spec fn tx_fee(tx: Transaction) -> u128;

/// A transaction's data.
pub uninterp spec fn tx_data(tx: Transaction) -> Seq<u8>;

/// The covenants that a transaction shows for the coins it spends.
pub uninterp spec fn tx_covenants(tx: Transaction) -> Seq<Seq<u8>>;

/// The signatures that a transaction carries.
pub uninterp spec fn tx_sigs(tx: Transaction) -> Seq<Seq<u8>>;

/// What `tmelcrypt::Ed25519SK::sign` makes of a message with a secret.
pub uninterp spec fn signature(secret: Seq<u8>, message: Seq<u8>) -> Seq<u8>;

/// What `melstructs::Transaction::hash_nosigs` makes of a transaction: a hash over everything in it
/// but the signatures.
pub uninterp spec fn nosigs_hash(
    kind: u8,
    inputs: Seq<CoinID>,
    outputs: Seq<CoinDataView>,
    fee: u128,
    covenants: Seq<Seq<u8>>,
    data: Seq<u8>,
) -> [u8; 32];

/// What `melstructs::Transaction::base_fee` asks of a transaction that has one signature of 64
/// bytes for each input, at a fee multiplier and with a ballast.
pub uninterp spec fn least_fee(
    kind: u8,
    inputs: Seq<CoinID>,
    outputs: Seq<CoinDataView>,
    fee: u128,
    covenants: Seq<Seq<u8>>,
    data: Seq<u8>,
    fee_multiplier: u128,
    ballast: usize,
) -> u128;

/// The bytes of `melvm::Covenant::std_ed25519_pk_new`, the covenant that coins of a public key are
/// locked with.
pub uninterp spec fn standard_covenant(public_key: Seq<u8>) -> Seq<u8>;

/// The hash by which a transaction is known.
pub open spec fn tx_hash(tx: Transaction) -> [u8; 32] {
    nosigs_hash(
        tx_kind(tx),
        tx_inputs(tx),
        tx_outputs(tx),
        tx_fee(tx),
        tx_covenants(tx),
        tx_data(tx),
    )
}

/// The least fee that a transaction must pay.
pub open spec fn tx_least_fee(tx: Transaction, fee_multiplier: u128, ballast: usize) -> u128 {
    least_fee(
        tx_kind(tx),
        tx_inputs(tx),
        tx_outputs(tx),
        tx_fee(tx),
        tx_covenants(tx),
        tx_data(tx),
        fee_multiplier,
        ballast,
    )
}

/// What is asked of the wallet.
#[verifier::ext_equal]
pub struct RequestView {
    pub kind: u8,
    pub inputs: Seq<(CoinID, CoinDataHeightView)>,
    pub outputs: Seq<CoinDataView>,
    pub data: Seq<u8>,
    pub ballast: usize,
}

/// What a value of `melwallet::PrepareTxArgs` asks for.
pub open spec fn request(args: PrepareTxArgs) -> RequestView {
    RequestView {
        kind: args_kind(args),
        inputs: args_inputs(args),
        outputs: args_outputs(args),
        data: args_data(args),
        ballast: args_ballast(args),
    }
}

/// The identifiers of a list of coins.
pub open spec fn ids<V>(coins: Seq<(CoinID, V)>) -> Seq<CoinID> {
    coins.map_values(|entry: (CoinID, V)| entry.0)
}

/// The sum of the values of the outputs of one denomination.
pub open spec fn output_total(outputs: Seq<CoinDataView>, denom: Denom) -> nat
    decreases outputs.len(),
{
    if outputs.len() == 0 {
        0
    } else {
        let rest = output_total(outputs.drop_last(), denom);
        if outputs.last().denom == denom {
            rest + outputs.last().value as nat
        } else {
            rest
        }
    }
}

/// What the requested outputs of one denomination take from the inputs. A token that the
/// transaction creates takes nothing, and neither do ergs where they are minted.
pub open spec fn output_need(wanted: RequestView, denom: Denom) -> nat {
    if denom == Denom::NewCustom || (wanted.kind == TxKind::DoscMint.spec_code() && denom
        == Denom::Erg) {
        0
    } else {
        output_total(wanted.outputs, denom)
    }
}

/// The most that the mels may be worth together where a transaction is to be prepared: ten
/// elevenths of what 128 bits hold, less one part in ten thousand for rounding. A fee is tried that
/// may exceed what there is by a tenth.
pub const MEL_LIMIT: u128 = 0xe8b4_3958_1062_4dd2_f1a9_fbe7_6c8b_41f7;

/// Whether a transaction can be prepared without a sum that exceeds 128 bits.
pub open spec fn in_range(wallet: Wallet, wanted: RequestView) -> bool {
    let coins = wallet_coins(wallet) + wanted.inputs;
    &&& totals_within(coins, u128::MAX as nat)
    &&& denom_total(coins, Denom::Mel) <= MEL_LIMIT
    &&& forall|denom: Denom| #[trigger] need(wanted, denom, 1) <= u128::MAX
}

/// The order of denominations: mels, syms, ergs, the token that the transaction creates, then the
/// other tokens by their hashes.
pub open spec fn denom_before(a: Denom, b: Denom) -> bool {
    let rank = |denom: Denom|
        match denom {
            Denom::Mel => 0int,
            Denom::Sym => 1,
            Denom::Erg => 2,
            Denom::NewCustom => 3,
            Denom::Custom(_) => 4,
        };
    match (a, b) {
        (Denom::Custom(x), Denom::Custom(y)) => hash_before(x, y),
        _ => rank(a) < rank(b),
    }
}

/// The coins of one denomination among a list, in its order.
pub open spec fn of_denom(coins: Seq<(CoinID, CoinDataHeightView)>, denom: Denom) -> Seq<
    (CoinID, CoinDataHeightView),
> {
    coins.filter(|entry: (CoinID, CoinDataHeightView)| entry.1.coin_data.denom == denom)
}

/// The coins of a wallet that no pending transaction spends.
pub open spec fn free_coins(wallet: Wallet) -> Seq<(CoinID, CoinDataHeightView)> {
    wallet_coins(wallet).filter(
        |entry: (CoinID, CoinDataHeightView)| unlocked(wallet, entry.0),
    )
}

/// What a transaction takes from its inputs of one denomination.
pub open spec fn need(wanted: RequestView, denom: Denom, fee: nat) -> nat {
    output_need(wanted, denom) + (if denom == Denom::Mel {
        fee
    } else {
        0
    })
}

/// Whether `picked` are the coins that a wallet adds to those that are to be spent in any case:
/// denomination by denomination, its first free ones, and no more of them than it takes.
pub open spec fn is_pick(
    picked: Seq<(CoinID, CoinDataHeightView)>,
    wallet: Wallet,
    wanted: RequestView,
    fee: nat,
) -> bool {
    &&& forall|i: int, j: int|
        0 <= i < j < picked.len() ==> !denom_before(
            (#[trigger] picked[j]).1.coin_data.denom,
            (#[trigger] picked[i]).1.coin_data.denom,
        )
    &&& forall|denom: Denom|
        {
            let given = denom_total(wanted.inputs, denom);
            let coins = #[trigger] of_denom(picked, denom);
            let free = of_denom(free_coins(wallet), denom);
            &&& coins.is_prefix_of(free)
            &&& coins == free || given + denom_total(coins, denom) >= need(wanted, denom, fee)
            &&& coins.len() > 0 ==> given + denom_total(coins.drop_last(), denom) < need(
                wanted,
                denom,
                fee,
            )
        }
}

/// Whether a transaction is what was asked of a wallet, with `picked` the coins that the wallet
/// spends on it by its own choice.
pub open spec fn fulfils(
    tx: Transaction,
    wallet: Wallet,
    wanted: RequestView,
    picked: Seq<(CoinID, CoinDataHeightView)>,
) -> bool {
    let spent = wanted.inputs + picked;
    let change = tx_outputs(tx).skip(wanted.outputs.len() as int);
    // Nothing is changed of what was asked for.
    &&& tx_kind(tx) == wanted.kind
    &&& tx_data(tx) == wanted.data
    &&& tx_inputs(tx) == ids(spent)
    &&& wanted.outputs.is_prefix_of(
        tx_outputs(tx),
    )
    // The wallet spends its own coins, each once, and none that is spent already.
    &&& ids(picked).no_duplicates()
    &&& is_pick(picked, wallet, wanted, tx_fee(tx) as nat)
    &&& forall|i: int|
        0 <= i < picked.len() ==> wallet_coins(wallet).contains(#[trigger] picked[i]) && unlocked(
            wallet,
            picked[i].0,
        )
        // What is left over comes back to the wallet, in one output for each denomination.
    &&& forall|i: int|
        0 <= i < change.len() ==> {
            &&& (#[trigger] change[i]).covhash == wallet_address(wallet)
            &&& has_denom(spent, change[i].denom)
            &&& change[i].value > 0
            &&& change[i].additional_data == Seq::<u8>::empty()
        }
    &&& forall|i: int, j: int|
        0 <= i < j < change.len() ==> denom_before(
            (#[trigger] change[i]).denom,
            (#[trigger] change[j]).denom,
        )
        // Nothing that goes in is lost.
    &&& has_denom(spent, Denom::Mel)
    &&& forall|denom: Denom|
        has_denom(spent, denom) ==> #[trigger] denom_total(spent, denom) == need(
            wanted,
            denom,
            tx_fee(tx) as nat,
        ) + output_total(change, denom)
}

/// The coins that a wallet can spend on what is asked of it: those that are to be spent in any
/// case, and its own that no pending transaction spends.
pub open spec fn usable(wallet: Wallet, wanted: RequestView) -> Seq<(CoinID, CoinDataHeightView)> {
    wanted.inputs + free_coins(wallet)
}

/// Whether the coins of one denomination do not cover the outputs of it and, in mels, a fee. Mels
/// are needed in any case; another denomination counts as lacking only where there is some of it.
pub open spec fn lacks(wallet: Wallet, wanted: RequestView, denom: Denom, fee: nat) -> bool {
    let coins = usable(wallet, wanted);
    if has_denom(coins, denom) {
        denom_total(coins, denom) < need(wanted, denom, fee)
    } else {
        denom == Denom::Mel
    }
}

/// Whether a wallet can pay for what is asked of it and for a fee.
pub open spec fn funded(wallet: Wallet, wanted: RequestView, fee: nat) -> bool {
    forall|denom: Denom| !#[trigger] lacks(wallet, wanted, denom, fee)
}

/// Whether a transaction shows, for each of its inputs, the covenant of a public key.
pub open spec fn under_covenant(tx: Transaction, public_key: Seq<u8>) -> bool {
    tx_covenants(tx) == Seq::new(tx_inputs(tx).len(), |i: int| standard_covenant(public_key))
}

/// Whether a transaction carries, for each of its inputs, a signature with a secret on its hash.
pub open spec fn signed_with(tx: Transaction, secret: Seq<u8>) -> bool {
    tx_sigs(tx) == Seq::new(tx_inputs(tx).len(), |i: int| signature(secret, tx_hash(tx)@))
}

/// Whether a transaction is one that a wallet might prepare, apart from its fee.
pub open spec fn is_candidate(
    tx: Transaction,
    wallet: Wallet,
    wanted: RequestView,
    public_key: Seq<u8>,
) -> bool {
    &&& under_covenant(tx, public_key)
    &&& exists|picked: Seq<(CoinID, CoinDataHeightView)>| fulfils(tx, wallet, wanted, picked)
}

/// Whether a fee of `enough` is enough for every transaction that a wallet might prepare, and the
/// wallet can pay twice that fee. Each fee that is tried is at most twice the one before it.
pub open spec fn suffices(
    wallet: Wallet,
    wanted: RequestView,
    public_key: Seq<u8>,
    fee_multiplier: u128,
    enough: nat,
) -> bool {
    &&& enough >= 1
    &&& funded(wallet, wanted, 2 * enough)
    &&& forall|tx: Transaction| #[trigger]
        is_candidate(tx, wallet, wanted, public_key) && tx_fee(tx) <= 2 * enough ==> tx_least_fee(
            tx,
            fee_multiplier,
            wanted.ballast,
        ) <= enough
}

/// Whether `why` names a denomination that is lacking at some fee.
pub open spec fn is_refusal(why: Seq<char>, wallet: Wallet, wanted: RequestView) -> bool {
    exists|denom: Denom, fee: nat| #[trigger]
        lacks(wallet, wanted, denom, fee) && why == shortage(denom)
}

/// Makes a `melwallet::PrepareTxArgs` of a kind and with data. Everything else is as in
/// `melwallet::PrepareTxArgs::default`: no inputs, no outputs, no covenants and no ballast.
#[verifier::external_body]
fn new_args(kind: TxKind, data: Vec<u8>) -> (args: PrepareTxArgs)
    ensures
        args_kind(args) == kind.spec_code(),
        args_inputs(args) == Seq::<(CoinID, CoinDataHeightView)>::empty(),
        args_outputs(args) == Seq::<CoinDataView>::empty(),
        args_data(args) == data@,
        args_ballast(args) == 0,
{
    let kind = match kind {
        TxKind::Normal => MelTxKind::Normal,
        TxKind::DoscMint => MelTxKind::DoscMint,
        TxKind::Swap => MelTxKind::Swap,
    };
    PrepareTxArgs { kind, data: data.into(), ..PrepareTxArgs::default() }
}

/// Adds to `melwallet::PrepareTxArgs::inputs`.
#[verifier::external_body]
fn push_input(args: &mut PrepareTxArgs, id: CoinID, coin: CoinDataHeight)
    ensures
        request(*final(args)) == (RequestView {
            inputs: args_inputs(*old(args)).push((id, coin@)),
            ..request(*old(args))
        }),
{
    let CoinDataHeight { coin_data, height } = coin;
    let CoinData { covhash, value, denom, additional_data } = coin_data;
    let denom = match denom {
        Denom::Mel => MelDenom::Mel,
        Denom::Sym => MelDenom::Sym,
        Denom::Erg => MelDenom::Erg,
        Denom::NewCustom => MelDenom::NewCustom,
        Denom::Custom(hash) => MelDenom::Custom(TxHash(HashVal(hash))),
    };
    let (covhash, value) = (Address(HashVal(covhash)), CoinValue(value));
    let coin_data = MelCoinData { covhash, value, denom, additional_data: additional_data.into() };
    let id = MelCoinID::new(TxHash(HashVal(id.txhash)), id.index);
    args.inputs.push((id, MelCoinDataHeight { coin_data, height: BlockHeight(height) }));
}

/// Adds to `melwallet::PrepareTxArgs::outputs`.
#[verifier::external_body]
fn push_output(args: &mut PrepareTxArgs, coin: CoinData)
    ensures
        request(*final(args)) == (RequestView {
            outputs: args_outputs(*old(args)).push(coin@),
            ..request(*old(args))
        }),
{
    let CoinData { covhash, value, denom, additional_data } = coin;
    let denom = match denom {
        Denom::Mel => MelDenom::Mel,
        Denom::Sym => MelDenom::Sym,
        Denom::Erg => MelDenom::Erg,
        Denom::NewCustom => MelDenom::NewCustom,
        Denom::Custom(hash) => MelDenom::Custom(TxHash(HashVal(hash))),
    };
    let (covhash, value) = (Address(HashVal(covhash)), CoinValue(value));
    let additional_data = additional_data.into();
    args.outputs.push(MelCoinData { covhash, value, denom, additional_data });
}

/// Calls `melwallet::Wallet::prepare_tx` with a `melwallet::StdEd25519Signer` of the secret key.
///
/// What comes back is what was asked for, balanced with coins of the wallet and with change, under
/// the key's own covenant, and pays at least the least fee.
///
/// It tries fees from one micro-mel on, each a tenth higher than the one before, and gives up where
/// the coins do not cover the outputs and the fee. Then it names the denomination that is lacking.
/// So it succeeds where some fee is enough for whatever it might prepare and the coins cover twice
/// that fee, and it then pays no more than that. At a fee multiplier of zero every fee is enough,
/// and the first one is taken.
///
/// Which of the fees between enough and twice that it pays is left unsaid: it reckons the fees in
/// floating point. At a given fee everything is fixed, the signatures included: each input is
/// signed with the secret, and what is signed is the transaction's hash.
#[verifier::external_body]
pub(crate) fn prepare_tx(
    wallet: &Wallet,
    args: PrepareTxArgs,
    secret_key: [u8; 64],
    fee_multiplier: u128,
) -> (result: Result<Transaction, String>)
    requires
        in_range(*wallet, request(args)),
    ensures
        result matches Ok(tx) ==> exists|picked: Seq<(CoinID, CoinDataHeightView)>|
            fulfils(tx, *wallet, request(args), picked),
        result matches Ok(tx) ==> tx_fee(tx) >= least_fee(
            tx_kind(tx),
            tx_inputs(tx),
            tx_outputs(tx),
            tx_fee(tx),
            tx_covenants(tx),
            tx_data(tx),
            fee_multiplier,
            args_ballast(args),
        ),
        result matches Ok(tx) ==> tx_covenants(tx) == Seq::new(
            tx_inputs(tx).len(),
            |i: int| standard_covenant(secret_key@.subrange(32, 64)),
        ),
        result matches Ok(tx) ==> tx_sigs(tx) == Seq::new(
            tx_inputs(tx).len(),
            |i: int| signature(secret_key@.subrange(0, 32), tx_hash(tx)@),
        ),
        result matches Ok(tx) ==> tx_fee(tx) >= 1 && funded(
            *wallet,
            request(args),
            tx_fee(tx) as nat,
        ),
        result matches Err(why) ==> is_refusal(why@, *wallet, request(args)),
        result is Err ==> forall|enough: nat|
            !#[trigger] suffices(
                *wallet,
                request(args),
                secret_key@.subrange(32, 64),
                fee_multiplier,
                enough,
            ),
        result matches Ok(tx) ==> forall|enough: nat| #[trigger]
            suffices(
                *wallet,
                request(args),
                secret_key@.subrange(32, 64),
                fee_multiplier,
                enough,
            ) ==> tx_fee(tx) <= 2 * enough,
        fee_multiplier == 0 ==> result is Ok == funded(*wallet, request(args), 1),
        fee_multiplier == 0 ==> (result matches Ok(tx) ==> tx_fee(tx) == 1),
{
    let signer = StdEd25519Signer(Ed25519SK(secret_key));
    wallet.prepare_tx(args, &signer, fee_multiplier).map_err(|refused| refused.to_string())
}

/// Calls `melstructs::Transaction::hash_nosigs`.
#[verifier::external_body]
pub(crate) fn hash_of(tx: &Transaction) -> (txhash: [u8; 32])
    ensures
        txhash == nosigs_hash(
            tx_kind(*tx),
            tx_inputs(*tx),
            tx_outputs(*tx),
            tx_fee(*tx),
            tx_covenants(*tx),
            tx_data(*tx),
        ),
{
    tx.hash_nosigs().0.0
}

/// Calls `melwallet::Wallet::add_pending`: from now on the transaction is pending, and its coins
/// are locked.
#[verifier::external_body]
pub(crate) fn add_pending(wallet: &mut Wallet, tx: Transaction)
    ensures
        wallet_pending(*final(wallet)) == wallet_pending(*old(wallet)).insert(tx_hash(tx), tx),
        wallet_coins(*final(wallet)) == wallet_coins(*old(wallet)),
        wallet_address(*final(wallet)) == wallet_address(*old(wallet)),
        wallet_network(*final(wallet)) == wallet_network(*old(wallet)),
        wallet_height(*final(wallet)) == wallet_height(*old(wallet)),
{
    wallet.add_pending(tx)
}

/// What is asked of the wallet: a transaction of a kind and with data, that spends the inputs and
/// makes the outputs.
#[derive(Debug)]
pub struct TxRequest {
    pub kind: TxKind,
    pub inputs: Vec<(CoinID, CoinDataHeight)>,
    pub outputs: Vec<CoinData>,
    pub data: Vec<u8>,
}

/// The outputs of a list, by content.
pub open spec fn contents(outputs: Seq<CoinData>) -> Seq<CoinDataView> {
    outputs.map_values(|output: CoinData| output@)
}

impl View for TxRequest {
    type V = RequestView;

    open spec fn view(&self) -> RequestView {
        RequestView {
            kind: self.kind.spec_code(),
            inputs: entries(self.inputs@),
            outputs: contents(self.outputs@),
            data: self.data@,
            ballast: 0,
        }
    }
}

/// Hands a request to `melwallet`.
fn to_args(wanted: &TxRequest) -> (args: PrepareTxArgs)
    ensures
        request(args) == wanted@,
{
    let data = wanted.data.clone();
    assert(data@ =~= wanted.data@);
    let mut args = new_args(wanted.kind, data);
    let mut i: usize = 0;
    assert(args_inputs(args) =~= wanted@.inputs.take(0));
    while i < wanted.inputs.len()
        invariant
            i <= wanted.inputs.len(),
            request(args) == (RequestView {
                inputs: wanted@.inputs.take(i as int),
                outputs: Seq::empty(),
                ..wanted@
            }),
        decreases wanted.inputs.len() - i,
    {
        push_input(&mut args, wanted.inputs[i].0, wanted.inputs[i].1.clone());
        assert(wanted@.inputs.take(i as int).push(wanted@.inputs[i as int])
            =~= wanted@.inputs.take(i + 1));
        i = i + 1;
    }
    let mut k: usize = 0;
    assert(wanted@.inputs.take(i as int) =~= wanted@.inputs);
    assert(args_outputs(args) =~= wanted@.outputs.take(0));
    while k < wanted.outputs.len()
        invariant
            k <= wanted.outputs.len(),
            request(args) == (RequestView { outputs: wanted@.outputs.take(k as int), ..wanted@ }),
        decreases wanted.outputs.len() - k,
    {
        push_output(&mut args, wanted.outputs[k].clone());
        assert(wanted@.outputs.take(k as int).push(wanted@.outputs[k as int])
            =~= wanted@.outputs.take(k + 1));
        k = k + 1;
    }
    assert(wanted@.outputs.take(k as int) =~= wanted@.outputs);
    args
}

proof fn lemma_output_step(outputs: Seq<CoinDataView>, i: int, denom: Denom)
    requires
        0 <= i < outputs.len(),
    ensures
        output_total(outputs.take(i + 1), denom) == output_total(outputs.take(i), denom) + (
        if outputs[i].denom == denom {
            outputs[i].value as nat
        } else {
            0
        }),
{
    assert(outputs.take(i + 1).drop_last() =~= outputs.take(i));
}

proof fn lemma_output_monotonic(outputs: Seq<CoinDataView>, i: int, denom: Denom)
    requires
        0 <= i <= outputs.len(),
    ensures
        output_total(outputs.take(i), denom) <= output_total(outputs, denom),
    decreases outputs.len() - i,
{
    if i < outputs.len() {
        lemma_output_step(outputs, i, denom);
        lemma_output_monotonic(outputs, i + 1, denom);
    } else {
        assert(outputs.take(i) =~= outputs);
    }
}

proof fn lemma_absent_output(outputs: Seq<CoinDataView>, denom: Denom)
    requires
        forall|i: int| 0 <= i < outputs.len() ==> (#[trigger] outputs[i]).denom != denom,
    ensures
        output_total(outputs, denom) == 0,
    decreases outputs.len(),
{
    if outputs.len() > 0 {
        assert(outputs[outputs.len() - 1].denom != denom);
        assert forall|i: int| 0 <= i < outputs.drop_last().len() implies (
        #[trigger] outputs.drop_last()[i]).denom != denom by {
            assert(outputs.drop_last()[i] == outputs[i]);
        }
        lemma_absent_output(outputs.drop_last(), denom);
    }
}

/// Whether the outputs of one denomination are together worth no more than `limit`.
fn output_within(outputs: &Vec<CoinData>, denom: Denom, limit: u128) -> (within: bool)
    ensures
        within == (output_total(contents(outputs@), denom) <= limit),
{
    let ghost all = contents(outputs@);
    let mut total: u128 = 0;
    let mut i: usize = 0;
    while i < outputs.len()
        invariant
            i <= outputs.len(),
            all == contents(outputs@),
            total == output_total(all.take(i as int), denom),
            total <= limit,
        decreases outputs.len() - i,
    {
        proof {
            assert(all[i as int] == outputs[i as int]@);
            lemma_output_step(all, i as int, denom);
            lemma_output_monotonic(all, i + 1, denom);
        }
        if outputs[i].denom.same(&denom) {
            if outputs[i].value > limit - total {
                return false;
            }
            total = total + outputs[i].value;
        }
        i = i + 1;
    }
    assert(all.take(i as int) =~= all);
    true
}

/// Whether what is taken from the inputs of each denomination, with a fee of one micro-mel, fits
/// into 128 bits.
fn needs_fit(wanted: &TxRequest) -> (fit: bool)
    ensures
        fit == (forall|denom: Denom| #[trigger] need(wanted@, denom, 1) <= u128::MAX),
{
    let ghost all = wanted@.outputs;
    let minting = match wanted.kind {
        TxKind::DoscMint => true,
        _ => false,
    };
    let mut i: usize = 0;
    while i < wanted.outputs.len()
        invariant
            i <= wanted.outputs.len(),
            all == contents(wanted.outputs@),
            all == wanted@.outputs,
            minting == (wanted@.kind == TxKind::DoscMint.spec_code()),
            forall|j: int| 0 <= j < i ==> need(wanted@, (#[trigger] all[j]).denom, 1) <= u128::MAX,
        decreases wanted.outputs.len() - i,
    {
        assert(all[i as int] == wanted.outputs[i as int]@);
        let denom: Denom = wanted.outputs[i].denom;
        let made = denom.same(&Denom::NewCustom) || (minting && denom.same(&Denom::Erg));
        let limit: u128 = if denom.same(&Denom::Mel) {
            u128::MAX - 1
        } else {
            u128::MAX
        };
        if !made && !output_within(&wanted.outputs, denom, limit) {
            assert(need(wanted@, denom, 1) > u128::MAX);
            return false;
        }
        i = i + 1;
    }
    assert forall|denom: Denom| #[trigger] need(wanted@, denom, 1) <= u128::MAX by {
        if exists|j: int| 0 <= j < all.len() && (#[trigger] all[j]).denom == denom {
            let j = choose|j: int| 0 <= j < all.len() && (#[trigger] all[j]).denom == denom;
            assert(need(wanted@, all[j].denom, 1) <= u128::MAX);
        } else {
            lemma_absent_output(all, denom);
        }
    }
    true
}

/// Whether a wallet can prepare what is asked for without a sum that exceeds 128 bits.
pub fn can_prepare(wallet: &Wallet, wanted: &TxRequest) -> (can: bool)
    ensures
        can == in_range(*wallet, wanted@),
{
    let mut coins = coins_of(wallet);
    let mut i: usize = 0;
    assert(entries(coins@) =~= wallet_coins(*wallet) + wanted@.inputs.take(0));
    while i < wanted.inputs.len()
        invariant
            i <= wanted.inputs.len(),
            entries(coins@) == wallet_coins(*wallet) + wanted@.inputs.take(i as int),
        decreases wanted.inputs.len() - i,
    {
        let ghost before = coins@;
        coins.push((wanted.inputs[i].0, wanted.inputs[i].1.clone()));
        assert(entries(coins@) =~= entries(before).push(wanted@.inputs[i as int]));
        assert(wanted@.inputs.take(i + 1) =~= wanted@.inputs.take(i as int).push(
            wanted@.inputs[i as int],
        ));
        assert(entries(coins@) =~= wallet_coins(*wallet) + wanted@.inputs.take(i + 1));
        i = i + 1;
    }
    assert(wanted@.inputs.take(i as int) =~= wanted@.inputs);
    let coins_fit = all_totals_within(&coins, u128::MAX);
    let mels_fit = total_within(&coins, Denom::Mel, MEL_LIMIT);
    assert(entries(coins@) == wallet_coins(*wallet) + wanted@.inputs);
    coins_fit && mels_fit && needs_fit(wanted)
}

/// Has a wallet prepare what is asked for, and sign it.
pub fn prepare(
    wallet: &Wallet,
    wanted: &TxRequest,
    key: SecretKey,
    fee_multiplier: u128,
) -> (result: Result<Transaction, String>)
    requires
        in_range(*wallet, wanted@),
    ensures
        is_outcome(result, *wallet, wanted@, key, fee_multiplier),
        !funded(*wallet, wanted@, 1) ==> result is Err,
{
    let result = prepare_tx(wallet, to_args(wanted), key.bytes, fee_multiplier);
    if let Ok(tx) = &result {
        assert forall|denom: Denom| !#[trigger] lacks(*wallet, wanted@, denom, 1) by {
            assert(!lacks(*wallet, wanted@, denom, tx_fee(*tx) as nat));
        }
    }
    result
}

/// Whether a result is what becomes of a request. It succeeds where some fee suffices and, at a fee
/// multiplier of zero, where one micro-mel can be paid.
pub open spec fn is_outcome(
    result: Result<Transaction, String>,
    wallet: Wallet,
    wanted: RequestView,
    key: SecretKey,
    fee_multiplier: u128,
) -> bool {
    let public_key = key.bytes@.subrange(32, 64);
    &&& match result {
        Ok(tx) => {
            &&& is_answer(tx, wallet, wanted, key, fee_multiplier)
            &&& forall|enough: nat| #[trigger]
                suffices(wallet, wanted, public_key, fee_multiplier, enough) ==> tx_fee(tx) <= 2
                    * enough
        },
        Err(why) => {
            &&& is_refusal(why@, wallet, wanted)
            &&& forall|enough: nat|
                !#[trigger] suffices(wallet, wanted, public_key, fee_multiplier, enough)
        },
    }
    &&& fee_multiplier == 0 ==> {
        &&& result is Ok == funded(wallet, wanted, 1)
        &&& result matches Ok(tx) ==> tx_fee(tx) == 1
    }
}

/// Whether a transaction is what was asked of a wallet, balanced with coins of its own, under the
/// key's covenant and signed with the key, and pays at least the least fee, which the wallet's
/// coins cover.
pub open spec fn is_answer(
    tx: Transaction,
    wallet: Wallet,
    wanted: RequestView,
    key: SecretKey,
    fee_multiplier: u128,
) -> bool {
    &&& exists|picked: Seq<(CoinID, CoinDataHeightView)>| fulfils(tx, wallet, wanted, picked)
    &&& tx_fee(tx) >= tx_least_fee(tx, fee_multiplier, wanted.ballast)
    &&& under_covenant(tx, key.bytes@.subrange(32, 64))
    &&& signed_with(tx, key.bytes@.subrange(0, 32))
    &&& tx_fee(tx) >= 1
    &&& funded(wallet, wanted, tx_fee(tx) as nat)
}

} // verus!
