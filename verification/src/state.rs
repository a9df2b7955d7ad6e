//! The minter's wallet and key, and the transactions that it sends.

use melstructs::{Address, Denom as MelDenom, PoolKey, Transaction, TxHash};
use melwallet::Wallet;
use tmelcrypt::HashVal;
use vstd::prelude::*;

use crate::chain::{
    CoinData, CoinDataHeight, CoinDataHeightView, CoinDataView, CoinID, Denom, NetID, TxKind,
};
use crate::encoding::{claim_bytes, encode_claim};
use crate::keys::{key_address, SecretKey};
use crate::tx::{
    add_pending, can_prepare, contents, fulfils, funded, hash_of, in_range, is_answer, is_outcome,
    prepare, tx_data, tx_hash, tx_inputs, tx_outputs, RequestView, TxRequest,
};
use crate::wallet::{
    address_of, balance, denom_total, empty_erg_coins, empty_ergs, entries, full_reset,
    has_denom, height_of, in_order, is_pending, last_of_each, new_wallet, nothing_pending,
    seed_coins, seeds, table,
    totals_within, wallet_address, wallet_coins, wallet_height, wallet_network,
    wallet_pending, worth_within, CoinsRefused,
};

verus! {

/// How long to wait, in seconds, before looking again whether a transaction is confirmed.
pub const POLL_SECS: u64 = 1;

/// The least that a minter must own to start: a twentieth of a mel, in micro-mels.
pub const SEED_MONEY: u128 = 50_000;

/// The minter's state.
pub struct MintState {
    pub wallet: Wallet,
    pub key: SecretKey,
}

/// Why no wallet could be opened.
#[derive(Clone, Copy, Debug, PartialEq, Eq)]
pub enum OpenError {
    /// The server keeps no index of coins by address.
    NoCoinIndex,
    /// The server's list holds a coin of somebody else.
    Refused(CoinsRefused),
}

/// Whether to go on waiting for a transaction.
#[derive(Clone, Copy, Debug, PartialEq, Eq)]
pub enum Wait {
    /// The transaction is no longer pending.
    Over,
    /// Look again in so many seconds.
    Again { secs: u64 },
}

/// The bytes that stand for a denomination.
pub open spec fn denom_bytes(denom: Denom) -> Seq<u8> {
    match denom {
        Denom::Mel => seq![109u8],
        Denom::Sym => seq![115u8],
        Denom::Erg => seq![100u8],
        Denom::NewCustom => Seq::empty(),
        Denom::Custom(hash) => hash@,
    }
}

/// The address that no key opens.
pub open spec fn nowhere() -> Seq<u8> {
    Seq::new(32, |i: int| 0u8)
}

/// Calls `melstructs::PoolKey::new` for mel and another denomination, then
/// `melstructs::PoolKey::to_bytes`: a pool with mel is known by its other denomination. There is no
/// pool of mel with itself.
#[verifier::external_body]
fn mel_pool_key(other: Denom) -> (bytes: Vec<u8>)
    requires
        other != Denom::Mel,
    ensures
        bytes@ == denom_bytes(other),
{
    let other = match other {
        Denom::Mel => MelDenom::Mel,
        Denom::Sym => MelDenom::Sym,
        Denom::Erg => MelDenom::Erg,
        Denom::NewCustom => MelDenom::NewCustom,
        Denom::Custom(hash) => MelDenom::Custom(TxHash(HashVal(hash))),
    };
    PoolKey::new(MelDenom::Mel, other).to_bytes().to_vec()
}

/// Calls `melstructs::Address::coin_destroy`: 32 zeros.
#[verifier::external_body]
fn coin_destroy() -> (address: [u8; 32])
    ensures
        address@ == nowhere(),
{
    Address::coin_destroy().0.0
}

/// A coin without additional data.
pub open spec fn plain_coin(covhash: [u8; 32], value: u128, denom: Denom) -> CoinDataView {
    CoinDataView { covhash, value, denom, additional_data: Seq::empty() }
}

/// A request with one output.
pub open spec fn single_output(
    kind: TxKind,
    inputs: Seq<(CoinID, CoinDataHeightView)>,
    output: CoinDataView,
    data: Seq<u8>,
) -> RequestView {
    RequestView { kind: kind.spec_code(), inputs, outputs: seq![output], data, ballast: 0 }
}

/// Asks for so many coins of a new token, each of them worth one.
pub open spec fn seeds_request(address: [u8; 32], threads: nat) -> RequestView {
    RequestView {
        kind: TxKind::Normal.spec_code(),
        inputs: Seq::empty(),
        outputs: Seq::new(threads, |i: int| plain_coin(address, 1, Denom::NewCustom)),
        data: Seq::empty(),
        ballast: 0,
    }
}

/// Asks for the reward of a proof: spends the seed coin, makes ergs, and shows the proof.
pub open spec fn claim_request(
    address: [u8; 32],
    seed: CoinID,
    seed_coin: CoinDataHeightView,
    difficulty: nat,
    proof: Seq<u8>,
    ergs: u128,
) -> RequestView {
    single_output(
        TxKind::DoscMint,
        seq![(seed, seed_coin)],
        plain_coin(address, ergs, Denom::Erg),
        claim_bytes(difficulty, proof),
    )
}

/// Asks to swap ergs for mels in the pool of the two.
pub open spec fn swap_request(address: [u8; 32], ergs: u128) -> RequestView {
    single_output(
        TxKind::Swap,
        Seq::empty(),
        plain_coin(address, ergs, Denom::Erg),
        denom_bytes(Denom::Erg),
    )
}

/// Asks to destroy erg coins: spends them, and sends nothing to nowhere.
pub open spec fn clean_request(
    nowhere: [u8; 32],
    empty: Seq<(CoinID, CoinDataHeightView)>,
) -> RequestView {
    single_output(TxKind::Normal, empty, plain_coin(nowhere, 0, Denom::Erg), Seq::empty())
}

/// Asks to pay mels to an address.
pub open spec fn payout_request(to: [u8; 32], value: u128) -> RequestView {
    single_output(TxKind::Normal, Seq::empty(), plain_coin(to, value, Denom::Mel), Seq::empty())
}

/// A request with one output, which has no additional data.
fn ask(
    kind: TxKind,
    inputs: Vec<(CoinID, CoinDataHeight)>,
    covhash: [u8; 32],
    value: u128,
    denom: Denom,
    data: Vec<u8>,
) -> (wanted: TxRequest)
    ensures
        wanted@ == single_output(kind, entries(inputs@), plain_coin(covhash, value, denom), data@),
{
    let output = CoinData { covhash, value, denom, additional_data: Vec::new() };
    let mut outputs: Vec<CoinData> = Vec::new();
    outputs.push(output);
    assert(output@ =~= plain_coin(covhash, value, denom));
    assert(contents(outputs@) =~= seq![plain_coin(covhash, value, denom)]);
    TxRequest { kind, inputs, outputs, data }
}

/// Asks to pay mels to an address.
pub fn pay_out(to: [u8; 32], value: u128) -> (wanted: TxRequest)
    ensures
        wanted@ == payout_request(to, value),
{
    let inputs: Vec<(CoinID, CoinDataHeight)> = Vec::new();
    assert(entries(inputs@) =~= Seq::empty());
    ask(TxKind::Normal, inputs, to, value, Denom::Mel, Vec::new())
}

/// Opens the wallet of a key with the coins that the server lists for its address at a height.
pub fn open_wallet(
    key: SecretKey,
    network: NetID,
    height: u64,
    owned_coins: Option<Vec<(CoinID, CoinDataHeight)>>,
) -> (opened: Result<Wallet, OpenError>)
    ensures
        match owned_coins {
            None => opened == Err::<Wallet, OpenError>(OpenError::NoCoinIndex),
            Some(coins) => if all_owned(entries(coins@), key_address(key)) {
                opened matches Ok(wallet) && is_opened(
                    wallet,
                    key,
                    network,
                    height,
                    entries(coins@),
                )
            } else {
                opened == Err::<Wallet, OpenError>(OpenError::Refused(CoinsRefused::WrongAddress))
            },
        },
{
    let coins = match owned_coins {
        None => return Err(OpenError::NoCoinIndex),
        Some(coins) => coins,
    };
    let mut wallet = new_wallet(key.address(), 0, network.code());
    match full_reset(&mut wallet, height, last_of_each(coins)) {
        Ok(()) => Ok(wallet),
        Err(refused) => Err(OpenError::Refused(refused)),
    }
}

/// Whether the coins that a list amounts to are all of one address.
pub open spec fn all_owned(coins: Seq<(CoinID, CoinDataHeightView)>, address: [u8; 32]) -> bool {
    forall|id: CoinID|
        table(coins).contains_key(id) ==> (#[trigger] table(coins)[id]).coin_data.covhash == address
}

/// Whether a wallet is as it was opened: of the key's address, at the given height, with the given
/// coins and with nothing pending.
pub open spec fn is_opened(
    wallet: Wallet,
    key: SecretKey,
    network: NetID,
    height: u64,
    coins: Seq<(CoinID, CoinDataHeightView)>,
) -> bool {
    &&& wallet_address(wallet) == key_address(key)
    &&& wallet_network(wallet) == network.spec_code()
    &&& wallet_height(wallet) == height
    &&& table(wallet_coins(wallet)) == table(coins)
    &&& wallet_pending(wallet) == nothing_pending()
}

/// Whether a state is another one after a transaction was accepted: the transaction is pending, and
/// nothing else has changed.
pub open spec fn recorded(before: MintState, tx: Transaction, after: MintState) -> bool {
    &&& after.key == before.key
    &&& wallet_pending(after.wallet) == wallet_pending(before.wallet).insert(tx_hash(tx), tx)
    &&& wallet_coins(after.wallet) == wallet_coins(before.wallet)
    &&& wallet_address(after.wallet) == wallet_address(before.wallet)
    &&& wallet_network(after.wallet) == wallet_network(before.wallet)
    &&& wallet_height(after.wallet) == wallet_height(before.wallet)
}

/// Whether a minter must wait for money before it can start.
pub fn needs_seed_money(mels: Option<u128>) -> (needs: bool)
    ensures
        needs == (mels is None || mels->0 < SEED_MONEY),
{
    match mels {
        Some(mels) => mels < SEED_MONEY,
        None => true,
    }
}

impl MintState {
    /// Opens a minter's state with the coins that the server lists for the key's address.
    pub fn open(
        key: SecretKey,
        network: NetID,
        height: u64,
        owned_coins: Option<Vec<(CoinID, CoinDataHeight)>>,
    ) -> (opened: Result<MintState, OpenError>)
        ensures
            match owned_coins {
                None => opened == Err::<MintState, OpenError>(OpenError::NoCoinIndex),
                Some(coins) => if all_owned(entries(coins@), key_address(key)) {
                    opened matches Ok(state) && state.key == key && is_opened(
                        state.wallet,
                        key,
                        network,
                        height,
                        entries(coins@),
                    )
                } else {
                    opened == Err::<MintState, OpenError>(
                        OpenError::Refused(CoinsRefused::WrongAddress),
                    )
                },
            },
    {
        match open_wallet(key, network, height, owned_coins) {
            Ok(wallet) => Ok(MintState { wallet, key }),
            Err(error) => Err(error),
        }
    }

    /// The address of the minter's coins.
    pub fn address(&self) -> (address: [u8; 32])
        ensures
            address == wallet_address(self.wallet),
    {
        address_of(&self.wallet)
    }

    /// Whether the wallet can prepare what is asked for without a sum that exceeds 128 bits.
    pub fn can_prepare(&self, wanted: &TxRequest) -> (can: bool)
        ensures
            can == in_range(self.wallet, wanted@),
    {
        can_prepare(&self.wallet, wanted)
    }

    /// Prepares what is asked for, and signs it.
    pub fn prepare_tx(&self, wanted: &TxRequest, fee_multiplier: u128) -> (result: Result<
        Transaction,
        String,
    >)
        requires
            in_range(self.wallet, wanted@),
        ensures
            is_outcome(result, self.wallet, wanted@, self.key, fee_multiplier),
            !funded(self.wallet, wanted@, 1) ==> result is Err,
    {
        prepare(&self.wallet, wanted, self.key, fee_multiplier)
    }

    /// Takes note of a transaction that was sent to the network: pending, where it was accepted.
    pub fn send_raw(&mut self, tx: Transaction, accepted: bool) -> (sent: Option<[u8; 32]>)
        ensures
            accepted ==> sent == Some(tx_hash(tx)) && recorded(*old(self), tx, *final(self)),
            !accepted ==> sent is None && *final(self) == *old(self),
    {
        if accepted {
            let txhash: [u8; 32] = hash_of(&tx);
            add_pending(&mut self.wallet, tx);
            Some(txhash)
        } else {
            None
        }
    }

    /// Whether to go on waiting for a transaction: as long as it is pending.
    pub fn wait_tx(&self, txhash: [u8; 32]) -> (wait: Wait)
        ensures
            wait == (if wallet_pending(self.wallet).contains_key(txhash) {
                Wait::Again { secs: POLL_SECS }
            } else {
                Wait::Over
            }),
    {
        if is_pending(&self.wallet, txhash) {
            Wait::Again { secs: POLL_SECS }
        } else {
            Wait::Over
        }
    }

    /// The coins that proofs can start from, in ascending order.
    pub fn get_seeds_raw(&self) -> (found: Vec<CoinID>)
        ensures
            found@ == seeds(wallet_coins(self.wallet)),
            in_order(found@),
    {
        seed_coins(&self.wallet)
    }

    /// What to ask for so that there are enough seed coins; nothing where there are.
    ///
    /// Each proof starts from a seed coin of its own, which can be spent only once, and from the
    /// block that holds it, which nobody knows beforehand: so no proof can be used twice.
    pub fn generate_seeds(&self, threads: usize) -> (wanted: Option<TxRequest>)
        ensures
            wanted is None == (seeds(wallet_coins(self.wallet)).len() >= threads),
            wanted matches Some(wanted) ==> wanted@ == seeds_request(
                wallet_address(self.wallet),
                threads as nat,
            ),
    {
        if self.get_seeds_raw().len() >= threads {
            return None;
        }
        let covhash: [u8; 32] = self.address();
        let mut outputs: Vec<CoinData> = Vec::new();
        let mut i: usize = 0;
        while i < threads
            invariant
                i <= threads,
                outputs@.len() == i,
                forall|j: int|
                    0 <= j < i ==> (#[trigger] outputs@[j])@ == plain_coin(
                        covhash,
                        1,
                        Denom::NewCustom,
                    ),
            decreases threads - i,
        {
            let output = CoinData {
                covhash,
                value: 1,
                denom: Denom::NewCustom,
                additional_data: Vec::new(),
            };
            assert(output@ =~= plain_coin(covhash, 1, Denom::NewCustom));
            outputs.push(output);
            i = i + 1;
        }
        let wanted = TxRequest {
            kind: TxKind::Normal,
            inputs: Vec::new(),
            outputs,
            data: Vec::new(),
        };
        assert(wanted@ =~= seeds_request(covhash, threads as nat)) by {
            assert(wanted@.inputs =~= Seq::empty());
            assert(wanted@.outputs =~= seeds_request(covhash, threads as nat).outputs);
        }
        Some(wanted)
    }

    /// Where to read the seed coin of a claim: at the wallet's own height.
    pub fn seed_query(&self, seed: CoinID) -> (asked: (u64, CoinID))
        ensures
            asked == (wallet_height(self.wallet), seed),
    {
        (height_of(&self.wallet), seed)
    }

    /// What to ask for to claim the reward of a proof, with the seed coin as read by
    /// [`MintState::seed_query`].
    pub fn send_mint_transaction(
        &self,
        seed: CoinID,
        seed_coin: CoinDataHeight,
        difficulty: usize,
        proof: Vec<u8>,
        ergs: u128,
    ) -> (wanted: TxRequest)
        ensures
            wanted@ == claim_request(
                wallet_address(self.wallet),
                seed,
                seed_coin@,
                difficulty as nat,
                proof@,
                ergs,
            ),
    {
        let mut inputs: Vec<(CoinID, CoinDataHeight)> = Vec::new();
        inputs.push((seed, seed_coin));
        assert(entries(inputs@) =~= seq![(seed, seed_coin@)]);
        ask(
            TxKind::DoscMint,
            inputs,
            self.address(),
            ergs,
            Denom::Erg,
            encode_claim(difficulty, proof),
        )
    }

    /// What to ask for to convert ergs to mels.
    pub fn convert_doscs(&self, doscs: u128) -> (wanted: TxRequest)
        ensures
            wanted@ == swap_request(wallet_address(self.wallet), doscs),
    {
        let inputs: Vec<(CoinID, CoinDataHeight)> = Vec::new();
        assert(entries(inputs@) =~= Seq::empty());
        ask(TxKind::Swap, inputs, self.address(), doscs, Denom::Erg, mel_pool_key(Denom::Erg))
    }

    /// What to ask for to get rid of erg coins that are worth nothing, and which prevent minting
    /// transactions.
    pub fn clean_ergs(&self, empty_ergs: Vec<(CoinID, CoinDataHeight)>) -> (wanted: TxRequest)
        ensures
            exists|address: [u8; 32]|
                #![trigger address@]
                address@ == nowhere() && wanted@ == clean_request(address, entries(empty_ergs@)),
    {
        let address: [u8; 32] = coin_destroy();
        let wanted = ask(TxKind::Normal, empty_ergs, address, 0, Denom::Erg, Vec::new());
        assert(address@ == nowhere());
        wanted
    }

    /// The erg coins that are worth nothing.
    pub fn empty_ergs(&self) -> (found: Vec<(CoinID, CoinDataHeight)>)
        ensures
            entries(found@) == empty_ergs(wallet_coins(self.wallet)),
    {
        empty_erg_coins(&self.wallet)
    }

    /// Whether each balance can be told in 128 bits.
    pub fn has_balances(&self) -> (can: bool)
        ensures
            can == totals_within(wallet_coins(self.wallet), u128::MAX as nat),
    {
        worth_within(&self.wallet, u128::MAX)
    }

    /// How much there is of a denomination; nothing where there is no such coin.
    pub fn balance(&self, denom: Denom) -> (value: Option<u128>)
        requires
            totals_within(wallet_coins(self.wallet), u128::MAX as nat),
        ensures
            value is Some == has_denom(wallet_coins(self.wallet), denom),
            value matches Some(value) ==> value == denom_total(wallet_coins(self.wallet), denom),
    {
        balance(&self.wallet, denom)
    }
}

/// A claim spends its seed coin first, its first output is the ergs that it claims, and its data
/// holds the proof.
pub proof fn law_claims_spend_their_seed(
    tx: Transaction,
    state: MintState,
    seed: CoinID,
    seed_coin: CoinDataHeightView,
    difficulty: nat,
    proof: Seq<u8>,
    ergs: u128,
    fee_multiplier: u128,
)
    requires
        is_answer(
            tx,
            state.wallet,
            claim_request(
                wallet_address(state.wallet),
                seed,
                seed_coin,
                difficulty,
                proof,
                ergs,
            ),
            state.key,
            fee_multiplier,
        ),
    ensures
        tx_inputs(tx).len() > 0,
        tx_inputs(tx)[0] == seed,
        tx_outputs(tx).len() > 0,
        tx_outputs(tx)[0] == plain_coin(wallet_address(state.wallet), ergs, Denom::Erg),
        tx_data(tx) == claim_bytes(difficulty, proof),
{
    let wanted = claim_request(
        wallet_address(state.wallet),
        seed,
        seed_coin,
        difficulty,
        proof,
        ergs,
    );
    let picked = choose|picked: Seq<(CoinID, CoinDataHeightView)>|
        fulfils(tx, state.wallet, wanted, picked);
    assert((wanted.inputs + picked)[0] == (seed, seed_coin));
    assert(wanted.outputs[0] == plain_coin(wallet_address(state.wallet), ergs, Denom::Erg));
}

} // verus!
