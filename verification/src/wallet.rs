//! The coins of one address, as kept by `melwallet`, and what a minter reads off them.

use melstructs::{
    Address, BlockHeight, CoinData as MelCoinData, CoinDataHeight as MelCoinDataHeight,
    CoinID as MelCoinID, CoinValue, Denom as MelDenom, Transaction,
    TxHash,
};
use melwallet::AddCoinsError::{BadHeight, WrongAddress};
use melwallet::Wallet;
use tmelcrypt::HashVal;
use vstd::prelude::*;

use crate::chain::{
    same_hash, CoinData, CoinDataHeight, CoinDataHeightView, CoinDataView, CoinID, Denom, NetID,
};
use crate::tx::tx_inputs;

verus! {

/// `melwallet::Wallet`: the confirmed coins of one address at one height, and the transactions
/// that were sent and are not confirmed yet.
#[verifier::external_type_specification]
#[verifier::external_body]
pub struct ExWallet(melwallet::Wallet);

/// The confirmed coins of a wallet, in ascending order of their identifiers.
pub uninterp spec fn wallet_coins(wallet: Wallet) -> Seq<(CoinID, CoinDataHeightView)>;

/// The transactions that a wallet holds as sent and not confirmed, by hash.
pub uninterp spec fn wallet_pending(wallet: Wallet) -> Map<[u8; 32], Transaction>;

/// The address whose coins a wallet keeps.
pub uninterp spec fn wallet_address(wallet: Wallet) -> [u8; 32];

/// The network of a wallet's coins, as the byte that stands for it.
pub uninterp spec fn wallet_network(wallet: Wallet) -> u8;

/// The height up to which a wallet knows the chain.
pub uninterp spec fn wallet_height(wallet: Wallet) -> u64;

/// The entries of a list of coins, by content.
pub open spec fn entries(coins: Seq<(CoinID, CoinDataHeight)>) -> Seq<
    (CoinID, CoinDataHeightView),
> {
    coins.map_values(|entry: (CoinID, CoinDataHeight)| (entry.0, entry.1@))
}

/// The table that a list of entries amounts to: where an identifier occurs twice, the later
/// entry stands.
pub open spec fn table<V>(list: Seq<(CoinID, V)>) -> Map<CoinID, V>
    decreases list.len(),
{
    if list.len() == 0 {
        Map::empty()
    } else {
        table(list.drop_last()).insert(list.last().0, list.last().1)
    }
}

/// Whether no identifier occurs twice in a list of entries.
pub open spec fn distinct<V>(list: Seq<(CoinID, V)>) -> bool {
    forall|i: int, j: int|
        0 <= i < j < list.len() ==> (#[trigger] list[i]).0 != (#[trigger] list[j]).0
}

/// Whether `a` comes before `b`: by transaction hash, byte by byte, then by index.
pub open spec fn id_before(a: CoinID, b: CoinID) -> bool {
    ||| a.txhash == b.txhash && a.index < b.index
    ||| exists|k: int|
        0 <= k < 32 && #[trigger] a.txhash[k] < b.txhash[k] && forall|j: int|
            0 <= j < k ==> a.txhash[j] == b.txhash[j]
}

/// Whether a list of entries is in strictly ascending order of the identifiers.
pub open spec fn ascending<V>(list: Seq<(CoinID, V)>) -> bool {
    forall|i: int, j: int|
        0 <= i < j < list.len() ==> id_before(#[trigger] list[i].0, #[trigger] list[j].0)
}

/// Whether a list of identifiers is in strictly ascending order.
pub open spec fn in_order(ids: Seq<CoinID>) -> bool {
    forall|i: int, j: int|
        0 <= i < j < ids.len() ==> id_before(#[trigger] ids[i], #[trigger] ids[j])
}

/// The sum of the values of the coins of one denomination.
pub open spec fn denom_total(coins: Seq<(CoinID, CoinDataHeightView)>, denom: Denom) -> nat
    decreases coins.len(),
{
    if coins.len() == 0 {
        0
    } else {
        let rest = denom_total(coins.drop_last(), denom);
        let coin = coins.last().1.coin_data;
        if coin.denom == denom {
            rest + coin.value as nat
        } else {
            rest
        }
    }
}

/// Whether some coin is of the given denomination.
pub open spec fn has_denom(coins: Seq<(CoinID, CoinDataHeightView)>, denom: Denom) -> bool {
    exists|i: int| 0 <= i < coins.len() && (#[trigger] coins[i]).1.coin_data.denom == denom
}

/// Whether the coins of each denomination are together worth no more than `limit`.
pub open spec fn totals_within(coins: Seq<(CoinID, CoinDataHeightView)>, limit: nat) -> bool {
    forall|denom: Denom| #[trigger] denom_total(coins, denom) <= limit
}

/// No transactions.
pub open spec fn nothing_pending() -> Map<[u8; 32], Transaction> {
    Map::empty()
}

/// Whether a wallet may spend a coin: no pending transaction spends it.
pub open spec fn unlocked(wallet: Wallet, id: CoinID) -> bool {
    forall|txhash: [u8; 32]|
        wallet_pending(wallet).contains_key(txhash) ==> !tx_inputs(
            #[trigger] wallet_pending(wallet)[txhash],
        ).contains(id)
}

/// What a wallet answers when it refuses coins.
#[derive(Clone, Copy, Debug, PartialEq, Eq)]
pub enum CoinsRefused {
    /// The block is not the one after the wallet's height.
    BadHeight,
    /// A coin belongs to another address.
    WrongAddress,
}

/// Reads `melwallet::Wallet::address`.
#[verifier::external_body]
pub(crate) fn address_of(wallet: &Wallet) -> (address: [u8; 32])
    ensures
        address == wallet_address(*wallet),
{
    wallet.address.0.0
}

/// Reads `melwallet::Wallet::height`.
#[verifier::external_body]
pub(crate) fn height_of(wallet: &Wallet) -> (height: u64)
    ensures
        height == wallet_height(*wallet),
{
    wallet.height.0
}

/// Asks `melwallet::Wallet::pending_outgoing`, a map keyed by transaction hash, for one hash.
#[verifier::external_body]
pub(crate) fn is_pending(wallet: &Wallet, txhash: [u8; 32]) -> (pending: bool)
    ensures
        pending == wallet_pending(*wallet).contains_key(txhash),
{
    wallet.pending_outgoing.get(&TxHash(HashVal(txhash))).is_some()
}

/// Whether `a` comes before `b`, byte by byte.
pub open spec fn hash_before(a: [u8; 32], b: [u8; 32]) -> bool {
    exists|k: int|
        0 <= k < 32 && #[trigger] a[k] < b[k] && forall|j: int| 0 <= j < k ==> a[j] == b[j]
}

/// Hands out `melwallet::Wallet::pending_outgoing`, which is an ordered map: its entries come in
/// ascending order of the hashes, each hash once.
#[verifier::external_body]
pub(crate) fn pending_of(wallet: &Wallet) -> (sent: Vec<([u8; 32], Transaction)>)
    ensures
        forall|i: int|
            0 <= i < sent@.len() ==> wallet_pending(*wallet).contains_pair(
                (#[trigger] sent@[i]).0,
                sent@[i].1,
            ),
        forall|txhash: [u8; 32]| #[trigger]
            wallet_pending(*wallet).contains_key(txhash) ==> exists|i: int|
                0 <= i < sent@.len() && (#[trigger] sent@[i]).0 == txhash,
        forall|i: int, j: int|
            0 <= i < j < sent@.len() ==> hash_before(#[trigger] sent@[i].0, #[trigger] sent@[j].0),
{
    wallet.pending_outgoing.iter().map(|(txhash, tx)| (txhash.0.0, tx.clone())).collect()
}

/// Hands out `melwallet::Wallet::confirmed_utxos`, which is an ordered map: its entries come in
/// ascending order of the identifiers, each identifier once.
#[verifier::external_body]
pub(crate) fn coins_of(wallet: &Wallet) -> (coins: Vec<(CoinID, CoinDataHeight)>)
    ensures
        entries(coins@) == wallet_coins(*wallet),
        ascending(coins@),
{
    wallet.confirmed_utxos.iter().map(|(id, cdh)| {
        let (txhash, coin) = (id.txhash.0.0, &cdh.coin_data);
        let denom = match coin.denom {
            MelDenom::Mel => Denom::Mel,
            MelDenom::Sym => Denom::Sym,
            MelDenom::Erg => Denom::Erg,
            MelDenom::NewCustom => Denom::NewCustom,
            MelDenom::Custom(hash) => Denom::Custom(hash.0.0),
        };
        let (covhash, value) = (coin.covhash.0.0, coin.value.0);
        let additional_data = coin.additional_data.to_vec();
        let coin_data = CoinData { covhash, value, denom, additional_data };
        (CoinID { txhash, index: id.index }, CoinDataHeight { coin_data, height: cdh.height.0 })
    }).collect()
}

/// Looks one denomination up in what `melwallet::Wallet::balances` lists: the sum of the coins of
/// each denomination that occurs among the confirmed ones. It adds in 128 bits, so no sum may
/// exceed them.
#[verifier::external_body]
pub(crate) fn balance_of(wallet: &Wallet, denom: Denom) -> (balance: Option<u128>)
    requires
        totals_within(wallet_coins(*wallet), u128::MAX as nat),
    ensures
        balance is Some == has_denom(wallet_coins(*wallet), denom),
        balance matches Some(value) ==> value == denom_total(wallet_coins(*wallet), denom),
{
    let key = match denom {
        Denom::Mel => MelDenom::Mel,
        Denom::Sym => MelDenom::Sym,
        Denom::Erg => MelDenom::Erg,
        Denom::NewCustom => MelDenom::NewCustom,
        Denom::Custom(hash) => MelDenom::Custom(TxHash(HashVal(hash))),
    };
    wallet.balances().get(&key).map(|value| value.0)
}

/// A block's new coins, by content.
pub open spec fn offered(coins: Seq<(CoinID, CoinData)>) -> Seq<(CoinID, CoinDataView)> {
    coins.map_values(|entry: (CoinID, CoinData)| (entry.0, entry.1@))
}

/// A block's new coins, as the wallet records them: at the block's height.
pub open spec fn at_height(coins: Seq<(CoinID, CoinDataView)>, height: u64) -> Seq<
    (CoinID, CoinDataHeightView),
> {
    coins.map_values(
        |entry: (CoinID, CoinDataView)|
            (entry.0, CoinDataHeightView { coin_data: entry.1, height }),
    )
}

/// The hashes of the transactions that made the given coins.
pub open spec fn origins<V>(coins: Seq<(CoinID, V)>) -> Set<[u8; 32]> {
    Set::new(
        |hash: [u8; 32]|
            exists|i: int| 0 <= i < coins.len() && (#[trigger] coins[i]).0.txhash == hash,
    )
}

/// What a wallet says to one block's new coins.
pub open spec fn add_verdict(
    wallet: Wallet,
    height: u64,
    new_coins: Seq<(CoinID, CoinDataView)>,
) -> Result<(), CoinsRefused> {
    if height != wallet_height(wallet) + 1 {
        Err(CoinsRefused::BadHeight)
    } else if exists|i: int|
        0 <= i < new_coins.len() && (#[trigger] new_coins[i]).1.covhash != wallet_address(wallet) {
        Err(CoinsRefused::WrongAddress)
    } else {
        Ok(())
    }
}

/// The coins after one block: the new ones are in, the spent ones are out.
pub open spec fn after_block(
    coins: Map<CoinID, CoinDataHeightView>,
    height: u64,
    new_coins: Seq<(CoinID, CoinDataView)>,
    spent_coins: Seq<CoinID>,
) -> Map<CoinID, CoinDataHeightView> {
    coins.union_prefer_right(table(at_height(new_coins, height))).remove_keys(
        spent_coins.to_set(),
    )
}

/// What a wallet says to a list of coins that is to replace all it has.
pub open spec fn reset_verdict(
    wallet: Wallet,
    coins: Seq<(CoinID, CoinDataHeightView)>,
) -> Result<(), CoinsRefused> {
    if forall|id: CoinID|
        table(coins).contains_key(id) ==> (#[trigger] table(coins)[id]).coin_data.covhash
            == wallet_address(wallet) {
        Ok(())
    } else {
        Err(CoinsRefused::WrongAddress)
    }
}

/// Calls `melwallet::Wallet::add_coins`: takes in one block's new and spent coins.
///
/// A block that is not the next one is refused, and so is a coin of another address; the wallet
/// is then as before. Otherwise the new coins are recorded at the block's height, the
/// transactions that made them are no longer pending, the spent coins are gone, and the wallet is
/// at the block's height.
#[verifier::external_body]
pub(crate) fn add_coins(
    wallet: &mut Wallet,
    height: u64,
    new_coins: Vec<(CoinID, CoinData)>,
    spent_coins: Vec<CoinID>,
) -> (result: Result<(), CoinsRefused>)
    requires
        wallet_height(*old(wallet)) < u64::MAX,
    ensures
        wallet_address(*final(wallet)) == wallet_address(*old(wallet)),
        wallet_network(*final(wallet)) == wallet_network(*old(wallet)),
        result == add_verdict(*old(wallet), height, offered(new_coins@)),
        result is Err ==> *final(wallet) == *old(wallet),
        result is Ok ==> {
            &&& wallet_height(*final(wallet)) == height
            &&& wallet_pending(*final(wallet)) == wallet_pending(*old(wallet)).remove_keys(
                origins(offered(new_coins@)),
            )
            &&& table(wallet_coins(*final(wallet))) == after_block(
                table(wallet_coins(*old(wallet))),
                height,
                offered(new_coins@),
                spent_coins@,
            )
        },
{
    let id = |c: CoinID| MelCoinID::new(TxHash(HashVal(c.txhash)), c.index);
    let new_coins = new_coins.into_iter().map(|(c, d)| (id(c), MelCoinData {
        covhash: Address(HashVal(d.covhash)), value: CoinValue(d.value), denom: match d.denom {
            Denom::Mel => MelDenom::Mel,
            Denom::Sym => MelDenom::Sym,
            Denom::Erg => MelDenom::Erg,
            Denom::NewCustom => MelDenom::NewCustom,
            Denom::Custom(hash) => MelDenom::Custom(TxHash(HashVal(hash))),
        }, additional_data: d.additional_data.into(),
    }));
    let spent_coins = spent_coins.into_iter().map(id);
    wallet.add_coins(BlockHeight(height), new_coins, spent_coins).map_err(|e| match e {
        BadHeight => CoinsRefused::BadHeight,
        WrongAddress => CoinsRefused::WrongAddress,
    })
}

/// Calls `melwallet::Wallet::full_reset`: replaces everything that the wallet knows.
///
/// A coin of another address is refused, and the wallet is then as before. Nothing is pending
/// afterwards. Where an identifier occurs twice one of its coins counts, and which one is left
/// unsaid: it is up to how a `BTreeMap` of the standard library is collected.
#[verifier::external_body]
pub(crate) fn full_reset(
    wallet: &mut Wallet,
    height: u64,
    coins: Vec<(CoinID, CoinDataHeight)>,
) -> (result: Result<(), CoinsRefused>)
    ensures
        wallet_address(*final(wallet)) == wallet_address(*old(wallet)),
        wallet_network(*final(wallet)) == wallet_network(*old(wallet)),
        distinct(coins@) ==> result == reset_verdict(*old(wallet), entries(coins@)),
        result is Err ==> *final(wallet) == *old(wallet),
        result is Ok ==> {
            &&& wallet_height(*final(wallet)) == height
            &&& wallet_pending(*final(wallet)) == nothing_pending()
            &&& distinct(coins@) ==> table(wallet_coins(*final(wallet))) == table(entries(coins@))
        },
{
    let coins = coins.into_iter().map(|(c, CoinDataHeight { coin_data: d, height })| {
        let id = MelCoinID::new(TxHash(HashVal(c.txhash)), c.index);
        let denom = match d.denom {
            Denom::Mel => MelDenom::Mel,
            Denom::Sym => MelDenom::Sym,
            Denom::Erg => MelDenom::Erg,
            Denom::NewCustom => MelDenom::NewCustom,
            Denom::Custom(hash) => MelDenom::Custom(TxHash(HashVal(hash))),
        };
        let (covhash, value) = (Address(HashVal(d.covhash)), CoinValue(d.value));
        let additional_data = d.additional_data.into();
        let coin_data = MelCoinData { covhash, value, denom, additional_data };
        (id, MelCoinDataHeight { coin_data, height: BlockHeight(height) })
    });
    wallet.full_reset(BlockHeight(height), coins).map_err(|_| CoinsRefused::WrongAddress)
}

/// Makes a `melwallet::Wallet` out of its parts: one of an address and a height, without coins and
/// with nothing pending. `network` is the byte that stands for a network.
#[verifier::external_body]
pub(crate) fn new_wallet(address: [u8; 32], height: u64, network: u8) -> (wallet: Wallet)
    requires
        NetID::is_code(network),
    ensures
        wallet_network(wallet) == network,
        wallet_address(wallet) == address,
        wallet_height(wallet) == height,
        wallet_coins(wallet) == Seq::<(CoinID, CoinDataHeightView)>::empty(),
        wallet_pending(wallet) == nothing_pending(),
{
    Wallet {
        netid: network.try_into().unwrap(),
        address: Address(HashVal(address)),
        height: BlockHeight(height),
        confirmed_utxos: Default::default(),
        pending_outgoing: Default::default(),
    }
}

/// In a list without repetitions, changing an entry changes what the table has for its identifier.
proof fn lemma_table_update<V>(list: Seq<(CoinID, V)>, k: int, value: V)
    requires
        distinct(list),
        0 <= k < list.len(),
    ensures
        table(list.update(k, (list[k].0, value))) == table(list).insert(list[k].0, value),
    decreases list.len(),
{
    let changed = list.update(k, (list[k].0, value));
    if k == list.len() - 1 {
        assert(changed.drop_last() =~= list.drop_last());
        assert(table(changed) =~= table(list).insert(list[k].0, value));
    } else {
        assert(changed.drop_last() =~= list.drop_last().update(k, (list[k].0, value)));
        lemma_table_update(list.drop_last(), k, value);
        assert(list[k].0 != list.last().0);
        assert(table(changed) =~= table(list).insert(list[k].0, value));
    }
}

/// The index of a coin in a list; nothing where it is not there.
fn find_coin(coins: &Vec<(CoinID, CoinDataHeight)>, id: CoinID) -> (found: Option<usize>)
    ensures
        match found {
            Some(k) => k < coins.len() && coins[k as int].0 == id,
            None => forall|k: int| 0 <= k < coins.len() ==> (#[trigger] coins[k]).0 != id,
        },
{
    let mut k: usize = 0;
    while k < coins.len()
        invariant
            k <= coins.len(),
            forall|j: int| 0 <= j < k ==> (#[trigger] coins[j]).0 != id,
        decreases coins.len() - k,
    {
        if same_hash(&coins[k].0.txhash, &id.txhash) && coins[k].0.index == id.index {
            return Some(k);
        }
        k = k + 1;
    }
    None
}

/// The list without repetitions that amounts to the same table: where an identifier occurs twice,
/// the later entry stands.
pub fn last_of_each(coins: Vec<(CoinID, CoinDataHeight)>) -> (kept: Vec<(CoinID, CoinDataHeight)>)
    ensures
        distinct(kept@),
        table(entries(kept@)) == table(entries(coins@)),
{
    let ghost all = entries(coins@);
    let mut kept: Vec<(CoinID, CoinDataHeight)> = Vec::new();
    let mut i: usize = 0;
    assert(entries(kept@) =~= all.take(0));
    while i < coins.len()
        invariant
            i <= coins.len(),
            all == entries(coins@),
            distinct(kept@),
            table(entries(kept@)) == table(all.take(i as int)),
        decreases coins.len() - i,
    {
        let ghost before = kept@;
        let entry = (coins[i].0, coins[i].1.clone());
        assert(all[i as int] == (entry.0, entry.1@));
        assert(all.take(i + 1).drop_last() =~= all.take(i as int));
        match find_coin(&kept, entry.0) {
            Some(k) => {
                proof {
                    assert(distinct(entries(before))) by {
                        assert forall|a: int, b: int| 0 <= a < b < before.len() implies (
                        #[trigger] entries(before)[a]).0 != (#[trigger] entries(before)[b]).0 by {
                            assert(before[a].0 != before[b].0);
                        }
                    }
                    lemma_table_update(entries(before), k as int, entry.1@);
                }
                kept.set(k, entry);
                assert(entries(kept@) =~= entries(before).update(k as int, (entry.0, entry.1@)));
            },
            None => {
                kept.push(entry);
                assert(entries(kept@).drop_last() =~= entries(before));
            },
        }
        i = i + 1;
    }
    assert(all.take(i as int) =~= all);
    kept
}

/// Removing the last coin takes its value off the total of its denomination.
proof fn lemma_total_step(coins: Seq<(CoinID, CoinDataHeightView)>, i: int, denom: Denom)
    requires
        0 <= i < coins.len(),
    ensures
        denom_total(coins.take(i + 1), denom) == denom_total(coins.take(i), denom) + (
        if coins[i].1.coin_data.denom == denom {
            coins[i].1.coin_data.value as nat
        } else {
            0
        }),
{
    assert(coins.take(i + 1).drop_last() =~= coins.take(i));
}

/// The first coins of a list are worth no more than all of them.
proof fn lemma_total_monotonic(coins: Seq<(CoinID, CoinDataHeightView)>, i: int, denom: Denom)
    requires
        0 <= i <= coins.len(),
    ensures
        denom_total(coins.take(i), denom) <= denom_total(coins, denom),
    decreases coins.len() - i,
{
    if i < coins.len() {
        lemma_total_step(coins, i, denom);
        lemma_total_monotonic(coins, i + 1, denom);
    } else {
        assert(coins.take(i) =~= coins);
    }
}

/// Where no coin is of a denomination, the total of it is nothing.
proof fn lemma_absent_total(coins: Seq<(CoinID, CoinDataHeightView)>, denom: Denom)
    requires
        !has_denom(coins, denom),
    ensures
        denom_total(coins, denom) == 0,
    decreases coins.len(),
{
    if coins.len() > 0 {
        assert(coins[coins.len() - 1].1.coin_data.denom != denom);
        assert forall|i: int| 0 <= i < coins.drop_last().len() implies (
        #[trigger] coins.drop_last()[i]).1.coin_data.denom != denom by {
            assert(coins.drop_last()[i] == coins[i]);
        }
        lemma_absent_total(coins.drop_last(), denom);
    }
}

/// Whether the coins of one denomination are together worth no more than `limit`.
pub(crate) fn total_within(
    coins: &Vec<(CoinID, CoinDataHeight)>,
    denom: Denom,
    limit: u128,
) -> (within: bool)
    ensures
        within == (denom_total(entries(coins@), denom) <= limit),
{
    let ghost all = entries(coins@);
    let mut total: u128 = 0;
    let mut i: usize = 0;
    while i < coins.len()
        invariant
            i <= coins.len(),
            all == entries(coins@),
            total == denom_total(all.take(i as int), denom),
            total <= limit,
        decreases coins.len() - i,
    {
        let coin = &coins[i].1.coin_data;
        proof {
            assert(all[i as int] == (coins[i as int].0, coins[i as int].1@));
            lemma_total_step(all, i as int, denom);
            lemma_total_monotonic(all, i + 1, denom);
        }
        if coin.denom.same(&denom) {
            if coin.value > limit - total {
                return false;
            }
            total = total + coin.value;
        }
        i = i + 1;
    }
    assert(all.take(i as int) =~= all);
    true
}

/// Whether the coins of each denomination are together worth no more than `limit`.
pub fn all_totals_within(coins: &Vec<(CoinID, CoinDataHeight)>, limit: u128) -> (within: bool)
    ensures
        within == totals_within(entries(coins@), limit as nat),
{
    let ghost all = entries(coins@);
    let mut i: usize = 0;
    while i < coins.len()
        invariant
            i <= coins.len(),
            all == entries(coins@),
            forall|j: int|
                0 <= j < i ==> denom_total(all, (#[trigger] all[j]).1.coin_data.denom) <= limit,
        decreases coins.len() - i,
    {
        assert(all[i as int] == (coins[i as int].0, coins[i as int].1@));
        if !total_within(coins, coins[i].1.coin_data.denom, limit) {
            return false;
        }
        i = i + 1;
    }
    assert forall|denom: Denom| #[trigger] denom_total(all, denom) <= limit by {
        if has_denom(all, denom) {
            let j = choose|j: int|
                0 <= j < all.len() && (#[trigger] all[j]).1.coin_data.denom == denom;
            assert(denom_total(all, all[j].1.coin_data.denom) <= limit);
        } else {
            lemma_absent_total(all, denom);
        }
    }
    true
}

/// Whether a coin can seed a proof: it is of some token that an earlier transaction created.
pub open spec fn is_seed(entry: (CoinID, CoinDataHeightView)) -> bool {
    entry.1.coin_data.denom is Custom
}

/// The seed coins among a list, in its order.
pub open spec fn seeds(coins: Seq<(CoinID, CoinDataHeightView)>) -> Seq<CoinID> {
    coins.filter(|entry: (CoinID, CoinDataHeightView)| is_seed(entry)).map_values(
        |entry: (CoinID, CoinDataHeightView)| entry.0,
    )
}

/// Whether a coin is of ergs and worth nothing.
pub open spec fn is_empty_erg(entry: (CoinID, CoinDataHeightView)) -> bool {
    entry.1.coin_data.denom == Denom::Erg && entry.1.coin_data.value == 0
}

/// The erg coins among a list that are worth nothing, in its order.
pub open spec fn empty_ergs(coins: Seq<(CoinID, CoinDataHeightView)>) -> Seq<
    (CoinID, CoinDataHeightView),
> {
    coins.filter(|entry: (CoinID, CoinDataHeightView)| is_empty_erg(entry))
}

/// How much a wallet has of a denomination; nothing where it has no such coin.
pub fn balance(wallet: &Wallet, denom: Denom) -> (value: Option<u128>)
    requires
        totals_within(wallet_coins(*wallet), u128::MAX as nat),
    ensures
        value is Some == has_denom(wallet_coins(*wallet), denom),
        value matches Some(value) ==> value == denom_total(wallet_coins(*wallet), denom),
{
    balance_of(wallet, denom)
}

/// Whether a wallet's coins of each denomination are together worth no more than `limit`.
pub fn worth_within(wallet: &Wallet, limit: u128) -> (within: bool)
    ensures
        within == totals_within(wallet_coins(*wallet), limit as nat),
{
    all_totals_within(&coins_of(wallet), limit)
}

/// The seed coins of a wallet, in ascending order.
pub fn seed_coins(wallet: &Wallet) -> (found: Vec<CoinID>)
    ensures
        found@ == seeds(wallet_coins(*wallet)),
        in_order(found@),
{
    let coins = coins_of(wallet);
    let ghost all = entries(coins@);
    let mut found: Vec<CoinID> = Vec::new();
    let mut i: usize = 0;
    assert(seeds(all.take(0)) =~= Seq::<CoinID>::empty()) by {
        reveal(Seq::filter);
    }
    while i < coins.len()
        invariant
            i <= coins.len(),
            all == entries(coins@),
            ascending(coins@),
            found@ == seeds(all.take(i as int)),
            in_order(found@),
            forall|a: int|
                0 <= a < found@.len() ==> exists|k: int|
                    0 <= k < i && #[trigger] coins@[k].0 == #[trigger] found@[a],
        decreases coins.len() - i,
    {
        proof {
            assert(all[i as int] == (coins[i as int].0, coins[i as int].1@));
            assert(all.take(i + 1).drop_last() =~= all.take(i as int));
            reveal(Seq::filter);
            assert(seeds(all.take(i + 1)) =~= (if is_seed(all[i as int]) {
                seeds(all.take(i as int)).push(all[i as int].0)
            } else {
                seeds(all.take(i as int))
            }));
        }
        if coins[i].1.coin_data.denom.is_custom() {
            found.push(coins[i].0);
        }
        i = i + 1;
    }
    assert(all.take(i as int) =~= all);
    found
}

/// The erg coins of a wallet that are worth nothing, in ascending order.
pub fn empty_erg_coins(wallet: &Wallet) -> (found: Vec<(CoinID, CoinDataHeight)>)
    ensures
        entries(found@) == empty_ergs(wallet_coins(*wallet)),
{
    let coins = coins_of(wallet);
    let ghost all = entries(coins@);
    let mut found: Vec<(CoinID, CoinDataHeight)> = Vec::new();
    let mut i: usize = 0;
    assert(entries(found@) =~= empty_ergs(all.take(0))) by {
        reveal(Seq::filter);
    }
    while i < coins.len()
        invariant
            i <= coins.len(),
            all == entries(coins@),
            entries(found@) == empty_ergs(all.take(i as int)),
        decreases coins.len() - i,
    {
        let ghost before = found@;
        proof {
            assert(all[i as int] == (coins[i as int].0, coins[i as int].1@));
            assert(all.take(i + 1).drop_last() =~= all.take(i as int));
            reveal(Seq::filter);
        }
        let coin = &coins[i].1;
        if coin.coin_data.denom.same(&Denom::Erg) && coin.coin_data.value == 0 {
            found.push((coins[i].0, coin.clone()));
            assert(entries(found@) =~= entries(before).push(all[i as int]));
        }
        i = i + 1;
    }
    assert(all.take(i as int) =~= all);
    found
}

} // verus!
