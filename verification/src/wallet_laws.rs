//! What holds of the coins of a wallet, and of what is read off them.

use melwallet::Wallet;
use vstd::prelude::*;

use crate::chain::{CoinData, CoinDataHeight, CoinDataHeightView, CoinDataView, CoinID, Denom};
use crate::tx::tx_inputs;
use crate::wallet::{
    add_verdict, after_block, at_height, denom_total, distinct, empty_ergs, entries, has_denom,
    hash_before, id_before, offered, origins, reset_verdict, seeds, table, totals_within, unlocked,
    wallet_address, wallet_height, wallet_pending, CoinsRefused,
};

verus! {

/// A list by content has the content of each entry at its index.
pub proof fn law_lists_by_content_keep_their_entries(
    coins: Seq<(CoinID, CoinDataHeight)>,
    new_coins: Seq<(CoinID, CoinData)>,
    found: Seq<(CoinID, CoinDataView)>,
    height: u64,
)
    ensures
        entries(coins).len() == coins.len(),
        forall|i: int|
            0 <= i < coins.len() ==> (#[trigger] entries(coins)[i]) == (coins[i].0, coins[i].1@),
        offered(new_coins).len() == new_coins.len(),
        forall|i: int|
            0 <= i < new_coins.len() ==> (#[trigger] offered(new_coins)[i]) == (
                new_coins[i].0,
                new_coins[i].1@,
            ),
        at_height(found, height).len() == found.len(),
        forall|i: int|
            0 <= i < found.len() ==> {
                &&& (#[trigger] at_height(found, height)[i]).0 == found[i].0
                &&& at_height(found, height)[i].1.coin_data == found[i].1
                &&& at_height(found, height)[i].1.height == height
            },
{
}

/// What coins of a denomination are worth together adds up: nothing for no coins, the coin's value
/// for one coin of the denomination and nothing for one of another, and the sum for two lists.
pub proof fn law_totals_add_up(
    a: Seq<(CoinID, CoinDataHeightView)>,
    b: Seq<(CoinID, CoinDataHeightView)>,
    entry: (CoinID, CoinDataHeightView),
    denom: Denom,
)
    ensures
        denom_total(Seq::empty(), denom) == 0,
        entry.1.coin_data.denom == denom ==> denom_total(seq![entry], denom)
            == entry.1.coin_data.value,
        entry.1.coin_data.denom != denom ==> denom_total(seq![entry], denom) == 0,
        denom_total(a + b, denom) == denom_total(a, denom) + denom_total(b, denom),
    decreases b.len(),
{
    reveal_with_fuel(denom_total, 2);
    assert(seq![entry].drop_last() =~= Seq::empty());
    if b.len() == 0 {
        assert(a + b =~= a);
    } else {
        law_totals_add_up(a, b.drop_last(), entry, denom);
        assert((a + b).drop_last() =~= a + b.drop_last());
    }
}

/// A denomination occurs among coins if and only if one of them is of it.
pub proof fn law_denominations_occur_with_their_coins(
    coins: Seq<(CoinID, CoinDataHeightView)>,
    entry: (CoinID, CoinDataHeightView),
    denom: Denom,
)
    ensures
        !has_denom(Seq::empty(), denom),
        has_denom(coins.push(entry), denom) <==> has_denom(coins, denom)
            || entry.1.coin_data.denom == denom,
        coins.contains(entry) ==> has_denom(coins, entry.1.coin_data.denom),
{
    if has_denom(coins, denom) {
        let i = choose|i: int|
            0 <= i < coins.len() && (#[trigger] coins[i]).1.coin_data.denom == denom;
        assert(coins.push(entry)[i].1.coin_data.denom == denom);
    }
    if entry.1.coin_data.denom == denom {
        assert(coins.push(entry)[coins.len() as int].1.coin_data.denom == denom);
    }
    if has_denom(coins.push(entry), denom) {
        let i = choose|i: int|
            0 <= i < coins.push(entry).len() && (#[trigger] coins.push(
                entry,
            )[i]).1.coin_data.denom == denom;
        if i < coins.len() {
            assert(coins[i].1.coin_data.denom == denom);
        }
    }
    if coins.contains(entry) {
        let i = choose|i: int| 0 <= i < coins.len() && coins[i] == entry;
        assert(coins[i].1.coin_data.denom == entry.1.coin_data.denom);
    }
}

/// Totals are within a limit if and only if no denomination exceeds it.
pub proof fn law_totals_within_a_limit(
    coins: Seq<(CoinID, CoinDataHeightView)>,
    limit: nat,
    denom: Denom,
)
    ensures
        totals_within(coins, limit) ==> denom_total(coins, denom) <= limit,
        !totals_within(coins, limit) ==> exists|over: Denom| #[trigger]
            denom_total(coins, over) > limit,
{
}

/// The seed coins of two lists are those of the first and then those of the second; one coin is a
/// seed coin if and only if it is of a token that an earlier transaction created, whatever it is
/// worth.
pub proof fn law_seeds_are_the_coins_of_tokens(
    a: Seq<(CoinID, CoinDataHeightView)>,
    b: Seq<(CoinID, CoinDataHeightView)>,
    entry: (CoinID, CoinDataHeightView),
)
    ensures
        seeds(Seq::empty()) == Seq::<CoinID>::empty(),
        entry.1.coin_data.denom is Custom ==> seeds(seq![entry]) == seq![entry.0],
        !(entry.1.coin_data.denom is Custom) ==> seeds(seq![entry]) == Seq::<CoinID>::empty(),
        seeds(a + b) == seeds(a) + seeds(b),
    decreases b.len(),
{
    reveal_with_fuel(Seq::filter, 2);
    assert(seeds(Seq::empty()) =~= Seq::<CoinID>::empty());
    assert(seq![entry].drop_last() =~= Seq::empty());
    if entry.1.coin_data.denom is Custom {
        assert(seeds(seq![entry]) =~= seq![entry.0]);
    } else {
        assert(seeds(seq![entry]) =~= Seq::<CoinID>::empty());
    }
    if b.len() == 0 {
        assert(a + b =~= a);
        assert(seeds(a) + seeds(b) =~= seeds(a));
    } else {
        law_seeds_are_the_coins_of_tokens(a, b.drop_last(), entry);
        assert((a + b).drop_last() =~= a + b.drop_last());
        assert(seeds(a + b) =~= seeds(a) + seeds(b));
    }
}

/// The empty erg coins of two lists are those of the first and then those of the second; one coin
/// is among them if and only if it is of ergs and worth nothing.
pub proof fn law_empty_ergs_are_ergs_worth_nothing(
    a: Seq<(CoinID, CoinDataHeightView)>,
    b: Seq<(CoinID, CoinDataHeightView)>,
    entry: (CoinID, CoinDataHeightView),
)
    ensures
        empty_ergs(Seq::empty()) == Seq::<(CoinID, CoinDataHeightView)>::empty(),
        entry.1.coin_data.denom is Erg && entry.1.coin_data.value == 0 ==> empty_ergs(seq![entry])
            == seq![entry],
        !(entry.1.coin_data.denom is Erg && entry.1.coin_data.value == 0) ==> empty_ergs(
            seq![entry],
        ) == Seq::<(CoinID, CoinDataHeightView)>::empty(),
        empty_ergs(a + b) == empty_ergs(a) + empty_ergs(b),
    decreases b.len(),
{
    reveal_with_fuel(Seq::filter, 2);
    assert(seq![entry].drop_last() =~= Seq::empty());
    assert(empty_ergs(seq![entry]) =~= (if entry.1.coin_data.denom is Erg
        && entry.1.coin_data.value == 0 {
        seq![entry]
    } else {
        Seq::empty()
    }));
    if b.len() == 0 {
        assert(a + b =~= a);
        assert(empty_ergs(a) + empty_ergs(b) =~= empty_ergs(a));
    } else {
        law_empty_ergs_are_ergs_worth_nothing(a, b.drop_last(), entry);
        assert((a + b).drop_last() =~= a + b.drop_last());
        assert(empty_ergs(a + b) =~= empty_ergs(a) + empty_ergs(b));
    }
}

/// A table has exactly the identifiers of its list.
pub proof fn law_tables_have_what_is_listed<V>(list: Seq<(CoinID, V)>, id: CoinID)
    ensures
        table(list).contains_key(id) <==> exists|i: int|
            0 <= i < list.len() && (#[trigger] list[i]).0 == id,
    decreases list.len(),
{
    if list.len() > 0 {
        let shorter = list.drop_last();
        law_tables_have_what_is_listed(shorter, id);
        if table(shorter).contains_key(id) {
            let i = choose|i: int| 0 <= i < shorter.len() && (#[trigger] shorter[i]).0 == id;
            assert(list[i].0 == id);
        }
        if list.last().0 == id {
            assert(list[list.len() - 1].0 == id);
        }
        if exists|i: int| 0 <= i < list.len() && (#[trigger] list[i]).0 == id {
            let i = choose|i: int| 0 <= i < list.len() && (#[trigger] list[i]).0 == id;
            if i < list.len() - 1 {
                assert(shorter[i].0 == id);
            }
        }
    }
}

/// Of the entries with one identifier the table has the last.
pub proof fn law_the_last_entry_stands<V>(list: Seq<(CoinID, V)>, last: int)
    requires
        0 <= last < list.len(),
        forall|j: int| last < j < list.len() ==> (#[trigger] list[j]).0 != list[last].0,
    ensures
        table(list).contains_key(list[last].0),
        table(list)[list[last].0] == list[last].1,
    decreases list.len(),
{
    if last < list.len() - 1 {
        let shorter = list.drop_last();
        assert(list[list.len() - 1].0 != list[last].0);
        assert forall|j: int| last < j < shorter.len() implies (#[trigger] shorter[j]).0
            != shorter[last].0 by {
            assert(list[j].0 != list[last].0);
        }
        law_the_last_entry_stands(shorter, last);
    }
}

/// A coin may be spent if and only if no pending transaction spends it.
pub proof fn law_coins_are_locked_by_what_is_pending(wallet: Wallet, id: CoinID, txhash: [u8; 32])
    ensures
        wallet_pending(wallet).contains_key(txhash) && tx_inputs(
            wallet_pending(wallet)[txhash],
        ).contains(id) ==> !unlocked(wallet, id),
        !unlocked(wallet, id) ==> exists|other: [u8; 32]|
            wallet_pending(wallet).contains_key(other) && tx_inputs(
                #[trigger] wallet_pending(wallet)[other],
            ).contains(id),
{
}

/// A block's coins are taken in if and only if the block is the next one and all of them are of the
/// wallet's address.
pub proof fn law_blocks_are_refused_for_height_or_address(
    wallet: Wallet,
    height: u64,
    new_coins: Seq<(CoinID, CoinDataView)>,
)
    ensures
        ({
            let verdict = add_verdict(wallet, height, new_coins);
            let owned = forall|i: int|
                0 <= i < new_coins.len() ==> (#[trigger] new_coins[i]).1.covhash == wallet_address(
                    wallet,
                );
            &&& verdict is Ok <==> height == wallet_height(wallet) + 1 && owned
            &&& verdict == Err::<(), CoinsRefused>(CoinsRefused::BadHeight) <==> height
                != wallet_height(wallet) + 1
        }),
{
}

/// After a block the wallet has a coin if and only if it had it or the block added it, and the
/// block did not spend it; and it is as the block has it where the block added it, at the block's
/// height.
pub proof fn law_blocks_change_what_they_hold(
    before: Map<CoinID, CoinDataHeightView>,
    height: u64,
    new_coins: Seq<(CoinID, CoinDataView)>,
    spent_coins: Seq<CoinID>,
    id: CoinID,
)
    ensures
        ({
            let after = after_block(before, height, new_coins, spent_coins);
            let added = exists|i: int|
                0 <= i < new_coins.len() && (#[trigger] new_coins[i]).0 == id;
            &&& after.contains_key(id) <==> (before.contains_key(id) || added)
                && !spent_coins.contains(id)
            &&& after.contains_key(id) && !added ==> after[id] == before[id]
            &&& after.contains_key(id) && added ==> after[id].height == height
            &&& forall|i: int|
                0 <= i < new_coins.len() && (#[trigger] new_coins[i]).0 == id && (forall|j: int|
                    i < j < new_coins.len() ==> (#[trigger] new_coins[j]).0 != id)
                    && !spent_coins.contains(id) ==> after[id].coin_data == new_coins[i].1
        }),
{
    let listed = at_height(new_coins, height);
    let after = after_block(before, height, new_coins, spent_coins);
    law_tables_have_what_is_listed(listed, id);
    assert(spent_coins.to_set().contains(id) <==> spent_coins.contains(id));
    let added = exists|i: int| 0 <= i < new_coins.len() && (#[trigger] new_coins[i]).0 == id;
    if added {
        let i = choose|i: int| 0 <= i < new_coins.len() && (#[trigger] new_coins[i]).0 == id;
        assert(listed[i].0 == id);
    }
    if table(listed).contains_key(id) {
        let i = choose|i: int| 0 <= i < listed.len() && (#[trigger] listed[i]).0 == id;
        assert(new_coins[i].0 == id);
        let last = lemma_last_index(listed, id);
        law_the_last_entry_stands(listed, last);
    }
    assert forall|i: int|
        0 <= i < new_coins.len() && (#[trigger] new_coins[i]).0 == id && (forall|j: int|
            i < j < new_coins.len() ==> (#[trigger] new_coins[j]).0 != id)
            && !spent_coins.contains(id) implies after[id].coin_data == new_coins[i].1 by {
        assert(listed[i].0 == id);
        assert forall|j: int| i < j < listed.len() implies (#[trigger] listed[j]).0 != id by {
            assert(new_coins[j].0 != id);
        }
        law_the_last_entry_stands(listed, i);
    }
}

proof fn lemma_last_index<V>(list: Seq<(CoinID, V)>, id: CoinID) -> (last: int)
    requires
        exists|i: int| 0 <= i < list.len() && (#[trigger] list[i]).0 == id,
    ensures
        0 <= last < list.len(),
        list[last].0 == id,
        forall|j: int| last < j < list.len() ==> (#[trigger] list[j]).0 != id,
    decreases list.len(),
{
    if list.last().0 == id {
        list.len() - 1
    } else {
        let i = choose|i: int| 0 <= i < list.len() && (#[trigger] list[i]).0 == id;
        let shorter = list.drop_last();
        assert(shorter[i].0 == id);
        let last = lemma_last_index(shorter, id);
        assert forall|j: int| last < j < list.len() implies (#[trigger] list[j]).0 != id by {
            if j < list.len() - 1 {
                assert(shorter[j].0 != id);
            }
        }
        last
    }
}

/// The transactions that made coins are those whose hash a coin's identifier has.
pub proof fn law_coins_come_from_their_transactions<V>(coins: Seq<(CoinID, V)>, txhash: [u8; 32])
    ensures
        origins(coins).contains(txhash) <==> exists|i: int|
            0 <= i < coins.len() && (#[trigger] coins[i]).0.txhash == txhash,
{
}

/// A list that is to replace everything is refused if and only if some coin that stands in it is of
/// another address.
pub proof fn law_lists_are_refused_for_the_address(
    wallet: Wallet,
    coins: Seq<(CoinID, CoinDataHeightView)>,
)
    requires
        distinct(coins),
    ensures
        reset_verdict(wallet, coins) is Ok <==> forall|i: int|
            0 <= i < coins.len() ==> (#[trigger] coins[i]).1.coin_data.covhash == wallet_address(
                wallet,
            ),
{
    if reset_verdict(wallet, coins) is Ok {
        assert forall|i: int| 0 <= i < coins.len() implies (
        #[trigger] coins[i]).1.coin_data.covhash == wallet_address(wallet) by {
            law_the_last_entry_stands(coins, i);
            assert(table(coins)[coins[i].0] == coins[i].1);
        }
    } else {
        let id = choose|id: CoinID|
            table(coins).contains_key(id) && (#[trigger] table(coins)[id]).coin_data.covhash
                != wallet_address(wallet);
        law_tables_have_what_is_listed(coins, id);
        let last = lemma_last_index(coins, id);
        law_the_last_entry_stands(coins, last);
    }
}

/// Identifiers are in order by the first byte in which their hashes differ, and by index where the
/// hashes are the same: of two, one comes first, and none before itself.
pub proof fn law_identifiers_are_in_a_line(a: CoinID, b: CoinID, k: int)
    requires
        0 <= k < 32,
        forall|j: int| 0 <= j < k ==> a.txhash[j] == b.txhash[j],
    ensures
        a.txhash[k] < b.txhash[k] ==> id_before(a, b) && !id_before(b, a) && hash_before(
            a.txhash,
            b.txhash,
        ) && !hash_before(b.txhash, a.txhash),
        a.txhash == b.txhash ==> (id_before(a, b) <==> a.index < b.index) && !hash_before(
            a.txhash,
            b.txhash,
        ),
{
    if a.txhash[k] < b.txhash[k] {
        assert(id_before(a, b));
        assert(a.txhash != b.txhash);
    }
}

} // verus!
