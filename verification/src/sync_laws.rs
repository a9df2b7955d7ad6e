//! What holds of a wallet that is kept in step, whatever happens.

use melstructs::Transaction;
use melwallet::Wallet;
use vstd::prelude::*;

use crate::chain::{CoinDataHeightView, CoinDataView, CoinID};
use crate::retry::RETRY_SECS;
use crate::state::{recorded, MintState};
use crate::sync::{
    absorbed, deleted, next_add, sync_follows, CoinChange, SyncAction, SyncEvent, SyncEventView,
    SyncView, Syncer, SYNC_SECS,
};
use crate::wallet::{
    add_verdict, hash_before, is_seed, seeds, table, wallet_address, wallet_coins, wallet_height,
    wallet_network, wallet_pending, CoinsRefused,
};
use crate::wallet_laws::law_blocks_change_what_they_hold;

verus! {

/// Whether the block that is being fetched is the one after the wallet's height.
pub open spec fn in_step(sync: SyncView, wallet: Wallet) -> bool {
    match sync {
        SyncView::FetchingChanges { height, .. } => height == wallet_height(wallet) + 1,
        SyncView::FetchingCoin { height, .. } => height == wallet_height(wallet) + 1,
        _ => true,
    }
}

/// The coins that a block added, in order, as far as they are found.
pub open spec fn added(
    changes: Seq<CoinChange>,
    found: spec_fn(CoinID) -> Option<CoinDataView>,
) -> Seq<(CoinID, CoinDataView)>
    decreases changes.len(),
{
    if changes.len() == 0 {
        Seq::empty()
    } else {
        let before = added(changes.drop_last(), found);
        match changes.last() {
            CoinChange::Add(id) => match found(id) {
                Some(coin) => before.push((id, coin)),
                None => before,
            },
            CoinChange::Delete(_) => before,
        }
    }
}

/// Blocks are fetched in turn: whatever happens, the next one is the one after the wallet's height.
pub proof fn law_stays_in_step(
    sync: SyncView,
    wallet: Wallet,
    event: SyncEventView,
    next: SyncView,
    left: Wallet,
    action: SyncAction,
)
    requires
        sync.inv(),
        in_step(sync, wallet),
        sync.admits(wallet, event),
        sync_follows(sync, wallet, event, next, left, action),
    ensures
        in_step(next, left),
{
}

/// Sending a transaction in the meantime does not bring the wallet out of step.
pub proof fn law_sending_keeps_in_step(
    sync: SyncView,
    before: MintState,
    tx: Transaction,
    after: MintState,
)
    requires
        in_step(sync, before.wallet),
        recorded(before, tx, after),
    ensures
        in_step(sync, after.wallet),
{
}

/// Where the server hands out the block that it was asked for, the wallet never refuses it as out
/// of turn.
pub proof fn law_no_block_is_out_of_turn(
    sync: SyncView,
    wallet: Wallet,
    new_coins: Seq<(CoinID, CoinDataView)>,
)
    requires
        in_step(sync, wallet),
        sync is FetchingChanges || sync is FetchingCoin,
    ensures
        match sync {
            SyncView::FetchingChanges { height, .. } => add_verdict(wallet, height, new_coins)
                != Err::<(), CoinsRefused>(CoinsRefused::BadHeight),
            SyncView::FetchingCoin { height, .. } => add_verdict(wallet, height, new_coins)
                != Err::<(), CoinsRefused>(CoinsRefused::BadHeight),
            _ => true,
        },
{
}

/// A pass that ends without a failure leaves the wallet at the height that the chain had when the
/// pass began, or above it where it was there already.
pub proof fn law_a_pass_reaches_the_chain(
    sync: SyncView,
    wallet: Wallet,
    event: SyncEventView,
    next: SyncView,
    left: Wallet,
    action: SyncAction,
)
    requires
        sync.inv(),
        in_step(sync, wallet),
        sync.admits(wallet, event),
        sync_follows(sync, wallet, event, next, left, action),
        action == SyncAction::Resend || action == (SyncAction::Rest { secs: SYNC_SECS }),
    ensures
        match sync {
            SyncView::FetchingLatest => wallet_height(left) >= event->Latest_height,
            SyncView::FetchingChanges { latest, .. } => wallet_height(left) == latest,
            SyncView::FetchingCoin { latest, .. } => wallet_height(left) == latest,
            _ => left == wallet,
        },
{
}

/// The wallet moves forward, a block at a time, and stays that of its address.
pub proof fn law_the_wallet_moves_forward(
    sync: SyncView,
    wallet: Wallet,
    event: SyncEventView,
    next: SyncView,
    left: Wallet,
    action: SyncAction,
)
    requires
        sync_follows(sync, wallet, event, next, left, action),
    ensures
        wallet_height(wallet) <= wallet_height(left) <= wallet_height(wallet) + 1,
        wallet_address(left) == wallet_address(wallet),
        wallet_network(left) == wallet_network(wallet),
{
}

/// The wallet changes only by a whole block: a failure leaves it as it was.
pub proof fn law_failures_leave_the_wallet(
    sync: SyncView,
    wallet: Wallet,
    event: SyncEventView,
    next: SyncView,
    left: Wallet,
    action: SyncAction,
)
    requires
        sync_follows(sync, wallet, event, next, left, action),
        action == (SyncAction::Rest { secs: RETRY_SECS }) || action is FetchCoin,
    ensures
        left == wallet,
{
}

/// Transactions are sent again only where the pass brought new blocks, and only those that are
/// pending after them.
pub proof fn law_only_the_pending_is_sent_again(
    sync: SyncView,
    wallet: Wallet,
    event: SyncEventView,
    next: SyncView,
    left: Wallet,
    action: SyncAction,
)
    requires
        sync.inv(),
        sync_follows(sync, wallet, event, next, left, action),
        !(sync is Resending),
        next is Resending,
    ensures
        sync is FetchingChanges || sync is FetchingCoin,
        forall|i: int|
            0 <= i < next->queue.len() ==> wallet_pending(left).contains_pair(
                (#[trigger] next->queue[i]).0,
                next->queue[i].1,
            ),
        forall|txhash: [u8; 32]| #[trigger]
            wallet_pending(left).contains_key(txhash) ==> exists|i: int|
                0 <= i < next->queue.len() && (#[trigger] next->queue[i]).0 == txhash,
{
}

/// A transaction of which a block has a coin is no longer pending after the block, and one of which
/// it has none is pending as before.
pub proof fn law_blocks_confirm_what_they_hold(
    before: Wallet,
    block: u64,
    new_coins: Seq<(CoinID, CoinDataView)>,
    spent_coins: Seq<CoinID>,
    after: Wallet,
    txhash: [u8; 32],
)
    requires
        absorbed(before, block, new_coins, spent_coins, after),
    ensures
        wallet_pending(after).contains_key(txhash) <==> wallet_pending(before).contains_key(txhash)
            && forall|i: int|
            0 <= i < new_coins.len() ==> (#[trigger] new_coins[i]).0.txhash != txhash,
{
}

proof fn lemma_deletes_add_nothing(
    changes: Seq<CoinChange>,
    from: int,
    found: spec_fn(CoinID) -> Option<CoinDataView>,
)
    requires
        0 <= from <= changes.len(),
    ensures
        from <= next_add(changes, from) <= changes.len(),
        added(changes.take(next_add(changes, from)), found) == added(changes.take(from), found),
    decreases changes.len() - from,
{
    if from < changes.len() && !(changes[from] is Add) {
        lemma_deletes_add_nothing(changes, from + 1, found);
        assert(changes.take(from + 1).drop_last() =~= changes.take(from));
    }
}

/// The wallet takes in all of a block's changes at once: once the changes are known, either the
/// next coin is fetched, or the block is taken in with every coin that it added and that is found,
/// and without every coin that it deleted, or it is refused.
pub proof fn law_blocks_are_taken_in_whole(
    sync: SyncView,
    wallet: Wallet,
    event: SyncEventView,
    next: SyncView,
    left: Wallet,
    action: SyncAction,
    changes: Seq<CoinChange>,
    found: spec_fn(CoinID) -> Option<CoinDataView>,
)
    requires
        sync.inv(),
        sync_follows(sync, wallet, event, next, left, action),
        match (sync, event) {
            (SyncView::FetchingChanges { .. }, SyncEventView::Changes { changes: told, .. }) => told
                == changes,
            (
                SyncView::FetchingCoin { changes: told, done, new_coins, .. },
                SyncEventView::Coin(coin),
            ) => {
                &&& told == changes
                &&& new_coins == added(changes.take(done), found)
                &&& coin == found(changes[done]->Add_0)
            },
            _ => false,
        },
    ensures
        match (next, action) {
            (SyncView::FetchingCoin { changes: told, done, new_coins, .. }, _) => {
                &&& told == changes
                &&& new_coins == added(changes.take(done), found)
                &&& action is FetchCoin && action->id == changes[done]->Add_0
                &&& left == wallet
            },
            _ => {
                let block = match (sync, event) {
                    (_, SyncEventView::Changes { height, .. }) => height,
                    _ => sync->block,
                };
                if add_verdict(wallet, block, added(changes, found)) is Ok {
                    absorbed(wallet, block, added(changes, found), deleted(changes), left)
                } else {
                    left == wallet && action == (SyncAction::Rest { secs: RETRY_SECS })
                }
            },
        },
{
    match sync {
        SyncView::FetchingChanges { .. } => {
            lemma_deletes_add_nothing(changes, 0, found);
            assert(added(changes.take(0), found) =~= Seq::empty());
        },
        SyncView::FetchingCoin { done, .. } => {
            lemma_deletes_add_nothing(changes, done + 1, found);
            assert(changes.take(done + 1).drop_last() =~= changes.take(done));
        },
        _ => {},
    }
    assert(changes.take(changes.len() as int) =~= changes);
}

proof fn lemma_listed_is_in_table(list: Seq<(CoinID, CoinDataHeightView)>, k: int)
    requires
        0 <= k < list.len(),
    ensures
        table(list).contains_key(list[k].0),
    decreases list.len(),
{
    if k < list.len() - 1 {
        lemma_listed_is_in_table(list.drop_last(), k);
    }
}

/// A seed coin is used only once: after the block that spends it, it is no seed coin any more.
pub proof fn law_spent_seeds_are_gone(
    before: Wallet,
    block: u64,
    new_coins: Seq<(CoinID, CoinDataView)>,
    spent_coins: Seq<CoinID>,
    after: Wallet,
    seed: CoinID,
)
    requires
        absorbed(before, block, new_coins, spent_coins, after),
        spent_coins.contains(seed),
    ensures
        !seeds(wallet_coins(after)).contains(seed),
{
    let coins = wallet_coins(after);
    let wanted = |entry: (CoinID, CoinDataHeightView)| is_seed(entry);
    let kept = coins.filter(wanted);
    if seeds(coins).contains(seed) {
        let i = choose|i: int| 0 <= i < kept.len() && seeds(coins)[i] == seed;
        assert(kept[i].0 == seed);
        coins.lemma_filter_contains_rev(wanted, kept[i]);
        assert(coins.contains(kept[i]));
        let k = choose|k: int| 0 <= k < coins.len() && coins[k] == kept[i];
        lemma_listed_is_in_table(coins, k);
        assert(spent_coins.to_set().contains(seed));
    }
}

/// The spent coins that a wallet is told of are all that the block deleted, and no others.
pub proof fn law_every_deleted_coin_is_spent(changes: Seq<CoinChange>, id: CoinID)
    ensures
        deleted(changes).contains(id) <==> changes.contains(CoinChange::Delete(id)),
    decreases changes.len(),
{
    if changes.len() > 0 {
        let before = changes.drop_last();
        law_every_deleted_coin_is_spent(before, id);
        let (all, fewer) = (deleted(changes), deleted(before));
        if before.contains(CoinChange::Delete(id)) {
            let i = choose|i: int| 0 <= i < before.len() && before[i] == CoinChange::Delete(id);
            assert(changes[i] == CoinChange::Delete(id));
        }
        if changes.contains(CoinChange::Delete(id)) {
            let i = choose|i: int| 0 <= i < changes.len() && changes[i] == CoinChange::Delete(id);
            if i < changes.len() - 1 {
                assert(before[i] == CoinChange::Delete(id));
                let k = choose|k: int| 0 <= k < fewer.len() && fewer[k] == id;
                assert(all[k] == id);
            } else {
                assert(all[fewer.len() as int] == id);
            }
        }
        if all.contains(id) {
            let k = choose|k: int| 0 <= k < all.len() && all[k] == id;
            if k < fewer.len() {
                assert(fewer[k] == id);
            } else {
                assert(changes[changes.len() - 1] == CoinChange::Delete(id));
            }
        }
    }
}

/// The new coins that a wallet is told of are all that the block added and that are found, and no
/// others.
pub proof fn law_every_found_coin_is_new(
    changes: Seq<CoinChange>,
    found: spec_fn(CoinID) -> Option<CoinDataView>,
    id: CoinID,
    coin: CoinDataView,
)
    ensures
        added(changes, found).contains((id, coin)) <==> changes.contains(CoinChange::Add(id))
            && found(id) == Some(coin),
    decreases changes.len(),
{
    if changes.len() > 0 {
        let before = changes.drop_last();
        law_every_found_coin_is_new(before, found, id, coin);
        let (all, fewer) = (added(changes, found), added(before, found));
        if before.contains(CoinChange::Add(id)) {
            let i = choose|i: int| 0 <= i < before.len() && before[i] == CoinChange::Add(id);
            assert(changes[i] == CoinChange::Add(id));
        }
        if changes.contains(CoinChange::Add(id)) && found(id) == Some(coin) {
            let i = choose|i: int| 0 <= i < changes.len() && changes[i] == CoinChange::Add(id);
            if i < changes.len() - 1 {
                assert(before[i] == CoinChange::Add(id));
                let k = choose|k: int| 0 <= k < fewer.len() && fewer[k] == (id, coin);
                assert(all[k] == (id, coin));
            } else {
                assert(all[fewer.len() as int] == (id, coin));
            }
        }
        if all.contains((id, coin)) {
            let k = choose|k: int| 0 <= k < all.len() && all[k] == (id, coin);
            if k < fewer.len() {
                assert(fewer[k] == (id, coin));
            } else {
                assert(changes[changes.len() - 1] == CoinChange::Add(id));
            }
        }
    }
}

/// After a block the wallet has no coin that the block deleted. It has every other coin that it
/// had, and every other coin that the block added and that is found, at the block's height; and it
/// has no more.
pub proof fn law_the_wallet_follows_the_block(
    before: Wallet,
    block: u64,
    changes: Seq<CoinChange>,
    found: spec_fn(CoinID) -> Option<CoinDataView>,
    after: Wallet,
    id: CoinID,
)
    requires
        absorbed(before, block, added(changes, found), deleted(changes), after),
    ensures
        ({
            let (was, now) = (table(wallet_coins(before)), table(wallet_coins(after)));
            let gone = changes.contains(CoinChange::Delete(id));
            let fresh = changes.contains(CoinChange::Add(id)) && found(id) is Some;
            &&& gone ==> !now.contains_key(id)
            &&& !gone && fresh ==> now.contains_key(id) && now[id].coin_data == found(id)->0
                && now[id].height == block
            &&& !gone && !fresh ==> (now.contains_key(id) <==> was.contains_key(id))
            &&& !gone && !fresh && was.contains_key(id) ==> now[id] == was[id]
        }),
        wallet_height(after) == block,
        wallet_address(after) == wallet_address(before),
        wallet_network(after) == wallet_network(before),
{
    let new_coins = added(changes, found);
    law_every_deleted_coin_is_spent(changes, id);
    law_blocks_change_what_they_hold(
        table(wallet_coins(before)),
        block,
        new_coins,
        deleted(changes),
        id,
    );
    let fresh = changes.contains(CoinChange::Add(id)) && found(id) is Some;
    if fresh {
        law_every_found_coin_is_new(changes, found, id, found(id)->0);
        let k = choose|k: int| 0 <= k < new_coins.len() && new_coins[k] == (id, found(id)->0);
        assert(new_coins[k].0 == id);
        lemma_added_is_found(changes, found);
        let last = lemma_last_new(new_coins, id);
        assert(new_coins[last].1 == found(id)->0);
    } else if exists|k: int| 0 <= k < new_coins.len() && (#[trigger] new_coins[k]).0 == id {
        let k = choose|k: int| 0 <= k < new_coins.len() && (#[trigger] new_coins[k]).0 == id;
        assert(new_coins.contains((id, new_coins[k].1)));
        law_every_found_coin_is_new(changes, found, id, new_coins[k].1);
    }
}

proof fn lemma_added_is_found(
    changes: Seq<CoinChange>,
    found: spec_fn(CoinID) -> Option<CoinDataView>,
)
    ensures
        forall|k: int|
            0 <= k < added(changes, found).len() ==> found((#[trigger] added(changes, found)[k]).0)
                == Some(added(changes, found)[k].1),
    decreases changes.len(),
{
    if changes.len() > 0 {
        lemma_added_is_found(changes.drop_last(), found);
    }
}

proof fn lemma_last_new(coins: Seq<(CoinID, CoinDataView)>, id: CoinID) -> (last: int)
    requires
        exists|i: int| 0 <= i < coins.len() && (#[trigger] coins[i]).0 == id,
    ensures
        0 <= last < coins.len(),
        coins[last].0 == id,
        forall|j: int| last < j < coins.len() ==> (#[trigger] coins[j]).0 != id,
    decreases coins.len(),
{
    if coins.last().0 == id {
        coins.len() - 1
    } else {
        let i = choose|i: int| 0 <= i < coins.len() && (#[trigger] coins[i]).0 == id;
        let shorter = coins.drop_last();
        assert(shorter[i].0 == id);
        let last = lemma_last_new(shorter, id);
        assert forall|j: int| last < j < coins.len() implies (#[trigger] coins[j]).0 != id by {
            if j < coins.len() - 1 {
                assert(shorter[j].0 != id);
            }
        }
        last
    }
}

proof fn lemma_next_add(changes: Seq<CoinChange>, from: int)
    requires
        0 <= from <= changes.len(),
    ensures
        from <= next_add(changes, from) <= changes.len(),
        next_add(changes, from) < changes.len() ==> changes[next_add(changes, from)] is Add,
        forall|i: int| from <= i < next_add(changes, from) ==> (#[trigger] changes[i]) is Delete,
    decreases changes.len() - from,
{
    if from < changes.len() && !(changes[from] is Add) {
        lemma_next_add(changes, from + 1);
    }
}

/// Within a block the coins that it added are fetched one after the other: the one that is fetched
/// is the first that was not fetched yet, as of the block that was asked for, and the block is
/// taken in only once there is none left.
pub proof fn law_added_coins_are_fetched_in_turn(
    sync: SyncView,
    wallet: Wallet,
    event: SyncEventView,
    next: SyncView,
    left: Wallet,
    action: SyncAction,
    changes: Seq<CoinChange>,
    from: int,
)
    requires
        sync.inv(),
        sync_follows(sync, wallet, event, next, left, action),
        match (sync, event) {
            (SyncView::FetchingChanges { .. }, SyncEventView::Changes { changes: told, .. }) => told
                == changes && from == 0,
            (SyncView::FetchingCoin { changes: told, done, .. }, SyncEventView::Coin(_)) => told
                == changes && from == done + 1,
            _ => false,
        },
    ensures
        match next {
            SyncView::FetchingCoin { done, changes: kept, height, latest, start, .. } => {
                &&& kept == changes
                &&& from <= done < changes.len()
                &&& changes[done] == CoinChange::Add(action->id)
                &&& forall|i: int| from <= i < done ==> (#[trigger] changes[i]) is Delete
                &&& action == (SyncAction::FetchCoin { height, id: action->id })
                &&& (match sync {
                    SyncView::FetchingChanges { height: h, latest: l, start: s } => height == h
                        && latest == l && start == s,
                    SyncView::FetchingCoin { height: h, latest: l, start: s, .. } => height == h
                        && latest == l && start == s,
                    _ => false,
                })
            },
            _ => forall|i: int|
                from <= i < changes.len() ==> (#[trigger] changes[i]) is Delete,
        },
{
    lemma_next_add(changes, from);
}

/// A pass begins with the block after the wallet's height, where the chain is higher than the
/// wallet, and is over at once where it is not.
pub proof fn law_passes_begin_after_the_wallet(
    wallet: Wallet,
    latest: u64,
    next: SyncView,
    left: Wallet,
    action: SyncAction,
)
    requires
        sync_follows(
            SyncView::FetchingLatest,
            wallet,
            SyncEventView::Latest { height: latest },
            next,
            left,
            action,
        ),
        wallet_height(wallet) < u64::MAX,
    ensures
        left == wallet,
        latest > wallet_height(wallet) ==> {
            let first = (wallet_height(wallet) + 1) as u64;
            &&& action == (SyncAction::FetchChanges { height: first })
            &&& next == (SyncView::FetchingChanges {
                start: wallet_height(wallet),
                latest,
                height: first,
            })
        },
        latest <= wallet_height(wallet) ==> action == (SyncAction::Rest { secs: 10 }) && next
            == SyncView::Resting,
{
}

/// Once a block is taken in the next one is fetched, up to the height that the chain had. After
/// that everything that is still pending is sent again, from the first, and where nothing is the
/// pass is over.
pub proof fn law_passes_go_on_to_the_chains_height(
    sync: SyncView,
    wallet: Wallet,
    event: SyncEventView,
    next: SyncView,
    left: Wallet,
    action: SyncAction,
    latest: u64,
    height: u64,
)
    requires
        sync.inv(),
        sync_follows(sync, wallet, event, next, left, action),
        match sync {
            SyncView::FetchingChanges { latest: l, height: h, .. } => l == latest && h == height,
            SyncView::FetchingCoin { latest: l, height: h, .. } => l == latest && h == height,
            _ => false,
        },
        !(action is FetchCoin),
        action != (SyncAction::Rest { secs: 1 }),
    ensures
        height < latest ==> {
            &&& action == (SyncAction::FetchChanges { height: (height + 1) as u64 })
            &&& next matches SyncView::FetchingChanges { latest: l, height: h, .. }
            &&& l == latest
            &&& h == height + 1
        },
        height == latest && (exists|txhash: [u8; 32]| #[trigger]
            wallet_pending(left).contains_key(txhash)) ==> {
            &&& action == SyncAction::Resend
            &&& next is Resending
            &&& next->resent == 0
        },
        height == latest && (forall|txhash: [u8; 32]|
            !#[trigger] wallet_pending(left).contains_key(txhash)) ==> action == (
        SyncAction::Rest { secs: 10 }) && next == SyncView::Resting,
{
}

/// What is to be sent again is sent one after the other, in ascending order of the hashes, each
/// once; then the pass is over.
pub proof fn law_the_queue_is_sent_in_order(
    queue: Seq<([u8; 32], Transaction)>,
    resent: int,
    wallet: Wallet,
    next: SyncView,
    left: Wallet,
    action: SyncAction,
)
    requires
        sync_follows(
            SyncView::Resending { queue, resent },
            wallet,
            SyncEventView::Resent,
            next,
            left,
            action,
        ),
    ensures
        left == wallet,
        resent < queue.len() - 1 ==> action == SyncAction::Resend && next == (SyncView::Resending {
            queue,
            resent: resent + 1,
        }),
        resent >= queue.len() - 1 ==> action == (SyncAction::Rest { secs: 10 }) && next
            == SyncView::Resting,
{
}

/// Where sending again begins, the hashes of the queue are in ascending order, so none occurs
/// twice.
pub proof fn law_the_queue_is_in_order(
    sync: SyncView,
    wallet: Wallet,
    event: SyncEventView,
    next: SyncView,
    left: Wallet,
    action: SyncAction,
    i: int,
    j: int,
)
    requires
        sync.inv(),
        sync_follows(sync, wallet, event, next, left, action),
        !(sync is Resending),
        next is Resending,
        0 <= i < j < next->queue.len(),
    ensures
        hash_before(next->queue[i].0, next->queue[j].0),
        next->queue[i].0 != next->queue[j].0,
{
    assert(hash_before(next->queue[i].0, next->queue[j].0));
}

/// A failure is followed by a rest of one second; after any rest everything starts over with the
/// height of the chain.
pub proof fn law_failed_passes_start_over(
    sync: SyncView,
    wallet: Wallet,
    next: SyncView,
    left: Wallet,
    action: SyncAction,
)
    ensures
        sync_follows(sync, wallet, SyncEventView::Failed, next, left, action) ==> action == (
        SyncAction::Rest { secs: 1 }) && next == SyncView::Resting && left == wallet,
        sync_follows(SyncView::Resting, wallet, SyncEventView::Rested, next, left, action)
            ==> action == SyncAction::FetchLatest && next == SyncView::FetchingLatest && left
            == wallet,
{
}

/// Whatever is waited for can come, as long as there is a height after the wallet's and the
/// chain's; but where a rest is waited for nothing can fail.
pub proof fn law_what_is_waited_for_can_come(sync: SyncView, wallet: Wallet, event: SyncEventView)
    ensures
        sync.admits(wallet, event) <==> match event {
            SyncEventView::Latest { height } => sync is FetchingLatest && wallet_height(wallet)
                < u64::MAX && height < u64::MAX,
            SyncEventView::Changes { .. } => sync is FetchingChanges && wallet_height(wallet)
                < u64::MAX,
            SyncEventView::Coin(_) => sync is FetchingCoin && wallet_height(wallet) < u64::MAX,
            SyncEventView::Resent => sync is Resending,
            SyncEventView::Rested => sync is Resting,
            SyncEventView::Failed => !(sync is Resting),
        },
{
}

/// An event and a synchroniser have the content of everything in them.
pub proof fn law_events_hold_what_happened(event: SyncEvent, syncer: Syncer)
    ensures
        match event {
            SyncEvent::Latest { height } => event@ == (SyncEventView::Latest { height }),
            SyncEvent::Changes { height, changes } => event@ == (SyncEventView::Changes {
                height,
                changes: changes@,
            }),
            SyncEvent::Coin(Some(coin)) => event@ == SyncEventView::Coin(Some(coin@)),
            SyncEvent::Coin(None) => event@ == SyncEventView::Coin(None),
            SyncEvent::Resent => event@ == SyncEventView::Resent,
            SyncEvent::Rested => event@ == SyncEventView::Rested,
            SyncEvent::Failed => event@ == SyncEventView::Failed,
        },
        match syncer {
            Syncer::FetchingLatest => syncer@ == SyncView::FetchingLatest,
            Syncer::FetchingChanges { start, latest, height } => syncer@ == (
            SyncView::FetchingChanges { start, latest, height }),
            Syncer::FetchingCoin { start, latest, height, block, changes, done, new_coins } => {
                &&& syncer@ matches SyncView::FetchingCoin {
                    start: s,
                    latest: l,
                    height: h,
                    block: b,
                    changes: c,
                    done: d,
                    new_coins: n,
                }
                &&& s == start && l == latest && h == height && b == block && c == changes@ && d
                    == done
                &&& n.len() == new_coins@.len()
                &&& forall|i: int|
                    0 <= i < n.len() ==> (#[trigger] n[i]) == (new_coins@[i].0, new_coins@[i].1@)
            },
            Syncer::Resending { queue, resent } => syncer@ == (SyncView::Resending {
                queue: queue@,
                resent: resent as int,
            }),
            Syncer::Resting => syncer@ == SyncView::Resting,
        },
{
}

} // verus!
