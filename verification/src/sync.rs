//! Keeping the wallet in step with the chain, block by block.
//!
//! The synchroniser decides, and whoever runs it acts: it is told what happened and answers with
//! what to do next.

use melstructs::Transaction;
use melwallet::Wallet;
use vstd::prelude::*;

use crate::chain::{CoinData, CoinDataView, CoinID};
use crate::retry::RETRY_SECS;
use crate::state::MintState;
use crate::wallet::{
    add_coins, add_verdict, after_block, hash_before, height_of, offered, origins, pending_of,
    table, wallet_address, wallet_coins, wallet_height, wallet_network, wallet_pending,
};

verus! {

/// How long to rest, in seconds, once the wallet is in step.
pub const SYNC_SECS: u64 = 10;

/// What a block did to a coin of the wallet's address.
#[derive(Clone, Copy, Debug, PartialEq, Eq)]
pub enum CoinChange {
    Add(CoinID),
    Delete(CoinID),
}

/// What happened.
#[derive(Debug)]
pub enum SyncEvent {
    /// The height of the chain.
    Latest { height: u64 },
    /// What a block did to the coins of the wallet's address, and the block's own height.
    Changes { height: u64, changes: Vec<CoinChange> },
    /// A coin; nothing where the block has no such coin.
    Coin(Option<CoinData>),
    /// The transaction is sent.
    Resent,
    /// The rest is over.
    Rested,
    /// The action failed.
    Failed,
}

/// The mathematical content of a [`SyncEvent`].
pub enum SyncEventView {
    Latest { height: u64 },
    Changes { height: u64, changes: Seq<CoinChange> },
    Coin(Option<CoinDataView>),
    Resent,
    Rested,
    Failed,
}

impl View for SyncEvent {
    type V = SyncEventView;

    open spec fn view(&self) -> SyncEventView {
        match self {
            SyncEvent::Latest { height } => SyncEventView::Latest { height: *height },
            SyncEvent::Changes { height, changes } => SyncEventView::Changes {
                height: *height,
                changes: changes@,
            },
            SyncEvent::Coin(coin) => SyncEventView::Coin(
                match coin {
                    Some(coin) => Some(coin@),
                    None => None,
                },
            ),
            SyncEvent::Resent => SyncEventView::Resent,
            SyncEvent::Rested => SyncEventView::Rested,
            SyncEvent::Failed => SyncEventView::Failed,
        }
    }
}

/// What to do next.
#[derive(Clone, Copy, Debug, PartialEq, Eq)]
pub enum SyncAction {
    /// Fetch the height of the chain; then `Latest` or `Failed`.
    FetchLatest,
    /// Fetch what the block at a height did to the coins of the wallet's address; then `Changes`
    /// or `Failed`.
    FetchChanges { height: u64 },
    /// Fetch a coin as of the block at a height; then `Coin` or `Failed`.
    FetchCoin { height: u64, id: CoinID },
    /// Send a pending transaction again; then `Resent` or `Failed`.
    Resend,
    /// Rest so many seconds; then `Rested`.
    Rest { secs: u64 },
}

/// The synchroniser, by what it is waiting for.
pub enum Syncer {
    /// The height of the chain.
    FetchingLatest,
    /// The changes of the block at `height`. The wallet was at `start` when the chain was at
    /// `latest`.
    FetchingChanges { start: u64, latest: u64, height: u64 },
    /// The coin that is added by the change of index `done` of the block at `height`, whose own
    /// height is `block`; `new_coins` are those that are fetched already.
    FetchingCoin {
        start: u64,
        latest: u64,
        height: u64,
        block: u64,
        changes: Vec<CoinChange>,
        done: usize,
        new_coins: Vec<(CoinID, CoinData)>,
    },
    /// That the transaction of index `resent` in the queue is sent again.
    Resending { queue: Vec<([u8; 32], Transaction)>, resent: usize },
    /// The end of the rest.
    Resting,
}

/// The mathematical content of a [`Syncer`].
#[verifier::ext_equal]
pub enum SyncView {
    FetchingLatest,
    FetchingChanges { start: u64, latest: u64, height: u64 },
    FetchingCoin {
        start: u64,
        latest: u64,
        height: u64,
        block: u64,
        changes: Seq<CoinChange>,
        done: int,
        new_coins: Seq<(CoinID, CoinDataView)>,
    },
    Resending { queue: Seq<([u8; 32], Transaction)>, resent: int },
    Resting,
}

impl View for Syncer {
    type V = SyncView;

    open spec fn view(&self) -> SyncView {
        match self {
            Syncer::FetchingLatest => SyncView::FetchingLatest,
            Syncer::FetchingChanges { start, latest, height } => SyncView::FetchingChanges {
                start: *start,
                latest: *latest,
                height: *height,
            },
            Syncer::FetchingCoin { start, latest, height, block, changes, done, new_coins } => {
                SyncView::FetchingCoin {
                    start: *start,
                    latest: *latest,
                    height: *height,
                    block: *block,
                    changes: changes@,
                    done: *done as int,
                    new_coins: offered(new_coins@),
                }
            },
            Syncer::Resending { queue, resent } => SyncView::Resending {
                queue: queue@,
                resent: *resent as int,
            },
            Syncer::Resting => SyncView::Resting,
        }
    }
}

impl SyncView {
    /// The blocks that are fetched are those after the wallet's height, up to the chain's; the coin
    /// that is fetched is one that the block added; the transaction that is sent again is one of
    /// the queue.
    pub open spec fn inv(self) -> bool {
        match self {
            SyncView::FetchingChanges { start, latest, height } => start < height <= latest
                < u64::MAX,
            SyncView::FetchingCoin { start, latest, height, changes, done, .. } => {
                &&& start < height <= latest < u64::MAX
                &&& 0 <= done < changes.len()
                &&& changes[done] is Add
            },
            SyncView::Resending { queue, resent } => 0 <= resent < queue.len(),
            _ => true,
        }
    }

    /// Whether an event can happen now: it answers what the synchroniser is waiting for, and there
    /// is a height after the wallet's and after the chain's.
    pub open spec fn admits(self, wallet: Wallet, event: SyncEventView) -> bool {
        match (self, event) {
            (SyncView::FetchingLatest, SyncEventView::Latest { height }) => wallet_height(wallet)
                < u64::MAX && height < u64::MAX,
            (SyncView::FetchingChanges { .. }, SyncEventView::Changes { .. }) => wallet_height(
                wallet,
            ) < u64::MAX,
            (SyncView::FetchingCoin { .. }, SyncEventView::Coin(_)) => wallet_height(wallet)
                < u64::MAX,
            (SyncView::Resending { .. }, SyncEventView::Resent) => true,
            (SyncView::Resting, SyncEventView::Rested) => true,
            (SyncView::Resting, _) => false,
            (_, SyncEventView::Failed) => true,
            _ => false,
        }
    }
}

/// The index of the first change from `from` on that adds a coin; the number of changes where none
/// does.
pub open spec fn next_add(changes: Seq<CoinChange>, from: int) -> int
    decreases changes.len() - from,
{
    if from >= changes.len() {
        changes.len() as int
    } else if changes[from] is Add {
        from
    } else {
        next_add(changes, from + 1)
    }
}

/// The coins that a block deleted, in order.
pub open spec fn deleted(changes: Seq<CoinChange>) -> Seq<CoinID>
    decreases changes.len(),
{
    if changes.len() == 0 {
        Seq::empty()
    } else {
        match changes.last() {
            CoinChange::Delete(id) => deleted(changes.drop_last()).push(id),
            CoinChange::Add(_) => deleted(changes.drop_last()),
        }
    }
}

/// Whether a wallet is another one after a block: the transactions whose coins the block added are
/// no longer pending.
pub open spec fn absorbed(
    before: Wallet,
    block: u64,
    new_coins: Seq<(CoinID, CoinDataView)>,
    spent_coins: Seq<CoinID>,
    after: Wallet,
) -> bool {
    &&& wallet_address(after) == wallet_address(before)
    &&& wallet_network(after) == wallet_network(before)
    &&& wallet_height(after) == block
    &&& wallet_pending(after) == wallet_pending(before).remove_keys(origins(new_coins))
    &&& table(wallet_coins(after)) == after_block(
        table(wallet_coins(before)),
        block,
        new_coins,
        spent_coins,
    )
}

/// Whether a list holds what a wallet has pending, in ascending order of the hashes.
pub open spec fn is_queue(wallet: Wallet, queue: Seq<([u8; 32], Transaction)>) -> bool {
    &&& forall|i: int|
        0 <= i < queue.len() ==> wallet_pending(wallet).contains_pair(
            (#[trigger] queue[i]).0,
            queue[i].1,
        )
    &&& forall|txhash: [u8; 32]| #[trigger]
        wallet_pending(wallet).contains_key(txhash) ==> exists|i: int|
            0 <= i < queue.len() && (#[trigger] queue[i]).0 == txhash
    &&& forall|i: int, j: int|
        0 <= i < j < queue.len() ==> hash_before(#[trigger] queue[i].0, #[trigger] queue[j].0)
}

/// Whether it is decided rightly how to go on once the wallet has taken in the blocks below
/// `height`. Where there were new blocks and something is still pending, it is sent again.
pub open spec fn goes_on(
    wallet: Wallet,
    start: u64,
    latest: u64,
    height: int,
    next: SyncView,
    action: SyncAction,
) -> bool {
    if height <= latest {
        &&& next == (SyncView::FetchingChanges { start, latest, height: height as u64 })
        &&& action == (SyncAction::FetchChanges { height: height as u64 })
    } else if latest > start && exists|txhash: [u8; 32]| #[trigger]
        wallet_pending(wallet).contains_key(txhash) {
        &&& next matches SyncView::Resending { queue, resent }
        &&& is_queue(wallet, queue)
        &&& resent == 0
        &&& action == SyncAction::Resend
    } else {
        &&& next == SyncView::Resting
        &&& action == (SyncAction::Rest { secs: SYNC_SECS })
    }
}

/// What is decided after a failure.
pub open spec fn gives_up(next: SyncView, action: SyncAction) -> bool {
    &&& next == SyncView::Resting
    &&& action == (SyncAction::Rest { secs: RETRY_SECS })
}

/// Whether it is decided rightly how to go on within a block whose changes below `from` are dealt
/// with: `wallet` is the wallet before, and `left` after it.
pub open spec fn goes_on_within(
    wallet: Wallet,
    start: u64,
    latest: u64,
    height: u64,
    block: u64,
    changes: Seq<CoinChange>,
    from: int,
    new_coins: Seq<(CoinID, CoinDataView)>,
    left: Wallet,
    next: SyncView,
    action: SyncAction,
) -> bool {
    let done = next_add(changes, from);
    if done < changes.len() {
        &&& left == wallet
        &&& next == (SyncView::FetchingCoin {
            start,
            latest,
            height,
            block,
            changes,
            done,
            new_coins,
        })
        &&& action == (SyncAction::FetchCoin { height, id: changes[done]->Add_0 })
    } else if add_verdict(wallet, block, new_coins) is Ok {
        &&& absorbed(wallet, block, new_coins, deleted(changes), left)
        &&& goes_on(left, start, latest, height + 1, next, action)
    } else {
        &&& left == wallet
        &&& gives_up(next, action)
    }
}

/// Whether what was decided follows from what happened: `wallet` is the wallet before it, and
/// `left` after it.
pub open spec fn sync_follows(
    sync: SyncView,
    wallet: Wallet,
    event: SyncEventView,
    next: SyncView,
    left: Wallet,
    action: SyncAction,
) -> bool {
    match (sync, event) {
        (_, SyncEventView::Failed) => {
            &&& left == wallet
            &&& gives_up(next, action)
        },
        (SyncView::FetchingLatest, SyncEventView::Latest { height }) => {
            let start = wallet_height(wallet);
            &&& left == wallet
            &&& goes_on(wallet, start, height, start + 1, next, action)
        },
        (
            SyncView::FetchingChanges { start, latest, height },
            SyncEventView::Changes { height: block, changes },
        ) => goes_on_within(
            wallet,
            start,
            latest,
            height,
            block,
            changes,
            0,
            Seq::empty(),
            left,
            next,
            action,
        ),
        (
            SyncView::FetchingCoin { start, latest, height, block, changes, done, new_coins },
            SyncEventView::Coin(coin),
        ) => goes_on_within(
            wallet,
            start,
            latest,
            height,
            block,
            changes,
            done + 1,
            match coin {
                Some(coin) => new_coins.push((changes[done]->Add_0, coin)),
                None => new_coins,
            },
            left,
            next,
            action,
        ),
        (SyncView::Resending { queue, resent }, SyncEventView::Resent) => {
            &&& left == wallet
            &&& if resent + 1 < queue.len() {
                &&& next == (SyncView::Resending { queue, resent: resent + 1 })
                &&& action == SyncAction::Resend
            } else {
                &&& next == SyncView::Resting
                &&& action == (SyncAction::Rest { secs: SYNC_SECS })
            }
        },
        (SyncView::Resting, SyncEventView::Rested) => {
            &&& left == wallet
            &&& next == SyncView::FetchingLatest
            &&& action == SyncAction::FetchLatest
        },
        _ => false,
    }
}

/// The first change from `from` on that adds a coin, by its index; the number of changes where none
/// does.
fn find_add(changes: &Vec<CoinChange>, from: usize) -> (done: usize)
    requires
        from <= changes.len(),
    ensures
        done == next_add(changes@, from as int),
        done <= changes.len(),
        done < changes.len() ==> changes[done as int] is Add,
{
    let mut i: usize = from;
    while i < changes.len()
        invariant
            from <= i <= changes.len(),
            next_add(changes@, i as int) == next_add(changes@, from as int),
        decreases changes.len() - i,
    {
        match changes[i] {
            CoinChange::Add(_) => return i,
            CoinChange::Delete(_) => {},
        }
        i = i + 1;
    }
    i
}

/// The coins that a block deleted, in order.
fn find_deleted(changes: &Vec<CoinChange>) -> (spent: Vec<CoinID>)
    ensures
        spent@ == deleted(changes@),
{
    let mut spent: Vec<CoinID> = Vec::new();
    let mut i: usize = 0;
    while i < changes.len()
        invariant
            i <= changes.len(),
            spent@ == deleted(changes@.take(i as int)),
        decreases changes.len() - i,
    {
        assert(changes@.take(i + 1).drop_last() =~= changes@.take(i as int));
        match changes[i] {
            CoinChange::Add(_) => {},
            CoinChange::Delete(id) => spent.push(id),
        }
        i = i + 1;
    }
    assert(changes@.take(i as int) =~= changes@);
    spent
}

/// Decides how to go on once the wallet has taken in the blocks below `height`.
fn go_on(wallet: &Wallet, start: u64, latest: u64, height: u64) -> (decided: (Syncer, SyncAction))
    requires
        start < height,
        latest < u64::MAX,
    ensures
        goes_on(*wallet, start, latest, height as int, decided.0@, decided.1),
        decided.0@.inv(),
{
    if height <= latest {
        return (
            Syncer::FetchingChanges { start, latest, height },
            SyncAction::FetchChanges { height },
        );
    }
    let queue = pending_of(wallet);
    if queue.len() > 0 && latest > start {
        assert(wallet_pending(*wallet).contains_key(queue@[0].0));
        (Syncer::Resending { queue, resent: 0 }, SyncAction::Resend)
    } else {
        (Syncer::Resting, SyncAction::Rest { secs: SYNC_SECS })
    }
}

/// Decides how to go on after a failure.
fn give_up() -> (decided: (Syncer, SyncAction))
    ensures
        gives_up(decided.0@, decided.1),
        decided.0@.inv(),
{
    (Syncer::Resting, SyncAction::Rest { secs: RETRY_SECS })
}

/// Decides how to go on within a block whose changes below `from` are dealt with.
fn go_on_within(
    wallet: &mut Wallet,
    start: u64,
    latest: u64,
    height: u64,
    block: u64,
    changes: Vec<CoinChange>,
    from: usize,
    new_coins: Vec<(CoinID, CoinData)>,
) -> (decided: (Syncer, SyncAction))
    requires
        start < height <= latest < u64::MAX,
        from <= changes.len(),
        wallet_height(*old(wallet)) < u64::MAX,
    ensures
        goes_on_within(
            *old(wallet),
            start,
            latest,
            height,
            block,
            changes@,
            from as int,
            offered(new_coins@),
            *final(wallet),
            decided.0@,
            decided.1,
        ),
        decided.0@.inv(),
{
    let done: usize = find_add(&changes, from);
    if done < changes.len() {
        if let CoinChange::Add(id) = changes[done] {
            let next = Syncer::FetchingCoin {
                start,
                latest,
                height,
                block,
                changes,
                done,
                new_coins,
            };
            return (next, SyncAction::FetchCoin { height, id });
        }
    }
    let spent = find_deleted(&changes);
    match add_coins(wallet, block, new_coins, spent) {
        Ok(()) => go_on(wallet, start, latest, height + 1),
        Err(_) => give_up(),
    }
}

impl Syncer {
    /// Starts over; what is to be done first is `SyncAction::FetchLatest`.
    pub fn start() -> (syncer: Syncer)
        ensures
            syncer@ == SyncView::FetchingLatest,
            syncer@.inv(),
    {
        Syncer::FetchingLatest
    }

    /// The transaction that is to be sent again.
    pub fn transaction(&self) -> (tx: Option<&Transaction>)
        requires
            self@.inv(),
        ensures
            match self@ {
                SyncView::Resending { queue, resent } => tx == Some(&queue[resent].1),
                _ => tx is None,
            },
    {
        match self {
            Syncer::Resending { queue, resent } => Some(&queue[*resent].1),
            _ => None,
        }
    }

    /// Whether an event can happen now.
    pub fn admits(&self, state: &MintState, event: &SyncEvent) -> (admitted: bool)
        ensures
            admitted == self@.admits(state.wallet, event@),
    {
        let height: u64 = height_of(&state.wallet);
        match (self, event) {
            (Syncer::FetchingLatest, SyncEvent::Latest { height: latest }) => height < u64::MAX
                && *latest < u64::MAX,
            (Syncer::FetchingChanges { .. }, SyncEvent::Changes { .. }) => height < u64::MAX,
            (Syncer::FetchingCoin { .. }, SyncEvent::Coin(_)) => height < u64::MAX,
            (Syncer::Resending { .. }, SyncEvent::Resent) => true,
            (Syncer::Resting, SyncEvent::Rested) => true,
            (Syncer::Resting, _) => false,
            (_, SyncEvent::Failed) => true,
            _ => false,
        }
    }

    /// Takes in what happened and says what to do next.
    pub fn next(self, state: &mut MintState, event: SyncEvent) -> (decided: (Syncer, SyncAction))
        requires
            self@.inv(),
            self@.admits(old(state).wallet, event@),
        ensures
            sync_follows(
                self@,
                old(state).wallet,
                event@,
                decided.0@,
                final(state).wallet,
                decided.1,
            ),
            decided.0@.inv(),
            final(state).key == old(state).key,
    {
        match (self, event) {
            (_, SyncEvent::Failed) => give_up(),
            (Syncer::FetchingLatest, SyncEvent::Latest { height }) => {
                let start: u64 = height_of(&state.wallet);
                go_on(&state.wallet, start, height, start + 1)
            },
            (
                Syncer::FetchingChanges { start, latest, height },
                SyncEvent::Changes { height: block, changes },
            ) => {
                let new_coins: Vec<(CoinID, CoinData)> = Vec::new();
                assert(offered(new_coins@) =~= Seq::empty());
                go_on_within(
                    &mut state.wallet,
                    start,
                    latest,
                    height,
                    block,
                    changes,
                    0,
                    new_coins,
                )
            },
            (
                Syncer::FetchingCoin { start, latest, height, block, changes, done, new_coins },
                SyncEvent::Coin(coin),
            ) => {
                let total: usize = changes.len();
                assert(done < total);
                let mut new_coins = new_coins;
                let ghost before = new_coins@;
                if let Some(coin) = coin {
                    if let CoinChange::Add(id) = changes[done] {
                        new_coins.push((id, coin));
                        assert(offered(new_coins@) =~= offered(before).push((id, coin@)));
                    }
                }
                go_on_within(
                    &mut state.wallet,
                    start,
                    latest,
                    height,
                    block,
                    changes,
                    done + 1,
                    new_coins,
                )
            },
            (Syncer::Resending { queue, resent }, _) => {
                let total: usize = queue.len();
                assert(resent < total);
                if resent + 1 < total {
                    (Syncer::Resending { queue, resent: resent + 1 }, SyncAction::Resend)
                } else {
                    (Syncer::Resting, SyncAction::Rest { secs: SYNC_SECS })
                }
            },
            _ => (Syncer::FetchingLatest, SyncAction::FetchLatest),
        }
    }
}

} // verus!
