//! What holds of a batch of proofs from its beginning to its end, whatever happens.

use vstd::prelude::*;

use crate::batch::{
    batch_follows, begun, bytes, first_action, heights, is_built, BatchAction, BatchEvent,
    BatchEventView, BatchStage, BatchView,
};
use crate::chain::{CoinDataHeight, CoinDataHeightView, CoinID, Header};
use crate::keys::puzzle;
use crate::state::MintState;
use crate::wallet::{seeds, wallet_coins};

verus! {

/// A batch over time: what it was before and after each event, and what was to be done each time.
pub struct BatchHistory {
    pub states: Seq<BatchView>,
    pub events: Seq<BatchEventView>,
    pub actions: Seq<BatchAction>,
}

impl BatchHistory {
    /// Whether it came about like this, from the beginning of a batch of the given seed coins.
    pub open spec fn happened(self, seeds: Seq<CoinID>, difficulty: usize) -> bool {
        &&& self.states.len() == self.events.len() + 1
        &&& self.actions.len() == self.events.len() + 1
        &&& self.states[0].seeds == seeds
        &&& self.states[0].difficulty == difficulty
        &&& self.states[0].coins.len() == 0
        &&& self.states[0].proofs.len() == 0
        &&& self.states[0].stage == (if seeds.len() == 0 {
            BatchStage::Over
        } else {
            BatchStage::FetchingCoin
        })
        &&& self.actions[0] == first_action(self.states[0])
        &&& forall|k: int|
            0 <= k < self.events.len() ==> {
                &&& self.states[k].admits(#[trigger] self.events[k])
                &&& batch_follows(
                    self.states[k],
                    self.events[k],
                    self.states[k + 1],
                    self.actions[k + 1],
                )
            }
    }

    /// Whether each answer was to what was asked: the coin with the given identifier, the header at
    /// the given height, the proof of the given index.
    pub open spec fn answered(
        self,
        coin_of: spec_fn(CoinID) -> CoinDataHeightView,
        header_at: spec_fn(u64) -> Header,
        proof_of: spec_fn(usize) -> Seq<u8>,
    ) -> bool {
        forall|k: int|
            0 <= k < self.events.len() ==> match #[trigger] self.events[k] {
                BatchEventView::Coin(Some(Some(coin))) => self.actions[k]
                    matches BatchAction::FetchCoin { seed } && coin == coin_of(seed),
                BatchEventView::Header(Some(header)) => self.actions[k]
                    matches BatchAction::FetchHeader { height } && header == header_at(height),
                BatchEventView::Proof(proof) => self.actions[k] matches BatchAction::Join { index }
                    && proof == proof_of(index),
                _ => true,
            }
    }
}

/// The indices of the proofs that somebody was told to work on, in order.
pub open spec fn spawned(actions: Seq<BatchAction>) -> Seq<usize>
    decreases actions.len(),
{
    if actions.len() == 0 {
        Seq::empty()
    } else {
        match actions.last() {
            BatchAction::Spawn { index, .. } => spawned(actions.drop_last()).push(index),
            _ => spawned(actions.drop_last()),
        }
    }
}

/// Whether what is to be done is what a batch waits for.
spec fn asks(batch: BatchView, action: BatchAction) -> bool {
    match batch.stage {
        BatchStage::FetchingCoin => action == (BatchAction::FetchCoin {
            seed: batch.seeds[batch.coins.len() as int],
        }),
        BatchStage::FetchingLatest => action == BatchAction::FetchLatest,
        BatchStage::FetchingHeader => action == (BatchAction::FetchHeader {
            height: batch.coins[batch.coins.len() - 1].height,
        }),
        BatchStage::Spawning => action is Spawn,
        BatchStage::Joining => action == (BatchAction::Join { index: batch.proofs.len() as usize }),
        BatchStage::RestingForCoin | BatchStage::RestingForHeader => action is Rest,
        BatchStage::Over => true,
    }
}

/// How many proofs somebody was told to work on.
spec fn under_way(batch: BatchView) -> int {
    match batch.stage {
        BatchStage::FetchingLatest
        | BatchStage::FetchingHeader
        | BatchStage::RestingForHeader => batch.coins.len() - 1,
        _ => batch.coins.len() as int,
    }
}

proof fn lemma_through(
    history: BatchHistory,
    seeds: Seq<CoinID>,
    difficulty: usize,
    coin_of: spec_fn(CoinID) -> CoinDataHeightView,
    header_at: spec_fn(u64) -> Header,
    proof_of: spec_fn(usize) -> Seq<u8>,
    n: int,
)
    requires
        seeds.len() <= usize::MAX,
        history.happened(seeds, difficulty),
        history.answered(coin_of, header_at, proof_of),
        0 <= n <= history.events.len(),
    ensures
        ({
            let (batch, action) = (history.states[n], history.actions[n]);
            let indices = spawned(history.actions.take(n + 1));
            &&& batch.inv()
            &&& batch.seeds == seeds
            &&& batch.difficulty == difficulty
            &&& forall|i: int|
                0 <= i < batch.coins.len() ==> (#[trigger] batch.coins[i]) == coin_of(seeds[i])
            &&& forall|i: int|
                0 <= i < batch.proofs.len() ==> (#[trigger] batch.proofs[i]) == proof_of(
                    i as usize,
                )
            &&& asks(batch, action)
            &&& action matches BatchAction::Spawn { index, chi, difficulty: asked } ==> {
                &&& index < seeds.len()
                &&& chi == puzzle(
                    header_at(coin_of(seeds[index as int]).height),
                    seeds[index as int],
                )
                &&& asked == difficulty
            }
            &&& forall|i: int| 0 <= i < indices.len() ==> (#[trigger] indices[i]) == i
            &&& !(batch.stage is Over) ==> indices.len() == under_way(batch)
            &&& action is Finish ==> batch.complete() && indices.len() == seeds.len()
        }),
    decreases n,
{
    if n == 0 {
        reveal_with_fuel(spawned, 2);
        assert(history.actions.take(1).drop_last() =~= Seq::empty());
    } else {
        lemma_through(history, seeds, difficulty, coin_of, header_at, proof_of, n - 1);
        let (was, now) = (history.states[n - 1], history.states[n]);
        let (event, action) = (history.events[n - 1], history.actions[n]);
        assert(was.admits(event) && batch_follows(was, event, now, action));
        assert(history.actions.take(n + 1).drop_last() =~= history.actions.take(n));
    }
}

/// Each proof of a finished batch stands with the seed coin that it was built for. In every history
/// of a batch in which each answer is to what was asked, the coin of index `i` is that of the `i`th
/// seed, and the proof of index `i` is the one that was asked for by index `i`.
pub proof fn law_proofs_stand_with_their_seeds(
    history: BatchHistory,
    seeds: Seq<CoinID>,
    difficulty: usize,
    coin_of: spec_fn(CoinID) -> CoinDataHeightView,
    header_at: spec_fn(u64) -> Header,
    proof_of: spec_fn(usize) -> Seq<u8>,
)
    requires
        seeds.len() <= usize::MAX,
        history.happened(seeds, difficulty),
        history.answered(coin_of, header_at, proof_of),
        history.actions.last() == BatchAction::Finish,
    ensures
        ({
            let batch = history.states.last();
            &&& batch.seeds == seeds
            &&& batch.coins.len() == seeds.len()
            &&& batch.proofs.len() == seeds.len()
            &&& forall|i: int|
                0 <= i < seeds.len() ==> (#[trigger] batch.coins[i]) == coin_of(seeds[i])
            &&& forall|i: int|
                0 <= i < seeds.len() ==> (#[trigger] batch.proofs[i]) == proof_of(i as usize)
        }),
{
    let n = history.events.len() as int;
    lemma_through(history, seeds, difficulty, coin_of, header_at, proof_of, n);
}

/// Somebody is told to work on each proof once, in order, before any is waited for: on the puzzle
/// of its own seed coin, set by the header at that coin's height, at the difficulty of the batch.
pub proof fn law_each_puzzle_is_handed_out_once(
    history: BatchHistory,
    seeds: Seq<CoinID>,
    difficulty: usize,
    coin_of: spec_fn(CoinID) -> CoinDataHeightView,
    header_at: spec_fn(u64) -> Header,
    proof_of: spec_fn(usize) -> Seq<u8>,
    n: int,
)
    requires
        seeds.len() <= usize::MAX,
        history.happened(seeds, difficulty),
        history.answered(coin_of, header_at, proof_of),
        0 <= n < history.actions.len(),
    ensures
        history.actions[n] matches BatchAction::Spawn { index, chi, difficulty: asked } ==> {
            &&& index < seeds.len()
            &&& chi == puzzle(header_at(coin_of(seeds[index as int]).height), seeds[index as int])
            &&& asked == difficulty
        },
        ({
            let indices = spawned(history.actions.take(n + 1));
            &&& forall|i: int| 0 <= i < indices.len() ==> (#[trigger] indices[i]) == i
            &&& history.actions[n] is Join || history.actions[n] is Finish ==> indices.len()
                == seeds.len()
        }),
{
    lemma_through(history, seeds, difficulty, coin_of, header_at, proof_of, n);
    let (batch, action) = (history.states[n], history.actions[n]);
    if action is Join && n > 0 {
        lemma_through(history, seeds, difficulty, coin_of, header_at, proof_of, n - 1);
        assert(history.states[n - 1].admits(history.events[n - 1]));
    }
}

/// What comes next, event by event: after the coin the tip, after the tip the header of the coin's
/// block, after the header the work; once somebody is at work the next coin, or where there is none
/// the first proof; after each proof the next, and after the last the end.
pub proof fn law_steps_of_a_batch(
    batch: BatchView,
    event: BatchEventView,
    next: BatchView,
    action: BatchAction,
)
    requires
        batch.inv(),
        batch.admits(event),
        batch_follows(batch, event, next, action),
    ensures
        next.seeds == batch.seeds,
        next.difficulty == batch.difficulty,
        match event {
            BatchEventView::Coin(Some(Some(coin))) => {
                &&& action is FetchLatest
                &&& next.coins == batch.coins.push(coin)
            },
            BatchEventView::Coin(Some(None)) => action is SpentBehindOurBack,
            BatchEventView::Coin(None) => action == (BatchAction::Rest { secs: 1 }),
            BatchEventView::Latest(None) => action == (BatchAction::FetchHeader {
                height: batch.coins.last().height,
            }),
            BatchEventView::Latest(Some(message)) => action matches BatchAction::Fail(why) && why@
                == message,
            BatchEventView::Header(Some(header)) => action is Spawn,
            BatchEventView::Header(None) => action == (BatchAction::Rest { secs: 1 }),
            BatchEventView::Spawned => if batch.coins.len() < batch.seeds.len() {
                action == (BatchAction::FetchCoin { seed: batch.seeds[batch.coins.len() as int] })
            } else {
                action == (BatchAction::Join { index: 0 })
            },
            BatchEventView::Proof(proof) => {
                &&& next.proofs == batch.proofs.push(proof)
                &&& if next.proofs.len() < batch.seeds.len() {
                    action == (BatchAction::Join { index: next.proofs.len() as usize })
                } else {
                    action == BatchAction::Finish
                }
            },
            BatchEventView::Rested => action is FetchCoin || action is FetchHeader,
        },
        !(event is Coin) ==> next.coins == batch.coins,
        !(event is Proof) ==> next.proofs == batch.proofs,
{
}

/// A batch begins with the wallet's first seed coins, as many as there are threads, or all where
/// there are fewer; and with the first of them.
pub proof fn law_batches_begin_with_the_first_seeds(
    state: MintState,
    difficulty: usize,
    threads: usize,
    i: int,
)
    ensures
        ({
            let (batch, all) = (begun(state, difficulty, threads), seeds(
                wallet_coins(state.wallet),
            ));
            &&& batch.difficulty == difficulty
            &&& batch.seeds.len() <= threads
            &&& batch.seeds.len() <= all.len()
            &&& batch.seeds.len() == threads || batch.seeds.len() == all.len()
            &&& 0 <= i < batch.seeds.len() ==> batch.seeds[i] == all[i]
            &&& batch.coins.len() == 0
            &&& batch.proofs.len() == 0
            &&& batch.seeds.len() > 0 ==> batch.stage == BatchStage::FetchingCoin && first_action(
                batch,
            ) == (BatchAction::FetchCoin { seed: all[0] })
            &&& batch.seeds.len() == 0 ==> batch.stage == BatchStage::Over && first_action(batch)
                == BatchAction::Finish
        }),
{
}

/// What is handed out at the end is, for each seed coin in order, the seed coin, what is known of
/// it, and its proof.
pub proof fn law_what_is_built_is_what_was_gathered(
    built: Seq<(CoinID, CoinDataHeight, Vec<u8>)>,
    batch: BatchView,
    i: int,
)
    requires
        is_built(built, batch),
    ensures
        built.len() == batch.seeds.len(),
        0 <= i < built.len() ==> built[i].0 == batch.seeds[i] && built[i].1@ == batch.coins[i]
            && built[i].2@ == batch.proofs[i],
{
}

/// Whatever is waited for can come, and nothing else.
pub proof fn law_batches_take_what_they_wait_for(batch: BatchView, event: BatchEventView)
    ensures
        batch.admits(event) <==> match event {
            BatchEventView::Coin(_) => batch.stage == BatchStage::FetchingCoin,
            BatchEventView::Latest(_) => batch.stage == BatchStage::FetchingLatest,
            BatchEventView::Header(_) => batch.stage == BatchStage::FetchingHeader,
            BatchEventView::Spawned => batch.stage == BatchStage::Spawning,
            BatchEventView::Proof(_) => batch.stage == BatchStage::Joining,
            BatchEventView::Rested => batch.stage == BatchStage::RestingForCoin || batch.stage
                == BatchStage::RestingForHeader,
        },
{
}

/// A list by content has the content of each entry at its index, and so has an event.
pub proof fn law_batches_are_known_by_content(
    coins: Seq<CoinDataHeight>,
    proofs: Seq<Vec<u8>>,
    event: BatchEvent,
)
    ensures
        heights(coins).len() == coins.len(),
        forall|i: int| 0 <= i < coins.len() ==> (#[trigger] heights(coins)[i]) == coins[i]@,
        bytes(proofs).len() == proofs.len(),
        forall|i: int| 0 <= i < proofs.len() ==> (#[trigger] bytes(proofs)[i]) == proofs[i]@,
        match event {
            BatchEvent::Coin(Ok(Some(coin))) => event@ == BatchEventView::Coin(Some(Some(coin@))),
            BatchEvent::Coin(Ok(None)) => event@ == BatchEventView::Coin(Some(None)),
            BatchEvent::Coin(Err(_)) => event@ == BatchEventView::Coin(None),
            BatchEvent::Latest(Ok(())) => event@ == BatchEventView::Latest(None),
            BatchEvent::Latest(Err(message)) => event@ == BatchEventView::Latest(Some(message@)),
            BatchEvent::Header(Ok(header)) => event@ == BatchEventView::Header(Some(header)),
            BatchEvent::Header(Err(_)) => event@ == BatchEventView::Header(None),
            BatchEvent::Spawned => event@ == BatchEventView::Spawned,
            BatchEvent::Proof(proof) => event@ == BatchEventView::Proof(proof@),
            BatchEvent::Rested => event@ == BatchEventView::Rested,
        },
{
}

} // verus!
