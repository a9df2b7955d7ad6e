//! Building a batch of proofs, one for each seed coin.
//!
//! A batch decides, and whoever runs it acts: it is told what happened and answers with what to do
//! next.

use vstd::prelude::*;

use crate::chain::{CoinDataHeight, CoinDataHeightView, CoinID, Header};
use crate::keys::{puzzle, set_puzzle};
use crate::retry::{repeat_fallible, Attempt, RETRY_SECS};
use crate::state::MintState;
use crate::wallet::{id_before, in_order, seeds, wallet_coins};
use crate::worker::{step, EventView, Minted, WorkerView};

verus! {

/// What a batch is waiting for.
#[derive(Clone, Copy, Debug, PartialEq, Eq, Structural)]
pub enum BatchStage {
    /// The next seed coin.
    FetchingCoin,
    /// The end of the rest before the seed coin is fetched again.
    RestingForCoin,
    /// The tip of the chain.
    FetchingLatest,
    /// The header of the block that holds the seed coin.
    FetchingHeader,
    /// The end of the rest before the header is fetched again.
    RestingForHeader,
    /// That somebody is at work on the proof.
    Spawning,
    /// The next finished proof.
    Joining,
    /// Nothing more.
    Over,
}

/// What happened.
#[derive(Debug)]
pub enum BatchEvent {
    /// The seed coin, nothing where it is spent; or why it could not be fetched.
    Coin(Result<Option<CoinDataHeight>, String>),
    /// The tip of the chain is known; or why not.
    Latest(Result<(), String>),
    /// The header of the block that holds the seed coin; or why it could not be fetched.
    Header(Result<Header, String>),
    /// Somebody is at work on the proof.
    Spawned,
    /// A finished proof.
    Proof(Vec<u8>),
    /// The rest is over.
    Rested,
}

/// The mathematical content of a [`BatchEvent`].
pub enum BatchEventView {
    /// Nothing where the coin could not be fetched.
    Coin(Option<Option<CoinDataHeightView>>),
    /// Nothing where the tip is known.
    Latest(Option<Seq<char>>),
    /// Nothing where the header could not be fetched.
    Header(Option<Header>),
    Spawned,
    Proof(Seq<u8>),
    Rested,
}

impl View for BatchEvent {
    type V = BatchEventView;

    open spec fn view(&self) -> BatchEventView {
        match self {
            BatchEvent::Coin(coin) => BatchEventView::Coin(
                match coin {
                    Ok(Some(coin)) => Some(Some(coin@)),
                    Ok(None) => Some(None),
                    Err(_) => None,
                },
            ),
            BatchEvent::Latest(latest) => BatchEventView::Latest(
                match latest {
                    Ok(()) => None,
                    Err(message) => Some(message@),
                },
            ),
            BatchEvent::Header(header) => BatchEventView::Header(
                match header {
                    Ok(header) => Some(*header),
                    Err(_) => None,
                },
            ),
            BatchEvent::Spawned => BatchEventView::Spawned,
            BatchEvent::Proof(proof) => BatchEventView::Proof(proof@),
            BatchEvent::Rested => BatchEventView::Rested,
        }
    }
}

/// What to do next.
#[derive(Debug)]
pub enum BatchAction {
    /// Fetch a seed coin at the tip of the chain; then `Coin`.
    FetchCoin { seed: CoinID },
    /// Fetch the tip of the chain; then `Latest`.
    FetchLatest,
    /// Fetch the header at a height; then `Header`.
    FetchHeader { height: u64 },
    /// Have somebody work on the proof of the given index; then `Spawned`.
    Spawn { index: usize, chi: [u8; 32], difficulty: usize },
    /// Wait for the proof of the given index; then `Proof`.
    Join { index: usize },
    /// Rest so many seconds; then `Rested`.
    Rest { secs: u64 },
    /// The batch is built.
    Finish,
    /// The seed coin was spent behind our back.
    SpentBehindOurBack,
    /// The batch has failed; why.
    Fail(String),
}

/// A batch of proofs that are being built.
#[derive(Debug)]
pub struct Batch {
    difficulty: usize,
    seeds: Vec<CoinID>,
    coins: Vec<CoinDataHeight>,
    proofs: Vec<Vec<u8>>,
    stage: BatchStage,
}

/// The mathematical content of a [`Batch`].
#[verifier::ext_equal]
pub struct BatchView {
    pub difficulty: usize,
    /// The seed coins, one for each proof.
    pub seeds: Seq<CoinID>,
    /// What is known of the first of them.
    pub coins: Seq<CoinDataHeightView>,
    /// The proofs for the first of them.
    pub proofs: Seq<Seq<u8>>,
    pub stage: BatchStage,
}

/// The coins of a list, by content.
pub open spec fn heights(coins: Seq<CoinDataHeight>) -> Seq<CoinDataHeightView> {
    coins.map_values(|coin: CoinDataHeight| coin@)
}

/// The proofs of a list, by content.
pub open spec fn bytes(proofs: Seq<Vec<u8>>) -> Seq<Seq<u8>> {
    proofs.map_values(|proof: Vec<u8>| proof@)
}

impl View for Batch {
    type V = BatchView;

    closed spec fn view(&self) -> BatchView {
        BatchView {
            difficulty: self.difficulty,
            seeds: self.seeds@,
            coins: heights(self.coins@),
            proofs: bytes(self.proofs@),
            stage: self.stage,
        }
    }
}

impl BatchView {
    /// All proofs are begun, seed by seed, before any is waited for.
    pub open spec fn inv(self) -> bool {
        match self.stage {
            BatchStage::FetchingCoin | BatchStage::RestingForCoin => {
                &&& self.coins.len() < self.seeds.len()
                &&& self.proofs.len() == 0
            },
            BatchStage::FetchingLatest
            | BatchStage::FetchingHeader
            | BatchStage::RestingForHeader
            | BatchStage::Spawning => {
                &&& 0 < self.coins.len() <= self.seeds.len()
                &&& self.proofs.len() == 0
            },
            BatchStage::Joining => {
                &&& self.coins.len() == self.seeds.len()
                &&& self.proofs.len() < self.seeds.len()
            },
            BatchStage::Over => {
                &&& self.coins.len() <= self.seeds.len()
                &&& self.proofs.len() <= self.coins.len()
            },
        }
    }

    /// Whether every proof is there.
    pub open spec fn complete(self) -> bool {
        &&& self.coins.len() == self.seeds.len()
        &&& self.proofs.len() == self.seeds.len()
    }

    /// Whether an event can happen now: it answers what the batch is waiting for.
    pub open spec fn admits(self, event: BatchEventView) -> bool {
        match (self.stage, event) {
            (BatchStage::FetchingCoin, BatchEventView::Coin(_)) => true,
            (BatchStage::FetchingLatest, BatchEventView::Latest(_)) => true,
            (BatchStage::FetchingHeader, BatchEventView::Header(_)) => true,
            (BatchStage::Spawning, BatchEventView::Spawned) => true,
            (BatchStage::Joining, BatchEventView::Proof(_)) => true,
            (
                BatchStage::RestingForCoin | BatchStage::RestingForHeader,
                BatchEventView::Rested,
            ) => true,
            _ => false,
        }
    }

    pub open spec fn at(self, stage: BatchStage) -> BatchView {
        BatchView { stage, ..self }
    }
}

/// A batch from its start: the wallet's first seed coins, one for each thread, as far as there are
/// any.
pub open spec fn begun(state: MintState, difficulty: usize, threads: usize) -> BatchView {
    let all = seeds(wallet_coins(state.wallet));
    let first = if threads < all.len() {
        all.take(threads as int)
    } else {
        all
    };
    BatchView {
        difficulty,
        seeds: first,
        coins: Seq::empty(),
        proofs: Seq::empty(),
        stage: if first.len() == 0 {
            BatchStage::Over
        } else {
            BatchStage::FetchingCoin
        },
    }
}

/// What is to be done first.
pub open spec fn first_action(batch: BatchView) -> BatchAction {
    if batch.seeds.len() == 0 {
        BatchAction::Finish
    } else {
        BatchAction::FetchCoin { seed: batch.seeds[0] }
    }
}

/// Whether what was decided follows from what happened.
pub open spec fn batch_follows(
    batch: BatchView,
    event: BatchEventView,
    next: BatchView,
    action: BatchAction,
) -> bool {
    let current = batch.coins.len() - 1;
    match (batch.stage, event) {
        (BatchStage::FetchingCoin, BatchEventView::Coin(Some(Some(coin)))) => {
            &&& next == (BatchView {
                coins: batch.coins.push(coin),
                ..batch.at(BatchStage::FetchingLatest)
            })
            &&& action == BatchAction::FetchLatest
        },
        (BatchStage::FetchingCoin, BatchEventView::Coin(Some(None))) => {
            &&& next == batch.at(BatchStage::Over)
            &&& action == BatchAction::SpentBehindOurBack
        },
        (BatchStage::FetchingCoin, _) => {
            &&& next == batch.at(BatchStage::RestingForCoin)
            &&& action == (BatchAction::Rest { secs: RETRY_SECS })
        },
        (BatchStage::RestingForCoin, _) => {
            &&& next == batch.at(BatchStage::FetchingCoin)
            &&& action == (BatchAction::FetchCoin { seed: batch.seeds[batch.coins.len() as int] })
        },
        (BatchStage::FetchingLatest, BatchEventView::Latest(None)) => {
            &&& next == batch.at(BatchStage::FetchingHeader)
            &&& action == (BatchAction::FetchHeader { height: batch.coins[current].height })
        },
        (BatchStage::FetchingLatest, BatchEventView::Latest(Some(message))) => {
            &&& next == batch.at(BatchStage::Over)
            &&& action matches BatchAction::Fail(why) && why@ == message
        },
        (BatchStage::FetchingHeader, BatchEventView::Header(Some(header))) => {
            &&& next == batch.at(BatchStage::Spawning)
            &&& action == (BatchAction::Spawn {
                index: current as usize,
                chi: puzzle(header, batch.seeds[current]),
                difficulty: batch.difficulty,
            })
        },
        (BatchStage::FetchingHeader, _) => {
            &&& next == batch.at(BatchStage::RestingForHeader)
            &&& action == (BatchAction::Rest { secs: RETRY_SECS })
        },
        (BatchStage::RestingForHeader, _) => {
            &&& next == batch.at(BatchStage::FetchingHeader)
            &&& action == (BatchAction::FetchHeader { height: batch.coins[current].height })
        },
        (BatchStage::Spawning, _) => if batch.coins.len() < batch.seeds.len() {
            &&& next == batch.at(BatchStage::FetchingCoin)
            &&& action == (BatchAction::FetchCoin { seed: batch.seeds[batch.coins.len() as int] })
        } else {
            &&& next == batch.at(BatchStage::Joining)
            &&& action == (BatchAction::Join { index: 0 })
        },
        (BatchStage::Joining, BatchEventView::Proof(proof)) => {
            let proofs = batch.proofs.push(proof);
            if proofs.len() < batch.seeds.len() {
                &&& next == (BatchView { proofs, ..batch })
                &&& action == (BatchAction::Join { index: proofs.len() as usize })
            } else {
                &&& next == (BatchView { proofs, ..batch.at(BatchStage::Over) })
                &&& action == BatchAction::Finish
            }
        },
        _ => false,
    }
}

/// What a batch hands out: for each seed coin, the coin and its proof.
pub open spec fn is_built(
    built: Seq<(CoinID, CoinDataHeight, Vec<u8>)>,
    batch: BatchView,
) -> bool {
    &&& built.len() == batch.seeds.len()
    &&& forall|i: int|
        0 <= i < built.len() ==> {
            &&& (#[trigger] built[i]).0 == batch.seeds[i]
            &&& built[i].1@ == batch.coins[i]
            &&& built[i].2@ == batch.proofs[i]
        }
}

impl MintState {
    /// Begins a batch of proofs of a difficulty, one for each thread.
    pub fn mint_batch(&self, difficulty: usize, threads: usize) -> (begun: (Batch, BatchAction))
        ensures
            begun.0@ == self::begun(*self, difficulty, threads),
            begun.1 == first_action(begun.0@),
            begun.0@.inv(),
            in_order(begun.0@.seeds),
    {
        let mut seeds = self.get_seeds_raw();
        if threads < seeds.len() {
            seeds.truncate(threads);
        }
        let coins: Vec<CoinDataHeight> = Vec::new();
        let proofs: Vec<Vec<u8>> = Vec::new();
        assert(heights(coins@) =~= Seq::empty());
        assert(bytes(proofs@) =~= Seq::empty());
        if seeds.len() == 0 {
            let batch = Batch { difficulty, seeds, coins, proofs, stage: BatchStage::Over };
            (batch, BatchAction::Finish)
        } else {
            let seed: CoinID = seeds[0];
            let stage = BatchStage::FetchingCoin;
            (Batch { difficulty, seeds, coins, proofs, stage }, BatchAction::FetchCoin { seed })
        }
    }
}

impl Batch {
    /// Whether an event can happen now.
    pub fn admits(&self, event: &BatchEvent) -> (admitted: bool)
        ensures
            admitted == self@.admits(event@),
    {
        match (self.stage, event) {
            (BatchStage::FetchingCoin, BatchEvent::Coin(_)) => true,
            (BatchStage::FetchingLatest, BatchEvent::Latest(_)) => true,
            (BatchStage::FetchingHeader, BatchEvent::Header(_)) => true,
            (BatchStage::Spawning, BatchEvent::Spawned) => true,
            (BatchStage::Joining, BatchEvent::Proof(_)) => true,
            (
                BatchStage::RestingForCoin | BatchStage::RestingForHeader,
                BatchEvent::Rested,
            ) => true,
            _ => false,
        }
    }

    /// Takes in what happened and says what to do next.
    pub fn next(&mut self, event: BatchEvent) -> (action: BatchAction)
        requires
            old(self)@.inv(),
            old(self)@.admits(event@),
        ensures
            batch_follows(old(self)@, event@, final(self)@, action),
            final(self)@.inv(),
            action is Finish ==> final(self)@.complete(),
    {
        match (self.stage, event) {
            (BatchStage::FetchingCoin, BatchEvent::Coin(coin)) => match repeat_fallible(coin) {
                Attempt::Done(Some(coin)) => {
                    let ghost known = self.coins@;
                    self.coins.push(coin);
                    assert(heights(self.coins@) =~= heights(known).push(coin@));
                    self.stage = BatchStage::FetchingLatest;
                    BatchAction::FetchLatest
                },
                Attempt::Done(None) => {
                    self.stage = BatchStage::Over;
                    BatchAction::SpentBehindOurBack
                },
                Attempt::Again { secs } => {
                    self.stage = BatchStage::RestingForCoin;
                    BatchAction::Rest { secs }
                },
            },
            (BatchStage::RestingForCoin, _) => {
                self.stage = BatchStage::FetchingCoin;
                BatchAction::FetchCoin { seed: self.seeds[self.coins.len()] }
            },
            (BatchStage::FetchingLatest, BatchEvent::Latest(Ok(()))) => {
                self.stage = BatchStage::FetchingHeader;
                BatchAction::FetchHeader { height: self.coins[self.coins.len() - 1].height }
            },
            (BatchStage::FetchingLatest, BatchEvent::Latest(Err(message))) => {
                self.stage = BatchStage::Over;
                BatchAction::Fail(message)
            },
            (BatchStage::FetchingHeader, BatchEvent::Header(header)) => {
                let index: usize = self.coins.len() - 1;
                match repeat_fallible(header) {
                    Attempt::Done(header) => {
                        self.stage = BatchStage::Spawning;
                        BatchAction::Spawn {
                            index,
                            chi: set_puzzle(&header, self.seeds[index]),
                            difficulty: self.difficulty,
                        }
                    },
                    Attempt::Again { secs } => {
                        self.stage = BatchStage::RestingForHeader;
                        BatchAction::Rest { secs }
                    },
                }
            },
            (BatchStage::RestingForHeader, _) => {
                self.stage = BatchStage::FetchingHeader;
                BatchAction::FetchHeader { height: self.coins[self.coins.len() - 1].height }
            },
            (BatchStage::Spawning, _) => if self.coins.len() < self.seeds.len() {
                self.stage = BatchStage::FetchingCoin;
                BatchAction::FetchCoin { seed: self.seeds[self.coins.len()] }
            } else {
                self.stage = BatchStage::Joining;
                BatchAction::Join { index: 0 }
            },
            (BatchStage::Joining, BatchEvent::Proof(proof)) => {
                let ghost built = self.proofs@;
                self.proofs.push(proof);
                assert(bytes(self.proofs@) =~= bytes(built).push(proof@));
                if self.proofs.len() < self.seeds.len() {
                    BatchAction::Join { index: self.proofs.len() }
                } else {
                    self.stage = BatchStage::Over;
                    BatchAction::Finish
                }
            },
            _ => {
                assert(false);
                BatchAction::Finish
            },
        }
    }

    /// The finished proofs: for each seed coin, in order, the coin and its proof.
    pub fn finish(&self) -> (built: Vec<(CoinID, CoinDataHeight, Vec<u8>)>)
        requires
            self@.complete(),
        ensures
            is_built(built@, self@),
    {
        let mut built: Vec<(CoinID, CoinDataHeight, Vec<u8>)> = Vec::new();
        let mut i: usize = 0;
        while i < self.seeds.len()
            invariant
                self@.complete(),
                i <= self.seeds.len(),
                built@.len() == i,
                forall|j: int|
                    0 <= j < i ==> {
                        &&& (#[trigger] built@[j]).0 == self@.seeds[j]
                        &&& built@[j].1@ == self@.coins[j]
                        &&& built@[j].2@ == self@.proofs[j]
                    },
            decreases self.seeds.len() - i,
        {
            let proof = self.proofs[i].clone();
            assert(proof@ =~= self.proofs[i as int]@);
            built.push((self.seeds[i], self.coins[i].clone(), proof));
            i = i + 1;
        }
        built
    }
}

/// What a worker is told of finished proofs: of each, in order, the seed coin and its height.
pub fn minted(built: &Vec<(CoinID, CoinDataHeight, Vec<u8>)>) -> (listed: Vec<Minted>)
    ensures
        listed@.len() == built@.len(),
        forall|i: int|
            0 <= i < built@.len() ==> (#[trigger] listed@[i]) == (Minted {
                seed: built@[i].0,
                coin_height: built@[i].1.height,
            }),
{
    let mut listed: Vec<Minted> = Vec::new();
    let mut i: usize = 0;
    while i < built.len()
        invariant
            i <= built.len(),
            listed@.len() == i,
            forall|j: int|
                0 <= j < i ==> (#[trigger] listed@[j]) == (Minted {
                    seed: built@[j].0,
                    coin_height: built@[j].1.height,
                }),
        decreases built.len() - i,
    {
        listed.push(Minted { seed: built[i].0, coin_height: built[i].1.height });
        i = i + 1;
    }
    listed
}

/// The finished proof of an index; nothing where there is none.
pub fn proof_of(built: &Vec<(CoinID, CoinDataHeight, Vec<u8>)>, index: usize) -> (proof: Option<
    Vec<u8>,
>)
    ensures
        proof is Some == (index < built@.len()),
        proof matches Some(proof) ==> proof@ == built@[index as int].2@,
{
    if index < built.len() {
        let proof = built[index].2.clone();
        assert(proof@ =~= built@[index as int].2@);
        Some(proof)
    } else {
        None
    }
}

/// The proof that is sent for a seed coin is the one that was built for it: what the worker hands
/// out by index, seed and coin height belongs to the proof of that index.
pub proof fn law_sent_proofs_are_those_of_their_seeds(
    batch: BatchView,
    built: Seq<(CoinID, CoinDataHeight, Vec<u8>)>,
    listed: Seq<Minted>,
    worker: WorkerView,
    event: EventView,
)
    requires
        is_built(built, batch),
        built.len() <= usize::MAX,
        listed.len() == built.len(),
        forall|i: int|
            0 <= i < built.len() ==> (#[trigger] listed[i]) == (Minted {
                seed: built[i].0,
                coin_height: built[i].1.height,
            }),
        worker.inv(),
        worker.batch == listed,
        worker.admits(event),
        step(worker, event).1 is SendMint,
    ensures
        ({
            let action = step(worker, event).1;
            let index = action->SendMint_index as int;
            &&& 0 <= index < batch.seeds.len()
            &&& action->SendMint_seed == batch.seeds[index]
            &&& built[index].2@ == batch.proofs[index]
            &&& worker.batch[index].coin_height == batch.coins[index].height
        }),
{
    assert(built[worker.tried].0 == batch.seeds[worker.tried]);
}

/// No two proofs of a batch start from the same seed coin.
pub proof fn law_each_proof_has_its_own_seed(seeds: Seq<CoinID>)
    requires
        in_order(seeds),
    ensures
        seeds.no_duplicates(),
{
    assert forall|i: int, j: int| 0 <= i < j < seeds.len() implies seeds[i] != seeds[j] by {
        assert(id_before(seeds[i], seeds[j]));
    }
}

/// For each proof the puzzle that is handed out is that of its seed coin, set by the coin and by
/// the header at the coin's height, and the difficulty is the batch's. What proof comes back is up
/// to whoever works on it.
pub proof fn law_puzzles_are_those_of_the_seeds(
    batch: BatchView,
    header: Header,
    next: BatchView,
    action: BatchAction,
)
    requires
        batch.inv(),
        batch.stage == BatchStage::FetchingHeader,
        batch.seeds.len() <= usize::MAX,
        batch_follows(batch, BatchEventView::Header(Some(header)), next, action),
    ensures
        action is Spawn,
        action->Spawn_index < batch.seeds.len(),
        action->chi == puzzle(header, batch.seeds[action->Spawn_index as int]),
        action->difficulty == batch.difficulty,
        forall|earlier: BatchView, event: BatchEventView, asked: BatchAction|
            earlier.inv() && #[trigger] batch_follows(earlier, event, batch, asked) ==> asked == (
            BatchAction::FetchHeader { height: batch.coins[action->Spawn_index as int].height }),
{
}

/// A failure to fetch a seed coin or a header loses nothing: after a rest the same is fetched
/// again, and the batch is as before.
pub proof fn law_failed_fetches_are_repeated(
    batch: BatchView,
    event: BatchEventView,
    rested: BatchView,
    rest: BatchAction,
    next: BatchView,
    action: BatchAction,
)
    requires
        batch.inv(),
        batch.admits(event),
        batch_follows(batch, event, rested, rest),
        event == BatchEventView::Coin(None) || event == BatchEventView::Header(None),
        batch_follows(rested, BatchEventView::Rested, next, action),
    ensures
        rest == (BatchAction::Rest { secs: RETRY_SECS }),
        next == batch,
        event == BatchEventView::Coin(None) ==> action == (BatchAction::FetchCoin {
            seed: batch.seeds[batch.coins.len() as int],
        }),
        event == BatchEventView::Header(None) ==> action == (BatchAction::FetchHeader {
            height: batch.coins.last().height,
        }),
{
}

/// A batch finishes only with a proof for each of its seed coins.
pub proof fn law_finished_batches_are_complete(
    batch: BatchView,
    event: BatchEventView,
    next: BatchView,
    action: BatchAction,
)
    requires
        batch.inv(),
        batch.admits(event),
        batch_follows(batch, event, next, action),
        action == BatchAction::Finish,
    ensures
        next.complete(),
        next.seeds == batch.seeds,
        next.coins == batch.coins,
{
}

} // verus!
