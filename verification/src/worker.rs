//! A worker: the rounds of minting, from measuring the machine to the last confirmation.
//!
//! The worker decides, and whoever runs it acts: it is told what happened and answers with what
//! to do next.

use vstd::prelude::*;

use crate::chain::{CoinID, Denom, MICROS};
use crate::refusal::{lacking, shortage};
use crate::retry::RETRY_SECS;
use crate::reward::{mint_reward, reward_ergs, reward_fits, reward_is_payable};

verus! {

/// How long to rest, in seconds, before a proof is sent again that there was no money to send.
pub const BACKOFF_SECS: u64 = 10;

/// Worker configuration.
#[derive(Debug)]
pub struct WorkerConfig {
    /// Where the profits go.
    pub payout: [u8; 32],
    pub name: String,
    /// How many proofs are built at a time.
    pub threads: usize,
    pub testnet: bool,
}

/// A finished proof: the seed coin that it was started from, and the height of that coin's block.
#[derive(Clone, Copy, Debug)]
pub struct Minted {
    pub seed: CoinID,
    pub coin_height: u64,
}

/// What a worker is waiting for.
#[derive(Clone, Copy, Debug, PartialEq, Eq, Structural)]
pub enum Phase {
    /// How fast the machine is.
    Measuring,
    /// Whether it was asked to stop.
    Polling,
    /// The state of the chain, with the pool of ergs and mels.
    FetchingPool,
    /// How many ergs the wallet has.
    ReadingErgs,
    /// That the empty erg coins are gone; then so many ergs are to be converted.
    Cleaning(u128),
    /// That the ergs are converted.
    Converting,
    /// How many mels the wallet has.
    ReadingMels,
    /// That the profits are paid out.
    PayingOut,
    /// What difficulty fits the machine.
    ChoosingDifficulty,
    /// The fastest speed on chain.
    FetchingSpeed,
    /// That there are seed coins enough.
    Seeding,
    /// The proofs.
    Minting,
    /// The end of the rest after the proofs could not be built.
    Resting,
    /// The tip of the chain, to reckon what the next proof is paid.
    FetchingTip,
    /// Whether the next proof was accepted.
    Sending,
    /// The end of the rest after there was no money to send the next proof.
    BackingOff,
    /// That the next transaction is confirmed.
    Confirming,
    /// The end of the rest after a failure.
    Restarting,
    /// Nothing more.
    Stopped,
}

/// What happened.
#[derive(Debug)]
pub enum Event {
    /// The action was done.
    Done,
    /// The action failed.
    Failed,
    /// The rest is over.
    Rested,
    /// Whether the worker was asked to stop.
    StopPolled(bool),
    /// How much the wallet has of what was asked for; nothing where it has no such coin.
    Balance(Option<u128>),
    /// The difficulty that fits the machine.
    Difficulty(usize),
    /// The proofs are built.
    Batch(Vec<Minted>),
    /// The height and the fastest speed at the tip of the chain.
    Tip { height: u64, dosc_speed: u128 },
    /// The proof's transaction was accepted; its hash.
    Sent([u8; 32]),
    /// The proof's transaction could not be sent; why.
    SendFailed(String),
}

/// The mathematical content of an [`Event`].
pub enum EventView {
    Done,
    Failed,
    Rested,
    StopPolled(bool),
    Balance(Option<u128>),
    Difficulty(usize),
    Batch(Seq<Minted>),
    Tip { height: u64, dosc_speed: u128 },
    Sent([u8; 32]),
    SendFailed(Seq<char>),
}

impl View for Event {
    type V = EventView;

    open spec fn view(&self) -> EventView {
        match self {
            Event::Done => EventView::Done,
            Event::Failed => EventView::Failed,
            Event::Rested => EventView::Rested,
            Event::StopPolled(asked) => EventView::StopPolled(*asked),
            Event::Balance(balance) => EventView::Balance(*balance),
            Event::Difficulty(difficulty) => EventView::Difficulty(*difficulty),
            Event::Batch(batch) => EventView::Batch(batch@),
            Event::Tip { height, dosc_speed } => EventView::Tip {
                height: *height,
                dosc_speed: *dosc_speed,
            },
            Event::Sent(txhash) => EventView::Sent(*txhash),
            Event::SendFailed(message) => EventView::SendFailed(message@),
        }
    }
}

/// What to do next.
#[derive(Clone, Copy, Debug)]
pub enum Action {
    /// Measure how fast the machine is; then `Done`.
    Measure,
    /// See whether the worker was asked to stop; then `StopPolled`.
    PollStop,
    /// Fetch the state of the chain and the pool of ergs and mels; then `Done` or `Failed`.
    FetchPool,
    /// Read how many ergs the wallet has; then `Balance`.
    ReadErgs,
    /// Get rid of the empty erg coins; then `Done` or `Failed`.
    CleanErgs,
    /// Convert so many ergs to mels; then `Done` or `Failed`.
    ConvertErgs { ergs: u128 },
    /// Read how many mels the wallet has; then `Balance`.
    ReadMels,
    /// Pay so many micro-mels out; then `Done` or `Failed`.
    PayOut { to: [u8; 32], value: u128 },
    /// Choose a difficulty that fits the machine; then `Difficulty`.
    ChooseDifficulty { testnet: bool },
    /// Fetch the fastest speed on chain; then `Done` or `Failed`.
    FetchSpeed,
    /// Make sure that there are so many seed coins; then `Done` or `Failed`.
    GenerateSeeds { threads: usize },
    /// Build the proofs; then `Batch` or `Failed`.
    MintBatch { difficulty: usize, threads: usize },
    /// Fetch the tip of the chain; then `Tip` or `Failed`.
    FetchTip,
    /// Send the proof of the given index in the batch and claim so many ergs for it; then `Sent`,
    /// or `SendFailed` with what the wallet or the network says.
    SendMint { index: usize, seed: CoinID, difficulty: usize, ergs: u128 },
    /// Wait until the transaction is no longer pending; then `Done` or `Failed`.
    WaitTx { txhash: [u8; 32] },
    /// Rest so many seconds; then `Rested`.
    Rest { secs: u64 },
    /// Stop.
    Stop,
}

/// A worker.
#[derive(Debug)]
pub struct Worker {
    config: WorkerConfig,
    phase: Phase,
    difficulty: usize,
    batch: Vec<Minted>,
    tried: usize,
    sent: Vec<[u8; 32]>,
    confirmed: usize,
}

/// The mathematical content of a [`Worker`].
#[verifier::ext_equal]
pub struct WorkerView {
    pub payout: [u8; 32],
    pub threads: usize,
    pub testnet: bool,
    pub phase: Phase,
    /// The difficulty of the round's proofs.
    pub difficulty: usize,
    /// The round's proofs.
    pub batch: Seq<Minted>,
    /// How many of them were tried: they are accepted, or given up.
    pub tried: int,
    /// The transactions that were accepted for them.
    pub sent: Seq<[u8; 32]>,
    /// How many of those are confirmed.
    pub confirmed: int,
}

impl View for Worker {
    type V = WorkerView;

    closed spec fn view(&self) -> WorkerView {
        WorkerView {
            payout: self.config.payout,
            threads: self.config.threads,
            testnet: self.config.testnet,
            phase: self.phase,
            difficulty: self.difficulty,
            batch: self.batch@,
            tried: self.tried as int,
            sent: self.sent@,
            confirmed: self.confirmed as int,
        }
    }
}

/// A worker of a configuration that has not done anything yet.
pub open spec fn fresh(payout: [u8; 32], threads: usize, testnet: bool) -> WorkerView {
    WorkerView {
        payout,
        threads,
        testnet,
        phase: Phase::Measuring,
        difficulty: 0,
        batch: Seq::empty(),
        tried: 0,
        sent: Seq::empty(),
        confirmed: 0,
    }
}

impl WorkerView {
    /// The proofs of a round are all tried before any is waited for, and what was accepted of them
    /// is confirmed before the round is over.
    pub open spec fn inv(self) -> bool {
        &&& self.sent.len() <= self.tried <= self.batch.len()
        &&& match self.phase {
            Phase::FetchingTip | Phase::Sending | Phase::BackingOff => {
                &&& self.tried < self.batch.len()
                &&& self.confirmed == 0
            },
            Phase::Confirming => {
                &&& self.tried == self.batch.len()
                &&& 0 <= self.confirmed < self.sent.len()
            },
            _ => {
                &&& self.tried == self.batch.len()
                &&& self.confirmed == self.sent.len()
            },
        }
    }

    /// Whether an event can happen now: it answers what the worker is waiting for, and what a
    /// proof is paid can be reckoned in machine numbers.
    pub open spec fn admits(self, event: EventView) -> bool {
        match (self.phase, event) {
            (Phase::Measuring, EventView::Done) => true,
            (Phase::Polling, EventView::StopPolled(_)) => true,
            (Phase::ReadingErgs, EventView::Balance(_)) => true,
            (Phase::ReadingMels, EventView::Balance(_)) => true,
            (Phase::ChoosingDifficulty, EventView::Difficulty(_)) => true,
            (Phase::Minting, EventView::Batch(_)) => true,
            (Phase::Minting, EventView::Failed) => true,
            (Phase::FetchingTip, EventView::Tip { height, dosc_speed }) => reward_fits(
                self.difficulty as nat,
                height as nat,
                self.batch[self.tried].coin_height as nat,
                dosc_speed as nat,
            ),
            (Phase::FetchingTip, EventView::Failed) => true,
            (Phase::Sending, EventView::Sent(_)) => true,
            (Phase::Sending, EventView::SendFailed(_)) => true,
            (
                Phase::Resting | Phase::BackingOff | Phase::Restarting,
                EventView::Rested,
            ) => true,
            (
                Phase::FetchingPool | Phase::Cleaning(_) | Phase::Converting | Phase::PayingOut
                | Phase::FetchingSpeed | Phase::Seeding | Phase::Confirming,
                EventView::Done | EventView::Failed,
            ) => true,
            _ => false,
        }
    }

    pub open spec fn at(self, phase: Phase) -> WorkerView {
        WorkerView { phase, ..self }
    }
}

/// Whether `word` occurs in `text`.
pub open spec fn occurs(text: Seq<char>, word: Seq<char>) -> bool {
    exists|i: int|
        0 <= i <= text.len() - word.len() && #[trigger] text.subrange(i, i + word.len()) == word
}

/// Whether a failure to send is for lack of money: the wallet says what is lacking, or that the
/// preparation failed.
pub open spec fn lacks_money(message: Seq<char>) -> bool {
    ||| exists|denom: Denom| message == #[trigger] shortage(denom)
    ||| occurs(message, "preparation"@)
}

/// What is waited for, and done, once the first proofs of a round were tried: the next one is sent,
/// or what was accepted is waited for, or the round is over.
pub open spec fn go_on(worker: WorkerView) -> (WorkerView, Action) {
    if worker.tried < worker.batch.len() {
        (worker.at(Phase::FetchingTip), Action::FetchTip)
    } else if worker.sent.len() > 0 {
        (worker.at(Phase::Confirming), Action::WaitTx { txhash: worker.sent[0] })
    } else {
        (worker.at(Phase::Polling), Action::PollStop)
    }
}

/// What is waited for, and done, once a failure has spoilt the round.
pub open spec fn spoilt(worker: WorkerView) -> (WorkerView, Action) {
    (
        fresh(worker.payout, worker.threads, worker.testnet).at(Phase::Restarting),
        Action::Rest { secs: RETRY_SECS },
    )
}

/// What an event makes of a worker, and what is to be done then.
pub open spec fn step(worker: WorkerView, event: EventView) -> (WorkerView, Action) {
    match (worker.phase, event) {
        (Phase::Measuring, _) => (worker.at(Phase::Polling), Action::PollStop),
        (Phase::Polling, EventView::StopPolled(true)) => (worker.at(Phase::Stopped), Action::Stop),
        (Phase::Polling, _) => (worker.at(Phase::FetchingPool), Action::FetchPool),
        (Phase::FetchingPool, EventView::Done) => (
            worker.at(Phase::ReadingErgs),
            Action::ReadErgs,
        ),
        (Phase::ReadingErgs, EventView::Balance(Some(ergs))) => (
            worker.at(Phase::Cleaning(ergs)),
            Action::CleanErgs,
        ),
        (Phase::ReadingErgs, _) => (worker.at(Phase::ReadingMels), Action::ReadMels),
        (Phase::Cleaning(ergs), EventView::Done) => (
            worker.at(Phase::Converting),
            Action::ConvertErgs { ergs },
        ),
        (Phase::Converting, EventView::Done) => (worker.at(Phase::ReadingMels), Action::ReadMels),
        (Phase::ReadingMels, EventView::Balance(balance)) => if balance is Some && balance->0
            > MICROS {
            (
                worker.at(Phase::PayingOut),
                Action::PayOut { to: worker.payout, value: balance->0 / 2 },
            )
        } else {
            (
                worker.at(Phase::ChoosingDifficulty),
                Action::ChooseDifficulty { testnet: worker.testnet },
            )
        },
        (Phase::PayingOut, EventView::Done) => (
            worker.at(Phase::ChoosingDifficulty),
            Action::ChooseDifficulty { testnet: worker.testnet },
        ),
        (Phase::ChoosingDifficulty, EventView::Difficulty(difficulty)) => (
            WorkerView { difficulty, ..worker.at(Phase::FetchingSpeed) },
            Action::FetchSpeed,
        ),
        (Phase::FetchingSpeed, EventView::Done) => (
            worker.at(Phase::Seeding),
            Action::GenerateSeeds { threads: worker.threads },
        ),
        (Phase::Seeding, EventView::Done) => (
            worker.at(Phase::Minting),
            Action::MintBatch { difficulty: worker.difficulty, threads: worker.threads },
        ),
        (Phase::Minting, EventView::Batch(batch)) => {
            go_on(WorkerView { batch, tried: 0, sent: Seq::empty(), confirmed: 0, ..worker })
        },
        (Phase::Minting, _) => (worker.at(Phase::Resting), Action::Rest { secs: RETRY_SECS }),
        (Phase::Resting, _) => (
            worker.at(Phase::Minting),
            Action::MintBatch { difficulty: worker.difficulty, threads: worker.threads },
        ),
        (Phase::FetchingTip, EventView::Tip { height, dosc_speed }) => {
            let next = worker.batch[worker.tried];
            let ergs = mint_reward(
                worker.difficulty as nat,
                height as nat,
                next.coin_height as nat,
                dosc_speed as nat,
            );
            (
                worker.at(Phase::Sending),
                Action::SendMint {
                    index: worker.tried as usize,
                    seed: next.seed,
                    difficulty: worker.difficulty,
                    ergs: ergs as u128,
                },
            )
        },
        (Phase::FetchingTip, _) => (worker, Action::FetchTip),
        (Phase::Sending, EventView::Sent(txhash)) => go_on(
            WorkerView { tried: worker.tried + 1, sent: worker.sent.push(txhash), ..worker },
        ),
        (Phase::Sending, EventView::SendFailed(message)) => if lacks_money(message) {
            (worker.at(Phase::BackingOff), Action::Rest { secs: BACKOFF_SECS })
        } else {
            go_on(WorkerView { tried: worker.tried + 1, ..worker })
        },
        (Phase::BackingOff, _) => (worker.at(Phase::FetchingTip), Action::FetchTip),
        (Phase::Confirming, EventView::Done) => {
            let confirmed = worker.confirmed + 1;
            if confirmed < worker.sent.len() {
                (
                    WorkerView { confirmed, ..worker },
                    Action::WaitTx { txhash: worker.sent[confirmed] },
                )
            } else {
                (WorkerView { confirmed, ..worker.at(Phase::Polling) }, Action::PollStop)
            }
        },
        (Phase::Restarting, _) => (worker.at(Phase::Measuring), Action::Measure),
        (Phase::Stopped, _) => (worker, Action::Stop),
        _ => spoilt(worker),
    }
}

/// Calls `str::contains` of the standard library: whether the word occurs in the text.
#[verifier::external_body]
fn contains(text: &String, word: &str) -> (found: bool)
    ensures
        found == occurs(text@, word@),
{
    text.contains(word)
}

impl Worker {
    /// Starts a worker with the given configuration; what it does first is `Action::Measure`.
    pub fn start(config: WorkerConfig) -> (worker: Self)
        ensures
            worker@ == fresh(config.payout, config.threads, config.testnet),
            worker@.inv(),
    {
        Worker {
            config,
            phase: Phase::Measuring,
            difficulty: 0,
            batch: Vec::new(),
            tried: 0,
            sent: Vec::new(),
            confirmed: 0,
        }
    }

    /// Goes on once the first proofs of a round were tried.
    fn go_on(&mut self) -> (action: Action)
        ensures
            final(self)@ == go_on(old(self)@).0,
            action == go_on(old(self)@).1,
    {
        if self.tried < self.batch.len() {
            self.phase = Phase::FetchingTip;
            Action::FetchTip
        } else if self.sent.len() > 0 {
            self.phase = Phase::Confirming;
            Action::WaitTx { txhash: self.sent[0] }
        } else {
            self.phase = Phase::Polling;
            Action::PollStop
        }
    }

    /// What the worker is waiting for.
    pub fn phase(&self) -> (phase: Phase)
        ensures
            phase == self@.phase,
    {
        self.phase
    }

    /// Whether an event can happen now.
    pub fn admits(&self, event: &Event) -> (admitted: bool)
        requires
            self@.inv(),
        ensures
            admitted == self@.admits(event@),
    {
        match (self.phase, event) {
            (Phase::Measuring, Event::Done) => true,
            (Phase::Polling, Event::StopPolled(_)) => true,
            (Phase::ReadingErgs, Event::Balance(_)) => true,
            (Phase::ReadingMels, Event::Balance(_)) => true,
            (Phase::ChoosingDifficulty, Event::Difficulty(_)) => true,
            (Phase::Minting, Event::Batch(_)) => true,
            (Phase::Minting, Event::Failed) => true,
            (Phase::FetchingTip, Event::Tip { height, dosc_speed }) => reward_is_payable(
                self.difficulty,
                *height,
                self.batch[self.tried].coin_height,
                *dosc_speed,
            ),
            (Phase::FetchingTip, Event::Failed) => true,
            (Phase::Sending, Event::Sent(_)) => true,
            (Phase::Sending, Event::SendFailed(_)) => true,
            (Phase::Resting | Phase::BackingOff | Phase::Restarting, Event::Rested) => true,
            (
                Phase::FetchingPool | Phase::Cleaning(_) | Phase::Converting | Phase::PayingOut
                | Phase::FetchingSpeed | Phase::Seeding | Phase::Confirming,
                Event::Done | Event::Failed,
            ) => true,
            _ => false,
        }
    }

    /// Takes in what happened and says what to do next.
    pub fn next(&mut self, event: Event) -> (action: Action)
        requires
            old(self)@.inv(),
            old(self)@.admits(event@),
        ensures
            final(self)@ == step(old(self)@, event@).0,
            action == step(old(self)@, event@).1,
            final(self)@.inv(),
    {
        match (self.phase, event) {
            (Phase::Measuring, _) => {
                self.phase = Phase::Polling;
                Action::PollStop
            },
            (Phase::Polling, Event::StopPolled(true)) => {
                self.phase = Phase::Stopped;
                Action::Stop
            },
            (Phase::Polling, _) => {
                self.phase = Phase::FetchingPool;
                Action::FetchPool
            },
            (Phase::FetchingPool, Event::Done) => {
                self.phase = Phase::ReadingErgs;
                Action::ReadErgs
            },
            (Phase::ReadingErgs, Event::Balance(Some(ergs))) => {
                self.phase = Phase::Cleaning(ergs);
                Action::CleanErgs
            },
            (Phase::ReadingErgs, _) => {
                self.phase = Phase::ReadingMels;
                Action::ReadMels
            },
            (Phase::Cleaning(ergs), Event::Done) => {
                self.phase = Phase::Converting;
                Action::ConvertErgs { ergs }
            },
            (Phase::Converting, Event::Done) => {
                self.phase = Phase::ReadingMels;
                Action::ReadMels
            },
            (Phase::ReadingMels, Event::Balance(balance)) => {
                let mels: u128 = match balance {
                    Some(mels) => mels,
                    None => 0,
                };
                if mels > MICROS {
                    self.phase = Phase::PayingOut;
                    Action::PayOut { to: self.config.payout, value: mels / 2 }
                } else {
                    self.phase = Phase::ChoosingDifficulty;
                    Action::ChooseDifficulty { testnet: self.config.testnet }
                }
            },
            (Phase::PayingOut, Event::Done) => {
                self.phase = Phase::ChoosingDifficulty;
                Action::ChooseDifficulty { testnet: self.config.testnet }
            },
            (Phase::ChoosingDifficulty, Event::Difficulty(difficulty)) => {
                self.difficulty = difficulty;
                self.phase = Phase::FetchingSpeed;
                Action::FetchSpeed
            },
            (Phase::FetchingSpeed, Event::Done) => {
                self.phase = Phase::Seeding;
                Action::GenerateSeeds { threads: self.config.threads }
            },
            (Phase::Seeding, Event::Done) => {
                self.phase = Phase::Minting;
                Action::MintBatch { difficulty: self.difficulty, threads: self.config.threads }
            },
            (Phase::Minting, Event::Batch(batch)) => {
                self.batch = batch;
                self.tried = 0;
                self.sent = Vec::new();
                self.confirmed = 0;
                self.go_on()
            },
            (Phase::Minting, _) => {
                self.phase = Phase::Resting;
                Action::Rest { secs: RETRY_SECS }
            },
            (Phase::Resting, _) => {
                self.phase = Phase::Minting;
                Action::MintBatch { difficulty: self.difficulty, threads: self.config.threads }
            },
            (Phase::FetchingTip, Event::Tip { height, dosc_speed }) => {
                let index: usize = self.tried;
                let minted: Minted = self.batch[index];
                let ergs: u128 = reward_ergs(
                    self.difficulty,
                    height,
                    minted.coin_height,
                    dosc_speed,
                );
                self.phase = Phase::Sending;
                Action::SendMint { index, seed: minted.seed, difficulty: self.difficulty, ergs }
            },
            (Phase::FetchingTip, _) => Action::FetchTip,
            (Phase::Sending, Event::Sent(txhash)) => {
                let total: usize = self.batch.len();
                assert(self.tried < total);
                self.tried = self.tried + 1;
                self.sent.push(txhash);
                self.go_on()
            },
            (Phase::Sending, Event::SendFailed(message)) => {
                let total: usize = self.batch.len();
                assert(self.tried < total);
                if lacking(&message).is_some() || contains(&message, "preparation") {
                    self.phase = Phase::BackingOff;
                    Action::Rest { secs: BACKOFF_SECS }
                } else {
                    self.tried = self.tried + 1;
                    self.go_on()
                }
            },
            (Phase::BackingOff, _) => {
                self.phase = Phase::FetchingTip;
                Action::FetchTip
            },
            (Phase::Confirming, Event::Done) => {
                let total: usize = self.sent.len();
                self.confirmed = self.confirmed + 1;
                if self.confirmed < total {
                    Action::WaitTx { txhash: self.sent[self.confirmed] }
                } else {
                    self.phase = Phase::Polling;
                    Action::PollStop
                }
            },
            (Phase::Restarting, _) => {
                self.phase = Phase::Measuring;
                Action::Measure
            },
            (Phase::Stopped, _) => Action::Stop,
            _ => {
                self.phase = Phase::Restarting;
                self.difficulty = 0;
                self.batch = Vec::new();
                self.tried = 0;
                self.sent = Vec::new();
                self.confirmed = 0;
                Action::Rest { secs: RETRY_SECS }
            },
        }
    }
}

} // verus!
