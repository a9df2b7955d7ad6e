//! What a round of minting is, step by step and from end to end.

use vstd::prelude::*;

use crate::chain::Denom;
use crate::refusal::shortage;
use crate::reward::reward_fits;
use crate::worker::{
    fresh, lacks_money, occurs, step, Action, Event, EventView, Minted, Phase, WorkerView,
};
use crate::worker_laws::{possible, run};

verus! {

/// A round begins by asking whether to stop, then with the pool and the ergs. Ergs are cleaned up
/// and all converted; of more than one mel half is paid out to the configured address. Then a
/// difficulty is chosen for the configured network, the speed of the chain is fetched, seed coins
/// are made sure of for each thread, and proofs are built for each thread at the chosen difficulty.
pub proof fn law_rounds_go_step_by_step(
    worker: WorkerView,
    ergs: u128,
    mels: Option<u128>,
    difficulty: usize,
)
    ensures
        step(worker.at(Phase::Measuring), EventView::Done) == (
            worker.at(Phase::Polling),
            Action::PollStop,
        ),
        step(worker.at(Phase::Polling), EventView::StopPolled(true)) == (
            worker.at(Phase::Stopped),
            Action::Stop,
        ),
        step(worker.at(Phase::Polling), EventView::StopPolled(false)) == (
            worker.at(Phase::FetchingPool),
            Action::FetchPool,
        ),
        step(worker.at(Phase::FetchingPool), EventView::Done) == (
            worker.at(Phase::ReadingErgs),
            Action::ReadErgs,
        ),
        step(worker.at(Phase::ReadingErgs), EventView::Balance(None)) == (
            worker.at(Phase::ReadingMels),
            Action::ReadMels,
        ),
        step(worker.at(Phase::ReadingErgs), EventView::Balance(Some(ergs))) == (
            worker.at(Phase::Cleaning(ergs)),
            Action::CleanErgs,
        ),
        step(worker.at(Phase::Cleaning(ergs)), EventView::Done) == (
            worker.at(Phase::Converting),
            Action::ConvertErgs { ergs },
        ),
        step(worker.at(Phase::Converting), EventView::Done) == (
            worker.at(Phase::ReadingMels),
            Action::ReadMels,
        ),
        match mels {
            Some(mels) if mels > 1_000_000 => {
                let (next, action) = step(
                    worker.at(Phase::ReadingMels),
                    EventView::Balance(Some(mels)),
                );
                &&& next == worker.at(Phase::PayingOut)
                &&& action matches Action::PayOut { to, value }
                &&& to == worker.payout
                &&& mels - 1 <= value + value <= mels
            },
            _ => step(worker.at(Phase::ReadingMels), EventView::Balance(mels)) == (
                worker.at(Phase::ChoosingDifficulty),
                Action::ChooseDifficulty { testnet: worker.testnet },
            ),
        },
        step(worker.at(Phase::PayingOut), EventView::Done) == (
            worker.at(Phase::ChoosingDifficulty),
            Action::ChooseDifficulty { testnet: worker.testnet },
        ),
        ({
            let (chosen, first) = step(
                worker.at(Phase::ChoosingDifficulty),
                EventView::Difficulty(difficulty),
            );
            let (fast, second) = step(chosen, EventView::Done);
            let (ready, third) = step(fast, EventView::Done);
            &&& first is FetchSpeed
            &&& second == (Action::GenerateSeeds { threads: worker.threads })
            &&& third == (Action::MintBatch { difficulty, threads: worker.threads })
            &&& chosen.difficulty == difficulty
            &&& ready == (WorkerView { difficulty, ..worker.at(Phase::Minting) })
        }),
{
}

/// To wait for something else changes nothing but what is waited for.
pub proof fn law_waiting_changes_only_the_phase(worker: WorkerView, phase: Phase)
    ensures
        worker.at(phase).phase == phase,
        worker.at(phase).payout == worker.payout,
        worker.at(phase).threads == worker.threads,
        worker.at(phase).testnet == worker.testnet,
        worker.at(phase).difficulty == worker.difficulty,
        worker.at(phase).batch == worker.batch,
        worker.at(phase).tried == worker.tried,
        worker.at(phase).sent == worker.sent,
        worker.at(phase).confirmed == worker.confirmed,
{
}

/// What is waited for is the answer to what was just asked to be done.
pub proof fn law_answers_are_waited_for(worker: WorkerView, event: EventView)
    requires
        worker.inv(),
        worker.admits(event),
    ensures
        ({
            let (next, action) = step(worker, event);
            match action {
                Action::Measure => next.phase == Phase::Measuring,
                Action::PollStop => next.phase == Phase::Polling,
                Action::FetchPool => next.phase == Phase::FetchingPool,
                Action::ReadErgs => next.phase == Phase::ReadingErgs,
                Action::CleanErgs => next.phase is Cleaning,
                Action::ConvertErgs { .. } => next.phase == Phase::Converting,
                Action::ReadMels => next.phase == Phase::ReadingMels,
                Action::PayOut { .. } => next.phase == Phase::PayingOut,
                Action::ChooseDifficulty { .. } => next.phase == Phase::ChoosingDifficulty,
                Action::FetchSpeed => next.phase == Phase::FetchingSpeed,
                Action::GenerateSeeds { .. } => next.phase == Phase::Seeding,
                Action::MintBatch { .. } => next.phase == Phase::Minting,
                Action::FetchTip => next.phase == Phase::FetchingTip,
                Action::SendMint { .. } => next.phase == Phase::Sending,
                Action::WaitTx { .. } => next.phase == Phase::Confirming,
                Action::Rest { .. } => next.phase is Resting || next.phase is BackingOff
                    || next.phase is Restarting,
                Action::Stop => next.phase == Phase::Stopped,
            }
        }),
{
}

/// Proofs that could not be built are built again after a second, as many and as hard as before.
pub proof fn law_failed_batches_are_built_again(worker: WorkerView)
    requires
        worker.phase == Phase::Minting,
    ensures
        ({
            let (resting, first) = step(worker, EventView::Failed);
            let (again, second) = step(resting, EventView::Rested);
            &&& first == (Action::Rest { secs: 1 })
            &&& second == (Action::MintBatch {
                difficulty: worker.difficulty,
                threads: worker.threads,
            })
            &&& again == worker
        }),
{
}

/// Once the proofs are built the worker holds all of them, none tried and none accepted, and sends
/// the first; where there are none the round is over.
pub proof fn law_built_proofs_are_all_held(worker: WorkerView, batch: Seq<Minted>)
    requires
        worker.phase == Phase::Minting,
    ensures
        ({
            let (built, action) = step(worker, EventView::Batch(batch));
            &&& built.batch == batch
            &&& built.tried == 0
            &&& built.sent.len() == 0
            &&& built.confirmed == 0
            &&& built.difficulty == worker.difficulty
            &&& batch.len() > 0 ==> action is FetchTip && built.phase == Phase::FetchingTip
            &&& batch.len() == 0 ==> action is PollStop && built.phase == Phase::Polling
        }),
{
}

/// A proof that is accepted counts as tried, and its transaction is kept behind those before it.
pub proof fn law_accepted_proofs_are_kept(worker: WorkerView, txhash: [u8; 32])
    requires
        worker.inv(),
        worker.phase == Phase::Sending,
    ensures
        ({
            let (next, action) = step(worker, EventView::Sent(txhash));
            &&& next.tried == worker.tried + 1
            &&& next.batch == worker.batch
            &&& next.difficulty == worker.difficulty
            &&& next.sent.len() == worker.sent.len() + 1
            &&& next.sent.last() == txhash
            &&& next.sent.drop_last() == worker.sent
            &&& worker.tried + 1 < worker.batch.len() ==> action is FetchTip && next.phase
                == Phase::FetchingTip
            &&& worker.tried + 1 == worker.batch.len() ==> next.phase == Phase::Confirming
                && action == (Action::WaitTx { txhash: next.sent[0] })
        }),
{
    let next = step(worker, EventView::Sent(txhash)).0;
    assert(next.sent.drop_last() =~= worker.sent);
}

/// What is sent is the proof whose turn it is: its index, its own seed coin, and the difficulty of
/// the round.
pub proof fn law_the_next_proof_is_sent(worker: WorkerView, height: u64, dosc_speed: u128)
    requires
        worker.inv(),
        worker.batch.len() <= usize::MAX,
        worker.phase == Phase::FetchingTip,
    ensures
        ({
            let (next, action) = step(worker, EventView::Tip { height, dosc_speed });
            &&& next == worker.at(Phase::Sending)
            &&& action matches Action::SendMint { index, seed, difficulty, .. }
            &&& index == worker.tried
            &&& seed == worker.batch[index as int].seed
            &&& difficulty == worker.difficulty
        }),
{
}

/// Confirmations are waited for one after the other until there is none left; then the next round
/// begins.
pub proof fn law_every_confirmation_is_waited_for(worker: WorkerView)
    requires
        worker.inv(),
        worker.phase == Phase::Confirming,
    ensures
        ({
            let (next, action) = step(worker, EventView::Done);
            &&& next.confirmed == worker.confirmed + 1
            &&& next.sent == worker.sent
            &&& next.batch == worker.batch
            &&& worker.confirmed + 1 < worker.sent.len() ==> next.phase == Phase::Confirming
                && action == (Action::WaitTx { txhash: worker.sent[worker.confirmed + 1] })
            &&& worker.confirmed + 1 == worker.sent.len() ==> next.phase == Phase::Polling && action
                is PollStop
        }),
{
}

/// Whether a worker is before the choice of a difficulty.
spec fn before_choice(phase: Phase) -> bool {
    match phase {
        Phase::Restarting
        | Phase::Measuring
        | Phase::Polling
        | Phase::FetchingPool
        | Phase::ReadingErgs
        | Phase::Cleaning(_)
        | Phase::Converting
        | Phase::ReadingMels
        | Phase::PayingOut
        | Phase::ChoosingDifficulty
        | Phase::Stopped => true,
        _ => false,
    }
}

proof fn lemma_difficulty_stays(worker: WorkerView, events: Seq<EventView>)
    requires
        possible(worker, events),
        forall|k: int| 0 <= k < events.len() ==> !((#[trigger] events[k]) is Difficulty),
    ensures
        before_choice(worker.phase) ==> before_choice(run(worker, events).phase),
        before_choice(run(worker, events).phase) || run(worker, events).difficulty
            == worker.difficulty,
        run(worker, events).threads == worker.threads,
        run(worker, events).testnet == worker.testnet,
        run(worker, events).payout == worker.payout,
    decreases events.len(),
{
    if events.len() > 0 {
        let before = events.drop_last();
        assert forall|k: int| 0 <= k < before.len() implies !((#[trigger] before[k])
            is Difficulty) by {
            assert(before[k] == events[k]);
        }
        lemma_difficulty_stays(worker, before);
        assert(!(events[events.len() - 1] is Difficulty));
    }
}

/// One difficulty for the whole round: once it is chosen, and until another is, whatever happens,
/// every batch is built and every proof is claimed at that difficulty, and every batch is built for
/// the configured number of threads, with seed coins for as many. So a proof is claimed at the
/// difficulty at which it was built.
pub proof fn law_proofs_are_claimed_at_the_difficulty_they_are_built_at(
    worker: WorkerView,
    chosen: usize,
    events: Seq<EventView>,
    event: EventView,
)
    requires
        worker.phase == Phase::ChoosingDifficulty,
        possible(step(worker, EventView::Difficulty(chosen)).0, events),
        forall|k: int| 0 <= k < events.len() ==> !((#[trigger] events[k]) is Difficulty),
        run(step(worker, EventView::Difficulty(chosen)).0, events).admits(event),
        !(event is Difficulty),
    ensures
        match step(run(step(worker, EventView::Difficulty(chosen)).0, events), event).1 {
            Action::MintBatch { difficulty, threads } => difficulty == chosen && threads
                == worker.threads,
            Action::SendMint { difficulty, .. } => difficulty == chosen,
            Action::GenerateSeeds { threads } => threads == worker.threads,
            Action::ChooseDifficulty { testnet } => testnet == worker.testnet,
            Action::PayOut { to, .. } => to == worker.payout,
            _ => true,
        },
{
    lemma_difficulty_stays(step(worker, EventView::Difficulty(chosen)).0, events);
}

/// No batch is built and no proof is claimed before a difficulty is chosen.
pub proof fn law_nothing_is_built_before_the_choice(
    payout: [u8; 32],
    threads: usize,
    testnet: bool,
    events: Seq<EventView>,
    event: EventView,
)
    requires
        possible(fresh(payout, threads, testnet), events),
        forall|k: int| 0 <= k < events.len() ==> !((#[trigger] events[k]) is Difficulty),
        run(fresh(payout, threads, testnet), events).admits(event),
    ensures
        ({
            let action = step(run(fresh(payout, threads, testnet), events), event).1;
            !(action is MintBatch) && !(action is SendMint) && !(action is GenerateSeeds)
        }),
{
    lemma_difficulty_stays(fresh(payout, threads, testnet), events);
}

/// A worker begins with its configuration and nothing else, by measuring the machine.
pub proof fn law_workers_begin_with_their_configuration(
    payout: [u8; 32],
    threads: usize,
    testnet: bool,
)
    ensures
        ({
            let worker = fresh(payout, threads, testnet);
            &&& worker.payout == payout
            &&& worker.threads == threads
            &&& worker.testnet == testnet
            &&& worker.phase == Phase::Measuring
            &&& worker.batch.len() == 0
            &&& worker.sent.len() == 0
            &&& worker.tried == 0
            &&& worker.confirmed == 0
        }),
{
}

/// A failure is for lack of money if it is what a wallet says of a denomination, or if the word
/// "preparation" stands anywhere in it, and otherwise not.
pub proof fn law_lack_of_money_is_told_by_its_words(
    message: Seq<char>,
    denom: Denom,
    before: Seq<char>,
    after: Seq<char>,
)
    ensures
        lacks_money(shortage(denom)),
        lacks_money(before + "preparation"@ + after),
        lacks_money(message) ==> (exists|lacking: Denom| message == #[trigger] shortage(lacking))
            || exists|i: int|
            0 <= i && i + "preparation"@.len() <= message.len() && #[trigger] message.subrange(
                i,
                i + "preparation"@.len(),
            ) == "preparation"@,
{
    law_words_occur_where_they_stand(before, "preparation"@, after);
}

/// A word occurs in every text in which it stands between two others.
pub proof fn law_words_occur_where_they_stand(
    before: Seq<char>,
    word: Seq<char>,
    after: Seq<char>,
)
    ensures
        occurs(before + word + after, word),
{
    let text = before + word + after;
    let i = before.len() as int;
    assert(text.subrange(i, i + word.len()) =~= word);
}

/// Whatever is waited for can come, and nothing else; the tip of the chain where what the next
/// proof is paid can be reckoned.
pub proof fn law_workers_take_what_they_wait_for(worker: WorkerView, event: EventView)
    ensures
        worker.admits(event) <==> match event {
            EventView::Done => worker.phase is Measuring || worker.phase is FetchingPool
                || worker.phase is Cleaning || worker.phase is Converting || worker.phase
                is PayingOut || worker.phase is FetchingSpeed || worker.phase is Seeding
                || worker.phase is Confirming,
            EventView::Failed => worker.phase is FetchingPool || worker.phase is Cleaning
                || worker.phase is Converting || worker.phase is PayingOut || worker.phase
                is FetchingSpeed || worker.phase is Seeding || worker.phase is Minting
                || worker.phase is FetchingTip || worker.phase is Confirming,
            EventView::Rested => worker.phase is Resting || worker.phase is BackingOff
                || worker.phase is Restarting,
            EventView::StopPolled(_) => worker.phase is Polling,
            EventView::Balance(_) => worker.phase is ReadingErgs || worker.phase is ReadingMels,
            EventView::Difficulty(_) => worker.phase is ChoosingDifficulty,
            EventView::Batch(_) => worker.phase is Minting,
            EventView::Tip { height, dosc_speed } => worker.phase is FetchingTip && reward_fits(
                worker.difficulty as nat,
                height as nat,
                worker.batch[worker.tried].coin_height as nat,
                dosc_speed as nat,
            ),
            EventView::Sent(_) => worker.phase is Sending,
            EventView::SendFailed(_) => worker.phase is Sending,
        },
{
}

/// An event has the content of everything in it.
pub proof fn law_events_hold_everything(event: Event)
    ensures
        match event {
            Event::Done => event@ == EventView::Done,
            Event::Failed => event@ == EventView::Failed,
            Event::Rested => event@ == EventView::Rested,
            Event::StopPolled(asked) => event@ == EventView::StopPolled(asked),
            Event::Balance(balance) => event@ == EventView::Balance(balance),
            Event::Difficulty(difficulty) => event@ == EventView::Difficulty(difficulty),
            Event::Batch(batch) => event@ == EventView::Batch(batch@),
            Event::Tip { height, dosc_speed } => event@ == (EventView::Tip { height, dosc_speed }),
            Event::Sent(txhash) => event@ == EventView::Sent(txhash),
            Event::SendFailed(message) => event@ == EventView::SendFailed(message@),
        },
{
}

} // verus!
