//! What holds of a worker through all its rounds, whatever happens.

use melwallet::Wallet;
use vstd::prelude::*;

use crate::chain::MICROS;
use crate::retry::RETRY_SECS;
use crate::reward::mint_reward;
use crate::tx::{is_refusal, RequestView};
use crate::worker::{
    fresh, lacks_money, spoilt, step, Action, EventView, Minted, Phase, WorkerView,
    BACKOFF_SECS,
};

verus! {

/// The worker after a history of events, the first of them first.
pub open spec fn run(worker: WorkerView, events: Seq<EventView>) -> WorkerView
    decreases events.len(),
{
    if events.len() == 0 {
        worker
    } else {
        step(run(worker, events.drop_last()), events.last()).0
    }
}

/// Whether each event of a history could happen when it did.
pub open spec fn possible(worker: WorkerView, events: Seq<EventView>) -> bool
    decreases events.len(),
{
    events.len() == 0 || {
        &&& possible(worker, events.drop_last())
        &&& run(worker, events.drop_last()).admits(events.last())
    }
}

/// The transactions that were accepted in the course of a history.
pub open spec fn accepted(events: Seq<EventView>) -> Seq<[u8; 32]>
    decreases events.len(),
{
    if events.len() == 0 {
        Seq::empty()
    } else {
        let before = accepted(events.drop_last());
        match events.last() {
            EventView::Sent(txhash) => before.push(txhash),
            _ => before,
        }
    }
}

/// Whether a history goes by without a failure that spoils the round and without new proofs.
pub open spec fn same_round(worker: WorkerView, events: Seq<EventView>) -> bool
    decreases events.len(),
{
    events.len() == 0 || {
        &&& same_round(worker, events.drop_last())
        &&& !(events.last() is Batch)
        &&& run(worker, events).phase != Phase::Restarting
    }
}

/// From its start on, whatever happens, a worker's books are in order: the proofs of a round are
/// all tried before any is waited for, and what was accepted is confirmed before the round is over.
pub proof fn law_books_stay_in_order(
    payout: [u8; 32],
    threads: usize,
    testnet: bool,
    events: Seq<EventView>,
)
    requires
        possible(fresh(payout, threads, testnet), events),
    ensures
        run(fresh(payout, threads, testnet), events).inv(),
        run(fresh(payout, threads, testnet), events).payout == payout,
        run(fresh(payout, threads, testnet), events).threads == threads,
        run(fresh(payout, threads, testnet), events).testnet == testnet,
    decreases events.len(),
{
    if events.len() > 0 {
        law_books_stay_in_order(payout, threads, testnet, events.drop_last());
    }
}

/// A worker stops only where it was asked to, and only between rounds: every proof of the round
/// has been tried, and every accepted transaction has been confirmed.
pub proof fn law_stops_between_rounds(worker: WorkerView, event: EventView)
    requires
        worker.inv(),
        worker.admits(event),
        step(worker, event).0.phase == Phase::Stopped,
    ensures
        event == EventView::StopPolled(true),
        worker.phase == Phase::Polling,
        worker.tried == worker.batch.len(),
        worker.confirmed == worker.sent.len(),
{
}

/// A worker that is asked to stop, and asks whether it was, stops.
pub proof fn law_stops_when_asked(worker: WorkerView)
    requires
        worker.phase == Phase::Polling,
    ensures
        worker.admits(EventView::StopPolled(true)),
        step(worker, EventView::StopPolled(true)).0.phase == Phase::Stopped,
        step(worker, EventView::StopPolled(true)).1 is Stop,
{
}

/// What a worker holds as sent is what was accepted: as long as the round lasts, each accepted
/// transaction is added once, in order, and none is forgotten.
pub proof fn law_sent_is_what_was_accepted(worker: WorkerView, events: Seq<EventView>)
    requires
        possible(worker, events),
        same_round(worker, events),
        worker.phase != Phase::Restarting,
    ensures
        run(worker, events).sent == worker.sent + accepted(events),
        run(worker, events).batch == worker.batch,
        run(worker, events).phase != Phase::Restarting,
    decreases events.len(),
{
    if events.len() > 0 {
        law_sent_is_what_was_accepted(worker, events.drop_last());
        assert(run(worker, events).sent =~= worker.sent + accepted(events));
    } else {
        assert(run(worker, events).sent =~= worker.sent + accepted(events));
    }
}

/// What is handed out to be sent in the course of a history: the indices of the proofs.
pub open spec fn handed(worker: WorkerView, events: Seq<EventView>) -> Seq<usize>
    decreases events.len(),
{
    if events.len() == 0 {
        Seq::empty()
    } else {
        let before = handed(worker, events.drop_last());
        match step(run(worker, events.drop_last()), events.last()).1 {
            Action::SendMint { index, .. } => before.push(index),
            _ => before,
        }
    }
}

/// Whether the indices that were handed out are those of the proofs that were tried, in order: each
/// of them at least once, and the one that is being sent last.
spec fn handed_in_order(worker: WorkerView, indices: Seq<usize>) -> bool {
    let sending = worker.phase is Sending || worker.phase is BackingOff;
    &&& forall|k: int|
        0 <= k < indices.len() ==> (#[trigger] indices[k]) <= worker.tried && indices[k]
            < worker.batch.len()
    &&& forall|k: int, l: int| 0 <= k < l < indices.len() ==> indices[k] <= indices[l]
    &&& forall|i: int|
        0 <= i < worker.tried || (sending && i == worker.tried) ==> #[trigger] indices.contains(
            i as usize,
        )
}

proof fn lemma_handed_in_order(worker: WorkerView, events: Seq<EventView>)
    requires
        worker.inv(),
        worker.batch.len() <= usize::MAX,
        worker.tried == 0,
        worker.phase == Phase::FetchingTip || worker.phase == Phase::Polling,
        possible(worker, events),
        same_round(worker, events),
    ensures
        run(worker, events).inv(),
        run(worker, events).batch == worker.batch,
        handed_in_order(run(worker, events), handed(worker, events)),
    decreases events.len(),
{
    if events.len() > 0 {
        let before = events.drop_last();
        lemma_handed_in_order(worker, before);
        law_sent_is_what_was_accepted(worker, before);
        let (was, indices) = (run(worker, before), handed(worker, before));
        let (now, all) = (run(worker, events), handed(worker, events));
        let action = step(was, events.last()).1;
        if action is SendMint {
            assert(all == indices.push(was.tried as usize));
            assert(all[indices.len() as int] == was.tried);
            assert forall|i: int| 0 <= i <= was.tried implies #[trigger] all.contains(
                i as usize,
            ) by {
                if i < was.tried {
                    assert(indices.contains(i as usize));
                    let k = choose|k: int| 0 <= k < indices.len() && indices[k] == i as usize;
                    assert(all[k] == i as usize);
                }
            }
        } else {
            assert(all == indices);
            assert forall|i: int|
                0 <= i < now.tried || ((now.phase is Sending || now.phase is BackingOff) && i
                    == now.tried) implies #[trigger] all.contains(i as usize) by {
                assert(indices.contains(i as usize));
            }
        }
    }
}

/// By the time a round is over every proof of it was tried: each was handed out to be sent at least
/// once, in the order of the batch, and what the worker holds as sent is what was accepted.
pub proof fn law_every_proof_is_tried(
    worker: WorkerView,
    batch: Seq<Minted>,
    events: Seq<EventView>,
)
    requires
        worker.inv(),
        worker.phase == Phase::Minting,
        batch.len() <= usize::MAX,
        possible(step(worker, EventView::Batch(batch)).0, events),
        same_round(step(worker, EventView::Batch(batch)).0, events),
        run(step(worker, EventView::Batch(batch)).0, events).phase == Phase::Polling,
    ensures
        ({
            let built = step(worker, EventView::Batch(batch)).0;
            let indices = handed(built, events);
            &&& forall|i: int| 0 <= i < batch.len() ==> #[trigger] indices.contains(i as usize)
            &&& forall|k: int| 0 <= k < indices.len() ==> (#[trigger] indices[k]) < batch.len()
            &&& forall|k: int, l: int| 0 <= k < l < indices.len() ==> indices[k] <= indices[l]
            &&& run(built, events).sent == accepted(events)
        }),
{
    let built = step(worker, EventView::Batch(batch)).0;
    lemma_handed_in_order(built, events);
    law_sent_is_what_was_accepted(built, events);
    assert(built.sent + accepted(events) =~= accepted(events));
}

/// Only transactions that were accepted in the round are waited for.
pub proof fn law_only_the_accepted_is_waited_for(
    worker: WorkerView,
    batch: Seq<Minted>,
    events: Seq<EventView>,
    event: EventView,
)
    requires
        worker.inv(),
        worker.phase == Phase::Minting,
        possible(step(worker, EventView::Batch(batch)).0, events.push(event)),
        same_round(step(worker, EventView::Batch(batch)).0, events.push(event)),
        step(run(step(worker, EventView::Batch(batch)).0, events), event).1 is WaitTx,
    ensures
        accepted(events.push(event)).contains(
            step(run(step(worker, EventView::Batch(batch)).0, events), event).1->txhash,
        ),
{
    let built = step(worker, EventView::Batch(batch)).0;
    let all = events.push(event);
    assert(all.drop_last() =~= events);
    law_sent_is_what_was_accepted(built, all);
    lemma_inv_through(built, events);
    assert(built.sent + accepted(all) =~= accepted(all));
    let next = run(built, all);
    assert(next.sent[next.confirmed] == step(run(built, events), event).1->txhash);
}

/// The invariant outlasts every history.
proof fn lemma_inv_through(worker: WorkerView, events: Seq<EventView>)
    requires
        worker.inv(),
        possible(worker, events),
    ensures
        run(worker, events).inv(),
    decreases events.len(),
{
    if events.len() > 0 {
        lemma_inv_through(worker, events.drop_last());
    }
}

/// Every proof is sent in its turn: the one that is sent is the first that was not tried yet.
pub proof fn law_proofs_are_sent_in_order(worker: WorkerView, event: EventView)
    requires
        worker.inv(),
        worker.admits(event),
        step(worker, event).1 is SendMint,
        worker.batch.len() <= usize::MAX,
    ensures
        step(worker, event).1->index == worker.tried,
        worker.tried < worker.batch.len(),
        step(worker, event).1->seed == worker.batch[worker.tried].seed,
        step(worker, event).1->SendMint_difficulty == worker.difficulty,
{
}

/// A proof is claimed for exactly what it is paid at the tip of the chain.
pub proof fn law_claims_ask_for_the_reward(worker: WorkerView, height: u64, dosc_speed: u128)
    requires
        worker.inv(),
        worker.phase == Phase::FetchingTip,
        worker.admits(EventView::Tip { height, dosc_speed }),
    ensures
        ({
            let action = step(worker, EventView::Tip { height, dosc_speed }).1;
            let next = worker.batch[worker.tried];
            &&& action is SendMint
            &&& action->SendMint_ergs == mint_reward(
                worker.difficulty as nat,
                height as nat,
                next.coin_height as nat,
                dosc_speed as nat,
            )
        }),
{
}

/// A proof that is refused for anything but lack of money is given up: it counts as tried, and the
/// next one follows, if there is one.
pub proof fn law_refused_proofs_are_given_up(worker: WorkerView, message: Seq<char>)
    requires
        worker.inv(),
        worker.phase == Phase::Sending,
        !lacks_money(message),
    ensures
        ({
            let (next, action) = step(worker, EventView::SendFailed(message));
            &&& next.tried == worker.tried + 1
            &&& next.batch == worker.batch
            &&& next.sent == worker.sent
            &&& if next.tried < next.batch.len() {
                action is FetchTip && next.phase == Phase::FetchingTip
            } else if next.sent.len() > 0 {
                action == (Action::WaitTx { txhash: next.sent[0] })
            } else {
                action is PollStop
            }
        }),
{
}

/// A proof is sent again if and only if there was no money to send it; then after a rest, and for
/// what it is paid by then.
pub proof fn law_only_lack_of_money_is_retried(worker: WorkerView, message: Seq<char>)
    requires
        worker.inv(),
        worker.phase == Phase::Sending,
    ensures
        ({
            let (next, action) = step(worker, EventView::SendFailed(message));
            &&& next.tried == worker.tried <==> lacks_money(message)
            &&& lacks_money(message) ==> {
                let (again, fetch) = step(next, EventView::Rested);
                &&& action == (Action::Rest { secs: BACKOFF_SECS })
                &&& fetch is FetchTip
                &&& again == worker.at(Phase::FetchingTip)
            }
        }),
{
}

/// Where the wallet refuses to prepare a transaction, that is for lack of money.
pub proof fn law_refusals_tell_lack_of_money(why: Seq<char>, wallet: Wallet, wanted: RequestView)
    requires
        is_refusal(why, wallet, wanted),
    ensures
        lacks_money(why),
{
}

/// As long as the tip of the chain cannot be fetched nothing is sent, and no proof is given up.
pub proof fn law_a_missing_tip_costs_no_proof(worker: WorkerView)
    requires
        worker.phase == Phase::FetchingTip,
    ensures
        step(worker, EventView::Failed) == (worker, Action::FetchTip),
{
}

/// The transactions of a round are waited for one by one, in the order in which they were sent.
pub proof fn law_confirmations_in_order(worker: WorkerView, event: EventView)
    requires
        worker.inv(),
        worker.admits(event),
        step(worker, event).1 is WaitTx,
    ensures
        step(worker, event).0.phase == Phase::Confirming,
        ({
            let (next, action) = step(worker, event);
            &&& action->txhash == next.sent[next.confirmed]
            &&& worker.phase == Phase::Confirming ==> next.confirmed == worker.confirmed + 1
            &&& worker.phase != Phase::Confirming ==> next.confirmed == 0
        }),
{
}

/// Profits are paid out if and only if there is more than one mel, and then half of it, to the
/// configured address.
pub proof fn law_half_of_more_than_a_mel_is_paid_out(worker: WorkerView, event: EventView)
    requires
        worker.admits(event),
    ensures
        step(worker, event).1 is PayOut <==> (worker.phase == Phase::ReadingMels && (event
            matches EventView::Balance(Some(mels)) && mels > MICROS)),
        step(worker, event).1 matches Action::PayOut { to, value } ==> {
            &&& to == worker.payout
            &&& 2 * value <= event->Balance_0->0 <= 2 * value + 1
        },
{
}

/// All the ergs that the wallet has, and no others, are converted, after the empty coins are gone.
pub proof fn law_all_ergs_are_converted(worker: WorkerView, ergs: u128)
    requires
        worker.phase == Phase::ReadingErgs,
    ensures
        ({
            let (cleaning, first) = step(worker, EventView::Balance(Some(ergs)));
            let (converting, second) = step(cleaning, EventView::Done);
            &&& first is CleanErgs
            &&& second == Action::ConvertErgs { ergs }
            &&& step(converting, EventView::Done).1 is ReadMels
        }),
        step(worker, EventView::Balance(None)).1 is ReadMels,
{
}

/// A failure anywhere but in the middle of building and sending proofs starts everything over,
/// after a rest.
pub proof fn law_failures_start_over(worker: WorkerView)
    requires
        worker.admits(EventView::Failed),
        !(worker.phase is Minting),
        !(worker.phase is FetchingTip),
    ensures
        step(worker, EventView::Failed) == spoilt(worker),
        step(worker, EventView::Failed).1 == (Action::Rest { secs: RETRY_SECS }),
        step(step(worker, EventView::Failed).0, EventView::Rested).0 == fresh(
            worker.payout,
            worker.threads,
            worker.testnet,
        ),
        step(step(worker, EventView::Failed).0, EventView::Rested).1 is Measure,
{
    assert(step(step(worker, EventView::Failed).0, EventView::Rested).0 =~= fresh(
        worker.payout,
        worker.threads,
        worker.testnet,
    ));
}

} // verus!
