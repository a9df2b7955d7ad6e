//! Errands: from a request to a transaction that is accepted, and confirmed where that matters.
//!
//! An errand decides, and whoever runs it acts: it is told what happened and answers with what to
//! do next.

use melstructs::Transaction;
use vstd::prelude::*;

use crate::chain::{CoinDataHeightView, CoinID, Denom};
use crate::refusal::shortage;
use crate::state::{recorded, seeds_request, MintState, Wait, POLL_SECS};
use crate::tx::{
    fulfils, funded, in_range, is_answer, is_outcome, lacks, suffices, tx_hash, tx_inputs,
    RequestView, TxRequest,
};
use crate::wallet::{seeds, unlocked, wallet_address, wallet_coins, wallet_pending};

verus! {

/// What an errand is for.
#[derive(Clone, Copy, Debug, PartialEq, Eq)]
pub enum Goal {
    /// That there are so many seed coins.
    Seeds { threads: usize },
    /// That one transaction is accepted.
    Accepted,
    /// That one transaction is accepted, and no longer pending.
    Confirmed,
}

/// What an errand is waiting for.
#[derive(Clone, Copy, Debug, PartialEq, Eq)]
pub enum Stage {
    /// The fee multiplier at the tip of the chain.
    FetchingFee,
    /// Whether the transaction is accepted.
    Sending,
    /// That the transaction with the given hash is no longer pending.
    Waiting([u8; 32]),
    /// Nothing more.
    Over,
}

/// What happened.
#[derive(Debug)]
pub enum News {
    /// The fee multiplier at the tip of the chain.
    Fee(u128),
    /// The transaction is accepted.
    Accepted,
    /// The rest is over.
    Rested,
    /// The deed failed; why.
    Failed(String),
}

/// The mathematical content of [`News`].
pub enum NewsView {
    Fee(u128),
    Accepted,
    Rested,
    Failed(Seq<char>),
}

impl View for News {
    type V = NewsView;

    open spec fn view(&self) -> NewsView {
        match self {
            News::Fee(fee_multiplier) => NewsView::Fee(*fee_multiplier),
            News::Accepted => NewsView::Accepted,
            News::Rested => NewsView::Rested,
            News::Failed(message) => NewsView::Failed(message@),
        }
    }
}

/// What to do next.
#[derive(Debug)]
pub enum Deed {
    /// Fetch the fee multiplier at the tip of the chain; then `Fee` or `Failed`.
    FetchFee,
    /// Send the errand's transaction; then `Accepted` or `Failed`.
    Send,
    /// Rest so many seconds; then `Rested`.
    Rest { secs: u64 },
    /// The goal is reached; the hash of the last transaction that it took.
    Finish([u8; 32]),
    /// The errand has failed; why.
    Fail(String),
}

/// An errand.
pub struct Errand {
    goal: Goal,
    stage: Stage,
    wanted: TxRequest,
    tx: Option<Transaction>,
}

/// The mathematical content of an [`Errand`].
pub struct ErrandView {
    pub goal: Goal,
    pub stage: Stage,
    /// What is asked of the wallet.
    pub wanted: RequestView,
    /// What it has prepared and is being sent.
    pub tx: Option<Transaction>,
}

impl View for Errand {
    type V = ErrandView;

    closed spec fn view(&self) -> ErrandView {
        ErrandView { goal: self.goal, stage: self.stage, wanted: self.wanted@, tx: self.tx }
    }
}

impl ErrandView {
    /// There is a transaction if and only if one is being sent.
    pub open spec fn inv(self) -> bool {
        self.tx is Some == self.stage is Sending
    }

    /// Whether news can come now, with the wallet in the given state.
    pub open spec fn admits(self, state: MintState, news: NewsView) -> bool {
        match (self.stage, news) {
            (Stage::FetchingFee, NewsView::Fee(_)) => in_range(state.wallet, self.wanted),
            (Stage::FetchingFee, NewsView::Failed(_)) => true,
            (Stage::Sending, NewsView::Accepted) => true,
            (Stage::Sending, NewsView::Failed(_)) => true,
            (Stage::Waiting(_), NewsView::Rested) => true,
            _ => false,
        }
    }

    /// The same errand, waiting for something else, with nothing to send.
    pub open spec fn at(self, stage: Stage) -> ErrandView {
        ErrandView { stage, tx: None, ..self }
    }
}

/// Whether a wallet has a seed coin for each thread.
pub open spec fn seeded(state: MintState, threads: usize) -> bool {
    seeds(wallet_coins(state.wallet)).len() >= threads
}

/// An errand that asks for seed coins, from its start.
pub open spec fn seeding(state: MintState, threads: usize) -> ErrandView {
    ErrandView {
        goal: Goal::Seeds { threads },
        stage: Stage::FetchingFee,
        wanted: seeds_request(wallet_address(state.wallet), threads as nat),
        tx: None,
    }
}

/// An errand for one transaction, from its start.
pub open spec fn single(wanted: RequestView, confirm: bool) -> ErrandView {
    ErrandView {
        goal: if confirm {
            Goal::Confirmed
        } else {
            Goal::Accepted
        },
        stage: Stage::FetchingFee,
        wanted,
        tx: None,
    }
}

/// Whether what was decided follows from what happened: `state` is the minter's state before it,
/// and `left` after it.
pub open spec fn follows(
    errand: ErrandView,
    state: MintState,
    news: NewsView,
    next: ErrandView,
    left: MintState,
    deed: Deed,
) -> bool {
    match (errand.stage, news) {
        (Stage::FetchingFee, NewsView::Fee(fee_multiplier)) => {
            &&& left == state
            &&& match deed {
                // The wallet says why it cannot prepare the transaction.
                Deed::Fail(why) => {
                    &&& next == errand.at(Stage::Over)
                    &&& is_outcome(
                        Err(why),
                        state.wallet,
                        errand.wanted,
                        state.key,
                        fee_multiplier,
                    )
                },
                Deed::Send => {
                    &&& next == (ErrandView { stage: Stage::Sending, tx: next.tx, ..errand })
                    &&& next.tx is Some
                    &&& is_outcome(
                        Ok(next.tx->0),
                        state.wallet,
                        errand.wanted,
                        state.key,
                        fee_multiplier,
                    )
                },
                _ => false,
            }
        },
        (Stage::Sending, NewsView::Accepted) => {
            let txhash = tx_hash(errand.tx->0);
            &&& recorded(state, errand.tx->0, left)
            &&& if errand.goal is Accepted {
                &&& next == errand.at(Stage::Over)
                &&& deed == Deed::Finish(txhash)
            } else {
                &&& next == errand.at(Stage::Waiting(txhash))
                &&& deed == (Deed::Rest { secs: POLL_SECS })
            }
        },
        (Stage::Waiting(txhash), NewsView::Rested) => {
            &&& left == state
            &&& if wallet_pending(state.wallet).contains_key(txhash) {
                &&& next == errand
                &&& deed == (Deed::Rest { secs: POLL_SECS })
            } else {
                match errand.goal {
                    Goal::Seeds { threads } if !seeded(state, threads) => {
                        &&& next == seeding(state, threads)
                        &&& deed is FetchFee
                    },
                    _ => {
                        &&& next == errand.at(Stage::Over)
                        &&& deed == Deed::Finish(txhash)
                    },
                }
            }
        },
        (_, NewsView::Failed(message)) => {
            &&& left == state
            &&& next == errand.at(Stage::Over)
            &&& deed matches Deed::Fail(why) && why@ == message
        },
        _ => false,
    }
}

impl Errand {
    /// Sets out to have seed coins for so many threads; nothing where there are. What is to be done
    /// first is `Deed::FetchFee`.
    pub fn for_seeds(state: &MintState, threads: usize) -> (errand: Option<Errand>)
        ensures
            errand is None == seeded(*state, threads),
            errand matches Some(errand) ==> errand@ == seeding(*state, threads) && errand@.inv(),
    {
        match state.generate_seeds(threads) {
            None => None,
            Some(wanted) => Some(
                Errand {
                    goal: Goal::Seeds { threads },
                    stage: Stage::FetchingFee,
                    wanted,
                    tx: None,
                },
            ),
        }
    }

    /// Sets out to have one transaction accepted, or confirmed as well. What is to be done first is
    /// `Deed::FetchFee`.
    pub fn for_one(wanted: TxRequest, confirm: bool) -> (errand: Errand)
        ensures
            errand@ == single(wanted@, confirm),
            errand@.inv(),
    {
        let goal = if confirm {
            Goal::Confirmed
        } else {
            Goal::Accepted
        };
        Errand { goal, stage: Stage::FetchingFee, wanted, tx: None }
    }

    /// The transaction that is being sent.
    pub fn transaction(&self) -> (tx: Option<&Transaction>)
        ensures
            tx is Some == self@.tx is Some,
            tx matches Some(tx) ==> *tx == self@.tx->0,
    {
        match &self.tx {
            Some(tx) => Some(tx),
            None => None,
        }
    }

    /// Whether news can come now.
    pub fn admits(&self, state: &MintState, news: &News) -> (admitted: bool)
        ensures
            admitted == self@.admits(*state, news@),
    {
        match (self.stage, news) {
            (Stage::FetchingFee, News::Fee(_)) => state.can_prepare(&self.wanted),
            (Stage::FetchingFee, News::Failed(_)) => true,
            (Stage::Sending, News::Accepted) => true,
            (Stage::Sending, News::Failed(_)) => true,
            (Stage::Waiting(_), News::Rested) => true,
            _ => false,
        }
    }

    /// Takes in what the wallet has prepared, or why it could not.
    pub fn take_prepared(&mut self, prepared: Result<Transaction, String>) -> (deed: Deed)
        requires
            old(self)@.inv(),
            old(self)@.stage is FetchingFee,
        ensures
            match prepared {
                Ok(tx) => {
                    &&& final(self)@ == (ErrandView {
                        stage: Stage::Sending,
                        tx: Some(tx),
                        ..old(self)@
                    })
                    &&& deed is Send
                },
                Err(message) => {
                    &&& final(self)@ == old(self)@.at(Stage::Over)
                    &&& deed == Deed::Fail(message)
                },
            },
            final(self)@.inv(),
    {
        match prepared {
            Ok(tx) => {
                self.tx = Some(tx);
                self.stage = Stage::Sending;
                Deed::Send
            },
            Err(message) => {
                self.stage = Stage::Over;
                Deed::Fail(message)
            },
        }
    }

    /// Takes in what happened and says what to do next.
    pub fn next(&mut self, state: &mut MintState, news: News) -> (deed: Deed)
        requires
            old(self)@.inv(),
            old(self)@.admits(*old(state), news@),
        ensures
            follows(old(self)@, *old(state), news@, final(self)@, *final(state), deed),
            final(self)@.inv(),
    {
        match (self.stage, news) {
            (Stage::FetchingFee, News::Fee(fee_multiplier)) => {
                let prepared = state.prepare_tx(&self.wanted, fee_multiplier);
                self.take_prepared(prepared)
            },
            (Stage::Sending, News::Accepted) => {
                let tx = self.tx.take().unwrap();
                let txhash: [u8; 32] = state.send_raw(tx, true).unwrap();
                match self.goal {
                    Goal::Accepted => {
                        self.stage = Stage::Over;
                        Deed::Finish(txhash)
                    },
                    _ => {
                        self.stage = Stage::Waiting(txhash);
                        Deed::Rest { secs: POLL_SECS }
                    },
                }
            },
            (Stage::Waiting(txhash), _) => {
                match state.wait_tx(txhash) {
                    Wait::Again { secs } => return Deed::Rest { secs },
                    Wait::Over => {},
                }
                if let Goal::Seeds { threads } = self.goal {
                    if let Some(wanted) = state.generate_seeds(threads) {
                        self.wanted = wanted;
                        self.stage = Stage::FetchingFee;
                        return Deed::FetchFee;
                    }
                }
                self.stage = Stage::Over;
                Deed::Finish(txhash)
            },
            (_, News::Failed(message)) => {
                self.tx = None;
                self.stage = Stage::Over;
                Deed::Fail(message)
            },
            _ => {
                assert(false);
                Deed::FetchFee
            },
        }
    }
}

/// A transaction that the network does not accept leaves everything as it was: the wallet changes
/// only where a transaction is accepted.
pub proof fn law_only_acceptance_changes_the_wallet(
    errand: ErrandView,
    state: MintState,
    news: NewsView,
    next: ErrandView,
    left: MintState,
    deed: Deed,
)
    requires
        follows(errand, state, news, next, left, deed),
        !(news is Accepted),
    ensures
        left == state,
{
}

/// An errand for a transaction that is to be confirmed finishes only once the transaction is no
/// longer pending.
pub proof fn law_finishes_once_confirmed(
    errand: ErrandView,
    state: MintState,
    news: NewsView,
    next: ErrandView,
    left: MintState,
    deed: Deed,
)
    requires
        follows(errand, state, news, next, left, deed),
        !(errand.goal is Accepted),
        deed is Finish,
    ensures
        errand.stage == Stage::Waiting(deed->Finish_0),
        !wallet_pending(left.wallet).contains_key(deed->Finish_0),
{
}

/// An errand for seed coins finishes only once there are enough of them, and goes on otherwise.
pub proof fn law_finishes_once_seeded(
    errand: ErrandView,
    state: MintState,
    news: NewsView,
    next: ErrandView,
    left: MintState,
    deed: Deed,
)
    requires
        follows(errand, state, news, next, left, deed),
        errand.goal is Seeds,
        deed is Finish,
    ensures
        seeded(left, errand.goal->threads),
{
}

/// The coins of an accepted transaction are locked.
pub proof fn law_accepted_coins_are_locked(
    errand: ErrandView,
    state: MintState,
    next: ErrandView,
    left: MintState,
    deed: Deed,
    id: CoinID,
)
    requires
        errand.inv(),
        errand.stage is Sending,
        follows(errand, state, NewsView::Accepted, next, left, deed),
        tx_inputs(errand.tx->0).contains(id),
    ensures
        !unlocked(left.wallet, id),
{
    let tx = errand.tx->0;
    assert(wallet_pending(left.wallet)[tx_hash(tx)] == tx);
}

/// Two errands in a row do not spend the same coin, as long as the first one's transaction is
/// pending: of the wallet's own choice, the second spends none of the first one's coins.
pub proof fn law_no_coin_is_picked_twice(
    first: Transaction,
    before: MintState,
    after: MintState,
    second: Transaction,
    wanted: RequestView,
    fee_multiplier: u128,
)
    requires
        recorded(before, first, after),
        is_answer(second, after.wallet, wanted, after.key, fee_multiplier),
    ensures
        forall|i: int|
            wanted.inputs.len() <= i < tx_inputs(second).len() ==> !tx_inputs(first).contains(
                #[trigger] tx_inputs(second)[i],
            ),
{
    let picked = choose|picked: Seq<(CoinID, CoinDataHeightView)>|
        fulfils(second, after.wallet, wanted, picked);
    assert forall|i: int| wanted.inputs.len() <= i < tx_inputs(second).len() implies !tx_inputs(
        first,
    ).contains(#[trigger] tx_inputs(second)[i]) by {
        let k = i - wanted.inputs.len();
        assert(tx_inputs(second)[i] == picked[k].0);
        assert(unlocked(after.wallet, picked[k].0));
        assert(wallet_pending(after.wallet).contains_key(tx_hash(first)));
        assert(wallet_pending(after.wallet)[tx_hash(first)] == first);
    }
}

/// Once the fee multiplier is known the wallet prepares what the errand asks for, and nothing else,
/// and it is sent. That is so wherever the wallet can pay, and the errand fails only where it says
/// what is lacking. Nothing has changed by then.
pub proof fn law_errands_send_what_they_ask_for(
    errand: ErrandView,
    state: MintState,
    fee_multiplier: u128,
    next: ErrandView,
    left: MintState,
    deed: Deed,
    enough: nat,
)
    requires
        errand.stage is FetchingFee,
        follows(errand, state, NewsView::Fee(fee_multiplier), next, left, deed),
    ensures
        left == state,
        next.goal == errand.goal,
        next.wanted == errand.wanted,
        deed is Send || deed is Fail,
        deed is Send ==> next.stage is Sending && next.tx is Some && is_answer(
            next.tx->0,
            state.wallet,
            errand.wanted,
            state.key,
            fee_multiplier,
        ),
        deed is Fail ==> next.stage is Over && next.tx is None,
        deed matches Deed::Fail(why) ==> exists|denom: Denom, fee: nat|
            why@ == #[trigger] shortage(denom) && #[trigger] lacks(
                state.wallet,
                errand.wanted,
                denom,
                fee,
            ),
        suffices(
            state.wallet,
            errand.wanted,
            state.key.bytes@.subrange(32, 64),
            fee_multiplier,
            enough,
        ) ==> deed is Send,
        fee_multiplier == 0 && funded(state.wallet, errand.wanted, 1) ==> deed is Send,
{
}

/// A transaction that is accepted is noted as pending, by the wallet and under its own hash; then
/// the errand is done where that is its goal, and otherwise waits, a second at a time.
pub proof fn law_accepted_transactions_are_noted(
    errand: ErrandView,
    state: MintState,
    next: ErrandView,
    left: MintState,
    deed: Deed,
)
    requires
        errand.inv(),
        errand.stage is Sending,
        follows(errand, state, NewsView::Accepted, next, left, deed),
    ensures
        wallet_pending(left.wallet).contains_key(tx_hash(errand.tx->0)),
        wallet_pending(left.wallet)[tx_hash(errand.tx->0)] == errand.tx->0,
        wallet_coins(left.wallet) == wallet_coins(state.wallet),
        next.goal == errand.goal,
        next.tx is None,
        errand.goal is Accepted ==> next.stage is Over && deed == Deed::Finish(
            tx_hash(errand.tx->0),
        ),
        !(errand.goal is Accepted) ==> next.stage == Stage::Waiting(tx_hash(errand.tx->0)) && deed
            == (Deed::Rest { secs: 1 }),
{
}

/// As long as its transaction is pending an errand waits. Then it is done; but one for seed coins
/// only where there are as many as there are threads, and otherwise it asks for as many anew.
pub proof fn law_errands_wait_until_confirmed(
    errand: ErrandView,
    state: MintState,
    next: ErrandView,
    left: MintState,
    deed: Deed,
    txhash: [u8; 32],
)
    requires
        errand.stage == Stage::Waiting(txhash),
        follows(errand, state, NewsView::Rested, next, left, deed),
    ensures
        left == state,
        wallet_pending(state.wallet).contains_key(txhash) ==> next == errand && deed == (
        Deed::Rest { secs: 1 }),
        !wallet_pending(state.wallet).contains_key(txhash) && !(errand.goal is Seeds)
            ==> next.stage is Over && deed == Deed::Finish(txhash),
        !wallet_pending(state.wallet).contains_key(txhash) && errand.goal is Seeds ==> {
            let threads = errand.goal->threads;
            if seeds(wallet_coins(state.wallet)).len() >= threads {
                next.stage is Over && deed == Deed::Finish(txhash)
            } else {
                &&& deed is FetchFee
                &&& next.stage is FetchingFee
                &&& next.goal == errand.goal
                &&& next.wanted.outputs.len() == threads
                &&& next.wanted == seeds_request(wallet_address(state.wallet), threads as nat)
            }
        },
{
}

/// A failure ends an errand with what was said, and changes nothing.
pub proof fn law_failed_errands_say_why(
    errand: ErrandView,
    state: MintState,
    message: Seq<char>,
    next: ErrandView,
    left: MintState,
    deed: Deed,
)
    requires
        errand.admits(state, NewsView::Failed(message)),
        follows(errand, state, NewsView::Failed(message), next, left, deed),
    ensures
        left == state,
        next.stage is Over,
        next.tx is None,
        deed matches Deed::Fail(why) && why@ == message,
{
}

/// Whatever is waited for can come, and nothing else; the fee multiplier where the sums fit.
pub proof fn law_errands_take_what_they_wait_for(
    errand: ErrandView,
    state: MintState,
    news: NewsView,
)
    ensures
        errand.admits(state, news) <==> match news {
            NewsView::Fee(_) => errand.stage is FetchingFee && in_range(
                state.wallet,
                errand.wanted,
            ),
            NewsView::Accepted => errand.stage is Sending,
            NewsView::Rested => errand.stage is Waiting,
            NewsView::Failed(_) => errand.stage is FetchingFee || errand.stage is Sending,
        },
{
}

/// An errand begins with what is asked for, and with the fee: for seed coins, as many as there are
/// threads, and only where there are fewer; for one transaction, the given one.
pub proof fn law_errands_begin_with_the_request(
    state: MintState,
    threads: usize,
    wanted: RequestView,
    confirm: bool,
)
    ensures
        seeded(state, threads) <==> seeds(wallet_coins(state.wallet)).len() >= threads,
        seeding(state, threads).goal == (Goal::Seeds { threads }),
        seeding(state, threads).stage is FetchingFee,
        seeding(state, threads).tx is None,
        seeding(state, threads).wanted == seeds_request(
            wallet_address(state.wallet),
            threads as nat,
        ),
        single(wanted, confirm).wanted == wanted,
        single(wanted, confirm).stage is FetchingFee,
        single(wanted, confirm).tx is None,
        confirm ==> single(wanted, confirm).goal == Goal::Confirmed,
        !confirm ==> single(wanted, confirm).goal == Goal::Accepted,
{
}

/// News have the content of everything in them.
pub proof fn law_news_hold_what_happened(news: News)
    ensures
        match news {
            News::Fee(fee_multiplier) => news@ == NewsView::Fee(fee_multiplier),
            News::Accepted => news@ == NewsView::Accepted,
            News::Rested => news@ == NewsView::Rested,
            News::Failed(message) => news@ == NewsView::Failed(message@),
        },
{
}

} // verus!
