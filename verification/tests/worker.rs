use melminter::chain::CoinID;
use melminter::reward::reward_ergs;
use melminter::worker::{Action, Event, Minted, Phase, Worker, WorkerConfig};

fn start(testnet: bool) -> Worker {
    Worker::start(WorkerConfig { payout: [5u8; 32], name: "".to_string(), threads: 2, testnet })
}

fn id(tag: u8) -> CoinID {
    CoinID { txhash: [tag; 32], index: 0 }
}

fn told(worker: &mut Worker, event: Event) -> Action {
    assert!(worker.admits(&event));
    worker.next(event)
}

fn proofs() -> Vec<Minted> {
    vec![Minted { seed: id(1), coin_height: 5 }, Minted { seed: id(2), coin_height: 7 }]
}

fn up_to_minting(worker: &mut Worker) {
    if worker.phase() == Phase::Measuring {
        told(worker, Event::Done);
    }
    told(worker, Event::StopPolled(false));
    told(worker, Event::Done);
    told(worker, Event::Balance(None));
    told(worker, Event::Balance(None));
    told(worker, Event::Difficulty(20));
    told(worker, Event::Done);
    let action = told(worker, Event::Done);
    assert!(matches!(action, Action::MintBatch { difficulty: 20, threads: 2 }));
    assert_eq!(worker.phase(), Phase::Minting);
}

#[test]
fn rounds_go_from_step_to_step() {
    let mut worker = start(true);
    assert_eq!(worker.phase(), Phase::Measuring);
    assert!(matches!(told(&mut worker, Event::Done), Action::PollStop));
    assert!(matches!(told(&mut worker, Event::StopPolled(false)), Action::FetchPool));
    assert!(matches!(told(&mut worker, Event::Done), Action::ReadErgs));
    assert!(matches!(told(&mut worker, Event::Balance(Some(70))), Action::CleanErgs));
    assert!(matches!(told(&mut worker, Event::Done), Action::ConvertErgs { ergs: 70 }));
    assert!(matches!(told(&mut worker, Event::Done), Action::ReadMels));
    match told(&mut worker, Event::Balance(Some(1_000_003))) {
        Action::PayOut { to, value } => {
            assert_eq!(to, [5u8; 32]);
            assert_eq!(value, 500_001);
        }
        _ => panic!("there is more than one mel"),
    }
    let action = told(&mut worker, Event::Done);
    assert!(matches!(action, Action::ChooseDifficulty { testnet: true }));
    assert!(matches!(told(&mut worker, Event::Difficulty(20)), Action::FetchSpeed));
    assert!(matches!(told(&mut worker, Event::Done), Action::GenerateSeeds { threads: 2 }));
    let action = told(&mut worker, Event::Done);
    assert!(matches!(action, Action::MintBatch { difficulty: 20, threads: 2 }));
    assert!(matches!(told(&mut worker, Event::Batch(proofs())), Action::FetchTip));
    match told(&mut worker, Event::Tip { height: 10, dosc_speed: 1000 }) {
        Action::SendMint { index, seed, difficulty, ergs } => {
            assert_eq!(index, 0);
            assert_eq!(seed, id(1));
            assert_eq!(difficulty, 20);
            assert_eq!(ergs, reward_ergs(20, 10, 5, 1000));
        }
        _ => panic!("the tip is known"),
    }
    assert!(matches!(told(&mut worker, Event::Sent([11u8; 32])), Action::FetchTip));
    match told(&mut worker, Event::Tip { height: 11, dosc_speed: 1000 }) {
        Action::SendMint { index, seed, ergs, .. } => {
            assert_eq!(index, 1);
            assert_eq!(seed, id(2));
            assert_eq!(ergs, reward_ergs(20, 11, 7, 1000));
        }
        _ => panic!("the tip is known"),
    }
    let action = told(&mut worker, Event::Sent([12u8; 32]));
    assert!(matches!(action, Action::WaitTx { txhash } if txhash == [11u8; 32]));
    let action = told(&mut worker, Event::Done);
    assert!(matches!(action, Action::WaitTx { txhash } if txhash == [12u8; 32]));
    assert!(matches!(told(&mut worker, Event::Done), Action::PollStop));
    assert!(matches!(told(&mut worker, Event::StopPolled(true)), Action::Stop));
    assert_eq!(worker.phase(), Phase::Stopped);
    assert!(!worker.admits(&Event::Done));
}

#[test]
fn nothing_is_converted_where_there_are_no_ergs() {
    let mut worker = start(false);
    told(&mut worker, Event::Done);
    told(&mut worker, Event::StopPolled(false));
    told(&mut worker, Event::Done);
    assert!(matches!(told(&mut worker, Event::Balance(None)), Action::ReadMels));
}

#[test]
fn empty_ergs_alone_are_cleaned_up_too() {
    let mut worker = start(false);
    told(&mut worker, Event::Done);
    told(&mut worker, Event::StopPolled(false));
    told(&mut worker, Event::Done);
    assert!(matches!(told(&mut worker, Event::Balance(Some(0))), Action::CleanErgs));
    assert!(matches!(told(&mut worker, Event::Done), Action::ConvertErgs { ergs: 0 }));
}

#[test]
fn one_mel_is_kept() {
    for mels in [None, Some(0), Some(1_000_000)] {
        let mut worker = start(false);
        told(&mut worker, Event::Done);
        told(&mut worker, Event::StopPolled(false));
        told(&mut worker, Event::Done);
        told(&mut worker, Event::Balance(None));
        let action = told(&mut worker, Event::Balance(mels));
        assert!(matches!(action, Action::ChooseDifficulty { testnet: false }));
    }
}

#[test]
fn half_of_more_than_a_mel_is_paid_out() {
    let mut worker = start(false);
    told(&mut worker, Event::Done);
    told(&mut worker, Event::StopPolled(false));
    told(&mut worker, Event::Done);
    told(&mut worker, Event::Balance(None));
    let action = told(&mut worker, Event::Balance(Some(1_000_001)));
    assert!(matches!(action, Action::PayOut { value: 500_000, .. }));
}

#[test]
fn empty_batches_begin_the_next_round() {
    let mut worker = start(false);
    up_to_minting(&mut worker);
    assert!(matches!(told(&mut worker, Event::Batch(vec![])), Action::PollStop));
}

#[test]
fn failed_batches_are_built_again() {
    let mut worker = start(false);
    up_to_minting(&mut worker);
    assert!(matches!(told(&mut worker, Event::Failed), Action::Rest { secs: 1 }));
    let action = told(&mut worker, Event::Rested);
    assert!(matches!(action, Action::MintBatch { difficulty: 20, threads: 2 }));
}

fn up_to_sending(worker: &mut Worker, proofs: Vec<Minted>) {
    up_to_minting(worker);
    told(worker, Event::Batch(proofs));
    told(worker, Event::Tip { height: 10, dosc_speed: 1000 });
}

#[test]
fn a_missing_tip_costs_no_proof() {
    let mut worker = start(false);
    up_to_minting(&mut worker);
    told(&mut worker, Event::Batch(proofs()));
    assert!(matches!(told(&mut worker, Event::Failed), Action::FetchTip));
    let action = told(&mut worker, Event::Tip { height: 10, dosc_speed: 1000 });
    assert!(matches!(action, Action::SendMint { index: 0, .. }));
}

#[test]
fn refused_proofs_are_given_up() {
    for message in ["", "transaction refused", "timeout", "a timeout!", "Preparation", "time out"] {
        let mut worker = start(false);
        up_to_sending(&mut worker, proofs());
        let failed = Event::SendFailed(message.to_string());
        assert!(matches!(told(&mut worker, failed), Action::FetchTip));
        match told(&mut worker, Event::Tip { height: 10, dosc_speed: 1000 }) {
            Action::SendMint { index, seed, ergs, .. } => {
                assert_eq!(index, 1);
                assert_eq!(seed, id(2));
                assert_eq!(ergs, reward_ergs(20, 10, 7, 1000));
            }
            _ => panic!("there is another proof"),
        }
        // Only what was accepted is waited for.
        let action = told(&mut worker, Event::Sent([12u8; 32]));
        assert!(matches!(action, Action::WaitTx { txhash } if txhash == [12u8; 32]));
        assert!(matches!(told(&mut worker, Event::Done), Action::PollStop));
    }
}

#[test]
fn rounds_end_though_the_last_proofs_are_refused() {
    let mut worker = start(false);
    up_to_sending(&mut worker, proofs());
    told(&mut worker, Event::Sent([11u8; 32]));
    told(&mut worker, Event::Tip { height: 10, dosc_speed: 1000 });
    let action = told(&mut worker, Event::SendFailed("refused".to_string()));
    assert!(matches!(action, Action::WaitTx { txhash } if txhash == [11u8; 32]));
    assert!(matches!(told(&mut worker, Event::Done), Action::PollStop));
    // Where every proof was refused there is nothing to wait for.
    let mut worker = start(false);
    up_to_sending(&mut worker, proofs());
    told(&mut worker, Event::SendFailed("refused".to_string()));
    told(&mut worker, Event::Tip { height: 10, dosc_speed: 1000 });
    let action = told(&mut worker, Event::SendFailed("refused".to_string()));
    assert!(matches!(action, Action::PollStop));
}

#[test]
fn only_lack_of_money_is_retried() {
    let token = format!("not enough money (more of CUSTOM-{} needed)", "a7".repeat(32));
    for message in [
        "not enough money (more of MEL needed)",
        "not enough money (more of ERG needed)",
        token.as_str(),
        "error in preparation of it",
    ] {
        let mut worker = start(false);
        up_to_sending(&mut worker, proofs());
        let failed = Event::SendFailed(message.to_string());
        assert!(matches!(told(&mut worker, failed), Action::Rest { secs: 10 }));
        assert!(matches!(told(&mut worker, Event::Rested), Action::FetchTip));
        // The same proof, for what it is paid by now.
        match told(&mut worker, Event::Tip { height: 30, dosc_speed: 1000 }) {
            Action::SendMint { index, seed, ergs, .. } => {
                assert_eq!(index, 0);
                assert_eq!(seed, id(1));
                assert_eq!(ergs, reward_ergs(20, 30, 5, 1000));
            }
            _ => panic!("the tip is known"),
        }
    }
}

#[test]
fn failures_start_over() {
    for step in 0..4 {
        let mut worker = start(false);
        told(&mut worker, Event::Done);
        told(&mut worker, Event::StopPolled(false));
        if step > 0 {
            told(&mut worker, Event::Done);
            told(&mut worker, Event::Balance(Some(3)));
        }
        if step > 1 {
            told(&mut worker, Event::Done);
        }
        if step > 2 {
            told(&mut worker, Event::Done);
            told(&mut worker, Event::Balance(Some(5_000_000)));
        }
        assert!(matches!(told(&mut worker, Event::Failed), Action::Rest { secs: 1 }));
        assert!(matches!(told(&mut worker, Event::Rested), Action::Measure));
        assert!(matches!(told(&mut worker, Event::Done), Action::PollStop));
    }
}

#[test]
fn failed_confirmations_start_over() {
    let mut worker = start(false);
    up_to_minting(&mut worker);
    told(&mut worker, Event::Batch(vec![Minted { seed: id(1), coin_height: 5 }]));
    told(&mut worker, Event::Tip { height: 10, dosc_speed: 1000 });
    told(&mut worker, Event::Sent([11u8; 32]));
    assert!(matches!(told(&mut worker, Event::Failed), Action::Rest { secs: 1 }));
    assert!(matches!(told(&mut worker, Event::Rested), Action::Measure));
}

#[test]
fn unpayable_rewards_are_not_admitted() {
    let mut worker = start(false);
    up_to_minting(&mut worker);
    told(&mut worker, Event::Batch(proofs()));
    assert!(!worker.admits(&Event::Tip { height: 10, dosc_speed: 0 }));
    assert!(worker.admits(&Event::Tip { height: 10, dosc_speed: 1 }));
    assert!(!worker.admits(&Event::Rested));
}

#[test]
fn later_rounds_do_not_measure_again() {
    let mut worker = start(false);
    up_to_minting(&mut worker);
    told(&mut worker, Event::Batch(vec![]));
    up_to_minting(&mut worker);
    assert!(matches!(told(&mut worker, Event::Batch(proofs())), Action::FetchTip));
}

#[test]
fn workers_stop_only_between_rounds() {
    let mut worker = start(false);
    assert!(!worker.admits(&Event::StopPolled(true)));
    up_to_minting(&mut worker);
    assert!(!worker.admits(&Event::StopPolled(true)));
    told(&mut worker, Event::Batch(proofs()));
    assert!(!worker.admits(&Event::StopPolled(true)));
}
