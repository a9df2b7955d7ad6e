use melminter::retry::{repeat_fallible, Attempt};
use melminter::speed::{SpeedProbe, Tally, LONG_ENOUGH};

#[test]
fn probes_go_on_until_a_proof_takes_long_enough() {
    let mut probe = SpeedProbe::start();
    probe.work();
    assert!(probe.can_tell(1));
    assert_eq!(probe.next(1), None);
    probe.work();
    assert_eq!(probe.next(LONG_ENOUGH), None);
    probe.work();
    assert_eq!(probe.next(LONG_ENOUGH + 1), Some(3));
    assert_eq!(probe.next(LONG_ENOUGH + 1), Some(3));
}

#[test]
fn probes_end_at_the_highest_difficulty() {
    let mut probe = SpeedProbe::start();
    for _ in 1..64 {
        assert!(probe.can_tell(0));
        assert_eq!(probe.next(0), None);
    }
    assert!(!probe.can_tell(0));
    assert!(probe.can_tell(LONG_ENOUGH + 1));
    assert_eq!(probe.next(LONG_ENOUGH + 1), Some(64));
}

#[test]
fn tallies_add_up_progress() {
    let mut tally = Tally::new();
    assert_eq!(tally.look(&vec![]), Some(0));
    assert_eq!(tally.look(&vec![(0, 10), (1, 5)]), Some(15 * 1024));
    assert_eq!(tally.look(&vec![(0, 12), (1, 5)]), Some(17 * 1024));
    // A proof that is set back adds nothing, and then counts from where it is.
    assert_eq!(tally.look(&vec![(0, 2)]), Some(17 * 1024));
    assert_eq!(tally.look(&vec![(0, 3)]), Some(18 * 1024));
}

#[test]
fn order_of_looking_is_irrelevant() {
    let mut there = Tally::new();
    let mut back = Tally::new();
    for (forward, backward) in [
        (vec![(0, 1), (1, 2), (2, 3)], vec![(2, 3), (1, 2), (0, 1)]),
        (vec![(0, 4), (1, 1), (2, 9)], vec![(1, 1), (2, 9), (0, 4)]),
    ] {
        assert_eq!(there.look(&forward), back.look(&backward));
    }
}

#[test]
fn tallies_that_exceed_a_number_tell_nothing() {
    let mut tally = Tally::new();
    assert_eq!(tally.look(&vec![(0, usize::MAX)]), None);
    let mut tally = Tally::new();
    assert_eq!(tally.look(&vec![(0, usize::MAX), (1, 1)]), None);
}

#[test]
fn failures_are_repeated_after_a_second() {
    let done: Attempt<u8> = repeat_fallible::<u8, String>(Ok(7));
    assert_eq!(done, Attempt::Done(7));
    let again: Attempt<u8> = repeat_fallible(Err("no route".to_string()));
    assert_eq!(again, Attempt::Again { secs: 1 });
}
