//! How fast the machine is, and how far the proofs have come.

use melstf::Tip910MelPowHash;
use std::collections::HashMap;
use vstd::prelude::*;

verus! {

/// How long a proof must take, in nanoseconds, for the machine's speed to be told by it.
pub const LONG_ENOUGH: u128 = 500_000_000;

/// The highest difficulty that a proof can have.
pub const HIGHEST_DIFFICULTY: usize = 64;

/// How many hashes stand behind one step of progress.
pub const HASHES_PER_STEP: usize = 1024;

/// Calls `melpow::Proof::generate` with `melstf::Tip910MelPowHash` and an empty puzzle. The proof
/// is built for the time that this takes, and then dropped: nothing is said of it.
#[verifier::external_body]
fn generate_proof(difficulty: usize)
    requires
        1 <= difficulty <= HIGHEST_DIFFICULTY,
{
    melpow::Proof::generate(&[], difficulty, Tip910MelPowHash);
}

/// Finds out how fast the machine is: builds proofs of rising difficulty until one takes long
/// enough.
#[derive(Debug)]
pub struct SpeedProbe {
    difficulty: usize,
}

impl View for SpeedProbe {
    type V = int;

    /// The difficulty of the next proof.
    closed spec fn view(&self) -> int {
        self.difficulty as int
    }
}

impl SpeedProbe {
    /// The difficulty is one that a proof can have.
    pub open spec fn inv(self) -> bool {
        1 <= self@ <= HIGHEST_DIFFICULTY
    }

    /// Begins with the lowest difficulty.
    pub fn start() -> (probe: SpeedProbe)
        ensures
            probe@ == 1,
            probe.inv(),
    {
        SpeedProbe { difficulty: 1 }
    }

    /// Builds a proof of the current difficulty.
    pub fn work(&self)
        requires
            self.inv(),
    {
        generate_proof(self.difficulty)
    }

    /// Whether the probe is over, or can go on, after a proof that took so many nanoseconds.
    pub fn can_tell(&self, nanos: u128) -> (can: bool)
        ensures
            can == (nanos > LONG_ENOUGH || self@ < HIGHEST_DIFFICULTY),
    {
        nanos > LONG_ENOUGH || self.difficulty < HIGHEST_DIFFICULTY
    }

    /// Takes in how many nanoseconds the proof took: its difficulty, where that was long enough;
    /// otherwise the next proof is harder by one.
    pub fn next(&mut self, nanos: u128) -> (told: Option<usize>)
        requires
            old(self).inv(),
            nanos > LONG_ENOUGH || old(self)@ < HIGHEST_DIFFICULTY,
        ensures
            final(self).inv(),
            nanos > LONG_ENOUGH ==> final(self)@ == old(self)@ && told is Some && told->0 == old(
                self,
            )@,
            nanos <= LONG_ENOUGH ==> final(self)@ == old(self)@ + 1 && told is None,
    {
        if nanos > LONG_ENOUGH {
            Some(self.difficulty)
        } else {
            self.difficulty = self.difficulty + 1;
            None
        }
    }
}

/// Adds up the progress of several proofs over time.
#[derive(Debug)]
pub struct Tally {
    previous: HashMap<usize, usize>,
    steps: usize,
}

/// The mathematical content of a [`Tally`].
#[verifier::ext_equal]
pub struct TallyView {
    /// How far each proof had come when it was last looked at.
    pub previous: Map<usize, usize>,
    /// The progress of all of them together.
    pub steps: nat,
}

impl View for Tally {
    type V = TallyView;

    closed spec fn view(&self) -> TallyView {
        TallyView { previous: self.previous@, steps: self.steps as nat }
    }
}

/// How far a proof had come when it was last looked at; not at all where it never was.
pub open spec fn last_seen(previous: Map<usize, usize>, proof: usize) -> nat {
    if previous.contains_key(proof) {
        previous[proof] as nat
    } else {
        0
    }
}

/// A tally after one more look at a proof, which has come so far. A proof that was set back adds
/// nothing.
pub open spec fn seen(tally: TallyView, proof: usize, steps: usize) -> TallyView {
    let last = last_seen(tally.previous, proof);
    TallyView {
        previous: tally.previous.insert(proof, steps),
        steps: tally.steps + (if steps > last {
            (steps - last) as nat
        } else {
            0
        }),
    }
}

/// A tally after one more look at several proofs.
pub open spec fn all_seen(tally: TallyView, readings: Seq<(usize, usize)>) -> TallyView
    decreases readings.len(),
{
    if readings.len() == 0 {
        tally
    } else {
        seen(all_seen(tally, readings.drop_last()), readings.last().0, readings.last().1)
    }
}

/// How many hashes stand behind a tally.
pub open spec fn hashes(tally: TallyView) -> nat {
    tally.steps * HASHES_PER_STEP as nat
}

impl Tally {
    /// No progress.
    pub fn new() -> (tally: Tally)
        ensures
            tally@.previous == Map::<usize, usize>::empty(),
            tally@.steps == 0,
    {
        Tally { previous: HashMap::new(), steps: 0 }
    }

    /// Takes one more look at several proofs, and says how many hashes stand behind all progress so
    /// far; nothing where that exceeds the machine's numbers, and then only the first of the
    /// readings count.
    pub fn look(&mut self, readings: &Vec<(usize, usize)>) -> (done: Option<usize>)
        ensures
            done is Some == (hashes(all_seen(old(self)@, readings@)) <= usize::MAX),
            done matches Some(done) ==> final(self)@ == all_seen(old(self)@, readings@) && done
                == hashes(final(self)@),
            done is None ==> exists|n: int|
                0 <= n <= readings@.len() && final(self)@ == all_seen(
                    old(self)@,
                    #[trigger] readings@.take(n),
                ),
    {
        let mut i: usize = 0;
        assert(readings@.take(0) =~= Seq::empty());
        while i < readings.len()
            invariant
                i <= readings.len(),
                self@ == all_seen(old(self)@, readings@.take(i as int)),
            decreases readings.len() - i,
        {
            let (proof, steps): (usize, usize) = readings[i];
            let last: usize = match self.previous.get(&proof) {
                Some(last) => *last,
                None => 0,
            };
            let gained: usize = steps.saturating_sub(last);
            proof {
                assert(readings@.take(i + 1).drop_last() =~= readings@.take(i as int));
                lemma_tally_grows(old(self)@, readings@, i + 1);
            }
            match self.steps.checked_add(gained) {
                Some(sum) => {
                    self.steps = sum;
                },
                None => {
                    return None;
                },
            }
            self.previous.insert(proof, steps);
            i = i + 1;
        }
        assert(readings@.take(i as int) =~= readings@);
        self.steps.checked_mul(HASHES_PER_STEP)
    }
}

/// Looking at more proofs does not shrink a tally.
proof fn lemma_tally_grows(tally: TallyView, readings: Seq<(usize, usize)>, i: int)
    requires
        0 <= i <= readings.len(),
    ensures
        all_seen(tally, readings.take(i)).steps <= all_seen(tally, readings).steps,
    decreases readings.len() - i,
{
    if i < readings.len() {
        lemma_tally_grows(tally, readings, i + 1);
        assert(readings.take(i + 1).drop_last() =~= readings.take(i));
    } else {
        assert(readings.take(i) =~= readings);
    }
}

/// Whether no proof is read twice.
pub open spec fn one_each(readings: Seq<(usize, usize)>) -> bool {
    forall|i: int, j: int|
        0 <= i < j < readings.len() ==> #[trigger] readings[i].0 != #[trigger] readings[j].0
}

proof fn lemma_read_last(tally: TallyView, readings: Seq<(usize, usize)>, p: int)
    requires
        one_each(readings),
        0 <= p < readings.len(),
    ensures
        all_seen(tally, readings) == seen(
            all_seen(tally, readings.remove(p)),
            readings[p].0,
            readings[p].1,
        ),
    decreases readings.len(),
{
    let rest = readings.drop_last();
    if p == readings.len() - 1 {
        assert(readings.remove(p) =~= rest);
    } else {
        lemma_read_last(tally, rest, p);
        assert(readings.remove(p).drop_last() =~= rest.remove(p));
        let before = all_seen(tally, rest.remove(p));
        let (a, b) = (readings[p], readings.last());
        assert(a.0 != b.0);
        assert(seen(seen(before, a.0, a.1), b.0, b.1) =~= seen(seen(before, b.0, b.1), a.0, a.1));
    }
}

/// The order in which the proofs are looked at does not matter.
pub proof fn law_order_of_looking_is_irrelevant(
    tally: TallyView,
    readings: Seq<(usize, usize)>,
    reordered: Seq<(usize, usize)>,
)
    requires
        one_each(readings),
        readings.to_multiset() == reordered.to_multiset(),
    ensures
        all_seen(tally, readings) == all_seen(tally, reordered),
    decreases readings.len(),
{
    broadcast use vstd::seq_lib::group_to_multiset_ensures;

    readings.to_multiset_ensures();
    reordered.to_multiset_ensures();
    if readings.len() > 0 {
        let last = readings.last();
        assert(readings.to_multiset().contains(last));
        assert(reordered.contains(last));
        let p = choose|p: int| 0 <= p < reordered.len() && reordered[p] == last;
        assert(readings.remove(readings.len() - 1) =~= readings.drop_last());
        assert(readings.drop_last().to_multiset() =~= readings.to_multiset().remove(last));
        assert(reordered.remove(p).to_multiset() =~= reordered.to_multiset().remove(last));
        law_order_of_looking_is_irrelevant(tally, readings.drop_last(), reordered.remove(p));
        lemma_one_each(readings, reordered);
        lemma_read_last(tally, reordered, p);
    }
}

proof fn lemma_one_each(readings: Seq<(usize, usize)>, reordered: Seq<(usize, usize)>)
    requires
        one_each(readings),
        readings.to_multiset() == reordered.to_multiset(),
    ensures
        one_each(reordered),
{
    broadcast use vstd::seq_lib::group_to_multiset_ensures;

    assert forall|i: int, j: int| 0 <= i < j < reordered.len() implies #[trigger] reordered[i].0
        != #[trigger] reordered[j].0 by {
        if reordered[i].0 == reordered[j].0 {
            let (a, b) = (reordered[i], reordered[j]);
            assert(readings.to_multiset().contains(a) && readings.to_multiset().contains(b));
            let k = choose|k: int| 0 <= k < readings.len() && readings[k] == a;
            let l = choose|l: int| 0 <= l < readings.len() && readings[l] == b;
            assert(k == l);
            assert(a == b);
            // The reading occurs twice here, so it would there too.
            let (fewer, less) = (reordered.remove(j), readings.remove(k));
            assert(fewer[i] == a);
            assert(fewer.to_multiset().contains(a));
            assert(less.to_multiset() =~= readings.to_multiset().remove(a));
            assert(fewer.to_multiset() =~= reordered.to_multiset().remove(a));
            assert(less.contains(a));
            let m = choose|m: int| 0 <= m < less.len() && less[m] == a;
            let n = if m < k {
                m
            } else {
                m + 1
            };
            assert(readings[n].0 == readings[k].0);
        }
    }
}

/// A thousand and twenty-four hashes stand behind each step.
pub proof fn law_steps_stand_for_hashes(tally: TallyView)
    ensures
        hashes(tally) == tally.steps * 1024,
{
}

/// A look adds what a proof gained since it was last looked at, and all that it has where it never
/// was; a proof that was set back adds nothing. It does not touch the others.
pub proof fn law_looks_add_what_was_gained(
    tally: TallyView,
    proof: usize,
    steps: usize,
    other: usize,
)
    ensures
        ({
            let after = seen(tally, proof, steps);
            &&& after.previous.contains_key(proof)
            &&& after.previous[proof] == steps
            &&& !tally.previous.contains_key(proof) ==> after.steps == tally.steps + steps
            &&& tally.previous.contains_key(proof) && tally.previous[proof] <= steps ==> after.steps
                + tally.previous[proof] == tally.steps + steps
            &&& tally.previous.contains_key(proof) && tally.previous[proof] > steps ==> after.steps
                == tally.steps
            &&& other != proof ==> (after.previous.contains_key(other)
                <==> tally.previous.contains_key(other))
            &&& other != proof && tally.previous.contains_key(other) ==> after.previous[other]
                == tally.previous[other]
        }),
{
}

/// Looking at several proofs is looking at one after the other, none left out.
pub proof fn law_looking_at_several_is_looking_at_each(
    tally: TallyView,
    a: Seq<(usize, usize)>,
    b: Seq<(usize, usize)>,
    reading: (usize, usize),
)
    ensures
        all_seen(tally, Seq::empty()) == tally,
        all_seen(tally, seq![reading]) == seen(tally, reading.0, reading.1),
        all_seen(tally, a + b) == all_seen(all_seen(tally, a), b),
    decreases b.len(),
{
    reveal_with_fuel(all_seen, 2);
    assert(seq![reading].drop_last() =~= Seq::empty());
    if b.len() == 0 {
        assert(a + b =~= a);
    } else {
        law_looking_at_several_is_looking_at_each(tally, a, b.drop_last(), reading);
        assert((a + b).drop_last() =~= a + b.drop_last());
    }
}

} // verus!
