//! What a proof of work is paid, and what ergs are worth in mels.

use melstructs::BlockHeight;
use vstd::arithmetic::power2::{lemma_pow2, lemma_pow2_pos, lemma_pow2_unfold, pow2};
use vstd::prelude::*;

use crate::chain::PoolState;

verus! {

/// How many micro-ergs one DOSC is worth at a height: a million at genesis, and from each block
/// to the next one part in two million more, but at least one micro-erg more.
pub open spec fn microergs_per_dosc(height: nat) -> nat
    decreases height,
{
    if height == 0 {
        1_000_000
    } else {
        let last = microergs_per_dosc((height - 1) as nat);
        if last / 2_000_000 >= 1 {
            last + last / 2_000_000
        } else {
            last + 1
        }
    }
}

/// The ergs that an amount of DOSC is worth at a height, rounded down.
pub open spec fn ergs_for(height: nat, doscs: nat) -> nat {
    microergs_per_dosc(height) * doscs / 1_000_000
}

/// Whether [`ergs_for`] can be computed in 128 bits.
pub open spec fn inflation_fits(height: nat, doscs: nat) -> bool {
    &&& microergs_per_dosc(height) <= u128::MAX
    &&& ergs_for(height, doscs) <= u128::MAX
}

/// The lesser of a number and the greatest one of 128 bits.
pub open spec fn saturated(n: nat) -> nat {
    if n <= u128::MAX {
        n
    } else {
        u128::MAX as nat
    }
}

/// What work of a difficulty, done at `speed`, is paid in DOSC where the fastest speed on chain is
/// `dosc_speed`. From TIP 910 on, work counts a hundredfold.
pub open spec fn dosc_reward(speed: nat, dosc_speed: nat, difficulty: nat, tip910: bool) -> nat {
    let work = if tip910 {
        saturated(pow2(difficulty) * 100)
    } else {
        pow2(difficulty)
    };
    saturated((work * speed * 1_000_000) / (dosc_speed * dosc_speed * 2880))
}

/// How long a proof counts as having taken, in blocks: the age of the coin that it was started
/// from, and forty blocks on top.
pub open spec fn proof_age(height: int, coin_height: int) -> int {
    height + 40 - coin_height
}

/// The speed that a proof of a difficulty shows, in hashes per block.
pub open spec fn proof_speed(difficulty: nat, age: int) -> nat
    recommends
        age > 0,
{
    (pow2(difficulty) / age as nat) * 100
}

/// What a proof of a difficulty is paid in ergs, at a height and a speed of the chain, where its
/// seed coin is from a block at `coin_height`.
pub open spec fn mint_reward(
    difficulty: nat,
    height: nat,
    coin_height: nat,
    dosc_speed: nat,
) -> nat {
    let speed = proof_speed(difficulty, proof_age(height as int, coin_height as int));
    ergs_for(height, dosc_reward(speed, dosc_speed, difficulty, true))
}

/// Whether [`mint_reward`] can be computed in machine numbers.
pub open spec fn reward_fits(
    difficulty: nat,
    height: nat,
    coin_height: nat,
    dosc_speed: nat,
) -> bool {
    let age = proof_age(height as int, coin_height as int);
    let speed = proof_speed(difficulty, age);
    &&& difficulty < 128
    &&& height + 40 <= u64::MAX
    &&& age > 0
    &&& dosc_speed > 0
    &&& speed <= u128::MAX
    &&& inflation_fits(height, dosc_reward(speed, dosc_speed, difficulty, true))
}

/// Calls `melstf::calculate_reward`, which multiplies and divides without loss, rounds down and
/// cuts off at 128 bits.
#[verifier::external_body]
fn calculate_reward(
    my_speed: u128,
    dosc_speed: u128,
    difficulty: u32,
    tip910: bool,
) -> (reward: u128)
    requires
        difficulty < 128,
        dosc_speed > 0,
    ensures
        reward == dosc_reward(my_speed as nat, dosc_speed as nat, difficulty as nat, tip910),
{
    melstf::calculate_reward(my_speed, dosc_speed, difficulty, tip910)
}

/// Calls `melstf::dosc_to_erg`, which keeps a table of what a DOSC is worth at each height and
/// rounds down. It panics where the table's entry or the result exceeds 128 bits.
#[verifier::external_body]
fn dosc_to_erg(height: u64, doscs: u128) -> (ergs: u128)
    requires
        inflation_fits(height as nat, doscs as nat),
    ensures
        ergs == ergs_for(height as nat, doscs as nat),
{
    melstf::dosc_to_erg(BlockHeight(height), doscs)
}

/// The worth of a DOSC never falls from one height to a later one.
pub proof fn law_worth_never_falls(low: nat, high: nat)
    requires
        low <= high,
    ensures
        microergs_per_dosc(low) <= microergs_per_dosc(high),
    decreases high,
{
    if low < high {
        law_worth_never_falls(low, (high - 1) as nat);
    }
}

/// What one DOSC is worth at a height, where that is at most `u128::MAX`.
fn inflator(height: u64) -> (worth: Option<u128>)
    ensures
        worth is Some == (microergs_per_dosc(height as nat) <= u128::MAX),
        worth matches Some(value) ==> value == microergs_per_dosc(height as nat),
{
    let mut at: u64 = 0;
    let mut worth: u128 = 1_000_000;
    while at < height
        invariant
            at <= height,
            worth == microergs_per_dosc(at as nat),
        decreases height - at,
    {
        let step: u128 = if worth / 2_000_000 >= 1 {
            worth / 2_000_000
        } else {
            1
        };
        proof {
            law_worth_never_falls((at + 1) as nat, height as nat);
        }
        if worth > u128::MAX - step {
            return None;
        }
        worth = worth + step;
        at = at + 1;
    }
    Some(worth)
}

/// Splits a product over a million into parts that each stay small.
proof fn lemma_scaled_product(worth: nat, doscs: nat)
    ensures
        worth * doscs / 1_000_000 == (worth / 1_000_000) * doscs + (worth % 1_000_000) * (doscs
            / 1_000_000) + (worth % 1_000_000) * (doscs % 1_000_000) / 1_000_000,
{
    let m: int = 1_000_000;
    let (q, r) = (worth as int / m, worth as int % m);
    let (a, b) = (doscs as int / m, doscs as int % m);
    let whole = q * doscs + r * a;
    assert(worth * doscs == m * whole + r * b) by (nonlinear_arith)
        requires
            worth == m * q + r,
            doscs == m * a + b,
            whole == q * doscs + r * a,
            m == 1_000_000,
    ;
    assert(0 <= r * b) by (nonlinear_arith)
        requires
            r >= 0,
            b >= 0,
    ;
    assert((m * whole + r * b) / m == whole + (r * b) / m) by (nonlinear_arith)
        requires
            m == 1_000_000,
    ;
}

/// Whether what an amount of DOSC is worth at a height can be computed in 128 bits.
pub fn ergs_fit(height: u64, doscs: u128) -> (fits: bool)
    ensures
        fits == inflation_fits(height as nat, doscs as nat),
{
    let worth = match inflator(height) {
        None => return false,
        Some(worth) => worth,
    };
    let whole: u128 = worth / 1_000_000;
    let part: u128 = worth % 1_000_000;
    let high: u128 = doscs / 1_000_000;
    let low: u128 = doscs % 1_000_000;
    proof {
        lemma_scaled_product(worth as nat, doscs as nat);
        assert(0 <= part * high <= doscs) by (nonlinear_arith)
            requires
                0 <= part < 1_000_000,
                high == doscs / 1_000_000,
        ;
        assert(0 <= part * low < 1_000_000_000_000) by (nonlinear_arith)
            requires
                0 <= part < 1_000_000,
                0 <= low < 1_000_000,
        ;
        assert(0 <= whole * doscs) by (nonlinear_arith)
            requires
                0 <= whole,
                0 <= doscs,
        ;
    }
    let rest: u128 = part * low / 1_000_000;
    match whole.checked_mul(doscs) {
        None => false,
        Some(product) => match product.checked_add(part * high) {
            None => false,
            Some(sum) => sum.checked_add(rest).is_some(),
        },
    }
}

/// The ergs that an amount of DOSC is worth at a height.
pub fn erg_value(height: u64, doscs: u128) -> (ergs: u128)
    requires
        inflation_fits(height as nat, doscs as nat),
    ensures
        ergs == ergs_for(height as nat, doscs as nat),
{
    dosc_to_erg(height, doscs)
}

/// Two to the power of a number below 128.
fn power_of_two(exponent: u32) -> (power: u128)
    requires
        exponent < 128,
    ensures
        power == pow2(exponent as nat),
{
    let mut power: u128 = 1;
    let mut at: u32 = 0;
    proof {
        lemma_pow2(0);
        vstd::arithmetic::power::lemma_pow0(2);
    }
    while at < exponent
        invariant
            at <= exponent < 128,
            power == pow2(at as nat),
        decreases exponent - at,
    {
        proof {
            lemma_pow2_unfold((at + 1) as nat);
            lemma_pow2_below((at + 1) as nat);
        }
        power = power * 2;
        at = at + 1;
    }
    power
}

/// A power of two with an exponent below 128 fits in 128 bits.
proof fn lemma_pow2_below(exponent: nat)
    requires
        exponent < 128,
    ensures
        0 < pow2(exponent) <= u128::MAX,
{
    lemma_pow2_pos(exponent);
    if exponent < 127 {
        vstd::arithmetic::power2::lemma_pow2_strictly_increases(exponent, 127);
    }
    vstd::arithmetic::power2::lemma2_to64();
    vstd::arithmetic::power2::lemma2_to64_rest();
    vstd::arithmetic::power2::lemma_pow2_adds(64, 63);
    assert(pow2(63) == 0x8000_0000_0000_0000);
    assert(pow2(64) == 0x1_0000_0000_0000_0000);
    assert(pow2(127) == 0x1_0000_0000_0000_0000 * 0x8000_0000_0000_0000);
}

/// Whether what a proof is paid can be computed in machine numbers.
pub fn reward_is_payable(
    difficulty: usize,
    height: u64,
    coin_height: u64,
    dosc_speed: u128,
) -> (fits: bool)
    ensures
        fits == reward_fits(
            difficulty as nat,
            height as nat,
            coin_height as nat,
            dosc_speed as nat,
        ),
{
    if difficulty >= 128 || dosc_speed == 0 {
        return false;
    }
    if height > u64::MAX - 40 || coin_height >= height + 40 {
        return false;
    }
    let age: u64 = height + 40 - coin_height;
    let work: u128 = power_of_two(difficulty as u32);
    match (work / age as u128).checked_mul(100) {
        None => false,
        Some(speed) => {
            let doscs: u128 = calculate_reward(speed, dosc_speed, difficulty as u32, true);
            ergs_fit(height, doscs)
        },
    }
}

/// What a proof is paid, in ergs.
pub fn reward_ergs(
    difficulty: usize,
    height: u64,
    coin_height: u64,
    dosc_speed: u128,
) -> (ergs: u128)
    requires
        reward_fits(difficulty as nat, height as nat, coin_height as nat, dosc_speed as nat),
    ensures
        ergs == mint_reward(
            difficulty as nat,
            height as nat,
            coin_height as nat,
            dosc_speed as nat,
        ),
{
    let age: u64 = height + 40 - coin_height;
    let speed: u128 = power_of_two(difficulty as u32) / age as u128 * 100;
    let doscs: u128 = calculate_reward(speed, dosc_speed, difficulty as u32, true);
    dosc_to_erg(height, doscs)
}

/// What a pool pays out for tokens put in on the other side: their share of the reserve, less a
/// fee of one half percent, rounded down. `given` has its deposit in it already.
pub open spec fn swap_out(deposit: nat, given: nat, taken: nat) -> nat {
    (deposit * taken * 995) / (given * 1000)
}

/// Calls `melstructs::PoolState::swap_many` on a copy of the pool. Deposits go in first, and are
/// cut off at 128 bits; then each side pays for what came in on the other. It divides by both
/// reserves, so neither may be empty.
#[verifier::external_body]
fn swap_many(pool: PoolState, lefts: u128, rights: u128) -> (paid: (u128, u128))
    requires
        pool.lefts + lefts > 0,
        pool.rights + rights > 0,
    ensures
        paid.0 == swap_out(
            rights as nat,
            saturated((pool.rights + rights) as nat),
            saturated((pool.lefts + lefts) as nat),
        ),
        paid.1 == swap_out(
            lefts as nat,
            saturated((pool.lefts + lefts) as nat),
            saturated((pool.rights + rights) as nat),
        ),
{
    let PoolState { lefts: left, rights: right, price_accum, liqs } = pool;
    let mut state = melstructs::PoolState { lefts: left, rights: right, price_accum, liqs };
    state.swap_many(lefts, rights)
}

/// The mels that an amount of ergs fetches in the pool of ergs (left) and mels (right).
pub fn mels_for_ergs(pool: PoolState, ergs: u128) -> (mels: u128)
    requires
        pool.lefts + ergs > 0,
        pool.rights > 0,
    ensures
        mels == swap_out(ergs as nat, saturated((pool.lefts + ergs) as nat), pool.rights as nat),
{
    swap_many(pool, ergs, 0).1
}

/// How many steps a progress display counts for a proof of a difficulty.
pub open spec fn progress_steps(difficulty: nat) -> nat {
    100 * pow2(if difficulty >= 10 { (difficulty - 10) as nat } else { 0 })
}

/// How many steps a progress display counts for a proof of a difficulty, where a machine word
/// can hold them.
pub fn progress_total(difficulty: usize) -> (total: Option<usize>)
    ensures
        total is Some == (progress_steps(difficulty as nat) <= usize::MAX),
        total matches Some(steps) ==> steps == progress_steps(difficulty as nat),
{
    let exponent: usize = difficulty.saturating_sub(10);
    proof {
        lemma_pow2_below(127);
        vstd::arithmetic::power2::lemma2_to64();
        vstd::arithmetic::power2::lemma2_to64_rest();
        if exponent > 64 {
            vstd::arithmetic::power2::lemma_pow2_strictly_increases(64, exponent as nat);
        }
    }
    if exponent > 64 {
        return None;
    }
    let steps: u128 = 100 * power_of_two(exponent as u32);
    if steps <= usize::MAX as u128 {
        Some(steps as usize)
    } else {
        None
    }
}

/// Work that is done faster, or that is harder, never earns less.
proof fn lemma_reward_ordered(
    speed: nat,
    difficulty: nat,
    faster: nat,
    harder: nat,
    dosc_speed: nat,
)
    requires
        speed <= faster,
        difficulty <= harder,
        dosc_speed > 0,
    ensures
        dosc_reward(speed, dosc_speed, difficulty, true) <= dosc_reward(
            faster,
            dosc_speed,
            harder,
            true,
        ),
{
    if difficulty < harder {
        vstd::arithmetic::power2::lemma_pow2_strictly_increases(difficulty, harder);
    }
    let (less, more) = (saturated(pow2(difficulty) * 100), saturated(pow2(harder) * 100));
    let divisor = dosc_speed * dosc_speed * 2880;
    assert(divisor > 0) by (nonlinear_arith)
        requires
            dosc_speed > 0,
            divisor == dosc_speed * dosc_speed * 2880,
    ;
    assert(less * speed * 1_000_000 <= more * faster * 1_000_000) by (nonlinear_arith)
        requires
            less <= more,
            speed <= faster,
    ;
    vstd::arithmetic::div_mod::lemma_div_is_ordered(
        (less * speed * 1_000_000) as int,
        (more * faster * 1_000_000) as int,
        divisor as int,
    );
}

proof fn lemma_ergs_ordered(height: nat, less: nat, more: nat)
    requires
        less <= more,
    ensures
        ergs_for(height, less) <= ergs_for(height, more),
{
    let worth = microergs_per_dosc(height);
    assert(worth * less <= worth * more) by (nonlinear_arith)
        requires
            less <= more,
    ;
    vstd::arithmetic::div_mod::lemma_div_is_ordered(
        (worth * less) as int,
        (worth * more) as int,
        1_000_000,
    );
}

/// Haste pays: of two proofs of the same difficulty that are claimed at the same time, the one
/// whose seed coin is younger earns at least as much.
pub proof fn law_younger_seeds_earn_no_less(
    difficulty: nat,
    height: nat,
    older: nat,
    younger: nat,
    dosc_speed: nat,
)
    requires
        older <= younger < height + 40,
        dosc_speed > 0,
    ensures
        mint_reward(difficulty, height, older, dosc_speed) <= mint_reward(
            difficulty,
            height,
            younger,
            dosc_speed,
        ),
{
    let (longer, shorter) = (
        proof_age(height as int, older as int),
        proof_age(height as int, younger as int),
    );
    vstd::arithmetic::div_mod::lemma_div_is_ordered_by_denominator(
        pow2(difficulty) as int,
        shorter,
        longer,
    );
    let (slow, fast) = (proof_speed(difficulty, longer), proof_speed(difficulty, shorter));
    lemma_reward_ordered(slow, difficulty, fast, difficulty, dosc_speed);
    lemma_ergs_ordered(
        height,
        dosc_reward(slow, dosc_speed, difficulty, true),
        dosc_reward(fast, dosc_speed, difficulty, true),
    );
}

/// Work pays: of two proofs from seed coins of the same age that are claimed at the same time, the
/// harder one earns at least as much.
pub proof fn law_harder_proofs_earn_no_less(
    difficulty: nat,
    harder: nat,
    height: nat,
    coin_height: nat,
    dosc_speed: nat,
)
    requires
        difficulty <= harder,
        coin_height < height + 40,
        dosc_speed > 0,
    ensures
        mint_reward(difficulty, height, coin_height, dosc_speed) <= mint_reward(
            harder,
            height,
            coin_height,
            dosc_speed,
        ),
{
    let age = proof_age(height as int, coin_height as int);
    if difficulty < harder {
        vstd::arithmetic::power2::lemma_pow2_strictly_increases(difficulty, harder);
    }
    vstd::arithmetic::div_mod::lemma_div_is_ordered(
        pow2(difficulty) as int,
        pow2(harder) as int,
        age,
    );
    let (slow, fast) = (proof_speed(difficulty, age), proof_speed(harder, age));
    lemma_reward_ordered(slow, difficulty, fast, harder, dosc_speed);
    lemma_ergs_ordered(
        height,
        dosc_reward(slow, dosc_speed, difficulty, true),
        dosc_reward(fast, dosc_speed, harder, true),
    );
}

/// Whether a number is how often another goes into a third.
pub open spec fn goes_into(times: nat, divisor: nat, number: nat) -> bool {
    times * divisor <= number < (times + 1) * divisor
}

proof fn lemma_quotient(number: nat, divisor: nat)
    requires
        divisor > 0,
    ensures
        goes_into(number / divisor, divisor, number),
{
    vstd::arithmetic::div_mod::lemma_fundamental_div_mod(number as int, divisor as int);
    vstd::arithmetic::div_mod::lemma_mod_bound(number as int, divisor as int);
    let (q, r) = (number / divisor, number % divisor);
    assert(number == divisor * q + r);
    assert(q * divisor <= number && number < (q + 1) * divisor) by (nonlinear_arith)
        requires
            number == divisor * q + r,
            0 <= r < divisor,
    ;
}

proof fn lemma_only_quotient(times: nat, number: nat, divisor: nat)
    requires
        divisor > 0,
        goes_into(times, divisor, number),
    ensures
        times == number / divisor,
{
    lemma_quotient(number, divisor);
    let q = number / divisor;
    assert(times == q) by (nonlinear_arith)
        requires
            times * divisor <= number < (times + 1) * divisor,
            q * divisor <= number < (q + 1) * divisor,
            divisor > 0,
    ;
}

/// A DOSC is worth a million micro-ergs at genesis. From each block to the next it gains as many
/// micro-ergs as two million goes into its worth, but one at least.
pub proof fn law_worth_grows_block_by_block(height: nat)
    ensures
        microergs_per_dosc(0) == 1_000_000,
        ({
            let (worth, next) = (microergs_per_dosc(height), microergs_per_dosc(height + 1));
            let gain = next - worth;
            &&& gain >= 1
            &&& gain == 1 || gain * 2_000_000 <= worth
            &&& (gain + 1) * 2_000_000 > worth
        }),
{
}

/// The ergs for DOSCs are as many as a million goes into their worth in micro-ergs, and they fit
/// where they and the worth of one DOSC fit into 128 bits.
pub proof fn law_ergs_are_the_worth_of_doscs(height: nat, doscs: nat)
    ensures
        goes_into(ergs_for(height, doscs), 1_000_000, microergs_per_dosc(height) * doscs),
        inflation_fits(height, doscs) <==> microergs_per_dosc(height) <= u128::MAX
            && microergs_per_dosc(height) * doscs < (u128::MAX + 1) * 1_000_000,
{
    let worth = microergs_per_dosc(height) * doscs;
    lemma_quotient(worth, 1_000_000);
}

/// What a proof earns, reckoned step by step. It was as fast as the blocks that it counts for, the
/// age of its seed coin and forty more, go into its work. Its DOSCs are as many as the square of
/// the fastest speed, times the blocks of a day, goes into work times speed, each counted a
/// hundredfold, in micro-units. Its ergs are what the DOSCs are worth. Work and DOSCs are cut off
/// at 128 bits.
pub proof fn law_rewards_are_reckoned_from_work_and_age(
    difficulty: nat,
    height: nat,
    coin_height: nat,
    dosc_speed: nat,
    hashes_per_block: nat,
    doscs: nat,
)
    requires
        coin_height < height + 40,
        dosc_speed > 0,
        goes_into(hashes_per_block, (height + 40 - coin_height) as nat, pow2(difficulty)),
        ({
            let work = if pow2(difficulty) * 100 <= u128::MAX {
                pow2(difficulty) * 100
            } else {
                u128::MAX as nat
            };
            let earned = work * (hashes_per_block * 100) * 1_000_000;
            let unit = dosc_speed * dosc_speed * 2880;
            if earned < (u128::MAX + 1) * unit {
                goes_into(doscs, unit, earned)
            } else {
                doscs == u128::MAX
            }
        }),
    ensures
        goes_into(
            mint_reward(difficulty, height, coin_height, dosc_speed),
            1_000_000,
            microergs_per_dosc(height) * doscs,
        ),
        reward_fits(difficulty, height, coin_height, dosc_speed) <==> difficulty < 128 && height
            + 40 <= u64::MAX && hashes_per_block * 100 <= u128::MAX && microergs_per_dosc(height)
            <= u128::MAX && microergs_per_dosc(height) * doscs < (u128::MAX + 1) * 1_000_000,
{
    let age = (height + 40 - coin_height) as nat;
    lemma_only_quotient(hashes_per_block, pow2(difficulty), age);
    let speed = hashes_per_block * 100;
    assert(proof_speed(difficulty, age as int) == speed);
    let work = saturated(pow2(difficulty) * 100);
    let earned = work * speed * 1_000_000;
    let unit = dosc_speed * dosc_speed * 2880;
    assert(unit > 0) by (nonlinear_arith)
        requires
            dosc_speed > 0,
            unit == dosc_speed * dosc_speed * 2880,
    ;
    lemma_quotient(earned, unit);
    let most = (u128::MAX + 1) as nat;
    if earned < most * unit {
        lemma_only_quotient(doscs, earned, unit);
        assert(earned / unit < most) by (nonlinear_arith)
            requires
                (earned / unit) * unit <= earned,
                earned < most * unit,
                unit > 0,
        ;
    } else {
        assert(earned / unit >= most) by (nonlinear_arith)
            requires
                earned < (earned / unit + 1) * unit,
                earned >= most * unit,
                unit > 0,
        ;
    }
    assert(dosc_reward(speed, dosc_speed, difficulty, true) == doscs);
    law_ergs_are_the_worth_of_doscs(height, doscs);
}

/// A proof whose seed coin is not from a block at most forty ahead, or where the chain has no
/// speed, earns nothing that can be reckoned.
pub proof fn law_some_rewards_cannot_be_reckoned(
    difficulty: nat,
    height: nat,
    coin_height: nat,
    dosc_speed: nat,
)
    requires
        coin_height >= height + 40 || dosc_speed == 0,
    ensures
        !reward_fits(difficulty, height, coin_height, dosc_speed),
{
}

/// Each further block of the seed coin's age lengthens the age that counts by one, without bound;
/// a coin from the tip counts for forty blocks.
pub proof fn law_every_block_counts(height: int, coin_height: int, blocks: int)
    ensures
        proof_age(height, height) == 40,
        proof_age(height + blocks, coin_height) == proof_age(height, coin_height) + blocks,
        proof_age(height, coin_height + blocks) == proof_age(height, coin_height) - blocks,
{
}

/// What a pool pays is as often as a thousand times what it has been given goes into 995 times the
/// deposit's share; so it never pays all that it has.
pub proof fn law_pools_pay_a_share(deposit: nat, given: nat, taken: nat)
    requires
        0 < given,
        deposit <= given,
    ensures
        goes_into(swap_out(deposit, given, taken), given * 1000, deposit * taken * 995),
        swap_out(deposit, given, taken) <= taken,
        taken > 0 ==> swap_out(deposit, given, taken) < taken,
        swap_out(0, given, taken) == 0,
{
    let (unit, share) = (given * 1000, deposit * taken * 995);
    assert(unit > 0);
    lemma_quotient(share, unit);
    let paid = swap_out(deposit, given, taken);
    assert(paid <= taken && (taken > 0 ==> paid < taken)) by (nonlinear_arith)
        requires
            paid * (given * 1000) <= deposit * taken * 995,
            deposit <= given,
            given > 0,
    ;
    assert(0 * taken * 995 == 0) by (nonlinear_arith);
    assert(0nat / unit == 0) by (nonlinear_arith)
        requires
            unit > 0,
    ;
}

/// What is cut off at 128 bits is as before where it fits, and the greatest that fits otherwise.
pub proof fn law_cutting_off_changes_only_what_does_not_fit(n: nat)
    ensures
        saturated(n) <= n,
        saturated(n) <= u128::MAX,
        n <= u128::MAX ==> saturated(n) == n,
        n > u128::MAX ==> saturated(n) == u128::MAX,
{
}

/// A display counts a hundred steps for a proof of a difficulty up to ten, and twice as many for
/// each difficulty above.
pub proof fn law_steps_double_above_ten(difficulty: nat)
    ensures
        difficulty <= 10 ==> progress_steps(difficulty) == 100,
        difficulty >= 10 ==> progress_steps(difficulty + 1) == 2 * progress_steps(difficulty),
{
    vstd::arithmetic::power2::lemma2_to64();
    if difficulty >= 10 {
        lemma_pow2_unfold((difficulty - 10 + 1) as nat);
    }
}

} // verus!
