//! The bounded retry driver: invokes the sampler repeatedly under a
//! wall-clock time budget and returns the last batch produced. By default a
//! batch is accepted on the first attempt even when draws collided (always
//! retrying until no batch has duplicates biases the outcome toward less
//! popular entities); the stricter retry-until-duplicate-free behaviour is
//! available behind the `strict` flag.

use vstd::prelude::*;
use crate::distribution::{
    all_valid, build_cumulative, cumulative_at, cumulative_seq, total_weight, MAX_HORSES,
};
use crate::entity::Horse;
use crate::sampler::{batch_from_draws, sample_batch, verbatim_batch, SelectionBatch};

verus! {

/// The wall-clock budget of a selection round, in milliseconds.
pub const DEFAULT_BUDGET_MILLIS: u64 = 5000;

/// The error a selection returns when some entity's odds are not positive,
/// which would make its weight `1/odds` undefined.
#[derive(Clone, Copy, Debug, PartialEq, Eq, Structural)]
pub enum SelectError {
    InvalidOdds,
}

/// Whether the driver accepts the batch just produced: always, unless the
/// stricter mode is on and the batch holds a duplicate — and even then once
/// the elapsed time has gone past the budget, so the driver never runs on
/// after its deadline.
pub open spec fn accepts(elapsed_millis: u128, budget_millis: u64, collision: bool, strict: bool) -> bool {
    !strict || !collision || elapsed_millis > budget_millis
}

/// The driver's acceptance decision for the batch just produced.
pub fn retry_decision(elapsed_millis: u128, budget_millis: u64, collision: bool, strict: bool) -> (accept: bool)
    ensures
        accept == accepts(elapsed_millis, budget_millis, collision, strict),
{
    !strict || !collision || elapsed_millis > budget_millis as u128
}

/// Past the deadline the driver accepts whatever was last produced, in
/// either mode: the retry loop never runs past its time budget.
pub proof fn lemma_deadline_accepts(
    elapsed_millis: u128,
    budget_millis: u64,
    collision: bool,
    strict: bool,
)
    requires
        elapsed_millis > budget_millis,
    ensures
        accepts(elapsed_millis, budget_millis, collision, strict),
{
}

/// Relies on std::time::Instant, an opaque monotonic clock reading.
#[verifier::external_type_specification]
#[verifier::external_body]
pub struct ExInstant(std::time::Instant);

/// Relies on std::time::Instant::now: the clock reading at the call.
/// Nothing is assumed of its value.
#[verifier::external_body]
fn clock_now() -> (t: std::time::Instant) {
    std::time::Instant::now()
}

/// Relies on std::time::Instant::elapsed and Duration::as_millis: the
/// wall-clock milliseconds since `start`. Nothing is assumed of the value
/// the clock hands back.
#[verifier::external_body]
fn elapsed_millis_since(start: &std::time::Instant) -> (ms: u128) {
    start.elapsed().as_millis()
}

/// Every entity in the list has positive odds.
pub fn all_odds_valid(horses: &Vec<Horse>) -> (ok: bool)
    ensures
        ok == all_valid(horses@),
{
    let mut i: usize = 0;
    while i < horses.len()
        invariant
            i <= horses@.len(),
            forall|j: int| 0 <= j < i ==> (#[trigger] horses@[j]).valid(),
        decreases horses@.len() - i,
    {
        if horses[i].odds_milli == 0 {
            return false;
        }
        i = i + 1;
    }
    true
}

/// A batch the driver may hand out: the empty batch (nothing was produced
/// before the budget ran out, or the total weight is zero), or a batch that
/// some draw sequence of length `n` selects from the distribution.
pub open spec fn driver_batch_ok(horses: Seq<Horse>, n: int, batch: SelectionBatch) -> bool {
    &&& (total_weight(horses) == 0 ==> batch.picks@ == Seq::<Horse>::empty())
    &&& (total_weight(horses) > 0 ==> batch.picks@ == Seq::<Horse>::empty() || (
    batch.picks@.len() == n && exists|draws: Seq<u64>|
        #[trigger] batch_from_draws(horses, cumulative_seq(horses), draws, n, batch)))
}

/// The whole selection under the retry driver. Short-circuits to the full
/// list when `n` covers it; rejects non-positive odds with a typed error;
/// otherwise builds the distribution once and invokes the sampler until the
/// batch is accepted or the wall-clock budget is spent, returning the last
/// batch produced — the empty batch if the budget expired before any was.
pub fn select_with_retry(
    n: usize,
    horses: &Vec<Horse>,
    budget_millis: u64,
    strict: bool,
) -> (r: Result<SelectionBatch, SelectError>)
    requires
        horses@.len() <= MAX_HORSES,
    ensures
        match r {
            Ok(batch) => {
                &&& (n >= horses@.len() ==> batch.picks@ == horses@ && !batch.collision)
                &&& (n < horses@.len() ==> all_valid(horses@) && driver_batch_ok(
                    horses@,
                    n as int,
                    batch,
                ))
            },
            Err(e) => e == SelectError::InvalidOdds && n < horses@.len() && !all_valid(horses@),
        },
{
    if n >= horses.len() {
        return Ok(verbatim_batch(horses));
    }
    if !all_odds_valid(horses) {
        return Err(SelectError::InvalidOdds);
    }
    let cum: Vec<u64> = build_cumulative(horses);
    proof {
        assert(cum@ =~= cumulative_seq(horses@));
        assert(horses@.take(horses@.len() - 1 + 1) =~= horses@);
    }
    let start = clock_now();
    let mut batch = SelectionBatch { picks: Vec::new(), collision: false };
    // The countdown only gives the loop a decreasing measure; the
    // wall-clock budget is what ends it in practice.
    let mut attempts_left: u64 = u64::MAX;
    loop
        invariant
            n < horses@.len(),
            horses@.len() <= MAX_HORSES,
            all_valid(horses@),
            cum@.len() == horses@.len(),
            cum@ == cumulative_seq(horses@),
            forall|i: int| 0 <= i < cum@.len() ==> #[trigger] cum@[i] == cumulative_at(horses@, i),
            cum@.last() == total_weight(horses@),
            driver_batch_ok(horses@, n as int, batch),
        decreases attempts_left,
    {
        let elapsed: u128 = elapsed_millis_since(&start);
        if elapsed > budget_millis as u128 {
            break ;
        }
        batch = sample_batch(n, horses, &cum);
        proof {
            if total_weight(horses@) > 0 {
                let draws = choose|draws: Seq<u64>|
                    #[trigger] batch_from_draws(horses@, cum@, draws, n as int, batch);
                assert(batch_from_draws(horses@, cumulative_seq(horses@), draws, n as int, batch));
            }
        }
        let elapsed_after: u128 = elapsed_millis_since(&start);
        if retry_decision(elapsed_after, budget_millis, batch.collision, strict) {
            break ;
        }
        if attempts_left == 0 {
            break ;
        }
        attempts_left = attempts_left - 1;
    }
    Ok(batch)
}

} // verus!
