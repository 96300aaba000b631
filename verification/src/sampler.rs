//! The sampler: maps sorted uniform draws onto the cumulative distribution
//! with a single advancing pointer, one linear pass for the whole batch, and
//! flags draws that land in a bucket already consumed by the previous draw
//! (a collision, which yields a duplicate entity in the batch).

use vstd::prelude::*;
use rand::Rng;
use crate::entity::Horse;
use crate::distribution::{
    all_valid, build_cumulative, cumulative_at, cumulative_seq, lemma_cumulative_monotone,
    total_weight, MAX_HORSES,
};

verus! {

/// The sequence is non-decreasing.
pub open spec fn sorted(s: Seq<u64>) -> bool {
    forall|i: int, j: int| 0 <= i <= j < s.len() ==> s[i] <= s[j]
}

/// The index of the entity that receives draw `r`: the first index whose
/// cumulative boundary exceeds the draw, so entity `i` owns the interval
/// `[cum[i-1], cum[i])`.
pub open spec fn pick_of(cum: Seq<u64>, r: u64) -> int
    decreases cum.len(),
{
    if cum.len() == 0 {
        0
    } else if r < cum[0] {
        0
    } else {
        1 + pick_of(cum.drop_first(), r)
    }
}

/// `i` is the index picked by draw `r`: the draw is below boundary `i` and
/// at or above every earlier boundary.
pub open spec fn is_pick(cum: Seq<u64>, r: u64, i: int) -> bool {
    &&& 0 <= i < cum.len()
    &&& r < cum[i]
    &&& forall|j: int| 0 <= j < i ==> #[trigger] cum[j] <= r
}

/// `pick_of` is the unique index satisfying `is_pick`.
pub proof fn lemma_pick_of_characterizes(cum: Seq<u64>, r: u64, i: int)
    requires
        is_pick(cum, r, i),
    ensures
        pick_of(cum, r) == i,
    decreases cum.len(),
{
    if r < cum[0] {
        assert(i == 0) by {
            if i > 0 {
                assert(cum[0] <= r);
            }
        }
    } else {
        assert(i > 0);
        let tail = cum.drop_first();
        assert(is_pick(tail, r, i - 1)) by {
            assert(r < tail[i - 1]);
            assert(forall|j: int| 0 <= j < i - 1 ==> #[trigger] tail[j] == cum[j + 1]);
        }
        lemma_pick_of_characterizes(tail, r, i - 1);
    }
}

/// The batch of entities selected by the given draws, in draw order.
pub open spec fn picks_of(horses: Seq<Horse>, cum: Seq<u64>, draws: Seq<u64>) -> Seq<Horse> {
    Seq::new(draws.len(), |k: int| horses[pick_of(cum, draws[k])])
}

/// Whether some draw lands in the same bucket as the draw before it (draws
/// are sorted, so equal neighbouring picks are exactly the duplicates).
pub open spec fn has_collision(cum: Seq<u64>, draws: Seq<u64>) -> bool {
    exists|k: int|
        1 <= k < draws.len() && pick_of(cum, #[trigger] draws[k]) == pick_of(cum, draws[k - 1])
}

/// Sorts the draws ascending in place by adjacent swaps, so that one linear
/// walk of the distribution can place the whole batch. The result holds
/// exactly the same draws (as a multiset), in non-decreasing order.
pub fn sort_draws(draws: &mut Vec<u64>)
    ensures
        final(draws)@.len() == old(draws)@.len(),
        sorted(final(draws)@),
        final(draws)@.to_multiset() == old(draws)@.to_multiset(),
{
    let len: usize = draws.len();
    if len <= 1 {
        return ;
    }
    let mut i: usize = 1;
    while i < len
        invariant
            len == draws@.len(),
            len == old(draws)@.len(),
            1 <= i <= len,
            draws@.to_multiset() == old(draws)@.to_multiset(),
            sorted(draws@.take(i as int)),
        decreases len - i,
    {
        proof {
            assert forall|a: int, b: int| #![trigger draws@[a], draws@[b]]
                0 <= a <= b < i implies draws@[a] <= draws@[b] by {
                assert(draws@.take(i as int)[a] == draws@[a]);
                assert(draws@.take(i as int)[b] == draws@[b]);
            }
        }
        let mut j: usize = i;
        while j > 0 && draws[j - 1] > draws[j]
            invariant
                len == draws@.len(),
                len == old(draws)@.len(),
                0 <= j <= i < len,
                draws@.to_multiset() == old(draws)@.to_multiset(),
                forall|a: int, b: int| #![trigger draws@[a], draws@[b]]
                    0 <= a <= b < j ==> draws@[a] <= draws@[b],
                forall|a: int, b: int| #![trigger draws@[a], draws@[b]]
                    j <= a <= b <= i ==> draws@[a] <= draws@[b],
                forall|a: int, b: int| #![trigger draws@[a], draws@[b]]
                    0 <= a < j && j < b <= i ==> draws@[a] <= draws@[b],
            decreases j,
        {
            let lo: u64 = draws[j - 1];
            let hi: u64 = draws[j];
            let ghost before = draws@;
            draws.set(j - 1, hi);
            draws.set(j, lo);
            proof {
                broadcast use vstd::seq_lib::group_to_multiset_ensures;
                broadcast use vstd::multiset::group_multiset_axioms;
                vstd::seq_lib::to_multiset_update(before, j - 1, hi);
                vstd::seq_lib::to_multiset_update(before.update(j - 1, hi), j as int, lo);
                assert(before.update(j - 1, hi)[j as int] == hi);
                assert(before.to_multiset().count(lo) > 0) by {
                    assert(before[j - 1] == lo);
                    assert(before.contains(lo));
                }
                assert(draws@.to_multiset() =~= before.to_multiset());
            }
            j = j - 1;
        }
        proof {
            assert forall|a: int, b: int| #![trigger draws@[a], draws@[b]]
                0 <= a <= b <= i implies draws@[a] <= draws@[b] by {
                if a < j && j <= b {
                    assert(draws@[a] <= draws@[j - 1]);
                    assert(draws@[j - 1] <= draws@[j as int]);
                }
            }
            assert(sorted(draws@.take(i + 1)));
        }
        i = i + 1;
    }
    proof {
        assert(draws@.take(len as int) =~= draws@);
        assert(sorted(draws@));
    }
}

/// An ordered batch of chosen entities together with the flag that reports
/// whether any two draws collided on one entity's interval.
pub struct SelectionBatch {
    pub picks: Vec<Horse>,
    pub collision: bool,
}

/// Walks the cumulative distribution once with an advancing pointer and
/// assigns every sorted draw the entity whose boundary first exceeds it.
/// Sorting the draws first lets one linear pass serve the whole batch.
pub fn place_draws(horses: &Vec<Horse>, cum: &Vec<u64>, draws: &Vec<u64>) -> (batch:
    SelectionBatch)
    requires
        cum@.len() == horses@.len(),
        cum@.len() > 0,
        sorted(cum@),
        sorted(draws@),
        forall|k: int| 0 <= k < draws@.len() ==> #[trigger] draws@[k] < cum@.last(),
    ensures
        batch.picks@ == picks_of(horses@, cum@, draws@),
        batch.collision == has_collision(cum@, draws@),
{
    let mut picks: Vec<Horse> = Vec::new();
    let mut collision: bool = false;
    let mut ptr: usize = 0;
    let mut k: usize = 0;
    let cum_len: usize = cum.len();
    while k < draws.len()
        invariant
            cum@.len() == cum_len,
            cum@.len() == horses@.len(),
            cum@.len() > 0,
            sorted(cum@),
            sorted(draws@),
            forall|j: int| 0 <= j < draws@.len() ==> #[trigger] draws@[j] < cum@.last(),
            k <= draws@.len(),
            ptr < cum@.len(),
            k == 0 ==> ptr == 0,
            k > 0 ==> is_pick(cum@, draws@[k - 1], ptr as int),
            picks@ == picks_of(horses@, cum@, draws@.take(k as int)),
            collision == has_collision(cum@, draws@.take(k as int)),
        decreases draws@.len() - k,
    {
        let ghost ptr0 = ptr as int;
        let mut advanced: bool = false;
        while draws[k] >= cum[ptr]
            invariant
                cum@.len() == cum_len,
                cum@.len() > 0,
                sorted(cum@),
                k < draws@.len(),
                draws@[k as int] < cum@.last(),
                ptr < cum@.len(),
                ptr0 <= ptr,
                advanced == (ptr > ptr0),
                forall|j: int| 0 <= j < ptr ==> #[trigger] cum@[j] <= draws@[k as int],
            decreases cum@.len() - ptr,
        {
            advanced = true;
            assert(ptr + 1 < cum@.len()) by {
                assert(cum@[ptr as int] <= draws@[k as int]);
                assert(draws@[k as int] < cum@[cum@.len() - 1]);
            }
            ptr = ptr + 1;
        }
        assert(is_pick(cum@, draws@[k as int], ptr as int));
        proof {
            lemma_pick_of_characterizes(cum@, draws@[k as int], ptr as int);
        }
        if k > 0 && !advanced {
            proof {
                lemma_pick_of_characterizes(cum@, draws@[k - 1], ptr0);
                assert(pick_of(cum@, draws@.take(k + 1)[k as int])
                    == pick_of(cum@, draws@.take(k + 1)[k - 1]));
            }
            collision = true;
        }
        proof {
            if k > 0 && advanced {
                lemma_pick_of_characterizes(cum@, draws@[k - 1], ptr0);
            }
            assert(collision == has_collision(cum@, draws@.take(k + 1))) by {
                if collision {
                    if has_collision(cum@, draws@.take(k as int)) {
                        let w = choose|w: int|
                            1 <= w < draws@.take(k as int).len() && pick_of(
                                cum@,
                                #[trigger] draws@.take(k as int)[w],
                            ) == pick_of(cum@, draws@.take(k as int)[w - 1]);
                        assert(draws@.take(k + 1)[w] == draws@[w]);
                        assert(draws@.take(k + 1)[w - 1] == draws@[w - 1]);
                        assert(pick_of(cum@, draws@.take(k + 1)[w])
                            == pick_of(cum@, draws@.take(k + 1)[w - 1]));
                    }
                } else {
                    assert forall|w: int| 1 <= w < k + 1 implies pick_of(
                        cum@,
                        #[trigger] draws@.take(k + 1)[w],
                    ) != pick_of(cum@, draws@.take(k + 1)[w - 1]) by {
                        assert(draws@.take(k + 1)[w] == draws@[w]);
                        assert(draws@.take(k + 1)[w - 1] == draws@[w - 1]);
                        if w < k {
                            assert(!has_collision(cum@, draws@.take(k as int)));
                            assert(draws@.take(k as int)[w] == draws@[w]);
                            assert(draws@.take(k as int)[w - 1] == draws@[w - 1]);
                        } else {
                            assert(w == k);
                            if k > 0 {
                                assert(ptr0 < ptr);
                            }
                        }
                    }
                }
            }
        }
        picks.push(horses[ptr].clone());
        proof {
            assert(picks@ =~= picks_of(horses@, cum@, draws@.take(k + 1)));
        }
        k = k + 1;
    }
    proof {
        assert(draws@.take(draws@.len() as int) =~= draws@);
    }
    SelectionBatch { picks, collision }
}

/// Relies on rand::Rng::gen_range over the range `0..bound` of a
/// thread-local rng: the range is non-empty, so the call does not panic and
/// the result lies below the bound. Nothing more is assumed of a random
/// value.
#[verifier::external_body]
fn random_below(bound: u64) -> (r: u64)
    requires
        bound > 0,
    ensures
        r < bound,
{
    rand::thread_rng().gen_range(0..bound)
}

/// Draws `n` independent uniform values in `[0, bound)` from the
/// process-wide random source.
fn draw_uniforms(n: usize, bound: u64) -> (draws: Vec<u64>)
    requires
        bound > 0,
    ensures
        draws@.len() == n,
        forall|k: int| 0 <= k < draws@.len() ==> #[trigger] draws@[k] < bound,
{
    let mut draws: Vec<u64> = Vec::new();
    let mut k: usize = 0;
    while k < n
        invariant
            bound > 0,
            k <= n,
            draws@.len() == k,
            forall|j: int| 0 <= j < draws@.len() ==> #[trigger] draws@[j] < bound,
        decreases n - k,
    {
        draws.push(random_below(bound));
        k = k + 1;
    }
    draws
}

/// `batch` is a batch that some sorted in-range draw sequence of length `n`
/// selects from the distribution: the entities in draw order, and the flag
/// reporting whether two draws collided on one interval.
pub open spec fn batch_from_draws(
    horses: Seq<Horse>,
    cum: Seq<u64>,
    draws: Seq<u64>,
    n: int,
    batch: SelectionBatch,
) -> bool {
    &&& draws.len() == n
    &&& sorted(draws)
    &&& cum.len() > 0
    &&& (forall|k: int| 0 <= k < draws.len() ==> #[trigger] draws[k] < cum.last())
    &&& batch.picks@ == picks_of(horses, cum, draws)
    &&& batch.collision == has_collision(cum, draws)
}

/// The no-randomness path of the sampler: the whole list verbatim, in its
/// original order, with no collision.
pub fn verbatim_batch(horses: &Vec<Horse>) -> (batch: SelectionBatch)
    ensures
        batch.picks@ == horses@,
        !batch.collision,
{
    let mut picks: Vec<Horse> = Vec::new();
    let mut k: usize = 0;
    while k < horses.len()
        invariant
            k <= horses@.len(),
            picks@ =~= horses@.take(k as int),
        decreases horses@.len() - k,
    {
        picks.push(horses[k].clone());
        k = k + 1;
    }
    proof {
        assert(horses@.take(horses@.len() as int) =~= horses@);
    }
    SelectionBatch { picks, collision: false }
}

/// The sampler. Given the target count, the entity list and its precomputed
/// cumulative distribution: returns the whole list verbatim when `n` covers
/// it (no randomness involved); an empty batch when the total weight is
/// zero; and otherwise the batch selected by `n` fresh uniform draws,
/// sorted and mapped onto the distribution in one pass.
pub fn sample_batch(n: usize, horses: &Vec<Horse>, cum: &Vec<u64>) -> (batch: SelectionBatch)
    requires
        all_valid(horses@),
        cum@.len() == horses@.len(),
        forall|i: int| 0 <= i < cum@.len() ==> #[trigger] cum@[i] == cumulative_at(horses@, i),
    ensures
        n >= horses@.len() ==> batch.picks@ == horses@ && !batch.collision,
        n < horses@.len() && total_weight(horses@) == 0 ==> batch.picks@ == Seq::<Horse>::empty()
            && !batch.collision,
        n < horses@.len() && total_weight(horses@) > 0 ==> batch.picks@.len() == n,
        n < horses@.len() && total_weight(horses@) > 0 ==> exists|draws: Seq<u64>|
            #[trigger] batch_from_draws(horses@, cum@, draws, n as int, batch),
{
    if n >= horses.len() {
        return verbatim_batch(horses);
    }
    let total: u64 = cum[cum.len() - 1];
    proof {
        assert(horses@.take(horses@.len() - 1 + 1) =~= horses@);
        assert(total == total_weight(horses@));
    }
    if total == 0 {
        return SelectionBatch { picks: Vec::new(), collision: false };
    }
    let mut draws: Vec<u64> = draw_uniforms(n, total);
    let ghost fresh = draws@;
    sort_draws(&mut draws);
    proof {
        broadcast use vstd::seq_lib::group_to_multiset_ensures;

        assert forall|k: int| 0 <= k < draws@.len() implies #[trigger] draws@[k] < cum@.last() by {
            assert(draws@.contains(draws@[k]));
            assert(fresh.to_multiset().count(draws@[k]) > 0);
            assert(fresh.contains(draws@[k]));
            let w = choose|w: int| 0 <= w < fresh.len() && fresh[w] == draws@[k];
            assert(fresh[w] < total);
        }
        assert forall|i: int, j: int| 0 <= i <= j < cum@.len() implies cum@[i] <= cum@[j] by {
            lemma_cumulative_monotone(horses@, i, j);
        }
    }
    let batch = place_draws(horses, cum, &draws);
    proof {
        assert(batch_from_draws(horses@, cum@, draws@, n as int, batch));
    }
    batch
}

/// One whole selection round: builds the cumulative distribution from the
/// entities' odds and samples a batch of `min(n, len)` entities from it.
pub fn random_select(n: usize, horses: &Vec<Horse>) -> (batch: SelectionBatch)
    requires
        all_valid(horses@),
        horses@.len() <= MAX_HORSES,
    ensures
        n >= horses@.len() ==> batch.picks@ == horses@ && !batch.collision,
        n < horses@.len() && total_weight(horses@) == 0 ==> batch.picks@ == Seq::<Horse>::empty()
            && !batch.collision,
        n < horses@.len() && total_weight(horses@) > 0 ==> batch.picks@.len() == n,
        n < horses@.len() && total_weight(horses@) > 0 ==> exists|draws: Seq<u64>|
            #[trigger] batch_from_draws(horses@, cumulative_seq(horses@), draws, n as int, batch),
{
    let cum: Vec<u64> = build_cumulative(horses);
    proof {
        assert(cum@ =~= cumulative_seq(horses@));
    }
    sample_batch(n, horses, &cum)
}

} // verus!
