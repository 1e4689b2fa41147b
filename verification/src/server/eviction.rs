//! The choice of the leases that one round of eviction ends.
//!
//! A round ends at most `MAX_LEASE_TO_EVICT` leases. Where more are
//! expired, the ones to end are drawn at random, each draw among those not
//! yet drawn, so that no expired lease is passed over round after round:
//! a Fisher-Yates shuffle that stops after as many draws as there are
//! leases to end.

use rand::Rng;
use vstd::prelude::*;

verus! {

/// The seconds between two rounds of eviction. A round that fails is
/// reported, and the next one runs all the same.
pub const RUN_INTERVAL_SEC: u64 = 15;

/// The number of leases that one round of eviction ends at most.
pub const MAX_LEASE_TO_EVICT: usize = 50;

/// Draws an index with `rand::thread_rng().gen_range(low..high)`. The
/// generator returns a value of the half-open range and panics on an empty
/// one, which `requires` leaves out; no two draws need agree. The first
/// draw on a thread seeds the generator from the operating system and
/// panics where that fails.
#[verifier::external_body]
fn random_index(low: usize, high: usize) -> (r: usize)
    requires
        low < high,
    ensures
        low <= r < high,
{
    let mut rng = rand::thread_rng();
    rng.gen_range(low..high)
}

/// `picked[i]` is the item of `from` at place `places[i]`, and no place is
/// used twice.
pub open spec fn selects<T>(places: Seq<int>, picked: Seq<T>, from: Seq<T>) -> bool {
    &&& places.len() == picked.len()
    &&& places.no_duplicates()
    &&& forall|i: int|
        0 <= i < places.len() ==> 0 <= #[trigger] places[i] < from.len() && picked[i]
            == from[places[i]]
}

/// `picked` holds items of `from`, each place of `from` used at most once.
pub open spec fn is_selection<T>(picked: Seq<T>, from: Seq<T>) -> bool {
    exists|places: Seq<int>| selects(places, picked, from)
}

/// The smaller of two numbers.
pub open spec fn min_of(a: int, b: int) -> int {
    if a <= b {
        a
    } else {
        b
    }
}

/// Moves the candidate at index `drawn` to the end of `victims`. The last
/// candidate takes its place.
pub fn take_victim<T>(candidates: &mut Vec<T>, victims: &mut Vec<T>, drawn: usize)
    requires
        drawn < old(candidates).len(),
    ensures
        final(victims)@ == old(victims)@.push(old(candidates)@[drawn as int]),
        final(candidates)@ == old(candidates)@.update(
            drawn as int,
            old(candidates)@.last(),
        ).drop_last(),
{
    let victim = candidates.swap_remove(drawn);
    victims.push(victim);
}

/// Draws `limit` of the `candidates` at random, or all of them where there
/// are no more than `limit`.
pub fn select_victims<T>(candidates: Vec<T>, limit: usize) -> (victims: Vec<T>)
    ensures
        victims.len() == min_of(candidates.len() as int, limit as int),
        is_selection(victims@, candidates@),
{
    let ghost all = candidates@;
    let count = if candidates.len() <= limit {
        candidates.len()
    } else {
        limit
    };
    let mut remaining = candidates;
    let mut victims: Vec<T> = Vec::new();
    let ghost mut left: Seq<int> = Seq::new(all.len(), |i: int| i);
    let ghost mut taken: Seq<int> = Seq::empty();
    while victims.len() < count
        invariant
            count <= all.len(),
            victims.len() <= count,
            remaining.len() + victims.len() == all.len(),
            selects(left, remaining@, all),
            selects(taken, victims@, all),
            forall|i: int, j: int|
                0 <= i < left.len() && 0 <= j < taken.len() ==> #[trigger] left[i] != #[trigger] taken[j],
        decreases count - victims.len(),
    {
        let drawn = random_index(0, remaining.len());
        proof {
            taken = taken.push(left[drawn as int]);
            left = left.update(drawn as int, left.last()).drop_last();
        }
        take_victim(&mut remaining, &mut victims, drawn);
    }
    victims
}

/// Draws the leases that one round of eviction ends from those that are
/// `expired`: `MAX_LEASE_TO_EVICT` of them at random, or all of them where
/// there are no more.
pub fn choose_victims<T>(expired: Vec<T>) -> (victims: Vec<T>)
    ensures
        victims.len() == min_of(expired.len() as int, MAX_LEASE_TO_EVICT as int),
        is_selection(victims@, expired@),
{
    select_victims(expired, MAX_LEASE_TO_EVICT)
}

} // verus!
