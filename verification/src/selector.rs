//! The extremum selector: the reducer that decides whether a candidate
//! distance displaces the running best.
//!
//! The first candidate of a scan is always accepted — it seeds the search —
//! and after that replacement is strict, so on an exact tie the earlier
//! candidate stays. That strictness is load-bearing: it makes the winner of
//! every scan deterministic and stable in scan order.

use vstd::prelude::*;

verus! {

/// The closed set of selectable extremum rules.
#[derive(Clone, Copy, PartialEq, Eq, Structural, Debug)]
pub enum Selector {
    Nearest,
    Farthest,
}

/// Whether a candidate strictly beats a current best under the rule:
/// strictly less for nearest-wins, strictly greater for farthest-wins.
pub open spec fn beats(sel: Selector, next: int, cur: int) -> bool {
    match sel {
        Selector::Nearest => next < cur,
        Selector::Farthest => next > cur,
    }
}

/// Whether a candidate replaces the running best: unconditionally when there
/// is none yet, otherwise only by strictly beating it.
pub open spec fn accepts(sel: Selector, best: Option<u64>, next: u64) -> bool {
    match best {
        Option::None => true,
        Option::Some(cur) => beats(sel, next as int, cur as int),
    }
}

/// Nearest-wins replacement: accept the candidate iff there is no running
/// best yet or the candidate is strictly smaller.
pub fn min_dist(best: &mut Option<u64>, next: u64) -> (accepted: bool)
    ensures
        accepted == accepts(Selector::Nearest, *old(best), next),
        accepted ==> *final(best) == Some(next),
        !accepted ==> *final(best) == *old(best),
{
    match *best {
        Option::None => {
            *best = Some(next);
            true
        },
        Option::Some(cur) => {
            if next < cur {
                *best = Some(next);
                true
            } else {
                false
            }
        },
    }
}

/// Farthest-wins replacement: accept the candidate iff there is no running
/// best yet or the candidate is strictly larger.
pub fn max_dist(best: &mut Option<u64>, next: u64) -> (accepted: bool)
    ensures
        accepted == accepts(Selector::Farthest, *old(best), next),
        accepted ==> *final(best) == Some(next),
        !accepted ==> *final(best) == *old(best),
{
    match *best {
        Option::None => {
            *best = Some(next);
            true
        },
        Option::Some(cur) => {
            if next > cur {
                *best = Some(next);
                true
            } else {
                false
            }
        },
    }
}

/// Apply the active extremum rule to one candidate, updating the running
/// best exactly when the candidate is accepted.
pub fn evaluate(sel: Selector, best: &mut Option<u64>, next: u64) -> (accepted: bool)
    ensures
        accepted == accepts(sel, *old(best), next),
        accepted ==> *final(best) == Some(next),
        !accepted ==> *final(best) == *old(best),
{
    match sel {
        Selector::Nearest => min_dist(best, next),
        Selector::Farthest => max_dist(best, next),
    }
}

} // verus!
