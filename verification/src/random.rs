//! Chance: fresh cards, and the order in which events are tried.

use rand::seq::SliceRandom;
use rand::Rng;
use vstd::prelude::*;
use crate::event::Event;

verus! {

/// Calls `rand::Rng::gen_ratio` on the generator of the current thread. The
/// result is true with `numerator` chances in `denominator`; all that is
/// claimed of it here is what holds at the two ends of the scale, where the
/// outcome is certain. The call panics on a ratio above one or a zero
/// denominator, which the precondition excludes.
#[verifier::external_body]
fn random_ratio(numerator: u32, denominator: u32) -> (hit: bool)
    requires
        0 < denominator,
        numerator <= denominator,
    ensures
        numerator == denominator ==> hit,
        numerator == 0 ==> !hit,
{
    rand::thread_rng().gen_ratio(numerator, denominator)
}

/// Calls `rand::Rng::gen_range` on the generator of the current thread with
/// the range from `low` to `high`, both included. The result lies in that
/// range. The call panics on an empty range, which the precondition
/// excludes.
#[verifier::external_body]
fn random_in(low: usize, high: usize) -> (n: usize)
    requires
        low <= high,
    ensures
        low <= n <= high,
{
    rand::thread_rng().gen_range(low..=high)
}

/// Calls `rand::seq::SliceRandom::shuffle` with the generator of the current
/// thread. The call exchanges items of the slice in place, so the events are
/// the same afterwards, each as often as before, in some order.
#[verifier::external_body]
pub(crate) fn shuffle_events(events: &mut Vec<Event>)
    ensures
        final(events)@.to_multiset() == old(events)@.to_multiset(),
{
    events.shuffle(&mut rand::thread_rng());
}

/// The card that comes of one throw: the card 0 that does nothing where
/// `skip` came up, else the card `id`.
pub fn card_for(skip: bool, id: usize) -> (card: usize)
    ensures
        card == if skip {
            0
        } else {
            id
        },
{
    if skip {
        0
    } else {
        id
    }
}

/// A fresh hand of `len` cards. Each card is, with even chances, the card 0
/// that does nothing, or else any of the cards 1 to 10.
pub fn generate_cards(len: usize) -> (cards: Vec<usize>)
    ensures
        cards@.len() == len,
        forall|i: int| 0 <= i < len ==> #[trigger] cards@[i] <= 10,
{
    let mut cards: Vec<usize> = Vec::new();
    let mut i: usize = 0;
    while i < len
        invariant
            i <= len,
            cards@.len() == i,
            forall|k: int| 0 <= k < i ==> #[trigger] cards@[k] <= 10,
        decreases len - i,
    {
        let skip = random_ratio(1, 2);
        let id = if skip {
            0
        } else {
            random_in(1, 10)
        };
        cards.push(card_for(skip, id));
        i += 1;
    }
    cards
}

} // verus!
