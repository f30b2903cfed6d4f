use rand::seq::IteratorRandom;
use rand::Rng;
use std::collections::HashSet;
use vstd::prelude::*;

verus! {

/// A number drawn at random from `low` up to, not including, `high`.
///
/// Trusted: calls `rand::Rng::gen_range` on the thread's generator with the
/// range `low..high`. It panics on an empty range, which `requires` leaves
/// out; whatever it draws lies in the range.
#[verifier::external_body]
pub(crate) fn draw_in_range(low: i64, high: i64) -> (drawn: i64)
    requires
        low < high,
    ensures
        low <= drawn < high,
{
    rand::thread_rng().gen_range(low..high)
}

/// Up to `amount` members of `ids`, drawn at random, each at most once.
///
/// Trusted: calls `rand::seq::IteratorRandom::choose_multiple` on the members
/// of `ids`. It fills a reservoir from distinct places of the iteration, so no
/// member comes twice, and it hands back `amount` of them unless `ids` holds
/// fewer, in which case it hands back all.
#[verifier::external_body]
pub(crate) fn draw_some(ids: &HashSet<i32>, amount: usize) -> (picked: Vec<i32>)
    requires
        amount <= 0xffff,
    ensures
        picked@.no_duplicates(),
        forall|i: int| 0 <= i < picked@.len() ==> ids@.contains(#[trigger] picked@[i]),
        picked@.len() == if amount <= ids@.len() {
            amount as nat
        } else {
            ids@.len()
        },
{
    ids.iter().cloned().choose_multiple(&mut rand::thread_rng(), amount)
}

/// One member of `ids`, drawn at random; `None` if and only if `ids` is empty.
///
/// Trusted: calls `rand::seq::IteratorRandom::choose` on the members of `ids`.
#[verifier::external_body]
pub(crate) fn draw_one(ids: &HashSet<i32>) -> (picked: Option<i32>)
    ensures
        picked is None <==> ids@.len() == 0,
        picked matches Some(id) ==> ids@.contains(id),
{
    ids.iter().cloned().choose(&mut rand::thread_rng())
}

} // verus!
