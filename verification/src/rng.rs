//! Random draws, from the `rand` crate's thread-local generator.
//!
//! What a draw returns depends on chance alone, so each contract says only
//! what holds of every outcome; the callers take the drawn value from here
//! and hand it to a verified function that decides the reply.

use vstd::prelude::*;
use rand::Rng;

verus! {

/// `rand::thread_rng().choose(items)`: `None` for an empty slice, otherwise
/// `Some` of an element of the slice (rand draws its index with
/// `gen_range(0, items.len())`). Which element comes out is not stated.
/// `thread_rng` panics when the system has no entropy at all; that case is
/// not excluded here.
#[verifier::external_body]
pub(crate) fn random_choice<T>(items: &[T]) -> (r: Option<&T>)
    ensures
        items@.len() == 0 <==> r is None,
        r matches Some(x) ==> items@.contains(*x),
{
    rand::thread_rng().choose(items)
}

/// `rand::thread_rng().gen::<u8>()`: any byte at all.
#[verifier::external_body]
pub(crate) fn random_u8() -> (r: u8) {
    rand::thread_rng().gen::<u8>()
}

/// `rand::thread_rng().gen_range(low, high)`: a number in `low..high`
/// (rand asserts `low < high`, hence the `requires`; its sample is
/// `low + v % (high - low)` in wrapping arithmetic, which stays in the range).
#[verifier::external_body]
pub(crate) fn random_range(low: isize, high: isize) -> (r: isize)
    requires
        low < high,
    ensures
        low <= r < high,
{
    rand::thread_rng().gen_range(low, high)
}

/// `v` is a value that `random_range(low, high)` can return: only a call of
/// the draw shows this of a value, so a result stated through it is the
/// outcome of an actual draw, not a value picked some other way.
pub closed spec fn drawn_range(low: isize, high: isize, v: isize) -> bool {
    call_ensures(random_range, (low, high), v)
}

/// `picked` is what `random_choice` can return for a slice holding `items`
/// (with the reference it returns followed).
pub closed spec fn drawn_from<T>(items: Seq<T>, picked: Option<T>) -> bool {
    exists|s: &[T], p: Option<&T>|
        #![trigger call_ensures(random_choice::<T>, (s,), p)]
        s@ == items && call_ensures(random_choice::<T>, (s,), p) && match p {
            Some(x) => picked == Some(*x),
            None => picked is None,
        }
}

/// `n` is a byte that `random_u8` can return.
pub closed spec fn drawn_byte(n: u8) -> bool {
    call_ensures(random_u8, (), n)
}

/// What a call of `random_u8` returned is drawn.
pub(crate) proof fn lemma_drawn_byte_intro(n: u8)
    requires
        call_ensures(random_u8, (), n),
    ensures
        drawn_byte(n),
{
}

/// What a call of `random_range` returned is drawn.
pub(crate) proof fn lemma_drawn_range_intro(low: isize, high: isize, v: isize)
    requires
        call_ensures(random_range, (low, high), v),
    ensures
        drawn_range(low, high, v),
{
}

/// What a call of `random_choice` returned is drawn.
pub(crate) proof fn lemma_drawn_from_intro<T>(s: &[T], p: Option<&T>)
    requires
        call_ensures(random_choice::<T>, (s,), p),
    ensures
        drawn_from(
            s@,
            match p {
                Some(x) => Some(*x),
                None => None,
            },
        ),
{
}

/// A drawn number lies in `low..high`.
pub proof fn law_drawn_in_range(low: isize, high: isize, v: isize)
    requires
        drawn_range(low, high, v),
    ensures
        low <= v < high,
{
}

/// A drawn item is one of the items, and an item is drawn from any
/// nonempty list.
pub proof fn law_drawn_from_items<T>(items: Seq<T>, picked: Option<T>)
    requires
        drawn_from(items, picked),
    ensures
        items.len() == 0 <==> picked is None,
        picked matches Some(x) ==> items.contains(x),
{
    let (s, p) = choose|s: &[T], p: Option<&T>|
        #![trigger call_ensures(random_choice::<T>, (s,), p)]
        s@ == items && call_ensures(random_choice::<T>, (s,), p) && match p {
            Some(x) => picked == Some(*x),
            None => picked is None,
        };
    if let Some(x) = p {
        let k = choose|k: int| 0 <= k < s@.len() && s@[k] == *x;
        assert(items[k] == *x);
    }
}

} // verus!
