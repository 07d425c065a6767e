//! How seeks and games are hashed: by their numbers.

use std::hash::Hasher;

use vstd::prelude::*;

verus! {

/// Hands `number` to a hasher.
///
/// This is `u32`'s own `std::hash::Hash::hash`, and nothing is claimed of it:
/// what becomes of the hasher is up to the type of the hasher, which is the
/// caller's to choose.
#[verifier::external_body]
fn feed<H: Hasher>(number: u32, state: &mut H) {
    std::hash::Hash::hash(&number, state)
}

/// Whether handing `number` to the hasher behind `state` may take it from what
/// it is at first to what it is in the end.
pub closed spec fn fed<H: Hasher>(number: u32, state: &mut H) -> bool {
    call_ensures(feed::<H>, (number, state), ())
}

/// Calls `f` once, with `number` and the hasher behind `state`.
fn call_with<H, F: Fn(u32, &mut H)>(f: F, number: u32, state: &mut H)
    requires
        forall|given: &mut H| call_requires(f, (number, given)),
    ensures
        exists|given: &mut H|
            *given == *old(state) && *final(given) == *final(state) && #[trigger] call_ensures(
                f,
                (number, given),
                (),
            ),
{
    f(number, state)
}

/// Does to a hasher what hashing `number` does to it, and nothing else.
pub(crate) fn hash_number<H: Hasher>(number: u32, state: &mut H)
    ensures
        exists|given: &mut H|
            *given == *old(state) && *final(given) == *final(state) && #[trigger] fed(
                number,
                given,
            ),
{
    call_with(feed::<H>, number, state);
    proof {
        assert forall|given: &mut H| #[trigger]
            call_ensures(feed::<H>, (number, given), ()) implies fed(number, given) by {}
    }
}

} // verus!
