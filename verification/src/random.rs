//! The random choices of the library, drawn through the `rand` crate.
//!
//! Nothing in this module is proved: each function states what `rand` documents of every
//! outcome of the call it makes, and the rest of the library is verified against that.
use rand::rngs::SmallRng;
use rand::seq::SliceRandom;
use rand::Rng;
use vstd::prelude::*;

verus! {

/// Trusted: the generator type `SmallRng` of rand. The library hands it on to the calls
/// below and never looks inside.
#[verifier::external_type_specification]
#[verifier::external_body]
pub struct ExSmallRng(SmallRng);

/// Trusted: `gen_range` of rand's `Rng`, called on rand's thread-local generator with the
/// half-open range from `low` to `high`. rand panics on an empty range, which `requires`
/// leaves out, and draws from the range it is given; which of its values, no contract can
/// say.
#[verifier::external_body]
pub(crate) fn random_index(low: i32, high: i32) -> (i: i32)
    requires
        low < high,
    ensures
        low <= i < high,
{
    rand::thread_rng().gen_range(low..high)
}

/// Trusted: `gen_ratio` of rand's `Rng` with the ratio one in two, a fair coin. Nothing
/// is promised of the result.
#[verifier::external_body]
pub(crate) fn flip_coin(rng: &mut SmallRng) -> (heads: bool) {
    rng.gen_ratio(1, 2)
}

/// Trusted: `choose` of rand's `SliceRandom`. rand returns `None` for an empty slice and
/// else a reference to one of the slice's elements; which of them, no contract can say.
#[verifier::external_body]
pub(crate) fn choose_one<'a, T>(items: &'a Vec<T>, rng: &mut SmallRng) -> (picked: Option<&'a T>)
    ensures
        picked is None <==> items@.len() == 0,
        picked matches Some(one) ==> exists|i: int|
            0 <= i < items@.len() && *one == #[trigger] items@[i],
{
    items.choose(rng)
}

} // verus!
