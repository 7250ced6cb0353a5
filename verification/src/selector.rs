//! Uniform random selection of one instance from a matched set.

use vstd::prelude::*;

use rand::RngExt;

use crate::errors::SelectorError;
use crate::instance::AshufInfo;

verus! {

/// Relies on `rand::rng` and `rand::RngExt::random_range`: draws an index
/// below `n`.  Which index comes back is left open; only the bound holds of
/// every outcome.
#[verifier::external_body]
fn random_below(n: usize) -> (r: usize)
    requires
        n > 0,
    ensures
        r < n,
{
    let mut rng = rand::rng();
    rng.random_range(0..n)
}

/// Draws one element of `matches` uniformly at random.  Fails exactly when
/// the set is empty — a "no instance matched" outcome, distinct from every
/// fetch or cache failure.  A one-element set is always answered with that
/// element.  Selection is stateless: no prior draw influences the next.
pub fn select_one<'a>(matches: &'a Vec<AshufInfo>) -> (r: Result<&'a AshufInfo, SelectorError>)
    ensures
        r is Err <==> matches@.len() == 0,
        r is Err ==> r->Err_0 == SelectorError::EmptySet,
        r is Ok ==> exists|i: int| 0 <= i < matches@.len() && *r->Ok_0 == matches@[i],
        matches@.len() == 1 ==> r is Ok && *r->Ok_0 == matches@[0],
{
    if matches.len() == 0 {
        Err(SelectorError::EmptySet)
    } else {
        let i = random_below(matches.len());
        let inst = &matches[i];
        proof {
            assert(*inst == matches@[i as int]);
        }
        Ok(inst)
    }
}

} // verus!
