//! Random choice among candidates.

use crate::strings::strings_view;
use rand::seq::SliceRandom;
use vstd::prelude::*;

verus! {

/// Trusted: `rand::seq::SliceRandom::choose` on the thread-local generator.
/// It yields nothing for an empty list and otherwise one of the list's
/// members; which one is left open.
#[verifier::external_body]
pub(crate) fn choose_string(list: &Vec<String>) -> (r: Option<String>)
    ensures
        r is None == (list@.len() == 0),
        r is Some ==> strings_view(list@).contains(r->0@),
{
    list.choose(&mut rand::thread_rng()).cloned()
}

/// Picks one of `candidates` at random; `None` when there is none to pick.
pub fn pick(candidates: &Vec<String>) -> (r: Option<String>)
    ensures
        r is None == (candidates@.len() == 0),
        r is Some ==> strings_view(candidates@).contains(r->0@),
{
    choose_string(candidates)
}

} // verus!
