use vstd::prelude::*;

verus! {

/// The configuration that is made once and shared, read-only, by all requests.
pub trait ApplicationContextTrait {

}

} // verus!
