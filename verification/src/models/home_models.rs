//! The landing page.

use vstd::prelude::*;

verus! {

/// The landing page has no data.
#[derive(Debug)]
pub struct LandingModel {}

impl Default for LandingModel {
    fn default() -> (r: LandingModel)
        ensures
            r == (LandingModel {}),
    {
        LandingModel {}
    }
}

} // verus!
