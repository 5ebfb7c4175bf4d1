//! The empty contract that a fresh deployment starts from.

use vstd::prelude::*;

verus! {

/// A contract without state.
#[derive(Clone, Copy, Debug, PartialEq, Eq, Structural)]
pub struct Contract {}

impl Contract {
    /// The contract without state.
    pub fn new() -> (r: Contract)
        ensures
            r == (Contract {  }),
    {
        Contract {  }
    }
}

impl Default for Contract {
    fn default() -> (r: Contract)
        ensures
            r == (Contract {  }),
    {
        Contract {  }
    }
}

} // verus!
