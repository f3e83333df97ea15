//! The host side of the source contract. The host hands each source its
//! cache directory, configuration and user agent; the empty host is the
//! placeholder a source holds before it is configured.

use vstd::prelude::*;

verus! {

/// The placeholder host a source starts with, before a real host is set.
#[derive(PartialEq, Eq, Structural, Copy, Clone, Debug)]
pub struct EmptyFpmHost;

impl EmptyFpmHost {
    pub fn new() -> (r: Self)
        ensures
            r == (EmptyFpmHost {  }),
    {
        EmptyFpmHost {  }
    }
}

} // verus!
