//! The local-filesystem provider.
//!
//! The provider itself is stateless; it opens what it needs per call.
//! Directory walks and file reads are I/O and live with the program
//! around the library, which feeds the resulting bytes to the archive
//! operations of the parent module.

use vstd::prelude::*;

verus! {

/// The stateless local-filesystem provider.
pub struct LocalFs {}

impl LocalFs {
    /// A fresh provider; it holds nothing.
    pub fn new() -> LocalFs {
        LocalFs {  }
    }
}

} // verus!
