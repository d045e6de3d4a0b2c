//! The crate version.

use vstd::prelude::*;

verus! {

/// The crate version, as sent in the `User-Agent` header.
pub const VERSION: &'static str = "0.1.0";

} // verus!
