//! What the outcome of a committed step can be.

use vstd::prelude::*;

verus! {

/// Step committed successfully.
pub const SUCCESS: &'static str = "success";

/// Step committed with an error (terminal - see PRIOR_ERROR).
pub const ERROR: &'static str = "error";

} // verus!
