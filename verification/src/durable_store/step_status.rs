//! What the answer to the reservation of a step can be.

use vstd::prelude::*;

verus! {

/// First time the plugin has seen this idempotency_key.
pub const NEW: &'static str = "new";

/// Another caller has an outstanding reservation for this idempotency_key
/// with an unexpired lease.
pub const IN_PROGRESS: &'static str = "in_progress";

/// Step was previously committed successfully.
pub const ALREADY_COMMITTED: &'static str = "already_committed";

/// Step was previously committed with an error.
pub const PRIOR_ERROR: &'static str = "prior_error";

} // verus!
