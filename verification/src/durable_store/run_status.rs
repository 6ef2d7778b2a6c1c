//! What the status of a workflow run can be.

use vstd::prelude::*;

verus! {

/// Run is still in progress.
pub const PENDING: &'static str = "pending";

/// Run completed successfully.
pub const SUCCESS: &'static str = "success";

/// Run terminated with an error.
pub const ERROR: &'static str = "error";

/// Run was cancelled.
pub const CANCELLED: &'static str = "cancelled";

} // verus!
