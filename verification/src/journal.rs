//! The `workflow_journal` role: runs, their checkpoints and their events.
//!
//! A backend stores the state of a run as it gets it, beside a few fields that
//! it can search.

use vstd::prelude::*;

use crate::rpc::RpcCode;
use crate::time::Timestamp;

verus! {

/// Plugin kind of the backends.
pub const PLUGIN_KIND_WORKFLOW_JOURNAL: &'static str = "workflow_journal";

/// Stores the state of a run, new or known.
pub const METHOD_JOURNAL_SAVE: &'static str = "journal/save";

/// Gives one run.
pub const METHOD_JOURNAL_LOAD: &'static str = "journal/load";

/// Gives the runs that a query matches.
pub const METHOD_JOURNAL_LIST: &'static str = "journal/list";

/// Gives the ids of the runs that a query matches.
pub const METHOD_JOURNAL_QUERY_IDS: &'static str = "journal/query_ids";

/// Deletes a run with its checkpoints and events.
pub const METHOD_JOURNAL_DELETE: &'static str = "journal/delete";

/// Stores a checkpoint of a run.
pub const METHOD_JOURNAL_CHECKPOINT_SAVE: &'static str = "journal/checkpoint_save";

/// Gives one checkpoint of a run.
pub const METHOD_JOURNAL_CHECKPOINT_LOAD: &'static str = "journal/checkpoint_load";

/// Gives the numbers of the checkpoints of a run.
pub const METHOD_JOURNAL_CHECKPOINT_LIST: &'static str = "journal/checkpoint_list";

/// Keeps the latest checkpoints of a run alone.
pub const METHOD_JOURNAL_CHECKPOINT_PRUNE: &'static str = "journal/checkpoint_prune";

/// Appends an event.
pub const METHOD_JOURNAL_RECORD: &'static str = "journal/record";

/// Gives the events that a query matches.
pub const METHOD_JOURNAL_EVENTS: &'static str = "journal/events";

/// Gives what the backend is capable of.
pub const METHOD_JOURNAL_SCHEMA: &'static str = "journal/schema";

/// One persisted workflow run: an opaque state `blob` plus indexed summary
/// fields the backend stores in queryable columns.
#[derive(Debug, Clone)]
pub struct JournalRun {
    /// Unique workflow run id.
    pub workflow_id: String,
    /// The workflow definition this run is an instance of.
    pub workflow_ref: Option<String>,
    /// Run status.
    pub status: String,
    /// Optional workflow kind.
    pub kind: Option<String>,
    /// The opaque serialized run state.
    pub blob: serde_json::Value,
    /// When the run was made.
    pub created_at: Option<Timestamp>,
    /// When the run was last stored.
    pub updated_at: Option<Timestamp>,
}

/// Params for [`METHOD_JOURNAL_SAVE`].
#[derive(Debug, Clone)]
pub struct SaveParams {
    /// Run.
    pub run: JournalRun,
}

/// Params for [`METHOD_JOURNAL_LOAD`] / [`METHOD_JOURNAL_DELETE`].
#[derive(Debug, Clone)]
pub struct WorkflowIdParams {
    /// Run.
    pub workflow_id: String,
}

/// Result of [`METHOD_JOURNAL_LOAD`]: the run, or `None` if absent.
#[derive(Debug, Clone)]
pub struct LoadResult {
    /// Run.
    pub run: Option<JournalRun>,
}

/// Filter for [`METHOD_JOURNAL_LIST`] / [`METHOD_JOURNAL_QUERY_IDS`].
#[derive(Debug, Clone)]
pub struct JournalQuery {
    /// Restrict to these statuses (any-of).
    pub status: Vec<String>,
    /// Restrict to one workflow definition.
    pub workflow_ref: Option<String>,
    /// Only runs updated at/after this instant.
    pub updated_since: Option<Timestamp>,
    /// Max rows to return.
    pub limit: Option<u32>,
}

impl Default for JournalQuery {
    fn default() -> (r: Self)
        ensures
            r.status@.len() == 0,
            r.workflow_ref is None,
            r.updated_since is None,
            r.limit is None,
    {
        JournalQuery {
            status: Vec::new(),
            workflow_ref: None,
            updated_since: None,
            limit: None,
        }
    }
}

/// Result of [`METHOD_JOURNAL_LIST`].
#[derive(Debug, Clone)]
pub struct ListResult {
    /// The runs.
    pub runs: Vec<JournalRun>,
    /// True when the result was capped below the full match set.
    pub truncated: bool,
}

/// Result of [`METHOD_JOURNAL_QUERY_IDS`].
#[derive(Debug, Clone)]
pub struct QueryIdsResult {
    /// The ids.
    pub ids: Vec<String>,
    /// Whether some matches were left out.
    pub truncated: bool,
}

/// Params for [`METHOD_JOURNAL_CHECKPOINT_SAVE`].
#[derive(Debug, Clone)]
pub struct CheckpointSaveParams {
    /// Run.
    pub workflow_id: String,
    /// Number of the checkpoint.
    pub checkpoint_num: u32,
    /// The state.
    pub blob: serde_json::Value,
}

/// Params for [`METHOD_JOURNAL_CHECKPOINT_LOAD`].
#[derive(Debug, Clone)]
pub struct CheckpointLoadParams {
    /// Run.
    pub workflow_id: String,
    /// Number of the checkpoint.
    pub checkpoint_num: u32,
}

/// Result of [`METHOD_JOURNAL_CHECKPOINT_LOAD`].
#[derive(Debug, Clone)]
pub struct CheckpointLoadResult {
    /// The state.
    pub blob: Option<serde_json::Value>,
}

/// Result of [`METHOD_JOURNAL_CHECKPOINT_LIST`].
#[derive(Debug, Clone)]
pub struct CheckpointListResult {
    /// The numbers.
    pub checkpoint_nums: Vec<u32>,
}

/// Params for [`METHOD_JOURNAL_CHECKPOINT_PRUNE`]: keep the most recent
/// `keep`.
#[derive(Debug, Clone)]
pub struct CheckpointPruneParams {
    /// Run.
    pub workflow_id: String,
    /// How many to keep.
    pub keep: u32,
}

/// A workflow lifecycle event recorded into the journal.
#[derive(Debug, Clone)]
pub struct JournalEvent {
    /// The run this event belongs to (the workflow id).
    pub run_id: String,
    /// Workflow definition of the run.
    pub workflow_ref: Option<String>,
    /// What happened.
    pub kind: JournalEventKind,
    /// Phase name, for phase-scoped events.
    pub phase: Option<String>,
    /// Agent/tool, for phase-scoped events.
    pub agent: Option<String>,
    /// Phase/run outcome, when terminal.
    pub status: Option<String>,
    /// When it happened.
    pub ts: Timestamp,
    /// Arbitrary structured detail (timings, error message, decision, ...).
    pub detail: serde_json::Value,
}

/// What happened.
#[derive(Debug, Clone, Copy, PartialEq, Eq, Structural)]
pub enum JournalEventKind {
    /// A run started.
    RunStarted,
    /// A phase started.
    PhaseStarted,
    /// A phase ended.
    PhaseCompleted,
    /// A run ended.
    RunCompleted,
    /// A run failed.
    RunFailed,
}

/// Params for [`METHOD_JOURNAL_RECORD`].
#[derive(Debug, Clone)]
pub struct RecordParams {
    /// The event.
    pub event: JournalEvent,
}

/// Filter for [`METHOD_JOURNAL_EVENTS`].
#[derive(Debug, Clone)]
pub struct EventQuery {
    /// Restrict to one run.
    pub run_id: Option<String>,
    /// Only events from this instant on.
    pub since: Option<Timestamp>,
    /// How many events at most.
    pub limit: Option<u32>,
}

impl Default for EventQuery {
    fn default() -> (r: Self)
        ensures
            r.run_id is None,
            r.since is None,
            r.limit is None,
    {
        EventQuery {
            run_id: None,
            since: None,
            limit: None,
        }
    }
}

/// Result of [`METHOD_JOURNAL_EVENTS`].
#[derive(Debug, Clone)]
pub struct EventsResult {
    /// The events.
    pub events: Vec<JournalEvent>,
    /// Whether some matches were left out.
    pub truncated: bool,
}

/// Capability declaration returned by [`METHOD_JOURNAL_SCHEMA`].
#[derive(Debug, Clone)]
pub struct JournalSchema {
    /// Whether it stores checkpoints.
    pub supports_checkpoints: bool,
    /// Whether it stores events.
    pub supports_events: bool,
    /// True if `journal/list` honors the `status`/`workflow_ref` filters
    /// server-side (vs. the kernel filtering client-side).
    pub supports_filtering: bool,
}

/// A backend error surfaced over RPC.
#[derive(Debug, Clone)]
pub enum JournalError {
    /// There is no such run.
    NotFound(String),
    /// The backend does not offer the method.
    MethodNotSupported(String),
    /// The backend failed.
    Internal(String),
}

impl JournalError {
    /// The error as one line of text.
    pub open spec fn text(self) -> Seq<char> {
        match self {
            JournalError::NotFound(detail) => "workflow run not found: "@ + detail@,
            JournalError::MethodNotSupported(detail) => "journal backend method not supported: "@
                + detail@,
            JournalError::Internal(detail) => "journal backend internal error: "@ + detail@,
        }
    }

    /// The error as one line of text.
    pub fn message(&self) -> (r: String)
        ensures
            r@ == self.text(),
    {
        let mut out = String::new();
        match self {
            JournalError::NotFound(detail) => {
                out.append("workflow run not found: ");
                out.append(detail.as_str());
            },
            JournalError::MethodNotSupported(detail) => {
                out.append("journal backend method not supported: ");
                out.append(detail.as_str());
            },
            JournalError::Internal(detail) => {
                out.append("journal backend internal error: ");
                out.append(detail.as_str());
            },
        }
        proof {
            assert(out@ =~= self.text());
        }
        out
    }

    /// The code of an answer with this error.
    pub open spec fn answer_code(self) -> RpcCode {
        match self {
            JournalError::NotFound(_) => RpcCode::InvalidParams,
            JournalError::MethodNotSupported(_) => RpcCode::MethodNotSupported,
            JournalError::Internal(_) => RpcCode::InternalError,
        }
    }

    /// The code of an answer with this error.
    #[must_use]
    pub fn code(&self) -> (r: RpcCode)
        ensures
            r == match self {
                JournalError::NotFound(_) => RpcCode::InvalidParams,
                JournalError::MethodNotSupported(_) => RpcCode::MethodNotSupported,
                JournalError::Internal(_) => RpcCode::InternalError,
            },
            r == self.answer_code(),
    {
        match self {
            JournalError::NotFound(_) => RpcCode::InvalidParams,
            JournalError::MethodNotSupported(_) => RpcCode::MethodNotSupported,
            JournalError::Internal(_) => RpcCode::InternalError,
        }
    }
}

/// A run that is not there is the caller's mistake; a method that is not offered
/// and a failure are told apart from it by their codes. The text ends with what the
/// error was given to say.
pub proof fn journal_errors_tell_whose_fault_it_is(error: JournalError)
    ensures
        error is NotFound <==> error.answer_code() == RpcCode::InvalidParams,
        error is MethodNotSupported <==> error.answer_code() == RpcCode::MethodNotSupported,
        error is Internal <==> error.answer_code() == RpcCode::InternalError,
        error matches JournalError::NotFound(detail) ==> error.text() == "workflow run not found: "@
            + detail@,
        error matches JournalError::MethodNotSupported(detail) ==> error.text()
            == "journal backend method not supported: "@ + detail@,
        error matches JournalError::Internal(detail) ==> error.text()
            == "journal backend internal error: "@ + detail@,
{
}

} // verus!
