//! The `environment` role: contexts that commands and sessions run in.
//!
//! A plugin prepares a context, runs commands in it and disposes of it.

use vstd::prelude::*;

use crate::execution::{fence_problem, first_problem, reports, ExecutionFence};
use crate::json::{
    json_content, json_members, make_value, new_members, put_member, JsonContent, JsonParts,
};
use crate::text::{chars_of, ends_with, has_suffix, opt_text, same_text};
use crate::text_map::TextMap;

verus! {

// ---------------------------------------------------------------------
// Methods
// ---------------------------------------------------------------------

/// `environment/prepare` - materialize an execution context from an
/// [`EnvironmentSpec`] and return an [`EnvironmentHandle`].
pub const METHOD_ENVIRONMENT_PREPARE: &'static str = "environment/prepare";

/// `environment/exec` - run a [`HarnessCommand`] inside a prepared context
/// and return its buffered [`ExecResponse`].
pub const METHOD_ENVIRONMENT_EXEC: &'static str = "environment/exec";

/// `environment/exec_stream` - like [`METHOD_ENVIRONMENT_EXEC`], but the
/// plugin emits incremental [`NOTIFICATION_ENVIRONMENT_OUTPUT`] notifications
/// for stdout/stderr as they are produced and then returns the aggregated
/// [`ExecResponse`] as the final reply.
pub const METHOD_ENVIRONMENT_EXEC_STREAM: &'static str = "environment/exec_stream";

/// `environment/exec_session` - dispatch a subject to the environment's own
/// animus: the plugin hands the subject to the node's
/// in-container animus, which runs the workflow through its own
/// provider/session layer and streams rich
/// [`NOTIFICATION_ENVIRONMENT_JOURNAL`] events back; the final reply is an
/// [`ExecSessionResponse`].
pub const METHOD_ENVIRONMENT_EXEC_SESSION: &'static str = "environment/exec_session";

/// `environment/teardown` - dispose of a prepared context by handle.
pub const METHOD_ENVIRONMENT_TEARDOWN: &'static str = "environment/teardown";

/// `environment/list` - list every managed node (instance) the plugin owns,
/// each an [`EnvironmentNode`].
pub const METHOD_ENVIRONMENT_LIST: &'static str = "environment/list";

/// `environment/get` - describe one managed node by substrate id or name.
pub const METHOD_ENVIRONMENT_GET: &'static str = "environment/get";

/// `environment/teardown_node` - destroy one managed node by substrate id or
/// name.
pub const METHOD_ENVIRONMENT_TEARDOWN_NODE: &'static str = "environment/teardown_node";

/// `environment/reap` - destroy orphaned/dead managed nodes (see
/// [`ReapRequest`]).
pub const METHOD_ENVIRONMENT_REAP: &'static str = "environment/reap";

/// `environment/output` - server-streaming notification carrying an
/// [`ExecNotification`] for an in-flight [`METHOD_ENVIRONMENT_EXEC_STREAM`]
/// call.
pub const NOTIFICATION_ENVIRONMENT_OUTPUT: &'static str = "environment/output";

/// `environment/journal` - server-streaming notification carrying a journal
/// event from an in-flight [`METHOD_ENVIRONMENT_EXEC_SESSION`] call (the
/// node's own workflow journal, forwarded verbatim).
pub const NOTIFICATION_ENVIRONMENT_JOURNAL: &'static str = "environment/journal";
// ---------------------------------------------------------------------
// Messages
// ---------------------------------------------------------------------

/// A single repository in an environment's workspace (repo set).
#[derive(Debug, Clone, PartialEq, Eq)]
pub struct RepoRef {
    /// Clone URL or local path for the repository.
    pub url: String,
    /// Subdirectory name to check the repo out under, relative to
    /// `workspace_root`.
    pub name: Option<String>,
    /// Git ref (branch, tag, or commit) to check out.
    pub git_ref: Option<String>,
    /// True when this repo is the primary workspace repo (the one a
    /// single-repo subject maps to, and the default `cwd` for
    /// [`HarnessCommand`]).
    pub primary: bool,
}

/// Declarative description of the execution context to materialize.
#[derive(Debug, Clone, PartialEq)]
pub struct EnvironmentSpec {
    /// Environment plugin id that should service this spec (the plugin's
    /// declared environment kind).
    pub kind: String,
    /// The repo set / workspace to materialize.
    pub repos: Vec<RepoRef>,
    /// Container/VM image reference for image-based environments (Docker tag,
    /// OCI ref, AMI id, ...).
    pub image: Option<String>,
    /// Resource requests/limits for the environment (cpu, memory, disk,
    /// timeout, region, ...).
    pub resources: Option<serde_json::Value>,
    /// Environment variables to inject into every command run in this
    /// context.
    pub env: TextMap<String>,
    /// Free-form plugin-specific metadata (labels, base_ref, network mode,
    /// mounts, ...).
    pub metadata: serde_json::Value,
}

/// Request payload for [`METHOD_ENVIRONMENT_PREPARE`].
#[derive(Debug, Clone, PartialEq)]
pub struct PrepareRequest {
    /// The environment to materialize.
    pub spec: EnvironmentSpec,
}

/// Response payload for [`METHOD_ENVIRONMENT_PREPARE`].
#[derive(Debug, Clone, PartialEq)]
pub struct PrepareResponse {
    /// Handle to the materialized context, used for subsequent `exec` and
    /// `teardown` calls.
    pub handle: EnvironmentHandle,
}

/// Handle to a prepared execution context.
#[derive(Debug, Clone, PartialEq, Eq)]
pub struct EnvironmentHandle {
    /// Opaque, plugin-assigned identifier for this prepared context.
    pub id: String,
    /// Absolute path to the root of the materialized workspace.
    pub workspace_root: String,
    /// Free-form plugin-specific metadata about the prepared context
    /// (container id, remote host, allocated ports, ...).
    pub metadata: serde_json::Value,
}

/// A command to run inside a prepared environment.
#[derive(Debug, Clone, PartialEq, Eq)]
pub struct HarnessCommand {
    /// Executable to run (looked up on the environment's `PATH` unless
    /// absolute).
    pub program: String,
    /// Arguments passed to `program`, not including `argv[0]`.
    pub args: Vec<String>,
    /// Extra environment variables for this command, merged over (and
    /// overriding) `env`.
    pub env: TextMap<String>,
    /// Working directory for the command, relative to `workspace_root`.
    pub cwd: Option<String>,
}

/// Request payload for [`METHOD_ENVIRONMENT_EXEC`] and
/// [`METHOD_ENVIRONMENT_EXEC_STREAM`].
#[derive(Debug, Clone, PartialEq, Eq)]
pub struct ExecRequest {
    /// The prepared context to run in.
    pub handle: EnvironmentHandle,
    /// The command to run.
    pub command: HarnessCommand,
    /// Bytes to feed to the command's stdin, up front, as a UTF-8 string.
    pub stdin: Option<String>,
    /// Hard wall-clock timeout in seconds.
    pub timeout_secs: Option<u64>,
}

/// Response payload for [`METHOD_ENVIRONMENT_EXEC`] /
/// [`METHOD_ENVIRONMENT_EXEC_STREAM`].
#[derive(Debug, Clone, PartialEq, Eq)]
pub struct ExecResponse {
    /// Process exit code.
    pub exit_code: Option<i32>,
    /// Aggregated stdout captured from the command.
    pub stdout: String,
    /// Aggregated stderr captured from the command.
    pub stderr: String,
    /// True when the command was killed because it exceeded `timeout_secs`.
    pub timed_out: bool,
}

/// Request payload for [`METHOD_ENVIRONMENT_EXEC_SESSION`] - dispatch a
/// subject to the environment's own animus.
#[derive(Debug, Clone, PartialEq, Eq)]
pub struct ExecSessionRequest {
    /// The prepared context (whose in-container animus runs the subject).
    pub handle: EnvironmentHandle,
    /// The subject to dispatch, qualified `kind:id`.
    pub subject_id: String,
    /// Workflow to run the subject through.
    pub workflow_ref: Option<String>,
    /// Optional dispatch input forwarded to the node's run.
    pub dispatch_input: Option<String>,
    /// The delegating run's workflow id.
    pub workflow_id: Option<String>,
    /// Exact workflow/subject/queue generation authority delegated to the
    /// remote node.
    pub execution_fence: Option<ExecutionFence>,
}

/// Response payload for [`METHOD_ENVIRONMENT_EXEC_SESSION`]: the node-local
/// run id the dispatch spawned and its terminal status.
#[derive(Debug, Clone, PartialEq, Eq)]
pub struct ExecSessionResponse {
    /// The node-local workflow run id, when one was spawned.
    pub workflow_id: Option<String>,
    /// Echo of the generation fence validated by the node.
    pub execution_fence: Option<ExecutionFence>,
    /// Terminal status of the node-local run.
    pub status: String,
}

/// Which output stream an [`ExecNotification`] delta belongs to.
#[derive(Debug, Clone, Copy, PartialEq, Eq, Structural)]
pub enum ExecStream {
    /// Standard output.
    Stdout,
    /// Standard error.
    Stderr,
}

/// A streaming notification an environment plugin emits mid-exec during a
/// [`METHOD_ENVIRONMENT_EXEC_STREAM`] call.
#[derive(Debug, Clone, PartialEq, Eq)]
pub enum ExecNotification {
    /// Incremental stdout/stderr the command has produced.
    Output {
        /// Handle id of the environment this exec runs in.
        handle_id: String,
        /// Which stream this delta belongs to.
        stream: ExecStream,
        /// The output delta (UTF-8).
        text: String,
    },
    /// One journal event from an in-flight
    /// [`METHOD_ENVIRONMENT_EXEC_SESSION`], forwarded verbatim from the
    /// node's own workflow journal.
    Journal {
        /// Handle id of the environment this session runs in.
        handle_id: String,
        /// The node-local run id this event belongs to.
        workflow_id: Option<String>,
        /// The journal event kind.
        event_kind: String,
        /// Phase this event belongs to, when phase-scoped.
        phase_id: Option<String>,
        /// Event status discriminator, when present.
        status: Option<String>,
        /// Event timestamp (RFC 3339).
        ts: String,
        /// The event's full payload, forwarded verbatim.
        payload: serde_json::Value,
        /// True on the final event of the session (the run reached a terminal
        /// status), signalling the host to settle.
        terminal: bool,
    },
}

/// Request payload for [`METHOD_ENVIRONMENT_TEARDOWN`].
#[derive(Debug, Clone, PartialEq, Eq)]
pub struct TeardownRequest {
    /// The prepared context to dispose of.
    pub handle: EnvironmentHandle,
}

/// Response payload for [`METHOD_ENVIRONMENT_TEARDOWN`].
#[derive(Default, Debug, Clone, Copy, PartialEq, Eq)]
pub struct TeardownResponse {}

/// A managed environment instance (a "node") as reported by the
/// node-management surface.
#[derive(Debug, Clone, PartialEq, Eq)]
pub struct EnvironmentNode {
    /// Substrate-native id (railway service id, container id, ...).
    pub id: String,
    /// Human-facing name.
    pub name: String,
    /// Lifecycle state as the substrate reports it (`SUCCESS`, `FAILED`,
    /// `CRASHED`, `unknown`, ...).
    pub state: String,
    /// The animus run id this node serves, when recoverable.
    pub run_id: Option<String>,
    /// Image / impl ref backing the node, when known.
    pub image: Option<String>,
    /// Creation timestamp (ISO 8601) when the substrate exposes it.
    pub created_at: Option<String>,
    /// True when the node has no live owning run (a reap candidate).
    pub orphan: bool,
}

/// Request payload for [`METHOD_ENVIRONMENT_LIST`] (no parameters).
#[derive(Default, Debug, Clone, PartialEq, Eq)]
pub struct ListNodesRequest {}

/// Response payload for [`METHOD_ENVIRONMENT_LIST`].
#[derive(Debug, Clone, PartialEq, Eq)]
pub struct ListNodesResponse {
    /// Every known environment node.
    pub nodes: Vec<EnvironmentNode>,
}

impl Default for ListNodesResponse {
    fn default() -> (r: Self)
        ensures
            r.nodes@.len() == 0,
    {
        ListNodesResponse {
            nodes: Vec::new(),
        }
    }
}

/// Request payload for [`METHOD_ENVIRONMENT_GET`].
#[derive(Debug, Clone, PartialEq, Eq)]
pub struct GetNodeRequest {
    /// Substrate id or name of the node to describe.
    pub id: String,
}

/// Response payload for [`METHOD_ENVIRONMENT_GET`].
#[derive(Debug, Clone, PartialEq, Eq)]
pub struct GetNodeResponse {
    /// The node, or null when no node matched.
    pub node: Option<EnvironmentNode>,
}

impl Default for GetNodeResponse {
    fn default() -> (r: Self)
        ensures
            r.node is None,
    {
        GetNodeResponse {
            node: None,
        }
    }
}

/// Request payload for [`METHOD_ENVIRONMENT_TEARDOWN_NODE`].
#[derive(Debug, Clone, PartialEq, Eq)]
pub struct TeardownNodeRequest {
    /// Substrate id or name of the node to destroy.
    pub id: String,
}

/// Response payload for [`METHOD_ENVIRONMENT_TEARDOWN_NODE`].
#[derive(Debug, Clone, PartialEq, Eq)]
pub struct TeardownNodeResponse {
    /// Substrate ids actually deleted.
    pub deleted: Vec<String>,
}

impl Default for TeardownNodeResponse {
    fn default() -> (r: Self)
        ensures
            r.deleted@.len() == 0,
    {
        TeardownNodeResponse {
            deleted: Vec::new(),
        }
    }
}

/// Request payload for [`METHOD_ENVIRONMENT_REAP`].
#[derive(Debug, Clone, PartialEq, Eq)]
pub struct ReapRequest {
    /// Also reap non-dead nodes that have no live owning run (needs `force`).
    pub all: bool,
    /// Required alongside `all` - guards a fresh (no-liveness) reaper from
    /// treating every healthy node as an orphan.
    pub force: bool,
    /// Report what would be reaped without deleting anything.
    pub dry_run: bool,
    /// Only reap nodes at least this many seconds old.
    pub older_than_secs: Option<u64>,
}

impl Default for ReapRequest {
    fn default() -> (r: Self)
        ensures
            !r.all,
            !r.force,
            !r.dry_run,
            r.older_than_secs is None,
    {
        ReapRequest {
            all: false,
            force: false,
            dry_run: false,
            older_than_secs: None,
        }
    }
}

/// Response payload for [`METHOD_ENVIRONMENT_REAP`].
#[derive(Debug, Clone, PartialEq, Eq)]
pub struct ReapResponse {
    /// Substrate ids deleted (or that would be deleted, when `dry_run`).
    pub deleted: Vec<String>,
    /// Nodes spared.
    pub kept: Vec<EnvironmentNode>,
    /// Echoes the request's `dry_run`.
    pub dry_run: bool,
}

impl Default for ReapResponse {
    fn default() -> (r: Self)
        ensures
            r.deleted@.len() == 0,
            r.kept@.len() == 0,
            !r.dry_run,
    {
        ReapResponse {
            deleted: Vec::new(),
            kept: Vec::new(),
            dry_run: false,
        }
    }
}

// ---------------------------------------------------------------------
// Sessions
// ---------------------------------------------------------------------

/// Whether a subject's qualified id stands for a session's subject: it is that
/// id, or ends in it behind a colon.
pub open spec fn stands_for(qualified_id: Seq<char>, subject_id: Seq<char>) -> bool {
    qualified_id == subject_id || ends_with(qualified_id, ":"@ + subject_id)
}

/// What keeps a session with this fence from being dispatched.
pub open spec fn delegated_fence_problem(
    request: ExecSessionRequest,
    fence: ExecutionFence,
) -> Option<Seq<char>> {
    first_problem(
        fence_problem(fence),
        if opt_text(request.workflow_id) != Some(fence.workflow_id@) {
            Some("exec_session workflow_id does not match execution fence"@)
        } else if fence.subject is Some && !stands_for(
            fence.subject->0.qualified_id@,
            request.subject_id@,
        ) {
            Some("exec_session subject_id does not match execution fence"@)
        } else {
            None
        },
    )
}

/// What keeps a session from being dispatched.
pub open spec fn session_problem(request: ExecSessionRequest, required: bool) -> Option<Seq<char>> {
    match request.execution_fence {
        Some(fence) => delegated_fence_problem(request, fence),
        None => if required {
            Some("remote execution session requires execution_fence"@)
        } else {
            None
        },
    }
}

impl ExecSessionRequest {
    /// Checks the fence of a session before the session is dispatched.
    pub fn validate_execution_fence(&self, required: bool) -> (r: Result<(), String>)
        ensures
            reports(r, session_problem(*self, required)),
    {
        let fence = match &self.execution_fence {
            Some(fence) => fence,
            None => {
                return if required {
                    Err("remote execution session requires execution_fence".to_owned())
                } else {
                    Ok(())
                };
            },
        };
        fence.validate()?;
        let same_workflow = match &self.workflow_id {
            Some(id) => same_text(id.as_str(), fence.workflow_id.as_str()),
            None => false,
        };
        if !same_workflow {
            return Err("exec_session workflow_id does not match execution fence".to_owned());
        }
        if let Some(subject) = &fence.subject {
            let mut suffix = ":".to_owned();
            suffix.append(self.subject_id.as_str());
            let same_subject = same_text(
                subject.qualified_id.as_str(),
                self.subject_id.as_str(),
            ) || has_suffix(
                chars_of(subject.qualified_id.as_str()).as_slice(),
                chars_of(suffix.as_str()).as_slice(),
            );
            if !same_subject {
                return Err("exec_session subject_id does not match execution fence".to_owned());
            }
        }
        Ok(())
    }
}

/// A dispatched session runs the workflow of its fence, on a subject that the
/// fence names, in generations that are not zero.
pub proof fn dispatched_sessions_match_their_fence(request: ExecSessionRequest, required: bool)
    requires
        session_problem(request, required) is None,
        request.execution_fence is Some,
    ensures
        opt_text(request.workflow_id) == Some(request.execution_fence->0.workflow_id@),
        request.execution_fence->0.workflow_generation > 0,
        request.execution_fence->0.subject is Some ==> stands_for(
            request.execution_fence->0.subject->0.qualified_id@,
            request.subject_id@,
        ),
{
}

/// Where a fence is required, a session without one is not dispatched.
pub proof fn required_fences_are_there(request: ExecSessionRequest)
    requires
        session_problem(request, true) is None,
    ensures
        request.execution_fence is Some,
{
}

// ---------------------------------------------------------------------
// Notifications
// ---------------------------------------------------------------------

impl ExecStream {
    /// The word on the wire.
    pub open spec fn word(self) -> Seq<char> {
        match self {
            ExecStream::Stdout => "stdout"@,
            ExecStream::Stderr => "stderr"@,
        }
    }

    /// The word on the wire.
    pub fn as_str(self) -> (r: &'static str)
        ensures
            r@ == self.word(),
    {
        match self {
            ExecStream::Stdout => "stdout",
            ExecStream::Stderr => "stderr",
        }
    }
}

/// What a JSON value holds for a text that may be missing.
pub open spec fn optional_content(text: Option<String>) -> JsonContent {
    match text {
        Some(text) => JsonContent::Text(text@),
        None => JsonContent::Null,
    }
}

/// Whether an object holds the output of a command, and nothing else.
pub open spec fn is_output(
    members: Map<Seq<char>, serde_json::Value>,
    handle_id: Seq<char>,
    stream: ExecStream,
    text: Seq<char>,
) -> bool {
    &&& members.dom() == set!["handle_id"@, "stream"@, "text"@]
    &&& json_content(members["handle_id"@]) == JsonContent::Text(handle_id)
    &&& json_content(members["stream"@]) == JsonContent::Text(stream.word())
    &&& json_content(members["text"@]) == JsonContent::Text(text)
}

/// The members of a journal notification.
pub open spec fn journal_keys() -> Set<Seq<char>> {
    set![
        "handle_id"@,
        "workflow_id"@,
        "event_kind"@,
        "phase_id"@,
        "status"@,
        "ts"@,
        "payload"@,
        "terminal"@,
    ]
}

impl ExecNotification {
    /// Whether a JSON value is what the notification carries. What is missing
    /// is null there.
    pub open spec fn is_payload(self, value: serde_json::Value) -> bool {
        let members = json_content(value)->Object_0;
        &&& json_content(value) is Object
        &&& match self {
            ExecNotification::Output { handle_id, stream, text } => is_output(
                members,
                handle_id@,
                stream,
                text@,
            ),
            ExecNotification::Journal {
                handle_id,
                workflow_id,
                event_kind,
                phase_id,
                status,
                ts,
                payload,
                terminal,
            } => {
                &&& members.dom() == journal_keys()
                &&& json_content(members["handle_id"@]) == JsonContent::Text(handle_id@)
                &&& json_content(members["workflow_id"@]) == optional_content(workflow_id)
                &&& json_content(members["event_kind"@]) == JsonContent::Text(event_kind@)
                &&& json_content(members["phase_id"@]) == optional_content(phase_id)
                &&& json_content(members["status"@]) == optional_content(status)
                &&& json_content(members["ts"@]) == JsonContent::Text(ts@)
                &&& members["payload"@] == payload
                &&& json_content(members["terminal"@]) == JsonContent::Bool(terminal)
            },
        }
    }

    /// The method that the notification is sent under.
    pub fn method(&self) -> (r: &'static str)
        ensures
            r@ == match *self {
                ExecNotification::Output { .. } => NOTIFICATION_ENVIRONMENT_OUTPUT@,
                ExecNotification::Journal { .. } => NOTIFICATION_ENVIRONMENT_JOURNAL@,
            },
    {
        match self {
            ExecNotification::Output { .. } => NOTIFICATION_ENVIRONMENT_OUTPUT,
            ExecNotification::Journal { .. } => NOTIFICATION_ENVIRONMENT_JOURNAL,
        }
    }

    /// What the notification carries.
    pub fn payload(&self) -> (r: serde_json::Value)
        ensures
            self.is_payload(r),
    {
        let mut members = new_members();
        match self {
            ExecNotification::Output { handle_id, stream, text } => {
                put_text(&mut members, "handle_id", handle_id);
                put_text(&mut members, "stream", stream.as_str());
                put_text(&mut members, "text", text);
                proof {
                    reveal_strlit("handle_id");
                    reveal_strlit("stream");
                    reveal_strlit("text");
                    assert("handle_id"@.len() == 9 && "stream"@.len() == 6 && "text"@.len() == 4);
                    assert(json_members(members).dom() =~= set![
                        "handle_id"@,
                        "stream"@,
                        "text"@,
                    ]);
                }
            },
            ExecNotification::Journal {
                handle_id,
                workflow_id,
                event_kind,
                phase_id,
                status,
                ts,
                payload,
                terminal,
            } => {
                put_text(&mut members, "handle_id", handle_id);
                put_optional_text(&mut members, "workflow_id", workflow_id);
                put_text(&mut members, "event_kind", event_kind);
                put_optional_text(&mut members, "phase_id", phase_id);
                put_optional_text(&mut members, "status", status);
                put_text(&mut members, "ts", ts);
                put_member(&mut members, "payload".to_owned(), payload.clone());
                put_member(
                    &mut members,
                    "terminal".to_owned(),
                    make_value(JsonParts::Bool(*terminal)),
                );
                proof {
                    lemma_journal_keys();
                    assert(json_members(members).dom() =~= journal_keys());
                }
            },
        }
        make_value(JsonParts::Object(members))
    }
}

fn put_text(
    members: &mut serde_json::Map<String, serde_json::Value>,
    key: &str,
    text: &str,
)
    ensures
        exists|value: serde_json::Value| #[trigger]
            json_content(value) == JsonContent::Text(text@) && json_members(*final(members))
                == json_members(*old(members)).insert(key@, value),
{
    let value = make_value(JsonParts::Text(text.to_owned()));
    put_member(members, key.to_owned(), value);
    proof {
        assert(json_content(value) == JsonContent::Text(text@));
    }
}

fn put_optional_text(
    members: &mut serde_json::Map<String, serde_json::Value>,
    key: &str,
    text: &Option<String>,
)
    ensures
        exists|value: serde_json::Value| #[trigger]
            json_content(value) == optional_content(*text) && json_members(*final(members))
                == json_members(*old(members)).insert(key@, value),
{
    let value = match text {
        Some(text) => make_value(JsonParts::Text(text.clone())),
        None => make_value(JsonParts::Null),
    };
    put_member(members, key.to_owned(), value);
    proof {
        assert(json_content(value) == optional_content(*text));
    }
}

proof fn lemma_journal_keys()
    ensures
        "handle_id"@ != "workflow_id"@,
        "handle_id"@ != "event_kind"@,
        "handle_id"@ != "phase_id"@,
        "handle_id"@ != "status"@,
        "handle_id"@ != "ts"@,
        "handle_id"@ != "payload"@,
        "handle_id"@ != "terminal"@,
        "workflow_id"@ != "event_kind"@,
        "workflow_id"@ != "phase_id"@,
        "workflow_id"@ != "status"@,
        "workflow_id"@ != "ts"@,
        "workflow_id"@ != "payload"@,
        "workflow_id"@ != "terminal"@,
        "event_kind"@ != "phase_id"@,
        "event_kind"@ != "status"@,
        "event_kind"@ != "ts"@,
        "event_kind"@ != "payload"@,
        "event_kind"@ != "terminal"@,
        "phase_id"@ != "status"@,
        "phase_id"@ != "ts"@,
        "phase_id"@ != "payload"@,
        "phase_id"@ != "terminal"@,
        "status"@ != "ts"@,
        "status"@ != "payload"@,
        "status"@ != "terminal"@,
        "ts"@ != "payload"@,
        "ts"@ != "terminal"@,
        "payload"@ != "terminal"@,
{
    reveal_strlit("handle_id");
    reveal_strlit("workflow_id");
    reveal_strlit("event_kind");
    reveal_strlit("phase_id");
    reveal_strlit("status");
    reveal_strlit("ts");
    reveal_strlit("payload");
    reveal_strlit("terminal");
    assert("handle_id"@.len() == 9 && "workflow_id"@.len() == 11 && "event_kind"@.len() == 10);
    assert("phase_id"@.len() == 8 && "status"@.len() == 6 && "ts"@.len() == 2);
    assert("payload"@.len() == 7 && "terminal"@.len() == 8);
    assert("phase_id"@[0] == 'p' && "terminal"@[0] == 't');
}

/// A session is dispatched exactly if it has no fence and needs none, or has an
/// accepted fence of its own workflow, whose subject, if it has one, is the
/// session's, alone or behind a kind and a colon.
pub proof fn sessions_are_dispatched_by_their_fence(request: ExecSessionRequest, required: bool)
    ensures
        session_problem(request, required) is None <==> (request.execution_fence is None
            && !required) || (request.execution_fence is Some && fence_problem(
            request.execution_fence->0,
        ) is None && request.workflow_id is Some && (request.workflow_id->0)@
            == request.execution_fence->0.workflow_id@ && (request.execution_fence->0.subject is Some
            ==> stands_for(
            request.execution_fence->0.subject->0.qualified_id@,
            request.subject_id@,
        ))),
{
}

/// A qualified id stands for its native id, behind any kind, and for itself; for
/// nothing else.
pub proof fn qualified_ids_stand_for_their_native_id(
    kind: Seq<char>,
    native: Seq<char>,
    qualified: Seq<char>,
)
    ensures
        stands_for(kind + seq![':'] + native, native),
        stands_for(native, native),
        stands_for(qualified, native) ==> qualified == native || exists|n: int|
            0 <= n < qualified.len() && qualified[n] == ':' && #[trigger] qualified.skip(n + 1)
                == native,
{
    reveal_strlit(":");
    let whole = kind + seq![':'] + native;
    let suffix = ":"@ + native;
    assert(whole.skip(whole.len() - suffix.len()) =~= suffix);
    if stands_for(qualified, native) && qualified != native {
        let n = qualified.len() - suffix.len();
        assert(qualified.skip(n)[0] == suffix[0]);
        assert(qualified[n] == ':');
        assert(qualified.skip(n + 1) =~= suffix.skip(1));
        assert(suffix.skip(1) =~= native);
    }
}

/// What a notification carries can be read out of it: the handle, and for output
/// the stream's word and the text; for a journal event all that it says, with null
/// for what it does not say.
pub proof fn payloads_carry_the_notification(
    notification: ExecNotification,
    value: serde_json::Value,
)
    requires
        notification.is_payload(value),
    ensures
        json_content(value) is Object,
        notification matches ExecNotification::Output { handle_id, stream, text } ==> ({
            let members = json_content(value)->Object_0;
            &&& members.contains_key("handle_id"@) && json_content(members["handle_id"@])
                == JsonContent::Text(handle_id@)
            &&& members.contains_key("text"@) && json_content(members["text"@])
                == JsonContent::Text(text@)
            &&& members.contains_key("stream"@) && (json_content(members["stream"@])
                == JsonContent::Text("stdout"@) <==> stream == ExecStream::Stdout) && (json_content(
                members["stream"@],
            ) == JsonContent::Text("stderr"@) <==> stream == ExecStream::Stderr)
            &&& forall|k: Seq<char>| #[trigger]
                members.contains_key(k) ==> k == "handle_id"@ || k == "stream"@ || k == "text"@
        }),
        notification matches ExecNotification::Journal {
            handle_id,
            workflow_id,
            event_kind,
            phase_id,
            status,
            ts,
            payload,
            terminal,
        } ==> ({
            let members = json_content(value)->Object_0;
            &&& json_content(members["handle_id"@]) == JsonContent::Text(handle_id@)
            &&& json_content(members["event_kind"@]) == JsonContent::Text(event_kind@)
            &&& json_content(members["ts"@]) == JsonContent::Text(ts@)
            &&& json_content(members["terminal"@]) == JsonContent::Bool(terminal)
            &&& members["payload"@] == payload
            &&& workflow_id is None ==> json_content(members["workflow_id"@]) is Null
            &&& workflow_id is Some ==> json_content(members["workflow_id"@]) == JsonContent::Text(
                (workflow_id->0)@,
            )
            &&& phase_id is None ==> json_content(members["phase_id"@]) is Null
            &&& phase_id is Some ==> json_content(members["phase_id"@]) == JsonContent::Text(
                (phase_id->0)@,
            )
            &&& status is None ==> json_content(members["status"@]) is Null
            &&& status is Some ==> json_content(members["status"@]) == JsonContent::Text(
                (status->0)@,
            )
            &&& members.contains_key("handle_id"@) && members.contains_key("workflow_id"@)
                && members.contains_key("event_kind"@) && members.contains_key("phase_id"@)
                && members.contains_key("status"@) && members.contains_key("ts"@)
                && members.contains_key("payload"@) && members.contains_key("terminal"@)
        }),
{
    reveal_strlit("stdout");
    reveal_strlit("stderr");
    assert("stdout"@[3] == 'o' && "stderr"@[3] == 'e');
    let members = json_content(value)->Object_0;
    if notification is Output {
        let keys = set!["handle_id"@, "stream"@, "text"@];
        assert(keys.contains("handle_id"@) && keys.contains("stream"@) && keys.contains("text"@));
        assert(members.dom() == keys);
        assert forall|k: Seq<char>| #[trigger] members.contains_key(k) implies k == "handle_id"@
            || k == "stream"@ || k == "text"@ by {
            assert(members.dom().contains(k));
            assert(keys.contains(k));
        }
    } else {
        let keys = journal_keys();
        assert(keys.contains("handle_id"@) && keys.contains("workflow_id"@) && keys.contains(
            "event_kind"@,
        ) && keys.contains("phase_id"@) && keys.contains("status"@) && keys.contains("ts"@)
            && keys.contains("payload"@) && keys.contains("terminal"@));
        assert(members.dom() == keys);
    }
}

} // verus!
