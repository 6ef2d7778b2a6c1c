//! Names of the control methods.
//!
//! A name is a group, a slash and a verb. A method that opens a stream ends in
//! `/watch`, `/events` or `/logs`; what the stream delivers comes under a
//! notification of the same group.

use vstd::prelude::*;

verus! {

/// `subject/list` - list dispatchable subjects, optionally filtered.
pub const METHOD_SUBJECT_LIST: &'static str = "subject/list";

/// `subject/get` - fetch a single subject by id.
pub const METHOD_SUBJECT_GET: &'static str = "subject/get";

/// `subject/create` - create a new subject in a writable backend.
pub const METHOD_SUBJECT_CREATE: &'static str = "subject/create";

/// `subject/update` - apply a patch to a subject.
pub const METHOD_SUBJECT_UPDATE: &'static str = "subject/update";

/// `subject/next` - return the next ready subject for dispatch.
pub const METHOD_SUBJECT_NEXT: &'static str = "subject/next";

/// `subject/status` - set the normalized status of a subject.
pub const METHOD_SUBJECT_STATUS: &'static str = "subject/status";

/// `subject/watch` - open a server-streaming subscription of subject changes.
pub const METHOD_SUBJECT_WATCH: &'static str = "subject/watch";

/// `subject/changed` - notification emitted by [`METHOD_SUBJECT_WATCH`]
/// streams.
pub const NOTIFICATION_SUBJECT_CHANGED: &'static str = "subject/changed";

/// `plugin/list` - list installed plugins.
pub const METHOD_PLUGIN_LIST: &'static str = "plugin/list";

/// `plugin/info` - return detailed info for a single installed plugin.
pub const METHOD_PLUGIN_INFO: &'static str = "plugin/info";

/// `plugin/install` - install a plugin from a registry entry or local path.
pub const METHOD_PLUGIN_INSTALL: &'static str = "plugin/install";

/// `plugin/uninstall` - remove an installed plugin.
pub const METHOD_PLUGIN_UNINSTALL: &'static str = "plugin/uninstall";

/// `plugin/ping` - health-check ping into a named plugin.
pub const METHOD_PLUGIN_PING: &'static str = "plugin/ping";

/// `plugin/call` - opaque pass-through invocation of a custom plugin method.
pub const METHOD_PLUGIN_CALL: &'static str = "plugin/call";

/// `plugin/search` - search the plugin registry by free-text query.
pub const METHOD_PLUGIN_SEARCH: &'static str = "plugin/search";

/// `plugin/browse` - list registry entries by kind / install status.
pub const METHOD_PLUGIN_BROWSE: &'static str = "plugin/browse";

/// `plugin/update` - check for and apply plugin upgrades.
pub const METHOD_PLUGIN_UPDATE: &'static str = "plugin/update";

/// `daemon/status` - return process status (PID, uptime, version).
pub const METHOD_DAEMON_STATUS: &'static str = "daemon/status";

/// `daemon/health` - full health snapshot incl. per-plugin health.
pub const METHOD_DAEMON_HEALTH: &'static str = "daemon/health";

/// `daemon/start` - start the daemon if not running.
pub const METHOD_DAEMON_START: &'static str = "daemon/start";

/// `daemon/stop` - stop the daemon.
pub const METHOD_DAEMON_STOP: &'static str = "daemon/stop";

/// `daemon/restart` - stop + start the daemon.
pub const METHOD_DAEMON_RESTART: &'static str = "daemon/restart";

/// `daemon/agents` - list currently active agents (running provider
/// sessions).
pub const METHOD_DAEMON_AGENTS: &'static str = "daemon/agents";

/// `daemon/events` - open a server-streaming subscription of daemon run
/// events.
pub const METHOD_DAEMON_EVENTS: &'static str = "daemon/events";

/// `daemon/event` - notification emitted by [`METHOD_DAEMON_EVENTS`] streams.
pub const NOTIFICATION_DAEMON_EVENT: &'static str = "daemon/event";

/// `daemon/logs` - open a streaming log query (filter + optional follow).
pub const METHOD_DAEMON_LOGS: &'static str = "daemon/logs";

/// `daemon/log` - notification emitted by [`METHOD_DAEMON_LOGS`] streams.
pub const NOTIFICATION_DAEMON_LOG: &'static str = "daemon/log";

/// `workflow/list` - list workflow runs, optionally filtered by status.
pub const METHOD_WORKFLOW_LIST: &'static str = "workflow/list";

/// `workflow/get` - return a single workflow run by id.
pub const METHOD_WORKFLOW_GET: &'static str = "workflow/get";

/// `workflow/run` - start a new workflow run for a task / subject.
pub const METHOD_WORKFLOW_RUN: &'static str = "workflow/run";

/// `workflow/execute` - execute an ad-hoc workflow without binding to a task.
pub const METHOD_WORKFLOW_EXECUTE: &'static str = "workflow/execute";

/// `workflow/pause` - pause an in-flight run at the next safe checkpoint.
pub const METHOD_WORKFLOW_PAUSE: &'static str = "workflow/pause";

/// `workflow/resume` - resume a paused workflow run.
pub const METHOD_WORKFLOW_RESUME: &'static str = "workflow/resume";

/// `workflow/cancel` - cancel a workflow run.
pub const METHOD_WORKFLOW_CANCEL: &'static str = "workflow/cancel";

/// Method that opens a stream of workflow events.
pub const METHOD_WORKFLOW_EVENTS: &'static str = "workflow/events";

/// Notification with one event of a workflow.
pub const NOTIFICATION_WORKFLOW_EVENT: &'static str = "workflow/event";

/// Notification that a stream has ended.
pub const NOTIFICATION_SUBSCRIPTION_CLOSED: &'static str = "subscription/closed";

/// `agent/run` - start an agent session (one-shot provider invocation).
pub const METHOD_AGENT_RUN: &'static str = "agent/run";

/// `agent/status` - fetch live status for an agent session.
pub const METHOD_AGENT_STATUS: &'static str = "agent/status";

/// `agent/cancel` - cancel an in-flight agent session.
pub const METHOD_AGENT_CANCEL: &'static str = "agent/cancel";

/// `queue/list` - list queue entries, optionally filtered by status.
pub const METHOD_QUEUE_LIST: &'static str = "queue/list";

/// `queue/enqueue` - push a new entry onto the dispatch queue.
pub const METHOD_QUEUE_ENQUEUE: &'static str = "queue/enqueue";

/// `queue/drop` - remove an entry from the queue (without dispatching).
pub const METHOD_QUEUE_DROP: &'static str = "queue/drop";

/// `queue/hold` - pause an entry so the dispatcher won't pick it up.
pub const METHOD_QUEUE_HOLD: &'static str = "queue/hold";

/// `queue/release` - clear a held entry so it becomes dispatchable.
pub const METHOD_QUEUE_RELEASE: &'static str = "queue/release";

/// `queue/reorder` - change the relative order of queue entries.
pub const METHOD_QUEUE_REORDER: &'static str = "queue/reorder";

/// `queue/stats` - return per-status counts and recent throughput.
pub const METHOD_QUEUE_STATS: &'static str = "queue/stats";

/// `project/init` - initialize Animus in the current working directory.
pub const METHOD_PROJECT_INIT: &'static str = "project/init";

/// `project/setup` - finalize project setup (MCP wiring, daemon settings).
pub const METHOD_PROJECT_SETUP: &'static str = "project/setup";

/// `project/status` - return a snapshot of project workflow/task/run state.
pub const METHOD_PROJECT_STATUS: &'static str = "project/status";

} // verus!
