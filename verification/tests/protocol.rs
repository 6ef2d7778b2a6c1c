use animus_protocol::actor::{Actor, CLAIM_ADMIN};
use animus_protocol::agent_runner::{
    error_codes_agent_runner, AgentRunnerBackendError, AgentRunnerCapabilities, ModelId, RunId,
};
use animus_protocol::application::{
    validate_application_configured_ref, ApplicationChatErrorMessage, ApplicationChatSequence,
    ApplicationConfiguredRef, ApplicationPermissionIntent, ApplicationProtocolString,
    ApplicationReasoningEffort, MAX_APPLICATION_CHAT_SEQUENCE,
};
use animus_protocol::chat::{
    error_codes, ChatMessage, ChatRole, ContentBlock, ConversationMeta, StopReason,
    CONVERSATION_SCHEMA, MESSAGE_SCHEMA, METHOD_CHAT_COUNT_TOKENS, METHOD_CHAT_MODELS,
    METHOD_CHAT_STREAM, NOTIFICATION_CHAT_DELTA, PLUGIN_KIND_CHAT_PROVIDER,
    SUBJECT_KIND_CONVERSATION,
};
use animus_protocol::environment::{
    EnvironmentHandle, ExecNotification, ExecSessionRequest, ExecStream, METHOD_ENVIRONMENT_EXEC,
    METHOD_ENVIRONMENT_EXEC_STREAM, METHOD_ENVIRONMENT_GET, METHOD_ENVIRONMENT_LIST,
    METHOD_ENVIRONMENT_PREPARE, METHOD_ENVIRONMENT_REAP, METHOD_ENVIRONMENT_TEARDOWN,
    METHOD_ENVIRONMENT_TEARDOWN_NODE, NOTIFICATION_ENVIRONMENT_JOURNAL,
    NOTIFICATION_ENVIRONMENT_OUTPUT,
};
use animus_protocol::execution::{
    ExecutionFence, QueueLeaseFence, RepositoryReservation, SubjectGeneration,
    EXECUTION_FENCE_SCHEMA_ID, EXECUTION_FENCE_VERSION,
};
use animus_protocol::journal::JournalError;
use animus_protocol::rpc::RpcCode;
use animus_protocol::time::Timestamp;

// Actors

#[test]
fn is_admin_reflects_claim() {
    assert!(!Actor::new("u".to_string()).is_admin());
    let admin = Actor {
        user_id: "u".into(),
        claims: vec![CLAIM_ADMIN.into()],
        tenant_id: None,
    };
    assert!(admin.is_admin());
}

#[test]
fn claims_are_compared_exactly() {
    let mut actor = Actor::new("u".to_string());
    actor.claims = vec!["Admin".to_string(), "administrator".to_string()];
    assert!(!actor.is_admin());
    actor.claims.push("admin".to_string());
    assert!(actor.is_admin());
    assert_eq!(Actor::default(), Actor::new(String::new()));
}

// Agent runners

#[test]
fn capabilities_default_is_conservative() {
    let caps = AgentRunnerCapabilities::default();
    assert!(!caps.pause_resume_support);
    assert!(!caps.replay_support);
    assert!(!caps.thinking_events);
    assert!(!caps.tool_events);
    assert!(!caps.artifact_events);
    assert!(!caps.workspace_guard);
}

#[test]
fn backend_error_run_not_found_maps_to_kind_code() {
    let rpc = AgentRunnerBackendError::RunNotFound("run-x".into()).into_rpc_error();
    assert_eq!(rpc.code, RpcCode::Kind(error_codes_agent_runner::RUN_NOT_FOUND));
}

#[test]
fn backend_error_invalid_request_maps_to_invalid_params() {
    let rpc = AgentRunnerBackendError::InvalidRequest("bad payload".into()).into_rpc_error();
    assert_eq!(rpc.code, RpcCode::InvalidParams);
}

#[test]
fn backend_errors_answer_with_code_message_and_category() {
    let cases = vec![
        (AgentRunnerBackendError::RunNotFound("x".into()), -32502, "x", "run_not_found"),
        (AgentRunnerBackendError::RunAlreadyRunning("x".into()), -32503, "x", "run_already_running"),
        (AgentRunnerBackendError::RunTerminal("x".into()), -32504, "x", "run_terminal"),
        (
            AgentRunnerBackendError::ControlActionUnsupported("x".into()),
            -32505,
            "x",
            "control_action_unsupported",
        ),
        (AgentRunnerBackendError::ModelUnavailable("x".into()), -32506, "x", "model_unavailable"),
        (
            AgentRunnerBackendError::InvalidRuntimeContract("x".into()),
            -32507,
            "x",
            "invalid_runtime_contract",
        ),
        (
            AgentRunnerBackendError::ProtocolVersionMismatch("x".into()),
            -32501,
            "x",
            "protocol_version_mismatch",
        ),
        (AgentRunnerBackendError::InvalidRequest("x".into()), -32602, "x", "invalid_request"),
        (
            AgentRunnerBackendError::Unavailable("x".into()),
            -32603,
            "backend unavailable: x",
            "unavailable",
        ),
        (AgentRunnerBackendError::Other("x".into()), -32603, "x", "other"),
    ];
    for (error, number, message, category) in cases {
        let rpc = error.into_rpc_error();
        assert_eq!(rpc.code.number(-1), number);
        assert_eq!(rpc.message, message);
        let data = rpc.data.unwrap();
        assert_eq!(data.get("category").unwrap().as_str().unwrap(), category);
        assert_eq!(data.as_object().unwrap().len(), 1);
    }
    assert_eq!(
        AgentRunnerBackendError::RunTerminal("r".into()).message(),
        "run terminal: r"
    );
    assert_eq!(AgentRunnerBackendError::Other("r".into()).message(), "r");
}

#[test]
fn ids_give_their_text_back() {
    assert_eq!(RunId::new("run-1".to_string()).as_str(), "run-1");
    assert_eq!(ModelId::new("m".to_string()).as_str(), "m");
}

// Applications

#[test]
fn configured_references_follow_their_grammar() {
    assert!(validate_application_configured_ref("research.agent-1").is_ok());
    assert!(validate_application_configured_ref("code_review").is_ok());
    assert!(validate_application_configured_ref("0").is_ok());
    assert!(validate_application_configured_ref(&"a".repeat(64)).is_ok());
    let length = "configured reference must contain 1..=64 bytes";
    assert_eq!(validate_application_configured_ref("").unwrap_err(), length);
    assert_eq!(validate_application_configured_ref(&"a".repeat(65)).unwrap_err(), length);
    assert_eq!(validate_application_configured_ref(&"é".repeat(33)).unwrap_err(), length);
    let grammar = "configured reference must start with an ASCII letter or digit, contain only ASCII letters, digits, '.', '_', or '-', and must not contain '..'";
    for bad in ["../secret", ".a", "_a", "-a", "a..b", "a/b", "a b", "é"] {
        assert_eq!(validate_application_configured_ref(bad).unwrap_err(), grammar, "{bad}");
    }
    let reference = ApplicationConfiguredRef::new("research.agent-1".to_string()).unwrap();
    assert_eq!(reference.as_str(), "research.agent-1");
    assert_eq!(reference.clone(), reference);
    assert_eq!(ApplicationConfiguredRef::new("../x".to_string()).unwrap_err(), grammar);
}

#[test]
fn receipt_values_are_utf8_byte_bounded() {
    assert!(ApplicationProtocolString::new("é".repeat(256)).is_ok());
    assert!(ApplicationProtocolString::new(format!("{}x", "é".repeat(256))).is_err());
    assert!(ApplicationChatErrorMessage::new("é".repeat(512)).is_ok());
    assert!(ApplicationChatErrorMessage::new(format!("{}x", "é".repeat(512))).is_err());
    assert!(ApplicationChatSequence::new(MAX_APPLICATION_CHAT_SEQUENCE).is_ok());
    assert!(ApplicationChatSequence::new(MAX_APPLICATION_CHAT_SEQUENCE + 1).is_err());
}

#[test]
fn receipt_values_report_what_is_wrong() {
    for bad in ["", "a\nb", "a\u{7f}", "\u{0}"] {
        assert_eq!(
            ApplicationProtocolString::new(bad.to_string()).unwrap_err(),
            "application protocol string must contain 1..=512 UTF-8 bytes and no ASCII controls"
        );
    }
    assert_eq!(ApplicationProtocolString::new("op 1".to_string()).unwrap().as_str(), "op 1");
    assert_eq!(
        ApplicationChatErrorMessage::new(String::new()).unwrap_err(),
        "application chat error must contain 1..=1024 UTF-8 bytes"
    );
    assert_eq!(
        ApplicationChatErrorMessage::new("line\nline".to_string()).unwrap().as_str(),
        "line\nline"
    );
    assert_eq!(
        ApplicationChatSequence::new(u64::MAX).unwrap_err(),
        "application chat sequence must be <= 9007199254740991"
    );
    assert_eq!(ApplicationChatSequence::new(6).unwrap().get(), 6);
}

#[test]
fn application_words() {
    assert_eq!(ApplicationReasoningEffort::Low.as_str(), "low");
    assert_eq!(ApplicationReasoningEffort::Medium.as_str(), "medium");
    assert_eq!(ApplicationReasoningEffort::High.as_str(), "high");
    assert_eq!(ApplicationPermissionIntent::Default.as_str(), "default");
    assert_eq!(ApplicationPermissionIntent::Review.as_str(), "review");
    assert_eq!(ApplicationPermissionIntent::AutoEdit.as_str(), "auto_edit");
    assert_eq!(ApplicationPermissionIntent::Unrestricted.as_str(), "unrestricted");
}

// Chat

#[test]
fn constants_match_design_doc() {
    assert_eq!(PLUGIN_KIND_CHAT_PROVIDER, "chat_provider");
    assert_eq!(SUBJECT_KIND_CONVERSATION, "conversation");
    assert_eq!(MESSAGE_SCHEMA, "animus.chat.message.v1");
    assert_eq!(CONVERSATION_SCHEMA, "animus.chat.conversation.v1");
    assert_eq!(METHOD_CHAT_STREAM, "chat/stream");
    assert_eq!(METHOD_CHAT_MODELS, "chat/models");
    assert_eq!(METHOD_CHAT_COUNT_TOKENS, "chat/count_tokens");
    assert_eq!(NOTIFICATION_CHAT_DELTA, "chat/delta");
}

#[test]
fn error_codes_live_in_a_collision_free_range() {
    let codes = [
        error_codes::MODEL_NOT_FOUND,
        error_codes::AUTH_FAILED,
        error_codes::RATE_LIMITED,
        error_codes::CONTEXT_LENGTH_EXCEEDED,
        error_codes::UPSTREAM_UNAVAILABLE,
        error_codes::COUNT_TOKENS_UNSUPPORTED,
    ];
    for c in codes {
        assert!(
            (-32899..=-32800).contains(&c),
            "error code {c} outside the reserved -32800..-32899 chat range"
        );
    }
    assert!(!codes.contains(&-32601));
    assert!(!codes.contains(&-32201));
}

#[test]
fn stop_reason_unknown_round_trips_losslessly() {
    let parsed = StopReason::from("model_context_window".to_string());
    assert_eq!(parsed, StopReason::Other("model_context_window".into()));
    assert!(!parsed.is_known());
    assert_eq!(parsed.into_string(), "model_context_window");
    let known = StopReason::from("pause_turn".to_string());
    assert_eq!(known, StopReason::PauseTurn);
    assert!(known.is_known());
}

#[test]
fn stop_reason_words() {
    for (reason, word) in [
        (StopReason::EndTurn, "end_turn"),
        (StopReason::ToolUse, "tool_use"),
        (StopReason::MaxTokens, "max_tokens"),
        (StopReason::StopSequence, "stop_sequence"),
        (StopReason::Refusal, "refusal"),
        (StopReason::PauseTurn, "pause_turn"),
    ] {
        assert_eq!(reason.as_str(), word);
        assert_eq!(StopReason::from(word.to_string()), reason);
    }
    assert!(!StopReason::from("End_turn".to_string()).is_known());
}

#[test]
fn new_messages_and_conversations_are_bare() {
    let blocks = vec![ContentBlock::ToolResult {
        tool_use_id: "t".into(),
        is_error: false,
        content: vec![ContentBlock::Text { text: "[]".into() }],
    }];
    let message = ChatMessage::new(
        "m".to_string(),
        "c".to_string(),
        ChatRole::Tool,
        blocks.clone(),
        "2026-06-08T15:00:00Z".to_string(),
    );
    assert_eq!(message.schema, MESSAGE_SCHEMA);
    assert_eq!(message.content, blocks);
    assert!(message.model.is_none() && message.usage.is_none());
    let meta = ConversationMeta::new(
        "c".to_string(),
        "m".to_string(),
        "a".to_string(),
        "b".to_string(),
    );
    assert_eq!(meta.schema, CONVERSATION_SCHEMA);
    assert_eq!(meta.message_count, 0);
    assert_eq!(meta.updated_at, "b");
}

// Executions

fn sample() -> ExecutionFence {
    ExecutionFence {
        schema: EXECUTION_FENCE_SCHEMA_ID.to_string(),
        version: EXECUTION_FENCE_VERSION,
        workflow_id: "workflow-1".to_string(),
        workflow_generation: 3,
        subject: Some(SubjectGeneration {
            qualified_id: "task:TASK-1175".to_string(),
            generation: 9,
        }),
        queue_lease: Some(QueueLeaseFence {
            entry_id: "entry-1".to_string(),
            owner_id: "daemon-a".to_string(),
            generation: 2,
            expires_at: Timestamp { seconds: 1893456000, nanos: 0 },
        }),
        repository: Some(RepositoryReservation {
            repository: "https://github.com/launchapp-dev/animus-cli.git".to_string(),
            base_ref: "refs/heads/main".to_string(),
            head_ref: "refs/heads/animus/TASK-1175".to_string(),
        }),
    }
}

#[test]
fn rejects_zero_generations_and_ambiguous_refs() {
    let mut fence = sample();
    fence.workflow_generation = 0;
    assert!(fence.validate().unwrap_err().contains("workflow_generation"));

    let mut fence = sample();
    fence.repository.as_mut().unwrap().head_ref = "main".to_string();
    assert!(fence.validate().unwrap_err().contains("fully-qualified"));
}

#[test]
fn lease_transfer_does_not_change_execution_generation() {
    let first = sample();
    let mut recovered = first.clone();
    let lease = recovered.queue_lease.as_mut().unwrap();
    lease.owner_id = "daemon-b".to_string();
    lease.generation += 1;
    assert!(first.same_execution_generation(&recovered));
    assert_ne!(first.queue_lease, recovered.queue_lease);
}

#[test]
fn repository_collision_key_is_case_stable() {
    let reservation = sample().repository.unwrap();
    let mut upper = reservation.clone();
    upper.repository = upper.repository.to_ascii_uppercase();
    assert_eq!(reservation.collision_key(), upper.collision_key());
}

#[test]
fn collision_keys_hold_repository_and_head() {
    let mut reservation = sample().repository.unwrap();
    reservation.repository = "  Owner/Name ".to_string();
    assert_eq!(reservation.collision_key(), "owner/name\nrefs/heads/animus/TASK-1175");
    let mut other = reservation.clone();
    other.head_ref = "refs/heads/animus/task-1175".to_string();
    assert_ne!(reservation.collision_key(), other.collision_key());
}

#[test]
fn fences_report_the_first_problem() {
    assert!(sample().validate_coding().is_ok());
    let mut fence = sample();
    fence.schema = "x".to_string();
    assert_eq!(
        fence.validate().unwrap_err(),
        "unsupported execution fence schema 'x'; expected 'animus.execution-fence.v1'"
    );
    let mut fence = sample();
    fence.version = 12;
    assert_eq!(
        fence.validate().unwrap_err(),
        "unsupported execution fence version 12; expected 1"
    );
    let mut fence = sample();
    fence.workflow_id = " \t".to_string();
    assert_eq!(fence.validate().unwrap_err(), "workflow_id must not be empty");
    for (id, problem) in [
        ("", "subject qualified_id must not be empty"),
        ("TASK-1", "subject qualified_id must use <kind>:<native-id> form"),
        (":TASK-1", "subject kind must not be empty"),
        ("task: ", "subject native id must not be empty"),
    ] {
        let mut fence = sample();
        fence.subject.as_mut().unwrap().qualified_id = id.to_string();
        assert_eq!(fence.validate().unwrap_err(), problem);
    }
    let mut fence = sample();
    fence.subject.as_mut().unwrap().generation = 0;
    assert_eq!(fence.validate().unwrap_err(), "subject generation must be greater than zero");
    let mut fence = sample();
    fence.queue_lease.as_mut().unwrap().owner_id = String::new();
    assert_eq!(fence.validate().unwrap_err(), "queue lease owner_id must not be empty");
    for head in ["refs/heads/a..b", "refs/heads/", "heads/main"] {
        let mut fence = sample();
        fence.repository.as_mut().unwrap().head_ref = head.to_string();
        assert_eq!(
            fence.validate().unwrap_err(),
            "head_ref must be a safe fully-qualified git ref"
        );
    }
    let mut fence = sample();
    fence.repository.as_mut().unwrap().head_ref = "refs/heads/main".to_string();
    assert_eq!(
        fence.validate().unwrap_err(),
        "repository reservation base_ref and head_ref must differ"
    );
}

#[test]
fn stricter_fences_need_more() {
    let direct = ExecutionFence::direct("w".to_string(), 1, None);
    assert!(direct.validate().is_ok());
    assert_eq!(
        direct.validate_queue_backed().unwrap_err(),
        "queue-backed execution fence requires queue_lease"
    );
    let mut fence = sample();
    fence.subject = None;
    assert_eq!(
        fence.validate_coding().unwrap_err(),
        "coding execution fence requires a subject generation"
    );
    assert!(!fence.same_execution_generation(&sample()));
    let mut fence = sample();
    fence.repository = None;
    assert!(fence.validate_queue_backed().is_ok());
    assert_eq!(
        fence.validate_coding().unwrap_err(),
        "coding execution fence requires a repository reservation"
    );
    let mut later = sample();
    later.workflow_generation += 1;
    assert!(!later.same_execution_generation(&sample()));
}

// Environments

#[test]
fn method_constants_match_wire_strings() {
    assert_eq!(METHOD_ENVIRONMENT_PREPARE, "environment/prepare");
    assert_eq!(METHOD_ENVIRONMENT_EXEC, "environment/exec");
    assert_eq!(METHOD_ENVIRONMENT_EXEC_STREAM, "environment/exec_stream");
    assert_eq!(METHOD_ENVIRONMENT_TEARDOWN, "environment/teardown");
    assert_eq!(METHOD_ENVIRONMENT_LIST, "environment/list");
    assert_eq!(METHOD_ENVIRONMENT_GET, "environment/get");
    assert_eq!(METHOD_ENVIRONMENT_TEARDOWN_NODE, "environment/teardown_node");
    assert_eq!(METHOD_ENVIRONMENT_REAP, "environment/reap");
    assert_eq!(NOTIFICATION_ENVIRONMENT_OUTPUT, "environment/output");
}

fn json(text: &str) -> serde_json::Value {
    serde_json::from_str(text).unwrap()
}

#[test]
fn exec_notification_maps_to_wire_method_and_payload() {
    let note = ExecNotification::Output {
        handle_id: "env-1".to_string(),
        stream: ExecStream::Stderr,
        text: "boom\n".to_string(),
    };
    assert_eq!(note.method(), NOTIFICATION_ENVIRONMENT_OUTPUT);
    assert_eq!(
        note.payload(),
        json(r#"{"handle_id": "env-1", "stream": "stderr", "text": "boom\n"}"#)
    );
}

#[test]
fn journal_notifications_carry_every_field() {
    let note = ExecNotification::Journal {
        handle_id: "env-1".to_string(),
        workflow_id: Some("w".to_string()),
        event_kind: "phase_started".to_string(),
        phase_id: None,
        status: None,
        ts: "2026-01-01T00:00:00Z".to_string(),
        payload: json(r#"{"a": [1, 2.5]}"#),
        terminal: true,
    };
    assert_eq!(note.method(), NOTIFICATION_ENVIRONMENT_JOURNAL);
    assert_eq!(
        note.payload(),
        json(
            r#"{"handle_id": "env-1", "workflow_id": "w", "event_kind": "phase_started",
                "phase_id": null, "status": null, "ts": "2026-01-01T00:00:00Z",
                "payload": {"a": [1, 2.5]}, "terminal": true}"#
        )
    );
}

#[test]
fn sessions_are_held_to_their_fence() {
    let fence = ExecutionFence::direct(
        "workflow-1".to_string(),
        1,
        Some(SubjectGeneration { qualified_id: "task:TASK-1175".to_string(), generation: 3 }),
    );
    let mut request = ExecSessionRequest {
        handle: EnvironmentHandle {
            id: "node-1".to_string(),
            workspace_root: "/workspace".to_string(),
            metadata: serde_json::Value::Null,
        },
        subject_id: "task:TASK-1175".to_string(),
        workflow_ref: Some("coding".to_string()),
        dispatch_input: None,
        workflow_id: Some("workflow-1".to_string()),
        execution_fence: Some(fence),
    };
    assert!(request.validate_execution_fence(true).is_ok());
    request.subject_id = "TASK-1175".to_string();
    assert!(request.validate_execution_fence(true).is_ok());
    request.subject_id = "1175".to_string();
    assert_eq!(
        request.validate_execution_fence(true).unwrap_err(),
        "exec_session subject_id does not match execution fence"
    );
    request.workflow_id = None;
    assert_eq!(
        request.validate_execution_fence(false).unwrap_err(),
        "exec_session workflow_id does not match execution fence"
    );
    request.execution_fence.as_mut().unwrap().workflow_generation = 0;
    assert_eq!(
        request.validate_execution_fence(false).unwrap_err(),
        "workflow_generation must be greater than zero"
    );
    request.execution_fence = None;
    assert!(request.validate_execution_fence(false).is_ok());
    assert_eq!(
        request.validate_execution_fence(true).unwrap_err(),
        "remote execution session requires execution_fence"
    );
}

// Journals

#[test]
fn error_codes_map() {
    assert_eq!(JournalError::NotFound("x".into()).code(), RpcCode::InvalidParams);
    assert_eq!(
        JournalError::MethodNotSupported("journal/events".into()).code(),
        RpcCode::MethodNotSupported
    );
    assert_eq!(JournalError::Internal("x".into()).code(), RpcCode::InternalError);
}

#[test]
fn journal_errors_say_what_happened() {
    assert_eq!(JournalError::NotFound("w".into()).message(), "workflow run not found: w");
    assert_eq!(
        JournalError::MethodNotSupported("journal/events".into()).message(),
        "journal backend method not supported: journal/events"
    );
    assert_eq!(
        JournalError::Internal("x".into()).message(),
        "journal backend internal error: x"
    );
}

#[test]
fn standard_codes_have_their_numbers() {
    assert_eq!(RpcCode::InvalidRequest.number(-32001), -32600);
    assert_eq!(RpcCode::InvalidParams.number(-32001), -32602);
    assert_eq!(RpcCode::InternalError.number(-32001), -32603);
    assert_eq!(RpcCode::MethodNotSupported.number(-32001), -32001);
    assert_eq!(RpcCode::Kind(-32801).number(-32001), -32801);
}
