use std::collections::HashSet;

use animus_protocol::control::client::{
    cancel_frame, failure, following, read_frame, request_frame, result_of, value_as_u64, with_limit,
    AnswerError, Frame, Routes,
};
use animus_protocol::control::error::ControlError;
use animus_protocol::control::method::{
    METHOD_AGENT_CANCEL, METHOD_AGENT_RUN, METHOD_AGENT_STATUS, METHOD_DAEMON_AGENTS,
    METHOD_DAEMON_EVENTS, METHOD_DAEMON_HEALTH, METHOD_DAEMON_LOGS, METHOD_DAEMON_RESTART,
    METHOD_DAEMON_START, METHOD_DAEMON_STATUS, METHOD_DAEMON_STOP, METHOD_PLUGIN_BROWSE,
    METHOD_PLUGIN_CALL, METHOD_PLUGIN_INFO, METHOD_PLUGIN_INSTALL, METHOD_PLUGIN_LIST,
    METHOD_PLUGIN_PING, METHOD_PLUGIN_SEARCH, METHOD_PLUGIN_UNINSTALL, METHOD_PLUGIN_UPDATE,
    METHOD_PROJECT_INIT, METHOD_PROJECT_SETUP, METHOD_PROJECT_STATUS, METHOD_QUEUE_DROP,
    METHOD_QUEUE_ENQUEUE, METHOD_QUEUE_HOLD, METHOD_QUEUE_LIST, METHOD_QUEUE_RELEASE,
    METHOD_QUEUE_REORDER, METHOD_QUEUE_STATS, METHOD_SUBJECT_CREATE, METHOD_SUBJECT_GET,
    METHOD_SUBJECT_LIST, METHOD_SUBJECT_NEXT, METHOD_SUBJECT_STATUS, METHOD_SUBJECT_UPDATE,
    METHOD_SUBJECT_WATCH, METHOD_WORKFLOW_CANCEL, METHOD_WORKFLOW_EXECUTE, METHOD_WORKFLOW_GET,
    METHOD_WORKFLOW_LIST, METHOD_WORKFLOW_PAUSE, METHOD_WORKFLOW_RESUME, METHOD_WORKFLOW_RUN,
    NOTIFICATION_DAEMON_EVENT, NOTIFICATION_DAEMON_LOG, NOTIFICATION_SUBJECT_CHANGED,
    METHOD_WORKFLOW_EVENTS, NOTIFICATION_SUBSCRIPTION_CLOSED, NOTIFICATION_WORKFLOW_EVENT,
};
use animus_protocol::control::types::DaemonLogsRequest;
use animus_protocol::rpc::RpcCode;

fn all_methods() -> Vec<&'static str> {
    vec![
        // subject
        METHOD_SUBJECT_LIST,
        METHOD_SUBJECT_GET,
        METHOD_SUBJECT_CREATE,
        METHOD_SUBJECT_UPDATE,
        METHOD_SUBJECT_NEXT,
        METHOD_SUBJECT_STATUS,
        METHOD_SUBJECT_WATCH,
        NOTIFICATION_SUBJECT_CHANGED,
        // plugin
        METHOD_PLUGIN_LIST,
        METHOD_PLUGIN_INFO,
        METHOD_PLUGIN_INSTALL,
        METHOD_PLUGIN_UNINSTALL,
        METHOD_PLUGIN_PING,
        METHOD_PLUGIN_CALL,
        METHOD_PLUGIN_SEARCH,
        METHOD_PLUGIN_BROWSE,
        METHOD_PLUGIN_UPDATE,
        // daemon
        METHOD_DAEMON_STATUS,
        METHOD_DAEMON_HEALTH,
        METHOD_DAEMON_START,
        METHOD_DAEMON_STOP,
        METHOD_DAEMON_RESTART,
        METHOD_DAEMON_AGENTS,
        METHOD_DAEMON_EVENTS,
        NOTIFICATION_DAEMON_EVENT,
        METHOD_DAEMON_LOGS,
        NOTIFICATION_DAEMON_LOG,
        // workflow
        METHOD_WORKFLOW_LIST,
        METHOD_WORKFLOW_GET,
        METHOD_WORKFLOW_RUN,
        METHOD_WORKFLOW_EXECUTE,
        METHOD_WORKFLOW_PAUSE,
        METHOD_WORKFLOW_RESUME,
        METHOD_WORKFLOW_CANCEL,
        // agent
        METHOD_AGENT_RUN,
        METHOD_AGENT_STATUS,
        METHOD_AGENT_CANCEL,
        // queue
        METHOD_QUEUE_LIST,
        METHOD_QUEUE_ENQUEUE,
        METHOD_QUEUE_DROP,
        METHOD_QUEUE_HOLD,
        METHOD_QUEUE_RELEASE,
        METHOD_QUEUE_REORDER,
        METHOD_QUEUE_STATS,
        // project
        METHOD_PROJECT_INIT,
        METHOD_PROJECT_SETUP,
        METHOD_PROJECT_STATUS,
    ]
}

#[test]
fn method_constants_unique() {
    let methods = all_methods();
    let mut seen: HashSet<&'static str> = HashSet::new();
    for m in &methods {
        assert!(
            seen.insert(m),
            "duplicate method constant: {m} appears more than once",
        );
    }
    assert!(
        methods.len() >= 45,
        "expected at least 45 method constants, got {}",
        methods.len()
    );
}

#[test]
fn streaming_method_names_use_consistent_suffix() {
    // Streaming methods MUST end in `/watch` or `/events` or `/logs` and pair
    // with a notification whose name uses singular form (`<group>/changed`,
    // `<group>/event`, `<group>/log`).
    for m in [
        METHOD_SUBJECT_WATCH,
        METHOD_DAEMON_EVENTS,
        METHOD_DAEMON_LOGS,
    ] {
        let ok = m.ends_with("/watch") || m.ends_with("/events") || m.ends_with("/logs");
        assert!(
            ok,
            "streaming method {m} does not end in /watch|/events|/logs"
        );
    }
    for n in [
        NOTIFICATION_SUBJECT_CHANGED,
        NOTIFICATION_DAEMON_EVENT,
        NOTIFICATION_DAEMON_LOG,
    ] {
        let group = n.split('/').next().unwrap();
        let verb = n.split('/').nth(1).unwrap();
        assert!(
            !group.is_empty() && !verb.is_empty(),
            "notification {n} must be <group>/<verb>"
        );
    }
}

#[test]
fn method_names_use_slash_separator() {
    for m in all_methods() {
        assert!(
            m.contains('/'),
            "method name {m} must use slash separator (not dot)"
        );
        // No leading / trailing slashes, no double slashes.
        assert!(!m.starts_with('/'), "method {m} starts with /");
        assert!(!m.ends_with('/'), "method {m} ends with /");
        assert!(!m.contains("//"), "method {m} contains //");
    }
}

#[test]
fn control_error_maps_categories_to_rpc_codes() {
    let cases = [
        (ControlError::NotFound("x".into()), RpcCode::InvalidParams, "not_found"),
        (ControlError::InvalidRequest("x".into()), RpcCode::InvalidParams, "invalid_request"),
        (ControlError::PermissionDenied("x".into()), RpcCode::InvalidRequest, "permission_denied"),
        (ControlError::Unavailable("x".into()), RpcCode::InternalError, "unavailable"),
        (ControlError::NotSupported("x".into()), RpcCode::MethodNotSupported, "not_supported"),
        (ControlError::Conflict("x".into()), RpcCode::InvalidRequest, "conflict"),
        (ControlError::Internal("x".into()), RpcCode::InternalError, "internal"),
    ];
    for (err, expected_code, expected_category) in cases {
        let category = err.category();
        let rpc = err.into_rpc_error();
        assert_eq!(rpc.code, expected_code, "code for {category}");
        assert_eq!(
            rpc.data.unwrap().get("category").unwrap().as_str().unwrap(),
            expected_category,
        );
    }
}

#[test]
fn control_errors_answer_with_their_whole_text() {
    let rpc = ControlError::PermissionDenied("no".into()).into_rpc_error();
    assert_eq!(rpc.message, "permission denied: no");
    assert_eq!(ControlError::NotFound("w".into()).message(), "not found: w");
    assert_eq!(ControlError::Conflict("w".into()).message(), "conflict: w");
}

#[test]
fn workflow_stream_names() {
    assert_eq!(METHOD_WORKFLOW_EVENTS, "workflow/events");
    assert_eq!(NOTIFICATION_WORKFLOW_EVENT, "workflow/event");
    assert_eq!(NOTIFICATION_SUBSCRIPTION_CLOSED, "subscription/closed");
}

// Frames

fn json(text: &str) -> serde_json::Value {
    serde_json::from_str(text).unwrap()
}

#[test]
fn lines_without_a_frame_are_skipped() {
    for line in ["", "  \n", "not json", "[1, 2]", "\"text\"", "3", "null"] {
        assert!(matches!(read_frame(line), Frame::Skip), "{line}");
    }
}

#[test]
fn notifications_go_to_their_stream() {
    let line = r#" {"jsonrpc":"2.0","method":"daemon/event","params":{"id":7,"data":{"a":1}}} "#;
    match read_frame(line) {
        Frame::Event { request, data } => {
            assert_eq!(request, 7);
            assert_eq!(data, json(r#"{"a":1}"#));
        }
        other => panic!("{other:?}"),
    }
    let line = r#"{"id":null,"method":"daemon/event","params":{"id":"+18"}}"#;
    match read_frame(line) {
        Frame::Event { request, data } => {
            assert_eq!(request, 18);
            assert!(data.is_null());
        }
        other => panic!("{other:?}"),
    }
    let line = r#"{"method":"subscription/closed","params":{"id":7,"reason":"done"}}"#;
    assert!(matches!(read_frame(line), Frame::Closed { request: 7 }));
    for line in [
        r#"{"method":"daemon/event"}"#,
        r#"{"method":"daemon/event","params":[7]}"#,
        r#"{"method":"daemon/event","params":{"id":true}}"#,
        r#"{"method":"subscription/closed","params":{}}"#,
    ] {
        assert!(matches!(read_frame(line), Frame::Skip), "{line}");
    }
}

#[test]
fn other_objects_are_answers() {
    for line in [
        r#"{"id":1,"result":{}}"#,
        r#"{"id":1,"method":"daemon/event","params":{"id":7}}"#,
        r#"{"result":{}}"#,
    ] {
        match read_frame(line) {
            Frame::Answer { frame } => assert_eq!(frame, json(line)),
            other => panic!("{other:?}"),
        }
    }
}

#[test]
fn ids_are_numbers_or_texts_with_numbers() {
    for (text, id) in [
        ("0", Some(0)),
        ("18446744073709551615", Some(u64::MAX)),
        ("18446744073709551616", None),
        ("-1", None),
        ("1.5", None),
        ("\"42\"", Some(42)),
        ("\"+42\"", Some(42)),
        ("\"0042\"", Some(42)),
        ("\"18446744073709551615\"", Some(u64::MAX)),
        ("\"18446744073709551616\"", None),
        ("\"99999999999999999999999\"", None),
        ("\"\"", None),
        ("\"+\"", None),
        ("\"++1\"", None),
        ("\" 1\"", None),
        ("\"1a\"", None),
        ("\"-1\"", None),
        ("true", None),
        ("null", None),
        ("[1]", None),
    ] {
        assert_eq!(value_as_u64(&json(text)), id, "{text}");
    }
}

#[test]
fn requests_and_cancellations_have_their_shape() {
    assert_eq!(
        request_frame(5, "daemon/status", serde_json::Value::Null),
        json(r#"{"jsonrpc":"2.0","id":5,"method":"daemon/status","params":null}"#)
    );
    assert_eq!(
        request_frame(6, "queue/drop", json(r#"{"id":"q"}"#)),
        json(r#"{"jsonrpc":"2.0","id":6,"method":"queue/drop","params":{"id":"q"}}"#)
    );
    assert_eq!(
        cancel_frame(9),
        json(r#"{"jsonrpc":"2.0","method":"$/cancelRequest","params":{"id":9}}"#)
    );
}

#[test]
fn limits_go_into_objects_alone() {
    assert_eq!(
        with_limit(json(r#"{"level":"info","limit":1}"#), 50),
        json(r#"{"level":"info","limit":50}"#)
    );
    assert_eq!(with_limit(json("[1]"), 50), json("[1]"));
    assert_eq!(with_limit(json("null"), 50), json("null"));
}

#[test]
fn answers_are_results_or_errors() {
    let error = AnswerError { code: -32601, message: "no such method".to_string() };
    assert_eq!(
        result_of("daemon/status", Some(error.clone()), Some(json("1"))).unwrap_err(),
        "daemon/status failed (code -32601): no such method"
    );
    assert_eq!(failure("m", &AnswerError { code: 0, message: "x".to_string() }), "m failed (code 0): x");
    assert_eq!(
        failure("m", &AnswerError { code: i32::MIN, message: String::new() }),
        "m failed (code -2147483648): "
    );
    assert_eq!(
        result_of("daemon/status", None, None).unwrap_err(),
        "daemon/status: response missing result"
    );
    assert_eq!(result_of("daemon/status", None, Some(json("1"))).unwrap(), json("1"));
}

#[test]
fn routes_give_each_caller_one_answer() {
    let mut routes: Routes<&str, &str> = Routes::new();
    assert_eq!(routes.call("a"), 1);
    assert_eq!(routes.open("b", "events"), 2);
    assert_eq!(routes.call("c"), 3);
    assert_eq!(routes.answer(1), Some("a"));
    assert_eq!(routes.answer(1), None);
    assert_eq!(routes.stream(2), Some(&"events"));
    assert_eq!(routes.stream(1), None);
    assert_eq!(routes.answer(2), Some("b"));
    assert_eq!(routes.stream(2), Some(&"events"));
    assert_eq!(routes.close(2), Some("events"));
    assert_eq!(routes.stream(2), None);
    assert_eq!(routes.close(2), None);
    assert_eq!(routes.open("d", "logs"), 4);
    routes.drain();
    assert_eq!(routes.answer(3), None);
    assert_eq!(routes.answer(4), None);
    assert_eq!(routes.stream(4), None);
    assert_eq!(routes.call("e"), 5);
}

#[test]
fn following_changes_one_field() {
    let request = following(DaemonLogsRequest {
        since: None,
        level: Some("info".to_string()),
        follow: false,
        ..DaemonLogsRequest::default()
    });
    assert!(request.follow);
    assert_eq!(request.level.as_deref(), Some("info"));
}
