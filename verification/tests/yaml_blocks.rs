use animus_protocol::config::agent_types::{
    default_backoff_factor, default_command_cwd_mode, default_eval_expected_exit,
    default_max_risk, default_min_confidence, default_success_exit_codes, default_true,
    CommandCwdMode, PhaseFieldDefinition, PhaseOutputContract, WorkflowDecisionRisk,
};
use animus_protocol::config::workflow_types::{
    default_debounce_secs, default_keep_last_per_phase, default_max_triggers_per_minute,
    WorktreeConfig,
};
use animus_protocol::config::yaml_diagnostic::YamlDiagnostic;
use animus_protocol::config::yaml_tree::{YamlEntry, YamlNode};
use animus_protocol::config::yaml_types::{
    phase_entry_from_node, worktree_from_node, YamlPhaseEntry, YamlPhaseWorktree,
    YamlSubWorkflowRef,
};
use animus_protocol::text_map::TextMap;

fn text(s: &str) -> YamlNode {
    YamlNode::Text(s.to_string())
}

fn mapping(pairs: Vec<(&str, YamlNode)>) -> YamlNode {
    YamlNode::Mapping(
        pairs.into_iter().map(|(k, value)| YamlEntry { key: text(k), value }).collect(),
    )
}

#[test]
fn phase_entries_are_names_references_or_maps() {
    let unread = || Err("unread".to_string());
    match phase_entry_from_node(text("impl"), unread(), Err("unread".to_string())) {
        Ok(YamlPhaseEntry::Simple(id)) => assert_eq!(id, "impl"),
        other => panic!("{other:?}"),
    }
    let reference = YamlSubWorkflowRef { workflow_ref: "build".to_string() };
    match phase_entry_from_node(
        mapping(vec![("workflow_ref", text("build"))]),
        Ok(reference),
        Err("unread".to_string()),
    ) {
        Ok(YamlPhaseEntry::SubWorkflow(r)) => assert_eq!(r.workflow_ref, "build"),
        other => panic!("{other:?}"),
    }
    assert_eq!(
        phase_entry_from_node(mapping(vec![]), unread(), Ok(TextMap::new())).unwrap_err(),
        "rich phase entry must be a single-key map `{ <phase_id>: { ... } }`; got 0 keys"
    );
    assert_eq!(
        phase_entry_from_node(
            mapping(vec![("workflow_reff", text("build"))]),
            Err("sub".to_string()),
            Err("rich".to_string()),
        )
        .unwrap_err(),
        "invalid sub-workflow ref: sub"
    );
    let shape = phase_entry_from_node(
        mapping(vec![("impl", mapping(vec![]))]),
        Err("sub".to_string()),
        Err("rich".to_string()),
    )
    .unwrap_err();
    assert!(shape.starts_with("invalid phase entry shape: rich. expected one of:"), "{shape}");
    let number = phase_entry_from_node(YamlNode::Number, unread(), Err("unread".to_string()));
    assert!(number.unwrap_err().ends_with("got number"));
}

#[test]
fn worktree_blocks_are_flags_modes_or_maps() {
    let unread = || Err("unread".to_string());
    assert!(matches!(
        worktree_from_node(YamlNode::Bool(false), unread()),
        Ok(YamlPhaseWorktree::Bool(false))
    ));
    assert!(matches!(
        worktree_from_node(text(" Skip "), unread()),
        Ok(YamlPhaseWorktree::Mode(mode)) if mode == " Skip "
    ));
    let wrong = worktree_from_node(text("skp"), unread()).unwrap_err();
    assert!(wrong.starts_with("invalid `worktree:` value `skp`"), "{wrong}");
    assert!(wrong.ends_with("did you mean `skip`?"), "{wrong}");
    assert!(matches!(
        worktree_from_node(mapping(vec![]), Ok(WorktreeConfig::skip())),
        Ok(YamlPhaseWorktree::Full(_))
    ));
    let map = worktree_from_node(mapping(vec![("mode", text("x"))]), unread()).unwrap_err();
    assert!(map.starts_with("invalid `worktree:` map: unread"), "{map}");
    assert!(worktree_from_node(YamlNode::Null, unread()).unwrap_err().ends_with("got null"));
}

#[test]
fn output_contracts_require_listed_and_marked_fields() {
    let field = |required: bool| PhaseFieldDefinition {
        field_type: "string".to_string(),
        required,
        description: None,
        enum_values: Vec::new(),
        items: None,
        fields: None,
    };
    let mut fields = TextMap::new();
    fields.insert("Marked".to_string(), field(true));
    fields.insert("free".to_string(), field(false));
    let contract = PhaseOutputContract {
        kind: "result".to_string(),
        required_fields: vec!["Listed".to_string()],
        fields,
    };
    assert!(contract.requires_field("listed"));
    assert!(contract.requires_field("MARKED"));
    assert!(!contract.requires_field("free"));
    assert!(!contract.requires_field("other"));
    assert!(!field(true).has_nested_fields());
    let mut nested = field(true);
    let mut inner = TextMap::new();
    inner.insert("x".to_string(), field(false));
    nested.fields = Some(Box::new(inner));
    assert!(nested.has_nested_fields());
}

#[test]
fn settings_have_their_defaults() {
    assert_eq!(f64::from_bits(default_backoff_factor().bits), 1.0);
    assert_eq!(f32::from_bits(default_min_confidence().bits), 0.6);
    assert!(matches!(default_max_risk(), WorkflowDecisionRisk::Medium));
    assert!(default_true());
    assert_eq!(default_eval_expected_exit(), 0);
    assert_eq!(default_command_cwd_mode(), CommandCwdMode::TaskRoot);
    assert_eq!(default_success_exit_codes(), vec![0]);
    assert_eq!(default_keep_last_per_phase(), 3);
    assert_eq!(default_debounce_secs(), 5);
    assert_eq!(default_max_triggers_per_minute(), 10);
}

#[test]
fn notes_are_rendered() {
    let rendered = YamlDiagnostic::new("c", "m").with_note("look here").render();
    assert!(rendered.contains("look here"), "{rendered}");
}
