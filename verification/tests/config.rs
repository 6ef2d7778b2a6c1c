use animus_protocol::config::agent_types::{
    agent_memory_capability_enabled, glob_match, merge_agent_profile, AgentProfile,
    AgentProfileOverlay, AgentToolPolicy, ApprovalPolicy, ApprovalPolicyDecision,
    ApprovalPolicyDefault, CommandCwdMode, Idempotency, PhaseExecutionMode,
};
use animus_protocol::config::builtins::builtin_workflow_config;
use animus_protocol::config::compile::{
    finish_overlay, overlay_of_file, redacted_error, with_default_workflow_ref,
};
use animus_protocol::config::conversion::{
    parse_cwd_mode, phase_execution_definition_to_yaml, workflow_definition_to_yaml,
    yaml_phase_to_execution_definition, yaml_workflow_to_workflow_definition,
};
use animus_protocol::config::enrich::{refusal_diagnostic, refused_yaml};
use animus_protocol::config::env_interp::interpolate_env_with;
use animus_protocol::config::models::resolve_agent_model_references;
use animus_protocol::config::overlay::{
    authored_blocks, defines_phase, remove_phase_from, upsert_phase, upsert_pipeline,
    workflow_config_to_yaml_file,
};
use animus_protocol::config::parse::merge_yaml_into_config;
use animus_protocol::config::prompt_files::{
    apply_prompt, begin, find_field_line_in_agent, next_step, pack_root_message, PromptEvent,
    PromptStep,
};
use animus_protocol::config::redaction::redact_resolved_secret_values;
use animus_protocol::config::removed::{
    reject_removed_post_success_merge, reject_removed_settings, source_label, RemovedSetting,
};
use animus_protocol::config::source::{
    CacheToken, ConfigDiagnostic, ConfigModel, ConfigValidateResponse, DiagnosticSeverity,
    CONFIG_MODEL_SCHEMA_ID,
};
use animus_protocol::config::sources::{
    add_source, interpolation_context, source_context, source_names, yaml_workflows_dir,
    yaml_workflows_file,
};
use animus_protocol::config::variables::{expand_variables, resolve_workflow_variables};
use animus_protocol::config::workflow_refs::{collect_workflow_refs, expand_workflow_phases};
use animus_protocol::config::workflow_types::{
    FileWatcherTriggerConfig, PhaseUiDefinition, SubWorkflowRef, WebhookTriggerConfig,
    WorkflowConfig,
    WorkflowDefinition, WorkflowPhaseEntry, WorkflowVariable, WorktreeConfig, WorktreeMode,
};
use animus_protocol::config::yaml_diagnostic::{closest_match, edit_distance, YamlDiagnostic};
use animus_protocol::config::yaml_types::{
    title_case_phase_id, ModelRegistryEntry, YamlPhaseDefinition, YamlPhaseEntry,
    YamlPhaseWorktree, YamlWorkflowDefinition, YamlWorkflowFile,
};
use animus_protocol::text_map::TextMap;

fn strings(items: &[&str]) -> Vec<String> {
    items.iter().map(|s| s.to_string()).collect()
}

fn text_map(pairs: &[(&str, &str)]) -> TextMap<String> {
    let mut map = TextMap::new();
    for (k, v) in pairs {
        map.insert(k.to_string(), v.to_string());
    }
    map
}

// Config sources

#[test]
fn config_model_compat_check() {
    let model = ConfigModel::new(
        serde_json::from_str(&format!("{{\"schema\": \"{CONFIG_MODEL_SCHEMA_ID}\"}}")).unwrap(),
    );
    assert!(model.is_compatible());

    let future = ConfigModel {
        schema: CONFIG_MODEL_SCHEMA_ID.to_string(),
        version: 99,
        config: serde_json::Value::Null,
    };
    assert!(!future.is_compatible());

    let foreign = ConfigModel {
        schema: "something.else".to_string(),
        version: 2,
        config: serde_json::Value::Null,
    };
    assert!(!foreign.is_compatible());
}

#[test]
fn earlier_models_are_compatible() {
    let earlier = ConfigModel {
        schema: CONFIG_MODEL_SCHEMA_ID.to_string(),
        version: 1,
        config: serde_json::Value::Null,
    };
    assert!(earlier.is_compatible());
    assert!(!CacheToken::version("etag-123".to_string()).external_inputs);
    assert!(CacheToken::external("etag-123".to_string()).external_inputs);
}

#[test]
fn validate_response_ok_when_only_warnings() {
    let resp = ConfigValidateResponse {
        diagnostics: vec![ConfigDiagnostic {
            severity: DiagnosticSeverity::Warning,
            message: "unresolved skill".to_string(),
            file: None,
            line: None,
            column: None,
        }],
    };
    assert!(resp.is_ok());
}

#[test]
fn one_error_fails_a_validation() {
    let mut resp = ConfigValidateResponse::default();
    assert!(resp.is_ok());
    for severity in [DiagnosticSeverity::Warning, DiagnosticSeverity::Error] {
        resp.diagnostics.push(ConfigDiagnostic {
            severity,
            message: String::new(),
            file: None,
            line: None,
            column: None,
        });
    }
    assert!(!resp.is_ok());
}

// Diagnostics

#[test]
fn edit_distance_basic() {
    assert_eq!(edit_distance("phases", "phasess"), 1);
    assert_eq!(edit_distance("agent", "agnet"), 2);
    assert_eq!(edit_distance("auto", "optional"), 6);
    assert_eq!(edit_distance("yes", "true"), 4);
}

#[test]
fn edit_distance_is_symmetric_and_zero_on_itself() {
    assert_eq!(edit_distance("kitten", "sitting"), 3);
    assert_eq!(edit_distance("sitting", "kitten"), 3);
    assert_eq!(edit_distance("phases", "phases"), 0);
    assert_eq!(edit_distance("", "abc"), usize::MAX);
}

#[test]
fn closest_match_picks_within_threshold() {
    let cands = ["auto", "required", "skip"];
    assert_eq!(closest_match("skp", &cands, 2), Some("skip"));
    assert_eq!(closest_match("aut", &cands, 2), Some("auto"));
    assert_eq!(closest_match("xxxxxxxx", &cands, 2), None);
}

#[test]
fn diagnostic_renders_rustc_style() {
    let yaml = "phases:\n  build:\n    worktree: no\n";
    let diag = YamlDiagnostic::new("yaml.invalid_worktree", "invalid `worktree:` value")
        .with_file("/tmp/x.yaml")
        .with_location(3, 5)
        .with_expected(vec!["string: \"auto\" | \"required\" | \"skip\"", "boolean: true | false"])
        .with_suggestion("false")
        .with_excerpt_from(yaml, 3, 5, 19);
    let rendered = diag.render();
    assert!(rendered.contains("error: invalid `worktree:` value"));
    assert!(rendered.contains("--> /tmp/x.yaml:3:5"));
    assert!(rendered.contains("worktree: no"));
    assert!(rendered.contains("^^^"));
    assert!(rendered.contains("expected one of:"));
    assert!(rendered.contains("did you mean `false`"));
}

#[test]
fn refused_yaml_is_shown_as_it_was_written() {
    let original = "name: ${NAME}\nlist: [\n";
    let resolved = "name: expanded\nlist: [\n";
    let err = serde_yaml::from_str::<serde_yaml::Value>(resolved).unwrap_err();
    let location = err.location().unwrap();
    let diag = refused_yaml(&err, resolved, Some("a.yaml"), Some(original));
    assert_eq!(diag.line, Some(location.line()));
    assert_eq!(diag.file.as_deref(), Some("a.yaml"));
    let rendered = diag.render();
    assert!(rendered.contains("${NAME}"), "{rendered}");
    assert!(!rendered.contains("expanded"), "{rendered}");
}

#[test]
fn unknown_fields_are_placed_and_matched() {
    let yaml = "phases:\n  build:\n    directve: x\n";
    let diag = refusal_diagnostic(
        "phases.build: unknown field `directve`, expected one of `mode`, `directive`",
        Some((3, 5)),
        yaml,
        None,
        None,
    );
    let rendered = diag.render();
    assert!(rendered.contains("directve"), "{rendered}");
    assert!(rendered.contains("did you mean `directive`"), "{rendered}");
}

// Environment variables

#[test]
fn secrets_survive_beside_variables() {
    let out = interpolate_env_with("a: ${secret.x} ${Y}\n", "t", |name: &str| {
        if name == "Y" {
            Some("${Z}".to_string())
        } else {
            None
        }
    })
    .unwrap();
    assert_eq!(out, "a: ${secret.x} ${Z}\n");
}

#[test]
fn bad_names_are_reported_on_their_line() {
    let err = interpolate_env_with("a: 1\nb: ${A-B}\n", "t.yaml", |_: &str| None).unwrap_err();
    assert_eq!(err.line, 2);
    assert!(err.message().contains("A-B"), "{}", err.message());
}

// Model registry

fn make_test_registry() -> TextMap<ModelRegistryEntry> {
    let mut registry = TextMap::new();
    registry.insert(
        "opus".to_string(),
        ModelRegistryEntry {
            model: "sonnet-4-20250514".to_string(),
            tool: Some("sonnet-cli".to_string()),
        },
    );
    registry.insert(
        "gpt4o".to_string(),
        ModelRegistryEntry { model: "gpt-4o".to_string(), tool: Some("oai-runner".to_string()) },
    );
    registry.insert(
        "o4-mini".to_string(),
        ModelRegistryEntry { model: "o4-mini".to_string(), tool: None },
    );
    registry
}

fn make_empty_profile() -> AgentProfileOverlay {
    AgentProfileOverlay {
        description: Some("test".to_string()),
        system_prompt: Some("test prompt".to_string()),
        ..AgentProfileOverlay::default()
    }
}

fn tool_for_model_id(id: &str) -> String {
    format!("tool-of-{id}")
}

#[test]
fn model_registry_resolves_primary_and_fallbacks() {
    let registry = make_test_registry();
    let mut profile = make_empty_profile();
    profile.models = Some(vec!["opus".to_string(), "gpt4o".to_string()]);

    resolve_agent_model_references(&mut profile, &registry, &tool_for_model_id);

    assert_eq!(profile.model.as_deref(), Some("sonnet-4-20250514"));
    assert_eq!(profile.tool.as_deref(), Some("sonnet-cli"));
    assert_eq!(profile.fallback_models.clone().unwrap_or_default(), vec!["gpt-4o"]);
    assert_eq!(profile.fallback_tools.clone().unwrap_or_default(), vec!["oai-runner"]);
    assert!(profile.models.is_none(), "name list should be cleared after expansion");
}

#[test]
fn model_registry_resolves_single_entry_as_primary_only() {
    let registry = make_test_registry();
    let mut profile = make_empty_profile();
    profile.models = Some(vec!["o4-mini".to_string()]);

    resolve_agent_model_references(&mut profile, &registry, &tool_for_model_id);

    assert_eq!(profile.model.as_deref(), Some("o4-mini"));
    assert_eq!(
        profile.tool.as_deref(),
        Some(tool_for_model_id("o4-mini").as_str()),
        "no explicit tool in registry: derived from the model id"
    );
    assert!(profile.fallback_models.as_deref().unwrap_or_default().is_empty());
    assert!(profile.fallback_tools.as_deref().unwrap_or_default().is_empty());
}

#[test]
fn model_registry_non_registry_name_treated_as_literal_model_id() {
    let registry = make_test_registry();
    let mut profile = make_empty_profile();
    profile.models = Some(vec!["opus".to_string(), "deepseek-v3".to_string()]);

    resolve_agent_model_references(&mut profile, &registry, &tool_for_model_id);

    assert_eq!(profile.model.as_deref(), Some("sonnet-4-20250514"));
    assert_eq!(profile.fallback_models.clone().unwrap_or_default(), vec!["deepseek-v3"]);
    assert!(profile.fallback_tools.as_deref().unwrap_or_default().is_empty());
}

#[test]
fn model_registry_empty_list_leaves_profile_unchanged() {
    let registry = make_test_registry();
    let mut profile = make_empty_profile();
    profile.model = Some("existing-model".to_string());

    resolve_agent_model_references(&mut profile, &registry, &tool_for_model_id);

    assert_eq!(profile.model.as_deref(), Some("existing-model"));
    assert!(profile.fallback_models.as_deref().unwrap_or_default().is_empty());
}

#[test]
fn model_registry_preserves_existing_model_when_models_empty() {
    let registry = make_test_registry();
    let mut profile = make_empty_profile();
    profile.model = Some("hardcoded-model".to_string());
    profile.fallback_models = Some(vec!["hardcoded-fallback".to_string()]);

    resolve_agent_model_references(&mut profile, &registry, &tool_for_model_id);

    assert_eq!(profile.model.as_deref(), Some("hardcoded-model"));
    assert_eq!(profile.fallback_models.clone().unwrap_or_default(), vec!["hardcoded-fallback"]);
}

#[test]
fn model_registry_skips_empty_name_entries() {
    let registry = make_test_registry();
    let mut profile = make_empty_profile();
    profile.models = Some(vec!["".to_string(), "opus".to_string(), "  ".to_string()]);

    resolve_agent_model_references(&mut profile, &registry, &tool_for_model_id);

    assert_eq!(profile.model.as_deref(), Some("sonnet-4-20250514"));
    assert!(profile.fallback_models.as_deref().unwrap_or_default().is_empty());
}

#[test]
fn model_registry_tool_override_takes_precedence_over_profile_tool() {
    let registry = make_test_registry();
    let mut profile = make_empty_profile();
    profile.models = Some(vec!["opus".to_string()]);
    profile.tool = Some("original-tool".to_string());

    resolve_agent_model_references(&mut profile, &registry, &tool_for_model_id);

    assert_eq!(profile.tool.as_deref(), Some("sonnet-cli"));
}

#[test]
fn fallback_tools_keep_the_index_of_their_models() {
    let registry = make_test_registry();
    let mut profile = AgentProfileOverlay {
        models: Some(strings(&["opus", "o4-mini", "gpt4o"])),
        ..AgentProfileOverlay::default()
    };

    resolve_agent_model_references(&mut profile, &registry, &tool_for_model_id);

    assert_eq!(profile.model.as_deref(), Some("sonnet-4-20250514"));
    assert_eq!(profile.tool.as_deref(), Some("sonnet-cli"));
    assert_eq!(profile.fallback_models, Some(strings(&["o4-mini", "gpt-4o"])));
    assert_eq!(profile.fallback_tools, Some(strings(&["", "oai-runner"])));
    assert!(profile.models.is_none());
}

#[test]
fn fallback_tools_end_with_the_last_one_given() {
    let registry = make_test_registry();
    let mut profile = make_empty_profile();
    profile.models = Some(strings(&["o4-mini", "gpt4o", "o4-mini", "deepseek-v3"]));

    resolve_agent_model_references(&mut profile, &registry, &tool_for_model_id);

    assert_eq!(profile.tool.as_deref(), Some("tool-of-o4-mini"));
    assert_eq!(profile.fallback_models, Some(strings(&["gpt-4o", "o4-mini", "deepseek-v3"])));
    assert_eq!(profile.fallback_tools, Some(strings(&["oai-runner"])));
}

#[test]
fn expansion_of_models_happens_once() {
    let registry = make_test_registry();
    let mut profile = make_empty_profile();
    profile.models = Some(strings(&["opus", "gpt4o"]));
    resolve_agent_model_references(&mut profile, &registry, &tool_for_model_id);
    let model = profile.model.clone();
    let fallbacks = profile.fallback_models.clone();
    resolve_agent_model_references(&mut profile, &registry, &tool_for_model_id);
    assert_eq!(profile.model, model);
    assert_eq!(profile.fallback_models, fallbacks);
}

// Agent profiles

#[test]
fn patterns_match_by_their_stars() {
    for (pattern, value, matches) in [
        ("*", "", true),
        ("*", "anything", true),
        ("git.*", "git.push", true),
        ("git.*", "gh.push", false),
        ("*.push", "git.push", true),
        ("git.*.force", "git.push.force", true),
        ("git", "git", true),
        ("git", "git.push", false),
        ("", "", true),
        ("", "x", false),
    ] {
        assert_eq!(glob_match(pattern, value), matches, "{pattern} {value}");
    }
}

#[test]
fn tool_policies_deny_first() {
    let policy =
        AgentToolPolicy { allow: strings(&["git.*"]), deny: strings(&["git.push"]) };
    assert!(policy.is_tool_permitted("git.status"));
    assert!(!policy.is_tool_permitted("git.push"));
    assert!(!policy.is_tool_permitted("gh.pr"));
    let open = AgentToolPolicy::default();
    assert!(open.is_tool_permitted("anything"));
}

#[test]
fn approvals_deny_before_they_allow() {
    let mut policy = ApprovalPolicy {
        auto_allow: strings(&["read.*"]),
        auto_deny: strings(&["read.secret"]),
        ..ApprovalPolicy::default()
    };
    assert_eq!(policy.evaluate("read.file"), ApprovalPolicyDecision::Allow);
    assert_eq!(policy.evaluate("read.secret"), ApprovalPolicyDecision::Deny);
    assert_eq!(policy.evaluate("write"), ApprovalPolicyDecision::Ask);
    for (default, decision) in [
        (ApprovalPolicyDefault::Allow, ApprovalPolicyDecision::Allow),
        (ApprovalPolicyDefault::Deny, ApprovalPolicyDecision::Deny),
        (ApprovalPolicyDefault::Llm, ApprovalPolicyDecision::Evaluate),
        (ApprovalPolicyDefault::Ask, ApprovalPolicyDecision::Ask),
    ] {
        policy.default = default;
        assert_eq!(policy.evaluate("write"), decision);
    }
}

#[test]
fn later_layers_win_field_by_field() {
    let mut base = AgentProfileOverlay {
        model: Some("a".to_string()),
        tool: Some("t".to_string()),
        ..AgentProfileOverlay::default()
    };
    base.merge_from(AgentProfileOverlay {
        model: Some("b".to_string()),
        ..AgentProfileOverlay::default()
    });
    assert_eq!(base.model.as_deref(), Some("b"));
    assert_eq!(base.tool.as_deref(), Some("t"));
    base.merge_from(AgentProfileOverlay::default());
    assert_eq!(base.model.as_deref(), Some("b"));
    let mut profile = AgentProfile::default();
    merge_agent_profile(&mut profile, base);
    assert_eq!(profile.model.as_deref(), Some("b"));
    assert_eq!(profile.tool.as_deref(), Some("t"));
}

fn yaml_strings(block: &serde_yaml::Value, field: &str) -> Option<Vec<String>> {
    let items = block.get(field)?.as_sequence()?;
    items.iter().map(|item| item.as_str().map(str::to_string)).collect()
}

#[test]
fn overlay_classification_fields_round_trip_and_merge() {
    let yaml = r#"
retry_on:
  - network
no_retry_on:
  - validation
"#;
    let block: serde_yaml::Value = serde_yaml::from_str(yaml).expect("parse overlay");
    let overlay = AgentProfileOverlay {
        retry_on: yaml_strings(&block, "retry_on"),
        no_retry_on: yaml_strings(&block, "no_retry_on"),
        ..AgentProfileOverlay::default()
    };
    assert_eq!(overlay.retry_on, Some(vec!["network".to_string()]));
    assert_eq!(overlay.no_retry_on, Some(vec!["validation".to_string()]));

    let json = serde_json::to_string(&(&overlay.retry_on, &overlay.no_retry_on))
        .expect("serialize overlay");
    let (retry_on, no_retry_on): (Option<Vec<String>>, Option<Vec<String>>) =
        serde_json::from_str(&json).expect("deserialize overlay");
    assert_eq!(retry_on, overlay.retry_on);
    assert_eq!(no_retry_on, overlay.no_retry_on);

    let mut base = AgentProfile {
        retry_on: vec!["stale".to_string()],
        no_retry_on: Vec::new(),
        ..AgentProfile::default()
    };
    merge_agent_profile(&mut base, overlay);
    assert_eq!(base.retry_on, vec!["network".to_string()], "overlay retry_on wins");
    assert_eq!(base.no_retry_on, vec!["validation".to_string()]);
}

#[test]
fn profiles_round_trip_through_overlays() {
    let mut profile = AgentProfile::default();
    profile.model = Some("m".to_string());
    profile.skills = strings(&["a", "b"]);
    assert!(!agent_memory_capability_enabled(&profile));
    let overlay = AgentProfileOverlay::from(profile);
    let back = overlay.to_profile();
    assert_eq!(back.model.as_deref(), Some("m"));
    assert_eq!(back.skills, strings(&["a", "b"]));
}

// Workflows

fn workflow(id: &str, phases: Vec<WorkflowPhaseEntry>) -> WorkflowDefinition {
    WorkflowDefinition {
        id: id.to_string(),
        name: id.to_string(),
        description: String::new(),
        phases,
        variables: Vec::new(),
        worktree: None,
        budget: None,
        environment: None,
        workspace: None,
    }
}

fn simple(id: &str) -> WorkflowPhaseEntry {
    WorkflowPhaseEntry::Simple(id.to_string())
}

fn sub(id: &str) -> WorkflowPhaseEntry {
    WorkflowPhaseEntry::SubWorkflow(SubWorkflowRef { workflow_ref: id.to_string() })
}

#[test]
fn references_are_replaced_by_their_phases() {
    let workflows = vec![
        workflow("main", vec![simple("plan"), sub("BUILD"), simple("ship")]),
        workflow("build", vec![simple("compile"), simple("test")]),
    ];
    let phases = expand_workflow_phases(&workflows, "main").unwrap();
    let ids: Vec<&str> = phases.iter().map(|p| p.phase_id()).collect();
    assert_eq!(ids, vec!["plan", "compile", "test", "ship"]);
    assert_eq!(collect_workflow_refs(&workflows, "main").unwrap(), strings(&["main", "build"]));
    let missing = expand_workflow_phases(&workflows, "other").unwrap_err();
    assert_eq!(missing.message(), "sub-workflow 'other' not found");
}

#[test]
fn circular_references_are_refused() {
    let workflows = vec![workflow("a", vec![sub("b")]), workflow("b", vec![sub("a")])];
    let err = expand_workflow_phases(&workflows, "a").unwrap_err();
    assert!(err.message().starts_with("circular sub-workflow reference detected: 'a'"));
    assert!(collect_workflow_refs(&workflows, "a").is_err());
    let own = vec![workflow("a", vec![sub("a")])];
    assert!(expand_workflow_phases(&own, "a").is_err());
}

#[test]
fn variables_come_from_the_caller_or_their_default() {
    let vars = vec![
        WorkflowVariable {
            name: "given".to_string(),
            description: None,
            required: true,
            default: None,
        },
        WorkflowVariable {
            name: "fallback".to_string(),
            description: None,
            required: true,
            default: Some("d".to_string()),
        },
        WorkflowVariable {
            name: "none".to_string(),
            description: None,
            required: false,
            default: None,
        },
    ];
    let resolved = resolve_workflow_variables(&vars, &text_map(&[("given", "g")])).unwrap();
    assert_eq!(resolved.get("given").map(|s| s.as_str()), Some("g"));
    assert_eq!(resolved.get("fallback").map(|s| s.as_str()), Some("d"));
    assert!(resolved.get("none").is_none());
    let missing = resolve_workflow_variables(&vars, &text_map(&[])).unwrap_err();
    assert!(missing.message().contains("given"));
    assert!(!missing.message().contains("fallback"));
    assert_eq!(expand_variables("{{given}}-{{other}}", &resolved), "g-{{other}}");
    assert_eq!(expand_variables("plain", &resolved), "plain");
}

// Merging

#[test]
fn overlays_win_and_base_order_stays() {
    let mut base = builtin_workflow_config();
    base.default_workflow_ref = "one".to_string();
    base.workflows = vec![workflow("One", vec![]), workflow("two", vec![])];
    base.tools_allowlist = strings(&["b", "a"]);
    let mut overlay = builtin_workflow_config();
    overlay.workflows = vec![workflow("three", vec![]), workflow("one", vec![simple("x")])];
    overlay.tools_allowlist = strings(&["c", "a"]);
    let merged = merge_yaml_into_config(base, overlay);
    let ids: Vec<&str> = merged.workflows.iter().map(|w| w.id.as_str()).collect();
    assert_eq!(ids, vec!["one", "two", "three"]);
    assert_eq!(merged.workflows[0].phases.len(), 1);
    assert_eq!(merged.tools_allowlist, strings(&["a", "b", "c"]));
    assert_eq!(merged.default_workflow_ref, "one");
}

#[test]
fn an_overlay_can_be_merged_again() {
    let overlay = || {
        let mut config = builtin_workflow_config();
        config.workflows = vec![
            workflow("three", vec![]),
            workflow("One", vec![]),
            workflow("one", vec![simple("x")]),
        ];
        config
    };
    let mut base = builtin_workflow_config();
    base.workflows = vec![workflow("ONE", vec![]), workflow("two", vec![]), workflow("one", vec![])];
    let once = merge_yaml_into_config(base, overlay());
    let text = format!("{:?}", once);
    let twice = merge_yaml_into_config(once, overlay());
    assert_eq!(format!("{:?}", twice), text);
    let ids: Vec<&str> = twice.workflows.iter().map(|w| w.id.as_str()).collect();
    assert_eq!(ids, vec!["one", "two", "one", "three"]);
}

#[test]
fn a_merge_can_be_merged_again() {
    let base = || {
        let mut config = builtin_workflow_config();
        config.workflows = vec![workflow("One", vec![]), workflow("two", vec![])];
        config.tools_allowlist = strings(&["b", "a"]);
        config
    };
    let overlay = || {
        let mut config = builtin_workflow_config();
        config.workflows = vec![workflow("three", vec![]), workflow("one", vec![simple("x")])];
        config.tools_allowlist = strings(&["c", "a"]);
        config
    };
    let once = merge_yaml_into_config(base(), overlay());
    let text = format!("{:?}", once);
    let twice = merge_yaml_into_config(base(), once);
    assert_eq!(format!("{:?}", twice), text);
    assert_eq!(twice.workflows.len(), 3);
}

#[test]
fn agents_are_layered_when_merged() {
    let mut base = builtin_workflow_config();
    base.agent_profiles.insert(
        "dev".to_string(),
        AgentProfileOverlay { model: Some("a".to_string()), ..AgentProfileOverlay::default() },
    );
    let mut overlay = builtin_workflow_config();
    overlay.agent_profiles.insert(
        "dev".to_string(),
        AgentProfileOverlay { tool: Some("t".to_string()), ..AgentProfileOverlay::default() },
    );
    let merged = add_source(Some(base), overlay);
    let dev = merged.agent_profiles.get("dev").unwrap();
    assert_eq!(dev.model.as_deref(), Some("a"));
    assert_eq!(dev.tool.as_deref(), Some("t"));
    let alone = add_source(None, merged);
    assert!(alone.agent_profiles.get("dev").is_some());
}

#[test]
fn built_in_configuration_serves_its_own_tools() {
    let config = WorkflowConfig::default();
    assert_eq!(config.schema, "animus.workflow-config.v2");
    let server = config.mcp_servers.get("animus").unwrap();
    assert_eq!(server.command, "animus");
    assert_eq!(server.args, strings(&["mcp", "serve"]));
    assert!(config.workflows.is_empty());
    let named = with_default_workflow_ref(config, "standard");
    assert_eq!(named.default_workflow_ref, "standard");
    let kept = with_default_workflow_ref(named, "other");
    assert_eq!(kept.default_workflow_ref, "standard");
}

// Files

fn phase(mode: PhaseExecutionMode) -> YamlPhaseDefinition {
    YamlPhaseDefinition {
        mode,
        agent: None,
        command: None,
        manual: None,
        directive: None,
        system_prompt: None,
        skills: Vec::new(),
        runtime: None,
        capabilities: None,
        output_contract: None,
        output_json_schema: None,
        decision_contract: None,
        retry: None,
        default_tool: None,
        idempotency: Idempotency::Unknown,
        worktree: None,
        evals: None,
    }
}

#[test]
fn files_become_configurations() {
    let mut file = YamlWorkflowFile::default();
    file.workflows.push(YamlWorkflowDefinition {
        id: "standard".to_string(),
        name: None,
        description: None,
        phases: vec![YamlPhaseEntry::Simple("code-review".to_string())],
        variables: Vec::new(),
        worktree: Some(YamlPhaseWorktree::Mode("skip".to_string())),
        budget: None,
        environment: None,
        workspace: None,
    });
    let mut review = phase(PhaseExecutionMode::Agent);
    review.agent = Some("dev".to_string());
    file.phases.insert("code-review".to_string(), review);
    file.agents.insert(
        "dev".to_string(),
        AgentProfileOverlay {
            models: Some(strings(&["gpt4o"])),
            ..AgentProfileOverlay::default()
        },
    );
    file.models = make_test_registry();
    let (overlay, registry) = overlay_of_file(file).unwrap();
    assert_eq!(overlay.phase_catalog.get("code-review").unwrap().label, "Code Review");
    let config =
        finish_overlay(builtin_workflow_config(), overlay, &registry, &tool_for_model_id);
    assert_eq!(config.workflows[0].worktree.as_ref().unwrap().mode, WorktreeMode::Skip);
    let dev = config.agent_profiles.get("dev").unwrap();
    assert_eq!(dev.model.as_deref(), Some("gpt-4o"));
    assert_eq!(dev.tool.as_deref(), Some("oai-runner"));
}

#[test]
fn incomplete_phases_are_refused() {
    let mut file = YamlWorkflowFile::default();
    file.phases.insert("build".to_string(), phase(PhaseExecutionMode::Command));
    let err = overlay_of_file(file).unwrap_err();
    assert!(err.starts_with("error converting YAML phase 'build'"), "{err}");
    assert!(yaml_phase_to_execution_definition("build", phase(PhaseExecutionMode::Manual)).is_err());
}

#[test]
fn phases_and_workflows_round_trip() {
    let mut agent = phase(PhaseExecutionMode::Agent);
    agent.agent = Some("dev".to_string());
    agent.worktree = Some(YamlPhaseWorktree::Bool(false));
    let definition = yaml_phase_to_execution_definition("p", agent).unwrap();
    assert_eq!(definition.agent_id.as_deref(), Some("dev"));
    assert_eq!(definition.worktree.as_ref().unwrap().mode, WorktreeMode::Skip);
    let back =
        yaml_phase_to_execution_definition("p", phase_execution_definition_to_yaml(definition))
            .unwrap();
    assert_eq!(back.agent_id.as_deref(), Some("dev"));
    assert_eq!(back.worktree.as_ref().unwrap().mode, WorktreeMode::Skip);

    let yaml = workflow_definition_to_yaml(workflow("w", vec![simple("a"), sub("b")]));
    let again = yaml_workflow_to_workflow_definition(yaml).unwrap();
    assert_eq!(again.id, "w");
    assert_eq!(again.phase_ids(), strings(&["a", "b"]));
    assert!(again.phases[1].is_sub_workflow());
}

#[test]
fn directories_of_commands_have_names() {
    assert_eq!(parse_cwd_mode("project_root").unwrap(), CommandCwdMode::ProjectRoot);
    assert_eq!(parse_cwd_mode("task_root").unwrap(), CommandCwdMode::TaskRoot);
    assert_eq!(parse_cwd_mode("path").unwrap(), CommandCwdMode::Path);
    assert!(parse_cwd_mode("elsewhere").is_err());
    assert_eq!(title_case_phase_id("code-review_now"), "Code Review Now");
}

#[test]
fn worktree_modes_have_names() {
    assert_eq!(WorktreeConfig::parse_mode("auto").unwrap(), WorktreeMode::Auto);
    assert_eq!(WorktreeConfig::parse_mode("required").unwrap(), WorktreeMode::Required);
    assert_eq!(WorktreeConfig::parse_mode("skip").unwrap(), WorktreeMode::Skip);
    assert!(WorktreeConfig::parse_mode("no").is_err());
    assert_eq!(WorktreeConfig::skip().mode, WorktreeMode::Skip);
    assert_eq!(WorktreeConfig::required().mode, WorktreeMode::Required);
}

#[test]
fn trigger_defaults() {
    assert_eq!(FileWatcherTriggerConfig::default().debounce_secs, 5);
    assert_eq!(WebhookTriggerConfig::default().max_triggers_per_minute, 10);
}

#[test]
fn null_trigger_settings_are_the_defaults() {
    let null = serde_json::Value::Null;
    let object: serde_json::Value = serde_json::from_str("{}").unwrap();
    let watcher = || FileWatcherTriggerConfig {
        paths: strings(&["src"]),
        debounce_secs: 1,
        ignore: vec![],
    };
    let refused = || Err::<FileWatcherTriggerConfig, String>("no".to_string());
    assert_eq!(
        FileWatcherTriggerConfig::try_from_value(&null, refused()).unwrap().debounce_secs,
        5
    );
    assert_eq!(
        FileWatcherTriggerConfig::try_from_value(&object, refused()).unwrap_err(),
        "no".to_string()
    );
    assert_eq!(
        FileWatcherTriggerConfig::from_value(&object, Ok::<_, String>(watcher())).debounce_secs,
        1
    );
    assert_eq!(FileWatcherTriggerConfig::from_value(&object, refused()).debounce_secs, 5);

    let hook = || WebhookTriggerConfig { secret_env: None, max_triggers_per_minute: 3 };
    assert_eq!(
        WebhookTriggerConfig::from_value(&null, Ok::<_, String>(hook())).max_triggers_per_minute,
        10
    );
    assert_eq!(
        WebhookTriggerConfig::try_from_value(&object, Ok::<_, String>(hook()))
            .unwrap()
            .max_triggers_per_minute,
        3
    );
}

// Generated overlays

#[test]
fn phases_of_an_overlay_can_be_put_and_removed() {
    let definition =
        yaml_phase_to_execution_definition("Build", {
            let mut p = phase(PhaseExecutionMode::Agent);
            p.agent = Some("dev".to_string());
            p
        })
        .unwrap();
    let file = upsert_phase(YamlWorkflowFile::default(), "Build", definition, None);
    assert!(defines_phase(&file, "build"));
    assert!(!defines_phase(&file, "test"));
    let file = upsert_pipeline(file, workflow("w", vec![simple("Build")]));
    let file = upsert_pipeline(file, workflow("W", vec![]));
    assert_eq!(file.workflows.len(), 1);
    let (mut files, removed) = remove_phase_from(vec![file], "BUILD");
    assert!(removed);
    let (file, changed) = files.remove(0);
    assert!(changed);
    assert!(!defines_phase(&file, "Build"));
    let (mut files, removed) = remove_phase_from(vec![file], "Build");
    assert!(!removed);
    let (file, changed) = files.remove(0);
    assert!(!changed);
    assert_eq!(file.workflows.len(), 1);
}

fn catalog_entry(label: &str) -> PhaseUiDefinition {
    PhaseUiDefinition {
        label: label.to_string(),
        description: String::new(),
        category: "agent".to_string(),
        icon: None,
        docs_url: None,
        tags: vec![],
        visible: true,
    }
}

fn file_with_catalog_entry(phase_id: &str) -> YamlWorkflowFile {
    let mut catalog = TextMap::new();
    catalog.insert(phase_id.to_string(), catalog_entry("Build"));
    YamlWorkflowFile { phase_catalog: Some(catalog), ..YamlWorkflowFile::default() }
}

#[test]
fn a_catalog_entry_alone_defines_no_phase() {
    let file = file_with_catalog_entry("build");
    assert!(!defines_phase(&file, "build"));
    let (files, removed) = remove_phase_from(vec![file, YamlWorkflowFile::default()], "build");
    assert!(!removed);
    assert_eq!(files.len(), 2);
    assert!(files.iter().all(|(_, changed)| !changed));
    assert!(files[0].0.phase_catalog.as_ref().unwrap().get("build").is_some());
}

#[test]
fn a_defined_phase_leaves_every_catalog() {
    let definition =
        yaml_phase_to_execution_definition("build", {
            let mut p = phase(PhaseExecutionMode::Agent);
            p.agent = Some("dev".to_string());
            p
        })
        .unwrap();
    let defining = upsert_phase(
        file_with_catalog_entry("other"),
        "build",
        definition,
        Some(catalog_entry("Build")),
    );
    let files = vec![file_with_catalog_entry("Build"), defining, YamlWorkflowFile::default()];
    let (files, removed) = remove_phase_from(files, "build");
    assert!(removed);
    let changed: Vec<bool> = files.iter().map(|(_, changed)| *changed).collect();
    assert_eq!(changed, vec![true, true, false]);
    assert!(files[0].0.phase_catalog.as_ref().unwrap().get("Build").is_none());
    assert!(!defines_phase(&files[1].0, "build"));
    assert!(files[1].0.phase_catalog.as_ref().unwrap().get("build").is_none());
    assert!(files[1].0.phase_catalog.as_ref().unwrap().get("other").is_some());
    let files: Vec<YamlWorkflowFile> = files.into_iter().map(|(file, _)| file).collect();
    let (files, removed) = remove_phase_from(files, "build");
    assert!(!removed);
    assert!(files.iter().all(|(_, changed)| !changed));
}

#[test]
fn authored_blocks_drop_the_rest() {
    let mut file = YamlWorkflowFile::default();
    file.default_workflow_ref = Some("w".to_string());
    file.tools_allowlist = strings(&["t"]);
    file.phases.insert("p".to_string(), phase(PhaseExecutionMode::Agent));
    file.phase_catalog = Some(TextMap::new());
    let kept = authored_blocks(file);
    assert!(kept.default_workflow_ref.is_none());
    assert!(kept.tools_allowlist.is_empty());
    assert!(kept.phase_catalog.is_none());
    assert!(kept.phases.contains_key("p"));
    let mut config = builtin_workflow_config();
    config.workflows.push(workflow("w", vec![]));
    let yaml = workflow_config_to_yaml_file(config);
    assert_eq!(yaml.workflows[0].id, "w");
}

// Removed settings

#[test]
fn removed_settings_are_refused_with_their_line() {
    let yaml = "workflows:\n  - id: w\n    post_success:\n      merge:\n        strategy: squash\n";
    let err = reject_removed_post_success_merge(yaml, Some("a.yaml")).unwrap_err();
    assert!(err.starts_with("`post_success.merge` was removed in v0.5.x (a.yaml:4)"), "{err}");
    let yaml = "integrations:\n  git:\n    auto_merge: false\n";
    let err = reject_removed_post_success_merge(yaml, None).unwrap_err();
    assert!(
        err.starts_with("`integrations.git.auto_merge` was removed in v0.5.x (<in-memory>:3)"),
        "{err}"
    );
    assert!(reject_removed_post_success_merge("workflows:\n  - id: w\n", None).is_ok());
    assert!(reject_removed_post_success_merge("workflows: [", None).is_ok());
    let err = reject_removed_settings(Some(RemovedSetting::AutoMerge), "", Some("b")).unwrap_err();
    assert!(err.contains("(b)"), "{err}");
    assert!(reject_removed_settings(None, "auto_merge: true", None).is_ok());
    assert_eq!(source_label(None), "<in-memory>");
    assert_eq!(source_label(Some("x.yaml")), "x.yaml");
}

// Redaction

#[test]
fn resolved_secrets_do_not_show() {
    let secrets = text_map(&[("s3cr\"et", "api"), ("s3cr\"et-and-more", "long"), ("abc", "short")]);
    assert_eq!(
        redact_resolved_secret_values("a s3cr\"et b s3cr\"et-and-more c abc", &secrets),
        "a [redacted:api] b [redacted:long] c abc"
    );
    assert_eq!(
        redact_resolved_secret_values("\"s3cr\\\"et\"", &secrets),
        "\"[redacted:api]\""
    );
    assert_eq!(redact_resolved_secret_values("clean", &secrets), "clean");
    assert_eq!(redacted_error("clean", &secrets), None);
    assert_eq!(
        redacted_error("x s3cr\"et", &secrets).as_deref(),
        Some("x [redacted:api]")
    );
}

// Prompt files

fn with_prompt_file(path: &str) -> AgentProfileOverlay {
    AgentProfileOverlay {
        system_prompt_file: Some(path.to_string()),
        ..AgentProfileOverlay::default()
    }
}

fn inspected(step: PromptStep, resolved: &str) -> PromptStep {
    next_step(
        step,
        PromptEvent::Inspected {
            absolute: false,
            parent_segment: false,
            resolved: resolved.to_string(),
        },
    )
}

#[test]
fn prompt_files_are_measured_and_read() {
    let profile = with_prompt_file(" prompts/dev.md ");
    let step = begin("dev", &profile, "", Some("/p/a.yaml"), false);
    assert!(matches!(&step, PromptStep::InspectPath(_, path) if path == "prompts/dev.md"));
    let step = inspected(step, "/p/prompts/dev.md");
    assert!(matches!(&step, PromptStep::Measure(_, path) if path == "/p/prompts/dev.md"));
    let step = next_step(step, PromptEvent::Size(12));
    assert!(matches!(&step, PromptStep::Read(_, path) if path == "/p/prompts/dev.md"));
    match next_step(step, PromptEvent::Contents(b"  be kind \n".to_vec())) {
        PromptStep::Finished(text) => {
            assert_eq!(text, "  be kind \n");
            let mut profile = with_prompt_file("x");
            apply_prompt(&mut profile, text);
            assert_eq!(profile.system_prompt.as_deref(), Some("  be kind \n"));
            assert!(profile.system_prompt_file.is_none());
        }
        other => panic!("{other:?}"),
    }
    assert!(matches!(
        begin("dev", &AgentProfileOverlay::default(), "", None, false),
        PromptStep::Skip
    ));
}

#[test]
fn large_and_broken_prompt_files_are_refused() {
    let profile = with_prompt_file("dev.md");
    let step = inspected(begin("dev", &profile, "", Some("/p/a.yaml"), false), "/p/dev.md");
    match next_step(step, PromptEvent::Size(1_048_577)) {
        PromptStep::Failed(text) => assert!(text.contains("/p/dev.md"), "{text}"),
        other => panic!("{other:?}"),
    }
    let step = inspected(begin("dev", &profile, "", Some("/p/a.yaml"), false), "/p/dev.md");
    let step = next_step(step, PromptEvent::Size(1_048_576));
    match next_step(step, PromptEvent::Contents(vec![0xff, 0xfe])) {
        PromptStep::Failed(text) => {
            assert!(text.contains("dev"), "{text}");
            assert!(text.contains("invalid utf-8 sequence"), "{text}");
        }
        other => panic!("{other:?}"),
    }
    let step = begin("dev", &with_prompt_file("  "), "", Some("/p/a.yaml"), false);
    match step {
        PromptStep::Failed(text) => assert_eq!(
            text,
            "workflow YAML at /p/a.yaml agent 'dev' system_prompt_file must not be empty"
        ),
        other => panic!("{other:?}"),
    }
}

#[test]
fn prompt_files_of_packs_stay_inside() {
    let profile = with_prompt_file("../x.md");
    let step = begin("dev", &profile, "", Some("/p/a.yaml"), true);
    let refused = next_step(
        step,
        PromptEvent::Inspected {
            absolute: false,
            parent_segment: true,
            resolved: "/x.md".to_string(),
        },
    );
    assert!(matches!(refused, PromptStep::Failed(_)));
    let step = inspected(begin("dev", &with_prompt_file("x.md"), "", Some("/p/a.yaml"), true), "/p/x.md");
    assert!(matches!(&step, PromptStep::Canonicalize(_, path) if path == "/p/x.md"));
    let outside = next_step(
        step,
        PromptEvent::Canonical {
            path: "/etc/x.md".to_string(),
            root: "/p".to_string(),
            inside: false,
        },
    );
    assert!(matches!(outside, PromptStep::Failed(_)));
    assert!(pack_root_message("/p", "gone").contains("/p"));
}

#[test]
fn both_prompts_are_refused_at_the_file_line() {
    let yaml = "agents:\n  dev:\n    system_prompt: hi\n    system_prompt_file: dev.md\n";
    assert_eq!(find_field_line_in_agent(yaml, "dev", "system_prompt_file"), Some(4));
    assert_eq!(find_field_line_in_agent(yaml, "dev", "model"), None);
    assert_eq!(find_field_line_in_agent(yaml, "ops", "system_prompt_file"), None);
    let mut profile = with_prompt_file("dev.md");
    profile.system_prompt = Some("hi".to_string());
    match begin("dev", &profile, yaml, Some("/p/a.yaml"), false) {
        PromptStep::Failed(text) => assert!(text.contains("4"), "{text}"),
        other => panic!("{other:?}"),
    }
}

// Sources

#[test]
fn sources_are_read_in_the_order_of_their_names() {
    assert_eq!(yaml_workflows_dir("/p"), "/p/.animus/workflows");
    assert_eq!(yaml_workflows_dir("/p/"), "/p/.animus/workflows");
    assert_eq!(yaml_workflows_dir(""), ".animus/workflows");
    assert_eq!(yaml_workflows_file("/p"), "/p/.animus/workflows.yaml");
    assert_eq!(
        source_names(strings(&["b.yml", "a.yaml", ".yaml", "c.txt", "A.yaml", "d.YAML", "yaml", "a.b.yml"])),
        strings(&["A.yaml", "a.b.yml", "a.yaml", "b.yml"])
    );
    assert_eq!(source_context("a.yaml", false), "error in YAML file a.yaml");
    assert_eq!(source_context("a.yaml", true), "error in pack YAML file a.yaml");
    assert_eq!(interpolation_context("a.yaml"), "env-var interpolation failed for a.yaml");
}
