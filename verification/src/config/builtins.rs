//! The configuration that every project starts from.

use vstd::prelude::*;

use crate::config::workflow_types::{
    default_retention, McpServerDefinition, WorkflowCheckpointRetentionConfig, WorkflowConfig,
    WORKFLOW_CONFIG_SCHEMA_ID, WORKFLOW_CONFIG_VERSION,
};
use crate::text::texts;
use crate::text_map::TextMap;

verus! {

/// Whether this is the built-in MCP server: `animus mcp serve` over stdio.
pub open spec fn is_builtin_server(server: McpServerDefinition) -> bool {
    &&& server.command@ == "animus"@
    &&& texts(server.args@) == seq!["mcp"@, "serve"@]
    &&& crate::text::opt_text(server.transport) == Some("stdio"@)
    &&& server.url is None
    &&& server.config@ == Map::<Seq<char>, serde_json::Value>::empty()
    &&& server.tools@.len() == 0
    &&& server.env@ == Map::<Seq<char>, String>::empty()
    &&& server.oauth is None
}

/// Whether this is the built-in configuration: the built-in MCP server under the
/// name `animus`, and nothing else.
pub open spec fn is_builtin_config(config: WorkflowConfig) -> bool {
    &&& config.schema@ == WORKFLOW_CONFIG_SCHEMA_ID@
    &&& config.version == WORKFLOW_CONFIG_VERSION
    &&& config.default_workflow_ref@.len() == 0
    &&& config.checkpoint_retention == default_retention()
    &&& config.phase_catalog@.dom() == Set::<Seq<char>>::empty()
    &&& config.workflows@.len() == 0
    &&& config.phase_definitions@.dom() == Set::<Seq<char>>::empty()
    &&& config.agent_profiles@.dom() == Set::<Seq<char>>::empty()
    &&& config.agent_channels@.dom() == Set::<Seq<char>>::empty()
    &&& config.tools_allowlist@.len() == 0
    &&& config.mcp_servers@.dom() == set!["animus"@]
    &&& is_builtin_server(config.mcp_servers@["animus"@])
    &&& config.phase_mcp_bindings@.dom() == Set::<Seq<char>>::empty()
    &&& config.tools@.dom() == Set::<Seq<char>>::empty()
    &&& config.integrations is None
    &&& config.schedules@.len() == 0
    &&& config.triggers@.len() == 0
    &&& config.daemon is None
    &&& config.secrets@.dom() == Set::<Seq<char>>::empty()
    &&& config.workspaces@.dom() == Set::<Seq<char>>::empty()
    &&& config.environment_routing is None
}

/// The built-in configuration.
pub fn builtin_workflow_config_base() -> (r: WorkflowConfig)
    ensures
        is_builtin_config(r),
{
    let mut args: Vec<String> = Vec::new();
    args.push("mcp".to_owned());
    args.push("serve".to_owned());
    proof {
        assert(texts(args@) =~= seq!["mcp"@, "serve"@]);
    }
    let server = McpServerDefinition {
        command: "animus".to_owned(),
        args,
        transport: Some("stdio".to_owned()),
        url: None,
        config: TextMap::new(),
        tools: Vec::new(),
        env: TextMap::new(),
        oauth: None,
    };
    let mut mcp_servers: TextMap<McpServerDefinition> = TextMap::new();
    mcp_servers.insert("animus".to_owned(), server);
    proof {
        assert(mcp_servers@.dom() =~= set!["animus"@]);
    }
    WorkflowConfig {
        schema: WORKFLOW_CONFIG_SCHEMA_ID.to_owned(),
        version: WORKFLOW_CONFIG_VERSION,
        default_workflow_ref: String::new(),
        checkpoint_retention: WorkflowCheckpointRetentionConfig::default(),
        phase_catalog: TextMap::new(),
        workflows: Vec::new(),
        phase_definitions: TextMap::new(),
        agent_profiles: TextMap::new(),
        agent_channels: TextMap::new(),
        tools_allowlist: Vec::new(),
        mcp_servers,
        phase_mcp_bindings: TextMap::new(),
        tools: TextMap::new(),
        integrations: None,
        schedules: Vec::new(),
        triggers: Vec::new(),
        daemon: None,
        secrets: TextMap::new(),
        workspaces: TextMap::new(),
        environment_routing: None,
    }
}

/// The built-in configuration.
pub fn builtin_workflow_config() -> (r: WorkflowConfig)
    ensures
        is_builtin_config(r),
{
    builtin_workflow_config_base()
}

impl Default for WorkflowConfig {
    fn default() -> (r: Self)
        ensures
            is_builtin_config(r),
    {
        builtin_workflow_config()
    }
}

/// What every project starts from: one server, Animus itself over stdio, under the
/// name `animus`; and no workflow, phase, agent, tool, secret or trigger.
pub proof fn projects_start_with_the_server_alone(config: WorkflowConfig, k: Seq<char>)
    requires
        is_builtin_config(config),
    ensures
        config.mcp_servers@.contains_key(k) <==> k == "animus"@,
        config.mcp_servers@["animus"@].command@ == "animus"@,
        texts(config.mcp_servers@["animus"@].args@) == seq!["mcp"@, "serve"@],
        config.mcp_servers@["animus"@].transport matches Some(t) && t@ == "stdio"@,
        !config.phase_definitions@.contains_key(k),
        !config.phase_catalog@.contains_key(k),
        !config.agent_profiles@.contains_key(k),
        !config.tools@.contains_key(k),
        !config.secrets@.contains_key(k),
        config.workflows@.len() == 0,
        config.schedules@.len() == 0,
        config.triggers@.len() == 0,
        config.tools_allowlist@.len() == 0,
        config.default_workflow_ref@.len() == 0,
{
    assert(set!["animus"@].contains(k) <==> k == "animus"@);
    assert(config.mcp_servers@.dom().contains(k) <==> k == "animus"@);
    assert(!config.phase_definitions@.dom().contains(k));
    assert(!config.phase_catalog@.dom().contains(k));
    assert(!config.agent_profiles@.dom().contains(k));
    assert(!config.tools@.dom().contains(k));
    assert(!config.secrets@.dom().contains(k));
}

} // verus!
