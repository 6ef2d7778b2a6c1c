//! The `config_source` role: loading, watching and validating a configuration.

use vstd::prelude::*;

use crate::text::same_text;

verus! {

/// Plugin kind of the plugins that source the configuration.
pub const PLUGIN_KIND_CONFIG_SOURCE: &'static str = "config_source";

/// Method that returns the whole configuration model. The only required one.
pub const METHOD_CONFIG_LOAD: &'static str = "config/load";

/// Method that checks the sources and returns diagnostics. Optional.
pub const METHOD_CONFIG_VALIDATE: &'static str = "config/validate";

/// Notification that the configuration may have changed.
pub const NOTIFICATION_CONFIG_CHANGED: &'static str = "config/changed";

/// Capability of a source that notices changes and notifies of them.
pub const CAPABILITY_CONFIG_WATCH: &'static str = "config_watch";

/// Schema id of the model that a [`ConfigModel`] carries.
pub const CONFIG_MODEL_SCHEMA_ID: &'static str = "animus.workflow-config.v2";

/// Newest version of the model that can be read.
pub const CONFIG_MODEL_VERSION: u32 = 2;

/// A configuration model before anything is derived from it, under its
/// schema id and version.
#[derive(Debug)]
pub struct ConfigModel {
    /// Schema id of the model.
    pub schema: String,
    /// Version of the model.
    pub version: u32,
    /// The model itself.
    pub config: serde_json::Value,
}

/// Whether a model under this schema id and version can be read.
pub open spec fn readable_model(schema: Seq<char>, version: u32) -> bool {
    schema == CONFIG_MODEL_SCHEMA_ID@ && version <= CONFIG_MODEL_VERSION
}

impl ConfigModel {
    /// A model under the current schema id and version.
    pub fn new(config: serde_json::Value) -> (r: Self)
        ensures
            r.schema@ == CONFIG_MODEL_SCHEMA_ID@,
            r.version == CONFIG_MODEL_VERSION,
            r.config == config,
            readable_model(r.schema@, r.version),
    {
        ConfigModel {
            schema: CONFIG_MODEL_SCHEMA_ID.to_owned(),
            version: CONFIG_MODEL_VERSION,
            config,
        }
    }

    /// Whether the model can be read: its schema id is known and its version
    /// is not a later one.
    pub fn is_compatible(&self) -> (r: bool)
        ensures
            r == readable_model(self.schema@, self.version),
    {
        same_text(self.schema.as_str(), CONFIG_MODEL_SCHEMA_ID) && self.version
            <= CONFIG_MODEL_VERSION
    }
}

/// What a load is cached under.
#[derive(Debug, Clone, PartialEq, Eq)]
pub struct CacheToken {
    /// Version of what was loaded.
    pub version: String,
    /// Whether the model holds inputs that can change while the version stays:
    /// environment variables, secrets, prompt files. Such a load is not cached.
    pub external_inputs: bool,
}

impl CacheToken {
    /// A token of a model without external inputs.
    pub fn version(version: String) -> (r: Self)
        ensures
            r.version == version,
            !r.external_inputs,
    {
        CacheToken { version, external_inputs: false }
    }

    /// A token of a model with external inputs.
    pub fn external(version: String) -> (r: Self)
        ensures
            r.version == version,
            r.external_inputs,
    {
        CacheToken { version, external_inputs: true }
    }
}

/// What [`METHOD_CONFIG_LOAD`] asks.
#[derive(Debug, Clone, PartialEq, Eq)]
pub struct ConfigLoadRequest {
    /// Absolute path of the project root.
    pub project_root: String,
    /// Scope of the repository, where the host has one.
    pub repo_scope: Option<String>,
}

impl Default for ConfigLoadRequest {
    fn default() -> (r: Self)
        ensures
            r.project_root@ == Seq::<char>::empty(),
            r.repo_scope is None,
    {
        ConfigLoadRequest { project_root: String::new(), repo_scope: None }
    }
}

/// What [`METHOD_CONFIG_LOAD`] answers.
#[derive(Debug)]
pub struct ConfigLoadResponse {
    /// The model.
    pub config: ConfigModel,
    /// What the load is cached under.
    pub cache_token: CacheToken,
}

/// What [`NOTIFICATION_CONFIG_CHANGED`] carries.
#[derive(Debug, Clone, PartialEq, Eq)]
pub struct ConfigChangedEvent {
    /// The new version, where the source knows it.
    pub version: Option<String>,
}

impl Default for ConfigChangedEvent {
    fn default() -> (r: Self)
        ensures
            r.version is None,
    {
        ConfigChangedEvent { version: None }
    }
}

/// What [`METHOD_CONFIG_VALIDATE`] asks.
#[derive(Debug, Clone, PartialEq, Eq)]
pub struct ConfigValidateRequest {
    /// Absolute path of the project root.
    pub project_root: String,
    /// Scope of the repository, where the host has one.
    pub repo_scope: Option<String>,
}

impl Default for ConfigValidateRequest {
    fn default() -> (r: Self)
        ensures
            r.project_root@ == Seq::<char>::empty(),
            r.repo_scope is None,
    {
        ConfigValidateRequest { project_root: String::new(), repo_scope: None }
    }
}

/// How serious a diagnostic is.
#[derive(Debug, Clone, Copy, PartialEq, Eq, Structural)]
pub enum DiagnosticSeverity {
    /// No model can be produced.
    Error,
    /// Something to look at.
    Warning,
}

/// One diagnostic on a source.
#[derive(Debug, Clone, PartialEq, Eq)]
pub struct ConfigDiagnostic {
    /// How serious it is.
    pub severity: DiagnosticSeverity,
    /// What is wrong.
    pub message: String,
    /// File that it is about, where there is one.
    pub file: Option<String>,
    /// Line in the file, from one on.
    pub line: Option<u32>,
    /// Column in the line, from one on.
    pub column: Option<u32>,
}

/// What [`METHOD_CONFIG_VALIDATE`] answers.
#[derive(Debug, Clone, PartialEq, Eq)]
pub struct ConfigValidateResponse {
    /// The diagnostics.
    pub diagnostics: Vec<ConfigDiagnostic>,
}

impl Default for ConfigValidateResponse {
    fn default() -> (r: Self)
        ensures
            r.diagnostics@.len() == 0,
    {
        ConfigValidateResponse { diagnostics: Vec::new() }
    }
}

/// Whether none of the diagnostics is an error.
pub open spec fn no_errors(diagnostics: Seq<ConfigDiagnostic>) -> bool {
    forall|i: int|
        0 <= i < diagnostics.len() ==> (#[trigger] diagnostics[i]).severity
            != DiagnosticSeverity::Error
}

impl ConfigValidateResponse {
    /// Whether none of the diagnostics is an error.
    pub fn is_ok(&self) -> (r: bool)
        ensures
            r == no_errors(self.diagnostics@),
    {
        let mut i: usize = 0;
        while i < self.diagnostics.len()
            invariant
                i <= self.diagnostics.len(),
                forall|j: int|
                    0 <= j < i ==> (#[trigger] self.diagnostics@[j]).severity
                        != DiagnosticSeverity::Error,
            decreases self.diagnostics.len() - i,
        {
            if self.diagnostics[i].severity == DiagnosticSeverity::Error {
                return false;
            }
            i += 1;
        }
        true
    }
}

/// Warnings never make a validation fail: dropping them leaves its outcome.
pub proof fn warnings_do_not_fail(diagnostics: Seq<ConfigDiagnostic>, warning: ConfigDiagnostic)
    requires
        warning.severity == DiagnosticSeverity::Warning,
    ensures
        no_errors(diagnostics.push(warning)) == no_errors(diagnostics),
{
    let more = diagnostics.push(warning);
    if no_errors(more) {
        assert forall|i: int| 0 <= i < diagnostics.len() implies (#[trigger] diagnostics[i]).severity
            != DiagnosticSeverity::Error by {
            assert(more[i] == diagnostics[i]);
        }
    }
}

/// A model of the current version is read, and so is one of every earlier version;
/// none of a later version, and none of another schema, is.
pub proof fn later_models_are_not_read(schema: Seq<char>, version: u32, earlier: u32)
    ensures
        readable_model(CONFIG_MODEL_SCHEMA_ID@, CONFIG_MODEL_VERSION),
        readable_model(schema, version) && earlier <= version ==> readable_model(schema, earlier),
        version > CONFIG_MODEL_VERSION ==> !readable_model(schema, version),
        schema != CONFIG_MODEL_SCHEMA_ID@ ==> !readable_model(schema, version),
{
}

/// One error makes a validation fail, wherever it stands; without one it passes.
pub proof fn one_error_fails(
    front: Seq<ConfigDiagnostic>,
    diagnostic: ConfigDiagnostic,
    back: Seq<ConfigDiagnostic>,
)
    ensures
        diagnostic.severity == DiagnosticSeverity::Error ==> !no_errors(
            front + seq![diagnostic] + back,
        ),
        diagnostic.severity != DiagnosticSeverity::Error && no_errors(front) && no_errors(back)
            ==> no_errors(front + seq![diagnostic] + back),
        no_errors(Seq::<ConfigDiagnostic>::empty()),
{
    let all = front + seq![diagnostic] + back;
    assert(all[front.len() as int] == diagnostic);
    if diagnostic.severity != DiagnosticSeverity::Error && no_errors(front) && no_errors(back) {
        assert forall|i: int| 0 <= i < all.len() implies (#[trigger] all[i]).severity
            != DiagnosticSeverity::Error by {
            if i < front.len() {
                assert(all[i] == front[i]);
            } else if i > front.len() {
                assert(all[i] == back[i - front.len() - 1]);
            }
        }
    }
}

} // verus!
