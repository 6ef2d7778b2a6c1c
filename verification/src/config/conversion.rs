//! Between the YAML form of the configuration and the configuration model.

use vstd::prelude::*;

use crate::config::agent_types::{
    CommandCwdMode, EvalCheck, EvalsConfig, PhaseCommandDefinition, PhaseExecutionDefinition,
    PhaseExecutionMode, PhaseManualDefinition,
};
use crate::config::workflow_types::{
    worktree_of, SubWorkflowRef, WorkflowDefinition, WorkflowPhaseConfig, WorkflowPhaseEntry,
    WorktreeConfig,
};
use crate::config::yaml_types::{
    YamlCommandDefinition, YamlEvalCheck, YamlEvalsConfig, YamlManualDefinition,
    YamlPhaseDefinition, YamlPhaseEntry, YamlPhaseRichConfig, YamlPhaseWorktree,
    YamlSubWorkflowRef, YamlWorkflowDefinition,
};
use crate::lists::reversed;
use crate::text::{chars_of, decimal, lower_char, push_decimal, same_text, to_lower_char};
use crate::text_map::TextMap;

verus! {

// ---------------------------------------------------------------------
// Working directory of a command
// ---------------------------------------------------------------------

/// A name in ASCII lower case, with `_` for `-`.
pub open spec fn snake(value: Seq<char>) -> Seq<char> {
    value.map_values(
        |c: char|
            if c == '-' {
                '_'
            } else {
                lower_char(c)
            },
    )
}

/// The working directory that a name stands for.
pub open spec fn cwd_mode_of(value: Seq<char>) -> Option<CommandCwdMode> {
    let name = snake(value);
    if name == "project_root"@ {
        Some(CommandCwdMode::ProjectRoot)
    } else if name == "task_root"@ {
        Some(CommandCwdMode::TaskRoot)
    } else if name == "path"@ {
        Some(CommandCwdMode::Path)
    } else {
        None
    }
}

/// What is said about a name that stands for no working directory.
pub open spec fn cwd_mode_error(value: Seq<char>) -> Seq<char> {
    "unknown cwd_mode '"@ + snake(value) + "' (expected project_root, task_root, or path)"@
}

/// The name of a working directory.
pub open spec fn cwd_mode_name(mode: CommandCwdMode) -> Seq<char> {
    match mode {
        CommandCwdMode::ProjectRoot => "project_root"@,
        CommandCwdMode::TaskRoot => "task_root"@,
        CommandCwdMode::Path => "path"@,
    }
}

/// The working directory that a name stands for.
pub fn parse_cwd_mode(value: &str) -> (r: Result<CommandCwdMode, String>)
    ensures
        match r {
            Ok(mode) => cwd_mode_of(value@) == Some(mode),
            Err(e) => cwd_mode_of(value@) is None && e@ == cwd_mode_error(value@),
        },
{
    let chars = chars_of(value);
    let mut name = String::new();
    let mut i: usize = 0;
    while i < chars.len()
        invariant
            i <= chars@.len(),
            name@ =~= snake(chars@).take(i as int),
        decreases chars@.len() - i,
    {
        name.push(
            if chars[i] == '-' {
                '_'
            } else {
                to_lower_char(chars[i])
            },
        );
        i += 1;
    }
    proof {
        assert(name@ =~= snake(value@));
    }
    if same_text(name.as_str(), "project_root") {
        return Ok(CommandCwdMode::ProjectRoot);
    }
    if same_text(name.as_str(), "task_root") {
        return Ok(CommandCwdMode::TaskRoot);
    }
    if same_text(name.as_str(), "path") {
        return Ok(CommandCwdMode::Path);
    }
    let mut e = String::new();
    e.append("unknown cwd_mode '");
    e.append(name.as_str());
    e.append("' (expected project_root, task_root, or path)");
    proof {
        assert(e@ =~= cwd_mode_error(value@));
    }
    Err(e)
}

fn cwd_mode_text(mode: CommandCwdMode) -> (r: String)
    ensures
        r@ == cwd_mode_name(mode),
{
    match mode {
        CommandCwdMode::ProjectRoot => "project_root".to_owned(),
        CommandCwdMode::TaskRoot => "task_root".to_owned(),
        CommandCwdMode::Path => "path".to_owned(),
    }
}

/// A working directory is read back from its name.
pub proof fn cwd_mode_round_trips(mode: CommandCwdMode)
    ensures
        cwd_mode_of(cwd_mode_name(mode)) == Some(mode),
{
    reveal_strlit("project_root");
    reveal_strlit("task_root");
    reveal_strlit("path");
    assert(snake("project_root"@) =~= "project_root"@);
    assert(snake("task_root"@) =~= "task_root"@);
    assert(snake("path"@) =~= "path"@);
    assert("project_root"@.len() != "task_root"@.len());
    assert("project_root"@.len() != "path"@.len());
    assert("task_root"@.len() != "path"@.len());
}

// ---------------------------------------------------------------------
// Eval gates
// ---------------------------------------------------------------------

/// The check that a YAML check stands for.
pub open spec fn check_of(c: YamlEvalCheck) -> EvalCheck {
    EvalCheck {
        id: c.id,
        kind: c.kind,
        command: c.command,
        args: c.args,
        working_dir: c.working_dir,
        timeout_secs: c.timeout_secs,
        expected_exit: c.expected_exit,
        agent: c.agent,
        prompt: c.prompt,
    }
}

/// The YAML form of a check.
pub open spec fn yaml_check_of(c: EvalCheck) -> YamlEvalCheck {
    YamlEvalCheck {
        id: c.id,
        kind: c.kind,
        command: c.command,
        args: c.args,
        working_dir: c.working_dir,
        timeout_secs: c.timeout_secs,
        expected_exit: c.expected_exit,
        agent: c.agent,
        prompt: c.prompt,
    }
}

/// Whether an eval gate says what a YAML eval gate says.
pub open spec fn same_evals(yaml: YamlEvalsConfig, config: EvalsConfig) -> bool {
    &&& config.pass_threshold == yaml.pass_threshold
    &&& config.on_fail == yaml.on_fail
    &&& config.max_reworks == yaml.max_reworks
    &&& config.checks@ == yaml.checks@.map_values(|c: YamlEvalCheck| check_of(c))
}

/// The eval gate that a YAML eval gate stands for.
fn yaml_evals_to_evals_config(yaml: YamlEvalsConfig) -> (r: EvalsConfig)
    ensures
        same_evals(yaml, r),
{
    let ghost whole = yaml.checks@;
    let mut queue = reversed(yaml.checks);
    let mut checks: Vec<EvalCheck> = Vec::new();
    let ghost target = whole.map_values(|c: YamlEvalCheck| check_of(c));
    while queue.len() > 0
        invariant
            queue@.len() + checks@.len() == whole.len(),
            queue@ =~= whole.reverse().take(queue@.len() as int),
            target == whole.map_values(|c: YamlEvalCheck| check_of(c)),
            checks@ =~= target.take(checks@.len() as int),
        decreases queue@.len(),
    {
        let ghost n = checks@.len() as int;
        let c = queue.pop().unwrap();
        proof {
            assert(c == whole[n]);
        }
        checks.push(
            EvalCheck {
                id: c.id,
                kind: c.kind,
                command: c.command,
                args: c.args,
                working_dir: c.working_dir,
                timeout_secs: c.timeout_secs,
                expected_exit: c.expected_exit,
                agent: c.agent,
                prompt: c.prompt,
            },
        );
    }
    proof {
        assert(checks@ =~= target);
    }
    EvalsConfig {
        pass_threshold: yaml.pass_threshold,
        on_fail: yaml.on_fail,
        max_reworks: yaml.max_reworks,
        checks,
    }
}

/// The YAML form of an eval gate.
fn evals_config_to_yaml(config: EvalsConfig) -> (r: YamlEvalsConfig)
    ensures
        same_evals(r, config),
{
    let ghost whole = config.checks@;
    let mut queue = reversed(config.checks);
    let mut checks: Vec<YamlEvalCheck> = Vec::new();
    let ghost target = whole.map_values(|c: EvalCheck| yaml_check_of(c));
    while queue.len() > 0
        invariant
            queue@.len() + checks@.len() == whole.len(),
            queue@ =~= whole.reverse().take(queue@.len() as int),
            target == whole.map_values(|c: EvalCheck| yaml_check_of(c)),
            checks@ =~= target.take(checks@.len() as int),
        decreases queue@.len(),
    {
        let ghost n = checks@.len() as int;
        let c = queue.pop().unwrap();
        proof {
            assert(c == whole[n]);
        }
        checks.push(
            YamlEvalCheck {
                id: c.id,
                kind: c.kind,
                command: c.command,
                args: c.args,
                working_dir: c.working_dir,
                timeout_secs: c.timeout_secs,
                expected_exit: c.expected_exit,
                agent: c.agent,
                prompt: c.prompt,
            },
        );
    }
    proof {
        assert(checks@ =~= target);
        assert(whole =~= checks@.map_values(|c: YamlEvalCheck| check_of(c)));
    }
    YamlEvalsConfig {
        pass_threshold: config.pass_threshold,
        on_fail: config.on_fail,
        max_reworks: config.max_reworks,
        checks,
    }
}

// ---------------------------------------------------------------------
// Phases
// ---------------------------------------------------------------------

/// Whether a command says what a YAML command says, absent fields at their
/// defaults.
pub open spec fn same_command(yaml: YamlCommandDefinition, command: PhaseCommandDefinition) -> bool {
    &&& command.program == yaml.program
    &&& command.args == yaml.args
    &&& command.env == yaml.env
    &&& match yaml.cwd_mode {
        Some(name) => cwd_mode_of(name@) == Some(command.cwd_mode),
        None => command.cwd_mode == CommandCwdMode::ProjectRoot,
    }
    &&& command.cwd_path == yaml.cwd_path
    &&& command.timeout_secs == yaml.timeout_secs
    &&& match yaml.success_exit_codes {
        Some(codes) => command.success_exit_codes == codes,
        None => command.success_exit_codes@ == seq![0i32],
    }
    &&& command.parse_json_output == (yaml.parse_json_output == Some(true))
    &&& command.expected_result_kind == yaml.expected_result_kind
    &&& command.expected_schema == yaml.expected_schema
    &&& command.category == yaml.category
    &&& command.failure_pattern == yaml.failure_pattern
    &&& command.excerpt_max_chars == yaml.excerpt_max_chars
    &&& command.on_success_verdict == yaml.on_success_verdict
    &&& command.on_failure_verdict == yaml.on_failure_verdict
    &&& command.confidence == yaml.confidence
    &&& command.failure_risk == yaml.failure_risk
}

/// Whether manual instructions say what their YAML form says.
pub open spec fn same_manual(yaml: YamlManualDefinition, manual: PhaseManualDefinition) -> bool {
    &&& manual.instructions == yaml.instructions
    &&& manual.approval_note_required == (yaml.approval_note_required == Some(true))
    &&& manual.timeout_secs == yaml.timeout_secs
}

/// What is said about a phase.
pub open spec fn phase_message(phase_id: Seq<char>, mode: Seq<char>, rest: Seq<char>) -> Seq<char> {
    "phases['"@ + phase_id + "'] mode '"@ + mode + "' "@ + rest
}

/// What is wrong with the command block of a phase: there is one exactly in
/// command mode, and its working directory has a known name.
pub open spec fn command_problem(phase_id: Seq<char>, yaml: YamlPhaseDefinition) -> Option<
    Seq<char>,
> {
    match (yaml.mode, yaml.command) {
        (PhaseExecutionMode::Command, Some(cmd)) => match cmd.cwd_mode {
            Some(name) => if cwd_mode_of(name@) is None {
                Some(cwd_mode_error(name@))
            } else {
                None
            },
            None => None,
        },
        (PhaseExecutionMode::Command, None) => Some(
            phase_message(phase_id, "command"@, "requires a command block"@),
        ),
        (mode, Some(_)) => Some(
            phase_message(phase_id, mode.name(), "must not include a command block"@),
        ),
        _ => None,
    }
}

/// What is wrong with the manual block of a phase: there is one exactly in
/// manual mode.
pub open spec fn manual_problem(phase_id: Seq<char>, yaml: YamlPhaseDefinition) -> Option<
    Seq<char>,
> {
    match (yaml.mode, yaml.manual) {
        (PhaseExecutionMode::Manual, Some(_)) => None,
        (PhaseExecutionMode::Manual, None) => Some(
            phase_message(phase_id, "manual"@, "requires a manual block"@),
        ),
        (mode, Some(_)) => Some(
            phase_message(phase_id, mode.name(), "must not include a manual block"@),
        ),
        _ => None,
    }
}

/// The first thing wrong with a phase: its command block, its manual block, its
/// worktree block.
pub open spec fn phase_problem(phase_id: Seq<char>, yaml: YamlPhaseDefinition) -> Option<Seq<char>> {
    if command_problem(phase_id, yaml) is Some {
        command_problem(phase_id, yaml)
    } else if manual_problem(phase_id, yaml) is Some {
        manual_problem(phase_id, yaml)
    } else {
        match yaml.worktree {
            Some(block) => match worktree_of(block) {
                Ok(_) => None,
                Err(e) => Some(e),
            },
            None => None,
        }
    }
}

/// Whether a phase definition says what a YAML phase says.
pub open spec fn same_phase(yaml: YamlPhaseDefinition, r: PhaseExecutionDefinition) -> bool {
    &&& r.mode == yaml.mode
    &&& r.agent_id == yaml.agent
    &&& r.directive == yaml.directive
    &&& r.system_prompt == yaml.system_prompt
    &&& r.runtime == yaml.runtime
    &&& r.capabilities == yaml.capabilities
    &&& r.output_contract == yaml.output_contract
    &&& r.output_json_schema == yaml.output_json_schema
    &&& r.decision_contract == yaml.decision_contract
    &&& r.retry == yaml.retry
    &&& r.skills == yaml.skills
    &&& match yaml.command {
        Some(c) => r.command is Some && same_command(c, r.command->0),
        None => r.command is None,
    }
    &&& match yaml.manual {
        Some(m) => r.manual is Some && same_manual(m, r.manual->0),
        None => r.manual is None,
    }
    &&& r.default_tool == yaml.default_tool
    &&& r.idempotency == yaml.idempotency
    &&& match yaml.worktree {
        Some(block) => r.worktree is Some && worktree_of(block) == Ok::<WorktreeConfig, Seq<char>>(
            r.worktree->0,
        ),
        None => r.worktree is None,
    }
    &&& match yaml.evals {
        Some(e) => r.evals is Some && same_evals(e, r.evals->0),
        None => r.evals is None,
    }
}

fn phase_message_text(phase_id: &str, mode: &str, rest: &str) -> (r: String)
    ensures
        r@ == phase_message(phase_id@, mode@, rest@),
{
    let mut out = String::new();
    out.append("phases['");
    out.append(phase_id);
    out.append("'] mode '");
    out.append(mode);
    out.append("' ");
    out.append(rest);
    proof {
        assert(out@ =~= phase_message(phase_id@, mode@, rest@));
    }
    out
}

fn yaml_command_to_command(cmd: YamlCommandDefinition) -> (r: Result<PhaseCommandDefinition, String>)
    ensures
        match r {
            Ok(command) => same_command(cmd, command),
            Err(e) => cmd.cwd_mode is Some && cwd_mode_of((cmd.cwd_mode->0)@) is None && e@
                == cwd_mode_error((cmd.cwd_mode->0)@),
        },
{
    let cwd_mode = match &cmd.cwd_mode {
        Some(name) => match parse_cwd_mode(name.as_str()) {
            Ok(mode) => mode,
            Err(e) => {
                return Err(e);
            },
        },
        None => CommandCwdMode::ProjectRoot,
    };
    let success_exit_codes = match cmd.success_exit_codes {
        Some(codes) => codes,
        None => {
            let mut codes: Vec<i32> = Vec::new();
            codes.push(0);
            codes
        },
    };
    Ok(
        PhaseCommandDefinition {
            program: cmd.program,
            args: cmd.args,
            env: cmd.env,
            cwd_mode,
            cwd_path: cmd.cwd_path,
            timeout_secs: cmd.timeout_secs,
            success_exit_codes,
            parse_json_output: match cmd.parse_json_output {
                Some(flag) => flag,
                None => false,
            },
            expected_result_kind: cmd.expected_result_kind,
            expected_schema: cmd.expected_schema,
            category: cmd.category,
            failure_pattern: cmd.failure_pattern,
            excerpt_max_chars: cmd.excerpt_max_chars,
            on_success_verdict: cmd.on_success_verdict,
            on_failure_verdict: cmd.on_failure_verdict,
            confidence: cmd.confidence,
            failure_risk: cmd.failure_risk,
        },
    )
}

/// The phase definition that a YAML phase stands for. A command block is there
/// exactly in command mode, a manual block exactly in manual mode.
pub fn yaml_phase_to_execution_definition(phase_id: &str, yaml: YamlPhaseDefinition) -> (r: Result<
    PhaseExecutionDefinition,
    String,
>)
    ensures
        match r {
            Ok(definition) => phase_problem(phase_id@, yaml) is None && same_phase(
                yaml,
                definition,
            ),
            Err(e) => phase_problem(phase_id@, yaml) == Some(e@),
        },
{
    let mode = yaml.mode;
    let command = match (mode, yaml.command) {
        (PhaseExecutionMode::Command, Some(cmd)) => match yaml_command_to_command(cmd) {
            Ok(command) => Some(command),
            Err(e) => {
                return Err(e);
            },
        },
        (PhaseExecutionMode::Command, None) => {
            return Err(phase_message_text(phase_id, "command", "requires a command block"));
        },
        (_, Some(_)) => {
            return Err(
                phase_message_text(phase_id, mode.as_str(), "must not include a command block"),
            );
        },
        _ => None,
    };
    let manual = match (mode, yaml.manual) {
        (PhaseExecutionMode::Manual, Some(m)) => Some(
            PhaseManualDefinition {
                instructions: m.instructions,
                approval_note_required: match m.approval_note_required {
                    Some(flag) => flag,
                    None => false,
                },
                timeout_secs: m.timeout_secs,
            },
        ),
        (PhaseExecutionMode::Manual, None) => {
            return Err(phase_message_text(phase_id, "manual", "requires a manual block"));
        },
        (_, Some(_)) => {
            return Err(
                phase_message_text(phase_id, mode.as_str(), "must not include a manual block"),
            );
        },
        _ => None,
    };
    let worktree = match yaml.worktree {
        Some(block) => match WorktreeConfig::from_yaml(block) {
            Ok(config) => Some(config),
            Err(e) => {
                return Err(e);
            },
        },
        None => None,
    };
    let evals = match yaml.evals {
        Some(e) => Some(yaml_evals_to_evals_config(e)),
        None => None,
    };
    Ok(
        PhaseExecutionDefinition {
            mode,
            agent_id: yaml.agent,
            directive: yaml.directive,
            skills: yaml.skills,
            runtime: yaml.runtime,
            capabilities: yaml.capabilities,
            output_contract: yaml.output_contract,
            output_json_schema: yaml.output_json_schema,
            decision_contract: yaml.decision_contract,
            retry: yaml.retry,
            command,
            manual,
            system_prompt: yaml.system_prompt,
            default_tool: yaml.default_tool,
            idempotency: yaml.idempotency,
            worktree,
            evals,
        },
    )
}

/// Whether a phase definition has a command exactly in command mode and manual
/// instructions exactly in manual mode.
pub open spec fn blocks_fit_mode(definition: PhaseExecutionDefinition) -> bool {
    &&& definition.command is Some <==> definition.mode == PhaseExecutionMode::Command
    &&& definition.manual is Some <==> definition.mode == PhaseExecutionMode::Manual
}

/// The YAML form of a phase definition. It says what the definition says, and
/// reading it back never fails on a definition whose blocks fit its mode.
pub fn phase_execution_definition_to_yaml(definition: PhaseExecutionDefinition) -> (r:
    YamlPhaseDefinition)
    ensures
        same_phase(r, definition),
        forall|phase_id: Seq<char>|
            blocks_fit_mode(definition) ==> #[trigger] phase_problem(phase_id, r) is None,
        definition.worktree matches Some(config) ==> r.worktree == Some(
            YamlPhaseWorktree::Full(config),
        ),
        definition.command matches Some(command) ==> ({
            let yaml = r.command->0;
            &&& yaml.cwd_mode is Some && (yaml.cwd_mode->0)@ == cwd_mode_name(command.cwd_mode)
            &&& yaml.success_exit_codes == Some(command.success_exit_codes)
            &&& yaml.parse_json_output == Some(command.parse_json_output)
        }),
        definition.manual matches Some(manual) ==> (r.manual->0).approval_note_required == Some(
            manual.approval_note_required,
        ),
{
    proof {
        cwd_mode_round_trips(CommandCwdMode::ProjectRoot);
        cwd_mode_round_trips(CommandCwdMode::TaskRoot);
        cwd_mode_round_trips(CommandCwdMode::Path);
    }
    let command = match definition.command {
        Some(command) => Some(
            YamlCommandDefinition {
                program: command.program,
                args: command.args,
                env: command.env,
                cwd_mode: Some(cwd_mode_text(command.cwd_mode)),
                cwd_path: command.cwd_path,
                timeout_secs: command.timeout_secs,
                success_exit_codes: Some(command.success_exit_codes),
                parse_json_output: Some(command.parse_json_output),
                expected_result_kind: command.expected_result_kind,
                expected_schema: command.expected_schema,
                category: command.category,
                failure_pattern: command.failure_pattern,
                excerpt_max_chars: command.excerpt_max_chars,
                on_success_verdict: command.on_success_verdict,
                on_failure_verdict: command.on_failure_verdict,
                confidence: command.confidence,
                failure_risk: command.failure_risk,
            },
        ),
        None => None,
    };
    let manual = match definition.manual {
        Some(manual) => Some(
            YamlManualDefinition {
                instructions: manual.instructions,
                approval_note_required: Some(manual.approval_note_required),
                timeout_secs: manual.timeout_secs,
            },
        ),
        None => None,
    };
    let worktree = match definition.worktree {
        Some(config) => Some(YamlPhaseWorktree::Full(config)),
        None => None,
    };
    let evals = match definition.evals {
        Some(config) => Some(evals_config_to_yaml(config)),
        None => None,
    };
    YamlPhaseDefinition {
        mode: definition.mode,
        agent: definition.agent_id,
        command,
        manual,
        directive: definition.directive,
        system_prompt: definition.system_prompt,
        skills: definition.skills,
        runtime: definition.runtime,
        capabilities: definition.capabilities,
        output_contract: definition.output_contract,
        output_json_schema: definition.output_json_schema,
        decision_contract: definition.decision_contract,
        retry: definition.retry,
        default_tool: definition.default_tool,
        idempotency: definition.idempotency,
        worktree,
        evals,
    }
}

/// Whether two definitions are the same but for the allocation of their lists.
pub open spec fn same_definition(a: PhaseExecutionDefinition, b: PhaseExecutionDefinition) -> bool {
    &&& a == (PhaseExecutionDefinition {
        command: a.command,
        evals: a.evals,
        ..b
    })
    &&& match (a.command, b.command) {
        (Some(x), Some(y)) => x.success_exit_codes@ == y.success_exit_codes@ && x == (
        PhaseCommandDefinition { success_exit_codes: x.success_exit_codes, ..y }),
        (None, None) => true,
        _ => false,
    }
    &&& match (a.evals, b.evals) {
        (Some(x), Some(y)) => x.checks@ == y.checks@ && x == (EvalsConfig {
            checks: x.checks,
            ..y
        }),
        (None, None) => true,
        _ => false,
    }
}

/// A phase definition survives being written in the YAML form and read back:
/// whatever YAML form says what one definition says, every definition read from
/// it is the same.
pub proof fn phase_definition_round_trips(
    definition: PhaseExecutionDefinition,
    yaml: YamlPhaseDefinition,
    back: PhaseExecutionDefinition,
)
    requires
        same_phase(yaml, definition),
        same_phase(yaml, back),
    ensures
        same_definition(back, definition),
{
}

// ---------------------------------------------------------------------
// Workflows
// ---------------------------------------------------------------------

/// What is said about a rich entry with the given number of keys.
pub open spec fn rich_entry_error(keys: nat) -> Seq<char> {
    "rich phase entry must have exactly one key (the phase id), got "@ + decimal(keys)
}

/// What is wrong with an entry: a rich one has exactly one key.
pub open spec fn entry_problem(entry: YamlPhaseEntry) -> Option<Seq<char>> {
    match entry {
        YamlPhaseEntry::Rich(map) => if map.names().len() != 1 {
            Some(rich_entry_error(map.names().len()))
        } else {
            None
        },
        _ => None,
    }
}

/// Whether a phase says what the settings of a rich entry say.
pub open spec fn same_rich(
    id: Seq<char>,
    yaml: YamlPhaseRichConfig,
    config: WorkflowPhaseConfig,
) -> bool {
    &&& config.id@ == id
    &&& config.max_rework_attempts == yaml.max_rework_attempts
    &&& config.on_verdict == yaml.on_verdict
    &&& config.skip_if == yaml.skip_if
    &&& config.budget == yaml.budget
    &&& config.environment == yaml.environment
    &&& config.workspace == yaml.workspace
}

/// Whether a phase entry says what a YAML entry says.
pub open spec fn same_entry(yaml: YamlPhaseEntry, entry: WorkflowPhaseEntry) -> bool {
    match (yaml, entry) {
        (YamlPhaseEntry::Simple(a), WorkflowPhaseEntry::Simple(b)) => a == b,
        (YamlPhaseEntry::SubWorkflow(a), WorkflowPhaseEntry::SubWorkflow(b)) => a.workflow_ref
            == b.workflow_ref,
        (YamlPhaseEntry::Rich(map), WorkflowPhaseEntry::Rich(config)) => {
            &&& map.names() == seq![config.id@]
            &&& same_rich(config.id@, map@[config.id@], config)
        },
        _ => false,
    }
}

/// The phase entry that a YAML entry stands for.
pub fn yaml_phase_entry_to_workflow_phase_entry(entry: YamlPhaseEntry) -> (r: Result<
    WorkflowPhaseEntry,
    String,
>)
    ensures
        match r {
            Ok(e) => entry_problem(entry) is None && same_entry(entry, e),
            Err(message) => entry_problem(entry) == Some(message@),
        },
{
    match entry {
        YamlPhaseEntry::Simple(id) => Ok(WorkflowPhaseEntry::Simple(id)),
        YamlPhaseEntry::SubWorkflow(sub) => Ok(
            WorkflowPhaseEntry::SubWorkflow(SubWorkflowRef { workflow_ref: sub.workflow_ref }),
        ),
        YamlPhaseEntry::Rich(map) => {
            let n = map.len();
            if n != 1 {
                let mut message = String::new();
                message.append("rich phase entry must have exactly one key (the phase id), got ");
                push_decimal(&mut message, n as u128);
                return Err(message);
            }
            let ghost whole = map;
            let (mut keys, mut values) = map.into_parts();
            let id = keys.pop().unwrap();
            let config = values.pop().unwrap();
            proof {
                assert(whole.names()[0] == id@);
                assert(whole.names() =~= seq![id@]);
            }
            Ok(
                WorkflowPhaseEntry::Rich(
                    WorkflowPhaseConfig {
                        id,
                        max_rework_attempts: config.max_rework_attempts,
                        on_verdict: config.on_verdict,
                        skip_if: config.skip_if,
                        budget: config.budget,
                        environment: config.environment,
                        workspace: config.workspace,
                    },
                ),
            )
        },
    }
}

/// The YAML form of a phase entry.
pub fn workflow_phase_entry_to_yaml(entry: WorkflowPhaseEntry) -> (r: YamlPhaseEntry)
    ensures
        same_entry(r, entry),
        entry_problem(r) is None,
{
    match entry {
        WorkflowPhaseEntry::Simple(id) => YamlPhaseEntry::Simple(id),
        WorkflowPhaseEntry::SubWorkflow(sub) => YamlPhaseEntry::SubWorkflow(
            YamlSubWorkflowRef { workflow_ref: sub.workflow_ref },
        ),
        WorkflowPhaseEntry::Rich(config) => {
            let mut map: TextMap<YamlPhaseRichConfig> = TextMap::new();
            let ghost id = config.id@;
            map.insert(
                config.id,
                YamlPhaseRichConfig {
                    max_rework_attempts: config.max_rework_attempts,
                    skip_if: config.skip_if,
                    on_verdict: config.on_verdict,
                    budget: config.budget,
                    environment: config.environment,
                    workspace: config.workspace,
                },
            );
            let n = map.len();
            proof {
                assert(map@.contains_key(id));
                assert(map.names().contains(id));
                assert forall|i: int| 0 <= i < map.names().len() implies map.names()[i] == id by {
                    assert(map.names().contains(map.names()[i]));
                    assert(map@.contains_key(map.names()[i]));
                }
                if map.names().len() > 1 {
                    crate::text_map::lemma_ascending_unique(map.names(), 0, 1);
                }
                assert(map.names() =~= seq![id]);
            }
            YamlPhaseEntry::Rich(map)
        },
    }
}

/// The first thing wrong with the entries from index `k` on.
pub open spec fn entries_problem(entries: Seq<YamlPhaseEntry>, k: int) -> Option<Seq<char>>
    decreases entries.len() - k,
{
    if k < 0 || k >= entries.len() {
        None
    } else if entry_problem(entries[k]) is Some {
        entry_problem(entries[k])
    } else {
        entries_problem(entries, k + 1)
    }
}

/// Whether phase entries say what YAML entries say, one by one.
pub open spec fn same_entries(yaml: Seq<YamlPhaseEntry>, entries: Seq<WorkflowPhaseEntry>) -> bool {
    &&& yaml.len() == entries.len()
    &&& forall|i: int|
        0 <= i < yaml.len() ==> same_entry(#[trigger] yaml[i], #[trigger] entries[i])
}

fn convert_entries(entries: Vec<YamlPhaseEntry>) -> (r: Result<Vec<WorkflowPhaseEntry>, String>)
    ensures
        match r {
            Ok(list) => entries_problem(entries@, 0) is None && same_entries(entries@, list@),
            Err(e) => entries_problem(entries@, 0) == Some(e@),
        },
{
    let ghost whole = entries@;
    let mut queue = reversed(entries);
    let mut list: Vec<WorkflowPhaseEntry> = Vec::new();
    while queue.len() > 0
        invariant
            queue@.len() + list@.len() == whole.len(),
            queue@ =~= whole.reverse().take(queue@.len() as int),
            whole == entries@,
            entries_problem(whole, 0) == entries_problem(whole, list@.len() as int),
            forall|i: int|
                0 <= i < list@.len() ==> same_entry(#[trigger] whole[i], #[trigger] list@[i]),
        decreases queue@.len(),
    {
        let ghost n = list@.len() as int;
        let entry = queue.pop().unwrap();
        proof {
            assert(entry == whole[n]);
        }
        match yaml_phase_entry_to_workflow_phase_entry(entry) {
            Ok(e) => {
                list.push(e);
            },
            Err(e) => {
                return Err(e);
            },
        }
    }
    Ok(list)
}

fn entries_to_yaml(entries: Vec<WorkflowPhaseEntry>) -> (r: Vec<YamlPhaseEntry>)
    ensures
        same_entries(r@, entries@),
        entries_problem(r@, 0) is None,
{
    let ghost whole = entries@;
    let mut queue = reversed(entries);
    let mut list: Vec<YamlPhaseEntry> = Vec::new();
    while queue.len() > 0
        invariant
            queue@.len() + list@.len() == whole.len(),
            queue@ =~= whole.reverse().take(queue@.len() as int),
            forall|i: int|
                0 <= i < list@.len() ==> same_entry(#[trigger] list@[i], #[trigger] whole[i]),
            forall|i: int| 0 <= i < list@.len() ==> entry_problem(#[trigger] list@[i]) is None,
        decreases queue@.len(),
    {
        let ghost n = list@.len() as int;
        let entry = queue.pop().unwrap();
        proof {
            assert(entry == whole[n]);
        }
        list.push(workflow_phase_entry_to_yaml(entry));
    }
    proof {
        lemma_no_entry_problem(list@, 0);
    }
    list
}

proof fn lemma_no_entry_problem(entries: Seq<YamlPhaseEntry>, k: int)
    requires
        0 <= k,
        forall|i: int| 0 <= i < entries.len() ==> entry_problem(#[trigger] entries[i]) is None,
    ensures
        entries_problem(entries, k) is None,
    decreases entries.len() - k,
{
    if k < entries.len() {
        lemma_no_entry_problem(entries, k + 1);
    }
}

/// The first thing wrong with a workflow: an entry, then its worktree block.
pub open spec fn workflow_problem(yaml: YamlWorkflowDefinition) -> Option<Seq<char>> {
    if entries_problem(yaml.phases@, 0) is Some {
        entries_problem(yaml.phases@, 0)
    } else {
        match yaml.worktree {
            Some(block) => match worktree_of(block) {
                Ok(_) => None,
                Err(e) => Some(e),
            },
            None => None,
        }
    }
}

/// Whether a workflow says what a YAML workflow says: a missing name is the id, a
/// missing description is empty.
pub open spec fn same_workflow(yaml: YamlWorkflowDefinition, r: WorkflowDefinition) -> bool {
    &&& r.id@ == yaml.id@
    &&& r.name@ == match yaml.name {
        Some(name) => name@,
        None => yaml.id@,
    }
    &&& r.description@ == match yaml.description {
        Some(text) => text@,
        None => Seq::empty(),
    }
    &&& same_entries(yaml.phases@, r.phases@)
    &&& r.variables == yaml.variables
    &&& match yaml.worktree {
        Some(block) => r.worktree is Some && worktree_of(block) == Ok::<WorktreeConfig, Seq<char>>(
            r.worktree->0,
        ),
        None => r.worktree is None,
    }
    &&& r.budget == yaml.budget
    &&& r.environment == yaml.environment
    &&& r.workspace == yaml.workspace
}

/// The workflow that a YAML workflow stands for.
pub fn yaml_workflow_to_workflow_definition(yaml: YamlWorkflowDefinition) -> (r: Result<
    WorkflowDefinition,
    String,
>)
    ensures
        match r {
            Ok(definition) => workflow_problem(yaml) is None && same_workflow(yaml, definition),
            Err(e) => workflow_problem(yaml) == Some(e@),
        },
{
    let phases = match convert_entries(yaml.phases) {
        Ok(phases) => phases,
        Err(e) => {
            return Err(e);
        },
    };
    let worktree = match yaml.worktree {
        Some(block) => match WorktreeConfig::from_yaml(block) {
            Ok(config) => Some(config),
            Err(e) => {
                return Err(e);
            },
        },
        None => None,
    };
    let name = match yaml.name {
        Some(name) => name,
        None => yaml.id.clone(),
    };
    let description = match yaml.description {
        Some(text) => text,
        None => String::new(),
    };
    Ok(
        WorkflowDefinition {
            id: yaml.id,
            name,
            description,
            phases,
            variables: yaml.variables,
            worktree,
            budget: yaml.budget,
            environment: yaml.environment,
            workspace: yaml.workspace,
        },
    )
}

/// The YAML form of a workflow. It says what the workflow says, and reading it
/// back never fails.
pub fn workflow_definition_to_yaml(definition: WorkflowDefinition) -> (r: YamlWorkflowDefinition)
    ensures
        same_workflow(r, definition),
        workflow_problem(r) is None,
        r.id == definition.id,
        r.name == Some(definition.name),
        r.description == Some(definition.description),
        definition.worktree matches Some(config) ==> r.worktree == Some(
            YamlPhaseWorktree::Full(config),
        ),
{
    let worktree = match definition.worktree {
        Some(config) => Some(YamlPhaseWorktree::Full(config)),
        None => None,
    };
    YamlWorkflowDefinition {
        id: definition.id,
        name: Some(definition.name),
        description: Some(definition.description),
        phases: entries_to_yaml(definition.phases),
        variables: definition.variables,
        worktree,
        budget: definition.budget,
        environment: definition.environment,
        workspace: definition.workspace,
    }
}

/// A workflow survives being written in the YAML form and read back: whatever
/// YAML form says what one workflow says, every workflow read from it says the
/// same.
pub proof fn workflow_round_trips(
    definition: WorkflowDefinition,
    yaml: YamlWorkflowDefinition,
    back: WorkflowDefinition,
)
    requires
        same_workflow(yaml, definition),
        same_workflow(yaml, back),
    ensures
        back.id@ == definition.id@,
        back.name@ == definition.name@,
        back.description@ == definition.description@,
        crate::config::workflow_types::entry_views(back.phases@)
            == crate::config::workflow_types::entry_views(definition.phases@),
        back.variables == definition.variables,
        back.worktree == definition.worktree,
        back.budget == definition.budget,
        back.environment == definition.environment,
        back.workspace == definition.workspace,
{
    assert forall|i: int| 0 <= i < back.phases@.len() implies #[trigger] back.phases@[i]@
        == definition.phases@[i]@ by {
        assert(same_entry(yaml.phases@[i], back.phases@[i]));
        assert(same_entry(yaml.phases@[i], definition.phases@[i]));
        if let YamlPhaseEntry::Rich(map) = yaml.phases@[i] {
            let a = back.phases@[i]->Rich_0;
            let b = definition.phases@[i]->Rich_0;
            assert(map.names()[0] == a.id@);
            assert(map.names()[0] == b.id@);
        }
    }
    assert(crate::config::workflow_types::entry_views(back.phases@)
        =~= crate::config::workflow_types::entry_views(definition.phases@));
}

// ---------------------------------------------------------------------
// Laws of conversion
// ---------------------------------------------------------------------

/// The exit codes that a command accepts: those that its block lists, or 0 alone
/// where it lists none. An empty list accepts none.
pub proof fn exit_codes_are_those_listed(
    yaml: YamlCommandDefinition,
    command: PhaseCommandDefinition,
    code: i32,
)
    requires
        same_command(yaml, command),
    ensures
        yaml.success_exit_codes is None ==> (command.success_exit_codes@.contains(code) <==> code
            == 0) && command.success_exit_codes@.len() == 1,
        yaml.success_exit_codes matches Some(codes) ==> command.success_exit_codes@ == codes@,
{
    if yaml.success_exit_codes is None {
        assert(command.success_exit_codes@[0] == 0);
    }
}

/// What a command's block leaves out takes its default: the project root, and no
/// JSON output. What it says is carried over.
pub proof fn command_settings_are_carried_over(
    yaml: YamlCommandDefinition,
    command: PhaseCommandDefinition,
)
    requires
        same_command(yaml, command),
    ensures
        yaml.cwd_mode is None ==> command.cwd_mode == CommandCwdMode::ProjectRoot,
        yaml.parse_json_output is None ==> !command.parse_json_output,
        yaml.parse_json_output matches Some(flag) ==> command.parse_json_output == flag,
        command.program == yaml.program,
        command.args == yaml.args,
        command.env == yaml.env,
        command.cwd_path == yaml.cwd_path,
        command.timeout_secs == yaml.timeout_secs,
        command.expected_result_kind == yaml.expected_result_kind,
        command.expected_schema == yaml.expected_schema,
        command.category == yaml.category,
        command.failure_pattern == yaml.failure_pattern,
        command.excerpt_max_chars == yaml.excerpt_max_chars,
        command.on_success_verdict == yaml.on_success_verdict,
        command.on_failure_verdict == yaml.on_failure_verdict,
        command.confidence == yaml.confidence,
        command.failure_risk == yaml.failure_risk,
{
}

/// Whether a value spells a name: letter by letter up to ASCII case, with `-` or
/// `_` where the name has `_`.
pub open spec fn spells(value: Seq<char>, name: Seq<char>) -> bool {
    &&& value.len() == name.len()
    &&& forall|i: int|
        0 <= i < name.len() ==> #[trigger] value[i] == name[i] || (value[i] == '-' && name[i]
            == '_') || ('A' <= value[i] <= 'Z' && name[i] as u32 == value[i] as u32 + 32)
}

proof fn lemma_spells(value: Seq<char>, name: Seq<char>)
    requires
        forall|i: int| 0 <= i < name.len() ==> #[trigger] name[i] == '_' || 'a' <= name[i] <= 'z',
    ensures
        spells(value, name) <==> snake(value) == name,
{
    if snake(value) == name {
        assert(snake(value).len() == value.len());
        assert forall|i: int| 0 <= i < name.len() implies #[trigger] value[i] == name[i] || (
        value[i] == '-' && name[i] == '_') || ('A' <= value[i] <= 'Z' && name[i] as u32
            == value[i] as u32 + 32) by {
            assert(snake(value)[i] == name[i]);
            crate::text::case_is_folded_letter_by_letter(value[i]);
        }
    }
    if spells(value, name) {
        assert forall|i: int| 0 <= i < name.len() implies snake(value)[i] == name[i] by {
            assert(value[i] == name[i] || (value[i] == '-' && name[i] == '_') || ('A' <= value[i]
                <= 'Z' && name[i] as u32 == value[i] as u32 + 32));
            assert(name[i] == '_' || 'a' <= name[i] <= 'z');
            crate::text::case_is_folded_letter_by_letter(value[i]);
        }
        assert(snake(value) =~= name);
    }
}

/// Each working directory goes by its one name, in any case and with `-` or `_`;
/// no other value names one.
pub proof fn working_directories_go_by_their_names(value: Seq<char>)
    ensures
        cwd_mode_of(value) == Some(CommandCwdMode::ProjectRoot) <==> spells(
            value,
            "project_root"@,
        ),
        cwd_mode_of(value) == Some(CommandCwdMode::TaskRoot) <==> spells(value, "task_root"@),
        cwd_mode_of(value) == Some(CommandCwdMode::Path) <==> spells(value, "path"@),
{
    reveal_strlit("project_root");
    reveal_strlit("task_root");
    reveal_strlit("path");
    lemma_spells(value, "project_root"@);
    lemma_spells(value, "task_root"@);
    lemma_spells(value, "path"@);
}

/// A phase is accepted exactly if it has a command block in command mode and in no
/// other, a manual block in manual mode and in no other, a working directory that
/// has a name, and a worktree block that can be read.
pub proof fn phases_fit_their_mode(phase_id: Seq<char>, yaml: YamlPhaseDefinition)
    ensures
        phase_problem(phase_id, yaml) is None <==> (yaml.command is Some <==> yaml.mode
            == PhaseExecutionMode::Command) && (yaml.manual is Some <==> yaml.mode
            == PhaseExecutionMode::Manual) && (yaml.command matches Some(c) ==> (
        c.cwd_mode matches Some(name) ==> spells(name@, "project_root"@) || spells(
            name@,
            "task_root"@,
        ) || spells(name@, "path"@))) && (yaml.worktree matches Some(block) ==> worktree_of(
            block,
        ) is Ok),
        yaml.mode == PhaseExecutionMode::Command && yaml.command is None ==> phase_problem(
            phase_id,
            yaml,
        ) == Some(
            "phases['"@ + phase_id + "'] mode '"@ + "command"@ + "' "@
                + "requires a command block"@,
        ),
        yaml.mode == PhaseExecutionMode::Agent && yaml.command is Some ==> phase_problem(
            phase_id,
            yaml,
        ) == Some(
            "phases['"@ + phase_id + "'] mode '"@ + "agent"@ + "' "@
                + "must not include a command block"@,
        ),
        yaml.mode == PhaseExecutionMode::Manual && yaml.command is None && yaml.manual is None
            ==> phase_problem(phase_id, yaml) == Some(
            "phases['"@ + phase_id + "'] mode '"@ + "manual"@ + "' "@ + "requires a manual block"@,
        ),
        yaml.mode == PhaseExecutionMode::Agent && yaml.command is None && yaml.manual is Some
            ==> phase_problem(phase_id, yaml) == Some(
            "phases['"@ + phase_id + "'] mode '"@ + "agent"@ + "' "@
                + "must not include a manual block"@,
        ),
{
    if let Some(c) = yaml.command {
        if let Some(name) = c.cwd_mode {
            working_directories_go_by_their_names(name@);
        }
    }
}

/// What a phase says besides its blocks is carried over, and each block is there
/// exactly if the YAML form has it.
pub proof fn phase_settings_are_carried_over(yaml: YamlPhaseDefinition, r: PhaseExecutionDefinition)
    requires
        same_phase(yaml, r),
    ensures
        r.agent_id == yaml.agent,
        r.mode == yaml.mode,
        r.directive == yaml.directive,
        r.system_prompt == yaml.system_prompt,
        r.runtime == yaml.runtime,
        r.capabilities == yaml.capabilities,
        r.output_contract == yaml.output_contract,
        r.output_json_schema == yaml.output_json_schema,
        r.decision_contract == yaml.decision_contract,
        r.retry == yaml.retry,
        r.skills == yaml.skills,
        r.default_tool == yaml.default_tool,
        r.idempotency == yaml.idempotency,
        r.command is Some <==> yaml.command is Some,
        r.manual is Some <==> yaml.manual is Some,
        r.worktree is Some <==> yaml.worktree is Some,
        r.evals is Some <==> yaml.evals is Some,
        yaml.command is Some ==> same_command(yaml.command->0, r.command->0),
        yaml.worktree is Some ==> worktree_of(yaml.worktree->0) == Ok::<WorktreeConfig, Seq<char>>(
            r.worktree->0,
        ),
        yaml.manual is Some ==> (r.manual->0).instructions == (yaml.manual->0).instructions && (
        r.manual->0).timeout_secs == (yaml.manual->0).timeout_secs && ((
        r.manual->0).approval_note_required <==> (yaml.manual->0).approval_note_required == Some(
            true,
        )),
{
}

/// An eval gate keeps its threshold, what happens on failure, its reworks, and
/// every check with all that it says, in order.
pub proof fn eval_gates_keep_every_check(yaml: YamlPhaseDefinition, r: PhaseExecutionDefinition)
    requires
        same_phase(yaml, r),
        yaml.evals is Some,
    ensures
        (r.evals->0).pass_threshold == (yaml.evals->0).pass_threshold,
        (r.evals->0).on_fail == (yaml.evals->0).on_fail,
        (r.evals->0).max_reworks == (yaml.evals->0).max_reworks,
        (r.evals->0).checks@.len() == (yaml.evals->0).checks@.len(),
        forall|i: int|
            0 <= i < (yaml.evals->0).checks@.len() ==> ({
                let a = #[trigger] (yaml.evals->0).checks@[i];
                let b = (r.evals->0).checks@[i];
                &&& b.id == a.id
                &&& b.kind == a.kind
                &&& b.command == a.command
                &&& b.args == a.args
                &&& b.working_dir == a.working_dir
                &&& b.timeout_secs == a.timeout_secs
                &&& b.expected_exit == a.expected_exit
                &&& b.agent == a.agent
                &&& b.prompt == a.prompt
            }),
{
}

/// A workflow keeps its id and all its settings; its name is its id, and its
/// description empty, where none is given. It has one phase for every entry, in
/// order: a name alone stays a name, a reference a reference, and an entry with
/// settings keeps them under its id.
pub proof fn workflow_settings_are_carried_over(
    yaml: YamlWorkflowDefinition,
    r: WorkflowDefinition,
    i: int,
)
    requires
        same_workflow(yaml, r),
        0 <= i < yaml.phases@.len(),
    ensures
        r.id@ == yaml.id@,
        yaml.name matches Some(name) ==> r.name@ == name@,
        yaml.name is None ==> r.name@ == yaml.id@,
        yaml.description matches Some(text) ==> r.description@ == text@,
        yaml.description is None ==> r.description@.len() == 0,
        r.variables == yaml.variables,
        r.budget == yaml.budget,
        r.environment == yaml.environment,
        r.workspace == yaml.workspace,
        r.worktree is Some <==> yaml.worktree is Some,
        yaml.worktree is Some ==> worktree_of(yaml.worktree->0) == Ok::<WorktreeConfig, Seq<char>>(
            r.worktree->0,
        ),
        r.phases@.len() == yaml.phases@.len(),
        yaml.phases@[i] matches YamlPhaseEntry::Simple(id) ==> r.phases@[i]
            == WorkflowPhaseEntry::Simple(id),
        yaml.phases@[i] matches YamlPhaseEntry::SubWorkflow(sub) ==> (
        r.phases@[i] matches WorkflowPhaseEntry::SubWorkflow(kept) && kept.workflow_ref
            == sub.workflow_ref),
        yaml.phases@[i] matches YamlPhaseEntry::Rich(map) ==> (
        r.phases@[i] matches WorkflowPhaseEntry::Rich(config) && map.names() == seq![config.id@]
            && config.max_rework_attempts == map@[config.id@].max_rework_attempts
            && config.on_verdict == map@[config.id@].on_verdict && config.skip_if
            == map@[config.id@].skip_if && config.budget == map@[config.id@].budget
            && config.environment == map@[config.id@].environment && config.workspace
            == map@[config.id@].workspace),
{
    assert(same_entry(yaml.phases@[i], r.phases@[i]));
}

/// A workflow is refused exactly if an entry with settings has not just one key,
/// or if its worktree block cannot be read.
pub proof fn workflows_are_refused_for_their_entries(yaml: YamlWorkflowDefinition)
    ensures
        workflow_problem(yaml) is None <==> (forall|i: int|
            0 <= i < yaml.phases@.len() ==> (#[trigger] yaml.phases@[i] matches YamlPhaseEntry::Rich(
                map,
            ) ==> map.names().len() == 1)) && (yaml.worktree matches Some(block) ==> worktree_of(
            block,
        ) is Ok),
{
    lemma_entries_problem(yaml.phases@, 0);
}

proof fn lemma_entries_problem(entries: Seq<YamlPhaseEntry>, k: int)
    requires
        0 <= k,
    ensures
        entries_problem(entries, k) is None <==> forall|i: int|
            k <= i < entries.len() ==> (#[trigger] entries[i] matches YamlPhaseEntry::Rich(map)
                ==> map.names().len() == 1),
    decreases entries.len() - k,
{
    if k < entries.len() {
        lemma_entries_problem(entries, k + 1);
    }
}

} // verus!
