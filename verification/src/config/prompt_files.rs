//! System prompts kept in files: which file is read for an agent, and what is
//! refused on the way.
//!
//! The files are looked at from outside. [`begin`] says what the first step for
//! an agent is, [`next_step`] what follows once the outside has answered.

use vstd::prelude::*;
use vstd::utf8::{encode_utf8, valid_utf8};

use crate::config::agent_types::AgentProfileOverlay;
use crate::config::env_lint::{indent_bytes, lint_indent};
use crate::config::removed::{source_label, source_name};
use crate::text::{
    before, chars_of, decimal, has_prefix, line_views, lines, lines_of, opt_str, push_decimal,
    same_chars, starts_with, text_before, trim, trim_start, trimmed_start, trimmed_text,
};

verus! {

pub const SYSTEM_PROMPT_FILE_MAX_BYTES: u64 = 1048576;

// ---------------------------------------------------------------------
// Finding a field of an agent
// ---------------------------------------------------------------------

/// What the scan of a workflow file for a field of an agent knows: whether it
/// stands in the `agents:` block, and the indentation of the agent's key once it
/// has passed it.
pub struct AgentScan {
    pub in_agents: bool,
    pub agent: Option<nat>,
}

/// The scan after one line, and whether the line declares the field.
pub open spec fn scan_agent_line(
    line: Seq<char>,
    agent_id: Seq<char>,
    field: Seq<char>,
    scan: AgentScan,
) -> (AgentScan, bool) {
    let text = trim_start(line);
    let indent = lint_indent(line);
    let named = if before(text, ':') == agent_id {
        Some(indent)
    } else {
        None
    };
    if text.len() == 0 || text[0] == '#' {
        (scan, false)
    } else if !scan.in_agents {
        (
            AgentScan { in_agents: starts_with(text, "agents:"@) && indent == 0, agent: scan.agent },
            false,
        )
    } else if indent == 0 && !starts_with(text, "agents:"@) {
        (AgentScan { in_agents: false, agent: None }, false)
    } else if scan.agent is None || indent <= scan.agent->0 {
        (AgentScan { in_agents: true, agent: named }, false)
    } else {
        (scan, starts_with(text, field + ":"@))
    }
}

/// Index of the first line from `i` on that declares the field of the agent.
pub open spec fn agent_field_line(
    all: Seq<Seq<char>>,
    agent_id: Seq<char>,
    field: Seq<char>,
    i: int,
    scan: AgentScan,
) -> Option<int>
    decreases all.len() - i,
{
    if i < 0 || i >= all.len() {
        None
    } else {
        let (next, found) = scan_agent_line(all[i], agent_id, field, scan);
        if found {
            Some(i)
        } else {
            agent_field_line(all, agent_id, field, i + 1, next)
        }
    }
}

/// Index of the line of a workflow file that declares a field of an agent.
pub open spec fn field_line(
    source: Seq<char>,
    agent_id: Seq<char>,
    field: Seq<char>,
) -> Option<int> {
    agent_field_line(lines(source), agent_id, field, 0, AgentScan { in_agents: false, agent: None })
}

spec fn scan_of(in_agents: bool, agent: Option<u128>) -> AgentScan {
    AgentScan {
        in_agents,
        agent: match agent {
            Some(n) => Some(n as nat),
            None => None,
        },
    }
}

/// The 1-based line of a workflow file that declares a field of an agent.
pub fn find_field_line_in_agent(yaml_str: &str, agent_id: &str, field_name: &str) -> (r: Option<
    usize,
>)
    ensures
        match r {
            Some(line) => field_line(yaml_str@, agent_id@, field_name@) == Some(line - 1),
            None => field_line(yaml_str@, agent_id@, field_name@) is None,
        },
{
    let all = lines_of(chars_of(yaml_str).as_slice());
    let ghost views = lines(yaml_str@);
    let wanted = chars_of(agent_id);
    let mut key = field_name.to_owned();
    key.append(":");
    let key = chars_of(key.as_str());
    let block = chars_of("agents:");
    let mut in_agents = false;
    let mut agent: Option<u128> = None;
    let mut i: usize = 0;
    while i < all.len()
        invariant
            i <= all@.len(),
            line_views(all@) == views,
            wanted@ == agent_id@,
            key@ == field_name@ + ":"@,
            block@ == "agents:"@,
            field_line(yaml_str@, agent_id@, field_name@) == agent_field_line(
                views,
                agent_id@,
                field_name@,
                i as int,
                scan_of(in_agents, agent),
            ),
        decreases all@.len() - i,
    {
        let line = all[i].as_slice();
        proof {
            assert(views[i as int] == line@);
        }
        let text = trimmed_start(line);
        let indent = indent_bytes(line);
        let ghost scan = scan_of(in_agents, agent);
        if text.len() > 0 && text[0] != '#' {
            let opens = has_prefix(text, block.as_slice());
            let inside = match agent {
                Some(n) => indent > n,
                None => false,
            };
            if !in_agents {
                in_agents = opens && indent == 0;
            } else if indent == 0 && !opens {
                in_agents = false;
                agent = None;
            } else if !inside {
                agent =
                if same_chars(text_before(text, ':'), wanted.as_slice()) {
                    Some(indent)
                } else {
                    None
                };
            } else if has_prefix(text, key.as_slice()) {
                return Some(i + 1);
            }
        }
        proof {
            assert(scan_agent_line(views[i as int], agent_id@, field_name@, scan) == (
                scan_of(in_agents, agent),
                false,
            ));
        }
        i += 1;
    }
    None
}

// ---------------------------------------------------------------------
// Steps
// ---------------------------------------------------------------------

/// An agent whose system prompt is being read from a file.
#[derive(Debug)]
pub struct PromptJob {
    pub agent_id: String,
    /// The path as the profile gives it.
    pub raw_path: String,
    /// How the workflow file is named in messages.
    pub source_label: String,
    /// Whether the file has to lie inside a pack.
    pub confined: bool,
}

/// What is done next for an agent.
#[derive(Debug)]
pub enum PromptStep {
    /// The agent has no prompt file.
    Skip,
    /// The path, trimmed, is looked at.
    InspectPath(PromptJob, String),
    /// The resolved path is brought into its canonical form.
    Canonicalize(PromptJob, String),
    /// The size of the file at the resolved path is read.
    Measure(PromptJob, String),
    /// The file at the resolved path is read.
    Read(PromptJob, String),
    /// The prompt has been read.
    Finished(String),
    /// The file is refused, with what is said about it.
    Failed(String),
}

/// What the outside answers.
#[derive(Debug)]
pub enum PromptEvent {
    /// Whether the path is absolute, whether it has a `..` segment, and what it
    /// resolves to next to the workflow file.
    Inspected { absolute: bool, parent_segment: bool, resolved: String },
    /// The canonical path, the canonical root of the pack, and whether the path
    /// lies under the root.
    Canonical { path: String, root: String, inside: bool },
    /// The size of the file in bytes.
    Size(u64),
    /// The contents of the file.
    Contents(Vec<u8>),
    /// What was asked could not be done.
    Denied(String),
}

/// The beginning of what is said about a file in a pack, or in a project.
pub open spec fn prompt_head(pack: bool, label: Seq<char>, agent_id: Seq<char>) -> Seq<char> {
    (if pack {
        "pack workflow at "@
    } else {
        "workflow YAML at "@
    }) + label + " agent '"@ + agent_id + "' "@
}

/// What is said about the file at a path.
pub open spec fn prompt_file_message(
    pack: bool,
    job: PromptJob,
    path: Seq<char>,
    rest: Seq<char>,
) -> Seq<char> {
    prompt_head(pack, job.source_label@, job.agent_id@) + "system_prompt_file '"@ + path + "' "@
        + rest
}

fn prompt_file_message_text(pack: bool, job: &PromptJob, path: &str, rest: &str) -> (r: String)
    ensures
        r@ == prompt_file_message(pack, *job, path@, rest@),
{
    let mut out = String::new();
    if pack {
        out.append("pack workflow at ");
    } else {
        out.append("workflow YAML at ");
    }
    out.append(job.source_label.as_str());
    out.append(" agent '");
    out.append(job.agent_id.as_str());
    out.append("' ");
    out.append("system_prompt_file '");
    out.append(path);
    out.append("' ");
    out.append(rest);
    proof {
        assert(out@ =~= prompt_file_message(pack, *job, path@, rest@));
    }
    out
}

/// Two texts side by side.
fn joined_text(a: &str, b: &str) -> (r: String)
    ensures
        r@ == a@ + b@,
{
    let mut out = a.to_owned();
    out.append(b);
    out
}

/// Whether a profile has an inline prompt that is not blank.
pub open spec fn has_inline_prompt(profile: AgentProfileOverlay) -> bool {
    profile.system_prompt is Some && trim((profile.system_prompt->0)@).len() > 0
}

/// What is said about a profile with both an inline prompt and a prompt file.
pub open spec fn both_prompts_message(
    label: Seq<char>,
    agent_id: Seq<char>,
    line: Option<int>,
) -> Seq<char> {
    "workflow YAML at "@ + label + (match line {
        Some(i) => " line "@ + decimal((i + 1) as nat),
        None => Seq::empty(),
    }) + " agent '"@ + agent_id
        + "' sets both system_prompt and system_prompt_file; choose one"@
}

/// Whether `r` is the first step for an agent: nothing where its profile names no
/// prompt file; a blank path, and an inline prompt beside a file, are refused.
pub open spec fn is_first_step(
    agent_id: Seq<char>,
    profile: AgentProfileOverlay,
    source: Seq<char>,
    source_path: Option<Seq<char>>,
    confined: bool,
    r: PromptStep,
) -> bool {
    let label = source_name(source_path);
    match profile.system_prompt_file {
        None => r is Skip,
        Some(raw) => if trim(raw@).len() == 0 {
            r is Failed && (r->Failed_0)@ == prompt_head(false, label, agent_id)
                + "system_prompt_file must not be empty"@
        } else if has_inline_prompt(profile) {
            r is Failed && (r->Failed_0)@ == both_prompts_message(
                label,
                agent_id,
                field_line(source, agent_id, "system_prompt_file"@),
            )
        } else {
            r matches PromptStep::InspectPath(job, path) && {
                &&& path@ == trim(raw@)
                &&& job.agent_id@ == agent_id
                &&& job.raw_path@ == raw@
                &&& job.source_label@ == label
                &&& job.confined == confined
            }
        },
    }
}

/// The first step for an agent.
pub fn begin(
    agent_id: &str,
    profile: &AgentProfileOverlay,
    yaml_str: &str,
    source_path: Option<&str>,
    confined: bool,
) -> (r: PromptStep)
    ensures
        is_first_step(agent_id@, *profile, yaml_str@, opt_str(source_path), confined, r),
{
    let raw = match &profile.system_prompt_file {
        Some(raw) => raw,
        None => {
            return PromptStep::Skip;
        },
    };
    let label = source_label(source_path);
    let path = trimmed_text(raw.as_str());
    if path.as_str().is_empty() {
        let mut out = String::new();
        out.append("workflow YAML at ");
        out.append(label.as_str());
        out.append(" agent '");
        out.append(agent_id);
        out.append("' ");
        out.append("system_prompt_file must not be empty");
        proof {
            assert(out@ =~= prompt_head(false, label@, agent_id@)
                + "system_prompt_file must not be empty"@);
        }
        return PromptStep::Failed(out);
    }
    let inline = match &profile.system_prompt {
        Some(prompt) => !trimmed_text(prompt.as_str()).as_str().is_empty(),
        None => false,
    };
    if inline {
        let line = find_field_line_in_agent(yaml_str, agent_id, "system_prompt_file");
        let mut out = String::new();
        out.append("workflow YAML at ");
        out.append(label.as_str());
        if let Some(n) = line {
            out.append(" line ");
            push_decimal(&mut out, n as u128);
        }
        out.append(" agent '");
        out.append(agent_id);
        out.append("' sets both system_prompt and system_prompt_file; choose one");
        proof {
            assert(out@ =~= both_prompts_message(
                label@,
                agent_id@,
                field_line(yaml_str@, agent_id@, "system_prompt_file"@),
            ));
        }
        return PromptStep::Failed(out);
    }
    PromptStep::InspectPath(
        PromptJob {
            agent_id: agent_id.to_owned(),
            raw_path: raw.clone(),
            source_label: label,
            confined,
        },
        path,
    )
}

/// The text of a UTF-8 decoding error.
pub uninterp spec fn utf8_error_text(bytes: Seq<u8>) -> Seq<char>;

/// `String::from_utf8`: the text that the bytes encode, and for bytes that are no
/// UTF-8 the text of the error, which says where they stop being it.
#[verifier::external_body]
fn text_from_utf8(bytes: Vec<u8>) -> (r: Result<String, String>)
    ensures
        match r {
            Ok(text) => valid_utf8(bytes@) && encode_utf8(text@) == bytes@,
            Err(e) => !valid_utf8(bytes@) && e@ == utf8_error_text(bytes@),
        },
{
    String::from_utf8(bytes).map_err(|e| e.to_string())
}

/// Whether a step ended in a refusal with the given message.
pub open spec fn fails_with(r: PromptStep, message: Seq<char>) -> bool {
    r is Failed && (r->Failed_0)@ == message
}

/// Whether `r` is the step that follows once the outside has answered `event` to
/// `step`. An answer that does not belong to the step leaves it as it is.
pub open spec fn is_next_step(step: PromptStep, event: PromptEvent, r: PromptStep) -> bool {
    match (step, event) {
        (
            PromptStep::InspectPath(job, _),
            PromptEvent::Inspected { absolute, parent_segment, resolved },
        ) => if job.confined && absolute {
            fails_with(
                r,
                prompt_file_message(
                    true,
                    job,
                    job.raw_path@,
                    "must be a relative path inside the pack root"@,
                ),
            )
        } else if job.confined && parent_segment {
            fails_with(
                r,
                prompt_file_message(true, job, job.raw_path@, "must not contain '..' segments"@),
            )
        } else if job.confined {
            r == PromptStep::Canonicalize(job, resolved)
        } else {
            r == PromptStep::Measure(job, resolved)
        },
        (PromptStep::Canonicalize(job, resolved), PromptEvent::Canonical { path, root, inside }) => if inside {
            r == PromptStep::Measure(job, resolved)
        } else {
            fails_with(
                r,
                prompt_file_message(
                    true,
                    job,
                    job.raw_path@,
                    "resolves to '"@ + path@ + "' which is outside the pack root '"@ + root@ + "'"@,
                ),
            )
        },
        (PromptStep::Canonicalize(job, resolved), PromptEvent::Denied(e)) => fails_with(
            r,
            prompt_file_message(true, job, resolved@, "could not be canonicalized: "@ + e@),
        ),
        (PromptStep::Measure(job, resolved), PromptEvent::Size(len)) => if len
            > SYSTEM_PROMPT_FILE_MAX_BYTES {
            fails_with(
                r,
                prompt_file_message(
                    false,
                    job,
                    resolved@,
                    "is "@ + decimal(len as nat) + " bytes; maximum is "@ + decimal(
                        SYSTEM_PROMPT_FILE_MAX_BYTES as nat,
                    ) + " bytes (1 MiB)"@,
                ),
            )
        } else {
            r == PromptStep::Read(job, resolved)
        },
        (PromptStep::Measure(job, resolved), PromptEvent::Denied(e)) => fails_with(
            r,
            prompt_file_message(false, job, resolved@, "could not be read: "@ + e@),
        ),
        (PromptStep::Read(job, resolved), PromptEvent::Denied(e)) => fails_with(
            r,
            prompt_file_message(false, job, resolved@, "could not be read: "@ + e@),
        ),
        (PromptStep::Read(job, resolved), PromptEvent::Contents(bytes)) => if valid_utf8(bytes@) {
            r is Finished && encode_utf8((r->Finished_0)@) == bytes@
        } else {
            fails_with(
                r,
                prompt_file_message(
                    false,
                    job,
                    resolved@,
                    "is not valid UTF-8: "@ + utf8_error_text(bytes@),
                ),
            )
        },
        (other, _) => r == other,
    }
}

/// The step that follows once the outside has answered.
pub fn next_step(step: PromptStep, event: PromptEvent) -> (r: PromptStep)
    ensures
        is_next_step(step, event, r),
{
    match (step, event) {
        (
            PromptStep::InspectPath(job, _),
            PromptEvent::Inspected { absolute, parent_segment, resolved },
        ) => {
            if job.confined && absolute {
                return PromptStep::Failed(
                    prompt_file_message_text(
                        true,
                        &job,
                        job.raw_path.as_str(),
                        "must be a relative path inside the pack root",
                    ),
                );
            }
            if job.confined && parent_segment {
                return PromptStep::Failed(
                    prompt_file_message_text(
                        true,
                        &job,
                        job.raw_path.as_str(),
                        "must not contain '..' segments",
                    ),
                );
            }
            if job.confined {
                PromptStep::Canonicalize(job, resolved)
            } else {
                PromptStep::Measure(job, resolved)
            }
        },
        (PromptStep::Canonicalize(job, resolved), PromptEvent::Canonical { path, root, inside }) => {
            if inside {
                return PromptStep::Measure(job, resolved);
            }
            let mut rest = String::new();
            rest.append("resolves to '");
            rest.append(path.as_str());
            rest.append("' which is outside the pack root '");
            rest.append(root.as_str());
            rest.append("'");
            proof {
                assert(rest@ =~= "resolves to '"@ + path@ + "' which is outside the pack root '"@
                    + root@ + "'"@);
            }
            PromptStep::Failed(
                prompt_file_message_text(true, &job, job.raw_path.as_str(), rest.as_str()),
            )
        },
        (PromptStep::Canonicalize(job, resolved), PromptEvent::Denied(e)) => {
            let rest = joined_text("could not be canonicalized: ", e.as_str());
            PromptStep::Failed(
                prompt_file_message_text(true, &job, resolved.as_str(), rest.as_str()),
            )
        },
        (PromptStep::Measure(job, resolved), PromptEvent::Size(len)) => {
            if len <= SYSTEM_PROMPT_FILE_MAX_BYTES {
                return PromptStep::Read(job, resolved);
            }
            let mut rest = String::new();
            rest.append("is ");
            push_decimal(&mut rest, len as u128);
            rest.append(" bytes; maximum is ");
            push_decimal(&mut rest, SYSTEM_PROMPT_FILE_MAX_BYTES as u128);
            rest.append(" bytes (1 MiB)");
            proof {
                assert(rest@ =~= "is "@ + decimal(len as nat) + " bytes; maximum is "@ + decimal(
                    SYSTEM_PROMPT_FILE_MAX_BYTES as nat,
                ) + " bytes (1 MiB)"@);
            }
            PromptStep::Failed(
                prompt_file_message_text(false, &job, resolved.as_str(), rest.as_str()),
            )
        },
        (PromptStep::Measure(job, resolved), PromptEvent::Denied(e)) => {
            let rest = joined_text("could not be read: ", e.as_str());
            PromptStep::Failed(
                prompt_file_message_text(false, &job, resolved.as_str(), rest.as_str()),
            )
        },
        (PromptStep::Read(job, resolved), PromptEvent::Denied(e)) => {
            let rest = joined_text("could not be read: ", e.as_str());
            PromptStep::Failed(
                prompt_file_message_text(false, &job, resolved.as_str(), rest.as_str()),
            )
        },
        (PromptStep::Read(job, resolved), PromptEvent::Contents(bytes)) => match text_from_utf8(
            bytes,
        ) {
            Ok(text) => PromptStep::Finished(text),
            Err(e) => {
                let rest = joined_text("is not valid UTF-8: ", e.as_str());
                PromptStep::Failed(
                    prompt_file_message_text(false, &job, resolved.as_str(), rest.as_str()),
                )
            },
        },
        (other, _) => other,
    }
}

/// Puts a prompt that was read from a file into a profile.
pub fn apply_prompt(profile: &mut AgentProfileOverlay, contents: String)
    ensures
        *final(profile) == (AgentProfileOverlay {
            system_prompt: Some(contents),
            system_prompt_file: None,
            ..*old(profile)
        }),
        prompt_applied(*old(profile), *final(profile), contents@),
{
    profile.system_prompt = Some(contents);
    profile.system_prompt_file = None;
}

/// What is said about a pack root that has no canonical form.
pub fn pack_root_message(root: &str, error: &str) -> (r: String)
    ensures
        r@ == "pack root '"@ + root@
            + "' could not be canonicalized for system_prompt_file confinement: "@ + error@,
{
    let mut out = String::new();
    out.append("pack root '");
    out.append(root);
    out.append("' could not be canonicalized for system_prompt_file confinement: ");
    out.append(error);
    proof {
        assert(out@ =~= "pack root '"@ + root@
            + "' could not be canonicalized for system_prompt_file confinement: "@ + error@);
    }
    out
}

// ---------------------------------------------------------------------
// Laws
// ---------------------------------------------------------------------

/// Whether the step leads to a file being looked at inside.
pub open spec fn touches_file(step: PromptStep) -> bool {
    step is Measure || step is Read
}

/// A confined job reaches a file only past the check that its canonical path lies
/// inside the pack: from the inspection of its path no file is reached, and from
/// the canonical path only one that lies inside.
pub proof fn confined_jobs_stay_inside(step: PromptStep, event: PromptEvent, r: PromptStep)
    requires
        is_next_step(step, event, r),
        !touches_file(step),
        touches_file(r),
        step matches PromptStep::InspectPath(job, _) ==> job.confined,
    ensures
        step is Canonicalize,
        event matches PromptEvent::Canonical { path, root, inside } && inside,
{
}

/// No file over the limit is read, and none is read before it has been measured.
pub proof fn only_measured_files_are_read(step: PromptStep, event: PromptEvent, r: PromptStep)
    requires
        is_next_step(step, event, r),
        r is Read,
        !(step is Read),
    ensures
        step is Measure,
        event matches PromptEvent::Size(len) && len <= SYSTEM_PROMPT_FILE_MAX_BYTES,
{
}

/// A step that is over stays over.
pub proof fn finished_steps_stay(step: PromptStep, event: PromptEvent, r: PromptStep)
    requires
        is_next_step(step, event, r),
        step is Skip || step is Finished || step is Failed,
    ensures
        r == step,
{
}

/// The way of a prompt file: a path is looked at; in a pack it has to be relative,
/// without `..`, and to lie inside the pack in its canonical form; a file of at
/// most a mebibyte is read, and what it holds, as text, is the prompt.
pub proof fn prompt_files_go_all_the_way(step: PromptStep, event: PromptEvent, r: PromptStep)
    requires
        is_next_step(step, event, r),
    ensures
        step matches PromptStep::InspectPath(job, _) ==> (
        event matches PromptEvent::Inspected { absolute, parent_segment, resolved } ==> (
        !job.confined ==> r == PromptStep::Measure(job, resolved)) && (job.confined && !absolute
            && !parent_segment ==> r == PromptStep::Canonicalize(job, resolved))),
        step matches PromptStep::Canonicalize(job, resolved) ==> (
        event matches PromptEvent::Canonical { path, root, inside } ==> (inside ==> r
            == PromptStep::Measure(job, resolved))),
        step matches PromptStep::Measure(job, resolved) ==> (event matches PromptEvent::Size(len)
            ==> (len <= 1048576 ==> r == PromptStep::Read(job, resolved))),
        step matches PromptStep::Read(job, resolved) ==> (event matches PromptEvent::Contents(bytes)
            ==> (valid_utf8(bytes@) ==> (r matches PromptStep::Finished(text) && encode_utf8(text@)
            == bytes@))),
{
}

/// What stops a prompt file: in a pack, an absolute path, a `..`, and a canonical
/// path outside; and anywhere a file over a mebibyte, one that is no UTF-8, and
/// anything that could not be done.
pub proof fn prompt_files_are_refused(step: PromptStep, event: PromptEvent, r: PromptStep)
    requires
        is_next_step(step, event, r),
    ensures
        step matches PromptStep::InspectPath(job, _) ==> (
        event matches PromptEvent::Inspected { absolute, parent_segment, resolved } ==> (
        job.confined && (absolute || parent_segment) ==> r is Failed)),
        step is Canonicalize ==> (event matches PromptEvent::Canonical { path, root, inside } ==> (
        !inside ==> r is Failed)),
        step is Measure ==> (event matches PromptEvent::Size(len) ==> (len > 1048576 ==> r is Failed)),
        step is Read ==> (event matches PromptEvent::Contents(bytes) ==> (!valid_utf8(bytes@)
            ==> r is Failed)),
        (step is Canonicalize || step is Measure || step is Read) && event is Denied ==> r is Failed,
{
}

/// An agent has a prompt file to be read exactly if it names one that is not
/// blank and has no prompt of its own that is not blank. A blank name, and both at
/// once, are refused; without a name there is nothing to do.
pub proof fn prompt_files_are_asked_for(
    agent_id: Seq<char>,
    profile: AgentProfileOverlay,
    source: Seq<char>,
    source_path: Option<Seq<char>>,
    confined: bool,
    r: PromptStep,
)
    requires
        is_first_step(agent_id, profile, source, source_path, confined, r),
    ensures
        profile.system_prompt_file is None <==> r is Skip,
        profile.system_prompt_file matches Some(raw) ==> (trim(raw@).len() == 0 ==> r is Failed),
        profile.system_prompt_file matches Some(raw) ==> (profile.system_prompt matches Some(inline)
            ==> (trim(inline@).len() > 0 ==> r is Failed)),
        profile.system_prompt_file matches Some(raw) ==> (trim(raw@).len() > 0 && (
        profile.system_prompt is None || trim((profile.system_prompt->0)@).len() == 0) ==> (
        r matches PromptStep::InspectPath(job, path) && path@ == trim(raw@) && job.agent_id@
            == agent_id && job.confined == confined)),
{
}

/// A line that is found declares the field: it starts with the field's name and a
/// colon, below an `agents:` block and below the agent's own key, and deeper than
/// that key.
pub proof fn found_fields_are_the_agents(
    source: Seq<char>,
    agent_id: Seq<char>,
    field: Seq<char>,
)
    ensures
        field_line(source, agent_id, field) matches Some(k) ==> 0 <= k < lines(source).len()
            && starts_with(trim_start(lines(source)[k]), field + ":"@) && (exists|a: int|
            0 <= a < k && starts_with(trim_start(#[trigger] lines(source)[a]), "agents:"@)) && (
        exists|b: int|
            0 <= b < k && before(trim_start(#[trigger] lines(source)[b]), ':') == agent_id
                && lint_indent(lines(source)[b]) < lint_indent(lines(source)[k])),
{
    lemma_found_field(
        lines(source),
        agent_id,
        field,
        0,
        AgentScan { in_agents: false, agent: None },
    );
}

/// Whether a scan has passed what it says it has.
spec fn scan_is_true(all: Seq<Seq<char>>, agent_id: Seq<char>, i: int, scan: AgentScan) -> bool {
    &&& scan.in_agents ==> exists|a: int|
        0 <= a < i && starts_with(trim_start(#[trigger] all[a]), "agents:"@)
    &&& scan.agent matches Some(n) ==> scan.in_agents && exists|b: int|
        0 <= b < i && before(trim_start(#[trigger] all[b]), ':') == agent_id && lint_indent(all[b])
            == n
}

proof fn lemma_found_field(
    all: Seq<Seq<char>>,
    agent_id: Seq<char>,
    field: Seq<char>,
    i: int,
    scan: AgentScan,
)
    requires
        0 <= i,
        scan_is_true(all, agent_id, i, scan),
    ensures
        agent_field_line(all, agent_id, field, i, scan) matches Some(k) ==> i <= k < all.len()
            && starts_with(trim_start(all[k]), field + ":"@) && (exists|a: int|
            0 <= a < k && starts_with(trim_start(#[trigger] all[a]), "agents:"@)) && (exists|b: int|
            0 <= b < k && before(trim_start(#[trigger] all[b]), ':') == agent_id && lint_indent(
                all[b],
            ) < lint_indent(all[k])),
    decreases all.len() - i,
{
    if i < all.len() {
        let (next, found) = scan_agent_line(all[i], agent_id, field, scan);
        if !found {
            assert(scan_is_true(all, agent_id, i + 1, next)) by {
                if next.in_agents && !scan.in_agents {
                    assert(starts_with(trim_start(all[i]), "agents:"@));
                }
                if next.agent is Some && next.agent != scan.agent {
                    assert(before(trim_start(all[i]), ':') == agent_id);
                }
            }
            lemma_found_field(all, agent_id, field, i + 1, next);
        }
    }
}

/// Below an agent's key, the first deeper line that starts with the field's name
/// and a colon is found; blank lines and comments are passed over.
pub proof fn fields_below_the_key_are_found(
    all: Seq<Seq<char>>,
    agent_id: Seq<char>,
    field: Seq<char>,
    i: int,
    indent: nat,
)
    requires
        0 <= i < all.len(),
    ensures
        trim_start(all[i]).len() > 0 && trim_start(all[i])[0] != '#' && lint_indent(all[i]) > indent
            && starts_with(trim_start(all[i]), field + ":"@) ==> agent_field_line(
            all,
            agent_id,
            field,
            i,
            (AgentScan { in_agents: true, agent: Some(indent) }),
        ) == Some(i),
        trim_start(all[i]).len() == 0 || trim_start(all[i])[0] == '#' || (lint_indent(all[i])
            > indent && !starts_with(trim_start(all[i]), field + ":"@)) ==> agent_field_line(
            all,
            agent_id,
            field,
            i,
            (AgentScan { in_agents: true, agent: Some(indent) }),
        ) == agent_field_line(
            all,
            agent_id,
            field,
            i + 1,
            (AgentScan { in_agents: true, agent: Some(indent) }),
        ),
{
}

/// The scan goes into the `agents:` block where it starts at the margin, out of it
/// with the next line at the margin, and below the agent's key where the key
/// stands; a line that is indented no deeper than that key leaves the agent.
pub proof fn the_agent_is_found_by_its_key(
    line: Seq<char>,
    agent_id: Seq<char>,
    field: Seq<char>,
    scan: AgentScan,
    indent: nat,
)
    requires
        trim_start(line).len() > 0,
        trim_start(line)[0] != '#',
    ensures
        !scan.in_agents ==> scan_agent_line(line, agent_id, field, scan).0.in_agents == (
        lint_indent(line) == 0 && starts_with(trim_start(line), "agents:"@)),
        scan.in_agents && lint_indent(line) == 0 && !starts_with(trim_start(line), "agents:"@)
            ==> !scan_agent_line(line, agent_id, field, scan).0.in_agents,
        scan.in_agents && lint_indent(line) > 0 && scan.agent is None && before(
            trim_start(line),
            ':',
        ) == agent_id ==> scan_agent_line(line, agent_id, field, scan) == (
            AgentScan { in_agents: true, agent: Some(lint_indent(line)) },
            false,
        ),
        scan.in_agents && lint_indent(line) > 0 && scan.agent is None && before(
            trim_start(line),
            ':',
        ) != agent_id ==> scan_agent_line(line, agent_id, field, scan) == (
            AgentScan { in_agents: true, agent: None },
            false,
        ),
        scan.in_agents && scan.agent == Some(indent) && 0 < lint_indent(line) <= indent && before(
            trim_start(line),
            ':',
        ) != agent_id ==> scan_agent_line(line, agent_id, field, scan) == (
            AgentScan { in_agents: true, agent: None },
            false,
        ),
{
}

/// Whether a prompt took the place of the file that it was read from.
pub open spec fn prompt_applied(
    before: AgentProfileOverlay,
    after: AgentProfileOverlay,
    contents: Seq<char>,
) -> bool {
    &&& after.system_prompt is Some
    &&& (after.system_prompt->0)@ == contents
    &&& after == (AgentProfileOverlay {
        system_prompt: after.system_prompt,
        system_prompt_file: None,
        ..before
    })
}

/// Once its file is read, an agent has the file's text as its prompt and asks for
/// no file any more; the rest of it stays.
pub proof fn a_prompt_is_read_once(
    agent_id: Seq<char>,
    before: AgentProfileOverlay,
    after: AgentProfileOverlay,
    contents: Seq<char>,
    source: Seq<char>,
    source_path: Option<Seq<char>>,
    confined: bool,
    r: PromptStep,
)
    requires
        prompt_applied(before, after, contents),
        is_first_step(agent_id, after, source, source_path, confined, r),
    ensures
        after.system_prompt matches Some(text) && text@ == contents,
        r is Skip,
        after.model == before.model,
        after.tool == before.tool,
        after.name == before.name,
        after.description == before.description,
        after.skills == before.skills,
        after.tool_policy == before.tool_policy,
{
}

} // verus!
