//! Who owns an execution: generation-fenced identities.
//!
//! A workflow id alone does not tell two processes apart that both believe
//! they own the workflow. An [`ExecutionFence`] binds the id to generations of
//! the workflow, its subject and its queue lease, and to the branch that the
//! execution may write.

use vstd::prelude::*;
use vstd::slice::slice_subrange;

use crate::text::{
    chars_of, contains, decimal, ends_with, has_prefix, has_suffix, has_text, index_of, is_white_space,
    lower, lower_char, lower_chars, push_decimal, same_ignoring_case, same_text, starts_with,
    string_of, text_before, trim, trim_end, trim_start, trimmed,
};
use crate::time::Timestamp;

verus! {

/// Version of this protocol.
pub const PROTOCOL_VERSION: &'static str = "0.1.0";

/// Schema id of a fence.
pub const EXECUTION_FENCE_SCHEMA_ID: &'static str = "animus.execution-fence.v1";

/// Version of the fence's schema.
pub const EXECUTION_FENCE_VERSION: u32 = 1;

// ---------------------------------------------------------------------
// Checks on single values
// ---------------------------------------------------------------------

/// Whether a check came out as it should: `Ok` where there is no problem, and
/// otherwise the problem's text.
pub open spec fn reports(r: Result<(), String>, problem: Option<Seq<char>>) -> bool {
    match r {
        Ok(_) => problem is None,
        Err(text) => problem == Some(text@),
    }
}

/// The first of two problems, where there is one.
pub open spec fn first_problem(
    a: Option<Seq<char>>,
    b: Option<Seq<char>>,
) -> Option<Seq<char>> {
    if a is Some {
        a
    } else {
        b
    }
}

/// What is wrong with a text that must hold more than white space.
pub open spec fn empty_problem(field: Seq<char>, value: Seq<char>) -> Option<Seq<char>> {
    if trim(value).len() == 0 {
        Some(field + " must not be empty"@)
    } else {
        None
    }
}

/// What is wrong with a number that must not be zero.
pub open spec fn zero_problem(field: Seq<char>, value: u64) -> Option<Seq<char>> {
    if value == 0 {
        Some(field + " must be greater than zero"@)
    } else {
        None
    }
}

/// Whether a text is a git ref from `refs/` on, without a range in it and
/// without a slash at its end.
pub open spec fn is_full_ref(value: Seq<char>) -> bool {
    starts_with(value, "refs/"@) && !contains(value, ".."@) && !ends_with(value, "/"@)
}

/// What is wrong with a git ref.
pub open spec fn ref_problem(field: Seq<char>, value: Seq<char>) -> Option<Seq<char>> {
    first_problem(
        empty_problem(field, value),
        if is_full_ref(value) {
            None
        } else {
            Some(field + " must be a safe fully-qualified git ref"@)
        },
    )
}

fn validate_nonempty(field: &str, value: &[char]) -> (r: Result<(), String>)
    ensures
        reports(r, empty_problem(field@, value@)),
{
    if trimmed(value).len() == 0 {
        let mut out = field.to_owned();
        out.append(" must not be empty");
        Err(out)
    } else {
        Ok(())
    }
}

fn validate_positive(field: &str, value: u64) -> (r: Result<(), String>)
    ensures
        reports(r, zero_problem(field@, value)),
{
    if value == 0 {
        let mut out = field.to_owned();
        out.append(" must be greater than zero");
        Err(out)
    } else {
        Ok(())
    }
}

fn validate_git_ref(field: &str, value: &str) -> (r: Result<(), String>)
    ensures
        reports(r, ref_problem(field@, value@)),
{
    let chars = chars_of(value);
    validate_nonempty(field, chars.as_slice())?;
    let full = has_prefix(chars.as_slice(), chars_of("refs/").as_slice()) && !has_text(
        chars.as_slice(),
        chars_of("..").as_slice(),
    ) && !has_suffix(chars.as_slice(), chars_of("/").as_slice());
    if !full {
        let mut out = field.to_owned();
        out.append(" must be a safe fully-qualified git ref");
        return Err(out);
    }
    Ok(())
}

// ---------------------------------------------------------------------
// Subject, branch and lease
// ---------------------------------------------------------------------

/// A subject, in the generation that is executed.
#[derive(Debug, Clone, PartialEq, Eq, Hash)]
pub struct SubjectGeneration {
    /// Id of the form `<kind>:<native-id>`.
    pub qualified_id: String,
    /// Generation, from one on.
    pub generation: u64,
}

/// The kind in a qualified id: what stands before its first colon.
pub open spec fn subject_kind(id: Seq<char>) -> Seq<char> {
    id.take(index_of(id, ':'))
}

/// The native id in a qualified id: what stands behind its first colon.
pub open spec fn native_id(id: Seq<char>) -> Seq<char> {
    id.skip(index_of(id, ':') + 1)
}

/// What is wrong with a qualified id.
pub open spec fn qualified_id_problem(id: Seq<char>) -> Option<Seq<char>> {
    first_problem(
        empty_problem("subject qualified_id"@, id),
        if !id.contains(':') {
            Some("subject qualified_id must use <kind>:<native-id> form"@)
        } else {
            first_problem(
                empty_problem("subject kind"@, subject_kind(id)),
                empty_problem("subject native id"@, native_id(id)),
            )
        },
    )
}

/// What is wrong with a subject.
pub open spec fn subject_problem(subject: SubjectGeneration) -> Option<Seq<char>> {
    first_problem(
        qualified_id_problem(subject.qualified_id@),
        zero_problem("subject generation"@, subject.generation),
    )
}

proof fn lemma_index_of_colon(s: Seq<char>)
    ensures
        0 <= index_of(s, ':') <= s.len(),
        s.contains(':') <==> index_of(s, ':') < s.len(),
    decreases s.len(),
{
    if s.len() > 0 && s[0] != ':' {
        let rest = s.drop_first();
        lemma_index_of_colon(rest);
        if rest.contains(':') {
            let i = choose|i: int| 0 <= i < rest.len() && rest[i] == ':';
            assert(s[i + 1] == ':');
        }
        if s.contains(':') {
            let i = choose|i: int| 0 <= i < s.len() && s[i] == ':';
            assert(rest[i - 1] == ':');
        }
    }
}

fn validate_qualified_id(id: &str) -> (r: Result<(), String>)
    ensures
        reports(r, qualified_id_problem(id@)),
{
    let chars = chars_of(id);
    validate_nonempty("subject qualified_id", chars.as_slice())?;
    let kind = text_before(chars.as_slice(), ':');
    proof {
        lemma_index_of_colon(id@);
    }
    if kind.len() == chars.len() {
        return Err("subject qualified_id must use <kind>:<native-id> form".to_owned());
    }
    let native = slice_subrange(chars.as_slice(), kind.len() + 1, chars.len());
    proof {
        assert(native@ =~= native_id(id@));
    }
    validate_nonempty("subject kind", kind)?;
    validate_nonempty("subject native id", native)
}

impl SubjectGeneration {
    /// Checks the id and the generation.
    pub fn validate(&self) -> (r: Result<(), String>)
        ensures
            reports(r, subject_problem(*self)),
    {
        validate_qualified_id(self.qualified_id.as_str())?;
        validate_positive("subject generation", self.generation)
    }
}

/// The branch that an execution owns.
#[derive(Debug, Clone, PartialEq, Eq, Hash)]
pub struct RepositoryReservation {
    /// Repository, as a remote URL or as `owner/name`.
    pub repository: String,
    /// Full name of the ref that the work starts from.
    pub base_ref: String,
    /// Full name of the ref that the execution writes.
    pub head_ref: String,
}

/// What is wrong with a reservation.
pub open spec fn reservation_problem(reservation: RepositoryReservation) -> Option<Seq<char>> {
    first_problem(
        empty_problem("repository"@, reservation.repository@),
        first_problem(
            ref_problem("base_ref"@, reservation.base_ref@),
            first_problem(
                ref_problem("head_ref"@, reservation.head_ref@),
                if reservation.base_ref@ == reservation.head_ref@ {
                    Some("repository reservation base_ref and head_ref must differ"@)
                } else {
                    None
                },
            ),
        ),
    )
}

/// The key under which reservations of one branch collide: the repository
/// without surrounding white space and up to ASCII case, and the head ref.
pub open spec fn reservation_key(reservation: RepositoryReservation) -> Seq<char> {
    lower(trim(reservation.repository@)) + "\n"@ + reservation.head_ref@
}

impl RepositoryReservation {
    /// Checks that the reservation names full refs, and two different ones.
    pub fn validate(&self) -> (r: Result<(), String>)
        ensures
            reports(r, reservation_problem(*self)),
    {
        validate_nonempty("repository", chars_of(self.repository.as_str()).as_slice())?;
        validate_git_ref("base_ref", self.base_ref.as_str())?;
        validate_git_ref("head_ref", self.head_ref.as_str())?;
        if same_text(self.base_ref.as_str(), self.head_ref.as_str()) {
            return Err("repository reservation base_ref and head_ref must differ".to_owned());
        }
        Ok(())
    }

    /// The key under which reservations of one branch collide.
    pub fn collision_key(&self) -> (r: String)
        ensures
            r@ == reservation_key(*self),
    {
        let chars = chars_of(self.repository.as_str());
        let lowered = lower_chars(trimmed(chars.as_slice()));
        let mut out = string_of(lowered.as_slice());
        out.append("\n");
        out.append(self.head_ref.as_str());
        out
    }
}

/// The queue lease that owns a workflow.
#[derive(Debug, Clone, PartialEq, Eq)]
pub struct QueueLeaseFence {
    /// Id of the queue entry.
    pub entry_id: String,
    /// Instance that may renew or end the lease.
    pub owner_id: String,
    /// Generation of the lease, from one on. It grows when the lease changes
    /// its owner.
    pub generation: u64,
    /// When the lease expires, by the backend's clock.
    pub expires_at: Timestamp,
}

/// What is wrong with a lease.
pub open spec fn lease_problem(lease: QueueLeaseFence) -> Option<Seq<char>> {
    first_problem(
        empty_problem("queue lease entry_id"@, lease.entry_id@),
        first_problem(
            empty_problem("queue lease owner_id"@, lease.owner_id@),
            zero_problem("queue lease generation"@, lease.generation),
        ),
    )
}

impl QueueLeaseFence {
    /// Checks the ids and the generation.
    pub fn validate(&self) -> (r: Result<(), String>)
        ensures
            reports(r, lease_problem(*self)),
    {
        validate_nonempty("queue lease entry_id", chars_of(self.entry_id.as_str()).as_slice())?;
        validate_nonempty("queue lease owner_id", chars_of(self.owner_id.as_str()).as_slice())?;
        validate_positive("queue lease generation", self.generation)
    }
}

// ---------------------------------------------------------------------
// The fence
// ---------------------------------------------------------------------

/// Everything that one execution of a workflow owns.
#[derive(Debug, Clone, PartialEq, Eq)]
pub struct ExecutionFence {
    /// Must be [`EXECUTION_FENCE_SCHEMA_ID`].
    pub schema: String,
    /// Must be [`EXECUTION_FENCE_VERSION`].
    pub version: u32,
    /// Workflow. A recovery keeps the id.
    pub workflow_id: String,
    /// Generation of the workflow, from one on.
    pub workflow_generation: u64,
    /// Subject, where the workflow has one.
    pub subject: Option<SubjectGeneration>,
    /// Queue lease, where the execution comes from a queue.
    pub queue_lease: Option<QueueLeaseFence>,
    /// Branch, where the workflow writes code.
    pub repository: Option<RepositoryReservation>,
}

/// What is wrong with a fence's schema.
pub open spec fn schema_problem(schema: Seq<char>) -> Option<Seq<char>> {
    if schema != EXECUTION_FENCE_SCHEMA_ID@ {
        Some(
            "unsupported execution fence schema '"@ + schema + "'; expected '"@
                + EXECUTION_FENCE_SCHEMA_ID@ + "'"@,
        )
    } else {
        None
    }
}

/// What is wrong with a fence's version.
pub open spec fn version_problem(version: u32) -> Option<Seq<char>> {
    if version != EXECUTION_FENCE_VERSION {
        Some(
            "unsupported execution fence version "@ + decimal(version as nat) + "; expected "@
                + decimal(EXECUTION_FENCE_VERSION as nat),
        )
    } else {
        None
    }
}

/// What is wrong with a fence.
pub open spec fn fence_problem(fence: ExecutionFence) -> Option<Seq<char>> {
    first_problem(
        schema_problem(fence.schema@),
        first_problem(
            version_problem(fence.version),
            first_problem(
                empty_problem("workflow_id"@, fence.workflow_id@),
                first_problem(
                    zero_problem("workflow_generation"@, fence.workflow_generation),
                    first_problem(
                        match fence.subject {
                            Some(subject) => subject_problem(subject),
                            None => None,
                        },
                        first_problem(
                            match fence.queue_lease {
                                Some(lease) => lease_problem(lease),
                                None => None,
                            },
                            match fence.repository {
                                Some(reservation) => reservation_problem(reservation),
                                None => None,
                            },
                        ),
                    ),
                ),
            ),
        ),
    )
}

/// What keeps a fence from being one of a queue's.
pub open spec fn queue_backed_problem(fence: ExecutionFence) -> Option<Seq<char>> {
    first_problem(
        fence_problem(fence),
        if fence.queue_lease is None {
            Some("queue-backed execution fence requires queue_lease"@)
        } else {
            None
        },
    )
}

/// What keeps a fence from being one of work on code.
pub open spec fn coding_problem(fence: ExecutionFence) -> Option<Seq<char>> {
    first_problem(
        queue_backed_problem(fence),
        if fence.subject is None {
            Some("coding execution fence requires a subject generation"@)
        } else if fence.repository is None {
            Some("coding execution fence requires a repository reservation"@)
        } else {
            None
        },
    )
}

/// Whether two subjects are the same, in the same generation.
pub open spec fn same_subject(
    a: Option<SubjectGeneration>,
    b: Option<SubjectGeneration>,
) -> bool {
    match (a, b) {
        (Some(x), Some(y)) => x.qualified_id@ == y.qualified_id@ && x.generation == y.generation,
        (None, None) => true,
        _ => false,
    }
}

/// Whether two fences name the same execution, whoever holds its lease.
pub open spec fn same_generation(a: ExecutionFence, b: ExecutionFence) -> bool {
    &&& a.workflow_id@ == b.workflow_id@
    &&& a.workflow_generation == b.workflow_generation
    &&& same_subject(a.subject, b.subject)
}

fn validate_schema(schema: &str, version: u32) -> (r: Result<(), String>)
    ensures
        reports(r, first_problem(schema_problem(schema@), version_problem(version))),
{
    if !same_text(schema, EXECUTION_FENCE_SCHEMA_ID) {
        let mut out = "unsupported execution fence schema '".to_owned();
        out.append(schema);
        out.append("'; expected '");
        out.append(EXECUTION_FENCE_SCHEMA_ID);
        out.append("'");
        return Err(out);
    }
    if version != EXECUTION_FENCE_VERSION {
        let mut out = "unsupported execution fence version ".to_owned();
        push_decimal(&mut out, version as u128);
        out.append("; expected ");
        push_decimal(&mut out, EXECUTION_FENCE_VERSION as u128);
        return Err(out);
    }
    Ok(())
}

fn subjects_agree(a: &Option<SubjectGeneration>, b: &Option<SubjectGeneration>) -> (r: bool)
    ensures
        r == same_subject(*a, *b),
{
    match (a, b) {
        (Some(x), Some(y)) => same_text(x.qualified_id.as_str(), y.qualified_id.as_str())
            && x.generation == y.generation,
        (None, None) => true,
        _ => false,
    }
}

impl ExecutionFence {
    /// The fence of an execution that no queue holds and that owns no branch.
    pub fn direct(
        workflow_id: String,
        workflow_generation: u64,
        subject: Option<SubjectGeneration>,
    ) -> (r: Self)
        ensures
            r.schema@ == EXECUTION_FENCE_SCHEMA_ID@,
            r.version == EXECUTION_FENCE_VERSION,
            r.workflow_id == workflow_id,
            r.workflow_generation == workflow_generation,
            r.subject == subject,
            r.queue_lease is None,
            r.repository is None,
            fence_problem(r) is None <==> trim(workflow_id@).len() > 0 && workflow_generation > 0 && (
            subject is Some ==> subject_problem(subject->0) is None),
    {
        ExecutionFence {
            schema: EXECUTION_FENCE_SCHEMA_ID.to_owned(),
            version: EXECUTION_FENCE_VERSION,
            workflow_id,
            workflow_generation,
            subject,
            queue_lease: None,
            repository: None,
        }
    }

    /// Checks schema, version and every identity in the fence.
    pub fn validate(&self) -> (r: Result<(), String>)
        ensures
            reports(r, fence_problem(*self)),
    {
        validate_schema(self.schema.as_str(), self.version)?;
        validate_nonempty("workflow_id", chars_of(self.workflow_id.as_str()).as_slice())?;
        validate_positive("workflow_generation", self.workflow_generation)?;
        if let Some(subject) = &self.subject {
            subject.validate()?;
        }
        if let Some(lease) = &self.queue_lease {
            lease.validate()?;
        }
        if let Some(reservation) = &self.repository {
            reservation.validate()?;
        }
        Ok(())
    }

    /// Checks a fence that a queue must hold.
    pub fn validate_queue_backed(&self) -> (r: Result<(), String>)
        ensures
            reports(r, queue_backed_problem(*self)),
    {
        self.validate()?;
        if self.queue_lease.is_none() {
            return Err("queue-backed execution fence requires queue_lease".to_owned());
        }
        Ok(())
    }

    /// Checks a fence of work on code, before a workspace is prepared for it.
    pub fn validate_coding(&self) -> (r: Result<(), String>)
        ensures
            reports(r, coding_problem(*self)),
    {
        self.validate_queue_backed()?;
        if self.subject.is_none() {
            return Err("coding execution fence requires a subject generation".to_owned());
        }
        if self.repository.is_none() {
            return Err("coding execution fence requires a repository reservation".to_owned());
        }
        Ok(())
    }

    /// Whether both fences name the same execution. Lease and branch do not
    /// count: a recovery may change them.
    pub fn same_execution_generation(&self, other: &Self) -> (r: bool)
        ensures
            r == same_generation(*self, *other),
    {
        same_text(self.workflow_id.as_str(), other.workflow_id.as_str())
            && self.workflow_generation == other.workflow_generation && subjects_agree(
            &self.subject,
            &other.subject,
        )
    }
}

// ---------------------------------------------------------------------
// Laws
// ---------------------------------------------------------------------

/// A fence that passes as one of work on code passes as a queue's, and a
/// queue's passes as a fence.
pub proof fn stricter_checks_imply_weaker_ones(fence: ExecutionFence)
    ensures
        coding_problem(fence) is None ==> queue_backed_problem(fence) is None,
        queue_backed_problem(fence) is None ==> fence_problem(fence) is None,
{
}

/// A fence of work on code owns a subject, a lease and two different full refs.
pub proof fn coding_fences_are_complete(fence: ExecutionFence)
    requires
        coding_problem(fence) is None,
    ensures
        fence.subject is Some,
        fence.queue_lease is Some,
        fence.repository is Some,
        is_full_ref(fence.repository->0.base_ref@),
        is_full_ref(fence.repository->0.head_ref@),
        fence.repository->0.base_ref@ != fence.repository->0.head_ref@,
{
}

/// No generation in a valid fence is zero.
pub proof fn valid_generations_are_positive(fence: ExecutionFence)
    requires
        fence_problem(fence) is None,
    ensures
        fence.workflow_generation > 0,
        fence.subject is Some ==> fence.subject->0.generation > 0,
        fence.queue_lease is Some ==> fence.queue_lease->0.generation > 0,
{
}

/// A change of the lease, as at a recovery, leaves the execution the same.
pub proof fn lease_transfer_keeps_the_execution(
    fence: ExecutionFence,
    lease: Option<QueueLeaseFence>,
)
    ensures
        same_generation(fence, (ExecutionFence { queue_lease: lease, ..fence })),
{
}

/// A later generation of the workflow or of its subject is another execution.
pub proof fn later_generations_differ(a: ExecutionFence, b: ExecutionFence)
    requires
        a.workflow_generation < b.workflow_generation || (a.subject is Some && b.subject is Some
            && a.subject->0.generation < b.subject->0.generation),
    ensures
        !same_generation(a, b),
{
}

/// To be the same execution is reflexive, symmetric and transitive.
pub proof fn same_generation_is_an_equivalence(
    a: ExecutionFence,
    b: ExecutionFence,
    c: ExecutionFence,
)
    ensures
        same_generation(a, a),
        same_generation(a, b) ==> same_generation(b, a),
        same_generation(a, b) && same_generation(b, c) ==> same_generation(a, c),
{
}

proof fn lemma_lower_char_white_space(c: char)
    ensures
        is_white_space(lower_char(c)) == is_white_space(c),
{
}

proof fn lemma_lower_trim_start(s: Seq<char>)
    ensures
        lower(trim_start(s)) == trim_start(lower(s)),
    decreases s.len(),
{
    if s.len() > 0 {
        lemma_lower_char_white_space(s[0]);
        assert(lower(s)[0] == lower_char(s[0]));
        if is_white_space(s[0]) {
            lemma_lower_trim_start(s.drop_first());
            assert(lower(s.drop_first()) =~= lower(s).drop_first());
        }
    }
}

proof fn lemma_lower_trim_end(s: Seq<char>)
    ensures
        lower(trim_end(s)) == trim_end(lower(s)),
    decreases s.len(),
{
    if s.len() > 0 {
        lemma_lower_char_white_space(s.last());
        assert(lower(s).last() == lower_char(s.last()));
        if is_white_space(s.last()) {
            lemma_lower_trim_end(s.drop_last());
            assert(lower(s.drop_last()) =~= lower(s).drop_last());
        }
    }
}

proof fn lemma_lower_trim(s: Seq<char>)
    ensures
        lower(trim(s)) == trim(lower(s)),
{
    lemma_lower_trim_start(s);
    lemma_lower_trim_end(trim_start(s));
}

/// Reservations of one head ref, in repositories that differ in ASCII case
/// alone, collide.
pub proof fn collision_key_ignores_case(a: RepositoryReservation, b: RepositoryReservation)
    requires
        same_ignoring_case(a.repository@, b.repository@),
        a.head_ref@ == b.head_ref@,
    ensures
        reservation_key(a) == reservation_key(b),
{
    lemma_lower_trim(a.repository@);
    lemma_lower_trim(b.repository@);
}

/// Reservations of one repository collide only where they share the head ref.
pub proof fn other_head_refs_do_not_collide(a: RepositoryReservation, b: RepositoryReservation)
    requires
        lower(trim(a.repository@)) == lower(trim(b.repository@)),
        a.head_ref@ != b.head_ref@,
    ensures
        reservation_key(a) != reservation_key(b),
{
    let start = lower(trim(a.repository@)) + "\n"@;
    if reservation_key(a) == reservation_key(b) {
        assert(a.head_ref@ =~= (start + a.head_ref@).skip(start.len() as int));
        assert(b.head_ref@ =~= (start + b.head_ref@).skip(start.len() as int));
    }
}

/// A qualified id is accepted exactly if something stands on both sides of its
/// first colon; the generation has to be one or more.
pub proof fn subjects_have_kind_and_native_id(subject: SubjectGeneration, i: int)
    ensures
        (forall|k: int|
            0 <= k < subject.qualified_id@.len() ==> #[trigger] subject.qualified_id@[k] != ':')
            ==> subject_problem(subject) is Some,
        0 <= i < subject.qualified_id@.len() && subject.qualified_id@[i] == ':' && (forall|k: int|
            0 <= k < i ==> #[trigger] subject.qualified_id@[k] != ':') ==> (subject_problem(
            subject,
        ) is None <==> trim(subject.qualified_id@.take(i)).len() > 0 && trim(
            subject.qualified_id@.skip(i + 1),
        ).len() > 0 && subject.generation >= 1),
{
    let id = subject.qualified_id@;
    lemma_index_of_colon(id);
    if 0 <= i < id.len() && id[i] == ':' && (forall|k: int| 0 <= k < i ==> #[trigger] id[k] != ':') {
        assert(id.contains(':'));
        lemma_first_colon(id, i);
        if trim(id).len() == 0 && trim(id.take(i)).len() > 0 {
            lemma_blank(id, id.take(i), 0);
        }
    }
}

proof fn lemma_first_colon(s: Seq<char>, i: int)
    requires
        0 <= i < s.len(),
        s[i] == ':',
        forall|k: int| 0 <= k < i ==> #[trigger] s[k] != ':',
    ensures
        index_of(s, ':') == i,
    decreases i,
{
    if i > 0 {
        let rest = s.drop_first();
        assert forall|k: int| 0 <= k < i - 1 implies #[trigger] rest[k] != ':' by {
            assert(rest[k] == s[k + 1]);
        }
        assert(s[0] != ':');
        lemma_first_colon(rest, i - 1);
    }
}

/// A text is blank exactly if all of it is white space.
proof fn lemma_blank_means_white(s: Seq<char>)
    ensures
        trim(s).len() == 0 <==> forall|k: int| 0 <= k < s.len() ==> is_white_space(#[trigger] s[k]),
    decreases s.len(),
{
    if forall|k: int| 0 <= k < s.len() ==> is_white_space(#[trigger] s[k]) {
        let none = Seq::<char>::empty();
        crate::text::trimming_leaves_the_core(s, none, none);
        assert(s + none + none =~= s);
    } else if trim(s).len() == 0 {
        lemma_trim_start_empty(s);
        if trim_start(s).len() > 0 {
            lemma_trim_end_keeps(trim_start(s));
        }
    }
}

proof fn lemma_trim_start_empty(s: Seq<char>)
    ensures
        trim_start(s).len() == 0 ==> forall|k: int|
            0 <= k < s.len() ==> is_white_space(#[trigger] s[k]),
        trim_start(s).len() > 0 ==> !is_white_space(trim_start(s)[0]),
    decreases s.len(),
{
    if s.len() > 0 && is_white_space(s[0]) {
        lemma_trim_start_empty(s.drop_first());
        if trim_start(s).len() == 0 {
            assert forall|k: int| 0 <= k < s.len() implies is_white_space(#[trigger] s[k]) by {
                if k > 0 {
                    assert(s.drop_first()[k - 1] == s[k]);
                }
            }
        }
    }
}

proof fn lemma_trim_end_keeps(s: Seq<char>)
    requires
        s.len() > 0,
        !is_white_space(s[0]),
    ensures
        trim_end(s).len() > 0,
    decreases s.len(),
{
    if is_white_space(s.last()) {
        lemma_trim_end_keeps(s.drop_last());
    }
}

/// A text with a part that is not blank is not blank.
proof fn lemma_blank(s: Seq<char>, part: Seq<char>, at: int)
    requires
        0 <= at,
        at + part.len() <= s.len(),
        s.subrange(at, at + part.len()) == part,
        trim(s).len() == 0,
    ensures
        trim(part).len() == 0,
{
    lemma_blank_means_white(s);
    lemma_blank_means_white(part);
    assert forall|k: int| 0 <= k < part.len() implies is_white_space(#[trigger] part[k]) by {
        assert(s.subrange(at, at + part.len())[k] == s[at + k]);
    }
}

/// A ref is full exactly if it starts with `refs/`, has no two dots in a row, and
/// does not end in a slash.
pub proof fn refs_are_full(value: Seq<char>)
    ensures
        is_full_ref(value) <==> value.len() >= 5 && value[0] == 'r' && value[1] == 'e' && value[2]
            == 'f' && value[3] == 's' && value[4] == '/' && value.last() != '/' && forall|k: int|
            0 <= k < value.len() - 1 ==> !(#[trigger] value[k] == '.' && value[k + 1] == '.'),
{
    reveal_strlit("refs/");
    reveal_strlit("..");
    reveal_strlit("/");
    let start = "refs/"@;
    if value.len() >= 5 {
        assert(value.take(5) =~= start <==> value[0] == 'r' && value[1] == 'e' && value[2] == 'f'
            && value[3] == 's' && value[4] == '/') by {
            if value.take(5) == start {
                assert(value.take(5)[0] == value[0] && value.take(5)[1] == value[1] && value.take(
                    5,
                )[2] == value[2] && value.take(5)[3] == value[3] && value.take(5)[4] == value[4]);
            }
        }
        assert(value.skip(value.len() - 1) =~= "/"@ <==> value.last() == '/') by {
            if value.skip(value.len() - 1) == "/"@ {
                assert(value.skip(value.len() - 1)[0] == value.last());
            }
        }
    }
    assert forall|k: int| 0 <= k < value.len() - 1 implies ((#[trigger] value[k] == '.' && value[k
        + 1] == '.') <==> crate::text::occurs_at(value, ".."@, k)) by {
        let part = value.subrange(k, k + 2);
        assert(part[0] == value[k] && part[1] == value[k + 1]);
        if value[k] == '.' && value[k + 1] == '.' {
            assert(part =~= ".."@);
        }
    }
    if contains(value, ".."@) {
        let k = choose|k: int| crate::text::occurs_at(value, ".."@, k);
        let part = value.subrange(k, k + 2);
        assert(part == ".."@);
        assert(part[0] == value[k] && part[1] == value[k + 1]);
        assert(value[k] == '.' && value[k + 1] == '.');
    }
}

/// A reservation is accepted exactly if it names a repository and two different
/// full refs.
pub proof fn reservations_name_two_full_refs(reservation: RepositoryReservation)
    ensures
        reservation_problem(reservation) is None <==> trim(reservation.repository@).len() > 0
            && is_full_ref(reservation.base_ref@) && is_full_ref(reservation.head_ref@)
            && reservation.base_ref@ != reservation.head_ref@,
{
    lemma_full_ref_is_not_blank(reservation.base_ref@);
    lemma_full_ref_is_not_blank(reservation.head_ref@);
}

proof fn lemma_full_ref_is_not_blank(value: Seq<char>)
    ensures
        is_full_ref(value) ==> trim(value).len() > 0,
{
    refs_are_full(value);
    if is_full_ref(value) {
        lemma_blank_means_white(value);
        assert(!is_white_space(value[0]));
    }
}

/// A fence is accepted exactly if it has this schema and version, a workflow, a
/// generation of one or more, and a subject, a lease and a reservation that are
/// accepted or missing.
pub proof fn fences_are_accepted_part_by_part(fence: ExecutionFence)
    ensures
        fence_problem(fence) is None <==> fence.schema@ == "animus.execution-fence.v1"@
            && fence.version == 1 && trim(fence.workflow_id@).len() > 0 && fence.workflow_generation
            >= 1 && (fence.subject is Some ==> subject_problem(fence.subject->0) is None) && (
        fence.queue_lease is Some ==> trim(fence.queue_lease->0.entry_id@).len() > 0 && trim(
            fence.queue_lease->0.owner_id@,
        ).len() > 0 && fence.queue_lease->0.generation >= 1) && (fence.repository is Some
            ==> reservation_problem(fence.repository->0) is None),
        queue_backed_problem(fence) is None <==> fence_problem(fence) is None && fence.queue_lease
            is Some,
        coding_problem(fence) is None <==> fence_problem(fence) is None && fence.queue_lease is Some
            && fence.subject is Some && fence.repository is Some,
{
}

/// What is refused is told: the first of what is wrong, by the name of the field.
pub proof fn refused_fences_tell_the_field(fence: ExecutionFence)
    requires
        fence.schema@ == "animus.execution-fence.v1"@,
        fence.version == 1,
    ensures
        trim(fence.workflow_id@).len() == 0 ==> fence_problem(fence) == Some(
            "workflow_id"@ + " must not be empty"@,
        ),
        trim(fence.workflow_id@).len() > 0 && fence.workflow_generation == 0 ==> fence_problem(
            fence,
        ) == Some("workflow_generation"@ + " must be greater than zero"@),
        fence_problem(fence) is None && fence.queue_lease is None ==> queue_backed_problem(fence)
            == Some("queue-backed execution fence requires queue_lease"@),
        queue_backed_problem(fence) is None && fence.subject is None ==> coding_problem(fence)
            == Some("coding execution fence requires a subject generation"@),
        queue_backed_problem(fence) is None && fence.subject is Some && fence.repository is None
            ==> coding_problem(fence) == Some(
            "coding execution fence requires a repository reservation"@,
        ),
{
}

/// Two fences name the same execution exactly if workflow, generation and subject
/// are the same; of the subject, id and generation, or that there is none.
pub proof fn executions_go_by_their_generations(a: ExecutionFence, b: ExecutionFence)
    ensures
        same_generation(a, b) <==> a.workflow_id@ == b.workflow_id@ && a.workflow_generation
            == b.workflow_generation && (a.subject is Some <==> b.subject is Some) && (
        a.subject is Some && b.subject is Some ==> a.subject->0.qualified_id@
            == b.subject->0.qualified_id@ && a.subject->0.generation == b.subject->0.generation),
{
}

/// Reservations collide exactly if they are of one branch: the repositories are
/// the same up to white space around them and ASCII case, and so are the head
/// refs, letter by letter. Names of repositories hold no newline.
pub proof fn reservations_collide_on_one_branch(a: RepositoryReservation, b: RepositoryReservation)
    requires
        forall|k: int|
            0 <= k < trim(a.repository@).len() ==> #[trigger] trim(a.repository@)[k] != '\n',
        forall|k: int|
            0 <= k < trim(b.repository@).len() ==> #[trigger] trim(b.repository@)[k] != '\n',
    ensures
        reservation_key(a) == reservation_key(b) <==> same_ignoring_case(
            trim(a.repository@),
            trim(b.repository@),
        ) && a.head_ref@ == b.head_ref@,
{
    reveal_strlit("\n");
    let x = lower(trim(a.repository@));
    let y = lower(trim(b.repository@));
    let s = reservation_key(a);
    let t = reservation_key(b);
    if s == t {
        assert(s[x.len() as int] == '\n');
        assert(t[y.len() as int] == '\n');
        if x.len() < y.len() {
            assert(t[x.len() as int] == y[x.len() as int]);
            crate::text::case_is_folded_letter_by_letter(trim(b.repository@)[x.len() as int]);
        } else if y.len() < x.len() {
            assert(s[y.len() as int] == x[y.len() as int]);
            crate::text::case_is_folded_letter_by_letter(trim(a.repository@)[y.len() as int]);
        }
        assert(x =~= s.take(x.len() as int));
        assert(y =~= t.take(y.len() as int));
        assert(a.head_ref@ =~= s.skip(x.len() as int + 1));
        assert(b.head_ref@ =~= t.skip(y.len() as int + 1));
    }
}

} // verus!
