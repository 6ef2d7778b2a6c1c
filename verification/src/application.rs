//! Values that the runtime and its application clients agree on.
//!
//! Who may do what is not decided here: the authenticated boundary in front of
//! a client decides, and these types carry its answer.

use vstd::prelude::*;

use crate::text::{
    byte_count, byte_len, chars_of, contains, decimal, has_text, is_ascii_letter, is_digit,
    push_decimal,
};

verus! {

/// Schema id of the chat controls.
pub const APPLICATION_CHAT_CONTROLS_SCHEMA: &'static str = "animus.chat.application_controls.v1";

/// Most bytes that controls may take as JSON.
pub const MAX_APPLICATION_CHAT_CONTROLS_BYTES: usize = 2048;

/// Most bytes of a reference to a configured profile or skill.
pub const MAX_APPLICATION_CHAT_CONTROL_REF_BYTES: usize = 64;

/// Most bytes of an identifier in a receipt.
pub const MAX_APPLICATION_PROTOCOL_STRING_BYTES: usize = 512;

/// Most bytes of an error message in a receipt.
pub const MAX_APPLICATION_CHAT_ERROR_BYTES: usize = 1024;

/// Largest integer that every JSON reader holds exactly.
pub const MAX_APPLICATION_CHAT_SEQUENCE: u64 = 9007199254740991;

// ---------------------------------------------------------------------
// Vocabulary
// ---------------------------------------------------------------------

/// What a client may offer on a resource.
#[derive(Debug, Clone, Copy, PartialEq, Eq, Hash, Structural)]
#[non_exhaustive]
pub enum AllowedAction {
    /// Read it.
    Read,
    /// Look at an agent's configuration.
    Inspect,
    /// Start a run.
    Launch,
    /// Follow a run.
    Stream,
    /// Send a message.
    Send,
    /// Answer an interaction.
    Respond,
}

/// Kinds of resources.
#[derive(Debug, Clone, Copy, PartialEq, Eq, Hash, Structural)]
#[non_exhaustive]
pub enum ApplicationResourceKind {
    /// Agent profile.
    Agent,
    /// Conversation.
    Chat,
    /// Workflow definition.
    Workflow,
    /// Run of a workflow.
    Run,
    /// Subject of a backend.
    Subject,
    /// Entry of a queue.
    QueueEntry,
    /// Operation.
    Operation,
    /// Interaction with a human.
    Interaction,
}

/// Who sees a resource.
#[derive(Debug, Clone, Copy, PartialEq, Eq, Hash, Structural)]
#[non_exhaustive]
pub enum ResourceVisibility {
    /// Those related to it, and administrators.
    Private,
    /// The organization.
    Org,
    /// Everybody.
    Public,
}

/// Schema of the chat controls.
#[derive(Debug, Clone, Copy, PartialEq, Eq, Structural)]
pub enum ApplicationChatControlsSchema {
    /// [`APPLICATION_CHAT_CONTROLS_SCHEMA`].
    V1,
}

impl Default for ApplicationChatControlsSchema {
    fn default() -> (r: Self)
        ensures
            r == ApplicationChatControlsSchema::V1,
    {
        ApplicationChatControlsSchema::V1
    }
}

/// Reasoning effort that is asked for.
#[derive(Debug, Clone, Copy, PartialEq, Eq, Structural)]
pub enum ApplicationReasoningEffort {
    /// Low.
    Low,
    /// Medium.
    Medium,
    /// High.
    High,
}

impl ApplicationReasoningEffort {
    /// The word on the wire.
    pub open spec fn word(self) -> Seq<char> {
        match self {
            ApplicationReasoningEffort::Low => "low"@,
            ApplicationReasoningEffort::Medium => "medium"@,
            ApplicationReasoningEffort::High => "high"@,
        }
    }

    /// The word on the wire.
    pub fn as_str(self) -> (r: &'static str)
        ensures
            r@ == self.word(),
    {
        match self {
            ApplicationReasoningEffort::Low => "low",
            ApplicationReasoningEffort::Medium => "medium",
            ApplicationReasoningEffort::High => "high",
        }
    }
}

/// Permissions that are asked for.
#[derive(Debug, Clone, Copy, PartialEq, Eq, Structural)]
pub enum ApplicationPermissionIntent {
    /// The provider's defaults.
    Default,
    /// Review without broad edits.
    Review,
    /// Ordinary edits.
    AutoEdit,
    /// The profile's unrestricted mode.
    Unrestricted,
}

impl ApplicationPermissionIntent {
    /// The word on the wire.
    pub open spec fn word(self) -> Seq<char> {
        match self {
            ApplicationPermissionIntent::Default => "default"@,
            ApplicationPermissionIntent::Review => "review"@,
            ApplicationPermissionIntent::AutoEdit => "auto_edit"@,
            ApplicationPermissionIntent::Unrestricted => "unrestricted"@,
        }
    }

    /// The word on the wire.
    pub fn as_str(self) -> (r: &'static str)
        ensures
            r@ == self.word(),
    {
        match self {
            ApplicationPermissionIntent::Default => "default",
            ApplicationPermissionIntent::Review => "review",
            ApplicationPermissionIntent::AutoEdit => "auto_edit",
            ApplicationPermissionIntent::Unrestricted => "unrestricted",
        }
    }
}

// ---------------------------------------------------------------------
// References to configured profiles and skills
// ---------------------------------------------------------------------

/// Whether a character is an ASCII letter or digit.
pub open spec fn is_alphanumeric(c: char) -> bool {
    is_ascii_letter(c) || is_digit(c)
}

/// Whether a character may stand in a reference.
pub open spec fn is_ref_char(c: char) -> bool {
    is_alphanumeric(c) || c == '.' || c == '_' || c == '-'
}

/// Whether the characters of a reference are in order: a letter or digit
/// first, and no two dots in a row.
pub open spec fn is_ref_text(s: Seq<char>) -> bool {
    &&& s.len() > 0
    &&& is_alphanumeric(s[0])
    &&& forall|i: int| 0 <= i < s.len() ==> is_ref_char(#[trigger] s[i])
    &&& !contains(s, ".."@)
}

/// What is wrong with a reference.
pub open spec fn configured_ref_problem(s: Seq<char>) -> Option<Seq<char>> {
    if s.len() == 0 || byte_len(s) > MAX_APPLICATION_CHAT_CONTROL_REF_BYTES {
        Some(
            "configured reference must contain 1..="@ + decimal(
                MAX_APPLICATION_CHAT_CONTROL_REF_BYTES as nat,
            ) + " bytes"@,
        )
    } else if !is_ref_text(s) {
        Some(
            "configured reference must start with an ASCII letter or digit, contain only ASCII letters, digits, '.', '_', or '-', and must not contain '..'"@,
        )
    } else {
        None
    }
}

fn alphanumeric(c: char) -> (r: bool)
    ensures
        r == is_alphanumeric(c),
{
    ('a' <= c && c <= 'z') || ('A' <= c && c <= 'Z') || ('0' <= c && c <= '9')
}

fn ref_text(s: &[char]) -> (r: bool)
    requires
        s@.len() > 0,
    ensures
        r == is_ref_text(s@),
{
    if !alphanumeric(s[0]) {
        return false;
    }
    let mut i: usize = 0;
    while i < s.len()
        invariant
            i <= s.len(),
            forall|j: int| 0 <= j < i ==> is_ref_char(#[trigger] s@[j]),
        decreases s.len() - i,
    {
        let c = s[i];
        if !(alphanumeric(c) || c == '.' || c == '_' || c == '-') {
            proof {
                assert(!is_ref_char(s@[i as int]));
            }
            return false;
        }
        i += 1;
    }
    !has_text(s, chars_of("..").as_slice())
}

/// Checks a reference to a configured profile or skill.
pub fn validate_application_configured_ref(value: &str) -> (r: Result<(), String>)
    ensures
        r is Ok <==> configured_ref_problem(value@) is None,
        r is Err ==> configured_ref_problem(value@) == Some(r->Err_0@),
{
    let chars = chars_of(value);
    if chars.len() == 0 || byte_count(chars.as_slice())
        > MAX_APPLICATION_CHAT_CONTROL_REF_BYTES as u128 {
        let mut out = "configured reference must contain 1..=".to_owned();
        push_decimal(&mut out, MAX_APPLICATION_CHAT_CONTROL_REF_BYTES as u128);
        out.append(" bytes");
        return Err(out);
    }
    if !ref_text(chars.as_slice()) {
        return Err(
            "configured reference must start with an ASCII letter or digit, contain only ASCII letters, digits, '.', '_', or '-', and must not contain '..'".to_owned(),
        );
    }
    Ok(())
}

/// A reference to a configured profile or skill.
#[derive(Debug, PartialEq, Eq, Hash)]
pub struct ApplicationConfiguredRef {
    value: String,
}

impl ApplicationConfiguredRef {
    #[verifier::type_invariant]
    spec fn checked(self) -> bool {
        configured_ref_problem(self.value@) is None
    }

    /// The text of the reference.
    pub closed spec fn view(self) -> Seq<char> {
        self.value@
    }

    /// The reference with this text, where the text is one.
    pub fn new(value: String) -> (r: Result<Self, String>)
        ensures
            r is Ok <==> configured_ref_problem(value@) is None,
            r is Ok ==> r->Ok_0@ == value@,
            r is Err ==> configured_ref_problem(value@) == Some(r->Err_0@),
    {
        match validate_application_configured_ref(value.as_str()) {
            Ok(_) => Ok(ApplicationConfiguredRef { value }),
            Err(problem) => Err(problem),
        }
    }

    /// The text of the reference.
    pub fn as_str(&self) -> (r: &str)
        ensures
            r@ == self@,
            configured_ref_problem(r@) is None,
    {
        proof {
            use_type_invariant(self);
        }
        self.value.as_str()
    }
}

impl Clone for ApplicationConfiguredRef {
    fn clone(&self) -> (r: Self)
        ensures
            r@ == self@,
    {
        proof {
            use_type_invariant(self);
        }
        ApplicationConfiguredRef { value: self.value.clone() }
    }
}

// ---------------------------------------------------------------------
// Chat controls
// ---------------------------------------------------------------------

/// Controls that an application sends with a message.
#[derive(Debug, Clone, PartialEq, Eq)]
pub struct ApplicationChatControls {
    /// Schema.
    pub schema: ApplicationChatControlsSchema,
    /// Whether approvals are asked for.
    pub approvals: Option<bool>,
    /// Reasoning effort.
    pub reasoning_effort: Option<ApplicationReasoningEffort>,
    /// Permissions.
    pub permission_intent: Option<ApplicationPermissionIntent>,
    /// Profile that the conversation must have.
    pub profile_ref: Option<ApplicationConfiguredRef>,
    /// Skill to use.
    pub skill_ref: Option<ApplicationConfiguredRef>,
}

impl Default for ApplicationChatControls {
    fn default() -> (r: Self)
        ensures
            r.schema == ApplicationChatControlsSchema::V1,
            r.approvals is None,
            r.reasoning_effort is None,
            r.permission_intent is None,
            r.profile_ref is None,
            r.skill_ref is None,
    {
        ApplicationChatControls {
            schema: ApplicationChatControlsSchema::V1,
            approvals: None,
            reasoning_effort: None,
            permission_intent: None,
            profile_ref: None,
            skill_ref: None,
        }
    }
}

/// Controls that a client may offer.
#[derive(Debug, Clone, PartialEq, Eq)]
pub struct AllowedApplicationChatControls {
    /// Schema.
    pub schema: ApplicationChatControlsSchema,
    /// Choices on approvals.
    pub approvals: Vec<bool>,
    /// Choices of reasoning effort.
    pub reasoning_effort: Vec<ApplicationReasoningEffort>,
    /// Choices of permissions.
    pub permission_intent: Vec<ApplicationPermissionIntent>,
    /// Choices of the profile.
    pub profile_ref: Vec<ApplicationConfiguredRef>,
    /// Choices of a skill.
    pub skill_ref: Vec<ApplicationConfiguredRef>,
}

impl Default for AllowedApplicationChatControls {
    fn default() -> (r: Self)
        ensures
            r.schema == ApplicationChatControlsSchema::V1,
            r.approvals@.len() == 0,
            r.reasoning_effort@.len() == 0,
            r.permission_intent@.len() == 0,
            r.profile_ref@.len() == 0,
            r.skill_ref@.len() == 0,
    {
        AllowedApplicationChatControls {
            schema: ApplicationChatControlsSchema::V1,
            approvals: Vec::new(),
            reasoning_effort: Vec::new(),
            permission_intent: Vec::new(),
            profile_ref: Vec::new(),
            skill_ref: Vec::new(),
        }
    }
}

// ---------------------------------------------------------------------
// Bounded values in receipts
// ---------------------------------------------------------------------

/// Whether a character is an ASCII control character.
pub open spec fn is_control(c: char) -> bool {
    (c as u32) < 0x20 || c as u32 == 0x7f
}

/// Whether a text can be an identifier in a receipt.
pub open spec fn is_protocol_text(s: Seq<char>) -> bool {
    &&& s.len() > 0
    &&& byte_len(s) <= MAX_APPLICATION_PROTOCOL_STRING_BYTES
    &&& forall|i: int| 0 <= i < s.len() ==> !is_control(#[trigger] s[i])
}

/// What is wrong with a text that is no identifier.
pub open spec fn protocol_text_problem() -> Seq<char> {
    "application protocol string must contain 1..="@ + decimal(
        MAX_APPLICATION_PROTOCOL_STRING_BYTES as nat,
    ) + " UTF-8 bytes and no ASCII controls"@
}

fn has_control(s: &[char]) -> (r: bool)
    ensures
        r == exists|i: int| 0 <= i < s@.len() && is_control(#[trigger] s@[i]),
{
    let mut i: usize = 0;
    while i < s.len()
        invariant
            i <= s.len(),
            forall|j: int| 0 <= j < i ==> !is_control(#[trigger] s@[j]),
        decreases s.len() - i,
    {
        let c = s[i];
        if (c as u32) < 0x20 || c as u32 == 0x7f {
            proof {
                assert(is_control(s@[i as int]));
            }
            return true;
        }
        i += 1;
    }
    false
}

/// An identifier in a receipt.
#[derive(Debug, PartialEq, Eq, Hash)]
pub struct ApplicationProtocolString {
    value: String,
}

impl ApplicationProtocolString {
    #[verifier::type_invariant]
    spec fn checked(self) -> bool {
        is_protocol_text(self.value@)
    }

    /// The identifier's text.
    pub closed spec fn view(self) -> Seq<char> {
        self.value@
    }

    /// The identifier with this text, where the text can be one.
    pub fn new(value: String) -> (r: Result<Self, String>)
        ensures
            r is Ok <==> is_protocol_text(value@),
            r is Ok ==> r->Ok_0@ == value@,
            r is Err ==> r->Err_0@ == protocol_text_problem(),
    {
        let chars = chars_of(value.as_str());
        if chars.len() == 0 || byte_count(chars.as_slice())
            > MAX_APPLICATION_PROTOCOL_STRING_BYTES as u128 || has_control(chars.as_slice()) {
            let mut out = "application protocol string must contain 1..=".to_owned();
            push_decimal(&mut out, MAX_APPLICATION_PROTOCOL_STRING_BYTES as u128);
            out.append(" UTF-8 bytes and no ASCII controls");
            return Err(out);
        }
        Ok(ApplicationProtocolString { value })
    }

    /// The identifier's text.
    pub fn as_str(&self) -> (r: &str)
        ensures
            r@ == self@,
            is_protocol_text(r@),
    {
        proof {
            use_type_invariant(self);
        }
        self.value.as_str()
    }
}

impl Clone for ApplicationProtocolString {
    fn clone(&self) -> (r: Self)
        ensures
            r@ == self@,
    {
        proof {
            use_type_invariant(self);
        }
        ApplicationProtocolString { value: self.value.clone() }
    }
}

/// Whether a text can be an error message in a receipt.
pub open spec fn is_error_text(s: Seq<char>) -> bool {
    s.len() > 0 && byte_len(s) <= MAX_APPLICATION_CHAT_ERROR_BYTES
}

/// What is wrong with a text that is no error message.
pub open spec fn error_text_problem() -> Seq<char> {
    "application chat error must contain 1..="@ + decimal(
        MAX_APPLICATION_CHAT_ERROR_BYTES as nat,
    ) + " UTF-8 bytes"@
}

/// An error message in a receipt.
#[derive(Debug, PartialEq, Eq)]
pub struct ApplicationChatErrorMessage {
    value: String,
}

impl ApplicationChatErrorMessage {
    #[verifier::type_invariant]
    spec fn checked(self) -> bool {
        is_error_text(self.value@)
    }

    /// The message's text.
    pub closed spec fn view(self) -> Seq<char> {
        self.value@
    }

    /// The message with this text, where the text can be one.
    pub fn new(value: String) -> (r: Result<Self, String>)
        ensures
            r is Ok <==> is_error_text(value@),
            r is Ok ==> r->Ok_0@ == value@,
            r is Err ==> r->Err_0@ == error_text_problem(),
    {
        let chars = chars_of(value.as_str());
        if chars.len() == 0 || byte_count(chars.as_slice())
            > MAX_APPLICATION_CHAT_ERROR_BYTES as u128 {
            let mut out = "application chat error must contain 1..=".to_owned();
            push_decimal(&mut out, MAX_APPLICATION_CHAT_ERROR_BYTES as u128);
            out.append(" UTF-8 bytes");
            return Err(out);
        }
        Ok(ApplicationChatErrorMessage { value })
    }

    /// The message's text.
    pub fn as_str(&self) -> (r: &str)
        ensures
            r@ == self@,
            is_error_text(r@),
    {
        proof {
            use_type_invariant(self);
        }
        self.value.as_str()
    }
}

impl Clone for ApplicationChatErrorMessage {
    fn clone(&self) -> (r: Self)
        ensures
            r@ == self@,
    {
        proof {
            use_type_invariant(self);
        }
        ApplicationChatErrorMessage { value: self.value.clone() }
    }
}

/// What is wrong with a sequence number that is too large.
pub open spec fn sequence_problem() -> Seq<char> {
    "application chat sequence must be <= "@ + decimal(MAX_APPLICATION_CHAT_SEQUENCE as nat)
}

/// A sequence number that every client holds exactly.
#[derive(Debug, PartialEq, Eq, PartialOrd, Ord, Hash)]
pub struct ApplicationChatSequence {
    value: u64,
}

impl ApplicationChatSequence {
    #[verifier::type_invariant]
    spec fn checked(self) -> bool {
        self.value <= MAX_APPLICATION_CHAT_SEQUENCE
    }

    /// The number.
    pub closed spec fn view(self) -> u64 {
        self.value
    }

    /// The sequence number, where it is not too large.
    pub fn new(value: u64) -> (r: Result<Self, String>)
        ensures
            r is Ok <==> value <= MAX_APPLICATION_CHAT_SEQUENCE,
            r is Ok <==> is_sequence_number(value),
            r is Ok ==> r->Ok_0@ == value,
            r is Err ==> r->Err_0@ == sequence_problem(),
    {
        if value > MAX_APPLICATION_CHAT_SEQUENCE {
            let mut out = "application chat sequence must be <= ".to_owned();
            push_decimal(&mut out, MAX_APPLICATION_CHAT_SEQUENCE as u128);
            return Err(out);
        }
        Ok(ApplicationChatSequence { value })
    }

    /// The number.
    pub fn get(self) -> (r: u64)
        ensures
            r == self@,
            r <= MAX_APPLICATION_CHAT_SEQUENCE,
    {
        proof {
            use_type_invariant(&self);
        }
        self.value
    }
}

impl Clone for ApplicationChatSequence {
    fn clone(&self) -> (r: Self)
        ensures
            r@ == self@,
    {
        proof {
            use_type_invariant(self);
        }
        ApplicationChatSequence { value: self.value }
    }
}

impl Copy for ApplicationChatSequence {

}

// ---------------------------------------------------------------------
// Receipts
// ---------------------------------------------------------------------

/// How a turn of a conversation ended.
#[derive(Debug, Clone, Copy, PartialEq, Eq, Structural)]
pub enum ApplicationChatTurnStatus {
    /// The assistant's message is stored.
    Completed,
    /// The user's message is stored, and the provider failed.
    AssistantFailed,
    /// The user's message is stored, and the provider was interrupted.
    AssistantInterrupted,
}

/// Status of an accepted user message.
#[derive(Debug, Clone, Copy, PartialEq, Eq, Structural)]
pub enum UserAcceptedStatus {
    /// Accepted.
    UserAccepted,
}

/// Status of a completed turn.
#[derive(Debug, Clone, Copy, PartialEq, Eq, Structural)]
pub enum CompletedStatus {
    /// Completed.
    Completed,
}

/// Status of a turn whose user message alone is stored.
#[derive(Debug, Clone, Copy, PartialEq, Eq, Structural)]
pub enum ApplicationChatFailureStatus {
    /// The provider failed.
    AssistantFailed,
    /// The provider was interrupted.
    AssistantInterrupted,
}

/// Receipts that a chat caller gets.
#[derive(Debug, Clone, PartialEq, Eq)]
pub enum ApplicationChatReceiptFrame {
    /// The user's message is stored.
    UserMessageAccepted {
        /// Status.
        status: UserAcceptedStatus,
        /// Conversation.
        conversation_id: ApplicationProtocolString,
        /// Number of the user's message.
        seq: ApplicationChatSequence,
        /// Id of the user's message.
        message_id: ApplicationProtocolString,
        /// Operation.
        operation_id: ApplicationProtocolString,
    },
    /// The assistant's message is stored.
    TurnCompleted {
        /// Status.
        status: CompletedStatus,
        /// Conversation.
        conversation_id: ApplicationProtocolString,
        /// Number of the assistant's message.
        seq: ApplicationChatSequence,
        /// Id of the assistant's message.
        message_id: ApplicationProtocolString,
        /// Number of the user's message.
        user_seq: ApplicationChatSequence,
        /// Id of the user's message.
        user_message_id: ApplicationProtocolString,
        /// Operation.
        operation_id: ApplicationProtocolString,
        /// Session of the provider.
        session_id: Option<ApplicationProtocolString>,
    },
    /// The user's message is stored, the assistant's is not.
    TurnFailed {
        /// Status.
        status: ApplicationChatFailureStatus,
        /// Conversation.
        conversation_id: ApplicationProtocolString,
        /// Number of the user's message.
        user_seq: ApplicationChatSequence,
        /// Id of the user's message.
        user_message_id: ApplicationProtocolString,
        /// Operation.
        operation_id: ApplicationProtocolString,
        /// Code of the failure.
        error_code: ApplicationProtocolString,
        /// What failed.
        error_message: ApplicationChatErrorMessage,
    },
}

// ---------------------------------------------------------------------
// Laws
// ---------------------------------------------------------------------

proof fn lemma_byte_len_of_ascii(s: Seq<char>)
    requires
        forall|i: int| 0 <= i < s.len() ==> is_ref_char(#[trigger] s[i]),
    ensures
        byte_len(s) == s.len(),
    decreases s.len(),
{
    if s.len() > 0 {
        assert(is_ref_char(s.last()));
        lemma_byte_len_of_ascii(s.drop_last());
    }
}

/// A reference is one to sixty-four characters long, as it is bytes long.
pub proof fn references_are_ascii(s: Seq<char>)
    requires
        configured_ref_problem(s) is None,
    ensures
        byte_len(s) == s.len(),
        0 < s.len() <= MAX_APPLICATION_CHAT_CONTROL_REF_BYTES,
{
    lemma_byte_len_of_ascii(s);
}

/// Every reference can be an identifier in a receipt.
pub proof fn references_are_identifiers(s: Seq<char>)
    requires
        configured_ref_problem(s) is None,
    ensures
        is_protocol_text(s),
{
    assert forall|i: int| 0 <= i < s.len() implies !is_control(#[trigger] s[i]) by {
        assert(is_ref_char(s[i]));
    }
}

/// A reference never climbs out of a directory: it holds no slash and no
/// double dot.
pub proof fn references_name_no_path(s: Seq<char>)
    requires
        configured_ref_problem(s) is None,
    ensures
        !s.contains('/'),
        !s.contains('\\'),
        !contains(s, ".."@),
{
    if s.contains('/') {
        let i = choose|i: int| 0 <= i < s.len() && s[i] == '/';
        assert(is_ref_char(s[i]));
    }
    if s.contains('\\') {
        let i = choose|i: int| 0 <= i < s.len() && s[i] == '\\';
        assert(is_ref_char(s[i]));
    }
}

/// Different efforts have different words.
pub proof fn effort_words_differ(a: ApplicationReasoningEffort, b: ApplicationReasoningEffort)
    ensures
        a.word() == b.word() ==> a == b,
{
    reveal_strlit("low");
    reveal_strlit("medium");
    reveal_strlit("high");
    assert("low"@[0] == 'l' && "medium"@[0] == 'm' && "high"@[0] == 'h');
}

/// Different permissions have different words.
pub proof fn permission_words_differ(
    a: ApplicationPermissionIntent,
    b: ApplicationPermissionIntent,
)
    ensures
        a.word() == b.word() ==> a == b,
{
    reveal_strlit("default");
    reveal_strlit("review");
    reveal_strlit("auto_edit");
    reveal_strlit("unrestricted");
    assert("default"@.len() == 7 && "review"@.len() == 6);
    assert("auto_edit"@.len() == 9 && "unrestricted"@.len() == 12);
}

/// A text is a reference exactly if it has one up to sixty-four characters, the
/// first an ASCII letter or digit, each a letter, a digit, `.`, `_` or `-`, and no
/// two dots in a row.
pub proof fn references_go_by_their_characters(s: Seq<char>)
    ensures
        configured_ref_problem(s) is None <==> 1 <= s.len() <= 64 && ('a' <= s[0] <= 'z' || 'A'
            <= s[0] <= 'Z' || '0' <= s[0] <= '9') && (forall|i: int|
            0 <= i < s.len() ==> 'a' <= #[trigger] s[i] <= 'z' || 'A' <= s[i] <= 'Z' || '0' <= s[i]
                <= '9' || s[i] == '.' || s[i] == '_' || s[i] == '-') && (forall|i: int|
            0 <= i < s.len() - 1 ==> !(#[trigger] s[i] == '.' && s[i + 1] == '.')),
{
    reveal_strlit("..");
    assert forall|k: int| 0 <= k < s.len() - 1 implies ((#[trigger] s[k] == '.' && s[k + 1] == '.')
        <==> crate::text::occurs_at(s, ".."@, k)) by {
        let part = s.subrange(k, k + 2);
        assert(part[0] == s[k] && part[1] == s[k + 1]);
        if s[k] == '.' && s[k + 1] == '.' {
            assert(part =~= ".."@);
        }
    }
    if contains(s, ".."@) {
        let k = choose|k: int| crate::text::occurs_at(s, ".."@, k);
        assert(s[k] == '.' && s[k + 1] == '.');
    }
    if forall|i: int|
        0 <= i < s.len() ==> 'a' <= #[trigger] s[i] <= 'z' || 'A' <= s[i] <= 'Z' || '0' <= s[i]
            <= '9' || s[i] == '.' || s[i] == '_' || s[i] == '-' {
        lemma_ascii_bytes(s);
        assert forall|i: int| 0 <= i < s.len() implies is_ref_char(#[trigger] s[i]) by {}
    }
    if is_ref_text(s) {
        assert forall|i: int| 0 <= i < s.len() implies 'a' <= #[trigger] s[i] <= 'z' || 'A' <= s[i]
            <= 'Z' || '0' <= s[i] <= '9' || s[i] == '.' || s[i] == '_' || s[i] == '-' by {
            assert(is_ref_char(s[i]));
        }
        lemma_ascii_bytes(s);
    }
}

proof fn lemma_ascii_bytes(s: Seq<char>)
    requires
        forall|i: int| 0 <= i < s.len() ==> (#[trigger] s[i] as u32) < 0x80,
    ensures
        byte_len(s) == s.len(),
    decreases s.len(),
{
    if s.len() > 0 {
        let front = s.drop_last();
        assert forall|i: int| 0 <= i < front.len() implies (#[trigger] front[i] as u32) < 0x80 by {
            assert(front[i] == s[i]);
        }
        lemma_ascii_bytes(front);
        assert(s.last() == s[s.len() - 1]);
    }
}

/// The limits on texts and numbers: an identifier takes one up to 512 bytes and
/// holds no ASCII control character; an error message takes one up to 1024 bytes;
/// and a sequence number is one that a double holds exactly.
pub proof fn values_stay_within_their_limits(s: Seq<char>)
    ensures
        is_protocol_text(s) <==> 1 <= byte_len(s) <= 512 && forall|i: int|
            0 <= i < s.len() ==> (#[trigger] s[i]) as u32 >= 32 && s[i] as u32 != 127,
        is_error_text(s) <==> 1 <= byte_len(s) <= 1024,
        MAX_APPLICATION_CHAT_SEQUENCE == 0x1F_FFFF_FFFF_FFFF,
        MAX_APPLICATION_CHAT_CONTROLS_BYTES == 2048,
{
    crate::text::lemma_byte_len_positive(s);
    if s.len() == 0 {
        assert(byte_len(s) == 0);
    }
    if is_protocol_text(s) {
        assert forall|i: int| 0 <= i < s.len() implies (#[trigger] s[i]) as u32 >= 32 && s[i] as u32
            != 127 by {
            assert(!is_control(s[i]));
        }
    }
}

/// Every word on the wire stands for one value.
pub proof fn words_stand_for_one_value(
    effort: ApplicationReasoningEffort,
    intent: ApplicationPermissionIntent,
)
    ensures
        effort.word() == "low"@ <==> effort == ApplicationReasoningEffort::Low,
        effort.word() == "medium"@ <==> effort == ApplicationReasoningEffort::Medium,
        effort.word() == "high"@ <==> effort == ApplicationReasoningEffort::High,
        intent.word() == "default"@ <==> intent == ApplicationPermissionIntent::Default,
        intent.word() == "review"@ <==> intent == ApplicationPermissionIntent::Review,
        intent.word() == "auto_edit"@ <==> intent == ApplicationPermissionIntent::AutoEdit,
        intent.word() == "unrestricted"@ <==> intent == ApplicationPermissionIntent::Unrestricted,
{
    reveal_strlit("low");
    reveal_strlit("medium");
    reveal_strlit("high");
    assert("low"@[0] == 'l' && "medium"@[0] == 'm' && "high"@[0] == 'h');
    reveal_strlit("default");
    reveal_strlit("review");
    reveal_strlit("auto_edit");
    reveal_strlit("unrestricted");
    assert("default"@[0] == 'd' && "review"@[0] == 'r' && "auto_edit"@[0] == 'a'
        && "unrestricted"@[0] == 'u');
}

/// Whether a number can be a sequence number.
pub open spec fn is_sequence_number(value: u64) -> bool {
    value <= MAX_APPLICATION_CHAT_SEQUENCE
}

/// A sequence number is one below two to the fifty-third.
pub proof fn sequence_numbers_are_exact(value: u64)
    ensures
        is_sequence_number(value) <==> value < 0x20_0000_0000_0000,
{
}

} // verus!
