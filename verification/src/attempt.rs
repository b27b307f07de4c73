//! Process attempts of a logical execution, their terminal output, and the
//! canonical pre-spawn rejection envelope.

use vstd::prelude::*;
use vstd::std_specs::cmp::PartialEqSpecImpl;
use vstd::string::StringExecFns;

use crate::error::{
    detail_value, get_detail, AgentErrorCategory, AgentErrorCode, AgentErrorContext,
    AgentRetryDisposition, AgentRuntimeErrorEnvelopeV2, AGENT_ERROR_SCHEMA_V2,
    REASON_CODE_DETAIL_KEY,
};
use crate::json::JsonValue;
use crate::selection::{clone_opt_string, AgentCandidatePinV2, AgentProvider, ExecutorKind};
use crate::session::{pin_of, AgentSessionCheckpointV2, AgentSessionContinuationV2};
use crate::task::{AgentProcessDeliveryV2, AgentProcessRetryKindV2};
use crate::text::{blank, is_blank, opt_str_eq, opt_view, str_eq};

verus! {

pub const AGENT_RUNTIME_V2_DISABLED_REASON_CODE: &'static str = "agent_runtime_v2_disabled";

pub const AGENT_RUNTIME_V2_DISABLED_MESSAGE: &'static str =
    "Local agent runtime v2 execution is disabled.";

pub const AGENT_MALFORMED_DISPATCH_REASON_CODE: &'static str = "malformed_dispatch";

pub const AGENT_MALFORMED_DISPATCH_MESSAGE: &'static str =
    "The process dispatch payload was malformed.";

/// Reason code of the cancellation that replaces an unacknowledged
/// kill-switch rejection.
pub const PRESTART_CANCELLATION_WON_REASON_CODE: &'static str = "prestart_cancellation_won";

#[derive(Debug, Clone, Copy, PartialEq, Eq, Structural)]
pub enum AgentOutputFormat {
    Text,
    Json,
}

#[derive(Debug, Clone)]
pub struct AgentOutput {
    pub format: AgentOutputFormat,
    pub content: String,
    pub structured: Option<JsonValue>,
}

/// Same JSON content, or both absent.
pub open spec fn same_opt_json(a: Option<JsonValue>, b: Option<JsonValue>) -> bool {
    match (a, b) {
        (Some(x), Some(y)) => x.same(&y),
        (None, None) => true,
        _ => false,
    }
}

impl AgentOutput {
    /// Text output is non-blank and carries no structured value; JSON output
    /// carries a structured object.
    pub open spec fn valid(&self) -> bool {
        match self.format {
            AgentOutputFormat::Text => !is_blank(self.content@) && self.structured is None,
            AgentOutputFormat::Json => self.structured matches Some(v) && v.is_object(),
        }
    }

    pub fn is_valid(&self) -> (res: bool)
        ensures
            res == self.valid(),
    {
        match self.format {
            AgentOutputFormat::Text => !blank(self.content.as_str()) && self.structured.is_none(),
            AgentOutputFormat::Json => match &self.structured {
                Some(v) => v.is_json_object(),
                None => false,
            },
        }
    }

    pub open spec fn same(&self, other: &AgentOutput) -> bool {
        &&& self.format == other.format
        &&& self.content@ == other.content@
        &&& same_opt_json(self.structured, other.structured)
    }

    pub fn same_output(&self, other: &AgentOutput) -> (res: bool)
        ensures
            res == self.same(other),
    {
        self.format == other.format && str_eq(self.content.as_str(), other.content.as_str())
            && match (&self.structured, &other.structured) {
            (Some(x), Some(y)) => x.is_same_json(y),
            (None, None) => true,
            _ => false,
        }
    }
}

#[derive(Debug, Clone, Copy, PartialEq, Eq, Structural)]
pub enum AgentExecutionState {
    Queued,
    Probing,
    Blocked,
    Running,
    Completed,
    Failed,
    Cancelled,
    Indeterminate,
}

impl AgentExecutionState {
    pub open spec fn spec_is_terminal(self) -> bool {
        self is Completed || self is Failed || self is Cancelled || self is Indeterminate
    }

    /// Completed, failed, cancelled and indeterminate executions are final.
    #[verifier::when_used_as_spec(spec_is_terminal)]
    pub fn is_terminal(self) -> (res: bool)
        ensures
            res == self.spec_is_terminal(),
    {
        matches!(
            self,
            AgentExecutionState::Completed | AgentExecutionState::Failed
                | AgentExecutionState::Cancelled | AgentExecutionState::Indeterminate
        )
    }
}

#[derive(Debug, Clone, Copy, PartialEq, Eq, Structural)]
pub enum AgentAttemptState {
    Queued,
    Probing,
    Starting,
    DispatchRejected,
    DispatchCancelled,
    Blocked,
    Running,
    RepairingOutput,
    Completed,
    Failed,
    Cancelled,
    Indeterminate,
}

impl AgentAttemptState {
    pub open spec fn spec_is_terminal(self) -> bool {
        ||| self is DispatchRejected
        ||| self is DispatchCancelled
        ||| self is Blocked
        ||| self is Completed
        ||| self is Failed
        ||| self is Cancelled
        ||| self is Indeterminate
    }

    /// A process attempt ends rejected or cancelled before spawn, blocked,
    /// completed, failed, cancelled or indeterminate.
    #[verifier::when_used_as_spec(spec_is_terminal)]
    pub fn is_terminal(self) -> (res: bool)
        ensures
            res == self.spec_is_terminal(),
    {
        matches!(
            self,
            AgentAttemptState::DispatchRejected | AgentAttemptState::DispatchCancelled
                | AgentAttemptState::Blocked | AgentAttemptState::Completed
                | AgentAttemptState::Failed | AgentAttemptState::Cancelled
                | AgentAttemptState::Indeterminate
        )
    }

    /// Rejected or cancelled before any process was spawned.
    pub open spec fn is_prestart(self) -> bool {
        self is DispatchRejected || self is DispatchCancelled
    }
}

#[derive(Debug, Clone)]
pub struct AgentAttemptRetryV2 {
    pub retry_kind: AgentProcessRetryKindV2,
    pub from_attempt_id: String,
    pub continuation: Option<AgentSessionContinuationV2>,
}

/// Same continuation content, or both absent.
pub open spec fn same_opt_continuation(
    a: Option<AgentSessionContinuationV2>,
    b: Option<AgentSessionContinuationV2>,
) -> bool {
    match (a, b) {
        (Some(x), Some(y)) => x.same(&y),
        (None, None) => true,
        _ => false,
    }
}

impl AgentAttemptRetryV2 {
    pub open spec fn same(&self, other: &AgentAttemptRetryV2) -> bool {
        &&& self.retry_kind == other.retry_kind
        &&& self.from_attempt_id@ == other.from_attempt_id@
        &&& same_opt_continuation(self.continuation, other.continuation)
    }

    pub fn same_retry(&self, other: &AgentAttemptRetryV2) -> (res: bool)
        ensures
            res == self.same(other),
    {
        self.retry_kind == other.retry_kind && str_eq(
            self.from_attempt_id.as_str(),
            other.from_attempt_id.as_str(),
        ) && match (&self.continuation, &other.continuation) {
            (Some(x), Some(y)) => x.same_continuation(y),
            (None, None) => true,
            _ => false,
        }
    }
}

/// Same output content, or both absent.
pub open spec fn same_opt_output(a: Option<AgentOutput>, b: Option<AgentOutput>) -> bool {
    match (a, b) {
        (Some(x), Some(y)) => x.same(&y),
        (None, None) => true,
        _ => false,
    }
}

pub fn opt_output_eq(a: &Option<AgentOutput>, b: &Option<AgentOutput>) -> (res: bool)
    ensures
        res == same_opt_output(*a, *b),
{
    match (a, b) {
        (Some(x), Some(y)) => x.same_output(y),
        (None, None) => true,
        _ => false,
    }
}

/// Same retry content, or both absent.
pub open spec fn same_opt_retry(a: Option<AgentAttemptRetryV2>, b: Option<AgentAttemptRetryV2>) -> bool {
    match (a, b) {
        (Some(x), Some(y)) => x.same(&y),
        (None, None) => true,
        _ => false,
    }
}

pub fn opt_retry_eq(a: &Option<AgentAttemptRetryV2>, b: &Option<AgentAttemptRetryV2>) -> (res: bool)
    ensures
        res == same_opt_retry(*a, *b),
{
    match (a, b) {
        (Some(x), Some(y)) => x.same_retry(y),
        (None, None) => true,
        _ => false,
    }
}

/// Same checkpoint content, or both absent.
pub open spec fn same_opt_checkpoint(
    a: Option<AgentSessionCheckpointV2>,
    b: Option<AgentSessionCheckpointV2>,
) -> bool {
    match (a, b) {
        (Some(x), Some(y)) => x.same(&y),
        (None, None) => true,
        _ => false,
    }
}

/// Same error content, or both absent.
pub open spec fn same_opt_error(
    a: Option<AgentRuntimeErrorEnvelopeV2>,
    b: Option<AgentRuntimeErrorEnvelopeV2>,
) -> bool {
    match (a, b) {
        (Some(x), Some(y)) => x.same(&y),
        (None, None) => true,
        _ => false,
    }
}

pub fn opt_error_eq(a: &Option<AgentRuntimeErrorEnvelopeV2>, b: &Option<AgentRuntimeErrorEnvelopeV2>) -> (res:
    bool)
    ensures
        res == same_opt_error(*a, *b),
{
    match (a, b) {
        (Some(x), Some(y)) => x.same_error(y),
        (None, None) => true,
        _ => false,
    }
}

#[derive(Debug, Clone)]
pub struct AgentAttemptV2 {
    pub attempt_id: String,
    pub attempt_number: u32,
    /// Per-process task idempotency. This is distinct from the stable logical
    /// execution idempotency key and is immutable with the invocation payload.
    pub task_idempotency_key: String,
    /// Per-process terminal delivery idempotency, derived under a separate
    /// domain from `task_idempotency_key`.
    pub delivery_idempotency_key: String,
    /// SHA-256 of the canonical immutable process invocation envelope,
    /// including the candidate pin and optional resume continuation.
    pub payload_digest: String,
    pub state: AgentAttemptState,
    pub started_sequence: u64,
    pub finished_sequence: Option<u64>,
    pub selection_index: u32,
    pub executor: ExecutorKind,
    pub provider: AgentProvider,
    pub requested_model_key: Option<String>,
    pub requested_provider_model_id: Option<String>,
    pub resolved_model_key: Option<String>,
    pub resolved_provider_model_id: Option<String>,
    pub started_at: String,
    pub finished_at: Option<String>,
    pub session: Option<AgentSessionCheckpointV2>,
    pub retry: Option<AgentAttemptRetryV2>,
    pub delivery: AgentProcessDeliveryV2,
    pub error: Option<AgentRuntimeErrorEnvelopeV2>,
}

impl AgentAttemptV2 {
    /// The candidate this attempt ran: its slot, executor, provider and
    /// resolved model.
    pub open spec fn pin(&self) -> AgentCandidatePinV2 {
        pin_of(
            self.selection_index,
            self.executor,
            self.provider,
            self.resolved_model_key,
            self.resolved_provider_model_id,
        )
    }

    pub fn candidate_pin(&self) -> (res: AgentCandidatePinV2)
        ensures
            res.same(&self.pin()),
    {
        AgentCandidatePinV2 {
            selection_index: self.selection_index,
            executor: self.executor,
            provider: self.provider,
            model_key: clone_opt_string(&self.resolved_model_key),
            provider_model_id: clone_opt_string(&self.resolved_provider_model_id),
        }
    }

    /// The fields that identify the invocation, which no later update of the
    /// attempt may change.
    pub open spec fn same_invocation(&self, other: &AgentAttemptV2) -> bool {
        &&& self.attempt_number == other.attempt_number
        &&& self.task_idempotency_key@ == other.task_idempotency_key@
        &&& self.delivery_idempotency_key@ == other.delivery_idempotency_key@
        &&& self.payload_digest@ == other.payload_digest@
        &&& self.started_sequence == other.started_sequence
        &&& self.selection_index == other.selection_index
        &&& self.executor == other.executor
        &&& self.provider == other.provider
        &&& opt_view(self.requested_model_key) == opt_view(other.requested_model_key)
        &&& opt_view(self.requested_provider_model_id) == opt_view(
            other.requested_provider_model_id,
        )
        &&& self.started_at@ == other.started_at@
        &&& same_opt_retry(self.retry, other.retry)
        &&& self.delivery.same(&other.delivery)
    }

    pub fn same_invocation_as(&self, other: &AgentAttemptV2) -> (res: bool)
        ensures
            res == self.same_invocation(other),
    {
        self.attempt_number == other.attempt_number && str_eq(
            self.task_idempotency_key.as_str(),
            other.task_idempotency_key.as_str(),
        ) && str_eq(self.delivery_idempotency_key.as_str(), other.delivery_idempotency_key.as_str())
            && str_eq(self.payload_digest.as_str(), other.payload_digest.as_str())
            && self.started_sequence == other.started_sequence && self.selection_index
            == other.selection_index && self.executor == other.executor && self.provider
            == other.provider && opt_str_eq(&self.requested_model_key, &other.requested_model_key)
            && opt_str_eq(&self.requested_provider_model_id, &other.requested_provider_model_id)
            && str_eq(self.started_at.as_str(), other.started_at.as_str()) && opt_retry_eq(
            &self.retry,
            &other.retry,
        ) && self.delivery.same_delivery(&other.delivery)
    }

    /// Same content in every field.
    pub open spec fn same(&self, other: &AgentAttemptV2) -> bool {
        &&& self.attempt_id@ == other.attempt_id@
        &&& self.same_invocation(other)
        &&& self.state == other.state
        &&& self.finished_sequence == other.finished_sequence
        &&& opt_view(self.resolved_model_key) == opt_view(other.resolved_model_key)
        &&& opt_view(self.resolved_provider_model_id) == opt_view(other.resolved_provider_model_id)
        &&& opt_view(self.finished_at) == opt_view(other.finished_at)
        &&& same_opt_checkpoint(self.session, other.session)
        &&& same_opt_error(self.error, other.error)
    }

    pub fn same_attempt(&self, other: &AgentAttemptV2) -> (res: bool)
        ensures
            res == self.same(other),
    {
        str_eq(self.attempt_id.as_str(), other.attempt_id.as_str()) && self.same_invocation_as(
            other,
        ) && self.state == other.state && self.finished_sequence == other.finished_sequence
            && opt_str_eq(&self.resolved_model_key, &other.resolved_model_key) && opt_str_eq(
            &self.resolved_provider_model_id,
            &other.resolved_provider_model_id,
        ) && opt_str_eq(&self.finished_at, &other.finished_at) && match (
            &self.session,
            &other.session,
        ) {
            (Some(x), Some(y)) => x.same_checkpoint(y),
            (None, None) => true,
            _ => false,
        } && opt_error_eq(&self.error, &other.error)
    }
}

/// The context of the canonical pre-spawn rejection of `attempt` in execution
/// `execution_id`: the trusted candidate and identity, no provider-side
/// resolution, and one `reasonCode` detail.
pub open spec fn is_rejection_context(
    context: AgentErrorContext,
    execution_id: Seq<char>,
    attempt: AgentAttemptV2,
    reason_code: Seq<char>,
) -> bool {
    &&& context.executor == Some(attempt.executor)
    &&& context.provider == Some(attempt.provider)
    &&& opt_view(context.requested_model_key) == opt_view(attempt.requested_model_key)
    &&& opt_view(context.requested_provider_model_id) == opt_view(
        attempt.requested_provider_model_id,
    )
    &&& context.resolved_model_key is None
    &&& context.resolved_provider_model_id is None
    &&& opt_view(context.execution_id) == Some(execution_id)
    &&& opt_view(context.attempt_id) == Some(attempt.attempt_id@)
    &&& context.session_id is None
    &&& context.safe_details@.len() == 1
    &&& context.safe_details@[0].0@ == REASON_CODE_DETAIL_KEY@
    &&& context.safe_details@[0].1@ == reason_code
}

/// Builds the error context of a pre-spawn rejection from the trusted
/// execution and attempt identity alone.
pub fn canonical_dispatch_rejection_context(
    execution_id: &str,
    attempt: &AgentAttemptV2,
    reason_code: &str,
) -> (res: AgentErrorContext)
    ensures
        is_rejection_context(res, execution_id@, *attempt, reason_code@),
{
    let mut safe_details: Vec<(String, String)> = Vec::new();
    safe_details.push((String::from_str(REASON_CODE_DETAIL_KEY), String::from_str(reason_code)));
    AgentErrorContext {
        executor: Some(attempt.executor),
        provider: Some(attempt.provider),
        requested_model_key: clone_opt_string(&attempt.requested_model_key),
        requested_provider_model_id: clone_opt_string(&attempt.requested_provider_model_id),
        // A pre-spawn rejection does not claim provider-side resolution. The
        // exact candidate remains preserved on the trusted attempt itself.
        resolved_model_key: None,
        resolved_provider_model_id: None,
        execution_id: Some(String::from_str(execution_id)),
        attempt_id: Some(attempt.attempt_id.clone()),
        session_id: None,
        safe_details,
    }
}

/// The envelope of a canonical pre-spawn rejection with the given code,
/// message and reason.
pub open spec fn is_rejection_error(
    error: AgentRuntimeErrorEnvelopeV2,
    execution_id: Seq<char>,
    attempt: AgentAttemptV2,
    code: AgentErrorCode,
    message: Seq<char>,
    reason_code: Seq<char>,
) -> bool {
    &&& error.code == code
    &&& error.category == code.category()
    &&& error.message@ == message
    &&& error.retry == AgentRetryDisposition::Never
    &&& error.retry_after_seconds is None
    &&& error.remediation@.len() == 0
    &&& is_rejection_context(error.context, execution_id, attempt, reason_code)
}

/// The envelope is one of the two canonical pre-spawn rejections of the
/// attempt, as its `reasonCode` detail selects: the disabled runtime or the
/// malformed dispatch.
pub open spec fn canonical_rejection(
    error: AgentRuntimeErrorEnvelopeV2,
    execution_id: Seq<char>,
    attempt: AgentAttemptV2,
) -> bool {
    match error.context.reason_code() {
        Some(reason) => if reason == AGENT_RUNTIME_V2_DISABLED_REASON_CODE@ {
            is_rejection_error(
                error,
                execution_id,
                attempt,
                AgentErrorCode::AgentRuntimeV2Disabled,
                AGENT_RUNTIME_V2_DISABLED_MESSAGE@,
                AGENT_RUNTIME_V2_DISABLED_REASON_CODE@,
            )
        } else if reason == AGENT_MALFORMED_DISPATCH_REASON_CODE@ {
            is_rejection_error(
                error,
                execution_id,
                attempt,
                AgentErrorCode::InvalidRequest,
                AGENT_MALFORMED_DISPATCH_MESSAGE@,
                AGENT_MALFORMED_DISPATCH_REASON_CODE@,
            )
        } else {
            false
        },
        None => false,
    }
}

/// Builds the only valid terminal envelope for a malformed pre-spawn dispatch.
///
/// Backend must call the equivalent construction using only its persisted
/// execution, process-attempt, delivery, and candidate-pin identity. A raw
/// plugin message or context is diagnostic input only and must not be copied
/// into the durable terminal execution.
pub fn synthesize_malformed_dispatch_error(execution_id: &str, attempt: &AgentAttemptV2) -> (res:
    AgentRuntimeErrorEnvelopeV2)
    ensures
        res.schema_version@ == AGENT_ERROR_SCHEMA_V2@,
        is_rejection_error(
            res,
            execution_id@,
            *attempt,
            AgentErrorCode::InvalidRequest,
            AGENT_MALFORMED_DISPATCH_MESSAGE@,
            AGENT_MALFORMED_DISPATCH_REASON_CODE@,
        ),
        res.validation() is Ok,
        canonical_rejection(res, execution_id@, *attempt),
{
    let res = AgentRuntimeErrorEnvelopeV2 {
        schema_version: String::from_str(AGENT_ERROR_SCHEMA_V2),
        code: AgentErrorCode::InvalidRequest,
        category: AgentErrorCategory::Validation,
        message: String::from_str(AGENT_MALFORMED_DISPATCH_MESSAGE),
        retry: AgentRetryDisposition::Never,
        retry_after_seconds: None,
        remediation: Vec::new(),
        context: canonical_dispatch_rejection_context(
            execution_id,
            attempt,
            AGENT_MALFORMED_DISPATCH_REASON_CODE,
        ),
    };
    proof {
        reveal_strlit("The process dispatch payload was malformed.");
        reveal_strlit("malformed_dispatch");
        reveal_strlit("agent_runtime_v2_disabled");
        reveal_strlit("executor_version_unverified");
        reveal_strlit("reasonCode");
        assert(!is_blank(res.message@)) by {
            assert(!crate::text::is_whitespace_char(res.message@[0]));
        }
        assert(res.context.safe_details@[0].0@ == REASON_CODE_DETAIL_KEY@);
        assert(res.context.reason_code() == Some(AGENT_MALFORMED_DISPATCH_REASON_CODE@));
        assert(AGENT_MALFORMED_DISPATCH_REASON_CODE@ != AGENT_RUNTIME_V2_DISABLED_REASON_CODE@) by {
            assert(AGENT_MALFORMED_DISPATCH_REASON_CODE@[0] != AGENT_RUNTIME_V2_DISABLED_REASON_CODE@[0]);
        }
        assert(AGENT_MALFORMED_DISPATCH_REASON_CODE@ != crate::error::EXECUTOR_VERSION_UNVERIFIED_REASON_CODE@) by {
            assert(AGENT_MALFORMED_DISPATCH_REASON_CODE@[0] != crate::error::EXECUTOR_VERSION_UNVERIFIED_REASON_CODE@[0]);
        }
    }
    res
}

/// Whether `error` is the canonical pre-spawn rejection of `attempt`.
pub fn is_canonical_dispatch_rejection_error(
    error: &AgentRuntimeErrorEnvelopeV2,
    execution_id: &str,
    attempt: &AgentAttemptV2,
) -> (res: bool)
    ensures
        res == canonical_rejection(*error, execution_id@, *attempt),
{
    let (expected_code, expected_message, expected_reason) = match get_detail(
        &error.context.safe_details,
        REASON_CODE_DETAIL_KEY,
    ) {
        Some(reason) => {
            if str_eq(reason.as_str(), AGENT_RUNTIME_V2_DISABLED_REASON_CODE) {
                (
                    AgentErrorCode::AgentRuntimeV2Disabled,
                    AGENT_RUNTIME_V2_DISABLED_MESSAGE,
                    AGENT_RUNTIME_V2_DISABLED_REASON_CODE,
                )
            } else if str_eq(reason.as_str(), AGENT_MALFORMED_DISPATCH_REASON_CODE) {
                (
                    AgentErrorCode::InvalidRequest,
                    AGENT_MALFORMED_DISPATCH_MESSAGE,
                    AGENT_MALFORMED_DISPATCH_REASON_CODE,
                )
            } else {
                return false;
            }
        },
        None => {
            return false;
        },
    };
    let expected_context = canonical_dispatch_rejection_context(
        execution_id,
        attempt,
        expected_reason,
    );
    proof {
        crate::error::lemma_same_as_single_detail(
            error.context.safe_details@,
            expected_context.safe_details@,
        );
    }
    error.code == expected_code && error.category == expected_code.category() && str_eq(
        error.message.as_str(),
        expected_message,
    ) && error.retry == AgentRetryDisposition::Never && error.retry_after_seconds.is_none()
        && error.remediation.len() == 0 && error.context.same_context(&expected_context)
}

impl PartialEq for AgentOutput {
    fn eq(&self, other: &Self) -> (res: bool) {
        self.same_output(other)
    }
}

impl PartialEqSpecImpl for AgentOutput {
    open spec fn obeys_eq_spec() -> bool {
        true
    }

    open spec fn eq_spec(&self, other: &AgentOutput) -> bool {
        self.same(other)
    }
}

impl PartialEq for AgentAttemptRetryV2 {
    fn eq(&self, other: &Self) -> (res: bool) {
        self.same_retry(other)
    }
}

impl PartialEqSpecImpl for AgentAttemptRetryV2 {
    open spec fn obeys_eq_spec() -> bool {
        true
    }

    open spec fn eq_spec(&self, other: &AgentAttemptRetryV2) -> bool {
        self.same(other)
    }
}

impl PartialEq for AgentAttemptV2 {
    fn eq(&self, other: &Self) -> (res: bool) {
        self.same_attempt(other)
    }
}

impl PartialEqSpecImpl for AgentAttemptV2 {
    open spec fn obeys_eq_spec() -> bool {
        true
    }

    open spec fn eq_spec(&self, other: &AgentAttemptV2) -> bool {
        self.same(other)
    }
}

// ----- Attempts with the same content -----

/// Attempts with the same content run pins with the same content.
pub proof fn lemma_same_attempts_pin_alike(x: AgentAttemptV2, y: AgentAttemptV2)
    requires
        x.same(&y),
    ensures
        x.pin().same(&y.pin()),
{
}

/// An envelope is a canonical rejection of an attempt exactly when one with
/// the same content is of an attempt with the same content.
pub proof fn lemma_same_rejections_judged_alike(
    e: AgentRuntimeErrorEnvelopeV2,
    f: AgentRuntimeErrorEnvelopeV2,
    execution_id: Seq<char>,
    x: AgentAttemptV2,
    y: AgentAttemptV2,
)
    requires
        e.same(&f),
        x.same(&y),
    ensures
        canonical_rejection(e, execution_id, x) == canonical_rejection(f, execution_id, y),
{
    crate::error::lemma_same_errors_judged_alike(e, f);
    let (a, b) = (e.context.safe_details@, f.context.safe_details@);
    if a.len() == 1 {
        assert(detail_value(a, a[0].0@) == Some(a[0].1@));
        assert(detail_value(b.drop_first(), a[0].0@) is None);
        assert(detail_value(a, a[0].0@) == detail_value(b, a[0].0@));
    }
}

} // verus!
