//! The durable logical execution and the rules that keep its attempt history
//! coherent.

use vstd::prelude::*;
use vstd::std_specs::cmp::PartialEqSpecImpl;

use crate::attempt::{
    canonical_rejection, is_canonical_dispatch_rejection_error, AgentAttemptState, AgentAttemptV2,
    AgentExecutionState, AgentOutput, PRESTART_CANCELLATION_WON_REASON_CODE,
};
use crate::error::{get_detail, AgentErrorCode, AgentRetryDisposition, AgentRuntimeErrorEnvelopeV2, REASON_CODE_DETAIL_KEY};
use crate::ids::{
    idempotency_key, prefixed_sha256, validate_agent_attempt_delivery_idempotency_key,
    validate_agent_attempt_task_idempotency_key, validate_agent_payload_digest,
    validate_idempotency_key, AGENT_ATTEMPT_DELIVERY_IDEMPOTENCY_PREFIX_V2,
    AGENT_ATTEMPT_TASK_IDEMPOTENCY_PREFIX_V2, AGENT_PAYLOAD_DIGEST_PREFIX_V1,
};
use crate::selection::{
    check_model_pair, lemma_same_pins_transition_alike, model_pair_result,
    AgentCandidatePinValidationError,
};
use crate::task::{AgentExecutionBindingV2, AgentTaskRequestV2};
use crate::text::{
    absent_or_non_blank, blank, is_blank, opt_absent_or_non_blank, opt_str_eq, opt_view, str_eq,
};

verus! {

pub const AGENT_EXECUTION_SCHEMA_V2: &'static str = "loomex.agent-execution.v2";

pub const MAX_AGENT_PROCESS_ATTEMPTS_PER_EXECUTION: usize = 8;

#[derive(Debug, Clone)]
pub struct AgentExecutionV2 {
    pub schema_version: String,
    /// Unique logical agent-node execution ID, typically the persisted
    /// PluginAgentAttempt UUID. Multiple agent nodes in one workflow must not
    /// reuse their parent workflow execution ID here.
    pub execution_id: String,
    pub request_id: String,
    pub idempotency_key: String,
    pub sequence: u64,
    pub binding: AgentExecutionBindingV2,
    pub state: AgentExecutionState,
    pub active_attempt_id: Option<String>,
    pub attempts: Vec<AgentAttemptV2>,
    pub output: Option<AgentOutput>,
    pub error: Option<AgentRuntimeErrorEnvelopeV2>,
    pub created_at: String,
    pub started_at: Option<String>,
    pub finished_at: Option<String>,
    pub updated_at: String,
}

#[derive(Debug, Clone, Copy, PartialEq, Eq, Structural)]
pub enum AgentExecutionValidationError {
    WrongSchemaVersion,
    EmptyIdentity,
    InvalidIdempotencyKey,
    InvalidLifecycleSequence,
    TooManyAttempts,
    InvalidAttemptIdempotencyKey,
    InvalidAttemptPayloadDigest,
    InvalidAttemptDeliveryRoute,
    DuplicateAttemptIdempotencyKey,
    DuplicateAttemptDeliveryIdempotencyKey,
    DuplicateAttemptPayloadDigest,
    AttemptNumbersNotContiguous,
    AttemptSequenceInvalid,
    InvalidAttemptRetry,
    PinnedCandidateChanged,
    CandidateNotAllowed,
    LogicalIdentityMismatch,
    NonMonotonicUpdate,
    AttemptHistoryRewritten,
    EmptyExecutionTimestamp,
    ExecutionTimestampStateMismatch,
    InvalidBinding,
    DuplicateAttemptId,
    DuplicateAttemptNumber,
    EmptyAttemptIdentity,
    InvalidAttemptNumber,
    EmptyAttemptTimestamp,
    AttemptTimestampStateMismatch,
    AttemptErrorStateMismatch,
    AttemptExecutorProviderMismatch,
    UnpairedAttemptModelIdentity,
    UnsafeAttemptCliIdentifier,
    InvalidCheckpoint,
    CheckpointBindingMismatch,
    CheckpointCandidateMismatch,
    InvalidAttemptError,
    InvalidExecutionError,
    ErrorContextBindingMismatch,
    InvalidOutput,
    ActiveAttemptNotFound,
    ExecutionStateActiveAttemptMismatch,
    ExecutionStatePayloadMismatch,
    ExecutionTerminalAttemptMismatch,
    InvalidPrestartCancellationReplacement,
}

#[derive(Debug, Clone, Copy, PartialEq, Eq, Structural)]
pub enum AgentExecutionUpdateKind {
    IdempotentReplay,
    Advanced,
}

#[derive(Debug, Clone, Copy, PartialEq, Eq, Structural)]
pub enum AgentPrestartCancellationReplacement {
    CancellationWon,
}

// ----- Checks on one attempt, on its own -----

/// Identity, idempotency keys, digest and delivery route of an attempt.
pub open spec fn attempt_keys_error(attempt: AgentAttemptV2, binding: AgentExecutionBindingV2) -> Option<
    AgentExecutionValidationError,
> {
    if is_blank(attempt.attempt_id@) {
        Some(AgentExecutionValidationError::EmptyAttemptIdentity)
    } else if attempt.attempt_number == 0 {
        Some(AgentExecutionValidationError::InvalidAttemptNumber)
    } else if prefixed_sha256(
        attempt.task_idempotency_key@,
        AGENT_ATTEMPT_TASK_IDEMPOTENCY_PREFIX_V2@,
    ) is Err || prefixed_sha256(
        attempt.delivery_idempotency_key@,
        AGENT_ATTEMPT_DELIVERY_IDEMPOTENCY_PREFIX_V2@,
    ) is Err {
        Some(AgentExecutionValidationError::InvalidAttemptIdempotencyKey)
    } else if prefixed_sha256(attempt.payload_digest@, AGENT_PAYLOAD_DIGEST_PREFIX_V1@) is Err {
        Some(AgentExecutionValidationError::InvalidAttemptPayloadDigest)
    } else if !attempt.delivery.valid_for_binding(binding) {
        Some(AgentExecutionValidationError::InvalidAttemptDeliveryRoute)
    } else {
        None
    }
}

fn check_attempt_keys(attempt: &AgentAttemptV2, binding: &AgentExecutionBindingV2) -> (res: Option<
    AgentExecutionValidationError,
>)
    ensures
        res == attempt_keys_error(*attempt, *binding),
{
    if blank(attempt.attempt_id.as_str()) {
        return Some(AgentExecutionValidationError::EmptyAttemptIdentity);
    }
    if attempt.attempt_number == 0 {
        return Some(AgentExecutionValidationError::InvalidAttemptNumber);
    }
    if validate_agent_attempt_task_idempotency_key(attempt.task_idempotency_key.as_str()).is_err()
        || validate_agent_attempt_delivery_idempotency_key(
        attempt.delivery_idempotency_key.as_str(),
    ).is_err() {
        return Some(AgentExecutionValidationError::InvalidAttemptIdempotencyKey);
    }
    if validate_agent_payload_digest(attempt.payload_digest.as_str()).is_err() {
        return Some(AgentExecutionValidationError::InvalidAttemptPayloadDigest);
    }
    if !attempt.delivery.is_valid_for_binding(binding) {
        return Some(AgentExecutionValidationError::InvalidAttemptDeliveryRoute);
    }
    None
}

/// The finished sequence fits the state: a pre-spawn rejection or
/// cancellation finishes in the sequence it started, which is the
/// execution's; other terminal attempts finish after they start and no later
/// than the execution; an attempt that has not finished is not terminal.
pub open spec fn finished_sequence_valid(attempt: AgentAttemptV2, sequence: u64) -> bool {
    match attempt.finished_sequence {
        Some(s) => if attempt.state.is_prestart() {
            s == attempt.started_sequence && s == sequence
        } else {
            s > attempt.started_sequence && s <= sequence
        },
        None => !attempt.state.is_terminal(),
    }
}

/// The attempt's error fits its state.
pub open spec fn attempt_error_coherent(attempt: AgentAttemptV2, execution_id: Seq<char>) -> bool {
    match attempt.state {
        AgentAttemptState::DispatchRejected => (attempt.error matches Some(e) && canonical_rejection(
            e,
            execution_id,
            attempt,
        )) && attempt.session is None,
        AgentAttemptState::DispatchCancelled => (attempt.error matches Some(e) && e.code
            == AgentErrorCode::Cancelled && e.retry == AgentRetryDisposition::Never
            && e.remediation@.len() == 0 && e.context.reason_code() == Some(
            PRESTART_CANCELLATION_WON_REASON_CODE@,
        )) && attempt.session is None,
        AgentAttemptState::Blocked => attempt.error is Some,
        AgentAttemptState::Failed => attempt.error matches Some(e) && e.code
            != AgentErrorCode::Cancelled && e.code != AgentErrorCode::ExecutionIndeterminate,
        AgentAttemptState::Cancelled => attempt.error matches Some(e) && e.code
            == AgentErrorCode::Cancelled,
        AgentAttemptState::Indeterminate => attempt.error matches Some(e) && e.code
            == AgentErrorCode::ExecutionIndeterminate,
        AgentAttemptState::RepairingOutput => match attempt.error {
            Some(e) => e.code == AgentErrorCode::OutputInvalid,
            None => true,
        },
        _ => attempt.error is None,
    }
}

/// Lifecycle sequences, timestamps and error of an attempt.
pub open spec fn attempt_lifecycle_error(
    attempt: AgentAttemptV2,
    execution_id: Seq<char>,
    sequence: u64,
) -> Option<AgentExecutionValidationError> {
    if attempt.started_sequence == 0 || attempt.started_sequence > sequence
        || !finished_sequence_valid(attempt, sequence) || attempt.state.is_terminal()
        != attempt.finished_sequence is Some {
        Some(AgentExecutionValidationError::AttemptSequenceInvalid)
    } else if is_blank(attempt.started_at@) || !absent_or_non_blank(attempt.finished_at) {
        Some(AgentExecutionValidationError::EmptyAttemptTimestamp)
    } else if attempt.state.is_terminal() != attempt.finished_at is Some {
        Some(AgentExecutionValidationError::AttemptTimestampStateMismatch)
    } else if attempt.state.is_prestart() && opt_view(attempt.finished_at) != Some(
        attempt.started_at@,
    ) {
        Some(AgentExecutionValidationError::AttemptTimestampStateMismatch)
    } else if !attempt_error_coherent(attempt, execution_id) {
        Some(AgentExecutionValidationError::AttemptErrorStateMismatch)
    } else {
        None
    }
}

fn check_error_coherent(attempt: &AgentAttemptV2, execution_id: &str) -> (res: bool)
    ensures
        res == attempt_error_coherent(*attempt, execution_id@),
{
    match attempt.state {
        AgentAttemptState::DispatchRejected => {
            (match &attempt.error {
                Some(error) => is_canonical_dispatch_rejection_error(error, execution_id, attempt),
                None => false,
            }) && attempt.session.is_none()
        },
        AgentAttemptState::DispatchCancelled => {
            (match &attempt.error {
                Some(error) => {
                    error.code == AgentErrorCode::Cancelled && error.retry
                        == AgentRetryDisposition::Never && error.remediation.len() == 0
                        && match get_detail(&error.context.safe_details, REASON_CODE_DETAIL_KEY) {
                        Some(reason) => str_eq(reason.as_str(), PRESTART_CANCELLATION_WON_REASON_CODE),
                        None => false,
                    }
                },
                None => false,
            }) && attempt.session.is_none()
        },
        AgentAttemptState::Blocked => attempt.error.is_some(),
        AgentAttemptState::Failed => match &attempt.error {
            Some(error) => error.code != AgentErrorCode::Cancelled && error.code
                != AgentErrorCode::ExecutionIndeterminate,
            None => false,
        },
        AgentAttemptState::Cancelled => match &attempt.error {
            Some(error) => error.code == AgentErrorCode::Cancelled,
            None => false,
        },
        AgentAttemptState::Indeterminate => match &attempt.error {
            Some(error) => error.code == AgentErrorCode::ExecutionIndeterminate,
            None => false,
        },
        AgentAttemptState::RepairingOutput => match &attempt.error {
            Some(error) => error.code == AgentErrorCode::OutputInvalid,
            None => true,
        },
        _ => attempt.error.is_none(),
    }
}

fn check_attempt_lifecycle(attempt: &AgentAttemptV2, execution_id: &str, sequence: u64) -> (res:
    Option<AgentExecutionValidationError>)
    ensures
        res == attempt_lifecycle_error(*attempt, execution_id@, sequence),
{
    let terminal = attempt.state.is_terminal();
    let prestart = attempt.state == AgentAttemptState::DispatchRejected || attempt.state
        == AgentAttemptState::DispatchCancelled;
    let finished_ok = match attempt.finished_sequence {
        Some(s) => if prestart {
            s == attempt.started_sequence && s == sequence
        } else {
            s > attempt.started_sequence && s <= sequence
        },
        None => !terminal,
    };
    if attempt.started_sequence == 0 || attempt.started_sequence > sequence || !finished_ok
        || terminal != attempt.finished_sequence.is_some() {
        return Some(AgentExecutionValidationError::AttemptSequenceInvalid);
    }
    if blank(attempt.started_at.as_str()) || !opt_absent_or_non_blank(&attempt.finished_at) {
        return Some(AgentExecutionValidationError::EmptyAttemptTimestamp);
    }
    if terminal != attempt.finished_at.is_some() {
        return Some(AgentExecutionValidationError::AttemptTimestampStateMismatch);
    }
    if prestart {
        let same_time = match &attempt.finished_at {
            Some(f) => str_eq(f.as_str(), attempt.started_at.as_str()),
            None => false,
        };
        if !same_time {
            return Some(AgentExecutionValidationError::AttemptTimestampStateMismatch);
        }
    }
    if !check_error_coherent(attempt, execution_id) {
        return Some(AgentExecutionValidationError::AttemptErrorStateMismatch);
    }
    None
}

/// Candidate identity, checkpoint and error binding of an attempt.
pub open spec fn attempt_identity_error(
    attempt: AgentAttemptV2,
    execution_id: Seq<char>,
    binding: AgentExecutionBindingV2,
) -> Option<AgentExecutionValidationError> {
    let requested = model_pair_result(attempt.requested_model_key, attempt.requested_provider_model_id);
    let resolved = model_pair_result(attempt.resolved_model_key, attempt.resolved_provider_model_id);
    if attempt.executor.provider() != attempt.provider {
        Some(AgentExecutionValidationError::AttemptExecutorProviderMismatch)
    } else if requested == Err::<(), AgentCandidatePinValidationError>(
        AgentCandidatePinValidationError::UnpairedModelIdentity,
    ) || resolved == Err::<(), AgentCandidatePinValidationError>(
        AgentCandidatePinValidationError::UnpairedModelIdentity,
    ) {
        Some(AgentExecutionValidationError::UnpairedAttemptModelIdentity)
    } else if requested is Err || resolved is Err {
        Some(AgentExecutionValidationError::UnsafeAttemptCliIdentifier)
    } else if attempt.session matches Some(checkpoint) && checkpoint.validation() is Err {
        Some(AgentExecutionValidationError::InvalidCheckpoint)
    } else if attempt.session matches Some(checkpoint) && (checkpoint.execution_id@ != execution_id
        || checkpoint.attempt_id@ != attempt.attempt_id@ || !checkpoint.binding.same(&binding)) {
        Some(AgentExecutionValidationError::CheckpointBindingMismatch)
    } else if attempt.session matches Some(checkpoint) && !checkpoint.pin().same(&attempt.pin()) {
        Some(AgentExecutionValidationError::CheckpointCandidateMismatch)
    } else if attempt.error matches Some(e) && e.validation() is Err {
        Some(AgentExecutionValidationError::InvalidAttemptError)
    } else if attempt.error matches Some(e) && ((e.context.execution_id matches Some(x) && x@
        != execution_id) || (e.context.attempt_id matches Some(a) && a@ != attempt.attempt_id@)) {
        Some(AgentExecutionValidationError::ErrorContextBindingMismatch)
    } else {
        None
    }
}

fn check_attempt_identity(
    attempt: &AgentAttemptV2,
    execution_id: &str,
    binding: &AgentExecutionBindingV2,
) -> (res: Option<AgentExecutionValidationError>)
    ensures
        res == attempt_identity_error(*attempt, execution_id@, *binding),
{
    if attempt.executor.provider() != attempt.provider {
        return Some(AgentExecutionValidationError::AttemptExecutorProviderMismatch);
    }
    let requested = check_model_pair(&attempt.requested_model_key, &attempt.requested_provider_model_id);
    let resolved = check_model_pair(&attempt.resolved_model_key, &attempt.resolved_provider_model_id);
    let requested_unpaired = match requested {
        Err(AgentCandidatePinValidationError::UnpairedModelIdentity) => true,
        _ => false,
    };
    let resolved_unpaired = match resolved {
        Err(AgentCandidatePinValidationError::UnpairedModelIdentity) => true,
        _ => false,
    };
    if requested_unpaired || resolved_unpaired {
        return Some(AgentExecutionValidationError::UnpairedAttemptModelIdentity);
    }
    if requested.is_err() || resolved.is_err() {
        return Some(AgentExecutionValidationError::UnsafeAttemptCliIdentifier);
    }
    if let Some(checkpoint) = &attempt.session {
        if checkpoint.validate().is_err() {
            return Some(AgentExecutionValidationError::InvalidCheckpoint);
        }
        if !str_eq(checkpoint.execution_id.as_str(), execution_id) || !str_eq(
            checkpoint.attempt_id.as_str(),
            attempt.attempt_id.as_str(),
        ) || !checkpoint.binding.same_binding(binding) {
            return Some(AgentExecutionValidationError::CheckpointBindingMismatch);
        }
        let checkpoint_pin = checkpoint.candidate_pin();
        let attempt_pin = attempt.candidate_pin();
        if !checkpoint_pin.same_pin(&attempt_pin) {
            return Some(AgentExecutionValidationError::CheckpointCandidateMismatch);
        }
    }
    if let Some(error) = &attempt.error {
        if error.validate().is_err() {
            return Some(AgentExecutionValidationError::InvalidAttemptError);
        }
        let execution_mismatch = match &error.context.execution_id {
            Some(x) => !str_eq(x.as_str(), execution_id),
            None => false,
        };
        let attempt_mismatch = match &error.context.attempt_id {
            Some(a) => !str_eq(a.as_str(), attempt.attempt_id.as_str()),
            None => false,
        };
        if execution_mismatch || attempt_mismatch {
            return Some(AgentExecutionValidationError::ErrorContextBindingMismatch);
        }
    }
    None
}

// ----- Checks of an attempt against the ones listed before it -----

/// The text fields that must not repeat across the attempts of an execution.
#[derive(Clone, Copy, PartialEq, Eq, Structural)]
pub enum AttemptKey {
    AttemptId,
    TaskIdempotencyKey,
    DeliveryIdempotencyKey,
    PayloadDigest,
}

/// The content of the named text field of an attempt.
pub open spec fn key_of(attempt: AgentAttemptV2, key: AttemptKey) -> Seq<char> {
    match key {
        AttemptKey::AttemptId => attempt.attempt_id@,
        AttemptKey::TaskIdempotencyKey => attempt.task_idempotency_key@,
        AttemptKey::DeliveryIdempotencyKey => attempt.delivery_idempotency_key@,
        AttemptKey::PayloadDigest => attempt.payload_digest@,
    }
}

fn key_str(attempt: &AgentAttemptV2, key: AttemptKey) -> (res: &str)
    ensures
        res@ == key_of(*attempt, key),
{
    match key {
        AttemptKey::AttemptId => attempt.attempt_id.as_str(),
        AttemptKey::TaskIdempotencyKey => attempt.task_idempotency_key.as_str(),
        AttemptKey::DeliveryIdempotencyKey => attempt.delivery_idempotency_key.as_str(),
        AttemptKey::PayloadDigest => attempt.payload_digest.as_str(),
    }
}

/// An attempt before `i` has the same `key` as attempt `i`.
pub open spec fn repeats_key(attempts: Seq<AgentAttemptV2>, i: int, key: AttemptKey) -> bool {
    exists|j: int| 0 <= j < i && key_of(#[trigger] attempts[j], key) == key_of(attempts[i], key)
}

fn key_repeats(attempts: &Vec<AgentAttemptV2>, i: usize, key: AttemptKey) -> (res: bool)
    requires
        i < attempts@.len(),
    ensures
        res == repeats_key(attempts@, i as int, key),
{
    let own = key_str(&attempts[i], key);
    let mut j: usize = 0;
    while j < i
        invariant
            i < attempts@.len(),
            own@ == key_of(attempts@[i as int], key),
            j <= i,
            forall|k: int| 0 <= k < j ==> key_of(#[trigger] attempts@[k], key) != own@,
        decreases i - j,
    {
        if str_eq(key_str(&attempts[j], key), own) {
            assert(key_of(attempts@[j as int], key) == key_of(attempts@[i as int], key));
            return true;
        }
        j = j + 1;
    }
    false
}

/// An attempt before `i` has the same number as attempt `i`.
pub open spec fn repeats_number(attempts: Seq<AgentAttemptV2>, i: int) -> bool {
    exists|j: int| 0 <= j < i && (#[trigger] attempts[j]).attempt_number == attempts[i].attempt_number
}

fn number_repeats(attempts: &Vec<AgentAttemptV2>, i: usize) -> (res: bool)
    requires
        i < attempts@.len(),
    ensures
        res == repeats_number(attempts@, i as int),
{
    let own = attempts[i].attempt_number;
    let mut j: usize = 0;
    while j < i
        invariant
            i < attempts@.len(),
            own == attempts@[i as int].attempt_number,
            j <= i,
            forall|k: int| 0 <= k < j ==> (#[trigger] attempts@[k]).attempt_number != own,
        decreases i - j,
    {
        if attempts[j].attempt_number == own {
            return true;
        }
        j = j + 1;
    }
    false
}

impl AgentExecutionV2 {
    /// The first problem with attempt `i`, taken with the attempts listed
    /// before it, in the order the checks run.
    pub open spec fn attempt_error(&self, i: int) -> Option<AgentExecutionValidationError> {
        let attempts = self.attempts@;
        let attempt = attempts[i];
        if let Some(e) = attempt_keys_error(attempt, self.binding) {
            Some(e)
        } else if repeats_key(attempts, i, AttemptKey::TaskIdempotencyKey) {
            Some(AgentExecutionValidationError::DuplicateAttemptIdempotencyKey)
        } else if repeats_key(attempts, i, AttemptKey::DeliveryIdempotencyKey) {
            Some(AgentExecutionValidationError::DuplicateAttemptDeliveryIdempotencyKey)
        } else if repeats_key(attempts, i, AttemptKey::PayloadDigest) {
            Some(AgentExecutionValidationError::DuplicateAttemptPayloadDigest)
        } else if let Some(e) = attempt_lifecycle_error(attempt, self.execution_id@, self.sequence) {
            Some(e)
        } else if repeats_key(attempts, i, AttemptKey::AttemptId) {
            Some(AgentExecutionValidationError::DuplicateAttemptId)
        } else if repeats_number(attempts, i) {
            Some(AgentExecutionValidationError::DuplicateAttemptNumber)
        } else {
            attempt_identity_error(attempt, self.execution_id@, self.binding)
        }
    }

    /// The first problem among the first `n` attempts.
    pub open spec fn attempts_prefix_error(&self, n: nat) -> Option<AgentExecutionValidationError>
        decreases n,
    {
        if n == 0 {
            None
        } else {
            match self.attempts_prefix_error((n - 1) as nat) {
                Some(e) => Some(e),
                None => self.attempt_error(n - 1),
            }
        }
    }

    fn check_attempt(&self, i: usize) -> (res: Option<AgentExecutionValidationError>)
        requires
            i < self.attempts@.len(),
        ensures
            res == self.attempt_error(i as int),
    {
        let attempt = &self.attempts[i];
        if let Some(e) = check_attempt_keys(attempt, &self.binding) {
            return Some(e);
        }
        if key_repeats(&self.attempts, i, AttemptKey::TaskIdempotencyKey) {
            return Some(AgentExecutionValidationError::DuplicateAttemptIdempotencyKey);
        }
        if key_repeats(&self.attempts, i, AttemptKey::DeliveryIdempotencyKey) {
            return Some(AgentExecutionValidationError::DuplicateAttemptDeliveryIdempotencyKey);
        }
        if key_repeats(&self.attempts, i, AttemptKey::PayloadDigest) {
            return Some(AgentExecutionValidationError::DuplicateAttemptPayloadDigest);
        }
        if let Some(e) = check_attempt_lifecycle(attempt, self.execution_id.as_str(), self.sequence) {
            return Some(e);
        }
        if key_repeats(&self.attempts, i, AttemptKey::AttemptId) {
            return Some(AgentExecutionValidationError::DuplicateAttemptId);
        }
        if number_repeats(&self.attempts, i) {
            return Some(AgentExecutionValidationError::DuplicateAttemptNumber);
        }
        check_attempt_identity(attempt, self.execution_id.as_str(), &self.binding)
    }
}

proof fn lemma_attempts_error_stable(execution: AgentExecutionV2, m: nat, n: nat)
    requires
        m <= n,
        execution.attempts_prefix_error(m) is Some,
    ensures
        execution.attempts_prefix_error(n) == execution.attempts_prefix_error(m),
    decreases n - m,
{
    if m < n {
        lemma_attempts_error_stable(execution, m, (n - 1) as nat);
    }
}

proof fn lemma_attempts_error_free(execution: AgentExecutionV2, m: nat, n: nat)
    requires
        m <= n,
        execution.attempts_prefix_error(n) is None,
    ensures
        execution.attempts_prefix_error(m) is None,
    decreases n - m,
{
    if m < n {
        lemma_attempts_error_free(execution, m, (n - 1) as nat);
    }
}

// ----- Checks of the attempts in the order of their numbers -----

/// The first index at or after `from` whose attempt carries `number`.
pub open spec fn number_index(attempts: Seq<AgentAttemptV2>, number: int, from: int) -> Option<int>
    decreases attempts.len() - from,
{
    if from < 0 || from >= attempts.len() {
        None
    } else if attempts[from].attempt_number == number {
        Some(from)
    } else {
        number_index(attempts, number, from + 1)
    }
}

proof fn lemma_number_index_found(attempts: Seq<AgentAttemptV2>, number: int, from: int)
    requires
        0 <= from,
    ensures
        number_index(attempts, number, from) matches Some(i) ==> from <= i < attempts.len()
            && attempts[i].attempt_number == number,
        number_index(attempts, number, from) is None ==> forall|j: int|
            from <= j < attempts.len() ==> (#[trigger] attempts[j]).attempt_number != number,
    decreases attempts.len() - from,
{
    if from < attempts.len() && attempts[from].attempt_number != number {
        lemma_number_index_found(attempts, number, from + 1);
    }
}

fn find_number(attempts: &Vec<AgentAttemptV2>, number: u32) -> (res: Option<usize>)
    ensures
        match res {
            Some(i) => number_index(attempts@, number as int, 0) == Some(i as int),
            None => number_index(attempts@, number as int, 0) is None,
        },
{
    let mut i: usize = 0;
    while i < attempts.len()
        invariant
            i <= attempts@.len(),
            number_index(attempts@, number as int, 0) == number_index(
                attempts@,
                number as int,
                i as int,
            ),
        decreases attempts@.len() - i,
    {
        if attempts[i].attempt_number == number {
            return Some(i);
        }
        i = i + 1;
    }
    None
}

/// The lifecycle sequences an attempt claims: its start, its finish when that
/// differs, and its checkpoint.
pub open spec fn sequences_of(attempt: AgentAttemptV2) -> Seq<u64> {
    let started = seq![attempt.started_sequence];
    let finished = match attempt.finished_sequence {
        Some(f) => if f != attempt.started_sequence {
            seq![f]
        } else {
            Seq::<u64>::empty()
        },
        None => Seq::<u64>::empty(),
    };
    let checkpoint = match attempt.session {
        Some(c) => seq![c.sequence],
        None => Seq::<u64>::empty(),
    };
    started + finished + checkpoint
}

/// An attempt reuses a lifecycle sequence already in `seen` or claimed by
/// itself, or records a checkpoint outside its own span (after its start, no
/// later than its finish or, while it runs, the execution's sequence).
pub open spec fn lifecycle_invalid(attempt: AgentAttemptV2, seen: Seq<u64>, sequence: u64) -> bool {
    let started = attempt.started_sequence;
    ||| seen.contains(started)
    ||| (attempt.finished_sequence matches Some(f) && f != started && seen.contains(f))
    ||| (attempt.session matches Some(checkpoint) && ({
        let c = checkpoint.sequence;
        let bound = match attempt.finished_sequence {
            Some(f) => f,
            None => sequence,
        };
        ||| c <= started
        ||| c > bound
        ||| seen.contains(c)
        ||| (attempt.finished_sequence matches Some(f) && c == f)
    }))
}

/// A retry resumes the previous attempt as its kind says: a fresh attempt
/// after remediation of a block with no session, or the exact checkpoint
/// the previous attempt recorded.
pub open spec fn retry_kind_valid(previous: AgentAttemptV2, retry: crate::attempt::AgentAttemptRetryV2) -> bool {
    match retry.retry_kind {
        crate::task::AgentProcessRetryKindV2::Initial => false,
        crate::task::AgentProcessRetryKindV2::FreshAfterRemediation => previous.state
            == AgentAttemptState::Blocked && previous.session is None && retry.continuation is None,
        crate::task::AgentProcessRetryKindV2::ResumeFromCheckpoint => previous.session matches Some(
            checkpoint,
        ) && retry.continuation matches Some(continuation) && continuation.checkpoint_match(
            checkpoint,
        ),
    }
}

/// The next attempt leaves the slot, executor or provider of the previous
/// one, changes its resolved model, or clears it.
pub open spec fn pin_changed(previous: crate::selection::AgentCandidatePinV2, next: crate::selection::AgentCandidatePinV2) -> bool {
    ||| previous.selection_index != next.selection_index
    ||| previous.executor != next.executor
    ||| previous.provider != next.provider
    ||| match (previous.resolved(), next.resolved()) {
        (Some(p), Some(n)) => p != n,
        (Some(_), None) => true,
        _ => false,
    }
}

/// How attempt `attempt` continues `previous`, the attempt numbered just
/// before it (none for the first attempt).
pub open spec fn retry_error(previous: Option<AgentAttemptV2>, attempt: AgentAttemptV2) -> Option<
    AgentExecutionValidationError,
> {
    match previous {
        None => if attempt.retry is Some {
            Some(AgentExecutionValidationError::InvalidAttemptRetry)
        } else {
            None
        },
        Some(p) => if !(p.finished_sequence matches Some(f) && attempt.started_sequence > f) || !(
        p.state is Blocked || p.state is Indeterminate) {
            Some(AgentExecutionValidationError::InvalidAttemptRetry)
        } else if !(attempt.retry matches Some(r) && r.from_attempt_id@ == p.attempt_id@
            && retry_kind_valid(p, r)) {
            Some(AgentExecutionValidationError::InvalidAttemptRetry)
        } else if pin_changed(p.pin(), attempt.pin()) {
            Some(AgentExecutionValidationError::PinnedCandidateChanged)
        } else {
            None
        },
    }
}

fn check_retry(previous: Option<&AgentAttemptV2>, attempt: &AgentAttemptV2) -> (res: Option<
    AgentExecutionValidationError,
>)
    ensures
        res == retry_error(
            match previous {
                Some(p) => Some(*p),
                None => None,
            },
            *attempt,
        ),
{
    let p = match previous {
        None => {
            return if attempt.retry.is_some() {
                Some(AgentExecutionValidationError::InvalidAttemptRetry)
            } else {
                None
            };
        },
        Some(p) => p,
    };
    let started_after = match p.finished_sequence {
        Some(f) => attempt.started_sequence > f,
        None => false,
    };
    if !started_after || !(p.state == AgentAttemptState::Blocked || p.state
        == AgentAttemptState::Indeterminate) {
        return Some(AgentExecutionValidationError::InvalidAttemptRetry);
    }
    let retry_ok = match &attempt.retry {
        Some(r) => {
            str_eq(r.from_attempt_id.as_str(), p.attempt_id.as_str()) && match r.retry_kind {
                crate::task::AgentProcessRetryKindV2::Initial => false,
                crate::task::AgentProcessRetryKindV2::FreshAfterRemediation => {
                    p.state == AgentAttemptState::Blocked && p.session.is_none()
                        && r.continuation.is_none()
                },
                crate::task::AgentProcessRetryKindV2::ResumeFromCheckpoint => {
                    match (&p.session, &r.continuation) {
                        (Some(checkpoint), Some(continuation)) => continuation.matches_checkpoint(
                            checkpoint,
                        ),
                        _ => false,
                    }
                },
            }
        },
        None => false,
    };
    if !retry_ok {
        return Some(AgentExecutionValidationError::InvalidAttemptRetry);
    }
    let previous_pin = p.candidate_pin();
    let next_pin = attempt.candidate_pin();
    let changed = previous_pin.selection_index != next_pin.selection_index
        || previous_pin.executor != next_pin.executor || previous_pin.provider
        != next_pin.provider || match (previous_pin.resolved_model(), next_pin.resolved_model()) {
        (Some((pk, pp)), Some((nk, np))) => !(str_eq(pk, nk) && str_eq(pp, np)),
        (Some(_), None) => true,
        _ => false,
    };
    if changed {
        Some(AgentExecutionValidationError::PinnedCandidateChanged)
    } else {
        None
    }
}

fn seq_contains(values: &Vec<u64>, x: u64) -> (res: bool)
    ensures
        res == values@.contains(x),
{
    let mut i: usize = 0;
    while i < values.len()
        invariant
            i <= values@.len(),
            forall|j: int| 0 <= j < i ==> values@[j] != x,
        decreases values@.len() - i,
    {
        if values[i] == x {
            assert(values@[i as int] == x);
            return true;
        }
        i = i + 1;
    }
    false
}

fn check_lifecycle(attempt: &AgentAttemptV2, seen: &Vec<u64>, sequence: u64) -> (res: bool)
    ensures
        res == lifecycle_invalid(*attempt, seen@, sequence),
{
    let started = attempt.started_sequence;
    if seq_contains(seen, started) {
        return true;
    }
    if let Some(f) = attempt.finished_sequence {
        if f != started && seq_contains(seen, f) {
            return true;
        }
    }
    if let Some(checkpoint) = &attempt.session {
        let c = checkpoint.sequence;
        let bound = match attempt.finished_sequence {
            Some(f) => f,
            None => sequence,
        };
        let same_as_finish = match attempt.finished_sequence {
            Some(f) => c == f,
            None => false,
        };
        return c <= started || c > bound || seq_contains(seen, c) || same_as_finish;
    }
    false
}

impl AgentExecutionV2 {
    /// The attempt numbered `k + 1`, the `k`-th in number order.
    pub open spec fn ordered(&self, k: int) -> Option<AgentAttemptV2> {
        match number_index(self.attempts@, k + 1, 0) {
            Some(i) => Some(self.attempts@[i]),
            None => None,
        }
    }

    /// The lifecycle sequences claimed by the first `k` attempts in number
    /// order.
    pub open spec fn lifecycle_prefix(&self, k: nat) -> Seq<u64>
        decreases k,
    {
        if k == 0 {
            Seq::<u64>::empty()
        } else {
            self.lifecycle_prefix((k - 1) as nat) + match self.ordered(k - 1) {
                Some(a) => sequences_of(a),
                None => Seq::<u64>::empty(),
            }
        }
    }

    /// The problem with the `k`-th attempt in number order: a gap in the
    /// numbers, a reused or misplaced lifecycle sequence, or a break in the
    /// chain of retries.
    pub open spec fn ordered_step_error(&self, k: int) -> Option<AgentExecutionValidationError> {
        match self.ordered(k) {
            None => Some(AgentExecutionValidationError::AttemptNumbersNotContiguous),
            Some(attempt) => if lifecycle_invalid(
                attempt,
                self.lifecycle_prefix(k as nat),
                self.sequence,
            ) {
                Some(AgentExecutionValidationError::AttemptSequenceInvalid)
            } else {
                retry_error(
                    if k == 0 {
                        None
                    } else {
                        self.ordered(k - 1)
                    },
                    attempt,
                )
            },
        }
    }

    /// The first problem among the first `n` attempts in number order.
    pub open spec fn ordered_prefix_error(&self, n: nat) -> Option<AgentExecutionValidationError>
        decreases n,
    {
        if n == 0 {
            None
        } else {
            match self.ordered_prefix_error((n - 1) as nat) {
                Some(e) => Some(e),
                None => self.ordered_step_error(n - 1),
            }
        }
    }

    fn check_ordered(&self) -> (res: Option<AgentExecutionValidationError>)
        requires
            self.attempts@.len() <= MAX_AGENT_PROCESS_ATTEMPTS_PER_EXECUTION,
        ensures
            res == self.ordered_prefix_error(self.attempts@.len()),
    {
        let n = self.attempts.len();
        let mut seen: Vec<u64> = Vec::new();
        let mut previous: Option<usize> = None;
        let mut k: usize = 0;
        while k < n
            invariant
                n == self.attempts@.len(),
                n <= MAX_AGENT_PROCESS_ATTEMPTS_PER_EXECUTION,
                k <= n,
                seen@ == self.lifecycle_prefix(k as nat),
                self.ordered_prefix_error(k as nat) is None,
                k == 0 ==> previous is None,
                k > 0 ==> (previous matches Some(p) && p < n && self.ordered(k - 1) == Some(
                    self.attempts@[p as int],
                )),
            decreases n - k,
        {
            let found = find_number(&self.attempts, (k + 1) as u32);
            let idx = match found {
                Some(i) => i,
                None => {
                    proof {
                        lemma_ordered_error_stable(*self, (k + 1) as nat, n as nat);
                    }
                    return Some(AgentExecutionValidationError::AttemptNumbersNotContiguous);
                },
            };
            proof {
                lemma_number_index_found(self.attempts@, k + 1, 0);
            }
            let attempt = &self.attempts[idx];
            assert(self.ordered(k as int) == Some(*attempt));
            if check_lifecycle(attempt, &seen, self.sequence) {
                proof {
                    lemma_ordered_error_stable(*self, (k + 1) as nat, n as nat);
                }
                return Some(AgentExecutionValidationError::AttemptSequenceInvalid);
            }
            let prev_ref: Option<&AgentAttemptV2> = match previous {
                Some(p) => Some(&self.attempts[p]),
                None => None,
            };
            let retry = check_retry(prev_ref, attempt);
            if retry.is_some() {
                proof {
                    lemma_ordered_error_stable(*self, (k + 1) as nat, n as nat);
                }
                return retry;
            }
            seen.push(attempt.started_sequence);
            if let Some(f) = attempt.finished_sequence {
                if f != attempt.started_sequence {
                    seen.push(f);
                }
            }
            if let Some(checkpoint) = &attempt.session {
                seen.push(checkpoint.sequence);
            }
            assert(seen@ =~= self.lifecycle_prefix((k + 1) as nat));
            previous = Some(idx);
            k = k + 1;
        }
        None
    }
}

proof fn lemma_ordered_error_stable(execution: AgentExecutionV2, m: nat, n: nat)
    requires
        m <= n,
        execution.ordered_prefix_error(m) is Some,
    ensures
        execution.ordered_prefix_error(n) == execution.ordered_prefix_error(m),
    decreases n - m,
{
    if m < n {
        lemma_ordered_error_stable(execution, m, (n - 1) as nat);
    }
}

proof fn lemma_ordered_error_free(execution: AgentExecutionV2, m: nat, n: nat)
    requires
        m <= n,
        execution.ordered_prefix_error(n) is None,
    ensures
        execution.ordered_prefix_error(m) is None,
    decreases n - m,
{
    if m < n {
        lemma_ordered_error_free(execution, m, (n - 1) as nat);
    }
}

// ----- The execution as a whole -----

/// The first index at or after `from` whose attempt has ID `id`.
pub open spec fn id_index(attempts: Seq<AgentAttemptV2>, id: Seq<char>, from: int) -> Option<int>
    decreases attempts.len() - from,
{
    if from < 0 || from >= attempts.len() {
        None
    } else if attempts[from].attempt_id@ == id {
        Some(from)
    } else {
        id_index(attempts, id, from + 1)
    }
}

fn find_id(attempts: &Vec<AgentAttemptV2>, id: &str) -> (res: Option<usize>)
    ensures
        match res {
            Some(i) => id_index(attempts@, id@, 0) == Some(i as int) && i < attempts@.len(),
            None => id_index(attempts@, id@, 0) is None,
        },
{
    let mut i: usize = 0;
    while i < attempts.len()
        invariant
            i <= attempts@.len(),
            id_index(attempts@, id@, 0) == id_index(attempts@, id@, i as int),
        decreases attempts@.len() - i,
    {
        if str_eq(attempts[i].attempt_id.as_str(), id) {
            return Some(i);
        }
        i = i + 1;
    }
    None
}

/// Among the first `n` attempts, the index of the last one with the greatest
/// attempt number.
pub open spec fn latest_index(attempts: Seq<AgentAttemptV2>, n: nat) -> Option<int>
    decreases n,
{
    if n == 0 {
        None
    } else {
        match latest_index(attempts, (n - 1) as nat) {
            None => Some(n - 1),
            Some(j) => if attempts[n - 1].attempt_number >= attempts[j].attempt_number {
                Some(n - 1)
            } else {
                Some(j)
            },
        }
    }
}

proof fn lemma_latest_index_bounds(attempts: Seq<AgentAttemptV2>, n: nat)
    ensures
        latest_index(attempts, n) matches Some(j) ==> 0 <= j < n,
        n > 0 ==> latest_index(attempts, n) is Some,
    decreases n,
{
    if n > 0 {
        lemma_latest_index_bounds(attempts, (n - 1) as nat);
    }
}

fn find_latest(attempts: &Vec<AgentAttemptV2>) -> (res: Option<usize>)
    ensures
        match res {
            Some(i) => latest_index(attempts@, attempts@.len()) == Some(i as int) && i
                < attempts@.len(),
            None => latest_index(attempts@, attempts@.len()) is None,
        },
{
    let mut best: Option<usize> = None;
    let mut i: usize = 0;
    while i < attempts.len()
        invariant
            i <= attempts@.len(),
            match best {
                Some(b) => latest_index(attempts@, i as nat) == Some(b as int) && b < i,
                None => latest_index(attempts@, i as nat) is None,
            },
        decreases attempts@.len() - i,
    {
        proof {
            lemma_latest_index_bounds(attempts@, i as nat);
        }
        best = match best {
            None => Some(i),
            Some(b) => if attempts[i].attempt_number >= attempts[b].attempt_number {
                Some(i)
            } else {
                Some(b)
            },
        };
        i = i + 1;
    }
    best
}

impl AgentExecutionV2 {
    /// The attempt that `active_attempt_id` names.
    pub open spec fn active_attempt(&self) -> Option<AgentAttemptV2> {
        match self.active_attempt_id {
            Some(id) => match id_index(self.attempts@, id@, 0) {
                Some(i) => Some(self.attempts@[i]),
                None => None,
            },
            None => None,
        }
    }

    /// The attempt with the greatest number.
    pub open spec fn latest_attempt(&self) -> Option<AgentAttemptV2> {
        match latest_index(self.attempts@, self.attempts@.len()) {
            Some(i) => Some(self.attempts@[i]),
            None => None,
        }
    }

    /// A queued execution has not started; a probing, blocked or running one
    /// has started and not finished; a terminal one has both timestamps.
    pub open spec fn timestamps_coherent(&self) -> bool {
        match self.state {
            AgentExecutionState::Queued => self.started_at is None && self.finished_at is None,
            AgentExecutionState::Probing | AgentExecutionState::Blocked
            | AgentExecutionState::Running => self.started_at is Some && self.finished_at is None,
            _ => self.started_at is Some && self.finished_at is Some,
        }
    }

    /// Schema, identity, idempotency key, sequence, attempt count,
    /// timestamps and binding.
    pub open spec fn header_error(&self) -> Option<AgentExecutionValidationError> {
        if self.schema_version@ != AGENT_EXECUTION_SCHEMA_V2@ {
            Some(AgentExecutionValidationError::WrongSchemaVersion)
        } else if is_blank(self.execution_id@) || is_blank(self.request_id@) {
            Some(AgentExecutionValidationError::EmptyIdentity)
        } else if idempotency_key(self.idempotency_key@) is Err {
            Some(AgentExecutionValidationError::InvalidIdempotencyKey)
        } else if self.sequence == 0 {
            Some(AgentExecutionValidationError::InvalidLifecycleSequence)
        } else if self.attempts@.len() > MAX_AGENT_PROCESS_ATTEMPTS_PER_EXECUTION {
            Some(AgentExecutionValidationError::TooManyAttempts)
        } else if is_blank(self.created_at@) || is_blank(self.updated_at@) || !absent_or_non_blank(
            self.started_at,
        ) || !absent_or_non_blank(self.finished_at) {
            Some(AgentExecutionValidationError::EmptyExecutionTimestamp)
        } else if !self.timestamps_coherent() {
            Some(AgentExecutionValidationError::ExecutionTimestampStateMismatch)
        } else if !self.binding.valid() {
            Some(AgentExecutionValidationError::InvalidBinding)
        } else {
            None
        }
    }

    fn check_header(&self) -> (res: Option<AgentExecutionValidationError>)
        ensures
            res == self.header_error(),
    {
        if !str_eq(self.schema_version.as_str(), AGENT_EXECUTION_SCHEMA_V2) {
            return Some(AgentExecutionValidationError::WrongSchemaVersion);
        }
        if blank(self.execution_id.as_str()) || blank(self.request_id.as_str()) {
            return Some(AgentExecutionValidationError::EmptyIdentity);
        }
        if validate_idempotency_key(self.idempotency_key.as_str()).is_err() {
            return Some(AgentExecutionValidationError::InvalidIdempotencyKey);
        }
        if self.sequence == 0 {
            return Some(AgentExecutionValidationError::InvalidLifecycleSequence);
        }
        if self.attempts.len() > MAX_AGENT_PROCESS_ATTEMPTS_PER_EXECUTION {
            return Some(AgentExecutionValidationError::TooManyAttempts);
        }
        if blank(self.created_at.as_str()) || blank(self.updated_at.as_str())
            || !opt_absent_or_non_blank(&self.started_at) || !opt_absent_or_non_blank(
            &self.finished_at,
        ) {
            return Some(AgentExecutionValidationError::EmptyExecutionTimestamp);
        }
        let coherent = match self.state {
            AgentExecutionState::Queued => self.started_at.is_none() && self.finished_at.is_none(),
            AgentExecutionState::Probing | AgentExecutionState::Blocked
            | AgentExecutionState::Running => self.started_at.is_some()
                && self.finished_at.is_none(),
            _ => self.started_at.is_some() && self.finished_at.is_some(),
        };
        if !coherent {
            return Some(AgentExecutionValidationError::ExecutionTimestampStateMismatch);
        }
        if !self.binding.is_valid() {
            return Some(AgentExecutionValidationError::InvalidBinding);
        }
        None
    }

    /// Probing and running executions name an active attempt in the matching
    /// state; every other state names none.
    pub open spec fn active_coherent(&self) -> bool {
        match self.state {
            AgentExecutionState::Probing => self.active_attempt() matches Some(a) && a.state
                == AgentAttemptState::Probing,
            AgentExecutionState::Running => self.active_attempt() matches Some(a) && (a.state
                == AgentAttemptState::Starting || a.state == AgentAttemptState::Running || a.state
                == AgentAttemptState::RepairingOutput),
            _ => self.active_attempt() is None,
        }
    }

    /// Output and error fit the state.
    pub open spec fn payload_coherent(&self) -> bool {
        match self.state {
            AgentExecutionState::Queued | AgentExecutionState::Probing
            | AgentExecutionState::Running => self.output is None && self.error is None,
            AgentExecutionState::Blocked => self.output is None && self.error is Some,
            AgentExecutionState::Completed => self.output is Some && self.error is None,
            AgentExecutionState::Failed => self.output is None && (self.error matches Some(e)
                && e.code != AgentErrorCode::Cancelled && e.code
                != AgentErrorCode::ExecutionIndeterminate),
            AgentExecutionState::Cancelled => self.output is None && (self.error matches Some(e)
                && e.code == AgentErrorCode::Cancelled),
            AgentExecutionState::Indeterminate => self.output is None && (self.error matches Some(
                e,
            ) && e.code == AgentErrorCode::ExecutionIndeterminate),
        }
    }

    /// A terminal execution ends in the state of its latest attempt; a
    /// failure or cancellation before spawn carries that attempt's error.
    pub open spec fn terminal_attempt_coherent(&self) -> bool {
        match self.state {
            AgentExecutionState::Completed => self.latest_attempt() matches Some(a) && a.state
                == AgentAttemptState::Completed,
            AgentExecutionState::Failed => self.latest_attempt() matches Some(a) && (a.state
                == AgentAttemptState::Failed || (a.state == AgentAttemptState::DispatchRejected
                && crate::attempt::same_opt_error(self.error, a.error))),
            AgentExecutionState::Cancelled => self.latest_attempt() matches Some(a) && (a.state
                == AgentAttemptState::Cancelled || (a.state == AgentAttemptState::DispatchCancelled
                && crate::attempt::same_opt_error(self.error, a.error))),
            AgentExecutionState::Indeterminate => self.latest_attempt() matches Some(a) && a.state
                == AgentAttemptState::Indeterminate,
            _ => true,
        }
    }

    /// The execution's own error, output, active attempt and terminal state.
    pub open spec fn state_error(&self) -> Option<AgentExecutionValidationError> {
        if self.error matches Some(e) && e.validation() is Err {
            Some(AgentExecutionValidationError::InvalidExecutionError)
        } else if self.error matches Some(e) && (e.context.execution_id matches Some(x) && x@
            != self.execution_id@) {
            Some(AgentExecutionValidationError::ErrorContextBindingMismatch)
        } else if self.output matches Some(o) && !o.valid() {
            Some(AgentExecutionValidationError::InvalidOutput)
        } else if self.active_attempt_id matches Some(id) && id_index(self.attempts@, id@, 0) is None {
            Some(AgentExecutionValidationError::ActiveAttemptNotFound)
        } else if !self.active_coherent() {
            Some(AgentExecutionValidationError::ExecutionStateActiveAttemptMismatch)
        } else if !self.payload_coherent() {
            Some(AgentExecutionValidationError::ExecutionStatePayloadMismatch)
        } else if self.state.is_terminal() && !self.terminal_attempt_coherent() {
            Some(AgentExecutionValidationError::ExecutionTerminalAttemptMismatch)
        } else {
            None
        }
    }

    fn check_state(&self) -> (res: Option<AgentExecutionValidationError>)
        ensures
            res == self.state_error(),
    {
        if let Some(error) = &self.error {
            if error.validate().is_err() {
                return Some(AgentExecutionValidationError::InvalidExecutionError);
            }
            let mismatch = match &error.context.execution_id {
                Some(x) => !str_eq(x.as_str(), self.execution_id.as_str()),
                None => false,
            };
            if mismatch {
                return Some(AgentExecutionValidationError::ErrorContextBindingMismatch);
            }
        }
        if let Some(output) = &self.output {
            if !output.is_valid() {
                return Some(AgentExecutionValidationError::InvalidOutput);
            }
        }
        let active: Option<usize> = match &self.active_attempt_id {
            Some(id) => {
                let found = find_id(&self.attempts, id.as_str());
                if found.is_none() {
                    return Some(AgentExecutionValidationError::ActiveAttemptNotFound);
                }
                found
            },
            None => None,
        };
        let active_state: Option<AgentAttemptState> = match active {
            Some(i) => Some(self.attempts[i].state),
            None => None,
        };
        let active_ok = match self.state {
            AgentExecutionState::Probing => active_state == Some(AgentAttemptState::Probing),
            AgentExecutionState::Running => active_state == Some(AgentAttemptState::Starting)
                || active_state == Some(AgentAttemptState::Running) || active_state == Some(
                AgentAttemptState::RepairingOutput,
            ),
            _ => active_state.is_none(),
        };
        if !active_ok {
            return Some(AgentExecutionValidationError::ExecutionStateActiveAttemptMismatch);
        }
        let payload_ok = match self.state {
            AgentExecutionState::Queued | AgentExecutionState::Probing
            | AgentExecutionState::Running => self.output.is_none() && self.error.is_none(),
            AgentExecutionState::Blocked => self.output.is_none() && self.error.is_some(),
            AgentExecutionState::Completed => self.output.is_some() && self.error.is_none(),
            AgentExecutionState::Failed => self.output.is_none() && match &self.error {
                Some(e) => e.code != AgentErrorCode::Cancelled && e.code
                    != AgentErrorCode::ExecutionIndeterminate,
                None => false,
            },
            AgentExecutionState::Cancelled => self.output.is_none() && match &self.error {
                Some(e) => e.code == AgentErrorCode::Cancelled,
                None => false,
            },
            AgentExecutionState::Indeterminate => self.output.is_none() && match &self.error {
                Some(e) => e.code == AgentErrorCode::ExecutionIndeterminate,
                None => false,
            },
        };
        if !payload_ok {
            return Some(AgentExecutionValidationError::ExecutionStatePayloadMismatch);
        }
        if self.state.is_terminal() {
            let latest_ok = match find_latest(&self.attempts) {
                Some(i) => {
                    let latest = &self.attempts[i];
                    match self.state {
                        AgentExecutionState::Completed => latest.state
                            == AgentAttemptState::Completed,
                        AgentExecutionState::Failed => latest.state == AgentAttemptState::Failed
                            || (latest.state == AgentAttemptState::DispatchRejected
                            && crate::attempt::opt_error_eq(&self.error, &latest.error)),
                        AgentExecutionState::Cancelled => latest.state
                            == AgentAttemptState::Cancelled || (latest.state
                            == AgentAttemptState::DispatchCancelled
                            && crate::attempt::opt_error_eq(&self.error, &latest.error)),
                        AgentExecutionState::Indeterminate => latest.state
                            == AgentAttemptState::Indeterminate,
                        _ => true,
                    }
                },
                None => false,
            };
            if !latest_ok {
                return Some(AgentExecutionValidationError::ExecutionTerminalAttemptMismatch);
            }
        }
        None
    }

    pub open spec fn validation(&self) -> Result<(), AgentExecutionValidationError> {
        if let Some(e) = self.header_error() {
            Err(e)
        } else if let Some(e) = self.attempts_prefix_error(self.attempts@.len()) {
            Err(e)
        } else if let Some(e) = self.ordered_prefix_error(self.attempts@.len()) {
            Err(e)
        } else if let Some(e) = self.state_error() {
            Err(e)
        } else {
            Ok(())
        }
    }

    pub fn validate(&self) -> (res: Result<(), AgentExecutionValidationError>)
        ensures
            res == self.validation(),
    {
        if let Some(e) = self.check_header() {
            return Err(e);
        }
        let mut i: usize = 0;
        while i < self.attempts.len()
            invariant
                i <= self.attempts@.len(),
                self.header_error() is None,
                self.attempts_prefix_error(i as nat) is None,
            decreases self.attempts@.len() - i,
        {
            if let Some(e) = self.check_attempt(i) {
                proof {
                    lemma_attempts_error_stable(*self, (i + 1) as nat, self.attempts@.len());
                }
                return Err(e);
            }
            i = i + 1;
        }
        if let Some(e) = self.check_ordered() {
            return Err(e);
        }
        if let Some(e) = self.check_state() {
            return Err(e);
        }
        Ok(())
    }
}

// ----- Against the request, and between successive snapshots -----

/// A valid execution numbers its attempts `1..=n`, so each position in
/// number order holds an attempt.
proof fn lemma_valid_attempts_are_ordered(execution: AgentExecutionV2, k: int)
    requires
        execution.ordered_prefix_error(execution.attempts@.len()) is None,
        0 <= k < execution.attempts@.len(),
    ensures
        execution.ordered(k) is Some,
{
    lemma_ordered_error_free(execution, (k + 1) as nat, execution.attempts@.len());
}

impl AgentExecutionV2 {
    /// The request's pin rules, checkpoint and continuation checks for the
    /// `k`-th attempt in number order.
    pub open spec fn request_step_error(&self, request: AgentTaskRequestV2, k: int) -> Option<
        AgentExecutionValidationError,
    > {
        match self.ordered(k) {
            None => None,
            Some(attempt) => {
                let previous = if k == 0 {
                    None
                } else {
                    match self.ordered(k - 1) {
                        Some(p) => Some(p.pin()),
                        None => None,
                    }
                };
                match request.selection.transition(previous, attempt.pin()) {
                    Err(AgentCandidatePinValidationError::CandidateNotAllowed) => Some(
                        AgentExecutionValidationError::CandidateNotAllowed,
                    ),
                    Err(_) => Some(AgentExecutionValidationError::PinnedCandidateChanged),
                    Ok(_) => if attempt.session matches Some(checkpoint)
                        && checkpoint.request_validation(request) is Err {
                        Some(AgentExecutionValidationError::CandidateNotAllowed)
                    } else if attempt.retry matches Some(retry) && (retry.continuation matches Some(
                        continuation,
                    ) && !continuation.request_match(request)) {
                        Some(AgentExecutionValidationError::InvalidAttemptRetry)
                    } else {
                        None
                    },
                }
            },
        }
    }

    /// The first request problem among the first `n` attempts in number
    /// order.
    pub open spec fn request_prefix_error(&self, request: AgentTaskRequestV2, n: nat) -> Option<
        AgentExecutionValidationError,
    >
        decreases n,
    {
        if n == 0 {
            None
        } else {
            match self.request_prefix_error(request, (n - 1) as nat) {
                Some(e) => Some(e),
                None => self.request_step_error(request, n - 1),
            }
        }
    }

    /// The execution is valid and belongs to the request: same request ID,
    /// idempotency key and binding, and every attempt ran a candidate the
    /// request allows, pinned once and replayed.
    pub open spec fn request_validation(&self, request: AgentTaskRequestV2) -> Result<
        (),
        AgentExecutionValidationError,
    > {
        match self.validation() {
            Err(e) => Err(e),
            Ok(_) => if self.request_id@ != request.request_id@ || self.idempotency_key@
                != request.idempotency_key@ || !self.binding.same(&request.binding) {
                Err(AgentExecutionValidationError::LogicalIdentityMismatch)
            } else if let Some(e) = self.request_prefix_error(request, self.attempts@.len()) {
                Err(e)
            } else {
                Ok(())
            },
        }
    }

    fn check_request_step(
        &self,
        request: &AgentTaskRequestV2,
        k: usize,
        previous: Option<&AgentAttemptV2>,
        attempt: &AgentAttemptV2,
    ) -> (res: Option<AgentExecutionValidationError>)
        requires
            self.ordered(k as int) == Some(*attempt),
            k == 0 ==> previous is None,
            k > 0 ==> (previous matches Some(p) && self.ordered(k - 1) == Some(*p)),
        ensures
            res == self.request_step_error(*request, k as int),
    {
        let pin = attempt.candidate_pin();
        let transition = match previous {
            Some(p) => {
                let previous_pin = p.candidate_pin();
                proof {
                    lemma_same_pins_transition_alike(
                        request.selection,
                        Some(previous_pin),
                        pin,
                        Some(p.pin()),
                        attempt.pin(),
                    );
                }
                request.selection.validate_candidate_pin_transition(Some(&previous_pin), &pin)
            },
            None => {
                proof {
                    lemma_same_pins_transition_alike(
                        request.selection,
                        None,
                        pin,
                        None,
                        attempt.pin(),
                    );
                }
                request.selection.validate_candidate_pin_transition(None, &pin)
            },
        };
        match transition {
            Err(AgentCandidatePinValidationError::CandidateNotAllowed) => {
                return Some(AgentExecutionValidationError::CandidateNotAllowed);
            },
            Err(_) => {
                return Some(AgentExecutionValidationError::PinnedCandidateChanged);
            },
            Ok(_) => {},
        }
        if let Some(checkpoint) = &attempt.session {
            if checkpoint.validate_for_request(request).is_err() {
                return Some(AgentExecutionValidationError::CandidateNotAllowed);
            }
        }
        if let Some(retry) = &attempt.retry {
            if let Some(continuation) = &retry.continuation {
                if !continuation.matches_request(request) {
                    return Some(AgentExecutionValidationError::InvalidAttemptRetry);
                }
            }
        }
        None
    }

    pub fn validate_for_request(&self, request: &AgentTaskRequestV2) -> (res: Result<
        (),
        AgentExecutionValidationError,
    >)
        ensures
            res == self.request_validation(*request),
    {
        self.validate()?;
        if !str_eq(self.request_id.as_str(), request.request_id.as_str()) || !str_eq(
            self.idempotency_key.as_str(),
            request.idempotency_key.as_str(),
        ) || !self.binding.same_binding(&request.binding) {
            return Err(AgentExecutionValidationError::LogicalIdentityMismatch);
        }
        let n = self.attempts.len();
        let mut previous: Option<usize> = None;
        let mut k: usize = 0;
        while k < n
            invariant
                n == self.attempts@.len(),
                n <= MAX_AGENT_PROCESS_ATTEMPTS_PER_EXECUTION,
                k <= n,
                self.validation() is Ok,
                !(self.request_id@ != request.request_id@ || self.idempotency_key@
                    != request.idempotency_key@ || !self.binding.same(&request.binding)),
                self.request_prefix_error(*request, k as nat) is None,
                k == 0 ==> previous is None,
                k > 0 ==> (previous matches Some(p) && p < n && self.ordered(k - 1) == Some(
                    self.attempts@[p as int],
                )),
            decreases n - k,
        {
            proof {
                lemma_valid_attempts_are_ordered(*self, k as int);
                lemma_number_index_found(self.attempts@, k + 1, 0);
            }
            let idx = match find_number(&self.attempts, (k + 1) as u32) {
                Some(i) => i,
                None => {
                    assert(false);
                    return Err(AgentExecutionValidationError::AttemptNumbersNotContiguous);
                },
            };
            let attempt = &self.attempts[idx];
            let prev_ref: Option<&AgentAttemptV2> = match previous {
                Some(p) => Some(&self.attempts[p]),
                None => None,
            };
            if let Some(e) = self.check_request_step(request, k, prev_ref, attempt) {
                proof {
                    lemma_request_error_stable(*self, *request, (k + 1) as nat, n as nat);
                }
                return Err(e);
            }
            previous = Some(idx);
            k = k + 1;
        }
        Ok(())
    }
}

proof fn lemma_request_error_stable(
    execution: AgentExecutionV2,
    request: AgentTaskRequestV2,
    m: nat,
    n: nat,
)
    requires
        m <= n,
        execution.request_prefix_error(request, m) is Some,
    ensures
        execution.request_prefix_error(request, n) == execution.request_prefix_error(request, m),
    decreases n - m,
{
    if m < n {
        lemma_request_error_stable(execution, request, m, (n - 1) as nat);
    }
}

/// Attempt lists with the same content, position by position.
pub open spec fn same_attempts(a: Seq<AgentAttemptV2>, b: Seq<AgentAttemptV2>) -> bool {
    a.len() == b.len() && forall|i: int| 0 <= i < a.len() ==> (#[trigger] a[i]).same(&b[i])
}

/// A later snapshot keeps the previous attempt found under the same ID:
/// unchanged if the previous one had ended, with the same invocation in any
/// case, and with a candidate pin the request lets follow the previous one.
pub open spec fn attempt_kept(
    previous: AgentAttemptV2,
    next_attempts: Seq<AgentAttemptV2>,
    request: AgentTaskRequestV2,
) -> bool {
    match id_index(next_attempts, previous.attempt_id@, 0) {
        None => false,
        Some(j) => {
            let next = next_attempts[j];
            &&& !(previous.state.is_terminal() && !previous.same(&next))
            &&& previous.same_invocation(&next)
            &&& request.selection.transition(Some(previous.pin()), next.pin()) is Ok
        },
    }
}

impl AgentExecutionV2 {
    /// Same content in every field.
    pub open spec fn same(&self, other: &AgentExecutionV2) -> bool {
        &&& self.schema_version@ == other.schema_version@
        &&& self.execution_id@ == other.execution_id@
        &&& self.request_id@ == other.request_id@
        &&& self.idempotency_key@ == other.idempotency_key@
        &&& self.sequence == other.sequence
        &&& self.binding.same(&other.binding)
        &&& self.state == other.state
        &&& opt_view(self.active_attempt_id) == opt_view(other.active_attempt_id)
        &&& same_attempts(self.attempts@, other.attempts@)
        &&& crate::attempt::same_opt_output(self.output, other.output)
        &&& crate::attempt::same_opt_error(self.error, other.error)
        &&& self.created_at@ == other.created_at@
        &&& opt_view(self.started_at) == opt_view(other.started_at)
        &&& opt_view(self.finished_at) == opt_view(other.finished_at)
        &&& self.updated_at@ == other.updated_at@
    }

    pub fn same_execution(&self, other: &AgentExecutionV2) -> (res: bool)
        ensures
            res == self.same(other),
    {
        if !(str_eq(self.schema_version.as_str(), other.schema_version.as_str()) && str_eq(
            self.execution_id.as_str(),
            other.execution_id.as_str(),
        ) && str_eq(self.request_id.as_str(), other.request_id.as_str()) && str_eq(
            self.idempotency_key.as_str(),
            other.idempotency_key.as_str(),
        ) && self.sequence == other.sequence && self.binding.same_binding(&other.binding)
            && self.state == other.state && opt_str_eq(
            &self.active_attempt_id,
            &other.active_attempt_id,
        ) && crate::attempt::opt_output_eq(&self.output, &other.output)
            && crate::attempt::opt_error_eq(&self.error, &other.error) && str_eq(
            self.created_at.as_str(),
            other.created_at.as_str(),
        ) && opt_str_eq(&self.started_at, &other.started_at) && opt_str_eq(
            &self.finished_at,
            &other.finished_at,
        ) && str_eq(self.updated_at.as_str(), other.updated_at.as_str())) {
            return false;
        }
        if self.attempts.len() != other.attempts.len() {
            return false;
        }
        let mut i: usize = 0;
        while i < self.attempts.len()
            invariant
                self.attempts@.len() == other.attempts@.len(),
                i <= self.attempts@.len(),
                forall|j: int| 0 <= j < i ==> (#[trigger] self.attempts@[j]).same(&other.attempts@[j]),
            decreases self.attempts@.len() - i,
        {
            if !self.attempts[i].same_attempt(&other.attempts[i]) {
                return false;
            }
            i = i + 1;
        }
        true
    }

    /// Every attempt of this snapshot is kept by `next`.
    pub open spec fn history_kept(&self, next: AgentExecutionV2, request: AgentTaskRequestV2) -> bool {
        forall|i: int|
            0 <= i < self.attempts@.len() ==> attempt_kept(
                #[trigger] self.attempts@[i],
                next.attempts@,
                request,
            )
    }

    /// How `next` follows this snapshot of the same request: an exact replay,
    /// or an advance that raises the sequence, adds at most one attempt,
    /// leaves a terminal execution alone, leaves a blocked one only by a new
    /// attempt, and keeps every earlier attempt.
    pub open spec fn successor(&self, next: AgentExecutionV2, request: AgentTaskRequestV2) -> Result<
        AgentExecutionUpdateKind,
        AgentExecutionValidationError,
    > {
        match self.request_validation(request) {
            Err(e) => Err(e),
            Ok(_) => match next.request_validation(request) {
                Err(e) => Err(e),
                Ok(_) => if self.same(&next) {
                    Ok(AgentExecutionUpdateKind::IdempotentReplay)
                } else if self.execution_id@ != next.execution_id@ || self.request_id@
                    != next.request_id@ || self.idempotency_key@ != next.idempotency_key@
                    || !self.binding.same(&next.binding) {
                    Err(AgentExecutionValidationError::LogicalIdentityMismatch)
                } else if next.sequence <= self.sequence || next.attempts@.len()
                    < self.attempts@.len() || next.attempts@.len() > self.attempts@.len() + 1 {
                    Err(AgentExecutionValidationError::NonMonotonicUpdate)
                } else if self.state.is_terminal() || (self.state == AgentExecutionState::Blocked
                    && next.attempts@.len() == self.attempts@.len()) {
                    Err(AgentExecutionValidationError::AttemptHistoryRewritten)
                } else if !self.history_kept(next, request) {
                    Err(AgentExecutionValidationError::AttemptHistoryRewritten)
                } else {
                    Ok(AgentExecutionUpdateKind::Advanced)
                },
            },
        }
    }

    fn check_kept(previous: &AgentAttemptV2, next: &AgentExecutionV2, request: &AgentTaskRequestV2) -> (res:
        bool)
        ensures
            res == attempt_kept(*previous, next.attempts@, *request),
    {
        let j = match find_id(&next.attempts, previous.attempt_id.as_str()) {
            Some(j) => j,
            None => {
                return false;
            },
        };
        let n = &next.attempts[j];
        if previous.state.is_terminal() && !previous.same_attempt(n) {
            return false;
        }
        if !previous.same_invocation_as(n) {
            return false;
        }
        let previous_pin = previous.candidate_pin();
        let next_pin = n.candidate_pin();
        proof {
            lemma_same_pins_transition_alike(
                request.selection,
                Some(previous_pin),
                next_pin,
                Some(previous.pin()),
                n.pin(),
            );
        }
        request.selection.validate_candidate_pin_transition(Some(&previous_pin), &next_pin).is_ok()
    }

    pub fn validate_successor(&self, next: &Self, request: &AgentTaskRequestV2) -> (res: Result<
        AgentExecutionUpdateKind,
        AgentExecutionValidationError,
    >)
        ensures
            res == self.successor(*next, *request),
    {
        self.validate_for_request(request)?;
        next.validate_for_request(request)?;
        if self.same_execution(next) {
            return Ok(AgentExecutionUpdateKind::IdempotentReplay);
        }
        if !str_eq(self.execution_id.as_str(), next.execution_id.as_str()) || !str_eq(
            self.request_id.as_str(),
            next.request_id.as_str(),
        ) || !str_eq(self.idempotency_key.as_str(), next.idempotency_key.as_str())
            || !self.binding.same_binding(&next.binding) {
            return Err(AgentExecutionValidationError::LogicalIdentityMismatch);
        }
        if next.sequence <= self.sequence || next.attempts.len() < self.attempts.len() {
            return Err(AgentExecutionValidationError::NonMonotonicUpdate);
        }
        if next.attempts.len() - self.attempts.len() > 1 {
            return Err(AgentExecutionValidationError::NonMonotonicUpdate);
        }
        if self.state.is_terminal() || (self.state == AgentExecutionState::Blocked
            && next.attempts.len() == self.attempts.len()) {
            return Err(AgentExecutionValidationError::AttemptHistoryRewritten);
        }
        let mut i: usize = 0;
        while i < self.attempts.len()
            invariant
                i <= self.attempts@.len(),
                self.successor(*next, *request) == (if self.history_kept(*next, *request) {
                    Ok::<AgentExecutionUpdateKind, AgentExecutionValidationError>(
                        AgentExecutionUpdateKind::Advanced,
                    )
                } else {
                    Err(AgentExecutionValidationError::AttemptHistoryRewritten)
                }),
                forall|k: int|
                    0 <= k < i ==> attempt_kept(#[trigger] self.attempts@[k], next.attempts@, *request),
            decreases self.attempts@.len() - i,
        {
            if !Self::check_kept(&self.attempts[i], next, request) {
                return Err(AgentExecutionValidationError::AttemptHistoryRewritten);
            }
            i = i + 1;
        }
        Ok(AgentExecutionUpdateKind::Advanced)
    }

    /// The only same-sequence terminal replacement allowed before Backend
    /// acknowledgement: a single-attempt execution rejected before spawn at
    /// sequence one, replaced by the same execution and invocation cancelled
    /// before spawn.
    pub open spec fn prestart_replacement_shape(&self, cancelled: AgentExecutionV2) -> bool {
        &&& self.attempts@.len() == 1
        &&& cancelled.attempts@.len() == 1
        &&& self.schema_version@ == cancelled.schema_version@
        &&& self.execution_id@ == cancelled.execution_id@
        &&& self.request_id@ == cancelled.request_id@
        &&& self.idempotency_key@ == cancelled.idempotency_key@
        &&& self.binding.same(&cancelled.binding)
        &&& self.created_at@ == cancelled.created_at@
        &&& self.sequence == 1
        &&& cancelled.sequence == 1
        &&& self.state == AgentExecutionState::Failed
        &&& cancelled.state == AgentExecutionState::Cancelled
        &&& {
            let rejected = self.attempts@[0];
            let won = cancelled.attempts@[0];
            &&& rejected.state == AgentAttemptState::DispatchRejected
            &&& won.state == AgentAttemptState::DispatchCancelled
            &&& rejected.attempt_id@ == won.attempt_id@
            &&& rejected.attempt_number == won.attempt_number
            &&& rejected.task_idempotency_key@ == won.task_idempotency_key@
            &&& rejected.delivery_idempotency_key@ == won.delivery_idempotency_key@
            &&& rejected.payload_digest@ == won.payload_digest@
            &&& rejected.started_sequence == won.started_sequence
            &&& rejected.finished_sequence == won.finished_sequence
            &&& rejected.delivery.same(&won.delivery)
            &&& rejected.selection_index == won.selection_index
            &&& rejected.executor == won.executor
            &&& rejected.provider == won.provider
            &&& opt_view(rejected.requested_model_key) == opt_view(won.requested_model_key)
            &&& opt_view(rejected.requested_provider_model_id) == opt_view(
                won.requested_provider_model_id,
            )
            &&& opt_view(rejected.resolved_model_key) == opt_view(won.resolved_model_key)
            &&& opt_view(rejected.resolved_provider_model_id) == opt_view(
                won.resolved_provider_model_id,
            )
            &&& rejected.retry is None
            &&& won.retry is None
            &&& rejected.session is None
            &&& won.session is None
        }
    }

    pub open spec fn prestart_replacement(
        &self,
        cancelled: AgentExecutionV2,
        request: AgentTaskRequestV2,
    ) -> Result<AgentPrestartCancellationReplacement, AgentExecutionValidationError> {
        match self.request_validation(request) {
            Err(e) => Err(e),
            Ok(_) => match cancelled.request_validation(request) {
                Err(e) => Err(e),
                Ok(_) => if self.prestart_replacement_shape(cancelled) {
                    Ok(AgentPrestartCancellationReplacement::CancellationWon)
                } else {
                    Err(AgentExecutionValidationError::InvalidPrestartCancellationReplacement)
                },
            },
        }
    }

    /// Validates the sole same-sequence terminal replacement allowed before
    /// Backend acknowledgement: an unacknowledged local kill-switch rejection
    /// is replaced when a Backend cancellation has already linearized.
    pub fn validate_prestart_cancellation_replacement(
        &self,
        cancelled: &Self,
        request: &AgentTaskRequestV2,
    ) -> (res: Result<AgentPrestartCancellationReplacement, AgentExecutionValidationError>)
        ensures
            res == self.prestart_replacement(*cancelled, *request),
    {
        self.validate_for_request(request)?;
        cancelled.validate_for_request(request)?;
        if self.attempts.len() == 0 || cancelled.attempts.len() == 0 {
            return Err(AgentExecutionValidationError::InvalidPrestartCancellationReplacement);
        }
        let rejected = &self.attempts[0];
        let won = &cancelled.attempts[0];
        let logical_identity_matches = str_eq(
            self.schema_version.as_str(),
            cancelled.schema_version.as_str(),
        ) && str_eq(self.execution_id.as_str(), cancelled.execution_id.as_str()) && str_eq(
            self.request_id.as_str(),
            cancelled.request_id.as_str(),
        ) && str_eq(self.idempotency_key.as_str(), cancelled.idempotency_key.as_str())
            && self.binding.same_binding(&cancelled.binding) && str_eq(
            self.created_at.as_str(),
            cancelled.created_at.as_str(),
        ) && self.sequence == 1 && cancelled.sequence == 1;
        let terminal_shapes_match = self.state == AgentExecutionState::Failed && cancelled.state
            == AgentExecutionState::Cancelled && self.attempts.len() == 1
            && cancelled.attempts.len() == 1 && rejected.state
            == AgentAttemptState::DispatchRejected && won.state
            == AgentAttemptState::DispatchCancelled;
        let invocation_identity_matches = str_eq(
            rejected.attempt_id.as_str(),
            won.attempt_id.as_str(),
        ) && rejected.attempt_number == won.attempt_number && str_eq(
            rejected.task_idempotency_key.as_str(),
            won.task_idempotency_key.as_str(),
        ) && str_eq(
            rejected.delivery_idempotency_key.as_str(),
            won.delivery_idempotency_key.as_str(),
        ) && str_eq(rejected.payload_digest.as_str(), won.payload_digest.as_str())
            && rejected.started_sequence == won.started_sequence && rejected.finished_sequence
            == won.finished_sequence && rejected.delivery.same_delivery(&won.delivery)
            && rejected.selection_index == won.selection_index && rejected.executor
            == won.executor && rejected.provider == won.provider && opt_str_eq(
            &rejected.requested_model_key,
            &won.requested_model_key,
        ) && opt_str_eq(&rejected.requested_provider_model_id, &won.requested_provider_model_id)
            && opt_str_eq(&rejected.resolved_model_key, &won.resolved_model_key) && opt_str_eq(
            &rejected.resolved_provider_model_id,
            &won.resolved_provider_model_id,
        ) && rejected.retry.is_none() && won.retry.is_none() && rejected.session.is_none()
            && won.session.is_none();
        if !logical_identity_matches || !terminal_shapes_match || !invocation_identity_matches {
            return Err(AgentExecutionValidationError::InvalidPrestartCancellationReplacement);
        }
        Ok(AgentPrestartCancellationReplacement::CancellationWon)
    }
}

impl PartialEq for AgentExecutionV2 {
    fn eq(&self, other: &Self) -> (res: bool) {
        self.same_execution(other)
    }
}

impl PartialEqSpecImpl for AgentExecutionV2 {
    open spec fn obeys_eq_spec() -> bool {
        true
    }

    open spec fn eq_spec(&self, other: &AgentExecutionV2) -> bool {
        self.same(other)
    }
}

// ----- Snapshots with the same content -----

/// Attempts with the same content, checked against bindings with the same
/// content, pass and fail each check on one attempt alike.
proof fn lemma_same_attempt_checks_alike(
    x: AgentAttemptV2,
    y: AgentAttemptV2,
    execution_id: Seq<char>,
    sequence: u64,
    bx: AgentExecutionBindingV2,
    by_: AgentExecutionBindingV2,
)
    requires
        x.same(&y),
        bx.same(&by_),
    ensures
        attempt_keys_error(x, bx) == attempt_keys_error(y, by_),
        attempt_lifecycle_error(x, execution_id, sequence) == attempt_lifecycle_error(
            y,
            execution_id,
            sequence,
        ),
        attempt_identity_error(x, execution_id, bx) == attempt_identity_error(
            y,
            execution_id,
            by_,
        ),
        sequences_of(x) == sequences_of(y),
        forall|seen: Seq<u64>| lifecycle_invalid(x, seen, sequence) == lifecycle_invalid(y, seen, sequence),
        x.pin().same(&y.pin()),
{
    crate::attempt::lemma_same_attempts_pin_alike(x, y);
    if let (Some(e), Some(f)) = (x.error, y.error) {
        crate::error::lemma_same_errors_judged_alike(e, f);
        crate::attempt::lemma_same_rejections_judged_alike(e, f, execution_id, x, y);
    }
    if let (Some(c), Some(d)) = (x.session, y.session) {
        crate::session::lemma_same_checkpoints_judged_alike(c, d, arbitrary());
    }
    assert(attempt_error_coherent(x, execution_id) == attempt_error_coherent(y, execution_id));
}

/// A retry continues attempts with the same content alike.
proof fn lemma_same_retries_judged_alike(
    px: Option<AgentAttemptV2>,
    py: Option<AgentAttemptV2>,
    x: AgentAttemptV2,
    y: AgentAttemptV2,
)
    requires
        x.same(&y),
        match (px, py) {
            (Some(a), Some(b)) => a.same(&b),
            (None, None) => true,
            _ => false,
        },
    ensures
        retry_error(px, x) == retry_error(py, y),
{
    crate::attempt::lemma_same_attempts_pin_alike(x, y);
    if let (Some(a), Some(b)) = (px, py) {
        crate::attempt::lemma_same_attempts_pin_alike(a, b);
        crate::selection::lemma_same_pins_judged_alike(arbitrary(), a.pin(), b.pin());
        crate::selection::lemma_same_pins_judged_alike(arbitrary(), x.pin(), y.pin());
        assert(pin_changed(a.pin(), x.pin()) == pin_changed(b.pin(), y.pin()));
        if let (Some(r), Some(q)) = (x.retry, y.retry) {
            if let (Some(c), Some(d)) = (r.continuation, q.continuation) {
                if let (Some(k), Some(l)) = (a.session, b.session) {
                    crate::session::lemma_same_continuations_judged_alike(c, d, k, l, arbitrary());
                }
            }
            assert(retry_kind_valid(a, r) == retry_kind_valid(b, q));
        }
    }
}

/// Attempt lists with the same content find the same positions by number,
/// by ID and for the latest attempt.
proof fn lemma_same_attempts_index_alike(a: Seq<AgentAttemptV2>, b: Seq<AgentAttemptV2>)
    requires
        same_attempts(a, b),
    ensures
        forall|number: int, from: int| #[trigger] number_index(a, number, from) == number_index(b, number, from),
        forall|id: Seq<char>, from: int| #[trigger] id_index(a, id, from) == id_index(b, id, from),
        forall|n: nat| n <= a.len() ==> #[trigger] latest_index(a, n) == latest_index(b, n),
{
    assert forall|number: int, from: int| #[trigger] number_index(a, number, from) == number_index(b, number, from) by {
        lemma_same_attempts_number_index(a, b, number, from);
    }
    assert forall|id: Seq<char>, from: int| #[trigger] id_index(a, id, from) == id_index(b, id, from) by {
        lemma_same_attempts_id_index(a, b, id, from);
    }
    assert forall|n: nat| n <= a.len() implies #[trigger] latest_index(a, n) == latest_index(b, n) by {
        lemma_same_attempts_latest_index(a, b, n);
    }
}

proof fn lemma_same_attempts_number_index(a: Seq<AgentAttemptV2>, b: Seq<AgentAttemptV2>, number: int, from: int)
    requires
        same_attempts(a, b),
    ensures
        number_index(a, number, from) == number_index(b, number, from),
    decreases a.len() - from,
{
    if 0 <= from < a.len() {
        assert(a[from].same(&b[from]));
        lemma_same_attempts_number_index(a, b, number, from + 1);
    }
}

proof fn lemma_same_attempts_id_index(a: Seq<AgentAttemptV2>, b: Seq<AgentAttemptV2>, id: Seq<char>, from: int)
    requires
        same_attempts(a, b),
    ensures
        id_index(a, id, from) == id_index(b, id, from),
    decreases a.len() - from,
{
    if 0 <= from < a.len() {
        assert(a[from].same(&b[from]));
        lemma_same_attempts_id_index(a, b, id, from + 1);
    }
}

proof fn lemma_same_attempts_latest_index(a: Seq<AgentAttemptV2>, b: Seq<AgentAttemptV2>, n: nat)
    requires
        same_attempts(a, b),
        n <= a.len(),
    ensures
        latest_index(a, n) == latest_index(b, n),
    decreases n,
{
    if n > 0 {
        lemma_same_attempts_latest_index(a, b, (n - 1) as nat);
        lemma_latest_index_bounds(a, (n - 1) as nat);
        assert(a[n - 1].same(&b[n - 1]));
        if let Some(j) = latest_index(a, (n - 1) as nat) {
            assert(a[j].same(&b[j]));
        }
    }
}

/// Both absent, or attempts with the same content.
pub open spec fn same_opt_attempt(a: Option<AgentAttemptV2>, b: Option<AgentAttemptV2>) -> bool {
    match (a, b) {
        (Some(x), Some(y)) => x.same(&y),
        (None, None) => true,
        _ => false,
    }
}

/// Snapshots with the same content hold attempts with the same content at
/// each place in number order, as the active attempt and as the latest one.
proof fn lemma_same_snapshots_order_alike(x: AgentExecutionV2, y: AgentExecutionV2)
    requires
        x.same(&y),
    ensures
        forall|k: int| #[trigger] same_opt_attempt(x.ordered(k), y.ordered(k)),
        same_opt_attempt(x.active_attempt(), y.active_attempt()),
        same_opt_attempt(x.latest_attempt(), y.latest_attempt()),
{
    let (a, b) = (x.attempts@, y.attempts@);
    lemma_same_attempts_index_alike(a, b);
    assert forall|k: int| #[trigger] same_opt_attempt(x.ordered(k), y.ordered(k)) by {
        lemma_number_index_bounds(a, k + 1, 0);
        if let Some(i) = number_index(a, k + 1, 0) {
            assert(a[i].same(&b[i]));
        }
    }
    if let (Some(p), Some(q)) = (x.active_attempt_id, y.active_attempt_id) {
        assert(id_index(a, p@, 0) == id_index(b, q@, 0));
        lemma_id_index_bounds(a, p@, 0);
        if let Some(i) = id_index(a, p@, 0) {
            assert(a[i].same(&b[i]));
        }
    }
    lemma_latest_index_bounds(a, a.len());
    if let Some(i) = latest_index(a, a.len()) {
        assert(a[i].same(&b[i]));
    }
}

proof fn lemma_number_index_bounds(attempts: Seq<AgentAttemptV2>, number: int, from: int)
    ensures
        number_index(attempts, number, from) matches Some(i) ==> 0 <= from <= i < attempts.len(),
    decreases attempts.len() - from,
{
    if 0 <= from < attempts.len() {
        lemma_number_index_bounds(attempts, number, from + 1);
    }
}

proof fn lemma_id_index_bounds(attempts: Seq<AgentAttemptV2>, id: Seq<char>, from: int)
    ensures
        id_index(attempts, id, from) matches Some(i) ==> 0 <= from <= i < attempts.len(),
    decreases attempts.len() - from,
{
    if 0 <= from < attempts.len() {
        lemma_id_index_bounds(attempts, id, from + 1);
    }
}

/// Snapshots with the same content find the same problem with each attempt
/// taken with those listed before it.
proof fn lemma_same_snapshots_attempts_alike(x: AgentExecutionV2, y: AgentExecutionV2, n: nat)
    requires
        x.same(&y),
        n <= x.attempts@.len(),
    ensures
        x.attempts_prefix_error(n) == y.attempts_prefix_error(n),
    decreases n,
{
    if n > 0 {
        lemma_same_snapshots_attempts_alike(x, y, (n - 1) as nat);
        let i = n - 1;
        let (a, b) = (x.attempts@, y.attempts@);
        assert(a[i].same(&b[i]));
        lemma_same_attempt_checks_alike(a[i], b[i], x.execution_id@, x.sequence, x.binding, y.binding);
        assert forall|key: AttemptKey| repeats_key(a, i, key) == repeats_key(b, i, key) by {
            if repeats_key(a, i, key) {
                let j = choose|j: int| 0 <= j < i && key_of(#[trigger] a[j], key) == key_of(a[i], key);
                assert(a[j].same(&b[j]));
                assert(key_of(b[j], key) == key_of(b[i], key));
            }
            if repeats_key(b, i, key) {
                let j = choose|j: int| 0 <= j < i && key_of(#[trigger] b[j], key) == key_of(b[i], key);
                assert(a[j].same(&b[j]));
                assert(key_of(a[j], key) == key_of(a[i], key));
            }
        }
        assert(repeats_number(a, i) == repeats_number(b, i)) by {
            if repeats_number(a, i) {
                let j = choose|j: int| 0 <= j < i && (#[trigger] a[j]).attempt_number == a[i].attempt_number;
                assert(a[j].same(&b[j]));
                assert(b[j].attempt_number == b[i].attempt_number);
            }
            if repeats_number(b, i) {
                let j = choose|j: int| 0 <= j < i && (#[trigger] b[j]).attempt_number == b[i].attempt_number;
                assert(a[j].same(&b[j]));
                assert(a[j].attempt_number == a[i].attempt_number);
            }
        }
        assert(x.attempt_error(i) == y.attempt_error(i));
    }
}

/// Snapshots with the same content find the same problem at each place in
/// number order.
proof fn lemma_same_snapshots_ordered_alike(x: AgentExecutionV2, y: AgentExecutionV2, n: nat)
    requires
        x.same(&y),
    ensures
        x.lifecycle_prefix(n) == y.lifecycle_prefix(n),
        x.ordered_prefix_error(n) == y.ordered_prefix_error(n),
    decreases n,
{
    lemma_same_snapshots_order_alike(x, y);
    if n > 0 {
        let k = n - 1;
        lemma_same_snapshots_ordered_alike(x, y, (n - 1) as nat);
        assert(same_opt_attempt(x.ordered(k), y.ordered(k)));
        assert(same_opt_attempt(x.ordered(k - 1), y.ordered(k - 1)));
        if let (Some(a), Some(b)) = (x.ordered(k), y.ordered(k)) {
            lemma_same_attempt_checks_alike(a, b, x.execution_id@, x.sequence, x.binding, y.binding);
            let (pa, pb) = if k == 0 {
                (None, None)
            } else {
                (x.ordered(k - 1), y.ordered(k - 1))
            };
            lemma_same_retries_judged_alike(pa, pb, a, b);
        }
        assert(x.ordered_step_error(k) == y.ordered_step_error(k));
    }
}

/// Snapshots with the same content find the same problem with the
/// execution's own error, output, active attempt and terminal state.
proof fn lemma_same_snapshots_state_alike(x: AgentExecutionV2, y: AgentExecutionV2)
    requires
        x.same(&y),
    ensures
        x.header_error() == y.header_error(),
        x.state_error() == y.state_error(),
{
    lemma_same_snapshots_order_alike(x, y);
    lemma_same_attempts_index_alike(x.attempts@, y.attempts@);
    if let (Some(e), Some(f)) = (x.error, y.error) {
        crate::error::lemma_same_errors_judged_alike(e, f);
        if let (Some(a), Some(b)) = (x.latest_attempt(), y.latest_attempt()) {
            if let (Some(g), Some(h)) = (a.error, b.error) {
                crate::error::lemma_same_errors_compare_alike(e, f, g, h);
            }
        }
    }
    if let (Some(o), Some(p)) = (x.output, y.output) {
        assert(o.valid() == p.valid());
    }
    assert(x.active_coherent() == y.active_coherent());
    assert(x.payload_coherent() == y.payload_coherent());
    assert(x.terminal_attempt_coherent() == y.terminal_attempt_coherent());
}

/// Snapshots with the same content find the same request problem at each
/// place in number order.
proof fn lemma_same_snapshots_requests_alike(
    x: AgentExecutionV2,
    y: AgentExecutionV2,
    request: AgentTaskRequestV2,
    n: nat,
)
    requires
        x.same(&y),
    ensures
        x.request_prefix_error(request, n) == y.request_prefix_error(request, n),
    decreases n,
{
    lemma_same_snapshots_order_alike(x, y);
    if n > 0 {
        let k = n - 1;
        lemma_same_snapshots_requests_alike(x, y, request, (n - 1) as nat);
        assert(same_opt_attempt(x.ordered(k), y.ordered(k)));
        assert(same_opt_attempt(x.ordered(k - 1), y.ordered(k - 1)));
        if let (Some(a), Some(b)) = (x.ordered(k), y.ordered(k)) {
            crate::attempt::lemma_same_attempts_pin_alike(a, b);
            let (pa, pb) = if k == 0 {
                (None, None)
            } else {
                match (x.ordered(k - 1), y.ordered(k - 1)) {
                    (Some(p), Some(q)) => {
                        crate::attempt::lemma_same_attempts_pin_alike(p, q);
                        (Some(p.pin()), Some(q.pin()))
                    },
                    _ => (None, None),
                }
            };
            lemma_same_pins_transition_alike(request.selection, pa, a.pin(), pb, b.pin());
            if let (Some(c), Some(d)) = (a.session, b.session) {
                crate::session::lemma_same_checkpoints_judged_alike(c, d, request);
            }
            if let (Some(r), Some(q)) = (a.retry, b.retry) {
                if let (Some(c), Some(d)) = (r.continuation, q.continuation) {
                    let k0: crate::session::AgentSessionCheckpointV2 = arbitrary();
                    crate::session::lemma_same_continuations_judged_alike(c, d, k0, k0, request);
                }
            }
        }
        assert(x.request_step_error(request, k) == y.request_step_error(request, k));
    }
}

/// Snapshots with the same content are judged alike, on their own and
/// against any request.
pub proof fn lemma_same_snapshots_judged_alike(
    x: AgentExecutionV2,
    y: AgentExecutionV2,
    request: AgentTaskRequestV2,
)
    requires
        x.same(&y),
    ensures
        x.validation() == y.validation(),
        x.request_validation(request) == y.request_validation(request),
{
    lemma_same_snapshots_state_alike(x, y);
    lemma_same_snapshots_attempts_alike(x, y, x.attempts@.len());
    lemma_same_snapshots_ordered_alike(x, y, x.attempts@.len());
    lemma_same_snapshots_requests_alike(x, y, request, x.attempts@.len());
}

// ----- Laws -----

/// A snapshot has the same content as itself.
pub proof fn lemma_same_execution_reflexive(execution: AgentExecutionV2)
    ensures
        execution.same(&execution),
{
    if let Some(output) = execution.output {
        if let Some(v) = output.structured {
            crate::json::lemma_same_json_reflexive(v);
        }
    }
}

/// Replaying a snapshot that is valid for its request is recognised as an
/// idempotent replay.
pub proof fn lemma_successor_of_itself_is_replay(execution: AgentExecutionV2, request: AgentTaskRequestV2)
    requires
        execution.request_validation(request) is Ok,
    ensures
        execution.successor(execution, request) == Ok::<
            AgentExecutionUpdateKind,
            AgentExecutionValidationError,
        >(AgentExecutionUpdateKind::IdempotentReplay),
{
    lemma_same_execution_reflexive(execution);
}

/// A snapshot is an idempotent replay of one valid for the request exactly
/// when it has the same content, whether or not it is the same value.
pub proof fn lemma_replay_exactly_for_same_valid_snapshots(
    execution: AgentExecutionV2,
    next: AgentExecutionV2,
    request: AgentTaskRequestV2,
)
    ensures
        execution.successor(next, request) == Ok::<
            AgentExecutionUpdateKind,
            AgentExecutionValidationError,
        >(AgentExecutionUpdateKind::IdempotentReplay) <==> (execution.same(&next)
            && execution.request_validation(request) is Ok),
{
    if execution.same(&next) {
        lemma_same_snapshots_judged_alike(execution, next, request);
    }
}

/// A terminal execution admits no successor but its own replay.
pub proof fn lemma_terminal_execution_is_final(
    execution: AgentExecutionV2,
    next: AgentExecutionV2,
    request: AgentTaskRequestV2,
)
    requires
        execution.state.is_terminal(),
        execution.successor(next, request) is Ok,
    ensures
        execution.successor(next, request) == Ok::<
            AgentExecutionUpdateKind,
            AgentExecutionValidationError,
        >(AgentExecutionUpdateKind::IdempotentReplay),
        execution.same(&next),
{
}

/// An accepted advance raises the sequence, adds at most one attempt, starts
/// from a live execution, and keeps every earlier attempt under its ID with
/// the same invocation, unchanged once it had ended.
pub proof fn lemma_advance_keeps_history(
    execution: AgentExecutionV2,
    next: AgentExecutionV2,
    request: AgentTaskRequestV2,
)
    requires
        execution.successor(next, request) == Ok::<
            AgentExecutionUpdateKind,
            AgentExecutionValidationError,
        >(AgentExecutionUpdateKind::Advanced),
    ensures
        next.sequence > execution.sequence,
        execution.attempts@.len() <= next.attempts@.len() <= execution.attempts@.len() + 1,
        !execution.state.is_terminal(),
        execution.state == AgentExecutionState::Blocked ==> next.attempts@.len()
            == execution.attempts@.len() + 1,
        forall|i: int|
            0 <= i < execution.attempts@.len() ==> {
                let previous = #[trigger] execution.attempts@[i];
                exists|j: int|
                    0 <= j < next.attempts@.len() && (#[trigger] next.attempts@[j]).attempt_id@
                        == previous.attempt_id@ && previous.same_invocation(&next.attempts@[j])
                        && (previous.state.is_terminal() ==> previous.same(&next.attempts@[j]))
            },
{
    assert forall|i: int| 0 <= i < execution.attempts@.len() implies {
        let previous = #[trigger] execution.attempts@[i];
        exists|j: int|
            0 <= j < next.attempts@.len() && (#[trigger] next.attempts@[j]).attempt_id@
                == previous.attempt_id@ && previous.same_invocation(&next.attempts@[j])
                && (previous.state.is_terminal() ==> previous.same(&next.attempts@[j]))
    } by {
        let previous = execution.attempts@[i];
        assert(attempt_kept(previous, next.attempts@, request));
        lemma_id_index_found(next.attempts@, previous.attempt_id@, 0);
        let j = id_index(next.attempts@, previous.attempt_id@, 0)->0;
        assert(next.attempts@[j].attempt_id@ == previous.attempt_id@);
    }
}

proof fn lemma_id_index_found(attempts: Seq<AgentAttemptV2>, id: Seq<char>, from: int)
    requires
        0 <= from,
    ensures
        id_index(attempts, id, from) matches Some(i) ==> from <= i < attempts.len()
            && attempts[i].attempt_id@ == id,
    decreases attempts.len() - from,
{
    if from < attempts.len() && attempts[from].attempt_id@ != id {
        lemma_id_index_found(attempts, id, from + 1);
    }
}

/// Some attempt carries number `k`.
pub open spec fn has_attempt_number(attempts: Seq<AgentAttemptV2>, k: int) -> bool {
    exists|i: int| 0 <= i < attempts.len() && (#[trigger] attempts[i]).attempt_number == k
}

/// In a valid execution the output and error fit its state: queued,
/// probing and running executions carry neither; a blocked one an error and
/// no output; a completed one an output and no error; a failed one an error
/// that is neither a cancellation nor an indeterminate outcome; a cancelled
/// one a cancellation; an indeterminate one an indeterminate outcome. A
/// queued execution has not started, a probing, blocked or running one has
/// started and not finished, and a terminal one has both timestamps.
pub proof fn lemma_valid_execution_payload_fits_state(execution: AgentExecutionV2)
    requires
        execution.validation() is Ok,
    ensures
        (execution.state == AgentExecutionState::Queued || execution.state
            == AgentExecutionState::Probing || execution.state == AgentExecutionState::Running)
            ==> execution.output is None && execution.error is None,
        execution.state == AgentExecutionState::Blocked ==> execution.output is None
            && execution.error is Some,
        execution.state == AgentExecutionState::Completed ==> execution.output is Some
            && execution.error is None,
        execution.state == AgentExecutionState::Failed ==> execution.output is None && (
        execution.error matches Some(e) && e.code != AgentErrorCode::Cancelled && e.code
            != AgentErrorCode::ExecutionIndeterminate),
        execution.state == AgentExecutionState::Cancelled ==> execution.output is None && (
        execution.error matches Some(e) && e.code == AgentErrorCode::Cancelled),
        execution.state == AgentExecutionState::Indeterminate ==> execution.output is None && (
        execution.error matches Some(e) && e.code == AgentErrorCode::ExecutionIndeterminate),
        execution.state == AgentExecutionState::Queued ==> execution.started_at is None
            && execution.finished_at is None,
        (execution.state == AgentExecutionState::Probing || execution.state
            == AgentExecutionState::Blocked || execution.state == AgentExecutionState::Running)
            ==> execution.started_at is Some && execution.finished_at is None,
        execution.state.is_terminal() ==> execution.started_at is Some
            && execution.finished_at is Some,
{
    assert(execution.header_error() is None);
    assert(execution.state_error() is None);
    assert(execution.payload_coherent());
    assert(execution.timestamps_coherent());
}

/// In a valid execution every attempt's error fits its state: a blocked
/// attempt carries an error; a failed one an error that is neither a
/// cancellation nor an indeterminate outcome; a cancelled one a
/// cancellation; an indeterminate one an indeterminate outcome; one that is
/// queued, probing, starting, running or completed carries none; one
/// repairing its output carries none or an invalid-output error.
pub proof fn lemma_valid_execution_attempt_errors_fit_states(execution: AgentExecutionV2)
    requires
        execution.validation() is Ok,
    ensures
        forall|i: int|
            0 <= i < execution.attempts@.len() ==> {
                let a = #[trigger] execution.attempts@[i];
                &&& a.state == AgentAttemptState::Blocked ==> a.error is Some
                &&& a.state == AgentAttemptState::Failed ==> (a.error matches Some(e) && e.code
                    != AgentErrorCode::Cancelled && e.code != AgentErrorCode::ExecutionIndeterminate)
                &&& a.state == AgentAttemptState::Cancelled ==> (a.error matches Some(e) && e.code
                    == AgentErrorCode::Cancelled)
                &&& a.state == AgentAttemptState::Indeterminate ==> (a.error matches Some(e)
                    && e.code == AgentErrorCode::ExecutionIndeterminate)
                &&& (a.state == AgentAttemptState::Queued || a.state == AgentAttemptState::Probing
                    || a.state == AgentAttemptState::Starting || a.state
                    == AgentAttemptState::Running || a.state == AgentAttemptState::Completed)
                    ==> a.error is None
                &&& a.state == AgentAttemptState::RepairingOutput ==> (a.error matches Some(e)
                    ==> e.code == AgentErrorCode::OutputInvalid)
            },
{
    let attempts = execution.attempts@;
    assert forall|i: int| 0 <= i < attempts.len() implies {
        let a = #[trigger] attempts[i];
        &&& a.state == AgentAttemptState::Blocked ==> a.error is Some
        &&& a.state == AgentAttemptState::Failed ==> (a.error matches Some(e) && e.code
            != AgentErrorCode::Cancelled && e.code != AgentErrorCode::ExecutionIndeterminate)
        &&& a.state == AgentAttemptState::Cancelled ==> (a.error matches Some(e) && e.code
            == AgentErrorCode::Cancelled)
        &&& a.state == AgentAttemptState::Indeterminate ==> (a.error matches Some(e) && e.code
            == AgentErrorCode::ExecutionIndeterminate)
        &&& (a.state == AgentAttemptState::Queued || a.state == AgentAttemptState::Probing
            || a.state == AgentAttemptState::Starting || a.state == AgentAttemptState::Running
            || a.state == AgentAttemptState::Completed) ==> a.error is None
        &&& a.state == AgentAttemptState::RepairingOutput ==> (a.error matches Some(e) ==> e.code
            == AgentErrorCode::OutputInvalid)
    } by {
        lemma_attempts_error_free(execution, (i + 1) as nat, attempts.len());
        assert(execution.attempt_error(i) is None);
        assert(attempt_lifecycle_error(attempts[i], execution.execution_id@, execution.sequence)
            is None);
        assert(attempt_error_coherent(attempts[i], execution.execution_id@));
    }
}

/// A valid execution has at most the attempt limit, numbers its attempts
/// `1..=n` with no gap and no repeat, and never reuses an attempt ID, task or
/// delivery idempotency key, or payload digest.
pub proof fn lemma_valid_execution_attempts(execution: AgentExecutionV2)
    requires
        execution.validation() is Ok,
    ensures
        execution.attempts@.len() <= MAX_AGENT_PROCESS_ATTEMPTS_PER_EXECUTION,
        forall|k: int|
            1 <= k <= execution.attempts@.len() ==> #[trigger] has_attempt_number(
                execution.attempts@,
                k,
            ),
        forall|i: int, j: int|
            #![trigger execution.attempts@[i], execution.attempts@[j]]
            0 <= i < j < execution.attempts@.len() ==> {
                let a = execution.attempts@[i];
                let b = execution.attempts@[j];
                &&& a.attempt_number != b.attempt_number
                &&& a.attempt_id@ != b.attempt_id@
                &&& a.task_idempotency_key@ != b.task_idempotency_key@
                &&& a.delivery_idempotency_key@ != b.delivery_idempotency_key@
                &&& a.payload_digest@ != b.payload_digest@
            },
{
    let attempts = execution.attempts@;
    let n = attempts.len();
    assert forall|k: int| 1 <= k <= n implies #[trigger] has_attempt_number(attempts, k) by {
        lemma_valid_attempts_are_ordered(execution, k - 1);
        lemma_number_index_found(attempts, k, 0);
        let i = number_index(attempts, k, 0)->0;
        assert(attempts[i].attempt_number == k);
    }
    assert forall|i: int, j: int|
        #![trigger attempts[i], attempts[j]]
        0 <= i < j < n implies {
            let a = attempts[i];
            let b = attempts[j];
            &&& a.attempt_number != b.attempt_number
            &&& a.attempt_id@ != b.attempt_id@
            &&& a.task_idempotency_key@ != b.task_idempotency_key@
            &&& a.delivery_idempotency_key@ != b.delivery_idempotency_key@
            &&& a.payload_digest@ != b.payload_digest@
        } by {
        lemma_attempts_error_free(execution, (j + 1) as nat, n);
        assert(execution.attempt_error(j) is None);
        assert(!repeats_number(attempts, j));
        assert(!repeats_key(attempts, j, AttemptKey::AttemptId));
        assert(!repeats_key(attempts, j, AttemptKey::TaskIdempotencyKey));
        assert(!repeats_key(attempts, j, AttemptKey::DeliveryIdempotencyKey));
        assert(!repeats_key(attempts, j, AttemptKey::PayloadDigest));
        assert(key_of(attempts[i], AttemptKey::AttemptId) == attempts[i].attempt_id@);
        assert(key_of(attempts[i], AttemptKey::TaskIdempotencyKey) == attempts[i].task_idempotency_key@);
        assert(key_of(attempts[i], AttemptKey::DeliveryIdempotencyKey) == attempts[i].delivery_idempotency_key@);
        assert(key_of(attempts[i], AttemptKey::PayloadDigest) == attempts[i].payload_digest@);
    }
}

/// An execution that is valid for a request ran, in every attempt, a
/// candidate the request's selection allows, and each attempt after the
/// first kept the slot, executor and provider of the one before it.
pub proof fn lemma_valid_for_request_attempts_are_allowed(
    execution: AgentExecutionV2,
    request: AgentTaskRequestV2,
    k: int,
)
    requires
        execution.request_validation(request) is Ok,
        0 <= k < execution.attempts@.len(),
    ensures
        execution.ordered(k) matches Some(attempt) && request.selection.allows(attempt.pin()),
        k > 0 ==> (execution.ordered(k) matches Some(attempt) && (execution.ordered(k - 1) matches Some(
            previous,
        ) && attempt.selection_index == previous.selection_index && attempt.executor
            == previous.executor && attempt.provider == previous.provider)),
{
    lemma_valid_attempts_are_ordered(execution, k);
    lemma_request_error_free(execution, request, (k + 1) as nat, execution.attempts@.len());
    if k > 0 {
        lemma_valid_attempts_are_ordered(execution, k - 1);
        let attempt = execution.ordered(k)->0;
        let previous = execution.ordered(k - 1)->0;
        crate::selection::lemma_pin_single_assignment(request.selection, previous.pin(), attempt.pin());
    }
}

proof fn lemma_request_error_free(
    execution: AgentExecutionV2,
    request: AgentTaskRequestV2,
    m: nat,
    n: nat,
)
    requires
        m <= n,
        execution.request_prefix_error(request, n) is None,
    ensures
        execution.request_prefix_error(request, m) is None,
    decreases n - m,
{
    if m < n {
        lemma_request_error_free(execution, request, m, (n - 1) as nat);
    }
}

} // verus!
