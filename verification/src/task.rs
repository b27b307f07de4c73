//! The task request, its workspace binding, and the immutable per-process
//! dispatch envelope.

use vstd::prelude::*;
use vstd::std_specs::cmp::PartialEqSpecImpl;

use crate::digest::{
    payload_digest_of_json, payload_digest_of_json_text, canonicalize_agent_payload_json,
    jcs_canonical_text, AgentPayloadCanonicalizationError,
};
use crate::ids::{
    idempotency_key, prefixed_sha256, validate_agent_attempt_delivery_idempotency_key,
    validate_agent_attempt_task_idempotency_key, validate_agent_payload_digest,
    validate_idempotency_key, CliIdentifierValidationError,
    AGENT_ATTEMPT_DELIVERY_IDEMPOTENCY_PREFIX_V2, AGENT_ATTEMPT_TASK_IDEMPOTENCY_PREFIX_V2,
    AGENT_PAYLOAD_DIGEST_PREFIX_V1,
};
use crate::json::{
    structured_output_schema_result, validate_agent_structured_output_schema,
    AgentStructuredOutputSchemaValidationError, JsonValue,
};
use crate::selection::{ModelSelection, ModelSelectionValidationError};
use crate::session::AgentSessionContinuationV2;
use crate::text::{blank, is_blank, opt_present_non_blank, opt_view, present_non_blank, str_eq};

verus! {

pub const AGENT_TASK_SCHEMA_V2: &'static str = "loomex.plugin-agent-task/v2";

pub const AGENT_PROCESS_DISPATCH_SCHEMA_V2: &'static str = "loomex.agent-process-dispatch.v2";

#[derive(Debug, Clone)]
pub struct AgentExecutionBindingV2 {
    /// Stable backend binding identifier, not a local filesystem path.
    pub workspace_binding_id: String,
    /// Monotonic binding generation. Rebinding a workspace must increment it,
    /// making previously issued tasks invalid for replay.
    pub workspace_binding_generation: u64,
    /// The one runner that may execute the request.
    pub runner_id: String,
}

impl AgentExecutionBindingV2 {
    pub open spec fn valid(&self) -> bool {
        &&& !is_blank(self.workspace_binding_id@)
        &&& self.workspace_binding_generation > 0
        &&& !is_blank(self.runner_id@)
    }

    pub fn is_valid(&self) -> (res: bool)
        ensures
            res == self.valid(),
    {
        !blank(self.workspace_binding_id.as_str()) && self.workspace_binding_generation > 0
            && !blank(self.runner_id.as_str())
    }

    pub open spec fn same(&self, other: &AgentExecutionBindingV2) -> bool {
        &&& self.workspace_binding_id@ == other.workspace_binding_id@
        &&& self.workspace_binding_generation == other.workspace_binding_generation
        &&& self.runner_id@ == other.runner_id@
    }

    pub fn same_binding(&self, other: &AgentExecutionBindingV2) -> (res: bool)
        ensures
            res == self.same(other),
    {
        str_eq(self.workspace_binding_id.as_str(), other.workspace_binding_id.as_str())
            && self.workspace_binding_generation == other.workspace_binding_generation && str_eq(
            self.runner_id.as_str(),
            other.runner_id.as_str(),
        )
    }
}

impl PartialEq for AgentExecutionBindingV2 {
    fn eq(&self, other: &Self) -> (res: bool) {
        self.same_binding(other)
    }
}

impl PartialEqSpecImpl for AgentExecutionBindingV2 {
    open spec fn obeys_eq_spec() -> bool {
        true
    }

    open spec fn eq_spec(&self, other: &AgentExecutionBindingV2) -> bool {
        self.same(other)
    }
}

#[derive(Debug, Clone, Copy, PartialEq, Eq, Structural)]
pub enum ReasoningEffort {
    Minimal,
    Low,
    Medium,
    High,
    Xhigh,
}

#[derive(Debug, Clone, Copy, PartialEq, Eq, Structural)]
pub struct AgentExecutionRequirements {
    pub structured_output: bool,
    pub session_resume: bool,
    pub cancellation: bool,
    pub reasoning_effort: Option<ReasoningEffort>,
}

#[derive(Debug, Clone)]
pub struct AgentTaskRequestV2 {
    pub schema_version: String,
    pub request_id: String,
    pub idempotency_key: String,
    pub binding: AgentExecutionBindingV2,
    pub selection: ModelSelection,
    pub prompt: String,
    pub output_schema: Option<JsonValue>,
    pub requirements: AgentExecutionRequirements,
    pub continuation: Option<AgentSessionContinuationV2>,
}

#[derive(Debug, Clone, Copy, PartialEq, Eq, Structural)]
pub enum AgentTaskValidationError {
    WrongSchemaVersion,
    EmptyRequestId,
    EmptyIdempotencyKey,
    UnsafeIdempotencyKey(CliIdentifierValidationError),
    EmptyBinding,
    InvalidBindingGeneration,
    EmptyPrompt,
    MissingStructuredOutputSchema,
    InvalidStructuredOutputSchema(AgentStructuredOutputSchemaValidationError),
    InvalidSelection(ModelSelectionValidationError),
    InvalidContinuation,
}

impl AgentTaskRequestV2 {
    /// A runtime must compare the issued target with its current binding before
    /// any execution or replay. A mismatch is an invalid request.
    pub fn is_for_binding(&self, current: &AgentExecutionBindingV2) -> (res: bool)
        ensures
            res == self.binding.same(current),
    {
        self.binding.same_binding(current)
    }

    pub open spec fn output_schema_error(&self) -> Option<AgentTaskValidationError> {
        match self.output_schema {
            Some(schema) => match structured_output_schema_result(schema) {
                Err(e) => Some(AgentTaskValidationError::InvalidStructuredOutputSchema(e)),
                Ok(_) => None,
            },
            None => if self.requirements.structured_output {
                Some(AgentTaskValidationError::MissingStructuredOutputSchema)
            } else {
                None
            },
        }
    }

    pub open spec fn validation(&self) -> Result<(), AgentTaskValidationError> {
        if self.schema_version@ != AGENT_TASK_SCHEMA_V2@ {
            Err(AgentTaskValidationError::WrongSchemaVersion)
        } else if is_blank(self.request_id@) {
            Err(AgentTaskValidationError::EmptyRequestId)
        } else if is_blank(self.idempotency_key@) {
            Err(AgentTaskValidationError::EmptyIdempotencyKey)
        } else if let Err(e) = idempotency_key(self.idempotency_key@) {
            Err(AgentTaskValidationError::UnsafeIdempotencyKey(e))
        } else if is_blank(self.binding.workspace_binding_id@) || is_blank(
            self.binding.runner_id@,
        ) {
            Err(AgentTaskValidationError::EmptyBinding)
        } else if self.binding.workspace_binding_generation == 0 {
            Err(AgentTaskValidationError::InvalidBindingGeneration)
        } else if is_blank(self.prompt@) {
            Err(AgentTaskValidationError::EmptyPrompt)
        } else if let Some(e) = self.output_schema_error() {
            Err(e)
        } else if let Err(e) = self.selection.validation() {
            Err(AgentTaskValidationError::InvalidSelection(e))
        } else if self.continuation matches Some(c) && !c.request_match(*self) {
            Err(AgentTaskValidationError::InvalidContinuation)
        } else {
            Ok(())
        }
    }

    pub fn validate(&self) -> (res: Result<(), AgentTaskValidationError>)
        ensures
            res == self.validation(),
    {
        if !str_eq(self.schema_version.as_str(), AGENT_TASK_SCHEMA_V2) {
            return Err(AgentTaskValidationError::WrongSchemaVersion);
        }
        if blank(self.request_id.as_str()) {
            return Err(AgentTaskValidationError::EmptyRequestId);
        }
        if blank(self.idempotency_key.as_str()) {
            return Err(AgentTaskValidationError::EmptyIdempotencyKey);
        }
        if let Err(e) = validate_idempotency_key(self.idempotency_key.as_str()) {
            return Err(AgentTaskValidationError::UnsafeIdempotencyKey(e));
        }
        if blank(self.binding.workspace_binding_id.as_str()) || blank(
            self.binding.runner_id.as_str(),
        ) {
            return Err(AgentTaskValidationError::EmptyBinding);
        }
        if self.binding.workspace_binding_generation == 0 {
            return Err(AgentTaskValidationError::InvalidBindingGeneration);
        }
        if blank(self.prompt.as_str()) {
            return Err(AgentTaskValidationError::EmptyPrompt);
        }
        match &self.output_schema {
            Some(schema) => {
                if let Err(e) = validate_agent_structured_output_schema(schema) {
                    return Err(AgentTaskValidationError::InvalidStructuredOutputSchema(e));
                }
            },
            None => {
                if self.requirements.structured_output {
                    return Err(AgentTaskValidationError::MissingStructuredOutputSchema);
                }
            },
        }
        if let Err(e) = self.selection.validate() {
            return Err(AgentTaskValidationError::InvalidSelection(e));
        }
        if let Some(continuation) = &self.continuation {
            if !continuation.matches_request(self) {
                return Err(AgentTaskValidationError::InvalidContinuation);
            }
        }
        Ok(())
    }
}

#[derive(Debug, Clone, Copy, PartialEq, Eq, Structural)]
pub enum AgentProcessRetryKindV2 {
    Initial,
    FreshAfterRemediation,
    ResumeFromCheckpoint,
}

#[derive(Debug, Clone, Copy, PartialEq, Eq, Structural)]
pub enum AgentDeliveryRouteV2 {
    RunnerJob,
    DirectControl,
}

#[derive(Debug, Clone)]
pub struct AgentProcessDeliveryV2 {
    pub route: AgentDeliveryRouteV2,
    pub runner_job_id: Option<String>,
    pub lease_target_runner_id: Option<String>,
}

impl AgentProcessDeliveryV2 {
    pub open spec fn same(&self, other: &AgentProcessDeliveryV2) -> bool {
        &&& self.route == other.route
        &&& opt_view(self.runner_job_id) == opt_view(other.runner_job_id)
        &&& opt_view(self.lease_target_runner_id) == opt_view(other.lease_target_runner_id)
    }

    pub fn same_delivery(&self, other: &AgentProcessDeliveryV2) -> (res: bool)
        ensures
            res == self.same(other),
    {
        self.route == other.route && crate::text::opt_str_eq(
            &self.runner_job_id,
            &other.runner_job_id,
        ) && crate::text::opt_str_eq(&self.lease_target_runner_id, &other.lease_target_runner_id)
    }

    /// A runner job names a job and leases it to exactly the bound runner; a
    /// direct control delivery names neither.
    pub open spec fn valid_for_binding(&self, binding: AgentExecutionBindingV2) -> bool {
        match self.route {
            AgentDeliveryRouteV2::RunnerJob => {
                &&& present_non_blank(self.runner_job_id)
                &&& match self.lease_target_runner_id {
                    Some(r) => !is_blank(r@) && r@ == binding.runner_id@,
                    None => false,
                }
            },
            AgentDeliveryRouteV2::DirectControl => self.runner_job_id is None
                && self.lease_target_runner_id is None,
        }
    }

    pub fn is_valid_for_binding(&self, binding: &AgentExecutionBindingV2) -> (res: bool)
        ensures
            res == self.valid_for_binding(*binding),
    {
        match self.route {
            AgentDeliveryRouteV2::RunnerJob => {
                opt_present_non_blank(&self.runner_job_id) && match &self.lease_target_runner_id {
                    Some(r) => !blank(r.as_str()) && str_eq(r.as_str(), binding.runner_id.as_str()),
                    None => false,
                }
            },
            AgentDeliveryRouteV2::DirectControl => {
                self.runner_job_id.is_none() && self.lease_target_runner_id.is_none()
            },
        }
    }

    pub fn is_valid_for_task(&self, task: &AgentTaskRequestV2) -> (res: bool)
        ensures
            res == self.valid_for_binding(task.binding),
    {
        self.is_valid_for_binding(&task.binding)
    }
}

/// One immutable process-dispatch envelope. The logical task idempotency key
/// remains inside `task`; the task/delivery keys identify only this process
/// attempt. `payload_digest` is computed over RFC 8785/JCS canonical JSON of
/// this envelope with the `payloadDigest` member omitted.
#[derive(Debug, Clone)]
pub struct AgentProcessDispatchV2 {
    pub schema_version: String,
    /// Unique logical agent-node execution ID. This must not be the shared
    /// parent workflow execution ID.
    pub execution_id: String,
    pub attempt_id: String,
    pub attempt_number: u32,
    pub retry_kind: AgentProcessRetryKindV2,
    pub from_attempt_id: Option<String>,
    pub delivery: AgentProcessDeliveryV2,
    pub task_idempotency_key: String,
    pub delivery_idempotency_key: String,
    pub payload_digest: String,
    pub task: AgentTaskRequestV2,
}

#[derive(Debug, Clone, Copy, PartialEq, Eq, Structural)]
pub enum AgentProcessDispatchValidationError {
    WrongSchemaVersion,
    EmptyIdentity,
    InvalidAttemptNumber,
    InvalidTaskIdempotencyKey,
    InvalidDeliveryIdempotencyKey,
    InvalidPayloadDigest,
    PayloadDigestMismatch,
    InvalidDeliveryRoute,
    DeliveryRouteOwnershipMismatch,
    InvalidTask,
    InvalidRetrySource,
}

impl AgentProcessDispatchV2 {
    /// The retry kind agrees with the attempt number, the source attempt and
    /// the presence of a resume continuation.
    pub open spec fn retry_source_valid(&self) -> bool {
        match self.retry_kind {
            AgentProcessRetryKindV2::Initial => self.attempt_number == 1 && self.from_attempt_id
                is None && self.task.continuation is None,
            AgentProcessRetryKindV2::FreshAfterRemediation => self.attempt_number > 1
                && present_non_blank(self.from_attempt_id) && self.task.continuation is None,
            AgentProcessRetryKindV2::ResumeFromCheckpoint => self.attempt_number > 1
                && present_non_blank(self.from_attempt_id) && self.task.continuation is Some,
        }
    }

    /// `payload_digest_input` is the JSON text of this envelope with the
    /// `payloadDigest` member omitted; its canonical form is what the digest
    /// covers.
    pub open spec fn validation(&self, payload_digest_input: Seq<char>) -> Result<
        (),
        AgentProcessDispatchValidationError,
    > {
        if self.schema_version@ != AGENT_PROCESS_DISPATCH_SCHEMA_V2@ {
            Err(AgentProcessDispatchValidationError::WrongSchemaVersion)
        } else if is_blank(self.execution_id@) || is_blank(self.attempt_id@) {
            Err(AgentProcessDispatchValidationError::EmptyIdentity)
        } else if self.attempt_number == 0 {
            Err(AgentProcessDispatchValidationError::InvalidAttemptNumber)
        } else if prefixed_sha256(
            self.task_idempotency_key@,
            AGENT_ATTEMPT_TASK_IDEMPOTENCY_PREFIX_V2@,
        ) is Err {
            Err(AgentProcessDispatchValidationError::InvalidTaskIdempotencyKey)
        } else if prefixed_sha256(
            self.delivery_idempotency_key@,
            AGENT_ATTEMPT_DELIVERY_IDEMPOTENCY_PREFIX_V2@,
        ) is Err {
            Err(AgentProcessDispatchValidationError::InvalidDeliveryIdempotencyKey)
        } else if prefixed_sha256(self.payload_digest@, AGENT_PAYLOAD_DIGEST_PREFIX_V1@) is Err {
            Err(AgentProcessDispatchValidationError::InvalidPayloadDigest)
        } else if self.task.validation() is Err {
            Err(AgentProcessDispatchValidationError::InvalidTask)
        } else if !self.delivery.valid_for_binding(self.task.binding) {
            Err(AgentProcessDispatchValidationError::InvalidDeliveryRoute)
        } else {
            match payload_digest_of_json(payload_digest_input) {
                None => Err(AgentProcessDispatchValidationError::InvalidPayloadDigest),
                Some(digest) => if digest != self.payload_digest@ {
                    Err(AgentProcessDispatchValidationError::PayloadDigestMismatch)
                } else if !self.retry_source_valid() {
                    Err(AgentProcessDispatchValidationError::InvalidRetrySource)
                } else {
                    Ok(())
                },
            }
        }
    }

    /// RFC 8785/JCS canonical form of `payload_digest_input`, the JSON text of
    /// this envelope with the `payloadDigest` member omitted.
    pub fn canonical_payload_digest_input(&self, payload_digest_input: &str) -> (res: Result<
        String,
        AgentPayloadCanonicalizationError,
    >)
        ensures
            res is Ok <==> jcs_canonical_text(payload_digest_input@) is Some,
            res matches Ok(text) ==> jcs_canonical_text(payload_digest_input@) == Some(text@),
    {
        canonicalize_agent_payload_json(payload_digest_input)
    }

    /// `sha256:` and the lowercase hex SHA-256 of the canonical form of
    /// `payload_digest_input`.
    pub fn computed_payload_digest(&self, payload_digest_input: &str) -> (res: Result<
        String,
        AgentPayloadCanonicalizationError,
    >)
        ensures
            res is Ok <==> payload_digest_of_json(payload_digest_input@) is Some,
            res matches Ok(text) ==> payload_digest_of_json(payload_digest_input@) == Some(
                text@,
            ),
            res matches Ok(text) ==> prefixed_sha256(text@, AGENT_PAYLOAD_DIGEST_PREFIX_V1@) is Ok,
    {
        payload_digest_of_json_text(payload_digest_input)
    }

    fn retry_source_is_valid(&self) -> (res: bool)
        ensures
            res == self.retry_source_valid(),
    {
        match self.retry_kind {
            AgentProcessRetryKindV2::Initial => {
                self.attempt_number == 1 && self.from_attempt_id.is_none()
                    && self.task.continuation.is_none()
            },
            AgentProcessRetryKindV2::FreshAfterRemediation => {
                self.attempt_number > 1 && opt_present_non_blank(&self.from_attempt_id)
                    && self.task.continuation.is_none()
            },
            AgentProcessRetryKindV2::ResumeFromCheckpoint => {
                self.attempt_number > 1 && opt_present_non_blank(&self.from_attempt_id)
                    && self.task.continuation.is_some()
            },
        }
    }

    /// Validates the envelope against `payload_digest_input`, the JSON text of
    /// this envelope with the `payloadDigest` member omitted.
    pub fn validate(&self, payload_digest_input: &str) -> (res: Result<
        (),
        AgentProcessDispatchValidationError,
    >)
        ensures
            res == self.validation(payload_digest_input@),
    {
        if !str_eq(self.schema_version.as_str(), AGENT_PROCESS_DISPATCH_SCHEMA_V2) {
            return Err(AgentProcessDispatchValidationError::WrongSchemaVersion);
        }
        if blank(self.execution_id.as_str()) || blank(self.attempt_id.as_str()) {
            return Err(AgentProcessDispatchValidationError::EmptyIdentity);
        }
        if self.attempt_number == 0 {
            return Err(AgentProcessDispatchValidationError::InvalidAttemptNumber);
        }
        if validate_agent_attempt_task_idempotency_key(self.task_idempotency_key.as_str()).is_err() {
            return Err(AgentProcessDispatchValidationError::InvalidTaskIdempotencyKey);
        }
        if validate_agent_attempt_delivery_idempotency_key(
            self.delivery_idempotency_key.as_str(),
        ).is_err() {
            return Err(AgentProcessDispatchValidationError::InvalidDeliveryIdempotencyKey);
        }
        if validate_agent_payload_digest(self.payload_digest.as_str()).is_err() {
            return Err(AgentProcessDispatchValidationError::InvalidPayloadDigest);
        }
        if self.task.validate().is_err() {
            return Err(AgentProcessDispatchValidationError::InvalidTask);
        }
        if !self.delivery.is_valid_for_task(&self.task) {
            return Err(AgentProcessDispatchValidationError::InvalidDeliveryRoute);
        }
        let digest = match self.computed_payload_digest(payload_digest_input) {
            Ok(digest) => digest,
            Err(_) => {
                return Err(AgentProcessDispatchValidationError::InvalidPayloadDigest);
            },
        };
        if !str_eq(digest.as_str(), self.payload_digest.as_str()) {
            return Err(AgentProcessDispatchValidationError::PayloadDigestMismatch);
        }
        if !self.retry_source_is_valid() {
            return Err(AgentProcessDispatchValidationError::InvalidRetrySource);
        }
        Ok(())
    }

    pub open spec fn runner_job_validation(
        &self,
        payload_digest_input: Seq<char>,
        runner_job_id: Seq<char>,
        lease_target_runner_id: Seq<char>,
    ) -> Result<(), AgentProcessDispatchValidationError> {
        match self.validation(payload_digest_input) {
            Err(e) => Err(e),
            Ok(_) => if self.delivery.route != AgentDeliveryRouteV2::RunnerJob || opt_view(
                self.delivery.runner_job_id,
            ) != Some(runner_job_id) || opt_view(self.delivery.lease_target_runner_id) != Some(
                lease_target_runner_id,
            ) {
                Err(AgentProcessDispatchValidationError::DeliveryRouteOwnershipMismatch)
            } else {
                Ok(())
            },
        }
    }

    /// Validates the envelope and that it was delivered as this runner job,
    /// leased to this runner.
    pub fn validate_for_runner_job(
        &self,
        payload_digest_input: &str,
        runner_job_id: &str,
        lease_target_runner_id: &str,
    ) -> (res: Result<(), AgentProcessDispatchValidationError>)
        ensures
            res == self.runner_job_validation(
                payload_digest_input@,
                runner_job_id@,
                lease_target_runner_id@,
            ),
    {
        self.validate(payload_digest_input)?;
        let job_matches = match &self.delivery.runner_job_id {
            Some(job) => str_eq(job.as_str(), runner_job_id),
            None => false,
        };
        let lease_matches = match &self.delivery.lease_target_runner_id {
            Some(lease) => str_eq(lease.as_str(), lease_target_runner_id),
            None => false,
        };
        if self.delivery.route != AgentDeliveryRouteV2::RunnerJob || !job_matches || !lease_matches {
            return Err(AgentProcessDispatchValidationError::DeliveryRouteOwnershipMismatch);
        }
        Ok(())
    }

    pub open spec fn direct_control_validation(&self, payload_digest_input: Seq<char>) -> Result<
        (),
        AgentProcessDispatchValidationError,
    > {
        match self.validation(payload_digest_input) {
            Err(e) => Err(e),
            Ok(_) => if self.delivery.route != AgentDeliveryRouteV2::DirectControl {
                Err(AgentProcessDispatchValidationError::DeliveryRouteOwnershipMismatch)
            } else {
                Ok(())
            },
        }
    }

    /// Validates the envelope and that it was delivered over direct control.
    pub fn validate_for_direct_control(&self, payload_digest_input: &str) -> (res: Result<
        (),
        AgentProcessDispatchValidationError,
    >)
        ensures
            res == self.direct_control_validation(payload_digest_input@),
    {
        self.validate(payload_digest_input)?;
        if self.delivery.route != AgentDeliveryRouteV2::DirectControl {
            return Err(AgentProcessDispatchValidationError::DeliveryRouteOwnershipMismatch);
        }
        Ok(())
    }
}


impl PartialEq for AgentProcessDeliveryV2 {
    fn eq(&self, other: &Self) -> (res: bool) {
        self.same_delivery(other)
    }
}

impl PartialEqSpecImpl for AgentProcessDeliveryV2 {
    open spec fn obeys_eq_spec() -> bool {
        true
    }

    open spec fn eq_spec(&self, other: &AgentProcessDeliveryV2) -> bool {
        self.same(other)
    }
}

/// A dispatch that validates against its digest input is bound to it: the
/// digest it carries is the digest of that input's canonical form, its task
/// is valid, its delivery route belongs to the task's binding, its
/// per-attempt keys and digest are well formed, and its retry source agrees
/// with its attempt number and names a non-blank earlier attempt.
pub proof fn lemma_valid_dispatch_is_digest_bound(
    dispatch: AgentProcessDispatchV2,
    payload_digest_input: Seq<char>,
)
    requires
        dispatch.validation(payload_digest_input) is Ok,
    ensures
        payload_digest_of_json(payload_digest_input) == Some(dispatch.payload_digest@),
        dispatch.task.validation() is Ok,
        dispatch.delivery.valid_for_binding(dispatch.task.binding),
        dispatch.attempt_number == 1 <==> dispatch.retry_kind == AgentProcessRetryKindV2::Initial,
        dispatch.task.continuation is Some <==> dispatch.retry_kind
            == AgentProcessRetryKindV2::ResumeFromCheckpoint,
        dispatch.from_attempt_id is None <==> dispatch.retry_kind == AgentProcessRetryKindV2::Initial,
        dispatch.from_attempt_id matches Some(f) ==> !is_blank(f@),
        prefixed_sha256(dispatch.task_idempotency_key@, AGENT_ATTEMPT_TASK_IDEMPOTENCY_PREFIX_V2@) is Ok,
        prefixed_sha256(
            dispatch.delivery_idempotency_key@,
            AGENT_ATTEMPT_DELIVERY_IDEMPOTENCY_PREFIX_V2@,
        ) is Ok,
        prefixed_sha256(dispatch.payload_digest@, AGENT_PAYLOAD_DIGEST_PREFIX_V1@) is Ok,
{
}

/// A dispatch accepted as a runner job was validated, travels as a runner
/// job, is that very job, and is leased to that very runner; one accepted
/// over direct control was validated and names neither job nor lease. A
/// valid runner-job dispatch is accepted by exactly the runner it is leased
/// to, for exactly its job.
pub proof fn lemma_dispatch_accepted_only_by_its_channel(
    dispatch: AgentProcessDispatchV2,
    payload_digest_input: Seq<char>,
    runner_job_id: Seq<char>,
    lease_target_runner_id: Seq<char>,
)
    ensures
        dispatch.runner_job_validation(payload_digest_input, runner_job_id, lease_target_runner_id)
            is Ok ==> {
            &&& dispatch.validation(payload_digest_input) is Ok
            &&& dispatch.delivery.route == AgentDeliveryRouteV2::RunnerJob
            &&& opt_view(dispatch.delivery.runner_job_id) == Some(runner_job_id)
            &&& opt_view(dispatch.delivery.lease_target_runner_id) == Some(lease_target_runner_id)
            &&& lease_target_runner_id == dispatch.task.binding.runner_id@
        },
        dispatch.direct_control_validation(payload_digest_input) is Ok ==> {
            &&& dispatch.validation(payload_digest_input) is Ok
            &&& dispatch.delivery.route == AgentDeliveryRouteV2::DirectControl
            &&& dispatch.delivery.runner_job_id is None
            &&& dispatch.delivery.lease_target_runner_id is None
        },
        (dispatch.validation(payload_digest_input) is Ok && dispatch.delivery.route
            == AgentDeliveryRouteV2::RunnerJob) ==> (dispatch.runner_job_validation(
            payload_digest_input,
            runner_job_id,
            lease_target_runner_id,
        ) is Ok <==> (opt_view(dispatch.delivery.runner_job_id) == Some(runner_job_id)
            && opt_view(dispatch.delivery.lease_target_runner_id) == Some(lease_target_runner_id))),
{
}

} // verus!
