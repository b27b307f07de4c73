//! Provider session checkpoints and the continuations that resume them.

use vstd::prelude::*;
use vstd::std_specs::cmp::PartialEqSpecImpl;
use vstd::string::StringExecFns;

use crate::ids::{
    is_cli_identifier, validate_cli_identifier, MAX_MODEL_KEY_LENGTH,
    MAX_PROVIDER_MODEL_ID_LENGTH, MAX_PROVIDER_SESSION_ID_LENGTH,
};
use crate::selection::{
    clone_opt_string, lemma_same_pins_judged_alike, AgentCandidatePinV2, AgentProvider,
    ExecutorKind,
};
use crate::task::{AgentExecutionBindingV2, AgentTaskRequestV2};
use crate::text::{blank, is_blank, opt_str_eq, opt_view, str_eq};

verus! {

pub const AGENT_SESSION_SCHEMA_V2: &'static str = "loomex.agent-session.v2";

#[derive(Debug, Clone, Copy, PartialEq, Eq, Structural)]
pub enum AgentSessionState {
    Created,
    Active,
    Suspended,
    Completed,
    Failed,
    Lost,
}

#[derive(Debug, Clone)]
pub struct AgentSessionCheckpointV2 {
    pub schema_version: String,
    pub checkpoint_id: String,
    pub sequence: u64,
    pub session_id: String,
    /// Allowlisted, non-secret provider session identifier. Authentication
    /// tokens, resume tokens, and arbitrary opaque provider payloads are not
    /// part of this persistence contract.
    pub provider_session_id: String,
    pub binding: AgentExecutionBindingV2,
    pub execution_id: String,
    pub attempt_id: String,
    pub selection_index: u32,
    pub executor: ExecutorKind,
    pub provider: AgentProvider,
    /// Both model fields are absent only while an `auto` selection is
    /// unresolved. Exact selections and resolved auto sessions carry both.
    pub model_key: Option<String>,
    pub provider_model_id: Option<String>,
    pub state: AgentSessionState,
    pub recorded_at: String,
}

#[derive(Debug, Clone, Copy, PartialEq, Eq, Structural)]
pub enum AgentSessionValidationError {
    WrongSchemaVersion,
    EmptyIdentity,
    InvalidSequence,
    InvalidBinding,
    ExecutorProviderMismatch,
    EmptyModelId,
    UnpairedModelIdentity,
    UnsafeCliIdentifier,
    CandidateNotAllowed,
    EmptyTimestamp,
}

/// A pin built from its parts.
pub open spec fn pin_of(
    selection_index: u32,
    executor: ExecutorKind,
    provider: AgentProvider,
    model_key: Option<String>,
    provider_model_id: Option<String>,
) -> AgentCandidatePinV2 {
    AgentCandidatePinV2 { selection_index, executor, provider, model_key, provider_model_id }
}

fn make_pin(
    selection_index: u32,
    executor: ExecutorKind,
    provider: AgentProvider,
    model_key: &Option<String>,
    provider_model_id: &Option<String>,
) -> (res: AgentCandidatePinV2)
    ensures
        res.same(&pin_of(selection_index, executor, provider, *model_key, *provider_model_id)),
{
    AgentCandidatePinV2 {
        selection_index,
        executor,
        provider,
        model_key: clone_opt_string(model_key),
        provider_model_id: clone_opt_string(provider_model_id),
    }
}

impl AgentSessionCheckpointV2 {
    pub open spec fn pin(&self) -> AgentCandidatePinV2 {
        pin_of(
            self.selection_index,
            self.executor,
            self.provider,
            self.model_key,
            self.provider_model_id,
        )
    }

    pub fn candidate_pin(&self) -> (res: AgentCandidatePinV2)
        ensures
            res.same(&self.pin()),
    {
        make_pin(
            self.selection_index,
            self.executor,
            self.provider,
            &self.model_key,
            &self.provider_model_id,
        )
    }

    pub open spec fn same(&self, other: &AgentSessionCheckpointV2) -> bool {
        &&& self.schema_version@ == other.schema_version@
        &&& self.checkpoint_id@ == other.checkpoint_id@
        &&& self.sequence == other.sequence
        &&& self.session_id@ == other.session_id@
        &&& self.provider_session_id@ == other.provider_session_id@
        &&& self.binding.same(&other.binding)
        &&& self.execution_id@ == other.execution_id@
        &&& self.attempt_id@ == other.attempt_id@
        &&& self.pin().same(&other.pin())
        &&& self.state == other.state
        &&& self.recorded_at@ == other.recorded_at@
    }

    pub fn same_checkpoint(&self, other: &AgentSessionCheckpointV2) -> (res: bool)
        ensures
            res == self.same(other),
    {
        str_eq(self.schema_version.as_str(), other.schema_version.as_str()) && str_eq(
            self.checkpoint_id.as_str(),
            other.checkpoint_id.as_str(),
        ) && self.sequence == other.sequence && str_eq(
            self.session_id.as_str(),
            other.session_id.as_str(),
        ) && str_eq(self.provider_session_id.as_str(), other.provider_session_id.as_str())
            && self.binding.same_binding(&other.binding) && str_eq(
            self.execution_id.as_str(),
            other.execution_id.as_str(),
        ) && str_eq(self.attempt_id.as_str(), other.attempt_id.as_str()) && self.selection_index
            == other.selection_index && self.executor == other.executor && self.provider
            == other.provider && opt_str_eq(&self.model_key, &other.model_key) && opt_str_eq(
            &self.provider_model_id,
            &other.provider_model_id,
        ) && self.state == other.state && str_eq(
            self.recorded_at.as_str(),
            other.recorded_at.as_str(),
        )
    }

    pub open spec fn model_error(&self) -> Option<AgentSessionValidationError> {
        match (self.model_key, self.provider_model_id) {
            (None, None) => None,
            (Some(k), Some(p)) => if is_blank(k@) || is_blank(p@) {
                Some(AgentSessionValidationError::EmptyModelId)
            } else if !is_cli_identifier(k@, MAX_MODEL_KEY_LENGTH) || !is_cli_identifier(
                p@,
                MAX_PROVIDER_MODEL_ID_LENGTH,
            ) {
                Some(AgentSessionValidationError::UnsafeCliIdentifier)
            } else {
                None
            },
            _ => Some(AgentSessionValidationError::UnpairedModelIdentity),
        }
    }

    pub open spec fn validation(&self) -> Result<(), AgentSessionValidationError> {
        if self.schema_version@ != AGENT_SESSION_SCHEMA_V2@ {
            Err(AgentSessionValidationError::WrongSchemaVersion)
        } else if is_blank(self.checkpoint_id@) || is_blank(self.session_id@) || is_blank(
            self.provider_session_id@,
        ) || is_blank(self.execution_id@) || is_blank(self.attempt_id@) {
            Err(AgentSessionValidationError::EmptyIdentity)
        } else if self.sequence == 0 {
            Err(AgentSessionValidationError::InvalidSequence)
        } else if self.executor.provider() != self.provider {
            Err(AgentSessionValidationError::ExecutorProviderMismatch)
        } else if !self.binding.valid() {
            Err(AgentSessionValidationError::InvalidBinding)
        } else if !is_cli_identifier(self.provider_session_id@, MAX_PROVIDER_SESSION_ID_LENGTH) {
            Err(AgentSessionValidationError::UnsafeCliIdentifier)
        } else if let Some(e) = self.model_error() {
            Err(e)
        } else if is_blank(self.recorded_at@) {
            Err(AgentSessionValidationError::EmptyTimestamp)
        } else {
            Ok(())
        }
    }

    pub fn validate(&self) -> (res: Result<(), AgentSessionValidationError>)
        ensures
            res == self.validation(),
    {
        if !str_eq(self.schema_version.as_str(), AGENT_SESSION_SCHEMA_V2) {
            return Err(AgentSessionValidationError::WrongSchemaVersion);
        }
        if blank(self.checkpoint_id.as_str()) || blank(self.session_id.as_str()) || blank(
            self.provider_session_id.as_str(),
        ) || blank(self.execution_id.as_str()) || blank(self.attempt_id.as_str()) {
            return Err(AgentSessionValidationError::EmptyIdentity);
        }
        if self.sequence == 0 {
            return Err(AgentSessionValidationError::InvalidSequence);
        }
        if self.executor.provider() != self.provider {
            return Err(AgentSessionValidationError::ExecutorProviderMismatch);
        }
        if !self.binding.is_valid() {
            return Err(AgentSessionValidationError::InvalidBinding);
        }
        if validate_cli_identifier(
            self.provider_session_id.as_str(),
            MAX_PROVIDER_SESSION_ID_LENGTH,
        ).is_err() {
            return Err(AgentSessionValidationError::UnsafeCliIdentifier);
        }
        match (&self.model_key, &self.provider_model_id) {
            (None, None) => {},
            (Some(k), Some(p)) => {
                if blank(k.as_str()) || blank(p.as_str()) {
                    return Err(AgentSessionValidationError::EmptyModelId);
                }
                if validate_cli_identifier(k.as_str(), MAX_MODEL_KEY_LENGTH).is_err()
                    || validate_cli_identifier(p.as_str(), MAX_PROVIDER_MODEL_ID_LENGTH).is_err() {
                    return Err(AgentSessionValidationError::UnsafeCliIdentifier);
                }
            },
            _ => {
                return Err(AgentSessionValidationError::UnpairedModelIdentity);
            },
        }
        if blank(self.recorded_at.as_str()) {
            return Err(AgentSessionValidationError::EmptyTimestamp);
        }
        Ok(())
    }

    pub open spec fn request_validation(&self, request: AgentTaskRequestV2) -> Result<
        (),
        AgentSessionValidationError,
    > {
        match self.validation() {
            Err(e) => Err(e),
            Ok(_) => if !request.selection.allows(self.pin()) {
                Err(AgentSessionValidationError::CandidateNotAllowed)
            } else {
                Ok(())
            },
        }
    }

    pub fn validate_for_request(&self, request: &AgentTaskRequestV2) -> (res: Result<
        (),
        AgentSessionValidationError,
    >)
        ensures
            res == self.request_validation(*request),
    {
        self.validate()?;
        let pin = self.candidate_pin();
        proof {
            lemma_same_pins_judged_alike(request.selection, pin, self.pin());
        }
        if !request.selection.allows_candidate_pin(&pin) {
            return Err(AgentSessionValidationError::CandidateNotAllowed);
        }
        Ok(())
    }
}

#[derive(Debug, Clone)]
pub struct AgentSessionContinuationV2 {
    pub schema_version: String,
    pub checkpoint_id: String,
    pub sequence: u64,
    pub session_id: String,
    /// The same allowlisted, non-secret identifier captured by the checkpoint.
    pub provider_session_id: String,
    pub binding: AgentExecutionBindingV2,
    pub selection_index: u32,
    pub executor: ExecutorKind,
    pub provider: AgentProvider,
    /// A resolved pair pins the model for resume. Both fields may be absent
    /// only when resuming an unresolved `auto` selection.
    pub model_key: Option<String>,
    pub provider_model_id: Option<String>,
}

impl AgentSessionContinuationV2 {
    pub open spec fn pin(&self) -> AgentCandidatePinV2 {
        pin_of(
            self.selection_index,
            self.executor,
            self.provider,
            self.model_key,
            self.provider_model_id,
        )
    }

    pub fn candidate_pin(&self) -> (res: AgentCandidatePinV2)
        ensures
            res.same(&self.pin()),
    {
        make_pin(
            self.selection_index,
            self.executor,
            self.provider,
            &self.model_key,
            &self.provider_model_id,
        )
    }

    pub fn resolved_model(&self) -> (res: Option<(&str, &str)>)
        ensures
            match res {
                Some((k, p)) => self.pin().resolved() == Some((k@, p@)),
                None => self.pin().resolved() is None,
            },
    {
        match (&self.model_key, &self.provider_model_id) {
            (Some(k), Some(p)) => Some((k.as_str(), p.as_str())),
            _ => None,
        }
    }

    pub open spec fn same(&self, other: &AgentSessionContinuationV2) -> bool {
        &&& self.schema_version@ == other.schema_version@
        &&& self.checkpoint_id@ == other.checkpoint_id@
        &&& self.sequence == other.sequence
        &&& self.session_id@ == other.session_id@
        &&& self.provider_session_id@ == other.provider_session_id@
        &&& self.binding.same(&other.binding)
        &&& self.pin().same(&other.pin())
    }

    pub fn same_continuation(&self, other: &AgentSessionContinuationV2) -> (res: bool)
        ensures
            res == self.same(other),
    {
        str_eq(self.schema_version.as_str(), other.schema_version.as_str()) && str_eq(
            self.checkpoint_id.as_str(),
            other.checkpoint_id.as_str(),
        ) && self.sequence == other.sequence && str_eq(
            self.session_id.as_str(),
            other.session_id.as_str(),
        ) && str_eq(self.provider_session_id.as_str(), other.provider_session_id.as_str())
            && self.binding.same_binding(&other.binding) && self.selection_index
            == other.selection_index && self.executor == other.executor && self.provider
            == other.provider && opt_str_eq(&self.model_key, &other.model_key) && opt_str_eq(
            &self.provider_model_id,
            &other.provider_model_id,
        )
    }

    /// Resumes exactly this checkpoint: same checkpoint, session, binding and
    /// candidate pin.
    pub open spec fn checkpoint_match(&self, checkpoint: AgentSessionCheckpointV2) -> bool {
        &&& self.schema_version@ == AGENT_SESSION_SCHEMA_V2@
        &&& self.checkpoint_id@ == checkpoint.checkpoint_id@
        &&& self.sequence == checkpoint.sequence
        &&& self.session_id@ == checkpoint.session_id@
        &&& self.provider_session_id@ == checkpoint.provider_session_id@
        &&& self.binding.same(&checkpoint.binding)
        &&& self.pin().same(&checkpoint.pin())
    }

    pub fn matches_checkpoint(&self, checkpoint: &AgentSessionCheckpointV2) -> (res: bool)
        ensures
            res == self.checkpoint_match(*checkpoint),
    {
        let a = self.candidate_pin();
        let b = checkpoint.candidate_pin();
        let pins_match = a.same_pin(&b);
        str_eq(self.schema_version.as_str(), AGENT_SESSION_SCHEMA_V2) && str_eq(
            self.checkpoint_id.as_str(),
            checkpoint.checkpoint_id.as_str(),
        ) && self.sequence == checkpoint.sequence && str_eq(
            self.session_id.as_str(),
            checkpoint.session_id.as_str(),
        ) && str_eq(self.provider_session_id.as_str(), checkpoint.provider_session_id.as_str())
            && self.binding.same_binding(&checkpoint.binding) && pins_match
    }

    /// Both model halves present and safe, or both absent.
    pub open spec fn model_pair_safe(&self) -> bool {
        match (self.model_key, self.provider_model_id) {
            (None, None) => true,
            (Some(k), Some(p)) => is_cli_identifier(k@, MAX_MODEL_KEY_LENGTH) && is_cli_identifier(
                p@,
                MAX_PROVIDER_MODEL_ID_LENGTH,
            ),
            _ => false,
        }
    }

    /// A well-formed continuation of the request's own binding that resumes a
    /// candidate the request's selection allows.
    pub open spec fn request_match(&self, request: AgentTaskRequestV2) -> bool {
        &&& self.schema_version@ == AGENT_SESSION_SCHEMA_V2@
        &&& !is_blank(self.checkpoint_id@)
        &&& !is_blank(self.session_id@)
        &&& !is_blank(self.provider_session_id@)
        &&& self.sequence != 0
        &&& self.binding.valid()
        &&& self.binding.same(&request.binding)
        &&& is_cli_identifier(self.provider_session_id@, MAX_PROVIDER_SESSION_ID_LENGTH)
        &&& self.model_pair_safe()
        &&& request.selection.allows(self.pin())
    }

    pub fn matches_request(&self, request: &AgentTaskRequestV2) -> (res: bool)
        ensures
            res == self.request_match(*request),
    {
        if !str_eq(self.schema_version.as_str(), AGENT_SESSION_SCHEMA_V2) || blank(
            self.checkpoint_id.as_str(),
        ) || blank(self.session_id.as_str()) || blank(self.provider_session_id.as_str())
            || self.sequence == 0 || !self.binding.is_valid() || !self.binding.same_binding(
            &request.binding,
        ) || validate_cli_identifier(
            self.provider_session_id.as_str(),
            MAX_PROVIDER_SESSION_ID_LENGTH,
        ).is_err() {
            return false;
        }
        match (&self.model_key, &self.provider_model_id) {
            (None, None) => {},
            (Some(k), Some(p)) => {
                if !(validate_cli_identifier(k.as_str(), MAX_MODEL_KEY_LENGTH).is_ok()
                    && validate_cli_identifier(p.as_str(), MAX_PROVIDER_MODEL_ID_LENGTH).is_ok()) {
                    return false;
                }
            },
            _ => {
                return false;
            },
        }
        let pin = self.candidate_pin();
        proof {
            lemma_same_pins_judged_alike(request.selection, pin, self.pin());
        }
        request.selection.allows_candidate_pin(&pin)
    }

    /// The continuation that resumes `checkpoint`.
    pub fn from(checkpoint: &AgentSessionCheckpointV2) -> (res: Self)
        ensures
            res.schema_version@ == AGENT_SESSION_SCHEMA_V2@,
            res.checkpoint_id@ == checkpoint.checkpoint_id@,
            res.sequence == checkpoint.sequence,
            res.session_id@ == checkpoint.session_id@,
            res.provider_session_id@ == checkpoint.provider_session_id@,
            res.binding.same(&checkpoint.binding),
            res.pin().same(&checkpoint.pin()),
    {
        AgentSessionContinuationV2 {
            schema_version: String::from_str(AGENT_SESSION_SCHEMA_V2),
            checkpoint_id: checkpoint.checkpoint_id.clone(),
            sequence: checkpoint.sequence,
            session_id: checkpoint.session_id.clone(),
            provider_session_id: checkpoint.provider_session_id.clone(),
            binding: clone_binding(&checkpoint.binding),
            selection_index: checkpoint.selection_index,
            executor: checkpoint.executor,
            provider: checkpoint.provider,
            model_key: clone_opt_string(&checkpoint.model_key),
            provider_model_id: clone_opt_string(&checkpoint.provider_model_id),
        }
    }
}

pub fn clone_binding(binding: &AgentExecutionBindingV2) -> (res: AgentExecutionBindingV2)
    ensures
        res.same(binding),
{
    AgentExecutionBindingV2 {
        workspace_binding_id: binding.workspace_binding_id.clone(),
        workspace_binding_generation: binding.workspace_binding_generation,
        runner_id: binding.runner_id.clone(),
    }
}

/// A continuation made from a checkpoint resumes exactly that checkpoint.
pub proof fn lemma_continuation_from_checkpoint_matches(
    checkpoint: AgentSessionCheckpointV2,
    continuation: AgentSessionContinuationV2,
)
    requires
        continuation.schema_version@ == AGENT_SESSION_SCHEMA_V2@,
        continuation.checkpoint_id@ == checkpoint.checkpoint_id@,
        continuation.sequence == checkpoint.sequence,
        continuation.session_id@ == checkpoint.session_id@,
        continuation.provider_session_id@ == checkpoint.provider_session_id@,
        continuation.binding.same(&checkpoint.binding),
        continuation.pin().same(&checkpoint.pin()),
    ensures
        continuation.checkpoint_match(checkpoint),
{
}

/// A checkpoint that is valid for a request, taken on the request's own
/// binding, yields a continuation that the request accepts.
pub proof fn lemma_valid_checkpoint_resumes_request(
    checkpoint: AgentSessionCheckpointV2,
    continuation: AgentSessionContinuationV2,
    request: AgentTaskRequestV2,
)
    requires
        checkpoint.request_validation(request) is Ok,
        checkpoint.binding.same(&request.binding),
        continuation.checkpoint_match(checkpoint),
    ensures
        continuation.request_match(request),
{
    lemma_same_pins_judged_alike(request.selection, continuation.pin(), checkpoint.pin());
}


impl PartialEq for AgentSessionCheckpointV2 {
    fn eq(&self, other: &Self) -> (res: bool) {
        self.same_checkpoint(other)
    }
}

impl PartialEqSpecImpl for AgentSessionCheckpointV2 {
    open spec fn obeys_eq_spec() -> bool {
        true
    }

    open spec fn eq_spec(&self, other: &AgentSessionCheckpointV2) -> bool {
        self.same(other)
    }
}

impl PartialEq for AgentSessionContinuationV2 {
    fn eq(&self, other: &Self) -> (res: bool) {
        self.same_continuation(other)
    }
}

impl PartialEqSpecImpl for AgentSessionContinuationV2 {
    open spec fn obeys_eq_spec() -> bool {
        true
    }

    open spec fn eq_spec(&self, other: &AgentSessionContinuationV2) -> bool {
        self.same(other)
    }
}

/// Checkpoints with the same content are judged alike, on their own and
/// against any request.
pub proof fn lemma_same_checkpoints_judged_alike(
    x: AgentSessionCheckpointV2,
    y: AgentSessionCheckpointV2,
    request: AgentTaskRequestV2,
)
    requires
        x.same(&y),
    ensures
        x.validation() == y.validation(),
        x.request_validation(request) == y.request_validation(request),
{
    lemma_same_pins_judged_alike(request.selection, x.pin(), y.pin());
    assert(x.model_error() == y.model_error());
}

/// Continuations with the same content match the same checkpoints and the
/// same requests.
pub proof fn lemma_same_continuations_judged_alike(
    c: AgentSessionContinuationV2,
    d: AgentSessionContinuationV2,
    x: AgentSessionCheckpointV2,
    y: AgentSessionCheckpointV2,
    request: AgentTaskRequestV2,
)
    requires
        c.same(&d),
        x.same(&y),
    ensures
        c.checkpoint_match(x) == d.checkpoint_match(y),
        c.request_match(request) == d.request_match(request),
{
    lemma_same_pins_judged_alike(request.selection, c.pin(), d.pin());
    assert(c.model_pair_safe() == d.model_pair_safe());
}

} // verus!
