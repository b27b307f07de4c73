//! The runtime capability snapshot that a runner advertises.

use vstd::prelude::*;

use crate::error::AgentRuntimeErrorEnvelopeV2;
use crate::ids::{
    is_cli_identifier, validate_cli_identifier, MAX_MODEL_KEY_LENGTH,
    MAX_PROVIDER_MODEL_ID_LENGTH,
};
use crate::selection::{AgentProvider, ExecutorKind};
use crate::task::ReasoningEffort;
use crate::text::{blank, is_blank, str_eq};

verus! {

pub const AGENT_CAPABILITY_SCHEMA_V2: &'static str = "loomex.agent-capabilities.v2";

/// Runner capability advertised when the local runtime can accept the v2
/// agent task contract.
pub const AGENT_RUNTIME_CAPABILITY_V2: &'static str = "agent.runtime.v2";

#[derive(Debug, Clone, Copy, PartialEq, Eq, Structural)]
pub enum RuntimeReadiness {
    Ready,
    NotInstalled,
    NotAuthenticated,
    Unavailable,
    Degraded,
    Unknown,
}

#[derive(Debug, Clone, Copy, PartialEq, Eq, Structural)]
pub enum InstallationState {
    Installed,
    NotInstalled,
    Unknown,
}

#[derive(Debug, Clone, Copy, PartialEq, Eq, Structural)]
pub enum AuthenticationState {
    Authenticated,
    NotAuthenticated,
    NotRequired,
    Unknown,
}

#[derive(Debug, Clone, Copy, PartialEq, Eq, Structural)]
pub enum ModelDiscoveryKind {
    RuntimeProbe,
    StaticCatalog,
    ProviderDefaultOnly,
    Unknown,
}

#[derive(Debug, Clone, Copy, PartialEq, Eq, Structural)]
pub enum ModelAvailability {
    Available,
    Unavailable,
    Unknown,
}

#[derive(Debug, Clone)]
pub struct AgentModelCapability {
    pub provider: AgentProvider,
    pub model_key: String,
    pub provider_model_id: String,
    pub availability: ModelAvailability,
    pub is_default: bool,
    pub supported_reasoning_efforts: Vec<ReasoningEffort>,
    pub unavailable_reason: Option<String>,
}

#[derive(Debug, Clone, Copy, PartialEq, Eq, Structural)]
pub struct AgentRuntimeFeatures {
    pub structured_output: bool,
    pub session_resume: bool,
    pub cancellation: bool,
    pub reasoning_effort: bool,
}

#[derive(Debug, Clone)]
pub struct AgentExecutorCapability {
    pub executor: ExecutorKind,
    pub provider: AgentProvider,
    pub readiness: RuntimeReadiness,
    pub installation: InstallationState,
    pub authentication: AuthenticationState,
    pub executor_version: Option<String>,
    pub model_discovery: ModelDiscoveryKind,
    pub models: Vec<AgentModelCapability>,
    pub features: AgentRuntimeFeatures,
    pub last_error: Option<AgentRuntimeErrorEnvelopeV2>,
}

#[derive(Debug, Clone)]
pub struct AgentRuntimeCapabilitySnapshotV2 {
    pub schema_version: String,
    pub runner_id: String,
    /// RFC 3339 timestamp supplied by the runtime.
    pub observed_at: String,
    /// Positive freshness window after which callers must probe again.
    pub ttl_seconds: u64,
    pub executors: Vec<AgentExecutorCapability>,
}

#[derive(Debug, Clone, Copy, PartialEq, Eq, Structural)]
pub enum CapabilitySnapshotValidationError {
    WrongSchemaVersion,
    EmptyRunnerId,
    EmptyObservedAt,
    ZeroTtl,
    DuplicateExecutor { executor: ExecutorKind },
    ExecutorProviderMismatch { executor: ExecutorKind },
    EmptyModelIdentity { executor: ExecutorKind, index: usize },
    UnsafeModelIdentity { executor: ExecutorKind, index: usize },
    ModelProviderMismatch { executor: ExecutorKind, index: usize },
    DuplicateModel { executor: ExecutorKind, index: usize },
    InvalidLastError { executor: ExecutorKind },
}

/// Some model in `models[..i]` has the same identity as `models[i]`.
pub open spec fn repeats_earlier_model(models: Seq<AgentModelCapability>, i: int) -> bool {
    exists|j: int|
        0 <= j < i && (#[trigger] models[j]).model_key@ == models[i].model_key@
            && models[j].provider_model_id@ == models[i].provider_model_id@
}

/// The first problem with the model listed at `index`, taken with the ones
/// before it.
pub open spec fn model_error(
    capability: AgentExecutorCapability,
    models: Seq<AgentModelCapability>,
    index: int,
) -> Option<CapabilitySnapshotValidationError> {
    let model = models[index];
    let executor = capability.executor;
    if is_blank(model.model_key@) || is_blank(model.provider_model_id@) {
        Some(CapabilitySnapshotValidationError::EmptyModelIdentity { executor, index: index as usize })
    } else if !is_cli_identifier(model.model_key@, MAX_MODEL_KEY_LENGTH) || !is_cli_identifier(
        model.provider_model_id@,
        MAX_PROVIDER_MODEL_ID_LENGTH,
    ) {
        Some(CapabilitySnapshotValidationError::UnsafeModelIdentity { executor, index: index as usize })
    } else if model.provider != capability.provider {
        Some(
            CapabilitySnapshotValidationError::ModelProviderMismatch { executor, index: index as usize },
        )
    } else if repeats_earlier_model(models, index) {
        Some(CapabilitySnapshotValidationError::DuplicateModel { executor, index: index as usize })
    } else {
        None
    }
}

/// The first problem among the first `n` models of an executor.
pub open spec fn models_prefix_error(capability: AgentExecutorCapability, n: nat) -> Option<
    CapabilitySnapshotValidationError,
>
    decreases n,
{
    if n == 0 {
        None
    } else {
        match models_prefix_error(capability, (n - 1) as nat) {
            Some(e) => Some(e),
            None => model_error(capability, capability.models@, n - 1),
        }
    }
}

/// Some executor in `executors[..i]` is the executor of `executors[i]`.
pub open spec fn repeats_earlier_executor(executors: Seq<AgentExecutorCapability>, i: int) -> bool {
    exists|j: int| 0 <= j < i && (#[trigger] executors[j]).executor == executors[i].executor
}

/// The first problem with the executor listed at `i`, taken with the ones
/// before it.
pub open spec fn executor_error(executors: Seq<AgentExecutorCapability>, i: int) -> Option<
    CapabilitySnapshotValidationError,
> {
    let capability = executors[i];
    let executor = capability.executor;
    if repeats_earlier_executor(executors, i) {
        Some(CapabilitySnapshotValidationError::DuplicateExecutor { executor })
    } else if executor.provider() != capability.provider {
        Some(CapabilitySnapshotValidationError::ExecutorProviderMismatch { executor })
    } else if let Some(e) = models_prefix_error(capability, capability.models@.len()) {
        Some(e)
    } else if capability.last_error matches Some(error) && error.validation() is Err {
        Some(CapabilitySnapshotValidationError::InvalidLastError { executor })
    } else {
        None
    }
}

/// The first problem among the first `n` executors.
pub open spec fn executors_prefix_error(executors: Seq<AgentExecutorCapability>, n: nat) -> Option<
    CapabilitySnapshotValidationError,
>
    decreases n,
{
    if n == 0 {
        None
    } else {
        match executors_prefix_error(executors, (n - 1) as nat) {
            Some(e) => Some(e),
            None => executor_error(executors, n - 1),
        }
    }
}

proof fn lemma_models_error_stable(capability: AgentExecutorCapability, m: nat, n: nat)
    requires
        m <= n,
        models_prefix_error(capability, m) is Some,
    ensures
        models_prefix_error(capability, n) == models_prefix_error(capability, m),
    decreases n - m,
{
    if m < n {
        lemma_models_error_stable(capability, m, (n - 1) as nat);
    }
}

proof fn lemma_executors_error_stable(executors: Seq<AgentExecutorCapability>, m: nat, n: nat)
    requires
        m <= n,
        executors_prefix_error(executors, m) is Some,
    ensures
        executors_prefix_error(executors, n) == executors_prefix_error(executors, m),
    decreases n - m,
{
    if m < n {
        lemma_executors_error_stable(executors, m, (n - 1) as nat);
    }
}

proof fn lemma_executors_error_free(executors: Seq<AgentExecutorCapability>, m: nat, n: nat)
    requires
        m <= n,
        executors_prefix_error(executors, n) is None,
    ensures
        executors_prefix_error(executors, m) is None,
    decreases n - m,
{
    if m < n {
        lemma_executors_error_free(executors, m, (n - 1) as nat);
    }
}

/// Whether the model at `index` repeats the identity of an earlier one.
fn model_repeats(models: &Vec<AgentModelCapability>, index: usize) -> (res: bool)
    requires
        index < models@.len(),
    ensures
        res == repeats_earlier_model(models@, index as int),
{
    let model = &models[index];
    let mut j: usize = 0;
    while j < index
        invariant
            index < models@.len(),
            *model == models@[index as int],
            j <= index,
            forall|k: int|
                0 <= k < j ==> !((#[trigger] models@[k]).model_key@ == model.model_key@
                    && models@[k].provider_model_id@ == model.provider_model_id@),
        decreases index - j,
    {
        if str_eq(models[j].model_key.as_str(), model.model_key.as_str()) && str_eq(
            models[j].provider_model_id.as_str(),
            model.provider_model_id.as_str(),
        ) {
            assert(models@[j as int].model_key@ == model.model_key@);
            return true;
        }
        j = j + 1;
    }
    false
}

/// The first problem with the model at `index`, given the ones before it.
fn check_model(capability: &AgentExecutorCapability, index: usize) -> (res: Option<
    CapabilitySnapshotValidationError,
>)
    requires
        index < capability.models@.len(),
    ensures
        res == model_error(*capability, capability.models@, index as int),
{
    let model = &capability.models[index];
    let executor = capability.executor;
    if blank(model.model_key.as_str()) || blank(model.provider_model_id.as_str()) {
        Some(CapabilitySnapshotValidationError::EmptyModelIdentity { executor, index })
    } else if validate_cli_identifier(model.model_key.as_str(), MAX_MODEL_KEY_LENGTH).is_err()
        || validate_cli_identifier(
        model.provider_model_id.as_str(),
        MAX_PROVIDER_MODEL_ID_LENGTH,
    ).is_err() {
        Some(CapabilitySnapshotValidationError::UnsafeModelIdentity { executor, index })
    } else if model.provider != capability.provider {
        Some(CapabilitySnapshotValidationError::ModelProviderMismatch { executor, index })
    } else if model_repeats(&capability.models, index) {
        Some(CapabilitySnapshotValidationError::DuplicateModel { executor, index })
    } else {
        None
    }
}

fn check_models(capability: &AgentExecutorCapability) -> (res: Option<
    CapabilitySnapshotValidationError,
>)
    ensures
        res == models_prefix_error(*capability, capability.models@.len()),
{
    let mut index: usize = 0;
    while index < capability.models.len()
        invariant
            index <= capability.models@.len(),
            models_prefix_error(*capability, index as nat) is None,
        decreases capability.models@.len() - index,
    {
        let found = check_model(capability, index);
        if found.is_some() {
            proof {
                lemma_models_error_stable(*capability, (index + 1) as nat, capability.models@.len());
            }
            return found;
        }
        index = index + 1;
    }
    None
}

/// Whether the executor at `i` repeats an earlier one.
fn executor_repeats(executors: &Vec<AgentExecutorCapability>, i: usize) -> (res: bool)
    requires
        i < executors@.len(),
    ensures
        res == repeats_earlier_executor(executors@, i as int),
{
    let executor = executors[i].executor;
    let mut j: usize = 0;
    while j < i
        invariant
            i < executors@.len(),
            executor == executors@[i as int].executor,
            j <= i,
            forall|k: int| 0 <= k < j ==> (#[trigger] executors@[k]).executor != executor,
        decreases i - j,
    {
        if executors[j].executor == executor {
            return true;
        }
        j = j + 1;
    }
    false
}

/// The first problem with the executor at `i`, given the ones before it.
fn check_executor(executors: &Vec<AgentExecutorCapability>, i: usize) -> (res: Option<
    CapabilitySnapshotValidationError,
>)
    requires
        i < executors@.len(),
    ensures
        res == executor_error(executors@, i as int),
{
    let capability = &executors[i];
    let executor = capability.executor;
    if executor_repeats(executors, i) {
        return Some(CapabilitySnapshotValidationError::DuplicateExecutor { executor });
    }
    if executor.provider() != capability.provider {
        return Some(CapabilitySnapshotValidationError::ExecutorProviderMismatch { executor });
    }
    let models = check_models(capability);
    if models.is_some() {
        return models;
    }
    let last_error_invalid = match &capability.last_error {
        Some(error) => error.validate().is_err(),
        None => false,
    };
    if last_error_invalid {
        Some(CapabilitySnapshotValidationError::InvalidLastError { executor })
    } else {
        None
    }
}

impl AgentRuntimeCapabilitySnapshotV2 {
    pub open spec fn validation(&self) -> Result<(), CapabilitySnapshotValidationError> {
        if self.schema_version@ != AGENT_CAPABILITY_SCHEMA_V2@ {
            Err(CapabilitySnapshotValidationError::WrongSchemaVersion)
        } else if is_blank(self.runner_id@) {
            Err(CapabilitySnapshotValidationError::EmptyRunnerId)
        } else if is_blank(self.observed_at@) {
            Err(CapabilitySnapshotValidationError::EmptyObservedAt)
        } else if self.ttl_seconds == 0 {
            Err(CapabilitySnapshotValidationError::ZeroTtl)
        } else if let Some(e) = executors_prefix_error(self.executors@, self.executors@.len()) {
            Err(e)
        } else {
            Ok(())
        }
    }

    pub fn validate(&self) -> (res: Result<(), CapabilitySnapshotValidationError>)
        ensures
            res == self.validation(),
    {
        if !str_eq(self.schema_version.as_str(), AGENT_CAPABILITY_SCHEMA_V2) {
            return Err(CapabilitySnapshotValidationError::WrongSchemaVersion);
        }
        if blank(self.runner_id.as_str()) {
            return Err(CapabilitySnapshotValidationError::EmptyRunnerId);
        }
        if blank(self.observed_at.as_str()) {
            return Err(CapabilitySnapshotValidationError::EmptyObservedAt);
        }
        if self.ttl_seconds == 0 {
            return Err(CapabilitySnapshotValidationError::ZeroTtl);
        }
        let mut i: usize = 0;
        while i < self.executors.len()
            invariant
                i <= self.executors@.len(),
                executors_prefix_error(self.executors@, i as nat) is None,
                self.validation() == (if let Some(e) = executors_prefix_error(
                    self.executors@,
                    self.executors@.len(),
                ) {
                    Err::<(), CapabilitySnapshotValidationError>(e)
                } else {
                    Ok(())
                }),
            decreases self.executors@.len() - i,
        {
            if let Some(e) = check_executor(&self.executors, i) {
                proof {
                    lemma_executors_error_stable(self.executors@, (i + 1) as nat, self.executors@.len());
                }
                return Err(e);
            }
            i = i + 1;
        }
        Ok(())
    }
}

/// A valid snapshot lists each executor at most once, each with its own
/// provider.
pub proof fn lemma_valid_snapshot_has_distinct_executors(snapshot: AgentRuntimeCapabilitySnapshotV2)
    requires
        snapshot.validation() is Ok,
    ensures
        forall|i: int, j: int|
            #![trigger snapshot.executors@[i], snapshot.executors@[j]]
            0 <= i < j < snapshot.executors@.len() ==> snapshot.executors@[i].executor
                != snapshot.executors@[j].executor,
        forall|i: int|
            0 <= i < snapshot.executors@.len() ==> (#[trigger] snapshot.executors@[i]).executor.provider()
                == snapshot.executors@[i].provider,
{
    let executors = snapshot.executors@;
    assert forall|i: int, j: int|
        #![trigger executors[i], executors[j]]
        0 <= i < j < executors.len() implies executors[i].executor != executors[j].executor by {
        lemma_executors_error_free(executors, (j + 1) as nat, executors.len());
        assert(!repeats_earlier_executor(executors, j));
    }
    assert forall|i: int| 0 <= i < executors.len() implies (#[trigger] executors[i]).executor.provider()
        == executors[i].provider by {
        lemma_executors_error_free(executors, (i + 1) as nat, executors.len());
    }
}

proof fn lemma_models_error_free(capability: AgentExecutorCapability, m: nat, n: nat)
    requires
        m <= n,
        models_prefix_error(capability, n) is None,
    ensures
        models_prefix_error(capability, m) is None,
    decreases n - m,
{
    if m < n {
        lemma_models_error_free(capability, m, (n - 1) as nat);
    }
}

/// A valid snapshot never lists one model identity twice for an executor:
/// any two models of an executor differ in model key or provider model ID,
/// whether they stand next to each other or far apart.
pub proof fn lemma_valid_snapshot_has_distinct_models(snapshot: AgentRuntimeCapabilitySnapshotV2)
    requires
        snapshot.validation() is Ok,
    ensures
        forall|e: int, i: int, j: int|
            #![trigger snapshot.executors@[e].models@[i], snapshot.executors@[e].models@[j]]
            0 <= e < snapshot.executors@.len() && 0 <= i < j < snapshot.executors@[e].models@.len()
                ==> !(snapshot.executors@[e].models@[i].model_key@
                == snapshot.executors@[e].models@[j].model_key@
                && snapshot.executors@[e].models@[i].provider_model_id@
                == snapshot.executors@[e].models@[j].provider_model_id@),
{
    let executors = snapshot.executors@;
    assert forall|e: int, i: int, j: int|
        #![trigger executors[e].models@[i], executors[e].models@[j]]
        0 <= e < executors.len() && 0 <= i < j < executors[e].models@.len() implies !(
        executors[e].models@[i].model_key@ == executors[e].models@[j].model_key@
            && executors[e].models@[i].provider_model_id@
            == executors[e].models@[j].provider_model_id@) by {
        lemma_executors_error_free(executors, (e + 1) as nat, executors.len());
        let capability = executors[e];
        assert(executor_error(executors, e) is None);
        lemma_models_error_free(capability, (j + 1) as nat, capability.models@.len());
        assert(model_error(capability, capability.models@, j) is None);
        let models = capability.models@;
        if models[i].model_key@ == models[j].model_key@ && models[i].provider_model_id@
            == models[j].provider_model_id@ {
            assert(repeats_earlier_model(models, j));
        }
    }
}

/// In a valid snapshot every model of an executor is served by that
/// executor's provider and has non-blank model key and provider model ID
/// that are safe command-line identifiers, and every recorded last error is
/// a valid envelope.
pub proof fn lemma_valid_snapshot_models_are_sound(snapshot: AgentRuntimeCapabilitySnapshotV2)
    requires
        snapshot.validation() is Ok,
    ensures
        forall|e: int, i: int|
            #![trigger snapshot.executors@[e].models@[i]]
            0 <= e < snapshot.executors@.len() && 0 <= i < snapshot.executors@[e].models@.len() ==> {
                let m = snapshot.executors@[e].models@[i];
                &&& m.provider == snapshot.executors@[e].provider
                &&& !is_blank(m.model_key@)
                &&& !is_blank(m.provider_model_id@)
                &&& is_cli_identifier(m.model_key@, MAX_MODEL_KEY_LENGTH)
                &&& is_cli_identifier(m.provider_model_id@, MAX_PROVIDER_MODEL_ID_LENGTH)
            },
        forall|e: int|
            0 <= e < snapshot.executors@.len() ==> ((#[trigger] snapshot.executors@[e]).last_error matches Some(
                error,
            ) ==> error.validation() is Ok),
{
    let executors = snapshot.executors@;
    assert forall|e: int, i: int|
        #![trigger executors[e].models@[i]]
        0 <= e < executors.len() && 0 <= i < executors[e].models@.len() implies {
        let m = executors[e].models@[i];
        &&& m.provider == executors[e].provider
        &&& !is_blank(m.model_key@)
        &&& !is_blank(m.provider_model_id@)
        &&& is_cli_identifier(m.model_key@, MAX_MODEL_KEY_LENGTH)
        &&& is_cli_identifier(m.provider_model_id@, MAX_PROVIDER_MODEL_ID_LENGTH)
    } by {
        lemma_executors_error_free(executors, (e + 1) as nat, executors.len());
        let capability = executors[e];
        assert(executor_error(executors, e) is None);
        lemma_models_error_free(capability, (i + 1) as nat, capability.models@.len());
        assert(model_error(capability, capability.models@, i) is None);
    }
    assert forall|e: int| 0 <= e < executors.len() implies ((#[trigger] executors[e]).last_error matches Some(
        error,
    ) ==> error.validation() is Ok) by {
        lemma_executors_error_free(executors, (e + 1) as nat, executors.len());
        assert(executor_error(executors, e) is None);
    }
}

} // verus!
