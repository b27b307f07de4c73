//! Executor, provider and model selection, and the candidate pin that an
//! execution binds to one immutable slot of that selection.

use vstd::prelude::*;
use vstd::std_specs::cmp::PartialEqSpecImpl;

use crate::ids::{
    cli_identifier, is_cli_identifier, validate_cli_identifier, CliIdentifierValidationError,
    MAX_MODEL_KEY_LENGTH, MAX_PROVIDER_MODEL_ID_LENGTH,
};
use crate::text::{blank, is_blank, opt_str_eq, opt_view, str_eq};

verus! {

#[derive(Debug, Clone, Copy, PartialEq, Eq, Structural, PartialOrd, Ord, Hash)]
pub enum AgentProvider {
    OpenAi,
    Anthropic,
    Google,
}

#[derive(Debug, Clone, Copy, PartialEq, Eq, Structural, PartialOrd, Ord, Hash)]
pub enum ExecutorKind {
    CodexCli,
    ClaudeCli,
    /// The supported Gemini-compatible command is `agy`; the protocol never
    /// advertises or selects a `gemini_cli` executor.
    AgyCli,
}

impl ExecutorKind {
    pub open spec fn spec_provider(self) -> AgentProvider {
        match self {
            ExecutorKind::CodexCli => AgentProvider::OpenAi,
            ExecutorKind::ClaudeCli => AgentProvider::Anthropic,
            ExecutorKind::AgyCli => AgentProvider::Google,
        }
    }

    /// The one provider each executor speaks to.
    #[verifier::when_used_as_spec(spec_provider)]
    pub fn provider(self) -> (res: AgentProvider)
        ensures
            res == self.spec_provider(),
    {
        match self {
            ExecutorKind::CodexCli => AgentProvider::OpenAi,
            ExecutorKind::ClaudeCli => AgentProvider::Anthropic,
            ExecutorKind::AgyCli => AgentProvider::Google,
        }
    }
}

#[derive(Debug, Clone)]
pub struct ModelTarget {
    pub executor: ExecutorKind,
    pub provider: AgentProvider,
    /// Stable Loomex catalog key used by workflows and persisted attempts.
    pub model_key: String,
    /// Exact provider-facing identifier passed to the selected executor. It
    /// must never be silently replaced by a default or similarly named model.
    pub provider_model_id: String,
}

impl ModelTarget {
    /// Same executor, provider, model key and provider model ID.
    pub open spec fn same(&self, other: &ModelTarget) -> bool {
        &&& self.executor == other.executor
        &&& self.provider == other.provider
        &&& self.model_key@ == other.model_key@
        &&& self.provider_model_id@ == other.provider_model_id@
    }

    pub fn same_target(&self, other: &ModelTarget) -> (res: bool)
        ensures
            res == self.same(other),
    {
        self.executor == other.executor && self.provider == other.provider && str_eq(
            self.model_key.as_str(),
            other.model_key.as_str(),
        ) && str_eq(self.provider_model_id.as_str(), other.provider_model_id.as_str())
    }
}

#[derive(Debug, Clone)]
pub enum ModelSelectionMode {
    Exact { target: ModelTarget },
    /// Delegates primary model choice to a ready executor. Both executor and
    /// provider remain explicit; only the provider-facing model ID is chosen
    /// automatically.
    Auto { executor: ExecutorKind, provider: AgentProvider },
}

#[derive(Debug, Clone)]
pub enum ModelFallbackPolicy {
    NoFallback,
    /// Fallback is permitted only to these exact targets and in this order.
    Ordered { targets: Vec<ModelTarget> },
}

#[derive(Debug, Clone)]
pub struct ModelSelection {
    pub primary: ModelSelectionMode,
    pub fallback: ModelFallbackPolicy,
}

#[derive(Debug, Clone)]
pub struct AgentCandidatePinV2 {
    /// Zero selects the primary slot; one and above select the corresponding
    /// one-based position in the immutable ordered fallback list.
    pub selection_index: u32,
    pub executor: ExecutorKind,
    pub provider: AgentProvider,
    pub model_key: Option<String>,
    pub provider_model_id: Option<String>,
}

#[derive(Debug, Clone, Copy, PartialEq, Eq, Structural)]
pub enum AgentCandidatePinValidationError {
    UnpairedModelIdentity,
    UnsafeModelIdentity,
    CandidateNotAllowed,
    PinnedCandidateChanged,
    ResolvedModelCleared,
}

/// The resolved `(model key, provider model ID)` pair: present only when both
/// halves are.
pub open spec fn resolved_pair(model_key: Option<String>, provider_model_id: Option<String>) -> Option<
    (Seq<char>, Seq<char>),
> {
    match (model_key, provider_model_id) {
        (Some(k), Some(p)) => Some((k@, p@)),
        _ => None,
    }
}

/// Both halves of a model identity present and valid CLI identifiers, or both
/// absent.
pub open spec fn model_pair_result(model_key: Option<String>, provider_model_id: Option<String>) -> Result<
    (),
    AgentCandidatePinValidationError,
> {
    match (model_key, provider_model_id) {
        (None, None) => Ok(()),
        (Some(k), Some(p)) => if is_cli_identifier(k@, MAX_MODEL_KEY_LENGTH) && is_cli_identifier(
            p@,
            MAX_PROVIDER_MODEL_ID_LENGTH,
        ) {
            Ok(())
        } else {
            Err(AgentCandidatePinValidationError::UnsafeModelIdentity)
        },
        _ => Err(AgentCandidatePinValidationError::UnpairedModelIdentity),
    }
}

/// Checks a `(model key, provider model ID)` pair as `model_pair_result` does.
pub fn check_model_pair(model_key: &Option<String>, provider_model_id: &Option<String>) -> (res: Result<
    (),
    AgentCandidatePinValidationError,
>)
    ensures
        res == model_pair_result(*model_key, *provider_model_id),
{
    match (model_key, provider_model_id) {
        (None, None) => Ok(()),
        (Some(k), Some(p)) => {
            if validate_cli_identifier(k.as_str(), MAX_MODEL_KEY_LENGTH).is_ok()
                && validate_cli_identifier(p.as_str(), MAX_PROVIDER_MODEL_ID_LENGTH).is_ok() {
                Ok(())
            } else {
                Err(AgentCandidatePinValidationError::UnsafeModelIdentity)
            }
        },
        _ => Err(AgentCandidatePinValidationError::UnpairedModelIdentity),
    }
}

pub fn clone_opt_string(o: &Option<String>) -> (res: Option<String>)
    ensures
        opt_view(res) == opt_view(*o),
{
    match o {
        Some(s) => Some(s.clone()),
        None => None,
    }
}

impl AgentCandidatePinV2 {
    pub open spec fn resolved(&self) -> Option<(Seq<char>, Seq<char>)> {
        resolved_pair(self.model_key, self.provider_model_id)
    }

    /// Same slot, executor, provider and model fields.
    pub open spec fn same(&self, other: &AgentCandidatePinV2) -> bool {
        &&& self.selection_index == other.selection_index
        &&& self.executor == other.executor
        &&& self.provider == other.provider
        &&& opt_view(self.model_key) == opt_view(other.model_key)
        &&& opt_view(self.provider_model_id) == opt_view(other.provider_model_id)
    }

    pub fn same_pin(&self, other: &AgentCandidatePinV2) -> (res: bool)
        ensures
            res == self.same(other),
    {
        self.selection_index == other.selection_index && self.executor == other.executor
            && self.provider == other.provider && opt_str_eq(&self.model_key, &other.model_key)
            && opt_str_eq(&self.provider_model_id, &other.provider_model_id)
    }

    pub fn resolved_model(&self) -> (res: Option<(&str, &str)>)
        ensures
            match res {
                Some((k, p)) => self.resolved() == Some((k@, p@)),
                None => self.resolved() is None,
            },
    {
        match (&self.model_key, &self.provider_model_id) {
            (Some(k), Some(p)) => Some((k.as_str(), p.as_str())),
            _ => None,
        }
    }

    pub open spec fn identity_result(&self) -> Result<(), AgentCandidatePinValidationError> {
        if self.executor.provider() != self.provider {
            Err(AgentCandidatePinValidationError::CandidateNotAllowed)
        } else {
            model_pair_result(self.model_key, self.provider_model_id)
        }
    }

    pub fn validate_identity(&self) -> (res: Result<(), AgentCandidatePinValidationError>)
        ensures
            res == self.identity_result(),
    {
        if self.executor.provider() != self.provider {
            return Err(AgentCandidatePinValidationError::CandidateNotAllowed);
        }
        check_model_pair(&self.model_key, &self.provider_model_id)
    }
}

/// Whether the pin's resolved model equals `(model_key, provider_model_id)`.
fn resolved_equals(pin: &AgentCandidatePinV2, model_key: &String, provider_model_id: &String) -> (res:
    bool)
    ensures
        res == (pin.resolved() == Some((model_key@, provider_model_id@))),
{
    match pin.resolved_model() {
        Some((k, p)) => str_eq(k, model_key.as_str()) && str_eq(p, provider_model_id.as_str()),
        None => false,
    }
}

#[derive(Debug, Clone, Copy, PartialEq, Eq, Structural)]
pub enum ModelSelectionValidationError {
    EmptyExactModelKey,
    EmptyExactProviderModelId,
    UnsafeExactModelKey(CliIdentifierValidationError),
    UnsafeExactProviderModelId(CliIdentifierValidationError),
    PrimaryExecutorProviderMismatch,
    EmptyFallbackList,
    EmptyFallbackModelKey { index: usize },
    EmptyFallbackProviderModelId { index: usize },
    UnsafeFallbackModelKey { index: usize, source: CliIdentifierValidationError },
    UnsafeFallbackProviderModelId { index: usize, source: CliIdentifierValidationError },
    FallbackExecutorProviderMismatch { index: usize },
    DuplicateFallbackTarget { index: usize },
}

/// The first problem with the primary slot of a selection, if any.
pub open spec fn primary_error(primary: ModelSelectionMode) -> Option<ModelSelectionValidationError> {
    match primary {
        ModelSelectionMode::Exact { target } => if is_blank(target.model_key@) {
            Some(ModelSelectionValidationError::EmptyExactModelKey)
        } else if is_blank(target.provider_model_id@) {
            Some(ModelSelectionValidationError::EmptyExactProviderModelId)
        } else if let Err(e) = cli_identifier(target.model_key@, MAX_MODEL_KEY_LENGTH) {
            Some(ModelSelectionValidationError::UnsafeExactModelKey(e))
        } else if let Err(e) = cli_identifier(
            target.provider_model_id@,
            MAX_PROVIDER_MODEL_ID_LENGTH,
        ) {
            Some(ModelSelectionValidationError::UnsafeExactProviderModelId(e))
        } else if target.executor.provider() != target.provider {
            Some(ModelSelectionValidationError::PrimaryExecutorProviderMismatch)
        } else {
            None
        },
        ModelSelectionMode::Auto { executor, provider } => if executor.provider() != provider {
            Some(ModelSelectionValidationError::PrimaryExecutorProviderMismatch)
        } else {
            None
        },
    }
}

/// The first problem with one fallback target taken on its own, if any.
pub open spec fn fallback_target_error(target: ModelTarget, index: usize) -> Option<
    ModelSelectionValidationError,
> {
    if is_blank(target.model_key@) {
        Some(ModelSelectionValidationError::EmptyFallbackModelKey { index })
    } else if is_blank(target.provider_model_id@) {
        Some(ModelSelectionValidationError::EmptyFallbackProviderModelId { index })
    } else if let Err(source) = cli_identifier(target.model_key@, MAX_MODEL_KEY_LENGTH) {
        Some(ModelSelectionValidationError::UnsafeFallbackModelKey { index, source })
    } else if let Err(source) = cli_identifier(
        target.provider_model_id@,
        MAX_PROVIDER_MODEL_ID_LENGTH,
    ) {
        Some(ModelSelectionValidationError::UnsafeFallbackProviderModelId { index, source })
    } else if target.executor.provider() != target.provider {
        Some(ModelSelectionValidationError::FallbackExecutorProviderMismatch { index })
    } else {
        None
    }
}

/// Some earlier target in `targets[..i]` is the same as `targets[i]`.
pub open spec fn repeats_earlier_target(targets: Seq<ModelTarget>, i: int) -> bool {
    exists|j: int| 0 <= j < i && #[trigger] targets[j].same(&targets[i])
}

/// The first problem among the first `n` fallback targets, checked in order.
pub open spec fn fallback_prefix_error(targets: Seq<ModelTarget>, n: nat) -> Option<
    ModelSelectionValidationError,
>
    decreases n,
{
    if n == 0 {
        None
    } else {
        let i = (n - 1) as int;
        match fallback_prefix_error(targets, (n - 1) as nat) {
            Some(e) => Some(e),
            None => match fallback_target_error(targets[i], i as usize) {
                Some(e) => Some(e),
                None => if repeats_earlier_target(targets, i) {
                    Some(ModelSelectionValidationError::DuplicateFallbackTarget { index: i as usize })
                } else {
                    None
                },
            },
        }
    }
}

pub open spec fn fallback_error(fallback: ModelFallbackPolicy) -> Option<ModelSelectionValidationError> {
    match fallback {
        ModelFallbackPolicy::NoFallback => None,
        ModelFallbackPolicy::Ordered { targets } => if targets@.len() == 0 {
            Some(ModelSelectionValidationError::EmptyFallbackList)
        } else {
            fallback_prefix_error(targets@, targets@.len())
        },
    }
}

/// The pin names exactly this target: its executor, provider and model pair.
pub open spec fn pin_fits_target(pin: AgentCandidatePinV2, target: ModelTarget) -> bool {
    &&& pin.executor == target.executor
    &&& pin.provider == target.provider
    &&& pin.resolved() == Some((target.model_key@, target.provider_model_id@))
}

impl ModelSelection {
    pub open spec fn validation(&self) -> Result<(), ModelSelectionValidationError> {
        match primary_error(self.primary) {
            Some(e) => Err(e),
            None => match fallback_error(self.fallback) {
                Some(e) => Err(e),
                None => Ok(()),
            },
        }
    }

    /// Validates what the wire form alone cannot express. Consumers must
    /// call this before starting an execution.
    pub fn validate(&self) -> (res: Result<(), ModelSelectionValidationError>)
        ensures
            res == self.validation(),
    {
        match &self.primary {
            ModelSelectionMode::Exact { target } => {
                if blank(target.model_key.as_str()) {
                    return Err(ModelSelectionValidationError::EmptyExactModelKey);
                }
                if blank(target.provider_model_id.as_str()) {
                    return Err(ModelSelectionValidationError::EmptyExactProviderModelId);
                }
                if let Err(e) = validate_cli_identifier(
                    target.model_key.as_str(),
                    MAX_MODEL_KEY_LENGTH,
                ) {
                    return Err(ModelSelectionValidationError::UnsafeExactModelKey(e));
                }
                if let Err(e) = validate_cli_identifier(
                    target.provider_model_id.as_str(),
                    MAX_PROVIDER_MODEL_ID_LENGTH,
                ) {
                    return Err(ModelSelectionValidationError::UnsafeExactProviderModelId(e));
                }
                if target.executor.provider() != target.provider {
                    return Err(ModelSelectionValidationError::PrimaryExecutorProviderMismatch);
                }
            },
            ModelSelectionMode::Auto { executor, provider } => {
                if executor.provider() != *provider {
                    return Err(ModelSelectionValidationError::PrimaryExecutorProviderMismatch);
                }
            },
        }
        if let ModelFallbackPolicy::Ordered { targets } = &self.fallback {
            if targets.len() == 0 {
                return Err(ModelSelectionValidationError::EmptyFallbackList);
            }
            let mut index: usize = 0;
            while index < targets.len()
                invariant
                    index <= targets@.len(),
                    primary_error(self.primary) is None,
                    self.fallback == (ModelFallbackPolicy::Ordered { targets: *targets }),
                    targets@.len() > 0,
                    fallback_prefix_error(targets@, index as nat) is None,
                decreases targets@.len() - index,
            {
                if let Some(e) = check_fallback_target(&targets[index], index) {
                    proof {
                        lemma_prefix_error_stable(targets@, (index + 1) as nat, targets@.len());
                    }
                    return Err(e);
                }
                let mut j: usize = 0;
                while j < index
                    invariant
                        index < targets@.len(),
                        primary_error(self.primary) is None,
                        self.fallback == (ModelFallbackPolicy::Ordered { targets: *targets }),
                        fallback_target_error(targets@[index as int], index) is None,
                        fallback_prefix_error(targets@, index as nat) is None,
                        j <= index,
                        forall|k: int| 0 <= k < j ==> !(#[trigger] targets@[k]).same(&targets@[index as int]),
                    decreases index - j,
                {
                    if targets[j].same_target(&targets[index]) {
                        proof {
                            assert(repeats_earlier_target(targets@, index as int));
                            lemma_prefix_error_stable(targets@, (index + 1) as nat, targets@.len());
                        }
                        return Err(
                            ModelSelectionValidationError::DuplicateFallbackTarget { index },
                        );
                    }
                    j = j + 1;
                }
                index = index + 1;
            }
        }
        Ok(())
    }

    pub open spec fn allows(&self, pin: AgentCandidatePinV2) -> bool {
        &&& pin.identity_result() is Ok
        &&& if pin.selection_index == 0 {
            match self.primary {
                ModelSelectionMode::Exact { target } => pin_fits_target(pin, target),
                ModelSelectionMode::Auto { executor, provider } => pin.executor == executor
                    && pin.provider == provider,
            }
        } else {
            match self.fallback {
                ModelFallbackPolicy::Ordered { targets } => pin.selection_index - 1
                    < targets@.len() && pin_fits_target(
                    pin,
                    targets@[pin.selection_index - 1],
                ),
                ModelFallbackPolicy::NoFallback => false,
            }
        }
    }

    /// Returns whether a concrete pin selects exactly one immutable task
    /// candidate. An auto primary may be unresolved (`None/None`) or carry its
    /// once-resolved model; exact and fallback slots require their exact pair.
    pub fn allows_candidate_pin(&self, pin: &AgentCandidatePinV2) -> (res: bool)
        ensures
            res == self.allows(*pin),
    {
        if pin.validate_identity().is_err() {
            return false;
        }
        if pin.selection_index == 0 {
            return match &self.primary {
                ModelSelectionMode::Exact { target } => {
                    pin.executor == target.executor && pin.provider == target.provider
                        && resolved_equals(pin, &target.model_key, &target.provider_model_id)
                },
                ModelSelectionMode::Auto { executor, provider } => {
                    pin.executor == *executor && pin.provider == *provider
                },
            };
        }
        let fallback_index = (pin.selection_index - 1) as usize;
        match &self.fallback {
            ModelFallbackPolicy::Ordered { targets } => {
                if fallback_index < targets.len() {
                    let target = &targets[fallback_index];
                    pin.executor == target.executor && pin.provider == target.provider
                        && resolved_equals(pin, &target.model_key, &target.provider_model_id)
                } else {
                    false
                }
            },
            ModelFallbackPolicy::NoFallback => false,
        }
    }

    pub open spec fn primary_is_auto(&self) -> bool {
        self.primary is Auto
    }

    pub open spec fn transition(
        &self,
        previous: Option<AgentCandidatePinV2>,
        next: AgentCandidatePinV2,
    ) -> Result<(), AgentCandidatePinValidationError> {
        if !self.allows(next) {
            Err(AgentCandidatePinValidationError::CandidateNotAllowed)
        } else {
            match previous {
                None => Ok(()),
                Some(previous) => if !self.allows(previous) {
                    Err(AgentCandidatePinValidationError::CandidateNotAllowed)
                } else if previous.selection_index != next.selection_index || previous.executor
                    != next.executor || previous.provider != next.provider {
                    Err(AgentCandidatePinValidationError::PinnedCandidateChanged)
                } else {
                    match (previous.resolved(), next.resolved()) {
                        (None, None) => Ok(()),
                        (None, Some(_)) => if previous.selection_index == 0
                            && self.primary_is_auto() {
                            Ok(())
                        } else {
                            Err(AgentCandidatePinValidationError::PinnedCandidateChanged)
                        },
                        (Some(p), Some(n)) => if p == n {
                            Ok(())
                        } else {
                            Err(AgentCandidatePinValidationError::PinnedCandidateChanged)
                        },
                        (Some(_), None) => Err(
                            AgentCandidatePinValidationError::ResolvedModelCleared,
                        ),
                    }
                },
            }
        }
    }

    /// Validates deterministic pin evolution. A task may acquire one allowed
    /// pin, then replay only that pin. The sole refinement permitted is an
    /// unresolved auto-primary model becoming resolved exactly once.
    pub fn validate_candidate_pin_transition(
        &self,
        previous: Option<&AgentCandidatePinV2>,
        next: &AgentCandidatePinV2,
    ) -> (res: Result<(), AgentCandidatePinValidationError>)
        ensures
            res == self.transition(
                match previous {
                    Some(p) => Some(*p),
                    None => None,
                },
                *next,
            ),
    {
        if !self.allows_candidate_pin(next) {
            return Err(AgentCandidatePinValidationError::CandidateNotAllowed);
        }
        let previous = match previous {
            Some(p) => p,
            None => {
                return Ok(());
            },
        };
        if !self.allows_candidate_pin(previous) {
            return Err(AgentCandidatePinValidationError::CandidateNotAllowed);
        }
        if previous.selection_index != next.selection_index || previous.executor != next.executor
            || previous.provider != next.provider {
            return Err(AgentCandidatePinValidationError::PinnedCandidateChanged);
        }
        match (previous.resolved_model(), next.resolved_model()) {
            (None, None) => Ok(()),
            (None, Some(_)) => {
                if previous.selection_index == 0 && matches!(
                    &self.primary,
                    ModelSelectionMode::Auto { .. }
                ) {
                    Ok(())
                } else {
                    Err(AgentCandidatePinValidationError::PinnedCandidateChanged)
                }
            },
            (Some((pk, pp)), Some((nk, np))) => {
                if str_eq(pk, nk) && str_eq(pp, np) {
                    Ok(())
                } else {
                    Err(AgentCandidatePinValidationError::PinnedCandidateChanged)
                }
            },
            (Some(_), None) => Err(AgentCandidatePinValidationError::ResolvedModelCleared),
        }
    }
}

fn check_fallback_target(target: &ModelTarget, index: usize) -> (res: Option<
    ModelSelectionValidationError,
>)
    ensures
        res == fallback_target_error(*target, index),
{
    if blank(target.model_key.as_str()) {
        return Some(ModelSelectionValidationError::EmptyFallbackModelKey { index });
    }
    if blank(target.provider_model_id.as_str()) {
        return Some(ModelSelectionValidationError::EmptyFallbackProviderModelId { index });
    }
    if let Err(source) = validate_cli_identifier(target.model_key.as_str(), MAX_MODEL_KEY_LENGTH) {
        return Some(ModelSelectionValidationError::UnsafeFallbackModelKey { index, source });
    }
    if let Err(source) = validate_cli_identifier(
        target.provider_model_id.as_str(),
        MAX_PROVIDER_MODEL_ID_LENGTH,
    ) {
        return Some(ModelSelectionValidationError::UnsafeFallbackProviderModelId { index, source });
    }
    if target.executor.provider() != target.provider {
        return Some(ModelSelectionValidationError::FallbackExecutorProviderMismatch { index });
    }
    None
}

/// Pins with the same content are judged alike.
pub proof fn lemma_same_pins_judged_alike(
    selection: ModelSelection,
    a: AgentCandidatePinV2,
    b: AgentCandidatePinV2,
)
    requires
        a.same(&b),
    ensures
        a.resolved() == b.resolved(),
        a.identity_result() == b.identity_result(),
        selection.allows(a) == selection.allows(b),
{
}

/// The same content as an optional pin.
pub open spec fn same_opt_pin(a: Option<AgentCandidatePinV2>, b: Option<AgentCandidatePinV2>) -> bool {
    match (a, b) {
        (None, None) => true,
        (Some(x), Some(y)) => x.same(&y),
        _ => false,
    }
}

/// Transitions between pins with the same content are judged alike.
pub proof fn lemma_same_pins_transition_alike(
    selection: ModelSelection,
    pa: Option<AgentCandidatePinV2>,
    a: AgentCandidatePinV2,
    pb: Option<AgentCandidatePinV2>,
    b: AgentCandidatePinV2,
)
    requires
        same_opt_pin(pa, pb),
        a.same(&b),
    ensures
        selection.transition(pa, a) == selection.transition(pb, b),
{
    lemma_same_pins_judged_alike(selection, a, b);
    if let (Some(x), Some(y)) = (pa, pb) {
        lemma_same_pins_judged_alike(selection, x, y);
    }
}

/// A valid selection never lists the same fallback target twice.
pub proof fn lemma_valid_selection_has_distinct_fallbacks(selection: ModelSelection)
    requires
        selection.validation() is Ok,
    ensures
        selection.fallback matches ModelFallbackPolicy::Ordered { targets } ==> {
            &&& targets@.len() > 0
            &&& forall|i: int, j: int|
                #![trigger targets@[i], targets@[j]]
                0 <= i < j < targets@.len() ==> !targets@[i].same(&targets@[j])
        },
{
    if let ModelFallbackPolicy::Ordered { targets } = selection.fallback {
        assert forall|i: int, j: int|
            #![trigger targets@[i], targets@[j]]
            0 <= i < j < targets@.len() implies !targets@[i].same(&targets@[j]) by {
            lemma_prefix_error_free(targets@, targets@.len(), (j + 1) as nat);
            assert(!repeats_earlier_target(targets@, j));
        }
    }
}

proof fn lemma_prefix_error_stable(targets: Seq<ModelTarget>, m: nat, n: nat)
    requires
        m <= n,
        fallback_prefix_error(targets, m) is Some,
    ensures
        fallback_prefix_error(targets, n) == fallback_prefix_error(targets, m),
    decreases n - m,
{
    if m < n {
        lemma_prefix_error_stable(targets, m, (n - 1) as nat);
    }
}

proof fn lemma_prefix_error_free(targets: Seq<ModelTarget>, n: nat, m: nat)
    requires
        m <= n,
        fallback_prefix_error(targets, n) is None,
    ensures
        fallback_prefix_error(targets, m) is None,
    decreases n - m,
{
    if m < n {
        lemma_prefix_error_free(targets, (n - 1) as nat, m);
    }
}

/// A first pin is accepted exactly when the selection allows it, and an
/// allowed pin may always be replayed unchanged.
pub proof fn lemma_pin_first_assignment_and_replay(selection: ModelSelection, pin: AgentCandidatePinV2)
    ensures
        selection.transition(None, pin) is Ok <==> selection.allows(pin),
        selection.allows(pin) ==> selection.transition(Some(pin), pin) is Ok,
{
}

/// Once a pin is accepted, a later pin keeps its slot, executor and
/// provider; a resolved model is never cleared or replaced; and a model may
/// only become resolved on an auto primary slot.
pub proof fn lemma_pin_single_assignment(
    selection: ModelSelection,
    previous: AgentCandidatePinV2,
    next: AgentCandidatePinV2,
)
    requires
        selection.transition(Some(previous), next) is Ok,
    ensures
        selection.allows(previous),
        selection.allows(next),
        next.selection_index == previous.selection_index,
        next.executor == previous.executor,
        next.provider == previous.provider,
        previous.resolved() is Some ==> next.resolved() == previous.resolved(),
        previous.resolved() is None && next.resolved() is Some ==> next.selection_index == 0
            && selection.primary_is_auto(),
{
}

/// An allowed pin always names an executor together with that executor's own
/// provider, and a safe, paired model identity or none.
pub proof fn lemma_allowed_pin_is_coherent(selection: ModelSelection, pin: AgentCandidatePinV2)
    requires
        selection.allows(pin),
    ensures
        pin.executor.provider() == pin.provider,
        model_pair_result(pin.model_key, pin.provider_model_id) is Ok,
{
}


impl PartialEq for ModelTarget {
    fn eq(&self, other: &Self) -> (res: bool) {
        self.same_target(other)
    }
}

impl PartialEqSpecImpl for ModelTarget {
    open spec fn obeys_eq_spec() -> bool {
        true
    }

    open spec fn eq_spec(&self, other: &ModelTarget) -> bool {
        self.same(other)
    }
}

impl PartialEq for AgentCandidatePinV2 {
    fn eq(&self, other: &Self) -> (res: bool) {
        self.same_pin(other)
    }
}

impl PartialEqSpecImpl for AgentCandidatePinV2 {
    open spec fn obeys_eq_spec() -> bool {
        true
    }

    open spec fn eq_spec(&self, other: &AgentCandidatePinV2) -> bool {
        self.same(other)
    }
}

/// An allowed pin names its slot exactly. The primary slot of an exact
/// selection takes the target's executor, provider, model key and provider
/// model ID, none of them replaced; the primary slot of an auto selection
/// takes its executor and provider; a fallback slot `n` takes the `n`-th
/// ordered target exactly, and there is none without an ordered fallback.
pub proof fn lemma_allowed_pin_names_its_slot(selection: ModelSelection, pin: AgentCandidatePinV2)
    requires
        selection.allows(pin),
    ensures
        pin.selection_index == 0 ==> match selection.primary {
            ModelSelectionMode::Exact { target } => {
                &&& pin.executor == target.executor
                &&& pin.provider == target.provider
                &&& opt_view(pin.model_key) == Some(target.model_key@)
                &&& opt_view(pin.provider_model_id) == Some(target.provider_model_id@)
            },
            ModelSelectionMode::Auto { executor, provider } => pin.executor == executor
                && pin.provider == provider,
        },
        pin.selection_index > 0 ==> match selection.fallback {
            ModelFallbackPolicy::Ordered { targets } => {
                &&& pin.selection_index <= targets@.len()
                &&& pin.executor == targets@[pin.selection_index - 1].executor
                &&& pin.provider == targets@[pin.selection_index - 1].provider
                &&& opt_view(pin.model_key) == Some(targets@[pin.selection_index - 1].model_key@)
                &&& opt_view(pin.provider_model_id) == Some(
                    targets@[pin.selection_index - 1].provider_model_id@,
                )
            },
            ModelFallbackPolicy::NoFallback => false,
        },
        pin.executor.provider() == pin.provider,
{
}

/// A transition is accepted only into a pin that names its slot exactly,
/// and, from an earlier pin, only with the same slot, executor and
/// provider, and a model that is either unchanged or the once-only
/// resolution of an unresolved auto primary.
pub proof fn lemma_accepted_transition_keeps_the_pin(
    selection: ModelSelection,
    previous: Option<AgentCandidatePinV2>,
    next: AgentCandidatePinV2,
)
    requires
        selection.transition(previous, next) is Ok,
    ensures
        selection.allows(next),
        previous matches Some(p) ==> {
            &&& selection.allows(p)
            &&& p.selection_index == next.selection_index
            &&& p.executor == next.executor
            &&& p.provider == next.provider
            &&& (p.model_key is Some || p.provider_model_id is Some) ==> (opt_view(p.model_key)
                == opt_view(next.model_key) && opt_view(p.provider_model_id) == opt_view(
                next.provider_model_id,
            ))
            &&& (p.model_key is None && p.provider_model_id is None && (next.model_key is Some
                || next.provider_model_id is Some)) ==> (next.selection_index == 0
                && selection.primary is Auto)
        },
{
    lemma_allowed_pin_names_its_slot(selection, next);
    if let Some(p) = previous {
        lemma_allowed_pin_names_its_slot(selection, p);
    }
}

} // verus!
