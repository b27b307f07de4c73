//! The typed, redacted runtime error envelope.

use vstd::prelude::*;
use vstd::std_specs::cmp::PartialEqSpecImpl;

use crate::ids::{is_cli_identifier, validate_cli_identifier, MAX_MODEL_KEY_LENGTH, MAX_PROVIDER_MODEL_ID_LENGTH};
use crate::selection::{AgentProvider, ExecutorKind};
use crate::text::{blank, is_blank, opt_str_eq, opt_view, str_eq};

verus! {

pub const AGENT_ERROR_SCHEMA_V2: &'static str = "loomex.agent-error.v2";

/// The `safeDetails` key that carries a machine-readable reason.
pub const REASON_CODE_DETAIL_KEY: &'static str = "reasonCode";

pub const EXECUTOR_VERSION_UNVERIFIED_REASON_CODE: &'static str = "executor_version_unverified";

#[derive(Debug, Clone, Copy, PartialEq, Eq, Structural)]
pub enum AgentErrorCode {
    InvalidRequest,
    ProtocolMismatch,
    ProviderNotInstalled,
    ProviderNotAuthenticated,
    /// The executable is installed and authenticated, but the current
    /// account, organization, plan, or region is not eligible for access.
    ProviderNotEligible,
    /// A valid v2 dispatch reached the bound runner while its local v2
    /// execution kill switch was disabled. No provider process was spawned.
    AgentRuntimeV2Disabled,
    RuntimeUnavailable,
    ModelUnknown,
    ModelNotAvailable,
    UnsupportedCapability,
    RateLimited,
    NetworkError,
    Timeout,
    Cancelled,
    OutputInvalid,
    SessionNotFound,
    SessionMismatch,
    ExecutionFailed,
    ExecutionIndeterminate,
    InternalError,
}

#[derive(Debug, Clone, Copy, PartialEq, Eq, Structural)]
pub enum AgentErrorCategory {
    Validation,
    Protocol,
    Availability,
    Authentication,
    Authorization,
    Capacity,
    Transport,
    Execution,
    Output,
    Continuity,
    Internal,
}

impl AgentErrorCode {
    pub open spec fn spec_category(self) -> AgentErrorCategory {
        match self {
            AgentErrorCode::InvalidRequest | AgentErrorCode::ModelUnknown
            | AgentErrorCode::UnsupportedCapability => AgentErrorCategory::Validation,
            AgentErrorCode::ProtocolMismatch => AgentErrorCategory::Protocol,
            AgentErrorCode::ProviderNotInstalled | AgentErrorCode::AgentRuntimeV2Disabled
            | AgentErrorCode::RuntimeUnavailable
            | AgentErrorCode::ModelNotAvailable => AgentErrorCategory::Availability,
            AgentErrorCode::ProviderNotAuthenticated => AgentErrorCategory::Authentication,
            AgentErrorCode::ProviderNotEligible => AgentErrorCategory::Authorization,
            AgentErrorCode::RateLimited => AgentErrorCategory::Capacity,
            AgentErrorCode::NetworkError | AgentErrorCode::Timeout => AgentErrorCategory::Transport,
            AgentErrorCode::Cancelled | AgentErrorCode::ExecutionFailed
            | AgentErrorCode::ExecutionIndeterminate => AgentErrorCategory::Execution,
            AgentErrorCode::OutputInvalid => AgentErrorCategory::Output,
            AgentErrorCode::SessionNotFound
            | AgentErrorCode::SessionMismatch => AgentErrorCategory::Continuity,
            AgentErrorCode::InternalError => AgentErrorCategory::Internal,
        }
    }

    /// The one stable category of each code.
    #[verifier::when_used_as_spec(spec_category)]
    pub fn category(self) -> (res: AgentErrorCategory)
        ensures
            res == self.spec_category(),
    {
        match self {
            AgentErrorCode::InvalidRequest | AgentErrorCode::ModelUnknown
            | AgentErrorCode::UnsupportedCapability => AgentErrorCategory::Validation,
            AgentErrorCode::ProtocolMismatch => AgentErrorCategory::Protocol,
            AgentErrorCode::ProviderNotInstalled | AgentErrorCode::AgentRuntimeV2Disabled
            | AgentErrorCode::RuntimeUnavailable
            | AgentErrorCode::ModelNotAvailable => AgentErrorCategory::Availability,
            AgentErrorCode::ProviderNotAuthenticated => AgentErrorCategory::Authentication,
            AgentErrorCode::ProviderNotEligible => AgentErrorCategory::Authorization,
            AgentErrorCode::RateLimited => AgentErrorCategory::Capacity,
            AgentErrorCode::NetworkError | AgentErrorCode::Timeout => AgentErrorCategory::Transport,
            AgentErrorCode::Cancelled | AgentErrorCode::ExecutionFailed
            | AgentErrorCode::ExecutionIndeterminate => AgentErrorCategory::Execution,
            AgentErrorCode::OutputInvalid => AgentErrorCategory::Output,
            AgentErrorCode::SessionNotFound
            | AgentErrorCode::SessionMismatch => AgentErrorCategory::Continuity,
            AgentErrorCode::InternalError => AgentErrorCategory::Internal,
        }
    }
}

#[derive(Debug, Clone, Copy, PartialEq, Eq, Structural)]
pub enum AgentRetryDisposition {
    Never,
    Retryable,
    UserActionRequired,
    ResumeRequired,
}

#[derive(Debug, Clone, Copy, PartialEq, Eq, Structural)]
pub enum AgentRemediationAction {
    InstallExecutor,
    /// Install a newer supported version of an already discovered executor.
    UpgradeExecutor,
    /// Re-run executable discovery when an executor was installed or moved
    /// after setup and the daemon's persisted absolute location is stale.
    RefreshExecutorDiscovery,
    Authenticate,
    VerifyProviderAccess,
    SelectDifferentModel,
    Retry,
    ResumeSession,
    ReconfigureWorkflow,
    ContactSupport,
}

/// The value of the first detail named `key`, if any.
pub open spec fn detail_value(details: Seq<(String, String)>, key: Seq<char>) -> Option<Seq<char>>
    decreases details.len(),
{
    if details.len() == 0 {
        None
    } else if details[0].0@ == key {
        Some(details[0].1@)
    } else {
        detail_value(details.drop_first(), key)
    }
}

/// Each detail key is listed at most once, as in the map the details stand
/// for.
pub open spec fn detail_keys_distinct(details: Seq<(String, String)>) -> bool {
    forall|i: int, j: int|
        #![trigger details[i], details[j]]
        0 <= i < j < details.len() ==> details[i].0@ != details[j].0@
}

/// No detail is found under a key that no entry has, and one is found under
/// every key that an entry has.
pub proof fn lemma_detail_absent(details: Seq<(String, String)>, key: Seq<char>)
    ensures
        detail_value(details, key) is None <==> forall|i: int|
            0 <= i < details.len() ==> (#[trigger] details[i]).0@ != key,
    decreases details.len(),
{
    if details.len() > 0 {
        let rest = details.drop_first();
        lemma_detail_absent(rest, key);
        if detail_value(details, key) is None {
            assert forall|i: int| 0 <= i < details.len() implies (#[trigger] details[i]).0@ != key by {
                if i > 0 {
                    assert(rest[i - 1] == details[i]);
                }
            }
        } else {
            if details[0].0@ != key {
                let k = choose|k: int| 0 <= k < rest.len() && (#[trigger] rest[k]).0@ == key;
                assert(details[k + 1] == rest[k]);
            }
        }
    }
}

/// With each key listed once, the value found under a key is the one of the
/// entry with that key, wherever it stands, as in a map.
pub proof fn lemma_detail_lookup(details: Seq<(String, String)>, i: int)
    requires
        detail_keys_distinct(details),
        0 <= i < details.len(),
    ensures
        detail_value(details, details[i].0@) == Some(details[i].1@),
    decreases i,
{
    if i > 0 {
        let rest = details.drop_first();
        assert(details[0].0@ != details[i].0@);
        assert(rest[i - 1] == details[i]);
        assert(detail_keys_distinct(rest)) by {
            assert forall|a: int, b: int|
                #![trigger rest[a], rest[b]]
                0 <= a < b < rest.len() implies rest[a].0@ != rest[b].0@ by {
                assert(rest[a] == details[a + 1]);
                assert(rest[b] == details[b + 1]);
            }
        }
        lemma_detail_lookup(rest, i - 1);
    }
}

/// The value of the first detail named `key`.
pub fn get_detail<'a>(details: &'a Vec<(String, String)>, key: &str) -> (res: Option<&'a String>)
    ensures
        match res {
            Some(v) => detail_value(details@, key@) == Some(v@),
            None => detail_value(details@, key@) is None,
        },
{
    let mut i: usize = 0;
    assert(details@.skip(0) =~= details@);
    while i < details.len()
        invariant
            i <= details@.len(),
            detail_value(details@, key@) == detail_value(details@.skip(i as int), key@),
        decreases details@.len() - i,
    {
        assert(details@.skip(i as int).drop_first() =~= details@.skip(i + 1));
        if str_eq(details[i].0.as_str(), key) {
            return Some(&details[i].1);
        }
        i = i + 1;
    }
    None
}

/// The same details as maps, whatever their order: as many entries, and
/// the same value, or none, under every key.
pub open spec fn same_details(a: Seq<(String, String)>, b: Seq<(String, String)>) -> bool {
    &&& a.len() == b.len()
    &&& forall|key: Seq<char>| #[trigger] detail_value(a, key) == detail_value(b, key)
}

/// Both absent, or both present with the same content.
fn same_found(x: Option<&String>, y: Option<&String>) -> (res: bool)
    ensures
        res == (match (x, y) {
            (Some(v), Some(w)) => v@ == w@,
            (None, None) => true,
            _ => false,
        }),
{
    match (x, y) {
        (Some(v), Some(w)) => str_eq(v.as_str(), w.as_str()),
        (None, None) => true,
        _ => false,
    }
}

pub fn details_eq(a: &Vec<(String, String)>, b: &Vec<(String, String)>) -> (res: bool)
    ensures
        res == same_details(a@, b@),
{
    if a.len() != b.len() {
        return false;
    }
    let mut i: usize = 0;
    while i < a.len()
        invariant
            a@.len() == b@.len(),
            i <= a@.len(),
            forall|j: int|
                0 <= j < i ==> detail_value(a@, (#[trigger] a@[j]).0@) == detail_value(b@, a@[j].0@),
        decreases a@.len() - i,
    {
        let key = a[i].0.as_str();
        if !same_found(get_detail(a, key), get_detail(b, key)) {
            return false;
        }
        i = i + 1;
    }
    let mut j: usize = 0;
    while j < b.len()
        invariant
            a@.len() == b@.len(),
            j <= b@.len(),
            forall|k: int|
                0 <= k < a@.len() ==> detail_value(a@, (#[trigger] a@[k]).0@) == detail_value(b@, a@[k].0@),
            forall|k: int|
                0 <= k < j ==> detail_value(a@, (#[trigger] b@[k]).0@) == detail_value(b@, b@[k].0@),
        decreases b@.len() - j,
    {
        let key = b[j].0.as_str();
        if !same_found(get_detail(a, key), get_detail(b, key)) {
            return false;
        }
        j = j + 1;
    }
    proof {
        assert forall|key: Seq<char>| #[trigger] detail_value(a@, key) == detail_value(b@, key) by {
            lemma_detail_absent(a@, key);
            lemma_detail_absent(b@, key);
        }
    }
    true
}

#[derive(Debug, Clone)]
pub struct AgentErrorContext {
    pub executor: Option<ExecutorKind>,
    pub provider: Option<AgentProvider>,
    pub requested_model_key: Option<String>,
    pub requested_provider_model_id: Option<String>,
    pub resolved_model_key: Option<String>,
    pub resolved_provider_model_id: Option<String>,
    pub execution_id: Option<String>,
    pub attempt_id: Option<String>,
    pub session_id: Option<String>,
    /// Redacted, user-safe scalar diagnostics, one entry per distinct key in
    /// key order (see `details_keyed_once`). Runtime stderr, credentials,
    /// executable paths, environment values, and raw provider payloads must
    /// never be placed here.
    pub safe_details: Vec<(String, String)>,
}

impl AgentErrorContext {
    /// The safe details stand for a map: each key is listed once.
    pub open spec fn details_keyed_once(&self) -> bool {
        detail_keys_distinct(self.safe_details@)
    }

    pub open spec fn same(&self, other: &AgentErrorContext) -> bool {
        &&& self.executor == other.executor
        &&& self.provider == other.provider
        &&& opt_view(self.requested_model_key) == opt_view(other.requested_model_key)
        &&& opt_view(self.requested_provider_model_id) == opt_view(
            other.requested_provider_model_id,
        )
        &&& opt_view(self.resolved_model_key) == opt_view(other.resolved_model_key)
        &&& opt_view(self.resolved_provider_model_id) == opt_view(other.resolved_provider_model_id)
        &&& opt_view(self.execution_id) == opt_view(other.execution_id)
        &&& opt_view(self.attempt_id) == opt_view(other.attempt_id)
        &&& opt_view(self.session_id) == opt_view(other.session_id)
        &&& same_details(self.safe_details@, other.safe_details@)
    }

    pub fn same_context(&self, other: &AgentErrorContext) -> (res: bool)
        ensures
            res == self.same(other),
    {
        self.executor == other.executor && self.provider == other.provider && opt_str_eq(
            &self.requested_model_key,
            &other.requested_model_key,
        ) && opt_str_eq(&self.requested_provider_model_id, &other.requested_provider_model_id)
            && opt_str_eq(&self.resolved_model_key, &other.resolved_model_key) && opt_str_eq(
            &self.resolved_provider_model_id,
            &other.resolved_provider_model_id,
        ) && opt_str_eq(&self.execution_id, &other.execution_id) && opt_str_eq(
            &self.attempt_id,
            &other.attempt_id,
        ) && opt_str_eq(&self.session_id, &other.session_id) && details_eq(
            &self.safe_details,
            &other.safe_details,
        )
    }

    /// The value of the `reasonCode` detail.
    pub open spec fn reason_code(&self) -> Option<Seq<char>> {
        detail_value(self.safe_details@, REASON_CODE_DETAIL_KEY@)
    }
}

impl Default for AgentErrorContext {
    fn default() -> (res: Self)
        ensures
            res.executor is None,
            res.provider is None,
            res.requested_model_key is None,
            res.requested_provider_model_id is None,
            res.resolved_model_key is None,
            res.resolved_provider_model_id is None,
            res.execution_id is None,
            res.attempt_id is None,
            res.session_id is None,
            res.safe_details@.len() == 0,
    {
        AgentErrorContext {
            executor: None,
            provider: None,
            requested_model_key: None,
            requested_provider_model_id: None,
            resolved_model_key: None,
            resolved_provider_model_id: None,
            execution_id: None,
            attempt_id: None,
            session_id: None,
            safe_details: Vec::new(),
        }
    }
}

impl PartialEq for AgentErrorContext {
    fn eq(&self, other: &Self) -> (res: bool) {
        self.same_context(other)
    }
}

impl PartialEqSpecImpl for AgentErrorContext {
    open spec fn obeys_eq_spec() -> bool {
        true
    }

    open spec fn eq_spec(&self, other: &AgentErrorContext) -> bool {
        self.same(other)
    }
}

#[derive(Debug, Clone)]
pub struct AgentRuntimeErrorEnvelopeV2 {
    pub schema_version: String,
    pub code: AgentErrorCode,
    pub category: AgentErrorCategory,
    /// Stable, redacted explanation safe for persistence and display.
    pub message: String,
    pub retry: AgentRetryDisposition,
    pub retry_after_seconds: Option<u64>,
    pub remediation: Vec<AgentRemediationAction>,
    pub context: AgentErrorContext,
}

#[derive(Debug, Clone, Copy, PartialEq, Eq, Structural)]
pub enum AgentErrorValidationError {
    WrongSchemaVersion,
    CategoryMismatch,
    EmptyMessage,
    RetryDelayWithoutRetryableDisposition,
    UserActionWithoutRemediation,
    UnpairedResolvedModelIdentity,
    UnsafeResolvedModelIdentity,
    VersionGateRemediationMismatch,
}

/// The remediation an executor version gate must carry: upgrade, then
/// refresh discovery.
pub open spec fn version_gate_remediation() -> Seq<AgentRemediationAction> {
    seq![AgentRemediationAction::UpgradeExecutor, AgentRemediationAction::RefreshExecutorDiscovery]
}

impl AgentRuntimeErrorEnvelopeV2 {
    pub open spec fn same(&self, other: &AgentRuntimeErrorEnvelopeV2) -> bool {
        &&& self.schema_version@ == other.schema_version@
        &&& self.code == other.code
        &&& self.category == other.category
        &&& self.message@ == other.message@
        &&& self.retry == other.retry
        &&& self.retry_after_seconds == other.retry_after_seconds
        &&& self.remediation@ == other.remediation@
        &&& self.context.same(&other.context)
    }

    pub fn same_error(&self, other: &AgentRuntimeErrorEnvelopeV2) -> (res: bool)
        ensures
            res == self.same(other),
    {
        if !(str_eq(self.schema_version.as_str(), other.schema_version.as_str()) && self.code
            == other.code && self.category == other.category && str_eq(
            self.message.as_str(),
            other.message.as_str(),
        ) && self.retry == other.retry && self.retry_after_seconds == other.retry_after_seconds) {
            return false;
        }
        if self.remediation.len() != other.remediation.len() {
            return false;
        }
        let mut i: usize = 0;
        while i < self.remediation.len()
            invariant
                self.remediation@.len() == other.remediation@.len(),
                i <= self.remediation@.len(),
                forall|j: int| 0 <= j < i ==> self.remediation@[j] == other.remediation@[j],
            decreases self.remediation@.len() - i,
        {
            if self.remediation[i] != other.remediation[i] {
                return false;
            }
            i = i + 1;
        }
        assert(self.remediation@ =~= other.remediation@);
        self.context.same_context(&other.context)
    }

    pub open spec fn resolved_model_error(&self) -> Option<AgentErrorValidationError> {
        match (self.context.resolved_model_key, self.context.resolved_provider_model_id) {
            (None, None) => None,
            (Some(k), Some(p)) => if is_cli_identifier(k@, MAX_MODEL_KEY_LENGTH)
                && is_cli_identifier(p@, MAX_PROVIDER_MODEL_ID_LENGTH) {
                None
            } else {
                Some(AgentErrorValidationError::UnsafeResolvedModelIdentity)
            },
            _ => Some(AgentErrorValidationError::UnpairedResolvedModelIdentity),
        }
    }

    pub open spec fn validation(&self) -> Result<(), AgentErrorValidationError> {
        if self.schema_version@ != AGENT_ERROR_SCHEMA_V2@ {
            Err(AgentErrorValidationError::WrongSchemaVersion)
        } else if self.category != self.code.category() {
            Err(AgentErrorValidationError::CategoryMismatch)
        } else if is_blank(self.message@) {
            Err(AgentErrorValidationError::EmptyMessage)
        } else if self.retry_after_seconds is Some && self.retry
            != AgentRetryDisposition::Retryable {
            Err(AgentErrorValidationError::RetryDelayWithoutRetryableDisposition)
        } else if self.retry == AgentRetryDisposition::UserActionRequired
            && self.remediation@.len() == 0 {
            Err(AgentErrorValidationError::UserActionWithoutRemediation)
        } else if let Some(e) = self.resolved_model_error() {
            Err(e)
        } else if self.context.reason_code() == Some(EXECUTOR_VERSION_UNVERIFIED_REASON_CODE@) && (
        self.code != AgentErrorCode::UnsupportedCapability || self.retry
            != AgentRetryDisposition::UserActionRequired || self.remediation@
            != version_gate_remediation()) {
            Err(AgentErrorValidationError::VersionGateRemediationMismatch)
        } else {
            Ok(())
        }
    }

    pub fn validate(&self) -> (res: Result<(), AgentErrorValidationError>)
        ensures
            res == self.validation(),
    {
        if !str_eq(self.schema_version.as_str(), AGENT_ERROR_SCHEMA_V2) {
            return Err(AgentErrorValidationError::WrongSchemaVersion);
        }
        if self.category != self.code.category() {
            return Err(AgentErrorValidationError::CategoryMismatch);
        }
        if blank(self.message.as_str()) {
            return Err(AgentErrorValidationError::EmptyMessage);
        }
        if self.retry_after_seconds.is_some() && self.retry != AgentRetryDisposition::Retryable {
            return Err(AgentErrorValidationError::RetryDelayWithoutRetryableDisposition);
        }
        if self.retry == AgentRetryDisposition::UserActionRequired && self.remediation.len() == 0 {
            return Err(AgentErrorValidationError::UserActionWithoutRemediation);
        }
        match (&self.context.resolved_model_key, &self.context.resolved_provider_model_id) {
            (None, None) => {},
            (Some(k), Some(p)) => {
                if !(validate_cli_identifier(k.as_str(), MAX_MODEL_KEY_LENGTH).is_ok()
                    && validate_cli_identifier(p.as_str(), MAX_PROVIDER_MODEL_ID_LENGTH).is_ok()) {
                    return Err(AgentErrorValidationError::UnsafeResolvedModelIdentity);
                }
            },
            _ => {
                return Err(AgentErrorValidationError::UnpairedResolvedModelIdentity);
            },
        }
        let is_version_gate = match get_detail(&self.context.safe_details, REASON_CODE_DETAIL_KEY) {
            Some(reason) => str_eq(reason.as_str(), EXECUTOR_VERSION_UNVERIFIED_REASON_CODE),
            None => false,
        };
        if is_version_gate {
            let remediation_is_gate = self.remediation.len() == 2 && self.remediation[0]
                == AgentRemediationAction::UpgradeExecutor && self.remediation[1]
                == AgentRemediationAction::RefreshExecutorDiscovery;
            assert(remediation_is_gate == (self.remediation@ == version_gate_remediation())) by {
                if remediation_is_gate {
                    assert(self.remediation@ =~= version_gate_remediation());
                }
            }
            if self.code != AgentErrorCode::UnsupportedCapability || self.retry
                != AgentRetryDisposition::UserActionRequired || !remediation_is_gate {
                return Err(AgentErrorValidationError::VersionGateRemediationMismatch);
            }
        }
        Ok(())
    }
}

impl PartialEq for AgentRuntimeErrorEnvelopeV2 {
    fn eq(&self, other: &Self) -> (res: bool) {
        self.same_error(other)
    }
}

impl PartialEqSpecImpl for AgentRuntimeErrorEnvelopeV2 {
    open spec fn obeys_eq_spec() -> bool {
        true
    }

    open spec fn eq_spec(&self, other: &AgentRuntimeErrorEnvelopeV2) -> bool {
        self.same(other)
    }
}

/// Detail lists keyed once that hold the same entries, in any order, have
/// the same content, as maps do.
pub proof fn lemma_details_same_in_any_order(a: Seq<(String, String)>, b: Seq<(String, String)>)
    requires
        detail_keys_distinct(a),
        detail_keys_distinct(b),
        a.len() == b.len(),
        forall|i: int|
            0 <= i < a.len() ==> exists|j: int|
                0 <= j < b.len() && (#[trigger] a[i]).0@ == (#[trigger] b[j]).0@ && a[i].1@ == b[j].1@,
        forall|j: int|
            0 <= j < b.len() ==> exists|i: int|
                0 <= i < a.len() && (#[trigger] a[i]).0@ == (#[trigger] b[j]).0@ && a[i].1@ == b[j].1@,
    ensures
        same_details(a, b),
{
    assert forall|key: Seq<char>| #[trigger] detail_value(a, key) == detail_value(b, key) by {
        lemma_detail_absent(a, key);
        lemma_detail_absent(b, key);
        if detail_value(a, key) is Some {
            let i = choose|i: int| 0 <= i < a.len() && (#[trigger] a[i]).0@ == key;
            let j = choose|j: int|
                0 <= j < b.len() && (#[trigger] a[i]).0@ == (#[trigger] b[j]).0@ && a[i].1@ == b[j].1@;
            lemma_detail_lookup(a, i);
            lemma_detail_lookup(b, j);
        } else if detail_value(b, key) is Some {
            let j = choose|j: int| 0 <= j < b.len() && (#[trigger] b[j]).0@ == key;
            let i = choose|i: int|
                0 <= i < a.len() && (#[trigger] a[i]).0@ == (#[trigger] b[j]).0@ && a[i].1@ == b[j].1@;
            assert(a[i].0@ == key);
        }
    }
}

/// A detail list has the content of a single entry exactly when it is that
/// one entry.
pub proof fn lemma_same_as_single_detail(a: Seq<(String, String)>, b: Seq<(String, String)>)
    requires
        b.len() == 1,
    ensures
        same_details(a, b) <==> (a.len() == 1 && a[0].0@ == b[0].0@ && a[0].1@ == b[0].1@),
{
    assert(detail_value(b.drop_first(), a[0].0@) is None);
    if a.len() == 1 && a[0].0@ == b[0].0@ && a[0].1@ == b[0].1@ {
        assert forall|key: Seq<char>| #[trigger] detail_value(a, key) == detail_value(b, key) by {
            assert(detail_value(a.drop_first(), key) is None);
            assert(detail_value(b.drop_first(), key) is None);
        }
    }
    if same_details(a, b) {
        assert(detail_value(a, a[0].0@) == detail_value(b, a[0].0@));
    }
}

/// Error envelopes with the same content validate alike and carry the same
/// reason code.
pub proof fn lemma_same_errors_judged_alike(x: AgentRuntimeErrorEnvelopeV2, y: AgentRuntimeErrorEnvelopeV2)
    requires
        x.same(&y),
    ensures
        x.validation() == y.validation(),
        x.context.reason_code() == y.context.reason_code(),
{
}

/// Two pairs of envelopes with the same content compare alike: `x1` has the
/// content of `x2` exactly when `y1` has the content of `y2`.
pub proof fn lemma_same_errors_compare_alike(
    x1: AgentRuntimeErrorEnvelopeV2,
    y1: AgentRuntimeErrorEnvelopeV2,
    x2: AgentRuntimeErrorEnvelopeV2,
    y2: AgentRuntimeErrorEnvelopeV2,
)
    requires
        x1.same(&y1),
        x2.same(&y2),
    ensures
        x1.same(&x2) == y1.same(&y2),
{
    let (a1, b1) = (x1.context.safe_details@, y1.context.safe_details@);
    let (a2, b2) = (x2.context.safe_details@, y2.context.safe_details@);
    assert(same_details(a1, a2) == same_details(b1, b2)) by {
        if same_details(a1, a2) {
            assert forall|key: Seq<char>| #[trigger] detail_value(b1, key) == detail_value(b2, key) by {
                assert(detail_value(a1, key) == detail_value(b1, key));
                assert(detail_value(a2, key) == detail_value(b2, key));
                assert(detail_value(a1, key) == detail_value(a2, key));
            }
        }
        if same_details(b1, b2) {
            assert forall|key: Seq<char>| #[trigger] detail_value(a1, key) == detail_value(a2, key) by {
                assert(detail_value(a1, key) == detail_value(b1, key));
                assert(detail_value(a2, key) == detail_value(b2, key));
                assert(detail_value(b1, key) == detail_value(b2, key));
            }
        }
    }
}

} // verus!
