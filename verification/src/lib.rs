//! Stable contracts shared by Loomex runner implementations.
//!
//! This crate intentionally contains no transport, filesystem, process, UI, or
//! authentication implementation. Those concerns belong to the runtime that
//! consumes these contracts.

use vstd::prelude::*;
use vstd::std_specs::cmp::PartialEqSpecImpl;
use vstd::string::StringExecFns;

pub mod text;
pub mod ids;
pub mod digest;
pub mod selection;
pub mod json;
pub mod error;
pub mod task;
pub mod session;
pub mod capability;
pub mod attempt;
pub mod execution;
pub mod terminal;
pub mod advertisement;

pub use crate::ids::{MAX_MODEL_KEY_LENGTH, MAX_PROVIDER_MODEL_ID_LENGTH, MAX_PROVIDER_SESSION_ID_LENGTH, MAX_IDEMPOTENCY_KEY_LENGTH, AGENT_ATTEMPT_TASK_IDEMPOTENCY_PREFIX_V2, AGENT_ATTEMPT_DELIVERY_IDEMPOTENCY_PREFIX_V2, AGENT_PAYLOAD_DIGEST_PREFIX_V1, CliIdentifierValidationError, validate_cli_identifier, validate_idempotency_key, AgentDigestIdentifierValidationError, validate_agent_attempt_task_idempotency_key, validate_agent_attempt_delivery_idempotency_key, validate_agent_payload_digest, AGENT_ATTEMPT_TASK_DOMAIN_V2, AGENT_ATTEMPT_DELIVERY_DOMAIN_V2, agent_attempt_task_idempotency_preimage, agent_attempt_delivery_idempotency_preimage};
pub use crate::digest::{AgentPayloadCanonicalizationError, canonicalize_agent_payload_json, payload_digest_of_canonical, payload_digest_of_json_text};
pub use crate::selection::{AgentProvider, ExecutorKind, ModelTarget, ModelSelectionMode, ModelFallbackPolicy, ModelSelection, AgentCandidatePinV2, AgentCandidatePinValidationError, check_model_pair, clone_opt_string, ModelSelectionValidationError};
pub use crate::json::{JsonValue, get_member, AGENT_STRUCTURED_OUTPUT_SHAPE_CONTRACT_V1, AgentStructuredOutputSchemaValidationError, JSON_SCHEMA_TYPE_KEY, JSON_SCHEMA_OBJECT_TYPE, validate_agent_structured_output_schema, default_agent_structured_output_schema};
pub use crate::error::{AGENT_ERROR_SCHEMA_V2, REASON_CODE_DETAIL_KEY, EXECUTOR_VERSION_UNVERIFIED_REASON_CODE, AgentErrorCode, AgentErrorCategory, AgentRetryDisposition, AgentRemediationAction, get_detail, details_eq, AgentErrorContext, AgentRuntimeErrorEnvelopeV2, AgentErrorValidationError};
pub use crate::task::{AGENT_TASK_SCHEMA_V2, AGENT_PROCESS_DISPATCH_SCHEMA_V2, AgentExecutionBindingV2, ReasoningEffort, AgentExecutionRequirements, AgentTaskRequestV2, AgentTaskValidationError, AgentProcessRetryKindV2, AgentDeliveryRouteV2, AgentProcessDeliveryV2, AgentProcessDispatchV2, AgentProcessDispatchValidationError};
pub use crate::session::{AGENT_SESSION_SCHEMA_V2, AgentSessionState, AgentSessionCheckpointV2, AgentSessionValidationError, AgentSessionContinuationV2, clone_binding};
pub use crate::capability::{AGENT_CAPABILITY_SCHEMA_V2, AGENT_RUNTIME_CAPABILITY_V2, RuntimeReadiness, InstallationState, AuthenticationState, ModelDiscoveryKind, ModelAvailability, AgentModelCapability, AgentRuntimeFeatures, AgentExecutorCapability, AgentRuntimeCapabilitySnapshotV2, CapabilitySnapshotValidationError};
pub use crate::attempt::{AGENT_RUNTIME_V2_DISABLED_REASON_CODE, AGENT_RUNTIME_V2_DISABLED_MESSAGE, AGENT_MALFORMED_DISPATCH_REASON_CODE, AGENT_MALFORMED_DISPATCH_MESSAGE, PRESTART_CANCELLATION_WON_REASON_CODE, AgentOutputFormat, AgentOutput, AgentExecutionState, AgentAttemptState, AgentAttemptRetryV2, opt_output_eq, opt_retry_eq, opt_error_eq, AgentAttemptV2, canonical_dispatch_rejection_context, synthesize_malformed_dispatch_error, is_canonical_dispatch_rejection_error};
pub use crate::execution::{AGENT_EXECUTION_SCHEMA_V2, MAX_AGENT_PROCESS_ATTEMPTS_PER_EXECUTION, AgentExecutionV2, AgentExecutionValidationError, AgentExecutionUpdateKind, AgentPrestartCancellationReplacement};
pub use crate::terminal::{AGENT_TERMINAL_PAYLOAD_LIMITS_SCHEMA_V1, BACKEND_RUNNER_TERMINAL_REQUEST_MAX_BYTES, AGENT_TERMINAL_SUBMISSION_MAX_BYTES, AGENT_TERMINAL_EXECUTION_MAX_BYTES, AGENT_TERMINAL_OUTPUT_MAX_BYTES, AGENT_TERMINAL_BACKEND_SAFETY_RESERVE_BYTES, AGENT_TERMINAL_WRAPPER_RESERVE_BYTES, AGENT_TERMINAL_EXECUTION_ENVELOPE_RESERVE_BYTES, AgentTerminalPayloadLimitsV1, AgentTerminalLimitsValidationError, AgentTerminalPayloadSizes, AgentTerminalPayloadValidationError, check_agent_terminal_output_size, check_agent_terminal_execution_size, check_agent_terminal_submission_size};
pub use crate::advertisement::{RUNNER_AGENT_ADVERTISEMENT_SCHEMA_V1, LEGACY_AGENT_TASK_DRAIN_CAPABILITY, LegacyAgentTaskMode, LegacyAgentTasksAdvertisementV1, RunnerAgentAdvertisementV1, RunnerAgentAdvertisementValidationError, get_capability};

use crate::text::str_eq;

verus! {

pub const RUNNER_PROTOCOL_V1: &'static str = "runner.v1";

pub const PROTOCOL_VERSION: &'static str = RUNNER_PROTOCOL_V1;

pub const MINIMUM_SUPPORTED_PROTOCOL_VERSION: &'static str = RUNNER_PROTOCOL_V1;

#[derive(Debug, Clone, Copy, PartialEq, Eq, Structural)]
pub enum RunnerSurface {
    Desktop,
    Plugin,
}

impl RunnerSurface {
    /// The wire name of the surface.
    pub open spec fn wire_name(self) -> Seq<char> {
        match self {
            RunnerSurface::Desktop => "desktop"@,
            RunnerSurface::Plugin => "plugin"@,
        }
    }

    pub fn as_str(self) -> (res: &'static str)
        ensures
            res@ == self.wire_name(),
    {
        match self {
            RunnerSurface::Desktop => "desktop",
            RunnerSurface::Plugin => "plugin",
        }
    }
}

#[derive(Debug, Clone, Copy, PartialEq, Eq, Structural)]
pub enum RunnerPlatform {
    Macos,
    Windows,
    Linux,
}

#[derive(Debug, Clone)]
pub struct RunnerIdentity {
    pub surface: RunnerSurface,
    pub runner_version: String,
    pub protocol_version: String,
    pub capabilities: Vec<String>,
    pub platform: RunnerPlatform,
    pub architecture: String,
}

/// A runner speaking `version` can be served: it is the current protocol.
pub open spec fn is_supported_protocol(version: Seq<char>) -> bool {
    version == PROTOCOL_VERSION@
}

impl RunnerIdentity {
    pub fn supports_protocol(&self) -> (res: bool)
        ensures
            res == is_supported_protocol(self.protocol_version@),
    {
        str_eq(self.protocol_version.as_str(), PROTOCOL_VERSION)
    }

    /// Same surface, versions, capabilities (in order), platform and
    /// architecture.
    pub open spec fn same(&self, other: &RunnerIdentity) -> bool {
        &&& self.surface == other.surface
        &&& self.runner_version@ == other.runner_version@
        &&& self.protocol_version@ == other.protocol_version@
        &&& self.capabilities@.len() == other.capabilities@.len()
        &&& forall|i: int|
            0 <= i < self.capabilities@.len() ==> (#[trigger] self.capabilities@[i])@
                == other.capabilities@[i]@
        &&& self.platform == other.platform
        &&& self.architecture@ == other.architecture@
    }

    pub fn same_identity(&self, other: &RunnerIdentity) -> (res: bool)
        ensures
            res == self.same(other),
    {
        if !(self.surface == other.surface && str_eq(
            self.runner_version.as_str(),
            other.runner_version.as_str(),
        ) && str_eq(self.protocol_version.as_str(), other.protocol_version.as_str())
            && self.platform == other.platform && str_eq(
            self.architecture.as_str(),
            other.architecture.as_str(),
        )) {
            return false;
        }
        if self.capabilities.len() != other.capabilities.len() {
            return false;
        }
        let mut i: usize = 0;
        while i < self.capabilities.len()
            invariant
                self.capabilities@.len() == other.capabilities@.len(),
                i <= self.capabilities@.len(),
                forall|j: int|
                    0 <= j < i ==> (#[trigger] self.capabilities@[j])@ == other.capabilities@[j]@,
            decreases self.capabilities@.len() - i,
        {
            if !str_eq(self.capabilities[i].as_str(), other.capabilities[i].as_str()) {
                return false;
            }
            i = i + 1;
        }
        true
    }
}

impl PartialEq for RunnerIdentity {
    fn eq(&self, other: &Self) -> (res: bool) {
        self.same_identity(other)
    }
}

impl PartialEqSpecImpl for RunnerIdentity {
    open spec fn obeys_eq_spec() -> bool {
        true
    }

    open spec fn eq_spec(&self, other: &RunnerIdentity) -> bool {
        self.same(other)
    }
}

#[derive(Debug, Clone)]
pub enum ProtocolCompatibility {
    Compatible,
    UnsupportedVersion { received: String, expected: &'static str },
}

impl ProtocolCompatibility {
    pub open spec fn same(&self, other: &ProtocolCompatibility) -> bool {
        match (*self, *other) {
            (ProtocolCompatibility::Compatible, ProtocolCompatibility::Compatible) => true,
            (
                ProtocolCompatibility::UnsupportedVersion { received: r1, expected: e1 },
                ProtocolCompatibility::UnsupportedVersion { received: r2, expected: e2 },
            ) => r1@ == r2@ && e1@ == e2@,
            _ => false,
        }
    }

    pub fn same_compatibility(&self, other: &ProtocolCompatibility) -> (res: bool)
        ensures
            res == self.same(other),
    {
        match (self, other) {
            (ProtocolCompatibility::Compatible, ProtocolCompatibility::Compatible) => true,
            (
                ProtocolCompatibility::UnsupportedVersion { received: r1, expected: e1 },
                ProtocolCompatibility::UnsupportedVersion { received: r2, expected: e2 },
            ) => str_eq(r1.as_str(), r2.as_str()) && str_eq(e1, e2),
            _ => false,
        }
    }
}

impl PartialEq for ProtocolCompatibility {
    fn eq(&self, other: &Self) -> (res: bool) {
        self.same_compatibility(other)
    }
}

impl PartialEqSpecImpl for ProtocolCompatibility {
    open spec fn obeys_eq_spec() -> bool {
        true
    }

    open spec fn eq_spec(&self, other: &ProtocolCompatibility) -> bool {
        self.same(other)
    }
}

/// Accepts the current protocol version; any other version is answered with
/// what was received and what is expected.
pub fn check_protocol_compatibility(version: &str) -> (res: ProtocolCompatibility)
    ensures
        res is Compatible <==> is_supported_protocol(version@),
        res matches ProtocolCompatibility::UnsupportedVersion { received, expected } ==> received@
            == version@ && expected@ == PROTOCOL_VERSION@,
{
    if str_eq(version, PROTOCOL_VERSION) {
        ProtocolCompatibility::Compatible
    } else {
        ProtocolCompatibility::UnsupportedVersion {
            received: String::from_str(version),
            expected: PROTOCOL_VERSION,
        }
    }
}

} // verus!
