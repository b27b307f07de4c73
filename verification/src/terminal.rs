//! Versioned size contract for durable terminal delivery of agent executions.
//!
//! Process stdout/stderr capture limits are runtime concerns and intentionally
//! are not defined here. These limits apply only after output parsing, when an
//! `AgentOutput`, its `AgentExecutionV2` envelope, and the complete HTTP
//! terminal submission are serialized for durable Backend delivery. The byte
//! counts come from that serialization; the checks on them live here.

use vstd::prelude::*;
use vstd::std_specs::cmp::PartialEqSpecImpl;
use vstd::string::StringExecFns;

use crate::text::str_eq;

verus! {

pub const AGENT_TERMINAL_PAYLOAD_LIMITS_SCHEMA_V1: &'static str =
    "loomex.agent-terminal-payload-limits/v1";

/// Backend's authoritative runner-job terminal request cap.
pub const BACKEND_RUNNER_TERMINAL_REQUEST_MAX_BYTES: usize = 8_000_000;

/// Complete serialized HTTP submission, including wrapper fields and result.
pub const AGENT_TERMINAL_SUBMISSION_MAX_BYTES: usize = 7_900_000;

/// Serialized `AgentExecutionV2` carried in the submission's `result`.
pub const AGENT_TERMINAL_EXECUTION_MAX_BYTES: usize = 7_750_000;

/// Serialized terminal `AgentOutput` nested inside the execution.
pub const AGENT_TERMINAL_OUTPUT_MAX_BYTES: usize = 7_000_000;

pub const AGENT_TERMINAL_BACKEND_SAFETY_RESERVE_BYTES: usize =
    BACKEND_RUNNER_TERMINAL_REQUEST_MAX_BYTES - AGENT_TERMINAL_SUBMISSION_MAX_BYTES;

pub const AGENT_TERMINAL_WRAPPER_RESERVE_BYTES: usize =
    AGENT_TERMINAL_SUBMISSION_MAX_BYTES - AGENT_TERMINAL_EXECUTION_MAX_BYTES;

pub const AGENT_TERMINAL_EXECUTION_ENVELOPE_RESERVE_BYTES: usize =
    AGENT_TERMINAL_EXECUTION_MAX_BYTES - AGENT_TERMINAL_OUTPUT_MAX_BYTES;

#[derive(Debug, Clone)]
pub struct AgentTerminalPayloadLimitsV1 {
    pub schema_version: String,
    pub backend_request_max_bytes: usize,
    pub submission_max_bytes: usize,
    pub execution_max_bytes: usize,
    pub output_max_bytes: usize,
    pub backend_safety_reserve_bytes: usize,
    pub wrapper_reserve_bytes: usize,
    pub execution_envelope_reserve_bytes: usize,
}

#[derive(Debug, Clone, Copy, PartialEq, Eq, Structural)]
pub enum AgentTerminalLimitsValidationError {
    WrongSchemaVersion,
    NonAuthoritativeValue,
}

impl AgentTerminalPayloadLimitsV1 {
    /// Same schema version and limits.
    pub open spec fn same(&self, other: &AgentTerminalPayloadLimitsV1) -> bool {
        &&& self.schema_version@ == other.schema_version@
        &&& self.backend_request_max_bytes == other.backend_request_max_bytes
        &&& self.submission_max_bytes == other.submission_max_bytes
        &&& self.execution_max_bytes == other.execution_max_bytes
        &&& self.output_max_bytes == other.output_max_bytes
        &&& self.backend_safety_reserve_bytes == other.backend_safety_reserve_bytes
        &&& self.wrapper_reserve_bytes == other.wrapper_reserve_bytes
        &&& self.execution_envelope_reserve_bytes == other.execution_envelope_reserve_bytes
    }

    pub fn same_limits(&self, other: &AgentTerminalPayloadLimitsV1) -> (res: bool)
        ensures
            res == self.same(other),
    {
        str_eq(self.schema_version.as_str(), other.schema_version.as_str())
            && self.backend_request_max_bytes == other.backend_request_max_bytes
            && self.submission_max_bytes == other.submission_max_bytes && self.execution_max_bytes
            == other.execution_max_bytes && self.output_max_bytes == other.output_max_bytes
            && self.backend_safety_reserve_bytes == other.backend_safety_reserve_bytes
            && self.wrapper_reserve_bytes == other.wrapper_reserve_bytes
            && self.execution_envelope_reserve_bytes == other.execution_envelope_reserve_bytes
    }

    /// The versioned limits this crate publishes, and no others.
    pub open spec fn is_authoritative(&self) -> bool {
        &&& self.schema_version@ == AGENT_TERMINAL_PAYLOAD_LIMITS_SCHEMA_V1@
        &&& self.backend_request_max_bytes == BACKEND_RUNNER_TERMINAL_REQUEST_MAX_BYTES
        &&& self.submission_max_bytes == AGENT_TERMINAL_SUBMISSION_MAX_BYTES
        &&& self.execution_max_bytes == AGENT_TERMINAL_EXECUTION_MAX_BYTES
        &&& self.output_max_bytes == AGENT_TERMINAL_OUTPUT_MAX_BYTES
        &&& self.backend_safety_reserve_bytes == AGENT_TERMINAL_BACKEND_SAFETY_RESERVE_BYTES
        &&& self.wrapper_reserve_bytes == AGENT_TERMINAL_WRAPPER_RESERVE_BYTES
        &&& self.execution_envelope_reserve_bytes
            == AGENT_TERMINAL_EXECUTION_ENVELOPE_RESERVE_BYTES
    }

    pub open spec fn validation(&self) -> Result<(), AgentTerminalLimitsValidationError> {
        if self.schema_version@ != AGENT_TERMINAL_PAYLOAD_LIMITS_SCHEMA_V1@ {
            Err(AgentTerminalLimitsValidationError::WrongSchemaVersion)
        } else if !self.is_authoritative() {
            Err(AgentTerminalLimitsValidationError::NonAuthoritativeValue)
        } else {
            Ok(())
        }
    }

    /// Accepts exactly the published limits.
    pub fn validate(&self) -> (res: Result<(), AgentTerminalLimitsValidationError>)
        ensures
            res == self.validation(),
    {
        if !str_eq(self.schema_version.as_str(), AGENT_TERMINAL_PAYLOAD_LIMITS_SCHEMA_V1) {
            return Err(AgentTerminalLimitsValidationError::WrongSchemaVersion);
        }
        let authoritative = Self::default();
        if !self.same_limits(&authoritative) {
            return Err(AgentTerminalLimitsValidationError::NonAuthoritativeValue);
        }
        Ok(())
    }
}

impl Default for AgentTerminalPayloadLimitsV1 {
    fn default() -> (res: Self)
        ensures
            res.is_authoritative(),
            res.validation() is Ok,
    {
        AgentTerminalPayloadLimitsV1 {
            schema_version: String::from_str(AGENT_TERMINAL_PAYLOAD_LIMITS_SCHEMA_V1),
            backend_request_max_bytes: BACKEND_RUNNER_TERMINAL_REQUEST_MAX_BYTES,
            submission_max_bytes: AGENT_TERMINAL_SUBMISSION_MAX_BYTES,
            execution_max_bytes: AGENT_TERMINAL_EXECUTION_MAX_BYTES,
            output_max_bytes: AGENT_TERMINAL_OUTPUT_MAX_BYTES,
            backend_safety_reserve_bytes: AGENT_TERMINAL_BACKEND_SAFETY_RESERVE_BYTES,
            wrapper_reserve_bytes: AGENT_TERMINAL_WRAPPER_RESERVE_BYTES,
            execution_envelope_reserve_bytes: AGENT_TERMINAL_EXECUTION_ENVELOPE_RESERVE_BYTES,
        }
    }
}

impl PartialEq for AgentTerminalPayloadLimitsV1 {
    fn eq(&self, other: &Self) -> (res: bool) {
        self.same_limits(other)
    }
}

impl PartialEqSpecImpl for AgentTerminalPayloadLimitsV1 {
    open spec fn obeys_eq_spec() -> bool {
        true
    }

    open spec fn eq_spec(&self, other: &AgentTerminalPayloadLimitsV1) -> bool {
        self.same(other)
    }
}

#[derive(Debug, Clone, Copy, PartialEq, Eq, Structural)]
pub struct AgentTerminalPayloadSizes {
    pub output_bytes: usize,
    pub execution_bytes: usize,
    pub submission_bytes: usize,
}

#[derive(Debug, Clone, Copy, PartialEq, Eq, Structural)]
pub enum AgentTerminalPayloadValidationError {
    JsonSerializationFailed,
    OutputTooLarge { actual: usize, max: usize },
    ExecutionTooLarge { actual: usize, max: usize },
    SubmissionTooLarge { actual: usize, max: usize },
    NestedSizeOrderInvalid,
}

impl AgentTerminalPayloadSizes {
    /// Each layer fits its cap, and each layer nests inside the next.
    pub open spec fn validation(&self) -> Result<(), AgentTerminalPayloadValidationError> {
        if self.output_bytes > AGENT_TERMINAL_OUTPUT_MAX_BYTES {
            Err(
                AgentTerminalPayloadValidationError::OutputTooLarge {
                    actual: self.output_bytes,
                    max: AGENT_TERMINAL_OUTPUT_MAX_BYTES,
                },
            )
        } else if self.execution_bytes > AGENT_TERMINAL_EXECUTION_MAX_BYTES {
            Err(
                AgentTerminalPayloadValidationError::ExecutionTooLarge {
                    actual: self.execution_bytes,
                    max: AGENT_TERMINAL_EXECUTION_MAX_BYTES,
                },
            )
        } else if self.submission_bytes > AGENT_TERMINAL_SUBMISSION_MAX_BYTES {
            Err(
                AgentTerminalPayloadValidationError::SubmissionTooLarge {
                    actual: self.submission_bytes,
                    max: AGENT_TERMINAL_SUBMISSION_MAX_BYTES,
                },
            )
        } else if self.output_bytes > self.execution_bytes || self.execution_bytes
            > self.submission_bytes {
            Err(AgentTerminalPayloadValidationError::NestedSizeOrderInvalid)
        } else {
            Ok(())
        }
    }

    pub fn validate(&self) -> (res: Result<(), AgentTerminalPayloadValidationError>)
        ensures
            res == self.validation(),
    {
        if self.output_bytes > AGENT_TERMINAL_OUTPUT_MAX_BYTES {
            return Err(
                AgentTerminalPayloadValidationError::OutputTooLarge {
                    actual: self.output_bytes,
                    max: AGENT_TERMINAL_OUTPUT_MAX_BYTES,
                },
            );
        }
        if self.execution_bytes > AGENT_TERMINAL_EXECUTION_MAX_BYTES {
            return Err(
                AgentTerminalPayloadValidationError::ExecutionTooLarge {
                    actual: self.execution_bytes,
                    max: AGENT_TERMINAL_EXECUTION_MAX_BYTES,
                },
            );
        }
        if self.submission_bytes > AGENT_TERMINAL_SUBMISSION_MAX_BYTES {
            return Err(
                AgentTerminalPayloadValidationError::SubmissionTooLarge {
                    actual: self.submission_bytes,
                    max: AGENT_TERMINAL_SUBMISSION_MAX_BYTES,
                },
            );
        }
        if self.output_bytes > self.execution_bytes || self.execution_bytes
            > self.submission_bytes {
            return Err(AgentTerminalPayloadValidationError::NestedSizeOrderInvalid);
        }
        Ok(())
    }
}

/// The verdict on a serialized terminal output of `actual` bytes.
pub open spec fn terminal_output_size_result(actual: usize) -> Result<
    usize,
    AgentTerminalPayloadValidationError,
> {
    if actual > AGENT_TERMINAL_OUTPUT_MAX_BYTES {
        Err(
            AgentTerminalPayloadValidationError::OutputTooLarge {
                actual,
                max: AGENT_TERMINAL_OUTPUT_MAX_BYTES,
            },
        )
    } else {
        Ok(actual)
    }
}

/// Accepts a serialized terminal output of `actual` bytes up to its cap and
/// hands the size back.
pub fn check_agent_terminal_output_size(actual: usize) -> (res: Result<
    usize,
    AgentTerminalPayloadValidationError,
>)
    ensures
        res == terminal_output_size_result(actual),
{
    if actual > AGENT_TERMINAL_OUTPUT_MAX_BYTES {
        return Err(
            AgentTerminalPayloadValidationError::OutputTooLarge {
                actual,
                max: AGENT_TERMINAL_OUTPUT_MAX_BYTES,
            },
        );
    }
    Ok(actual)
}

/// The verdict on a serialized terminal execution of `actual` bytes.
pub open spec fn terminal_execution_size_result(actual: usize) -> Result<
    usize,
    AgentTerminalPayloadValidationError,
> {
    if actual > AGENT_TERMINAL_EXECUTION_MAX_BYTES {
        Err(
            AgentTerminalPayloadValidationError::ExecutionTooLarge {
                actual,
                max: AGENT_TERMINAL_EXECUTION_MAX_BYTES,
            },
        )
    } else {
        Ok(actual)
    }
}

/// Accepts a serialized terminal execution of `actual` bytes up to its cap
/// and hands the size back.
pub fn check_agent_terminal_execution_size(actual: usize) -> (res: Result<
    usize,
    AgentTerminalPayloadValidationError,
>)
    ensures
        res == terminal_execution_size_result(actual),
{
    if actual > AGENT_TERMINAL_EXECUTION_MAX_BYTES {
        return Err(
            AgentTerminalPayloadValidationError::ExecutionTooLarge {
                actual,
                max: AGENT_TERMINAL_EXECUTION_MAX_BYTES,
            },
        );
    }
    Ok(actual)
}

/// The verdict on a complete serialized terminal submission of `actual`
/// bytes.
pub open spec fn terminal_submission_size_result(actual: usize) -> Result<
    usize,
    AgentTerminalPayloadValidationError,
> {
    if actual > AGENT_TERMINAL_SUBMISSION_MAX_BYTES {
        Err(
            AgentTerminalPayloadValidationError::SubmissionTooLarge {
                actual,
                max: AGENT_TERMINAL_SUBMISSION_MAX_BYTES,
            },
        )
    } else {
        Ok(actual)
    }
}

/// Accepts the exact serialized HTTP request of `actual` bytes up to the
/// submission cap and hands the size back. This final guard, rather than
/// reserve estimates alone, keeps the complete wrapper plus execution below
/// Backend's request cap.
pub fn check_agent_terminal_submission_size(actual: usize) -> (res: Result<
    usize,
    AgentTerminalPayloadValidationError,
>)
    ensures
        res == terminal_submission_size_result(actual),
        res is Ok ==> actual + AGENT_TERMINAL_BACKEND_SAFETY_RESERVE_BYTES
            <= BACKEND_RUNNER_TERMINAL_REQUEST_MAX_BYTES,
{
    if actual > AGENT_TERMINAL_SUBMISSION_MAX_BYTES {
        return Err(
            AgentTerminalPayloadValidationError::SubmissionTooLarge {
                actual,
                max: AGENT_TERMINAL_SUBMISSION_MAX_BYTES,
            },
        );
    }
    Ok(actual)
}

/// The caps nest: the output cap plus the execution envelope reserve is the
/// execution cap, plus the wrapper reserve the submission cap, plus the
/// Backend safety reserve Backend's request cap; every reserve is positive.
pub proof fn lemma_terminal_reserves_partition_the_backend_cap()
    ensures
        AGENT_TERMINAL_OUTPUT_MAX_BYTES + AGENT_TERMINAL_EXECUTION_ENVELOPE_RESERVE_BYTES
            == AGENT_TERMINAL_EXECUTION_MAX_BYTES,
        AGENT_TERMINAL_EXECUTION_MAX_BYTES + AGENT_TERMINAL_WRAPPER_RESERVE_BYTES
            == AGENT_TERMINAL_SUBMISSION_MAX_BYTES,
        AGENT_TERMINAL_SUBMISSION_MAX_BYTES + AGENT_TERMINAL_BACKEND_SAFETY_RESERVE_BYTES
            == BACKEND_RUNNER_TERMINAL_REQUEST_MAX_BYTES,
        AGENT_TERMINAL_EXECUTION_ENVELOPE_RESERVE_BYTES > 0,
        AGENT_TERMINAL_WRAPPER_RESERVE_BYTES > 0,
        AGENT_TERMINAL_BACKEND_SAFETY_RESERVE_BYTES > 0,
{
}

/// Sizes that pass validation nest layer by layer and leave the Backend
/// safety reserve free under Backend's request cap.
pub proof fn lemma_valid_sizes_fit_backend_cap(sizes: AgentTerminalPayloadSizes)
    requires
        sizes.validation() is Ok,
    ensures
        sizes.output_bytes <= sizes.execution_bytes,
        sizes.execution_bytes <= sizes.submission_bytes,
        sizes.submission_bytes + AGENT_TERMINAL_BACKEND_SAFETY_RESERVE_BYTES
            <= BACKEND_RUNNER_TERMINAL_REQUEST_MAX_BYTES,
{
}

} // verus!
