use loomex_protocol::{
    check_agent_terminal_execution_size, check_agent_terminal_output_size,
    check_agent_terminal_submission_size, AgentTerminalLimitsValidationError,
    AgentTerminalPayloadLimitsV1, AgentTerminalPayloadSizes, AgentTerminalPayloadValidationError,
    AGENT_TERMINAL_BACKEND_SAFETY_RESERVE_BYTES, AGENT_TERMINAL_EXECUTION_ENVELOPE_RESERVE_BYTES,
    AGENT_TERMINAL_EXECUTION_MAX_BYTES, AGENT_TERMINAL_OUTPUT_MAX_BYTES,
    AGENT_TERMINAL_SUBMISSION_MAX_BYTES, AGENT_TERMINAL_WRAPPER_RESERVE_BYTES,
    BACKEND_RUNNER_TERMINAL_REQUEST_MAX_BYTES,
};

#[test]
fn nested_boundaries_reserve_space_for_each_wire_layer() {
    AgentTerminalPayloadSizes {
        output_bytes: AGENT_TERMINAL_OUTPUT_MAX_BYTES,
        execution_bytes: AGENT_TERMINAL_EXECUTION_MAX_BYTES,
        submission_bytes: AGENT_TERMINAL_SUBMISSION_MAX_BYTES,
    }
    .validate()
    .unwrap();

    assert_eq!(AGENT_TERMINAL_BACKEND_SAFETY_RESERVE_BYTES, 100_000);
    assert_eq!(AGENT_TERMINAL_WRAPPER_RESERVE_BYTES, 150_000);
    assert_eq!(AGENT_TERMINAL_EXECUTION_ENVELOPE_RESERVE_BYTES, 750_000);
}

#[test]
fn payload_sizes_reject_each_oversized_layer_and_inverted_nesting() {
    let max = AgentTerminalPayloadSizes {
        output_bytes: AGENT_TERMINAL_OUTPUT_MAX_BYTES,
        execution_bytes: AGENT_TERMINAL_EXECUTION_MAX_BYTES,
        submission_bytes: AGENT_TERMINAL_SUBMISSION_MAX_BYTES,
    };
    assert_eq!(
        AgentTerminalPayloadSizes { output_bytes: AGENT_TERMINAL_OUTPUT_MAX_BYTES + 1, ..max }
            .validate(),
        Err(AgentTerminalPayloadValidationError::OutputTooLarge {
            actual: AGENT_TERMINAL_OUTPUT_MAX_BYTES + 1,
            max: AGENT_TERMINAL_OUTPUT_MAX_BYTES,
        })
    );
    assert_eq!(
        AgentTerminalPayloadSizes {
            execution_bytes: AGENT_TERMINAL_EXECUTION_MAX_BYTES + 1,
            ..max
        }
        .validate(),
        Err(AgentTerminalPayloadValidationError::ExecutionTooLarge {
            actual: AGENT_TERMINAL_EXECUTION_MAX_BYTES + 1,
            max: AGENT_TERMINAL_EXECUTION_MAX_BYTES,
        })
    );
    assert_eq!(
        AgentTerminalPayloadSizes {
            submission_bytes: AGENT_TERMINAL_SUBMISSION_MAX_BYTES + 1,
            ..max
        }
        .validate(),
        Err(AgentTerminalPayloadValidationError::SubmissionTooLarge {
            actual: AGENT_TERMINAL_SUBMISSION_MAX_BYTES + 1,
            max: AGENT_TERMINAL_SUBMISSION_MAX_BYTES,
        })
    );
    assert_eq!(
        AgentTerminalPayloadSizes { output_bytes: 10, execution_bytes: 9, submission_bytes: 11 }
            .validate(),
        Err(AgentTerminalPayloadValidationError::NestedSizeOrderInvalid)
    );
    assert_eq!(
        AgentTerminalPayloadSizes { output_bytes: 1, execution_bytes: 12, submission_bytes: 11 }
            .validate(),
        Err(AgentTerminalPayloadValidationError::NestedSizeOrderInvalid)
    );
}

#[test]
fn size_checks_accept_exact_boundary_and_reject_one_more_byte() {
    assert_eq!(
        check_agent_terminal_output_size(AGENT_TERMINAL_OUTPUT_MAX_BYTES),
        Ok(AGENT_TERMINAL_OUTPUT_MAX_BYTES)
    );
    assert_eq!(
        check_agent_terminal_output_size(AGENT_TERMINAL_OUTPUT_MAX_BYTES + 1),
        Err(AgentTerminalPayloadValidationError::OutputTooLarge {
            actual: AGENT_TERMINAL_OUTPUT_MAX_BYTES + 1,
            max: AGENT_TERMINAL_OUTPUT_MAX_BYTES,
        })
    );
    assert_eq!(
        check_agent_terminal_execution_size(AGENT_TERMINAL_EXECUTION_MAX_BYTES),
        Ok(AGENT_TERMINAL_EXECUTION_MAX_BYTES)
    );
    assert_eq!(
        check_agent_terminal_execution_size(AGENT_TERMINAL_EXECUTION_MAX_BYTES + 1),
        Err(AgentTerminalPayloadValidationError::ExecutionTooLarge {
            actual: AGENT_TERMINAL_EXECUTION_MAX_BYTES + 1,
            max: AGENT_TERMINAL_EXECUTION_MAX_BYTES,
        })
    );
    assert_eq!(
        check_agent_terminal_submission_size(AGENT_TERMINAL_SUBMISSION_MAX_BYTES),
        Ok(AGENT_TERMINAL_SUBMISSION_MAX_BYTES)
    );
    assert_eq!(
        check_agent_terminal_submission_size(AGENT_TERMINAL_SUBMISSION_MAX_BYTES + 1),
        Err(AgentTerminalPayloadValidationError::SubmissionTooLarge {
            actual: AGENT_TERMINAL_SUBMISSION_MAX_BYTES + 1,
            max: AGENT_TERMINAL_SUBMISSION_MAX_BYTES,
        })
    );
    assert_eq!(check_agent_terminal_output_size(0), Ok(0));
}

#[test]
fn limits_fixture_is_the_authoritative_versioned_contract() {
    let limits = AgentTerminalPayloadLimitsV1 {
        schema_version: "loomex.agent-terminal-payload-limits/v1".to_string(),
        backend_request_max_bytes: 8_000_000,
        submission_max_bytes: 7_900_000,
        execution_max_bytes: 7_750_000,
        output_max_bytes: 7_000_000,
        backend_safety_reserve_bytes: 100_000,
        wrapper_reserve_bytes: 150_000,
        execution_envelope_reserve_bytes: 750_000,
    };
    limits.validate().unwrap();
    assert_eq!(limits, AgentTerminalPayloadLimitsV1::default());
    assert_eq!(limits.schema_version, "loomex.agent-terminal-payload-limits/v1");
    assert_eq!(limits.backend_request_max_bytes, 8_000_000);
    assert_eq!(limits.submission_max_bytes, 7_900_000);
    assert_eq!(limits.execution_max_bytes, 7_750_000);
    assert_eq!(limits.output_max_bytes, 7_000_000);
    assert_eq!(limits.backend_safety_reserve_bytes, 100_000);
    assert_eq!(limits.wrapper_reserve_bytes, 150_000);
    assert_eq!(limits.execution_envelope_reserve_bytes, 750_000);
    assert_eq!(
        BACKEND_RUNNER_TERMINAL_REQUEST_MAX_BYTES,
        AGENT_TERMINAL_SUBMISSION_MAX_BYTES + AGENT_TERMINAL_BACKEND_SAFETY_RESERVE_BYTES
    );

    let mut wrong_schema = limits.clone();
    wrong_schema.schema_version = "loomex.agent-terminal-payload-limits/v2".to_string();
    assert_eq!(
        wrong_schema.validate(),
        Err(AgentTerminalLimitsValidationError::WrongSchemaVersion)
    );

    let mut raised = limits.clone();
    raised.output_max_bytes += 1;
    assert_eq!(
        raised.validate(),
        Err(AgentTerminalLimitsValidationError::NonAuthoritativeValue)
    );
    assert_ne!(raised, limits);
}
