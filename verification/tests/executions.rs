use loomex_protocol::{
    default_agent_structured_output_schema, synthesize_malformed_dispatch_error,
    AgentAttemptRetryV2, AgentAttemptState, AgentAttemptV2, AgentDeliveryRouteV2,
    AgentErrorCategory, AgentErrorCode, AgentErrorContext, AgentExecutionBindingV2,
    AgentExecutionRequirements, AgentExecutionState, AgentExecutionUpdateKind, AgentExecutionV2,
    AgentExecutionValidationError, AgentOutput, AgentOutputFormat,
    AgentPrestartCancellationReplacement, AgentProcessDeliveryV2, AgentProcessRetryKindV2,
    AgentProvider, AgentRemediationAction, AgentRetryDisposition, AgentRuntimeErrorEnvelopeV2,
    AgentSessionCheckpointV2, AgentSessionContinuationV2, AgentSessionState, AgentTaskRequestV2,
    ExecutorKind, ModelFallbackPolicy, ModelSelection, ModelSelectionMode, ModelTarget,
    AGENT_ERROR_SCHEMA_V2, AGENT_EXECUTION_SCHEMA_V2, AGENT_MALFORMED_DISPATCH_MESSAGE,
    AGENT_RUNTIME_V2_DISABLED_MESSAGE, AGENT_SESSION_SCHEMA_V2, AGENT_TASK_SCHEMA_V2,
};

const EXECUTION_ID: &str = "execution_01";

fn hex(digit: char) -> String {
    std::iter::repeat(digit).take(64).collect()
}

fn task_key(digit: char) -> String {
    format!("loomex-agent-attempt-v2:{}", hex(digit))
}

fn delivery_key(digit: char) -> String {
    format!("loomex-agent-delivery-v2:{}", hex(digit))
}

fn digest(digit: char) -> String {
    format!("sha256:{}", hex(digit))
}

fn binding() -> AgentExecutionBindingV2 {
    AgentExecutionBindingV2 {
        workspace_binding_id: "binding_loomex_workspace_01".to_string(),
        workspace_binding_generation: 7,
        runner_id: "runner_local_01".to_string(),
    }
}

fn task() -> AgentTaskRequestV2 {
    AgentTaskRequestV2 {
        schema_version: AGENT_TASK_SCHEMA_V2.to_string(),
        request_id: "request_01".to_string(),
        idempotency_key: "workflow_01/node_01:run_01".to_string(),
        binding: binding(),
        selection: ModelSelection {
            primary: ModelSelectionMode::Exact {
                target: ModelTarget {
                    executor: ExecutorKind::CodexCli,
                    provider: AgentProvider::OpenAi,
                    model_key: "openai/gpt-5.2".to_string(),
                    provider_model_id: "gpt-5.2".to_string(),
                },
            },
            fallback: ModelFallbackPolicy::NoFallback,
        },
        prompt: "Summarize the open review comments.".to_string(),
        output_schema: Some(default_agent_structured_output_schema()),
        requirements: AgentExecutionRequirements {
            structured_output: true,
            session_resume: true,
            cancellation: true,
            reasoning_effort: None,
        },
        continuation: None,
    }
}

fn runner_delivery() -> AgentProcessDeliveryV2 {
    AgentProcessDeliveryV2 {
        route: AgentDeliveryRouteV2::RunnerJob,
        runner_job_id: Some("runner_job_01".to_string()),
        lease_target_runner_id: Some("runner_local_01".to_string()),
    }
}

fn checkpoint(attempt_id: &str, sequence: u64) -> AgentSessionCheckpointV2 {
    AgentSessionCheckpointV2 {
        schema_version: AGENT_SESSION_SCHEMA_V2.to_string(),
        checkpoint_id: "checkpoint_01".to_string(),
        sequence,
        session_id: "session_01".to_string(),
        provider_session_id: "019f9fd8-0a33-7002-98e9-9103e64ceb58".to_string(),
        binding: binding(),
        execution_id: EXECUTION_ID.to_string(),
        attempt_id: attempt_id.to_string(),
        selection_index: 0,
        executor: ExecutorKind::CodexCli,
        provider: AgentProvider::OpenAi,
        model_key: Some("openai/gpt-5.2".to_string()),
        provider_model_id: Some("gpt-5.2".to_string()),
        state: AgentSessionState::Suspended,
        recorded_at: "2026-07-26T10:30:20Z".to_string(),
    }
}

fn attempt(id: &str, number: u32, digit: char, state: AgentAttemptState) -> AgentAttemptV2 {
    AgentAttemptV2 {
        attempt_id: id.to_string(),
        attempt_number: number,
        task_idempotency_key: task_key(digit),
        delivery_idempotency_key: delivery_key(digit),
        payload_digest: digest(digit),
        state,
        started_sequence: 1,
        finished_sequence: None,
        selection_index: 0,
        executor: ExecutorKind::CodexCli,
        provider: AgentProvider::OpenAi,
        requested_model_key: Some("openai/gpt-5.2".to_string()),
        requested_provider_model_id: Some("gpt-5.2".to_string()),
        resolved_model_key: Some("openai/gpt-5.2".to_string()),
        resolved_provider_model_id: Some("gpt-5.2".to_string()),
        started_at: "2026-07-26T10:30:00Z".to_string(),
        finished_at: None,
        session: None,
        retry: None,
        delivery: runner_delivery(),
        error: None,
    }
}

fn error_context(attempt_id: &str, reason: &str) -> AgentErrorContext {
    AgentErrorContext {
        executor: Some(ExecutorKind::CodexCli),
        provider: Some(AgentProvider::OpenAi),
        requested_model_key: Some("openai/gpt-5.2".to_string()),
        requested_provider_model_id: Some("gpt-5.2".to_string()),
        resolved_model_key: None,
        resolved_provider_model_id: None,
        execution_id: Some(EXECUTION_ID.to_string()),
        attempt_id: Some(attempt_id.to_string()),
        session_id: None,
        safe_details: vec![("reasonCode".to_string(), reason.to_string())],
    }
}

fn not_authenticated(attempt_id: &str) -> AgentRuntimeErrorEnvelopeV2 {
    AgentRuntimeErrorEnvelopeV2 {
        schema_version: AGENT_ERROR_SCHEMA_V2.to_string(),
        code: AgentErrorCode::ProviderNotAuthenticated,
        category: AgentErrorCategory::Authentication,
        message: "The provider CLI is not signed in.".to_string(),
        retry: AgentRetryDisposition::UserActionRequired,
        retry_after_seconds: None,
        remediation: vec![AgentRemediationAction::Authenticate],
        context: error_context(attempt_id, "not_signed_in"),
    }
}

/// One attempt blocked on authentication after recording a session
/// checkpoint.
fn blocked() -> AgentExecutionV2 {
    let mut first = attempt("attempt_01", 1, 'a', AgentAttemptState::Blocked);
    first.finished_sequence = Some(3);
    first.finished_at = Some("2026-07-26T10:30:40Z".to_string());
    first.session = Some(checkpoint("attempt_01", 2));
    first.error = Some(not_authenticated("attempt_01"));
    AgentExecutionV2 {
        schema_version: AGENT_EXECUTION_SCHEMA_V2.to_string(),
        execution_id: EXECUTION_ID.to_string(),
        request_id: "request_01".to_string(),
        idempotency_key: "workflow_01/node_01:run_01".to_string(),
        sequence: 3,
        binding: binding(),
        state: AgentExecutionState::Blocked,
        active_attempt_id: None,
        attempts: vec![first],
        output: None,
        error: Some(not_authenticated("attempt_01")),
        created_at: "2026-07-26T10:29:58Z".to_string(),
        started_at: Some("2026-07-26T10:30:00Z".to_string()),
        finished_at: None,
        updated_at: "2026-07-26T10:30:40Z".to_string(),
    }
}

/// The blocked execution resumed from its checkpoint by a second attempt.
fn blocked_resumed() -> AgentExecutionV2 {
    let mut execution = blocked();
    let mut second = attempt("attempt_02", 2, 'b', AgentAttemptState::Running);
    second.started_sequence = 4;
    second.started_at = "2026-07-26T10:35:00Z".to_string();
    second.retry = Some(AgentAttemptRetryV2 {
        retry_kind: AgentProcessRetryKindV2::ResumeFromCheckpoint,
        from_attempt_id: "attempt_01".to_string(),
        continuation: Some(AgentSessionContinuationV2::from(
            execution.attempts[0].session.as_ref().unwrap(),
        )),
    });
    execution.attempts.push(second);
    execution.sequence = 5;
    execution.state = AgentExecutionState::Running;
    execution.active_attempt_id = Some("attempt_02".to_string());
    execution.error = None;
    execution.updated_at = "2026-07-26T10:35:01Z".to_string();
    execution
}

/// Blocked before any provider session existed.
fn pre_session_blocked() -> AgentExecutionV2 {
    let mut execution = blocked();
    execution.attempts[0].session = None;
    execution
}

/// The pre-session block retried fresh after remediation.
fn fresh_after_remediation() -> AgentExecutionV2 {
    let mut execution = pre_session_blocked();
    let mut second = attempt("attempt_02", 2, 'b', AgentAttemptState::Running);
    second.started_sequence = 4;
    second.started_at = "2026-07-26T10:35:00Z".to_string();
    second.retry = Some(AgentAttemptRetryV2 {
        retry_kind: AgentProcessRetryKindV2::FreshAfterRemediation,
        from_attempt_id: "attempt_01".to_string(),
        continuation: None,
    });
    execution.attempts.push(second);
    execution.sequence = 5;
    execution.state = AgentExecutionState::Running;
    execution.active_attempt_id = Some("attempt_02".to_string());
    execution.error = None;
    execution
}

fn prestart_error(
    code: AgentErrorCode,
    category: AgentErrorCategory,
    message: &str,
    reason: &str,
) -> AgentRuntimeErrorEnvelopeV2 {
    AgentRuntimeErrorEnvelopeV2 {
        schema_version: AGENT_ERROR_SCHEMA_V2.to_string(),
        code,
        category,
        message: message.to_string(),
        retry: AgentRetryDisposition::Never,
        retry_after_seconds: None,
        remediation: vec![],
        context: error_context("attempt_01", reason),
    }
}

fn prestart(
    attempt_state: AgentAttemptState,
    execution_state: AgentExecutionState,
    error: AgentRuntimeErrorEnvelopeV2,
) -> AgentExecutionV2 {
    let mut only = attempt("attempt_01", 1, 'a', attempt_state);
    only.finished_sequence = Some(1);
    only.started_at = "2026-07-27T10:00:00Z".to_string();
    only.finished_at = Some("2026-07-27T10:00:00Z".to_string());
    only.error = Some(error.clone());
    AgentExecutionV2 {
        schema_version: AGENT_EXECUTION_SCHEMA_V2.to_string(),
        execution_id: EXECUTION_ID.to_string(),
        request_id: "request_01".to_string(),
        idempotency_key: "workflow_01/node_01:run_01".to_string(),
        sequence: 1,
        binding: binding(),
        state: execution_state,
        active_attempt_id: None,
        attempts: vec![only],
        output: None,
        error: Some(error),
        created_at: "2026-07-27T09:59:59Z".to_string(),
        started_at: Some("2026-07-27T10:00:00Z".to_string()),
        finished_at: Some("2026-07-27T10:00:00Z".to_string()),
        updated_at: "2026-07-27T10:00:00Z".to_string(),
    }
}

fn dispatch_rejected() -> AgentExecutionV2 {
    prestart(
        AgentAttemptState::DispatchRejected,
        AgentExecutionState::Failed,
        prestart_error(
            AgentErrorCode::AgentRuntimeV2Disabled,
            AgentErrorCategory::Availability,
            AGENT_RUNTIME_V2_DISABLED_MESSAGE,
            "agent_runtime_v2_disabled",
        ),
    )
}

fn malformed_dispatch_error() -> AgentRuntimeErrorEnvelopeV2 {
    prestart_error(
        AgentErrorCode::InvalidRequest,
        AgentErrorCategory::Validation,
        AGENT_MALFORMED_DISPATCH_MESSAGE,
        "malformed_dispatch",
    )
}

fn malformed_dispatch_rejected() -> AgentExecutionV2 {
    prestart(
        AgentAttemptState::DispatchRejected,
        AgentExecutionState::Failed,
        malformed_dispatch_error(),
    )
}

fn dispatch_cancelled() -> AgentExecutionV2 {
    prestart(
        AgentAttemptState::DispatchCancelled,
        AgentExecutionState::Cancelled,
        prestart_error(
            AgentErrorCode::Cancelled,
            AgentErrorCategory::Execution,
            "The dispatch was cancelled before the process started.",
            "prestart_cancellation_won",
        ),
    )
}

/// Sets a safe detail the way a key-ordered map would.
fn insert_detail(details: &mut Vec<(String, String)>, key: &str, value: &str) {
    match details.iter_mut().find(|(k, _)| k == key) {
        Some(entry) => entry.1 = value.to_string(),
        None => {
            details.push((key.to_string(), value.to_string()));
            details.sort_by(|a, b| a.0.cmp(&b.0));
        }
    }
}

#[test]
fn v2_execution_fixture_preserves_checkpoint_and_typed_error() {
    let execution = blocked();
    assert_eq!(execution.schema_version, AGENT_EXECUTION_SCHEMA_V2);
    assert_eq!(execution.state, AgentExecutionState::Blocked);
    let error = execution.error.as_ref().unwrap();
    assert_eq!(error.schema_version, AGENT_ERROR_SCHEMA_V2);
    assert_eq!(error.code, AgentErrorCode::ProviderNotAuthenticated);
    assert_eq!(error.retry, AgentRetryDisposition::UserActionRequired);
    assert!(execution.attempts[0].session.is_some());
    execution.validate().unwrap();
}

#[test]
fn execution_idempotency_key_may_hold_empty_and_dot_segments() {
    for key in ["run/", "a//b", "a/./b"] {
        let mut execution = blocked();
        execution.idempotency_key = key.to_string();
        assert_eq!(execution.validate(), Ok(()));
        let mut request = task();
        request.idempotency_key = key.to_string();
        assert_eq!(execution.validate_for_request(&request), Ok(()));
    }
}

#[test]
fn completed_execution_has_coherent_terminal_attempt_output_and_timestamps() {
    let mut execution = blocked();
    let prior_attempt_error = execution.attempts[0].error.clone().unwrap();
    execution.state = AgentExecutionState::Completed;
    execution.active_attempt_id = None;
    execution.error = None;
    execution.finished_at = Some("2026-07-26T10:31:12Z".to_string());
    execution.output = Some(AgentOutput {
        format: AgentOutputFormat::Text,
        content: "completed".to_string(),
        structured: None,
    });
    let attempt = &mut execution.attempts[0];
    attempt.state = AgentAttemptState::Completed;
    attempt.finished_at = Some("2026-07-26T10:31:12Z".to_string());
    attempt.error = None;
    attempt.session.as_mut().unwrap().state = AgentSessionState::Completed;

    execution.validate().unwrap();

    let mut terminal_with_active_attempt = execution.clone();
    terminal_with_active_attempt.active_attempt_id = Some("attempt_01".to_string());
    assert_eq!(
        terminal_with_active_attempt.validate(),
        Err(AgentExecutionValidationError::ExecutionStateActiveAttemptMismatch)
    );

    let mut completed_without_output = execution.clone();
    completed_without_output.output = None;
    assert_eq!(
        completed_without_output.validate(),
        Err(AgentExecutionValidationError::ExecutionStatePayloadMismatch)
    );

    let mut terminal_attempt_mismatch = execution.clone();
    terminal_attempt_mismatch.attempts[0].state = AgentAttemptState::Failed;
    terminal_attempt_mismatch.attempts[0].error = Some(prior_attempt_error);
    assert_eq!(
        terminal_attempt_mismatch.validate(),
        Err(AgentExecutionValidationError::ExecutionTerminalAttemptMismatch)
    );
}

#[test]
fn execution_rejects_incoherent_attempt_timestamp_and_active_id() {
    let mut execution = blocked();
    execution.attempts[0].finished_at = None;
    assert_eq!(
        execution.validate(),
        Err(AgentExecutionValidationError::AttemptTimestampStateMismatch)
    );

    let mut terminal_without_finished_at = blocked();
    terminal_without_finished_at.state = AgentExecutionState::Failed;
    terminal_without_finished_at.active_attempt_id = None;
    terminal_without_finished_at.attempts[0].state = AgentAttemptState::Failed;
    terminal_without_finished_at.attempts[0].finished_at =
        Some("2026-07-26T10:31:12Z".to_string());
    assert_eq!(
        terminal_without_finished_at.validate(),
        Err(AgentExecutionValidationError::ExecutionTimestampStateMismatch)
    );

    let mut unknown_active = blocked();
    unknown_active.active_attempt_id = Some("attempt_missing".to_string());
    assert_eq!(
        unknown_active.validate(),
        Err(AgentExecutionValidationError::ActiveAttemptNotFound)
    );

    let mut rebound_checkpoint = blocked();
    rebound_checkpoint.attempts[0]
        .session
        .as_mut()
        .unwrap()
        .binding
        .workspace_binding_generation += 1;
    assert_eq!(
        rebound_checkpoint.validate(),
        Err(AgentExecutionValidationError::CheckpointBindingMismatch)
    );

    let mut one_sided_resolved_model = blocked();
    one_sided_resolved_model.attempts[0].resolved_model_key = None;
    assert_eq!(
        one_sided_resolved_model.validate(),
        Err(AgentExecutionValidationError::UnpairedAttemptModelIdentity)
    );
}

#[test]
fn separately_built_snapshot_with_same_content_is_a_replay() {
    let request = task();
    let first = blocked_resumed();
    let second = blocked_resumed();
    assert_eq!(
        first.validate_successor(&second, &request),
        Ok(AgentExecutionUpdateKind::IdempotentReplay)
    );
    let mut changed = blocked_resumed();
    changed.updated_at = format!("{}x", changed.updated_at);
    assert_ne!(
        first.validate_successor(&changed, &request),
        Ok(AgentExecutionUpdateKind::IdempotentReplay)
    );
}

#[test]
fn snapshot_with_error_details_in_another_order_is_a_replay() {
    let request = task();
    let mut first = blocked();
    let mut second = blocked();
    second.attempts[0].error.as_mut().unwrap().context.safe_details = vec![
        ("zone".to_string(), "eu".to_string()),
        ("reasonCode".to_string(), "not_signed_in".to_string()),
    ];
    first.attempts[0].error.as_mut().unwrap().context.safe_details = vec![
        ("reasonCode".to_string(), "not_signed_in".to_string()),
        ("zone".to_string(), "eu".to_string()),
    ];
    first.validate_for_request(&request).unwrap();
    assert_eq!(
        first.validate_successor(&second, &request),
        Ok(AgentExecutionUpdateKind::IdempotentReplay)
    );
}

#[test]
fn blocked_resume_appends_one_process_attempt_to_same_logical_execution() {
    let request = task();
    let blocked = blocked();
    let resumed = blocked_resumed();

    blocked.validate_for_request(&request).unwrap();
    resumed.validate_for_request(&request).unwrap();
    assert_eq!(
        blocked.validate_successor(&blocked, &request),
        Ok(AgentExecutionUpdateKind::IdempotentReplay)
    );
    assert_eq!(
        blocked.validate_successor(&resumed, &request),
        Ok(AgentExecutionUpdateKind::Advanced)
    );
    assert_eq!(blocked.execution_id, resumed.execution_id);
    assert_eq!(blocked.request_id, resumed.request_id);
    assert_eq!(blocked.idempotency_key, resumed.idempotency_key);
    assert_eq!(resumed.attempts[1].attempt_number, 2);
    assert_eq!(
        resumed.attempts[1].retry.as_ref().unwrap().from_attempt_id,
        blocked.attempts[0].attempt_id
    );
    assert_eq!(
        resumed.attempts[1].retry.as_ref().unwrap().retry_kind,
        AgentProcessRetryKindV2::ResumeFromCheckpoint
    );
    assert_ne!(
        resumed.attempts[0].task_idempotency_key,
        resumed.attempts[1].task_idempotency_key
    );
    assert_ne!(
        resumed.attempts[0].delivery_idempotency_key,
        resumed.attempts[1].delivery_idempotency_key
    );
    assert_ne!(
        resumed.attempts[0].payload_digest,
        resumed.attempts[1].payload_digest
    );
}

#[test]
fn pre_session_blocked_retry_is_fresh_and_never_fabricates_continuity() {
    let request = task();
    let blocked = pre_session_blocked();
    let retried = fresh_after_remediation();

    blocked.validate_for_request(&request).unwrap();
    retried.validate_for_request(&request).unwrap();
    assert_eq!(
        blocked.validate_successor(&retried, &request),
        Ok(AgentExecutionUpdateKind::Advanced)
    );
    assert!(blocked.attempts[0].session.is_none());
    let retry = retried.attempts[1].retry.as_ref().unwrap();
    assert_eq!(
        retry.retry_kind,
        AgentProcessRetryKindV2::FreshAfterRemediation
    );
    assert!(retry.continuation.is_none());
    assert_eq!(
        retried.attempts[0].candidate_pin(),
        retried.attempts[1].candidate_pin()
    );

    let mut fabricated_resume = retried.clone();
    fabricated_resume.attempts[1]
        .retry
        .as_mut()
        .unwrap()
        .retry_kind = AgentProcessRetryKindV2::ResumeFromCheckpoint;
    assert_eq!(
        fabricated_resume.validate(),
        Err(AgentExecutionValidationError::InvalidAttemptRetry)
    );

    let mut discarded_checkpoint = blocked_resumed();
    let retry = discarded_checkpoint.attempts[1].retry.as_mut().unwrap();
    retry.retry_kind = AgentProcessRetryKindV2::FreshAfterRemediation;
    retry.continuation = None;
    assert_eq!(
        discarded_checkpoint.validate(),
        Err(AgentExecutionValidationError::InvalidAttemptRetry)
    );
}

#[test]
fn disabled_runtime_rejects_valid_dispatch_as_one_seq1_terminal_event() {
    let request = task();
    let rejected = dispatch_rejected();

    rejected.validate_for_request(&request).unwrap();
    assert_eq!(rejected.state, AgentExecutionState::Failed);
    assert_eq!(rejected.sequence, 1);
    assert!(rejected.active_attempt_id.is_none());
    assert_eq!(rejected.attempts.len(), 1);
    let attempt = &rejected.attempts[0];
    assert_eq!(attempt.state, AgentAttemptState::DispatchRejected);
    assert_eq!(attempt.started_sequence, 1);
    assert_eq!(attempt.finished_sequence, Some(1));
    assert_eq!(attempt.started_at, attempt.finished_at.as_deref().unwrap());
    assert!(attempt.session.is_none());
    assert!(attempt.retry.is_none());
    assert_eq!(
        attempt.error.as_ref().unwrap().code,
        AgentErrorCode::AgentRuntimeV2Disabled
    );
    assert_eq!(
        rejected.error.as_ref().unwrap().code,
        AgentErrorCode::AgentRuntimeV2Disabled
    );

    let mut seq2_gap = rejected.clone();
    seq2_gap.sequence = 2;
    seq2_gap.attempts[0].finished_sequence = Some(2);
    assert_eq!(
        seq2_gap.validate(),
        Err(AgentExecutionValidationError::AttemptSequenceInvalid)
    );

    let mut trailing_execution_sequence = rejected.clone();
    trailing_execution_sequence.sequence = 2;
    assert_eq!(
        trailing_execution_sequence.validate(),
        Err(AgentExecutionValidationError::AttemptSequenceInvalid)
    );

    let mut differing_timestamps = rejected.clone();
    differing_timestamps.attempts[0].finished_at = Some("2026-07-27T10:00:01Z".to_string());
    assert_eq!(
        differing_timestamps.validate(),
        Err(AgentExecutionValidationError::AttemptTimestampStateMismatch)
    );

    let mut fake_failed_process = rejected.clone();
    fake_failed_process.attempts[0].state = AgentAttemptState::Failed;
    assert_eq!(
        fake_failed_process.validate(),
        Err(AgentExecutionValidationError::AttemptSequenceInvalid)
    );

    let mut wrong_error = rejected.clone();
    let attempt_error = wrong_error.attempts[0].error.as_mut().unwrap();
    attempt_error.code = AgentErrorCode::RuntimeUnavailable;
    assert_eq!(
        wrong_error.validate(),
        Err(AgentExecutionValidationError::AttemptErrorStateMismatch)
    );

    let mut fabricated_session = rejected;
    fabricated_session.attempts[0].session = Some(checkpoint("attempt_01", 2));
    assert_eq!(
        fabricated_session.validate(),
        Err(AgentExecutionValidationError::AttemptErrorStateMismatch)
    );
}

#[test]
fn backend_synthesizes_malformed_dispatch_rejection_from_trusted_identity_only() {
    let request = task();
    let rejected = malformed_dispatch_rejected();
    let fixture_error = malformed_dispatch_error();

    rejected.validate_for_request(&request).unwrap();
    assert_eq!(rejected.state, AgentExecutionState::Failed);
    assert_eq!(rejected.sequence, 1);
    assert!(rejected.active_attempt_id.is_none());
    assert_eq!(rejected.attempts.len(), 1);
    let attempt = &rejected.attempts[0];
    assert_eq!(attempt.state, AgentAttemptState::DispatchRejected);
    assert_eq!(attempt.started_sequence, 1);
    assert_eq!(attempt.finished_sequence, Some(1));
    assert_eq!(attempt.started_at, attempt.finished_at.as_deref().unwrap());
    assert!(attempt.session.is_none());
    assert!(attempt.retry.is_none());
    assert_eq!(
        synthesize_malformed_dispatch_error(&rejected.execution_id, attempt),
        fixture_error
    );
    assert_eq!(attempt.error.as_ref(), Some(&fixture_error));
    assert_eq!(rejected.error.as_ref(), Some(&fixture_error));

    let mut raw_plugin_error = fixture_error.clone();
    raw_plugin_error.message = "raw plugin parser text: /private/path".to_string();
    raw_plugin_error.context = AgentErrorContext::default();
    assert_ne!(
        synthesize_malformed_dispatch_error(&rejected.execution_id, attempt),
        raw_plugin_error
    );
    let mut copied_raw_plugin_error = rejected.clone();
    copied_raw_plugin_error.attempts[0].error = Some(raw_plugin_error.clone());
    copied_raw_plugin_error.error = Some(raw_plugin_error);
    assert_eq!(
        copied_raw_plugin_error.validate(),
        Err(AgentExecutionValidationError::AttemptErrorStateMismatch)
    );

    let mut extra_untrusted_detail = rejected.clone();
    for error in [
        extra_untrusted_detail.attempts[0].error.as_mut().unwrap(),
        extra_untrusted_detail.error.as_mut().unwrap(),
    ] {
        insert_detail(&mut error.context.safe_details, "rawPath", "/private/path");
    }
    assert_eq!(
        extra_untrusted_detail.validate(),
        Err(AgentExecutionValidationError::AttemptErrorStateMismatch)
    );

    let mut wrong_reason = rejected.clone();
    for error in [
        wrong_reason.attempts[0].error.as_mut().unwrap(),
        wrong_reason.error.as_mut().unwrap(),
    ] {
        insert_detail(&mut error.context.safe_details, "reasonCode", "invalid_request");
    }
    assert_eq!(
        wrong_reason.validate(),
        Err(AgentExecutionValidationError::AttemptErrorStateMismatch)
    );

    let mut mismatched_terminal_error = rejected.clone();
    mismatched_terminal_error.error.as_mut().unwrap().message =
        AGENT_RUNTIME_V2_DISABLED_MESSAGE.to_string();
    assert_eq!(
        mismatched_terminal_error.validate(),
        Err(AgentExecutionValidationError::ExecutionTerminalAttemptMismatch)
    );

    let mut seq2_gap = rejected;
    seq2_gap.sequence = 2;
    seq2_gap.attempts[0].finished_sequence = Some(2);
    assert_eq!(
        seq2_gap.validate(),
        Err(AgentExecutionValidationError::AttemptSequenceInvalid)
    );
}

#[test]
fn synthesized_rejection_names_the_attempt_and_validates() {
    let rejected = malformed_dispatch_rejected();
    let error = synthesize_malformed_dispatch_error("execution_99", &rejected.attempts[0]);
    error.validate().unwrap();
    assert_eq!(error.context.execution_id.as_deref(), Some("execution_99"));
    assert_eq!(error.context.attempt_id.as_deref(), Some("attempt_01"));
    assert_eq!(error.code, AgentErrorCode::InvalidRequest);
    assert_eq!(error.category, AgentErrorCategory::Validation);
    assert_eq!(error.message, AGENT_MALFORMED_DISPATCH_MESSAGE);
    assert_eq!(error.retry, AgentRetryDisposition::Never);
    assert!(error.remediation.is_empty());
    assert_eq!(
        error.context.safe_details,
        vec![("reasonCode".to_string(), "malformed_dispatch".to_string())]
    );
}

#[test]
fn prestart_cancellation_replaces_only_unacknowledged_rejection_and_wins() {
    let request = task();
    let rejected = dispatch_rejected();
    let cancelled = dispatch_cancelled();

    rejected.validate_for_request(&request).unwrap();
    cancelled.validate_for_request(&request).unwrap();
    assert_eq!(
        rejected.validate_prestart_cancellation_replacement(&cancelled, &request),
        Ok(AgentPrestartCancellationReplacement::CancellationWon)
    );
    assert_eq!(cancelled.state, AgentExecutionState::Cancelled);
    assert_eq!(cancelled.sequence, 1);
    let attempt = &cancelled.attempts[0];
    assert_eq!(attempt.state, AgentAttemptState::DispatchCancelled);
    assert_eq!(attempt.started_sequence, 1);
    assert_eq!(attempt.finished_sequence, Some(1));
    assert_eq!(attempt.started_at, attempt.finished_at.as_deref().unwrap());
    assert!(attempt.session.is_none());
    assert!(attempt.retry.is_none());
    assert_eq!(attempt.delivery, rejected.attempts[0].delivery);
    assert_eq!(
        attempt.task_idempotency_key,
        rejected.attempts[0].task_idempotency_key
    );
    assert_eq!(attempt.payload_digest, rejected.attempts[0].payload_digest);
    assert_eq!(
        loomex_protocol::get_detail(
            &attempt.error.as_ref().unwrap().context.safe_details,
            "reasonCode"
        )
        .map(String::as_str),
        Some("prestart_cancellation_won")
    );

    assert_eq!(
        rejected.validate_successor(&cancelled, &request),
        Err(AgentExecutionValidationError::NonMonotonicUpdate)
    );
    assert_eq!(
        cancelled.validate_successor(&cancelled, &request),
        Ok(AgentExecutionUpdateKind::IdempotentReplay)
    );

    let mut changed_dispatch = cancelled.clone();
    changed_dispatch.attempts[0].payload_digest = digest('1');
    assert_eq!(
        rejected.validate_prestart_cancellation_replacement(&changed_dispatch, &request),
        Err(AgentExecutionValidationError::InvalidPrestartCancellationReplacement)
    );
    assert_eq!(
        cancelled.validate_prestart_cancellation_replacement(&rejected, &request),
        Err(AgentExecutionValidationError::InvalidPrestartCancellationReplacement)
    );

    let mut wrong_reason = cancelled.clone();
    insert_detail(
        &mut wrong_reason.attempts[0].error.as_mut().unwrap().context.safe_details,
        "reasonCode",
        "provider_cancelled",
    );
    assert_eq!(
        wrong_reason.validate(),
        Err(AgentExecutionValidationError::AttemptErrorStateMismatch)
    );

    let mut fabricated_session = cancelled;
    fabricated_session.attempts[0].session = Some(checkpoint("attempt_01", 2));
    assert_eq!(
        fabricated_session.validate(),
        Err(AgentExecutionValidationError::AttemptErrorStateMismatch)
    );
}

#[test]
fn resumed_process_attempt_rejects_rebinding_repinning_and_checkpoint_drift() {
    let request = task();
    let blocked = blocked();
    let resumed = blocked_resumed();

    let mut rebound = resumed.clone();
    rebound.binding.workspace_binding_generation += 1;
    rebound.attempts[0]
        .session
        .as_mut()
        .unwrap()
        .binding
        .workspace_binding_generation += 1;
    rebound.attempts[1]
        .retry
        .as_mut()
        .unwrap()
        .continuation
        .as_mut()
        .unwrap()
        .binding
        .workspace_binding_generation += 1;
    assert_eq!(
        blocked.validate_successor(&rebound, &request),
        Err(AgentExecutionValidationError::LogicalIdentityMismatch)
    );

    let mut repinned = resumed.clone();
    repinned.attempts[1].selection_index = 1;
    assert_eq!(
        blocked.validate_successor(&repinned, &request),
        Err(AgentExecutionValidationError::PinnedCandidateChanged)
    );

    let mut drifted = resumed;
    drifted.attempts[1]
        .retry
        .as_mut()
        .unwrap()
        .continuation
        .as_mut()
        .unwrap()
        .sequence += 1;
    assert_eq!(
        blocked.validate_successor(&drifted, &request),
        Err(AgentExecutionValidationError::InvalidAttemptRetry)
    );

    let mut key_reused = blocked_resumed();
    key_reused.attempts[1].task_idempotency_key =
        key_reused.attempts[0].task_idempotency_key.clone();
    assert_eq!(
        key_reused.validate(),
        Err(AgentExecutionValidationError::DuplicateAttemptIdempotencyKey)
    );

    let mut rewritten_digest = blocked_resumed();
    rewritten_digest.attempts[0].payload_digest = digest('1');
    assert_eq!(
        blocked.validate_successor(&rewritten_digest, &request),
        Err(AgentExecutionValidationError::AttemptHistoryRewritten)
    );
}

#[test]
fn successor_rules_on_sequence_growth_and_terminal_history() {
    let request = task();
    let blocked = blocked();
    let resumed = blocked_resumed();

    let mut stale = blocked.clone();
    stale.updated_at = "2026-07-26T10:30:41Z".to_string();
    assert_eq!(
        blocked.validate_successor(&stale, &request),
        Err(AgentExecutionValidationError::NonMonotonicUpdate)
    );

    let mut same_attempts = blocked.clone();
    same_attempts.sequence = 4;
    assert_eq!(
        blocked.validate_successor(&same_attempts, &request),
        Err(AgentExecutionValidationError::AttemptHistoryRewritten)
    );

    assert_eq!(
        resumed.validate_successor(&blocked, &request),
        Err(AgentExecutionValidationError::NonMonotonicUpdate)
    );

    let mut other_execution = resumed.clone();
    other_execution.execution_id = "execution_02".to_string();
    for attempt in other_execution.attempts.iter_mut() {
        if let Some(session) = attempt.session.as_mut() {
            session.execution_id = "execution_02".to_string();
        }
        if let Some(error) = attempt.error.as_mut() {
            error.context.execution_id = Some("execution_02".to_string());
        }
    }
    other_execution.validate_for_request(&request).unwrap();
    assert_eq!(
        blocked.validate_successor(&other_execution, &request),
        Err(AgentExecutionValidationError::LogicalIdentityMismatch)
    );

    let rejected = dispatch_rejected();
    let mut later = rejected.clone();
    later.updated_at = "2026-07-27T10:00:05Z".to_string();
    later.validate_for_request(&request).unwrap();
    assert_eq!(
        rejected.validate_successor(&later, &request),
        Err(AgentExecutionValidationError::NonMonotonicUpdate)
    );
}

#[test]
fn execution_reports_header_and_attempt_errors() {
    let mut wrong_schema = blocked();
    wrong_schema.schema_version = "loomex.agent-execution.v1".to_string();
    assert_eq!(
        wrong_schema.validate(),
        Err(AgentExecutionValidationError::WrongSchemaVersion)
    );

    let mut no_request = blocked();
    no_request.request_id = " ".to_string();
    assert_eq!(no_request.validate(), Err(AgentExecutionValidationError::EmptyIdentity));

    let mut bad_key = blocked();
    bad_key.idempotency_key = "-x".to_string();
    assert_eq!(
        bad_key.validate(),
        Err(AgentExecutionValidationError::InvalidIdempotencyKey)
    );

    let mut zero_sequence = blocked();
    zero_sequence.sequence = 0;
    assert_eq!(
        zero_sequence.validate(),
        Err(AgentExecutionValidationError::InvalidLifecycleSequence)
    );

    let mut too_many = blocked();
    for n in 2..=9u32 {
        too_many.attempts.push(attempt(&format!("attempt_{n:02}"), n, 'c', AgentAttemptState::Queued));
    }
    assert_eq!(too_many.validate(), Err(AgentExecutionValidationError::TooManyAttempts));

    let mut blank_update = blocked();
    blank_update.updated_at = String::new();
    assert_eq!(
        blank_update.validate(),
        Err(AgentExecutionValidationError::EmptyExecutionTimestamp)
    );

    let mut unbound = blocked();
    unbound.binding.runner_id = " ".to_string();
    assert_eq!(unbound.validate(), Err(AgentExecutionValidationError::InvalidBinding));

    let mut no_attempt_id = blocked();
    no_attempt_id.attempts[0].attempt_id = String::new();
    assert_eq!(
        no_attempt_id.validate(),
        Err(AgentExecutionValidationError::EmptyAttemptIdentity)
    );

    let mut zero_number = blocked();
    zero_number.attempts[0].attempt_number = 0;
    assert_eq!(
        zero_number.validate(),
        Err(AgentExecutionValidationError::InvalidAttemptNumber)
    );

    let mut bad_delivery_key = blocked();
    bad_delivery_key.attempts[0].delivery_idempotency_key = task_key('a');
    assert_eq!(
        bad_delivery_key.validate(),
        Err(AgentExecutionValidationError::InvalidAttemptIdempotencyKey)
    );

    let mut bad_digest = blocked();
    bad_digest.attempts[0].payload_digest = hex('a');
    assert_eq!(
        bad_digest.validate(),
        Err(AgentExecutionValidationError::InvalidAttemptPayloadDigest)
    );

    let mut foreign_lease = blocked();
    foreign_lease.attempts[0].delivery.lease_target_runner_id = Some("runner_other".to_string());
    assert_eq!(
        foreign_lease.validate(),
        Err(AgentExecutionValidationError::InvalidAttemptDeliveryRoute)
    );

    let mut blank_start = blocked();
    blank_start.attempts[0].started_at = " ".to_string();
    assert_eq!(
        blank_start.validate(),
        Err(AgentExecutionValidationError::EmptyAttemptTimestamp)
    );

    let mut wrong_provider = blocked();
    wrong_provider.attempts[0].provider = AgentProvider::Google;
    assert_eq!(
        wrong_provider.validate(),
        Err(AgentExecutionValidationError::AttemptExecutorProviderMismatch)
    );

    let mut unsafe_requested = blocked();
    unsafe_requested.attempts[0].requested_model_key = Some("../gpt".to_string());
    assert_eq!(
        unsafe_requested.validate(),
        Err(AgentExecutionValidationError::UnsafeAttemptCliIdentifier)
    );

    let mut broken_checkpoint = blocked();
    broken_checkpoint.attempts[0].session.as_mut().unwrap().sequence = 0;
    assert_eq!(
        broken_checkpoint.validate(),
        Err(AgentExecutionValidationError::InvalidCheckpoint)
    );

    let mut repinned_checkpoint = blocked();
    repinned_checkpoint.attempts[0].session.as_mut().unwrap().selection_index = 1;
    assert_eq!(
        repinned_checkpoint.validate(),
        Err(AgentExecutionValidationError::CheckpointCandidateMismatch)
    );

    let mut invalid_error = blocked();
    invalid_error.attempts[0].error.as_mut().unwrap().message = String::new();
    assert_eq!(
        invalid_error.validate(),
        Err(AgentExecutionValidationError::InvalidAttemptError)
    );

    let mut foreign_error = blocked();
    foreign_error.attempts[0].error.as_mut().unwrap().context.attempt_id =
        Some("attempt_99".to_string());
    assert_eq!(
        foreign_error.validate(),
        Err(AgentExecutionValidationError::ErrorContextBindingMismatch)
    );

    let mut invalid_execution_error = blocked();
    invalid_execution_error.error.as_mut().unwrap().category = AgentErrorCategory::Internal;
    assert_eq!(
        invalid_execution_error.validate(),
        Err(AgentExecutionValidationError::InvalidExecutionError)
    );

    let mut foreign_execution_error = blocked();
    foreign_execution_error.error.as_mut().unwrap().context.execution_id =
        Some("execution_99".to_string());
    assert_eq!(
        foreign_execution_error.validate(),
        Err(AgentExecutionValidationError::ErrorContextBindingMismatch)
    );
}

#[test]
fn attempts_must_be_numbered_without_gaps_or_repeats() {
    let mut gap = blocked_resumed();
    gap.attempts[1].attempt_number = 3;
    assert_eq!(
        gap.validate(),
        Err(AgentExecutionValidationError::AttemptNumbersNotContiguous)
    );

    let mut repeated = blocked_resumed();
    repeated.attempts[1].attempt_number = 1;
    assert_eq!(
        repeated.validate(),
        Err(AgentExecutionValidationError::DuplicateAttemptNumber)
    );

    let mut same_id = blocked_resumed();
    same_id.attempts[1].attempt_id = "attempt_01".to_string();
    assert_eq!(
        same_id.validate(),
        Err(AgentExecutionValidationError::DuplicateAttemptId)
    );

    let mut same_delivery = blocked_resumed();
    same_delivery.attempts[1].delivery_idempotency_key = delivery_key('a');
    assert_eq!(
        same_delivery.validate(),
        Err(AgentExecutionValidationError::DuplicateAttemptDeliveryIdempotencyKey)
    );

    let mut same_digest = blocked_resumed();
    same_digest.attempts[1].payload_digest = digest('a');
    assert_eq!(
        same_digest.validate(),
        Err(AgentExecutionValidationError::DuplicateAttemptPayloadDigest)
    );

    let mut reused_sequence = blocked_resumed();
    reused_sequence.attempts[1].started_sequence = 2;
    assert_eq!(
        reused_sequence.validate(),
        Err(AgentExecutionValidationError::AttemptSequenceInvalid)
    );

    let mut first_with_retry = blocked();
    first_with_retry.attempts[0].retry = Some(AgentAttemptRetryV2 {
        retry_kind: AgentProcessRetryKindV2::Initial,
        from_attempt_id: "attempt_00".to_string(),
        continuation: None,
    });
    assert_eq!(
        first_with_retry.validate(),
        Err(AgentExecutionValidationError::InvalidAttemptRetry)
    );

    let mut swapped = blocked_resumed();
    swapped.attempts.swap(0, 1);
    swapped.validate().unwrap();
}

#[test]
fn running_and_probing_executions_name_a_matching_active_attempt() {
    let running = blocked_resumed();
    running.validate().unwrap();

    let mut no_active = running.clone();
    no_active.active_attempt_id = None;
    assert_eq!(
        no_active.validate(),
        Err(AgentExecutionValidationError::ExecutionStateActiveAttemptMismatch)
    );

    let mut probing = running.clone();
    probing.state = AgentExecutionState::Probing;
    assert_eq!(
        probing.validate(),
        Err(AgentExecutionValidationError::ExecutionStateActiveAttemptMismatch)
    );
    probing.attempts[1].state = AgentAttemptState::Probing;
    probing.validate().unwrap();

    let mut running_with_error = running.clone();
    running_with_error.error = Some(not_authenticated("attempt_02"));
    assert_eq!(
        running_with_error.validate(),
        Err(AgentExecutionValidationError::ExecutionStatePayloadMismatch)
    );

    let mut invalid_output = running;
    invalid_output.output = Some(AgentOutput {
        format: AgentOutputFormat::Text,
        content: " ".to_string(),
        structured: None,
    });
    assert_eq!(
        invalid_output.validate(),
        Err(AgentExecutionValidationError::InvalidOutput)
    );
}
