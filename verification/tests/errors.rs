use loomex_protocol::{
    get_detail, AgentErrorCategory, AgentErrorCode, AgentErrorContext, AgentErrorValidationError,
    AgentProvider, AgentRemediationAction, AgentRetryDisposition, AgentRuntimeErrorEnvelopeV2,
    ExecutorKind, AGENT_ERROR_SCHEMA_V2, MAX_PROVIDER_MODEL_ID_LENGTH,
};

fn detail(key: &str, value: &str) -> (String, String) {
    (key.to_string(), value.to_string())
}

fn context(resolved: bool, details: Vec<(String, String)>) -> AgentErrorContext {
    AgentErrorContext {
        executor: Some(ExecutorKind::CodexCli),
        provider: Some(AgentProvider::OpenAi),
        requested_model_key: Some("openai/gpt-5.2".to_string()),
        requested_provider_model_id: Some("gpt-5.2".to_string()),
        resolved_model_key: if resolved { Some("openai/gpt-5.2".to_string()) } else { None },
        resolved_provider_model_id: if resolved { Some("gpt-5.2".to_string()) } else { None },
        execution_id: Some("execution_01".to_string()),
        attempt_id: Some("attempt_01".to_string()),
        session_id: None,
        safe_details: details,
    }
}

fn envelope(
    code: AgentErrorCode,
    message: &str,
    retry: AgentRetryDisposition,
    remediation: Vec<AgentRemediationAction>,
    context: AgentErrorContext,
) -> AgentRuntimeErrorEnvelopeV2 {
    AgentRuntimeErrorEnvelopeV2 {
        schema_version: AGENT_ERROR_SCHEMA_V2.to_string(),
        code,
        category: code.category(),
        message: message.to_string(),
        retry,
        retry_after_seconds: None,
        remediation,
        context,
    }
}

fn model_not_available() -> AgentRuntimeErrorEnvelopeV2 {
    envelope(
        AgentErrorCode::ModelNotAvailable,
        "The selected model is not available to this account.",
        AgentRetryDisposition::UserActionRequired,
        vec![AgentRemediationAction::SelectDifferentModel],
        context(true, vec![detail("reasonCode", "model_not_available")]),
    )
}

fn provider_not_eligible() -> AgentRuntimeErrorEnvelopeV2 {
    envelope(
        AgentErrorCode::ProviderNotEligible,
        "The provider account is not eligible for this model.",
        AgentRetryDisposition::UserActionRequired,
        vec![
            AgentRemediationAction::VerifyProviderAccess,
            AgentRemediationAction::ContactSupport,
        ],
        context(false, vec![detail("reasonCode", "account_not_eligible")]),
    )
}

fn refresh_executor_discovery() -> AgentRuntimeErrorEnvelopeV2 {
    envelope(
        AgentErrorCode::RuntimeUnavailable,
        "The executor was not found where it was last discovered.",
        AgentRetryDisposition::UserActionRequired,
        vec![AgentRemediationAction::RefreshExecutorDiscovery],
        context(
            false,
            vec![
                detail("executor", "codex_cli"),
                detail("reasonCode", "executor_location_stale"),
            ],
        ),
    )
}

fn upgrade_executor() -> AgentRuntimeErrorEnvelopeV2 {
    envelope(
        AgentErrorCode::UnsupportedCapability,
        "The installed executor version could not be verified.",
        AgentRetryDisposition::UserActionRequired,
        vec![
            AgentRemediationAction::UpgradeExecutor,
            AgentRemediationAction::RefreshExecutorDiscovery,
        ],
        context(false, vec![detail("reasonCode", "executor_version_unverified")]),
    )
}

#[test]
fn v2_error_fixture_has_a_stable_category_and_remediation() {
    let error = model_not_available();
    assert_eq!(error.code, AgentErrorCode::ModelNotAvailable);
    assert_eq!(error.category, AgentErrorCategory::Availability);
    assert_eq!(
        error.remediation,
        vec![AgentRemediationAction::SelectDifferentModel]
    );
    error.validate().unwrap();
}

#[test]
fn error_context_resolved_model_identity_is_an_atomic_safe_pair() {
    let resolved = model_not_available();
    assert_eq!(
        resolved.context.resolved_model_key.as_deref(),
        Some("openai/gpt-5.2")
    );
    assert_eq!(
        resolved.context.resolved_provider_model_id.as_deref(),
        Some("gpt-5.2")
    );
    resolved.validate().unwrap();

    let pre_resolution = refresh_executor_discovery();
    assert!(pre_resolution.context.resolved_model_key.is_none());
    assert!(pre_resolution.context.resolved_provider_model_id.is_none());
    pre_resolution.validate().unwrap();

    let mut missing_key = resolved.clone();
    missing_key.context.resolved_model_key = None;
    assert_eq!(
        missing_key.validate(),
        Err(AgentErrorValidationError::UnpairedResolvedModelIdentity)
    );

    let mut missing_provider_id = resolved.clone();
    missing_provider_id.context.resolved_provider_model_id = None;
    assert_eq!(
        missing_provider_id.validate(),
        Err(AgentErrorValidationError::UnpairedResolvedModelIdentity)
    );

    for unsafe_value in ["", "--model", "openai/../gpt-5.2"] {
        let mut unsafe_key = resolved.clone();
        unsafe_key.context.resolved_model_key = Some(unsafe_value.to_string());
        assert_eq!(
            unsafe_key.validate(),
            Err(AgentErrorValidationError::UnsafeResolvedModelIdentity)
        );
    }

    let mut oversized_provider_id = resolved;
    oversized_provider_id.context.resolved_provider_model_id =
        Some("m".repeat(MAX_PROVIDER_MODEL_ID_LENGTH + 1));
    assert_eq!(
        oversized_provider_id.validate(),
        Err(AgentErrorValidationError::UnsafeResolvedModelIdentity)
    );
}

#[test]
fn provider_not_eligible_error_is_typed_sanitized_and_backward_additive() {
    let error = provider_not_eligible();
    assert_eq!(error.schema_version, AGENT_ERROR_SCHEMA_V2);
    assert_eq!(error.code, AgentErrorCode::ProviderNotEligible);
    assert_eq!(error.category, AgentErrorCategory::Authorization);
    assert_eq!(
        error.remediation,
        vec![
            AgentRemediationAction::VerifyProviderAccess,
            AgentRemediationAction::ContactSupport,
        ]
    );
    assert_eq!(
        get_detail(&error.context.safe_details, "reasonCode").map(String::as_str),
        Some("account_not_eligible")
    );
    assert!(!error.message.contains('@'));
    error.validate().unwrap();
}

#[test]
fn refresh_executor_discovery_is_distinct_and_sanitized() {
    let error = refresh_executor_discovery();
    assert_eq!(error.code, AgentErrorCode::RuntimeUnavailable);
    assert_eq!(
        error.remediation,
        vec![AgentRemediationAction::RefreshExecutorDiscovery]
    );
    assert!(!error
        .remediation
        .contains(&AgentRemediationAction::InstallExecutor));
    assert!(!error
        .context
        .safe_details
        .iter()
        .any(|(_, value)| value.contains('/') || value.contains('\\')));
    error.validate().unwrap();
}

#[test]
fn executor_version_gate_requires_upgrade_and_refresh_remediation() {
    let error = upgrade_executor();
    assert_eq!(error.code, AgentErrorCode::UnsupportedCapability);
    assert_eq!(
        error.remediation,
        vec![
            AgentRemediationAction::UpgradeExecutor,
            AgentRemediationAction::RefreshExecutorDiscovery,
        ]
    );
    assert!(!error
        .remediation
        .contains(&AgentRemediationAction::ReconfigureWorkflow));
    assert_eq!(
        get_detail(&error.context.safe_details, "reasonCode").map(String::as_str),
        Some("executor_version_unverified")
    );
    error.validate().unwrap();

    let mut generic = error.clone();
    generic.remediation = vec![AgentRemediationAction::ReconfigureWorkflow];
    assert_eq!(
        generic.validate(),
        Err(AgentErrorValidationError::VersionGateRemediationMismatch)
    );

    let mut upgrade_only = error.clone();
    upgrade_only.remediation = vec![AgentRemediationAction::UpgradeExecutor];
    assert_eq!(
        upgrade_only.validate(),
        Err(AgentErrorValidationError::VersionGateRemediationMismatch)
    );

    let mut other_code = error;
    other_code.code = AgentErrorCode::InvalidRequest;
    other_code.category = AgentErrorCategory::Validation;
    assert_eq!(
        other_code.validate(),
        Err(AgentErrorValidationError::VersionGateRemediationMismatch)
    );
}

#[test]
fn envelope_reports_each_structural_error() {
    let mut wrong_schema = model_not_available();
    wrong_schema.schema_version = "loomex.agent-error.v1".to_string();
    assert_eq!(
        wrong_schema.validate(),
        Err(AgentErrorValidationError::WrongSchemaVersion)
    );

    let mut wrong_category = model_not_available();
    wrong_category.category = AgentErrorCategory::Internal;
    assert_eq!(
        wrong_category.validate(),
        Err(AgentErrorValidationError::CategoryMismatch)
    );

    let mut blank_message = model_not_available();
    blank_message.message = " \t".to_string();
    assert_eq!(
        blank_message.validate(),
        Err(AgentErrorValidationError::EmptyMessage)
    );

    let mut delay_without_retry = model_not_available();
    delay_without_retry.retry_after_seconds = Some(30);
    assert_eq!(
        delay_without_retry.validate(),
        Err(AgentErrorValidationError::RetryDelayWithoutRetryableDisposition)
    );

    let mut retryable = model_not_available();
    retryable.retry = AgentRetryDisposition::Retryable;
    retryable.retry_after_seconds = Some(30);
    retryable.validate().unwrap();

    let mut action_without_remediation = model_not_available();
    action_without_remediation.remediation = vec![];
    assert_eq!(
        action_without_remediation.validate(),
        Err(AgentErrorValidationError::UserActionWithoutRemediation)
    );
}

#[test]
fn error_codes_map_to_one_stable_category() {
    let expected = [
        (AgentErrorCode::InvalidRequest, AgentErrorCategory::Validation),
        (AgentErrorCode::ProtocolMismatch, AgentErrorCategory::Protocol),
        (AgentErrorCode::ProviderNotInstalled, AgentErrorCategory::Availability),
        (AgentErrorCode::ProviderNotAuthenticated, AgentErrorCategory::Authentication),
        (AgentErrorCode::ProviderNotEligible, AgentErrorCategory::Authorization),
        (AgentErrorCode::AgentRuntimeV2Disabled, AgentErrorCategory::Availability),
        (AgentErrorCode::RuntimeUnavailable, AgentErrorCategory::Availability),
        (AgentErrorCode::ModelUnknown, AgentErrorCategory::Validation),
        (AgentErrorCode::ModelNotAvailable, AgentErrorCategory::Availability),
        (AgentErrorCode::UnsupportedCapability, AgentErrorCategory::Validation),
        (AgentErrorCode::RateLimited, AgentErrorCategory::Capacity),
        (AgentErrorCode::NetworkError, AgentErrorCategory::Transport),
        (AgentErrorCode::Timeout, AgentErrorCategory::Transport),
        (AgentErrorCode::Cancelled, AgentErrorCategory::Execution),
        (AgentErrorCode::OutputInvalid, AgentErrorCategory::Output),
        (AgentErrorCode::SessionNotFound, AgentErrorCategory::Continuity),
        (AgentErrorCode::SessionMismatch, AgentErrorCategory::Continuity),
        (AgentErrorCode::ExecutionFailed, AgentErrorCategory::Execution),
        (AgentErrorCode::ExecutionIndeterminate, AgentErrorCategory::Execution),
        (AgentErrorCode::InternalError, AgentErrorCategory::Internal),
    ];
    for (code, category) in expected {
        assert_eq!(code.category(), category);
    }
}

#[test]
fn default_context_is_empty() {
    let context = AgentErrorContext::default();
    assert!(context.executor.is_none());
    assert!(context.execution_id.is_none());
    assert!(context.safe_details.is_empty());
    assert_eq!(get_detail(&context.safe_details, "reasonCode"), None);
}

#[test]
fn details_keyed_once_are_found_wherever_they_stand() {
    let details = vec![
        ("attempt".to_string(), "2".to_string()),
        ("reasonCode".to_string(), "x".to_string()),
        ("zone".to_string(), "eu".to_string()),
    ];
    assert_eq!(get_detail(&details, "attempt").map(String::as_str), Some("2"));
    assert_eq!(get_detail(&details, "reasonCode").map(String::as_str), Some("x"));
    assert_eq!(get_detail(&details, "zone").map(String::as_str), Some("eu"));
    assert_eq!(get_detail(&details, "missing"), None);
}

#[test]
fn contexts_compare_details_as_maps_whatever_their_order() {
    let sorted = context(false, vec![detail("a", "1"), detail("reasonCode", "x")]);
    let reordered = context(false, vec![detail("reasonCode", "x"), detail("a", "1")]);
    assert_eq!(sorted, reordered);
    assert!(loomex_protocol::details_eq(&sorted.safe_details, &reordered.safe_details));
    let changed = context(false, vec![detail("reasonCode", "x"), detail("a", "2")]);
    assert_ne!(sorted, changed);
    let longer = context(
        false,
        vec![detail("a", "1"), detail("reasonCode", "x"), detail("z", "0")],
    );
    assert_ne!(sorted, longer);
}
