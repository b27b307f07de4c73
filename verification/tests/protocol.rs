use loomex_protocol::{
    check_protocol_compatibility, synthesize_malformed_dispatch_error, AgentAttemptState,
    AgentAttemptV2, AgentDeliveryRouteV2, AgentErrorCategory, AgentErrorCode,
    AgentProcessDeliveryV2, AgentProvider, ExecutorKind, ProtocolCompatibility, RunnerIdentity,
    RunnerPlatform, RunnerSurface, AGENT_CAPABILITY_SCHEMA_V2, AGENT_ERROR_SCHEMA_V2,
    AGENT_EXECUTION_SCHEMA_V2, AGENT_MALFORMED_DISPATCH_MESSAGE,
    AGENT_MALFORMED_DISPATCH_REASON_CODE, AGENT_PROCESS_DISPATCH_SCHEMA_V2,
    AGENT_RUNTIME_CAPABILITY_V2, AGENT_RUNTIME_V2_DISABLED_MESSAGE,
    AGENT_RUNTIME_V2_DISABLED_REASON_CODE, AGENT_SESSION_SCHEMA_V2, AGENT_TASK_SCHEMA_V2,
    LEGACY_AGENT_TASK_DRAIN_CAPABILITY, MAX_AGENT_PROCESS_ATTEMPTS_PER_EXECUTION,
    MINIMUM_SUPPORTED_PROTOCOL_VERSION, PROTOCOL_VERSION, RUNNER_AGENT_ADVERTISEMENT_SCHEMA_V1,
    RUNNER_PROTOCOL_V1,
};

#[test]
fn rejects_unreleased_transport_protocol_versions() {
    assert_eq!(
        check_protocol_compatibility("runner.v2"),
        ProtocolCompatibility::UnsupportedVersion {
            received: "runner.v2".to_string(),
            expected: PROTOCOL_VERSION,
        }
    );
}

#[test]
fn current_protocol_version_is_compatible() {
    assert_eq!(RUNNER_PROTOCOL_V1, "runner.v1");
    assert_eq!(PROTOCOL_VERSION, RUNNER_PROTOCOL_V1);
    assert_eq!(MINIMUM_SUPPORTED_PROTOCOL_VERSION, RUNNER_PROTOCOL_V1);
    assert_eq!(
        check_protocol_compatibility("runner.v1"),
        ProtocolCompatibility::Compatible
    );
}

#[test]
fn identity_supports_exactly_the_current_protocol() {
    let mut identity = RunnerIdentity {
        surface: RunnerSurface::Plugin,
        runner_version: "1.4.0".to_string(),
        protocol_version: PROTOCOL_VERSION.to_string(),
        capabilities: vec!["fs.read".to_string()],
        platform: RunnerPlatform::Linux,
        architecture: "x86_64".to_string(),
    };
    assert!(identity.supports_protocol());
    assert_eq!(identity.clone(), identity);
    identity.protocol_version = "runner.v0".to_string();
    assert!(!identity.supports_protocol());
}

#[test]
fn surfaces_have_stable_wire_names() {
    assert_eq!(RunnerSurface::Desktop.as_str(), "desktop");
    assert_eq!(RunnerSurface::Plugin.as_str(), "plugin");
}

#[test]
fn v1_identity_fixture_remains_compatible() {
    let identity = RunnerIdentity {
        surface: RunnerSurface::Plugin,
        runner_version: "1.4.0".to_string(),
        protocol_version: "runner.v1".to_string(),
        capabilities: vec!["fs.read".to_string(), "agent.runtime.v2".to_string()],
        platform: RunnerPlatform::Macos,
        architecture: "arm64".to_string(),
    };

    assert_eq!(identity.protocol_version, RUNNER_PROTOCOL_V1);
    assert!(identity.supports_protocol());
    assert_eq!(identity.surface, RunnerSurface::Plugin);
}

#[test]
fn v1_runner_and_v2_agent_public_surface_remain_available() {

    assert_eq!(RUNNER_PROTOCOL_V1, "runner.v1");
    assert_eq!(PROTOCOL_VERSION, RUNNER_PROTOCOL_V1);
    assert_eq!(MINIMUM_SUPPORTED_PROTOCOL_VERSION, RUNNER_PROTOCOL_V1);
    assert_eq!(AGENT_RUNTIME_CAPABILITY_V2, "agent.runtime.v2");
    assert_eq!(LEGACY_AGENT_TASK_DRAIN_CAPABILITY, "agent.task.v1.drain");
    assert_eq!(
        RUNNER_AGENT_ADVERTISEMENT_SCHEMA_V1,
        "loomex.runner-agent-advertisement/v1"
    );
    assert_eq!(AGENT_TASK_SCHEMA_V2, "loomex.plugin-agent-task/v2");
    assert_eq!(AGENT_CAPABILITY_SCHEMA_V2, "loomex.agent-capabilities.v2");
    assert_eq!(AGENT_EXECUTION_SCHEMA_V2, "loomex.agent-execution.v2");
    assert_eq!(
        AGENT_PROCESS_DISPATCH_SCHEMA_V2,
        "loomex.agent-process-dispatch.v2"
    );
    assert_eq!(AGENT_ERROR_SCHEMA_V2, "loomex.agent-error.v2");
    assert_eq!(AGENT_SESSION_SCHEMA_V2, "loomex.agent-session.v2");
    assert_eq!(
        AGENT_RUNTIME_V2_DISABLED_REASON_CODE,
        "agent_runtime_v2_disabled"
    );
    assert_eq!(
        AGENT_RUNTIME_V2_DISABLED_MESSAGE,
        "Local agent runtime v2 execution is disabled."
    );
    assert_eq!(AGENT_MALFORMED_DISPATCH_REASON_CODE, "malformed_dispatch");
    assert_eq!(
        AGENT_MALFORMED_DISPATCH_MESSAGE,
        "The process dispatch payload was malformed."
    );
    assert_eq!(MAX_AGENT_PROCESS_ATTEMPTS_PER_EXECUTION, 8);

    assert_eq!(
        check_protocol_compatibility(RUNNER_PROTOCOL_V1),
        ProtocolCompatibility::Compatible
    );

    assert_eq!(ExecutorKind::CodexCli.provider(), AgentProvider::OpenAi);
    assert_eq!(ExecutorKind::ClaudeCli.provider(), AgentProvider::Anthropic);
    assert_eq!(ExecutorKind::AgyCli.provider(), AgentProvider::Google);
    assert_eq!(
        AgentErrorCode::ProviderNotEligible.category(),
        AgentErrorCategory::Authorization
    );

    let attempt = AgentAttemptV2 {
        attempt_id: "attempt_01".to_string(),
        attempt_number: 1,
        task_idempotency_key: format!("loomex-agent-attempt-v2:{}", "a".repeat(64)),
        delivery_idempotency_key: format!("loomex-agent-delivery-v2:{}", "a".repeat(64)),
        payload_digest: format!("sha256:{}", "a".repeat(64)),
        state: AgentAttemptState::DispatchRejected,
        started_sequence: 1,
        finished_sequence: Some(1),
        selection_index: 0,
        executor: ExecutorKind::CodexCli,
        provider: AgentProvider::OpenAi,
        requested_model_key: Some("openai/gpt-5.2".to_string()),
        requested_provider_model_id: Some("gpt-5.2".to_string()),
        resolved_model_key: Some("openai/gpt-5.2".to_string()),
        resolved_provider_model_id: Some("gpt-5.2".to_string()),
        started_at: "2026-07-27T10:00:00Z".to_string(),
        finished_at: Some("2026-07-27T10:00:00Z".to_string()),
        session: None,
        retry: None,
        delivery: AgentProcessDeliveryV2 {
            route: AgentDeliveryRouteV2::DirectControl,
            runner_job_id: None,
            lease_target_runner_id: None,
        },
        error: None,
    };
    let error = synthesize_malformed_dispatch_error("execution_01", &attempt);
    assert_eq!(error.code, AgentErrorCode::InvalidRequest);
    assert_eq!(error.message, AGENT_MALFORMED_DISPATCH_MESSAGE);
    assert_eq!(error.context.requested_model_key.as_deref(), Some("openai/gpt-5.2"));
    assert_eq!(error.context.resolved_model_key, None);
}
