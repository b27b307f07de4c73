use loomex_protocol::{
    AgentErrorCategory, AgentErrorCode, AgentErrorContext, AgentExecutorCapability,
    AgentModelCapability, AgentProvider, AgentRemediationAction, AgentRetryDisposition,
    AgentRuntimeCapabilitySnapshotV2, AgentRuntimeErrorEnvelopeV2, AgentRuntimeFeatures,
    AuthenticationState, CapabilitySnapshotValidationError, ExecutorKind, InstallationState,
    LegacyAgentTaskMode, LegacyAgentTasksAdvertisementV1, ModelAvailability, ModelDiscoveryKind,
    ReasoningEffort, RunnerAgentAdvertisementV1, RunnerAgentAdvertisementValidationError,
    RuntimeReadiness, AGENT_CAPABILITY_SCHEMA_V2, AGENT_ERROR_SCHEMA_V2,
    AGENT_RUNTIME_CAPABILITY_V2, LEGACY_AGENT_TASK_DRAIN_CAPABILITY,
    RUNNER_AGENT_ADVERTISEMENT_SCHEMA_V1,
};

fn model(executor: ExecutorKind, model_key: &str, provider_model_id: &str) -> AgentModelCapability {
    AgentModelCapability {
        provider: executor.provider(),
        model_key: model_key.to_string(),
        provider_model_id: provider_model_id.to_string(),
        availability: ModelAvailability::Available,
        is_default: false,
        supported_reasoning_efforts: vec![ReasoningEffort::Low, ReasoningEffort::High],
        unavailable_reason: None,
    }
}

fn features() -> AgentRuntimeFeatures {
    AgentRuntimeFeatures {
        structured_output: true,
        session_resume: true,
        cancellation: true,
        reasoning_effort: true,
    }
}

fn not_authenticated() -> AgentRuntimeErrorEnvelopeV2 {
    AgentRuntimeErrorEnvelopeV2 {
        schema_version: AGENT_ERROR_SCHEMA_V2.to_string(),
        code: AgentErrorCode::ProviderNotAuthenticated,
        category: AgentErrorCategory::Authentication,
        message: "The provider CLI is not signed in.".to_string(),
        retry: AgentRetryDisposition::UserActionRequired,
        retry_after_seconds: None,
        remediation: vec![AgentRemediationAction::Authenticate],
        context: AgentErrorContext {
            executor: Some(ExecutorKind::AgyCli),
            provider: Some(AgentProvider::Google),
            ..AgentErrorContext::default()
        },
    }
}

fn executor(kind: ExecutorKind, models: Vec<AgentModelCapability>) -> AgentExecutorCapability {
    AgentExecutorCapability {
        executor: kind,
        provider: kind.provider(),
        readiness: RuntimeReadiness::Ready,
        installation: InstallationState::Installed,
        authentication: AuthenticationState::Authenticated,
        executor_version: Some("1.2.3".to_string()),
        model_discovery: ModelDiscoveryKind::RuntimeProbe,
        models,
        features: features(),
        last_error: None,
    }
}

fn snapshot() -> AgentRuntimeCapabilitySnapshotV2 {
    let mut codex_default = model(ExecutorKind::CodexCli, "openai/gpt-5.2", "gpt-5.2");
    codex_default.is_default = true;
    let mut agy = executor(
        ExecutorKind::AgyCli,
        vec![model(ExecutorKind::AgyCli, "google/gemini-2.5-pro", "gemini-2.5-pro")],
    );
    agy.readiness = RuntimeReadiness::NotAuthenticated;
    agy.authentication = AuthenticationState::NotAuthenticated;
    agy.last_error = Some(not_authenticated());
    AgentRuntimeCapabilitySnapshotV2 {
        schema_version: AGENT_CAPABILITY_SCHEMA_V2.to_string(),
        runner_id: "runner_local_01".to_string(),
        observed_at: "2026-07-26T10:00:00Z".to_string(),
        ttl_seconds: 300,
        executors: vec![
            executor(
                ExecutorKind::CodexCli,
                vec![
                    codex_default,
                    model(ExecutorKind::CodexCli, "openai/gpt-5.2-codex", "gpt-5.2-codex"),
                ],
            ),
            executor(
                ExecutorKind::ClaudeCli,
                vec![model(ExecutorKind::ClaudeCli, "anthropic/sonnet-4-6", "sonnet-4-6")],
            ),
            agy,
        ],
    }
}

fn drain_enabled() -> RunnerAgentAdvertisementV1 {
    RunnerAgentAdvertisementV1 {
        agent_advertisement_schema_version: RUNNER_AGENT_ADVERTISEMENT_SCHEMA_V1.to_string(),
        agent_runtime_v2_enabled: true,
        legacy_agent_tasks: LegacyAgentTasksAdvertisementV1 {
            mode: LegacyAgentTaskMode::DrainOnly,
        },
        capabilities: vec![
            (AGENT_RUNTIME_CAPABILITY_V2.to_string(), true),
            (LEGACY_AGENT_TASK_DRAIN_CAPABILITY.to_string(), true),
            ("fs.read".to_string(), true),
        ],
        agent_runtimes: Some(snapshot()),
    }
}

fn disabled() -> RunnerAgentAdvertisementV1 {
    RunnerAgentAdvertisementV1 {
        agent_advertisement_schema_version: RUNNER_AGENT_ADVERTISEMENT_SCHEMA_V1.to_string(),
        agent_runtime_v2_enabled: false,
        legacy_agent_tasks: LegacyAgentTasksAdvertisementV1 {
            mode: LegacyAgentTaskMode::Disabled,
        },
        capabilities: vec![("fs.read".to_string(), true)],
        agent_runtimes: None,
    }
}

fn remove_capability(advertisement: &mut RunnerAgentAdvertisementV1, name: &str) {
    advertisement.capabilities.retain(|(key, _)| key != name);
}

fn insert_capability(advertisement: &mut RunnerAgentAdvertisementV1, name: &str, value: bool) {
    remove_capability(advertisement, name);
    advertisement.capabilities.push((name.to_string(), value));
}

#[test]
fn v2_capability_fixture_covers_all_three_executors() {
    let snapshot = snapshot();
    assert_eq!(snapshot.schema_version, AGENT_CAPABILITY_SCHEMA_V2);
    assert_eq!(snapshot.executors.len(), 3);
    assert!(snapshot
        .executors
        .iter()
        .any(|capability| capability.executor == ExecutorKind::AgyCli));
    snapshot.validate().unwrap();
}

#[test]
fn capability_snapshot_reports_each_invalid_part() {
    let mut wrong_schema = snapshot();
    wrong_schema.schema_version = "loomex.agent-capabilities.v999".to_string();
    assert_eq!(
        wrong_schema.validate(),
        Err(CapabilitySnapshotValidationError::WrongSchemaVersion)
    );

    let mut no_runner = snapshot();
    no_runner.runner_id = " ".to_string();
    assert_eq!(no_runner.validate(), Err(CapabilitySnapshotValidationError::EmptyRunnerId));

    let mut no_time = snapshot();
    no_time.observed_at = String::new();
    assert_eq!(no_time.validate(), Err(CapabilitySnapshotValidationError::EmptyObservedAt));

    let mut stale = snapshot();
    stale.ttl_seconds = 0;
    assert_eq!(stale.validate(), Err(CapabilitySnapshotValidationError::ZeroTtl));

    let mut duplicate = snapshot();
    let again = duplicate.executors[1].clone();
    duplicate.executors.push(again);
    assert_eq!(
        duplicate.validate(),
        Err(CapabilitySnapshotValidationError::DuplicateExecutor {
            executor: ExecutorKind::ClaudeCli
        })
    );

    let mut wrong_provider = snapshot();
    wrong_provider.executors[2].provider = AgentProvider::OpenAi;
    assert_eq!(
        wrong_provider.validate(),
        Err(CapabilitySnapshotValidationError::ExecutorProviderMismatch {
            executor: ExecutorKind::AgyCli
        })
    );

    let mut blank_model = snapshot();
    blank_model.executors[0].models[1].provider_model_id = "\n".to_string();
    assert_eq!(
        blank_model.validate(),
        Err(CapabilitySnapshotValidationError::EmptyModelIdentity {
            executor: ExecutorKind::CodexCli,
            index: 1
        })
    );

    let mut unsafe_model = snapshot();
    unsafe_model.executors[1].models[0].model_key = "anthropic/../x".to_string();
    assert_eq!(
        unsafe_model.validate(),
        Err(CapabilitySnapshotValidationError::UnsafeModelIdentity {
            executor: ExecutorKind::ClaudeCli,
            index: 0
        })
    );

    let mut foreign_model = snapshot();
    foreign_model.executors[0].models[0].provider = AgentProvider::Google;
    assert_eq!(
        foreign_model.validate(),
        Err(CapabilitySnapshotValidationError::ModelProviderMismatch {
            executor: ExecutorKind::CodexCli,
            index: 0
        })
    );

    let mut repeated_model = snapshot();
    let first = repeated_model.executors[0].models[0].clone();
    repeated_model.executors[0].models.push(first);
    assert_eq!(
        repeated_model.validate(),
        Err(CapabilitySnapshotValidationError::DuplicateModel {
            executor: ExecutorKind::CodexCli,
            index: 2
        })
    );

    let mut same_key_other_id = snapshot();
    let mut variant = same_key_other_id.executors[0].models[0].clone();
    variant.provider_model_id = "gpt-5.2-mini".to_string();
    same_key_other_id.executors[0].models.push(variant);
    same_key_other_id.validate().unwrap();

    let mut invalid_last_error = snapshot();
    invalid_last_error.executors[2].last_error.as_mut().unwrap().message = String::new();
    assert_eq!(
        invalid_last_error.validate(),
        Err(CapabilitySnapshotValidationError::InvalidLastError {
            executor: ExecutorKind::AgyCli
        })
    );
}

#[test]
fn legacy_and_v2_modes_form_a_valid_four_way_matrix() {
    let drain_v2 = drain_enabled();
    drain_v2.validate_for_runner_id("runner_local_01").unwrap();

    let mut disabled_v2 = drain_v2.clone();
    disabled_v2.legacy_agent_tasks.mode = LegacyAgentTaskMode::Disabled;
    remove_capability(&mut disabled_v2, LEGACY_AGENT_TASK_DRAIN_CAPABILITY);
    disabled_v2.validate().unwrap();

    let disabled_no_v2 = disabled();
    disabled_no_v2.validate().unwrap();

    let mut drain_no_v2 = disabled_no_v2.clone();
    drain_no_v2.legacy_agent_tasks.mode = LegacyAgentTaskMode::DrainOnly;
    insert_capability(&mut drain_no_v2, LEGACY_AGENT_TASK_DRAIN_CAPABILITY, true);
    drain_no_v2.validate().unwrap();
}

#[test]
fn legacy_drain_capability_is_present_if_and_only_if_drain_only() {
    let mut missing = drain_enabled();
    remove_capability(&mut missing, LEGACY_AGENT_TASK_DRAIN_CAPABILITY);
    assert_eq!(
        missing.validate(),
        Err(RunnerAgentAdvertisementValidationError::LegacyDrainCapabilityMismatch)
    );

    let mut disabled_but_present = disabled();
    insert_capability(&mut disabled_but_present, LEGACY_AGENT_TASK_DRAIN_CAPABILITY, false);
    assert_eq!(
        disabled_but_present.validate(),
        Err(RunnerAgentAdvertisementValidationError::LegacyDrainCapabilityMismatch)
    );

    let mut drain_false = drain_enabled();
    insert_capability(&mut drain_false, LEGACY_AGENT_TASK_DRAIN_CAPABILITY, false);
    assert_eq!(
        drain_false.validate(),
        Err(RunnerAgentAdvertisementValidationError::LegacyDrainCapabilityMismatch)
    );
}

#[test]
fn disabled_v2_omits_capability_and_snapshot_instead_of_advertising_false_or_null() {
    let mut capability_false = disabled();
    insert_capability(&mut capability_false, AGENT_RUNTIME_CAPABILITY_V2, false);
    assert_eq!(
        capability_false.validate(),
        Err(RunnerAgentAdvertisementValidationError::RuntimeV2CapabilityMismatch)
    );

    let mut snapshot_present = disabled();
    snapshot_present.agent_runtimes = drain_enabled().agent_runtimes;
    assert_eq!(
        snapshot_present.validate(),
        Err(RunnerAgentAdvertisementValidationError::RuntimeV2SnapshotMismatch)
    );
}

#[test]
fn enabled_v2_requires_true_capability_and_valid_snapshot() {
    let mut capability_missing = drain_enabled();
    remove_capability(&mut capability_missing, AGENT_RUNTIME_CAPABILITY_V2);
    assert_eq!(
        capability_missing.validate(),
        Err(RunnerAgentAdvertisementValidationError::RuntimeV2CapabilityMismatch)
    );

    let mut snapshot_missing = drain_enabled();
    snapshot_missing.agent_runtimes = None;
    assert_eq!(
        snapshot_missing.validate(),
        Err(RunnerAgentAdvertisementValidationError::RuntimeV2SnapshotMismatch)
    );

    let mut wrong_snapshot_schema = drain_enabled();
    wrong_snapshot_schema
        .agent_runtimes
        .as_mut()
        .unwrap()
        .schema_version = "loomex.agent-capabilities.v999".to_string();
    assert_eq!(
        wrong_snapshot_schema.validate(),
        Err(RunnerAgentAdvertisementValidationError::InvalidRuntimeV2Snapshot)
    );
}

#[test]
fn unknown_schema_mode_and_missing_legacy_field_fail_closed() {
    let mut unknown_schema = disabled();
    unknown_schema.agent_advertisement_schema_version =
        "loomex.runner-agent-advertisement/v999".to_string();
    assert_eq!(
        unknown_schema.validate(),
        Err(RunnerAgentAdvertisementValidationError::WrongSchemaVersion)
    );
}

#[test]
fn runtime_snapshot_must_come_from_the_advertising_runner() {
    let advertisement = drain_enabled();
    advertisement.validate_for_runner_id("runner_local_01").unwrap();
    assert_eq!(
        advertisement.validate_for_runner_id("runner_other"),
        Err(RunnerAgentAdvertisementValidationError::RuntimeV2RunnerMismatch)
    );
    disabled().validate_for_runner_id("any_runner").unwrap();
    assert_eq!(
        loomex_protocol::get_capability(&advertisement.capabilities, "fs.read"),
        Some(true)
    );
    assert_eq!(
        loomex_protocol::get_capability(&advertisement.capabilities, "fs.write"),
        None
    );
}
