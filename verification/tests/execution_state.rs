use loomex_protocol::{AgentAttemptState, AgentExecutionState, MAX_AGENT_PROCESS_ATTEMPTS_PER_EXECUTION};

#[test]
fn execution_terminal_state_is_explicit() {
    assert!(AgentExecutionState::Completed.is_terminal());
    assert!(AgentExecutionState::Indeterminate.is_terminal());
    assert!(!AgentExecutionState::Blocked.is_terminal());
    assert!(!AgentExecutionState::Running.is_terminal());
    assert!(AgentAttemptState::Blocked.is_terminal());
    assert_eq!(MAX_AGENT_PROCESS_ATTEMPTS_PER_EXECUTION, 8);
}

#[test]
fn attempt_terminal_states_include_prestart_outcomes() {
    for state in [
        AgentAttemptState::DispatchRejected,
        AgentAttemptState::DispatchCancelled,
        AgentAttemptState::Completed,
        AgentAttemptState::Failed,
        AgentAttemptState::Cancelled,
        AgentAttemptState::Indeterminate,
    ] {
        assert!(state.is_terminal());
    }
    for state in [
        AgentAttemptState::Queued,
        AgentAttemptState::Probing,
        AgentAttemptState::Starting,
        AgentAttemptState::Running,
        AgentAttemptState::RepairingOutput,
    ] {
        assert!(!state.is_terminal());
    }
    for state in [
        AgentExecutionState::Queued,
        AgentExecutionState::Probing,
        AgentExecutionState::Running,
    ] {
        assert!(!state.is_terminal());
    }
    assert!(AgentExecutionState::Failed.is_terminal());
    assert!(AgentExecutionState::Cancelled.is_terminal());
}
