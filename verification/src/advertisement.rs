//! Fail-closed runner manifest projection for agent-runtime cutover.

use vstd::prelude::*;

use crate::capability::{AgentRuntimeCapabilitySnapshotV2, AGENT_RUNTIME_CAPABILITY_V2};
use crate::text::str_eq;

verus! {

pub const RUNNER_AGENT_ADVERTISEMENT_SCHEMA_V1: &'static str =
    "loomex.runner-agent-advertisement/v1";

pub const LEGACY_AGENT_TASK_DRAIN_CAPABILITY: &'static str = "agent.task.v1.drain";

#[derive(Debug, Clone, Copy, PartialEq, Eq, Structural)]
pub enum LegacyAgentTaskMode {
    DrainOnly,
    Disabled,
}

#[derive(Debug, Clone, Copy, PartialEq, Eq, Structural)]
pub struct LegacyAgentTasksAdvertisementV1 {
    pub mode: LegacyAgentTaskMode,
}

/// Agent-related fields projected from the runner manifest. Other manifest
/// fields are ignored when the manifest is read.
#[derive(Debug, Clone)]
pub struct RunnerAgentAdvertisementV1 {
    pub agent_advertisement_schema_version: String,
    pub agent_runtime_v2_enabled: bool,
    pub legacy_agent_tasks: LegacyAgentTasksAdvertisementV1,
    /// Advertised capability flags by name, each name listed once (see
    /// `capabilities_named_once`).
    pub capabilities: Vec<(String, bool)>,
    pub agent_runtimes: Option<AgentRuntimeCapabilitySnapshotV2>,
}

#[derive(Debug, Clone, Copy, PartialEq, Eq, Structural)]
pub enum RunnerAgentAdvertisementValidationError {
    WrongSchemaVersion,
    LegacyDrainCapabilityMismatch,
    RuntimeV2CapabilityMismatch,
    RuntimeV2SnapshotMismatch,
    InvalidRuntimeV2Snapshot,
    RuntimeV2RunnerMismatch,
}

/// The flag advertised under `name`, if any (the first entry with that
/// name).
pub open spec fn capability_value(capabilities: Seq<(String, bool)>, name: Seq<char>) -> Option<bool>
    decreases capabilities.len(),
{
    if capabilities.len() == 0 {
        None
    } else if capabilities[0].0@ == name {
        Some(capabilities[0].1)
    } else {
        capability_value(capabilities.drop_first(), name)
    }
}

/// Each capability name is listed at most once.
pub open spec fn capability_names_distinct(capabilities: Seq<(String, bool)>) -> bool {
    forall|i: int, j: int|
        #![trigger capabilities[i], capabilities[j]]
        0 <= i < j < capabilities.len() ==> capabilities[i].0@ != capabilities[j].0@
}

/// With each name listed once, the flag found under a name is the one of
/// the entry with that name, wherever it stands, as in a map.
pub proof fn lemma_capability_lookup(capabilities: Seq<(String, bool)>, i: int)
    requires
        capability_names_distinct(capabilities),
        0 <= i < capabilities.len(),
    ensures
        capability_value(capabilities, capabilities[i].0@) == Some(capabilities[i].1),
    decreases i,
{
    if i > 0 {
        let rest = capabilities.drop_first();
        assert(capabilities[0].0@ != capabilities[i].0@);
        assert(rest[i - 1] == capabilities[i]);
        assert(capability_names_distinct(rest)) by {
            assert forall|a: int, b: int|
                #![trigger rest[a], rest[b]]
                0 <= a < b < rest.len() implies rest[a].0@ != rest[b].0@ by {
                assert(rest[a] == capabilities[a + 1]);
                assert(rest[b] == capabilities[b + 1]);
            }
        }
        lemma_capability_lookup(rest, i - 1);
    }
}

/// No flag is found under a name that no entry has, and one is found under
/// every name that an entry has.
pub proof fn lemma_capability_absent(capabilities: Seq<(String, bool)>, name: Seq<char>)
    ensures
        capability_value(capabilities, name) is None <==> forall|i: int|
            0 <= i < capabilities.len() ==> (#[trigger] capabilities[i]).0@ != name,
    decreases capabilities.len(),
{
    if capabilities.len() > 0 {
        let rest = capabilities.drop_first();
        lemma_capability_absent(rest, name);
        if capability_value(capabilities, name) is None {
            assert forall|i: int| 0 <= i < capabilities.len() implies (#[trigger] capabilities[i]).0@
                != name by {
                if i > 0 {
                    assert(rest[i - 1] == capabilities[i]);
                }
            }
        } else {
            if capabilities[0].0@ != name {
                let k = choose|k: int| 0 <= k < rest.len() && (#[trigger] rest[k]).0@ == name;
                assert(capabilities[k + 1] == rest[k]);
            }
        }
    }
}

/// The flag advertised under `name`.
pub fn get_capability(capabilities: &Vec<(String, bool)>, name: &str) -> (res: Option<bool>)
    ensures
        res == capability_value(capabilities@, name@),
{
    let mut i: usize = 0;
    assert(capabilities@.skip(0) =~= capabilities@);
    while i < capabilities.len()
        invariant
            i <= capabilities@.len(),
            capability_value(capabilities@, name@) == capability_value(
                capabilities@.skip(i as int),
                name@,
            ),
        decreases capabilities@.len() - i,
    {
        assert(capabilities@.skip(i as int).drop_first() =~= capabilities@.skip(i + 1));
        if str_eq(capabilities[i].0.as_str(), name) {
            return Some(capabilities[i].1);
        }
        i = i + 1;
    }
    None
}

impl RunnerAgentAdvertisementV1 {
    /// The capability list stands for a map: each name is listed once.
    pub open spec fn capabilities_named_once(&self) -> bool {
        capability_names_distinct(self.capabilities@)
    }

    /// The legacy drain flag is advertised, and true, exactly in drain-only
    /// mode.
    pub open spec fn drain_capability_valid(&self) -> bool {
        let drain = capability_value(self.capabilities@, LEGACY_AGENT_TASK_DRAIN_CAPABILITY@);
        match self.legacy_agent_tasks.mode {
            LegacyAgentTaskMode::DrainOnly => drain == Some(true),
            LegacyAgentTaskMode::Disabled => drain is None,
        }
    }

    /// The v2 runtime flag is advertised, and true, exactly when the v2
    /// runtime is enabled.
    pub open spec fn runtime_capability_valid(&self) -> bool {
        let runtime = capability_value(self.capabilities@, AGENT_RUNTIME_CAPABILITY_V2@);
        if self.agent_runtime_v2_enabled {
            runtime == Some(true)
        } else {
            runtime is None
        }
    }

    pub open spec fn validation(&self) -> Result<(), RunnerAgentAdvertisementValidationError> {
        if self.agent_advertisement_schema_version@ != RUNNER_AGENT_ADVERTISEMENT_SCHEMA_V1@ {
            Err(RunnerAgentAdvertisementValidationError::WrongSchemaVersion)
        } else if !self.drain_capability_valid() {
            Err(RunnerAgentAdvertisementValidationError::LegacyDrainCapabilityMismatch)
        } else if !self.runtime_capability_valid() {
            Err(RunnerAgentAdvertisementValidationError::RuntimeV2CapabilityMismatch)
        } else {
            match (self.agent_runtime_v2_enabled, self.agent_runtimes) {
                (false, None) => Ok(()),
                (true, Some(snapshot)) => if snapshot.validation() is Err {
                    Err(RunnerAgentAdvertisementValidationError::InvalidRuntimeV2Snapshot)
                } else {
                    Ok(())
                },
                _ => Err(RunnerAgentAdvertisementValidationError::RuntimeV2SnapshotMismatch),
            }
        }
    }

    pub fn validate(&self) -> (res: Result<(), RunnerAgentAdvertisementValidationError>)
        ensures
            res == self.validation(),
    {
        if !str_eq(
            self.agent_advertisement_schema_version.as_str(),
            RUNNER_AGENT_ADVERTISEMENT_SCHEMA_V1,
        ) {
            return Err(RunnerAgentAdvertisementValidationError::WrongSchemaVersion);
        }
        let drain = get_capability(&self.capabilities, LEGACY_AGENT_TASK_DRAIN_CAPABILITY);
        let drain_capability_is_valid = match self.legacy_agent_tasks.mode {
            LegacyAgentTaskMode::DrainOnly => drain == Some(true),
            LegacyAgentTaskMode::Disabled => drain.is_none(),
        };
        if !drain_capability_is_valid {
            return Err(RunnerAgentAdvertisementValidationError::LegacyDrainCapabilityMismatch);
        }
        let runtime = get_capability(&self.capabilities, AGENT_RUNTIME_CAPABILITY_V2);
        let runtime_capability_is_valid = if self.agent_runtime_v2_enabled {
            runtime == Some(true)
        } else {
            runtime.is_none()
        };
        if !runtime_capability_is_valid {
            return Err(RunnerAgentAdvertisementValidationError::RuntimeV2CapabilityMismatch);
        }
        match (self.agent_runtime_v2_enabled, &self.agent_runtimes) {
            (false, None) => Ok(()),
            (true, Some(snapshot)) => {
                if snapshot.validate().is_err() {
                    Err(RunnerAgentAdvertisementValidationError::InvalidRuntimeV2Snapshot)
                } else {
                    Ok(())
                }
            },
            _ => Err(RunnerAgentAdvertisementValidationError::RuntimeV2SnapshotMismatch),
        }
    }

    pub open spec fn runner_validation(&self, runner_id: Seq<char>) -> Result<
        (),
        RunnerAgentAdvertisementValidationError,
    > {
        match self.validation() {
            Err(e) => Err(e),
            Ok(_) => if self.agent_runtimes matches Some(snapshot) && snapshot.runner_id@
                != runner_id {
                Err(RunnerAgentAdvertisementValidationError::RuntimeV2RunnerMismatch)
            } else {
                Ok(())
            },
        }
    }

    /// Validates the advertisement and that its runtime snapshot, if any,
    /// was taken by `runner_id`.
    pub fn validate_for_runner_id(&self, runner_id: &str) -> (res: Result<
        (),
        RunnerAgentAdvertisementValidationError,
    >)
        ensures
            res == self.runner_validation(runner_id@),
    {
        self.validate()?;
        if let Some(snapshot) = &self.agent_runtimes {
            if !str_eq(snapshot.runner_id.as_str(), runner_id) {
                return Err(RunnerAgentAdvertisementValidationError::RuntimeV2RunnerMismatch);
            }
        }
        Ok(())
    }
}

/// A valid advertisement carries a runtime snapshot exactly when it enables
/// the v2 runtime and advertises its flag as true, and that snapshot is
/// itself valid; the legacy drain flag is present, and true, exactly in
/// drain-only mode.
pub proof fn lemma_valid_advertisement_is_consistent(advertisement: RunnerAgentAdvertisementV1)
    requires
        advertisement.validation() is Ok,
    ensures
        advertisement.agent_runtime_v2_enabled <==> advertisement.agent_runtimes is Some,
        advertisement.agent_runtime_v2_enabled <==> capability_value(
            advertisement.capabilities@,
            AGENT_RUNTIME_CAPABILITY_V2@,
        ) == Some(true),
        !advertisement.agent_runtime_v2_enabled ==> capability_value(
            advertisement.capabilities@,
            AGENT_RUNTIME_CAPABILITY_V2@,
        ) is None,
        advertisement.agent_runtimes matches Some(snapshot) ==> snapshot.validation() is Ok,
        (advertisement.legacy_agent_tasks.mode == LegacyAgentTaskMode::DrainOnly) <==> capability_value(
            advertisement.capabilities@,
            LEGACY_AGENT_TASK_DRAIN_CAPABILITY@,
        ) == Some(true),
{
}

/// An advertisement accepted for a runner is valid and carries, if any,
/// only a runtime snapshot taken by that runner, whatever its legacy mode;
/// a valid one is accepted for exactly the runner of its snapshot, and for
/// any runner when it carries none.
pub proof fn lemma_advertisement_accepted_only_for_its_runner(
    advertisement: RunnerAgentAdvertisementV1,
    runner_id: Seq<char>,
)
    ensures
        advertisement.runner_validation(runner_id) is Ok ==> {
            &&& advertisement.validation() is Ok
            &&& advertisement.agent_runtimes matches Some(snapshot) ==> snapshot.runner_id@
                == runner_id
        },
        advertisement.validation() is Ok ==> (advertisement.runner_validation(runner_id) is Ok
            <==> match advertisement.agent_runtimes {
            Some(snapshot) => snapshot.runner_id@ == runner_id,
            None => true,
        }),
{
}

} // verus!
