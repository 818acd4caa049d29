//! Safety profile of a simulated device controller: the state it boots
//! with and the state a timed trigger escalates to.

use vstd::prelude::*;

use crate::protocol::{SafetyState, SafetyStateKind};

verus! {

/// Configured simulated safety behaviour: the kind and latch flag to
/// report, and an optional delay after which they take effect.
pub struct SimSafetyConfig {
    pub kind: SafetyStateKind,
    pub latched: bool,
    pub reason_code: Option<String>,
    pub trigger_fault_after_ms: Option<u64>,
}

impl SimSafetyConfig {
    /// The state reported at boot: SAFE while a timed trigger is armed,
    /// else the configured state at once.
    pub fn initial_state(&self) -> (r: SafetyState)
        ensures
            self.trigger_fault_after_ms is Some ==> r
                == crate::protocol::spec_default_safety_state_safe(),
            self.trigger_fault_after_ms is None ==> r.kind == self.kind && r.latched
                == self.latched && r.reason_code == self.reason_code,
    {
        if self.trigger_fault_after_ms.is_some() {
            return SafetyState { kind: SafetyStateKind::Safe, reason_code: None, latched: false };
        }
        SafetyState {
            kind: self.kind,
            reason_code: match &self.reason_code {
                Some(rc) => Some(rc.clone()),
                None => None,
            },
            latched: self.latched,
        }
    }

    /// The state reported once the timed trigger fires.
    pub fn triggered_state(&self) -> (r: SafetyState)
        ensures
            r.kind == self.kind,
            r.latched == self.latched,
            r.reason_code == self.reason_code,
    {
        SafetyState {
            kind: self.kind,
            reason_code: match &self.reason_code {
                Some(rc) => Some(rc.clone()),
                None => None,
            },
            latched: self.latched,
        }
    }
}

} // verus!
