//! Coordinator configuration, registry entries, and derived runtime state.
//!
//! The dispatch pause reason is always derived from its three inputs —
//! broker outage, safety latch, manual pause — and never set directly.

use vstd::prelude::*;

use crate::maps::StrMap;
use crate::protocol::{SafetyClass, SafetyState, SafetyStateKind};

verus! {

/// Why dispatch is refused at the moment, highest-priority cause first.
#[derive(Clone, Copy, Debug, PartialEq, Eq, Structural)]
pub enum PauseReason {
    BrokerDown,
    SafetyLatched,
    ManualPause,
}

pub open spec fn spec_pause_reason_str(r: PauseReason) -> Seq<char> {
    match r {
        PauseReason::BrokerDown => "BROKER_DOWN"@,
        PauseReason::SafetyLatched => "SAFETY_LATCHED"@,
        PauseReason::ManualPause => "MANUAL_PAUSE"@,
    }
}

pub fn pause_reason_str(r: PauseReason) -> (s: &'static str)
    ensures
        s@ == spec_pause_reason_str(r),
{
    match r {
        PauseReason::BrokerDown => "BROKER_DOWN",
        PauseReason::SafetyLatched => "SAFETY_LATCHED",
        PauseReason::ManualPause => "MANUAL_PAUSE",
    }
}

/// Per-device registry entry, loaded at startup; the store overrides the
/// environment seed.
#[derive(Clone, Debug)]
pub struct DeviceRegistryEntry {
    pub safety_class: SafetyClass,
    pub enabled: bool,
}

pub open spec fn spec_safety_class_rank(s: SafetyClass) -> int {
    match s {
        SafetyClass::NonCritical => 0,
        SafetyClass::Critical => 1,
    }
}

pub fn safety_class_rank(s: SafetyClass) -> (r: u8)
    ensures
        r as int == spec_safety_class_rank(s),
{
    match s {
        SafetyClass::NonCritical => 0,
        SafetyClass::Critical => 1,
    }
}

/// The stricter of the requested and the registry safety class.
pub open spec fn spec_effective_safety_class(requested: SafetyClass, registry: SafetyClass) -> SafetyClass {
    if spec_safety_class_rank(registry) > spec_safety_class_rank(requested) {
        registry
    } else {
        requested
    }
}

pub fn effective_safety_class(requested: SafetyClass, registry: SafetyClass) -> (r: SafetyClass)
    ensures
        r == spec_effective_safety_class(requested, registry),
{
    if safety_class_rank(registry) > safety_class_rank(requested) {
        registry
    } else {
        requested
    }
}

/// Startup configuration the coordinator logic reads. Broker and store
/// addresses stay with the caller.
pub struct CoreConfig {
    pub room_id: String,
    pub dry_run: bool,
    pub tick_ms: u64,
    pub device_offline_ms: u64,
    pub device_hmac_keys: StrMap<Vec<u8>>,
    pub dispatch_enabled: bool,
    pub critical_dispatch_armed: bool,
    pub dispatch_default_retries: u32,
    pub dispatch_ack_timeout_ms: u64,
    pub dispatch_complete_timeout_ms: u64,
    pub graph_autostart: bool,
    pub event_store_enabled: bool,
    pub core_control_token: Option<String>,
}

#[derive(Clone, Copy, Debug, PartialEq, Eq, Structural)]
pub enum ConfigError {
    TickMsZero,
}

impl CoreConfig {
    pub open spec fn wf(self) -> bool {
        self.device_hmac_keys.wf()
    }

    /// A tick interval of zero is refused at startup.
    pub fn validate(&self) -> (r: Result<(), ConfigError>)
        ensures
            r is Ok <==> self.tick_ms >= 1,
            r is Err ==> r == Result::<(), ConfigError>::Err(ConfigError::TickMsZero),
    {
        if self.tick_ms == 0 {
            Err(ConfigError::TickMsZero)
        } else {
            Ok(())
        }
    }
}

/// Mutable coordinator runtime: pause inputs, the derived pause reason,
/// the device registry, and the room safety rollup.
pub struct RuntimeState {
    pub dispatch_paused_reason: Option<PauseReason>,
    pub broker_outage_since_unix_ms: Option<u64>,
    pub device_registry: StrMap<DeviceRegistryEntry>,
    pub room_safety: SafetyState,
    pub manual_pause: bool,
    pub safety_latched_since_unix_ms: Option<u64>,
}

/// The pause reason the three inputs derive, highest priority first:
/// broker outage, then safety latch, then manual pause.
pub open spec fn spec_pause_reason(
    broker_outage_since: Option<u64>,
    safety_latched_since: Option<u64>,
    manual_pause: bool,
) -> Option<PauseReason> {
    if broker_outage_since is Some {
        Some(PauseReason::BrokerDown)
    } else if safety_latched_since is Some {
        Some(PauseReason::SafetyLatched)
    } else if manual_pause {
        Some(PauseReason::ManualPause)
    } else {
        None
    }
}

impl RuntimeState {
    /// The stored pause reason agrees with its inputs and the registry is
    /// a well-formed map.
    pub open spec fn wf(self) -> bool {
        &&& self.device_registry.wf()
        &&& self.dispatch_paused_reason == spec_pause_reason(
            self.broker_outage_since_unix_ms,
            self.safety_latched_since_unix_ms,
            self.manual_pause,
        )
    }

    pub open spec fn spec_is_paused(self) -> bool {
        self.dispatch_paused_reason is Some
    }

    pub fn dispatch_is_paused(&self) -> (r: bool)
        ensures
            r == self.spec_is_paused(),
    {
        self.dispatch_paused_reason.is_some()
    }

    /// Re-derive the pause reason from its inputs; nothing else changes.
    pub fn recompute_dispatch_pause_reason(&mut self)
        ensures
            *final(self) == (RuntimeState {
                dispatch_paused_reason: spec_pause_reason(
                    old(self).broker_outage_since_unix_ms,
                    old(self).safety_latched_since_unix_ms,
                    old(self).manual_pause,
                ),
                ..*old(self)
            }),
    {
        self.dispatch_paused_reason = if self.broker_outage_since_unix_ms.is_some() {
            Some(PauseReason::BrokerDown)
        } else if self.safety_latched_since_unix_ms.is_some() {
            Some(PauseReason::SafetyLatched)
        } else if self.manual_pause {
            Some(PauseReason::ManualPause)
        } else {
            None
        };
    }

    /// Initial runtime: nothing paused, empty registry, room SAFE.
    pub fn new() -> (r: Self)
        ensures
            r.wf(),
            r.dispatch_paused_reason is None,
            r.broker_outage_since_unix_ms is None,
            r.safety_latched_since_unix_ms is None,
            !r.manual_pause,
            r.room_safety == crate::protocol::spec_default_safety_state_safe(),
            r.device_registry.spec_len() == 0,
    {
        RuntimeState {
            dispatch_paused_reason: None,
            broker_outage_since_unix_ms: None,
            device_registry: StrMap::new(),
            room_safety: crate::protocol::default_safety_state_safe(),
            manual_pause: false,
            safety_latched_since_unix_ms: None,
        }
    }
}

impl Default for RuntimeState {
    fn default() -> (r: Self)
        ensures
            r.wf(),
            r.dispatch_paused_reason is None,
            r.broker_outage_since_unix_ms is None,
            r.safety_latched_since_unix_ms is None,
            !r.manual_pause,
    {
        RuntimeState::new()
    }
}

} // verus!
