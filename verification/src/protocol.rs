//! Wire-protocol data model: safety states, command envelopes, acks,
//! telemetry snapshots, and the control-plane request and fault documents.

use vstd::prelude::*;

use crate::json::JsonValue;

verus! {

pub const SCHEMA_VERSION: &'static str = "v8";

pub const AUTH_ALG_HMAC_SHA256: &'static str = "HMAC-SHA256";

pub const CORE_CONTROL_OP_PAUSE_DISPATCH: &'static str = "PAUSE_DISPATCH";

pub const CORE_CONTROL_OP_RESUME_DISPATCH: &'static str = "RESUME_DISPATCH";

pub const CORE_CONTROL_OP_RESET_SAFETY_LATCH: &'static str = "RESET_SAFETY_LATCH";

pub const CORE_CONTROL_OP_START_GRAPH: &'static str = "START_GRAPH";

pub const CORE_CONTROL_OP_STOP_GRAPH: &'static str = "STOP_GRAPH";

pub const CORE_CONTROL_OP_RELOAD_GRAPH: &'static str = "RELOAD_GRAPH";

/// Dispatch-time sensitivity label; CRITICAL requires arming and a SAFE device.
#[derive(Clone, Copy, Debug, PartialEq, Eq, Structural)]
pub enum SafetyClass {
    Critical,
    NonCritical,
}

/// Reported device safety condition, ordered by severity
/// (E_STOP > FAULT > BLOCKED > MAINTENANCE > SAFE).
#[derive(Clone, Copy, Debug, PartialEq, Eq, Structural)]
pub enum SafetyStateKind {
    Safe,
    Blocked,
    Fault,
    EStop,
    Maintenance,
}

#[derive(Clone, Debug)]
pub struct SafetyState {
    pub kind: SafetyStateKind,
    pub reason_code: Option<String>,
    pub latched: bool,
}

#[derive(Clone, Copy, Debug, PartialEq, Eq, Structural)]
pub enum CommandAction {
    Open,
    Close,
    Move,
    SetValue,
}

/// Authentication block carried by a signed command envelope.
#[derive(Clone, Debug)]
pub struct CommandAuth {
    pub alg: String,
    pub kid: Option<String>,
    /// Hex-encoded MAC over the canonical signing string.
    pub mac_hex: String,
}

/// A single physical action attempt. Command ids are fresh per attempt;
/// correlation ids are stable across control-plane retries.
#[derive(Clone, Debug)]
pub struct CommandEnvelope {
    pub schema: String,
    pub room_id: String,
    pub device_id: String,
    pub command_id: u128,
    pub correlation_id: u128,
    pub sequence: u64,
    pub issued_at_unix_ms: u64,
    pub action: CommandAction,
    pub parameters: JsonValue,
    pub safety_class: SafetyClass,
    pub auth: Option<CommandAuth>,
}

#[derive(Clone, Copy, Debug, PartialEq, Eq, Structural)]
pub enum AckStatus {
    Accepted,
    Rejected,
    Completed,
}

#[derive(Clone, Debug)]
pub struct CommandAck {
    pub schema: String,
    pub room_id: String,
    pub device_id: String,
    pub command_id: u128,
    pub correlation_id: u128,
    pub status: AckStatus,
    pub reason_code: Option<String>,
    pub safety_state: SafetyState,
    pub observed_at_unix_ms: u64,
}

#[derive(Clone, Debug)]
pub struct Heartbeat {
    pub schema: String,
    pub room_id: String,
    pub device_id: String,
    pub uptime_ms: u64,
    pub firmware_version: String,
    pub safety_state: SafetyState,
    pub last_error: Option<String>,
    pub observed_at_unix_ms: u64,
}

#[derive(Clone, Copy, Debug, PartialEq, Eq, Structural)]
pub enum PresenceStatus {
    Online,
    Offline,
}

#[derive(Clone, Debug)]
pub struct Presence {
    pub schema: String,
    pub room_id: String,
    pub device_id: String,
    pub status: PresenceStatus,
    pub observed_at_unix_ms: u64,
}

/// Retained last-known device state snapshot; `state` is device-specific.
#[derive(Clone, Debug)]
pub struct DeviceState {
    pub schema: String,
    pub room_id: String,
    pub device_id: String,
    pub safety_state: SafetyState,
    pub state: JsonValue,
    pub observed_at_unix_ms: u64,
}

/// Control-plane request asking the coordinator to dispatch a device command.
#[derive(Clone, Debug)]
pub struct CoreDispatchRequest {
    pub schema: String,
    pub room_id: String,
    pub device_id: String,
    pub action: CommandAction,
    pub parameters: JsonValue,
    pub safety_class: SafetyClass,
    pub correlation_id: Option<u128>,
    pub retries: Option<u32>,
    pub ack_timeout_ms: Option<u64>,
    pub complete_timeout_ms: Option<u64>,
}

/// Control-plane request for runtime gates (pause/resume, safety reset, graph ops).
#[derive(Clone, Debug)]
pub struct CoreControlRequest {
    pub schema: String,
    pub room_id: String,
    pub op: String,
    pub parameters: JsonValue,
    pub requested_at_unix_ms: u64,
}

/// Machine-readable fault/incident document.
#[derive(Clone, Debug)]
pub struct CoreFault {
    pub schema: String,
    pub room_id: String,
    pub kind: String,
    pub severity: String,
    pub message: String,
    pub observed_at_unix_ms: u64,
    pub details: JsonValue,
}

/// Periodic retained status snapshot of the coordinator.
#[derive(Clone, Debug)]
pub struct CoreStatus {
    pub schema: String,
    pub room_id: String,
    pub uptime_ms: u64,
    pub tick_ms: u64,
    pub dry_run: bool,
    pub dispatch_enabled: bool,
    pub dispatch_paused_reason: Option<String>,
    pub broker_outage_since_unix_ms: Option<u64>,
    pub safety_latched_since_unix_ms: Option<u64>,
    pub room_safety: SafetyState,
    pub device_count: u64,
    pub offline_device_count: u64,
    pub graph_active_node: Option<String>,
    pub graph_active_nodes: Vec<String>,
    pub graph_version: Option<i64>,
    pub observed_at_unix_ms: u64,
}

#[derive(Clone, Copy, Debug, PartialEq, Eq, Structural)]
pub enum OscAckStatus {
    Sent,
    Failed,
}

pub open spec fn spec_command_action_str(a: CommandAction) -> Seq<char> {
    match a {
        CommandAction::Open => "OPEN"@,
        CommandAction::Close => "CLOSE"@,
        CommandAction::Move => "MOVE"@,
        CommandAction::SetValue => "SET"@,
    }
}

pub fn command_action_str(a: CommandAction) -> (s: &'static str)
    ensures
        s@ == spec_command_action_str(a),
{
    match a {
        CommandAction::Open => "OPEN",
        CommandAction::Close => "CLOSE",
        CommandAction::Move => "MOVE",
        CommandAction::SetValue => "SET",
    }
}

pub open spec fn spec_safety_class_str(s: SafetyClass) -> Seq<char> {
    match s {
        SafetyClass::Critical => "CRITICAL"@,
        SafetyClass::NonCritical => "NON_CRITICAL"@,
    }
}

pub fn safety_class_str(s: SafetyClass) -> (r: &'static str)
    ensures
        r@ == spec_safety_class_str(s),
{
    match s {
        SafetyClass::Critical => "CRITICAL",
        SafetyClass::NonCritical => "NON_CRITICAL",
    }
}

pub open spec fn spec_safety_kind_str(k: SafetyStateKind) -> Seq<char> {
    match k {
        SafetyStateKind::Safe => "SAFE"@,
        SafetyStateKind::Blocked => "BLOCKED"@,
        SafetyStateKind::Fault => "FAULT"@,
        SafetyStateKind::EStop => "E_STOP"@,
        SafetyStateKind::Maintenance => "MAINTENANCE"@,
    }
}

pub fn safety_kind_str(k: SafetyStateKind) -> (r: &'static str)
    ensures
        r@ == spec_safety_kind_str(k),
{
    match k {
        SafetyStateKind::Safe => "SAFE",
        SafetyStateKind::Blocked => "BLOCKED",
        SafetyStateKind::Fault => "FAULT",
        SafetyStateKind::EStop => "E_STOP",
        SafetyStateKind::Maintenance => "MAINTENANCE",
    }
}

/// Severity rank of a reported safety kind; larger is worse.
pub open spec fn spec_severity_rank(k: SafetyStateKind) -> int {
    match k {
        SafetyStateKind::Safe => 0,
        SafetyStateKind::Maintenance => 1,
        SafetyStateKind::Blocked => 2,
        SafetyStateKind::Fault => 3,
        SafetyStateKind::EStop => 4,
    }
}

pub fn severity_rank(k: SafetyStateKind) -> (r: u8)
    ensures
        r as int == spec_severity_rank(k),
{
    match k {
        SafetyStateKind::Safe => 0,
        SafetyStateKind::Maintenance => 1,
        SafetyStateKind::Blocked => 2,
        SafetyStateKind::Fault => 3,
        SafetyStateKind::EStop => 4,
    }
}

pub open spec fn spec_default_safety_state_safe() -> SafetyState {
    SafetyState { kind: SafetyStateKind::Safe, reason_code: None, latched: false }
}

pub fn default_safety_state_safe() -> (r: SafetyState)
    ensures
        r == spec_default_safety_state_safe(),
{
    SafetyState { kind: SafetyStateKind::Safe, reason_code: None, latched: false }
}

/// Field-for-field copy of a safety state.
pub fn clone_safety_state(s: &SafetyState) -> (r: SafetyState)
    ensures
        r == *s,
{
    SafetyState {
        kind: s.kind,
        reason_code: match &s.reason_code {
            Some(x) => Some(x.clone()),
            None => None,
        },
        latched: s.latched,
    }
}

pub fn default_safety_class_non_critical() -> (r: SafetyClass)
    ensures
        r == SafetyClass::NonCritical,
{
    SafetyClass::NonCritical
}

} // verus!
