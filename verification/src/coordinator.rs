//! The coordinator state machine.
//!
//! Every method is a pure transition over the coordinator state, the
//! incoming message, and the caller-supplied clock; each returns the
//! publishes it asks for. The caller runs the event loop, performs the
//! I/O, and mirrors fault actions to the event store.

use vstd::prelude::*;

use crate::actions::{core_fault, device_details, is_core_fault, is_device_fault, Action};
use crate::dispatch::{DispatchTracker, PendingCommand, RECENT_TTL_MS};
use crate::graph::GraphRunner;
use crate::json::{json_clone, jv, JsonValue};
use crate::maps::{IdMap, StrMap};
use crate::protocol::{
    CommandAction, CommandEnvelope, CoreDispatchRequest, SafetyClass, SafetyStateKind,
    SCHEMA_VERSION,
};
use crate::signing::{sign_command_hmac_sha256, spec_mac_valid, spec_signing_string};
use crate::state::{spec_effective_safety_class, CoreConfig, RuntimeState};
use crate::tracker::{spec_elapsed, spec_should_be_offline, DeviceStatus};

verus! {

/// Relies on uuid's `Uuid::new_v4`: a freshly generated random 128-bit
/// id. Nothing is promised of the value.
#[verifier::external_body]
pub fn fresh_uuid_u128() -> u128 {
    uuid::Uuid::new_v4().as_u128()
}

/// Relies on `std::time::SystemTime::now`: milliseconds since the Unix
/// epoch, zero when the clock reads before it. Nothing is promised of
/// the value.
#[verifier::external_body]
pub fn unix_ms_now() -> u64 {
    std::time::SystemTime::now().duration_since(std::time::UNIX_EPOCH).unwrap_or(
        std::time::Duration::ZERO,
    ).as_millis() as u64
}

/// Two envelopes that agree on every field, with parameters compared as
/// JSON trees.
pub open spec fn spec_envelope_like(a: CommandEnvelope, b: CommandEnvelope) -> bool {
    &&& a.schema == b.schema
    &&& a.room_id == b.room_id
    &&& a.device_id == b.device_id
    &&& a.command_id == b.command_id
    &&& a.correlation_id == b.correlation_id
    &&& a.sequence == b.sequence
    &&& a.issued_at_unix_ms == b.issued_at_unix_ms
    &&& a.action == b.action
    &&& jv(a.parameters) == jv(b.parameters)
    &&& a.safety_class == b.safety_class
    &&& a.auth == b.auth
}

/// Like envelopes carry the same signing string, so a MAC valid for one
/// is valid for the other.
pub proof fn lemma_envelope_like_mac(a: CommandEnvelope, b: CommandEnvelope, key: Seq<u8>)
    requires
        spec_envelope_like(a, b),
    ensures
        spec_signing_string(a) == spec_signing_string(b),
        spec_mac_valid(a, key) == spec_mac_valid(b, key),
{
}

/// Field-for-field copy of an envelope.
pub fn clone_envelope(e: &CommandEnvelope) -> (r: CommandEnvelope)
    ensures
        spec_envelope_like(r, *e),
{
    CommandEnvelope {
        schema: e.schema.clone(),
        room_id: e.room_id.clone(),
        device_id: e.device_id.clone(),
        command_id: e.command_id,
        correlation_id: e.correlation_id,
        sequence: e.sequence,
        issued_at_unix_ms: e.issued_at_unix_ms,
        action: e.action,
        parameters: json_clone(&e.parameters),
        safety_class: e.safety_class,
        auth: match &e.auth {
            Some(a) => Some(
                crate::protocol::CommandAuth {
                    alg: a.alg.clone(),
                    kid: match &a.kid {
                        Some(k) => Some(k.clone()),
                        None => None,
                    },
                    mac_hex: a.mac_hex.clone(),
                },
            ),
            None => None,
        },
    }
}

/// The per-device sequence after one more dispatch: one higher, wrapping
/// to zero past the maximum.
pub open spec fn spec_next_seq(prev: Option<u64>) -> u64 {
    let p = match prev {
        Some(v) => v,
        None => 0u64,
    };
    if p == u64::MAX {
        0u64
    } else {
        (p + 1) as u64
    }
}

/// Why a dispatch request was refused at admission.
#[derive(Clone, Copy, Debug, PartialEq, Eq, Structural)]
pub enum DispatchRefusal {
    Paused,
    Disabled,
    DryRun,
    DeviceDisabled,
    CriticalNotArmed,
    DeviceNotSafe,
    DeviceOffline,
    MissingKey,
}

pub open spec fn spec_refusal_fault_kind(r: DispatchRefusal) -> Seq<char> {
    match r {
        DispatchRefusal::Paused => "DISPATCH_BLOCKED_PAUSED"@,
        DispatchRefusal::Disabled => "DISPATCH_BLOCKED_DISABLED"@,
        DispatchRefusal::DryRun => "DISPATCH_BLOCKED_DRY_RUN"@,
        DispatchRefusal::DeviceDisabled => "DISPATCH_BLOCKED_DEVICE_DISABLED"@,
        DispatchRefusal::CriticalNotArmed => "DISPATCH_BLOCKED_CRITICAL_NOT_ARMED"@,
        DispatchRefusal::DeviceNotSafe => "DISPATCH_BLOCKED_DEVICE_NOT_SAFE"@,
        DispatchRefusal::DeviceOffline => "DISPATCH_BLOCKED_DEVICE_OFFLINE"@,
        DispatchRefusal::MissingKey => "DISPATCH_BLOCKED_MISSING_DEVICE_KEY"@,
    }
}

/// Admission faults are WARN, save the informational dry-run drop.
pub open spec fn spec_refusal_severity(r: DispatchRefusal) -> Seq<char> {
    match r {
        DispatchRefusal::DryRun => "INFO"@,
        _ => "WARN"@,
    }
}

/// Room-level refusals raise a core fault; device-level ones raise a
/// device fault.
pub open spec fn spec_refusal_is_device_scoped(r: DispatchRefusal) -> bool {
    match r {
        DispatchRefusal::Paused | DispatchRefusal::Disabled | DispatchRefusal::DryRun => false,
        _ => true,
    }
}

/// The safety class the registry holds for a device, NON_CRITICAL while
/// unregistered.
pub open spec fn spec_registry_class(runtime: RuntimeState, dev: Seq<char>) -> SafetyClass {
    match runtime.device_registry.spec_get(dev) {
        Some(e) => e.safety_class,
        None => SafetyClass::NonCritical,
    }
}

/// A critical dispatch needs a device whose last report is SAFE and not
/// latched; a device that never reported is not known safe.
pub open spec fn spec_device_safe_for_critical(devices: StrMap<DeviceStatus>, dev: Seq<char>) -> bool {
    match devices.spec_get(dev) {
        Some(st) => match st.last_reported_safety {
            Some(s) => s.kind == SafetyStateKind::Safe && !s.latched,
            None => false,
        },
        None => false,
    }
}

/// Admission verdict for an in-scope dispatch request, checked in order:
/// pause, dispatch gate, dry run, device registered and enabled, critical
/// arming and device safety, device liveness, key presence.
pub open spec fn spec_admission(
    config: CoreConfig,
    runtime: RuntimeState,
    devices: StrMap<DeviceStatus>,
    req: CoreDispatchRequest,
) -> Option<DispatchRefusal> {
    let dev = req.device_id@;
    let eff = spec_effective_safety_class(req.safety_class, spec_registry_class(runtime, dev));
    if runtime.spec_is_paused() {
        Some(DispatchRefusal::Paused)
    } else if !config.dispatch_enabled {
        Some(DispatchRefusal::Disabled)
    } else if config.dry_run {
        Some(DispatchRefusal::DryRun)
    } else if runtime.device_registry.spec_get(dev) is None {
        Some(DispatchRefusal::DeviceDisabled)
    } else if runtime.device_registry.spec_get(dev) matches Some(e) && !e.enabled {
        Some(DispatchRefusal::DeviceDisabled)
    } else if eff == SafetyClass::Critical && !config.critical_dispatch_armed {
        Some(DispatchRefusal::CriticalNotArmed)
    } else if eff == SafetyClass::Critical && !spec_device_safe_for_critical(devices, dev) {
        Some(DispatchRefusal::DeviceNotSafe)
    } else if devices.spec_get(dev) matches Some(st) && st.is_offline {
        Some(DispatchRefusal::DeviceOffline)
    } else if config.device_hmac_keys.spec_get(dev) is None {
        Some(DispatchRefusal::MissingKey)
    } else {
        None
    }
}

/// A correlation id completed within the TTL.
pub open spec fn spec_recent_hit(recent: IdMap<u64>, corr: u128, now: u64) -> bool {
    match recent.spec_get(corr) {
        Some(t) => spec_elapsed(now, t) <= RECENT_TTL_MS,
        None => false,
    }
}

/// What a dispatch request came to.
pub enum DispatchOutcome {
    /// Wrong schema or room id: dropped without a fault.
    IgnoredWrongScope,
    /// Admission refused: one fault raised, nothing else changed.
    Refused(DispatchRefusal),
    /// Control-plane duplicate: dropped silently; a sequence number was
    /// still consumed.
    DroppedDuplicate { correlation_id: u128 },
    /// A signed envelope left for the device.
    Dispatched { command_id: u128, correlation_id: u128 },
}

/// The coordinator: configuration, runtime gates, device tracking,
/// per-device sequences, pending commands, idempotency tracking, and the
/// graph runner.
pub struct Coordinator {
    pub config: CoreConfig,
    pub runtime: RuntimeState,
    pub devices: StrMap<DeviceStatus>,
    pub device_sequences: StrMap<u64>,
    pub pending: IdMap<PendingCommand>,
    pub dispatch_tracker: DispatchTracker,
    pub graph: GraphRunner,
}

/// Everything `handle_dispatch_request` promises, as a relation over the
/// state before and after, the outcome, and the emitted actions.
pub open spec fn spec_dispatch_post(
    pre: Coordinator,
    post: Coordinator,
    req: CoreDispatchRequest,
    now: u64,
    outcome: DispatchOutcome,
    actions: Seq<Action>,
) -> bool {
    &&& (
            post.config == pre.config
    )
    &&& (
            post.runtime == pre.runtime
    )
    &&& (
            post.devices == pre.devices
    )
    &&& (
            post.graph == pre.graph
    )
    &&& (
            (outcome is IgnoredWrongScope) <==> !(req.schema@ == SCHEMA_VERSION@ && req.room_id@
                == pre.config.room_id@)
    )
    &&& (
            outcome is IgnoredWrongScope ==> post == pre && actions.len() == 0
    )
    &&& (
            outcome matches DispatchOutcome::Refused(reason) ==> {
                &&& spec_admission(pre.config, pre.runtime, pre.devices, req)
                    == Some(reason)
                &&& post.device_sequences == pre.device_sequences
                &&& post.pending == pre.pending
                &&& post.dispatch_tracker == pre.dispatch_tracker
                &&& actions.len() == 1
                &&& spec_refusal_is_device_scoped(reason) ==> is_device_fault(
                    actions[0],
                    req.device_id@,
                    spec_refusal_fault_kind(reason),
                    spec_refusal_severity(reason),
                )
                &&& !spec_refusal_is_device_scoped(reason) ==> is_core_fault(
                    actions[0],
                    spec_refusal_fault_kind(reason),
                    spec_refusal_severity(reason),
                )
            }
    )
    &&& (
            (outcome matches DispatchOutcome::DroppedDuplicate { .. } || outcome
                matches DispatchOutcome::Dispatched { .. }) ==> {
                &&& spec_admission(pre.config, pre.runtime, pre.devices, req)
                    is None
                &&& forall|c2: u128| post.dispatch_tracker.recent.spec_get(c2) == match pre.dispatch_tracker.recent.spec_get(c2) {
                    Some(t) => if spec_elapsed(now, t) <= RECENT_TTL_MS {
                        Some(t)
                    } else {
                        None::<u64>
                    },
                    None => None::<u64>,
                }
            }
    )
    &&& (
            outcome matches DispatchOutcome::DroppedDuplicate { correlation_id: corr } ==> {
                &&& spec_recent_hit(pre.dispatch_tracker.recent, corr, now) || (pre.dispatch_tracker.inflight.spec_get(corr) matches Some(cid) && pre.pending.spec_get(cid) is Some)
                &&& post.pending == pre.pending
                &&& post.dispatch_tracker.inflight == pre.dispatch_tracker.inflight
                &&& post.device_sequences == pre.device_sequences
                &&& actions.len() == 0
                &&& (req.correlation_id matches Some(c) ==> corr == c)
            }
    )
    &&& (
            outcome matches DispatchOutcome::Dispatched { command_id: cid, correlation_id: corr } ==> {
                &&& (req.correlation_id matches Some(c) ==> corr == c)
                &&& !spec_recent_hit(pre.dispatch_tracker.recent, corr, now)
                &&& !(pre.dispatch_tracker.inflight.spec_get(corr) matches Some(cid0)
                    && pre.pending.spec_get(cid0) is Some)
                &&& forall|d2: Seq<char>| post.device_sequences.spec_get(d2) == if d2
                    == req.device_id@ {
                    Some(spec_next_seq(pre.device_sequences.spec_get(req.device_id@)))
                } else {
                    pre.device_sequences.spec_get(d2)
                }
                &&& actions.len() == 1
                &&& actions[0] matches Action::PublishCommand { device_id: d, envelope: env } && {
                    &&& d@ == req.device_id@
                    &&& env.schema@ == SCHEMA_VERSION@
                    &&& env.room_id@ == pre.config.room_id@
                    &&& env.device_id@ == req.device_id@
                    &&& env.command_id == cid
                    &&& env.correlation_id == corr
                    &&& env.sequence == spec_next_seq(
                        pre.device_sequences.spec_get(req.device_id@),
                    )
                    &&& env.issued_at_unix_ms == now
                    &&& env.action == req.action
                    &&& jv(env.parameters) == jv(req.parameters)
                    &&& env.safety_class == spec_effective_safety_class(
                        req.safety_class,
                        spec_registry_class(pre.runtime, req.device_id@),
                    )
                    &&& (pre.config.device_hmac_keys.spec_get(req.device_id@)
                        matches Some(key) && spec_mac_valid(env, key@))
                    &&& forall|c2: u128| post.pending.spec_get(c2) == if c2 == cid {
                        Some(post.pending.spec_get(cid)->Some_0)
                    } else {
                        pre.pending.spec_get(c2)
                    }
                    &&& post.pending.spec_get(cid) matches Some(pc) && {
                        &&& spec_envelope_like(pc.cmd, env)
                        &&& pc.device_id@ == req.device_id@
                        &&& pc.published_at_unix_ms == now
                        &&& pc.last_update_unix_ms == now
                        &&& pc.retries_left == match req.retries {
                            Some(n) => n,
                            None => pre.config.dispatch_default_retries,
                        }
                        &&& pc.ack_timeout_ms == match req.ack_timeout_ms {
                            Some(n) => n,
                            None => pre.config.dispatch_ack_timeout_ms,
                        }
                        &&& pc.complete_timeout_ms == match req.complete_timeout_ms {
                            Some(n) => n,
                            None => pre.config.dispatch_complete_timeout_ms,
                        }
                        &&& !pc.accepted
                        &&& !pc.completed
                        &&& !pc.rejected
                        &&& pc.accepted_at_unix_ms is None
                        &&& pc.reason_code is None
                    }
                }
                &&& forall|c2: u128| post.dispatch_tracker.inflight.spec_get(c2) == if c2
                    == corr {
                    Some(cid)
                } else {
                    pre.dispatch_tracker.inflight.spec_get(c2)
                }
            }
    )
}

/// Everything `handle_core_control` promises, as a relation over the
/// state before and after, the outcome, and the emitted actions.
pub open spec fn spec_control_post(
    pre: Coordinator,
    post: Coordinator,
    req: crate::protocol::CoreControlRequest,
    now: u64,
    outcome: ControlOutcome,
    actions: Seq<Action>,
) -> bool {
    &&& (
            post.config == pre.config
    )
    &&& (
            post.devices == pre.devices
    )
    &&& (
            post.device_sequences == pre.device_sequences
    )
    &&& (
            post.pending == pre.pending
    )
    &&& (
            post.dispatch_tracker == pre.dispatch_tracker
    )
    &&& (
            post.runtime.device_registry == pre.runtime.device_registry
    )
    &&& (
            post.runtime.broker_outage_since_unix_ms == if outcome == ControlOutcome::Resumed {
                None::<u64>
            } else {
                pre.runtime.broker_outage_since_unix_ms
            }
    )
    &&& (
            // the latch is cleared exactly by a successful reset, and never set here
            post.runtime.safety_latched_since_unix_ms == if outcome == ControlOutcome::ResetDone {
                None::<u64>
            } else {
                pre.runtime.safety_latched_since_unix_ms
            }
    )
    &&& (
            (outcome == ControlOutcome::IgnoredWrongScope) <==> !(req.schema@ == SCHEMA_VERSION@
                && req.room_id@ == pre.config.room_id@)
    )
    &&& (
            outcome == ControlOutcome::IgnoredWrongScope ==> post == pre && actions.len()
                == 0
    )
    &&& (
            (req.schema@ == SCHEMA_VERSION@ && req.room_id@ == pre.config.room_id@) ==> (
            (outcome == ControlOutcome::Unauthorized) <==> !spec_token_ok(
                pre.config.core_control_token,
                req.parameters,
            ))
    )
    &&& (
            outcome == ControlOutcome::Unauthorized ==> post == pre && actions.len() == 1
                && is_core_fault(actions[0], "CONTROL_UNAUTHORIZED"@, "WARN"@)
    )
    &&& (
            // each authorized request is forced into its op's outcome
            (req.schema@ == SCHEMA_VERSION@ && req.room_id@ == pre.config.room_id@
                && spec_token_ok(pre.config.core_control_token, req.parameters)) ==> outcome
                == spec_control_outcome(pre, req.op@)
    )
    &&& (
            outcome == ControlOutcome::Paused ==> {
                &&& req.op@ == "PAUSE_DISPATCH"@
                &&& post.runtime.manual_pause
                &&& post.runtime == (RuntimeState {
                    manual_pause: true,
                    dispatch_paused_reason: crate::state::spec_pause_reason(
                        pre.runtime.broker_outage_since_unix_ms,
                        pre.runtime.safety_latched_since_unix_ms,
                        true,
                    ),
                    ..pre.runtime
                })
                &&& actions.len() == 1 && is_core_fault(actions[0], "DISPATCH_PAUSED"@, "WARN"@)
            }
    )
    &&& (
            outcome == ControlOutcome::Resumed ==> {
                &&& req.op@ == "RESUME_DISPATCH"@
                &&& post.runtime == (RuntimeState {
                    manual_pause: false,
                    broker_outage_since_unix_ms: None,
                    dispatch_paused_reason: crate::state::spec_pause_reason(
                        None,
                        pre.runtime.safety_latched_since_unix_ms,
                        false,
                    ),
                    ..pre.runtime
                })
                &&& actions.len() == 1 && is_core_fault(actions[0], "DISPATCH_RESUMED"@, "INFO"@)
            }
    )
    &&& (
            outcome == ControlOutcome::ResetNoLatch ==> pre.runtime.safety_latched_since_unix_ms is None && post == pre
                && actions.len() == 0
    )
    &&& (
            outcome == ControlOutcome::ResetDenied ==> {
                &&& pre.runtime.safety_latched_since_unix_ms is Some
                &&& spec_reset_blocked(pre.devices)
                &&& post == pre
                &&& actions.len() == 1 && is_core_fault(actions[0], "SAFETY_RESET_DENIED"@, "WARN"@)
                &&& (actions[0] matches Action::PublishCoreFault { fault }
                    && crate::json::jv(fault.details) matches crate::json::Jv::Obj(ps)
                    && forall|k: Seq<char>| #[trigger] crate::maps::seq_get(ps, k)
                    == spec_blocker_lookup(pre.devices.entries(), k))
            }
    )
    &&& (
            outcome == ControlOutcome::ResetDone ==> {
                &&& pre.runtime.safety_latched_since_unix_ms is Some
                &&& !spec_reset_blocked(pre.devices)
                &&& post.runtime == (RuntimeState {
                    safety_latched_since_unix_ms: None,
                    dispatch_paused_reason: crate::state::spec_pause_reason(
                        pre.runtime.broker_outage_since_unix_ms,
                        None,
                        pre.runtime.manual_pause,
                    ),
                    room_safety: crate::safety::spec_room_safety(
                        pre.devices.entries(),
                        false,
                    ),
                    ..pre.runtime
                })
                &&& actions.len() == 1 && is_core_fault(actions[0], "SAFETY_LATCH_RESET"@, "INFO"@)
            }
    )
    &&& (
            outcome == ControlOutcome::GraphStartDenied ==> (pre.runtime.spec_is_paused() || pre.graph.graph is None) && post == pre && actions.len() == 1
                && is_core_fault(actions[0], "GRAPH_START_DENIED"@, "WARN"@)
    )
    &&& (
            outcome == ControlOutcome::GraphStartIgnored ==> pre.graph.spec_is_running()
                && post == pre && actions.len() == 0
    )
    &&& (
            outcome == ControlOutcome::GraphStarted ==> {
                &&& !pre.runtime.spec_is_paused()
                &&& pre.graph.graph is Some
                &&& !pre.graph.spec_is_running()
                &&& post.runtime == pre.runtime
                &&& post.graph.graph == pre.graph.graph
                &&& post.graph.graph_version == pre.graph.graph_version
                &&& post.graph.active_nodes@.len() == crate::graph::spec_start_ids(
                    pre.graph.graph->Some_0.start,
                ).len()
                &&& forall|j: int| 0 <= j < post.graph.active_nodes@.len() ==> post.graph.active_nodes@[j].node_id@ == crate::graph::spec_start_ids(
                    pre.graph.graph->Some_0.start,
                )[j]
                &&& actions.len() == 1 && is_core_fault(actions[0], "GRAPH_STARTED"@, "INFO"@)
            }
    )
    &&& (
            outcome == ControlOutcome::GraphStopIgnored ==> !pre.graph.spec_is_running()
                && post == pre && actions.len() == 0
    )
    &&& (
            outcome == ControlOutcome::GraphStopped ==> {
                &&& pre.graph.spec_is_running()
                &&& post.runtime == pre.runtime
                &&& post.graph.graph == pre.graph.graph
                &&& post.graph.graph_version == pre.graph.graph_version
                &&& !post.graph.spec_is_running()
                &&& actions.len() == 1 && is_core_fault(actions[0], "GRAPH_STOPPED"@, "WARN"@)
            }
    )
    &&& (
            outcome == ControlOutcome::GraphReloadDenied ==> (pre.graph.spec_is_running() || !pre.runtime.spec_is_paused()) && post == pre && actions.len() == 1
                && is_core_fault(actions[0], "GRAPH_RELOAD_DENIED"@, "WARN"@)
    )
    &&& (
            outcome == ControlOutcome::GraphReloadUnavailable ==> !pre.config.event_store_enabled
                && post == pre && actions.len() == 1 && is_core_fault(
                actions[0],
                "GRAPH_RELOAD_FAILED"@,
                "WARN"@,
            )
    )
    &&& (
            outcome == ControlOutcome::GraphReloadRequested ==> {
                &&& !pre.graph.spec_is_running()
                &&& pre.runtime.spec_is_paused()
                &&& pre.config.event_store_enabled
                &&& post == pre
                &&& actions.len() == 0
            }
    )
    &&& (
            outcome == ControlOutcome::UnknownOp ==> post == pre && actions.len() == 0
    )
}

/// Everything `handle_device_message` promises, as a relation over the
/// state before and after and the emitted actions.
pub open spec fn spec_device_msg_post(
    pre: Coordinator,
    post: Coordinator,
    device_id: Seq<char>,
    msg: DeviceMessage,
    now: u64,
    actions: Seq<Action>,
) -> bool {
    &&& (
            post.config == pre.config
    )
    &&& (
            post.device_sequences == pre.device_sequences
    )
    &&& (
            post.graph == pre.graph
    )
    &&& (
            post.runtime.device_registry == pre.runtime.device_registry
    )
    &&& (
            post.runtime.manual_pause == pre.runtime.manual_pause
    )
    &&& (
            post.runtime.broker_outage_since_unix_ms == pre.runtime.broker_outage_since_unix_ms
    )
    &&& (
            post.runtime.room_safety == pre.runtime.room_safety
    )
    &&& (
            // a set latch is never cleared here
            pre.runtime.safety_latched_since_unix_ms matches Some(t) ==> post.runtime.safety_latched_since_unix_ms == Some(t)
    )
    &&& (
            // the latch rule
            ({
                let latched_now = pre.runtime.safety_latched_since_unix_ms is None
                    && (spec_msg_safety(msg) matches Some((report, _))
                    && crate::safety::spec_report_latches(report));
                if latched_now {
                    post.runtime.safety_latched_since_unix_ms == Some(
                        spec_msg_safety(msg)->Some_0.1,
                    )
                } else {
                    post.runtime == pre.runtime
                }
            })
    )
    &&& (
            // the tracker entry
            forall|d2: Seq<char>| post.devices.spec_get(d2) == if d2 == device_id {
                Some(
                    spec_entry_final(
                        spec_base_entry(pre.devices, device_id),
                        msg,
                        pre.config.device_offline_ms,
                        now,
                    ),
                )
            } else {
                pre.devices.spec_get(d2)
            }
    )
    &&& (
            // pending and idempotency tracking move only under an ack
            msg matches DeviceMessage::Ack(ack) ==> {
                match pre.pending.spec_get(ack.command_id) {
                    Some(p) => {
                        &&& forall|c2: u128| post.pending.spec_get(c2) == if c2
                            == ack.command_id {
                            Some(spec_acked_pending(p, ack.status, ack.reason_code, now))
                        } else {
                            pre.pending.spec_get(c2)
                        }
                        &&& forall|c2: u128| post.dispatch_tracker.inflight.spec_get(c2)
                            == if c2 == p.cmd.correlation_id {
                            Some(ack.command_id)
                        } else {
                            pre.dispatch_tracker.inflight.spec_get(c2)
                        }
                        &&& post.dispatch_tracker.recent == pre.dispatch_tracker.recent
                    }
                    None => {
                        &&& post.pending == pre.pending
                        &&& forall|c2: u128| post.dispatch_tracker.inflight.spec_get(c2)
                            == if c2 == ack.correlation_id {
                            Some(ack.command_id)
                        } else {
                            pre.dispatch_tracker.inflight.spec_get(c2)
                        }
                        &&& post.dispatch_tracker.recent == pre.dispatch_tracker.recent
                    }
                }
            }
    )
    &&& (
            !(msg matches DeviceMessage::Ack(_)) ==> {
                &&& post.pending == pre.pending
                &&& post.dispatch_tracker == pre.dispatch_tracker
            }
    )
    &&& (
            crate::actions::no_command_published(actions)
    )
    &&& (
        // a non-SAFE retained state raises the device safety fault
        (msg matches DeviceMessage::State(st) && st.safety_state.kind != SafetyStateKind::Safe)
            ==> exists|j: int|
            0 <= j < actions.len() && is_device_fault(
                #[trigger] actions[j],
                device_id,
                "DEVICE_SAFETY_STATE"@,
                "WARN"@,
            )
    )
    &&& (
        // every retained-state message republishes the device status
        msg matches DeviceMessage::State(_) ==> actions.len() >= 1
            && crate::actions::is_device_status(actions.last(), device_id)
    )
    &&& ({
        // a liveness transition raises its fault
        let mid = spec_entry_after(spec_base_entry(pre.devices, device_id), msg);
        let next = spec_should_be_offline(pre.config.device_offline_ms, mid, now);
        (spec_msg_recomputes_liveness(msg) && next != mid.is_offline) ==> exists|j: int|
            0 <= j < actions.len() && is_device_fault(
                #[trigger] actions[j],
                device_id,
                if next {
                    "DEVICE_OFFLINE"@
                } else {
                    "DEVICE_ONLINE"@
                },
                if next {
                    "WARN"@
                } else {
                    "INFO"@
                },
            )
    })
}

/// Everything `on_broker_disconnected` promises.
pub open spec fn spec_broker_disconnect_post(
    pre: Coordinator,
    post: Coordinator,
    now: u64,
    actions: Seq<Action>,
) -> bool {
    &&& (
            actions.len() == 0
    )
    &&& (
            post.config == pre.config
    )
    &&& (
            post.devices == pre.devices
    )
    &&& (
            post.device_sequences == pre.device_sequences
    )
    &&& (
            pre.runtime.broker_outage_since_unix_ms is Some ==> post == pre
    )
    &&& (
            pre.runtime.broker_outage_since_unix_ms is None ==> {
                &&& post.runtime == (RuntimeState {
                    broker_outage_since_unix_ms: Some(now),
                    dispatch_paused_reason: crate::state::spec_pause_reason(
                        Some(now),
                        pre.runtime.safety_latched_since_unix_ms,
                        pre.runtime.manual_pause,
                    ),
                    ..pre.runtime
                })
                &&& post.pending.spec_len() == 0
                &&& forall|cid: u128| post.pending.spec_get(cid) is None
                &&& forall|corr: u128| post.dispatch_tracker.inflight.spec_get(corr)
                    is None
                &&& post.dispatch_tracker.recent == pre.dispatch_tracker.recent
                &&& !post.graph.spec_is_running()
                &&& post.graph.graph == pre.graph.graph
                &&& post.graph.graph_version == pre.graph.graph_version
            }
    )
}

/// Everything `on_broker_connected` promises.
pub open spec fn spec_broker_connect_post(
    pre: Coordinator,
    post: Coordinator,
    now: u64,
    actions: Seq<Action>,
) -> bool {
    &&& (
            post == pre
    )
    &&& (
            pre.runtime.broker_outage_since_unix_ms is Some ==> actions.len() == 1
                && is_core_fault(actions[0], "BROKER_OUTAGE"@, "CRITICAL"@)
                && (actions[0] matches Action::PublishCoreFault { fault }
                && crate::json::obj_get_m(crate::json::jv(fault.details), "down_since_unix_ms"@)
                == Some(crate::json::Jv::Num(crate::signing::spec_dec(
                pre.runtime.broker_outage_since_unix_ms->0 as nat,
            ))))
    )
    &&& (
            pre.runtime.broker_outage_since_unix_ms is None ==> actions.len() == 0
    )
}

impl Coordinator {
    pub open spec fn wf(self) -> bool {
        &&& self.config.wf()
        &&& self.runtime.wf()
        &&& self.devices.wf()
        &&& self.device_sequences.wf()
        &&& self.pending.wf()
        &&& self.dispatch_tracker.wf()
        &&& self.graph.wf()
    }

    pub fn new(config: CoreConfig) -> (r: Self)
        requires
            config.wf(),
        ensures
            r.wf(),
            r.config == config,
            r.runtime.safety_latched_since_unix_ms is None,
            r.runtime.broker_outage_since_unix_ms is None,
            !r.runtime.manual_pause,
            !r.runtime.spec_is_paused(),
            r.devices.spec_len() == 0,
            r.pending.spec_len() == 0,
            forall|d: Seq<char>| r.devices.spec_get(d) is None,
            forall|d: Seq<char>| r.device_sequences.spec_get(d) is None,
            forall|d: Seq<char>| r.runtime.device_registry.spec_get(d) is None,
            forall|corr: u128| r.dispatch_tracker.inflight.spec_get(corr) is None,
            forall|corr: u128| r.dispatch_tracker.recent.spec_get(corr) is None,
            forall|cid: u128| r.pending.spec_get(cid) is None,
            !r.graph.spec_is_running(),
    {
        Coordinator {
            config,
            runtime: RuntimeState::new(),
            devices: StrMap::new(),
            device_sequences: StrMap::new(),
            pending: IdMap::new(),
            dispatch_tracker: DispatchTracker::new(),
            graph: GraphRunner::new(),
        }
    }

    /// Admit, deduplicate, sign, and issue one dispatch request.
    ///
    /// In-scope requests run the admission checks in order; a refusal
    /// raises exactly one fault and changes nothing else. Past admission
    /// the recently-completed table is swept, and a request whose
    /// correlation id is recently completed or still inflight is dropped
    /// without a publish and without consuming a sequence number — an
    /// operator retrying a request never doubles a physical action.
    /// Otherwise a per-device sequence number and a fresh command id are
    /// allocated and a signed envelope leaves for the device.
    pub fn handle_dispatch_request(&mut self, req: &CoreDispatchRequest, now: u64) -> (r: (
        DispatchOutcome,
        Vec<Action>,
    ))
        requires
            old(self).wf(),
        ensures
            final(self).wf(),
            spec_dispatch_post(*old(self), *final(self), *req, now, r.0, r.1@),
    {
        let mut actions: Vec<Action> = Vec::new();

        if !crate::json::str_eq(req.schema.as_str(), SCHEMA_VERSION) || !(req.room_id
            == self.config.room_id) {
            return (DispatchOutcome::IgnoredWrongScope, actions);
        }

        let dev = &req.device_id;

        if self.runtime.dispatch_is_paused() {
            let pause_reason = match self.runtime.dispatch_paused_reason {
                Some(p) => p,
                None => vstd::pervasive::unreached(),
            };
            proof {
                reveal_strlit("device_id");
                reveal_strlit("reason");
                assert("device_id"@.len() == 9);
                assert("reason"@.len() == 6);
                assert("device_id"@ != "reason"@);
            }
            let details = crate::actions::two_member_details(
                "device_id",
                JsonValue::Str(dev.clone()),
                "reason",
                JsonValue::Str(crate::state::pause_reason_str(pause_reason).to_owned()),
            );
            let fault = core_fault(
                &self.config.room_id,
                "DISPATCH_BLOCKED_PAUSED",
                "WARN",
                "Dispatch blocked: room dispatch is paused",
                now,
                details,
            );
            actions.push(Action::PublishCoreFault { fault });
            return (DispatchOutcome::Refused(DispatchRefusal::Paused), actions);
        }
        if !self.config.dispatch_enabled {
            let fault = core_fault(
                &self.config.room_id,
                "DISPATCH_BLOCKED_DISABLED",
                "WARN",
                "Dispatch blocked: dispatch is disabled",
                now,
                device_details(dev),
            );
            actions.push(Action::PublishCoreFault { fault });
            return (DispatchOutcome::Refused(DispatchRefusal::Disabled), actions);
        }
        if self.config.dry_run {
            let fault = core_fault(
                &self.config.room_id,
                "DISPATCH_BLOCKED_DRY_RUN",
                "INFO",
                "Dispatch ignored: dry run",
                now,
                device_details(dev),
            );
            actions.push(Action::PublishCoreFault { fault });
            return (DispatchOutcome::Refused(DispatchRefusal::DryRun), actions);
        }

        let registry_class = match self.runtime.device_registry.get(dev.as_str()) {
            Some(e) => {
                if !e.enabled {
                    let fault = core_fault(
                        &self.config.room_id,
                        "DISPATCH_BLOCKED_DEVICE_DISABLED",
                        "WARN",
                        "Dispatch blocked: device disabled",
                        now,
                        device_details(dev),
                    );
                    actions.push(Action::PublishDeviceFault { device_id: dev.clone(), fault });
                    return (DispatchOutcome::Refused(DispatchRefusal::DeviceDisabled), actions);
                }
                e.safety_class
            }
            None => {
                let fault = core_fault(
                    &self.config.room_id,
                    "DISPATCH_BLOCKED_DEVICE_DISABLED",
                    "WARN",
                    "Dispatch blocked: device not registered",
                    now,
                    device_details(dev),
                );
                actions.push(Action::PublishDeviceFault { device_id: dev.clone(), fault });
                return (DispatchOutcome::Refused(DispatchRefusal::DeviceDisabled), actions);
            }
        };
        let eff = crate::state::effective_safety_class(req.safety_class, registry_class);

        if eff == SafetyClass::Critical {
            if !self.config.critical_dispatch_armed {
                let fault = core_fault(
                    &self.config.room_id,
                    "DISPATCH_BLOCKED_CRITICAL_NOT_ARMED",
                    "WARN",
                    "Dispatch blocked: CRITICAL requires arming",
                    now,
                    device_details(dev),
                );
                actions.push(Action::PublishDeviceFault { device_id: dev.clone(), fault });
                return (DispatchOutcome::Refused(DispatchRefusal::CriticalNotArmed), actions);
            }
            let safe = match self.devices.get(dev.as_str()) {
                Some(st) => match &st.last_reported_safety {
                    Some(s) => s.kind == SafetyStateKind::Safe && !s.latched,
                    None => false,
                },
                None => false,
            };
            if !safe {
                let fault = core_fault(
                    &self.config.room_id,
                    "DISPATCH_BLOCKED_DEVICE_NOT_SAFE",
                    "WARN",
                    "Dispatch blocked: device not SAFE",
                    now,
                    device_details(dev),
                );
                actions.push(Action::PublishDeviceFault { device_id: dev.clone(), fault });
                return (DispatchOutcome::Refused(DispatchRefusal::DeviceNotSafe), actions);
            }
        }

        match self.devices.get(dev.as_str()) {
            Some(st) => {
                if st.is_offline {
                    let fault = core_fault(
                        &self.config.room_id,
                        "DISPATCH_BLOCKED_DEVICE_OFFLINE",
                        "WARN",
                        "Dispatch blocked: device offline",
                        now,
                        device_details(dev),
                    );
                    actions.push(Action::PublishDeviceFault { device_id: dev.clone(), fault });
                    return (DispatchOutcome::Refused(DispatchRefusal::DeviceOffline), actions);
                }
            }
            None => {}
        }

        let has_key = self.config.device_hmac_keys.contains(dev.as_str());
        if !has_key {
            let fault = core_fault(
                &self.config.room_id,
                "DISPATCH_BLOCKED_MISSING_DEVICE_KEY",
                "WARN",
                "Dispatch blocked: missing device HMAC key",
                now,
                device_details(dev),
            );
            actions.push(Action::PublishDeviceFault { device_id: dev.clone(), fault });
            return (DispatchOutcome::Refused(DispatchRefusal::MissingKey), actions);
        }

        let correlation_id: u128 = match req.correlation_id {
            Some(c) => c,
            None => fresh_uuid_u128(),
        };

        self.dispatch_tracker.sweep_recent(now, RECENT_TTL_MS);
        if self.dispatch_tracker.is_recent(correlation_id, now, RECENT_TTL_MS) {
            return (DispatchOutcome::DroppedDuplicate { correlation_id }, actions);
        }
        match self.dispatch_tracker.inflight_command_id(correlation_id) {
            Some(existing) => {
                if self.pending.contains(existing) {
                    return (DispatchOutcome::DroppedDuplicate { correlation_id }, actions);
                }
                self.dispatch_tracker.inflight.remove(correlation_id);
            }
            None => {}
        }

        let prev_seq: Option<u64> = match self.device_sequences.get(dev.as_str()) {
            Some(s) => Some(*s),
            None => None,
        };
        let prev: u64 = match prev_seq {
            Some(s) => s,
            None => 0,
        };
        let next_seq: u64 = if prev == u64::MAX {
            0
        } else {
            prev + 1
        };
        self.device_sequences.set(dev.clone(), next_seq);

        let command_id: u128 = fresh_uuid_u128();
        let mut cmd = CommandEnvelope {
            schema: SCHEMA_VERSION.to_owned(),
            room_id: self.config.room_id.clone(),
            device_id: dev.clone(),
            command_id,
            correlation_id,
            sequence: next_seq,
            issued_at_unix_ms: now,
            action: req.action,
            parameters: json_clone(&req.parameters),
            safety_class: eff,
            auth: None,
        };
        let key = match self.config.device_hmac_keys.get(dev.as_str()) {
            Some(k) => k,
            None => vstd::pervasive::unreached(),
        };
        sign_command_hmac_sha256(&mut cmd, key.as_slice(), None);

        let env_out = clone_envelope(&cmd);
        proof {
            lemma_envelope_like_mac(
                env_out,
                cmd,
                old(self).config.device_hmac_keys.spec_get(req.device_id@)->Some_0@,
            );
        }
        let retries_left = match req.retries {
            Some(n) => n,
            None => self.config.dispatch_default_retries,
        };
        let ack_timeout_ms = match req.ack_timeout_ms {
            Some(n) => n,
            None => self.config.dispatch_ack_timeout_ms,
        };
        let complete_timeout_ms = match req.complete_timeout_ms {
            Some(n) => n,
            None => self.config.dispatch_complete_timeout_ms,
        };
        actions.push(Action::PublishCommand { device_id: dev.clone(), envelope: env_out });
        self.dispatch_tracker.track_inflight(correlation_id, command_id);
        self.pending.set(
            command_id,
            PendingCommand {
                device_id: dev.clone(),
                cmd,
                published_at_unix_ms: now,
                last_update_unix_ms: now,
                retries_left,
                ack_timeout_ms,
                complete_timeout_ms,
                accepted: false,
                accepted_at_unix_ms: None,
                completed: false,
                rejected: false,
                reason_code: None,
            },
        );
        (DispatchOutcome::Dispatched { command_id, correlation_id }, actions)
    }
}


/// A parsed message from a device topic; the device id comes from the
/// topic path.
pub enum DeviceMessage {
    Heartbeat(crate::protocol::Heartbeat),
    Ack(crate::protocol::CommandAck),
    Presence(crate::protocol::Presence),
    State(crate::protocol::DeviceState),
    /// Raw telemetry: stored by the caller, no coordinator state beyond
    /// the tracker entry.
    Telemetry,
}

/// A device first heard of: nothing recorded, treated as offline.
pub open spec fn spec_unknown_device() -> DeviceStatus {
    DeviceStatus {
        last_heartbeat_at_unix_ms: None,
        last_ack_at_unix_ms: None,
        last_presence_at_unix_ms: None,
        last_state_at_unix_ms: None,
        last_state: None,
        presence: None,
        last_reported_safety: None,
        is_offline: true,
    }
}

/// The tracker entry a message starts from: the stored one, or a fresh
/// unknown entry.
pub open spec fn spec_base_entry(devices: StrMap<DeviceStatus>, dev: Seq<char>) -> DeviceStatus {
    match devices.spec_get(dev) {
        Some(st) => st,
        None => spec_unknown_device(),
    }
}

/// Entry fields after a message, liveness not yet recomputed.
pub open spec fn spec_entry_after(base: DeviceStatus, msg: DeviceMessage) -> DeviceStatus {
    match msg {
        DeviceMessage::Heartbeat(hb) => DeviceStatus {
            last_heartbeat_at_unix_ms: Some(hb.observed_at_unix_ms),
            last_reported_safety: Some(hb.safety_state),
            ..base
        },
        DeviceMessage::Ack(ack) => DeviceStatus {
            last_ack_at_unix_ms: Some(ack.observed_at_unix_ms),
            last_reported_safety: Some(ack.safety_state),
            ..base
        },
        DeviceMessage::Presence(p) => DeviceStatus {
            last_presence_at_unix_ms: Some(p.observed_at_unix_ms),
            presence: Some(p.status),
            ..base
        },
        DeviceMessage::State(st) => DeviceStatus {
            last_state_at_unix_ms: Some(st.observed_at_unix_ms),
            last_state: Some(st.state),
            last_reported_safety: Some(st.safety_state),
            ..base
        },
        DeviceMessage::Telemetry => base,
    }
}

/// Whether liveness is recomputed for this message kind.
pub open spec fn spec_msg_recomputes_liveness(msg: DeviceMessage) -> bool {
    msg matches DeviceMessage::Heartbeat(_) || msg matches DeviceMessage::Presence(_)
}

/// The safety report a message carries, if any.
pub open spec fn spec_msg_safety(msg: DeviceMessage) -> Option<
    (crate::protocol::SafetyState, u64),
> {
    match msg {
        DeviceMessage::Heartbeat(hb) => Some((hb.safety_state, hb.observed_at_unix_ms)),
        DeviceMessage::Ack(ack) => Some((ack.safety_state, ack.observed_at_unix_ms)),
        DeviceMessage::State(st) => Some((st.safety_state, st.observed_at_unix_ms)),
        _ => None,
    }
}

/// The tracker entry a message finally leaves behind.
pub open spec fn spec_entry_final(
    base: DeviceStatus,
    msg: DeviceMessage,
    offline_ms: u64,
    now: u64,
) -> DeviceStatus {
    let mid = spec_entry_after(base, msg);
    if spec_msg_recomputes_liveness(msg) {
        DeviceStatus { is_offline: spec_should_be_offline(offline_ms, mid, now), ..mid }
    } else {
        mid
    }
}

/// A pending command after an ack of the given status.
pub open spec fn spec_acked_pending(
    p: PendingCommand,
    status: crate::protocol::AckStatus,
    reason: Option<String>,
    now: u64,
) -> PendingCommand {
    match status {
        crate::protocol::AckStatus::Accepted => PendingCommand {
            last_update_unix_ms: now,
            accepted: true,
            accepted_at_unix_ms: if p.accepted_at_unix_ms is Some {
                p.accepted_at_unix_ms
            } else {
                Some(now)
            },
            ..p
        },
        crate::protocol::AckStatus::Completed => PendingCommand {
            last_update_unix_ms: now,
            completed: true,
            ..p
        },
        crate::protocol::AckStatus::Rejected => PendingCommand {
            last_update_unix_ms: now,
            rejected: true,
            reason_code: reason,
            ..p
        },
    }
}

/// Build the retained status document for one device.
pub fn device_status_doc(
    room_id: &String,
    device_id: &String,
    st: &DeviceStatus,
    now: u64,
) -> (r: crate::actions::DeviceStatusDoc)
    ensures
        r.device_id@ == device_id@,
        r.is_offline == st.is_offline,
{
    let (k, latched, reason): (
        Option<crate::protocol::SafetyStateKind>,
        bool,
        Option<String>,
    ) = match &st.last_reported_safety {
        Some(s) => (
            Some(s.kind),
            s.latched,
            match &s.reason_code {
                Some(rc) => Some(rc.clone()),
                None => None,
            },
        ),
        None => (None, false, None),
    };
    crate::actions::DeviceStatusDoc {
        schema: SCHEMA_VERSION.to_owned(),
        room_id: room_id.clone(),
        device_id: device_id.clone(),
        is_offline: st.is_offline,
        reported_safety_kind: k,
        reported_safety_latched: latched,
        reported_safety_reason_code: reason,
        computed_at_unix_ms: now,
        last_heartbeat_at_unix_ms: match st.last_heartbeat_at_unix_ms {
            Some(v) => v,
            None => 0,
        },
        last_presence_at_unix_ms: match st.last_presence_at_unix_ms {
            Some(v) => v,
            None => 0,
        },
        last_state_at_unix_ms: match st.last_state_at_unix_ms {
            Some(v) => v,
            None => 0,
        },
        presence: st.presence,
    }
}

/// Recompute one device's offline flag. A transition raises a
/// `DEVICE_OFFLINE` (WARN) or `DEVICE_ONLINE` (INFO) fault and republishes
/// the device status; a presence message republishes the status even
/// without a transition.
pub fn recompute_liveness_local(
    offline_ms: u64,
    room_id: &String,
    device_id: &String,
    entry: &mut DeviceStatus,
    from_presence: bool,
    now: u64,
) -> (actions: Vec<Action>)
    ensures
        *final(entry) == (DeviceStatus {
            is_offline: spec_should_be_offline(offline_ms, *old(entry), now),
            ..*old(entry)
        }),
        ({
            let next = spec_should_be_offline(offline_ms, *old(entry), now);
            if next != old(entry).is_offline {
                &&& actions@.len() == 2
                &&& is_device_fault(actions@[0], device_id@, if next {
                    "DEVICE_OFFLINE"@
                } else {
                    "DEVICE_ONLINE"@
                }, if next {
                    "WARN"@
                } else {
                    "INFO"@
                })
                &&& crate::actions::is_device_status(actions@[1], device_id@)
            } else if from_presence {
                &&& actions@.len() == 1
                &&& crate::actions::is_device_status(actions@[0], device_id@)
            } else {
                actions@.len() == 0
            }
        }),
{
    let mut actions: Vec<Action> = Vec::new();
    let next = crate::tracker::should_be_offline(offline_ms, entry, now);
    if next != entry.is_offline {
        entry.is_offline = next;
        let fault = if next {
            core_fault(
                room_id,
                "DEVICE_OFFLINE",
                "WARN",
                "Device is offline (presence/heartbeat)",
                now,
                device_details(device_id),
            )
        } else {
            core_fault(
                room_id,
                "DEVICE_ONLINE",
                "INFO",
                "Device is online",
                now,
                device_details(device_id),
            )
        };
        actions.push(Action::PublishDeviceFault { device_id: device_id.clone(), fault });
        let doc = device_status_doc(room_id, device_id, entry, now);
        actions.push(Action::PublishDeviceStatus { device_id: device_id.clone(), status: doc });
    } else if from_presence {
        let doc = device_status_doc(room_id, device_id, entry, now);
        actions.push(Action::PublishDeviceStatus { device_id: device_id.clone(), status: doc });
    }
    actions
}

impl Coordinator {
    /// Route one parsed device message: update the tracker entry, latch
    /// on a bad safety report, apply acks to the pending command, and
    /// recompute liveness for heartbeat and presence messages.
    ///
    /// Any ack re-binds its correlation id to its command id — also when
    /// the command id is unknown to the pending map, as after a restart —
    /// so later control-plane duplicates stay deduplicated.
    pub fn handle_device_message(&mut self, device_id: &String, msg: DeviceMessage, now: u64) -> (actions: Vec<Action>)
        requires
            old(self).wf(),
        ensures
            final(self).wf(),
            spec_device_msg_post(*old(self), *final(self), device_id@, msg, now, actions@),
    {
        let ghost old_entries = self.devices.entries();
        let (pos, key, mut entry): (usize, String, DeviceStatus) = match self.devices.index_of(
            device_id.as_str(),
        ) {
            Some(i) => {
                let (k, e) = self.devices.remove_at_take(i);
                proof {
                    assert forall|k2: Seq<char>| true implies self.devices.spec_get(k2) == (if k2
                        == device_id@ {
                        None::<DeviceStatus>
                    } else {
                        old(self).devices.spec_get(k2)
                    }) by {
                        crate::maps::lemma_seq_get_remove(old_entries, i as int, k2);
                    }
                }
                (i, k, e)
            }
            None => (self.devices.len(), device_id.clone(), DeviceStatus::new_unknown()),
        };
        let ghost base = spec_base_entry(old(self).devices, device_id@);
        proof {
            assert(entry == base);
        }

        let mut actions: Vec<Action> = Vec::new();
        match msg {
            DeviceMessage::Heartbeat(hb) => {
                let latch_acts = crate::safety::maybe_latch_safety(
                    &mut self.runtime,
                    &self.config.room_id,
                    device_id,
                    &hb.safety_state,
                    hb.observed_at_unix_ms,
                );
                crate::actions::vec_append(&mut actions, latch_acts);
                entry.last_heartbeat_at_unix_ms = Some(hb.observed_at_unix_ms);
                entry.last_reported_safety = Some(hb.safety_state);
                let ghost pre_len = actions@.len();
                let live_acts = recompute_liveness_local(
                    self.config.device_offline_ms,
                    &self.config.room_id,
                    device_id,
                    &mut entry,
                    false,
                    now,
                );
                crate::actions::vec_append(&mut actions, live_acts);
                proof {
                    if live_acts@.len() > 0 {
                        assert(actions@[pre_len as int] == live_acts@[0]);
                    }
                }
            }
            DeviceMessage::Ack(ack) => {
                let latch_acts = crate::safety::maybe_latch_safety(
                    &mut self.runtime,
                    &self.config.room_id,
                    device_id,
                    &ack.safety_state,
                    ack.observed_at_unix_ms,
                );
                crate::actions::vec_append(&mut actions, latch_acts);
                entry.last_ack_at_unix_ms = Some(ack.observed_at_unix_ms);
                entry.last_reported_safety = Some(ack.safety_state);
                match self.pending.index_of(ack.command_id) {
                    Some(pi) => {
                        let ghost old_pending = self.pending;
                        let (cid, mut p) = self.pending.remove_at_take(pi);
                        proof {
                            assert forall|c2: u128| true implies self.pending.spec_get(c2) == (
                            if c2 == ack.command_id {
                                None::<PendingCommand>
                            } else {
                                old_pending.spec_get(c2)
                            }) by {
                                crate::maps::lemma_seq_get_remove(
                                    old_pending.entries(),
                                    pi as int,
                                    c2,
                                );
                            }
                        }
                        p.last_update_unix_ms = now;
                        match ack.status {
                            crate::protocol::AckStatus::Accepted => {
                                p.accepted = true;
                                if p.accepted_at_unix_ms.is_none() {
                                    p.accepted_at_unix_ms = Some(now);
                                }
                            }
                            crate::protocol::AckStatus::Completed => {
                                p.completed = true;
                            }
                            crate::protocol::AckStatus::Rejected => {
                                p.rejected = true;
                                p.reason_code = ack.reason_code;
                            }
                        }
                        let corr = p.cmd.correlation_id;
                        self.pending.insert_at(pi, cid, p);
                        self.dispatch_tracker.track_inflight(corr, ack.command_id);
                    }
                    None => {
                        // the command id is unknown (e.g. after a restart):
                        // re-bind the correlation so later control-plane
                        // duplicates do not mint a new physical attempt
                        self.dispatch_tracker.track_inflight(ack.correlation_id, ack.command_id);
                    }
                }
            }
            DeviceMessage::Presence(p) => {
                entry.last_presence_at_unix_ms = Some(p.observed_at_unix_ms);
                entry.presence = Some(p.status);
                let ghost pre_len = actions@.len();
                let live_acts = recompute_liveness_local(
                    self.config.device_offline_ms,
                    &self.config.room_id,
                    device_id,
                    &mut entry,
                    true,
                    now,
                );
                crate::actions::vec_append(&mut actions, live_acts);
                proof {
                    if live_acts@.len() > 0 {
                        assert(actions@[pre_len as int] == live_acts@[0]);
                    }
                }
            }
            DeviceMessage::State(st) => {
                let latch_acts = crate::safety::maybe_latch_safety(
                    &mut self.runtime,
                    &self.config.room_id,
                    device_id,
                    &st.safety_state,
                    st.observed_at_unix_ms,
                );
                crate::actions::vec_append(&mut actions, latch_acts);
                let kind = st.safety_state.kind;
                entry.last_state_at_unix_ms = Some(st.observed_at_unix_ms);
                entry.last_state = Some(st.state);
                entry.last_reported_safety = Some(st.safety_state);
                let ghost fault_at = actions@.len();
                if !(kind == SafetyStateKind::Safe) {
                    let fault = core_fault(
                        &self.config.room_id,
                        "DEVICE_SAFETY_STATE",
                        "WARN",
                        "Device reported non-SAFE safety state",
                        now,
                        device_details(device_id),
                    );
                    actions.push(Action::PublishDeviceFault { device_id: device_id.clone(), fault });
                    proof {
                        assert(is_device_fault(
                            actions@[fault_at as int],
                            device_id@,
                            "DEVICE_SAFETY_STATE"@,
                            "WARN"@,
                        ));
                    }
                }
                let doc = device_status_doc(&self.config.room_id, device_id, &entry, now);
                actions.push(
                    Action::PublishDeviceStatus { device_id: device_id.clone(), status: doc },
                );
                proof {
                    assert(crate::actions::is_device_status(actions@.last(), device_id@));
                    if !(kind == SafetyStateKind::Safe) {
                        assert(is_device_fault(
                            actions@[fault_at as int],
                            device_id@,
                            "DEVICE_SAFETY_STATE"@,
                            "WARN"@,
                        ));
                    }
                }
            }
            DeviceMessage::Telemetry => {}
        }

        self.devices.insert_at(pos, key, entry);
        actions
    }
}


/// What the tick does with one pending command.
#[derive(Clone, Copy, Debug, PartialEq, Eq, Structural)]
pub enum TickVerdict {
    /// Device rejected it: fault, mark done, drop.
    Rejected,
    /// Completed: mark done, drop.
    Completed,
    /// Accepted but not completed in time: fault, mark done, drop.
    /// Never retried — the device owns the action once it accepted.
    CompleteTimeout,
    /// No ack and no retries left: fault, mark done, drop.
    AckTimeoutFinal,
    /// No ack, retries left: republish the same envelope.
    Retry,
    /// Still waiting.
    Keep,
}

pub open spec fn spec_tick_verdict(p: PendingCommand, now: u64) -> TickVerdict {
    if p.rejected {
        TickVerdict::Rejected
    } else if p.completed {
        TickVerdict::Completed
    } else if p.accepted {
        if p.accepted_at_unix_ms matches Some(at) && spec_elapsed(now, at) > p.complete_timeout_ms {
            TickVerdict::CompleteTimeout
        } else {
            TickVerdict::Keep
        }
    } else if spec_elapsed(now, p.published_at_unix_ms) > p.ack_timeout_ms {
        if p.retries_left == 0 {
            TickVerdict::AckTimeoutFinal
        } else {
            TickVerdict::Retry
        }
    } else {
        TickVerdict::Keep
    }
}

pub open spec fn spec_verdict_terminal(v: TickVerdict) -> bool {
    match v {
        TickVerdict::Keep | TickVerdict::Retry => false,
        _ => true,
    }
}

/// A retried command: one retry consumed, the publish instant reset, the
/// envelope untouched.
pub open spec fn spec_retried(p: PendingCommand, now: u64) -> PendingCommand {
    PendingCommand {
        retries_left: (p.retries_left - 1) as u32,
        published_at_unix_ms: now,
        ..p
    }
}

/// The pending entry the tick leaves behind, if any.
pub open spec fn spec_tick_map(p: PendingCommand, now: u64) -> Option<PendingCommand> {
    match spec_tick_verdict(p, now) {
        TickVerdict::Keep => Some(p),
        TickVerdict::Retry => Some(spec_retried(p, now)),
        _ => None,
    }
}

/// Some entry of `s` reaches a terminal verdict now and carries `corr`.
pub open spec fn spec_removed_corr(s: Seq<(u128, PendingCommand)>, corr: u128, now: u64) -> bool {
    exists|i: int|
        0 <= i < s.len() && spec_verdict_terminal(spec_tick_verdict(#[trigger] s[i].1, now))
            && s[i].1.cmd.correlation_id == corr
}

/// An action the pending tick may emit: a terminal device fault, or a
/// republish of a stored envelope whose verdict is Retry.
pub open spec fn spec_tick_action_ok(
    a: Action,
    oe: Seq<(u128, PendingCommand)>,
    now: u64,
) -> bool {
    match a {
        Action::PublishDeviceFault { device_id, fault } => exists|i: int|
            0 <= i < oe.len() && device_id@ == (#[trigger] oe[i].1).device_id@ && ((fault.kind@
                == "COMMAND_REJECTED"@ && spec_tick_verdict(oe[i].1, now) == TickVerdict::Rejected)
                || (fault.kind@ == "COMMAND_COMPLETE_TIMEOUT"@ && spec_tick_verdict(oe[i].1, now)
                == TickVerdict::CompleteTimeout) || (fault.kind@ == "COMMAND_ACK_TIMEOUT"@
                && spec_tick_verdict(oe[i].1, now) == TickVerdict::AckTimeoutFinal)),
        Action::PublishCommand { device_id, envelope } => exists|i: int|
            0 <= i < oe.len() && spec_tick_verdict(#[trigger] oe[i].1, now) == TickVerdict::Retry
                && spec_envelope_like(envelope, oe[i].1.cmd) && device_id@ == oe[i].1.device_id@,
        _ => false,
    }
}

/// What the tick owes for one pending entry: the matching device fault
/// for each terminal verdict, and the republish of a like envelope for a
/// retry.
pub open spec fn spec_tick_emits(
    e: (u128, PendingCommand),
    actions: Seq<Action>,
    now: u64,
) -> bool {
    match spec_tick_verdict(e.1, now) {
        TickVerdict::Rejected => exists|j: int|
            0 <= j < actions.len() && is_device_fault(
                #[trigger] actions[j],
                e.1.device_id@,
                "COMMAND_REJECTED"@,
                "WARN"@,
            ),
        TickVerdict::CompleteTimeout => exists|j: int|
            0 <= j < actions.len() && is_device_fault(
                #[trigger] actions[j],
                e.1.device_id@,
                "COMMAND_COMPLETE_TIMEOUT"@,
                "WARN"@,
            ),
        TickVerdict::AckTimeoutFinal => exists|j: int|
            0 <= j < actions.len() && is_device_fault(
                #[trigger] actions[j],
                e.1.device_id@,
                "COMMAND_ACK_TIMEOUT"@,
                "WARN"@,
            ),
        TickVerdict::Retry => exists|j: int|
            0 <= j < actions.len() && (#[trigger] actions[j]
                matches Action::PublishCommand { device_id, envelope } && device_id@
                == e.1.device_id@ && spec_envelope_like(envelope, e.1.cmd)),
        _ => true,
    }
}

/// An emission stays satisfied when the action list grows at the end.
pub proof fn lemma_tick_emits_extend(
    e: (u128, PendingCommand),
    a0: Seq<Action>,
    a1: Seq<Action>,
    now: u64,
)
    requires
        spec_tick_emits(e, a0, now),
        a0.len() <= a1.len(),
        forall|j: int| 0 <= j < a0.len() ==> a1[j] == a0[j],
    ensures
        spec_tick_emits(e, a1, now),
{
    match spec_tick_verdict(e.1, now) {
        TickVerdict::Rejected => {
            let j = choose|j: int|
                0 <= j < a0.len() && is_device_fault(
                    #[trigger] a0[j],
                    e.1.device_id@,
                    "COMMAND_REJECTED"@,
                    "WARN"@,
                );
            assert(is_device_fault(a1[j], e.1.device_id@, "COMMAND_REJECTED"@, "WARN"@));
        }
        TickVerdict::CompleteTimeout => {
            let j = choose|j: int|
                0 <= j < a0.len() && is_device_fault(
                    #[trigger] a0[j],
                    e.1.device_id@,
                    "COMMAND_COMPLETE_TIMEOUT"@,
                    "WARN"@,
                );
            assert(is_device_fault(a1[j], e.1.device_id@, "COMMAND_COMPLETE_TIMEOUT"@, "WARN"@));
        }
        TickVerdict::AckTimeoutFinal => {
            let j = choose|j: int|
                0 <= j < a0.len() && is_device_fault(
                    #[trigger] a0[j],
                    e.1.device_id@,
                    "COMMAND_ACK_TIMEOUT"@,
                    "WARN"@,
                );
            assert(is_device_fault(a1[j], e.1.device_id@, "COMMAND_ACK_TIMEOUT"@, "WARN"@));
        }
        TickVerdict::Retry => {
            let j = choose|j: int|
                0 <= j < a0.len() && (#[trigger] a0[j]
                    matches Action::PublishCommand { device_id, envelope } && device_id@
                    == e.1.device_id@ && spec_envelope_like(envelope, e.1.cmd));
            assert(a1[j] matches Action::PublishCommand { device_id, envelope } && device_id@
                == e.1.device_id@ && spec_envelope_like(envelope, e.1.cmd));
        }
        _ => {}
    }
}

impl Coordinator {
    /// Drive every pending command one step: resolve terminal outcomes
    /// (rejection, completion, timeouts), republish unacked commands with
    /// retries left, and keep the rest. A command that was ACCEPTED is
    /// never republished: a duplicate would mean a second physical
    /// action. The recently-completed table is swept by its TTL and
    /// terminal outcomes mark their correlation id done, so the table
    /// keeps deduplicating without growing. While dispatch is paused
    /// nothing moves.
    pub fn tick_pending_commands(&mut self, now: u64) -> (actions: Vec<Action>)
        requires
            old(self).wf(),
        ensures
            final(self).wf(),
            final(self).config == old(self).config,
            final(self).runtime == old(self).runtime,
            final(self).devices == old(self).devices,
            final(self).device_sequences == old(self).device_sequences,
            final(self).graph == old(self).graph,
            old(self).runtime.spec_is_paused() ==> *final(self) == *old(self) && actions@.len()
                == 0,
            !old(self).runtime.spec_is_paused() ==> {
                &&& forall|cid: u128| final(self).pending.spec_get(cid) == match old(self).pending.spec_get(cid) {
                    Some(p) => spec_tick_map(p, now),
                    None => None::<PendingCommand>,
                }
                &&& forall|corr: u128| final(self).dispatch_tracker.inflight.spec_get(corr)
                    == if spec_removed_corr(old(self).pending.entries(), corr, now) {
                    None::<u128>
                } else {
                    old(self).dispatch_tracker.inflight.spec_get(corr)
                }
                &&& forall|corr: u128| final(self).dispatch_tracker.recent.spec_get(corr)
                    == if spec_removed_corr(old(self).pending.entries(), corr, now) {
                    Some(now)
                } else {
                    match old(self).dispatch_tracker.recent.spec_get(corr) {
                        Some(t) => if spec_elapsed(now, t) <= RECENT_TTL_MS {
                            Some(t)
                        } else {
                            None::<u64>
                        },
                        None => None::<u64>,
                    }
                }
                &&& forall|j: int| 0 <= j < actions@.len() ==> spec_tick_action_ok(
                    actions@[j],
                    old(self).pending.entries(),
                    now,
                )
                &&& forall|i: int| 0 <= i < old(self).pending.entries().len()
                    ==> spec_tick_emits(#[trigger] old(self).pending.entries()[i], actions@, now)
            },
    {
        let mut actions: Vec<Action> = Vec::new();
        if self.runtime.dispatch_is_paused() {
            return actions;
        }
        self.dispatch_tracker.sweep_recent(now, RECENT_TTL_MS);
        let ghost swept_recent = self.dispatch_tracker.recent;
        let ghost oe = self.pending.entries();
        let total: usize = self.pending.len();
        let mut i: usize = 0;
        let mut k: usize = 0;
        let ghost n = oe.len();
        proof {
            assert(oe.take(0) =~= Seq::<(u128, PendingCommand)>::empty());
            assert(self.pending.entries().skip(0) =~= oe.skip(0));
            assert(oe.skip(0) =~= oe);
        }
        while i < self.pending.len()
            invariant
                self.wf(),
                self.config == old(self).config,
                self.runtime == old(self).runtime,
                self.devices == old(self).devices,
                self.device_sequences == old(self).device_sequences,
                self.graph == old(self).graph,
                !old(self).runtime.spec_is_paused(),
                oe == old(self).pending.entries(),
                crate::maps::keys_unique(oe),
                n == oe.len(),
                n == total,
                k <= n,
                i <= k,
                i <= self.pending.spec_len(),
                self.pending.entries().skip(i as int) == oe.skip(k as int),
                self.pending.spec_len() == n - (k - i),
                forall|cid: u128| self.pending.spec_get(cid) == match crate::maps::seq_get(
                    oe.take(k as int),
                    cid,
                ) {
                    Some(p) => spec_tick_map(p, now),
                    None => crate::maps::seq_get(oe, cid),
                },
                forall|corr: u128| self.dispatch_tracker.inflight.spec_get(corr)
                    == if spec_removed_corr(oe.take(k as int), corr, now) {
                    None::<u128>
                } else {
                    old(self).dispatch_tracker.inflight.spec_get(corr)
                },
                forall|corr: u128| self.dispatch_tracker.recent.spec_get(corr)
                    == if spec_removed_corr(oe.take(k as int), corr, now) {
                    Some(now)
                } else {
                    swept_recent.spec_get(corr)
                },
                forall|corr: u128| swept_recent.spec_get(corr) == match old(self).dispatch_tracker.recent.spec_get(corr) {
                    Some(t) => if spec_elapsed(now, t) <= RECENT_TTL_MS {
                        Some(t)
                    } else {
                        None::<u64>
                    },
                    None => None::<u64>,
                },
                forall|j: int| 0 <= j < actions@.len() ==> spec_tick_action_ok(
                    actions@[j],
                    oe,
                    now,
                ),
                forall|i2: int| 0 <= i2 < k ==> spec_tick_emits(#[trigger] oe[i2], actions@, now),
            decreases self.pending.spec_len() - i,
        {
            let ghost cur = self.pending.entries();
            let ghost a0 = actions@;
            proof {
                assert(cur.skip(i as int)[0] == cur[i as int]);
                assert(oe.skip(k as int)[0] == oe[k as int]);
                assert(cur[i as int] == oe[k as int]);
                assert(oe.take(k + 1) =~= oe.take(k as int).push(oe[k as int]));
                // this key was not processed before: old keys are unique
                assert forall|j: int| 0 <= j < k implies oe.take(k as int)[j].0 != oe[
                    k as int].0 by {
                    assert(oe.take(k as int)[j] == oe[j]);
                }
                crate::maps::lemma_seq_get_absent(oe.take(k as int), oe[k as int].0, oe[k as int].0);
                crate::maps::lemma_seq_get_found(oe, oe[k as int].0, k as int);
                assert(cur.skip(i as int).drop_first() =~= cur.skip(i + 1));
                assert(oe.skip(k as int).drop_first() =~= oe.skip(k + 1));
                assert(cur.skip(i + 1) == oe.skip(k + 1));
                assert(cur.remove(i as int).skip(i as int) =~= cur.skip(i + 1));
            }
            let ghost this_pair = oe[k as int];
            // decide the verdict from the stored entry
            let (rejected, completed, accepted) = {
                let p = self.pending.val_at(i);
                (p.rejected, p.completed, p.accepted)
            };
            if rejected {
                let ghost before = self.pending;
                let (cid, p) = self.pending.remove_at_take(i);
                let fault = core_fault(
                    &self.config.room_id,
                    "COMMAND_REJECTED",
                    "WARN",
                    "Device rejected command",
                    now,
                    device_details(&p.device_id),
                );
                actions.push(Action::PublishDeviceFault { device_id: p.device_id, fault });
                self.dispatch_tracker.mark_done(p.cmd.correlation_id, now);
                proof {
                    assert(spec_verdict_terminal(spec_tick_verdict(this_pair.1, now)));
                    assert forall|c2: u128| true implies self.pending.spec_get(c2) == (if c2 == this_pair.0 {
                        None::<PendingCommand>
                    } else {
                        before.spec_get(c2)
                    }) by {
                        crate::maps::lemma_seq_get_remove(before.entries(), i as int, c2);
                    }
                    assert(self.pending.entries().skip(i as int) =~= oe.skip(k + 1));
                    lemma_tick_prefix_step(oe, k as int, now);
                    assert(forall|j2: int| 0 <= j2 < a0.len() ==> actions@[j2] == a0[j2]);
                    assert forall|i2: int| 0 <= i2 < k implies spec_tick_emits(
                        #[trigger] oe[i2],
                        actions@,
                        now,
                    ) by {
                        lemma_tick_emits_extend(oe[i2], a0, actions@, now);
                    }
                    assert(is_device_fault(actions@[a0.len() as int], oe[k as int].1.device_id@, "COMMAND_REJECTED"@, "WARN"@));
                    assert(spec_tick_emits(oe[k as int], actions@, now));
                }
            } else if completed {
                let ghost before = self.pending;
                let (cid, p) = self.pending.remove_at_take(i);
                self.dispatch_tracker.mark_done(p.cmd.correlation_id, now);
                proof {
                    assert(spec_verdict_terminal(spec_tick_verdict(this_pair.1, now)));
                    assert forall|c2: u128| true implies self.pending.spec_get(c2) == (if c2 == this_pair.0 {
                        None::<PendingCommand>
                    } else {
                        before.spec_get(c2)
                    }) by {
                        crate::maps::lemma_seq_get_remove(before.entries(), i as int, c2);
                    }
                    assert(self.pending.entries().skip(i as int) =~= oe.skip(k + 1));
                    lemma_tick_prefix_step(oe, k as int, now);
                    assert(forall|j2: int| 0 <= j2 < a0.len() ==> actions@[j2] == a0[j2]);
                    assert forall|i2: int| 0 <= i2 < k implies spec_tick_emits(
                        #[trigger] oe[i2],
                        actions@,
                        now,
                    ) by {
                        lemma_tick_emits_extend(oe[i2], a0, actions@, now);
                    }
                    assert(spec_tick_emits(oe[k as int], actions@, now));
                }
            } else if accepted {
                let timed_out = {
                    let p = self.pending.val_at(i);
                    match p.accepted_at_unix_ms {
                        Some(at) => {
                            let elapsed: u64 = if now >= at {
                                now - at
                            } else {
                                0
                            };
                            elapsed > p.complete_timeout_ms
                        }
                        None => false,
                    }
                };
                if timed_out {
                    let ghost before = self.pending;
                    let (cid, p) = self.pending.remove_at_take(i);
                    let fault = core_fault(
                        &self.config.room_id,
                        "COMMAND_COMPLETE_TIMEOUT",
                        "WARN",
                        "Command completion timeout after ACCEPTED",
                        now,
                        device_details(&p.device_id),
                    );
                    actions.push(Action::PublishDeviceFault { device_id: p.device_id, fault });
                    self.dispatch_tracker.mark_done(p.cmd.correlation_id, now);
                    proof {
                        assert(spec_verdict_terminal(spec_tick_verdict(this_pair.1, now)));
                        assert forall|c2: u128| true implies self.pending.spec_get(c2) == (if c2 == this_pair.0 {
                            None::<PendingCommand>
                        } else {
                            before.spec_get(c2)
                        }) by {
                            crate::maps::lemma_seq_get_remove(before.entries(), i as int, c2);
                        }
                        assert(self.pending.entries().skip(i as int) =~= oe.skip(k + 1));
                        lemma_tick_prefix_step(oe, k as int, now);
                        assert(forall|j2: int| 0 <= j2 < a0.len() ==> actions@[j2] == a0[j2]);
                        assert forall|i2: int| 0 <= i2 < k implies spec_tick_emits(
                            #[trigger] oe[i2],
                            actions@,
                            now,
                        ) by {
                            lemma_tick_emits_extend(oe[i2], a0, actions@, now);
                        }
                        assert(is_device_fault(actions@[a0.len() as int], oe[k as int].1.device_id@, "COMMAND_COMPLETE_TIMEOUT"@, "WARN"@));
                        assert(spec_tick_emits(oe[k as int], actions@, now));
                    }
                } else {
                    i = i + 1;
                    proof {
                        assert(self.pending.entries().skip(i as int) =~= oe.skip(k + 1));
                        lemma_tick_prefix_step(oe, k as int, now);
                        assert(forall|j2: int| 0 <= j2 < a0.len() ==> actions@[j2] == a0[j2]);
                        assert forall|i2: int| 0 <= i2 < k implies spec_tick_emits(
                            #[trigger] oe[i2],
                            actions@,
                            now,
                        ) by {
                            lemma_tick_emits_extend(oe[i2], a0, actions@, now);
                        }
                        assert(spec_tick_emits(oe[k as int], actions@, now));
                    }
                }
            } else {
                let overdue = {
                    let p = self.pending.val_at(i);
                    let elapsed: u64 = if now >= p.published_at_unix_ms {
                        now - p.published_at_unix_ms
                    } else {
                        0
                    };
                    elapsed > p.ack_timeout_ms
                };
                let retries_left = {
                    let p = self.pending.val_at(i);
                    p.retries_left
                };
                if overdue && retries_left == 0 {
                    let ghost before = self.pending;
                    let (cid, p) = self.pending.remove_at_take(i);
                    let fault = core_fault(
                        &self.config.room_id,
                        "COMMAND_ACK_TIMEOUT",
                        "WARN",
                        "Command ack timeout, retries exhausted",
                        now,
                        device_details(&p.device_id),
                    );
                    actions.push(Action::PublishDeviceFault { device_id: p.device_id, fault });
                    self.dispatch_tracker.mark_done(p.cmd.correlation_id, now);
                    proof {
                        assert(spec_verdict_terminal(spec_tick_verdict(this_pair.1, now)));
                        assert forall|c2: u128| true implies self.pending.spec_get(c2) == (if c2 == this_pair.0 {
                            None::<PendingCommand>
                        } else {
                            before.spec_get(c2)
                        }) by {
                            crate::maps::lemma_seq_get_remove(before.entries(), i as int, c2);
                        }
                        assert(self.pending.entries().skip(i as int) =~= oe.skip(k + 1));
                        lemma_tick_prefix_step(oe, k as int, now);
                        assert(forall|j2: int| 0 <= j2 < a0.len() ==> actions@[j2] == a0[j2]);
                        assert forall|i2: int| 0 <= i2 < k implies spec_tick_emits(
                            #[trigger] oe[i2],
                            actions@,
                            now,
                        ) by {
                            lemma_tick_emits_extend(oe[i2], a0, actions@, now);
                        }
                        assert(is_device_fault(actions@[a0.len() as int], oe[k as int].1.device_id@, "COMMAND_ACK_TIMEOUT"@, "WARN"@));
                        assert(spec_tick_emits(oe[k as int], actions@, now));
                    }
                } else if overdue {
                    let ghost before = self.pending;
                    let (cid, mut p) = self.pending.remove_at_take(i);
                    proof {
                        assert forall|c2: u128| true implies self.pending.spec_get(c2) == (if c2
                            == cid {
                            None::<PendingCommand>
                        } else {
                            before.spec_get(c2)
                        }) by {
                            crate::maps::lemma_seq_get_remove(before.entries(), i as int, c2);
                        }
                    }
                    p.retries_left = p.retries_left - 1;
                    p.published_at_unix_ms = now;
                    let env = clone_envelope(&p.cmd);
                    actions.push(
                        Action::PublishCommand { device_id: p.device_id.clone(), envelope: env },
                    );
                    self.pending.insert_at(i, cid, p);
                    i = i + 1;
                    proof {
                        assert(self.pending.entries().skip(i as int) =~= oe.skip(k + 1));
                        lemma_tick_prefix_step(oe, k as int, now);
                        assert(forall|j2: int| 0 <= j2 < a0.len() ==> actions@[j2] == a0[j2]);
                        assert forall|i2: int| 0 <= i2 < k implies spec_tick_emits(
                            #[trigger] oe[i2],
                            actions@,
                            now,
                        ) by {
                            lemma_tick_emits_extend(oe[i2], a0, actions@, now);
                        }
                        assert(actions@[a0.len() as int] matches Action::PublishCommand { device_id, envelope }
                            && device_id@ == oe[k as int].1.device_id@
                            && spec_envelope_like(envelope, oe[k as int].1.cmd));
                        assert(spec_tick_emits(oe[k as int], actions@, now));
                        assert(spec_tick_verdict(this_pair.1, now) == TickVerdict::Retry);
                    }
                } else {
                    i = i + 1;
                    proof {
                        assert(self.pending.entries().skip(i as int) =~= oe.skip(k + 1));
                        lemma_tick_prefix_step(oe, k as int, now);
                        assert(forall|j2: int| 0 <= j2 < a0.len() ==> actions@[j2] == a0[j2]);
                        assert forall|i2: int| 0 <= i2 < k implies spec_tick_emits(
                            #[trigger] oe[i2],
                            actions@,
                            now,
                        ) by {
                            lemma_tick_emits_extend(oe[i2], a0, actions@, now);
                        }
                        assert(spec_tick_emits(oe[k as int], actions@, now));
                    }
                }
            }
            k = k + 1;
        }
        proof {
            assert(oe.take(n as int) =~= oe);
            assert(k == n) by {
                assert(self.pending.entries().skip(i as int) =~= oe.skip(k as int));
            }
        }
        actions
    }
}

/// Extending the processed prefix by one entry changes the removed-set
/// only for that entry's correlation id, and the lookup only for its key.
pub proof fn lemma_tick_prefix_step(oe: Seq<(u128, PendingCommand)>, k: int, now: u64)
    requires
        0 <= k < oe.len(),
    ensures
        forall|corr: u128| #[trigger] spec_removed_corr(oe.take(k + 1), corr, now)
            == (spec_removed_corr(oe.take(k), corr, now) || (spec_verdict_terminal(
            spec_tick_verdict(oe[k].1, now),
        ) && oe[k].1.cmd.correlation_id == corr)),
        forall|cid: u128| #[trigger] crate::maps::seq_get(oe.take(k + 1), cid) == match
            crate::maps::seq_get(oe.take(k), cid) {
            Some(p) => Some(p),
            None => if oe[k].0 == cid {
                Some(oe[k].1)
            } else {
                None::<PendingCommand>
            },
        },
{
    assert(oe.take(k + 1) =~= oe.take(k).push(oe[k]));
    assert forall|corr: u128| spec_removed_corr(oe.take(k + 1), corr, now) == (spec_removed_corr(
        oe.take(k),
        corr,
        now,
    ) || (spec_verdict_terminal(spec_tick_verdict(oe[k].1, now)) && oe[k].1.cmd.correlation_id
        == corr)) by {
        let t1 = oe.take(k + 1);
        let t0 = oe.take(k);
        if spec_removed_corr(t1, corr, now) {
            let i = choose|i: int|
                0 <= i < t1.len() && spec_verdict_terminal(
                    spec_tick_verdict(#[trigger] t1[i].1, now),
                ) && t1[i].1.cmd.correlation_id == corr;
            if i < k {
                assert(t0[i] == t1[i]);
                assert(spec_removed_corr(t0, corr, now));
            } else {
                assert(t1[i] == oe[k]);
            }
        }
        if spec_removed_corr(t0, corr, now) {
            let i = choose|i: int|
                0 <= i < t0.len() && spec_verdict_terminal(
                    spec_tick_verdict(#[trigger] t0[i].1, now),
                ) && t0[i].1.cmd.correlation_id == corr;
            assert(t1[i] == t0[i]);
            assert(spec_removed_corr(t1, corr, now));
        }
        if spec_verdict_terminal(spec_tick_verdict(oe[k].1, now)) && oe[k].1.cmd.correlation_id
            == corr {
            assert(t1[k] == oe[k]);
            assert(spec_removed_corr(t1, corr, now));
        }
    }
    assert forall|cid: u128| true implies #[trigger] crate::maps::seq_get(oe.take(k + 1), cid)
        == (match crate::maps::seq_get(oe.take(k), cid) {
        Some(p) => Some(p),
        None => if oe[k].0 == cid {
            Some(oe[k].1)
        } else {
            None::<PendingCommand>
        },
    }) by {
        crate::maps::lemma_seq_get_snoc(oe.take(k), oe[k], cid);
    }
}


/// What a control request came to.
#[derive(Clone, Copy, Debug, PartialEq, Eq, Structural)]
pub enum ControlOutcome {
    /// Wrong schema or room id: dropped without a fault.
    IgnoredWrongScope,
    /// Shared-secret token missing or mismatched.
    Unauthorized,
    Paused,
    Resumed,
    /// Reset requested while no latch is active: dropped.
    ResetNoLatch,
    /// Reset refused: some device is offline, unreported, or not SAFE.
    ResetDenied,
    ResetDone,
    /// Start refused: dispatch paused or no graph loaded.
    GraphStartDenied,
    /// Start while already running: dropped.
    GraphStartIgnored,
    GraphStarted,
    /// Stop while not running: dropped.
    GraphStopIgnored,
    GraphStopped,
    /// Reload refused: graph running or dispatch not paused.
    GraphReloadDenied,
    /// Reload refused: the event store is disabled.
    GraphReloadUnavailable,
    /// Reload admitted: the caller loads the graph and hands it to
    /// `apply_graph_reload`.
    GraphReloadRequested,
    UnknownOp,
}

/// Whether the request carries the configured shared-secret token.
pub open spec fn spec_token_ok(token: Option<String>, params: crate::json::JsonValue) -> bool {
    match token {
        None => true,
        Some(t) => crate::json::obj_get_m(jv(params), "token"@) matches Some(pv) && pv
            == crate::json::Jv::Str(t@),
    }
}

/// A device that blocks a safety reset: offline, never reported, or not
/// reporting SAFE and unlatched.
pub open spec fn spec_device_blocks_reset(st: DeviceStatus) -> bool {
    st.is_offline || match st.last_reported_safety {
        None => true,
        Some(s) => s.latched || s.kind != SafetyStateKind::Safe,
    }
}

/// The member the reset-denial document carries for a device: present
/// exactly for the devices that block the reset, in table order.
pub open spec fn spec_blocker_lookup(
    entries: Seq<(Seq<char>, DeviceStatus)>,
    k: Seq<char>,
) -> Option<crate::json::Jv>
    decreases entries.len(),
{
    if entries.len() == 0 {
        None
    } else if entries[0].0 == k {
        if spec_device_blocks_reset(entries[0].1) {
            Some(crate::json::Jv::Bool(true))
        } else {
            None
        }
    } else {
        spec_blocker_lookup(entries.drop_first(), k)
    }
}

/// A key no device carries is absent from the blocker document.
pub proof fn lemma_blocker_lookup_absent(
    entries: Seq<(Seq<char>, DeviceStatus)>,
    k: Seq<char>,
)
    requires
        forall|j: int| 0 <= j < entries.len() ==> (#[trigger] entries[j]).0 != k,
    ensures
        spec_blocker_lookup(entries, k) == None::<crate::json::Jv>,
    decreases entries.len(),
{
    if entries.len() > 0 {
        assert(forall|j: int|
            0 <= j < entries.drop_first().len() ==> (#[trigger] entries.drop_first()[j]).0 != k);
        lemma_blocker_lookup_absent(entries.drop_first(), k);
    }
}

/// Extending the scanned prefix by one device changes the lookup only
/// for that device's key.
pub proof fn lemma_blocker_lookup_snoc(
    entries: Seq<(Seq<char>, DeviceStatus)>,
    x: (Seq<char>, DeviceStatus),
    k: Seq<char>,
)
    ensures
        spec_blocker_lookup(entries.push(x), k) == (if crate::maps::seq_get(entries, k)
            is Some {
            spec_blocker_lookup(entries, k)
        } else if x.0 == k {
            if spec_device_blocks_reset(x.1) {
                Some(crate::json::Jv::Bool(true))
            } else {
                None::<crate::json::Jv>
            }
        } else {
            None::<crate::json::Jv>
        }),
    decreases entries.len(),
{
    if entries.len() == 0 {
        assert(entries.push(x)[0] == x);
        assert(entries.push(x).drop_first() =~= entries);
    } else {
        assert(entries.push(x)[0] == entries[0]);
        assert(entries.push(x).drop_first() =~= entries.drop_first().push(x));
        lemma_blocker_lookup_snoc(entries.drop_first(), x, k);
        if entries[0].0 == k {
        } else if crate::maps::seq_get(entries.drop_first(), k) is Some {
        }
    }
}

pub open spec fn spec_reset_blocked(devices: StrMap<DeviceStatus>) -> bool {
    exists|i: int|
        0 <= i < devices.entries().len() && spec_device_blocks_reset(
            #[trigger] devices.entries()[i].1,
        )
}

/// The outcome an authorized control request is owed, matched against
/// the ops in order: pause, resume, safety reset (no-latch, denied, or
/// done), graph start (denied, ignored, or started), stop (stopped or
/// ignored), reload (denied, unavailable, or admitted), else unknown.
pub open spec fn spec_control_outcome(c: Coordinator, op: Seq<char>) -> ControlOutcome {
    if op == crate::protocol::CORE_CONTROL_OP_PAUSE_DISPATCH@ {
        ControlOutcome::Paused
    } else if op == crate::protocol::CORE_CONTROL_OP_RESUME_DISPATCH@ {
        ControlOutcome::Resumed
    } else if op == crate::protocol::CORE_CONTROL_OP_RESET_SAFETY_LATCH@ {
        if c.runtime.safety_latched_since_unix_ms is None {
            ControlOutcome::ResetNoLatch
        } else if spec_reset_blocked(c.devices) {
            ControlOutcome::ResetDenied
        } else {
            ControlOutcome::ResetDone
        }
    } else if op == crate::protocol::CORE_CONTROL_OP_START_GRAPH@ {
        if c.runtime.spec_is_paused() || c.graph.graph is None {
            ControlOutcome::GraphStartDenied
        } else if c.graph.spec_is_running() {
            ControlOutcome::GraphStartIgnored
        } else {
            ControlOutcome::GraphStarted
        }
    } else if op == crate::protocol::CORE_CONTROL_OP_STOP_GRAPH@ {
        if c.graph.spec_is_running() {
            ControlOutcome::GraphStopped
        } else {
            ControlOutcome::GraphStopIgnored
        }
    } else if op == crate::protocol::CORE_CONTROL_OP_RELOAD_GRAPH@ {
        if c.graph.spec_is_running() || !c.runtime.spec_is_paused() {
            ControlOutcome::GraphReloadDenied
        } else if !c.config.event_store_enabled {
            ControlOutcome::GraphReloadUnavailable
        } else {
            ControlOutcome::GraphReloadRequested
        }
    } else {
        ControlOutcome::UnknownOp
    }
}

impl Coordinator {
    /// Apply one operator control request: pause/resume dispatch, reset
    /// the safety latch under the reset interlocks, and start, stop or
    /// reload the graph. The safety latch is cleared here and nowhere
    /// else, and only when every known device is online and reports SAFE
    /// and unlatched.
    pub fn handle_core_control(&mut self, req: &crate::protocol::CoreControlRequest, now: u64) -> (r: (ControlOutcome, Vec<Action>))
        requires
            old(self).wf(),
        ensures
            final(self).wf(),
            spec_control_post(*old(self), *final(self), *req, now, r.0, r.1@),
    {
        let mut actions: Vec<Action> = Vec::new();
        if !crate::json::str_eq(req.schema.as_str(), SCHEMA_VERSION) || !(req.room_id
            == self.config.room_id) {
            return (ControlOutcome::IgnoredWrongScope, actions);
        }

        let token_ok = match &self.config.core_control_token {
            None => true,
            Some(expected) => match crate::json::json_obj_get(&req.parameters, "token") {
                Some(v) => match v {
                    crate::json::JsonValue::Str(s) => crate::json::str_eq(
                        s.as_str(),
                        expected.as_str(),
                    ),
                    _ => false,
                },
                None => false,
            },
        };
        if !token_ok {
            let fault = core_fault(
                &self.config.room_id,
                "CONTROL_UNAUTHORIZED",
                "WARN",
                "Core control request denied (token mismatch)",
                now,
                crate::json::JsonValue::Null,
            );
            actions.push(Action::PublishCoreFault { fault });
            return (ControlOutcome::Unauthorized, actions);
        }

        if crate::json::str_eq(req.op.as_str(), crate::protocol::CORE_CONTROL_OP_PAUSE_DISPATCH) {
            self.runtime.manual_pause = true;
            self.runtime.recompute_dispatch_pause_reason();
            let fault = core_fault(
                &self.config.room_id,
                "DISPATCH_PAUSED",
                "WARN",
                "Dispatch paused by operator",
                now,
                crate::json::JsonValue::Null,
            );
            actions.push(Action::PublishCoreFault { fault });
            return (ControlOutcome::Paused, actions);
        }
        if crate::json::str_eq(req.op.as_str(), crate::protocol::CORE_CONTROL_OP_RESUME_DISPATCH) {
            self.runtime.broker_outage_since_unix_ms = None;
            self.runtime.manual_pause = false;
            self.runtime.recompute_dispatch_pause_reason();
            let fault = core_fault(
                &self.config.room_id,
                "DISPATCH_RESUMED",
                "INFO",
                "Dispatch resumed by operator",
                now,
                crate::json::JsonValue::Null,
            );
            actions.push(Action::PublishCoreFault { fault });
            return (ControlOutcome::Resumed, actions);
        }
        if crate::json::str_eq(
            req.op.as_str(),
            crate::protocol::CORE_CONTROL_OP_RESET_SAFETY_LATCH,
        ) {
            if self.runtime.safety_latched_since_unix_ms.is_none() {
                return (ControlOutcome::ResetNoLatch, actions);
            }
            let mut blockers: Vec<(String, JsonValue)> = Vec::new();
            let ghost entries = self.devices.entries();
            let n: usize = self.devices.len();
            let mut i: usize = 0;
            let mut any_blocked = false;
            proof {
                assert(entries.take(0) =~= Seq::<(Seq<char>, DeviceStatus)>::empty());
                assert(crate::json::jv_pairs(blockers@) =~= Seq::<(
                    Seq<char>,
                    crate::json::Jv,
                )>::empty());
            }
            while i < n
                invariant
                    i <= n,
                    n == entries.len(),
                    entries == self.devices.entries(),
                    crate::maps::keys_unique(entries),
                    any_blocked == exists|j: int|
                        0 <= j < i && spec_device_blocks_reset(#[trigger] entries[j].1),
                    forall|k: Seq<char>|
                        #![trigger crate::maps::seq_get(crate::json::jv_pairs(blockers@), k)]
                        #![trigger spec_blocker_lookup(entries.take(i as int), k)]
                        crate::maps::seq_get(crate::json::jv_pairs(blockers@), k)
                            == spec_blocker_lookup(entries.take(i as int), k),
                decreases n - i,
            {
                let ghost pre_vec = blockers@;
                let ghost pre_pairs = crate::json::jv_pairs(blockers@);
                proof {
                    assert(forall|k: Seq<char>|
                        #![trigger crate::maps::seq_get(crate::json::jv_pairs(blockers@), k)]
                        crate::maps::seq_get(crate::json::jv_pairs(blockers@), k)
                            == spec_blocker_lookup(entries.take(i as int), k));
                    assert(entries.take(i + 1) =~= entries.take(i as int).push(
                        entries[i as int],
                    ));
                    assert forall|j: int| 0 <= j < i implies entries.take(i as int)[j].0
                        != entries[i as int].0 by {
                        assert(entries.take(i as int)[j] == entries[j]);
                    }
                    crate::maps::lemma_seq_get_absent(
                        entries.take(i as int),
                        entries[i as int].0,
                        entries[i as int].0,
                    );
                }
                let st = self.devices.val_at(i);
                let blocked = if st.is_offline {
                    true
                } else {
                    match &st.last_reported_safety {
                        None => true,
                        Some(s) => s.latched || !(s.kind == SafetyStateKind::Safe),
                    }
                };
                if blocked {
                    let dev = self.devices.key_at(i);
                    blockers.push((dev.clone(), crate::json::JsonValue::Bool(true)));
                    any_blocked = true;
                    proof {
                        assert(spec_device_blocks_reset(entries[i as int].1));
                        assert(blockers@ == pre_vec.push(blockers@.last()));
                        assert(blockers@.last().0@ == entries[i as int].0);
                        assert(crate::json::jv(blockers@.last().1) == crate::json::Jv::Bool(
                            true,
                        ));
                        crate::json::lemma_jv_pairs_snoc(pre_vec, blockers@.last());
                        assert(crate::json::jv_pairs(blockers@) =~= pre_pairs.push((
                            entries[i as int].0,
                            crate::json::Jv::Bool(true),
                        )));
                        assert forall|k: Seq<char>| true implies #[trigger] crate::maps::seq_get(
                            crate::json::jv_pairs(blockers@),
                            k,
                        ) == spec_blocker_lookup(entries.take(i + 1), k) by {
                            assert(crate::maps::seq_get(pre_pairs, k) == spec_blocker_lookup(
                                entries.take(i as int),
                                k,
                            ));
                            crate::maps::lemma_seq_get_snoc(
                                pre_pairs,
                                (entries[i as int].0, crate::json::Jv::Bool(true)),
                                k,
                            );
                            lemma_blocker_lookup_snoc(
                                entries.take(i as int),
                                entries[i as int],
                                k,
                            );
                            assert(entries.take(i + 1) == entries.take(i as int).push(
                                entries[i as int],
                            ));
                            if k == entries[i as int].0 {
                                lemma_blocker_lookup_absent(entries.take(i as int), k);
                                assert(crate::maps::seq_get(pre_pairs, k) == None::<
                                    crate::json::Jv,
                                >);
                                assert(crate::maps::seq_get(
                                    crate::json::jv_pairs(blockers@),
                                    k,
                                ) == Some(crate::json::Jv::Bool(true)));
                                assert(spec_blocker_lookup(entries.take(i + 1), k) == Some(
                                    crate::json::Jv::Bool(true),
                                ));
                            } else {
                                assert(crate::maps::seq_get(
                                    crate::json::jv_pairs(blockers@),
                                    k,
                                ) == crate::maps::seq_get(pre_pairs, k));
                                if crate::maps::seq_get(entries.take(i as int), k)
                                    is None {
                                    crate::maps::lemma_seq_get_none_no_key(
                                        entries.take(i as int),
                                        k,
                                    );
                                    lemma_blocker_lookup_absent(entries.take(i as int), k);
                                }
                                assert(spec_blocker_lookup(entries.take(i + 1), k)
                                    == spec_blocker_lookup(entries.take(i as int), k));
                            }
                        }
                    }
                } else {
                    proof {
                        assert(!spec_device_blocks_reset(entries[i as int].1));
                        assert forall|k: Seq<char>| true implies #[trigger] crate::maps::seq_get(
                            crate::json::jv_pairs(blockers@),
                            k,
                        ) == spec_blocker_lookup(entries.take(i + 1), k) by {
                            assert(crate::maps::seq_get(
                                crate::json::jv_pairs(blockers@),
                                k,
                            ) == spec_blocker_lookup(entries.take(i as int), k));
                            lemma_blocker_lookup_snoc(
                                entries.take(i as int),
                                entries[i as int],
                                k,
                            );
                            assert(entries.take(i + 1) == entries.take(i as int).push(
                                entries[i as int],
                            ));
                            if k == entries[i as int].0 {
                                lemma_blocker_lookup_absent(entries.take(i as int), k);
                                assert(spec_blocker_lookup(entries.take(i as int), k)
                                    == None::<crate::json::Jv>);
                                assert(spec_blocker_lookup(entries.take(i + 1), k) == None::<
                                    crate::json::Jv,
                                >);
                            } else {
                                if crate::maps::seq_get(entries.take(i as int), k)
                                    is None {
                                    crate::maps::lemma_seq_get_none_no_key(
                                        entries.take(i as int),
                                        k,
                                    );
                                    lemma_blocker_lookup_absent(entries.take(i as int), k);
                                }
                                assert(spec_blocker_lookup(entries.take(i + 1), k)
                                    == spec_blocker_lookup(entries.take(i as int), k));
                            }
                        }
                    }
                }
                i = i + 1;
            }
            proof {
                assert(entries.take(n as int) =~= entries);
            }
            if any_blocked {
                let ghost final_pairs = crate::json::jv_pairs(blockers@);
                let details = crate::json::JsonValue::Obj(blockers);
                proof {
                    assert(crate::json::jv(details) == crate::json::Jv::Obj(final_pairs));
                }
                let fault = core_fault(
                    &self.config.room_id,
                    "SAFETY_RESET_DENIED",
                    "WARN",
                    "Safety reset denied: devices not SAFE or offline",
                    now,
                    details,
                );
                actions.push(Action::PublishCoreFault { fault });
                return (ControlOutcome::ResetDenied, actions);
            }
            proof {
                assert(!spec_reset_blocked(old(self).devices));
            }
            self.runtime.safety_latched_since_unix_ms = None;
            self.runtime.recompute_dispatch_pause_reason();
            self.runtime.room_safety = crate::safety::compute_room_safety(&self.devices, false);
            let fault = core_fault(
                &self.config.room_id,
                "SAFETY_LATCH_RESET",
                "INFO",
                "Safety latch reset by operator",
                now,
                crate::json::JsonValue::Null,
            );
            actions.push(Action::PublishCoreFault { fault });
            return (ControlOutcome::ResetDone, actions);
        }
        if crate::json::str_eq(req.op.as_str(), crate::protocol::CORE_CONTROL_OP_START_GRAPH) {
            if self.runtime.dispatch_is_paused() {
                let fault = core_fault(
                    &self.config.room_id,
                    "GRAPH_START_DENIED",
                    "WARN",
                    "Graph start denied: dispatch is paused",
                    now,
                    crate::json::JsonValue::Null,
                );
                actions.push(Action::PublishCoreFault { fault });
                return (ControlOutcome::GraphStartDenied, actions);
            }
            if match &self.graph.graph {
                Some(_) => false,
                None => true,
            } {
                let fault = core_fault(
                    &self.config.room_id,
                    "GRAPH_START_DENIED",
                    "WARN",
                    "Graph start denied: no graph loaded",
                    now,
                    crate::json::JsonValue::Null,
                );
                actions.push(Action::PublishCoreFault { fault });
                return (ControlOutcome::GraphStartDenied, actions);
            }
            if self.graph.is_running() {
                return (ControlOutcome::GraphStartIgnored, actions);
            }
            self.graph.start_active_nodes();
            let fault = core_fault(
                &self.config.room_id,
                "GRAPH_STARTED",
                "INFO",
                "Graph started",
                now,
                crate::json::JsonValue::Null,
            );
            actions.push(Action::PublishCoreFault { fault });
            return (ControlOutcome::GraphStarted, actions);
        }
        if crate::json::str_eq(req.op.as_str(), crate::protocol::CORE_CONTROL_OP_STOP_GRAPH) {
            if !self.graph.is_running() {
                return (ControlOutcome::GraphStopIgnored, actions);
            }
            self.graph.active_nodes = Vec::new();
            let fault = core_fault(
                &self.config.room_id,
                "GRAPH_STOPPED",
                "WARN",
                "Graph stopped by operator",
                now,
                crate::json::JsonValue::Null,
            );
            actions.push(Action::PublishCoreFault { fault });
            return (ControlOutcome::GraphStopped, actions);
        }
        if crate::json::str_eq(req.op.as_str(), crate::protocol::CORE_CONTROL_OP_RELOAD_GRAPH) {
            if self.graph.is_running() {
                let fault = core_fault(
                    &self.config.room_id,
                    "GRAPH_RELOAD_DENIED",
                    "WARN",
                    "Graph reload denied: graph is running",
                    now,
                    crate::json::JsonValue::Null,
                );
                actions.push(Action::PublishCoreFault { fault });
                return (ControlOutcome::GraphReloadDenied, actions);
            }
            if !self.runtime.dispatch_is_paused() {
                let fault = core_fault(
                    &self.config.room_id,
                    "GRAPH_RELOAD_DENIED",
                    "WARN",
                    "Graph reload denied: pause dispatch first",
                    now,
                    crate::json::JsonValue::Null,
                );
                actions.push(Action::PublishCoreFault { fault });
                return (ControlOutcome::GraphReloadDenied, actions);
            }
            if !self.config.event_store_enabled {
                let fault = core_fault(
                    &self.config.room_id,
                    "GRAPH_RELOAD_FAILED",
                    "WARN",
                    "Graph reload failed: the event store is disabled",
                    now,
                    crate::json::JsonValue::Null,
                );
                actions.push(Action::PublishCoreFault { fault });
                return (ControlOutcome::GraphReloadUnavailable, actions);
            }
            return (ControlOutcome::GraphReloadRequested, actions);
        }
        (ControlOutcome::UnknownOp, actions)
    }
}


/// What the liveness sweep owes for one device: a newly offline device
/// gets its WARN fault and a retained status republish.
pub open spec fn spec_sweep_emits(
    e: (Seq<char>, DeviceStatus),
    offline_ms: u64,
    now: u64,
    actions: Seq<Action>,
) -> bool {
    (!e.1.is_offline && spec_should_be_offline(offline_ms, e.1, now)) ==> {
        &&& exists|j: int|
            0 <= j < actions.len() && is_device_fault(
                #[trigger] actions[j],
                e.0,
                "DEVICE_OFFLINE"@,
                "WARN"@,
            )
        &&& exists|j: int|
            0 <= j < actions.len() && crate::actions::is_device_status(
                #[trigger] actions[j],
                e.0,
            )
    }
}

/// A sweep emission stays satisfied when the action list grows at the end.
pub proof fn lemma_sweep_emits_extend(
    e: (Seq<char>, DeviceStatus),
    offline_ms: u64,
    now: u64,
    a0: Seq<Action>,
    a1: Seq<Action>,
)
    requires
        spec_sweep_emits(e, offline_ms, now, a0),
        a0.len() <= a1.len(),
        forall|j: int| 0 <= j < a0.len() ==> a1[j] == a0[j],
    ensures
        spec_sweep_emits(e, offline_ms, now, a1),
{
    if !e.1.is_offline && spec_should_be_offline(offline_ms, e.1, now) {
        let j1 = choose|j: int|
            0 <= j < a0.len() && is_device_fault(#[trigger] a0[j], e.0, "DEVICE_OFFLINE"@, "WARN"@);
        assert(is_device_fault(a1[j1], e.0, "DEVICE_OFFLINE"@, "WARN"@));
        let j2 = choose|j: int|
            0 <= j < a0.len() && crate::actions::is_device_status(#[trigger] a0[j], e.0);
        assert(crate::actions::is_device_status(a1[j2], e.0));
    }
}

impl Coordinator {
    /// Broker lost. The first disconnect of an outage records the outage
    /// instant, pauses dispatch, and drops every pending command, every
    /// inflight binding, and the running graph: no queued retry or replay
    /// may fire after the outage. Recovery is operator-driven.
    pub fn on_broker_disconnected(&mut self, now: u64) -> (actions: Vec<Action>)
        requires
            old(self).wf(),
        ensures
            final(self).wf(),
            spec_broker_disconnect_post(*old(self), *final(self), now, actions@),
    {
        let actions: Vec<Action> = Vec::new();
        if self.runtime.broker_outage_since_unix_ms.is_some() {
            return actions;
        }
        self.runtime.broker_outage_since_unix_ms = Some(now);
        self.runtime.recompute_dispatch_pause_reason();
        self.pending.clear();
        self.dispatch_tracker.inflight.clear();
        self.graph.active_nodes = Vec::new();
        actions
    }

    /// Broker back. When an outage is on record, raise the CRITICAL
    /// `BROKER_OUTAGE` fault; dispatch stays paused until the operator
    /// resumes it.
    pub fn on_broker_connected(&mut self, now: u64) -> (actions: Vec<Action>)
        requires
            old(self).wf(),
        ensures
            final(self).wf(),
            spec_broker_connect_post(*old(self), *final(self), now, actions@),
    {
        let mut actions: Vec<Action> = Vec::new();
        match self.runtime.broker_outage_since_unix_ms {
            Some(down_since) => {
                let details = crate::actions::one_member_details(
                    "down_since_unix_ms",
                    JsonValue::Num(crate::signing::u64_to_dec(down_since)),
                );
                let fault = core_fault(
                    &self.config.room_id,
                    "BROKER_OUTAGE",
                    "CRITICAL",
                    "Broker outage detected; dispatch stays paused until manually resumed",
                    now,
                    details,
                );
                actions.push(Action::PublishCoreFault { fault });
            }
            None => {}
        }
        actions
    }

    /// Periodic liveness sweep: mark devices offline whose heartbeat aged
    /// out or whose presence says offline. The sweep only takes devices
    /// offline; coming back online happens on a fresh message.
    pub fn sweep_device_offline(&mut self, now: u64) -> (actions: Vec<Action>)
        requires
            old(self).wf(),
        ensures
            final(self).wf(),
            final(self).config == old(self).config,
            final(self).runtime == old(self).runtime,
            final(self).device_sequences == old(self).device_sequences,
            final(self).pending == old(self).pending,
            final(self).dispatch_tracker == old(self).dispatch_tracker,
            final(self).graph == old(self).graph,
            forall|d2: Seq<char>| final(self).devices.spec_get(d2) == match old(self).devices.spec_get(d2) {
                Some(st) => Some(
                    DeviceStatus {
                        is_offline: st.is_offline || spec_should_be_offline(
                            old(self).config.device_offline_ms,
                            st,
                            now,
                        ),
                        ..st
                    },
                ),
                None => None::<DeviceStatus>,
            },
            crate::actions::no_command_published(actions@),
            forall|i: int| 0 <= i < old(self).devices.entries().len() ==> spec_sweep_emits(
                #[trigger] old(self).devices.entries()[i],
                old(self).config.device_offline_ms,
                now,
                actions@,
            ),
    {
        let mut actions: Vec<Action> = Vec::new();
        let ghost oe = self.devices.entries();
        let n: usize = self.devices.len();
        let mut i: usize = 0;
        proof {
            assert(oe.skip(0) =~= oe);
        }
        while i < n
            invariant
                self.wf(),
                i <= n,
                n == oe.len(),
                n == self.devices.spec_len(),
                oe == old(self).devices.entries(),
                crate::maps::keys_unique(oe),
                self.config == old(self).config,
                self.runtime == old(self).runtime,
                self.device_sequences == old(self).device_sequences,
                self.pending == old(self).pending,
                self.dispatch_tracker == old(self).dispatch_tracker,
                self.graph == old(self).graph,
                self.devices.entries().skip(i as int) == oe.skip(i as int),
                forall|d2: Seq<char>| self.devices.spec_get(d2) == match crate::maps::seq_get(
                    oe.take(i as int),
                    d2,
                ) {
                    Some(st) => Some(
                        DeviceStatus {
                            is_offline: st.is_offline || spec_should_be_offline(
                                old(self).config.device_offline_ms,
                                st,
                                now,
                            ),
                            ..st
                        },
                    ),
                    None => crate::maps::seq_get(oe, d2),
                },
                crate::actions::no_command_published(actions@),
                forall|i2: int| 0 <= i2 < i ==> spec_sweep_emits(
                    #[trigger] oe[i2],
                    old(self).config.device_offline_ms,
                    now,
                    actions@,
                ),
            decreases n - i,
        {
            let ghost cur = self.devices.entries();
            let ghost a0 = actions@;
            proof {
                assert(cur.skip(i as int)[0] == cur[i as int]);
                assert(oe.skip(i as int)[0] == oe[i as int]);
                assert(cur[i as int] == oe[i as int]);
                assert(oe.take(i + 1) =~= oe.take(i as int).push(oe[i as int]));
                assert forall|j: int| 0 <= j < i implies oe.take(i as int)[j].0 != oe[
                    i as int].0 by {
                    assert(oe.take(i as int)[j] == oe[j]);
                }
                crate::maps::lemma_seq_get_absent(oe.take(i as int), oe[i as int].0, oe[i as int].0);
                crate::maps::lemma_seq_get_found(oe, oe[i as int].0, i as int);
                assert(cur.skip(i as int).drop_first() =~= cur.skip(i + 1));
                assert(oe.skip(i as int).drop_first() =~= oe.skip(i + 1));
            }
            let next_offline = {
                let st = self.devices.val_at(i);
                crate::tracker::should_be_offline(self.config.device_offline_ms, st, now)
            };
            let already = {
                let st = self.devices.val_at(i);
                st.is_offline
            };
            if next_offline && !already {
                let ghost before = self.devices;
                let (key, mut st) = self.devices.remove_at_take(i);
                proof {
                    assert forall|d2: Seq<char>| true implies self.devices.spec_get(d2) == (
                    if d2 == oe[i as int].0 {
                        None::<DeviceStatus>
                    } else {
                        before.spec_get(d2)
                    }) by {
                        crate::maps::lemma_seq_get_remove(before.entries(), i as int, d2);
                    }
                }
                st.is_offline = true;
                let fault = core_fault(
                    &self.config.room_id,
                    "DEVICE_OFFLINE",
                    "WARN",
                    "Device is offline (timeout sweep)",
                    now,
                    device_details(&key),
                );
                actions.push(Action::PublishDeviceFault { device_id: key.clone(), fault });
                let doc = device_status_doc(&self.config.room_id, &key, &st, now);
                actions.push(Action::PublishDeviceStatus { device_id: key.clone(), status: doc });
                self.devices.insert_at(i, key, st);
                proof {
                    assert(self.devices.entries().skip(i + 1) =~= oe.skip(i + 1));
                    lemma_sweep_prefix_step(oe, i as int);
                    assert(forall|j2: int| 0 <= j2 < a0.len() ==> actions@[j2] == a0[j2]);
                    assert(is_device_fault(
                        actions@[a0.len() as int],
                        oe[i as int].0,
                        "DEVICE_OFFLINE"@,
                        "WARN"@,
                    ));
                    assert(crate::actions::is_device_status(
                        actions@[a0.len() as int + 1],
                        oe[i as int].0,
                    ));
                    assert forall|i2: int| 0 <= i2 < i implies spec_sweep_emits(
                        #[trigger] oe[i2],
                        old(self).config.device_offline_ms,
                        now,
                        actions@,
                    ) by {
                        lemma_sweep_emits_extend(
                            oe[i2],
                            old(self).config.device_offline_ms,
                            now,
                            a0,
                            actions@,
                        );
                    }
                    assert(spec_sweep_emits(
                        oe[i as int],
                        old(self).config.device_offline_ms,
                        now,
                        actions@,
                    ));
                }
            } else {
                proof {
                    lemma_sweep_prefix_step(oe, i as int);
                    assert(spec_sweep_emits(
                        oe[i as int],
                        old(self).config.device_offline_ms,
                        now,
                        actions@,
                    ));
                }
            }
            i = i + 1;
            proof {
                assert(self.devices.entries().skip(i as int) =~= oe.skip(i as int));
            }
        }
        proof {
            assert(oe.take(n as int) =~= oe);
        }
        actions
    }

    /// Accept a freshly loaded graph when its schema and room match;
    /// raise `GRAPH_RELOADED` or `GRAPH_RELOAD_FAILED` accordingly. Only
    /// called while the graph is not running: a running graph is never
    /// swapped out.
    pub fn apply_graph_reload(&mut self, loaded: Option<(crate::graph::Graph, i64)>, now: u64) -> (actions: Vec<Action>)
        requires
            old(self).wf(),
            !old(self).graph.spec_is_running(),
            loaded matches Some(g) ==> g.0.wf(),
        ensures
            final(self).wf(),
            final(self).config == old(self).config,
            final(self).runtime == old(self).runtime,
            final(self).devices == old(self).devices,
            final(self).device_sequences == old(self).device_sequences,
            final(self).pending == old(self).pending,
            final(self).dispatch_tracker == old(self).dispatch_tracker,
            !final(self).graph.spec_is_running(),
            actions@.len() == 1,
            match loaded {
                Some(gv) => if gv.0.schema@ == SCHEMA_VERSION@ && gv.0.room_id@ == old(self).config.room_id@ {
                    &&& final(self).graph.graph == Some(gv.0)
                    &&& final(self).graph.graph_version == Some(gv.1)
                    &&& is_core_fault(actions@[0], "GRAPH_RELOADED"@, "INFO"@)
                } else {
                    &&& final(self).graph == old(self).graph
                    &&& is_core_fault(actions@[0], "GRAPH_RELOAD_FAILED"@, "WARN"@)
                },
                None => {
                    &&& final(self).graph == old(self).graph
                    &&& is_core_fault(actions@[0], "GRAPH_RELOAD_FAILED"@, "WARN"@)
                },
            },
    {
        let mut actions: Vec<Action> = Vec::new();
        match loaded {
            Some((g, version)) => {
                if crate::json::str_eq(g.schema.as_str(), SCHEMA_VERSION) && g.room_id
                    == self.config.room_id {
                    self.graph.graph = Some(g);
                    self.graph.graph_version = Some(version);
                    let fault = core_fault(
                        &self.config.room_id,
                        "GRAPH_RELOADED",
                        "INFO",
                        "Graph reloaded from the store",
                        now,
                        JsonValue::Null,
                    );
                    actions.push(Action::PublishCoreFault { fault });
                } else {
                    let fault = core_fault(
                        &self.config.room_id,
                        "GRAPH_RELOAD_FAILED",
                        "WARN",
                        "Graph reload failed: wrong schema or room id",
                        now,
                        JsonValue::Null,
                    );
                    actions.push(Action::PublishCoreFault { fault });
                }
            }
            None => {
                let fault = core_fault(
                    &self.config.room_id,
                    "GRAPH_RELOAD_FAILED",
                    "WARN",
                    "Graph reload failed: no active graph in the store",
                    now,
                    JsonValue::Null,
                );
                actions.push(Action::PublishCoreFault { fault });
            }
        }
        actions
    }

    /// Autostart: with the flag set, a loaded graph, and nothing running,
    /// occupy the start nodes. Runs every tick, so a finished graph
    /// restarts.
    pub fn maybe_autostart(&mut self)
        requires
            old(self).wf(),
        ensures
            final(self).wf(),
            final(self).config == old(self).config,
            final(self).runtime == old(self).runtime,
            final(self).devices == old(self).devices,
            final(self).device_sequences == old(self).device_sequences,
            final(self).pending == old(self).pending,
            final(self).dispatch_tracker == old(self).dispatch_tracker,
            final(self).graph.graph == old(self).graph.graph,
            final(self).graph.graph_version == old(self).graph.graph_version,
            !(old(self).config.graph_autostart && old(self).graph.graph is Some && !old(self).graph.spec_is_running()) ==> *final(self) == *old(self),
            (old(self).config.graph_autostart && old(self).graph.graph is Some && !old(self).graph.spec_is_running()) ==> {
                &&& final(self).graph.active_nodes@.len() == crate::graph::spec_start_ids(
                    old(self).graph.graph->Some_0.start,
                ).len()
                &&& forall|j: int| 0 <= j < final(self).graph.active_nodes@.len() ==> final(self).graph.active_nodes@[j].node_id@ == crate::graph::spec_start_ids(
                    old(self).graph.graph->Some_0.start,
                )[j]
            },
    {
        if !self.config.graph_autostart {
            return ;
        }
        let has_graph = match &self.graph.graph {
            Some(_) => true,
            None => false,
        };
        if !has_graph || self.graph.is_running() {
            return ;
        }
        self.graph.start_active_nodes();
    }

    /// Recompute the room safety rollup from the device table and the
    /// latch; nothing else changes.
    pub fn refresh_room_safety(&mut self)
        requires
            old(self).wf(),
        ensures
            final(self).wf(),
            *final(self) == (Coordinator {
                runtime: RuntimeState {
                    room_safety: crate::safety::spec_room_safety(
                        old(self).devices.entries(),
                        old(self).runtime.safety_latched_since_unix_ms is Some,
                    ),
                    ..old(self).runtime
                },
                ..*old(self)
            }),
    {
        let latched = self.runtime.safety_latched_since_unix_ms.is_some();
        self.runtime.room_safety = crate::safety::compute_room_safety(&self.devices, latched);
    }
}

/// Extending the processed prefix by one device: the lookup changes only
/// for that device's key.
pub proof fn lemma_sweep_prefix_step(oe: Seq<(Seq<char>, DeviceStatus)>, i: int)
    requires
        0 <= i < oe.len(),
    ensures
        forall|d2: Seq<char>| #[trigger] crate::maps::seq_get(oe.take(i + 1), d2) == match
            crate::maps::seq_get(oe.take(i), d2) {
            Some(st) => Some(st),
            None => if oe[i].0 == d2 {
                Some(oe[i].1)
            } else {
                None::<DeviceStatus>
            },
        },
{
    assert(oe.take(i + 1) =~= oe.take(i).push(oe[i]));
    assert forall|d2: Seq<char>| true implies #[trigger] crate::maps::seq_get(oe.take(i + 1), d2)
        == (match crate::maps::seq_get(oe.take(i), d2) {
        Some(st) => Some(st),
        None => if oe[i].0 == d2 {
            Some(oe[i].1)
        } else {
            None::<DeviceStatus>
        },
    }) by {
        crate::maps::lemma_seq_get_snoc(oe.take(i), oe[i], d2);
    }
}


/// Whether a device's retained state, at the JSON pointer, canonically
/// equals the expected value. False while the device or its state is
/// unknown or the pointer finds nothing.
pub open spec fn spec_wait_state_matches(
    devices: StrMap<DeviceStatus>,
    device_id: Seq<char>,
    pointer: Seq<char>,
    equals: JsonValue,
) -> bool {
    match devices.spec_get(device_id) {
        Some(st) => match st.last_state {
            Some(doc) => match crate::json::spec_json_pointer(jv(doc), pointer) {
                Some(actual) => crate::json::canon_m(actual) == crate::json::canon_m(jv(equals)),
                None => false,
            },
            None => false,
        },
        None => false,
    }
}

/// The WAIT_STATE_EQUALS decision: look the device's retained state up,
/// apply the JSON pointer, and compare canonically with the expected
/// value.
pub fn wait_state_matches(
    devices: &StrMap<DeviceStatus>,
    device_id: &str,
    pointer: &str,
    equals: &JsonValue,
) -> (r: bool)
    ensures
        r == spec_wait_state_matches(*devices, device_id@, pointer@, *equals),
{
    match devices.get(device_id) {
        Some(st) => match &st.last_state {
            Some(doc) => match crate::json::json_pointer(doc, pointer) {
                Some(actual) => crate::json::json_canon_eq(actual, equals),
                None => false,
            },
            None => false,
        },
        None => false,
    }
}

/// The successor ids an optional edge names.
pub open spec fn spec_next_ids_opt(next: Option<crate::graph::NextRef>) -> Seq<Seq<char>> {
    match next {
        None => Seq::empty(),
        Some(n) => crate::graph::spec_next_ids(n),
    }
}

/// Copy an optional successor edge; the successor ids are preserved.
pub fn next_ref_ids_clone(n: &Option<crate::graph::NextRef>) -> (r: Option<crate::graph::NextRef>)
    ensures
        spec_next_ids_opt(r) == spec_next_ids_opt(*n),
{
    match n {
        None => None,
        Some(crate::graph::NextRef::One(s)) => Some(crate::graph::NextRef::One(s.clone())),
        Some(crate::graph::NextRef::Many(v)) => {
            let mut out: Vec<String> = Vec::new();
            let m: usize = v.len();
            let mut j: usize = 0;
            while j < m
                invariant
                    j <= m,
                    m == v@.len(),
                    out@.len() == j,
                    forall|k2: int| 0 <= k2 < j ==> out@[k2]@ == v@[k2]@,
                decreases m - j,
            {
                out.push(v[j].clone());
                j = j + 1;
            }
            proof {
                assert(out@.map_values(|x: String| x@) =~= v@.map_values(|x: String| x@));
            }
            Some(crate::graph::NextRef::Many(out))
        }
    }
}

/// Freshly entered nodes for exactly these ids, in order.
pub open spec fn spec_nodes_enter(
    nodes: Seq<crate::graph::ActiveNodeState>,
    ids: Seq<Seq<char>>,
) -> bool {
    &&& nodes.len() == ids.len()
    &&& forall|j: int| 0 <= j < nodes.len() ==> {
        &&& (#[trigger] nodes[j]).node_id@ == ids[j]
        &&& nodes[j].entered_at_unix_ms is None
        &&& nodes[j].waiting_on_command_id is None
        &&& nodes[j].next_after_wait is None
    }
}

/// Push freshly entered nodes for every id in `next`.
fn push_next_nodes(out: &mut Vec<crate::graph::ActiveNodeState>, next: &Option<crate::graph::NextRef>)
    ensures
        final(out)@.len() == old(out)@.len() + spec_next_ids_opt(*next).len(),
        forall|j: int| 0 <= j < old(out)@.len() ==> final(out)@[j] == old(out)@[j],
        spec_nodes_enter(
            final(out)@.skip(old(out)@.len() as int),
            spec_next_ids_opt(*next),
        ),
{
    match next {
        None => {
            proof {
                assert(out@.skip(old(out)@.len() as int) =~= Seq::<
                    crate::graph::ActiveNodeState,
                >::empty());
            }
        }
        Some(n) => {
            let ids = n.to_vec();
            let m: usize = ids.len();
            proof {
                assert(ids@.map_values(|x: String| x@).len() == ids@.len());
            }
            let mut j: usize = 0;
            while j < m
                invariant
                    j <= m,
                    m == ids@.len(),
                    ids@.map_values(|x: String| x@) == spec_next_ids_opt(*next),
                    out@.len() == old(out)@.len() + j,
                    forall|j2: int| 0 <= j2 < old(out)@.len() ==> out@[j2] == old(out)@[j2],
                    spec_nodes_enter(
                        out@.skip(old(out)@.len() as int),
                        ids@.map_values(|x: String| x@).take(j as int),
                    ),
                decreases m - j,
            {
                let node = crate::graph::ActiveNodeState::enter(ids[j].clone());
                let ghost pre = out@;
                out.push(node);
                proof {
                    let ghost base = old(out)@.len() as int;
                    let ghost vids = ids@.map_values(|x: String| x@);
                    assert(out@.skip(base) =~= pre.skip(base).push(node));
                    assert(node.node_id@ == vids[j as int]);
                    assert(vids.take(j + 1) =~= vids.take(j as int).push(vids[j as int]));
                    assert forall|j2: int| 0 <= j2 < out@.skip(base).len() implies {
                        &&& (#[trigger] out@.skip(base)[j2]).node_id@ == vids.take(j + 1)[j2]
                        &&& out@.skip(base)[j2].entered_at_unix_ms is None
                        &&& out@.skip(base)[j2].waiting_on_command_id is None
                        &&& out@.skip(base)[j2].next_after_wait is None
                    } by {
                        if j2 < j {
                            assert(out@.skip(base)[j2] == pre.skip(base)[j2]);
                        } else {
                            assert(out@.skip(base)[j2] == node);
                        }
                    }
                }
                j = j + 1;
            }
            proof {
                let ghost vids = ids@.map_values(|x: String| x@);
                assert(vids.take(m as int) =~= vids);
            }
        }
    }
}

impl Coordinator {
    /// Drive the running graph one tick. Skipped while dispatch is
    /// paused, disabled, or in dry run, or while no graph runs. Per node:
    /// NOOP advances at once; DELAY advances after its interval;
    /// WAIT_STATE_EQUALS advances when the device's retained state at the
    /// JSON pointer equals the expected value (canonically compared) and
    /// aborts the whole graph with a `GRAPH_TIMEOUT` fault when its
    /// timeout passes first; DISPATCH issues a command through the
    /// dispatcher with a fresh correlation id and then waits for the
    /// command's terminal outcome, aborting with `GRAPH_DISPATCH_FAILED`
    /// when admission refused it. A per-tick budget bounds transitions;
    /// nodes past it wait for the next tick. An unknown node id aborts
    /// the graph.
    #[verifier::rlimit(100)]
    pub fn tick_graph_runner(&mut self, now: u64) -> (actions: Vec<Action>)
        requires
            old(self).wf(),
        ensures
            final(self).wf(),
            final(self).config == old(self).config,
            final(self).runtime == old(self).runtime,
            final(self).devices == old(self).devices,
            final(self).graph.graph == old(self).graph.graph,
            final(self).graph.graph_version == old(self).graph.graph_version,
            (old(self).runtime.spec_is_paused() || !old(self).config.dispatch_enabled || old(self).config.dry_run || old(self).graph.graph is None || !old(self).graph.spec_is_running()) ==> *final(self) == *old(self) && actions@.len() == 0,
            old(self).runtime.safety_latched_since_unix_ms == final(self).runtime.safety_latched_since_unix_ms,
            // the running case is a budgeted fold of per-node steps: each
            // old active node is either driven by the step relation while
            // the budget lasts and the graph has not aborted, or carried
            // verbatim; the actions are the steps' actions in order, and
            // the new active list is the steps' products — empty when a
            // step aborted the graph
            !(old(self).runtime.spec_is_paused() || !old(self).config.dispatch_enabled || old(self).config.dry_run || old(self).graph.graph is None || !old(self).graph.spec_is_running()) ==> exists|c0: Coordinator, trace: Seq<GraphTickStep>| {
                &&& #[trigger] spec_graph_tick_witness(c0, trace)
                &&& spec_cleared_active(*old(self), c0)
                &&& spec_graph_tick_trace(c0, old(self).graph.active_nodes@, now, trace)
                &&& actions@ == trace_actions(trace)
                &&& trace.len() > 0
                &&& if trace_ended_aborted(trace) {
                    &&& *final(self) == trace.last().post
                    &&& !final(self).graph.spec_is_running()
                } else {
                    &&& spec_same_but_active(*final(self), trace.last().post)
                    &&& final(self).graph.active_nodes@ == trace_nodes(
                        old(self).graph.active_nodes@,
                        trace,
                    )
                }
            },
    {
        let mut actions: Vec<Action> = Vec::new();
        if self.runtime.dispatch_is_paused() || !self.config.dispatch_enabled || self.config.dry_run
        {
            return actions;
        }
        let has_graph = match &self.graph.graph {
            Some(_) => true,
            None => false,
        };
        if !has_graph {
            return actions;
        }
        if !self.graph.is_running() {
            return actions;
        }

        let mut remaining: Vec<crate::graph::ActiveNodeState> = Vec::new();
        core::mem::swap(&mut self.graph.active_nodes, &mut remaining);
        let ghost c0 = *self;
        let ghost full = remaining@;
        let ghost mut trace: Seq<GraphTickStep> = Seq::empty();
        let mut next_active: Vec<crate::graph::ActiveNodeState> = Vec::new();
        let mut transitions: usize = 0;
        let mut aborted = false;
        proof {
            assert(spec_cleared_active(*old(self), c0));
            assert(full.skip(0) =~= full);
            assert(full.take(0) =~= Seq::<crate::graph::ActiveNodeState>::empty());
            assert(trace_nodes(full.take(0), trace) =~= Seq::<
                crate::graph::ActiveNodeState,
            >::empty());
            assert(spec_graph_tick_trace(c0, full.take(0), now, trace)) by {
                reveal(spec_graph_tick_trace);
            }
        }

        while remaining.len() > 0
            invariant
                self.wf(),
                self.config == old(self).config,
                self.runtime == old(self).runtime,
                self.devices == old(self).devices,
                self.graph.graph == old(self).graph.graph,
                self.graph.graph_version == old(self).graph.graph_version,
                old(self).graph.graph is Some,
                spec_cleared_active(*old(self), c0),
                self.graph.active_nodes@ == Seq::<crate::graph::ActiveNodeState>::empty(),
                full == old(self).graph.active_nodes@,
                remaining@.len() <= full.len(),
                remaining@ == full.skip(full.len() - remaining@.len()),
                trace.len() == full.len() - remaining@.len(),
                spec_graph_tick_trace(c0, full.take(trace.len() as int), now, trace),
                transitions as int == (if trace.len() == 0 {
                    0int
                } else {
                    step_trans_after(trace.last())
                }),
                aborted == (trace.len() > 0 && step_aborted_after(trace.last())),
                *self == (if trace.len() == 0 {
                    c0
                } else {
                    trace.last().post
                }),
                !aborted ==> next_active@ == trace_nodes(full.take(trace.len() as int), trace),
                actions@ == trace_actions(trace),
            decreases remaining@.len(),
        {
            let ghost k = trace.len() as int;
            proof {
                assert(remaining@[0] == full.skip(full.len() - remaining@.len())[0]);
                assert(remaining@[0] == full[k]);
                assert(full.take(k + 1) =~= full.take(k).push(full[k]));
                assert(remaining@.drop_first() =~= full.skip(full.len() - (remaining@.len()
                    - 1)));
            }
            let state = remaining.remove(0);
            let ghost pre_c = *self;
            if aborted {
                let ghost st = GraphTickStep {
                    pre: pre_c,
                    post: pre_c,
                    trans_before: transitions as int,
                    aborted_before: true,
                    kind: GraphTickStepKind::Carried,
                };
                proof {
                    lemma_graph_trace_snoc(c0, full.take(k), now, trace, state, st);
                    lemma_trace_actions_snoc(trace, st);
                    assert(trace_actions(trace.push(st)) =~= trace_actions(trace));
                    trace = trace.push(st);
                }
                continue;
            }
            if transitions >= 128 {
                next_active.push(state);
                let ghost st = GraphTickStep {
                    pre: pre_c,
                    post: pre_c,
                    trans_before: transitions as int,
                    aborted_before: false,
                    kind: GraphTickStepKind::Carried,
                };
                proof {
                    lemma_graph_trace_snoc(c0, full.take(k), now, trace, state, st);
                    lemma_trace_nodes_snoc(full.take(k), trace, state, st);
                    lemma_trace_actions_snoc(trace, st);
                    assert(trace_actions(trace.push(st)) =~= trace_actions(trace));
                    assert(next_active@ =~= trace_nodes(full.take(k), trace) + seq![state]);
                    trace = trace.push(st);
                }
                continue;
            }
            let (step, nodes, acts) = self.graph_step_node(state, now);
            let ghost st = GraphTickStep {
                pre: pre_c,
                post: *self,
                trans_before: transitions as int,
                aborted_before: false,
                kind: GraphTickStepKind::Stepped {
                    outcome: step,
                    nodes: nodes@,
                    actions: acts@,
                },
            };
            proof {
                lemma_graph_trace_snoc(c0, full.take(k), now, trace, state, st);
                lemma_trace_nodes_snoc(full.take(k), trace, state, st);
                lemma_trace_actions_snoc(trace, st);
            }
            crate::actions::vec_append(&mut actions, acts);
            match step {
                GraphStepOutcome::Stay => {
                    crate::actions::vec_append(&mut next_active, nodes);
                }
                GraphStepOutcome::Transition => {
                    transitions = transitions + 1;
                    crate::actions::vec_append(&mut next_active, nodes);
                }
                GraphStepOutcome::Aborted => {
                    aborted = true;
                }
            }
            proof {
                trace = trace.push(st);
            }
        }
        proof {
            assert(full.take(trace.len() as int) =~= full);
            assert(trace.len() == full.len());
            assert(full.len() > 0);
        }
        if !aborted {
            self.graph.active_nodes = next_active;
        }
        proof {
            assert(spec_graph_tick_witness(c0, trace));
        }
        actions
    }
}

/// Offline devices in a table.
pub open spec fn spec_offline_count(s: Seq<(Seq<char>, DeviceStatus)>) -> int
    decreases s.len(),
{
    if s.len() == 0 {
        0
    } else {
        (if s[0].1.is_offline {
            1int
        } else {
            0int
        }) + spec_offline_count(s.drop_first())
    }
}

pub proof fn lemma_offline_count_snoc(s: Seq<(Seq<char>, DeviceStatus)>, x: (Seq<char>, DeviceStatus))
    ensures
        spec_offline_count(s.push(x)) == spec_offline_count(s) + (if x.1.is_offline {
            1int
        } else {
            0int
        }),
    decreases s.len(),
{
    if s.len() == 0 {
        assert(s.push(x)[0] == x);
        assert(s.push(x).drop_first() =~= s);
    } else {
        assert(s.push(x)[0] == s[0]);
        assert(s.push(x).drop_first() =~= s.drop_first().push(x));
        lemma_offline_count_snoc(s.drop_first(), x);
    }
}

pub proof fn lemma_offline_count_bound(s: Seq<(Seq<char>, DeviceStatus)>)
    ensures
        0 <= spec_offline_count(s) <= s.len(),
    decreases s.len(),
{
    if s.len() > 0 {
        lemma_offline_count_bound(s.drop_first());
    }
}

impl Coordinator {
    /// The retained core status snapshot: gates, pause reason, outage and
    /// latch instants, room safety, device counts, and the graph state.
    pub fn core_status_doc(&self, uptime_ms: u64, now: u64) -> (r: crate::protocol::CoreStatus)
        requires
            self.devices.spec_len() <= u64::MAX,
        ensures
            r.schema@ == SCHEMA_VERSION@,
            r.room_id@ == self.config.room_id@,
            r.uptime_ms == uptime_ms,
            r.tick_ms == self.config.tick_ms,
            r.dry_run == self.config.dry_run,
            r.dispatch_enabled == self.config.dispatch_enabled,
            match self.runtime.dispatch_paused_reason {
                Some(p) => r.dispatch_paused_reason matches Some(s) && s@
                    == crate::state::spec_pause_reason_str(p),
                None => r.dispatch_paused_reason is None,
            },
            r.broker_outage_since_unix_ms == self.runtime.broker_outage_since_unix_ms,
            r.safety_latched_since_unix_ms == self.runtime.safety_latched_since_unix_ms,
            r.room_safety == self.runtime.room_safety,
            r.device_count == self.devices.spec_len(),
            r.offline_device_count == spec_offline_count(self.devices.entries()),
            r.graph_version == self.graph.graph_version,
            r.graph_active_nodes@.len() == self.graph.active_nodes@.len(),
            forall|j: int| 0 <= j < r.graph_active_nodes@.len() ==> r.graph_active_nodes@[j]@
                == self.graph.active_nodes@[j].node_id@,
            self.graph.active_nodes@.len() > 0 ==> (r.graph_active_node matches Some(s) && s@
                == self.graph.active_nodes@[0].node_id@),
            self.graph.active_nodes@.len() == 0 ==> r.graph_active_node is None,
            r.observed_at_unix_ms == now,
    {
        let n: usize = self.devices.len();
        let mut offline: u64 = 0;
        let mut i: usize = 0;
        proof {
            assert(self.devices.entries().take(0) =~= Seq::<(Seq<char>, DeviceStatus)>::empty());
            lemma_offline_count_bound(self.devices.entries());
        }
        while i < n
            invariant
                i <= n,
                n == self.devices.entries().len(),
                n <= u64::MAX,
                offline == spec_offline_count(self.devices.entries().take(i as int)),
                offline <= i,
            decreases n - i,
        {
            proof {
                lemma_offline_count_snoc(
                    self.devices.entries().take(i as int),
                    self.devices.entries()[i as int],
                );
                assert(self.devices.entries().take(i + 1) =~= self.devices.entries().take(
                    i as int,
                ).push(self.devices.entries()[i as int]));
            }
            if self.devices.val_at(i).is_offline {
                offline = offline + 1;
            }
            i = i + 1;
        }
        proof {
            assert(self.devices.entries().take(n as int) =~= self.devices.entries());
        }

        let mut graph_active_nodes: Vec<String> = Vec::new();
        let m: usize = self.graph.active_nodes.len();
        let mut j: usize = 0;
        while j < m
            invariant
                j <= m,
                m == self.graph.active_nodes@.len(),
                graph_active_nodes@.len() == j,
                forall|k: int| 0 <= k < j ==> graph_active_nodes@[k]@
                    == self.graph.active_nodes@[k].node_id@,
            decreases m - j,
        {
            graph_active_nodes.push(self.graph.active_nodes[j].node_id.clone());
            j = j + 1;
        }
        let graph_active_node: Option<String> = if graph_active_nodes.len() > 0 {
            Some(graph_active_nodes[0].clone())
        } else {
            None
        };

        crate::protocol::CoreStatus {
            schema: SCHEMA_VERSION.to_owned(),
            room_id: self.config.room_id.clone(),
            uptime_ms,
            tick_ms: self.config.tick_ms,
            dry_run: self.config.dry_run,
            dispatch_enabled: self.config.dispatch_enabled,
            dispatch_paused_reason: match self.runtime.dispatch_paused_reason {
                Some(p) => Some(crate::state::pause_reason_str(p).to_owned()),
                None => None,
            },
            broker_outage_since_unix_ms: self.runtime.broker_outage_since_unix_ms,
            safety_latched_since_unix_ms: self.runtime.safety_latched_since_unix_ms,
            room_safety: crate::protocol::clone_safety_state(&self.runtime.room_safety),
            device_count: n as u64,
            offline_device_count: offline,
            graph_active_node,
            graph_active_nodes,
            graph_version: self.graph.graph_version,
            observed_at_unix_ms: now,
        }
    }
}

/// One event for the coordinator loop: a broker edge, or a parsed
/// message from a subscribed topic.
pub enum CoreEvent {
    Connected,
    Disconnected(String),
    Dispatch(CoreDispatchRequest),
    Control(crate::protocol::CoreControlRequest),
    Device { device_id: String, msg: DeviceMessage },
}

/// What an event came to, where a caller must react (a reload request,
/// a dispatch refusal) beyond performing the returned publishes.
pub enum EventOutcome {
    Routine,
    Dispatch(DispatchOutcome),
    Control(ControlOutcome),
}

impl Coordinator {
    /// Route one event at an explicit instant. Every path preserves the
    /// safety latch except a successful control-plane reset, and a broker
    /// disconnect empties the pending and inflight tables and stops the
    /// graph before anything else can be published.
    pub fn handle_event(&mut self, ev: CoreEvent, now: u64) -> (r: (EventOutcome, Vec<Action>))
        requires
            old(self).wf(),
        ensures
            final(self).wf(),
            // the safety latch survives everything but a successful reset
            old(self).runtime.safety_latched_since_unix_ms matches Some(t) ==> (final(self).runtime.safety_latched_since_unix_ms == Some(t) || r.0 == EventOutcome::Control(
                ControlOutcome::ResetDone,
            )),
            // each event carries its handler's full contract
            ev matches CoreEvent::Connected ==> (r.0 matches EventOutcome::Routine
                && spec_broker_connect_post(*old(self), *final(self), now, r.1@)),
            ev matches CoreEvent::Disconnected(_) ==> (r.0 matches EventOutcome::Routine
                && spec_broker_disconnect_post(*old(self), *final(self), now, r.1@)),
            ev matches CoreEvent::Dispatch(req) ==> (r.0 matches EventOutcome::Dispatch(o)
                && spec_dispatch_post(*old(self), *final(self), req, now, o, r.1@)),
            ev matches CoreEvent::Control(req) ==> (r.0 matches EventOutcome::Control(o)
                && spec_control_post(*old(self), *final(self), req, now, o, r.1@)),
            ev matches CoreEvent::Device { device_id, msg } ==> (r.0
                matches EventOutcome::Routine && spec_device_msg_post(
                *old(self),
                *final(self),
                device_id@,
                msg,
                now,
                r.1@,
            )),
    {
        match ev {
            CoreEvent::Connected => {
                let a = self.on_broker_connected(now);
                (EventOutcome::Routine, a)
            }
            CoreEvent::Disconnected(_) => {
                let a = self.on_broker_disconnected(now);
                (EventOutcome::Routine, a)
            }
            CoreEvent::Dispatch(req) => {
                let (o, a) = self.handle_dispatch_request(&req, now);
                (EventOutcome::Dispatch(o), a)
            }
            CoreEvent::Control(req) => {
                let (o, a) = self.handle_core_control(&req, now);
                (EventOutcome::Control(o), a)
            }
            CoreEvent::Device { device_id, msg } => {
                let a = self.handle_device_message(&device_id, msg, now);
                (EventOutcome::Routine, a)
            }
        }
    }

    /// Route one event at the present wall-clock instant.
    pub fn handle_mqtt_event(&mut self, ev: CoreEvent) -> (r: (EventOutcome, Vec<Action>))
        requires
            old(self).wf(),
        ensures
            final(self).wf(),
            old(self).runtime.safety_latched_since_unix_ms matches Some(t) ==> (final(self).runtime.safety_latched_since_unix_ms == Some(t) || r.0 == EventOutcome::Control(
                ControlOutcome::ResetDone,
            )),
            // each event carries its handler's contract, at the instant read
            ev matches CoreEvent::Connected ==> (r.0 matches EventOutcome::Routine
                && exists|t: u64| #[trigger] spec_broker_connect_post(
                    *old(self),
                    *final(self),
                    t,
                    r.1@,
                )),
            ev matches CoreEvent::Disconnected(_) ==> (r.0 matches EventOutcome::Routine
                && exists|t: u64| #[trigger] spec_broker_disconnect_post(
                    *old(self),
                    *final(self),
                    t,
                    r.1@,
                )),
            ev matches CoreEvent::Dispatch(req) ==> (r.0 matches EventOutcome::Dispatch(o)
                && exists|t: u64| #[trigger] spec_dispatch_post(
                    *old(self),
                    *final(self),
                    req,
                    t,
                    o,
                    r.1@,
                )),
            ev matches CoreEvent::Control(req) ==> (r.0 matches EventOutcome::Control(o)
                && exists|t: u64| #[trigger] spec_control_post(
                    *old(self),
                    *final(self),
                    req,
                    t,
                    o,
                    r.1@,
                )),
            ev matches CoreEvent::Device { device_id, msg } ==> (r.0
                matches EventOutcome::Routine && exists|t: u64| #[trigger] spec_device_msg_post(
                *old(self),
                *final(self),
                device_id@,
                msg,
                t,
                r.1@,
            )),
    {
        let now = unix_ms_now();
        self.handle_event(ev, now)
    }
}


/// Marker tying a graph dispatch to the request and outcome that served
/// it; used to name the witnesses of `graph_step_node`'s contract.
pub open spec fn spec_graph_dispatch_witness(
    req: CoreDispatchRequest,
    outcome: DispatchOutcome,
) -> bool {
    true
}

/// What one active node did this tick.
#[derive(Clone, Copy, Debug, PartialEq, Eq, Structural)]
pub enum GraphStepOutcome {
    /// The node stays active (possibly with its entry instant recorded);
    /// no transition consumed.
    Stay,
    /// The node transitioned: it advanced into its successors, or a
    /// dispatch node issued its command and now waits on it.
    Transition,
    /// The whole graph must abort: an unknown node id, a wait timeout,
    /// or a refused dispatch.
    Aborted,
}

/// Everything `graph_step_node` promises, as a relation over the state
/// before and after, the node driven, and the produced nodes and actions.
/// Opaque: reveal it to reason about a step's contents.
#[verifier::opaque]
pub open spec fn spec_graph_step_post(
    pre: Coordinator,
    post: Coordinator,
    state: crate::graph::ActiveNodeState,
    now: u64,
    outcome: GraphStepOutcome,
    nodes: Seq<crate::graph::ActiveNodeState>,
    actions: Seq<Action>,
) -> bool {
    &&& (
            post.config == pre.config
    )
    &&& (
            post.runtime == pre.runtime
    )
    &&& (
            post.devices == pre.devices
    )
    &&& (
            post.graph == pre.graph
    )
    &&& (
            match state.waiting_on_command_id {
                Some(cid) => {
                    &&& post == pre
                    &&& actions.len() == 0
                    &&& if pre.pending.spec_get(cid) is Some {
                        outcome == GraphStepOutcome::Stay && nodes =~= seq![state]
                    } else {
                        outcome == GraphStepOutcome::Transition && spec_nodes_enter(
                            nodes,
                            spec_next_ids_opt(state.next_after_wait),
                        )
                    }
                },
                None => match pre.graph.graph->Some_0.nodes.spec_get(state.node_id@) {
                    None => outcome == GraphStepOutcome::Aborted && post == pre
                        && nodes.len() == 0 && actions.len() == 0,
                    Some(node) => match node {
                        crate::graph::GraphNode::Noop { next } => {
                            &&& post == pre
                            &&& actions.len() == 0
                            &&& outcome == GraphStepOutcome::Transition
                            &&& spec_nodes_enter(nodes, spec_next_ids_opt(next))
                        },
                        crate::graph::GraphNode::Delay { ms, next } => {
                            let entered = match state.entered_at_unix_ms {
                                Some(t) => t,
                                None => now,
                            };
                            &&& post == pre
                            &&& actions.len() == 0
                            &&& if spec_elapsed(now, entered) >= ms {
                                outcome == GraphStepOutcome::Transition && spec_nodes_enter(
                                    nodes,
                                    spec_next_ids_opt(next),
                                )
                            } else {
                                outcome == GraphStepOutcome::Stay && nodes =~= seq![
                                    crate::graph::ActiveNodeState {
                                        entered_at_unix_ms: Some(entered),
                                        ..state
                                    },
                                ]
                            }
                        },
                        crate::graph::GraphNode::WaitStateEquals {
                            device_id,
                            pointer,
                            equals,
                            timeout_ms,
                            next,
                        } => {
                            let entered = match state.entered_at_unix_ms {
                                Some(t) => t,
                                None => now,
                            };
                            let timed_out = timeout_ms matches Some(t) && spec_elapsed(
                                now,
                                entered,
                            ) >= t;
                            &&& post == pre
                            &&& if timed_out {
                                &&& outcome == GraphStepOutcome::Aborted
                                &&& nodes.len() == 0
                                &&& actions.len() == 1
                                &&& is_core_fault(actions[0], "GRAPH_TIMEOUT"@, "WARN"@)
                            } else if spec_wait_state_matches(
                                pre.devices,
                                device_id@,
                                pointer@,
                                equals,
                            ) {
                                &&& outcome == GraphStepOutcome::Transition
                                &&& spec_nodes_enter(nodes, spec_next_ids_opt(next))
                                &&& actions.len() == 0
                            } else {
                                &&& outcome == GraphStepOutcome::Stay
                                &&& nodes =~= seq![
                                    crate::graph::ActiveNodeState {
                                        entered_at_unix_ms: Some(entered),
                                        ..state
                                    },
                                ]
                                &&& actions.len() == 0
                            }
                        },
                        crate::graph::GraphNode::Dispatch {
                            device_id,
                            action,
                            parameters,
                            safety_class,
                            next,
                        } => exists|req: CoreDispatchRequest, doutcome: DispatchOutcome|
                            {
                                &&& #[trigger] spec_graph_dispatch_witness(req, doutcome)
                                &&& req.schema@ == SCHEMA_VERSION@
                                &&& req.room_id@ == pre.config.room_id@
                                &&& req.device_id@ == device_id@
                                &&& req.action == action
                                &&& jv(req.parameters) == jv(parameters)
                                &&& req.safety_class == safety_class
                                &&& req.correlation_id is Some
                                &&& req.retries is None
                                &&& req.ack_timeout_ms is None
                                &&& req.complete_timeout_ms is None
                                &&& match doutcome {
                                    DispatchOutcome::Dispatched { command_id, .. } => {
                                        &&& spec_dispatch_post(
                                            pre,
                                            post,
                                            req,
                                            now,
                                            doutcome,
                                            actions,
                                        )
                                        &&& outcome == GraphStepOutcome::Transition
                                        &&& nodes.len() == 1
                                        &&& nodes[0].node_id == state.node_id
                                        &&& nodes[0].entered_at_unix_ms is None
                                        &&& nodes[0].waiting_on_command_id == Some(command_id)
                                        &&& spec_next_ids_opt(nodes[0].next_after_wait)
                                            == spec_next_ids_opt(next)
                                    },
                                    _ => {
                                        &&& spec_dispatch_post(
                                            pre,
                                            post,
                                            req,
                                            now,
                                            doutcome,
                                            actions.drop_last(),
                                        )
                                        &&& outcome == GraphStepOutcome::Aborted
                                        &&& nodes.len() == 0
                                        &&& actions.len() >= 1
                                        &&& is_core_fault(
                                            actions.last(),
                                            "GRAPH_DISPATCH_FAILED"@,
                                            "WARN"@,
                                        )
                                    },
                                }
                            },
                    },
                },
            }
    )
}

impl Coordinator {
    /// Drive one active node: NOOP advances; DELAY advances after its
    /// interval; WAIT_STATE_EQUALS advances on a canonical state match,
    /// aborts on timeout with a `GRAPH_TIMEOUT` fault, else waits; a node
    /// awaiting a command stays until the command leaves the pending map;
    /// DISPATCH issues a command through the dispatcher under a fresh
    /// correlation id and then waits on it, aborting with a
    /// `GRAPH_DISPATCH_FAILED` fault when no command was created. The
    /// nodes to keep active replace this one; the active list itself is
    /// untouched here.
    pub fn graph_step_node(&mut self, state: crate::graph::ActiveNodeState, now: u64) -> (r: (
        GraphStepOutcome,
        Vec<crate::graph::ActiveNodeState>,
        Vec<Action>,
    ))
        requires
            old(self).wf(),
            old(self).graph.graph is Some,
        ensures
            final(self).wf(),
            final(self).config == old(self).config,
            final(self).runtime == old(self).runtime,
            final(self).devices == old(self).devices,
            final(self).graph == old(self).graph,
            spec_graph_step_post(*old(self), *final(self), state, now, r.0, r.1@, r.2@),
    {
        proof {
            reveal(spec_graph_step_post);
        }
        let mut state = state;
        let mut next_active: Vec<crate::graph::ActiveNodeState> = Vec::new();
        let mut actions: Vec<Action> = Vec::new();

        let waiting = state.waiting_on_command_id;
        match waiting {
            Some(cmd_id) => {
                if self.pending.contains(cmd_id) {
                    next_active.push(state);
                    proof {
                        assert(next_active@ =~= seq![next_active@[0]]);
                    }
                    return (GraphStepOutcome::Stay, next_active, actions);
                }
                let next = state.next_after_wait;
                push_next_nodes(&mut next_active, &next);
                proof {
                    assert(next_active@.skip(0) =~= next_active@);
                }
                return (GraphStepOutcome::Transition, next_active, actions);
            }
            None => {}
        }

        // decide on the stored node; only a dispatch carries fields out
        // of the borrow, since issuing the command mutates the coordinator
        let dispatch_fields: (String, CommandAction, crate::json::JsonValue, SafetyClass, Option<
            crate::graph::NextRef,
        >) = match &self.graph.graph {
            Some(g) => match g.nodes.get(state.node_id.as_str()) {
                None => {
                    return (GraphStepOutcome::Aborted, next_active, actions);
                }
                Some(crate::graph::GraphNode::Noop { next }) => {
                    push_next_nodes(&mut next_active, next);
                    proof {
                        assert(next_active@.skip(0) =~= next_active@);
                    }
                    return (GraphStepOutcome::Transition, next_active, actions);
                }
                Some(crate::graph::GraphNode::Delay { ms, next }) => {
                    let entered: u64 = match state.entered_at_unix_ms {
                        Some(t) => t,
                        None => now,
                    };
                    state.entered_at_unix_ms = Some(entered);
                    let elapsed: u64 = if now >= entered {
                        now - entered
                    } else {
                        0
                    };
                    if elapsed >= *ms {
                        push_next_nodes(&mut next_active, next);
                        proof {
                            assert(next_active@.skip(0) =~= next_active@);
                        }
                        return (GraphStepOutcome::Transition, next_active, actions);
                    }
                    next_active.push(state);
                    proof {
                        assert(next_active@ =~= seq![next_active@[0]]);
                    }
                    return (GraphStepOutcome::Stay, next_active, actions);
                }
                Some(
                    crate::graph::GraphNode::WaitStateEquals {
                        device_id,
                        pointer,
                        equals,
                        timeout_ms,
                        next,
                    },
                ) => {
                    let entered: u64 = match state.entered_at_unix_ms {
                        Some(t) => t,
                        None => now,
                    };
                    state.entered_at_unix_ms = Some(entered);
                    let mut timed_out = false;
                    match timeout_ms {
                        Some(t) => {
                            let elapsed: u64 = if now >= entered {
                                now - entered
                            } else {
                                0
                            };
                            if elapsed >= *t {
                                timed_out = true;
                            }
                        }
                        None => {}
                    }
                    if timed_out {
                        let fault = core_fault(
                            &self.config.room_id,
                            "GRAPH_TIMEOUT",
                            "WARN",
                            "Graph node timed out waiting for device state",
                            now,
                            device_details(device_id),
                        );
                        actions.push(Action::PublishCoreFault { fault });
                        return (GraphStepOutcome::Aborted, next_active, actions);
                    }
                    if wait_state_matches(
                        &self.devices,
                        device_id.as_str(),
                        pointer.as_str(),
                        equals,
                    ) {
                        push_next_nodes(&mut next_active, next);
                        proof {
                            assert(next_active@.skip(0) =~= next_active@);
                        }
                        return (GraphStepOutcome::Transition, next_active, actions);
                    }
                    next_active.push(state);
                    proof {
                        assert(next_active@ =~= seq![next_active@[0]]);
                    }
                    return (GraphStepOutcome::Stay, next_active, actions);
                }
                Some(
                    crate::graph::GraphNode::Dispatch {
                        device_id,
                        action,
                        parameters,
                        safety_class,
                        next,
                    },
                ) => (
                    device_id.clone(),
                    *action,
                    json_clone(parameters),
                    *safety_class,
                    next_ref_ids_clone(next),
                ),
            },
            None => vstd::pervasive::unreached(),
        };
        let (device_id, action, parameters, safety_class, next) = dispatch_fields;

        let correlation_id = fresh_uuid_u128();
        let req = CoreDispatchRequest {
            schema: SCHEMA_VERSION.to_owned(),
            room_id: self.config.room_id.clone(),
            device_id,
            action,
            parameters,
            safety_class,
            correlation_id: Some(correlation_id),
            retries: None,
            ack_timeout_ms: None,
            complete_timeout_ms: None,
        };
        let (outcome, acts) = self.handle_dispatch_request(&req, now);
        let ghost g_outcome = outcome;
        proof {
            assert(actions@.len() == 0);
        }
        crate::actions::vec_append(&mut actions, acts);
        proof {
            assert(actions@ =~= acts@);
            assert(spec_dispatch_post(*old(self), *self, req, now, g_outcome, actions@));
            assert(spec_graph_dispatch_witness(req, g_outcome));
        }
        match outcome {
            DispatchOutcome::Dispatched { command_id, .. } => {
                state.waiting_on_command_id = Some(command_id);
                state.next_after_wait = next;
                state.entered_at_unix_ms = None;
                next_active.push(state);
                (GraphStepOutcome::Transition, next_active, actions)
            }
            _ => {
                let ghost pre_fault = actions@;
                let fault = core_fault(
                    &self.config.room_id,
                    "GRAPH_DISPATCH_FAILED",
                    "WARN",
                    "Graph dispatch did not create an inflight command",
                    now,
                    device_details(&req.device_id),
                );
                actions.push(Action::PublishCoreFault { fault });
                proof {
                    assert(actions@.drop_last() =~= pre_fault);
                }
                (GraphStepOutcome::Aborted, next_active, actions)
            }
        }
    }
}


/// What one entry of a graph tick did.
pub enum GraphTickStepKind {
    /// Kept verbatim: the budget was spent, or the graph had aborted.
    Carried,
    /// Driven through `graph_step_node`, with its products.
    Stepped { outcome: GraphStepOutcome, nodes: Seq<crate::graph::ActiveNodeState>, actions: Seq<Action> },
}

/// One processed entry of a graph tick: the coordinator state it saw and
/// left, the transition budget spent and abort flag before it, and what
/// it did.
pub struct GraphTickStep {
    pub pre: Coordinator,
    pub post: Coordinator,
    pub trans_before: int,
    pub aborted_before: bool,
    pub kind: GraphTickStepKind,
}

pub open spec fn step_trans_after(st: GraphTickStep) -> int {
    st.trans_before + if st.kind matches GraphTickStepKind::Stepped {
        outcome: GraphStepOutcome::Transition,
        ..
    } {
        1int
    } else {
        0int
    }
}

pub open spec fn step_aborted_after(st: GraphTickStep) -> bool {
    st.aborted_before || st.kind matches GraphTickStepKind::Stepped {
        outcome: GraphStepOutcome::Aborted,
        ..
    }
}

/// The graph tick as a budgeted fold: the `i`-th active node is carried
/// verbatim once the graph aborted or the transition budget is spent,
/// and otherwise is driven by the per-node step relation; state, budget
/// and the abort flag chain from each entry to the next. Opaque: reveal
/// it to reason about a trace's contents.
#[verifier::opaque]
pub open spec fn spec_graph_tick_trace(
    c0: Coordinator,
    active: Seq<crate::graph::ActiveNodeState>,
    now: u64,
    trace: Seq<GraphTickStep>,
) -> bool {
    &&& trace.len() == active.len()
    &&& forall|i: int| 0 <= i < trace.len() ==> {
        let st = #[trigger] trace[i];
        &&& st.pre == (if i == 0 {
            c0
        } else {
            trace[i - 1].post
        })
        &&& st.trans_before == (if i == 0 {
            0int
        } else {
            step_trans_after(trace[i - 1])
        })
        &&& st.aborted_before == (if i == 0 {
            false
        } else {
            step_aborted_after(trace[i - 1])
        })
        &&& if st.aborted_before || st.trans_before >= 128 {
            st.kind is Carried && st.post == st.pre
        } else {
            st.kind matches GraphTickStepKind::Stepped { outcome, nodes, actions }
                && spec_graph_step_post(st.pre, st.post, active[i], now, outcome, nodes, actions)
        }
    }
}

/// The nodes a trace leaves active: carried nodes stand for themselves;
/// stepped nodes contribute their products. Meaningful while the graph
/// has not aborted.
pub open spec fn trace_nodes(
    active: Seq<crate::graph::ActiveNodeState>,
    trace: Seq<GraphTickStep>,
) -> Seq<crate::graph::ActiveNodeState>
    decreases trace.len(),
{
    if trace.len() == 0 || active.len() == 0 {
        Seq::empty()
    } else {
        (match trace[0].kind {
            GraphTickStepKind::Carried => seq![active[0]],
            GraphTickStepKind::Stepped { nodes, .. } => nodes,
        }) + trace_nodes(active.drop_first(), trace.drop_first())
    }
}

/// The actions a trace emits, in order.
pub open spec fn trace_actions(trace: Seq<GraphTickStep>) -> Seq<Action>
    decreases trace.len(),
{
    if trace.len() == 0 {
        Seq::empty()
    } else {
        (match trace[0].kind {
            GraphTickStepKind::Carried => Seq::empty(),
            GraphTickStepKind::Stepped { actions, .. } => actions,
        }) + trace_actions(trace.drop_first())
    }
}

pub open spec fn trace_ended_aborted(trace: Seq<GraphTickStep>) -> bool {
    trace.len() > 0 && step_aborted_after(trace.last())
}

/// `c0` is `pre` with its active node list taken out.
pub open spec fn spec_cleared_active(pre: Coordinator, c0: Coordinator) -> bool {
    &&& c0.config == pre.config
    &&& c0.runtime == pre.runtime
    &&& c0.devices == pre.devices
    &&& c0.device_sequences == pre.device_sequences
    &&& c0.pending == pre.pending
    &&& c0.dispatch_tracker == pre.dispatch_tracker
    &&& c0.graph.graph == pre.graph.graph
    &&& c0.graph.graph_version == pre.graph.graph_version
    &&& c0.graph.active_nodes@ == Seq::<crate::graph::ActiveNodeState>::empty()
}

/// `a` and `b` agree on everything but the active node list.
pub open spec fn spec_same_but_active(a: Coordinator, b: Coordinator) -> bool {
    &&& a.config == b.config
    &&& a.runtime == b.runtime
    &&& a.devices == b.devices
    &&& a.device_sequences == b.device_sequences
    &&& a.pending == b.pending
    &&& a.dispatch_tracker == b.dispatch_tracker
    &&& a.graph.graph == b.graph.graph
    &&& a.graph.graph_version == b.graph.graph_version
}

/// Marker naming the witnesses of `tick_graph_runner`'s contract.
pub open spec fn spec_graph_tick_witness(c0: Coordinator, trace: Seq<GraphTickStep>) -> bool {
    true
}

/// Extending a trace by one conforming entry keeps it conforming.
#[verifier::rlimit(100)]
#[verifier::spinoff_prover]
pub proof fn lemma_graph_trace_snoc(
    c0: Coordinator,
    active: Seq<crate::graph::ActiveNodeState>,
    now: u64,
    trace: Seq<GraphTickStep>,
    x: crate::graph::ActiveNodeState,
    st: GraphTickStep,
)
    requires
        spec_graph_tick_trace(c0, active, now, trace),
        st.pre == (if trace.len() == 0 {
            c0
        } else {
            trace.last().post
        }),
        st.trans_before == (if trace.len() == 0 {
            0int
        } else {
            step_trans_after(trace.last())
        }),
        st.aborted_before == (if trace.len() == 0 {
            false
        } else {
            step_aborted_after(trace.last())
        }),
        if st.aborted_before || st.trans_before >= 128 {
            st.kind is Carried && st.post == st.pre
        } else {
            st.kind matches GraphTickStepKind::Stepped { outcome, nodes, actions }
                && spec_graph_step_post(st.pre, st.post, x, now, outcome, nodes, actions)
        },
    ensures
        spec_graph_tick_trace(c0, active.push(x), now, trace.push(st)),
{
    reveal(spec_graph_tick_trace);
    let t1 = trace.push(st);
    let a1 = active.push(x);
    assert forall|i: int| 0 <= i < t1.len() implies {
        let s2 = #[trigger] t1[i];
        &&& s2.pre == (if i == 0 {
            c0
        } else {
            t1[i - 1].post
        })
        &&& s2.trans_before == (if i == 0 {
            0int
        } else {
            step_trans_after(t1[i - 1])
        })
        &&& s2.aborted_before == (if i == 0 {
            false
        } else {
            step_aborted_after(t1[i - 1])
        })
        &&& if s2.aborted_before || s2.trans_before >= 128 {
            s2.kind is Carried && s2.post == s2.pre
        } else {
            s2.kind matches GraphTickStepKind::Stepped { outcome, nodes, actions }
                && spec_graph_step_post(s2.pre, s2.post, a1[i], now, outcome, nodes, actions)
        }
    } by {
        if i < trace.len() {
            assert(t1[i] == trace[i]);
            if i > 0 {
                assert(t1[i - 1] == trace[i - 1]);
            }
            assert(a1[i] == active[i]);
        } else {
            assert(t1[i] == st);
            if i > 0 {
                assert(t1[i - 1] == trace[i - 1]);
                assert(trace[i - 1] == trace.last());
            }
            assert(a1[i] == x);
        }
    }
}

pub proof fn lemma_trace_nodes_snoc(
    active: Seq<crate::graph::ActiveNodeState>,
    trace: Seq<GraphTickStep>,
    x: crate::graph::ActiveNodeState,
    st: GraphTickStep,
)
    requires
        trace.len() == active.len(),
    ensures
        trace_nodes(active.push(x), trace.push(st)) == trace_nodes(active, trace) + (match st.kind {
            GraphTickStepKind::Carried => seq![x],
            GraphTickStepKind::Stepped { nodes, .. } => nodes,
        }),
    decreases trace.len(),
{
    if trace.len() == 0 {
        assert(trace.push(st)[0] == st);
        assert(active.push(x)[0] == x);
        assert(trace.push(st).drop_first() =~= trace);
        assert(active.push(x).drop_first() =~= active);
        assert(trace_nodes(active, trace) =~= Seq::<crate::graph::ActiveNodeState>::empty());
        assert(trace_nodes(active.push(x), trace.push(st)) =~= (match st.kind {
            GraphTickStepKind::Carried => seq![x],
            GraphTickStepKind::Stepped { nodes, .. } => nodes,
        }));
    } else {
        assert(trace.push(st)[0] == trace[0]);
        assert(active.push(x)[0] == active[0]);
        assert(trace.push(st).drop_first() =~= trace.drop_first().push(st));
        assert(active.push(x).drop_first() =~= active.drop_first().push(x));
        lemma_trace_nodes_snoc(active.drop_first(), trace.drop_first(), x, st);
        assert(trace_nodes(active.push(x), trace.push(st)) =~= trace_nodes(active, trace) + (
        match st.kind {
            GraphTickStepKind::Carried => seq![x],
            GraphTickStepKind::Stepped { nodes, .. } => nodes,
        }));
    }
}

pub proof fn lemma_trace_actions_snoc(trace: Seq<GraphTickStep>, st: GraphTickStep)
    ensures
        trace_actions(trace.push(st)) == trace_actions(trace) + (match st.kind {
            GraphTickStepKind::Carried => Seq::empty(),
            GraphTickStepKind::Stepped { actions, .. } => actions,
        }),
    decreases trace.len(),
{
    if trace.len() == 0 {
        assert(trace.push(st)[0] == st);
        assert(trace.push(st).drop_first() =~= trace);
        assert(trace_actions(trace.push(st)) =~= trace_actions(trace) + (match st.kind {
            GraphTickStepKind::Carried => Seq::empty(),
            GraphTickStepKind::Stepped { actions, .. } => actions,
        }));
    } else {
        assert(trace.push(st)[0] == trace[0]);
        assert(trace.push(st).drop_first() =~= trace.drop_first().push(st));
        lemma_trace_actions_snoc(trace.drop_first(), st);
        assert(trace_actions(trace.push(st)) =~= trace_actions(trace) + (match st.kind {
            GraphTickStepKind::Carried => Seq::empty(),
            GraphTickStepKind::Stepped { actions, .. } => actions,
        }));
    }
}

} // verus!
