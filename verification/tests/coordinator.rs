//! End-to-end scenarios against the coordinator state machine: dispatch
//! admission and idempotency, retries and timeouts, safety latching and
//! reset, broker outages, and the graph runner.

use sentient_core::actions::Action;
use sentient_core::coordinator::{
    ControlOutcome, CoreEvent, Coordinator, DeviceMessage, DispatchOutcome, DispatchRefusal,
    EventOutcome,
};
use sentient_core::json::JsonValue;
use sentient_core::maps::StrMap;
use sentient_core::protocol::{
    AckStatus, CommandAck, CommandAction, CoreControlRequest, CoreDispatchRequest, DeviceState,
    Heartbeat, Presence, PresenceStatus, SafetyClass, SafetyState, SafetyStateKind,
};
use sentient_core::signing::verify_command_hmac_sha256;
use sentient_core::state::{ConfigError, CoreConfig, DeviceRegistryEntry, PauseReason};

const KEY: &[u8] = b"0123456789abcdef";

fn config() -> CoreConfig {
    let mut keys: StrMap<Vec<u8>> = StrMap::new();
    keys.set("door1".to_string(), KEY.to_vec());
    CoreConfig {
        room_id: "room1".to_string(),
        dry_run: false,
        tick_ms: 1,
        device_offline_ms: 3000,
        device_hmac_keys: keys,
        dispatch_enabled: true,
        critical_dispatch_armed: false,
        dispatch_default_retries: 2,
        dispatch_ack_timeout_ms: 2000,
        dispatch_complete_timeout_ms: 5000,
        graph_autostart: false,
        event_store_enabled: true,
        core_control_token: None,
    }
}

fn coordinator() -> Coordinator {
    let mut c = Coordinator::new(config());
    c.runtime.device_registry.set(
        "door1".to_string(),
        DeviceRegistryEntry { safety_class: SafetyClass::NonCritical, enabled: true },
    );
    c
}

fn safe() -> SafetyState {
    SafetyState { kind: SafetyStateKind::Safe, reason_code: None, latched: false }
}

fn heartbeat(dev: &str, now: u64) -> CoreEvent {
    CoreEvent::Device {
        device_id: dev.to_string(),
        msg: DeviceMessage::Heartbeat(Heartbeat {
            schema: "v8".to_string(),
            room_id: "room1".to_string(),
            device_id: dev.to_string(),
            uptime_ms: 1,
            firmware_version: "fw-1".to_string(),
            safety_state: safe(),
            last_error: None,
            observed_at_unix_ms: now,
        }),
    }
}

fn dispatch_req(dev: &str, corr: Option<u128>) -> CoreDispatchRequest {
    CoreDispatchRequest {
        schema: "v8".to_string(),
        room_id: "room1".to_string(),
        device_id: dev.to_string(),
        action: CommandAction::Open,
        parameters: JsonValue::Obj(Vec::new()),
        safety_class: SafetyClass::NonCritical,
        correlation_id: corr,
        retries: None,
        ack_timeout_ms: None,
        complete_timeout_ms: None,
    }
}

fn ack(dev: &str, command_id: u128, corr: u128, status: AckStatus, now: u64) -> CoreEvent {
    CoreEvent::Device {
        device_id: dev.to_string(),
        msg: DeviceMessage::Ack(CommandAck {
            schema: "v8".to_string(),
            room_id: "room1".to_string(),
            device_id: dev.to_string(),
            command_id,
            correlation_id: corr,
            status,
            reason_code: None,
            safety_state: safe(),
            observed_at_unix_ms: now,
        }),
    }
}

fn published_commands(actions: &[Action]) -> Vec<&sentient_core::protocol::CommandEnvelope> {
    actions
        .iter()
        .filter_map(|a| match a {
            Action::PublishCommand { envelope, .. } => Some(envelope),
            _ => None,
        })
        .collect()
}

fn fault_kinds(actions: &[Action]) -> Vec<String> {
    actions
        .iter()
        .filter_map(|a| match a {
            Action::PublishCoreFault { fault } => Some(fault.kind.clone()),
            Action::PublishDeviceFault { fault, .. } => Some(fault.kind.clone()),
            _ => None,
        })
        .collect()
}

#[test]
fn tick_ms_zero_is_rejected() {
    let mut cfg = config();
    cfg.tick_ms = 0;
    assert_eq!(cfg.validate(), Err(ConfigError::TickMsZero));
    cfg.tick_ms = 1;
    assert!(cfg.validate().is_ok());
}

#[test]
fn dispatch_happy_path() {
    let mut c = coordinator();
    c.handle_event(heartbeat("door1", 1_000), 1_000);
    let corr: u128 = 77;
    let (outcome, actions) = c.handle_dispatch_request(&dispatch_req("door1", Some(corr)), 1_100);
    let cid = match outcome {
        DispatchOutcome::Dispatched { command_id, correlation_id } => {
            assert_eq!(correlation_id, corr);
            command_id
        }
        _ => panic!("expected a dispatch"),
    };
    let cmds = published_commands(&actions);
    assert_eq!(cmds.len(), 1);
    let env = cmds[0];
    assert_eq!(env.device_id, "door1");
    assert_eq!(env.schema, "v8");
    assert_eq!(env.sequence, 1);
    assert!(verify_command_hmac_sha256(env, KEY));
    assert_eq!(c.pending.len(), 1);

    // ACCEPTED then COMPLETED; the tick then clears the pending map and
    // remembers the correlation id, and publishes nothing further.
    c.handle_event(ack("door1", cid, corr, AckStatus::Accepted, 1_200), 1_200);
    c.handle_event(ack("door1", cid, corr, AckStatus::Completed, 1_300), 1_300);
    let actions = c.tick_pending_commands(1_400);
    assert!(published_commands(&actions).is_empty());
    assert!(fault_kinds(&actions).is_empty());
    assert_eq!(c.pending.len(), 0);
    assert!(c.dispatch_tracker.is_recent(corr, 1_500, 600_000));
    let actions = c.tick_pending_commands(1_500);
    assert!(actions.is_empty());
}

#[test]
fn ack_timeout_republishes_with_same_command_id_then_faults() {
    let mut c = coordinator();
    c.handle_event(heartbeat("door1", 1_000), 1_000);
    let mut req = dispatch_req("door1", Some(5));
    req.retries = Some(2);
    req.ack_timeout_ms = Some(100);
    let (outcome, actions) = c.handle_dispatch_request(&req, 1_000);
    let first = published_commands(&actions)[0].clone();
    let cid = match outcome {
        DispatchOutcome::Dispatched { command_id, .. } => command_id,
        _ => panic!("expected a dispatch"),
    };

    // two retries: identical command id and sequence each time
    let a1 = c.tick_pending_commands(1_200);
    let r1 = published_commands(&a1);
    assert_eq!(r1.len(), 1);
    assert_eq!(r1[0].command_id, cid);
    assert_eq!(r1[0].sequence, first.sequence);
    let a2 = c.tick_pending_commands(1_400);
    let r2 = published_commands(&a2);
    assert_eq!(r2.len(), 1);
    assert_eq!(r2[0].command_id, cid);
    assert_eq!(r2[0].sequence, first.sequence);

    // retries exhausted: the ack timeout fault, nothing republished
    let a3 = c.tick_pending_commands(1_600);
    assert!(published_commands(&a3).is_empty());
    assert_eq!(fault_kinds(&a3), vec!["COMMAND_ACK_TIMEOUT".to_string()]);
    assert_eq!(c.pending.len(), 0);
}

#[test]
fn no_retry_after_accepted() {
    let mut c = coordinator();
    c.handle_event(heartbeat("door1", 1_000), 1_000);
    let mut req = dispatch_req("door1", Some(6));
    req.ack_timeout_ms = Some(100);
    req.complete_timeout_ms = Some(300);
    let (outcome, _) = c.handle_dispatch_request(&req, 1_000);
    let cid = match outcome {
        DispatchOutcome::Dispatched { command_id, .. } => command_id,
        _ => panic!("expected a dispatch"),
    };
    c.handle_event(ack("door1", cid, 6, AckStatus::Accepted, 1_050), 1_050);
    // long past the ack timeout: no republish, the device owns the action
    let a = c.tick_pending_commands(1_300);
    assert!(published_commands(&a).is_empty());
    assert!(fault_kinds(&a).is_empty());
    // past the completion timeout: the fault, still no republish
    let a = c.tick_pending_commands(1_400);
    assert!(published_commands(&a).is_empty());
    assert_eq!(fault_kinds(&a), vec!["COMMAND_COMPLETE_TIMEOUT".to_string()]);
    assert_eq!(c.pending.len(), 0);
}

#[test]
fn duplicate_correlation_id_is_dropped_while_inflight() {
    let mut c = coordinator();
    c.handle_event(heartbeat("door1", 1_000), 1_000);
    let corr: u128 = 9;
    let (o1, a1) = c.handle_dispatch_request(&dispatch_req("door1", Some(corr)), 1_000);
    assert!(matches!(o1, DispatchOutcome::Dispatched { .. }));
    assert_eq!(published_commands(&a1).len(), 1);
    let (o2, a2) = c.handle_dispatch_request(&dispatch_req("door1", Some(corr)), 1_200);
    assert!(matches!(o2, DispatchOutcome::DroppedDuplicate { .. }));
    assert!(a2.is_empty());
    assert_eq!(c.pending.len(), 1);
}

#[test]
fn recently_completed_correlation_id_is_dropped_within_ttl() {
    let mut c = coordinator();
    c.handle_event(heartbeat("door1", 1_000), 1_000);
    let corr: u128 = 10;
    let (o1, _) = c.handle_dispatch_request(&dispatch_req("door1", Some(corr)), 1_000);
    let cid = match o1 {
        DispatchOutcome::Dispatched { command_id, .. } => command_id,
        _ => panic!("expected a dispatch"),
    };
    c.handle_event(ack("door1", cid, corr, AckStatus::Completed, 1_100), 1_100);
    c.tick_pending_commands(1_200);
    let (o2, a2) = c.handle_dispatch_request(&dispatch_req("door1", Some(corr)), 2_000);
    assert!(matches!(o2, DispatchOutcome::DroppedDuplicate { .. }));
    assert!(a2.is_empty());
    // after the ten-minute TTL the same correlation id dispatches again
    let (o3, _) = c.handle_dispatch_request(&dispatch_req("door1", Some(corr)), 1_200 + 600_001);
    assert!(matches!(o3, DispatchOutcome::Dispatched { .. }));
}

#[test]
fn sequence_wraps_at_the_maximum() {
    let mut c = coordinator();
    c.handle_event(heartbeat("door1", 1_000), 1_000);
    c.device_sequences.set("door1".to_string(), u64::MAX - 1);
    let mut seqs: Vec<u64> = Vec::new();
    for corr in 21..24u128 {
        let (_, actions) = c.handle_dispatch_request(&dispatch_req("door1", Some(corr)), 2_000);
        seqs.push(published_commands(&actions)[0].sequence);
    }
    assert_eq!(seqs, vec![u64::MAX, 0, 1]);
}

#[test]
fn critical_dispatch_needs_arming() {
    let mut c = coordinator();
    c.handle_event(heartbeat("door1", 1_000), 1_000);
    let mut req = dispatch_req("door1", Some(30));
    req.safety_class = SafetyClass::Critical;
    let (o, a) = c.handle_dispatch_request(&req, 1_100);
    assert!(matches!(o, DispatchOutcome::Refused(DispatchRefusal::CriticalNotArmed)));
    assert_eq!(fault_kinds(&a), vec!["DISPATCH_BLOCKED_CRITICAL_NOT_ARMED".to_string()]);
    assert!(published_commands(&a).is_empty());

    // armed and SAFE: the critical dispatch goes out
    let mut cfg = config();
    cfg.critical_dispatch_armed = true;
    let mut c2 = Coordinator::new(cfg);
    c2.runtime.device_registry.set(
        "door1".to_string(),
        DeviceRegistryEntry { safety_class: SafetyClass::NonCritical, enabled: true },
    );
    c2.handle_event(heartbeat("door1", 1_000), 1_000);
    let (o2, _) = c2.handle_dispatch_request(&req, 1_100);
    assert!(matches!(o2, DispatchOutcome::Dispatched { .. }));
}

#[test]
fn refusal_kinds_for_unknown_offline_and_keyless_devices() {
    let mut c = coordinator();
    // a device absent from the registry is refused
    let (o, a) = c.handle_dispatch_request(&dispatch_req("ghost", Some(31)), 1_000);
    assert!(matches!(o, DispatchOutcome::Refused(DispatchRefusal::DeviceDisabled)));
    assert_eq!(fault_kinds(&a), vec!["DISPATCH_BLOCKED_DEVICE_DISABLED".to_string()]);

    // registered but keyless
    c.runtime.device_registry.set(
        "ghost".to_string(),
        DeviceRegistryEntry { safety_class: SafetyClass::NonCritical, enabled: true },
    );
    let (o, a) = c.handle_dispatch_request(&dispatch_req("ghost", Some(31)), 1_000);
    assert!(matches!(o, DispatchOutcome::Refused(DispatchRefusal::MissingKey)));
    assert_eq!(fault_kinds(&a), vec!["DISPATCH_BLOCKED_MISSING_DEVICE_KEY".to_string()]);

    // offline device
    c.handle_event(
        CoreEvent::Device {
            device_id: "door1".to_string(),
            msg: DeviceMessage::Presence(Presence {
                schema: "v8".to_string(),
                room_id: "room1".to_string(),
                device_id: "door1".to_string(),
                status: PresenceStatus::Offline,
                observed_at_unix_ms: 1_000,
            }),
        },
        1_000,
    );
    let (o, a) = c.handle_dispatch_request(&dispatch_req("door1", Some(32)), 1_100);
    assert!(matches!(o, DispatchOutcome::Refused(DispatchRefusal::DeviceOffline)));
    assert_eq!(fault_kinds(&a), vec!["DISPATCH_BLOCKED_DEVICE_OFFLINE".to_string()]);

    // wrong room is ignored without a fault
    let mut req = dispatch_req("door1", Some(33));
    req.room_id = "elsewhere".to_string();
    let (o, a) = c.handle_dispatch_request(&req, 1_200);
    assert!(matches!(o, DispatchOutcome::IgnoredWrongScope));
    assert!(a.is_empty());
}

#[test]
fn fault_report_latches_and_pauses_dispatch() {
    let mut c = coordinator();
    c.handle_event(heartbeat("door1", 1_000), 1_000);
    let ev = CoreEvent::Device {
        device_id: "door1".to_string(),
        msg: DeviceMessage::State(DeviceState {
            schema: "v8".to_string(),
            room_id: "room1".to_string(),
            device_id: "door1".to_string(),
            safety_state: SafetyState {
                kind: SafetyStateKind::Fault,
                reason_code: None,
                latched: false,
            },
            state: JsonValue::Obj(Vec::new()),
            observed_at_unix_ms: 2_000,
        }),
    };
    let (_, actions) = c.handle_event(ev, 2_000);
    assert!(fault_kinds(&actions).contains(&"SAFETY_LATCHED".to_string()));
    assert_eq!(c.runtime.safety_latched_since_unix_ms, Some(2_000));
    assert_eq!(c.runtime.dispatch_paused_reason, Some(PauseReason::SafetyLatched));

    let (o, a) = c.handle_dispatch_request(&dispatch_req("door1", Some(40)), 2_100);
    assert!(matches!(o, DispatchOutcome::Refused(DispatchRefusal::Paused)));
    assert_eq!(fault_kinds(&a), vec!["DISPATCH_BLOCKED_PAUSED".to_string()]);
}

fn control(op: &str) -> CoreControlRequest {
    CoreControlRequest {
        schema: "v8".to_string(),
        room_id: "room1".to_string(),
        op: op.to_string(),
        parameters: JsonValue::Obj(Vec::new()),
        requested_at_unix_ms: 0,
    }
}

#[test]
fn safety_reset_denied_while_a_device_is_offline() {
    let mut c = coordinator();
    c.handle_event(heartbeat("door1", 1_000), 1_000);
    // latch via a faulty report from a second device, which then goes offline
    c.handle_event(
        ack("aux1", 1, 1, AckStatus::Rejected, 1_100),
        1_100,
    );
    let latch_report = CoreEvent::Device {
        device_id: "aux1".to_string(),
        msg: DeviceMessage::Heartbeat(Heartbeat {
            schema: "v8".to_string(),
            room_id: "room1".to_string(),
            device_id: "aux1".to_string(),
            uptime_ms: 1,
            firmware_version: "fw-1".to_string(),
            safety_state: SafetyState {
                kind: SafetyStateKind::EStop,
                reason_code: Some("BUTTON".to_string()),
                latched: true,
            },
            last_error: None,
            observed_at_unix_ms: 1_200,
        }),
    };
    c.handle_event(latch_report, 1_200);
    assert_eq!(c.runtime.safety_latched_since_unix_ms, Some(1_200));

    // aux1 still reports E_STOP, so the reset is denied and the latch stays
    let (o, a) = c.handle_core_control(&control("RESET_SAFETY_LATCH"), 1_300);
    assert_eq!(o, ControlOutcome::ResetDenied);
    assert_eq!(fault_kinds(&a), vec!["SAFETY_RESET_DENIED".to_string()]);
    assert_eq!(c.runtime.safety_latched_since_unix_ms, Some(1_200));
}

#[test]
fn safety_reset_succeeds_when_all_devices_are_safe() {
    let mut c = coordinator();
    c.handle_event(heartbeat("door1", 1_000), 1_000);
    let fault_state = CoreEvent::Device {
        device_id: "door1".to_string(),
        msg: DeviceMessage::State(DeviceState {
            schema: "v8".to_string(),
            room_id: "room1".to_string(),
            device_id: "door1".to_string(),
            safety_state: SafetyState {
                kind: SafetyStateKind::Fault,
                reason_code: None,
                latched: false,
            },
            state: JsonValue::Obj(Vec::new()),
            observed_at_unix_ms: 1_100,
        }),
    };
    c.handle_event(fault_state, 1_100);
    assert!(c.runtime.safety_latched_since_unix_ms.is_some());

    // pause and resume do not clear the latch
    c.handle_core_control(&control("PAUSE_DISPATCH"), 1_150);
    c.handle_core_control(&control("RESUME_DISPATCH"), 1_160);
    assert!(c.runtime.safety_latched_since_unix_ms.is_some());

    // the device reports SAFE again: the reset clears the latch
    c.handle_event(heartbeat("door1", 1_200), 1_200);
    let (o, a) = c.handle_core_control(&control("RESET_SAFETY_LATCH"), 1_300);
    assert_eq!(o, ControlOutcome::ResetDone);
    assert_eq!(fault_kinds(&a), vec!["SAFETY_LATCH_RESET".to_string()]);
    assert!(c.runtime.safety_latched_since_unix_ms.is_none());
    assert!(c.runtime.dispatch_paused_reason.is_none());
}

#[test]
fn control_token_is_enforced() {
    let mut cfg = config();
    cfg.core_control_token = Some("sesame".to_string());
    let mut c = Coordinator::new(cfg);
    let (o, a) = c.handle_core_control(&control("PAUSE_DISPATCH"), 1_000);
    assert_eq!(o, ControlOutcome::Unauthorized);
    assert_eq!(fault_kinds(&a), vec!["CONTROL_UNAUTHORIZED".to_string()]);

    let mut ok = control("PAUSE_DISPATCH");
    ok.parameters = JsonValue::Obj(vec![(
        "token".to_string(),
        JsonValue::Str("sesame".to_string()),
    )]);
    let (o, _) = c.handle_core_control(&ok, 1_100);
    assert_eq!(o, ControlOutcome::Paused);
}

#[test]
fn broker_disconnect_clears_pending_and_pauses() {
    let mut c = coordinator();
    c.handle_event(heartbeat("door1", 1_000), 1_000);
    c.handle_dispatch_request(&dispatch_req("door1", Some(50)), 1_000);
    assert_eq!(c.pending.len(), 1);

    let (_, actions) = c.handle_event(CoreEvent::Disconnected("gone".to_string()), 2_000);
    assert!(actions.is_empty());
    assert_eq!(c.pending.len(), 0);
    assert_eq!(c.runtime.dispatch_paused_reason, Some(PauseReason::BrokerDown));

    // nothing is published until an explicit dispatch request, and while
    // paused even that is refused
    assert!(c.tick_pending_commands(2_100).is_empty());
    let (o, _) = c.handle_dispatch_request(&dispatch_req("door1", Some(51)), 2_200);
    assert!(matches!(o, DispatchOutcome::Refused(DispatchRefusal::Paused)));

    // the reconnect raises the outage fault; only RESUME unpauses
    let (_, a) = c.handle_event(CoreEvent::Connected, 2_300);
    assert_eq!(fault_kinds(&a), vec!["BROKER_OUTAGE".to_string()]);
    assert_eq!(c.runtime.dispatch_paused_reason, Some(PauseReason::BrokerDown));
    c.handle_core_control(&control("RESUME_DISPATCH"), 2_400);
    assert!(c.runtime.dispatch_paused_reason.is_none());
}

#[test]
fn room_safety_rollup_takes_the_worst_kind() {
    let mut c = coordinator();
    c.handle_event(heartbeat("door1", 1_000), 1_000);
    c.refresh_room_safety();
    assert_eq!(c.runtime.room_safety.kind, SafetyStateKind::Safe);

    // a BLOCKED report raises the rollup; adding a SAFE device never lowers it
    let blocked = CoreEvent::Device {
        device_id: "door2".to_string(),
        msg: DeviceMessage::Heartbeat(Heartbeat {
            schema: "v8".to_string(),
            room_id: "room1".to_string(),
            device_id: "door2".to_string(),
            uptime_ms: 1,
            firmware_version: "fw-1".to_string(),
            safety_state: SafetyState {
                kind: SafetyStateKind::Blocked,
                reason_code: None,
                latched: false,
            },
            last_error: None,
            observed_at_unix_ms: 1_100,
        }),
    };
    c.handle_event(blocked, 1_100);
    c.refresh_room_safety();
    assert_eq!(c.runtime.room_safety.kind, SafetyStateKind::Blocked);
    c.handle_event(heartbeat("door3", 1_200), 1_200);
    c.refresh_room_safety();
    assert_eq!(c.runtime.room_safety.kind, SafetyStateKind::Blocked);
}

#[test]
fn core_status_counts_devices() {
    let mut c = coordinator();
    c.handle_event(heartbeat("door1", 1_000), 1_000);
    c.handle_event(heartbeat("door2", 1_000), 1_000);
    let doc = c.core_status_doc(500, 1_500);
    assert_eq!(doc.device_count, 2);
    assert_eq!(doc.offline_device_count, 0);
    assert_eq!(doc.room_id, "room1");
    assert!(doc.dispatch_paused_reason.is_none());

    // the sweep marks aged-out heartbeats offline
    let actions = c.sweep_device_offline(10_000);
    let kinds = fault_kinds(&actions);
    assert_eq!(kinds, vec!["DEVICE_OFFLINE".to_string(), "DEVICE_OFFLINE".to_string()]);
    let doc = c.core_status_doc(9_000, 10_000);
    assert_eq!(doc.offline_device_count, 2);
}

#[test]
fn event_outcome_reports_routing() {
    let mut c = coordinator();
    let (o, _) = c.handle_event(heartbeat("door1", 1_000), 1_000);
    assert!(matches!(o, EventOutcome::Routine));
    let (o, _) = c.handle_event(
        CoreEvent::Control(control("STOP_GRAPH")),
        1_100,
    );
    assert!(matches!(o, EventOutcome::Control(ControlOutcome::GraphStopIgnored)));
}

#[test]
fn safety_reset_tokens_are_single_use_and_expire() {
    let mut tokens = sentient_core::resetflow::SafetyResetTokens::new();
    tokens.request(42, "alice".to_string(), Some("drill".to_string()), 1_000);
    tokens.request(43, "bob".to_string(), None, 1_000);

    // unknown token: nothing
    assert!(tokens.confirm(99, 1_500).is_none());
    // valid token consumed exactly once
    let p = tokens.confirm(42, 30_000).expect("token is valid");
    assert_eq!(p.requested_by, "alice");
    assert_eq!(p.reason.as_deref(), Some("drill"));
    assert!(tokens.confirm(42, 30_001).is_none());
    // an expired token confirms nothing
    assert!(tokens.confirm(43, 1_000 + 60_001).is_none());

    // the sweep drops expired tokens
    tokens.request(44, "cara".to_string(), None, 100_000);
    tokens.request(45, "dave".to_string(), None, 200_000);
    tokens.sweep(190_000);
    assert!(tokens.confirm(44, 190_001).is_none());
    assert!(tokens.confirm(45, 210_000).is_some());
}

#[test]
fn dispatch_refused_when_disabled_or_dry_run() {
    let mut cfg = config();
    cfg.dispatch_enabled = false;
    let mut c = Coordinator::new(cfg);
    c.handle_event(heartbeat("door1", 1_000), 1_000);
    let (o, a) = c.handle_dispatch_request(&dispatch_req("door1", Some(60)), 1_100);
    assert!(matches!(o, DispatchOutcome::Refused(DispatchRefusal::Disabled)));
    assert_eq!(fault_kinds(&a), vec!["DISPATCH_BLOCKED_DISABLED".to_string()]);

    let mut cfg = config();
    cfg.dry_run = true;
    let mut c = Coordinator::new(cfg);
    c.handle_event(heartbeat("door1", 1_000), 1_000);
    let (o, a) = c.handle_dispatch_request(&dispatch_req("door1", Some(61)), 1_100);
    assert!(matches!(o, DispatchOutcome::Refused(DispatchRefusal::DryRun)));
    assert_eq!(fault_kinds(&a), vec!["DISPATCH_BLOCKED_DRY_RUN".to_string()]);
    assert!(published_commands(&a).is_empty());
}

#[test]
fn dispatch_refused_for_disabled_and_unsafe_devices() {
    let mut c = coordinator();
    c.handle_event(heartbeat("door1", 1_000), 1_000);
    c.runtime.device_registry.set(
        "door1".to_string(),
        DeviceRegistryEntry { safety_class: SafetyClass::NonCritical, enabled: false },
    );
    let (o, a) = c.handle_dispatch_request(&dispatch_req("door1", Some(70)), 1_100);
    assert!(matches!(o, DispatchOutcome::Refused(DispatchRefusal::DeviceDisabled)));
    assert_eq!(fault_kinds(&a), vec!["DISPATCH_BLOCKED_DEVICE_DISABLED".to_string()]);

    // a registry-critical device whose report is not SAFE is refused even
    // when arming is on and the request asked for NON_CRITICAL
    let mut cfg = config();
    cfg.critical_dispatch_armed = true;
    let mut c = Coordinator::new(cfg);
    c.runtime.device_registry.set(
        "door1".to_string(),
        DeviceRegistryEntry { safety_class: SafetyClass::Critical, enabled: true },
    );
    let ev = CoreEvent::Device {
        device_id: "door1".to_string(),
        msg: DeviceMessage::Heartbeat(Heartbeat {
            schema: "v8".to_string(),
            room_id: "room1".to_string(),
            device_id: "door1".to_string(),
            uptime_ms: 1,
            firmware_version: "fw-1".to_string(),
            safety_state: SafetyState {
                kind: SafetyStateKind::Maintenance,
                reason_code: None,
                latched: false,
            },
            last_error: None,
            observed_at_unix_ms: 1_000,
        }),
    };
    c.handle_event(ev, 1_000);
    let (o, a) = c.handle_dispatch_request(&dispatch_req("door1", Some(71)), 1_100);
    assert!(matches!(o, DispatchOutcome::Refused(DispatchRefusal::DeviceNotSafe)));
    assert_eq!(fault_kinds(&a), vec!["DISPATCH_BLOCKED_DEVICE_NOT_SAFE".to_string()]);
}

#[test]
fn latched_rollup_promotes_to_fault_but_keeps_estop() {
    let mut c = coordinator();
    c.handle_event(heartbeat("door1", 1_000), 1_000);
    // a latched BLOCKED report sets the latch; the rollup promotes to FAULT
    let ev = CoreEvent::Device {
        device_id: "door1".to_string(),
        msg: DeviceMessage::Heartbeat(Heartbeat {
            schema: "v8".to_string(),
            room_id: "room1".to_string(),
            device_id: "door1".to_string(),
            uptime_ms: 1,
            firmware_version: "fw-1".to_string(),
            safety_state: SafetyState {
                kind: SafetyStateKind::Blocked,
                reason_code: None,
                latched: true,
            },
            last_error: None,
            observed_at_unix_ms: 1_100,
        }),
    };
    c.handle_event(ev, 1_100);
    c.refresh_room_safety();
    assert_eq!(c.runtime.room_safety.kind, SafetyStateKind::Fault);
    assert!(c.runtime.room_safety.latched);

    // an E_STOP report stays E_STOP under the latch
    let ev = CoreEvent::Device {
        device_id: "door2".to_string(),
        msg: DeviceMessage::Heartbeat(Heartbeat {
            schema: "v8".to_string(),
            room_id: "room1".to_string(),
            device_id: "door2".to_string(),
            uptime_ms: 1,
            firmware_version: "fw-1".to_string(),
            safety_state: SafetyState {
                kind: SafetyStateKind::EStop,
                reason_code: None,
                latched: false,
            },
            last_error: None,
            observed_at_unix_ms: 1_200,
        }),
    };
    c.handle_event(ev, 1_200);
    c.refresh_room_safety();
    assert_eq!(c.runtime.room_safety.kind, SafetyStateKind::EStop);

    let doc = c.core_status_doc(100, 1_300);
    assert_eq!(doc.dispatch_paused_reason.as_deref(), Some("SAFETY_LATCHED"));
}


#[test]
fn dropped_duplicate_consumes_no_sequence_number() {
    let mut c = coordinator();
    c.handle_event(heartbeat("door1", 1_000), 1_000);
    let corr: u128 = 90;
    let (_, a1) = c.handle_dispatch_request(&dispatch_req("door1", Some(corr)), 1_000);
    assert_eq!(published_commands(&a1)[0].sequence, 1);
    // the duplicate is dropped and does not advance the per-device sequence
    let (o2, _) = c.handle_dispatch_request(&dispatch_req("door1", Some(corr)), 1_200);
    assert!(matches!(o2, DispatchOutcome::DroppedDuplicate { .. }));
    let (_, a3) = c.handle_dispatch_request(&dispatch_req("door1", Some(91)), 1_300);
    assert_eq!(published_commands(&a3)[0].sequence, 2);
}

#[test]
fn unknown_ack_rebinds_the_correlation() {
    let mut c = coordinator();
    c.handle_event(heartbeat("door1", 1_000), 1_000);
    // an ack for a command id the pending map has never seen, as after a
    // restart: the correlation re-binds, so a duplicate request with the
    // same correlation id mints no new physical attempt
    let corr: u128 = 95;
    let cid: u128 = 0xdead;
    c.handle_event(ack("door1", cid, corr, AckStatus::Accepted, 1_100), 1_100);
    assert_eq!(c.dispatch_tracker.inflight_command_id(corr), Some(cid));
}

#[test]
fn fault_details_carry_their_context() {
    // the paused-dispatch refusal names the device and the pause reason
    let mut c = coordinator();
    c.handle_event(heartbeat("door1", 1_000), 1_000);
    c.handle_core_control(&control("PAUSE_DISPATCH"), 1_100);
    let (_, a) = c.handle_dispatch_request(&dispatch_req("door1", Some(80)), 1_200);
    let fault = match &a[0] {
        Action::PublishCoreFault { fault } => fault,
        _ => panic!("expected the paused fault"),
    };
    match sentient_core::json::json_pointer(&fault.details, "/reason") {
        Some(JsonValue::Str(s)) => assert_eq!(s, "MANUAL_PAUSE"),
        _ => panic!("expected the pause reason in details"),
    }
    match sentient_core::json::json_pointer(&fault.details, "/device_id") {
        Some(JsonValue::Str(s)) => assert_eq!(s, "door1"),
        _ => panic!("expected the device in details"),
    }

    // the broker-outage fault names the outage start
    let mut c = coordinator();
    c.handle_event(CoreEvent::Disconnected("gone".to_string()), 4_000);
    let (_, a) = c.handle_event(CoreEvent::Connected, 5_000);
    let fault = match &a[0] {
        Action::PublishCoreFault { fault } => fault,
        _ => panic!("expected the outage fault"),
    };
    match sentient_core::json::json_pointer(&fault.details, "/down_since_unix_ms") {
        Some(JsonValue::Num(s)) => assert_eq!(s, "4000"),
        _ => panic!("expected the outage start in details"),
    }

    // the reset denial lists exactly the blocking devices
    let mut c = coordinator();
    c.handle_event(heartbeat("door1", 1_000), 1_000);
    let latch = CoreEvent::Device {
        device_id: "aux1".to_string(),
        msg: DeviceMessage::Heartbeat(Heartbeat {
            schema: "v8".to_string(),
            room_id: "room1".to_string(),
            device_id: "aux1".to_string(),
            uptime_ms: 1,
            firmware_version: "fw-1".to_string(),
            safety_state: SafetyState {
                kind: SafetyStateKind::EStop,
                reason_code: None,
                latched: true,
            },
            last_error: None,
            observed_at_unix_ms: 1_100,
        }),
    };
    c.handle_event(latch, 1_100);
    let (o, a) = c.handle_core_control(&control("RESET_SAFETY_LATCH"), 1_200);
    assert_eq!(o, ControlOutcome::ResetDenied);
    let fault = match &a[0] {
        Action::PublishCoreFault { fault } => fault,
        _ => panic!("expected the denial fault"),
    };
    assert!(sentient_core::json::json_pointer(&fault.details, "/aux1").is_some());
    assert!(sentient_core::json::json_pointer(&fault.details, "/door1").is_none());
}
