//! Graph runner scenarios: waiting on retained device state, dispatch
//! nodes suspending on command completion, timeouts, and the reload
//! interlocks.

use sentient_core::actions::Action;
use sentient_core::coordinator::{
    ControlOutcome, CoreEvent, Coordinator, DeviceMessage, DispatchOutcome,
};
use sentient_core::graph::{Graph, GraphNode, NextRef, StartRef};
use sentient_core::json::JsonValue;
use sentient_core::maps::StrMap;
use sentient_core::protocol::{
    AckStatus, CommandAck, CommandAction, CoreControlRequest, DeviceState, Heartbeat, SafetyClass,
    SafetyState, SafetyStateKind,
};
use sentient_core::state::{CoreConfig, DeviceRegistryEntry};

const KEY: &[u8] = b"0123456789abcdef";

fn config() -> CoreConfig {
    let mut keys: StrMap<Vec<u8>> = StrMap::new();
    keys.set("door1".to_string(), KEY.to_vec());
    CoreConfig {
        room_id: "room1".to_string(),
        dry_run: false,
        tick_ms: 1,
        device_offline_ms: 3000,
        device_hmac_keys: keys,
        dispatch_enabled: true,
        critical_dispatch_armed: false,
        dispatch_default_retries: 2,
        dispatch_ack_timeout_ms: 2000,
        dispatch_complete_timeout_ms: 5000,
        graph_autostart: false,
        event_store_enabled: true,
        core_control_token: None,
    }
}

fn coordinator() -> Coordinator {
    let mut c = Coordinator::new(config());
    c.runtime.device_registry.set(
        "door1".to_string(),
        DeviceRegistryEntry { safety_class: SafetyClass::NonCritical, enabled: true },
    );
    c
}

fn safe() -> SafetyState {
    SafetyState { kind: SafetyStateKind::Safe, reason_code: None, latched: false }
}

fn heartbeat(dev: &str, now: u64) -> CoreEvent {
    CoreEvent::Device {
        device_id: dev.to_string(),
        msg: DeviceMessage::Heartbeat(Heartbeat {
            schema: "v8".to_string(),
            room_id: "room1".to_string(),
            device_id: dev.to_string(),
            uptime_ms: 1,
            firmware_version: "fw-1".to_string(),
            safety_state: safe(),
            last_error: None,
            observed_at_unix_ms: now,
        }),
    }
}

fn retained_state(dev: &str, state: JsonValue, now: u64) -> CoreEvent {
    CoreEvent::Device {
        device_id: dev.to_string(),
        msg: DeviceMessage::State(DeviceState {
            schema: "v8".to_string(),
            room_id: "room1".to_string(),
            device_id: dev.to_string(),
            safety_state: safe(),
            state,
            observed_at_unix_ms: now,
        }),
    }
}

fn control(op: &str) -> CoreControlRequest {
    CoreControlRequest {
        schema: "v8".to_string(),
        room_id: "room1".to_string(),
        op: op.to_string(),
        parameters: JsonValue::Obj(Vec::new()),
        requested_at_unix_ms: 0,
    }
}

fn wait_graph(timeout_ms: Option<u64>) -> Graph {
    let mut nodes: StrMap<GraphNode> = StrMap::new();
    nodes.set(
        "wait".to_string(),
        GraphNode::WaitStateEquals {
            device_id: "door1".to_string(),
            pointer: "/position".to_string(),
            equals: JsonValue::Str("OPEN".to_string()),
            timeout_ms,
            next: Some(NextRef::One("done".to_string())),
        },
    );
    nodes.set("done".to_string(), GraphNode::Noop { next: None });
    Graph {
        schema: "v8".to_string(),
        room_id: "room1".to_string(),
        start: StartRef::One("wait".to_string()),
        nodes,
    }
}

fn fault_kinds(actions: &[Action]) -> Vec<String> {
    actions
        .iter()
        .filter_map(|a| match a {
            Action::PublishCoreFault { fault } => Some(fault.kind.clone()),
            Action::PublishDeviceFault { fault, .. } => Some(fault.kind.clone()),
            _ => None,
        })
        .collect()
}

#[test]
fn wait_state_equals_advances_when_the_state_matches() {
    let mut c = coordinator();
    c.handle_event(heartbeat("door1", 0), 0);
    let a = c.apply_graph_reload(Some((wait_graph(Some(2_000)), 1)), 0);
    assert_eq!(fault_kinds(&a), vec!["GRAPH_RELOADED".to_string()]);
    let (o, _) = c.handle_core_control(&control("START_GRAPH"), 0);
    assert_eq!(o, ControlOutcome::GraphStarted);
    assert!(c.graph.is_running());

    // no retained state yet: the node stays active, no timeout
    let a = c.tick_graph_runner(100);
    assert!(a.is_empty());
    assert!(c.graph.is_running());

    // the state arrives at t=800; the next tick advances within budget
    c.handle_event(
        retained_state(
            "door1",
            JsonValue::Obj(vec![(
                "position".to_string(),
                JsonValue::Str("OPEN".to_string()),
            )]),
            800,
        ),
        800,
    );
    let a = c.tick_graph_runner(900);
    assert!(fault_kinds(&a).is_empty());
    // "wait" advanced to "done"; the following tick finishes the graph
    let a = c.tick_graph_runner(901);
    assert!(fault_kinds(&a).is_empty());
    assert!(!c.graph.is_running());
}

#[test]
fn wait_state_equals_times_out_and_aborts() {
    let mut c = coordinator();
    c.handle_event(heartbeat("door1", 0), 0);
    c.apply_graph_reload(Some((wait_graph(Some(2_000)), 1)), 0);
    c.handle_core_control(&control("START_GRAPH"), 0);
    c.tick_graph_runner(0);
    let a = c.tick_graph_runner(2_500);
    assert_eq!(fault_kinds(&a), vec!["GRAPH_TIMEOUT".to_string()]);
    assert!(!c.graph.is_running());
}

#[test]
fn dispatch_node_waits_for_the_command_to_terminate() {
    let mut nodes: StrMap<GraphNode> = StrMap::new();
    nodes.set(
        "open".to_string(),
        GraphNode::Dispatch {
            device_id: "door1".to_string(),
            action: CommandAction::Open,
            parameters: JsonValue::Obj(Vec::new()),
            safety_class: SafetyClass::NonCritical,
            next: Some(NextRef::One("done".to_string())),
        },
    );
    nodes.set("done".to_string(), GraphNode::Noop { next: None });
    let g = Graph {
        schema: "v8".to_string(),
        room_id: "room1".to_string(),
        start: StartRef::One("open".to_string()),
        nodes,
    };

    let mut c = coordinator();
    c.handle_event(heartbeat("door1", 0), 0);
    c.apply_graph_reload(Some((g, 2)), 0);
    c.handle_core_control(&control("START_GRAPH"), 0);

    // the dispatch tick publishes one signed command and suspends the node
    let a = c.tick_graph_runner(100);
    let cmds: Vec<_> = a
        .iter()
        .filter_map(|x| match x {
            Action::PublishCommand { envelope, .. } => Some(envelope.clone()),
            _ => None,
        })
        .collect();
    assert_eq!(cmds.len(), 1);
    assert!(c.graph.is_running());
    assert_eq!(c.pending.len(), 1);

    // further ticks publish nothing while the command is pending
    let a = c.tick_graph_runner(200);
    assert!(a.is_empty());

    // the command completes; the graph advances and finishes
    let cmd = &cmds[0];
    c.handle_event(
        CoreEvent::Device {
            device_id: "door1".to_string(),
            msg: DeviceMessage::Ack(CommandAck {
                schema: "v8".to_string(),
                room_id: "room1".to_string(),
                device_id: "door1".to_string(),
                command_id: cmd.command_id,
                correlation_id: cmd.correlation_id,
                status: AckStatus::Completed,
                reason_code: None,
                safety_state: safe(),
                observed_at_unix_ms: 300,
            }),
        },
        300,
    );
    c.tick_pending_commands(400);
    assert_eq!(c.pending.len(), 0);
    let a = c.tick_graph_runner(500);
    assert!(fault_kinds(&a).is_empty());
    let _ = c.tick_graph_runner(501);
    assert!(!c.graph.is_running());
}

#[test]
fn graph_dispatch_failure_aborts_the_graph() {
    // an unregistered device: admission refuses, the graph aborts
    let mut nodes: StrMap<GraphNode> = StrMap::new();
    nodes.set(
        "open".to_string(),
        GraphNode::Dispatch {
            device_id: "ghost".to_string(),
            action: CommandAction::Open,
            parameters: JsonValue::Obj(Vec::new()),
            safety_class: SafetyClass::NonCritical,
            next: None,
        },
    );
    let g = Graph {
        schema: "v8".to_string(),
        room_id: "room1".to_string(),
        start: StartRef::One("open".to_string()),
        nodes,
    };
    let mut c = coordinator();
    c.apply_graph_reload(Some((g, 3)), 0);
    c.handle_core_control(&control("START_GRAPH"), 0);
    let a = c.tick_graph_runner(100);
    let kinds = fault_kinds(&a);
    assert!(kinds.contains(&"DISPATCH_BLOCKED_DEVICE_DISABLED".to_string()));
    assert!(kinds.contains(&"GRAPH_DISPATCH_FAILED".to_string()));
    assert!(!c.graph.is_running());
}

#[test]
fn reload_interlocks_and_scope_checks() {
    let mut c = coordinator();
    c.apply_graph_reload(Some((wait_graph(None), 1)), 0);
    c.handle_core_control(&control("START_GRAPH"), 0);

    // running: reload denied
    let (o, a) = c.handle_core_control(&control("RELOAD_GRAPH"), 100);
    assert_eq!(o, ControlOutcome::GraphReloadDenied);
    assert_eq!(fault_kinds(&a), vec!["GRAPH_RELOAD_DENIED".to_string()]);

    // stopped but not paused: still denied
    c.handle_core_control(&control("STOP_GRAPH"), 200);
    let (o, _) = c.handle_core_control(&control("RELOAD_GRAPH"), 300);
    assert_eq!(o, ControlOutcome::GraphReloadDenied);

    // paused: the reload is admitted and the caller loads the graph
    c.handle_core_control(&control("PAUSE_DISPATCH"), 400);
    let (o, a) = c.handle_core_control(&control("RELOAD_GRAPH"), 500);
    assert_eq!(o, ControlOutcome::GraphReloadRequested);
    assert!(a.is_empty());

    // a graph for another room is refused at reload
    let mut foreign = wait_graph(None);
    foreign.room_id = "elsewhere".to_string();
    let a = c.apply_graph_reload(Some((foreign, 9)), 600);
    assert_eq!(fault_kinds(&a), vec!["GRAPH_RELOAD_FAILED".to_string()]);
    assert_eq!(c.graph.graph_version, Some(1));

    // a start while paused is denied
    let (o, a) = c.handle_core_control(&control("START_GRAPH"), 700);
    assert_eq!(o, ControlOutcome::GraphStartDenied);
    assert_eq!(fault_kinds(&a), vec!["GRAPH_START_DENIED".to_string()]);
}

#[test]
fn autostart_occupies_the_start_nodes() {
    let mut cfg = config();
    cfg.graph_autostart = true;
    let mut c = Coordinator::new(cfg);
    c.apply_graph_reload(Some((wait_graph(None), 4)), 0);
    assert!(!c.graph.is_running());
    c.maybe_autostart();
    assert!(c.graph.is_running());
}
