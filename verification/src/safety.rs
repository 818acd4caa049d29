//! Room safety rollup and fail-closed latching.
//!
//! The rollup is the worst reported device kind; an active latch promotes
//! it to FAULT (E_STOP stays E_STOP) and marks it latched. A latch is set
//! by any latched or FAULT/E_STOP report and cleared only by the operator
//! reset flow in the control plane.

use vstd::prelude::*;

use crate::actions::{core_fault, device_details, Action};
use crate::maps::StrMap;
use crate::protocol::{spec_severity_rank, SafetyState, SafetyStateKind};
use crate::state::RuntimeState;
use crate::tracker::DeviceStatus;

verus! {

/// The kind a device contributes to the rollup: its last reported kind,
/// or SAFE while it has never reported.
pub open spec fn spec_contributed_kind(d: DeviceStatus) -> SafetyStateKind {
    match d.last_reported_safety {
        Some(s) => s.kind,
        None => SafetyStateKind::Safe,
    }
}

pub open spec fn spec_max_severity(a: SafetyStateKind, b: SafetyStateKind) -> SafetyStateKind {
    if spec_severity_rank(a) >= spec_severity_rank(b) {
        a
    } else {
        b
    }
}

/// Worst reported kind over a device table.
pub open spec fn spec_worst_kind(s: Seq<(Seq<char>, DeviceStatus)>) -> SafetyStateKind
    decreases s.len(),
{
    if s.len() == 0 {
        SafetyStateKind::Safe
    } else {
        spec_max_severity(spec_contributed_kind(s[0].1), spec_worst_kind(s.drop_first()))
    }
}

/// The room safety document: worst kind, promoted to at least FAULT and
/// marked latched while a latch is active.
pub open spec fn spec_room_safety(s: Seq<(Seq<char>, DeviceStatus)>, latched: bool) -> SafetyState {
    let worst = spec_worst_kind(s);
    if latched {
        SafetyState {
            kind: if worst == SafetyStateKind::EStop {
                SafetyStateKind::EStop
            } else {
                SafetyStateKind::Fault
            },
            reason_code: None,
            latched: true,
        }
    } else {
        SafetyState { kind: worst, reason_code: None, latched: false }
    }
}

pub proof fn lemma_worst_kind_snoc(s: Seq<(Seq<char>, DeviceStatus)>, x: (Seq<char>, DeviceStatus))
    ensures
        spec_worst_kind(s.push(x)) == spec_max_severity(spec_worst_kind(s), spec_contributed_kind(x.1)),
    decreases s.len(),
{
    if s.len() == 0 {
        assert(s.push(x)[0] == x);
        assert(s.push(x).drop_first() =~= s);
    } else {
        assert(s.push(x)[0] == s[0]);
        assert(s.push(x).drop_first() =~= s.drop_first().push(x));
        lemma_worst_kind_snoc(s.drop_first(), x);
    }
}

pub fn max_severity(a: SafetyStateKind, b: SafetyStateKind) -> (r: SafetyStateKind)
    ensures
        r == spec_max_severity(a, b),
{
    if crate::protocol::severity_rank(a) >= crate::protocol::severity_rank(b) {
        a
    } else {
        b
    }
}

/// Compute the room safety rollup over all known devices.
pub fn compute_room_safety(devices: &StrMap<DeviceStatus>, safety_latched: bool) -> (r: SafetyState)
    ensures
        r == spec_room_safety(devices.entries(), safety_latched),
{
    let mut worst = SafetyStateKind::Safe;
    let n: usize = devices.len();
    let mut i: usize = 0;
    proof {
        assert(devices.entries().take(0) =~= Seq::<(Seq<char>, DeviceStatus)>::empty());
    }
    while i < n
        invariant
            i <= n,
            n == devices.entries().len(),
            worst == spec_worst_kind(devices.entries().take(i as int)),
        decreases n - i,
    {
        let d = devices.val_at(i);
        let k = match &d.last_reported_safety {
            Some(s) => s.kind,
            None => SafetyStateKind::Safe,
        };
        proof {
            lemma_worst_kind_snoc(
                devices.entries().take(i as int),
                devices.entries()[i as int],
            );
            assert(devices.entries().take(i + 1) =~= devices.entries().take(i as int).push(
                devices.entries()[i as int],
            ));
        }
        worst = max_severity(worst, k);
        i = i + 1;
    }
    proof {
        assert(devices.entries().take(n as int) =~= devices.entries());
    }
    if safety_latched {
        let kind = if worst == SafetyStateKind::EStop {
            SafetyStateKind::EStop
        } else {
            SafetyStateKind::Fault
        };
        SafetyState { kind, reason_code: None, latched: true }
    } else {
        SafetyState { kind: worst, reason_code: None, latched: false }
    }
}

/// The rollup is monotone in the device reports: one more device never
/// lowers the rollup severity, whatever its report.
pub proof fn lemma_room_safety_monotone(
    s: Seq<(Seq<char>, DeviceStatus)>,
    extra: (Seq<char>, DeviceStatus),
    latched: bool,
)
    ensures
        spec_severity_rank(spec_room_safety(s.push(extra), latched).kind) >= spec_severity_rank(
            spec_room_safety(s, latched).kind,
        ),
{
    lemma_worst_kind_snoc(s, extra);
}

/// Whether a report forces the room latch: it is itself latched, or its
/// kind is FAULT or E_STOP.
pub open spec fn spec_report_latches(safety: SafetyState) -> bool {
    safety.latched || safety.kind == SafetyStateKind::Fault || safety.kind == SafetyStateKind::EStop
}

/// Latch on a bad report. When no latch is active and the report is
/// latched or FAULT/E_STOP: record the latch instant, re-derive the pause
/// reason, and raise a CRITICAL `SAFETY_LATCHED` fault. Otherwise nothing
/// changes. Only the control-plane reset clears the latch again.
pub fn maybe_latch_safety(
    runtime: &mut RuntimeState,
    room_id: &String,
    device_id: &String,
    safety: &SafetyState,
    observed_at_unix_ms: u64,
) -> (actions: Vec<Action>)
    requires
        old(runtime).wf(),
    ensures
        final(runtime).wf(),
        final(runtime).device_registry == old(runtime).device_registry,
        final(runtime).room_safety == old(runtime).room_safety,
        final(runtime).manual_pause == old(runtime).manual_pause,
        final(runtime).broker_outage_since_unix_ms == old(runtime).broker_outage_since_unix_ms,
        if old(runtime).safety_latched_since_unix_ms is None && spec_report_latches(*safety) {
            &&& final(runtime).safety_latched_since_unix_ms == Some(observed_at_unix_ms)
            &&& actions@.len() == 1
            &&& crate::actions::is_core_fault(actions@[0], "SAFETY_LATCHED"@, "CRITICAL"@)
            &&& (actions@[0] matches crate::actions::Action::PublishCoreFault { fault }
                && crate::json::obj_get_m(crate::json::jv(fault.details), "device_id"@) == Some(
                crate::json::Jv::Str(device_id@),
            ))
        } else {
            &&& final(runtime).safety_latched_since_unix_ms == old(
                runtime,
            ).safety_latched_since_unix_ms
            &&& *final(runtime) == *old(runtime)
            &&& actions@.len() == 0
        },
{
    let mut actions: Vec<Action> = Vec::new();
    if runtime.safety_latched_since_unix_ms.is_some() {
        return actions;
    }
    let should_latch = safety.latched || match safety.kind {
        SafetyStateKind::Fault | SafetyStateKind::EStop => true,
        _ => false,
    };
    if !should_latch {
        return actions;
    }
    runtime.safety_latched_since_unix_ms = Some(observed_at_unix_ms);
    runtime.recompute_dispatch_pause_reason();
    let fault = core_fault(
        room_id,
        "SAFETY_LATCHED",
        "CRITICAL",
        "Room safety latched; dispatch paused until manually reset",
        observed_at_unix_ms,
        device_details(device_id),
    );
    actions.push(Action::PublishCoreFault { fault });
    actions
}

} // verus!
