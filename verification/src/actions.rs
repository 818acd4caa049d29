//! Outgoing effects of the coordinator. Every state transition returns the
//! broker publishes it asks for as plain values; the caller performs the
//! I/O and mirrors fault actions to the event store.

use vstd::prelude::*;

use crate::json::JsonValue;
use crate::protocol::{CommandEnvelope, CoreFault, PresenceStatus, SafetyStateKind};

verus! {

/// Retained per-device status document, republished on liveness and
/// safety transitions.
pub struct DeviceStatusDoc {
    pub schema: String,
    pub room_id: String,
    pub device_id: String,
    pub is_offline: bool,
    pub reported_safety_kind: Option<SafetyStateKind>,
    pub reported_safety_latched: bool,
    pub reported_safety_reason_code: Option<String>,
    pub computed_at_unix_ms: u64,
    pub last_heartbeat_at_unix_ms: u64,
    pub last_presence_at_unix_ms: u64,
    pub last_state_at_unix_ms: u64,
    pub presence: Option<PresenceStatus>,
}

/// A publish the coordinator asks its caller to perform.
pub enum Action {
    /// Signed command envelope to `room/{room}/device/{device}/cmd`.
    PublishCommand { device_id: String, envelope: CommandEnvelope },
    /// Fault document to `room/{room}/core/fault`, retained.
    PublishCoreFault { fault: CoreFault },
    /// Fault document to `room/{room}/core/device/{device}/fault`, retained.
    PublishDeviceFault { device_id: String, fault: CoreFault },
    /// Status document to `room/{room}/core/device/{device}/status`, retained.
    PublishDeviceStatus { device_id: String, status: DeviceStatusDoc },
}

pub open spec fn is_core_fault(a: Action, kind: Seq<char>, severity: Seq<char>) -> bool {
    match a {
        Action::PublishCoreFault { fault } => fault.kind@ == kind && fault.severity@ == severity,
        _ => false,
    }
}

pub open spec fn is_device_fault(
    a: Action,
    device_id: Seq<char>,
    kind: Seq<char>,
    severity: Seq<char>,
) -> bool {
    match a {
        Action::PublishDeviceFault { device_id: d, fault } => d@ == device_id && fault.kind@
            == kind && fault.severity@ == severity && crate::json::obj_get_m(
            crate::json::jv(fault.details),
            "device_id"@,
        ) == Some(crate::json::Jv::Str(device_id)),
        _ => false,
    }
}

pub open spec fn is_command_publish(a: Action) -> bool {
    a matches Action::PublishCommand { .. }
}

pub open spec fn is_device_status(a: Action, device_id: Seq<char>) -> bool {
    match a {
        Action::PublishDeviceStatus { device_id: d, .. } => d@ == device_id,
        _ => false,
    }
}

/// No command leaves in this batch of actions.
pub open spec fn no_command_published(actions: Seq<Action>) -> bool {
    forall|i: int| 0 <= i < actions.len() ==> !is_command_publish(actions[i])
}

/// Move every element of `src` onto the end of `dst`, in order.
pub fn vec_append<T>(dst: &mut Vec<T>, src: Vec<T>)
    ensures
        final(dst)@ == old(dst)@ + src@,
{
    let ghost orig = src@;
    let mut src = src;
    proof {
        assert(orig.take(0) =~= Seq::<T>::empty());
        assert(old(dst)@ + orig.take(0) =~= old(dst)@);
        assert(orig.skip(0) =~= orig);
    }
    while src.len() > 0
        invariant
            src@.len() <= orig.len(),
            dst@ == old(dst)@ + orig.take(orig.len() - src@.len()),
            src@ == orig.skip(orig.len() - src@.len()),
        decreases src@.len(),
    {
        let ghost k = orig.len() - src@.len();
        let x = src.remove(0);
        dst.push(x);
        proof {
            assert(x == orig[k as int]);
            assert(orig.take(k as int + 1) =~= orig.take(k as int).push(orig[k as int]));
            assert(dst@ =~= old(dst)@ + orig.take(k as int + 1));
            assert(src@ =~= orig.skip(k as int + 1));
        }
    }
    proof {
        assert(orig.take(orig.len() as int) =~= orig);
    }
}

/// Build a fault document.
pub fn core_fault(
    room_id: &String,
    kind: &str,
    severity: &str,
    message: &str,
    now: u64,
    details: JsonValue,
) -> (r: CoreFault)
    ensures
        r.schema@ == crate::protocol::SCHEMA_VERSION@,
        r.room_id@ == room_id@,
        r.kind@ == kind@,
        r.severity@ == severity@,
        r.message@ == message@,
        r.observed_at_unix_ms == now,
        crate::json::jv(r.details) == crate::json::jv(details),
{
    CoreFault {
        schema: crate::protocol::SCHEMA_VERSION.to_owned(),
        room_id: room_id.clone(),
        kind: kind.to_owned(),
        severity: severity.to_owned(),
        message: message.to_owned(),
        observed_at_unix_ms: now,
        details,
    }
}

/// One-member JSON object.
pub fn one_member_details(key: &str, value: JsonValue) -> (r: JsonValue)
    ensures
        crate::json::obj_get_m(crate::json::jv(r), key@) == Some(crate::json::jv(value)),
{
    let ghost gv = crate::json::jv(value);
    let mut pairs: Vec<(String, JsonValue)> = Vec::new();
    pairs.push((key.to_owned(), value));
    proof {
        let ghost ps = crate::json::jv_pairs(pairs@);
        assert(pairs@[0].0@ == key@);
        assert(crate::json::jv(pairs@[0].1) == gv);
        assert(crate::json::jv_pairs(pairs@.drop_first()) =~= Seq::<(
            Seq<char>,
            crate::json::Jv,
        )>::empty());
        assert(ps =~= seq![(key@, gv)]);
        assert(crate::maps::seq_get(ps, key@) == Some(gv));
    }
    JsonValue::Obj(pairs)
}

/// Two-member JSON object; the keys must differ.
pub fn two_member_details(k1: &str, v1: JsonValue, k2: &str, v2: JsonValue) -> (r: JsonValue)
    requires
        k1@ != k2@,
    ensures
        crate::json::obj_get_m(crate::json::jv(r), k1@) == Some(crate::json::jv(v1)),
        crate::json::obj_get_m(crate::json::jv(r), k2@) == Some(crate::json::jv(v2)),
{
    let ghost g1 = crate::json::jv(v1);
    let ghost g2 = crate::json::jv(v2);
    let mut pairs: Vec<(String, JsonValue)> = Vec::new();
    pairs.push((k1.to_owned(), v1));
    pairs.push((k2.to_owned(), v2));
    proof {
        let ghost ps = crate::json::jv_pairs(pairs@);
        assert(pairs@[0].0@ == k1@);
        assert(pairs@[1].0@ == k2@);
        assert(crate::json::jv(pairs@[0].1) == g1);
        assert(crate::json::jv(pairs@[1].1) == g2);
        assert(crate::json::jv_pairs(pairs@.drop_first().drop_first()) =~= Seq::<(
            Seq<char>,
            crate::json::Jv,
        )>::empty());
        assert(crate::json::jv_pairs(pairs@.drop_first()) =~= seq![(k2@, g2)]);
        assert(ps =~= seq![(k1@, g1), (k2@, g2)]);
        assert(ps.drop_first() =~= seq![(k2@, g2)]);
        assert(crate::maps::seq_get(ps, k1@) == Some(g1));
        assert(crate::maps::seq_get(ps.drop_first(), k2@) == Some(g2));
        assert(crate::maps::seq_get(ps, k2@) == Some(g2));
    }
    JsonValue::Obj(pairs)
}

/// One-member JSON object naming the device a fault concerns.
pub fn device_details(device_id: &String) -> (r: JsonValue)
    ensures
        crate::json::obj_get_m(crate::json::jv(r), "device_id"@) == Some(
            crate::json::Jv::Str(device_id@),
        ),
{
    one_member_details("device_id", JsonValue::Str(device_id.clone()))
}

} // verus!
