//! Per-device tracking: liveness inputs, last reported safety, last
//! retained state snapshot, and the device topic parser.

use vstd::prelude::*;

use crate::json::{find_char, find_char_exec, push_str, str_eq, JsonValue};
use crate::protocol::{PresenceStatus, SafetyState};

verus! {

/// Everything the coordinator remembers about one device. Created on the
/// first message from the device, kept for the life of the process.
pub struct DeviceStatus {
    pub last_heartbeat_at_unix_ms: Option<u64>,
    pub last_ack_at_unix_ms: Option<u64>,
    pub last_presence_at_unix_ms: Option<u64>,
    pub last_state_at_unix_ms: Option<u64>,
    pub last_state: Option<JsonValue>,
    pub presence: Option<PresenceStatus>,
    pub last_reported_safety: Option<SafetyState>,
    pub is_offline: bool,
}

impl DeviceStatus {
    /// A device first heard of: nothing recorded, treated as offline.
    pub fn new_unknown() -> (r: Self)
        ensures
            r.last_heartbeat_at_unix_ms is None,
            r.last_ack_at_unix_ms is None,
            r.last_presence_at_unix_ms is None,
            r.last_state_at_unix_ms is None,
            r.last_state is None,
            r.presence is None,
            r.last_reported_safety is None,
            r.is_offline,
    {
        DeviceStatus {
            last_heartbeat_at_unix_ms: None,
            last_ack_at_unix_ms: None,
            last_presence_at_unix_ms: None,
            last_state_at_unix_ms: None,
            last_state: None,
            presence: None,
            last_reported_safety: None,
            is_offline: true,
        }
    }
}

/// Milliseconds from `then` to `now`, zero when the clock went backwards.
pub open spec fn spec_elapsed(now: u64, then: u64) -> int {
    if now >= then {
        now - then
    } else {
        0
    }
}

/// A device is offline when its presence says so, or its last heartbeat
/// is older than the offline window. With no heartbeat on record the
/// stored flag stands.
pub open spec fn spec_should_be_offline(offline_ms: u64, status: DeviceStatus, now: u64) -> bool {
    if status.presence == Some(PresenceStatus::Offline) {
        true
    } else {
        match status.last_heartbeat_at_unix_ms {
            None => status.is_offline,
            Some(last) => spec_elapsed(now, last) > offline_ms,
        }
    }
}

pub fn should_be_offline(offline_ms: u64, status: &DeviceStatus, now: u64) -> (r: bool)
    ensures
        r == spec_should_be_offline(offline_ms, *status, now),
{
    if let Some(p) = status.presence {
        if p == PresenceStatus::Offline {
            return true;
        }
    }
    match status.last_heartbeat_at_unix_ms {
        None => status.is_offline,
        Some(last) => {
            let elapsed: u64 = if now >= last {
                now - last
            } else {
                0
            };
            elapsed > offline_ms
        }
    }
}

#[derive(Clone, Copy, Debug, PartialEq, Eq, Structural)]
pub enum DeviceTopicKind {
    Heartbeat,
    Ack,
    State,
    Telemetry,
    Presence,
}

pub open spec fn spec_topic_kind_str(k: DeviceTopicKind) -> Seq<char> {
    match k {
        DeviceTopicKind::Heartbeat => "heartbeat"@,
        DeviceTopicKind::Ack => "ack"@,
        DeviceTopicKind::State => "state"@,
        DeviceTopicKind::Telemetry => "telemetry"@,
        DeviceTopicKind::Presence => "presence"@,
    }
}

pub open spec fn spec_device_topic_prefix(room: Seq<char>) -> Seq<char> {
    "room/"@ + room + "/device/"@
}

/// What `parse_device_topic` yields: the device and message kind of a
/// topic of the form `room/{room}/device/{device}/{kind}`.
pub open spec fn spec_parse_device_topic(room: Seq<char>, topic: Seq<char>) -> Option<
    (Seq<char>, DeviceTopicKind),
> {
    let p = spec_device_topic_prefix(room);
    if topic.len() < p.len() || topic.take(p.len() as int) != p {
        None
    } else {
        let rest = topic.skip(p.len() as int);
        let i = find_char(rest, '/', 0);
        if i >= rest.len() {
            None
        } else {
            let dev = rest.take(i);
            let kind = rest.skip(i + 1);
            if find_char(kind, '/', 0) < kind.len() {
                None
            } else if kind == "heartbeat"@ {
                Some((dev, DeviceTopicKind::Heartbeat))
            } else if kind == "ack"@ {
                Some((dev, DeviceTopicKind::Ack))
            } else if kind == "state"@ {
                Some((dev, DeviceTopicKind::State))
            } else if kind == "telemetry"@ {
                Some((dev, DeviceTopicKind::Telemetry))
            } else if kind == "presence"@ {
                Some((dev, DeviceTopicKind::Presence))
            } else {
                None
            }
        }
    }
}

/// Parse `room/{room}/device/{device}/{kind}`. Yields the device id and
/// the message kind; anything else yields nothing.
pub fn parse_device_topic(room_id: &str, topic: &str) -> (r: Option<(String, DeviceTopicKind)>)
    ensures
        match r {
            Some((dev, kind)) => spec_parse_device_topic(room_id@, topic@) == Some((dev@, kind)),
            None => spec_parse_device_topic(room_id@, topic@) is None,
        },
{
    let mut prefix = String::new();
    push_str(&mut prefix, "room/");
    push_str(&mut prefix, room_id);
    push_str(&mut prefix, "/device/");
    proof {
        assert(prefix@ =~= spec_device_topic_prefix(room_id@));
    }
    let plen: usize = prefix.unicode_len();
    let tlen: usize = topic.unicode_len();
    if tlen < plen {
        return None;
    }
    if !str_eq(topic.substring_char(0, plen), prefix.as_str()) {
        return None;
    }
    let rest = topic.substring_char(plen, tlen);
    proof {
        assert(rest@ =~= topic@.skip(plen as int));
    }
    let rlen: usize = rest.unicode_len();
    let i = find_char_exec(rest, '/', 0);
    if i >= rlen {
        return None;
    }
    let dev = rest.substring_char(0, i);
    proof {
        assert(dev@ =~= topic@.skip(plen as int).take(i as int));
    }
    let kind_s = rest.substring_char(i + 1, rlen);
    proof {
        assert(kind_s@ =~= topic@.skip(plen as int).skip(i + 1));
    }
    if find_char_exec(kind_s, '/', 0) < kind_s.unicode_len() {
        return None;
    }
    let kind = if str_eq(kind_s, "heartbeat") {
        DeviceTopicKind::Heartbeat
    } else if str_eq(kind_s, "ack") {
        DeviceTopicKind::Ack
    } else if str_eq(kind_s, "state") {
        DeviceTopicKind::State
    } else if str_eq(kind_s, "telemetry") {
        DeviceTopicKind::Telemetry
    } else if str_eq(kind_s, "presence") {
        DeviceTopicKind::Presence
    } else {
        return None;
    };
    Some((dev.to_owned(), kind))
}

} // verus!
