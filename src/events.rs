use vstd::prelude::*;

use crate::log::WLogMessage;
use crate::store::RuleStore;
use crate::subnet::{join_parts, parts_to_u128};

verus! {

#[derive(Clone, Copy, Debug, PartialEq, Eq, Structural)]
pub enum TrafficType {
    Input,
    Output,
}

#[derive(Clone, Copy, Debug, PartialEq, Eq, Structural)]
pub enum ActionType {
    Pass,
    Drop,
    Pipe,
}

#[derive(Clone, Copy, Debug, PartialEq, Eq, Structural)]
pub enum ProtocolVersionType {
    V4,
    V6,
}

#[derive(Clone, Copy, Debug, PartialEq, Eq, Structural)]
pub enum ProtocolType {
    TCP,
    UDP,
}

/// A log record as subscribers receive it: directions and families as enums,
/// the interface and the deciding rule by name.
#[derive(Clone, Debug)]
pub struct LogMessageSerialized {
    pub traffic_type: TrafficType,
    pub protocol_version_type: ProtocolVersionType,
    pub protocol_type: ProtocolType,
    pub source_addr_v6: u128,
    pub destination_addr_v6: u128,
    pub source_addr_v4: u32,
    pub destination_addr_v4: u32,
    pub rule_id: u32,
    pub if_name: String,
    pub rule_name: String,
    pub source_port: u16,
    pub destination_port: u16,
    pub level: u8,
    pub action: ActionType,
    pub timestamp: u64,
}

/// Rule name reported for a record whose rule is no longer stored.
pub open spec fn unknown_rule_name() -> Seq<char> {
    "No rule for this ID"@
}

impl WLogMessage {
    /// The record as subscribers receive it, with the interface name
    /// `if_name`, the wall-clock `timestamp`, and the deciding rule looked up
    /// in `store`.
    pub fn to_serialized(&self, store: &RuleStore, if_name: String, timestamp: u64) -> (r:
        LogMessageSerialized)
        ensures
            r.traffic_type == (if self.msg.input {
                TrafficType::Input
            } else {
                TrafficType::Output
            }),
            r.protocol_type == (if self.msg.tcp {
                ProtocolType::TCP
            } else {
                ProtocolType::UDP
            }),
            r.protocol_version_type == (if self.msg.v4 {
                ProtocolVersionType::V4
            } else {
                ProtocolVersionType::V6
            }),
            r.source_addr_v6 == join_parts(self.msg.src_ip_high, self.msg.src_ip_low),
            r.destination_addr_v6 == join_parts(self.msg.dst_ip_high, self.msg.dst_ip_low),
            r.source_addr_v4 == self.msg.source_addr_v4,
            r.destination_addr_v4 == self.msg.destination_addr_v4,
            r.rule_id == self.msg.rule_id,
            r.if_name == if_name,
            r.source_port == self.msg.source_port,
            r.destination_port == self.msg.destination_port,
            r.level == self.msg.level,
            r.timestamp == timestamp,
            self.msg.rule_id == 0 ==> r.rule_name@.len() == 0 && r.action == ActionType::Pipe,
            self.msg.rule_id != 0 && store@.contains_key(self.msg.rule_id) ==> r.rule_name
                == store@[self.msg.rule_id].name && r.action == (if store@[self.msg.rule_id].drop {
                ActionType::Drop
            } else {
                ActionType::Pass
            }),
            self.msg.rule_id != 0 && !store@.contains_key(self.msg.rule_id) ==> r.rule_name@
                == unknown_rule_name() && r.action == ActionType::Pipe,
    {
        let (rule_name, action) = if self.msg.rule_id != 0 {
            match store.get_rule_name(self.msg.rule_id) {
                Some(rule) => (
                    rule.name.clone(),
                    if rule.drop {
                        ActionType::Drop
                    } else {
                        ActionType::Pass
                    },
                ),
                None => ("No rule for this ID".to_owned(), ActionType::Pipe),
            }
        } else {
            (String::new(), ActionType::Pipe)
        };
        LogMessageSerialized {
            traffic_type: if self.msg.input {
                TrafficType::Input
            } else {
                TrafficType::Output
            },
            protocol_version_type: if self.msg.v4 {
                ProtocolVersionType::V4
            } else {
                ProtocolVersionType::V6
            },
            protocol_type: if self.msg.tcp {
                ProtocolType::TCP
            } else {
                ProtocolType::UDP
            },
            source_addr_v6: parts_to_u128(self.msg.src_ip_high, self.msg.src_ip_low),
            destination_addr_v6: parts_to_u128(self.msg.dst_ip_high, self.msg.dst_ip_low),
            source_addr_v4: self.msg.source_addr_v4,
            destination_addr_v4: self.msg.destination_addr_v4,
            rule_id: self.msg.rule_id,
            if_name,
            rule_name,
            source_port: self.msg.source_port,
            destination_port: self.msg.destination_port,
            level: self.msg.level,
            action,
            timestamp,
        }
    }
}

/// Nanoseconds per second.
pub const NANOS_PER_SEC: u64 = 1_000_000_000;

/// The wall-clock second of an event stamped `event_ns` on the monotonic
/// clock, given one reading of both clocks taken together: `now_unix_ns`
/// nanoseconds since the epoch and `now_mono_ns` on the monotonic clock.
/// Events before the epoch map to 0.
pub open spec fn unix_seconds(now_unix_ns: u64, now_mono_ns: u64, event_ns: u64) -> int {
    let t = now_unix_ns - now_mono_ns + event_ns;
    if t < 0 {
        0
    } else {
        t / NANOS_PER_SEC as int
    }
}

impl WLogMessage {
    /// The wall-clock second of this record (see `unix_seconds`).
    pub fn unix_time_stamp(&self, now_unix_ns: u64, now_mono_ns: u64) -> (r: u64)
        ensures
            r == unix_seconds(now_unix_ns, now_mono_ns, self.msg.timestamp),
    {
        let up: u128 = now_unix_ns as u128 + self.msg.timestamp as u128;
        let down: u128 = now_mono_ns as u128;
        if up < down {
            return 0;
        }
        let span: u128 = up - down;
        let secs: u128 = span / NANOS_PER_SEC as u128;
        proof {
            let (a, q): (int, int) = (span as int, secs as int);
            assert(q < 0x1_0000_0000_0000_0000) by (nonlinear_arith)
                requires
                    q == a / 1_000_000_000,
                    0 <= a < 0x2_0000_0000_0000_0000,
            ;
        }
        secs as u64
    }
}

} // verus!
