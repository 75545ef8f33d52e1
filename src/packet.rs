use vstd::prelude::*;

use crate::rule::{Action, Rule};
use crate::subnet::{in_subnet_v4, in_subnet_v6, is_ip_in_subnet_v4, is_ip_in_subnet_v6};

verus! {

/// IP protocol number of TCP.
pub const PROTO_TCP: u8 = 6;

/// IP protocol number of UDP.
pub const PROTO_UDP: u8 = 17;

/// The flat view of one packet's headers that the evaluator reads. Addresses
/// of the other family, and ports of a protocol without them, are zero.
#[derive(Clone, Copy, Debug)]
pub struct ParseResult {
    pub source_port: u16,
    pub destination_port: u16,
    pub destination_addr_v4: u32,
    pub source_addr_v4: u32,
    pub destination_addr_v6: u128,
    pub source_addr_v6: u128,
    pub proto: u8,
    pub input: bool,
    pub output: bool,
    pub v4: bool,
    pub ifindex: u32,
}

/// `port` lies in the inclusive range `start..=end`, where `0..=0` holds
/// every port.
pub open spec fn port_in_range(port: u16, start: u16, end: u16) -> bool {
    (start == 0 && end == 0) || (start <= port && port <= end)
}

impl ParseResult {
    pub open spec fn is_tcp_spec(&self) -> bool {
        self.proto == PROTO_TCP
    }

    pub open spec fn is_udp_spec(&self) -> bool {
        self.proto == PROTO_UDP
    }

    /// The rule concerns this packet at all: it is enabled, of the packet's
    /// family and direction, its protocol selectors hold, and its interface
    /// is any or the packet's.
    pub open spec fn applicable(&self, rule: Rule) -> bool {
        &&& rule.on
        &&& if self.v4 {
            rule.v4
        } else {
            rule.v6
        }
        &&& (self.input ==> rule.input)
        &&& (self.output ==> rule.output)
        &&& (rule.tcp ==> self.is_tcp_spec())
        &&& (rule.udp ==> self.is_udp_spec())
        &&& (rule.ifindex == 0 || rule.ifindex == self.ifindex)
    }

    pub open spec fn source_addr_matches(&self, rule: Rule) -> bool {
        if self.v4 {
            in_subnet_v4(self.source_addr_v4, rule.source_addr_v4, rule.source_mask_v4)
        } else {
            in_subnet_v6(self.source_addr_v6, rule.source_addr_v6, rule.source_mask_v6)
        }
    }

    pub open spec fn destination_addr_matches(&self, rule: Rule) -> bool {
        if self.v4 {
            in_subnet_v4(
                self.destination_addr_v4,
                rule.destination_addr_v4,
                rule.destination_mask_v4,
            )
        } else {
            in_subnet_v6(
                self.destination_addr_v6,
                rule.destination_addr_v6,
                rule.destination_mask_v6,
            )
        }
    }

    pub open spec fn source_half_matches(&self, rule: Rule) -> bool {
        &&& self.source_addr_matches(rule)
        &&& port_in_range(self.source_port, rule.source_port_start, rule.source_port_end)
        &&& if self.v4 {
            rule.source_v4_not_empty_spec()
        } else {
            rule.source_v6_not_empty_spec()
        }
    }

    pub open spec fn destination_half_matches(&self, rule: Rule) -> bool {
        &&& self.destination_addr_matches(rule)
        &&& port_in_range(
            self.destination_port,
            rule.destination_port_start,
            rule.destination_port_end,
        )
        &&& if self.v4 {
            rule.destination_v4_not_empty_spec()
        } else {
            rule.destination_v6_not_empty_spec()
        }
    }

    /// The match predicate: the source half or the destination half matches.
    pub open spec fn matches(&self, rule: Rule) -> bool {
        self.source_half_matches(rule) || self.destination_half_matches(rule)
    }

    /// The rule settles the verdict for this packet.
    pub open spec fn decided_by(&self, rule: Rule) -> bool {
        self.applicable(rule) && self.matches(rule) && rule.action_spec() != Action::Pipe
    }

    pub fn is_tcp(&self) -> (r: bool)
        ensures
            r == self.is_tcp_spec(),
    {
        self.proto == PROTO_TCP
    }

    pub fn is_udp(&self) -> (r: bool)
        ensures
            r == self.is_udp_spec(),
    {
        self.proto == PROTO_UDP
    }

    pub fn is_source_port(&self, rule: &Rule) -> (r: bool)
        ensures
            r == port_in_range(self.source_port, rule.source_port_start, rule.source_port_end),
    {
        let in_range = self.source_port >= rule.source_port_start && self.source_port
            <= rule.source_port_end;
        let any_port = rule.source_port_start == 0 && rule.source_port_end == 0;
        any_port || in_range
    }

    pub fn is_destination_port(&self, rule: &Rule) -> (r: bool)
        ensures
            r == port_in_range(
                self.destination_port,
                rule.destination_port_start,
                rule.destination_port_end,
            ),
    {
        let in_range = self.destination_port >= rule.destination_port_start
            && self.destination_port <= rule.destination_port_end;
        let any_port = rule.destination_port_start == 0 && rule.destination_port_end == 0;
        any_port || in_range
    }

    pub fn is_source_v4_addr(&self, rule: &Rule) -> (r: bool)
        ensures
            r == in_subnet_v4(self.source_addr_v4, rule.source_addr_v4, rule.source_mask_v4),
    {
        is_ip_in_subnet_v4(self.source_addr_v4, rule.source_addr_v4, rule.source_mask_v4)
    }

    pub fn is_source_v6_addr(&self, rule: &Rule) -> (r: bool)
        ensures
            r == in_subnet_v6(self.source_addr_v6, rule.source_addr_v6, rule.source_mask_v6),
    {
        is_ip_in_subnet_v6(self.source_addr_v6, rule.source_addr_v6, rule.source_mask_v6)
    }

    pub fn is_destination_v4_addr(&self, rule: &Rule) -> (r: bool)
        ensures
            r == in_subnet_v4(
                self.destination_addr_v4,
                rule.destination_addr_v4,
                rule.destination_mask_v4,
            ),
    {
        is_ip_in_subnet_v4(
            self.destination_addr_v4,
            rule.destination_addr_v4,
            rule.destination_mask_v4,
        )
    }

    pub fn is_destination_v6_addr(&self, rule: &Rule) -> (r: bool)
        ensures
            r == in_subnet_v6(
                self.destination_addr_v6,
                rule.destination_addr_v6,
                rule.destination_mask_v6,
            ),
    {
        is_ip_in_subnet_v6(
            self.destination_addr_v6,
            rule.destination_addr_v6,
            rule.destination_mask_v6,
        )
    }

    /// The rule's action when its match predicate holds, otherwise `Pipe`.
    pub fn to_action(&self, rule: &Rule) -> (r: Action)
        ensures
            r == (if self.matches(*rule) {
                rule.action_spec()
            } else {
                Action::Pipe
            }),
    {
        let (source, destination) = if self.v4 {
            (
                self.is_source_v4_addr(rule) && self.is_source_port(rule)
                    && rule.is_source_v4_not_empty(),
                self.is_destination_v4_addr(rule) && self.is_destination_port(rule)
                    && rule.is_destination_v4_not_empty(),
            )
        } else {
            (
                self.is_source_v6_addr(rule) && self.is_source_port(rule)
                    && rule.is_source_v6_not_empty(),
                self.is_destination_v6_addr(rule) && self.is_destination_port(rule)
                    && rule.is_destination_v6_not_empty(),
            )
        };
        if source || destination {
            rule.to_action()
        } else {
            Action::Pipe
        }
    }

    /// The rule does not concern this packet (see `applicable`).
    pub fn not_my_rule(&self, rule: &Rule) -> (r: bool)
        ensures
            r == !self.applicable(*rule),
    {
        if !rule.on {
            return true;
        }
        if self.v4 && !rule.v4 {
            return true;
        }
        if !self.v4 && !rule.v6 {
            return true;
        }
        if self.input && !rule.input {
            return true;
        }
        if self.output && !rule.output {
            return true;
        }
        if rule.tcp && !self.is_tcp() {
            return true;
        }
        if rule.udp && !self.is_udp() {
            return true;
        }
        if rule.ifindex != 0 && rule.ifindex != self.ifindex {
            return true;
        }
        false
    }
}

} // verus!
