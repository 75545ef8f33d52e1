use vstd::prelude::*;

use crate::subnet::{join_parts, parts_to_u128};

verus! {

/// Largest valid prefix length of an IPv4 subnet.
pub const V4_MAX_PREFIX: u8 = 32;

/// Largest valid prefix length of an IPv6 subnet.
pub const V6_MAX_PREFIX: u8 = 128;

/// What a rule decides for a packet it matches: drop it, let it pass, or defer
/// to the next rule.
#[derive(Clone, Copy, Debug, PartialEq, Eq, Structural)]
pub enum Action {
    Drop,
    Pass,
    Pipe,
}

/// A rule as the kernel-side table holds it: fixed-size, plain values only.
#[derive(Clone, Copy, Debug)]
pub struct Rule {
    pub drop: bool,
    pub ok: bool,
    pub v4: bool,
    pub v6: bool,
    pub tcp: bool,
    pub udp: bool,
    pub on: bool,
    pub input: bool,
    pub output: bool,
    pub order: i32,
    pub source_addr_v6: u128,
    pub destination_addr_v6: u128,
    pub source_addr_v4: u32,
    pub destination_addr_v4: u32,
    pub rule_id: u32,
    pub ifindex: u32,
    pub source_port_start: u16,
    pub source_port_end: u16,
    pub destination_port_start: u16,
    pub destination_port_end: u16,
    pub source_mask_v4: u8,
    pub destination_mask_v4: u8,
    pub source_mask_v6: u8,
    pub destination_mask_v6: u8,
}

/// The action encoded by the `drop` / `ok` flags; `drop` wins over `ok`.
pub open spec fn action_of(drop: bool, ok: bool) -> Action {
    if drop {
        Action::Drop
    } else if ok {
        Action::Pass
    } else {
        Action::Pipe
    }
}

impl Rule {
    pub open spec fn action_spec(&self) -> Action {
        action_of(self.drop, self.ok)
    }

    /// The source half constrains something: an address or a port range.
    pub open spec fn source_v4_not_empty_spec(&self) -> bool {
        self.source_addr_v4 != 0 || self.source_port_start != 0 || self.source_port_end != 0
    }

    pub open spec fn source_v6_not_empty_spec(&self) -> bool {
        self.source_addr_v6 != 0 || self.source_port_start != 0 || self.source_port_end != 0
    }

    pub open spec fn destination_v4_not_empty_spec(&self) -> bool {
        self.destination_addr_v4 != 0 || self.destination_port_start != 0
            || self.destination_port_end != 0
    }

    pub open spec fn destination_v6_not_empty_spec(&self) -> bool {
        self.destination_addr_v6 != 0 || self.destination_port_start != 0
            || self.destination_port_end != 0
    }

    /// The invariants every materialised rule satisfies: prefix lengths within
    /// the family's width, ordered port ranges, and a non-zero id.
    pub open spec fn wf(&self) -> bool {
        &&& self.source_mask_v4 <= V4_MAX_PREFIX
        &&& self.destination_mask_v4 <= V4_MAX_PREFIX
        &&& self.source_mask_v6 <= V6_MAX_PREFIX
        &&& self.destination_mask_v6 <= V6_MAX_PREFIX
        &&& self.source_port_start <= self.source_port_end
        &&& self.destination_port_start <= self.destination_port_end
        &&& self.rule_id != 0
    }

    pub fn to_action(&self) -> (r: Action)
        ensures
            r == self.action_spec(),
    {
        if self.drop {
            return Action::Drop;
        }
        if self.ok {
            return Action::Pass;
        }
        Action::Pipe
    }

    pub fn is_source_v4_not_empty(&self) -> (r: bool)
        ensures
            r == self.source_v4_not_empty_spec(),
    {
        self.source_addr_v4 != 0 || self.source_port_start != 0 || self.source_port_end != 0
    }

    pub fn is_source_v6_not_empty(&self) -> (r: bool)
        ensures
            r == self.source_v6_not_empty_spec(),
    {
        self.source_addr_v6 != 0 || self.source_port_start != 0 || self.source_port_end != 0
    }

    pub fn is_destination_v4_not_empty(&self) -> (r: bool)
        ensures
            r == self.destination_v4_not_empty_spec(),
    {
        self.destination_addr_v4 != 0 || self.destination_port_start != 0
            || self.destination_port_end != 0
    }

    pub fn is_destination_v6_not_empty(&self) -> (r: bool)
        ensures
            r == self.destination_v6_not_empty_spec(),
    {
        self.destination_addr_v6 != 0 || self.destination_port_start != 0
            || self.destination_port_end != 0
    }
}

/// A view of one table row, as the kernel side handles it.
pub struct WRule {
    pub rule: Rule,
}

impl WRule {
    pub fn to_action(&self) -> (r: Action)
        ensures
            r == self.rule.action_spec(),
    {
        self.rule.to_action()
    }

    pub fn is_source_v4_not_empty(&self) -> (r: bool)
        ensures
            r == self.rule.source_v4_not_empty_spec(),
    {
        self.rule.is_source_v4_not_empty()
    }

    pub fn is_source_v6_not_empty(&self) -> (r: bool)
        ensures
            r == self.rule.source_v6_not_empty_spec(),
    {
        self.rule.is_source_v6_not_empty()
    }

    pub fn is_destination_v4_not_empty(&self) -> (r: bool)
        ensures
            r == self.rule.destination_v4_not_empty_spec(),
    {
        self.rule.is_destination_v4_not_empty()
    }

    pub fn is_destination_v6_not_empty(&self) -> (r: bool)
        ensures
            r == self.rule.destination_v6_not_empty_spec(),
    {
        self.rule.is_destination_v6_not_empty()
    }
}

/// A rule as userspace keeps it: the kernel fields, the IPv6 addresses as
/// high/low halves, a label, and where the rule came from.
#[derive(Clone, Debug)]
pub struct RuleWithName {
    pub name: String,
    pub uindex: u32,
    pub order: i32,
    pub drop: bool,
    pub ok: bool,
    pub v4: bool,
    pub v6: bool,
    pub tcp: bool,
    pub udp: bool,
    pub on: bool,
    pub src_ip_high: u64,
    pub src_ip_low: u64,
    pub dst_ip_high: u64,
    pub dst_ip_low: u64,
    pub source_addr_v4: u32,
    pub destination_addr_v4: u32,
    pub rule_id: u32,
    pub ifindex: u32,
    pub source_port_start: u16,
    pub source_port_end: u16,
    pub destination_port_start: u16,
    pub destination_port_end: u16,
    pub input: bool,
    pub output: bool,
    pub source_mask_v4: u8,
    pub destination_mask_v4: u8,
    pub source_mask_v6: u8,
    pub destination_mask_v6: u8,
    pub from_db: bool,
}

impl RuleWithName {
    /// The kernel-table form of this rule.
    pub open spec fn common_spec(&self) -> Rule {
        Rule {
            drop: self.drop,
            ok: self.ok,
            v4: self.v4,
            v6: self.v6,
            tcp: self.tcp,
            udp: self.udp,
            on: self.on,
            input: self.input,
            output: self.output,
            order: self.order,
            source_addr_v6: join_parts(self.src_ip_high, self.src_ip_low),
            destination_addr_v6: join_parts(self.dst_ip_high, self.dst_ip_low),
            source_addr_v4: self.source_addr_v4,
            destination_addr_v4: self.destination_addr_v4,
            rule_id: self.rule_id,
            ifindex: self.ifindex,
            source_port_start: self.source_port_start,
            source_port_end: self.source_port_end,
            destination_port_start: self.destination_port_start,
            destination_port_end: self.destination_port_end,
            source_mask_v4: self.source_mask_v4,
            destination_mask_v4: self.destination_mask_v4,
            source_mask_v6: self.source_mask_v6,
            destination_mask_v6: self.destination_mask_v6,
        }
    }

    pub open spec fn wf(&self) -> bool {
        self.common_spec().wf()
    }

    pub fn to_common_rule(&self) -> (r: Rule)
        ensures
            r == self.common_spec(),
    {
        Rule {
            drop: self.drop,
            ok: self.ok,
            v4: self.v4,
            v6: self.v6,
            tcp: self.tcp,
            udp: self.udp,
            on: self.on,
            input: self.input,
            output: self.output,
            order: self.order,
            source_addr_v6: parts_to_u128(self.src_ip_high, self.src_ip_low),
            destination_addr_v6: parts_to_u128(self.dst_ip_high, self.dst_ip_low),
            source_addr_v4: self.source_addr_v4,
            destination_addr_v4: self.destination_addr_v4,
            rule_id: self.rule_id,
            ifindex: self.ifindex,
            source_port_start: self.source_port_start,
            source_port_end: self.source_port_end,
            destination_port_start: self.destination_port_start,
            destination_port_end: self.destination_port_end,
            source_mask_v4: self.source_mask_v4,
            destination_mask_v4: self.destination_mask_v4,
            source_mask_v6: self.source_mask_v6,
            destination_mask_v6: self.destination_mask_v6,
        }
    }

    /// A copy of this rule, equal to it in every field.
    pub fn duplicate(&self) -> (r: Self)
        ensures
            r == *self,
    {
        RuleWithName { name: self.name.clone(), ..*self }
    }

    /// A placeholder rule that is disabled and constrains nothing.
    pub fn from_empty() -> (r: Self)
        ensures
            r.name@ == "Empty fake rule!"@,
            r.uindex == 0 && r.order == 0 && r.rule_id == 0 && r.ifindex == 0,
            !r.drop && !r.ok && !r.v4 && !r.v6 && !r.tcp && !r.udp && !r.on,
            !r.input && !r.output && !r.from_db,
            r.src_ip_high == 0 && r.src_ip_low == 0 && r.dst_ip_high == 0 && r.dst_ip_low == 0,
            r.source_addr_v4 == 0 && r.destination_addr_v4 == 0,
            r.source_port_start == 0 && r.source_port_end == 0,
            r.destination_port_start == 0 && r.destination_port_end == 0,
            r.source_mask_v4 == 0 && r.destination_mask_v4 == 0,
            r.source_mask_v6 == 0 && r.destination_mask_v6 == 0,
    {
        RuleWithName {
            name: "Empty fake rule!".to_owned(),
            uindex: 0,
            order: 0,
            drop: false,
            ok: false,
            v4: false,
            v6: false,
            tcp: false,
            udp: false,
            on: false,
            src_ip_high: 0,
            src_ip_low: 0,
            dst_ip_high: 0,
            dst_ip_low: 0,
            source_addr_v4: 0,
            destination_addr_v4: 0,
            rule_id: 0,
            ifindex: 0,
            source_port_start: 0,
            source_port_end: 0,
            destination_port_start: 0,
            destination_port_end: 0,
            input: false,
            output: false,
            source_mask_v4: 0,
            destination_mask_v4: 0,
            source_mask_v6: 0,
            destination_mask_v6: 0,
            from_db: false,
        }
    }
}

} // verus!
