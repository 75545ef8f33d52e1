use vstd::prelude::*;

use crate::rule::{RuleWithName, V4_MAX_PREFIX, V6_MAX_PREFIX};
use crate::subnet::{high_of, low_of, u128_to_parts};

verus! {

/// What one rule file states, with addresses already read into numbers and
/// the interface name already resolved to an index.
#[derive(Clone, Debug)]
pub struct RuleDoc {
    pub name: String,
    pub order: i32,
    pub drop: bool,
    pub ok: bool,
    pub v4: bool,
    pub v6: bool,
    pub tcp: bool,
    pub udp: bool,
    pub on: bool,
    pub input: bool,
    pub output: bool,
    pub source_addr_v4: u32,
    pub source_mask_v4: u8,
    pub destination_addr_v4: u32,
    pub destination_mask_v4: u8,
    pub source_addr_v6: u128,
    pub source_mask_v6: u8,
    pub destination_addr_v6: u128,
    pub destination_mask_v6: u8,
    pub source_port_start: i64,
    pub source_port_end: i64,
    pub destination_port_start: i64,
    pub destination_port_end: i64,
    pub ifindex: u32,
}

/// Why a rule file does not make a rule.
#[derive(Clone, Copy, Debug, PartialEq, Eq, Structural)]
pub enum RuleError {
    /// A prefix length exceeds the width of its family.
    PrefixTooLong,
    /// A port lies outside `0..=65535`.
    PortOutOfRange,
    /// A port range ends before it starts.
    PortRangeReversed,
    /// The rule id is 0, which stands for "no rule".
    ZeroId,
}

pub open spec fn port_ok(p: i64) -> bool {
    0 <= p <= 0xffff
}

/// The first fault of `doc`, if any: prefix lengths, then ports, then ranges.
pub open spec fn doc_error(doc: RuleDoc) -> Option<RuleError> {
    if doc.source_mask_v4 > V4_MAX_PREFIX || doc.destination_mask_v4 > V4_MAX_PREFIX
        || doc.source_mask_v6 > V6_MAX_PREFIX || doc.destination_mask_v6 > V6_MAX_PREFIX {
        Some(RuleError::PrefixTooLong)
    } else if !port_ok(doc.source_port_start) || !port_ok(doc.source_port_end) || !port_ok(
        doc.destination_port_start,
    ) || !port_ok(doc.destination_port_end) {
        Some(RuleError::PortOutOfRange)
    } else if doc.source_port_start > doc.source_port_end || doc.destination_port_start
        > doc.destination_port_end {
        Some(RuleError::PortRangeReversed)
    } else {
        None
    }
}

/// The rule that `doc` states, under id `rule_id`, read from a file.
pub open spec fn rule_of_doc(doc: RuleDoc, rule_id: u32) -> RuleWithName {
    RuleWithName {
        name: doc.name,
        uindex: 0,
        order: doc.order,
        drop: doc.drop,
        ok: doc.ok,
        v4: doc.v4,
        v6: doc.v6,
        tcp: doc.tcp,
        udp: doc.udp,
        on: doc.on,
        src_ip_high: high_of(doc.source_addr_v6),
        src_ip_low: low_of(doc.source_addr_v6),
        dst_ip_high: high_of(doc.destination_addr_v6),
        dst_ip_low: low_of(doc.destination_addr_v6),
        source_addr_v4: doc.source_addr_v4,
        destination_addr_v4: doc.destination_addr_v4,
        rule_id,
        ifindex: doc.ifindex,
        source_port_start: doc.source_port_start as u16,
        source_port_end: doc.source_port_end as u16,
        destination_port_start: doc.destination_port_start as u16,
        destination_port_end: doc.destination_port_end as u16,
        input: doc.input,
        output: doc.output,
        source_mask_v4: doc.source_mask_v4,
        destination_mask_v4: doc.destination_mask_v4,
        source_mask_v6: doc.source_mask_v6,
        destination_mask_v6: doc.destination_mask_v6,
        from_db: false,
    }
}

/// Every rule made from a faultless file, under a non-zero id, keeps the rule
/// invariants: prefix lengths within the family, ordered port ranges.
pub proof fn lemma_doc_rule_wf(doc: RuleDoc, rule_id: u32)
    requires
        doc_error(doc) is None,
        rule_id != 0,
    ensures
        rule_of_doc(doc, rule_id).wf(),
{
}

/// Relies on `rand::random`: a uniformly drawn `u32`; nothing is known of it.
#[verifier::external_body]
fn random_u32() -> u32 {
    rand::random::<u32>()
}

fn check_doc(doc: &RuleDoc) -> (r: Option<RuleError>)
    ensures
        r == doc_error(*doc),
{
    if doc.source_mask_v4 > V4_MAX_PREFIX || doc.destination_mask_v4 > V4_MAX_PREFIX
        || doc.source_mask_v6 > V6_MAX_PREFIX || doc.destination_mask_v6 > V6_MAX_PREFIX {
        return Some(RuleError::PrefixTooLong);
    }
    if doc.source_port_start < 0 || doc.source_port_start > 0xffff || doc.source_port_end < 0
        || doc.source_port_end > 0xffff || doc.destination_port_start < 0
        || doc.destination_port_start > 0xffff || doc.destination_port_end < 0
        || doc.destination_port_end > 0xffff {
        return Some(RuleError::PortOutOfRange);
    }
    if doc.source_port_start > doc.source_port_end || doc.destination_port_start
        > doc.destination_port_end {
        return Some(RuleError::PortRangeReversed);
    }
    None
}

impl RuleWithName {
    /// The rule that `doc` states, under id `rule_id`.
    pub fn from_doc(doc: &RuleDoc, rule_id: u32) -> (r: Result<RuleWithName, RuleError>)
        ensures
            rule_id == 0 ==> r == Err::<RuleWithName, RuleError>(RuleError::ZeroId),
            rule_id != 0 && doc_error(*doc) is Some ==> r == Err::<RuleWithName, RuleError>(
                doc_error(*doc)->0,
            ),
            rule_id != 0 && doc_error(*doc) is None ==> r == Ok::<RuleWithName, RuleError>(
                rule_of_doc(*doc, rule_id),
            ),
            r matches Ok(rule) ==> rule.wf(),
    {
        if rule_id == 0 {
            return Err(RuleError::ZeroId);
        }
        if let Some(e) = check_doc(doc) {
            return Err(e);
        }
        let src = u128_to_parts(doc.source_addr_v6);
        let dst = u128_to_parts(doc.destination_addr_v6);
        Ok(
            RuleWithName {
                name: doc.name.clone(),
                uindex: 0,
                order: doc.order,
                drop: doc.drop,
                ok: doc.ok,
                v4: doc.v4,
                v6: doc.v6,
                tcp: doc.tcp,
                udp: doc.udp,
                on: doc.on,
                src_ip_high: src.high,
                src_ip_low: src.low,
                dst_ip_high: dst.high,
                dst_ip_low: dst.low,
                source_addr_v4: doc.source_addr_v4,
                destination_addr_v4: doc.destination_addr_v4,
                rule_id,
                ifindex: doc.ifindex,
                source_port_start: doc.source_port_start as u16,
                source_port_end: doc.source_port_end as u16,
                destination_port_start: doc.destination_port_start as u16,
                destination_port_end: doc.destination_port_end as u16,
                input: doc.input,
                output: doc.output,
                source_mask_v4: doc.source_mask_v4,
                destination_mask_v4: doc.destination_mask_v4,
                source_mask_v6: doc.source_mask_v6,
                destination_mask_v6: doc.destination_mask_v6,
                from_db: false,
            },
        )
    }

    /// The rule that a rule file states, under a fresh random non-zero id.
    pub fn from_yaml(doc: &RuleDoc) -> (r: Result<RuleWithName, RuleError>)
        ensures
            doc_error(*doc) matches Some(e) ==> r == Err::<RuleWithName, RuleError>(e),
            doc_error(*doc) is None ==> (r matches Ok(rule) && rule.rule_id != 0 && rule
                == rule_of_doc(*doc, rule.rule_id)),
    {
        let drawn = random_u32();
        let rule_id = if drawn == 0 {
            1
        } else {
            drawn
        };
        Self::from_doc(doc, rule_id)
    }
}

/// The first broken invariant of a rule, if any: prefix lengths, then port
/// ranges, then the id.
pub open spec fn rule_fault(r: RuleWithName) -> Option<RuleError> {
    if r.source_mask_v4 > V4_MAX_PREFIX || r.destination_mask_v4 > V4_MAX_PREFIX
        || r.source_mask_v6 > V6_MAX_PREFIX || r.destination_mask_v6 > V6_MAX_PREFIX {
        Some(RuleError::PrefixTooLong)
    } else if r.source_port_start > r.source_port_end || r.destination_port_start
        > r.destination_port_end {
        Some(RuleError::PortRangeReversed)
    } else if r.rule_id == 0 {
        Some(RuleError::ZeroId)
    } else {
        None
    }
}

impl RuleWithName {
    /// Checks the rule invariants, as a rule received from outside must meet
    /// them before it is stored.
    pub fn validate(&self) -> (r: Result<(), RuleError>)
        ensures
            r is Ok <==> self.wf(),
            r matches Err(e) ==> rule_fault(*self) == Some(e),
    {
        if self.source_mask_v4 > V4_MAX_PREFIX || self.destination_mask_v4 > V4_MAX_PREFIX
            || self.source_mask_v6 > V6_MAX_PREFIX || self.destination_mask_v6 > V6_MAX_PREFIX {
            return Err(RuleError::PrefixTooLong);
        }
        if self.source_port_start > self.source_port_end || self.destination_port_start
            > self.destination_port_end {
            return Err(RuleError::PortRangeReversed);
        }
        if self.rule_id == 0 {
            return Err(RuleError::ZeroId);
        }
        Ok(())
    }
}

} // verus!
