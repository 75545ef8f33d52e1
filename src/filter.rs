use vstd::prelude::*;

use crate::packet::ParseResult;
use crate::subnet::{in_subnet_v6, is_ip_in_subnet_v6};

verus! {

/// The network of a block-list entry: the entry without its low byte.
pub open spec fn entry_network(item: u128) -> u128 {
    item >> 8u128
}

/// The prefix length of a block-list entry: its low byte.
pub open spec fn entry_prefix(item: u128) -> u8 {
    (item & 0xffu128) as u8
}

/// The list blocks `addr`: its first entry is set (prefix length other than
/// 0) and its subnet holds `addr`. Later entries are not consulted.
pub open spec fn blocked_by(list: Seq<u128>, addr: u128) -> bool {
    &&& list.len() > 0
    &&& entry_prefix(list[0]) != 0
    &&& in_subnet_v6(addr, entry_network(list[0]), entry_prefix(list[0]))
}

/// IPv6 subnets blocked outright, per direction. Each entry holds a network
/// shifted left by 8 bits, and its prefix length in the low byte.
pub struct SubnetBlocklist {
    pub in_subnets: Vec<u128>,
    pub out_subnets: Vec<u128>,
}

/// A packet's source lies in the blocked ingress subnet.
pub fn is_in_v6_subnet_block(lists: &SubnetBlocklist, pac: &ParseResult) -> (r: bool)
    ensures
        r == blocked_by(lists.in_subnets@, pac.source_addr_v6),
{
    is_in_subnet_block_for_v6(lists, pac, true)
}

/// A packet's source lies in the blocked egress subnet.
pub fn is_out_v6_subnet_block(lists: &SubnetBlocklist, pac: &ParseResult) -> (r: bool)
    ensures
        r == blocked_by(lists.out_subnets@, pac.source_addr_v6),
{
    is_in_subnet_block_for_v6(lists, pac, false)
}

/// The packet's source lies in the blocked subnet of the list of the
/// direction `is_input` names.
pub fn is_in_subnet_block_for_v6(lists: &SubnetBlocklist, pac: &ParseResult, is_input: bool) -> (r:
    bool)
    ensures
        is_input ==> r == blocked_by(lists.in_subnets@, pac.source_addr_v6),
        !is_input ==> r == blocked_by(lists.out_subnets@, pac.source_addr_v6),
{
    let list = if is_input {
        &lists.in_subnets
    } else {
        &lists.out_subnets
    };
    if list.len() == 0 {
        return false;
    }
    let item = list[0];
    let network = item >> 8u128;
    let prefix_len = (item & 0xffu128) as u8;
    if prefix_len == 0 {
        return false;
    }
    is_ip_in_subnet_v6(pac.source_addr_v6, network, prefix_len)
}

} // verus!
