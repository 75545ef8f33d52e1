use vstd::prelude::*;

use crate::frame::UnhandledProtocolError;
use crate::packet::ParseResult;
use crate::subnet::{high_of, low_of, u128_to_parts};
use vstd::string::StringSliceAdditionalSpecFns;

verus! {

pub const DEBUG: u8 = 0;

pub const INFO: u8 = 1;

pub const WARN: u8 = 2;

pub const ERROR: u8 = 3;

/// Length of the NUL-padded message slug of a record.
pub const MESSAGE_LEN: usize = 128;

/// `unhandled_protocol` of a record that is not about an unhandled protocol.
pub const NO_UNHANDLED_PROTOCOL: u8 = 255;

/// One per-packet log record, as the kernel side hands it to userspace.
#[derive(Clone, Debug)]
pub struct LogMessage {
    pub message: Vec<u8>,
    pub input: bool,
    pub output: bool,
    pub v4: bool,
    pub tcp: bool,
    pub udp: bool,
    pub src_ip_high: u64,
    pub src_ip_low: u64,
    pub dst_ip_high: u64,
    pub dst_ip_low: u64,
    pub source_addr_v4: u32,
    pub destination_addr_v4: u32,
    pub rule_id: u32,
    pub ifindex: u32,
    pub unhandled_protocol: u8,
    pub source_port: u16,
    pub destination_port: u16,
    pub level: u8,
    pub timestamp: u64,
}

/// The first `MESSAGE_LEN` bytes of `text`, NUL-padded to `MESSAGE_LEN`.
pub open spec fn padded(text: Seq<u8>) -> Seq<u8> {
    Seq::new(
        MESSAGE_LEN as nat,
        |i: int|
            if i < text.len() {
                text[i]
            } else {
                0u8
            },
    )
}

impl LogMessage {
    pub open spec fn wf(&self) -> bool {
        self.message@.len() == MESSAGE_LEN
    }

    /// The record reports packet `pac` at `level`, decided by `rule_id`
    /// (0 for none), stamped `timestamp`.
    pub open spec fn reports_packet(
        &self,
        pac: ParseResult,
        rule_id: u32,
        level: u8,
        timestamp: u64,
    ) -> bool {
        &&& self.input == pac.input
        &&& self.output == pac.output
        &&& self.v4 == pac.v4
        &&& self.tcp == pac.is_tcp_spec()
        &&& self.udp == pac.is_udp_spec()
        &&& self.src_ip_high == high_of(pac.source_addr_v6)
        &&& self.src_ip_low == low_of(pac.source_addr_v6)
        &&& self.dst_ip_high == high_of(pac.destination_addr_v6)
        &&& self.dst_ip_low == low_of(pac.destination_addr_v6)
        &&& self.source_addr_v4 == pac.source_addr_v4
        &&& self.destination_addr_v4 == pac.destination_addr_v4
        &&& self.rule_id == rule_id
        &&& self.ifindex == pac.ifindex
        &&& self.unhandled_protocol == NO_UNHANDLED_PROTOCOL
        &&& self.source_port == pac.source_port
        &&& self.destination_port == pac.destination_port
        &&& self.level == level
        &&& self.timestamp == timestamp
    }

    /// The record reports the unhandled protocol `err` at level ERROR.
    pub open spec fn reports_unhandled(&self, err: UnhandledProtocolError, timestamp: u64) -> bool {
        &&& self.input == err.input
        &&& self.output == !err.input
        &&& self.v4 == err.v4
        &&& !self.tcp && !self.udp
        &&& self.src_ip_high == high_of(err.src_v6)
        &&& self.src_ip_low == low_of(err.src_v6)
        &&& self.dst_ip_high == high_of(err.dst_v6)
        &&& self.dst_ip_low == low_of(err.dst_v6)
        &&& self.source_addr_v4 == err.src_v4
        &&& self.destination_addr_v4 == err.dst_v4
        &&& self.rule_id == 0
        &&& self.ifindex == err.ifindex
        &&& self.unhandled_protocol == err.proto
        &&& self.source_port == 0 && self.destination_port == 0
        &&& self.level == ERROR
        &&& self.timestamp == timestamp
    }
}

/// The message slug `msg`, cut or NUL-padded to `MESSAGE_LEN` bytes.
pub fn str_to_u8(msg: &str) -> (r: Vec<u8>)
    ensures
        r@ == padded(msg.spec_bytes()),
{
    let bytes = msg.as_bytes();
    let mut message: Vec<u8> = Vec::with_capacity(MESSAGE_LEN);
    let mut i: usize = 0;
    while i < MESSAGE_LEN
        invariant
            bytes@ == msg.spec_bytes(),
            i <= MESSAGE_LEN,
            message@.len() == i,
            forall|j: int| 0 <= j < i ==> message@[j] == padded(bytes@)[j],
        decreases MESSAGE_LEN - i,
    {
        if i < bytes.len() {
            message.push(bytes[i]);
        } else {
            message.push(0u8);
        }
        i = i + 1;
    }
    assert(message@ =~= padded(bytes@));
    message
}

/// Builds the record of packet `pac`, decided by `rule_id` (0 for none).
pub fn send_from_rule(message: &str, rule_id: u32, pac: &ParseResult, level: u8, timestamp: u64) -> (r:
    LogMessage)
    ensures
        r.message@ == padded(message.spec_bytes()),
        r.reports_packet(*pac, rule_id, level, timestamp),
{
    let src = u128_to_parts(pac.source_addr_v6);
    let dst = u128_to_parts(pac.destination_addr_v6);
    LogMessage {
        message: str_to_u8(message),
        input: pac.input,
        output: pac.output,
        v4: pac.v4,
        tcp: pac.is_tcp(),
        udp: pac.is_udp(),
        src_ip_high: src.high,
        src_ip_low: src.low,
        dst_ip_high: dst.high,
        dst_ip_low: dst.low,
        source_addr_v4: pac.source_addr_v4,
        destination_addr_v4: pac.destination_addr_v4,
        rule_id,
        ifindex: pac.ifindex,
        unhandled_protocol: NO_UNHANDLED_PROTOCOL,
        source_port: pac.source_port,
        destination_port: pac.destination_port,
        level,
        timestamp,
    }
}

/// Builds a record that carries only a message and a level.
pub fn send_from(message: &str, level: u8, timestamp: u64) -> (r: LogMessage)
    ensures
        r.message@ == padded(message.spec_bytes()),
        r.level == level && r.timestamp == timestamp,
        r.rule_id == 0 && r.ifindex == 0,
        !r.input && !r.output && !r.v4 && !r.tcp && !r.udp,
        r.src_ip_high == 0 && r.src_ip_low == 0 && r.dst_ip_high == 0 && r.dst_ip_low == 0,
        r.source_addr_v4 == 0 && r.destination_addr_v4 == 0,
        r.source_port == 0 && r.destination_port == 0,
        r.unhandled_protocol == NO_UNHANDLED_PROTOCOL,
{
    LogMessage {
        message: str_to_u8(message),
        input: false,
        output: false,
        v4: false,
        tcp: false,
        udp: false,
        src_ip_high: 0,
        src_ip_low: 0,
        dst_ip_high: 0,
        dst_ip_low: 0,
        source_addr_v4: 0,
        destination_addr_v4: 0,
        rule_id: 0,
        ifindex: 0,
        unhandled_protocol: NO_UNHANDLED_PROTOCOL,
        source_port: 0,
        destination_port: 0,
        level,
        timestamp,
    }
}

/// Builds the ERROR record of a packet whose protocol is not handled.
pub fn send_err_unhandled_protocol(message: &str, err: &UnhandledProtocolError, timestamp: u64) -> (r:
    LogMessage)
    ensures
        r.message@ == padded(message.spec_bytes()),
        r.reports_unhandled(*err, timestamp),
{
    let src = u128_to_parts(err.src_v6);
    let dst = u128_to_parts(err.dst_v6);
    LogMessage {
        message: str_to_u8(message),
        input: err.input,
        output: !err.input,
        v4: err.v4,
        tcp: false,
        udp: false,
        src_ip_high: src.high,
        src_ip_low: src.low,
        dst_ip_high: dst.high,
        dst_ip_low: dst.low,
        source_addr_v4: err.src_v4,
        destination_addr_v4: err.dst_v4,
        rule_id: 0,
        ifindex: err.ifindex,
        unhandled_protocol: err.proto_as_u8(),
        source_port: 0,
        destination_port: 0,
        level: ERROR,
        timestamp,
    }
}

/// A log record as the kernel side wraps it.
pub struct WLogMessage {
    pub msg: LogMessage,
}

impl WLogMessage {
    pub fn send_from_rule(message: &str, rule_id: u32, pac: &ParseResult, level: u8, timestamp: u64) -> (r:
        Self)
        ensures
            r.msg.message@ == padded(message.spec_bytes()),
            r.msg.reports_packet(*pac, rule_id, level, timestamp),
    {
        WLogMessage { msg: send_from_rule(message, rule_id, pac, level, timestamp) }
    }

    pub fn send_from(message: &str, level: u8, timestamp: u64) -> (r: Self)
        ensures
            r.msg.message@ == padded(message.spec_bytes()),
            r.msg.level == level && r.msg.timestamp == timestamp,
            r.msg.rule_id == 0 && r.msg.ifindex == 0,
            !r.msg.input && !r.msg.output && !r.msg.v4 && !r.msg.tcp && !r.msg.udp,
            r.msg.src_ip_high == 0 && r.msg.src_ip_low == 0,
            r.msg.dst_ip_high == 0 && r.msg.dst_ip_low == 0,
            r.msg.source_addr_v4 == 0 && r.msg.destination_addr_v4 == 0,
            r.msg.source_port == 0 && r.msg.destination_port == 0,
            r.msg.unhandled_protocol == NO_UNHANDLED_PROTOCOL,
    {
        WLogMessage { msg: send_from(message, level, timestamp) }
    }

    pub fn str_to_u8(msg: &str) -> (r: Vec<u8>)
        ensures
            r@ == padded(msg.spec_bytes()),
    {
        str_to_u8(msg)
    }
}

} // verus!
