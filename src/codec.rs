use vstd::prelude::*;

use crate::frame::{be_at, be_value, pow256, read_be};
use crate::log::{LogMessage, MESSAGE_LEN};

verus! {

/// Size of an encoded log record.
pub const RECORD_LEN: usize = 256;

/// Bytes of a record that carry fields; the rest is zero padding.
pub const RECORD_USED: usize = 195;

/// The `n` big-endian bytes of `v`.
pub open spec fn be_bytes(v: nat, n: nat) -> Seq<u8>
    decreases n,
{
    if n == 0 {
        Seq::empty()
    } else {
        be_bytes(v / 256, (n - 1) as nat).push((v % 256) as u8)
    }
}

pub open spec fn flag(b: bool) -> Seq<u8> {
    seq![if b { 1u8 } else { 0u8 }]
}

/// The encoded form of a record: the message, five flag bytes, then each
/// number big-endian in field order, then zero padding to `RECORD_LEN`.
pub open spec fn record_bytes(m: LogMessage) -> Seq<u8> {
    m.message@ + flag(m.input) + flag(m.output) + flag(m.v4) + flag(m.tcp) + flag(m.udp)
        + be_bytes(m.src_ip_high as nat, 8) + be_bytes(m.src_ip_low as nat, 8) + be_bytes(
        m.dst_ip_high as nat,
        8,
    ) + be_bytes(m.dst_ip_low as nat, 8) + be_bytes(m.source_addr_v4 as nat, 4) + be_bytes(
        m.destination_addr_v4 as nat,
        4,
    ) + be_bytes(m.rule_id as nat, 4) + be_bytes(m.ifindex as nat, 4) + be_bytes(
        m.unhandled_protocol as nat,
        1,
    ) + be_bytes(m.source_port as nat, 2) + be_bytes(m.destination_port as nat, 2) + be_bytes(
        m.level as nat,
        1,
    ) + be_bytes(m.timestamp as nat, 8) + Seq::new((RECORD_LEN - RECORD_USED) as nat, |i: int| 0u8)
}

/// `m` is the record that `bytes` decode to.
pub open spec fn decodes_to(bytes: Seq<u8>, m: LogMessage) -> bool {
    &&& bytes.len() == RECORD_LEN
    &&& m.message@ == bytes.subrange(0, 128)
    &&& m.input == (bytes[128] != 0)
    &&& m.output == (bytes[129] != 0)
    &&& m.v4 == (bytes[130] != 0)
    &&& m.tcp == (bytes[131] != 0)
    &&& m.udp == (bytes[132] != 0)
    &&& m.src_ip_high as nat == be_at(bytes, 133, 8)
    &&& m.src_ip_low as nat == be_at(bytes, 141, 8)
    &&& m.dst_ip_high as nat == be_at(bytes, 149, 8)
    &&& m.dst_ip_low as nat == be_at(bytes, 157, 8)
    &&& m.source_addr_v4 as nat == be_at(bytes, 165, 4)
    &&& m.destination_addr_v4 as nat == be_at(bytes, 169, 4)
    &&& m.rule_id as nat == be_at(bytes, 173, 4)
    &&& m.ifindex as nat == be_at(bytes, 177, 4)
    &&& m.unhandled_protocol as nat == be_at(bytes, 181, 1)
    &&& m.source_port as nat == be_at(bytes, 182, 2)
    &&& m.destination_port as nat == be_at(bytes, 184, 2)
    &&& m.level as nat == be_at(bytes, 186, 1)
    &&& m.timestamp as nat == be_at(bytes, 187, 8)
}

/// Two records hold the same fields.
pub open spec fn same_record(a: LogMessage, b: LogMessage) -> bool {
    &&& a.message@ == b.message@
    &&& a.input == b.input && a.output == b.output && a.v4 == b.v4
    &&& a.tcp == b.tcp && a.udp == b.udp
    &&& a.src_ip_high == b.src_ip_high && a.src_ip_low == b.src_ip_low
    &&& a.dst_ip_high == b.dst_ip_high && a.dst_ip_low == b.dst_ip_low
    &&& a.source_addr_v4 == b.source_addr_v4 && a.destination_addr_v4 == b.destination_addr_v4
    &&& a.rule_id == b.rule_id && a.ifindex == b.ifindex
    &&& a.unhandled_protocol == b.unhandled_protocol
    &&& a.source_port == b.source_port && a.destination_port == b.destination_port
    &&& a.level == b.level && a.timestamp == b.timestamp
}

proof fn lemma_be_bytes(v: nat, n: nat)
    requires
        v < pow256(n),
    ensures
        be_bytes(v, n).len() == n,
        be_value(be_bytes(v, n)) == v,
    decreases n,
{
    if n > 0 {
        let p = pow256((n - 1) as nat);
        assert(v / 256 < p) by (nonlinear_arith)
            requires
                v < 256 * p,
        ;
        lemma_be_bytes(v / 256, (n - 1) as nat);
        let s = be_bytes(v, n);
        assert(s.drop_last() =~= be_bytes(v / 256, (n - 1) as nat));
        assert((v / 256) * 256 + v % 256 == v) by (nonlinear_arith);
    }
}

proof fn lemma_bounds()
    ensures
        pow256(1) == 0x100,
        pow256(2) == 0x1_0000,
        pow256(4) == 0x1_0000_0000,
        pow256(8) == 0x1_0000_0000_0000_0000,
{
    reveal_with_fuel(pow256, 9);
}

/// Decoding an encoded record gives back every field of the record.
pub proof fn lemma_record_round_trip(m: LogMessage)
    requires
        m.wf(),
    ensures
        record_bytes(m).len() == RECORD_LEN,
        decodes_to(record_bytes(m), m),
{
    lemma_bounds();
    lemma_be_bytes(m.src_ip_high as nat, 8);
    lemma_be_bytes(m.src_ip_low as nat, 8);
    lemma_be_bytes(m.dst_ip_high as nat, 8);
    lemma_be_bytes(m.dst_ip_low as nat, 8);
    lemma_be_bytes(m.source_addr_v4 as nat, 4);
    lemma_be_bytes(m.destination_addr_v4 as nat, 4);
    lemma_be_bytes(m.rule_id as nat, 4);
    lemma_be_bytes(m.ifindex as nat, 4);
    lemma_be_bytes(m.unhandled_protocol as nat, 1);
    lemma_be_bytes(m.source_port as nat, 2);
    lemma_be_bytes(m.destination_port as nat, 2);
    lemma_be_bytes(m.level as nat, 1);
    lemma_be_bytes(m.timestamp as nat, 8);
    let b = record_bytes(m);
    assert(b.subrange(0, 128) =~= m.message@);
    assert(b.subrange(133, 141) =~= be_bytes(m.src_ip_high as nat, 8));
    assert(b.subrange(141, 149) =~= be_bytes(m.src_ip_low as nat, 8));
    assert(b.subrange(149, 157) =~= be_bytes(m.dst_ip_high as nat, 8));
    assert(b.subrange(157, 165) =~= be_bytes(m.dst_ip_low as nat, 8));
    assert(b.subrange(165, 169) =~= be_bytes(m.source_addr_v4 as nat, 4));
    assert(b.subrange(169, 173) =~= be_bytes(m.destination_addr_v4 as nat, 4));
    assert(b.subrange(173, 177) =~= be_bytes(m.rule_id as nat, 4));
    assert(b.subrange(177, 181) =~= be_bytes(m.ifindex as nat, 4));
    assert(b.subrange(181, 182) =~= be_bytes(m.unhandled_protocol as nat, 1));
    assert(b.subrange(182, 184) =~= be_bytes(m.source_port as nat, 2));
    assert(b.subrange(184, 186) =~= be_bytes(m.destination_port as nat, 2));
    assert(b.subrange(186, 187) =~= be_bytes(m.level as nat, 1));
    assert(b.subrange(187, 195) =~= be_bytes(m.timestamp as nat, 8));
}

/// Decoding is determined by the bytes: two records decoded from the same
/// bytes hold the same fields.
pub proof fn lemma_decode_unique(bytes: Seq<u8>, a: LogMessage, b: LogMessage)
    requires
        decodes_to(bytes, a),
        decodes_to(bytes, b),
    ensures
        same_record(a, b),
{
}

/// Appends the `n` big-endian bytes of `v`.
fn push_be(out: &mut Vec<u8>, v: u64, n: usize)
    requires
        n <= 8,
    ensures
        final(out)@ == old(out)@ + be_bytes(v as nat, n as nat),
    decreases n,
{
    if n == 0 {
        assert(old(out)@ + be_bytes(v as nat, 0) =~= old(out)@);
        return;
    }
    push_be(out, v / 256, n - 1);
    out.push((v % 256) as u8);
    assert(final(out)@ =~= old(out)@ + be_bytes(v as nat, n as nat));
}

fn push_flag(out: &mut Vec<u8>, b: bool)
    ensures
        final(out)@ == old(out)@ + flag(b),
{
    out.push(if b { 1u8 } else { 0u8 });
    assert(final(out)@ =~= old(out)@ + flag(b));
}

/// The encoded form of a record.
pub fn encode_record(m: &LogMessage) -> (r: Vec<u8>)
    requires
        m.wf(),
    ensures
        r@ == record_bytes(*m),
{
    let mut out: Vec<u8> = Vec::with_capacity(RECORD_LEN);
    let mut i: usize = 0;
    while i < MESSAGE_LEN
        invariant
            m.message@.len() == MESSAGE_LEN,
            i <= MESSAGE_LEN,
            out@ == m.message@.subrange(0, i as int),
        decreases MESSAGE_LEN - i,
    {
        out.push(m.message[i]);
        i = i + 1;
        assert(out@ =~= m.message@.subrange(0, i as int));
    }
    assert(out@ =~= m.message@);
    push_flag(&mut out, m.input);
    push_flag(&mut out, m.output);
    push_flag(&mut out, m.v4);
    push_flag(&mut out, m.tcp);
    push_flag(&mut out, m.udp);
    push_be(&mut out, m.src_ip_high, 8);
    push_be(&mut out, m.src_ip_low, 8);
    push_be(&mut out, m.dst_ip_high, 8);
    push_be(&mut out, m.dst_ip_low, 8);
    push_be(&mut out, m.source_addr_v4 as u64, 4);
    push_be(&mut out, m.destination_addr_v4 as u64, 4);
    push_be(&mut out, m.rule_id as u64, 4);
    push_be(&mut out, m.ifindex as u64, 4);
    push_be(&mut out, m.unhandled_protocol as u64, 1);
    push_be(&mut out, m.source_port as u64, 2);
    push_be(&mut out, m.destination_port as u64, 2);
    push_be(&mut out, m.level as u64, 1);
    push_be(&mut out, m.timestamp, 8);
    let ghost fields = out@;
    let mut k: usize = RECORD_USED;
    while k < RECORD_LEN
        invariant
            RECORD_USED <= k <= RECORD_LEN,
            out@ == fields + Seq::new((k - RECORD_USED) as nat, |i: int| 0u8),
        decreases RECORD_LEN - k,
    {
        out.push(0u8);
        k = k + 1;
        assert(out@ =~= fields + Seq::new((k - RECORD_USED) as nat, |i: int| 0u8));
    }
    out
}

fn read_flag(bytes: &[u8], at: usize) -> (r: bool)
    requires
        at < bytes@.len(),
    ensures
        r == (bytes@[at as int] != 0),
{
    bytes[at] != 0
}

/// The record that `bytes` encode; `None` unless they are `RECORD_LEN` long.
pub fn decode_record(bytes: &[u8]) -> (r: Option<LogMessage>)
    ensures
        bytes@.len() != RECORD_LEN ==> r is None,
        bytes@.len() == RECORD_LEN ==> (r matches Some(m) && m.wf() && decodes_to(bytes@, m)),
{
    if bytes.len() != RECORD_LEN {
        return None;
    }
    proof {
        lemma_bounds();
    }
    let mut message: Vec<u8> = Vec::with_capacity(MESSAGE_LEN);
    let mut i: usize = 0;
    while i < MESSAGE_LEN
        invariant
            bytes@.len() == RECORD_LEN,
            i <= MESSAGE_LEN,
            message@ == bytes@.subrange(0, i as int),
        decreases MESSAGE_LEN - i,
    {
        message.push(bytes[i]);
        i = i + 1;
        assert(message@ =~= bytes@.subrange(0, i as int));
    }
    Some(
        LogMessage {
            message,
            input: read_flag(bytes, 128),
            output: read_flag(bytes, 129),
            v4: read_flag(bytes, 130),
            tcp: read_flag(bytes, 131),
            udp: read_flag(bytes, 132),
            src_ip_high: read_be(bytes, 133, 8) as u64,
            src_ip_low: read_be(bytes, 141, 8) as u64,
            dst_ip_high: read_be(bytes, 149, 8) as u64,
            dst_ip_low: read_be(bytes, 157, 8) as u64,
            source_addr_v4: read_be(bytes, 165, 4) as u32,
            destination_addr_v4: read_be(bytes, 169, 4) as u32,
            rule_id: read_be(bytes, 173, 4) as u32,
            ifindex: read_be(bytes, 177, 4) as u32,
            unhandled_protocol: read_be(bytes, 181, 1) as u8,
            source_port: read_be(bytes, 182, 2) as u16,
            destination_port: read_be(bytes, 184, 2) as u16,
            level: read_be(bytes, 186, 1) as u8,
            timestamp: read_be(bytes, 187, 8) as u64,
        },
    )
}

/// The length-prefixed frame of `payload`: its length as four big-endian
/// bytes, then the payload.
pub open spec fn frame_bytes(payload: Seq<u8>) -> Seq<u8> {
    be_bytes(payload.len(), 4) + payload
}

/// The payload of the frame at the start of `bytes`, if a whole one is there.
pub open spec fn frame_payload(bytes: Seq<u8>) -> Option<Seq<u8>> {
    if bytes.len() < 4 {
        None
    } else if 4 + be_at(bytes, 0, 4) > bytes.len() {
        None
    } else {
        Some(bytes.subrange(4, 4 + be_at(bytes, 0, 4) as int))
    }
}

/// A frame read back from the start of a stream gives the payload it was
/// made from, whatever follows it.
pub proof fn lemma_frame_round_trip(payload: Seq<u8>, rest: Seq<u8>)
    requires
        payload.len() <= u32::MAX,
    ensures
        frame_payload(frame_bytes(payload) + rest) == Some(payload),
{
    lemma_bounds();
    lemma_be_bytes(payload.len(), 4);
    let b = frame_bytes(payload) + rest;
    assert(b.subrange(0, 4) =~= be_bytes(payload.len(), 4));
    assert(b.subrange(4, 4 + payload.len() as int) =~= payload);
}

/// Frames `payload` for the log stream.
pub fn encode_frame(payload: &[u8]) -> (r: Vec<u8>)
    requires
        payload@.len() <= u32::MAX,
    ensures
        r@ == frame_bytes(payload@),
{
    let n = payload.len();
    let mut out: Vec<u8> = Vec::new();
    push_be(&mut out, n as u64, 4);
    assert(out@ =~= be_bytes(payload@.len(), 4));
    let mut i: usize = 0;
    while i < n
        invariant
            n == payload@.len(),
            i <= n,
            out@ == be_bytes(payload@.len(), 4) + payload@.subrange(0, i as int),
        decreases n - i,
    {
        out.push(payload[i]);
        i = i + 1;
        assert(out@ =~= be_bytes(payload@.len(), 4) + payload@.subrange(0, i as int));
    }
    assert(payload@.subrange(0, n as int) =~= payload@);
    out
}

/// Reads the frame at the start of `bytes`: its payload and the number of
/// bytes it took, or `None` while the frame is incomplete.
pub fn decode_frame(bytes: &[u8]) -> (r: Option<(Vec<u8>, usize)>)
    ensures
        match frame_payload(bytes@) {
            None => r is None,
            Some(p) => r matches Some((payload, used)) && payload@ == p && used == 4 + p.len(),
        },
{
    if bytes.len() < 4 {
        return None;
    }
    let len = bytes.len();
    let declared = read_be(bytes, 0, 4) as u64;
    proof {
        lemma_bounds();
    }
    if declared > (len - 4) as u64 {
        return None;
    }
    let n = declared as usize;
    let mut payload: Vec<u8> = Vec::with_capacity(n);
    let mut i: usize = 0;
    while i < n
        invariant
            len == bytes@.len(),
            4 + n <= bytes@.len(),
            i <= n,
            payload@ == bytes@.subrange(4, 4 + i),
        decreases n - i,
    {
        payload.push(bytes[4 + i]);
        i = i + 1;
        assert(payload@ =~= bytes@.subrange(4, 4 + i));
    }
    Some((payload, 4 + n))
}

} // verus!
