use rbpf::dispatch::{Verdict, TC_ACT_PIPE, TC_ACT_SHOT, XDP_DROP, XDP_PASS};
use rbpf::frame::ContextWrapper;
use rbpf::log::{LogMessage, DEBUG, ERROR, INFO, NO_UNHANDLED_PROTOCOL, WARN};
use rbpf::rule::Rule;

fn blank_rule(rule_id: u32) -> Rule {
    Rule {
        drop: false,
        ok: false,
        v4: false,
        v6: false,
        tcp: false,
        udp: false,
        on: true,
        input: false,
        output: false,
        order: 0,
        source_addr_v6: 0,
        destination_addr_v6: 0,
        source_addr_v4: 0,
        destination_addr_v4: 0,
        rule_id,
        ifindex: 0,
        source_port_start: 0,
        source_port_end: 0,
        destination_port_start: 0,
        destination_port_end: 0,
        source_mask_v4: 0,
        destination_mask_v4: 0,
        source_mask_v6: 0,
        destination_mask_v6: 0,
    }
}

fn eth(ether_type: u16) -> Vec<u8> {
    let mut f = vec![0u8; 12];
    f.extend_from_slice(&ether_type.to_be_bytes());
    f
}

fn ipv4_frame(proto: u8, src: [u8; 4], dst: [u8; 4], sport: u16, dport: u16) -> Vec<u8> {
    let mut f = eth(0x0800);
    let mut ip = vec![0u8; 20];
    ip[0] = 0x45;
    ip[9] = proto;
    ip[12..16].copy_from_slice(&src);
    ip[16..20].copy_from_slice(&dst);
    f.extend_from_slice(&ip);
    let mut l4 = vec![0u8; 20];
    l4[0..2].copy_from_slice(&sport.to_be_bytes());
    l4[2..4].copy_from_slice(&dport.to_be_bytes());
    f.extend_from_slice(&l4);
    f
}

fn ipv6_frame(proto: u8, src: u128, dst: u128, sport: u16, dport: u16) -> Vec<u8> {
    let mut f = eth(0x86DD);
    let mut ip = vec![0u8; 40];
    ip[0] = 0x60;
    ip[6] = proto;
    ip[8..24].copy_from_slice(&src.to_be_bytes());
    ip[24..40].copy_from_slice(&dst.to_be_bytes());
    f.extend_from_slice(&ip);
    let mut l4 = vec![0u8; 8];
    l4[0..2].copy_from_slice(&sport.to_be_bytes());
    l4[2..4].copy_from_slice(&dport.to_be_bytes());
    f.extend_from_slice(&l4);
    f
}

fn ingress(frame: &[u8], ifindex: u32, table: &Vec<Rule>) -> (Verdict, Option<LogMessage>) {
    let ctx = ContextWrapper::from_usize(0, frame.len(), ifindex);
    ctx.handle_as_xdp(frame, table, 1000)
}

fn egress(frame: &[u8], ifindex: u32, table: &Vec<Rule>) -> (Verdict, Option<LogMessage>) {
    let ctx = ContextWrapper::from_usize(0, frame.len(), ifindex);
    ctx.handle_as_tc(frame, table, 1000)
}

fn subnet_drop_rule() -> Rule {
    Rule {
        input: true,
        v4: true,
        tcp: true,
        source_addr_v4: u32::from_be_bytes([10, 0, 0, 0]),
        source_mask_v4: 8,
        drop: true,
        ..blank_rule(42)
    }
}

fn scenario_one_packet() -> Vec<u8> {
    ipv4_frame(6, [10, 1, 2, 3], [192, 168, 1, 1], 55555, 22)
}

#[test]
fn ingress_v4_drop_by_subnet() {
    let table = vec![subnet_drop_rule()];
    let (verdict, log) = ingress(&scenario_one_packet(), 2, &table);
    assert_eq!(verdict, Verdict::Drop);
    assert_eq!(verdict.to_xdp(), XDP_DROP);
    let log = log.unwrap();
    assert_eq!(log.level, WARN);
    assert_eq!(log.rule_id, 42);
    assert_eq!(log.source_addr_v4, u32::from_be_bytes([10, 1, 2, 3]));
    assert_eq!(log.destination_addr_v4, u32::from_be_bytes([192, 168, 1, 1]));
    assert_eq!(log.source_port, 55555);
    assert_eq!(log.destination_port, 22);
    assert_eq!(log.ifindex, 2);
    assert!(log.input && !log.output && log.v4 && log.tcp && !log.udp);
    assert_eq!(log.timestamp, 1000);
    assert_eq!(&log.message[..6], b"BAN IN");
    assert_eq!(log.message.len(), 128);
    assert!(log.message[6..].iter().all(|b| *b == 0));
}

#[test]
fn egress_v6_pass_by_port() {
    let rule = Rule {
        order: 1,
        output: true,
        v6: true,
        udp: true,
        destination_port_start: 53,
        destination_port_end: 53,
        ok: true,
        ..blank_rule(7)
    };
    let src: u128 = 0x2001_0db8_0000_0000_0000_0000_0000_0001;
    let dst: u128 = 0x2001_0db8_0000_0000_0000_0000_0000_0002;
    let frame = ipv6_frame(17, src, dst, 12345, 53);
    let (verdict, log) = egress(&frame, 3, &vec![rule]);
    assert_eq!(verdict, Verdict::Pass);
    assert_eq!(verdict.to_tc(), TC_ACT_PIPE);
    let log = log.unwrap();
    assert_eq!(log.level, INFO);
    assert_eq!(log.rule_id, 7);
    assert_eq!(log.src_ip_high, (src >> 64) as u64);
    assert_eq!(log.src_ip_low, src as u64);
    assert_eq!(log.dst_ip_low, dst as u64);
    assert!(!log.v4 && log.udp && log.output);
}

#[test]
fn no_match_default_passes() {
    let table: Vec<Rule> = Vec::new();
    let (verdict, log) = ingress(&scenario_one_packet(), 2, &table);
    assert_eq!(verdict, Verdict::Pass);
    assert_eq!(verdict.to_xdp(), XDP_PASS);
    let log = log.unwrap();
    assert_eq!(log.level, DEBUG);
    assert_eq!(log.rule_id, 0);
    assert_eq!(log.unhandled_protocol, NO_UNHANDLED_PROTOCOL);
}

#[test]
fn disabled_rule_ignored() {
    let table = vec![Rule { on: false, ..subnet_drop_rule() }];
    let (verdict, log) = ingress(&scenario_one_packet(), 2, &table);
    assert_eq!(verdict, Verdict::Pass);
    let log = log.unwrap();
    assert_eq!(log.level, DEBUG);
    assert_eq!(log.rule_id, 0);
}

#[test]
fn interface_filter() {
    let table = vec![Rule { ifindex: 7, ..subnet_drop_rule() }];
    let (verdict, log) = ingress(&scenario_one_packet(), 2, &table);
    assert_eq!(verdict, Verdict::Pass);
    assert_eq!(log.unwrap().level, DEBUG);
    let (verdict, log) = ingress(&scenario_one_packet(), 7, &table);
    assert_eq!(verdict, Verdict::Drop);
    assert_eq!(log.unwrap().rule_id, 42);
}

#[test]
fn unhandled_protocol_on_ingress() {
    let frame = ipv4_frame(1, [10, 1, 2, 3], [192, 168, 1, 1], 0, 0);
    let table = vec![subnet_drop_rule()];
    let (verdict, log) = ingress(&frame, 2, &table);
    assert_eq!(verdict, Verdict::Drop);
    let log = log.unwrap();
    assert_eq!(log.level, ERROR);
    assert_eq!(log.unhandled_protocol, 1);
    assert_eq!(log.rule_id, 0);
    assert_eq!(log.source_addr_v4, u32::from_be_bytes([10, 1, 2, 3]));
    assert_eq!(&log.message[..12], b"UNHANDLED IN");
}

#[test]
fn unhandled_protocol_on_egress_drops() {
    let frame = ipv6_frame(58, 1, 2, 0, 0);
    let (verdict, log) = egress(&frame, 2, &Vec::new());
    assert_eq!(verdict, Verdict::Drop);
    assert_eq!(verdict.to_tc(), TC_ACT_SHOT);
    assert_eq!(log.unwrap().unhandled_protocol, 58);
}

#[test]
fn non_ip_passes_ingress_and_continues_egress() {
    let mut frame = eth(0x0806);
    frame.extend_from_slice(&[0u8; 28]);
    let (verdict, log) = ingress(&frame, 2, &Vec::new());
    assert_eq!(verdict, Verdict::Pass);
    assert!(log.is_none());
    let (verdict, log) = egress(&frame, 2, &Vec::new());
    assert_eq!(verdict, Verdict::Continue);
    assert_eq!(verdict.to_tc(), TC_ACT_PIPE);
    assert!(log.is_none());
}

#[test]
fn truncated_frames_drop() {
    let short_eth = vec![0u8; 10];
    assert_eq!(ingress(&short_eth, 2, &Vec::new()).0, Verdict::Drop);
    let mut short_ip = eth(0x0800);
    short_ip.extend_from_slice(&[0x45u8; 10]);
    assert_eq!(egress(&short_ip, 2, &Vec::new()).0, Verdict::Drop);
    let mut short_tcp = scenario_one_packet();
    short_tcp.truncate(14 + 20 + 10);
    let (verdict, log) = ingress(&short_tcp, 2, &vec![subnet_drop_rule()]);
    assert_eq!(verdict, Verdict::Drop);
    assert!(log.is_none());
}

#[test]
fn window_inside_larger_buffer() {
    let mut buf = vec![0xffu8; 5];
    buf.extend_from_slice(&scenario_one_packet());
    buf.extend_from_slice(&[0xffu8; 3]);
    let ctx = ContextWrapper::from_usize(5, buf.len() - 3, 2);
    let (verdict, log) = ctx.handle_as_xdp(&buf, &vec![subnet_drop_rule()], 9);
    assert_eq!(verdict, Verdict::Drop);
    assert_eq!(log.unwrap().rule_id, 42);
}

#[test]
fn record_carries_rule_id_only_when_decided() {
    let pass_rule = Rule { ok: true, drop: false, ..subnet_drop_rule() };
    let pipe_rule = Rule { ok: false, drop: false, ..subnet_drop_rule() };
    let (_, log) = ingress(&scenario_one_packet(), 2, &vec![pass_rule]);
    assert_eq!(log.unwrap().rule_id, 42);
    let (verdict, log) = ingress(&scenario_one_packet(), 2, &vec![pipe_rule]);
    assert_eq!(verdict, Verdict::Pass);
    assert_eq!(log.unwrap().rule_id, 0);
}
