use rbpf::control::{Control, ControlAction};
use rbpf::doc::{RuleDoc, RuleError};
use rbpf::events::{ActionType, ProtocolType, ProtocolVersionType, TrafficType};
use rbpf::log::{send_from, WLogMessage, DEBUG, ERROR, INFO, WARN};
use rbpf::logline::log_line;
use rbpf::rule::{Rule, RuleWithName};
use rbpf::store::RuleStore;

fn doc(name: &str) -> RuleDoc {
    RuleDoc {
        name: name.to_string(),
        order: 0,
        drop: true,
        ok: false,
        v4: true,
        v6: false,
        tcp: true,
        udp: false,
        on: true,
        input: true,
        output: false,
        source_addr_v4: u32::from_be_bytes([10, 0, 0, 0]),
        source_mask_v4: 8,
        destination_addr_v4: 0,
        destination_mask_v4: 0,
        source_addr_v6: 0x2001_0db8_0000_0000_0000_0000_0000_0001,
        source_mask_v6: 0,
        destination_addr_v6: 0,
        destination_mask_v6: 0,
        source_port_start: 0,
        source_port_end: 0,
        destination_port_start: 22,
        destination_port_end: 80,
        ifindex: 0,
    }
}

fn rule(name: &str, id: u32, order: i32) -> RuleWithName {
    let mut r = RuleWithName::from_doc(&doc(name), id).unwrap();
    r.order = order;
    r
}

#[test]
fn from_doc_builds_rule() {
    let r = RuleWithName::from_doc(&doc("ssh"), 17).unwrap();
    assert_eq!(r.name, "ssh");
    assert_eq!(r.rule_id, 17);
    assert_eq!(r.src_ip_high, 0x2001_0db8_0000_0000);
    assert_eq!(r.src_ip_low, 1);
    assert_eq!(r.destination_port_start, 22);
    assert_eq!(r.destination_port_end, 80);
    assert_eq!(r.source_mask_v4, 8);
    assert!(!r.from_db);
    let common: Rule = r.to_common_rule();
    assert_eq!(common.source_addr_v6, 0x2001_0db8_0000_0000_0000_0000_0000_0001);
    assert_eq!(common.rule_id, 17);
    assert!(common.drop && common.on && common.v4);
}

#[test]
fn from_doc_rejects_bad_rules() {
    assert_eq!(RuleWithName::from_doc(&doc("a"), 0).unwrap_err(), RuleError::ZeroId);
    let d = RuleDoc { source_mask_v4: 33, ..doc("a") };
    assert_eq!(RuleWithName::from_doc(&d, 1).unwrap_err(), RuleError::PrefixTooLong);
    let d = RuleDoc { destination_mask_v6: 129, ..doc("a") };
    assert_eq!(RuleWithName::from_doc(&d, 1).unwrap_err(), RuleError::PrefixTooLong);
    let d = RuleDoc { source_mask_v6: 128, destination_mask_v4: 32, ..doc("a") };
    assert!(RuleWithName::from_doc(&d, 1).is_ok());
    let d = RuleDoc { source_port_end: 70000, ..doc("a") };
    assert_eq!(RuleWithName::from_doc(&d, 1).unwrap_err(), RuleError::PortOutOfRange);
    let d = RuleDoc { destination_port_start: -1, ..doc("a") };
    assert_eq!(RuleWithName::from_doc(&d, 1).unwrap_err(), RuleError::PortOutOfRange);
    let d = RuleDoc { source_port_start: 10, source_port_end: 5, ..doc("a") };
    assert_eq!(RuleWithName::from_doc(&d, 1).unwrap_err(), RuleError::PortRangeReversed);
}

#[test]
fn from_yaml_draws_nonzero_id() {
    for _ in 0..20 {
        let r = RuleWithName::from_yaml(&doc("x")).unwrap();
        assert_ne!(r.rule_id, 0);
        assert_eq!(r.name, "x");
    }
    let bad = RuleDoc { source_mask_v4: 40, ..doc("x") };
    assert_eq!(RuleWithName::from_yaml(&bad).unwrap_err(), RuleError::PrefixTooLong);
}

#[test]
fn empty_rule_placeholder() {
    let r = RuleWithName::from_empty();
    assert_eq!(r.name, "Empty fake rule!");
    assert_eq!(r.rule_id, 0);
    assert!(!r.on && !r.drop && !r.ok);
}

#[test]
fn set_then_get_returns_rule() {
    let mut store = RuleStore::new();
    let r = rule("a", 5, 0);
    store.set_rule(r.duplicate());
    let got = store.get_rule_name(5).unwrap();
    assert_eq!(got.name, "a");
    assert_eq!(got.rule_id, 5);
    assert!(store.get_rule_name(6).is_none());
    assert_eq!(store.get_rules_len(), 1);
    store.set_rule(rule("b", 5, 3));
    assert_eq!(store.get_rule_name(5).unwrap().name, "b");
    assert_eq!(store.get_rules_len(), 1);
}

#[test]
fn change_rule_reports_persistence() {
    let mut store = RuleStore::new();
    let mut r = rule("a", 5, 0);
    assert!(!store.change_rule(r.duplicate()));
    r.from_db = true;
    r.name = "renamed".to_string();
    assert!(store.change_rule(r));
    assert_eq!(store.get_rule_name(5).unwrap().name, "renamed");
}

#[test]
fn table_is_sorted_by_order_then_id() {
    let mut store = RuleStore::new();
    store.set_rule(rule("c", 30, 2));
    store.set_rule(rule("a", 20, -1));
    store.set_rule(rule("b", 10, 2));
    store.set_rule(rule("d", 5, 7));
    let table = store.make_bpf_maps();
    let ids: Vec<u32> = table.iter().map(|r| r.rule_id).collect();
    assert_eq!(ids, vec![20, 10, 30, 5]);
    assert!(RuleStore::new().make_bpf_maps().is_empty());
}

#[test]
fn reload_is_union_of_sources() {
    let mut store = RuleStore::new();
    store.set_rule(rule("stale", 99, 0));
    let files = vec![rule("f1", 1, 0), rule("f2", 2, 0)];
    store.reload(files, vec![rule("d3", 3, 0), rule("d2", 2, 0)]);
    assert_eq!(store.get_rules_len(), 3);
    assert!(store.get_rule_name(99).is_none());
    assert!(!store.get_rule_name(1).unwrap().from_db);
    let two = store.get_rule_name(2).unwrap();
    assert!(two.from_db);
    assert_eq!(two.name, "d2");
    assert!(store.get_rule_name(3).unwrap().from_db);
    let keys: Vec<u32> = {
        let mut k: Vec<u32> = store.get_rules().keys().copied().collect();
        k.sort();
        k
    };
    assert_eq!(keys, vec![1, 2, 3]);
}

#[test]
fn second_reload_keeps_ids_and_contents() {
    let files = || vec![rule("f1", 1, 4), rule("f2", 2, 1)];
    let db = || vec![rule("d", 3, 0)];
    let mut store = RuleStore::new();
    store.reload(files(), db());
    let first: Vec<(u32, String, bool)> = {
        let mut v: Vec<_> =
            store.get_rules().values().map(|r| (r.rule_id, r.name.clone(), r.from_db)).collect();
        v.sort();
        v
    };
    let first_table: Vec<u32> = store.make_bpf_maps().iter().map(|r| r.rule_id).collect();
    store.reload(files(), db());
    let second: Vec<(u32, String, bool)> = {
        let mut v: Vec<_> =
            store.get_rules().values().map(|r| (r.rule_id, r.name.clone(), r.from_db)).collect();
        v.sort();
        v
    };
    assert_eq!(first, second);
    let second_table: Vec<u32> = store.make_bpf_maps().iter().map(|r| r.rule_id).collect();
    assert_eq!(first_table, second_table);
    assert_eq!(second_table, vec![3, 2, 1]);
}

#[test]
fn update_rule_reaches_table() {
    let mut store = RuleStore::new();
    store.set_rule(rule("a", 1, 0));
    let mut changed = rule("a", 1, 0);
    changed.drop = false;
    changed.ok = true;
    changed.from_db = true;
    let control = Control { action: ControlAction::UpdateRule, rule: changed };
    assert_eq!(control.action, ControlAction::UpdateRule);
    let (persist, table) = store.update_rule(control.rule);
    assert!(persist);
    assert_eq!(table.len(), 1);
    assert!(table[0].ok && !table[0].drop);
}

#[test]
fn create_rule_uses_assigned_id() {
    let mut store = RuleStore::new();
    store.set_rule(rule("a", 1, 0));
    assert!(store.create_rule(rule("new", 1, 5), 0).is_none());
    assert_eq!(store.get_rules_len(), 1);
    let table = store.create_rule(rule("new", 1, 5), 44).unwrap();
    assert_eq!(table.len(), 2);
    assert_eq!(table[1].rule_id, 44);
    let stored = store.get_rule_name(44).unwrap();
    assert_eq!(stored.uindex, 1);
    assert_eq!(stored.name, "new");
}

#[test]
fn serialized_record_names_rule() {
    let mut store = RuleStore::new();
    store.set_rule(rule("ban ssh", 8, 0));
    let mut msg = send_from("OK IN", INFO, 3);
    msg.rule_id = 8;
    msg.input = true;
    msg.tcp = true;
    msg.v4 = true;
    msg.src_ip_high = 1;
    msg.src_ip_low = 2;
    let w = WLogMessage { msg };
    let s = w.to_serialized(&store, "eth0".to_string(), 1_700_000_000);
    assert_eq!(s.rule_name, "ban ssh");
    assert_eq!(s.action, ActionType::Drop);
    assert_eq!(s.traffic_type, TrafficType::Input);
    assert_eq!(s.protocol_type, ProtocolType::TCP);
    assert_eq!(s.protocol_version_type, ProtocolVersionType::V4);
    assert_eq!(s.source_addr_v6, (1u128 << 64) | 2);
    assert_eq!(s.if_name, "eth0");
    assert_eq!(s.timestamp, 1_700_000_000);
    assert_eq!(s.level, INFO);
}

#[test]
fn serialized_record_without_rule() {
    let store = RuleStore::new();
    let w = WLogMessage::send_from("PIPE OUT", 0, 3);
    let s = w.to_serialized(&store, "*".to_string(), 5);
    assert_eq!(s.rule_name, "");
    assert_eq!(s.action, ActionType::Pipe);
    assert_eq!(s.traffic_type, TrafficType::Output);
    assert_eq!(s.protocol_type, ProtocolType::UDP);
    assert_eq!(s.protocol_version_type, ProtocolVersionType::V6);
    let mut missing = WLogMessage::send_from("OK IN", 1, 3);
    missing.msg.rule_id = 77;
    let s = missing.to_serialized(&store, "*".to_string(), 5);
    assert_eq!(s.rule_name, "No rule for this ID");
    assert_eq!(s.action, ActionType::Pipe);
}

#[test]
fn record_wall_clock_seconds() {
    let mut w = WLogMessage::send_from("OK IN", 1, 5_000_000_000);
    assert_eq!(w.unix_time_stamp(1_700_000_010_000_000_000, 10_000_000_000), 1_700_000_005);
    w.msg.timestamp = 0;
    assert_eq!(w.unix_time_stamp(5, 10), 0);
    w.msg.timestamp = u64::MAX;
    assert_eq!(w.unix_time_stamp(u64::MAX, 0), (2 * (u64::MAX as u128) / 1_000_000_000) as u64);
}

#[test]
fn validate_checks_invariants() {
    let good = rule("a", 3, 0);
    assert!(good.validate().is_ok());
    let mut bad = good.duplicate();
    bad.source_mask_v6 = 129;
    assert_eq!(bad.validate().unwrap_err(), RuleError::PrefixTooLong);
    let mut bad = good.duplicate();
    bad.destination_port_start = 100;
    bad.destination_port_end = 99;
    assert_eq!(bad.validate().unwrap_err(), RuleError::PortRangeReversed);
    let mut bad = good.duplicate();
    bad.rule_id = 0;
    assert_eq!(bad.validate().unwrap_err(), RuleError::ZeroId);
}

#[test]
fn log_line_names_rule_and_ports() {
    let mut store = RuleStore::new();
    store.set_rule(rule("ban ssh", 8, 0));
    let mut w = WLogMessage::send_from("BAN IN v4", WARN, 3);
    w.msg.rule_id = 8;
    w.msg.input = true;
    w.msg.tcp = true;
    w.msg.source_port = 55555;
    w.msg.destination_port = 22;
    let line = log_line(&w, &store, "eth0", "10.1.2.3", "192.168.1.1");
    assert_eq!(line, "[BAN IN v4] INPUT: (eth0 TCP) 10.1.2.3:55555 -> 192.168.1.1:22 ban ssh");
    w.msg.rule_id = 9;
    let line = log_line(&w, &store, "eth0", "10.1.2.3", "192.168.1.1");
    assert!(line.ends_with(" No rule for this ID"));
}

#[test]
fn log_line_error_and_plain_records() {
    let store = RuleStore::new();
    let mut w = WLogMessage::send_from("UNHANDLED IN", ERROR, 0);
    w.msg.input = true;
    w.msg.unhandled_protocol = 1;
    let line = log_line(&w, &store, "*", "10.0.0.1", "10.0.0.2");
    assert_eq!(line, "[UNHANDLED IN] PROTO 1 INPUT: (*) 10.0.0.1 -> 10.0.0.2");
    let mut w = WLogMessage::send_from("PIPE OUT", DEBUG, 0);
    w.msg.udp = true;
    w.msg.tcp = true;
    w.msg.destination_port = 53;
    let line = log_line(&w, &store, "lo", "2001:db8::1", "2001:db8::2");
    assert_eq!(line, "[PIPE OUT] OUTPUT: (lo TCP UDP) 2001:db8::1 -> 2001:db8::2:53");
    w.msg.udp = false;
    w.msg.tcp = false;
    w.msg.destination_port = 0;
    w.msg.source_port = 7;
    let line = log_line(&w, &store, "lo", "a", "b");
    assert_eq!(line, "[PIPE OUT] OUTPUT: (lo) a:7 -> b");
}
