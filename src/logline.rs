use vstd::prelude::*;

use crate::events::unknown_rule_name;
use crate::log::{LogMessage, WLogMessage, ERROR};
use crate::rule::RuleWithName;
use crate::store::RuleStore;
use vstd::string::StringExecFns;

verus! {

/// Relies on `String::push`: the character is appended to the string.
pub assume_specification[ String::push ](s: &mut String, ch: char)
    ensures
        final(s)@ == old(s)@.push(ch),
;

/// The decimal digit `d` as a character.
pub open spec fn digit_char(d: nat) -> char {
    ((d + 48) as u8) as char
}

/// `n` in decimal, without leading zeros.
pub open spec fn decimal(n: nat) -> Seq<char>
    decreases n,
{
    if n < 10 {
        seq![digit_char(n)]
    } else {
        decimal(n / 10).push(digit_char(n % 10))
    }
}

/// The message slug of a record: its bytes up to the first NUL, one
/// character each.
pub open spec fn slug_chars(message: Seq<u8>) -> Seq<char>
    decreases message.len(),
{
    if message.len() == 0 || message[0] == 0 {
        Seq::empty()
    } else {
        seq![message[0] as char] + slug_chars(message.skip(1))
    }
}

/// An address, followed by `:port` when the port is not 0.
pub open spec fn endpoint_text(ip: Seq<char>, port: u16) -> Seq<char> {
    if port != 0 {
        ip.push(':') + decimal(port as nat)
    } else {
        ip
    }
}

pub open spec fn proto_text(tcp: bool, udp: bool) -> Seq<char> {
    if udp && tcp {
        " TCP UDP"@
    } else if udp {
        " UDP"@
    } else if tcp {
        " TCP"@
    } else {
        ""@
    }
}

pub open spec fn direction_text(input: bool) -> Seq<char> {
    if input {
        "INPUT: ("@
    } else {
        "OUTPUT: ("@
    }
}

/// Direction, interface, protocols, and both endpoints of a record.
pub open spec fn info_text(m: LogMessage, if_name: Seq<char>, src: Seq<char>, dst: Seq<char>) -> Seq<
    char,
> {
    direction_text(m.input) + if_name + proto_text(m.tcp, m.udp) + ") "@ + endpoint_text(
        src,
        m.source_port,
    ) + " -> "@ + endpoint_text(dst, m.destination_port)
}

/// The name of the rule of id `id` in `store`.
pub open spec fn rule_name_text(store: Map<u32, RuleWithName>, id: u32) -> Seq<char> {
    if store.contains_key(id) {
        store[id].name@
    } else {
        unknown_rule_name()
    }
}

/// The human log line of a record: `[slug] info`, followed by the deciding
/// rule's name when a rule decided, or preceded by the protocol number on an
/// ERROR record.
pub open spec fn log_line_spec(
    m: LogMessage,
    store: Map<u32, RuleWithName>,
    if_name: Seq<char>,
    src: Seq<char>,
    dst: Seq<char>,
) -> Seq<char> {
    let head = "["@ + slug_chars(m.message@) + "] "@;
    let info = info_text(m, if_name, src, dst);
    if m.rule_id != 0 {
        head + info + " "@ + rule_name_text(store, m.rule_id)
    } else if m.level == ERROR {
        head + "PROTO "@ + decimal(m.unhandled_protocol as nat) + " "@ + info
    } else {
        head + info
    }
}

fn push_decimal(s: &mut String, n: u16)
    ensures
        final(s)@ == old(s)@ + decimal(n as nat),
    decreases n,
{
    if n >= 10 {
        push_decimal(s, n / 10);
    }
    let d = (n % 10) as u8;
    s.push((d + 48) as char);
    assert(final(s)@ =~= old(s)@ + decimal(n as nat));
}

fn push_slug(s: &mut String, message: &Vec<u8>)
    ensures
        final(s)@ == old(s)@ + slug_chars(message@),
{
    let ghost before = s@;
    let mut i: usize = 0;
    proof {
        assert(message@.skip(0) =~= message@);
        assert(before + slug_chars(message@) =~= s@ + slug_chars(message@.skip(0)));
    }
    while i < message.len() && message[i] != 0
        invariant
            i <= message@.len(),
            before + slug_chars(message@) == s@ + slug_chars(message@.skip(i as int)),
        decreases message@.len() - i,
    {
        let c = message[i] as char;
        proof {
            let rest = message@.skip(i as int);
            assert(rest[0] == message@[i as int]);
            assert(rest.skip(1) =~= message@.skip(i + 1));
            assert(s@.push(c) + slug_chars(message@.skip(i + 1)) =~= s@ + (seq![c] + slug_chars(
                rest.skip(1),
            )));
        }
        s.push(c);
        i = i + 1;
    }
    proof {
        let rest = message@.skip(i as int);
        if i < message@.len() {
            assert(rest[0] == message@[i as int]);
        }
        assert(slug_chars(rest) == Seq::<char>::empty());
        assert(s@ + slug_chars(rest) =~= s@);
    }
}

fn endpoint(ip: &str, port: u16) -> (r: String)
    ensures
        r@ == endpoint_text(ip@, port),
{
    let mut e = ip.to_owned();
    if port != 0 {
        e.push(':');
        push_decimal(&mut e, port);
    }
    e
}

fn proto_str(tcp: bool, udp: bool) -> (r: &'static str)
    ensures
        r@ == proto_text(tcp, udp),
{
    if udp && tcp {
        " TCP UDP"
    } else if udp {
        " UDP"
    } else if tcp {
        " TCP"
    } else {
        ""
    }
}

fn direction_str(input: bool) -> (r: &'static str)
    ensures
        r@ == direction_text(input),
{
    if input {
        "INPUT: ("
    } else {
        "OUTPUT: ("
    }
}

/// The human log line of a record, with the interface name `if_name` and the
/// address texts `src` and `dst` of the record's family; the deciding rule's
/// name is looked up in `store`.
pub fn log_line(w: &WLogMessage, store: &RuleStore, if_name: &str, src: &str, dst: &str) -> (r:
    String)
    ensures
        r@ == log_line_spec(w.msg, store@, if_name@, src@, dst@),
{
    let m = &w.msg;
    let src_ep = endpoint(src, m.source_port);
    let dst_ep = endpoint(dst, m.destination_port);
    let mut info = direction_str(m.input).to_owned();
    info.append(if_name);
    info.append(proto_str(m.tcp, m.udp));
    info.append(") ");
    info.append(src_ep.as_str());
    info.append(" -> ");
    info.append(dst_ep.as_str());
    let mut line = "[".to_owned();
    push_slug(&mut line, &m.message);
    line.append("] ");
    if m.rule_id != 0 {
        line.append(info.as_str());
        line.append(" ");
        match store.get_rule_name(m.rule_id) {
            Some(rule) => line.append(rule.name.as_str()),
            None => line.append("No rule for this ID"),
        }
    } else if m.level == ERROR {
        line.append("PROTO ");
        push_decimal(&mut line, m.unhandled_protocol as u16);
        line.append(" ");
        line.append(info.as_str());
    } else {
        line.append(info.as_str());
    }
    line
}

} // verus!
