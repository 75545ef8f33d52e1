use vstd::prelude::*;

use crate::eval::{check_rule, eval, inspected, lemma_rule_id_iff_decided};
use crate::packet::ParseResult;
use crate::frame::{parse_spec, ContextWrapper, ParseError};
use crate::log::{
    padded, send_err_unhandled_protocol, send_from_rule, LogMessage, DEBUG, INFO, WARN,
};
use crate::rule::{Action, Rule};
use vstd::string::StringSliceAdditionalSpecFns;

verus! {

/// XDP's code for letting a frame through.
pub const XDP_PASS: u32 = 2;

/// XDP's code for dropping a frame.
pub const XDP_DROP: u32 = 1;

/// The traffic classifier's code for handing a frame on.
pub const TC_ACT_PIPE: i32 = 3;

/// The traffic classifier's code for dropping a frame.
pub const TC_ACT_SHOT: i32 = 2;

/// What a hook does with a frame.
#[derive(Clone, Copy, Debug, PartialEq, Eq, Structural)]
pub enum Verdict {
    Pass,
    Drop,
    Continue,
}

impl Verdict {
    /// The verdict in XDP's encoding; XDP knows no `Continue` and passes.
    pub fn to_xdp(&self) -> (r: u32)
        ensures
            r == (if *self == Verdict::Drop {
                XDP_DROP
            } else {
                XDP_PASS
            }),
    {
        match self {
            Verdict::Drop => XDP_DROP,
            _ => XDP_PASS,
        }
    }

    /// The verdict in the traffic classifier's encoding.
    pub fn to_tc(&self) -> (r: i32)
        ensures
            r == (if *self == Verdict::Drop {
                TC_ACT_SHOT
            } else {
                TC_ACT_PIPE
            }),
    {
        match self {
            Verdict::Drop => TC_ACT_SHOT,
            _ => TC_ACT_PIPE,
        }
    }
}

/// The level of the record of a decision.
pub open spec fn level_of(action: Action) -> u8 {
    match action {
        Action::Pass => INFO,
        Action::Drop => WARN,
        Action::Pipe => DEBUG,
    }
}

/// The message slug of a decision's record.
pub open spec fn decision_slug(action: Action, input: bool) -> &'static str {
    match (action, input) {
        (Action::Pass, true) => "OK IN",
        (Action::Pass, false) => "OK OUT",
        (Action::Drop, true) => "BAN IN",
        (Action::Drop, false) => "BAN OUT",
        (Action::Pipe, true) => "PIPE IN",
        (Action::Pipe, false) => "PIPE OUT",
    }
}

/// The message slug of an unhandled protocol's record.
pub open spec fn unhandled_slug(input: bool) -> &'static str {
    if input {
        "UNHANDLED IN"
    } else {
        "UNHANDLED OUT"
    }
}

/// The verdict and record that a hook in direction `input` owes for the
/// frame `frame` on `ifindex` under `table`, at time `timestamp`:
/// - a truncated frame is dropped, unlogged;
/// - a frame that is not IP passes on ingress and continues on egress, unlogged;
/// - an IP packet that is neither TCP nor UDP is dropped, with an ERROR record;
/// - otherwise the table decides: `Drop` drops with a WARN record, `Pass`
///   passes with an INFO record, no decision passes with a DEBUG record, each
///   record carrying the deciding rule's id (0 for none).
pub open spec fn dispatch_ok(
    frame: Seq<u8>,
    ifindex: u32,
    input: bool,
    table: Seq<Rule>,
    timestamp: u64,
    r: (Verdict, Option<LogMessage>),
) -> bool {
    match parse_spec(frame, ifindex, input) {
        Err(ParseError::Truncated) => r.0 == Verdict::Drop && r.1 is None,
        Err(ParseError::NonIp) => r.0 == (if input {
            Verdict::Pass
        } else {
            Verdict::Continue
        }) && r.1 is None,
        Err(ParseError::UnhandledProtocol(err)) => {
            &&& r.0 == Verdict::Drop
            &&& r.1 matches Some(log)
            &&& log.message@ == padded(unhandled_slug(input).spec_bytes())
            &&& log.reports_unhandled(err, timestamp)
        },
        Ok(pac) => {
            let (action, rule_id) = eval(pac, table);
            &&& r.0 == (if action == Action::Drop {
                Verdict::Drop
            } else {
                Verdict::Pass
            })
            &&& r.1 matches Some(log)
            &&& log.message@ == padded(decision_slug(action, input).spec_bytes())
            &&& log.reports_packet(pac, rule_id, level_of(action), timestamp)
        },
    }
}

impl ContextWrapper {
    /// Decides a frame in direction `input` and builds its record, if any.
    pub fn handle(&self, buf: &[u8], input: bool, table: &Vec<Rule>, timestamp: u64) -> (r: (
        Verdict,
        Option<LogMessage>,
    ))
        requires
            self.fits(buf@),
        ensures
            dispatch_ok(self.frame(buf@), self.ifindex, input, table@, timestamp, r),
    {
        let pac = match self.parse(buf, input) {
            Ok(pac) => pac,
            Err(ParseError::Truncated) => return (Verdict::Drop, None),
            Err(ParseError::NonIp) => {
                return (
                    if input {
                        Verdict::Pass
                    } else {
                        Verdict::Continue
                    },
                    None,
                );
            },
            Err(ParseError::UnhandledProtocol(err)) => {
                let text = if input {
                    "UNHANDLED IN"
                } else {
                    "UNHANDLED OUT"
                };
                let log = send_err_unhandled_protocol(text, &err, timestamp);
                return (Verdict::Drop, Some(log));
            },
        };
        let (action, rule_id) = check_rule(&pac, table);
        let (verdict, level, text) = match action {
            Action::Pass => (Verdict::Pass, INFO, if input {
                "OK IN"
            } else {
                "OK OUT"
            }),
            Action::Drop => (Verdict::Drop, WARN, if input {
                "BAN IN"
            } else {
                "BAN OUT"
            }),
            Action::Pipe => (Verdict::Pass, DEBUG, if input {
                "PIPE IN"
            } else {
                "PIPE OUT"
            }),
        };
        let log = send_from_rule(text, rule_id, &pac, level, timestamp);
        (verdict, Some(log))
    }

    /// The ingress hook: decides a received frame.
    pub fn handle_as_xdp(&self, buf: &[u8], table: &Vec<Rule>, timestamp: u64) -> (r: (
        Verdict,
        Option<LogMessage>,
    ))
        requires
            self.fits(buf@),
        ensures
            dispatch_ok(self.frame(buf@), self.ifindex, true, table@, timestamp, r),
    {
        self.handle(buf, true, table, timestamp)
    }

    /// The egress hook: decides a frame about to be sent.
    pub fn handle_as_tc(&self, buf: &[u8], table: &Vec<Rule>, timestamp: u64) -> (r: (
        Verdict,
        Option<LogMessage>,
    ))
        requires
            self.fits(buf@),
        ensures
            dispatch_ok(self.frame(buf@), self.ifindex, false, table@, timestamp, r),
    {
        self.handle(buf, false, table, timestamp)
    }
}

/// Some row among those the walk inspects decides the packet.
pub open spec fn some_rule_decides(pac: ParseResult, table: Seq<Rule>) -> bool {
    exists|k: int| 0 <= k < inspected(table) && pac.decided_by(#[trigger] table[k])
}

/// With non-zero ids in every row, a hook's record carries a non-zero rule id
/// exactly when a rule of the table decided the packet, and then the id of
/// the first such rule.
pub proof fn lemma_record_rule_id(
    frame: Seq<u8>,
    ifindex: u32,
    input: bool,
    table: Seq<Rule>,
    timestamp: u64,
    r: (Verdict, Option<LogMessage>),
)
    requires
        dispatch_ok(frame, ifindex, input, table, timestamp, r),
        forall|j: int| 0 <= j < table.len() ==> (#[trigger] table[j]).rule_id != 0,
        r.1 is Some,
    ensures
        (r.1->0.rule_id != 0) <==> (parse_spec(frame, ifindex, input) is Ok
            && some_rule_decides(parse_spec(frame, ifindex, input)->Ok_0, table)),
        r.1->0.rule_id != 0 ==> r.1->0.rule_id == eval(
            parse_spec(frame, ifindex, input)->Ok_0,
            table,
        ).1,
{
    if let Ok(pac) = parse_spec(frame, ifindex, input) {
        lemma_rule_id_iff_decided(pac, table);
    }
}

} // verus!
