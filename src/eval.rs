use vstd::prelude::*;

use crate::packet::{port_in_range, ParseResult};
use crate::rule::{Action, Rule};
use crate::subnet::{in_subnet_v4, in_subnet_v6};

verus! {

/// Capacity of the rule table: the evaluator inspects at most this many rows.
pub const N_RULES: u32 = 512;

/// The verdict of walking `table` from row `i` on: the action and id of the
/// first row that decides the packet, or `(Pipe, 0)` when the walk reaches
/// the end of the table or its capacity first.
pub open spec fn eval_from(pac: ParseResult, table: Seq<Rule>, i: int) -> (Action, u32)
    decreases table.len() - i,
{
    if i < 0 || i >= table.len() || i >= N_RULES {
        (Action::Pipe, 0)
    } else if pac.decided_by(table[i]) {
        (table[i].action_spec(), table[i].rule_id)
    } else {
        eval_from(pac, table, i + 1)
    }
}

/// The verdict of the rule table for a packet.
pub open spec fn eval(pac: ParseResult, table: Seq<Rule>) -> (Action, u32) {
    eval_from(pac, table, 0)
}

/// Number of rows the walk can look at.
pub open spec fn inspected(table: Seq<Rule>) -> int {
    if table.len() < N_RULES {
        table.len() as int
    } else {
        N_RULES as int
    }
}

/// Walks the table in index order and returns the action and id of the first
/// rule that applies to the packet, matches it and does not defer; `(Pipe, 0)`
/// when none does.
pub fn check_rule(pac: &ParseResult, table: &Vec<Rule>) -> (r: (Action, u32))
    ensures
        r == eval(*pac, table@),
{
    let n: usize = if table.len() < N_RULES as usize {
        table.len()
    } else {
        N_RULES as usize
    };
    let mut index: usize = 0;
    while index < n
        invariant
            n == inspected(table@),
            0 <= index <= n,
            eval_from(*pac, table@, index as int) == eval(*pac, table@),
        decreases n - index,
    {
        let rule = &table[index];
        if !pac.not_my_rule(rule) {
            let res = pac.to_action(rule);
            if res != Action::Pipe {
                return (res, rule.rule_id);
            }
        }
        index = index + 1;
    }
    (Action::Pipe, 0)
}

proof fn lemma_eval_from_prefix(pac: ParseResult, table: Seq<Rule>, i: int)
    requires
        0 <= i,
    ensures
        eval_from(pac, table, i) == eval_from(pac, table.take(inspected(table)), i),
    decreases table.len() - i,
{
    if i < table.len() && i < N_RULES {
        lemma_eval_from_prefix(pac, table, i + 1);
    }
}

/// The verdict depends on at most `N_RULES` rows: whatever lies beyond the
/// table's capacity is never inspected.
pub proof fn lemma_eval_bounded(pac: ParseResult, table: Seq<Rule>)
    ensures
        inspected(table) <= N_RULES,
        eval(pac, table) == eval(pac, table.take(inspected(table))),
{
    lemma_eval_from_prefix(pac, table, 0);
}

proof fn lemma_eval_from_first(pac: ParseResult, table: Seq<Rule>, i: int)
    requires
        0 <= i,
    ensures
        ({
            let n = inspected(table);
            &&& (forall|j: int| i <= j < n ==> !pac.decided_by(#[trigger] table[j])) ==> eval_from(
                pac,
                table,
                i,
            ) == (Action::Pipe, 0u32)
            &&& forall|k: int|
                i <= k < n && pac.decided_by(#[trigger] table[k]) && (forall|j: int|
                    i <= j < k ==> !pac.decided_by(#[trigger] table[j])) ==> eval_from(
                    pac,
                    table,
                    i,
                ) == (table[k].action_spec(), table[k].rule_id)
        }),
    decreases table.len() - i,
{
    if i < table.len() && i < N_RULES {
        lemma_eval_from_first(pac, table, i + 1);
    }
}

/// The verdict is the action and id of the first row, in table order, that
/// applies to the packet and matches it with an action other than `Pipe`;
/// when no row does, it is `(Pipe, 0)`.
pub proof fn lemma_first_deciding_rule_wins(pac: ParseResult, table: Seq<Rule>)
    ensures
        (forall|j: int| 0 <= j < inspected(table) ==> !pac.decided_by(#[trigger] table[j]))
            ==> eval(pac, table) == (Action::Pipe, 0u32),
        forall|k: int|
            0 <= k < inspected(table) && pac.decided_by(#[trigger] table[k]) && (forall|j: int|
                0 <= j < k ==> !pac.decided_by(#[trigger] table[j])) ==> eval(pac, table) == (
            table[k].action_spec(),
            table[k].rule_id,
        ),
{
    lemma_eval_from_first(pac, table, 0);
}

proof fn lemma_eval_from_ids(pac: ParseResult, table: Seq<Rule>, i: int)
    requires
        0 <= i,
        forall|j: int| 0 <= j < table.len() ==> (#[trigger] table[j]).rule_id != 0,
    ensures
        (eval_from(pac, table, i).1 != 0) <==> (exists|k: int|
            i <= k < inspected(table) && pac.decided_by(#[trigger] table[k])),
        eval_from(pac, table, i).1 != 0 ==> eval_from(pac, table, i).0 != Action::Pipe,
        eval_from(pac, table, i).1 == 0 ==> eval_from(pac, table, i).0 == Action::Pipe,
    decreases table.len() - i,
{
    if i < table.len() && i < N_RULES {
        lemma_eval_from_ids(pac, table, i + 1);
        if pac.decided_by(table[i]) {
            assert(i <= i < inspected(table) && pac.decided_by(table[i]));
        }
    }
}

/// With non-zero ids in every row, the verdict carries a non-zero id exactly
/// when some row decided it, and id 0 comes with `Pipe` alone.
pub proof fn lemma_rule_id_iff_decided(pac: ParseResult, table: Seq<Rule>)
    requires
        forall|j: int| 0 <= j < table.len() ==> (#[trigger] table[j]).rule_id != 0,
    ensures
        (eval(pac, table).1 != 0) <==> (exists|k: int|
            0 <= k < inspected(table) && pac.decided_by(#[trigger] table[k])),
        (eval(pac, table).1 == 0) <==> (eval(pac, table).0 == Action::Pipe),
{
    lemma_eval_from_ids(pac, table, 0);
}

/// A prefix length of 0 holds every address of its family.
pub proof fn lemma_zero_prefix_matches_all(ip4: u32, net4: u32, ip6: u128, net6: u128)
    ensures
        in_subnet_v4(ip4, net4, 0),
        in_subnet_v6(ip6, net6, 0),
{
}

/// The port range `0..=0` holds every port.
pub proof fn lemma_zero_range_matches_all(port: u16)
    ensures
        port_in_range(port, 0, 0),
{
}

/// A rule on interface 0 applies alike on every interface.
pub proof fn lemma_any_interface(pac: ParseResult, rule: Rule, ifindex: u32)
    requires
        rule.ifindex == 0,
    ensures
        pac.applicable(rule) == (ParseResult { ifindex, ..pac }).applicable(rule),
{
}

/// A disabled rule never decides a packet, whatever its other fields: the
/// verdict of a table is the same whatever such a row holds.
pub proof fn lemma_disabled_never_matches(pac: ParseResult, table: Seq<Rule>, k: int, other: Rule)
    requires
        0 <= k < table.len(),
        !table[k].on,
        !other.on,
    ensures
        !pac.decided_by(table[k]),
        eval(pac, table) == eval(pac, table.update(k, other)),
{
    lemma_disabled_update_from(pac, table, k, other, 0);
}

proof fn lemma_disabled_update_from(pac: ParseResult, table: Seq<Rule>, k: int, other: Rule, i: int)
    requires
        0 <= i,
        0 <= k < table.len(),
        !table[k].on,
        !other.on,
    ensures
        eval_from(pac, table, i) == eval_from(pac, table.update(k, other), i),
    decreases table.len() - i,
{
    if i < table.len() && i < N_RULES {
        lemma_disabled_update_from(pac, table, k, other, i + 1);
    }
}

} // verus!
