use vstd::prelude::*;

use crate::rule::{Rule, RuleWithName};
use crate::store::{is_table_of, RuleStore};

verus! {

/// The commands of the control endpoint.
#[derive(Clone, Copy, Debug, PartialEq, Eq, Structural)]
pub enum ControlAction {
    Reload,
    GetRules,
    UpdateRule,
    CreateRule,
}

/// One control request: a command and the rule it concerns, if any.
#[derive(Clone, Debug)]
pub struct Control {
    pub action: ControlAction,
    pub rule: RuleWithName,
}

impl RuleStore {
    /// Applies an update request: the rule replaces the stored rule of its
    /// id. Returns whether the caller must write the rule back to the
    /// persistent store, and the rule table to install.
    pub fn update_rule(&mut self, rule: RuleWithName) -> (r: (bool, Vec<Rule>))
        requires
            old(self).wf(),
        ensures
            final(self).wf(),
            final(self)@ == old(self)@.insert(rule.rule_id, rule),
            r.0 == rule.from_db,
            is_table_of(final(self)@, r.1@),
    {
        let persist = self.change_rule(rule);
        let table = self.make_bpf_maps();
        (persist, table)
    }

    /// Applies a create request once the persistent store has assigned the
    /// new rule the id `assigned_id`; 0 means the store took no row, and then
    /// nothing changes. Otherwise the rule is stored under that id, numbered
    /// after the rules already stored, and the new rule table is returned.
    pub fn create_rule(&mut self, rule: RuleWithName, assigned_id: u32) -> (r: Option<Vec<Rule>>)
        requires
            old(self).wf(),
        ensures
            final(self).wf(),
            assigned_id == 0 ==> r is None && final(self)@ == old(self)@,
            assigned_id != 0 ==> {
                &&& final(self)@ == old(self)@.insert(
                    assigned_id,
                    RuleWithName { rule_id: assigned_id, uindex: old(self)@.len() as u32, ..rule },
                )
                &&& r matches Some(table) && is_table_of(final(self)@, table@)
            },
    {
        if assigned_id == 0 {
            return None;
        }
        let mut new_rule = rule;
        new_rule.uindex = self.get_rules_len() as u32;
        new_rule.rule_id = assigned_id;
        self.set_rule(new_rule);
        Some(self.make_bpf_maps())
    }
}

} // verus!
