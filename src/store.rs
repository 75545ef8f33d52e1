use vstd::prelude::*;

use crate::rule::{Rule, RuleWithName};
use std::collections::HashMap;
use vstd::std_specs::hash::spec_hash_map_iter;
use vstd::std_specs::iter::IteratorSpec;

verus! {

broadcast use vstd::std_specs::hash::group_hash_axioms;

/// `a` comes no later than `b` in table order: by `order`, then by id.
pub open spec fn key_le(a: Rule, b: Rule) -> bool {
    a.order < b.order || (a.order == b.order && a.rule_id <= b.rule_id)
}

/// `a` comes strictly before `b` in table order.
pub open spec fn key_lt(a: Rule, b: Rule) -> bool {
    a.order < b.order || (a.order == b.order && a.rule_id < b.rule_id)
}

/// The rows are in strictly increasing table order.
pub open spec fn sorted_by_key(rows: Seq<Rule>) -> bool {
    forall|i: int, j: int| 0 <= i < j < rows.len() ==> key_lt(rows[i], rows[j])
}

/// No two rows share an id.
pub open spec fn distinct_ids(rows: Seq<Rule>) -> bool {
    forall|a: int, b: int| 0 <= a < b < rows.len() ==> rows[a].rule_id != rows[b].rule_id
}

/// Every rule is stored under its own id.
pub open spec fn keyed_by_id(m: Map<u32, RuleWithName>) -> bool {
    forall|id: u32| #[trigger] m.contains_key(id) ==> m[id].rule_id == id
}

/// `row` is the kernel form of some rule of `m`.
pub open spec fn row_of(m: Map<u32, RuleWithName>, row: Rule) -> bool {
    exists|id: u32| m.contains_key(id) && row == (#[trigger] m[id]).common_spec()
}

/// `table` is a rule table of `m`: every rule of `m` in its kernel form, in
/// table order, one row each.
pub open spec fn is_table_of(m: Map<u32, RuleWithName>, table: Seq<Rule>) -> bool {
    &&& sorted_by_key(table)
    &&& table.len() == m.len()
    &&& forall|id: u32| #[trigger] m.contains_key(id) ==> table.contains(m[id].common_spec())
    &&& forall|i: int| 0 <= i < table.len() ==> row_of(m, #[trigger] table[i])
}

/// The rule map after inserting `rules` in sequence order, each under its id.
pub open spec fn insert_all(m: Map<u32, RuleWithName>, rules: Seq<RuleWithName>) -> Map<
    u32,
    RuleWithName,
>
    decreases rules.len(),
{
    if rules.len() == 0 {
        m
    } else {
        insert_all(m, rules.drop_last()).insert(rules.last().rule_id, rules.last())
    }
}

/// `r` with its source tag set to `from_db`.
pub open spec fn tagged(r: RuleWithName, from_db: bool) -> RuleWithName {
    RuleWithName { from_db, ..r }
}

/// Every rule of `rules`, tagged `from_db`.
pub open spec fn tag_all(rules: Seq<RuleWithName>, from_db: bool) -> Seq<RuleWithName> {
    rules.map_values(|r: RuleWithName| tagged(r, from_db))
}

/// The rule set that a reload installs: the rules read from files, then those
/// read from the persistent store, each tagged with its source.
pub open spec fn reload_spec(files: Seq<RuleWithName>, db: Seq<RuleWithName>) -> Map<
    u32,
    RuleWithName,
> {
    insert_all(insert_all(Map::empty(), tag_all(files, false)), tag_all(db, true))
}

fn key_le_exec(a: &Rule, b: &Rule) -> (r: bool)
    ensures
        r == key_le(*a, *b),
{
    a.order < b.order || (a.order == b.order && a.rule_id <= b.rule_id)
}

/// The rows of `rows` in table order.
pub fn sort_rows(rows: &Vec<Rule>) -> (r: Vec<Rule>)
    requires
        distinct_ids(rows@),
    ensures
        sorted_by_key(r@),
        r@.to_multiset() == rows@.to_multiset(),
{
    broadcast use vstd::seq_lib::group_to_multiset_ensures;

    let mut sorted: Vec<Rule> = Vec::new();
    let mut i: usize = 0;
    proof {
        assert(rows@.take(0) =~= Seq::<Rule>::empty());
    }
    while i < rows.len()
        invariant
            i <= rows@.len(),
            distinct_ids(rows@),
            sorted_by_key(sorted@),
            sorted@.to_multiset() == rows@.take(i as int).to_multiset(),
        decreases rows@.len() - i,
    {
        let x = rows[i];
        proof {
            assert forall|j: int| 0 <= j < sorted@.len() implies (#[trigger] sorted@[j]).rule_id
                != x.rule_id by {
                assert(sorted@.contains(sorted@[j]));
                sorted@.to_multiset_ensures();
                rows@.take(i as int).to_multiset_ensures();
                assert(sorted@.to_multiset().count(sorted@[j]) > 0);
                assert(rows@.take(i as int).to_multiset().count(sorted@[j]) > 0);
                assert(rows@.take(i as int).contains(sorted@[j]));
                let a = choose|a: int| 0 <= a < i && rows@.take(i as int)[a] == sorted@[j];
                assert(rows@[a] == sorted@[j]);
            }
        }
        let mut pos: usize = 0;
        while pos < sorted.len() && key_le_exec(&sorted[pos], &x)
            invariant
                pos <= sorted@.len(),
                forall|j: int| 0 <= j < sorted@.len() ==> (#[trigger] sorted@[j]).rule_id != x.rule_id,
                forall|j: int| 0 <= j < pos ==> key_lt(#[trigger] sorted@[j], x),
            decreases sorted@.len() - pos,
        {
            pos = pos + 1;
        }
        proof {
            assert forall|j: int| pos <= j < sorted@.len() implies key_lt(x, #[trigger] sorted@[j]) by {
                assert(!key_le(sorted@[pos as int], x));
                if j > pos {
                    assert(key_lt(sorted@[pos as int], sorted@[j]));
                }
            }
            vstd::seq_lib::to_multiset_insert(sorted@, pos as int, x);
            assert(rows@.take(i + 1) =~= rows@.take(i as int).push(x));
            vstd::seq_lib::to_multiset_build(rows@.take(i as int), x);
        }
        let ghost before = sorted@;
        sorted.insert(pos, x);
        proof {
            assert(sorted@ =~= before.insert(pos as int, x));
            assert forall|a: int, b: int| 0 <= a < b < sorted@.len() implies key_lt(
                sorted@[a],
                sorted@[b],
            ) by {
                if a < pos && b == pos {
                } else if a == pos && b > pos {
                    assert(sorted@[b] == before[b - 1]);
                } else if a < pos && b > pos {
                    assert(sorted@[b] == before[b - 1]);
                    assert(key_lt(before[a], before[b - 1]));
                } else if a > pos {
                    assert(sorted@[a] == before[a - 1]);
                    assert(sorted@[b] == before[b - 1]);
                    assert(key_lt(before[a - 1], before[b - 1]));
                } else {
                    assert(key_lt(before[a], before[b]));
                }
            }
        }
        i = i + 1;
    }
    proof {
        assert(rows@.take(i as int) =~= rows@);
    }
    sorted
}

/// The authoritative rule set of userspace, keyed by rule id.
pub struct RuleStore {
    rules: HashMap<u32, RuleWithName>,
}

impl View for RuleStore {
    type V = Map<u32, RuleWithName>;

    closed spec fn view(&self) -> Map<u32, RuleWithName> {
        self.rules@
    }
}

impl RuleStore {
    /// Every rule is stored under its own id.
    pub open spec fn wf(&self) -> bool {
        keyed_by_id(self@)
    }

    pub fn new() -> (r: Self)
        ensures
            r.wf(),
            r@ == Map::<u32, RuleWithName>::empty(),
    {
        RuleStore { rules: HashMap::new() }
    }

    /// Stores `value` under its id, replacing any rule of that id.
    pub fn set_rule(&mut self, value: RuleWithName)
        requires
            old(self).wf(),
        ensures
            final(self).wf(),
            final(self)@ == old(self)@.insert(value.rule_id, value),
    {
        let id = value.rule_id;
        self.rules.insert(id, value);
    }

    /// Replaces the rule of `value`'s id by `value`. Returns whether the rule
    /// came from the persistent store, where the caller must write it back.
    pub fn change_rule(&mut self, value: RuleWithName) -> (persist: bool)
        requires
            old(self).wf(),
        ensures
            final(self).wf(),
            final(self)@ == old(self)@.insert(value.rule_id, value),
            persist == value.from_db,
    {
        let persist = value.from_db;
        self.set_rule(value);
        persist
    }

    /// The rule of id `key`, if any.
    pub fn get_rule_name(&self, key: u32) -> (r: Option<&RuleWithName>)
        ensures
            match r {
                Some(v) => self@.contains_key(key) && *v == self@[key],
                None => !self@.contains_key(key),
            },
    {
        self.rules.get(&key)
    }

    /// All rules, keyed by id.
    pub fn get_rules(&self) -> (r: &HashMap<u32, RuleWithName>)
        ensures
            r@ == self@,
    {
        &self.rules
    }

    pub fn get_rules_len(&self) -> (r: usize)
        ensures
            r == self@.len(),
    {
        self.rules.len()
    }

    /// Stores each rule of `rules` in turn, tagged `from_db`.
    pub fn load_rules(&mut self, rules: Vec<RuleWithName>, from_db: bool)
        requires
            old(self).wf(),
        ensures
            final(self).wf(),
            final(self)@ == insert_all(old(self)@, tag_all(rules@, from_db)),
    {
        let n = rules.len();
        let ghost orig = rules@;
        let ghost start = self@;
        let mut rest = rules;
        let mut k: usize = 0;
        proof {
            assert(tag_all(orig, from_db).take(0) =~= Seq::<RuleWithName>::empty());
        }
        while rest.len() > 0
            invariant
                self.wf(),
                k + rest@.len() == orig.len() == n,
                rest@ == orig.skip(k as int),
                self@ == insert_all(start, tag_all(orig, from_db).take(k as int)),
            decreases rest@.len(),
        {
            let mut rule = rest.remove(0);
            rule.from_db = from_db;
            proof {
                let t = tag_all(orig, from_db);
                assert(t.take(k + 1).drop_last() =~= t.take(k as int));
                assert(t.take(k + 1).last() == t[k as int]);
                assert(orig.skip(k + 1) =~= orig.skip(k as int).remove(0));
            }
            self.set_rule(rule);
            k = k + 1;
        }
        proof {
            assert(tag_all(orig, from_db).take(k as int) =~= tag_all(orig, from_db));
        }
    }

    /// Replaces the whole rule set by the rules read from files and those
    /// read from the persistent store.
    pub fn reload(&mut self, files: Vec<RuleWithName>, db: Vec<RuleWithName>)
        requires
            old(self).wf(),
        ensures
            final(self).wf(),
            final(self)@ == reload_spec(files@, db@),
    {
        self.rules.clear();
        self.load_rules(files, false);
        self.load_rules(db, true);
    }

    /// The kernel rule table: every stored rule in its kernel form, in table
    /// order, one row each.
    pub fn make_bpf_maps(&self) -> (table: Vec<Rule>)
        requires
            self.wf(),
        ensures
            is_table_of(self@, table@),
    {
        broadcast use vstd::seq_lib::group_to_multiset_ensures;

        let mut rows: Vec<Rule> = Vec::new();
        for kv in it: self.rules.iter()
            invariant
                it.seq() == spec_hash_map_iter(&self.rules).remaining(),
                rows@.len() == it.index(),
                forall|j: int| 0 <= j < it.index() ==> #[trigger] rows@[j] == (*it.seq()[j].1).common_spec(),
        {
            rows.push(kv.1.to_common_rule());
        }
        let ghost kvs = spec_hash_map_iter(&self.rules).remaining();
        proof {
            assert(kvs.len() == self@.dom().len());
            assert(rows@.len() == kvs.len());
            assert forall|id: u32| #[trigger] self@.contains_key(id) implies rows@.contains(
                self@[id].common_spec(),
            ) by {
                assert(kvs.contains((&id, &self@[id])));
                let j = choose|j: int| 0 <= j < kvs.len() && kvs[j] == (&id, &self@[id]);
                assert(rows@[j] == self@[id].common_spec());
            }
            assert forall|i: int| 0 <= i < rows@.len() implies row_of(self@, #[trigger] rows@[i]) by {
                assert(self@.contains_key(*kvs[i].0) && self@[*kvs[i].0] == *kvs[i].1);
                assert(rows@[i] == self@[*kvs[i].0].common_spec());
            }
            assert forall|a: int, b: int| 0 <= a < b < rows@.len() implies rows@[a].rule_id
                != rows@[b].rule_id by {
                let ka = *kvs[a].0;
                let kb = *kvs[b].0;
                assert(self@.contains_key(ka) && self@[ka] == *kvs[a].1);
                assert(self@.contains_key(kb) && self@[kb] == *kvs[b].1);
                assert(rows@[a].rule_id == ka);
                assert(rows@[b].rule_id == kb);
                if ka == kb {
                    assert(kvs[a] == kvs[b]);
                }
            }
        }
        let table = sort_rows(&rows);
        proof {
            assert forall|id: u32| #[trigger] self@.contains_key(id) implies table@.contains(
                self@[id].common_spec(),
            ) by {
                assert(rows@.contains(self@[id].common_spec()));
                assert(rows@.to_multiset().count(self@[id].common_spec()) > 0);
            }
            assert forall|i: int| 0 <= i < table@.len() implies row_of(self@, #[trigger] table@[i]) by {
                assert(table@.to_multiset().count(table@[i]) > 0);
                assert(rows@.contains(table@[i]));
                let k = choose|k: int| 0 <= k < rows@.len() && rows@[k] == table@[i];
                assert(row_of(self@, rows@[k]));
            }
            vstd::seq_lib::to_multiset_len(rows@);
            vstd::seq_lib::to_multiset_len(table@);
        }
        table
    }
}


/// Some rule of `rules` has id `id`.
pub open spec fn has_id(rules: Seq<RuleWithName>, id: u32) -> bool {
    exists|i: int| 0 <= i < rules.len() && (#[trigger] rules[i]).rule_id == id
}

/// Which ids `insert_all` ends with, and where each of their rules comes from.
proof fn lemma_insert_all(m: Map<u32, RuleWithName>, rules: Seq<RuleWithName>, id: u32)
    ensures
        insert_all(m, rules).contains_key(id) <==> (m.contains_key(id) || has_id(rules, id)),
        has_id(rules, id) ==> exists|i: int|
            0 <= i < rules.len() && #[trigger] rules[i] == insert_all(m, rules)[id]
                && rules[i].rule_id == id,
        !has_id(rules, id) && m.contains_key(id) ==> insert_all(m, rules)[id] == m[id],
    decreases rules.len(),
{
    if rules.len() > 0 {
        let init = rules.drop_last();
        let last = rules.len() - 1;
        lemma_insert_all(m, init, id);
        if id == rules[last].rule_id {
            assert(has_id(rules, id));
            assert(rules[last] == insert_all(m, rules)[id]);
        } else {
            if has_id(init, id) {
                let i = choose|i: int| 0 <= i < init.len() && (#[trigger] init[i]).rule_id == id;
                assert(rules[i].rule_id == id);
                let k = choose|k: int|
                    0 <= k < init.len() && #[trigger] init[k] == insert_all(m, init)[id]
                        && init[k].rule_id == id;
                assert(rules[k] == insert_all(m, rules)[id]);
            }
            if has_id(rules, id) {
                let i = choose|i: int| 0 <= i < rules.len() && (#[trigger] rules[i]).rule_id == id;
                assert(init[i].rule_id == id);
            }
        }
    }
}

/// A rule stored with `set_rule` is what a lookup of its id then returns.
pub proof fn lemma_set_then_get(m: Map<u32, RuleWithName>, r: RuleWithName)
    ensures
        m.insert(r.rule_id, r).contains_key(r.rule_id),
        m.insert(r.rule_id, r)[r.rule_id] == r,
{
}

/// After a reload the rule set holds an id exactly when a rule of that id was
/// read from files or from the persistent store; its rule is one of those
/// read, tagged with its source, and one read from the persistent store wins
/// over a file's rule of the same id.
pub proof fn lemma_reload_is_union(files: Seq<RuleWithName>, db: Seq<RuleWithName>, id: u32)
    ensures
        reload_spec(files, db).contains_key(id) <==> (has_id(files, id) || has_id(db, id)),
        reload_spec(files, db).contains_key(id) ==> reload_spec(files, db)[id].rule_id == id,
        has_id(db, id) ==> exists|j: int|
            0 <= j < db.len() && tagged(#[trigger] db[j], true) == reload_spec(files, db)[id],
        has_id(files, id) && !has_id(db, id) ==> exists|i: int|
            0 <= i < files.len() && tagged(#[trigger] files[i], false) == reload_spec(files, db)[id],
{
    let tf = tag_all(files, false);
    let td = tag_all(db, true);
    let m1 = insert_all(Map::empty(), tf);
    lemma_insert_all(Map::empty(), tf, id);
    lemma_insert_all(m1, td, id);
    if has_id(files, id) {
        let i = choose|i: int| 0 <= i < files.len() && (#[trigger] files[i]).rule_id == id;
        assert(tf[i].rule_id == id);
    }
    if has_id(tf, id) {
        let i = choose|i: int| 0 <= i < tf.len() && (#[trigger] tf[i]).rule_id == id;
        assert(files[i].rule_id == id);
        let k = choose|k: int| 0 <= k < tf.len() && #[trigger] tf[k] == m1[id] && tf[k].rule_id == id;
        assert(tagged(files[k], false) == m1[id]);
    }
    if has_id(db, id) {
        let j = choose|j: int| 0 <= j < db.len() && (#[trigger] db[j]).rule_id == id;
        assert(td[j].rule_id == id);
    }
    if has_id(td, id) {
        let j = choose|j: int| 0 <= j < td.len() && (#[trigger] td[j]).rule_id == id;
        assert(db[j].rule_id == id);
        let k = choose|k: int|
            0 <= k < td.len() && #[trigger] td[k] == reload_spec(files, db)[id] && td[k].rule_id
                == id;
        assert(tagged(db[k], true) == reload_spec(files, db)[id]);
    }
}

/// A rule changed in the store is in the next table built from it, in its
/// kernel form, and no row of that id holds anything else: no stale row of
/// the rule's earlier content is left.
pub proof fn lemma_change_reaches_table(m: Map<u32, RuleWithName>, r: RuleWithName, table: Seq<Rule>)
    requires
        keyed_by_id(m),
        is_table_of(m.insert(r.rule_id, r), table),
    ensures
        table.contains(r.common_spec()),
        forall|j: int|
            0 <= j < table.len() && (#[trigger] table[j]).rule_id == r.rule_id ==> table[j]
                == r.common_spec(),
{
    let m2 = m.insert(r.rule_id, r);
    assert(m2.contains_key(r.rule_id));
    assert forall|j: int|
        0 <= j < table.len() && (#[trigger] table[j]).rule_id == r.rule_id implies table[j]
            == r.common_spec() by {
        assert(row_of(m2, table[j]));
        let id = choose|id: u32| m2.contains_key(id) && table[j] == (#[trigger] m2[id]).common_spec();
        if id != r.rule_id {
            assert(m2[id] == m[id]);
        }
    }
}

proof fn lemma_sorted_same_rows_equal(t1: Seq<Rule>, t2: Seq<Rule>)
    requires
        sorted_by_key(t1),
        sorted_by_key(t2),
        t1.len() == t2.len(),
        forall|x: Rule| t1.contains(x) <==> t2.contains(x),
    ensures
        t1 == t2,
    decreases t1.len(),
{
    if t1.len() > 0 {
        assert(t1.contains(t1[0]));
        assert(t2.contains(t2[0]));
        let k = choose|k: int| 0 <= k < t2.len() && t2[k] == t1[0];
        let l = choose|l: int| 0 <= l < t1.len() && t1[l] == t2[0];
        if k > 0 {
            assert(key_lt(t2[0], t2[k]));
            if l > 0 {
                assert(key_lt(t1[0], t1[l]));
            }
        }
        let s1 = t1.skip(1);
        let s2 = t2.skip(1);
        assert forall|x: Rule| s1.contains(x) <==> s2.contains(x) by {
            if s1.contains(x) {
                let i = choose|i: int| 0 <= i < s1.len() && s1[i] == x;
                assert(t1[i + 1] == x);
                assert(key_lt(t1[0], t1[i + 1]));
                assert(t1.contains(x));
                let j = choose|j: int| 0 <= j < t2.len() && t2[j] == x;
                assert(s2[j - 1] == x);
            }
            if s2.contains(x) {
                let i = choose|i: int| 0 <= i < s2.len() && s2[i] == x;
                assert(t2[i + 1] == x);
                assert(key_lt(t2[0], t2[i + 1]));
                assert(t2.contains(x));
                let j = choose|j: int| 0 <= j < t1.len() && t1[j] == x;
                assert(s1[j - 1] == x);
            }
        }
        lemma_sorted_same_rows_equal(s1, s2);
        assert forall|i: int| 0 <= i < t1.len() implies t1[i] == t2[i] by {
            if i > 0 {
                assert(t1[i] == s1[i - 1]);
                assert(t2[i] == s2[i - 1]);
            }
        }
        assert(t1 =~= t2);
    }
}

/// A rule table of a store is determined exactly: it is the store's rules,
/// in kernel form, sorted by (order, id), one row each.
pub proof fn lemma_table_unique(m: Map<u32, RuleWithName>, t1: Seq<Rule>, t2: Seq<Rule>)
    requires
        is_table_of(m, t1),
        is_table_of(m, t2),
    ensures
        t1 == t2,
{
    assert forall|x: Rule| t1.contains(x) <==> t2.contains(x) by {
        if t1.contains(x) {
            let i = choose|i: int| 0 <= i < t1.len() && t1[i] == x;
            assert(row_of(m, t1[i]));
        }
        if t2.contains(x) {
            let i = choose|i: int| 0 <= i < t2.len() && t2[i] == x;
            assert(row_of(m, t2[i]));
        }
    }
    lemma_sorted_same_rows_equal(t1, t2);
}

/// Where some rule of `rules` has id `id`, the map that `insert_all` ends
/// with holds the same rule under `id`, whatever map it started from.
proof fn lemma_insert_all_overrides(
    m1: Map<u32, RuleWithName>,
    m2: Map<u32, RuleWithName>,
    rules: Seq<RuleWithName>,
    id: u32,
)
    requires
        has_id(rules, id),
    ensures
        insert_all(m1, rules).contains_key(id),
        insert_all(m1, rules)[id] == insert_all(m2, rules)[id],
    decreases rules.len(),
{
    let last = rules.len() - 1;
    if rules[last].rule_id != id {
        let init = rules.drop_last();
        let i = choose|i: int| 0 <= i < rules.len() && (#[trigger] rules[i]).rule_id == id;
        assert(init[i].rule_id == id);
        lemma_insert_all_overrides(m1, m2, init, id);
    }
}

/// Reloading again from unchanged sources, on top of the rules the first
/// reload installed, changes no id's rule: the rule set stays as it is.
pub proof fn lemma_reload_again_is_no_op(files: Seq<RuleWithName>, db: Seq<RuleWithName>)
    ensures
        insert_all(insert_all(reload_spec(files, db), tag_all(files, false)), tag_all(db, true))
            == reload_spec(files, db),
{
    let tf = tag_all(files, false);
    let td = tag_all(db, true);
    let m1 = insert_all(Map::empty(), tf);
    let m = reload_spec(files, db);
    let n1 = insert_all(m, tf);
    let n = insert_all(n1, td);
    assert forall|id: u32| #[trigger] n.contains_key(id) == m.contains_key(id) && (n.contains_key(id)
        ==> n[id] == m[id]) by {
        lemma_insert_all(Map::empty(), tf, id);
        lemma_insert_all(m1, td, id);
        lemma_insert_all(m, tf, id);
        lemma_insert_all(n1, td, id);
        if has_id(td, id) {
            lemma_insert_all_overrides(n1, m1, td, id);
        } else if has_id(tf, id) {
            lemma_insert_all_overrides(m, Map::empty(), tf, id);
        }
    }
    assert(n =~= m);
}

/// A table built from valid rules carries only valid rows, so every row has a
/// non-zero id.
pub proof fn lemma_table_rows_valid(m: Map<u32, RuleWithName>, table: Seq<Rule>)
    requires
        is_table_of(m, table),
        forall|id: u32| #[trigger] m.contains_key(id) ==> m[id].wf(),
    ensures
        forall|j: int| 0 <= j < table.len() ==> (#[trigger] table[j]).wf(),
        forall|j: int| 0 <= j < table.len() ==> (#[trigger] table[j]).rule_id != 0,
{
    assert forall|j: int| 0 <= j < table.len() implies (#[trigger] table[j]).wf() by {
        assert(row_of(m, table[j]));
        let id = choose|id: u32| m.contains_key(id) && table[j] == (#[trigger] m[id]).common_spec();
        assert(m[id].wf());
    }
}

} // verus!
