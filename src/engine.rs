//! Binding variables to runtime slots, applying updates and reading rule results.
//!
//! The runtime itself is driven by the caller: it hands in what the runtime
//! answered, and takes back what to send to it.
use vstd::prelude::*;
use crate::config::{LinkedInfo, LinkedVar, VarModel, RuleModel, var_views};
use crate::json::Number;
use crate::script::{rulefunc_name, rule_fn_name};
use crate::value::{rext_var, text_of, bool_of};

verus! {

/// The index to query next while discovering upvalues, after the runtime
/// answered `status` for index `idx`: discovery ends at the first failed
/// query (a negative status), or where indices run out.
pub fn next_query(idx: u32, status: i32) -> (r: Option<u32>)
    ensures
        r == (if status < 0 || idx == u32::MAX { None::<u32> } else { Some((idx + 1) as u32) }),
{
    if status < 0 || idx == u32::MAX {
        None
    } else {
        Some(idx + 1)
    }
}

/// The slot index that the last upvalue named `name` stands at (1-based), if any.
pub open spec fn last_match(names: Seq<Option<Seq<char>>>, name: Seq<char>) -> Option<u32>
    decreases names.len(),
{
    if names.len() == 0 {
        None
    } else if names.last() == Some(name) {
        Some(names.len() as u32)
    } else {
        last_match(names.drop_last(), name)
    }
}

/// The names that the runtime reported for the upvalues, in index order.
pub open spec fn upvalue_names(ups: Seq<rext_var>) -> Seq<Option<Seq<char>>> {
    ups.map_values(|u: rext_var| text_of(u))
}

/// A variable after discovery: bound to the slot of its name, or left as it was.
pub open spec fn bind(v: VarModel, names: Seq<Option<Seq<char>>>) -> VarModel {
    match last_match(names, v.name) {
        Some(k) => VarModel { upval: Some(k), ..v },
        None => v,
    }
}

pub open spec fn bind_all(vs: Seq<VarModel>, names: Seq<Option<Seq<char>>>) -> Seq<VarModel> {
    vs.map_values(|v: VarModel| bind(v, names))
}

pub open spec fn is_var_name(vs: Seq<VarModel>, name: Seq<char>) -> bool {
    exists|j: int| 0 <= j < vs.len() && #[trigger] vs[j].name == name
}

/// How many upvalues carry the name of a variable.
pub open spec fn count_matches(names: Seq<Option<Seq<char>>>, vs: Seq<VarModel>) -> nat
    decreases names.len(),
{
    if names.len() == 0 {
        0
    } else {
        count_matches(names.drop_last(), vs) + match names.last() {
            Some(n) => if is_var_name(vs, n) { 1nat } else { 0nat },
            None => 0nat,
        }
    }
}

/// The position of the first variable named `name`.
pub open spec fn find_var(vs: Seq<VarModel>, name: Seq<char>) -> Option<int>
    decreases vs.len(),
{
    if vs.len() == 0 {
        None
    } else {
        match find_var(vs.drop_last(), name) {
            Some(j) => Some(j),
            None => if vs.last().name == name { Some(vs.len() - 1) } else { None },
        }
    }
}

/// A value write that the runtime has to perform: slot index and number.
pub ghost struct WriteModel {
    pub slot: u32,
    pub bits: u64,
    pub text: Seq<char>,
}

/// What a batch of updates does: the variables after it, how many entries
/// named a variable, the writes into bound slots, and the unknown names.
pub ghost struct UpdateModel {
    pub vars: Seq<VarModel>,
    pub applied: nat,
    pub writes: Seq<WriteModel>,
    pub unknown: Seq<Seq<char>>,
}

pub ghost struct EntryModel {
    pub name: Seq<char>,
    pub bits: u64,
    pub text: Seq<char>,
}

pub open spec fn run_updates(vs: Seq<VarModel>, entries: Seq<EntryModel>) -> UpdateModel
    decreases entries.len(),
{
    if entries.len() == 0 {
        UpdateModel { vars: vs, applied: 0, writes: Seq::empty(), unknown: Seq::empty() }
    } else {
        let p = run_updates(vs, entries.drop_last());
        let e = entries.last();
        match find_var(p.vars, e.name) {
            None => UpdateModel { unknown: p.unknown.push(e.name), ..p },
            Some(j) => {
                let v = p.vars[j];
                let vars = p.vars.update(j, VarModel { bits: e.bits, text: e.text, ..v });
                match v.upval {
                    Some(s) => UpdateModel {
                        vars,
                        applied: p.applied + 1,
                        writes: p.writes.push(WriteModel { slot: s, bits: e.bits, text: e.text }),
                        unknown: p.unknown,
                    },
                    None => UpdateModel { vars, applied: p.applied + 1, ..p },
                }
            },
        }
    }
}

/// A write of `value` into the runtime slot `slot`.
#[derive(Debug)]
pub struct SlotWrite {
    pub slot: u32,
    pub value: Number,
}

impl View for SlotWrite {
    type V = WriteModel;

    open spec fn view(&self) -> WriteModel {
        WriteModel { slot: self.slot, bits: self.value.bits, text: self.value.text@ }
    }
}

/// An update of a variable from outside.
#[derive(Debug)]
pub struct VarUpdate {
    pub name: String,
    pub value: Number,
}

impl View for VarUpdate {
    type V = EntryModel;

    open spec fn view(&self) -> EntryModel {
        EntryModel { name: self.name@, bits: self.value.bits, text: self.value.text@ }
    }
}

/// The result of applying a batch of updates.
#[derive(Debug)]
pub struct UpdateOutcome {
    pub applied: usize,
    pub writes: Vec<SlotWrite>,
    pub unknown: Vec<String>,
}

/// What evaluating one rule gave.
#[derive(Debug)]
pub struct RuleResult {
    /// 1-based position of the rule.
    pub index: usize,
    pub condition: String,
    /// Status that the runtime returned for the call.
    pub status: i32,
    /// The boolean that the rule evaluated to, or `None` if it gave no boolean.
    pub outcome: Option<bool>,
}

pub ghost struct ResultModel {
    pub index: nat,
    pub condition: Seq<char>,
    pub status: i32,
    pub outcome: Option<bool>,
}

impl View for RuleResult {
    type V = ResultModel;

    open spec fn view(&self) -> ResultModel {
        ResultModel { index: self.index as nat, condition: self.condition@, status: self.status, outcome: self.outcome }
    }
}

/// The result of each rule, given what the runtime returned for its function.
pub open spec fn results_of(rs: Seq<RuleModel>, replies: Seq<(i32, rext_var)>) -> Seq<ResultModel> {
    Seq::new(rs.len(), |i: int| ResultModel {
        index: (i + 1) as nat,
        condition: rs[i].rule,
        status: replies[i].0,
        outcome: bool_of(replies[i].1),
    })
}

fn decode_names(ups: &Vec<rext_var>) -> (r: Vec<Option<String>>)
    ensures
        r@.len() == ups@.len(),
        forall|i: int| 0 <= i < ups@.len() ==> crate::config::opt_view(#[trigger] r@[i]) == text_of(ups@[i]),
{
    let mut out: Vec<Option<String>> = Vec::new();
    let mut i: usize = 0;
    while i < ups.len()
        invariant
            i <= ups@.len(),
            out@.len() == i,
            forall|k: int| 0 <= k < i ==> crate::config::opt_view(#[trigger] out@[k]) == text_of(ups@[k]),
        decreases ups@.len() - i,
    {
        out.push(ups[i].as_string());
        i = i + 1;
    }
    out
}

pub open spec fn name_views(names: Seq<Option<String>>) -> Seq<Option<Seq<char>>> {
    names.map_values(|n: Option<String>| crate::config::opt_view(n))
}

/// The slot of the last upvalue called `name`.
fn find_slot(names: &Vec<Option<String>>, name: &String) -> (r: Option<u32>)
    requires
        names@.len() < u32::MAX,
    ensures
        r == last_match(name_views(names@), name@),
{
    let mut i: usize = names.len();
    assert(names@.subrange(0, names@.len() as int) =~= names@);
    while i > 0
        invariant
            i <= names@.len() < u32::MAX,
            last_match(name_views(names@), name@) == last_match(name_views(names@.subrange(0, i as int)), name@),
        decreases i,
    {
        let ghost pre = name_views(names@.subrange(0, i as int));
        assert(pre.drop_last() =~= name_views(names@.subrange(0, i - 1)));
        match &names[i - 1] {
            Some(n) => {
                if *n == *name {
                    return Some(i as u32);
                }
            },
            None => {},
        }
        i = i - 1;
    }
    None
}

/// Whether some variable is called `name`.
fn has_var(vars: &Vec<LinkedVar>, name: &String) -> (r: bool)
    ensures
        r == is_var_name(var_views(vars@), name@),
{
    let mut j: usize = 0;
    while j < vars.len()
        invariant
            j <= vars@.len(),
            forall|k: int| 0 <= k < j ==> vars@[k].name@ != name@,
        decreases vars@.len() - j,
    {
        if vars[j].name == *name {
            assert(var_views(vars@)[j as int].name == name@);
            return true;
        }
        j = j + 1;
    }
    assert forall|k: int| 0 <= k < var_views(vars@).len() implies #[trigger] var_views(vars@)[k].name != name@ by {
        assert(var_views(vars@)[k] == vars@[k]@);
    }
    false
}

/// The position of the first variable called `name`.
fn find_var_index(vars: &Vec<LinkedVar>, name: &String) -> (r: Option<usize>)
    ensures
        match r {
            Some(j) => find_var(var_views(vars@), name@) == Some(j as int),
            None => find_var(var_views(vars@), name@) is None,
        },
        r is Some ==> r->0 < vars@.len(),
{
    let ghost vs = var_views(vars@);
    proof { lemma_find_var_in_range(vs, name@); }
    let mut j: usize = 0;
    while j < vars.len()
        invariant
            j <= vars@.len(),
            vs == var_views(vars@),
            find_var(vs.subrange(0, j as int), name@) is None,
        decreases vars@.len() - j,
    {
        let ghost pre = vs.subrange(0, j + 1);
        assert(pre.drop_last() =~= vs.subrange(0, j as int));
        if vars[j].name == *name {
            proof { lemma_find_var_prefix(vs, j as int + 1); }
            return Some(j);
        }
        j = j + 1;
    }
    assert(vs.subrange(0, vars@.len() as int) =~= vs);
    None
}

/// The first match stands inside the sequence and carries the name.
proof fn lemma_find_var_in_range(vs: Seq<VarModel>, name: Seq<char>)
    ensures
        find_var(vs, name) is Some ==> 0 <= find_var(vs, name)->0 < vs.len()
            && vs[find_var(vs, name)->0].name == name,
    decreases vs.len(),
{
    if vs.len() > 0 {
        lemma_find_var_in_range(vs.drop_last(), name);
    }
}

/// A match found in a prefix is the match of the whole.
proof fn lemma_find_var_prefix(vs: Seq<VarModel>, k: int)
    requires
        0 <= k <= vs.len(),
    ensures
        forall|name: Seq<char>| find_var(vs.subrange(0, k), name) is Some ==>
            #[trigger] find_var(vs, name) == find_var(vs.subrange(0, k), name),
    decreases vs.len() - k,
{
    if k < vs.len() {
        assert(vs.subrange(0, k + 1).drop_last() =~= vs.subrange(0, k));
        lemma_find_var_prefix(vs, k + 1);
    } else {
        assert(vs.subrange(0, k) =~= vs);
    }
}

impl LinkedInfo {
    /// Binds the variables to runtime slots, given the values that the runtime
    /// reported for the upvalues of the aggregate function at indices 1, 2, ...
    /// in order, up to the first index it refused. Returns how many of those
    /// upvalues carry the name of a variable.
    pub fn fetch_indices(&mut self, upvalues: &Vec<rext_var>) -> (r: u32)
        requires
            upvalues@.len() < u32::MAX,
        ensures
            final(self).var_model() == bind_all(old(self).var_model(), upvalue_names(upvalues@)),
            r as nat == count_matches(upvalue_names(upvalues@), old(self).var_model()),
            final(self).actions == old(self).actions,
            final(self).script == old(self).script,
    {
        let names = decode_names(upvalues);
        let ghost nv = name_views(names@);
        assert(nv =~= upvalue_names(upvalues@));
        let ghost vs0 = self.var_model();
        let mut j: usize = 0;
        while j < self.vars.len()
            invariant
                names@.len() == upvalues@.len() < u32::MAX,
                nv == name_views(names@),
                nv == upvalue_names(upvalues@),
                j <= self.vars@.len() == vs0.len(),
                self.actions == old(self).actions,
                self.script == old(self).script,
                forall|k: int| 0 <= k < j ==> #[trigger] self.var_model()[k] == bind(vs0[k], nv),
                forall|k: int| j <= k < vs0.len() ==> #[trigger] self.var_model()[k] == vs0[k],
            decreases vs0.len() - j,
        {
            let slot = find_slot(&names, &self.vars[j].name);
            let ghost before = self.vars@;
            assert(self.var_model()[j as int] == before[j as int]@);
            match slot {
                Some(k) => {
                    self.vars[j].upval = Some(k);
                },
                None => {},
            }
            assert forall|k: int| 0 <= k < vs0.len() && k != j implies #[trigger] self.var_model()[k] == var_views(before)[k] by {
                assert(self.vars@[k] == before[k]);
            }
            assert(self.var_model()[j as int] == self.vars@[j as int]@);
            assert(self.var_model()[j as int] == bind(vs0[j as int], nv));
            j = j + 1;
        }
        assert(self.var_model() =~= bind_all(vs0, nv));
        let mut count: u32 = 0;
        let mut i: usize = 0;
        while i < names.len()
            invariant
                names@.len() == upvalues@.len() < u32::MAX,
                nv == name_views(names@),
                i <= names@.len(),
                self.var_model() == bind_all(vs0, nv),
                count as nat == count_matches(nv.subrange(0, i as int), vs0),
                count as nat <= i,
            decreases names@.len() - i,
        {
            let ghost pre = nv.subrange(0, i + 1);
            assert(pre.drop_last() =~= nv.subrange(0, i as int));
            match &names[i] {
                Some(n) => {
                    if has_var(&self.vars, n) {
                        proof { lemma_bind_keeps_names(vs0, nv, n@); }
                        count = count + 1;
                    } else {
                        proof { lemma_bind_keeps_names(vs0, nv, n@); }
                    }
                },
                None => {},
            }
            i = i + 1;
        }
        assert(nv.subrange(0, names@.len() as int) =~= nv);
        count
    }
}

/// Binding changes no variable's name.
proof fn lemma_bind_keeps_names(vs: Seq<VarModel>, names: Seq<Option<Seq<char>>>, n: Seq<char>)
    ensures
        is_var_name(bind_all(vs, names), n) == is_var_name(vs, n),
{
    if is_var_name(vs, n) {
        let j = choose|j: int| 0 <= j < vs.len() && #[trigger] vs[j].name == n;
        assert(bind_all(vs, names)[j].name == n);
    }
    if is_var_name(bind_all(vs, names), n) {
        let j = choose|j: int| 0 <= j < bind_all(vs, names).len() && #[trigger] bind_all(vs, names)[j].name == n;
        assert(vs[j].name == n);
    }
}

pub open spec fn entry_views(us: Seq<VarUpdate>) -> Seq<EntryModel> {
    us.map_values(|u: VarUpdate| u@)
}

pub open spec fn write_views(ws: Seq<SlotWrite>) -> Seq<WriteModel> {
    ws.map_values(|w: SlotWrite| w@)
}

pub open spec fn string_views(ss: Seq<String>) -> Seq<Seq<char>> {
    ss.map_values(|s: String| s@)
}

pub open spec fn result_views(rs: Seq<RuleResult>) -> Seq<ResultModel> {
    rs.map_values(|r: RuleResult| r@)
}

impl LinkedInfo {
    /// Applies a batch of updates in order. An entry that names a variable sets
    /// its value and, where the variable is bound, asks for a write of the value
    /// into its slot; an entry with an unknown name is skipped and reported.
    pub fn update(&mut self, updates: &Vec<VarUpdate>) -> (r: UpdateOutcome)
        ensures
            final(self).var_model() == run_updates(old(self).var_model(), entry_views(updates@)).vars,
            r.applied as nat == run_updates(old(self).var_model(), entry_views(updates@)).applied,
            write_views(r.writes@) == run_updates(old(self).var_model(), entry_views(updates@)).writes,
            string_views(r.unknown@) == run_updates(old(self).var_model(), entry_views(updates@)).unknown,
            final(self).actions == old(self).actions,
            final(self).script == old(self).script,
    {
        let ghost vs0 = self.var_model();
        let ghost ev = entry_views(updates@);
        let mut applied: usize = 0;
        let mut writes: Vec<SlotWrite> = Vec::new();
        let mut unknown: Vec<String> = Vec::new();
        let mut i: usize = 0;
        while i < updates.len()
            invariant
                i <= updates@.len(),
                ev == entry_views(updates@),
                applied <= i,
                self.var_model() == run_updates(vs0, ev.subrange(0, i as int)).vars,
                applied as nat == run_updates(vs0, ev.subrange(0, i as int)).applied,
                write_views(writes@) == run_updates(vs0, ev.subrange(0, i as int)).writes,
                string_views(unknown@) == run_updates(vs0, ev.subrange(0, i as int)).unknown,
                self.actions == old(self).actions,
                self.script == old(self).script,
            decreases updates@.len() - i,
        {
            let ghost pre = ev.subrange(0, i + 1);
            assert(pre.drop_last() =~= ev.subrange(0, i as int));
            assert(pre.last() == updates@[i as int]@);
            let u = &updates[i];
            match find_var_index(&self.vars, &u.name) {
                None => {
                    let name = u.name.clone();
                    unknown.push(name);
                    assert(string_views(unknown@) =~= string_views(unknown@.drop_last()).push(name@));
                },
                Some(j) => {
                    let ghost before = self.vars@;
                    assert(self.var_model()[j as int] == before[j as int]@);
                    self.vars[j].value = u.value.duplicate();
                    assert forall|k: int| 0 <= k < before.len() && k != j implies #[trigger] self.var_model()[k] == var_views(before)[k] by {
                        assert(self.vars@[k] == before[k]);
                    }
                    assert(self.var_model()[j as int] == self.vars@[j as int]@);
                    applied = applied + 1;
                    match self.vars[j].upval {
                        Some(s) => {
                            let w = SlotWrite { slot: s, value: u.value.duplicate() };
                            writes.push(w);
                            assert(write_views(writes@) =~= write_views(writes@.drop_last()).push(w@));
                        },
                        None => {},
                    }
                    assert(self.var_model() =~= run_updates(vs0, pre).vars);
                },
            }
            i = i + 1;
        }
        assert(ev.subrange(0, updates@.len() as int) =~= ev);
        UpdateOutcome { applied, writes, unknown }
    }

    /// Names of the rule functions to call, in declaration order.
    pub fn call_names(&self) -> (r: Vec<String>)
        requires
            self.actions@.len() < usize::MAX,
        ensures
            r@.len() == self.actions@.len(),
            forall|i: int| 0 <= i < r@.len() ==> #[trigger] r@[i]@ == rule_fn_name((i + 1) as nat),
    {
        let mut out: Vec<String> = Vec::new();
        let mut i: usize = 0;
        while i < self.actions.len()
            invariant
                i <= self.actions@.len() < usize::MAX,
                out@.len() == i,
                forall|k: int| 0 <= k < i ==> #[trigger] out@[k]@ == rule_fn_name((k + 1) as nat),
            decreases self.actions@.len() - i,
        {
            out.push(rulefunc_name(i + 1));
            i = i + 1;
        }
        out
    }

    /// The result of each rule, given the status and value that the runtime
    /// returned for each rule function, in declaration order.
    pub fn evaluate(&self, replies: &Vec<(i32, rext_var)>) -> (r: Vec<RuleResult>)
        requires
            replies@.len() == self.actions@.len(),
        ensures
            result_views(r@) == results_of(self.rule_model(), replies@),
    {
        let mut out: Vec<RuleResult> = Vec::new();
        let mut i: usize = 0;
        while i < self.actions.len()
            invariant
                i <= self.actions@.len() == replies@.len(),
                out@.len() == i,
                forall|k: int| 0 <= k < i ==> #[trigger] out@[k]@ == results_of(self.rule_model(), replies@)[k],
            decreases self.actions@.len() - i,
        {
            let res = RuleResult {
                index: i + 1,
                condition: self.actions[i].rule_bool.clone(),
                status: replies[i].0,
                outcome: replies[i].1.as_bool(),
            };
            assert(self.rule_model()[i as int] == self.actions@[i as int]@);
            out.push(res);
            i = i + 1;
        }
        assert(result_views(out@) =~= results_of(self.rule_model(), replies@));
        out
    }
}

/// Discovering slots a second time with the same runtime answers changes
/// nothing: the name-to-slot mapping and the match count stay as they were.
pub proof fn lemma_discovery_idempotent(vs: Seq<VarModel>, names: Seq<Option<Seq<char>>>)
    ensures
        bind_all(bind_all(vs, names), names) == bind_all(vs, names),
        count_matches(names, bind_all(vs, names)) == count_matches(names, vs),
{
    assert(bind_all(bind_all(vs, names), names) =~= bind_all(vs, names));
    lemma_count_matches_bind(names, vs, names);
}

proof fn lemma_count_matches_bind(names: Seq<Option<Seq<char>>>, vs: Seq<VarModel>, bound: Seq<Option<Seq<char>>>)
    ensures
        count_matches(names, bind_all(vs, bound)) == count_matches(names, vs),
    decreases names.len(),
{
    if names.len() > 0 {
        lemma_count_matches_bind(names.drop_last(), vs, bound);
        if let Some(n) = names.last() {
            lemma_bind_keeps_names(vs, bound, n);
        }
    }
}

/// An update batch leaves every variable's name and slot as they were, and
/// each name it reports as unknown is the name of no variable: unknown names
/// never reach the set of bound slots.
pub proof fn lemma_unknown_names_never_bound(vs: Seq<VarModel>, entries: Seq<EntryModel>)
    ensures
        run_updates(vs, entries).vars.len() == vs.len(),
        forall|i: int| 0 <= i < vs.len() ==> (#[trigger] run_updates(vs, entries).vars[i]).name == vs[i].name
            && run_updates(vs, entries).vars[i].upval == vs[i].upval,
        forall|k: int| 0 <= k < run_updates(vs, entries).unknown.len() ==>
            !is_var_name(vs, #[trigger] run_updates(vs, entries).unknown[k]),
    decreases entries.len(),
{
    if entries.len() > 0 {
        let p = run_updates(vs, entries.drop_last());
        lemma_unknown_names_never_bound(vs, entries.drop_last());
        lemma_find_var_in_range(p.vars, entries.last().name);
        let e = entries.last();
        if find_var(p.vars, e.name) is None {
            lemma_find_var_none(p.vars, e.name);
            if is_var_name(vs, e.name) {
                let j = choose|j: int| 0 <= j < vs.len() && #[trigger] vs[j].name == e.name;
                assert(p.vars[j].name == e.name);
            }
        }
    }
}

/// Where no match is found, no variable carries the name.
proof fn lemma_find_var_none(vs: Seq<VarModel>, name: Seq<char>)
    requires
        find_var(vs, name) is None,
    ensures
        forall|j: int| 0 <= j < vs.len() ==> #[trigger] vs[j].name != name,
    decreases vs.len(),
{
    if vs.len() > 0 {
        lemma_find_var_none(vs.drop_last(), name);
        assert forall|j: int| 0 <= j < vs.len() implies #[trigger] vs[j].name != name by {
            if j < vs.len() - 1 {
                assert(vs.drop_last()[j] == vs[j]);
            }
        }
    }
}

/// Evaluation reads the rules and the runtime's replies only: an update changes
/// no rule, and two evaluations after it on the same replies give the same
/// results.
pub proof fn lemma_evaluation_repeatable(
    before: LinkedInfo,
    after: LinkedInfo,
    replies: Seq<(i32, rext_var)>,
)
    requires
        after.actions == before.actions,
    ensures
        results_of(after.rule_model(), replies) == results_of(before.rule_model(), replies),
        results_of(after.rule_model(), replies).len() == before.actions@.len(),
{
}

} // verus!
