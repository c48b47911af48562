//! Rendering the variables and rules of a session as script source text.
use vstd::prelude::*;
use vstd::string::StringExecFns;
use crate::config::{LinkedInfo, LinkedVar, LinkedAction, VarModel, RuleModel};

verus! {

/// Text of one decimal digit.
pub open spec fn digit_text(d: nat) -> Seq<char> {
    if d == 0 { "0"@ }
    else if d == 1 { "1"@ }
    else if d == 2 { "2"@ }
    else if d == 3 { "3"@ }
    else if d == 4 { "4"@ }
    else if d == 5 { "5"@ }
    else if d == 6 { "6"@ }
    else if d == 7 { "7"@ }
    else if d == 8 { "8"@ }
    else { "9"@ }
}

/// Decimal text of a natural number, without leading zeros.
pub open spec fn decimal(n: nat) -> Seq<char>
    decreases n,
{
    if n < 10 {
        digit_text(n)
    } else {
        decimal(n / 10) + digit_text(n % 10)
    }
}

/// Name of the function of the rule at 1-based position `i`: a fixed prefix
/// and the position, so that rule functions can be called by number.
pub open spec fn rule_fn_name(i: nat) -> Seq<char> {
    "rulefunc_"@ + decimal(i)
}

/// Declaration of one variable with its current value.
pub open spec fn var_decl(v: VarModel) -> Seq<char> {
    "local "@ + v.name + " = "@ + v.text + "\n"@
}

/// Zero-argument function that returns the condition of the rule at 1-based
/// position `i`.
pub open spec fn rule_fn(i: nat, r: RuleModel) -> Seq<char> {
    "function "@ + rule_fn_name(i) + "()\n\treturn "@ + r.rule + "\nend\n"@
}

/// Line of the aggregate function that adds one variable to the accumulator.
pub open spec fn sum_line(v: VarModel) -> Seq<char> {
    "\tlink_tval_ = link_tval_ + "@ + v.name + "\n"@
}

pub open spec fn decl_section(vs: Seq<VarModel>) -> Seq<char> {
    Seq::new(vs.len(), |i: int| var_decl(vs[i])).flatten()
}

/// The rule functions, one per rule, numbered from 1 in declaration order.
pub open spec fn rule_texts(rs: Seq<RuleModel>) -> Seq<Seq<char>> {
    Seq::new(rs.len(), |i: int| rule_fn((i + 1) as nat, rs[i]))
}

pub open spec fn rule_section(rs: Seq<RuleModel>) -> Seq<char> {
    rule_texts(rs).flatten()
}

pub open spec fn sum_section(vs: Seq<VarModel>) -> Seq<char> {
    Seq::new(vs.len(), |i: int| sum_line(vs[i])).flatten()
}

/// The aggregate function, which captures every variable so that the
/// runtime can enumerate them.
pub open spec fn aggregate_fn(vs: Seq<VarModel>) -> Seq<char> {
    "function rulefunc_all()\n\tlocal link_tval_ = 0\n"@ + sum_section(vs) + "\treturn link_tval_\nend\n"@
}

/// The whole script of a session.
pub open spec fn script_of(vs: Seq<VarModel>, rs: Seq<RuleModel>) -> Seq<char> {
    "\n"@ + decl_section(vs) + rule_section(rs) + aggregate_fn(vs)
}

fn digit_str(d: usize) -> (r: &'static str)
    requires
        d < 10,
    ensures
        r@ == digit_text(d as nat),
{
    if d == 0 { "0" }
    else if d == 1 { "1" }
    else if d == 2 { "2" }
    else if d == 3 { "3" }
    else if d == 4 { "4" }
    else if d == 5 { "5" }
    else if d == 6 { "6" }
    else if d == 7 { "7" }
    else if d == 8 { "8" }
    else { "9" }
}

/// Appends the decimal text of `n`.
pub fn append_decimal(s: &mut String, n: usize)
    ensures
        final(s)@ == old(s)@ + decimal(n as nat),
    decreases n,
{
    if n < 10 {
        s.append(digit_str(n));
    } else {
        append_decimal(s, n / 10);
        s.append(digit_str(n % 10));
        assert(final(s)@ =~= old(s)@ + decimal(n as nat));
    }
}

/// Name of the function of the rule at 1-based position `i`.
pub fn rulefunc_name(i: usize) -> (r: String)
    ensures
        r@ == rule_fn_name(i as nat),
{
    let mut s = String::from_str("rulefunc_");
    append_decimal(&mut s, i);
    s
}

proof fn lemma_new_push<A>(n: int, f: spec_fn(int) -> A)
    requires
        0 <= n,
    ensures
        Seq::new((n + 1) as nat, f) =~= Seq::new(n as nat, f).push(f(n)),
{
}

fn append_decls(s: &mut String, vars: &Vec<LinkedVar>)
    ensures
        final(s)@ == old(s)@ + decl_section(crate::config::var_views(vars@)),
{
    let ghost vs = crate::config::var_views(vars@);
    let ghost f = |i: int| var_decl(vs[i]);
    let mut i: usize = 0;
    while i < vars.len()
        invariant
            i <= vars@.len(),
            vs == crate::config::var_views(vars@),
            f == (|i: int| var_decl(vs[i])),
            s@ == old(s)@ + Seq::new(i as nat, f).flatten(),
        decreases vars@.len() - i,
    {
        let v = &vars[i];
        s.append("local ");
        s.append(v.name.as_str());
        s.append(" = ");
        s.append(v.value.text.as_str());
        s.append("\n");
        proof {
            lemma_new_push(i as int, f);
            Seq::new(i as nat, f).lemma_flatten_push(f(i as int));
            assert(vs[i as int] == v@);
        }
        i = i + 1;
        assert(s@ =~= old(s)@ + Seq::new(i as nat, f).flatten());
    }
}

fn append_rules(s: &mut String, actions: &Vec<LinkedAction>)
    requires
        actions@.len() < usize::MAX,
    ensures
        final(s)@ == old(s)@ + rule_section(crate::config::rule_views(actions@)),
{
    let ghost rs = crate::config::rule_views(actions@);
    let ghost f = |i: int| rule_fn((i + 1) as nat, rs[i]);
    let mut i: usize = 0;
    while i < actions.len()
        invariant
            i <= actions@.len() < usize::MAX,
            rs == crate::config::rule_views(actions@),
            f == (|i: int| rule_fn((i + 1) as nat, rs[i])),
            s@ == old(s)@ + Seq::new(i as nat, f).flatten(),
        decreases actions@.len() - i,
    {
        let a = &actions[i];
        s.append("function ");
        let name = rulefunc_name(i + 1);
        s.append(name.as_str());
        s.append("()\n\treturn ");
        s.append(a.rule_bool.as_str());
        s.append("\nend\n");
        proof {
            lemma_new_push(i as int, f);
            Seq::new(i as nat, f).lemma_flatten_push(f(i as int));
            assert(rs[i as int] == a@);
        }
        i = i + 1;
        assert(s@ =~= old(s)@ + Seq::new(i as nat, f).flatten());
    }
    assert(Seq::new(actions@.len(), f) =~= rule_texts(rs));
}

fn append_sums(s: &mut String, vars: &Vec<LinkedVar>)
    ensures
        final(s)@ == old(s)@ + sum_section(crate::config::var_views(vars@)),
{
    let ghost vs = crate::config::var_views(vars@);
    let ghost f = |i: int| sum_line(vs[i]);
    let mut i: usize = 0;
    while i < vars.len()
        invariant
            i <= vars@.len(),
            vs == crate::config::var_views(vars@),
            f == (|i: int| sum_line(vs[i])),
            s@ == old(s)@ + Seq::new(i as nat, f).flatten(),
        decreases vars@.len() - i,
    {
        let v = &vars[i];
        s.append("\tlink_tval_ = link_tval_ + ");
        s.append(v.name.as_str());
        s.append("\n");
        proof {
            lemma_new_push(i as int, f);
            Seq::new(i as nat, f).lemma_flatten_push(f(i as int));
            assert(vs[i as int] == v@);
        }
        i = i + 1;
        assert(s@ =~= old(s)@ + Seq::new(i as nat, f).flatten());
    }
}

impl LinkedInfo {
    /// Synthesises the script of the session and stores it.
    pub fn build_script(&mut self)
        requires
            old(self).actions@.len() < usize::MAX,
        ensures
            final(self).script@ == script_of(old(self).var_model(), old(self).rule_model()),
            final(self).vars == old(self).vars,
            final(self).actions == old(self).actions,
    {
        let mut s = String::new();
        s.append("\n");
        append_decls(&mut s, &self.vars);
        append_rules(&mut s, &self.actions);
        s.append("function rulefunc_all()\n\tlocal link_tval_ = 0\n");
        append_sums(&mut s, &self.vars);
        s.append("\treturn link_tval_\nend\n");
        self.script = s;
        assert(self.script@ =~= script_of(self.var_model(), self.rule_model()));
    }
}

/// The rule section holds one function per rule and no other: the `i`-th,
/// counting from 0, is named `rulefunc_<i+1>` and returns the `i`-th rule's
/// condition, so the numbers run over `1..=N` without gaps.
pub proof fn lemma_rule_functions_numbered(vs: Seq<VarModel>, rs: Seq<RuleModel>)
    ensures
        script_of(vs, rs) == "\n"@ + decl_section(vs) + rule_texts(rs).flatten() + aggregate_fn(vs),
        rule_texts(rs).len() == rs.len(),
        forall|i: int| 0 <= i < rs.len() ==> #[trigger] rule_texts(rs)[i] == "function "@
            + rule_fn_name((i + 1) as nat) + "()\n\treturn "@ + rs[i].rule + "\nend\n"@,
{
}

} // verus!
