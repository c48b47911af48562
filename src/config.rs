//! Loading the variables and rules of a session from its configuration document.
use vstd::prelude::*;
use vstd::string::StringExecFns;
use vstd::utf8::{encode_utf8, is_ascii_chars};
use crate::json::{Json, Number, lookup, find_field, parse_json, json_document};

verus! {

/// Largest accepted size of a configuration file, in bytes.
pub const MAX_CONFIG_SIZE: u64 = 0x100000;

/// What can go wrong in a session.
#[derive(Clone, Copy, Debug, PartialEq, Eq, Structural)]
pub enum LinkError {
    Io,
    ConfigTooLarge,
    Parse,
    NoVariables,
    NoRules,
    RuleParse,
    Compile(i32),
    Encoding,
    RuntimeCall(i32),
}

/// A linked variable: its name, its current value and, once bound, the
/// index of the runtime slot that holds it.
#[derive(Debug)]
pub struct LinkedVar {
    pub name: String,
    pub value: Number,
    pub upval: Option<u32>,
}

/// A rule: a boolean condition in script syntax and its action labels.
#[derive(Debug)]
pub struct LinkedAction {
    pub rule_bool: String,
    pub action_true: String,
    pub action_false: Option<String>,
}

/// A session: the variables, the rules in declaration order and the
/// synthesised script.
#[derive(Debug)]
pub struct LinkedInfo {
    pub vars: Vec<LinkedVar>,
    pub script: String,
    pub actions: Vec<LinkedAction>,
}

pub ghost struct VarModel {
    pub name: Seq<char>,
    pub bits: u64,
    pub text: Seq<char>,
    pub upval: Option<u32>,
}

pub ghost struct RuleModel {
    pub rule: Seq<char>,
    pub on_true: Seq<char>,
    pub on_false: Option<Seq<char>>,
}

impl View for LinkedVar {
    type V = VarModel;

    open spec fn view(&self) -> VarModel {
        VarModel { name: self.name@, bits: self.value.bits, text: self.value.text@, upval: self.upval }
    }
}

pub open spec fn opt_view(s: Option<String>) -> Option<Seq<char>> {
    match s {
        Some(t) => Some(t@),
        None => None,
    }
}

impl View for LinkedAction {
    type V = RuleModel;

    open spec fn view(&self) -> RuleModel {
        RuleModel {
            rule: self.rule_bool@,
            on_true: self.action_true@,
            on_false: opt_view(self.action_false),
        }
    }
}

pub open spec fn var_views(vs: Seq<LinkedVar>) -> Seq<VarModel> {
    vs.map_values(|v: LinkedVar| v@)
}

pub open spec fn rule_views(rs: Seq<LinkedAction>) -> Seq<RuleModel> {
    rs.map_values(|r: LinkedAction| r@)
}

impl LinkedInfo {
    pub open spec fn var_model(&self) -> Seq<VarModel> {
        var_views(self.vars@)
    }

    pub open spec fn rule_model(&self) -> Seq<RuleModel> {
        rule_views(self.actions@)
    }
}

/// The variable that a member of `linked-vars` defines: numeric members only.
pub open spec fn var_of(e: (String, Json)) -> Option<VarModel> {
    match e.1 {
        Json::Num(n) => Some(VarModel { name: e.0@, bits: n.bits, text: n.text@, upval: None }),
        _ => None,
    }
}

/// The variables of the members of `linked-vars`, in order, unbound.
pub open spec fn vars_of(entries: Seq<(String, Json)>) -> Seq<VarModel>
    decreases entries.len(),
{
    if entries.len() == 0 {
        Seq::empty()
    } else {
        let prev = vars_of(entries.drop_last());
        match var_of(entries.last()) {
            Some(v) => prev.push(v),
            None => prev,
        }
    }
}

/// A byte that may stand in an identifier: an ASCII letter, digit or `_`.
pub open spec fn ident_byte(b: u8) -> bool {
    // 'a'..='z', 'A'..='Z', '0'..='9', '_'
    (97 <= b && b <= 122) || (65 <= b && b <= 90) || (48 <= b && b <= 57) || b == 95
}

/// The reserved words of Lua, which cannot name a variable.
pub open spec fn lua_reserved(name: Seq<char>) -> bool {
    name == "and"@
        || name == "break"@
        || name == "do"@
        || name == "else"@
        || name == "elseif"@
        || name == "end"@
        || name == "false"@
        || name == "for"@
        || name == "function"@
        || name == "goto"@
        || name == "if"@
        || name == "in"@
        || name == "local"@
        || name == "nil"@
        || name == "not"@
        || name == "or"@
        || name == "repeat"@
        || name == "return"@
        || name == "then"@
        || name == "true"@
        || name == "until"@
        || name == "while"@
}

/// Whether a variable name is an identifier of the script language: ASCII
/// letters, digits and `_`, not empty, not starting with a digit and not a
/// reserved word. Only such names are written into a script.
pub open spec fn is_identifier(name: Seq<char>) -> bool {
    let b = encode_utf8(name);
    &&& !lua_reserved(name)
    &&& is_ascii_chars(name)
    &&& b.len() > 0
    &&& !(48 <= b[0] && b[0] <= 57)
    &&& forall|i: int| 0 <= i < b.len() ==> ident_byte(#[trigger] b[i])
}

pub open spec fn all_identifiers(vs: Seq<VarModel>) -> bool {
    forall|i: int| 0 <= i < vs.len() ==> is_identifier(#[trigger] vs[i].name)
}

/// No two variables share a name: a name is the key of its variable.
pub open spec fn names_unique(vs: Seq<VarModel>) -> bool {
    forall|i: int, j: int| 0 <= i < j < vs.len() ==> #[trigger] vs[i].name != #[trigger] vs[j].name
}

/// The optional `false` label: absent or null is none, a string is that
/// string, anything else is malformed (outer `None`).
pub open spec fn opt_label(j: Option<Json>) -> Option<Option<Seq<char>>> {
    match j {
        None => Some(None),
        Some(Json::Null) => Some(None),
        Some(Json::Str(s)) => Some(Some(s@)),
        _ => None,
    }
}

/// The rule that an element of `linked-action` describes, if well formed.
pub open spec fn rule_of(j: Json) -> Option<RuleModel> {
    match j {
        Json::Object(fields) => match (
            lookup(fields@, "rule"@),
            lookup(fields@, "true"@),
            opt_label(lookup(fields@, "false"@)),
        ) {
            (Some(Json::Str(c)), Some(Json::Str(t)), Some(f)) => Some(
                RuleModel { rule: c@, on_true: t@, on_false: f },
            ),
            _ => None,
        },
        _ => None,
    }
}

/// The rules of the elements of `linked-action`, or `None` if one is malformed.
pub open spec fn rules_of(items: Seq<Json>) -> Option<Seq<RuleModel>>
    decreases items.len(),
{
    if items.len() == 0 {
        Some(Seq::empty())
    } else {
        match (rules_of(items.drop_last()), rule_of(items.last())) {
            (Some(p), Some(r)) => Some(p.push(r)),
            _ => None,
        }
    }
}

/// What a parsed configuration document yields: its variables and rules, or
/// the first error of the validation sequence.
pub open spec fn load(doc: Json) -> Result<(Seq<VarModel>, Seq<RuleModel>), LinkError> {
    match doc {
        Json::Object(fields) => match lookup(fields@, "linked-vars"@) {
            Some(Json::Object(entries)) => {
                let vs = vars_of(entries@);
                if vs.len() == 0 {
                    Err(LinkError::NoVariables)
                } else if !all_identifiers(vs) || !names_unique(vs) {
                    Err(LinkError::RuleParse)
                } else {
                    match lookup(fields@, "linked-action"@) {
                        Some(Json::Array(items)) => match rules_of(items@) {
                            None => Err(LinkError::RuleParse),
                            Some(rs) => if rs.len() == 0 {
                                Err(LinkError::NoRules)
                            } else {
                                Ok((vs, rs))
                            },
                        },
                        _ => Err(LinkError::NoRules),
                    }
                }
            },
            _ => Err(LinkError::NoVariables),
        },
        _ => Err(LinkError::Parse),
    }
}

/// What a configuration text yields.
pub open spec fn load_text(text: Seq<char>) -> Result<(Seq<VarModel>, Seq<RuleModel>), LinkError> {
    match json_document(text) {
        Some(doc) => load(doc),
        None => Err(LinkError::Parse),
    }
}

/// Checks the file's kind and size before it is read.
pub fn check_config_file(is_file: bool, len: u64) -> (r: Result<(), LinkError>)
    ensures
        r == (if !is_file {
            Err(LinkError::Io)
        } else if len > MAX_CONFIG_SIZE {
            Err(LinkError::ConfigTooLarge)
        } else {
            Ok(())
        }),
{
    if !is_file {
        Err(LinkError::Io)
    } else if len > MAX_CONFIG_SIZE {
        Err(LinkError::ConfigTooLarge)
    } else {
        Ok(())
    }
}

impl Number {
    /// A copy of the number.
    pub fn duplicate(&self) -> (r: Number)
        ensures
            r.bits == self.bits,
            r.text@ == self.text@,
    {
        Number { bits: self.bits, text: self.text.clone() }
    }
}

fn clone_string(s: &String) -> (r: String)
    ensures
        r@ == s@,
{
    s.clone()
}

/// The variables defined by the members of `linked-vars`.
fn collect_vars(entries: &Vec<(String, Json)>) -> (r: Vec<LinkedVar>)
    ensures
        var_views(r@) == vars_of(entries@),
{
    let mut out: Vec<LinkedVar> = Vec::new();
    let mut i: usize = 0;
    while i < entries.len()
        invariant
            i <= entries@.len(),
            var_views(out@) == vars_of(entries@.subrange(0, i as int)),
        decreases entries@.len() - i,
    {
        let ghost pre = entries@.subrange(0, i + 1);
        assert(pre.drop_last() =~= entries@.subrange(0, i as int));
        assert(pre.last() == entries@[i as int]);
        match &entries[i].1 {
            Json::Num(n) => {
                let v = LinkedVar { name: clone_string(&entries[i].0), value: n.duplicate(), upval: None };
                out.push(v);
                assert(var_views(out@) =~= var_views(out@.drop_last()).push(v@));
            },
            _ => {},
        }
        i = i + 1;
    }
    assert(entries@.subrange(0, entries@.len() as int) =~= entries@);
    out
}

fn is_word(name: &String, w: &str) -> (r: bool)
    ensures
        r == (name@ == w@),
{
    let t = String::from_str(w);
    *name == t
}

/// Whether `name` is a reserved word of Lua.
pub fn is_reserved_word(name: &String) -> (r: bool)
    ensures
        r == lua_reserved(name@),
{
    is_word(name, "and")
        || is_word(name, "break")
        || is_word(name, "do")
        || is_word(name, "else")
        || is_word(name, "elseif")
        || is_word(name, "end")
        || is_word(name, "false")
        || is_word(name, "for")
        || is_word(name, "function")
        || is_word(name, "goto")
        || is_word(name, "if")
        || is_word(name, "in")
        || is_word(name, "local")
        || is_word(name, "nil")
        || is_word(name, "not")
        || is_word(name, "or")
        || is_word(name, "repeat")
        || is_word(name, "return")
        || is_word(name, "then")
        || is_word(name, "true")
        || is_word(name, "until")
        || is_word(name, "while")
}

/// Whether `name` is an identifier of the script language.
pub fn is_identifier_name(name: &String) -> (r: bool)
    ensures
        r == is_identifier(name@),
{
    if is_reserved_word(name) {
        return false;
    }
    let s = name.as_str();
    if !s.is_ascii() {
        return false;
    }
    let b = s.as_bytes();
    proof {
        vstd::utf8::is_ascii_chars_encode_utf8(s@);
    }
    assert(b@ == encode_utf8(name@));
    if b.len() == 0 {
        return false;
    }
    if 48 <= b[0] && b[0] <= 57 {
        return false;
    }
    let mut i: usize = 0;
    while i < b.len()
        invariant
            i <= b@.len(),
            b@ == encode_utf8(name@),
            forall|k: int| 0 <= k < i ==> ident_byte(#[trigger] b@[k]),
        decreases b@.len() - i,
    {
        let c = b[i];
        if !((97 <= c && c <= 122) || (65 <= c && c <= 90) || (48 <= c && c <= 57) || c == 95) {
            return false;
        }
        i = i + 1;
    }
    true
}

fn names_are_identifiers(vars: &Vec<LinkedVar>) -> (r: bool)
    ensures
        r == all_identifiers(var_views(vars@)),
{
    let mut j: usize = 0;
    while j < vars.len()
        invariant
            j <= vars@.len(),
            forall|k: int| 0 <= k < j ==> is_identifier(#[trigger] vars@[k].name@),
        decreases vars@.len() - j,
    {
        if !is_identifier_name(&vars[j].name) {
            assert(var_views(vars@)[j as int].name == vars@[j as int].name@);
            return false;
        }
        j = j + 1;
    }
    assert forall|k: int| 0 <= k < var_views(vars@).len() implies is_identifier(#[trigger] var_views(vars@)[k].name) by {
        assert(var_views(vars@)[k] == vars@[k]@);
    }
    true
}

fn names_are_unique(vars: &Vec<LinkedVar>) -> (r: bool)
    ensures
        r == names_unique(var_views(vars@)),
{
    let ghost vs = var_views(vars@);
    let mut j: usize = 0;
    while j < vars.len()
        invariant
            j <= vars@.len(),
            vs == var_views(vars@),
            forall|a: int, b: int| 0 <= a < b < j ==> #[trigger] vs[a].name != #[trigger] vs[b].name,
        decreases vars@.len() - j,
    {
        let mut i: usize = 0;
        while i < j
            invariant
                i <= j < vars@.len(),
                vs == var_views(vars@),
                forall|a: int| 0 <= a < i ==> #[trigger] vs[a].name != vs[j as int].name,
            decreases j - i,
        {
            assert(vs[i as int] == vars@[i as int]@ && vs[j as int] == vars@[j as int]@);
            if vars[i].name == vars[j].name {
                assert(vs[i as int].name == vs[j as int].name);
                assert(!names_unique(vs));
                return false;
            }
            i = i + 1;
        }
        j = j + 1;
    }
    true
}

/// The rule that one element of `linked-action` describes.
fn parse_rule(j: &Json) -> (r: Option<LinkedAction>)
    ensures
        match r {
            Some(a) => rule_of(*j) == Some(a@),
            None => rule_of(*j) is None,
        },
{
    match j {
        Json::Object(fields) => {
            let k_rule = String::from_str("rule");
            let k_true = String::from_str("true");
            let k_false = String::from_str("false");
            let cond = match find_field(fields, &k_rule) {
                Some(Json::Str(c)) => c,
                _ => return None,
            };
            let on_true = match find_field(fields, &k_true) {
                Some(Json::Str(t)) => t,
                _ => return None,
            };
            let on_false = match find_field(fields, &k_false) {
                None => None,
                Some(Json::Null) => None,
                Some(Json::Str(f)) => Some(clone_string(f)),
                _ => return None,
            };
            Some(LinkedAction { rule_bool: clone_string(cond), action_true: clone_string(on_true), action_false: on_false })
        },
        _ => None,
    }
}

/// The rules of the elements of `linked-action`.
fn collect_rules(items: &Vec<Json>) -> (r: Option<Vec<LinkedAction>>)
    ensures
        match r {
            Some(rs) => rules_of(items@) == Some(rule_views(rs@)),
            None => rules_of(items@) is None,
        },
{
    let mut out: Vec<LinkedAction> = Vec::new();
    let mut i: usize = 0;
    while i < items.len()
        invariant
            i <= items@.len(),
            rules_of(items@.subrange(0, i as int)) == Some(rule_views(out@)),
        decreases items@.len() - i,
    {
        let ghost pre = items@.subrange(0, i + 1);
        assert(pre.drop_last() =~= items@.subrange(0, i as int));
        assert(pre.last() == items@[i as int]);
        match parse_rule(&items[i]) {
            Some(a) => {
                out.push(a);
                assert(rule_views(out@) =~= rule_views(out@.drop_last()).push(a@));
            },
            None => {
                proof {
                    lemma_rules_of_prefix_fails(items@, i as int + 1);
                }
                return None;
            },
        }
        i = i + 1;
    }
    assert(items@.subrange(0, items@.len() as int) =~= items@);
    Some(out)
}

/// Once a prefix holds a malformed rule, so does every longer prefix.
proof fn lemma_rules_of_prefix_fails(items: Seq<Json>, k: int)
    requires
        0 <= k <= items.len(),
        rules_of(items.subrange(0, k)) is None,
    ensures
        rules_of(items) is None,
    decreases items.len() - k,
{
    if k < items.len() {
        let pre = items.subrange(0, k + 1);
        assert(pre.drop_last() =~= items.subrange(0, k));
        lemma_rules_of_prefix_fails(items, k + 1);
    } else {
        assert(items.subrange(0, k) =~= items);
    }
}

impl LinkedInfo {
    /// The session that a parsed document describes, with unbound variables
    /// and no script yet.
    pub fn from_document(doc: &Json) -> (r: Result<LinkedInfo, LinkError>)
        ensures
            match r {
                Ok(info) => load(*doc) == Ok::<_, LinkError>((info.var_model(), info.rule_model()))
                    && info.script@.len() == 0
                    && names_unique(info.var_model())
                    && all_identifiers(info.var_model()),
                Err(e) => load(*doc) == Err::<(Seq<VarModel>, Seq<RuleModel>), LinkError>(e),
            },
    {
        let fields = match doc {
            Json::Object(fields) => fields,
            _ => return Err(LinkError::Parse),
        };
        let k_vars = String::from_str("linked-vars");
        let k_acts = String::from_str("linked-action");
        let entries = match find_field(fields, &k_vars) {
            Some(Json::Object(entries)) => entries,
            _ => return Err(LinkError::NoVariables),
        };
        let vars = collect_vars(entries);
        if vars.len() == 0 {
            return Err(LinkError::NoVariables);
        }
        if !names_are_identifiers(&vars) || !names_are_unique(&vars) {
            return Err(LinkError::RuleParse);
        }
        let items = match find_field(fields, &k_acts) {
            Some(Json::Array(items)) => items,
            _ => return Err(LinkError::NoRules),
        };
        let actions = match collect_rules(items) {
            Some(actions) => actions,
            None => return Err(LinkError::RuleParse),
        };
        if actions.len() == 0 {
            return Err(LinkError::NoRules);
        }
        Ok(LinkedInfo { vars, script: String::new(), actions })
    }

    /// The session that a configuration text describes.
    pub fn new(text: &str) -> (r: Result<LinkedInfo, LinkError>)
        ensures
            match r {
                Ok(info) => load_text(text@) == Ok::<_, LinkError>((info.var_model(), info.rule_model()))
                    && info.script@.len() == 0
                    && names_unique(info.var_model())
                    && all_identifiers(info.var_model()),
                Err(e) => load_text(text@) == Err::<(Seq<VarModel>, Seq<RuleModel>), LinkError>(e),
            },
    {
        match parse_json(text) {
            Some(doc) => LinkedInfo::from_document(&doc),
            None => Err(LinkError::Parse),
        }
    }
}

/// A document whose `linked-action` list is empty is rejected with
/// `NoRules` whenever its variables are otherwise acceptable, so no session
/// is made and no script is ever synthesised from it.
pub proof fn lemma_empty_rule_list_rejected(
    fields: Vec<(String, Json)>,
    entries: Vec<(String, Json)>,
    items: Vec<Json>,
)
    requires
        lookup(fields@, "linked-vars"@) == Some(Json::Object(entries)),
        vars_of(entries@).len() > 0,
        all_identifiers(vars_of(entries@)),
        names_unique(vars_of(entries@)),
        lookup(fields@, "linked-action"@) == Some(Json::Array(items)),
        items@.len() == 0,
    ensures
        load(Json::Object(fields)) == Err::<(Seq<VarModel>, Seq<RuleModel>), LinkError>(LinkError::NoRules),
{
    assert(rules_of(items@) == Some(Seq::<RuleModel>::empty()));
}

} // verus!
