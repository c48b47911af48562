use linked_action::config::{
    check_config_file, is_identifier_name, is_reserved_word, LinkError, LinkedInfo, MAX_CONFIG_SIZE,
};
use linked_action::engine::next_query;
use linked_action::json::Json;
use linked_action::engine::{RuleResult, VarUpdate};
use linked_action::json::Number;
use linked_action::script::{append_decimal, rulefunc_name};
use linked_action::value::rext_var;

const ONE_RULE: &str =
    r#"{"linked-vars":{"a":1,"b":2},"linked-action":[{"rule":"a+b>2","true":"ok"}]}"#;

fn number(x: f64, text: &str) -> Number {
    Number { bits: x.to_bits(), text: text.to_string() }
}

fn upvalues(names: &[&str]) -> Vec<rext_var> {
    names.iter().map(|n| rext_var::new_string(n.as_bytes())).collect()
}

fn bound_session() -> LinkedInfo {
    let mut info = LinkedInfo::new(ONE_RULE).unwrap();
    info.build_script();
    assert_eq!(info.fetch_indices(&upvalues(&["a", "b"])), 2);
    info
}

fn slot_of(info: &LinkedInfo, name: &str) -> Option<u32> {
    info.vars.iter().find(|v| v.name == name).and_then(|v| v.upval)
}

fn summary(rs: &[RuleResult]) -> Vec<(usize, String, i32, Option<bool>)> {
    rs.iter().map(|r| (r.index, r.condition.clone(), r.status, r.outcome)).collect()
}

#[test]
fn one_rule_config_loads_and_renders() {
    let mut info = LinkedInfo::new(ONE_RULE).unwrap();
    assert_eq!(info.vars.len(), 2);
    assert_eq!(info.actions.len(), 1);
    assert_eq!(info.actions[0].rule_bool, "a+b>2");
    assert_eq!(info.actions[0].action_true, "ok");
    assert_eq!(info.actions[0].action_false, None);
    assert_eq!(info.script, "");
    info.build_script();
    let expected = "\nlocal a = 1\nlocal b = 2\nfunction rulefunc_1()\n\treturn a+b>2\nend\n\
        function rulefunc_all()\n\tlocal link_tval_ = 0\n\tlink_tval_ = link_tval_ + a\n\
        \tlink_tval_ = link_tval_ + b\n\treturn link_tval_\nend\n";
    assert_eq!(info.script, expected);
    assert_eq!(info.call_names(), vec!["rulefunc_1".to_string()]);
}

#[test]
fn one_rule_evaluates_true_after_binding() {
    let info = bound_session();
    assert_eq!(slot_of(&info, "a"), Some(1));
    assert_eq!(slot_of(&info, "b"), Some(2));
    let rs = info.evaluate(&vec![(0, rext_var::new_bool(true))]);
    assert_eq!(summary(&rs), vec![(1, "a+b>2".to_string(), 0, Some(true))]);
}

#[test]
fn update_then_rule_evaluates_false() {
    let mut info = bound_session();
    let out = info.update(&vec![VarUpdate { name: "a".to_string(), value: number(-5.0, "-5") }]);
    assert_eq!(out.applied, 1);
    assert!(out.unknown.is_empty());
    assert_eq!(out.writes.len(), 1);
    assert_eq!(out.writes[0].slot, 1);
    assert_eq!(out.writes[0].value.bits, (-5.0f64).to_bits());
    let a = info.vars.iter().find(|v| v.name == "a").unwrap();
    assert_eq!(a.value.bits, (-5.0f64).to_bits());
    let rs = info.evaluate(&vec![(0, rext_var::new_bool(false))]);
    assert_eq!(summary(&rs), vec![(1, "a+b>2".to_string(), 0, Some(false))]);
}

#[test]
fn empty_rule_list_is_rejected() {
    let r = LinkedInfo::new(r#"{"linked-vars":{"a":1},"linked-action":[]}"#);
    assert_eq!(r.unwrap_err(), LinkError::NoRules);
}

#[test]
fn missing_rule_list_is_rejected() {
    let r = LinkedInfo::new(r#"{"linked-vars":{"a":1}}"#);
    assert_eq!(r.unwrap_err(), LinkError::NoRules);
    let r = LinkedInfo::new(r#"{"linked-vars":{"a":1},"linked-action":{"rule":"a"}}"#);
    assert_eq!(r.unwrap_err(), LinkError::NoRules);
}

#[test]
fn malformed_documents_are_parse_errors() {
    assert_eq!(LinkedInfo::new("{not json").unwrap_err(), LinkError::Parse);
    assert_eq!(LinkedInfo::new("[1, 2]").unwrap_err(), LinkError::Parse);
    assert_eq!(LinkedInfo::new("").unwrap_err(), LinkError::Parse);
}

#[test]
fn variables_must_be_numeric_and_present() {
    let acts = r#""linked-action":[{"rule":"x","true":"t"}]"#;
    let r = LinkedInfo::new(&format!(r#"{{{}}}"#, acts));
    assert_eq!(r.unwrap_err(), LinkError::NoVariables);
    let r = LinkedInfo::new(&format!(r#"{{"linked-vars":[1],{}}}"#, acts));
    assert_eq!(r.unwrap_err(), LinkError::NoVariables);
    let r = LinkedInfo::new(&format!(r#"{{"linked-vars":{{"s":"1","t":true}},{}}}"#, acts));
    assert_eq!(r.unwrap_err(), LinkError::NoVariables);
}

#[test]
fn non_numeric_variables_are_skipped() {
    let text = r#"{"linked-vars":{"a":1.5,"s":"x","n":null},"linked-action":[{"rule":"a>1","true":"t"}]}"#;
    let info = LinkedInfo::new(text).unwrap();
    assert_eq!(info.vars.len(), 1);
    assert_eq!(info.vars[0].name, "a");
    assert_eq!(info.vars[0].value.bits, 1.5f64.to_bits());
    assert_eq!(info.vars[0].value.text, "1.5");
    assert_eq!(info.vars[0].upval, None);
}

#[test]
fn malformed_rules_are_rule_parse_errors() {
    let vars = r#""linked-vars":{"a":1}"#;
    for acts in [
        r#"[{"rule":"a>0"}]"#,
        r#"[{"true":"t"}]"#,
        r#"[{"rule":1,"true":"t"}]"#,
        r#"[{"rule":"a>0","true":"t","false":3}]"#,
        r#"[{"rule":"a>0","true":"t"}, 7]"#,
    ] {
        let r = LinkedInfo::new(&format!(r#"{{{},"linked-action":{}}}"#, vars, acts));
        assert_eq!(r.unwrap_err(), LinkError::RuleParse, "{}", acts);
    }
}

#[test]
fn optional_false_label() {
    let text = r#"{"linked-vars":{"a":1},"linked-action":[
        {"rule":"a>0","true":"t","false":"f"},
        {"rule":"a<0","true":"u","false":null},
        {"rule":"a==0","true":"v","extra":5}]}"#;
    let info = LinkedInfo::new(text).unwrap();
    assert_eq!(info.actions.len(), 3);
    assert_eq!(info.actions[0].action_false, Some("f".to_string()));
    assert_eq!(info.actions[1].action_false, None);
    assert_eq!(info.actions[2].action_false, None);
    assert_eq!(info.actions[2].rule_bool, "a==0");
}

#[test]
fn config_file_checks() {
    assert_eq!(check_config_file(false, 10), Err(LinkError::Io));
    assert_eq!(check_config_file(true, MAX_CONFIG_SIZE + 1), Err(LinkError::ConfigTooLarge));
    assert_eq!(check_config_file(true, u64::MAX), Err(LinkError::ConfigTooLarge));
    assert_eq!(check_config_file(true, 0x100000), Ok(()));
    assert_eq!(check_config_file(true, 0xFFFFF), Ok(()));
    assert_eq!(check_config_file(true, 0), Ok(()));
}

#[test]
fn rule_functions_are_numbered_without_gaps() {
    let rules: Vec<String> =
        (0..12).map(|i| format!(r#"{{"rule":"x>{}","true":"t"}}"#, i)).collect();
    let text = format!(r#"{{"linked-vars":{{"x":3}},"linked-action":[{}]}}"#, rules.join(","));
    let mut info = LinkedInfo::new(&text).unwrap();
    info.build_script();
    let names = info.call_names();
    assert_eq!(names.len(), 12);
    for (i, n) in names.iter().enumerate() {
        assert_eq!(*n, format!("rulefunc_{}", i + 1));
        let body = format!("function {}()\n\treturn x>{}\nend\n", n, i);
        assert!(info.script.contains(&body));
    }
    assert!(!info.script.contains("rulefunc_0("));
    assert!(!info.script.contains("rulefunc_13("));
    assert_eq!(info.script.matches("function rulefunc_").count(), 13);
}

#[test]
fn decimal_rendering() {
    assert_eq!(rulefunc_name(1), "rulefunc_1");
    assert_eq!(rulefunc_name(10), "rulefunc_10");
    assert_eq!(rulefunc_name(105), "rulefunc_105");
    let mut s = String::from("n=");
    append_decimal(&mut s, 0);
    assert_eq!(s, "n=0");
    let mut s = String::new();
    append_decimal(&mut s, usize::MAX);
    assert_eq!(s, usize::MAX.to_string());
}

#[test]
fn discovery_twice_gives_same_mapping() {
    let mut info = LinkedInfo::new(ONE_RULE).unwrap();
    let ups = upvalues(&["b", "link_tval_", "a"]);
    assert_eq!(info.fetch_indices(&ups), 2);
    let first: Vec<Option<u32>> = info.vars.iter().map(|v| v.upval).collect();
    assert_eq!(info.fetch_indices(&ups), 2);
    let second: Vec<Option<u32>> = info.vars.iter().map(|v| v.upval).collect();
    assert_eq!(first, second);
    assert_eq!(slot_of(&info, "a"), Some(3));
    assert_eq!(slot_of(&info, "b"), Some(1));
}

#[test]
fn discovery_skips_non_string_upvalues() {
    let mut info = LinkedInfo::new(ONE_RULE).unwrap();
    let ups = vec![rext_var::new_int(3), rext_var::new_string(b"a"), rext_var::new()];
    assert_eq!(info.fetch_indices(&ups), 1);
    assert_eq!(slot_of(&info, "a"), Some(2));
    assert_eq!(slot_of(&info, "b"), None);
    assert_eq!(info.fetch_indices(&Vec::new()), 0);
    assert_eq!(slot_of(&info, "a"), Some(2));
}

#[test]
fn unknown_update_names_are_skipped() {
    let mut info = bound_session();
    let out = info.update(&vec![
        VarUpdate { name: "zzz".to_string(), value: number(1.0, "1") },
        VarUpdate { name: "b".to_string(), value: number(7.0, "7") },
    ]);
    assert_eq!(out.applied, 1);
    assert_eq!(out.unknown, vec!["zzz".to_string()]);
    assert_eq!(out.writes.len(), 1);
    assert_eq!(out.writes[0].slot, 2);
    assert_eq!(out.writes[0].value.text, "7");
    assert!(info.vars.iter().all(|v| v.name != "zzz"));
    assert_eq!(slot_of(&info, "a"), Some(1));
    assert_eq!(slot_of(&info, "b"), Some(2));
}

#[test]
fn update_of_unbound_variable_writes_nothing() {
    let mut info = LinkedInfo::new(ONE_RULE).unwrap();
    let out = info.update(&vec![VarUpdate { name: "a".to_string(), value: number(4.0, "4") }]);
    assert_eq!(out.applied, 1);
    assert!(out.writes.is_empty());
    assert_eq!(info.vars[0].value.bits, 4.0f64.to_bits());
}

#[test]
fn evaluation_is_repeatable() {
    let mut info = bound_session();
    info.update(&vec![VarUpdate { name: "a".to_string(), value: number(3.0, "3") }]);
    let replies = vec![(0, rext_var::new_bool(true))];
    let first = summary(&info.evaluate(&replies));
    let second = summary(&info.evaluate(&replies));
    assert_eq!(first, second);
    let a = info.vars.iter().find(|v| v.name == "a").unwrap();
    assert_eq!(a.value.bits, 3.0f64.to_bits());
}

#[test]
fn non_boolean_rule_result_is_indeterminate() {
    let info = bound_session();
    let rs = info.evaluate(&vec![(-2, rext_var::new_int(5))]);
    assert_eq!(summary(&rs), vec![(1, "a+b>2".to_string(), -2, None)]);
}

#[test]
fn string_value_round_trip() {
    let v = rext_var::new_string(b"hello");
    assert_eq!(v.as_string(), Some("hello".to_string()));
    assert_eq!(v.as_bytes(), Some(&b"hello".to_vec()));
    assert_eq!(v.as_bool(), None);
    let w = v.clone();
    assert_eq!(w.as_string(), Some("hello".to_string()));
    let bad = rext_var::new_string(&[0x61, 0xff]);
    assert_eq!(bad.as_string(), Some("a\u{FFFD}".to_string()));
    assert_eq!(bad.as_bytes(), Some(&vec![0x61, 0xff]));
    assert_eq!(rext_var::new_string(b"").as_string(), Some(String::new()));
}

#[test]
fn scalar_values() {
    assert_eq!(rext_var::new_bool(true).as_bool(), Some(true));
    assert_eq!(rext_var::new_bool(false).as_bool(), Some(false));
    assert_eq!(rext_var::new_int(-1).as_string(), None);
    assert_eq!(rext_var::new_uint(9).as_bool(), None);
    assert_eq!(rext_var::new().as_string(), None);
    assert!(matches!(rext_var::new_f64_bits(2.5f64.to_bits()), rext_var::F64Bits(b) if b == 2.5f64.to_bits()));
    assert!(matches!(rext_var::new_f32_bits(1.5f32.to_bits()), rext_var::F32Bits(b) if b == 1.5f32.to_bits()));
}

#[test]
fn variable_names_must_be_identifiers() {
    for name in ["1a", "a-b", "a b", "\u{e9}t\u{e9}", "", "end", "nil", "local"] {
        let text = format!(
            r#"{{"linked-vars":{{"ok":1,"{}":2}},"linked-action":[{{"rule":"ok>0","true":"t"}}]}}"#,
            name
        );
        assert_eq!(LinkedInfo::new(&text).unwrap_err(), LinkError::RuleParse, "{}", name);
    }
    let text = r#"{"linked-vars":{"ok":1,"not ok":"x"},"linked-action":[{"rule":"ok>0","true":"t"}]}"#;
    assert_eq!(LinkedInfo::new(text).unwrap().vars.len(), 1);
}

#[test]
fn identifier_grammar() {
    for good in ["a", "_", "ex_var1", "A9_z", "_0"] {
        assert!(is_identifier_name(&good.to_string()), "{}", good);
    }
    for bad in ["", "9", "1x", "a.b", "x-y", "caf\u{e9}", " a", "end", "nil", "function", "while"] {
        assert!(!is_identifier_name(&bad.to_string()), "{}", bad);
    }
}

#[test]
fn reserved_words() {
    let words = [
        "and", "break", "do", "else", "elseif", "end", "false", "for", "function", "goto", "if",
        "in", "local", "nil", "not", "or", "repeat", "return", "then", "true", "until", "while",
    ];
    for w in words {
        assert!(is_reserved_word(&w.to_string()), "{}", w);
        assert!(!is_identifier_name(&w.to_string()), "{}", w);
    }
    for w in ["End", "ends", "nil_", "_end", "self", "print"] {
        assert!(!is_reserved_word(&w.to_string()), "{}", w);
        assert!(is_identifier_name(&w.to_string()), "{}", w);
    }
}

#[test]
fn reserved_word_variable_is_rejected() {
    let text = r#"{"linked-vars":{"end":1},"linked-action":[{"rule":"a+b>2","true":"ok"}]}"#;
    assert_eq!(LinkedInfo::new(text).unwrap_err(), LinkError::RuleParse);
}

fn num_json(text: &str, x: f64) -> Json {
    Json::Num(Number { bits: x.to_bits(), text: text.to_string() })
}

fn rule_json(cond: &str) -> Json {
    Json::Object(vec![
        ("rule".to_string(), Json::Str(cond.to_string())),
        ("true".to_string(), Json::Str("ok".to_string())),
    ])
}

#[test]
fn repeated_variable_names_are_rejected() {
    let doc = Json::Object(vec![
        (
            "linked-vars".to_string(),
            Json::Object(vec![
                ("a".to_string(), num_json("1", 1.0)),
                ("a".to_string(), num_json("2", 2.0)),
            ]),
        ),
        ("linked-action".to_string(), Json::Array(vec![rule_json("a>0")])),
    ]);
    assert_eq!(LinkedInfo::from_document(&doc).unwrap_err(), LinkError::RuleParse);
    let doc = Json::Object(vec![
        (
            "linked-vars".to_string(),
            Json::Object(vec![
                ("a".to_string(), num_json("1", 1.0)),
                ("a".to_string(), Json::Str("x".to_string())),
            ]),
        ),
        ("linked-action".to_string(), Json::Array(vec![rule_json("a>0")])),
    ]);
    let info = LinkedInfo::from_document(&doc).unwrap();
    assert_eq!(info.vars.len(), 1);
}

#[test]
fn discovery_query_steps() {
    assert_eq!(next_query(1, 0), Some(2));
    assert_eq!(next_query(7, 3), Some(8));
    assert_eq!(next_query(1, -1), None);
    assert_eq!(next_query(5, i32::MIN), None);
    assert_eq!(next_query(u32::MAX, 0), None);
}
