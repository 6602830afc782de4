use netsblox_extension_util::descriptor::{parse_label_part, parse_menu, return_shape};
use netsblox_extension_util::emit::json_escaped;
use netsblox_extension_util::literal::{parse_value, value_string, Value};
use netsblox_extension_util::model::ReturnShape;
use netsblox_extension_util::subst::replace_all;
use netsblox_extension_util::{format_menu, placeholders, tokenize, BlockType, Menu};

fn value(text: &str) -> Option<Value> {
    let toks = tokenize(text).expect("lexes");
    parse_value(&toks, 0, toks.len())
}

#[test]
fn string_literal_escapes_are_resolved() {
    match value(r#""say \"hi\"\n""#) {
        Some(Value::Str(s)) => assert_eq!(s, "say \"hi\"\n"),
        other => panic!("unexpected: {other:?}"),
    }
    match value(r##"r#"raw "text""#"##) {
        Some(Value::Str(s)) => assert_eq!(s, "raw \"text\""),
        other => panic!("unexpected: {other:?}"),
    }
}

#[test]
fn float_literal_digits() {
    match value("1_000.5f64") {
        Some(Value::Float(d)) => assert_eq!(d, "1000.5"),
        other => panic!("unexpected: {other:?}"),
    }
    assert!(matches!(value("100"), Some(Value::Opaque(ref t)) if t == "100"));
    assert!(matches!(value("-1.0"), Some(Value::Opaque(ref t)) if t == "- 1.0"));
}

#[test]
fn booleans_paths_and_options() {
    assert!(matches!(value("true"), Some(Value::Bool(true))));
    assert!(matches!(value("false"), Some(Value::Bool(false))));
    assert!(matches!(value("None"), Some(Value::OptNone)));
    match value("netsblox_extension_util::TargetObject::Both") {
        Some(Value::Path(p)) => assert_eq!(p, vec!["netsblox_extension_util", "TargetObject", "Both"]),
        other => panic!("unexpected: {other:?}"),
    }
    match value(r#"Some("x")"#) {
        Some(Value::OptSome(b)) => assert!(matches!(*b, Value::Str(ref s) if s == "x")),
        other => panic!("unexpected: {other:?}"),
    }
    assert!(matches!(value(r#"Some("x", "y")"#), Some(Value::Opaque(ref t)) if t == r#"Some ("x" , "y")"#));
}

#[test]
fn arrays_tuples_and_structs() {
    match value(r#"&["a", "b",]"#) {
        Some(Value::Array(v)) => assert_eq!(v.len(), 2),
        other => panic!("unexpected: {other:?}"),
    }
    match value("(1.0, 2.5, 3.0)") {
        Some(Value::Tuple(v)) => assert_eq!(v.len(), 3),
        other => panic!("unexpected: {other:?}"),
    }
    match value(r#"Point { x: "a", y: true }"#) {
        Some(Value::Struct(p, fs)) => {
            assert_eq!(p, vec!["Point"]);
            assert_eq!(fs.len(), 2);
            assert_eq!(fs[1].name, "y");
        }
        other => panic!("unexpected: {other:?}"),
    }
    assert!(matches!(value("1 + 2"), Some(Value::Opaque(ref t)) if t == "1 + 2"));
    assert!(value("").is_none());
    assert!(matches!(value(r#"Point { x }"#), Some(Value::Opaque(ref t)) if t == "Point {x}"));
}

const DEEP_MENU: &str = r#"LabelPart {
    spec: "picky",
    text: None,
    numeric: true,
    menu: Some(&[
        Menu::Entry { label: "hello", value: "world" },
        Menu::Submenu { label: "nesting", content: &[
            Menu::Submenu { label: "deeper 1", content: &[
                Menu::Entry { label: "deep 1", value: "deep val 1" },
            ] },
        ] },
        Menu::Submenu { label: "more stuff", content: &[
            Menu::Entry { label: "thing", value: "some stuff" },
        ] },
    ]),
    readonly: true,
}"#;

#[test]
fn nested_menu_round_trips_to_text() {
    let v = value(DEEP_MENU).unwrap();
    let part = parse_label_part(&v).unwrap();
    assert_eq!(part.spec, "picky");
    assert!(part.readonly);
    let menu = part.menu.unwrap();
    assert_eq!(
        format_menu(&menu),
        r#"{"hello": "world","nesting": {"deeper 1": {"deep 1": "deep val 1",},},"more stuff": {"thing": "some stuff",},}"#
    );
}

#[test]
fn format_menu_quotes_and_escapes() {
    let menu = vec![
        Menu::Entry { label: "a \"q\"".to_string(), value: "b".to_string() },
        Menu::Submenu { label: "s".to_string(), content: vec![] },
    ];
    assert_eq!(format_menu(&menu), r#"{"a \"q\"": "b","s": {},}"#);
    assert_eq!(format_menu(&vec![]), "{}");
}

#[test]
fn malformed_menu_node_is_refused() {
    let v = value(r#"Menu::Other { label: "x" }"#).unwrap();
    assert!(parse_menu(&v).is_err());
    let v = value(r#"Menu::Submenu { label: "x" }"#).unwrap();
    assert!(parse_menu(&v).is_err());
}

#[test]
fn placeholder_tokens_in_order() {
    assert_eq!(placeholders("Repeat %text for %times times").unwrap(), vec!["text", "times"]);
    assert_eq!(placeholders("add numbers %mult%num").unwrap(), vec!["num"]);
    assert_eq!(placeholders("%multiple").unwrap(), vec!["multiple"]);
    assert!(placeholders("no tokens, 100%").unwrap().is_empty());
}

#[test]
fn result_shapes() {
    let cases = [
        ("", ReturnShape::Unit),
        ("()", ReturnShape::Unit),
        ("bool", ReturnShape::Bool),
        ("Result<(), E>", ReturnShape::FallibleUnit),
        ("Result<bool, E>", ReturnShape::FallibleBool),
        ("Result<f64, E>", ReturnShape::Other),
        ("String", ReturnShape::Other),
        ("&bool", ReturnShape::Other),
    ];
    for (text, shape) in cases {
        let toks = tokenize(text).unwrap();
        assert_eq!(return_shape(&toks, 0, toks.len()), shape, "{text}");
    }
}

#[test]
fn explicit_type_wins_over_inference() {
    assert_eq!(BlockType::infer(ReturnShape::Unit), BlockType::Command);
    assert_eq!(BlockType::infer(ReturnShape::FallibleBool), BlockType::Predicate);
    assert_eq!(BlockType::infer(ReturnShape::Other), BlockType::Reporter);
    assert_eq!(BlockType::resolve(Some(BlockType::Hat), ReturnShape::Bool), BlockType::Hat);
    assert_eq!(BlockType::resolve(None, ReturnShape::Bool), BlockType::Predicate);
    assert_eq!(BlockType::Terminator.host_name(), "command");
    assert_eq!(BlockType::Predicate.host_name(), "predicate");
}

#[test]
fn json_escaping_of_names() {
    assert_eq!(json_escaped("plain").unwrap(), "plain");
    assert_eq!(json_escaped("a\"b\\c").unwrap(), "a\\\"b\\\\c");
    assert_eq!(json_escaped("tab\there\u{1}\u{1f}").unwrap(), "tab\\there\\u0001\\u001f");
}

#[test]
fn replacing_every_occurrence() {
    assert_eq!(replace_all("a $X b $X", "$X", "1"), "a 1 b 1");
    assert_eq!(replace_all("My Ext Name", " ", ""), "MyExtName");
    assert_eq!(replace_all("aaa", "aa", "b"), "ba");
    assert_eq!(replace_all("none", "$X", "1"), "none");
}

#[test]
fn values_print_in_their_grammar() {
    let v = value(r#"Menu::Submenu { label: "a\"b", content: &[Some(1.5), None, (true, x)] }"#).unwrap();
    assert_eq!(value_string(&v), r#"Menu::Submenu { label: "a\"b", content: &[Some(1.5), None, (true, x)] }"#);
}
