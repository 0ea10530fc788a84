use block_core::block_type::{BlockType, ParseError};
use block_core::env::{Env, InputState, MapState, Value};
use block_core::grammar::{parse_multiline, parse_pair, Fragment};
use block_core::variables::{find_variables, replace_variables_in_string, ResolveError};

fn from_json(v: &serde_json::Value) -> Value {
    match v {
        serde_json::Value::Null => Value::Null,
        serde_json::Value::Bool(b) => Value::Bool(*b),
        serde_json::Value::Number(n) => Value::Number(n.to_string()),
        serde_json::Value::String(s) => Value::Str(s.clone()),
        serde_json::Value::Array(a) => Value::Array(a.iter().map(from_json).collect()),
        serde_json::Value::Object(m) => {
            Value::Object(m.iter().map(|(k, v)| (k.clone(), from_json(v))).collect())
        }
    }
}

fn env_with_state(json: &str) -> Env {
    let state: serde_json::Map<String, serde_json::Value> = serde_json::from_str(json).unwrap();
    Env {
        state: state.iter().map(|(k, v)| (k.clone(), from_json(v))).collect(),
        input: InputState {
            value: Some(from_json(&serde_json::from_str(r#"{"question":"Who is it?"}"#).unwrap())),
            index: 0,
        },
        map: None,
    }
}

fn pairs(v: &[(&str, &str)]) -> Vec<(String, String)> {
    v.iter().map(|(a, b)| (a.to_string(), b.to_string())).collect()
}

#[test]
fn find_variables_test() {
    assert_eq!(
        find_variables("QUESTION: ${RETRIEVE.question}\nANSWER: ${DATA.answer}"),
        vec![
            ("RETRIEVE".to_string(), "question".to_string()),
            ("DATA".to_string(), "answer".to_string()),
        ]
    );
}

#[test]
fn replace_variables_in_string_test() {
    let env = env_with_state(
        r#"{"RETRIEVE":{"question":"What is your name?"},"DATA":{"answer":"John"}}"#,
    );
    assert_eq!(
        replace_variables_in_string(
            r#"QUESTION: ${RETRIEVE.question} ANSWER: ${DATA.answer}"#,
            "foo",
            &env
        )
        .ok()
        .unwrap(),
        r#"QUESTION: What is your name? ANSWER: John"#.to_string()
    );
}

const ALL_KINDS: [BlockType; 9] = [
    BlockType::Input,
    BlockType::Data,
    BlockType::Code,
    BlockType::LLM,
    BlockType::MapBlock,
    BlockType::Reduce,
    BlockType::Search,
    BlockType::Curl,
    BlockType::Browser,
];

#[test]
fn block_type_identifiers_round_trip() {
    let names = ["input", "data", "code", "llm", "map", "reduce", "search", "curl", "browser"];
    for (k, n) in ALL_KINDS.iter().zip(names.iter()) {
        assert_eq!(k.to_string(), n.to_string());
        assert_eq!(BlockType::from_str(&k.to_string()), Ok(*k));
    }
}

#[test]
fn block_type_unknown_identifier_fails() {
    assert_eq!(BlockType::from_str("foo"), Err(ParseError::UnknownBlockType));
    assert_eq!(BlockType::from_str(""), Err(ParseError::UnknownBlockType));
    assert_eq!(BlockType::from_str("Input"), Err(ParseError::UnknownBlockType));
    assert_eq!(BlockType::from_str("inputs"), Err(ParseError::UnknownBlockType));
}

#[test]
fn find_variables_in_order() {
    assert_eq!(find_variables("A: ${X.y} B: ${Z.w}"), pairs(&[("X", "y"), ("Z", "w")]));
}

#[test]
fn find_variables_none() {
    assert!(find_variables("no references here").is_empty());
    assert!(find_variables("").is_empty());
    assert!(find_variables("${lower.key} ${A.} ${.k} $A.k} ${A-B.k}").is_empty());
}

#[test]
fn find_variables_dotted_key_and_duplicates() {
    assert_eq!(
        find_variables("${A_1.x.y_Z} and ${A_1.x.y_Z}"),
        pairs(&[("A_1", "x.y_Z"), ("A_1", "x.y_Z")])
    );
}

#[test]
fn find_variables_restarts_after_failed_start() {
    assert_eq!(find_variables("$${A.b}}"), pairs(&[("A", "b")]));
    assert_eq!(find_variables("${A.${B.c}"), pairs(&[("B", "c")]));
}

#[test]
fn replace_all_occurrences() {
    let env = env_with_state(r#"{"A":{"x":"1"}}"#);
    assert_eq!(
        replace_variables_in_string("${A.x}+${A.x}=2", "f", &env).ok().unwrap(),
        "1+1=2".to_string()
    );
}

#[test]
fn replace_without_references_is_identity() {
    let env = env_with_state(r#"{}"#);
    assert_eq!(
        replace_variables_in_string("plain text", "f", &env).ok().unwrap(),
        "plain text".to_string()
    );
}

#[test]
fn replace_is_idempotent_on_its_result() {
    let env = env_with_state(
        r#"{"RETRIEVE":{"question":"What is your name?"},"DATA":{"answer":"John"}}"#,
    );
    let once = replace_variables_in_string("Q: ${RETRIEVE.question} A: ${DATA.answer}", "f", &env)
        .ok()
        .unwrap();
    let twice = replace_variables_in_string(&once, "f", &env).ok().unwrap();
    assert_eq!(once, twice);
}

#[test]
fn replace_missing_block_fails() {
    let env = env_with_state(r#"{"A":{"x":"1"}}"#);
    match replace_variables_in_string("${B.x}", "f", &env) {
        Err(ResolveError::OutputNotFound { name }) => assert_eq!(name, "B"),
        _ => panic!("expected a missing output"),
    }
}

#[test]
fn replace_non_object_output_fails() {
    let env = env_with_state(r#"{"A":"text"}"#);
    match replace_variables_in_string("${A.x}", "prompt", &env) {
        Err(ResolveError::NotAnObject { name, field }) => {
            assert_eq!(name, "A");
            assert_eq!(field, "prompt");
        }
        _ => panic!("expected a non-object output"),
    }
}

#[test]
fn replace_missing_key_fails() {
    let env = env_with_state(r#"{"A":{"y":"1"}}"#);
    match replace_variables_in_string("${A.x}", "f", &env) {
        Err(ResolveError::KeyNotPresent { name, key }) => {
            assert_eq!(name, "A");
            assert_eq!(key, "x");
        }
        _ => panic!("expected a missing key"),
    }
}

#[test]
fn replace_non_string_value_fails() {
    for v in ["1", "true", "[\"a\"]", "null", "{\"b\":\"c\"}"] {
        let env = env_with_state(&format!(r#"{{"A":{{"x":{}}}}}"#, v));
        match replace_variables_in_string("${A.x}", "f", &env) {
            Err(ResolveError::NotAString { name, key }) => {
                assert_eq!(name, "A");
                assert_eq!(key, "x");
            }
            _ => panic!("expected a non-string value"),
        }
    }
}

#[test]
fn replace_fails_on_first_broken_reference() {
    let env = env_with_state(r#"{"A":{"x":"1"}}"#);
    match replace_variables_in_string("${A.y} ${B.x}", "f", &env) {
        Err(ResolveError::KeyNotPresent { name, key }) => {
            assert_eq!(name, "A");
            assert_eq!(key, "y");
        }
        _ => panic!("expected the first reference to fail"),
    }
}

#[test]
fn multiline_value_is_extracted() {
    assert_eq!(
        parse_multiline("```\nhello\nworld\n```").ok().unwrap(),
        "hello\nworld\n".to_string()
    );
    assert_eq!(parse_multiline("```\n```").ok().unwrap(), "".to_string());
}

#[test]
fn multiline_without_final_newline_fails() {
    assert_eq!(parse_multiline("```\nhello\nworld```"), Err(ParseError::MalformedMultiline));
    assert_eq!(parse_multiline("```"), Err(ParseError::MalformedMultiline));
}

#[test]
fn parse_pair_with_string_and_multiline() {
    let r = parse_pair(&vec![
        Fragment::Key("prompt".to_string()),
        Fragment::Text("hi there".to_string()),
    ]);
    assert_eq!(r, Ok(("prompt".to_string(), "hi there".to_string())));
    let r = parse_pair(&vec![
        Fragment::Key("code".to_string()),
        Fragment::Multiline("```\nlet a = 1;\n```".to_string()),
    ]);
    assert_eq!(r, Ok(("code".to_string(), "let a = 1;\n".to_string())));
}

#[test]
fn parse_pair_errors() {
    let r = parse_pair(&vec![
        Fragment::Key("code".to_string()),
        Fragment::Multiline("```\nlet a = 1;```".to_string()),
    ]);
    assert_eq!(r, Err(ParseError::MalformedMultiline));
    let r = parse_pair(&vec![Fragment::Text("v".to_string())]);
    assert_eq!(r, Err(ParseError::MissingKey));
    let r = parse_pair(&vec![Fragment::Key("k".to_string())]);
    assert_eq!(r, Err(ParseError::MissingValue));
}

#[test]
fn env_state_lookup() {
    let mut env = env_with_state(r#"{"A":{"x":"1"}}"#);
    env.map = Some(MapState { name: "LOOP".to_string(), iteration: 2 });
    assert!(env.state_get(&"A".to_string()).is_some());
    assert!(env.state_get(&"B".to_string()).is_none());
    assert_eq!(env.map.as_ref().unwrap().iteration, 2);
    assert_eq!(env.input.index, 0);
}
