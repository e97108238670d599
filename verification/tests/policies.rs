use abe_server::policy_text::{read_policy, Visited, MAX_HEIGHT};

fn rendered(text: &str) -> Option<String> {
    read_policy(text, &vec![]).map(|reading| reading.text)
}

fn reads(text: &str, policy: &str) {
    assert_eq!(rendered(text), Some(policy.to_string()));
    assert_eq!(rendered(policy), Some(policy.to_string()));
}

fn visits(text: &str, held: &[&str]) -> (bool, Visited) {
    let held = held.iter().map(|name| name.to_string()).collect();
    let reading = read_policy(text, &held).unwrap();
    (reading.met, reading.visited)
}

fn found(names: &[&str]) -> (bool, Visited) {
    (true, Visited::Found(names.iter().map(|name| name.to_string()).collect()))
}

fn nested(depth: usize) -> String {
    let mut text = r#"{"ATT": "a"}"#.to_string();
    for _ in 1..depth {
        text = format!("{{\"AND\": [{}]}}", text);
    }
    text
}

#[test]
fn attributes_are_read_in_both_forms() {
    reads(r#"{"ATT": "attribute_1"}"#, r#"{"name": "attribute_1"}"#);
    reads(r#" { "ATT" : "a" } "#, r#"{"name": "a"}"#);
    reads(r#"{"name": "and"}"#, r#"{"name": "and"}"#);
    reads(r#"{"ATT": ""}"#, r#"{"name": ""}"#);
    reads(r#"{"ATT": "a\"b\\\u00E9"}"#, r#"{"name": "a\"b\\\u00E9"}"#);
}

#[test]
fn conjunctions_and_disjunctions_are_read_in_both_forms() {
    let and = r#"{"name": "and", "children": [{"name": "a"}, {"name": "b"}]}"#;
    reads(r#"{"AND": [{"ATT": "a"}, {"ATT": "b"}]}"#, and);
    reads(r#"{"AND":[{"ATT":"a"},{"ATT":"b"}]}"#, and);
    reads(r#"{"name": "and", "children": [{"ATT": "a"}, {"name": "b"}]}"#, and);
    reads(
        r#"{"OR": [{"AND": [{"ATT": "a"}, {"ATT": "b"}]}, {"ATT": "c"}]}"#,
        r#"{"name": "or", "children": [{"name": "and", "children": [{"name": "a"}, {"name": "b"}]}, {"name": "c"}]}"#,
    );
    reads(r#"{"AND": [{"ATT": "a"}]}"#, r#"{"name": "and", "children": [{"name": "a"}]}"#);
    reads(r#"{"OR": []}"#, r#"{"name": "or", "children": []}"#);
}

#[test]
fn other_texts_are_no_policies() {
    let texts = [
        "",
        "a",
        "{}",
        "[]",
        r#"{"ATT": 5}"#,
        r#"{"ATT": "a"} x"#,
        r#"{"ATT": "a}"#,
        r#"{"ATT": "a\xb"}"#,
        r#"{"ATT": "a\u12g4"}"#,
        r#"{"ATT": "a\"}"#,
        r#"{"AND": {"ATT": "a"}}"#,
        r#"{"AND": [{"ATT": "a"},]}"#,
        r#"{"AND": [{"ATT": "a"} {"ATT": "b"}]}"#,
        r#"{"NOT": [{"ATT": "a"}]}"#,
        r#"{"name": "nand", "children": [{"name": "a"}]}"#,
    ];
    for text in texts {
        assert_eq!(rendered(text), None, "{}", text);
    }
}

#[test]
fn policies_are_nested_to_a_limit() {
    assert!(rendered(&nested(MAX_HEIGHT)).is_some());
    assert!(rendered(&nested(MAX_HEIGHT + 1)).is_none());
}

#[test]
fn attributes_are_found_from_left_to_right() {
    let or = r#"{"OR": [{"ATT": "a"}, {"ATT": "b"}]}"#;
    assert_eq!(visits(or, &["b", "a"]), found(&["a"]));
    assert_eq!(visits(or, &["b"]), found(&["b"]));
    assert_eq!(visits(or, &["c"]), (false, Visited::Missing));
    assert_eq!(visits(or, &[]), (false, Visited::Missing));
    let and = r#"{"AND": [{"ATT": "a"}, {"OR": [{"ATT": "x"}, {"ATT": "b"}]}]}"#;
    assert_eq!(visits(and, &["b", "a"]), found(&["a", "b"]));
    assert_eq!(visits(and, &["b"]), (false, Visited::Missing));
    assert_eq!(visits(r#"{"ATT": "a"}"#, &["a"]), found(&["a"]));
}

#[test]
fn narrow_parts_are_where_the_search_gets_stuck() {
    assert_eq!(visits(r#"{"AND": [{"ATT": "a"}]}"#, &["a"]), (true, Visited::Stuck));
    assert_eq!(visits(r#"{"AND": []}"#, &["a"]), (true, Visited::Stuck));
    assert_eq!(visits(r#"{"AND": []}"#, &[]), (false, Visited::Stuck));
    assert_eq!(visits(r#"{"OR": [{"ATT": "a"}]}"#, &["b"]), (false, Visited::Stuck));
    let later = r#"{"OR": [{"ATT": "a"}, {"OR": [{"ATT": "b"}]}]}"#;
    assert_eq!(visits(later, &["a"]), found(&["a"]));
    assert_eq!(visits(later, &["b"]), (true, Visited::Stuck));
    let beside = r#"{"AND": [{"ATT": "a"}, {"OR": [{"ATT": "b"}]}]}"#;
    assert_eq!(visits(beside, &["b"]), (false, Visited::Stuck));
}
