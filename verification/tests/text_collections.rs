use argus_workflow::equiv::contains_text;
use argus_workflow::graph::{Edge, reachable_from};
use argus_workflow::json::{Json, JsonMember, find_member, get_field, has_field, json_eq, text_eq};
use argus_workflow::order::text_less;
use argus_workflow::text::{is_hex_digest_text, is_normalized_text, text_ends_with};
use argus_workflow::textset::{set_contains, set_index, set_insert, sorted_positions};

fn edge(from: &str, to: &str) -> Edge {
    Edge { from: from.to_owned(), to: to.to_owned() }
}

fn texts(items: &[&str]) -> Vec<String> {
    items.iter().map(|s| (*s).to_owned()).collect()
}

#[test]
fn normalized_texts_have_no_surrounding_whitespace() {
    assert!(is_normalized_text("a b"));
    assert!(!is_normalized_text(""));
    assert!(!is_normalized_text(" a"));
    assert!(!is_normalized_text("a\n"));
    assert!(is_hex_digest_text(&"aF".repeat(32)));
    assert!(!is_hex_digest_text(&"a".repeat(63)));
    assert!(!is_hex_digest_text(&"g".repeat(64)));
    assert!(text_ends_with("rust:depends_on", "depends_on"));
    assert!(!text_ends_with("on", "depends_on"));
}

#[test]
fn texts_order_by_code_point() {
    assert!(text_less("B", "a"));
    assert!(text_less("ab", "abc"));
    assert!(!text_less("abc", "abc"));
    assert!(!text_less("b", "abc"));
}

#[test]
fn text_sets_stay_sorted_and_free_of_repeats() {
    let mut set = Vec::new();
    assert!(set_insert(&mut set, "m"));
    assert!(set_insert(&mut set, "a"));
    assert!(set_insert(&mut set, "z"));
    assert!(!set_insert(&mut set, "m"));
    assert_eq!(set, texts(&["a", "m", "z"]));
    assert!(set_contains(&set, "z"));
    assert!(!set_contains(&set, "b"));
    assert_eq!(set_index(&set, "m"), Some(1));
    assert_eq!(sorted_positions(&texts(&["c", "a", "b"])), Some(vec![1, 2, 0]));
    assert_eq!(sorted_positions(&texts(&["c", "a", "c"])), None);
    assert!(contains_text(&texts(&["x", "y"]), "y"));
}

#[test]
fn reachability_follows_edges_and_includes_the_root() {
    let edges = vec![edge("a", "b"), edge("b", "c"), edge("c", "a"), edge("d", "a")];
    assert_eq!(reachable_from("a", &edges), texts(&["a", "b", "c"]));
    assert_eq!(reachable_from("d", &edges), texts(&["a", "b", "c", "d"]));
    assert_eq!(reachable_from("lonely", &edges), texts(&["lonely"]));
}

#[test]
fn json_fields_are_found_by_first_key_and_compared_structurally() {
    let members = vec![
        JsonMember { key: "a".to_owned(), value: Json::UInt(1) },
        JsonMember { key: "b".to_owned(), value: Json::Str("x".to_owned()) },
    ];
    let value = Json::Object(members);
    assert_eq!(get_field(&value, "b"), Some(&Json::Str("x".to_owned())));
    assert!(has_field(&value, "a"));
    assert!(!has_field(&Json::Null, "a"));
    if let Json::Object(m) = &value {
        assert_eq!(find_member(m, "b"), Some(1));
        assert_eq!(find_member(m, "c"), None);
    }
    assert!(json_eq(&value, &value.deep_clone()));
    assert!(!json_eq(&Json::UInt(1), &Json::NegInt(-1)));
    assert!(text_eq("same", "same"));
}
