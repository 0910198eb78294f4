use surreal_agents::json::{bool_to_text, sorted_member_order};
use surreal_agents::sorting::sort_order;
use surreal_agents::text::chars_of;
use surreal_agents::{JsonNumber, JsonValue};

fn text(s: &str) -> JsonValue {
    JsonValue::String(s.to_string())
}

fn keys(names: &[&str]) -> Vec<Vec<char>> {
    names.iter().map(|name| chars_of(name)).collect()
}

#[test]
fn sort_order_lists_positions_by_key() {
    assert_eq!(sort_order(&keys(&["tags", "active"])), vec![1, 0]);
    assert_eq!(sort_order(&keys(&["name", "id"])), vec![1, 0]);
    assert_eq!(sort_order(&keys(&["c", "a", "d", "b"])), vec![1, 3, 0, 2]);
    assert_eq!(sort_order(&keys(&[])), Vec::<usize>::new());
    assert_eq!(sort_order(&keys(&["one"])), vec![0]);
}

#[test]
fn sort_order_keeps_sorted_keys_in_place() {
    assert_eq!(sort_order(&keys(&["a", "b", "c", "d"])), vec![0, 1, 2, 3]);
}

#[test]
fn sort_order_keeps_equal_keys_in_place() {
    assert_eq!(sort_order(&keys(&["b", "a", "b", "a"])), vec![1, 3, 0, 2]);
}

#[test]
fn sort_order_is_a_sorting_permutation() {
    let names = ["pear", "fig", "apple", "fig", "kiwi", "", "Apple", "\u{e9}clair"];
    let order = sort_order(&keys(&names));
    let mut seen = order.clone();
    seen.sort();
    assert_eq!(seen, (0..names.len()).collect::<Vec<usize>>());
    for pair in order.windows(2) {
        assert!(names[pair[0]] <= names[pair[1]]);
        if names[pair[0]] == names[pair[1]] {
            assert!(pair[0] < pair[1]);
        }
    }
}

#[test]
fn sorted_member_order_goes_by_name() {
    let members = vec![
        ("tags".to_string(), JsonValue::Null),
        ("active".to_string(), JsonValue::Null),
        ("id".to_string(), JsonValue::Null),
    ];
    assert_eq!(sorted_member_order(&members), vec![1, 2, 0]);
}

#[test]
fn get_finds_a_member_of_an_object() {
    let value = JsonValue::Object(vec![
        ("id".to_string(), JsonValue::Number(JsonNumber::PosInt(2))),
        ("name".to_string(), text("Bob")),
    ]);
    assert_eq!(value.get("name"), Some(&text("Bob")));
    assert_eq!(value.get("id"), Some(&JsonValue::Number(JsonNumber::PosInt(2))));
    assert_eq!(value.get("age"), None);
    assert_eq!(value.get(""), None);
}

#[test]
fn get_takes_the_first_of_equal_names() {
    let value = JsonValue::Object(vec![
        ("k".to_string(), text("first")),
        ("k".to_string(), text("second")),
    ]);
    assert_eq!(value.get("k"), Some(&text("first")));
}

#[test]
fn get_finds_nothing_in_other_values() {
    assert_eq!(JsonValue::Null.get("a"), None);
    assert_eq!(text("a").get("a"), None);
    assert_eq!(JsonValue::Array(vec![text("a")]).get("a"), None);
    assert_eq!(JsonValue::Bool(true).get("a"), None);
}

#[test]
fn get_member_searches_a_list_of_members() {
    let members = vec![("kind".to_string(), text("array")), ("items".to_string(), text("int"))];
    assert_eq!(JsonValue::get_member(&members, "items"), Some(&text("int")));
    assert_eq!(JsonValue::get_member(&members, "other"), None);
}

#[test]
fn numbers_are_written_as_text() {
    assert_eq!(JsonNumber::PosInt(42).to_text(), "42");
    assert_eq!(JsonNumber::PosInt(0).to_text(), "0");
    assert_eq!(JsonNumber::NegInt(-7).to_text(), "-7");
    assert_eq!(JsonNumber::Float("1.5".to_string()).to_text(), "1.5");
    assert_eq!(JsonNumber::Float("1e100".to_string()).to_text(), "1e100");
}

#[test]
fn truth_values_are_written_as_text() {
    assert_eq!(bool_to_text(true), "true");
    assert_eq!(bool_to_text(false), "false");
}
