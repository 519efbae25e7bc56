use robotlb::error::RobotLBError;
use robotlb::label_filter::{LabelFilter, Rule};
use robotlb::string_map::StringMap;
use robotlb::text::{join, place, same, split, Place};

fn map(entries: &[(&str, &str)]) -> StringMap {
    let mut map = StringMap::new();
    for (key, value) in entries {
        map.insert((*key).to_string(), (*value).to_string());
    }
    map
}

fn holds(filter: &str, labels: &[(&str, &str)]) -> bool {
    match LabelFilter::from_str(filter) {
        Ok(filter) => filter.check(&map(labels)),
        Err(e) => panic!("{filter} was refused: {e:?}"),
    }
}

fn refused_rule(filter: &str) -> Option<String> {
    match LabelFilter::from_str(filter) {
        Ok(_) => None,
        Err(RobotLBError::InvalidNodeFilter(rule)) => Some(rule),
        Err(e) => panic!("{e:?}"),
    }
}

#[test]
fn strings_are_placed_as_std_orders_them() {
    let words = ["", "a", "ab", "b", "z", "\u{e9}", "\u{20ac}", "\u{1f600}", "A", "a\u{e9}", "aa"];
    for a in words {
        for b in words {
            let expected = if a < b {
                Place::Before
            } else if a == b {
                Place::Same
            } else {
                Place::After
            };
            assert_eq!(place(a, b), expected);
            assert_eq!(same(a, b), a == b);
        }
    }
}

#[test]
fn text_is_split_at_each_separator() {
    assert_eq!(split("", ','), vec![""]);
    assert_eq!(split("a", ','), vec!["a"]);
    assert_eq!(split("a,b,,c,", ','), vec!["a", "b", "", "c", ""]);
    assert_eq!(split("\u{e9}=\u{1f600}", '='), vec!["\u{e9}", "\u{1f600}"]);
}

#[test]
fn joining_split_text_gives_it_back() {
    for text in ["", ",", "a", "a,b", ",a,,b,"] {
        assert_eq!(join(&split(text, ','), ","), text);
    }
    assert_eq!(join(&vec![], ","), "");
    assert_eq!(join(&vec!["a".to_string(), "b".to_string()], ", "), "a, b");
}

#[test]
fn maps_keep_the_latest_value_of_a_key() {
    let mut labels = map(&[("b", "1"), ("a", "2"), ("c", "3")]);
    labels.insert("a".to_string(), "4".to_string());
    assert_eq!(labels.get("a").map(String::as_str), Some("4"));
    assert_eq!(labels.get("b").map(String::as_str), Some("1"));
    assert_eq!(labels.get("d"), None);
    assert!(labels.contains_key("c"));
    assert!(!labels.contains_key("d"));
    assert!(!labels.is_empty());
    assert!(StringMap::default().is_empty());
}

#[test]
fn selectors_list_the_entries_in_the_order_of_their_keys() {
    assert_eq!(
        map(&[("tier", "web"), ("app", "shop"), ("release", "7")]).label_selector(),
        "app=shop,release=7,tier=web"
    );
    assert_eq!(
        map(&[("release", "7"), ("tier", "web"), ("app", "shop")]).label_selector(),
        "app=shop,release=7,tier=web"
    );
    assert_eq!(map(&[("app", "shop")]).label_selector(), "app=shop");
    assert_eq!(map(&[]).label_selector(), "");
}

#[test]
fn filters_compare_values() {
    assert!(holds("a=1", &[("a", "1")]));
    assert!(!holds("a=1", &[("a", "2")]));
    assert!(!holds("a=1", &[]));
    assert!(holds("a=", &[("a", "")]));
    assert!(!holds("a!=1", &[("a", "1")]));
    assert!(holds("a!=1", &[("a", "2")]));
    assert!(holds("a!=1", &[]));
}

#[test]
fn filters_look_for_keys() {
    assert!(holds("a", &[("a", "1")]));
    assert!(!holds("a", &[("b", "1")]));
    assert!(holds("!a", &[("b", "1")]));
    assert!(!holds("!a", &[("a", "1")]));
}

#[test]
fn a_comma_asks_for_both_rules() {
    let filter = "zone=eu,!drain";
    assert!(holds(filter, &[("zone", "eu")]));
    assert!(!holds(filter, &[("zone", "eu"), ("drain", "")]));
    assert!(!holds(filter, &[("zone", "us")]));
}

#[test]
fn rules_are_read_in_order() {
    let filter = LabelFilter::from_str("a=1,b!=2,c,!d").unwrap();
    assert_eq!(filter.rules.len(), 4);
    assert!(matches!(&filter.rules[0], Rule::Equal(k, v) if k == "a" && v == "1"));
    assert!(matches!(&filter.rules[1], Rule::NotEqual(k, v) if k == "b" && v == "2"));
    assert!(matches!(&filter.rules[2], Rule::Exists(k) if k == "c"));
    assert!(matches!(&filter.rules[3], Rule::DoesNotExist(k) if k == "d"));
}

#[test]
fn the_first_piece_that_is_no_rule_is_named() {
    assert_eq!(refused_rule("a=1=2,b=3=4"), Some("a=1=2".to_string()));
    assert_eq!(refused_rule("a=1,=2"), Some("=2".to_string()));
    assert_eq!(refused_rule("!=2"), Some("!=2".to_string()));
    assert_eq!(refused_rule("a,!"), Some("!".to_string()));
    assert_eq!(refused_rule(""), Some(String::new()));
    assert_eq!(refused_rule("a,"), Some(String::new()));
    assert_eq!(refused_rule("a"), None);
}
