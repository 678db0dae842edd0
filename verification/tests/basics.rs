use broadlink_remote::sort::sort_indices;
use broadlink_remote::str_map::{StrMap, StrSet};
use broadlink_remote::text::{join_path, str_eq, str_lt, u16_to_decimal};

#[test]
fn str_lt_orders_like_string_cmp() {
    assert!(str_lt("a", "b"));
    assert!(!str_lt("b", "a"));
    assert!(str_lt("ab", "abc"));
    assert!(!str_lt("abc", "ab"));
    assert!(!str_lt("same", "same"));
    assert!(str_lt("", "x"));
    assert!(str_lt("Z", "a"));
    assert_eq!(str_lt("Zebra", "apple"), "Zebra".to_string() < "apple".to_string());
}

#[test]
fn str_eq_compares_characters() {
    assert!(str_eq("tv", "tv"));
    assert!(!str_eq("tv", "tV"));
    assert!(!str_eq("tv", "tv "));
}

#[test]
fn join_path_uses_dots_below_the_top() {
    assert_eq!(join_path("", "power"), "power");
    assert_eq!(join_path("power", "on"), "power.on");
    assert_eq!(join_path("a.b", "c"), "a.b.c");
}

#[test]
fn decimal_rendering_matches_to_string() {
    assert_eq!(u16_to_decimal(0), "0");
    assert_eq!(u16_to_decimal(7), "7");
    assert_eq!(u16_to_decimal(10), "10");
    assert_eq!(u16_to_decimal(6676), "6676");
    assert_eq!(u16_to_decimal(65535), "65535");
}

#[test]
fn sort_indices_is_stable_and_sorted() {
    let keys = vec!["b".to_string(), "a".to_string(), "c".to_string(), "a".to_string()];
    assert_eq!(sort_indices(&keys), vec![1, 3, 0, 2]);
    let empty: Vec<String> = Vec::new();
    assert_eq!(sort_indices(&empty), Vec::<usize>::new());
}

#[test]
fn str_map_insert_get_remove() {
    let mut m: StrMap<u32> = StrMap::new();
    assert_eq!(m.get("a"), None);
    m.insert("a".to_string(), 1);
    m.insert("b".to_string(), 2);
    assert_eq!(m.get("a"), Some(&1));
    assert_eq!(m.get("b"), Some(&2));
    m.insert("a".to_string(), 3);
    assert_eq!(m.get("a"), Some(&3));
    assert_eq!(m.len(), 2);
    assert!(m.contains_key("b"));
    m.remove("b");
    assert!(!m.contains_key("b"));
    assert_eq!(m.len(), 1);
    m.remove("missing");
    assert_eq!(m.len(), 1);
}

#[test]
fn str_set_membership() {
    let mut s = StrSet::new();
    assert!(!s.contains("Living Room"));
    s.insert("Living Room".to_string());
    s.insert("Living Room".to_string());
    assert!(s.contains("Living Room"));
    assert_eq!(s.to_vec(), vec!["Living Room".to_string()]);
    s.remove("Living Room");
    assert!(!s.contains("Living Room"));
    assert!(s.to_vec().is_empty());
}
