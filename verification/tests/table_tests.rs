use ipelfs::table::{Matches, PairTable};

fn table(pairs: &[(&str, &str)]) -> PairTable {
    let mut t = PairTable::new();
    for (k, v) in pairs {
        t.push(k.to_string(), v.to_string());
    }
    t
}

fn listed(t: &PairTable) -> Vec<(String, String)> {
    t.entries.iter().map(|p| (p.key.clone(), p.value.clone())).collect()
}

#[test]
fn a_new_table_is_empty() {
    let t = PairTable::new();
    assert_eq!(t.len(), 0);
    assert!(!t.contains_key("a"));
    assert!(!t.contains_value("a"));
    assert!(t.get("a").is_none());
    assert!(t.keys().is_empty());
}

#[test]
fn entries_keep_their_order() {
    let t = table(&[("b3x9q2z", "/mnt/a"), ("f7h1mno", "/mnt/b")]);
    assert_eq!(t.len(), 2);
    assert_eq!(t.keys(), vec!["b3x9q2z".to_string(), "f7h1mno".to_string()]);
    assert_eq!(t.key_at(1), "f7h1mno");
    assert_eq!(t.value_at(0), "/mnt/a");
    assert_eq!(t.get("f7h1mno").map(|s| s.as_str()), Some("/mnt/b"));
    assert_eq!(t.get("/mnt/b"), None);
}

#[test]
fn keys_and_values_are_found_at_their_first_position() {
    let t = table(&[("a", "x"), ("b", "y"), ("a", "z"), ("c", "y")]);
    assert_eq!(t.position_of_key("a"), Some(0));
    assert_eq!(t.position_of_key("c"), Some(3));
    assert_eq!(t.position_of_key("d"), None);
    assert_eq!(t.position_of_value("y"), Some(1));
    assert_eq!(t.position_of_value("z"), Some(2));
    assert_eq!(t.position_of_value("a"), None);
    assert_eq!(t.get("a").map(|s| s.as_str()), Some("x"));
    assert!(t.contains_key("b"));
    assert!(t.contains_value("z"));
    assert!(!t.contains_value("b"));
}

#[test]
fn a_search_by_value_counts_the_matches() {
    let t = table(&[("a", "x"), ("b", "y"), ("c", "x"), ("d", "x")]);
    assert!(matches!(t.search_value("y"), Matches::Single(1)));
    assert!(matches!(t.search_value("x"), Matches::Several));
    assert!(matches!(t.search_value("q"), Matches::Absent));
    let two = table(&[("a", "x"), ("b", "x")]);
    assert!(matches!(two.search_value("x"), Matches::Several));
    assert!(matches!(PairTable::new().search_value("x"), Matches::Absent));
}

#[test]
fn removal_keeps_the_other_entries_in_order() {
    let mut t = table(&[("a", "x"), ("b", "y"), ("c", "z")]);
    let gone = t.remove_at(1);
    assert_eq!(gone.key, "b");
    assert_eq!(gone.value, "y");
    assert_eq!(listed(&t), vec![("a".into(), "x".into()), ("c".into(), "z".into())]);
}

#[test]
fn a_duplicate_holds_the_same_entries() {
    let t = table(&[("a", "x"), ("b", "y")]);
    let mut copy = t.duplicate();
    assert_eq!(listed(&copy), listed(&t));
    copy.push("c".into(), "z".into());
    assert_eq!(t.len(), 2);
    assert_eq!(copy.len(), 3);
}
