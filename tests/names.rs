use so::{name_less, ChannelName, NameMap, Shell};

#[test]
fn order_is_lexicographic() {
    assert!(name_less("a", "b"));
    assert!(!name_less("b", "a"));
    assert!(name_less("ab", "abc"));
    assert!(!name_less("abc", "ab"));
    assert!(!name_less("same", "same"));
    assert!(name_less("", "a"));
    assert!(name_less("Z", "a"));
    assert!(name_less("a", "é"));
}

#[test]
fn map_insert_replaces_and_sorts() {
    let mut m = NameMap::new();
    m.insert(ChannelName::from_text("b"), "2".to_string());
    m.insert(ChannelName::from_text("a"), "1".to_string());
    m.insert(ChannelName::from_text("c"), "3".to_string());
    m.insert(ChannelName::from_text("b"), "22".to_string());
    assert_eq!(m.len(), 3);
    let names: Vec<String> = m.names_vec().iter().map(|n| n.to_text()).collect();
    assert_eq!(names, vec!["a", "b", "c"]);
    assert_eq!(m.get(&ChannelName::from_text("b")), Some("22".to_string()));
    assert!(m.contains_key(&ChannelName::from_text("c")));
    assert!(!m.contains_key(&ChannelName::from_text("d")));
    assert_eq!(m.value_at(0), "1");
    assert_eq!(m.name_at(2).as_str(), "c");
}

#[test]
fn from_pairs_keeps_last_duplicate() {
    let m = NameMap::from_pairs(vec![
        ("x".to_string(), "1".to_string()),
        ("x".to_string(), "2".to_string()),
    ]);
    assert_eq!(m.len(), 1);
    assert_eq!(m.get(&ChannelName::from_text("x")), Some("2".to_string()));
}

#[test]
fn shell_names() {
    assert_eq!(Shell::from_name("fish"), Some(Shell::Fish));
    assert_eq!(Shell::from_name("bash"), None);
    assert_eq!(Shell::from_name("Fish"), None);
    assert_eq!(Shell::Fish.name(), "fish");
}
