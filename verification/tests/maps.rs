use treeline::string_map::StringMap;

fn text(s: &str) -> String {
    s.to_string()
}

#[test]
fn an_empty_map_holds_nothing() {
    let m = StringMap::new();
    assert!(m.get("simplefin").is_none());
    assert!(!m.contains_key("simplefin"));
    assert!(m.to_pairs().is_empty());
}

#[test]
fn what_is_inserted_is_found() {
    let mut m = StringMap::new();
    m.insert(text("simplefin"), text("acc-1"));
    m.insert(text("fingerprint"), text("0123456789abcdef"));
    assert_eq!(m.get("simplefin"), Some(&text("acc-1")));
    assert_eq!(m.get("fingerprint"), Some(&text("0123456789abcdef")));
    assert!(m.get("other").is_none());
    assert!(m.contains_key("simplefin"));
}

#[test]
fn a_name_has_one_entry() {
    let mut m = StringMap::new();
    m.insert(text("k"), text("first"));
    m.insert(text("k"), text("second"));
    assert_eq!(m.get("k"), Some(&text("second")));
    assert_eq!(m.to_pairs(), vec![(text("k"), text("second"))]);
}

#[test]
fn what_is_removed_is_gone() {
    let mut m = StringMap::new();
    m.insert(text("a"), text("1"));
    m.insert(text("b"), text("2"));
    m.insert(text("c"), text("3"));
    m.remove("b");
    assert!(m.get("b").is_none());
    assert_eq!(m.get("a"), Some(&text("1")));
    assert_eq!(m.get("c"), Some(&text("3")));
    m.remove("missing");
    assert_eq!(m.to_pairs(), vec![(text("a"), text("1")), (text("c"), text("3"))]);
}

#[test]
fn pairs_make_a_map_and_back() {
    let pairs = vec![(text("a"), text("1")), (text("b"), text("2"))];
    let m = StringMap::from_pairs(pairs.clone());
    assert_eq!(m.to_pairs(), pairs);
    let doubled = StringMap::from_pairs(vec![(text("a"), text("1")), (text("a"), text("9"))]);
    assert_eq!(doubled.to_pairs(), vec![(text("a"), text("9"))]);
}

#[test]
fn a_copy_is_independent() {
    let mut m = StringMap::new();
    m.insert(text("a"), text("1"));
    let copy = m.clone();
    let second = m.duplicate();
    m.insert(text("a"), text("2"));
    assert_eq!(copy.get("a"), Some(&text("1")));
    assert_eq!(second.get("a"), Some(&text("1")));
    assert_eq!(m.get("a"), Some(&text("2")));
}
