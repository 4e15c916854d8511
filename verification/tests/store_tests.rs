use kvhooks::Store;

#[test]
fn empty_store_misses() {
    let store = Store::new();
    assert_eq!(store.get("anything"), None);
    assert_eq!(store.get_with_fallback("anything"), None);
}

#[test]
fn insert_then_get() {
    let mut store = Store::new();
    store.insert("k", String::from("v"));
    assert_eq!(store.get("k"), Some(String::from("v")));
    assert_eq!(store.get("other"), None);
}

#[test]
fn last_write_wins() {
    let mut store = Store::new();
    store.insert("k", String::from("first"));
    store.insert("k", String::from("second"));
    assert_eq!(store.get("k"), Some(String::from("second")));
}

#[test]
fn identifier_fallback_hits_underscored_key() {
    let mut store = Store::new();
    store.insert("id_x", String::from("52998224725"));
    assert_eq!(
        store.get_with_fallback("idx"),
        Some((String::from("id_x"), String::from("52998224725")))
    );
}

#[test]
fn direct_hit_wins_over_fallback() {
    let mut store = Store::new();
    store.insert("id_x", String::from("under"));
    store.insert("idx", String::from("plain"));
    assert_eq!(
        store.get_with_fallback("idx"),
        Some((String::from("idx"), String::from("plain")))
    );
}

#[test]
fn no_fallback_outside_identifier_class() {
    let mut store = Store::new();
    store.insert("foo_a", String::from("v"));
    assert_eq!(store.get_with_fallback("fooa"), None);
    store.insert("date_b", String::from("1990-02-14"));
    assert_eq!(store.get_with_fallback("dateb"), None);
}

#[test]
fn fallback_misses_when_alternate_absent() {
    let mut store = Store::new();
    store.insert("id_x", String::from("v"));
    assert_eq!(store.get_with_fallback("idy"), None);
}
