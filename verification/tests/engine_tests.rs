use kvhooks::apply_add;
use kvhooks::apply_get;
use kvhooks::rules::default_on_add;
use kvhooks::rules::default_on_get;
use kvhooks::AddOutcome;
use kvhooks::Engine;
use kvhooks::GetOutcome;
use kvhooks::Store;

#[test]
fn lua_on_add_transforms_the_stored_value() {
    let engine = Engine::from_lua_source(
        "function on_add(key, value) return { ok = true, value = string.upper(value) } end",
    )
    .expect("rule source must load");
    let mut store = Store::new();
    assert!(matches!(apply_add(&mut store, &engine, "k", "abc"), AddOutcome::Added));
    match apply_get(&store, &engine, "k") {
        GetOutcome::Found(out) => assert_eq!(out, "ABC"),
        _ => panic!("expected a found value"),
    }
}

#[test]
fn lua_rejection_carries_the_error() {
    let engine = Engine::from_lua_source(
        "function on_add(key, value) return { ok = false, error = 'nope' } end",
    )
    .expect("rule source must load");
    let mut store = Store::new();
    match apply_add(&mut store, &engine, "k", "abc") {
        AddOutcome::Rejected(reason) => assert_eq!(reason, "nope"),
        _ => panic!("expected a rejection"),
    }
    assert!(matches!(apply_get(&store, &engine, "k"), GetOutcome::NotFound));
}

#[test]
fn lua_non_table_return_passes_through() {
    let engine = Engine::from_lua_source("function on_add(key, value) return 42 end")
        .expect("rule source must load");
    let mut store = Store::new();
    assert!(matches!(apply_add(&mut store, &engine, "k", "kept"), AddOutcome::Added));
    match apply_get(&store, &engine, "k") {
        GetOutcome::Found(out) => assert_eq!(out, "kept"),
        _ => panic!("expected a found value"),
    }
}

#[test]
fn missing_callback_passes_through() {
    let engine = Engine::from_lua_source("x = 1").expect("rule source must load");
    let mut store = Store::new();
    assert!(matches!(apply_add(&mut store, &engine, "k", "v"), AddOutcome::Added));
    match apply_get(&store, &engine, "k") {
        GetOutcome::Found(out) => assert_eq!(out, "v"),
        _ => panic!("expected a found value"),
    }
}

#[test]
fn lua_syntax_error_is_fatal_at_load() {
    assert!(Engine::from_lua_source("this is not lua").is_err());
}

#[test]
fn lua_runtime_failure_surfaces() {
    let engine = Engine::from_lua_source("function on_add(key, value) error('boom') end")
        .expect("rule source must load");
    let mut store = Store::new();
    assert!(matches!(apply_add(&mut store, &engine, "k", "v"), AddOutcome::EngineFailed(_)));
}

#[test]
fn default_rules_error_messages() {
    let r = default_on_add("id_a", "529");
    assert!(!r.ok);
    assert_eq!(r.error.as_deref(), Some("identifier must have 11 digits"));
    let r = default_on_add("id_a", "529982247xx");
    assert_eq!(r.error.as_deref(), Some("identifier must contain only digits"));
    let r = default_on_add("id_a", "52998224724");
    assert_eq!(r.error.as_deref(), Some("identifier check digit does not match"));
    let r = default_on_add("date_a", "whenever");
    assert_eq!(r.error.as_deref(), Some("invalid ISO date: expected YYYY-MM-DD"));
    let r = default_on_add("date_a", "1990-31-12");
    assert_eq!(r.error.as_deref(), Some("invalid ISO date: month out of range"));
    let r = default_on_add("date_a", "1990-12-40");
    assert_eq!(r.error.as_deref(), Some("invalid ISO date: day out of range"));
}

#[test]
fn default_get_guards_corrupted_state() {
    let r = default_on_get("id_a", "not-eleven");
    assert!(!r.ok);
    assert_eq!(r.error.as_deref(), Some("stored identifier value is invalid"));
    let r = default_on_get("date_a", "garbled");
    assert!(!r.ok);
    assert_eq!(r.error.as_deref(), Some("stored date value is invalid"));
}

#[test]
fn default_add_canonicalizes_dates() {
    let r = default_on_add("date_a", "1990-02-14");
    assert!(r.ok);
    assert_eq!(r.value.as_deref(), Some("1990-02-14"));
}
