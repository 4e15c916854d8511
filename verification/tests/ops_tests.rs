use kvhooks::apply_add;
use kvhooks::apply_get;
use kvhooks::AddOutcome;
use kvhooks::Engine;
use kvhooks::GetOutcome;
use kvhooks::Store;

fn add(store: &mut Store, engine: &Engine, key: &str, value: &str) -> AddOutcome {
    apply_add(store, engine, key, value)
}

fn get_found(store: &Store, engine: &Engine, key: &str) -> String {
    match apply_get(store, engine, key) {
        GetOutcome::Found(out) => out,
        other => panic!("expected a found value, got {:?}", outcome_name(&other)),
    }
}

fn outcome_name(outcome: &GetOutcome) -> &'static str {
    match outcome {
        GetOutcome::Found(_) => "Found",
        GetOutcome::NotFound => "NotFound",
        GetOutcome::Rejected(_) => "Rejected",
        GetOutcome::EngineFailed(_) => "EngineFailed",
    }
}

#[test]
fn valid_identifier_add_and_grouped_get() {
    let engine = Engine::builtin();
    let mut store = Store::new();
    assert!(matches!(add(&mut store, &engine, "id_x", "52998224725"), AddOutcome::Added));
    assert_eq!(get_found(&store, &engine, "id_x"), "529.982.247-25");
}

#[test]
fn repeated_digit_identifier_rejected() {
    let engine = Engine::builtin();
    let mut store = Store::new();
    let outcome = add(&mut store, &engine, "id_x", "11111111111");
    match outcome {
        AddOutcome::Rejected(reason) => {
            assert_eq!(reason, "identifier with repeated digits is invalid");
        },
        _ => panic!("expected a rejection"),
    }
    assert!(matches!(apply_get(&store, &engine, "id_x"), GetOutcome::NotFound));
}

#[test]
fn invalid_calendar_date_rejected() {
    let engine = Engine::builtin();
    let mut store = Store::new();
    let outcome = add(&mut store, &engine, "date_birth", "1990-02-30");
    match outcome {
        AddOutcome::Rejected(reason) => {
            assert_eq!(reason, "invalid ISO date: no such calendar date");
        },
        _ => panic!("expected a rejection"),
    }
}

#[test]
fn valid_date_add_and_local_get() {
    let engine = Engine::builtin();
    let mut store = Store::new();
    assert!(matches!(add(&mut store, &engine, "date_birth", "1990-02-14"), AddOutcome::Added));
    assert_eq!(get_found(&store, &engine, "date_birth"), "14/02/1990");
}

#[test]
fn plain_key_passes_through() {
    let engine = Engine::builtin();
    let mut store = Store::new();
    assert!(matches!(add(&mut store, &engine, "other", "hello world"), AddOutcome::Added));
    assert_eq!(get_found(&store, &engine, "other"), "hello world");
}

#[test]
fn adding_twice_equals_adding_once() {
    let engine = Engine::builtin();
    let mut once = Store::new();
    assert!(matches!(add(&mut once, &engine, "id_x", "52998224725"), AddOutcome::Added));
    let mut twice = Store::new();
    assert!(matches!(add(&mut twice, &engine, "id_x", "52998224725"), AddOutcome::Added));
    assert!(matches!(add(&mut twice, &engine, "id_x", "52998224725"), AddOutcome::Added));
    assert_eq!(once.get("id_x"), twice.get("id_x"));
    assert_eq!(get_found(&once, &engine, "id_x"), get_found(&twice, &engine, "id_x"));
}

#[test]
fn identifier_fallback_formats_alternate_key() {
    let engine = Engine::builtin();
    let mut store = Store::new();
    assert!(matches!(add(&mut store, &engine, "id_x", "52998224725"), AddOutcome::Added));
    assert_eq!(get_found(&store, &engine, "idx"), "529.982.247-25");
}

#[test]
fn miss_outside_identifier_class_reports_not_found() {
    let engine = Engine::builtin();
    let mut store = Store::new();
    assert!(matches!(add(&mut store, &engine, "foo_a", "v"), AddOutcome::Added));
    assert!(matches!(apply_get(&store, &engine, "fooa"), GetOutcome::NotFound));
    assert!(matches!(apply_get(&store, &engine, "missing"), GetOutcome::NotFound));
}

#[test]
fn rejected_add_does_not_overwrite() {
    let engine = Engine::builtin();
    let mut store = Store::new();
    assert!(matches!(add(&mut store, &engine, "date_d", "1990-02-14"), AddOutcome::Added));
    assert!(matches!(add(&mut store, &engine, "date_d", "1990-02-30"), AddOutcome::Rejected(_)));
    assert_eq!(get_found(&store, &engine, "date_d"), "14/02/1990");
}
