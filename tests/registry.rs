use realm_host::error::EngineError;
use realm_host::registry::ContextRegistry;

fn s(x: &str) -> String {
    x.to_string()
}

#[test]
fn creating_an_id_twice_fails_the_second_time() {
    let mut r = ContextRegistry::new(10);
    assert_eq!(r.create_context(s("id-1")), Ok(()));
    assert_eq!(r.create_context(s("id-1")), Err(EngineError::ContextAlreadyExists));
    assert_eq!(r.slots.len(), 1);
}

#[test]
fn a_full_registry_refuses_new_contexts() {
    let mut r = ContextRegistry::new(1);
    assert_eq!(r.create_context(s("a")), Ok(()));
    assert_eq!(r.create_context(s("b")), Err(EngineError::EngineCapacityExceeded));
    assert_eq!(r.create_context(s("a")), Err(EngineError::ContextAlreadyExists));
    assert!(r.drop_context(&s("a")));
    assert_eq!(r.create_context(s("b")), Ok(()));
}

#[test]
fn dispatch_to_unknown_id_is_refused() {
    let mut r = ContextRegistry::new(4);
    assert_eq!(r.begin_dispatch(&s("never")), Err(EngineError::ContextNotFound));
    assert!(r.slots.is_empty());
}

#[test]
fn dispatch_to_dropped_id_is_refused() {
    let mut r = ContextRegistry::new(4);
    r.create_context(s("x")).unwrap();
    assert!(r.drop_context(&s("x")));
    assert_eq!(r.begin_dispatch(&s("x")), Err(EngineError::ContextNotFound));
}

#[test]
fn busy_context_is_freed_by_its_last_dispatch() {
    let mut r = ContextRegistry::new(4);
    r.create_context(s("x")).unwrap();
    assert_eq!(r.begin_dispatch(&s("x")), Ok(()));
    assert_eq!(r.begin_dispatch(&s("x")), Ok(()));
    assert!(!r.drop_context(&s("x")));
    assert_eq!(r.begin_dispatch(&s("x")), Err(EngineError::ContextNotFound));
    assert_eq!(r.create_context(s("x")), Err(EngineError::ContextAlreadyExists));
    assert!(!r.drop_context(&s("x")));
    assert!(!r.end_dispatch(&s("x")));
    assert!(r.end_dispatch(&s("x")));
    assert!(r.slots.is_empty());
    assert_eq!(r.create_context(s("x")), Ok(()));
}

#[test]
fn ending_without_a_dispatch_changes_nothing() {
    let mut r = ContextRegistry::new(4);
    assert!(!r.end_dispatch(&s("x")));
    r.create_context(s("x")).unwrap();
    assert!(!r.end_dispatch(&s("x")));
    assert_eq!(r.slots[0].in_flight, 0);
    assert!(!r.drop_context(&s("unknown")));
    assert_eq!(r.slots.len(), 1);
}

#[test]
fn main_realm_id_is_always_taken() {
    let mut r = ContextRegistry::new(4);
    assert_eq!(r.create_context(s("__main__")), Err(EngineError::ContextAlreadyExists));
    assert_eq!(r.begin_dispatch(&s("__main__")), Err(EngineError::ContextNotFound));
    assert!(!r.drop_context(&s("__main__")));
    assert!(r.slots.is_empty());
}
