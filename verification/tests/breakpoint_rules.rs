use proxy_crab_mitm::breakpoint::{
    hold_duration_ms, BreakpointRegistry, Deadline, MAX_BREAKPOINT_MS, NANOS_PER_MILLI,
};
use proxy_crab_mitm::model::{BreakpointListFilter, InterceptorKind};

fn filter() -> BreakpointListFilter {
    BreakpointListFilter {
        session_id: 1,
        phase: Some(InterceptorKind::Request),
        interceptor_name: Some("hold".to_string()),
    }
}

fn register(registry: &mut BreakpointRegistry, now_ns: u64, hold_ms: u64) -> u64 {
    registry.register(
        1,
        7,
        InterceptorKind::Request,
        0,
        "hold".to_string(),
        "GET".to_string(),
        "http://example.test/".to_string(),
        1_000,
        now_ns,
        hold_ms,
    )
}

#[test]
fn zero_timeout_returns_without_registering() {
    let registry = BreakpointRegistry::new();
    assert_eq!(hold_duration_ms(0), None);
    assert!(registry.list(&filter(), 0).is_empty());
}

#[test]
fn timeout_and_extensions_update_deadline_with_a_hard_cap() {
    let mut registry = BreakpointRegistry::new();
    let hold = hold_duration_ms(40).unwrap();
    let id = register(&mut registry, 5, hold);
    let listed = registry.list(&filter(), 5);
    assert_eq!(listed.len(), 1);
    let item = listed[0].clone();
    assert_eq!(item.id, id);
    assert_eq!(item.expires_at - item.created_at, 40);
    let extended = registry.extend(item.id, 10, MAX_BREAKPOINT_MS).unwrap();
    assert!(extended.expires_at - extended.created_at <= MAX_BREAKPOINT_MS);
    assert_eq!(extended.expires_at - extended.created_at, MAX_BREAKPOINT_MS);
    registry.release(item.id, 11).unwrap();
    assert!(registry.list(&filter(), 12).is_empty());
}

#[test]
fn hold_duration_is_capped() {
    assert_eq!(hold_duration_ms(1), Some(1));
    assert_eq!(hold_duration_ms(MAX_BREAKPOINT_MS + 1), Some(MAX_BREAKPOINT_MS));
}

#[test]
fn released_or_expired_breakpoints_are_not_found() {
    let mut registry = BreakpointRegistry::new();
    let id = register(&mut registry, 0, 1);
    assert_eq!(id, 1);
    let expired_at = NANOS_PER_MILLI;
    assert!(!registry.is_available(id, expired_at));
    assert_eq!(
        registry.extend(id, expired_at, 10).unwrap_err(),
        "breakpoint 1 not found"
    );
    assert_eq!(registry.release(42, 0).unwrap_err(), "breakpoint 42 not found");
    assert!(registry.release(id, 0).is_ok());
    assert!(registry.release(id, 0).is_err());
}

#[test]
fn deadline_extension_stops_at_the_cap() {
    let mut deadline = Deadline::new(0, 10);
    assert_eq!(deadline.remaining_ms(0), 10);
    deadline.extend(0, 20).unwrap();
    assert_eq!(deadline.expires_ns, 30 * NANOS_PER_MILLI);
    deadline.extend(0, MAX_BREAKPOINT_MS).unwrap();
    assert_eq!(deadline.expires_ns, MAX_BREAKPOINT_MS * NANOS_PER_MILLI);
    assert!(deadline.release(1).is_ok());
    assert!(!deadline.is_available(1));
    assert!(deadline.extend(1, 1).is_err());
}

#[test]
fn list_filters_by_session_phase_and_name() {
    let mut registry = BreakpointRegistry::new();
    register(&mut registry, 0, 100);
    let other = BreakpointListFilter {
        session_id: 2,
        phase: None,
        interceptor_name: None,
    };
    assert!(registry.list(&other, 0).is_empty());
    let response = BreakpointListFilter {
        session_id: 1,
        phase: Some(InterceptorKind::Response),
        interceptor_name: None,
    };
    assert!(registry.list(&response, 0).is_empty());
    let any = BreakpointListFilter {
        session_id: 1,
        phase: None,
        interceptor_name: None,
    };
    assert_eq!(registry.list(&any, 0).len(), 1);
    registry.release_all();
    assert!(registry.list(&any, 0).is_empty());
}

#[test]
fn fresh_registries_hand_out_ids_from_one() {
    let mut registry = BreakpointRegistry::new();
    assert!(registry.has_free_id());
    assert_eq!(register(&mut registry, 0, 5), 1);
    assert_eq!(register(&mut registry, 0, 5), 2);
    registry.remove(1);
    assert_eq!(registry.list(&filter(), 0).len(), 1);
    assert_eq!(registry.list(&filter(), 0)[0].id, 2);
}
