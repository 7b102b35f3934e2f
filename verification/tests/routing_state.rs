use codexhub::routing_state::{GatewayRoutingState, BINDING_TTL, COOLDOWN, FAILURE_THRESHOLD};

const NOW: u64 = 1_000_000;
const ONE_SECOND: u64 = 1_000;

#[test]
fn blacklist_after_threshold_then_recovers() {
    let mut state = GatewayRoutingState::default();
    let now = NOW;
    for _ in 0..FAILURE_THRESHOLD {
        state.record_failure("r", now);
    }
    assert!(state.is_blacklisted("r", now));
    assert!(!state.is_blacklisted("r", now + COOLDOWN + ONE_SECOND));
}

#[test]
fn success_clears_failures() {
    let mut state = GatewayRoutingState::default();
    let now = NOW;
    for _ in 0..FAILURE_THRESHOLD {
        state.record_failure("r", now);
    }
    assert!(state.is_blacklisted("r", now));
    state.record_success("r");
    assert!(!state.is_blacklisted("r", now));
}

#[test]
fn binding_roundtrip_and_ttl() {
    let mut state = GatewayRoutingState::default();
    let now = NOW;
    state.bind("sess", "route-a", now);
    assert_eq!(state.binding_for("sess", now), Some("route-a"));
    assert_eq!(
        state.binding_for("sess", now + BINDING_TTL + ONE_SECOND),
        None
    );
}

#[test]
fn evict_stale_removes_expired_bindings() {
    let mut state = GatewayRoutingState::default();
    let now = NOW;
    state.bind("old", "r", now);
    state.bind("fresh", "r", now + BINDING_TTL);
    state.evict_stale(now + BINDING_TTL + ONE_SECOND);
    assert_eq!(state.binding_for("fresh", now + BINDING_TTL), Some("r"));
    assert_eq!(state.binding_for("old", now), None);
}

#[test]
fn two_failures_do_not_blacklist() {
    let mut state = GatewayRoutingState::default();
    state.record_failure("r", NOW);
    state.record_failure("r", NOW);
    assert!(!state.is_blacklisted("r", NOW));
    state.record_failure("r", NOW);
    assert!(state.is_blacklisted("r", NOW + COOLDOWN - 1));
    assert!(!state.is_blacklisted("r", NOW + COOLDOWN));
}

#[test]
fn unknown_route_is_not_blacklisted_and_success_on_unknown_is_noop() {
    let mut state = GatewayRoutingState::default();
    state.record_success("x");
    assert!(!state.is_blacklisted("x", NOW));
}

#[test]
fn rebinding_refreshes_last_used_and_route() {
    let mut state = GatewayRoutingState::default();
    state.bind("s", "a", NOW);
    state.bind("s", "b", NOW + BINDING_TTL);
    assert_eq!(state.binding_for("s", NOW + BINDING_TTL + ONE_SECOND), Some("b"));
    // earlier reading than last use saturates to zero elapsed time
    assert_eq!(state.binding_for("s", 0), Some("b"));
}
