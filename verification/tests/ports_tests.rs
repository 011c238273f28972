use launcher_core::ports::{
    make_port_pair, port_action, port_candidate, PortAction, MAX_PORT_ATTEMPTS,
};

#[test]
fn candidate_is_base_plus_offset() {
    assert_eq!(port_candidate(9000, 1000), Some(10000));
    assert_eq!(port_candidate(0, 0), Some(0));
    assert_eq!(port_candidate(65534, 1), Some(65535));
}

#[test]
fn candidate_over_the_port_range_is_rejected() {
    assert_eq!(port_candidate(60000, 10000), None);
    assert_eq!(port_candidate(65535, 1), None);
    assert_eq!(port_candidate(65535, 65535), None);
}

#[test]
fn action_probes_a_representable_candidate() {
    assert_eq!(port_action(MAX_PORT_ATTEMPTS, 9000, 1000), PortAction::TryCandidate(10000));
    assert_eq!(port_action(1, 42, 0), PortAction::TryCandidate(42));
}

#[test]
fn action_skips_an_overflowing_candidate() {
    assert_eq!(port_action(5, 60000, 10000), PortAction::Skip);
}

#[test]
fn action_falls_back_when_attempts_are_spent() {
    assert_eq!(port_action(0, 9000, 1000), PortAction::UseEphemeral);
    assert_eq!(port_action(0, 60000, 10000), PortAction::UseEphemeral);
}

#[test]
fn distinct_ports_make_a_pair() {
    let p = make_port_pair(10001, 10000).expect("distinct ports must pair");
    assert_eq!(p.rpc, 10001);
    assert_eq!(p.ui, 10000);
    assert_ne!(p.rpc, p.ui);
}

#[test]
fn colliding_ports_are_refused() {
    assert_eq!(make_port_pair(10000, 10000), None);
}
