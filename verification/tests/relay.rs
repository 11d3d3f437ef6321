use topic_relay::registry::MembershipRegistry;
use topic_relay::relay::{
    declare_payload, declare_step, election_transition, forward_step, run_election, truncate_payload,
    ElectionOutcome, ForwardAction, RelayState, BUFFER_SIZE,
};
use topic_relay::resolve::Addr;

#[test]
fn registry_insert_is_idempotent() {
    let mut r = MembershipRegistry::new();
    let a = Addr { ip: 0x7F000001, port: 40000 };
    r.insert(a);
    r.insert(a);
    assert_eq!(r.len(), 1);
    assert_eq!(r.snapshot(), vec![a]);
}

#[test]
fn registry_keeps_declaration_order() {
    let mut r = MembershipRegistry::new();
    let a = Addr { ip: 0x7F000001, port: 40000 };
    let b = Addr { ip: 0x7F000001, port: 40001 };
    r.insert(a);
    r.insert(b);
    r.insert(a);
    assert!(r.contains(a));
    assert!(r.contains(b));
    assert_eq!(r.snapshot(), vec![a, b]);
}

#[test]
fn declare_accepts_garbage_payloads() {
    let mut r = MembershipRegistry::new();
    let a = Addr { ip: 0x7F000001, port: 41000 };
    declare_step(&mut r, a, b"");
    declare_step(&mut r, a, &[0xFF, 0xFE, 0x00, 0x80]);
    declare_step(&mut r, a, b"not an address at all");
    assert_eq!(r.snapshot(), vec![a]);
}

#[test]
fn repeated_declares_forward_one_copy() {
    let mut r = MembershipRegistry::new();
    let a = Addr { ip: 0x7F000001, port: 42000 };
    declare_step(&mut r, a, b"DAVE");
    declare_step(&mut r, a, b"DAVE");
    match forward_step(&r, Some(b"hello")) {
        ForwardAction::Deliver { targets, payload } => {
            assert_eq!(targets, vec![a]);
            assert_eq!(payload, b"hello".to_vec());
        }
        ForwardAction::Backoff => panic!("expected a delivery"),
    }
}

#[test]
fn forward_targets_every_declared_member() {
    let mut r = MembershipRegistry::new();
    let members = [
        Addr { ip: 0x7F000001, port: 43000 },
        Addr { ip: 0x7F000001, port: 43001 },
        Addr { ip: 0x7F000001, port: 43002 },
    ];
    for m in members {
        declare_step(&mut r, m, b"DAVE");
    }
    match forward_step(&r, Some(b"OLD SPORT")) {
        ForwardAction::Deliver { targets, payload } => {
            assert_eq!(targets, members.to_vec());
            assert_eq!(payload, b"OLD SPORT".to_vec());
        }
        ForwardAction::Backoff => panic!("expected a delivery"),
    }
}

#[test]
fn forward_backs_off_on_receive_failure() {
    let r = MembershipRegistry::new();
    assert!(matches!(forward_step(&r, None), ForwardAction::Backoff));
}

#[test]
fn oversized_payload_is_truncated_not_dropped() {
    let big = vec![7u8; 2000];
    let capped = truncate_payload(&big);
    assert_eq!(capped.len(), BUFFER_SIZE);
    assert_eq!(capped, big[..BUFFER_SIZE].to_vec());

    let mut r = MembershipRegistry::new();
    let a = Addr { ip: 0x7F000001, port: 44000 };
    declare_step(&mut r, a, b"DAVE");
    match forward_step(&r, Some(&big)) {
        ForwardAction::Deliver { targets, payload } => {
            assert_eq!(targets, vec![a]);
            assert_eq!(payload.len(), BUFFER_SIZE);
            assert_eq!(payload, big[..BUFFER_SIZE].to_vec());
        }
        ForwardAction::Backoff => panic!("expected a delivery"),
    }
}

#[test]
fn small_payload_is_forwarded_whole() {
    let data = vec![1u8, 2, 3];
    assert_eq!(truncate_payload(&data), data);
}

#[test]
fn election_outcomes_follow_the_binds() {
    assert_eq!(run_election(true, true), ElectionOutcome::Elected);
    assert_eq!(run_election(false, true), ElectionOutcome::RelayPresent);
    assert_eq!(run_election(false, false), ElectionOutcome::RelayPresent);
    assert_eq!(run_election(true, false), ElectionOutcome::BindFailed);
}

#[test]
fn racing_joiners_elect_at_most_one_relay() {
    // The operating system grants the exclusive group bind to one caller.
    let first_wins_group_bind = true;
    let o1 = run_election(first_wins_group_bind, true);
    let o2 = run_election(!first_wins_group_bind, true);
    assert_eq!(o1, ElectionOutcome::Elected);
    assert_eq!(o2, ElectionOutcome::RelayPresent);
}

#[test]
fn relay_state_never_leaves_bound_and_running() {
    let s = election_transition(RelayState::Unbound, ElectionOutcome::Elected);
    assert_eq!(s, RelayState::BoundAndRunning);
    let s = election_transition(s, ElectionOutcome::RelayPresent);
    assert_eq!(s, RelayState::BoundAndRunning);
    let s = election_transition(RelayState::Unbound, ElectionOutcome::RelayPresent);
    assert_eq!(s, RelayState::Unbound);
    let s = election_transition(RelayState::Unbound, ElectionOutcome::BindFailed);
    assert_eq!(s, RelayState::Unbound);
}

#[test]
fn declare_marker_bytes() {
    assert_eq!(declare_payload(), b"DAVE".to_vec());
}
