use topic_relay::resolve::{group, resolve, Addr, DECLARE_HOST, GROUP_HOST, MAX_PORT, MIN_PORT};

#[test]
fn resolves_known_topic_ports() {
    let g = group("Well Hello There, Old Sport!");
    assert_eq!(g.group, Addr { ip: GROUP_HOST, port: 52441 });
    assert_eq!(g.join, Addr { ip: DECLARE_HOST, port: 52442 });
}

#[test]
fn group_host_is_broadcast_and_declare_host_is_wildcard() {
    let g = group("any-topic");
    assert_eq!(g.group.ip, u32::from_be_bytes([255, 255, 255, 255]));
    assert_eq!(g.join.ip, u32::from_be_bytes([0, 0, 0, 0]));
}

#[test]
fn resolve_is_deterministic() {
    let topics = ["a", "#entity-cam09", "@office-speakers", "Well Hello There, Old Sport!"];
    for t in topics {
        assert_eq!(group(t), group(t));
        assert_eq!(resolve(t.as_bytes()), resolve(t.as_bytes()));
    }
}

#[test]
fn string_and_byte_resolution_agree() {
    let topics = ["a", "topic/one", "@office-speakers"];
    for t in topics {
        assert_eq!(group(t), resolve(t.as_bytes()));
    }
}

#[test]
fn ports_stay_in_range_and_never_collide() {
    let topics = ["a", "b", "ab", "#entity-cam09", "@office-speakers", "x y z", "0123456789"];
    let range = MAX_PORT - MIN_PORT;
    for t in topics {
        let g = resolve(t.as_bytes());
        let gp = g.group.port as u32;
        let jp = g.join.port as u32;
        assert!(gp >= MIN_PORT && gp < MAX_PORT);
        assert!(jp >= MIN_PORT && jp < MAX_PORT);
        assert_ne!(gp, jp);
        assert_eq!(jp, (gp - MIN_PORT + 1) % range + MIN_PORT);
    }
}
