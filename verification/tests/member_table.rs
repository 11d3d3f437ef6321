use topic_relay::member_table::{decode_text, send_payload, MemberTable};
use topic_relay::resolve::group;

#[test]
fn nonblocking_and_default_modes() {
    let t = MemberTable::nonblocking();
    assert!(t.is_nonblocking());
    let t = MemberTable::default();
    assert!(!t.is_nonblocking());
}

#[test]
fn get_resolves_and_caches() {
    let mut t = MemberTable::default();
    let (g1, added1) = t.get("#entity-cam09");
    assert!(added1);
    assert_eq!(g1, group("#entity-cam09"));
    let (g2, added2) = t.get("#entity-cam09");
    assert!(!added2);
    assert_eq!(g1, g2);
}

#[test]
fn preload_spares_later_joins() {
    let mut t = MemberTable::nonblocking();
    t.preload(&["#entity-cam09", "@office-speakers"]);
    let (_, added) = t.get("#entity-cam09");
    assert!(!added);
    let (_, added) = t.get("@office-speakers");
    assert!(!added);
    let (_, added) = t.get("another-topic");
    assert!(added);
}

#[test]
fn preload_is_idempotent() {
    let mut t = MemberTable::default();
    t.preload(&["a", "b", "a"]);
    t.preload(&["a", "b"]);
    let (_, added) = t.get("a");
    assert!(!added);
    let (_, added) = t.get("b");
    assert!(!added);
}

#[test]
fn decodes_text_datagrams() {
    assert_eq!(decode_text(b"OLD SPORT"), Some("OLD SPORT".to_string()));
    assert_eq!(decode_text(b""), Some(String::new()));
    assert_eq!(decode_text("\u{fc}nicode \u{153}k".as_bytes()), Some("\u{fc}nicode \u{153}k".to_string()));
    assert_eq!(decode_text(&[0xFF, 0xFE, 0x80]), None);
}

#[test]
fn send_payload_defaults_to_the_topic_name() {
    assert_eq!(send_payload("@office-speakers", Some("terminate")), "terminate");
    assert_eq!(send_payload("#entity-cam09", None), "#entity-cam09");
}
