use codlab::change::{ChangeBatch, ContentChange, Position, Range};
use codlab::messages::{Change, ClientMessage, CommonMessage, ServerMessage};
use codlab::relay::{Broadcast, ConnectionRegistry};

fn change(id: u128) -> Change {
    Change {
        id,
        change: ChangeBatch {
            uri: "file:///r.txt".to_owned(),
            version: 1,
            content_changes: vec![ContentChange::new(
                Some(Range::new(Position::new(0, 0), Position::new(0, 0))),
                "t".to_owned(),
            )],
        },
        trace_context: vec![("traceparent".to_owned(), "00-abc-def-01".to_owned())],
    }
}

fn registry(addrs: &[&str]) -> ConnectionRegistry {
    let mut reg = ConnectionRegistry::new();
    for a in addrs {
        reg.accept((*a).to_owned()).unwrap();
    }
    reg
}

#[test]
fn relay_sends_to_every_peer_but_the_sender() {
    let reg = registry(&["a", "b", "c"]);
    let out = reg
        .on_message(&"a".to_owned(), ClientMessage::Common(CommonMessage::Change(change(9))))
        .unwrap();
    assert_eq!(out.recipients, vec!["b".to_owned(), "c".to_owned()]);
    assert_eq!(out.message, ServerMessage::Common(CommonMessage::Change(change(9))));
}

#[test]
fn relay_keeps_id_and_trace_context() {
    let reg = registry(&["a", "b"]);
    let out = reg
        .on_message(&"b".to_owned(), ClientMessage::Common(CommonMessage::Change(change(77))))
        .unwrap();
    let ServerMessage::Common(CommonMessage::Change(c)) = out.message;
    assert_eq!(c.id, 77);
    assert_eq!(c.trace_context, change(77).trace_context);
    assert_eq!(out.recipients, vec!["a".to_owned()]);
}

#[test]
fn relay_does_not_relay_acknowledgements() {
    let reg = registry(&["a", "b"]);
    assert_eq!(reg.on_message(&"a".to_owned(), ClientMessage::AcknowledgeChange(5)), None);
}

#[test]
fn relay_alone_sends_nowhere() {
    let reg = registry(&["a"]);
    let out: Broadcast = reg
        .on_message(&"a".to_owned(), ClientMessage::Common(CommonMessage::Change(change(1))))
        .unwrap();
    assert!(out.recipients.is_empty());
}

#[test]
fn accept_numbers_from_one() {
    let mut reg = ConnectionRegistry::new();
    assert_eq!(reg.accept("x".to_owned()), Some(1));
    assert_eq!(reg.accept("y".to_owned()), Some(2));
    assert_eq!(reg.accept("z".to_owned()), Some(3));
    assert_eq!(reg.len(), 3);
}

#[test]
fn accept_replaces_same_address() {
    let mut reg = ConnectionRegistry::new();
    assert_eq!(reg.accept("x".to_owned()), Some(1));
    assert_eq!(reg.accept("x".to_owned()), Some(2));
    assert_eq!(reg.len(), 1);
}

#[test]
fn remove_is_idempotent() {
    let mut reg = registry(&["a", "b", "c"]);
    reg.remove(&"b".to_owned());
    assert_eq!(reg.len(), 2);
    reg.remove(&"b".to_owned());
    assert_eq!(reg.len(), 2);
    assert_eq!(reg.recipients(&"a".to_owned()), vec!["c".to_owned()]);
    assert_eq!(reg.accept("d".to_owned()), Some(4));
}
