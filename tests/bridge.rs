use codlab::bridge::{outgoing_change, ApplyEdit, Bridge};
use codlab::change::{ChangeBatch, ContentChange, Position, Range};
use codlab::change_event_to_workspace_edit;
use codlab::messages::{Change, ClientMessage, CommonMessage, ServerMessage};
use codlab::relay::ConnectionRegistry;

const URI: &str = "file:///shared.txt";

fn at(line: u32, character: u32) -> Option<Range> {
    Some(Range::new(Position::new(line, character), Position::new(line, character)))
}

fn batch(range: Option<Range>, text: &str) -> ChangeBatch {
    ChangeBatch {
        uri: URI.to_owned(),
        version: 0,
        content_changes: vec![ContentChange::new(range, text.to_owned())],
    }
}

/// Character offset of a position in `doc`, clamped to its end.
fn offset(doc: &str, p: Position) -> usize {
    let chars: Vec<char> = doc.chars().collect();
    let mut line = 0u32;
    let mut i = 0usize;
    while line < p.line && i < chars.len() {
        if chars[i] == '\n' {
            line += 1;
        }
        i += 1;
    }
    if line < p.line {
        return chars.len();
    }
    let mut col = 0u32;
    while col < p.character && i < chars.len() && chars[i] != '\n' {
        col += 1;
        i += 1;
    }
    i
}

/// What an editor does with an apply command; gives the batch it reports.
fn apply(doc: &mut String, edit: &ApplyEdit) -> ChangeBatch {
    let mut reported = Vec::new();
    for e in &edit.edits {
        let chars: Vec<char> = doc.chars().collect();
        let s = offset(doc, e.range.start);
        let t = offset(doc, e.range.end);
        let mut next: String = chars[..s].iter().collect();
        next.push_str(&e.new_text);
        next.extend(chars[t..].iter());
        *doc = next;
        reported.push(ContentChange::new(Some(e.range), e.new_text.clone()));
    }
    ChangeBatch { uri: edit.uri.clone(), version: 1, content_changes: reported }
}

fn relay(reg: &ConnectionRegistry, from: &str, c: Change) -> (Vec<String>, Change) {
    let out = reg
        .on_message(&from.to_owned(), ClientMessage::Common(CommonMessage::Change(c)))
        .unwrap();
    let ServerMessage::Common(CommonMessage::Change(c)) = out.message;
    (out.recipients, c)
}

#[test]
fn two_bridges_converge_without_rebroadcast() {
    let mut reg = ConnectionRegistry::new();
    reg.accept("A".to_owned()).unwrap();
    reg.accept("B".to_owned()).unwrap();
    let (mut a, mut b) = (Bridge::new(), Bridge::new());
    let (mut doc_a, mut doc_b) = (String::new(), String::new());

    let local = batch(at(0, 0), "test");
    doc_a = format!("test{doc_a}");
    let sent_a = a.on_local_change(&local, 0, vec![]);
    let sent_a: Vec<Change> = sent_a.into_iter().collect();
    assert_eq!(sent_a.len(), 1);

    let (recipients, incoming) = relay(&reg, "A", sent_a.into_iter().next().unwrap());
    assert_eq!(recipients, vec!["B".to_owned()]);
    let cmd = b.on_remote_change(&incoming, 3);
    let echoed = apply(&mut doc_b, &cmd);
    let sent_b = b.on_local_change(&echoed, 8, vec![]);
    assert!(sent_b.is_none());

    assert_eq!(doc_a, "test");
    assert_eq!(doc_b, "test");
    assert_eq!(b.pool().len(), 0);
}

#[test]
fn non_overlapping_concurrent_edits_converge() {
    let mut reg = ConnectionRegistry::new();
    reg.accept("A".to_owned()).unwrap();
    reg.accept("B".to_owned()).unwrap();
    let (mut a, mut b) = (Bridge::new(), Bridge::new());
    let start = "l0\nl1\nl2\nl3\nl4\nl5".to_owned();
    let (mut doc_a, mut doc_b) = (start.clone(), start.clone());

    let own_a = ApplyEdit {
        label: String::new(),
        uri: URI.to_owned(),
        edits: vec![codlab::bridge::TextEdit { range: at(0, 0).unwrap(), new_text: "A".to_owned() }],
    };
    let own_b = ApplyEdit {
        label: String::new(),
        uri: URI.to_owned(),
        edits: vec![codlab::bridge::TextEdit { range: at(5, 0).unwrap(), new_text: "B".to_owned() }],
    };
    let local_a = apply(&mut doc_a, &own_a);
    let local_b = apply(&mut doc_b, &own_b);
    let msg_a = a.on_local_change(&local_a, 0, vec![]).unwrap();
    let msg_b = b.on_local_change(&local_b, 0, vec![]).unwrap();

    let (to_b, msg_a) = relay(&reg, "A", msg_a);
    let (to_a, msg_b) = relay(&reg, "B", msg_b);
    assert_eq!(to_b, vec!["B".to_owned()]);
    assert_eq!(to_a, vec!["A".to_owned()]);

    let cmd_a = a.on_remote_change(&msg_b, 5);
    let cmd_b = b.on_remote_change(&msg_a, 5);
    let echo_a = apply(&mut doc_a, &cmd_a);
    let echo_b = apply(&mut doc_b, &cmd_b);
    assert!(a.on_local_change(&echo_a, 9, vec![]).is_none());
    assert!(b.on_local_change(&echo_b, 9, vec![]).is_none());

    assert_eq!(doc_a, "Al0\nl1\nl2\nl3\nl4\nBl5");
    assert_eq!(doc_a, doc_b);
}

#[test]
fn late_echo_is_broadcast_again() {
    let mut b = Bridge::new();
    let incoming = Change { id: 1, change: batch(at(0, 0), "x"), trace_context: vec![] };
    b.on_remote_change(&incoming, 0);
    let late = b.on_local_change(&batch(at(0, 0), "x"), 201, vec![]);
    assert!(late.is_some());
    assert_eq!(b.pool().len(), 0);
}

#[test]
fn local_change_carries_fresh_v4_id_and_trace_context() {
    let mut a = Bridge::new();
    let trace = vec![("traceparent".to_owned(), "00-1-2-01".to_owned())];
    let first = a.on_local_change(&batch(at(0, 0), "x"), 0, trace.clone()).unwrap();
    let second = a.on_local_change(&batch(at(0, 1), "y"), 0, vec![]).unwrap();
    assert_ne!(first.id, second.id);
    assert_eq!((first.id >> 76) & 0xf, 4);
    assert_eq!((first.id >> 62) & 0x3, 2);
    assert_eq!(first.trace_context, trace);
    assert_eq!(first.change, batch(at(0, 0), "x"));
}

#[test]
fn empty_local_batch_sends_nothing() {
    let empty = ChangeBatch { uri: URI.to_owned(), version: 0, content_changes: vec![] };
    assert!(outgoing_change(empty, 1, vec![]).is_none());
    let mut a = Bridge::new();
    let empty = ChangeBatch { uri: URI.to_owned(), version: 0, content_changes: vec![] };
    assert!(a.on_local_change(&empty, 0, vec![]).is_none());
}

#[test]
fn outgoing_change_wraps_batch() {
    let c = outgoing_change(batch(at(1, 1), "k"), 12, vec![]).unwrap();
    assert_eq!(c.id, 12);
    assert_eq!(c.change, batch(at(1, 1), "k"));
}

#[test]
fn workspace_edit_replaces_whole_document_without_range() {
    let b = ChangeBatch {
        uri: URI.to_owned(),
        version: 2,
        content_changes: vec![
            ContentChange::new(None, "all".to_owned()),
            ContentChange::new(at(0, 3), "!".to_owned()),
        ],
    };
    let edit = change_event_to_workspace_edit(&b);
    assert_eq!(edit.label, "remote editor");
    assert_eq!(edit.uri, URI);
    assert_eq!(edit.edits.len(), 2);
    assert_eq!(
        edit.edits[0].range,
        Range::new(Position::new(0, 0), Position::new(u32::MAX, u32::MAX))
    );
    assert_eq!(edit.edits[0].new_text, "all");
    assert_eq!(edit.edits[1].range, at(0, 3).unwrap());
    assert_eq!(edit.edits[1].new_text, "!");
}
