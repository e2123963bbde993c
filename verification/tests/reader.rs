//! Tests for the reader state machine and the notification discipline.

use pty_sessions::{PtyNotification, ReadOutcome, ReaderLoop};

#[test]
fn chunk_emits_data_with_decoded_text_and_session_id() {
    let mut rl = ReaderLoop::new(7);
    let n = rl.step(ReadOutcome::Chunk(b"hello\r\n".to_vec()));
    match n {
        Some(PtyNotification::Data { id, data }) => {
            assert_eq!(id, 7);
            assert_eq!(data, "hello\r\n");
            assert!(data.contains("hello"));
        }
        other => panic!("expected a data notification, got {:?}", other),
    }
    assert!(!rl.has_finished());
}

#[test]
fn invalid_utf8_is_decoded_lossily() {
    let mut rl = ReaderLoop::new(1);
    let n = rl.step(ReadOutcome::Chunk(vec![0x68, 0x69, 0xff, 0xfe]));
    match n {
        Some(PtyNotification::Data { data, .. }) => {
            assert!(data.starts_with("hi"));
            assert!(data.contains('\u{FFFD}'));
        }
        other => panic!("expected a data notification, got {:?}", other),
    }
    assert!(!rl.has_finished());
}

#[test]
fn eof_emits_exit_with_unknown_code() {
    let mut rl = ReaderLoop::new(3);
    let n = rl.step(ReadOutcome::Eof);
    match n {
        Some(PtyNotification::Exit { id, code }) => {
            assert_eq!(id, 3);
            assert_eq!(code, None);
        }
        other => panic!("expected an exit notification, got {:?}", other),
    }
    assert!(rl.has_finished());
}

#[test]
fn read_error_emits_exit_and_stops() {
    let mut rl = ReaderLoop::new(4);
    let n = rl.step(ReadOutcome::Failed);
    assert!(matches!(n, Some(PtyNotification::Exit { id: 4, code: None })));
    assert!(rl.has_finished());
}

#[test]
fn at_most_one_exit_and_no_data_after_exit() {
    let mut rl = ReaderLoop::new(9);
    assert!(rl.step(ReadOutcome::Chunk(b"output".to_vec())).is_some());
    assert!(matches!(
        rl.step(ReadOutcome::Eof),
        Some(PtyNotification::Exit { .. })
    ));
    // once finished, nothing is ever emitted again
    assert!(rl.step(ReadOutcome::Eof).is_none());
    assert!(rl.step(ReadOutcome::Failed).is_none());
    assert!(rl.step(ReadOutcome::Chunk(b"late".to_vec())).is_none());
    assert!(rl.has_finished());
}

#[test]
fn data_notifications_keep_arrival_order() {
    let mut rl = ReaderLoop::new(2);
    let mut seen = Vec::new();
    for chunk in [&b"first "[..], &b"second "[..], &b"third"[..]] {
        if let Some(PtyNotification::Data { data, .. }) = rl.step(ReadOutcome::Chunk(chunk.to_vec()))
        {
            seen.push(data);
        }
    }
    assert_eq!(seen, vec!["first ", "second ", "third"]);
}

#[test]
fn sessions_only_see_their_own_payloads() {
    let mut left = ReaderLoop::new(1);
    let mut right = ReaderLoop::new(2);
    let ln = left.step(ReadOutcome::Chunk(b"left payload".to_vec()));
    let rn = right.step(ReadOutcome::Chunk(b"right payload".to_vec()));
    match (ln, rn) {
        (
            Some(PtyNotification::Data { id: lid, data: ldata }),
            Some(PtyNotification::Data { id: rid, data: rdata }),
        ) => {
            assert_eq!(lid, 1);
            assert_eq!(rid, 2);
            assert_eq!(ldata, "left payload");
            assert_eq!(rdata, "right payload");
        }
        other => panic!("expected two data notifications, got {:?}", other),
    }
}

#[test]
fn empty_chunk_reports_nothing_and_keeps_running() {
    let mut rl = ReaderLoop::new(5);
    assert!(rl.step(ReadOutcome::Chunk(Vec::new())).is_none());
    assert!(!rl.has_finished());
}

#[test]
fn event_names_match_the_channels() {
    let data = PtyNotification::Data {
        id: 1,
        data: String::from("x"),
    };
    let exit = PtyNotification::Exit { id: 1, code: None };
    assert_eq!(data.event_name(), "pty-data");
    assert_eq!(exit.event_name(), "pty-exit");
}
