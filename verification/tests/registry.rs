//! Tests for the session registry and its control surface.

use pty_sessions::{PtyError, PtySession, PtyState, SpawnOptions};

fn options(cols: u16, rows: u16) -> SpawnOptions {
    SpawnOptions {
        cmd: String::from("sh"),
        args: vec![String::from("-i")],
        cwd: String::from("/"),
        cols,
        rows,
        env: Vec::new(),
    }
}

#[test]
fn fresh_registry_is_empty() {
    let st = PtyState::default();
    assert_eq!(st.list_pty_sessions(), Vec::<u32>::new());
    assert!(st.get(1).is_none());
}

#[test]
fn spawn_ids_start_at_one_and_increase() {
    let mut st = PtyState::default();
    let id1 = st.spawn_pty(&options(80, 24)).unwrap();
    let id2 = st.spawn_pty(&options(80, 24)).unwrap();
    let id3 = st.spawn_pty(&options(80, 24)).unwrap();
    assert_eq!(id1, 1);
    assert_eq!(id2, 2);
    assert_eq!(id3, 3);
    assert!(id1 < id2 && id2 < id3);
}

#[test]
fn spawn_registers_requested_geometry() {
    let mut st = PtyState::default();
    let id = st.spawn_pty(&options(132, 43)).unwrap();
    assert_eq!(st.get(id), Some(PtySession { cols: 132, rows: 43 }));
}

#[test]
fn killed_id_is_never_reused() {
    let mut st = PtyState::default();
    let id1 = st.spawn_pty(&options(80, 24)).unwrap();
    st.kill_pty(id1).unwrap();
    let id2 = st.spawn_pty(&options(80, 24)).unwrap();
    assert_ne!(id1, id2);
    assert!(id2 > id1);
}

#[test]
fn write_to_unknown_id_fails_not_found_without_side_effect() {
    let mut st = PtyState::default();
    let id = st.spawn_pty(&options(80, 24)).unwrap();
    let before = st.list_pty_sessions();
    let r = st.write_pty(id + 1, "echo hi\n");
    assert!(matches!(r, Err(PtyError::NotFound)));
    assert_eq!(st.list_pty_sessions(), before);
    assert_eq!(st.get(id), Some(PtySession { cols: 80, rows: 24 }));
}

#[test]
fn write_to_live_id_hands_back_full_payload() {
    let mut st = PtyState::default();
    let id = st.spawn_pty(&options(80, 24)).unwrap();
    let bytes = st.write_pty(id, "hello\n").unwrap();
    assert_eq!(bytes, b"hello\n");
}

#[test]
fn resize_unknown_id_fails_not_found() {
    let mut st = PtyState::default();
    let r = st.resize_pty(9, 100, 30);
    assert!(matches!(r, Err(PtyError::NotFound)));
}

#[test]
fn resize_updates_geometry() {
    let mut st = PtyState::default();
    let id = st.spawn_pty(&options(80, 24)).unwrap();
    st.resize_pty(id, 100, 30).unwrap();
    assert_eq!(st.get(id), Some(PtySession { cols: 100, rows: 30 }));
    assert_eq!(st.list_pty_sessions(), vec![id]);
}

#[test]
fn kill_unknown_id_is_a_noop_success_twice() {
    let mut st = PtyState::default();
    assert!(st.kill_pty(42).is_ok());
    assert!(st.kill_pty(42).is_ok());
    assert_eq!(st.list_pty_sessions(), Vec::<u32>::new());
}

#[test]
fn kill_same_id_twice_never_errors() {
    let mut st = PtyState::default();
    let id = st.spawn_pty(&options(80, 24)).unwrap();
    assert!(st.kill_pty(id).is_ok());
    assert!(st.kill_pty(id).is_ok());
    assert!(st.get(id).is_none());
}

#[test]
fn write_after_kill_fails_not_found() {
    let mut st = PtyState::default();
    let id = st.spawn_pty(&options(80, 24)).unwrap();
    st.kill_pty(id).unwrap();
    let r = st.write_pty(id, "anything");
    assert!(matches!(r, Err(PtyError::NotFound)));
}

#[test]
fn list_tracks_spawns_and_kills_in_insertion_order() {
    let mut st = PtyState::default();
    let a = st.spawn_pty(&options(80, 24)).unwrap();
    let b = st.spawn_pty(&options(80, 24)).unwrap();
    let c = st.spawn_pty(&options(80, 24)).unwrap();
    assert_eq!(st.list_pty_sessions(), vec![a, b, c]);
    st.kill_pty(b).unwrap();
    assert_eq!(st.list_pty_sessions(), vec![a, c]);
}

#[test]
fn registry_contract_get_insert_remove() {
    let mut st = PtyState::default();
    let id = st.allocate_id();
    st.insert(id, PtySession { cols: 10, rows: 5 });
    assert_eq!(st.get(id), Some(PtySession { cols: 10, rows: 5 }));
    let detached = st.remove(id);
    assert_eq!(detached, Some(PtySession { cols: 10, rows: 5 }));
    assert_eq!(st.remove(id), None);
}

#[test]
fn not_found_error_is_recognizable() {
    assert!(PtyError::NotFound.is_not_found());
    assert!(!PtyError::SpawnFailure(String::from("no such command")).is_not_found());
    assert!(!PtyError::IoFailure(String::from("broken pipe")).is_not_found());
    assert!(!PtyError::ReadFailure(String::from("input/output error")).is_not_found());
}
