//! What is shown of the engine, and the levels of log lines.

use dontspeakd::logging::{split_level, LogLevel};
use dontspeakd::status::{record_event, CapsEvent, CapsKind, StatusGate};

#[test]
fn every_change_moves_the_counter() {
    let mut gate = StatusGate::new();
    assert_eq!(gate.seq(), 0);
    gate.bump();
    assert_eq!(gate.seq(), 1);
    let mut last = StatusGate { seq: u64::MAX };
    last.bump();
    assert_eq!(last.seq(), 0);
}

#[test]
fn the_last_events_are_kept() {
    let mut events: Vec<CapsEvent> = Vec::new();
    for ts_ms in 0..5 {
        record_event(&mut events, CapsEvent { ts_ms, kind: CapsKind::Press }, 3);
    }
    let kept: Vec<u64> = events.iter().map(|e| e.ts_ms).collect();
    assert_eq!(kept, [2, 3, 4]);
    record_event(&mut events, CapsEvent { ts_ms: 9, kind: CapsKind::Stop }, 0);
    assert!(events.is_empty());
}

#[test]
fn a_line_names_its_level() {
    assert_eq!(split_level("FATAL:  no home"), (LogLevel::Error, "no home".to_string()));
    assert_eq!(split_level("ERROR: x"), (LogLevel::Error, "x".to_string()));
    assert_eq!(split_level("WARN: x "), (LogLevel::Warn, "x ".to_string()));
    assert_eq!(split_level(" WARN: x"), (LogLevel::Info, " WARN: x".to_string()));
    assert_eq!(split_level("plain"), (LogLevel::Info, "plain".to_string()));
}
