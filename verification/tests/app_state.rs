use codexhub::app_state::{push_event, push_event_record, EventRecord, MAX_EVENTS};

fn record(i: i64) -> EventRecord {
    EventRecord { at_ms: i, level: "info".to_string(), kind: "test".to_string(), message: format!("event {i}") }
}

#[test]
fn event_log_keeps_the_latest_entries() {
    let mut events = Vec::new();
    for i in 0..(MAX_EVENTS as i64 + 5) {
        push_event_record(&mut events, record(i));
    }
    assert_eq!(events.len(), MAX_EVENTS);
    assert_eq!(events[0].at_ms, 5);
    assert_eq!(events[MAX_EVENTS - 1].at_ms, MAX_EVENTS as i64 + 4);
}

#[test]
fn short_event_log_keeps_everything() {
    let mut events = Vec::new();
    push_event_record(&mut events, record(1));
    let (line, write) = push_event(&mut events, None, "warn", "bridge", "stopped".to_string());
    assert_eq!(line, "[event] level=warn kind=bridge message=stopped");
    assert_eq!(write, None);
    assert_eq!(events.len(), 2);
    assert_eq!(events[0].at_ms, 1);
    assert_eq!(events[1].level, "warn");
    assert_eq!(events[1].kind, "bridge");
    assert_eq!(events[1].message, "stopped");
}
