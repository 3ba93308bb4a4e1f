use tunnel_mate::event_log::{
    newest_in, push_capped, retain_latest_lines, EventLogger, EventType, LogEvent, MAX_EVENT_COUNT,
};
use tunnel_mate::store::ConfigStore;
use tunnel_mate::event_log::needs_compaction;

fn event(id: &str) -> LogEvent {
    LogEvent {
        id: id.to_string(),
        session_id: None,
        timestamp: "2024-01-01T00:00:00Z".to_string(),
        tunnel_id: None,
        tunnel_name: None,
        event_type: EventType::Started,
        message: id.to_string(),
    }
}

#[test]
fn retention_keeps_the_latest_large_lines() {
    let payload = "x".repeat(3000);
    let lines: Vec<String> = (0..1050).map(|index| format!("{index}:{payload}")).collect();
    let kept = retain_latest_lines(lines);
    assert!(kept.len() <= MAX_EVENT_COUNT);
    assert!(kept.iter().map(|l| l.len() + 1).sum::<usize>() <= 2 * 1024 * 1024);
    assert!(kept.last().unwrap().starts_with("1049:"));
}

#[test]
fn keeps_the_newest_thousand_lines_and_skips_blank_ones() {
    let mut lines: Vec<String> = (0..1005).map(|i| i.to_string()).collect();
    lines.insert(3, "   ".to_string());
    let kept = retain_latest_lines(lines);
    assert_eq!(kept.len(), 1000);
    assert_eq!(kept[0], "5");
    assert_eq!(kept[999], "1004");
}

#[test]
fn in_memory_log_is_capped_and_read_newest_first() {
    let mut events = Vec::new();
    for i in 0..1002 {
        push_capped(&mut events, event(&i.to_string()));
    }
    assert_eq!(events.len(), 1000);
    assert_eq!(events[0].id, "2");
    let newest = newest_in(&events, 0, 3);
    assert_eq!(newest.iter().map(|e| e.id.as_str()).collect::<Vec<_>>(), vec!["1001", "1000", "999"]);
    assert!(newest_in(&events, 1000, 1010).is_empty());
    assert_eq!(newest_in(&events, 998, 1010).len(), 2);
}

#[test]
fn new_events_carry_their_fields() {
    let logger = EventLogger::with_store(ConfigStore::from_base_path("/tmp/tm".to_string()));
    assert_eq!(logger.events_path(), "/tmp/tm/events.json");
    let e = logger.new_event(
        Some("s".to_string()),
        Some("t".to_string()),
        Some("Name".to_string()),
        EventType::Failed,
        "boom".to_string(),
    );
    assert_eq!(e.session_id.as_deref(), Some("s"));
    assert_eq!(e.tunnel_id.as_deref(), Some("t"));
    assert_eq!(e.event_type, EventType::Failed);
    assert_eq!(e.message, "boom");
    assert!(!e.id.is_empty());
    assert!(!e.timestamp.is_empty());
}

#[test]
fn new_event_ids_are_version_four_uuids() {
    let logger = EventLogger::with_store(ConfigStore::from_base_path("/tmp/tm".to_string()));
    let a = logger.new_event(None, None, None, EventType::Failed, "a".to_string());
    let b = logger.new_event(None, None, None, EventType::Failed, "b".to_string());
    assert!(is_uuid_v4_text(&a.id));
    assert!(is_uuid_v4_text(&b.id));
    assert_ne!(a.id, b.id);
}

fn is_uuid_v4_text(s: &str) -> bool {
    let c: Vec<char> = s.chars().collect();
    c.len() == 36
        && c.iter().enumerate().all(|(i, ch)| {
            if [8, 13, 18, 23].contains(&i) { *ch == '-' } else { ch.is_ascii_digit() || ('a'..='f').contains(ch) }
        })
        && c[14] == '4'
        && ['8', '9', 'a', 'b'].contains(&c[19])
}


#[test]
fn compaction_starts_past_the_byte_limit() {
    assert!(!needs_compaction(2 * 1024 * 1024));
    assert!(needs_compaction(2 * 1024 * 1024 + 1));
}

#[test]
fn compacting_a_compacted_log_changes_nothing() {
    let mut lines: Vec<String> = Vec::new();
    for i in 0..1200 {
        lines.push(if i % 7 == 0 { "   ".to_string() } else { format!("{{\"id\":\"{i}\"}}") });
    }
    let once = retain_latest_lines(lines);
    let twice = retain_latest_lines(once.clone());
    assert_eq!(twice, once);
}
