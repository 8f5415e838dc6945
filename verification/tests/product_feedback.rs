use pilothub::product_feedback::{
    clear_product_feedback, get_product_feedback_status, record_event_with_id,
    record_product_feedback_event,
    set_product_feedback_enabled, ProductFeedbackStore,
};

fn store() -> ProductFeedbackStore {
    ProductFeedbackStore {
        enabled_setting: None,
        events: Vec::new(),
    }
}

fn known_agents() -> Vec<String> {
    vec!["codex".to_string(), "cursor".to_string()]
}

#[test]
fn feedback_is_disabled_by_default() {
    let store = store();
    let status = get_product_feedback_status(&store);
    assert!(!status.enabled);
    assert_eq!(status.event_count, 0);
}

#[test]
fn disabled_feedback_does_not_store_events() {
    let mut store = store();
    let stored = record_product_feedback_event(
        &mut store,
        "install_start",
        "github",
        &["codex".to_string()],
        None,
        &known_agents(),
        1,
    )
    .unwrap();
    assert!(!stored);
    assert_eq!(get_product_feedback_status(&store).event_count, 0);
}

#[test]
fn records_only_sanitized_fields_when_enabled() {
    let mut store = store();
    set_product_feedback_enabled(&mut store, true);
    record_product_feedback_event(
        &mut store,
        "install_fail",
        "local",
        &["codex".to_string(), "private-agent".to_string()],
        Some("permission"),
        &known_agents(),
        1,
    )
    .unwrap();

    let events = &store.events;
    assert_eq!(events.len(), 1);
    assert_eq!(events[0].target_agents, vec!["codex", "other"]);
    assert_eq!(events[0].failure_code.as_deref(), Some("permission"));
}

#[test]
fn rejects_unrecognized_values_and_can_clear_events() {
    let mut store = store();
    set_product_feedback_enabled(&mut store, true);
    assert!(record_product_feedback_event(
        &mut store,
        "file_opened",
        "github",
        &[],
        None,
        &known_agents(),
        1,
    )
    .is_err());
    record_product_feedback_event(
        &mut store,
        "install_success",
        "github",
        &[],
        None,
        &known_agents(),
        2,
    )
    .unwrap();
    assert_eq!(clear_product_feedback(&mut store).event_count, 0);
}

#[test]
fn refused_values_name_their_label_and_leave_the_store_unchanged() {
    let mut store = store();
    set_product_feedback_enabled(&mut store, true);
    let error = record_product_feedback_event(
        &mut store,
        "install_start",
        "ftp",
        &[],
        None,
        &known_agents(),
        1,
    )
    .unwrap_err();
    assert_eq!(error.to_string(), "unsupported product feedback source: ftp");
    let error = record_product_feedback_event(
        &mut store,
        "install_fail",
        "local",
        &[],
        Some("disk_full"),
        &known_agents(),
        2,
    )
    .unwrap_err();
    assert_eq!(
        error.to_string(),
        "unsupported product feedback failure code: disk_full"
    );
    assert!(store.events.is_empty());
}

#[test]
fn agents_are_sorted_and_deduplicated() {
    let mut store = store();
    set_product_feedback_enabled(&mut store, true);
    record_event_with_id(
        &mut store,
        "install_success",
        "github",
        &[
            "cursor".to_string(),
            "x-agent".to_string(),
            "codex".to_string(),
            "cursor".to_string(),
            "y-agent".to_string(),
        ],
        None,
        &known_agents(),
        "event-1".to_string(),
        7,
    )
    .unwrap();
    assert_eq!(
        store.events[0].target_agents,
        vec!["codex", "cursor", "other"]
    );
    assert_eq!(store.events[0].timestamp_ms, 7);
    assert_eq!(store.events[0].id, "event-1");
}

#[test]
fn only_the_newest_events_are_kept() {
    let mut store = store();
    set_product_feedback_enabled(&mut store, true);
    for n in 0..505u64 {
        record_event_with_id(
            &mut store,
            "install_start",
            "local",
            &[],
            None,
            &known_agents(),
            format!("event-{n}"),
            n,
        )
        .unwrap();
    }
    assert_eq!(store.events.len(), 500);
    assert_eq!(store.events[0].id, "event-5");
    assert_eq!(store.events[499].id, "event-504");
}

#[test]
fn enabling_and_disabling_keeps_events() {
    let mut store = store();
    assert!(set_product_feedback_enabled(&mut store, true).enabled);
    record_product_feedback_event(
        &mut store,
        "install_start",
        "local",
        &[],
        None,
        &known_agents(),
        1,
    )
    .unwrap();
    let status = set_product_feedback_enabled(&mut store, false);
    assert!(!status.enabled);
    assert_eq!(status.event_count, 1);
    assert_eq!(store.enabled_setting.as_deref(), Some("false"));
}

#[test]
fn recorded_events_get_fresh_ids() {
    let mut store = store();
    set_product_feedback_enabled(&mut store, true);
    for _ in 0..2 {
        record_product_feedback_event(
            &mut store,
            "install_start",
            "github",
            &[],
            None,
            &known_agents(),
            7,
        )
        .unwrap();
    }
    assert_eq!(store.events.len(), 2);
    assert_eq!(store.events[0].id.len(), 36);
    assert_ne!(store.events[0].id, store.events[1].id);
    assert_eq!(store.events[1].timestamp_ms, 7);
}
