use kobo_wifi_remote::actions::{
    gap_fits_i64, resolve_path_segment, ActionError, ActionManager, ListActionResponse, RecordActionOptions,
};
use kobo_wifi_remote::capture::{choose_device, reader_should_stop, CaptureError, ReaderOutcome};
use kobo_wifi_remote::codec::EventLayout;
use kobo_wifi_remote::event::{RawEvent, ABS_X, BTN_TOUCH, EV_ABS, EV_KEY, EV_SYN, SYN_REPORT};
use kobo_wifi_remote::store::{ActionOptions, ActionRecording, ActionsFile, LookupError, RecordingsFile};
use kobo_wifi_remote::transform::CanonicalRotation;

fn manager() -> ActionManager {
    ActionManager::new(
        ActionsFile::empty("actions.toml".to_string()),
        RecordingsFile::empty("recordings.bin".to_string()),
        0,
    )
}

fn recording(rotation: CanonicalRotation) -> ActionRecording {
    let l = EventLayout { time_bytes: 8, little_endian: true };
    let events = vec![
        RawEvent::new(1, 0, EV_ABS, ABS_X, 5),
        RawEvent::new(1, 1, EV_KEY, BTN_TOUCH, 1),
        RawEvent::new(1, 2, EV_SYN, SYN_REPORT, 0),
        RawEvent::new(1, 3, EV_KEY, BTN_TOUCH, 0),
        RawEvent::new(1, 4, EV_SYN, SYN_REPORT, 0),
    ];
    ActionRecording::from_capture(
        events,
        true,
        1,
        rotation,
        "/dev/input/event1".to_string(),
        "/dev/input/event1 (touch)".to_string(),
        &l,
    )
}

fn opts(name: &str, path_segment: Option<&str>) -> RecordActionOptions {
    let mut o = RecordActionOptions::default();
    o.name = name.to_string();
    o.path_segment = path_segment.map(|s| s.to_string());
    o
}

#[test]
fn device_with_most_events_is_chosen() {
    let outcomes = vec![ReaderOutcome::Events(3), ReaderOutcome::Events(50)];
    assert_eq!(choose_device(&outcomes), Ok(1));
    let outcomes = vec![ReaderOutcome::Events(50), ReaderOutcome::NoEvents, ReaderOutcome::Events(3)];
    assert_eq!(choose_device(&outcomes), Ok(0));
    let ties = vec![ReaderOutcome::Events(4), ReaderOutcome::Events(4)];
    assert_eq!(choose_device(&ties), Ok(1));
}

#[test]
fn capture_errors() {
    let outcomes = vec![ReaderOutcome::Events(3), ReaderOutcome::Error];
    assert_eq!(choose_device(&outcomes), Err(CaptureError::TryAgain));
    let outcomes = vec![ReaderOutcome::NoEvents, ReaderOutcome::NoEvents];
    assert_eq!(choose_device(&outcomes), Err(CaptureError::NoInputDetected));
    assert_eq!(choose_device(&Vec::new()), Err(CaptureError::NoInputDetected));
}

#[test]
fn reader_timeouts() {
    assert!(!reader_should_stop(4000, None, 5000, 250));
    assert!(reader_should_stop(5001, None, 5000, 250));
    assert!(!reader_should_stop(9000, Some(250), 5000, 250));
    assert!(reader_should_stop(9000, Some(251), 5000, 250));
}

#[test]
fn record_then_play_lookup() {
    let mut m = manager();
    let resp = m
        .record(&opts("Next Page", Some("next-page")), recording(CanonicalRotation::Upright), CanonicalRotation::Upright)
        .unwrap();
    assert_eq!(resp.path_segment, "next-page");
    assert_eq!(resp.name, "Next Page");
    assert_eq!(resp.sort_value, "Next Page");
    assert!(resp.was_optimized);
    assert_eq!(resp.device, "/dev/input/event1 (touch)");
    assert!(m.recording_to_play(&"next-page".to_string(), CanonicalRotation::Upright).is_ok());
    assert_eq!(
        m.recording_to_play(&"next-page".to_string(), CanonicalRotation::Clockwise).err(),
        Some(ActionError::Lookup(LookupError::NoRecordingForRotation {
            path_segment: "next-page".to_string(),
            rotation: CanonicalRotation::Clockwise,
        }))
    );
    assert!(m.recordings.get_any(&"next-page".to_string()).is_ok());
}

#[test]
fn record_uses_the_slug_of_the_name() {
    let o = opts("My Test String!!!1!1", None);
    assert_eq!(resolve_path_segment(&o), "my-test-string-1-1");
    let mut m = manager();
    let resp = m.record(&o, recording(CanonicalRotation::Upright), CanonicalRotation::Upright).unwrap();
    assert_eq!(resp.path_segment, "my-test-string-1-1");
}

#[test]
fn rotation_change_rejects_and_changes_nothing() {
    let mut m = manager();
    let r = m.record(&opts("a", Some("a")), recording(CanonicalRotation::Upright), CanonicalRotation::Clockwise);
    assert_eq!(r.err(), Some(ActionError::RotationChanged));
    assert!(m.actions.data.is_empty());
    assert!(m.recordings.data.is_empty());
}

#[test]
fn second_play_waits_for_the_delay() {
    let mut m = manager();
    m.record(&opts("a", Some("a")), recording(CanonicalRotation::Upright), CanonicalRotation::Upright)
        .unwrap();
    let a = "a".to_string();
    assert_eq!(m.play_wait_us(1_000_000), 0);
    m.finish_play(&a, 1_000_000);
    // the default post-playback delay is 300 ms
    assert_eq!(m.play_wait_us(1_100_000), 200_000);
    assert_eq!(m.play_wait_us(1_300_000), 0);
}

#[test]
fn delete_unknown_is_an_error_and_changes_nothing() {
    let mut m = manager();
    m.record(&opts("a", Some("a")), recording(CanonicalRotation::Upright), CanonicalRotation::Upright)
        .unwrap();
    let r = m.delete(&"b".to_string());
    assert_eq!(r, Err(ActionError::NoAction("b".to_string())));
    assert_eq!(m.actions.data.len(), 1);
    assert_eq!(m.recordings.data.len(), 1);
    assert_eq!(m.delete(&"a".to_string()), Ok(()));
    assert!(m.actions.data.is_empty());
    assert!(m.recordings.data.is_empty());
}

#[test]
fn update_needs_an_existing_action() {
    let mut m = manager();
    let meta = ActionOptions {
        name: "B".to_string(),
        sort_value: "1".to_string(),
        keyboard_shortcut: Some("KeyB".to_string()),
        post_playback_delay_ms: 10,
        voice_trigger: None,
    };
    assert_eq!(m.update("b".to_string(), meta.clone()), Err(ActionError::DoesNotExist("b".to_string())));
    m.record(&opts("b", Some("b")), recording(CanonicalRotation::Upright), CanonicalRotation::Upright)
        .unwrap();
    assert_eq!(m.update("b".to_string(), meta), Ok(()));
    let stored = m.actions.get(&"b".to_string()).unwrap();
    assert_eq!(stored.name, "B");
    assert_eq!(stored.post_playback_delay_ms, 10);
}

#[test]
fn shortcut_names() {
    let mut item = ListActionResponse {
        name: "a".to_string(),
        path_segment: "a".to_string(),
        sort_value: "a".to_string(),
        keyboard_shortcut: None,
        post_playback_delay_ms: 0,
        voice_trigger: None,
    };
    assert_eq!(item.shortcut_name(), "None");
    item.keyboard_shortcut = Some("ArrowRight".to_string());
    assert_eq!(item.shortcut_name(), "ArrowRight");
}

#[test]
fn recordings_fill_rotation_slots() {
    let mut r = RecordingsFile::empty("r.bin".to_string());
    r.add("x".to_string(), recording(CanonicalRotation::UpsideDown), CanonicalRotation::UpsideDown);
    assert!(r.get(&"x".to_string(), CanonicalRotation::Upright).is_err());
    assert_eq!(r.get(&"x".to_string(), CanonicalRotation::UpsideDown).unwrap().rotation, CanonicalRotation::UpsideDown);
    assert_eq!(r.get_any(&"x".to_string()).unwrap().rotation, CanonicalRotation::UpsideDown);
    assert_eq!(
        r.get_any(&"y".to_string()).err(),
        Some(LookupError::NoRecordings { path_segment: "y".to_string() })
    );
    assert!(r.remove(&"x".to_string()));
    assert!(!r.remove(&"x".to_string()));
}

fn meta(name: &str, sort_value: &str, voice: Option<&str>) -> ActionOptions {
    ActionOptions {
        name: name.to_string(),
        sort_value: sort_value.to_string(),
        keyboard_shortcut: None,
        post_playback_delay_ms: 300,
        voice_trigger: voice.map(|v| v.to_string()),
    }
}

#[test]
fn list_is_sorted_by_sort_value_then_identifier() {
    let mut actions = ActionsFile::empty("a.toml".to_string());
    actions.insert("zeta".to_string(), meta("Z", "b", None));
    actions.insert("alpha".to_string(), meta("A", "b", None));
    actions.insert("mid".to_string(), meta("M", "a", None));
    actions.insert("last".to_string(), meta("L", "c", None));
    let m = ActionManager::new(actions, RecordingsFile::empty("r.bin".to_string()), 0);
    let ids: Vec<String> = m.list().into_iter().map(|a| a.path_segment).collect();
    assert_eq!(ids, vec!["mid", "alpha", "zeta", "last"]);
}

#[test]
fn page_turns_get_default_voice_triggers() {
    let mut actions = ActionsFile::empty("a.toml".to_string());
    actions.insert("next-page".to_string(), meta("Next", "1", None));
    actions.insert("prev-page".to_string(), meta("Prev", "2", Some("Back")));
    actions.insert("other".to_string(), meta("Other", "3", None));
    actions.apply_default_voice_triggers();
    assert_eq!(actions.get(&"next-page".to_string()).unwrap().voice_trigger.as_deref(), Some("Forward"));
    assert_eq!(actions.get(&"prev-page".to_string()).unwrap().voice_trigger.as_deref(), Some("Back"));
    assert_eq!(actions.get(&"other".to_string()).unwrap().voice_trigger, None);
}

#[test]
fn gap_check() {
    let e = vec![RawEvent::new(0, i64::MAX - 2, EV_SYN, SYN_REPORT, 0)];
    assert!(!gap_fits_i64(&e, 1));
    assert!(gap_fits_i64(&e, 0));
    assert!(gap_fits_i64(&Vec::new(), i64::MAX));
}
