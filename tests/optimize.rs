use kobo_wifi_remote::event::{
    RawEvent, ABS_MT_POSITION_X, ABS_MT_POSITION_Y, ABS_MT_SLOT, ABS_MT_TOUCH_MAJOR,
    ABS_MT_TRACKING_ID, ABS_MT_WIDTH_MAJOR, ABS_PRESSURE, ABS_X, ABS_Y, BTN_TOUCH, EV_ABS,
    EV_KEY, EV_SYN, SYN_MT_REPORT, SYN_REPORT,
};
use kobo_wifi_remote::optimize::optimize_events;

fn input_event(tv_sec: i64, tv_usec: i64, code: (u16, u16), value: i32) -> RawEvent {
    RawEvent::new(tv_sec, tv_usec, code.0, code.1, value)
}

fn abs(c: u16) -> (u16, u16) {
    (EV_ABS, c)
}

fn key(c: u16) -> (u16, u16) {
    (EV_KEY, c)
}

fn syn(c: u16) -> (u16, u16) {
    (EV_SYN, c)
}

fn second_x_missing_input() -> Vec<RawEvent> {
    vec![
        input_event(1705963814, 769621, abs(ABS_Y), 51),
        input_event(1705963814, 769664, abs(ABS_X), 522),
        input_event(1705963814, 769678, abs(ABS_PRESSURE), 100),
        input_event(1705963814, 769693, key(BTN_TOUCH), 1),
        input_event(1705963814, 769705, syn(SYN_REPORT), 0),
        input_event(1705963814, 798527, abs(ABS_Y), 51),
        input_event(1705963814, 798576, abs(ABS_PRESSURE), 100),
        input_event(1705963814, 798598, syn(SYN_REPORT), 0),
        input_event(1705963814, 807840, abs(ABS_PRESSURE), 0),
        input_event(1705963814, 807881, key(BTN_TOUCH), 0),
        input_event(1705963814, 807892, syn(SYN_REPORT), 0),
    ]
}

fn second_batch_missing_input() -> Vec<RawEvent> {
    vec![
        input_event(1705963814, 769621, abs(ABS_Y), 51),
        input_event(1705963814, 769664, abs(ABS_X), 522),
        input_event(1705963814, 769678, abs(ABS_PRESSURE), 100),
        input_event(1705963814, 769693, key(BTN_TOUCH), 1),
        input_event(1705963814, 769705, syn(SYN_REPORT), 0),
        input_event(1705963814, 807840, abs(ABS_PRESSURE), 0),
        input_event(1705963814, 807881, key(BTN_TOUCH), 0),
        input_event(1705963814, 807892, syn(SYN_REPORT), 0),
    ]
}

#[test]
fn optimize_events_second_x_missing() {
    let mut events = second_x_missing_input();
    let expected = vec![
        input_event(1705963814, 769621, abs(ABS_Y), 51),
        input_event(1705963814, 769621, abs(ABS_X), 522),
        input_event(1705963814, 769621, abs(ABS_PRESSURE), 100),
        input_event(1705963814, 769621, key(BTN_TOUCH), 1),
        input_event(1705963814, 769621, syn(SYN_REPORT), 0),
        input_event(1705963814, 769622, abs(ABS_X), 523),
        input_event(1705963814, 769622, abs(ABS_Y), 52),
        input_event(1705963814, 769622, abs(ABS_PRESSURE), 100),
        input_event(1705963814, 769622, syn(SYN_REPORT), 0),
        input_event(1705963814, 769623, abs(ABS_PRESSURE), 0),
        input_event(1705963814, 769623, key(BTN_TOUCH), 0),
        input_event(1705963814, 769623, syn(SYN_REPORT), 0),
    ];
    let syn_gap = 1;
    optimize_events(&mut events, syn_gap);
    assert_eq!(expected, events);
}

#[test]
fn optimize_events_second_batch_missing() {
    let mut events = second_batch_missing_input();
    let expected = vec![
        input_event(1705963814, 769621, abs(ABS_Y), 51),
        input_event(1705963814, 769621, abs(ABS_X), 522),
        input_event(1705963814, 769621, abs(ABS_PRESSURE), 100),
        input_event(1705963814, 769621, key(BTN_TOUCH), 1),
        input_event(1705963814, 769621, syn(SYN_REPORT), 0),
        input_event(1705963814, 769622, abs(ABS_Y), 52),
        input_event(1705963814, 769622, abs(ABS_X), 523),
        input_event(1705963814, 769622, abs(ABS_PRESSURE), 100),
        input_event(1705963814, 769622, syn(SYN_REPORT), 0),
        input_event(1705963814, 769623, abs(ABS_PRESSURE), 0),
        input_event(1705963814, 769623, key(BTN_TOUCH), 0),
        input_event(1705963814, 769623, syn(SYN_REPORT), 0),
    ];
    let syn_gap = 1;
    optimize_events(&mut events, syn_gap);
    assert_eq!(expected, events);
}

#[test]
fn input_optimize_events_second_x_missing() {
    let mut events = second_x_missing_input();
    let expected = input_event(1705963814, 769622, abs(ABS_X), 523);
    let syn_gap = 1;
    optimize_events(&mut events, syn_gap);
    assert_eq!(expected, events[5]);
}

#[test]
fn input_optimize_events_second_batch_missing() {
    let mut events = second_batch_missing_input();
    let expected = vec![
        input_event(1705963814, 769621, abs(ABS_Y), 51),
        input_event(1705963814, 769621, abs(ABS_X), 522),
        input_event(1705963814, 769621, abs(ABS_PRESSURE), 100),
        input_event(1705963814, 769621, key(BTN_TOUCH), 1),
        input_event(1705963814, 769621, syn(SYN_REPORT), 0),
        input_event(1705963814, 769622, abs(ABS_Y), 52),
        input_event(1705963814, 769622, abs(ABS_X), 523),
        input_event(1705963814, 769622, abs(ABS_PRESSURE), 100),
        input_event(1705963814, 769622, syn(SYN_REPORT), 0),
        input_event(1705963814, 769623, abs(ABS_PRESSURE), 0),
        input_event(1705963814, 769623, key(BTN_TOUCH), 0),
        input_event(1705963814, 769623, syn(SYN_REPORT), 0),
    ];
    let syn_gap = 1;
    optimize_events(&mut events, syn_gap);
    assert_eq!(expected, events);
}

fn multiple_syn_reports_input() -> Vec<RawEvent> {
    vec![
        input_event(0, 1, abs(ABS_MT_TRACKING_ID), 1),
        input_event(0, 731, abs(ABS_MT_TOUCH_MAJOR), 1),
        input_event(0, 769, abs(ABS_MT_WIDTH_MAJOR), 1),
        input_event(0, 788, abs(ABS_MT_POSITION_X), 790),
        input_event(0, 800, abs(ABS_MT_POSITION_Y), 1012),
        input_event(0, 814, syn(SYN_MT_REPORT), 0),
        input_event(0, 824, syn(SYN_REPORT), 0),
        input_event(0, 42261, abs(ABS_MT_TRACKING_ID), 1),
        input_event(0, 43031, abs(ABS_MT_TOUCH_MAJOR), 1),
        input_event(0, 43061, abs(ABS_MT_WIDTH_MAJOR), 1),
        input_event(0, 43079, abs(ABS_MT_POSITION_X), 791),
        input_event(0, 43091, abs(ABS_MT_POSITION_Y), 1012),
        input_event(0, 43105, syn(SYN_MT_REPORT), 0),
        input_event(0, 43117, syn(SYN_REPORT), 0),
        input_event(0, 52835, abs(ABS_MT_TRACKING_ID), 1),
        input_event(0, 52878, abs(ABS_MT_TOUCH_MAJOR), 1),
        input_event(0, 52887, abs(ABS_MT_WIDTH_MAJOR), 1),
        input_event(0, 52898, abs(ABS_MT_POSITION_X), 793),
        input_event(0, 52910, abs(ABS_MT_POSITION_Y), 1011),
        input_event(0, 52922, syn(SYN_MT_REPORT), 0),
        input_event(0, 52932, syn(SYN_REPORT), 0),
        input_event(0, 63256, abs(ABS_MT_TRACKING_ID), 1),
        input_event(0, 63294, abs(ABS_MT_TOUCH_MAJOR), 1),
        input_event(0, 63302, abs(ABS_MT_WIDTH_MAJOR), 1),
        input_event(0, 63314, abs(ABS_MT_POSITION_X), 796),
        input_event(0, 63325, abs(ABS_MT_POSITION_Y), 1009),
        input_event(0, 63338, syn(SYN_MT_REPORT), 0),
        input_event(0, 63347, syn(SYN_REPORT), 0),
        input_event(0, 73467, abs(ABS_MT_TRACKING_ID), 1),
        input_event(0, 73941, abs(ABS_MT_TOUCH_MAJOR), 0),
        input_event(0, 74155, abs(ABS_MT_WIDTH_MAJOR), 0),
        input_event(0, 74191, abs(ABS_MT_POSITION_X), 796),
        input_event(0, 74205, abs(ABS_MT_POSITION_Y), 1009),
        input_event(0, 74219, syn(SYN_MT_REPORT), 0),
        input_event(0, 74231, syn(SYN_REPORT), 0),
    ]
}

#[test]
// test that optimizing works when there are two types of SYN reports as on the Aura H20v1
fn optimize_events_multiple_syn_reports() {
    let mut events = multiple_syn_reports_input();
    let expected = vec![
        input_event(0, 1, abs(ABS_MT_TRACKING_ID), 1),
        input_event(0, 1, abs(ABS_MT_TOUCH_MAJOR), 1),
        input_event(0, 1, abs(ABS_MT_WIDTH_MAJOR), 1),
        input_event(0, 1, abs(ABS_MT_POSITION_X), 790),
        input_event(0, 1, abs(ABS_MT_POSITION_Y), 1012),
        input_event(0, 1, syn(SYN_MT_REPORT), 0),
        input_event(0, 1, syn(SYN_REPORT), 0),
        input_event(0, 2, abs(ABS_MT_TRACKING_ID), 1),
        input_event(0, 2, abs(ABS_MT_TOUCH_MAJOR), 1),
        input_event(0, 2, abs(ABS_MT_WIDTH_MAJOR), 1),
        input_event(0, 2, abs(ABS_MT_POSITION_X), 796),
        input_event(0, 2, abs(ABS_MT_POSITION_Y), 1009),
        input_event(0, 2, syn(SYN_MT_REPORT), 0),
        input_event(0, 2, syn(SYN_REPORT), 0),
        input_event(0, 3, abs(ABS_MT_TRACKING_ID), 1),
        input_event(0, 3, abs(ABS_MT_TOUCH_MAJOR), 0),
        input_event(0, 3, abs(ABS_MT_WIDTH_MAJOR), 0),
        input_event(0, 3, abs(ABS_MT_POSITION_X), 796),
        input_event(0, 3, abs(ABS_MT_POSITION_Y), 1009),
        input_event(0, 3, syn(SYN_MT_REPORT), 0),
        input_event(0, 3, syn(SYN_REPORT), 0),
    ];
    let syn_gap = 1;
    optimize_events(&mut events, syn_gap);
    assert_eq!(expected, events);
}

#[test]
fn two_taps_are_left_unchanged() {
    let mut events = vec![
        input_event(5, 0, abs(ABS_X), 10),
        input_event(5, 1, key(BTN_TOUCH), 1),
        input_event(5, 2, syn(SYN_REPORT), 0),
        input_event(5, 3, key(BTN_TOUCH), 0),
        input_event(5, 4, syn(SYN_REPORT), 0),
        input_event(6, 0, abs(ABS_X), 20),
        input_event(6, 1, key(BTN_TOUCH), 1),
        input_event(6, 2, syn(SYN_REPORT), 0),
        input_event(6, 3, key(BTN_TOUCH), 0),
        input_event(6, 4, syn(SYN_REPORT), 0),
    ];
    let original = events.clone();
    let optimized = optimize_events(&mut events, 1);
    assert!(!optimized);
    assert_eq!(original, events);
}

#[test]
fn two_slots_are_left_unchanged() {
    let mut events = vec![
        input_event(1, 0, abs(ABS_MT_SLOT), 0),
        input_event(1, 1, syn(SYN_REPORT), 0),
        input_event(1, 2, abs(ABS_MT_SLOT), 1),
        input_event(1, 3, syn(SYN_REPORT), 0),
    ];
    let original = events.clone();
    assert!(!optimize_events(&mut events, 1));
    assert_eq!(original, events);
}

#[test]
fn empty_and_single_batch_are_left_unchanged() {
    let mut empty: Vec<RawEvent> = Vec::new();
    assert!(!optimize_events(&mut empty, 1));
    assert!(empty.is_empty());
    let mut single = vec![
        input_event(1, 0, abs(ABS_X), 3),
        input_event(1, 1, syn(SYN_REPORT), 0),
    ];
    let original = single.clone();
    assert!(!optimize_events(&mut single, 1));
    assert_eq!(original, single);
}

#[test]
fn optimizing_twice_changes_nothing() {
    for input in [second_x_missing_input(), second_batch_missing_input(), multiple_syn_reports_input()] {
        let mut once = input.clone();
        assert!(optimize_events(&mut once, 1));
        let mut twice = once.clone();
        optimize_events(&mut twice, 1);
        assert_eq!(once, twice);
    }
}

fn batches(events: &[RawEvent]) -> Vec<Vec<RawEvent>> {
    let mut out = Vec::new();
    let mut cur = Vec::new();
    for e in events {
        cur.push(*e);
        if e.ev_type == EV_SYN && e.code == SYN_REPORT {
            out.push(std::mem::take(&mut cur));
        }
    }
    if !cur.is_empty() {
        out.push(cur);
    }
    out
}

#[test]
fn optimized_has_three_batches_and_distinct_ends() {
    let mut events = vec![
        input_event(2, 0, abs(ABS_X), 100),
        input_event(2, 1, abs(ABS_Y), 200),
        input_event(2, 2, key(BTN_TOUCH), 1),
        input_event(2, 3, syn(SYN_REPORT), 0),
        input_event(2, 900, abs(ABS_X), 150),
        input_event(2, 901, syn(SYN_REPORT), 0),
        input_event(2, 1900, abs(ABS_X), 100),
        input_event(2, 1901, abs(ABS_Y), 200),
        input_event(2, 1902, syn(SYN_REPORT), 0),
        input_event(2, 2900, key(BTN_TOUCH), 0),
        input_event(2, 2901, syn(SYN_REPORT), 0),
    ];
    assert!(optimize_events(&mut events, 7));
    let b = batches(&events);
    assert_eq!(b.len(), 3);
    let last_x = events.iter().rev().find(|e| e.ev_type == EV_ABS && e.code == ABS_X).unwrap();
    let last_y = events.iter().rev().find(|e| e.ev_type == EV_ABS && e.code == ABS_Y).unwrap();
    assert_eq!(last_x.value, 101);
    assert_eq!(last_y.value, 201);
    assert_eq!(b[1][0].tv_usec, 7);
    assert_eq!(b[2][0].tv_usec, 14);
}
