use kobo_wifi_remote::arbitrary::{
    split_template, CursorMsg, InputAction, InputError, InputManager, InputMsg, InputOptions, ScreenState,
};
use kobo_wifi_remote::codec::{create_action_events, ActionEvent, EventLayout};
use kobo_wifi_remote::cursor::CursorManager;
use kobo_wifi_remote::event::{RawEvent, ABS_X, ABS_Y, BTN_TOUCH, EV_ABS, EV_KEY, EV_SYN, SYN_REPORT};
use kobo_wifi_remote::store::ActionRecording;
use kobo_wifi_remote::transform::{CanonicalRotation, Coord, TouchFlags};

const L: EventLayout = EventLayout { time_bytes: 8, little_endian: true };

fn template_events() -> Vec<ActionEvent> {
    let events = vec![
        RawEvent::new(0, 1, EV_ABS, ABS_X, 100),
        RawEvent::new(0, 1, EV_ABS, ABS_Y, 200),
        RawEvent::new(0, 1, EV_KEY, BTN_TOUCH, 1),
        RawEvent::new(0, 1, EV_SYN, SYN_REPORT, 0),
        RawEvent::new(0, 2, EV_ABS, ABS_X, 101),
        RawEvent::new(0, 2, EV_ABS, ABS_Y, 201),
        RawEvent::new(0, 2, EV_SYN, SYN_REPORT, 0),
        RawEvent::new(0, 3, EV_KEY, BTN_TOUCH, 0),
        RawEvent::new(0, 3, EV_SYN, SYN_REPORT, 0),
    ];
    create_action_events(&events, &L)
}

fn template(optimized: bool) -> ActionRecording {
    ActionRecording {
        rotation: CanonicalRotation::Upright,
        events: template_events(),
        dev_path: "/dev/input/event1".to_string(),
        dev_name: "touch".to_string(),
        is_optimized: optimized,
    }
}

fn screen() -> ScreenState {
    ScreenState {
        width: 1000,
        height: 2000,
        rotation: CanonicalRotation::Upright,
        touch: TouchFlags { swap_axes: false, mirror_x: false, mirror_y: false },
    }
}

fn written(actions: &[InputAction]) -> Vec<RawEvent> {
    actions
        .iter()
        .filter_map(|a| match a {
            InputAction::Write(b) => Some(ActionEvent { buf: b.clone(), sleep_duration_us: None }.input_event(&L).unwrap()),
            _ => None,
        })
        .collect()
}

#[test]
fn template_splits_into_three_batches() {
    let (a, b, c) = split_template(template_events(), &L).unwrap();
    assert_eq!((a.len(), b.len(), c.len()), (4, 3, 2));
}

#[test]
fn template_with_other_batch_count_is_refused() {
    let mut events = template_events();
    events.truncate(7);
    assert_eq!(split_template(events, &L).err(), Some(InputError::BatchCount(2)));
    let mut bad = template_events();
    bad[0].buf.pop();
    assert!(matches!(split_template(bad, &L), Err(InputError::Decode(_))));
}

#[test]
fn unoptimized_template_is_refused() {
    let r = InputManager::new(template(false), L, screen(), &InputOptions::default());
    assert_eq!(r.err().map(|_| ()), Some(()));
    assert!(matches!(
        InputManager::new(template(false), L, screen(), &InputOptions::default()),
        Err(InputError::NotOptimized)
    ));
}

#[test]
fn gesture_writes_batches_at_the_point() {
    let mut m = InputManager::new(template(true), L, screen(), &InputOptions::default()).unwrap();
    let connect = m.client_connect(screen());
    assert!(matches!(connect[0], InputAction::StartCursor));
    // the cursor rests at the center of the area it can cover: (1000 - 32) / 2, (2000 - 50) / 2
    assert!(matches!(connect[1], InputAction::Cursor(CursorMsg::Draw(Coord { x: 484, y: 975 }))));

    let start = m.input_start(Some(Coord { x: 10, y: 20 }), 5_000_000);
    assert!(matches!(start[0], InputAction::Cursor(CursorMsg::Hide)));
    let w = written(&start);
    assert_eq!(w.len(), 4);
    assert_eq!((w[0].value, w[1].value), (10, 20));
    assert_eq!((w[0].tv_sec, w[0].tv_usec), (0, 1));

    let mv = m.input_move_abs(Coord { x: 30, y: 40 }, 7_500_000);
    let w = written(&mv);
    assert_eq!((w[0].value, w[1].value), (30, 40));
    assert_eq!((w[0].tv_sec, w[0].tv_usec), (2, 500_000));

    let stop = m.input_stop(None, 8_000_000);
    let w = written(&stop);
    assert_eq!(w.len(), 5);
    assert_eq!((w[0].value, w[1].value), (31, 41));
    assert_eq!(w[3].code, BTN_TOUCH);
    assert_eq!(w[3].value, 0);
    assert!(matches!(stop[5], InputAction::Sleep(1500)));
    assert!(matches!(stop[6], InputAction::Cursor(CursorMsg::ReloadBackground)));
    assert!(m.start_time_us.is_none());
}

#[test]
fn hover_moves_only_the_cursor() {
    let mut m = InputManager::new(template(true), L, screen(), &InputOptions::default()).unwrap();
    m.client_connect(screen());
    let mv = m.input_move_abs(Coord { x: 5, y: 6 }, 1);
    assert_eq!(mv.len(), 1);
    assert!(matches!(mv[0], InputAction::Cursor(CursorMsg::Draw(Coord { x: 5, y: 6 }))));
    let rel = m.input_move_rel(Coord { x: -100, y: 5000 }, 2);
    assert!(matches!(rel[0], InputAction::Cursor(CursorMsg::Draw(Coord { x: 0, y: 1950 }))));
}

#[test]
fn rotated_screen_translates_the_point() {
    let mut s = screen();
    s.rotation = CanonicalRotation::Clockwise;
    let mut m = InputManager::new(template(true), L, s, &InputOptions::default()).unwrap();
    let start = m.input_start(Some(Coord { x: 10, y: 20 }), 0);
    let w = written(&start);
    assert_eq!((w[0].value, w[1].value), (1979, 10));
}

#[test]
fn shutdown_stops_the_loop() {
    let mut m = InputManager::new(template(true), L, screen(), &InputOptions::default()).unwrap();
    let (_, go_on) = m.handle_msg(InputMsg::ClientConnect, 0, screen());
    assert!(go_on);
    let (actions, go_on) = m.handle_msg(InputMsg::Shutdown, 0, screen());
    assert!(!go_on);
    assert!(matches!(actions[0], InputAction::Cursor(CursorMsg::Hide)));
    assert!(matches!(actions[1], InputAction::Cursor(CursorMsg::Stop)));
    assert!(!m.cursor_running);
}

#[test]
fn reinit_recenters() {
    let mut m = InputManager::new(template(true), L, screen(), &InputOptions::default()).unwrap();
    m.client_connect(screen());
    m.input_move_abs(Coord { x: 5, y: 6 }, 1);
    let mut s = screen();
    s.width = 500;
    let actions = m.reinit(s);
    assert!(matches!(actions[1], InputAction::Sleep(100)));
    assert!(matches!(actions[4], InputAction::Cursor(CursorMsg::Draw(Coord { x: 234, y: 975 }))));
    assert_eq!(m.current_coord, Some(Coord { x: 234, y: 975 }));
}

#[test]
fn cursor_debounce() {
    let mut c = CursorManager::new(200);
    assert!(c.on_draw(Coord { x: 100, y: 100 }, 0));
    c.drawn(Coord { x: 100, y: 100 }, 0);
    assert!(!c.on_draw(Coord { x: 100, y: 100 }, 1_000_000));
    assert!(!c.on_draw(Coord { x: 300, y: 300 }, 100_000));
    assert!(!c.on_draw(Coord { x: 104, y: 96 }, 1_000_000));
    assert!(c.on_draw(Coord { x: 106, y: 100 }, 1_000_000));
    assert_eq!(c.on_timeout(), Some(Coord { x: 106, y: 100 }));
    c.drawn(Coord { x: 106, y: 100 }, 1_000_000);
    assert_eq!(c.on_timeout(), None);
    assert!(c.hidden());
    assert!(!c.hidden());
    c.reinit();
    assert_eq!(c.on_timeout(), None);
}
