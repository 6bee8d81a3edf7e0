use kobo_wifi_remote::codec::{create_action_events, encode, ActionEvent, DecodeError, EventLayout};
use kobo_wifi_remote::event::{RawEvent, ABS_X, EV_ABS, EV_SYN, SYN_REPORT};

fn layouts() -> Vec<EventLayout> {
    vec![
        EventLayout { time_bytes: 8, little_endian: true },
        EventLayout { time_bytes: 8, little_endian: false },
        EventLayout { time_bytes: 4, little_endian: true },
        EventLayout { time_bytes: 4, little_endian: false },
    ]
}

#[test]
fn encode_then_decode_gives_the_event_back() {
    let e = RawEvent::new(12, 345678, EV_ABS, ABS_X, -42);
    for l in layouts() {
        let buf = encode(&e, &l);
        assert_eq!(buf.len(), 2 * l.time_bytes + 8);
        let ae = ActionEvent { buf, sleep_duration_us: None };
        assert_eq!(ae.input_event(&l), Ok(e));
    }
}

#[test]
fn little_endian_layout_bytes() {
    let e = RawEvent::new(1, 2, 3, 4, 0x01020304);
    let l = EventLayout { time_bytes: 4, little_endian: true };
    assert_eq!(encode(&e, &l), vec![1, 0, 0, 0, 2, 0, 0, 0, 3, 0, 4, 0, 4, 3, 2, 1]);
    let b = EventLayout { time_bytes: 4, little_endian: false };
    assert_eq!(encode(&e, &b), vec![0, 0, 0, 1, 0, 0, 0, 2, 0, 3, 0, 4, 1, 2, 3, 4]);
}

#[test]
fn native_layout_matches_the_machine() {
    let l = EventLayout::native();
    assert_eq!(l.time_bytes, std::mem::size_of::<nix::libc::time_t>());
    assert_eq!(l.little_endian, cfg_little());
    let e = RawEvent::new(7, 8, EV_SYN, SYN_REPORT, 9);
    let buf = encode(&e, &l);
    let value_at = buf.len() - 4;
    assert_eq!(buf[value_at..].to_vec(), 9i32.to_ne_bytes().to_vec());
}

fn cfg_little() -> bool {
    1u16.to_ne_bytes()[0] == 1
}

#[test]
fn wrong_length_fails_decode() {
    let l = EventLayout { time_bytes: 8, little_endian: true };
    for n in [0usize, 23, 25, 16] {
        let ae = ActionEvent { buf: vec![0; n], sleep_duration_us: None };
        assert_eq!(
            ae.input_event(&l),
            Err(DecodeError::WrongLength { expected: 24, found: n })
        );
    }
}

#[test]
fn set_value_changes_only_the_value() {
    let l = EventLayout { time_bytes: 8, little_endian: true };
    let e = RawEvent::new(3, 4, EV_ABS, ABS_X, 10);
    let mut ae = ActionEvent { buf: encode(&e, &l), sleep_duration_us: Some(5) };
    ae.set_value(777, &l);
    assert_eq!(ae.input_event(&l), Ok(RawEvent::new(3, 4, EV_ABS, ABS_X, 777)));
    assert_eq!(ae.sleep_duration_us, Some(5));
}

#[test]
fn set_time_changes_only_the_time() {
    let l = EventLayout { time_bytes: 4, little_endian: false };
    let e = RawEvent::new(3, 4, EV_ABS, ABS_X, 10);
    let mut ae = ActionEvent { buf: encode(&e, &l), sleep_duration_us: None };
    ae.set_time(2_500_001, &l);
    assert_eq!(ae.input_event(&l), Ok(RawEvent::new(2, 500_001, EV_ABS, ABS_X, 10)));
}

#[test]
fn capture_times_are_relative_and_pauses_sleep() {
    let l = EventLayout { time_bytes: 8, little_endian: true };
    let events = vec![
        RawEvent::new(100, 999_999, EV_ABS, ABS_X, 1),
        RawEvent::new(101, 100, EV_SYN, SYN_REPORT, 0),
        RawEvent::new(101, 400, EV_ABS, ABS_X, 2),
        RawEvent::new(102, 400, EV_SYN, SYN_REPORT, 0),
    ];
    let out = create_action_events(&events, &l);
    assert_eq!(out.len(), 4);
    let decoded: Vec<RawEvent> = out.iter().map(|a| a.input_event(&l).unwrap()).collect();
    assert_eq!((decoded[0].tv_sec, decoded[0].tv_usec), (0, 1));
    assert_eq!((decoded[1].tv_sec, decoded[1].tv_usec), (0, 102));
    assert_eq!((decoded[3].tv_sec, decoded[3].tv_usec), (1, 402));
    // gaps of 101, 300 and 1_000_000 microseconds
    assert_eq!(out[0].sleep_duration_us, None);
    assert_eq!(out[1].sleep_duration_us, None);
    assert_eq!(out[2].sleep_duration_us, Some(999_850));
    assert_eq!(out[3].sleep_duration_us, None);
}
