//! Raw input events as read from an evdev device, and the predicates the
//! optimizer and the template splitter use on them.
use vstd::prelude::*;

verus! {

pub const EV_SYN: u16 = 0x00;

pub const EV_KEY: u16 = 0x01;

pub const EV_ABS: u16 = 0x03;

pub const SYN_REPORT: u16 = 0x00;

pub const SYN_MT_REPORT: u16 = 0x02;

pub const BTN_TOUCH: u16 = 0x14a;

pub const ABS_X: u16 = 0x00;

pub const ABS_Y: u16 = 0x01;

pub const ABS_PRESSURE: u16 = 0x18;

pub const ABS_MT_SLOT: u16 = 0x2f;

pub const ABS_MT_TOUCH_MAJOR: u16 = 0x30;

pub const ABS_MT_WIDTH_MAJOR: u16 = 0x32;

pub const ABS_MT_POSITION_X: u16 = 0x35;

pub const ABS_MT_POSITION_Y: u16 = 0x36;

pub const ABS_MT_TRACKING_ID: u16 = 0x39;

/// A device-native input event: a two-field timestamp, a type/code pair and a value.
#[derive(Clone, Copy, Debug, PartialEq, Eq, Structural)]
pub struct RawEvent {
    pub tv_sec: i64,
    pub tv_usec: i64,
    pub ev_type: u16,
    pub code: u16,
    pub value: i32,
}

impl RawEvent {
    pub fn new(tv_sec: i64, tv_usec: i64, ev_type: u16, code: u16, value: i32) -> (r: RawEvent)
        ensures
            r == (RawEvent { tv_sec, tv_usec, ev_type, code, value }),
    {
        RawEvent { tv_sec, tv_usec, ev_type, code, value }
    }
}

pub open spec fn has_code(e: RawEvent, t: u16, c: u16) -> bool {
    e.ev_type == t && e.code == c
}

/// The synchronization marker that ends a batch.
pub open spec fn sync_event(e: RawEvent) -> bool {
    has_code(e, EV_SYN, SYN_REPORT)
}

pub open spec fn x_event(e: RawEvent) -> bool {
    has_code(e, EV_ABS, ABS_X) || has_code(e, EV_ABS, ABS_MT_POSITION_X)
}

pub open spec fn y_event(e: RawEvent) -> bool {
    has_code(e, EV_ABS, ABS_Y) || has_code(e, EV_ABS, ABS_MT_POSITION_Y)
}

/// An event on the X axis (`y == false`) or on the Y axis (`y == true`).
pub open spec fn on_axis(e: RawEvent, y: bool) -> bool {
    if y {
        y_event(e)
    } else {
        x_event(e)
    }
}

pub open spec fn touch_event(e: RawEvent) -> bool {
    has_code(e, EV_KEY, BTN_TOUCH)
}

/// Number of events of `s` with the given type and code.
pub open spec fn count_code(s: Seq<RawEvent>, t: u16, c: u16) -> nat
    decreases s.len(),
{
    if s.len() == 0 {
        0
    } else {
        count_code(s.drop_last(), t, c) + if has_code(s.last(), t, c) {
            1nat
        } else {
            0nat
        }
    }
}

pub open spec fn count_sync(s: Seq<RawEvent>) -> nat {
    count_code(s, EV_SYN, SYN_REPORT)
}

/// Number of batches: runs of events each ended by a synchronization marker,
/// plus a trailing run without one if it is not empty.
pub open spec fn batch_count(s: Seq<RawEvent>) -> nat {
    count_sync(s) + if s.len() > 0 && !sync_event(s.last()) {
        1nat
    } else {
        0nat
    }
}

/// Index of the first synchronization marker at or after `i`, or `s.len()`.
pub open spec fn first_sync_from(s: Seq<RawEvent>, i: int) -> int
    decreases s.len() - i,
{
    if i >= s.len() {
        s.len() as int
    } else if i < 0 {
        first_sync_from(s, 0)
    } else if sync_event(s[i]) {
        i
    } else {
        first_sync_from(s, i + 1)
    }
}

/// Index of the last synchronization marker before `n`, or -1.
pub open spec fn last_sync_before(s: Seq<RawEvent>, n: int) -> int
    decreases n,
{
    if n <= 0 {
        -1
    } else if n > s.len() {
        last_sync_before(s, s.len() as int)
    } else if sync_event(s[n - 1]) {
        n - 1
    } else {
        last_sync_before(s, n - 1)
    }
}

/// Index of the first event on the axis at or after `i`, or `s.len()`.
pub open spec fn first_axis_from(s: Seq<RawEvent>, i: int, y: bool) -> int
    decreases s.len() - i,
{
    if i >= s.len() {
        s.len() as int
    } else if i < 0 {
        first_axis_from(s, 0, y)
    } else if on_axis(s[i], y) {
        i
    } else {
        first_axis_from(s, i + 1, y)
    }
}

/// Index of the last event on the axis before `n`, or -1.
pub open spec fn last_axis_before(s: Seq<RawEvent>, n: int, y: bool) -> int
    decreases n,
{
    if n <= 0 {
        -1
    } else if n > s.len() {
        last_axis_before(s, s.len() as int, y)
    } else if on_axis(s[n - 1], y) {
        n - 1
    } else {
        last_axis_before(s, n - 1, y)
    }
}

/// Two sequences of the same length whose events agree on type and code.
pub open spec fn same_shape(a: Seq<RawEvent>, b: Seq<RawEvent>) -> bool {
    a.len() == b.len() && forall|k: int|
        0 <= k < a.len() ==> (#[trigger] a[k]).ev_type == b[k].ev_type && a[k].code == b[k].code
}

pub fn is_x_coord(ev: &RawEvent) -> (r: bool)
    ensures
        r == x_event(*ev),
{
    ev.ev_type == EV_ABS && (ev.code == ABS_X || ev.code == ABS_MT_POSITION_X)
}

pub fn is_y_coord(ev: &RawEvent) -> (r: bool)
    ensures
        r == y_event(*ev),
{
    ev.ev_type == EV_ABS && (ev.code == ABS_Y || ev.code == ABS_MT_POSITION_Y)
}

pub fn is_on_axis(ev: &RawEvent, y: bool) -> (r: bool)
    ensures
        r == on_axis(*ev, y),
{
    if y {
        is_y_coord(ev)
    } else {
        is_x_coord(ev)
    }
}

pub fn is_sync_marker(ev: &RawEvent) -> (r: bool)
    ensures
        r == sync_event(*ev),
{
    ev.ev_type == EV_SYN && ev.code == SYN_REPORT
}

pub fn is_code(ev: &RawEvent, t: u16, c: u16) -> (r: bool)
    ensures
        r == has_code(*ev, t, c),
{
    ev.ev_type == t && ev.code == c
}

/// Counts the events of `v` with the given type and code.
pub fn count_events(v: &Vec<RawEvent>, t: u16, c: u16) -> (r: usize)
    ensures
        r == count_code(v@, t, c),
{
    let mut n: usize = 0;
    let mut i: usize = 0;
    while i < v.len()
        invariant
            i <= v.len(),
            n == count_code(v@.subrange(0, i as int), t, c),
            n <= i,
        decreases v.len() - i,
    {
        assert(v@.subrange(0, i + 1).drop_last() =~= v@.subrange(0, i as int));
        if is_code(&v[i], t, c) {
            n = n + 1;
        }
        i = i + 1;
    }
    assert(v@.subrange(0, v.len() as int) =~= v@);
    n
}

/// Index of the first synchronization marker, or the length if there is none.
pub fn first_sync_index(v: &Vec<RawEvent>) -> (r: usize)
    ensures
        r == first_sync_from(v@, 0),
{
    let mut i: usize = 0;
    while i < v.len()
        invariant
            i <= v.len(),
            first_sync_from(v@, 0) == first_sync_from(v@, i as int),
        decreases v.len() - i,
    {
        if is_sync_marker(&v[i]) {
            return i;
        }
        i = i + 1;
    }
    i
}

/// Index of the last synchronization marker before `n`, if any.
pub fn last_sync_index(v: &Vec<RawEvent>, n: usize) -> (r: Option<usize>)
    requires
        n <= v.len(),
    ensures
        match r {
            Some(j) => j == last_sync_before(v@, n as int),
            None => last_sync_before(v@, n as int) == -1,
        },
{
    let mut k: usize = n;
    while k > 0
        invariant
            k <= n <= v.len(),
            last_sync_before(v@, n as int) == last_sync_before(v@, k as int),
        decreases k,
    {
        if is_sync_marker(&v[k - 1]) {
            return Some(k - 1);
        }
        k = k - 1;
    }
    None
}

/// Index of the first event on the axis, if any.
pub fn first_axis_index(v: &Vec<RawEvent>, y: bool) -> (r: Option<usize>)
    ensures
        match r {
            Some(j) => j == first_axis_from(v@, 0, y) && j < v.len(),
            None => first_axis_from(v@, 0, y) == v.len(),
        },
{
    let mut i: usize = 0;
    while i < v.len()
        invariant
            i <= v.len(),
            first_axis_from(v@, 0, y) == first_axis_from(v@, i as int, y),
        decreases v.len() - i,
    {
        if is_on_axis(&v[i], y) {
            return Some(i);
        }
        i = i + 1;
    }
    None
}

/// Index of the last event on the axis, if any.
pub fn last_axis_index(v: &Vec<RawEvent>, y: bool) -> (r: Option<usize>)
    ensures
        match r {
            Some(j) => j == last_axis_before(v@, v.len() as int, y) && j < v.len(),
            None => last_axis_before(v@, v.len() as int, y) == -1,
        },
{
    let mut k: usize = v.len();
    while k > 0
        invariant
            k <= v.len(),
            last_axis_before(v@, v.len() as int, y) == last_axis_before(v@, k as int, y),
        decreases k,
    {
        if is_on_axis(&v[k - 1], y) {
            return Some(k - 1);
        }
        k = k - 1;
    }
    None
}

} // verus!
