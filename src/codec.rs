//! The fixed-layout byte form of an input event (`seconds`, `microseconds`,
//! `type`, `code`, `value` in the machine's integer layout), as stored in a
//! recording and written to the device as it is.
use vstd::prelude::*;
use crate::event::RawEvent;

verus! {

/// Sleeps shorter than twice this margin are dropped; longer ones lose it.
pub const JUDDER_MARGIN_US: i64 = 150;

/// The width of the two time fields and the byte order of every field.
#[derive(Clone, Copy, Debug, PartialEq, Eq, Structural)]
pub struct EventLayout {
    pub time_bytes: usize,
    pub little_endian: bool,
}

/// Relies on `size_of::<nix::libc::time_t>()`: the C `time_t` is a 32- or a 64-bit integer.
#[verifier::external_body]
fn time_t_size() -> (r: usize)
    ensures
        r == 4 || r == 8,
{
    std::mem::size_of::<nix::libc::time_t>()
}

/// Relies on `u16::to_ne_bytes`: the two bytes of 1 in the machine's byte order.
#[verifier::external_body]
fn one_in_native_order() -> (r: [u8; 2])
    ensures
        r@ == seq![1u8, 0u8] || r@ == seq![0u8, 1u8],
{
    1u16.to_ne_bytes()
}

impl EventLayout {
    pub open spec fn wf(self) -> bool {
        self.time_bytes == 4 || self.time_bytes == 8
    }

    /// Length of an encoded event: two time fields and eight bytes.
    pub open spec fn event_len(self) -> nat {
        (2 * self.time_bytes + 8) as nat
    }

    /// The layout of the machine this runs on.
    pub fn native() -> (l: EventLayout)
        ensures
            l.wf(),
    {
        let time_bytes = time_t_size();
        let one = one_in_native_order();
        EventLayout { time_bytes, little_endian: one[0] == 1 }
    }

    pub fn encoded_len(&self) -> (n: usize)
        requires
            self.wf(),
        ensures
            n == self.event_len(),
    {
        2 * self.time_bytes + 8
    }
}

pub open spec fn le2(x: u16) -> Seq<u8> {
    seq![x as u8, (x >> 8u16) as u8]
}

pub open spec fn le4(x: u32) -> Seq<u8> {
    seq![x as u8, (x >> 8u32) as u8, (x >> 16u32) as u8, (x >> 24u32) as u8]
}

pub open spec fn le8(x: u64) -> Seq<u8> {
    seq![
        x as u8,
        (x >> 8u64) as u8,
        (x >> 16u64) as u8,
        (x >> 24u64) as u8,
        (x >> 32u64) as u8,
        (x >> 40u64) as u8,
        (x >> 48u64) as u8,
        (x >> 56u64) as u8,
    ]
}

pub open spec fn from2(b: Seq<u8>) -> u16 {
    (b[0] as u16) | ((b[1] as u16) << 8u16)
}

pub open spec fn from4(b: Seq<u8>) -> u32 {
    (b[0] as u32) | ((b[1] as u32) << 8u32) | ((b[2] as u32) << 16u32) | ((b[3] as u32) << 24u32)
}

pub open spec fn from8(b: Seq<u8>) -> u64 {
    (b[0] as u64) | ((b[1] as u64) << 8u64) | ((b[2] as u64) << 16u64) | ((b[3] as u64) << 24u64)
        | ((b[4] as u64) << 32u64) | ((b[5] as u64) << 40u64) | ((b[6] as u64) << 48u64) | ((
    b[7] as u64) << 56u64)
}

/// Little-endian bytes as they stand in memory under the given byte order.
pub open spec fn ordered(b: Seq<u8>, little: bool) -> Seq<u8> {
    if little {
        b
    } else {
        Seq::new(b.len(), |i: int| b[b.len() - 1 - i])
    }
}

/// A time field: the value truncated to the field's width.
pub open spec fn word_bytes(x: i64, l: EventLayout) -> Seq<u8> {
    if l.time_bytes == 8 {
        ordered(le8(x as u64), l.little_endian)
    } else {
        ordered(le4(x as u32), l.little_endian)
    }
}

pub open spec fn word_value(b: Seq<u8>, l: EventLayout) -> i64 {
    if l.time_bytes == 8 {
        from8(ordered(b, l.little_endian)) as i64
    } else {
        (from4(ordered(b, l.little_endian)) as i32) as i64
    }
}

pub open spec fn value_bytes(v: i32, l: EventLayout) -> Seq<u8> {
    ordered(le4(v as u32), l.little_endian)
}

/// The encoded form of an event.
pub open spec fn encode_event(e: RawEvent, l: EventLayout) -> Seq<u8> {
    word_bytes(e.tv_sec, l) + word_bytes(e.tv_usec, l) + ordered(le2(e.ev_type), l.little_endian)
        + ordered(le2(e.code), l.little_endian) + value_bytes(e.value, l)
}

/// The event that a buffer of the right length holds.
pub open spec fn decode_event(b: Seq<u8>, l: EventLayout) -> RawEvent {
    let t = l.time_bytes as int;
    RawEvent {
        tv_sec: word_value(b.subrange(0, t), l),
        tv_usec: word_value(b.subrange(t, 2 * t), l),
        ev_type: from2(ordered(b.subrange(2 * t, 2 * t + 2), l.little_endian)),
        code: from2(ordered(b.subrange(2 * t + 2, 2 * t + 4), l.little_endian)),
        value: from4(ordered(b.subrange(2 * t + 4, 2 * t + 8), l.little_endian)) as i32,
    }
}

/// The time fields of the event fit the layout.
pub open spec fn fits(e: RawEvent, l: EventLayout) -> bool {
    l.time_bytes == 8 || (i32::MIN <= e.tv_sec <= i32::MAX && i32::MIN <= e.tv_usec <= i32::MAX)
}

/// Why a stored event could not be read back.
#[derive(Clone, Copy, Debug, PartialEq, Eq, Structural)]
pub enum DecodeError {
    WrongLength { expected: usize, found: usize },
}

/// A stored event: its bytes, ready to write to the device, and how long to
/// sleep after writing them.
#[derive(Clone, Debug)]
pub struct ActionEvent {
    pub buf: Vec<u8>,
    pub sleep_duration_us: Option<i64>,
}

proof fn lemma_ordered_twice(b: Seq<u8>, little: bool)
    ensures
        ordered(ordered(b, little), little) == b,
{
    assert(ordered(ordered(b, little), little) =~= b);
}

proof fn lemma_round_trip_ints(a: u16, b: u32, c: u64, w: i64)
    ensures
        from2(le2(a)) == a,
        from4(le4(b)) == b,
        from8(le8(c)) == c,
        i32::MIN <= w <= i32::MAX ==> ((w as u32) as i32) as i64 == w,
        ((w as u64) as i64) == w,
{
    assert((a as u8 as u16) | (((a >> 8u16) as u8 as u16) << 8u16) == a) by (bit_vector);
    assert((b as u8 as u32) | (((b >> 8u32) as u8 as u32) << 8u32) | (((b >> 16u32) as u8 as u32)
        << 16u32) | (((b >> 24u32) as u8 as u32) << 24u32) == b) by (bit_vector);
    assert((c as u8 as u64) | (((c >> 8u64) as u8 as u64) << 8u64) | (((c >> 16u64) as u8 as u64)
        << 16u64) | (((c >> 24u64) as u8 as u64) << 24u64) | (((c >> 32u64) as u8 as u64)
        << 32u64) | (((c >> 40u64) as u8 as u64) << 40u64) | (((c >> 48u64) as u8 as u64)
        << 48u64) | (((c >> 56u64) as u8 as u64) << 56u64) == c) by (bit_vector);
    assert(i32::MIN <= w <= i32::MAX ==> ((w as u32) as i32) as i64 == w) by (bit_vector);
    assert(((w as u64) as i64) == w) by (bit_vector);
}

proof fn lemma_value_round_trip(v: i32)
    ensures
        (v as u32) as i32 == v,
{
    assert((v as u32) as i32 == v) by (bit_vector);
}

proof fn lemma_word_round_trip(x: i64, l: EventLayout)
    requires
        l.wf(),
        l.time_bytes == 8 || i32::MIN <= x <= i32::MAX,
    ensures
        word_value(word_bytes(x, l), l) == x,
        word_bytes(x, l).len() == l.time_bytes,
{
    lemma_round_trip_ints(0, x as u32, x as u64, x);
    if l.time_bytes == 8 {
        lemma_ordered_twice(le8(x as u64), l.little_endian);
    } else {
        lemma_ordered_twice(le4(x as u32), l.little_endian);
    }
}

/// Encoding an event and decoding the bytes gives the event back, and the
/// encoding has the layout's fixed length.
pub proof fn lemma_decode_encode(e: RawEvent, l: EventLayout)
    requires
        l.wf(),
        fits(e, l),
    ensures
        encode_event(e, l).len() == l.event_len(),
        decode_event(encode_event(e, l), l) == e,
{
    let t = l.time_bytes as int;
    let b = encode_event(e, l);
    lemma_word_round_trip(e.tv_sec, l);
    lemma_word_round_trip(e.tv_usec, l);
    lemma_round_trip_ints(e.ev_type, e.value as u32, 0, 0);
    lemma_round_trip_ints(e.code, 0, 0, 0);
    lemma_ordered_twice(le2(e.ev_type), l.little_endian);
    lemma_ordered_twice(le2(e.code), l.little_endian);
    lemma_ordered_twice(le4(e.value as u32), l.little_endian);
    lemma_value_round_trip(e.value);
    assert(b.subrange(0, t) =~= word_bytes(e.tv_sec, l));
    assert(b.subrange(t, 2 * t) =~= word_bytes(e.tv_usec, l));
    assert(b.subrange(2 * t, 2 * t + 2) =~= ordered(le2(e.ev_type), l.little_endian));
    assert(b.subrange(2 * t + 2, 2 * t + 4) =~= ordered(le2(e.code), l.little_endian));
    assert(b.subrange(2 * t + 4, 2 * t + 8) =~= value_bytes(e.value, l));
}

/// Appends `bytes` (little-endian) in the given byte order.
fn push_ordered(buf: &mut Vec<u8>, bytes: &Vec<u8>, little: bool)
    ensures
        final(buf)@ == old(buf)@ + ordered(bytes@, little),
{
    let n = bytes.len();
    let mut i: usize = 0;
    while i < n
        invariant
            n == bytes.len(),
            i <= n,
            buf@ == old(buf)@ + ordered(bytes@, little).subrange(0, i as int),
        decreases n - i,
    {
        let b = if little {
            bytes[i]
        } else {
            bytes[n - 1 - i]
        };
        buf.push(b);
        assert(ordered(bytes@, little).subrange(0, i + 1) =~= ordered(bytes@, little).subrange(
            0,
            i as int,
        ).push(b));
        i = i + 1;
    }
    assert(ordered(bytes@, little).subrange(0, n as int) =~= ordered(bytes@, little));
}

/// The `n` bytes of `b` at `at`, put back into little-endian order.
fn take_ordered(b: &Vec<u8>, at: usize, n: usize, little: bool) -> (r: Vec<u8>)
    requires
        at + n <= b.len(),
    ensures
        r@ == ordered(b@.subrange(at as int, at + n), little),
{
    let mut r: Vec<u8> = Vec::new();
    let mut i: usize = 0;
    while i < n
        invariant
            at + n <= b.len(),
            i <= n,
            r@ == ordered(b@.subrange(at as int, at + n), little).subrange(0, i as int),
        decreases n - i,
    {
        let x = if little {
            b[at + i]
        } else {
            b[at + n - 1 - i]
        };
        r.push(x);
        assert(ordered(b@.subrange(at as int, at + n), little).subrange(0, i + 1) =~= ordered(
            b@.subrange(at as int, at + n),
            little,
        ).subrange(0, i as int).push(x));
        i = i + 1;
    }
    assert(ordered(b@.subrange(at as int, at + n), little).subrange(0, n as int) =~= ordered(
        b@.subrange(at as int, at + n),
        little,
    ));
    r
}

fn le2_vec(x: u16) -> (r: Vec<u8>)
    ensures
        r@ == le2(x),
{
    let r = vec![x as u8, (x >> 8u16) as u8];
    assert(r@ =~= le2(x));
    r
}

fn le4_vec(x: u32) -> (r: Vec<u8>)
    ensures
        r@ == le4(x),
{
    let r = vec![x as u8, (x >> 8u32) as u8, (x >> 16u32) as u8, (x >> 24u32) as u8];
    assert(r@ =~= le4(x));
    r
}

fn le8_vec(x: u64) -> (r: Vec<u8>)
    ensures
        r@ == le8(x),
{
    let r = vec![
        x as u8,
        (x >> 8u64) as u8,
        (x >> 16u64) as u8,
        (x >> 24u64) as u8,
        (x >> 32u64) as u8,
        (x >> 40u64) as u8,
        (x >> 48u64) as u8,
        (x >> 56u64) as u8,
    ];
    assert(r@ =~= le8(x));
    r
}

fn push_word(buf: &mut Vec<u8>, x: i64, l: &EventLayout)
    requires
        l.wf(),
    ensures
        final(buf)@ == old(buf)@ + word_bytes(x, *l),
{
    if l.time_bytes == 8 {
        let b = le8_vec(x as u64);
        push_ordered(buf, &b, l.little_endian);
    } else {
        let b = le4_vec(x as u32);
        push_ordered(buf, &b, l.little_endian);
    }
}

fn read_word(b: &Vec<u8>, at: usize, l: &EventLayout) -> (r: i64)
    requires
        l.wf(),
        at + l.time_bytes <= b.len(),
    ensures
        r == word_value(b@.subrange(at as int, at + l.time_bytes), *l),
{
    if l.time_bytes == 8 {
        let v = take_ordered(b, at, 8, l.little_endian);
        let x: u64 = (v[0] as u64) | ((v[1] as u64) << 8u64) | ((v[2] as u64) << 16u64) | ((
        v[3] as u64) << 24u64) | ((v[4] as u64) << 32u64) | ((v[5] as u64) << 40u64) | ((
        v[6] as u64) << 48u64) | ((v[7] as u64) << 56u64);
        x as i64
    } else {
        let v = take_ordered(b, at, 4, l.little_endian);
        let x: u32 = (v[0] as u32) | ((v[1] as u32) << 8u32) | ((v[2] as u32) << 16u32) | ((
        v[3] as u32) << 24u32);
        (x as i32) as i64
    }
}

fn read_u16(b: &Vec<u8>, at: usize, l: &EventLayout) -> (r: u16)
    requires
        at + 2 <= b.len(),
    ensures
        r == from2(ordered(b@.subrange(at as int, at + 2), l.little_endian)),
{
    let v = take_ordered(b, at, 2, l.little_endian);
    (v[0] as u16) | ((v[1] as u16) << 8u16)
}

fn read_u32(b: &Vec<u8>, at: usize, l: &EventLayout) -> (r: u32)
    requires
        at + 4 <= b.len(),
    ensures
        r == from4(ordered(b@.subrange(at as int, at + 4), l.little_endian)),
{
    let v = take_ordered(b, at, 4, l.little_endian);
    (v[0] as u32) | ((v[1] as u32) << 8u32) | ((v[2] as u32) << 16u32) | ((v[3] as u32) << 24u32)
}

/// The bytes of an event under the layout.
pub fn encode(e: &RawEvent, l: &EventLayout) -> (r: Vec<u8>)
    requires
        l.wf(),
    ensures
        r@ == encode_event(*e, *l),
{
    let mut buf: Vec<u8> = Vec::new();
    push_word(&mut buf, e.tv_sec, l);
    push_word(&mut buf, e.tv_usec, l);
    let t = le2_vec(e.ev_type);
    push_ordered(&mut buf, &t, l.little_endian);
    let c = le2_vec(e.code);
    push_ordered(&mut buf, &c, l.little_endian);
    let v = le4_vec(e.value as u32);
    push_ordered(&mut buf, &v, l.little_endian);
    assert(buf@ =~= encode_event(*e, *l));
    buf
}

impl ActionEvent {
    /// Reads the event back; a buffer of any length but the layout's is refused.
    pub fn input_event(&self, l: &EventLayout) -> (r: Result<RawEvent, DecodeError>)
        requires
            l.wf(),
        ensures
            self.buf@.len() == l.event_len() ==> r == Ok::<RawEvent, DecodeError>(
                decode_event(self.buf@, *l),
            ),
            self.buf@.len() != l.event_len() ==> r == Err::<RawEvent, DecodeError>(
                DecodeError::WrongLength { expected: l.event_len() as usize, found: self.buf.len() },
            ),
    {
        let expected = l.encoded_len();
        if self.buf.len() != expected {
            return Err(DecodeError::WrongLength { expected, found: self.buf.len() });
        }
        let t = l.time_bytes;
        let tv_sec = read_word(&self.buf, 0, l);
        let tv_usec = read_word(&self.buf, t, l);
        let ev_type = read_u16(&self.buf, 2 * t, l);
        let code = read_u16(&self.buf, 2 * t + 2, l);
        let value = read_u32(&self.buf, 2 * t + 4, l) as i32;
        Ok(RawEvent { tv_sec, tv_usec, ev_type, code, value })
    }

    /// Replaces the value field (the last four bytes) and nothing else.
    pub fn set_value(&mut self, value: i32, l: &EventLayout)
        requires
            old(self).buf@.len() >= 4,
        ensures
            final(self).buf@ == old(self).buf@.subrange(0, old(self).buf@.len() - 4) + value_bytes(
                value,
                *l,
            ),
            final(self).sleep_duration_us == old(self).sleep_duration_us,
    {
        let n = self.buf.len();
        self.buf.truncate(n - 4);
        let v = le4_vec(value as u32);
        push_ordered(&mut self.buf, &v, l.little_endian);
    }

    /// Replaces the two time fields with the whole seconds and the remaining
    /// microseconds of `duration_us`, and nothing else.
    pub fn set_time(&mut self, duration_us: i64, l: &EventLayout)
        requires
            l.wf(),
            duration_us >= 0,
            old(self).buf@.len() >= 2 * l.time_bytes,
        ensures
            final(self).buf@ == word_bytes((duration_us / 1_000_000) as i64, *l) + word_bytes(
                (duration_us % 1_000_000) as i64,
                *l,
            ) + old(self).buf@.subrange(2 * l.time_bytes, old(self).buf@.len() as int),
            final(self).sleep_duration_us == old(self).sleep_duration_us,
    {
        let mut buf: Vec<u8> = Vec::new();
        push_word(&mut buf, duration_us / 1_000_000, l);
        push_word(&mut buf, duration_us % 1_000_000, l);
        let mut i: usize = 2 * l.time_bytes;
        let ghost head = buf@;
        while i < self.buf.len()
            invariant
                2 * l.time_bytes <= i <= self.buf.len(),
                buf@ == head + self.buf@.subrange(2 * l.time_bytes, i as int),
            decreases self.buf.len() - i,
        {
            buf.push(self.buf[i]);
            assert(self.buf@.subrange(2 * l.time_bytes, i + 1) =~= self.buf@.subrange(
                2 * l.time_bytes,
                i as int,
            ).push(self.buf@[i as int]));
            i = i + 1;
        }
        self.buf = buf;
    }
}

/// An event's time in microseconds.
pub open spec fn time_us(e: RawEvent) -> int {
    e.tv_sec * 1_000_000 + e.tv_usec
}

/// Division rounding toward zero.
pub open spec fn tdiv(a: int, d: int) -> int {
    if a >= 0 {
        a / d
    } else {
        -((-a) / d)
    }
}

/// Remainder of the division rounding toward zero; it has the sign of `a`.
pub open spec fn trem(a: int, d: int) -> int {
    if a >= 0 {
        a % d
    } else {
        -((-a) % d)
    }
}

/// The `k`th event of a capture with its time made relative to one
/// microsecond before the first event.
pub open spec fn relative_event(events: Seq<RawEvent>, k: int) -> RawEvent {
    let elapsed = time_us(events[k]) - time_us(events[0]) + 1;
    RawEvent {
        tv_sec: tdiv(elapsed, 1_000_000) as i64,
        tv_usec: trem(elapsed, 1_000_000) as i64,
        ..events[k]
    }
}

/// The sleep after the `k`th event: the gap to the next one less the margin,
/// where the gap exceeds twice the margin.
pub open spec fn sleep_after(events: Seq<RawEvent>, k: int) -> Option<i64> {
    if k + 1 < events.len() && time_us(events[k + 1]) - time_us(events[k]) > 2
        * JUDDER_MARGIN_US {
        Some(saturate_i64(time_us(events[k + 1]) - time_us(events[k]) - JUDDER_MARGIN_US))
    } else {
        None
    }
}

/// `x`, or the nearest bound of `i64`.
pub open spec fn saturate_i64(x: int) -> i64 {
    if x > i64::MAX {
        i64::MAX
    } else if x < i64::MIN {
        i64::MIN
    } else {
        x as i64
    }
}

fn micros(e: &RawEvent) -> (r: i128)
    ensures
        r == time_us(*e),
{
    (e.tv_sec as i128) * 1_000_000 + (e.tv_usec as i128)
}

/// Turns a capture into stored events: times relative to just before the
/// first event, and a sleep where the capture paused.
pub fn create_action_events(events: &Vec<RawEvent>, l: &EventLayout) -> (r: Vec<ActionEvent>)
    requires
        l.wf(),
    ensures
        r.len() == events.len(),
        forall|k: int|
            0 <= k < r.len() ==> (#[trigger] r[k]).buf@ == encode_event(relative_event(events@, k), *l)
                && r[k].sleep_duration_us == sleep_after(events@, k),
{
    let mut out: Vec<ActionEvent> = Vec::new();
    if events.len() == 0 {
        return out;
    }
    let start = micros(&events[0]) - 1;
    let mut i: usize = 0;
    while i < events.len()
        invariant
            l.wf(),
            events.len() > 0,
            start == time_us(events@[0]) - 1,
            i <= events.len(),
            out.len() == i,
            forall|k: int|
                0 <= k < i ==> (#[trigger] out[k]).buf@ == encode_event(
                    relative_event(events@, k),
                    *l,
                ) && out[k].sleep_duration_us == sleep_after(events@, k),
        decreases events.len() - i,
    {
        let ev = events[i];
        let t = micros(&ev);
        let elapsed = t - start;
        let (secs, rem) = if elapsed >= 0 {
            (elapsed / 1_000_000, elapsed % 1_000_000)
        } else {
            (-((-elapsed) / 1_000_000), -((-elapsed) % 1_000_000))
        };
        let rel = RawEvent { tv_sec: secs as i64, tv_usec: rem as i64, ..ev };
        assert(rel == relative_event(events@, i as int));
        let buf = encode(&rel, l);
        let mut sleep: Option<i64> = None;
        if i + 1 < events.len() {
            let gap = micros(&events[i + 1]) - t;
            if gap > 2 * (JUDDER_MARGIN_US as i128) {
                let d = gap - JUDDER_MARGIN_US as i128;
                sleep = Some(
                    if d > i64::MAX as i128 {
                        i64::MAX
                    } else {
                        d as i64
                    },
                );
            }
        }
        out.push(ActionEvent { buf, sleep_duration_us: sleep });
        i = i + 1;
    }
    out
}

} // verus!
