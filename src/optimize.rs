//! Compression of a captured gesture into a first, a middle and a last batch
//! with minimal, deterministic spacing between them.
use vstd::prelude::*;
use crate::event::{
    batch_count, count_code, count_events, count_sync, first_axis_from, first_axis_index, first_sync_from,
    first_sync_index, is_code, is_sync_marker, last_axis_before, last_axis_index,
    last_sync_before, last_sync_index, on_axis, same_shape, sync_event, touch_event, RawEvent,
    ABS_MT_SLOT, BTN_TOUCH, EV_ABS, EV_KEY, EV_SYN, SYN_REPORT,
};

verus! {

/// The optimizer applies: the stream holds at most two touch button events,
/// at most one multi-touch slot event, and at least one event after its first
/// synchronization marker.
pub open spec fn optimizable(s: Seq<RawEvent>) -> bool {
    &&& count_code(s, EV_KEY, BTN_TOUCH) <= 2
    &&& count_code(s, EV_ABS, ABS_MT_SLOT) <= 1
    &&& first_sync_from(s, 0) + 1 < s.len()
}

/// Where the last batch of a non-empty `v` starts: just after the last
/// synchronization marker that is not the final event.
pub open spec fn batch_start(v: Seq<RawEvent>) -> int {
    last_sync_before(v, v.len() - 1) + 1
}

pub open spec fn first_batch(s: Seq<RawEvent>) -> Seq<RawEvent> {
    s.subrange(0, first_sync_from(s, 0) + 1)
}

pub open spec fn after_first(s: Seq<RawEvent>) -> Seq<RawEvent> {
    s.subrange(first_sync_from(s, 0) + 1, s.len() as int)
}

pub open spec fn last_batch(s: Seq<RawEvent>) -> Seq<RawEvent> {
    let r = after_first(s);
    r.subrange(batch_start(r), r.len() as int)
}

/// What lies between the first and the last batch.
pub open spec fn between(s: Seq<RawEvent>) -> Seq<RawEvent> {
    let r = after_first(s);
    r.subrange(0, batch_start(r))
}

/// The events of `s` that are not touch button events, in order.
pub open spec fn without_touch(s: Seq<RawEvent>) -> Seq<RawEvent>
    decreases s.len(),
{
    if s.len() == 0 {
        s
    } else if touch_event(s.last()) {
        without_touch(s.drop_last())
    } else {
        without_touch(s.drop_last()).push(s.last())
    }
}

/// The middle batch before backfilling: the last batch of what lies between,
/// or the first batch without its touch event when nothing lies between.
pub open spec fn penultimate_raw(s: Seq<RawEvent>) -> Seq<RawEvent> {
    let m = between(s);
    if m.len() == 0 {
        without_touch(first_batch(s))
    } else {
        m.subrange(batch_start(m), m.len() as int)
    }
}

/// What is left once the three batches have been taken out.
pub open spec fn leftover(s: Seq<RawEvent>) -> Seq<RawEvent> {
    let m = between(s);
    if m.len() == 0 {
        m
    } else {
        m.subrange(0, batch_start(m))
    }
}

/// Puts in front of `p` the most recent axis event of `src` if `p` has none.
pub open spec fn backfill(p: Seq<RawEvent>, src: Seq<RawEvent>, y: bool) -> Seq<RawEvent> {
    let j = last_axis_before(src, src.len() as int, y);
    if last_axis_before(p, p.len() as int, y) >= 0 || j < 0 {
        p
    } else {
        seq![src[j]] + p
    }
}

pub open spec fn penultimate(s: Seq<RawEvent>) -> Seq<RawEvent> {
    let src = first_batch(s) + leftover(s);
    backfill(backfill(penultimate_raw(s), src, false), src, true)
}

pub open spec fn bump(v: i32) -> i32 {
    if v == i32::MAX {
        i32::MIN
    } else {
        (v + 1) as i32
    }
}

/// Increments the last axis value of `tail` if it equals the first axis value of `first`.
pub open spec fn nudge(first: Seq<RawEvent>, tail: Seq<RawEvent>, y: bool) -> Seq<RawEvent> {
    let i = first_axis_from(first, 0, y);
    let j = last_axis_before(tail, tail.len() as int, y);
    if i < first.len() && j >= 0 && first[i].value == tail[j].value {
        tail.update(j, RawEvent { value: bump(tail[j].value), ..tail[j] })
    } else {
        tail
    }
}

pub open spec fn tail(s: Seq<RawEvent>) -> Seq<RawEvent> {
    let f = first_batch(s);
    nudge(f, nudge(f, penultimate(s) + last_batch(s), false), true)
}

/// Every event gets the running time `(sec, usec)`; `usec` grows by `gap`
/// after each synchronization marker.
pub open spec fn retime(s: Seq<RawEvent>, sec: i64, usec: int, gap: int) -> Seq<RawEvent>
    decreases s.len(),
{
    if s.len() == 0 {
        s
    } else {
        let e = RawEvent { tv_sec: sec, tv_usec: usec as i64, ..s[0] };
        seq![e] + retime(
            s.drop_first(),
            sec,
            if sync_event(s[0]) {
                usec + gap
            } else {
                usec
            },
            gap,
        )
    }
}

/// The sequence the optimizer produces from an optimizable `s`.
pub open spec fn optimized(s: Seq<RawEvent>, gap: int) -> Seq<RawEvent> {
    retime(first_batch(s) + tail(s), s[0].tv_sec, s[0].tv_usec as int, gap)
}

/// The optimizer's outcome on any `s`: `optimized(s, gap)` where it applies, else `s`.
pub open spec fn optimize_outcome(s: Seq<RawEvent>, gap: int) -> Seq<RawEvent> {
    if optimizable(s) {
        optimized(s, gap)
    } else {
        s
    }
}


pub proof fn lemma_count_concat(a: Seq<RawEvent>, b: Seq<RawEvent>, t: u16, c: u16)
    ensures
        count_code(a + b, t, c) == count_code(a, t, c) + count_code(b, t, c),
    decreases b.len(),
{
    if b.len() == 0 {
        assert(a + b =~= a);
    } else {
        lemma_count_concat(a, b.drop_last(), t, c);
        assert((a + b).drop_last() =~= a + b.drop_last());
        assert((a + b).last() == b.last());
    }
}

pub proof fn lemma_count_split(v: Seq<RawEvent>, i: int, t: u16, c: u16)
    requires
        0 <= i <= v.len(),
    ensures
        count_code(v, t, c) == count_code(v.subrange(0, i), t, c) + count_code(
            v.subrange(i, v.len() as int),
            t,
            c,
        ),
{
    lemma_count_concat(v.subrange(0, i), v.subrange(i, v.len() as int), t, c);
    assert(v.subrange(0, i) + v.subrange(i, v.len() as int) =~= v);
}

/// Splits `events` after its last synchronization marker that is not the final
/// event, and returns what follows it (the whole sequence if there is none).
pub fn drain_last_batch(events: &mut Vec<RawEvent>) -> (r: Vec<RawEvent>)
    requires
        old(events)@.len() > 0,
    ensures
        r@ == old(events)@.subrange(batch_start(old(events)@), old(events)@.len() as int),
        final(events)@ == old(events)@.subrange(0, batch_start(old(events)@)),
{
    proof {
        lemma_last_sync_bounds(events@, events@.len() - 1);
    }
    let at: usize = match last_sync_index(events, events.len() - 1) {
        Some(j) => j + 1,
        None => 0,
    };
    events.split_off(at)
}

pub proof fn lemma_last_sync_bounds(s: Seq<RawEvent>, n: int)
    requires
        0 <= n <= s.len(),
    ensures
        -1 <= last_sync_before(s, n) < n,
        last_sync_before(s, n) >= 0 ==> sync_event(s[last_sync_before(s, n)]),
        forall|k: int| last_sync_before(s, n) < k < n ==> !sync_event(#[trigger] s[k]),
    decreases n,
{
    if n > 0 && !sync_event(s[n - 1]) {
        lemma_last_sync_bounds(s, n - 1);
    }
}

/// The events of `v` that are not touch button events.
fn strip_touch(v: &Vec<RawEvent>) -> (r: Vec<RawEvent>)
    ensures
        r@ == without_touch(v@),
{
    let mut r: Vec<RawEvent> = Vec::new();
    let mut i: usize = 0;
    while i < v.len()
        invariant
            i <= v.len(),
            r@ == without_touch(v@.subrange(0, i as int)),
        decreases v.len() - i,
    {
        assert(v@.subrange(0, i + 1).drop_last() =~= v@.subrange(0, i as int));
        if !is_code(&v[i], EV_KEY, BTN_TOUCH) {
            r.push(v[i]);
        }
        i = i + 1;
    }
    assert(v@.subrange(0, v.len() as int) =~= v@);
    r
}

fn backfill_axis(p: &mut Vec<RawEvent>, src: &Vec<RawEvent>, y: bool)
    ensures
        final(p)@ == backfill(old(p)@, src@, y),
{
    if last_axis_index(p, y).is_none() {
        if let Some(j) = last_axis_index(src, y) {
            p.insert(0, src[j]);
            assert(p@ =~= seq![src@[j as int]] + old(p)@);
        }
    }
}

fn nudge_axis(first: &Vec<RawEvent>, tail: &mut Vec<RawEvent>, y: bool)
    ensures
        final(tail)@ == nudge(first@, old(tail)@, y),
{
    if let Some(i) = first_axis_index(first, y) {
        if let Some(j) = last_axis_index(tail, y) {
            if first[i].value == tail[j].value {
                let old_ev = tail[j];
                let v = if old_ev.value == i32::MAX {
                    i32::MIN
                } else {
                    old_ev.value + 1
                };
                tail.set(j, RawEvent { value: v, ..old_ev });
            }
        }
    }
}

fn retime_events(v: &Vec<RawEvent>, sec: i64, usec: i64, gap: i64) -> (r: Vec<RawEvent>)
    requires
        count_sync(v@) <= 3,
        i64::MIN <= usec + 3 * gap <= i64::MAX,
    ensures
        r@ == retime(v@, sec, usec as int, gap as int),
{
    let mut r: Vec<RawEvent> = Vec::new();
    let mut t: i64 = usec;
    let mut i: usize = 0;
    let ghost mut m: int = 0;
    assert(v@.subrange(0, 0) =~= Seq::<RawEvent>::empty());
    assert(v@.subrange(0, v.len() as int) =~= v@);
    while i < v.len()
        invariant
            i <= v.len(),
            count_sync(v@) <= 3,
            i64::MIN <= usec + 3 * gap <= i64::MAX,
            m == count_sync(v@.subrange(0, i as int)),
            t == usec + m * gap,
            r@ + retime(v@.subrange(i as int, v.len() as int), sec, t as int, gap as int) == retime(
                v@,
                sec,
                usec as int,
                gap as int,
            ),
        decreases v.len() - i,
    {
        let ghost rest = v@.subrange(i as int, v.len() as int);
        assert(rest.drop_first() =~= v@.subrange(i + 1, v.len() as int));
        assert(rest[0] == v@[i as int]);
        let e = RawEvent { tv_sec: sec, tv_usec: t, ..v[i] };
        let ghost t_before = t;
        assert(v@.subrange(0, i + 1).drop_last() =~= v@.subrange(0, i as int));
        if is_sync_marker(&v[i]) {
            proof {
                lemma_count_split(v@, i + 1, EV_SYN, SYN_REPORT);
                assert(m + 1 <= 3);
                assert(m == 0 || m == 1 || m == 2);
                assert(i64::MIN <= usec + (m + 1) * gap <= i64::MAX) by (nonlinear_arith)
                    requires
                        m == 0 || m == 1 || m == 2,
                        i64::MIN <= usec + 3 * gap <= i64::MAX,
                        i64::MIN <= usec <= i64::MAX,
                ;
                assert(usec + (m + 1) * gap == t + gap) by (nonlinear_arith)
                    requires
                        t == usec + m * gap,
                ;
            }
            t = t + gap;
            proof {
                m = m + 1;
            }
        }
        let ghost r_before = r@;
        r.push(e);
        assert(r@ + retime(v@.subrange(i + 1, v.len() as int), sec, t as int, gap as int)
            =~= r_before + retime(rest, sec, t_before as int, gap as int));
        i = i + 1;
    }
    assert(r@ + retime(v@.subrange(v.len() as int, v.len() as int), sec, t as int, gap as int)
        =~= r@);
    r
}

/// Same type, code and value at every index.
pub open spec fn alike(a: Seq<RawEvent>, b: Seq<RawEvent>) -> bool {
    same_shape(a, b) && forall|k: int| 0 <= k < a.len() ==> (#[trigger] a[k]).value == b[k].value
}

pub proof fn lemma_shape_count(a: Seq<RawEvent>, b: Seq<RawEvent>, t: u16, c: u16)
    requires
        same_shape(a, b),
    ensures
        count_code(a, t, c) == count_code(b, t, c),
    decreases a.len(),
{
    if a.len() > 0 {
        assert(a.last() == a[a.len() - 1]);
        assert(b.last() == b[b.len() - 1]);
        assert(same_shape(a.drop_last(), b.drop_last())) by {
            assert forall|k: int| 0 <= k < a.drop_last().len() implies (#[trigger] a.drop_last()[k]).ev_type
                == b.drop_last()[k].ev_type && a.drop_last()[k].code == b.drop_last()[k].code by {
                assert(a[k].ev_type == b[k].ev_type);
            }
        }
        lemma_shape_count(a.drop_last(), b.drop_last(), t, c);
    }
}

pub proof fn lemma_shape_first_sync(a: Seq<RawEvent>, b: Seq<RawEvent>, i: int)
    requires
        same_shape(a, b),
        0 <= i,
    ensures
        first_sync_from(a, i) == first_sync_from(b, i),
    decreases a.len() - i,
{
    if i < a.len() {
        assert(a[i].ev_type == b[i].ev_type);
        lemma_shape_first_sync(a, b, i + 1);
    }
}

pub proof fn lemma_shape_first_axis(a: Seq<RawEvent>, b: Seq<RawEvent>, i: int, y: bool)
    requires
        same_shape(a, b),
        0 <= i,
    ensures
        first_axis_from(a, i, y) == first_axis_from(b, i, y),
    decreases a.len() - i,
{
    if i < a.len() {
        assert(a[i].ev_type == b[i].ev_type);
        lemma_shape_first_axis(a, b, i + 1, y);
    }
}

pub proof fn lemma_shape_last_axis(a: Seq<RawEvent>, b: Seq<RawEvent>, n: int, y: bool)
    requires
        same_shape(a, b),
        n <= a.len(),
    ensures
        last_axis_before(a, n, y) == last_axis_before(b, n, y),
    decreases n,
{
    if n > 0 {
        assert(a[n - 1].ev_type == b[n - 1].ev_type);
        lemma_shape_last_axis(a, b, n - 1, y);
    }
}

pub proof fn lemma_last_axis_bounds(s: Seq<RawEvent>, n: int, y: bool)
    requires
        0 <= n <= s.len(),
    ensures
        -1 <= last_axis_before(s, n, y) < n,
        last_axis_before(s, n, y) >= 0 ==> on_axis(s[last_axis_before(s, n, y)], y),
    decreases n,
{
    if n > 0 && !on_axis(s[n - 1], y) {
        lemma_last_axis_bounds(s, n - 1, y);
    }
}

pub proof fn lemma_first_axis_bounds(s: Seq<RawEvent>, i: int, y: bool)
    requires
        0 <= i <= s.len(),
    ensures
        i <= first_axis_from(s, i, y) <= s.len(),
        first_axis_from(s, i, y) < s.len() ==> on_axis(s[first_axis_from(s, i, y)], y),
    decreases s.len() - i,
{
    if i < s.len() && !on_axis(s[i], y) {
        lemma_first_axis_bounds(s, i + 1, y);
    }
}

pub proof fn lemma_first_sync_bounds(s: Seq<RawEvent>, i: int)
    requires
        0 <= i <= s.len(),
    ensures
        i <= first_sync_from(s, i) <= s.len(),
        first_sync_from(s, i) < s.len() ==> sync_event(s[first_sync_from(s, i)]),
        forall|k: int| i <= k < first_sync_from(s, i) ==> !sync_event(#[trigger] s[k]),
    decreases s.len() - i,
{
    if i < s.len() && !sync_event(s[i]) {
        lemma_first_sync_bounds(s, i + 1);
    }
}

/// `first_sync_from(s, i)` is the `j` that is a marker with none in `[i, j)`.
pub proof fn lemma_first_sync_at(s: Seq<RawEvent>, i: int, j: int)
    requires
        0 <= i <= j < s.len(),
        sync_event(s[j]),
        forall|k: int| i <= k < j ==> !sync_event(#[trigger] s[k]),
    ensures
        first_sync_from(s, i) == j,
    decreases j - i,
{
    if i < j {
        lemma_first_sync_at(s, i + 1, j);
    }
}

pub proof fn lemma_no_sync_count(v: Seq<RawEvent>)
    requires
        forall|k: int| 0 <= k < v.len() ==> !sync_event(#[trigger] v[k]),
    ensures
        count_sync(v) == 0,
    decreases v.len(),
{
    if v.len() > 0 {
        assert(!sync_event(v[v.len() - 1]));
        lemma_no_sync_count(v.drop_last());
    }
}

pub proof fn lemma_zero_count_no_sync(v: Seq<RawEvent>)
    requires
        count_sync(v) == 0,
    ensures
        forall|k: int| 0 <= k < v.len() ==> !sync_event(#[trigger] v[k]),
    decreases v.len(),
{
    if v.len() > 0 {
        lemma_zero_count_no_sync(v.drop_last());
        assert forall|k: int| 0 <= k < v.len() implies !sync_event(#[trigger] v[k]) by {
            if k < v.len() - 1 {
                assert(v.drop_last()[k] == v[k]);
            }
        }
    }
}

/// A sequence whose only markers can be at its final index.
pub open spec fn only_final_sync(v: Seq<RawEvent>) -> bool {
    v.len() > 0 && forall|k: int| 0 <= k < v.len() - 1 ==> !sync_event(#[trigger] v[k])
}

pub proof fn lemma_only_final_sync_count(v: Seq<RawEvent>)
    requires
        only_final_sync(v),
    ensures
        count_sync(v) == if sync_event(v.last()) {
            1nat
        } else {
            0nat
        },
{
    assert forall|k: int| 0 <= k < v.drop_last().len() implies !sync_event(
        #[trigger] v.drop_last()[k],
    ) by {
        assert(v.drop_last()[k] == v[k]);
    }
    lemma_no_sync_count(v.drop_last());
}

pub proof fn lemma_batch_start_suffix(v: Seq<RawEvent>)
    requires
        v.len() > 0,
    ensures
        0 <= batch_start(v) < v.len(),
        only_final_sync(v.subrange(batch_start(v), v.len() as int)),
        batch_start(v) > 0 ==> sync_event(v[batch_start(v) - 1]),
{
    lemma_last_sync_bounds(v, v.len() - 1);
    let w = v.subrange(batch_start(v), v.len() as int);
    assert forall|k: int| 0 <= k < w.len() - 1 implies !sync_event(#[trigger] w[k]) by {
        assert(w[k] == v[batch_start(v) + k]);
    }
}

pub proof fn lemma_without_touch_count(v: Seq<RawEvent>)
    ensures
        count_sync(without_touch(v)) == count_sync(v),
        v.len() > 0 && !touch_event(v.last()) ==> without_touch(v).len() > 0
            && without_touch(v).last() == v.last(),
    decreases v.len(),
{
    if v.len() > 0 {
        lemma_without_touch_count(v.drop_last());
        let w = without_touch(v.drop_last());
        if !touch_event(v.last()) {
            assert(w.push(v.last()).drop_last() =~= w);
        }
    }
}

pub proof fn lemma_backfill_count(p: Seq<RawEvent>, src: Seq<RawEvent>, y: bool)
    requires
        p.len() > 0,
    ensures
        count_sync(backfill(p, src, y)) == count_sync(p),
        backfill(p, src, y).len() > 0,
        backfill(p, src, y).last() == p.last(),
{
    let j = last_axis_before(src, src.len() as int, y);
    lemma_last_axis_bounds(src, src.len() as int, y);
    if !(last_axis_before(p, p.len() as int, y) >= 0 || j < 0) {
        let e = seq![src[j]];
        lemma_count_concat(e, p, EV_SYN, SYN_REPORT);
        assert(e.drop_last() =~= Seq::<RawEvent>::empty());
        assert(e.last() == src[j]);
        assert(!sync_event(src[j]));
        assert(count_code(e.drop_last(), EV_SYN, SYN_REPORT) == 0);
        assert(count_sync(e) == 0);
        assert((e + p).last() == p.last());
    }
}

pub proof fn lemma_nudge_alike(first: Seq<RawEvent>, t: Seq<RawEvent>, y: bool)
    ensures
        same_shape(nudge(first, t, y), t),
        forall|k: int|
            0 <= k < t.len() && k != last_axis_before(t, t.len() as int, y) ==> (#[trigger] nudge(
                first,
                t,
                y,
            )[k]) == t[k],
        ({
            let i = first_axis_from(first, 0, y);
            let j = last_axis_before(t, t.len() as int, y);
            i < first.len() && j >= 0 ==> nudge(first, t, y)[j].value != first[i].value
        }),
{
    lemma_last_axis_bounds(t, t.len() as int, y);
}

pub proof fn lemma_retime_alike(s: Seq<RawEvent>, sec: i64, usec: int, gap: int)
    ensures
        alike(retime(s, sec, usec, gap), s),
    decreases s.len(),
{
    if s.len() > 0 {
        lemma_retime_alike(s.drop_first(), sec, if sync_event(s[0]) {
            usec + gap
        } else {
            usec
        }, gap);
        let r = retime(s, sec, usec, gap);
        assert forall|k: int| 0 <= k < r.len() implies (#[trigger] r[k]).ev_type == s[k].ev_type
            && r[k].code == s[k].code && r[k].value == s[k].value by {
            if k > 0 {
                assert(s.drop_first()[k - 1] == s[k]);
            }
        }
    }
}

/// The pieces the optimizer reassembles: a first batch that ends at its only
/// marker, a middle batch with exactly one marker, and a non-empty last batch
/// whose only possible marker is its final event.
pub proof fn lemma_pieces(s: Seq<RawEvent>)
    requires
        optimizable(s),
    ensures
        count_sync(first_batch(s)) == 1,
        first_batch(s).len() > 0,
        sync_event(first_batch(s).last()),
        forall|k: int| 0 <= k < first_batch(s).len() - 1 ==> !sync_event(#[trigger] first_batch(s)[k]),
        count_sync(penultimate(s)) == 1,
        penultimate(s).len() > 0,
        sync_event(penultimate(s).last()),
        only_final_sync(last_batch(s)),
{
    let fs = first_sync_from(s, 0);
    lemma_first_sync_bounds(s, 0);
    let f = first_batch(s);
    assert(f.last() == s[fs]);
    assert forall|k: int| 0 <= k < f.len() - 1 implies !sync_event(#[trigger] f[k]) by {
        assert(f[k] == s[k]);
    }
    lemma_only_final_sync_count(f);
    let r = after_first(s);
    lemma_batch_start_suffix(r);
    let m = between(s);
    let src = first_batch(s) + leftover(s);
    if m.len() == 0 {
        lemma_without_touch_count(f);
        assert(penultimate_raw(s) == without_touch(f));
    } else {
        assert(m.last() == r[batch_start(r) - 1]);
        lemma_batch_start_suffix(m);
        let pr = m.subrange(batch_start(m), m.len() as int);
        assert(pr.last() == m.last());
        lemma_only_final_sync_count(pr);
    }
    let p0 = penultimate_raw(s);
    lemma_backfill_count(p0, src, false);
    lemma_backfill_count(backfill(p0, src, false), src, true);
    if m.len() == 0 {
        assert(f.last() == f[f.len() - 1]);
        assert(!touch_event(f.last()));
    }
}

pub proof fn lemma_assembled_count(s: Seq<RawEvent>)
    requires
        optimizable(s),
    ensures
        count_sync(first_batch(s) + tail(s)) <= 3,
        batch_count(first_batch(s) + tail(s)) == 3,
{
    lemma_pieces(s);
    let f = first_batch(s);
    let pl = penultimate(s) + last_batch(s);
    let t1 = nudge(f, pl, false);
    lemma_nudge_alike(f, pl, false);
    lemma_nudge_alike(f, t1, true);
    lemma_shape_count(t1, pl, EV_SYN, SYN_REPORT);
    lemma_shape_count(tail(s), t1, EV_SYN, SYN_REPORT);
    lemma_count_concat(penultimate(s), last_batch(s), EV_SYN, SYN_REPORT);
    lemma_count_concat(f, tail(s), EV_SYN, SYN_REPORT);
    lemma_only_final_sync_count(last_batch(s));
    let w = f + tail(s);
    assert(w.last() == tail(s)[tail(s).len() - 1]);
    assert(tail(s)[tail(s).len() - 1].ev_type == pl[pl.len() - 1].ev_type);
    assert(pl[pl.len() - 1] == last_batch(s).last());
}

/// Compresses a captured gesture in place. Where the optimizer applies, the
/// events become the first batch, a middle batch and the last batch, with
/// every timestamp rewritten; elsewhere they are left as they are.
pub fn optimize_events(events: &mut Vec<RawEvent>, syn_gap_us: i64) -> (applied: bool)
    requires
        old(events)@.len() > 0 ==> i64::MIN <= old(events)@[0].tv_usec + 3 * syn_gap_us
            <= i64::MAX,
    ensures
        applied == optimizable(old(events)@),
        final(events)@ == optimize_outcome(old(events)@, syn_gap_us as int),
{
    let ghost s = events@;
    if events.len() == 0 {
        return false;
    }
    let touches = count_events(events, EV_KEY, BTN_TOUCH);
    let slots = count_events(events, EV_ABS, ABS_MT_SLOT);
    let idx = first_sync_index(events);
    proof {
        lemma_first_sync_bounds(s, 0);
    }
    if touches > 2 || slots > 1 || idx >= events.len() - 1 {
        return false;
    }
    let base = events[0];
    let mut rest = events.split_off(idx + 1);
    let first = events.split_off(0);
    assert(first@ == first_batch(s));
    assert(rest@ == after_first(s));
    let mut last = drain_last_batch(&mut rest);
    let mut penult = if rest.len() == 0 {
        strip_touch(&first)
    } else {
        drain_last_batch(&mut rest)
    };
    assert(penult@ == penultimate_raw(s));
    assert(rest@ == leftover(s));
    let mut src: Vec<RawEvent> = Vec::new();
    src.extend_from_slice(first.as_slice());
    src.extend_from_slice(rest.as_slice());
    assert(src@ =~= first_batch(s) + leftover(s));
    backfill_axis(&mut penult, &src, false);
    backfill_axis(&mut penult, &src, true);
    let mut tail_v = penult;
    tail_v.append(&mut last);
    nudge_axis(&first, &mut tail_v, false);
    nudge_axis(&first, &mut tail_v, true);
    assert(tail_v@ == tail(s));
    let mut all = first;
    all.append(&mut tail_v);
    proof {
        lemma_assembled_count(s);
    }
    *events = retime_events(&all, base.tv_sec, base.tv_usec, syn_gap_us);
    true
}

/// The first axis value of the first batch of `o` differs from the last axis
/// value that follows that batch, where both exist.
pub open spec fn start_differs_from_end(o: Seq<RawEvent>, y: bool) -> bool {
    let f = first_sync_from(o, 0) + 1;
    let head = o.subrange(0, f);
    let rest = o.subrange(f, o.len() as int);
    let i = first_axis_from(head, 0, y);
    let j = last_axis_before(rest, rest.len() as int, y);
    i < head.len() && j >= 0 ==> head[i].value != rest[j].value
}

proof fn lemma_alike_axes(a: Seq<RawEvent>, b: Seq<RawEvent>, y: bool)
    requires
        alike(a, b),
    ensures
        first_axis_from(a, 0, y) == first_axis_from(b, 0, y),
        last_axis_before(a, a.len() as int, y) == last_axis_before(b, b.len() as int, y),
{
    lemma_shape_first_axis(a, b, 0, y);
    lemma_shape_last_axis(a, b, a.len() as int, y);
}

/// Every optimized sequence has exactly three batches, and on each axis the
/// start batch's value never equals the value the gesture ends on.
pub proof fn lemma_optimized_batches(s: Seq<RawEvent>, gap: int)
    requires
        optimizable(s),
    ensures
        batch_count(optimized(s, gap)) == 3,
        start_differs_from_end(optimized(s, gap), false),
        start_differs_from_end(optimized(s, gap), true),
{
    lemma_pieces(s);
    lemma_assembled_count(s);
    let fb = first_batch(s);
    let tl = tail(s);
    let w = fb + tl;
    let o = optimized(s, gap);
    lemma_retime_alike(w, s[0].tv_sec, s[0].tv_usec as int, gap);
    lemma_shape_count(o, w, EV_SYN, SYN_REPORT);
    assert(o.last().ev_type == w.last().ev_type && o.last().code == w.last().code) by {
        assert(o.last() == o[o.len() - 1]);
        assert(w.last() == w[w.len() - 1]);
    }
    let n = fb.len() as int;
    assert forall|k: int| 0 <= k < n - 1 implies !sync_event(#[trigger] w[k]) by {
        assert(w[k] == fb[k]);
    }
    assert(w[n - 1] == fb.last());
    lemma_first_sync_at(w, 0, n - 1);
    lemma_shape_first_sync(o, w, 0);
    let head = o.subrange(0, n);
    let rest = o.subrange(n, o.len() as int);
    assert(alike(head, fb)) by {
        assert forall|k: int| 0 <= k < head.len() implies (#[trigger] head[k]).ev_type
            == fb[k].ev_type && head[k].code == fb[k].code && head[k].value == fb[k].value by {
            assert(w[k] == fb[k]);
        }
    }
    assert(alike(rest, tl)) by {
        assert forall|k: int| 0 <= k < rest.len() implies (#[trigger] rest[k]).ev_type
            == tl[k].ev_type && rest[k].code == tl[k].code && rest[k].value == tl[k].value by {
            assert(w[n + k] == tl[k]);
        }
    }
    lemma_alike_axes(head, fb, false);
    lemma_alike_axes(head, fb, true);
    lemma_alike_axes(rest, tl, false);
    lemma_alike_axes(rest, tl, true);
    let pl = penultimate(s) + last_batch(s);
    let t1 = nudge(fb, pl, false);
    lemma_nudge_alike(fb, pl, false);
    lemma_nudge_alike(fb, t1, true);
    lemma_shape_last_axis(t1, pl, t1.len() as int, false);
    lemma_shape_last_axis(tl, t1, tl.len() as int, false);
    lemma_shape_last_axis(tl, t1, tl.len() as int, true);
    let jx = last_axis_before(t1, t1.len() as int, false);
    let jy = last_axis_before(t1, t1.len() as int, true);
    lemma_last_axis_bounds(t1, t1.len() as int, false);
    lemma_last_axis_bounds(t1, t1.len() as int, true);
    if jx >= 0 && jy >= 0 {
        assert(jx != jy);
    }
    lemma_first_axis_bounds(fb, 0, false);
    lemma_first_axis_bounds(fb, 0, true);
    let ix = first_axis_from(fb, 0, false);
    let iy = first_axis_from(fb, 0, true);
    if ix < fb.len() && jx >= 0 {
        assert(tl[jx] == t1[jx]);
        assert(rest[jx].value == tl[jx].value);
    }
    if iy < fb.len() && jy >= 0 {
        assert(rest[jy].value == tl[jy].value);
    }
}

proof fn lemma_last_sync_at(s: Seq<RawEvent>, n: int, j: int)
    requires
        -1 <= j < n <= s.len(),
        j >= 0 ==> sync_event(s[j]),
        forall|k: int| j < k < n ==> !sync_event(#[trigger] s[k]),
    ensures
        last_sync_before(s, n) == j,
    decreases n,
{
    if n > 0 && n - 1 != j {
        lemma_last_sync_at(s, n - 1, j);
    }
}

proof fn lemma_last_axis_ge(s: Seq<RawEvent>, n: int, k: int, y: bool)
    requires
        0 <= k < n <= s.len(),
        on_axis(s[k], y),
    ensures
        last_axis_before(s, n, y) >= k,
    decreases n,
{
    if n - 1 != k && !on_axis(s[n - 1], y) {
        lemma_last_axis_ge(s, n - 1, k, y);
    }
}

/// Without any axis event in `s`, there is none to find.
proof fn lemma_last_axis_none(s: Seq<RawEvent>, y: bool)
    requires
        last_axis_before(s, s.len() as int, y) == -1,
    ensures
        forall|k: int| 0 <= k < s.len() ==> !on_axis(#[trigger] s[k], y),
{
    assert forall|k: int| 0 <= k < s.len() implies !on_axis(#[trigger] s[k], y) by {
        if on_axis(s[k], y) {
            lemma_last_axis_ge(s, s.len() as int, k, y);
        }
    }
}

/// If a backfilled batch still lacks the axis, the source had none of it,
/// and a backfill on the other axis adds none of it either.
proof fn lemma_backfill_lacks(p: Seq<RawEvent>, src: Seq<RawEvent>, y: bool)
    ensures
        last_axis_before(backfill(p, src, y), backfill(p, src, y).len() as int, y) == -1
            ==> last_axis_before(src, src.len() as int, y) == -1 && last_axis_before(p, p.len() as int, y) == -1,
        last_axis_before(backfill(p, src, y), backfill(p, src, y).len() as int, !y) == -1
            ==> last_axis_before(p, p.len() as int, !y) == -1,
{
    let b = backfill(p, src, y);
    let j = last_axis_before(src, src.len() as int, y);
    lemma_last_axis_bounds(src, src.len() as int, y);
    lemma_last_axis_bounds(p, p.len() as int, y);
    lemma_last_axis_bounds(p, p.len() as int, !y);
    if !(last_axis_before(p, p.len() as int, y) >= 0 || j < 0) {
        assert(b[0] == src[j]);
        lemma_last_axis_ge(b, b.len() as int, 0, y);
        let q = last_axis_before(p, p.len() as int, !y);
        if q >= 0 {
            assert(b[q + 1] == p[q]);
            lemma_last_axis_ge(b, b.len() as int, q + 1, !y);
        }
    }
}

proof fn lemma_retime_twice(s: Seq<RawEvent>, sec: i64, usec: int, gap: int)
    ensures
        retime(retime(s, sec, usec, gap), sec, usec, gap) == retime(s, sec, usec, gap),
    decreases s.len(),
{
    if s.len() > 0 {
        let next = if sync_event(s[0]) {
            usec + gap
        } else {
            usec
        };
        lemma_retime_twice(s.drop_first(), sec, next, gap);
        let r = retime(s, sec, usec, gap);
        assert(r[0] == RawEvent { tv_sec: sec, tv_usec: usec as i64, ..s[0] });
        assert(r.drop_first() =~= retime(s.drop_first(), sec, next, gap));
    }
}

proof fn lemma_alike_sub(a: Seq<RawEvent>, b: Seq<RawEvent>, lo: int, hi: int)
    requires
        alike(a, b),
        0 <= lo <= hi <= a.len(),
    ensures
        alike(a.subrange(lo, hi), b.subrange(lo, hi)),
{
    assert forall|k: int| 0 <= k < hi - lo implies (#[trigger] a.subrange(lo, hi)[k]).ev_type
        == b.subrange(lo, hi)[k].ev_type && a.subrange(lo, hi)[k].code == b.subrange(lo, hi)[k].code
        && a.subrange(lo, hi)[k].value == b.subrange(lo, hi)[k].value by {
        assert(a[lo + k].ev_type == b[lo + k].ev_type);
    }
}

/// Optimizing an optimized sequence changes nothing: either the optimizer
/// does not apply, or it gives back the same events with the same times.
pub proof fn lemma_optimize_idempotent(s: Seq<RawEvent>, gap: int)
    requires
        optimizable(s),
    ensures
        optimize_outcome(optimized(s, gap), gap) == optimized(s, gap),
{
    let o = optimized(s, gap);
    if !optimizable(o) {
        return;
    }
    lemma_pieces(s);
    lemma_optimized_batches(s, gap);
    let fb = first_batch(s);
    let pen = penultimate(s);
    let lb = last_batch(s);
    let pl = pen + lb;
    let t1 = nudge(fb, pl, false);
    let tl = tail(s);
    let w = fb + tl;
    lemma_nudge_alike(fb, pl, false);
    lemma_nudge_alike(fb, t1, true);
    lemma_retime_alike(w, s[0].tv_sec, s[0].tv_usec as int, gap);
    let n = fb.len() as int;
    let np = pen.len() as int;
    // the first batch of `o` ends where the first batch of `s` did
    assert forall|k: int| 0 <= k < n - 1 implies !sync_event(#[trigger] w[k]) by {
        assert(w[k] == fb[k]);
    }
    assert(w[n - 1] == fb.last());
    lemma_first_sync_at(w, 0, n - 1);
    lemma_shape_first_sync(o, w, 0);
    let fo = first_batch(o);
    let r = after_first(o);
    assert(fo == o.subrange(0, n));
    assert(r == o.subrange(n, o.len() as int));
    lemma_alike_sub(o, w, 0, n);
    lemma_alike_sub(o, w, n, o.len() as int);
    assert(w.subrange(0, n) =~= fb);
    assert(w.subrange(n, w.len() as int) =~= tl);
    // markers of the rest: the end of the middle batch, and maybe the very end
    let lr = r.len() as int;
    assert(lr == np + lb.len());
    assert(same_shape(tl, pl)) by {
        assert forall|k: int| 0 <= k < tl.len() implies (#[trigger] tl[k]).ev_type == pl[k].ev_type
            && tl[k].code == pl[k].code by {
            assert(tl[k].ev_type == t1[k].ev_type);
        }
    }
    lemma_zero_count_no_sync(pen.drop_last());
    assert forall|k: int| np - 1 < k < lr - 1 implies !sync_event(#[trigger] r[k]) by {
        assert(r[k].ev_type == pl[k].ev_type && r[k].code == pl[k].code);
        assert(pl[k] == lb[k - np]);
    }
    assert(r[np - 1].ev_type == pl[np - 1].ev_type && r[np - 1].code == pl[np - 1].code);
    assert(pl[np - 1] == pen.last());
    lemma_last_sync_at(r, lr - 1, np - 1);
    let m = between(o);
    assert(m == r.subrange(0, np));
    assert forall|k: int| 0 <= k < np - 1 implies !sync_event(#[trigger] m[k]) by {
        assert(m[k].ev_type == pl[k].ev_type && m[k].code == pl[k].code);
        assert(pl[k] == pen.drop_last()[k]);
    }
    lemma_last_sync_at(m, np - 1, -1);
    assert(penultimate_raw(o) =~= m);
    assert(leftover(o) =~= Seq::<RawEvent>::empty());
    let src = fo + leftover(o);
    assert(src =~= fo);
    // backfilling changes nothing: an axis the middle batch lacks, the first batch lacks too
    assert(same_shape(m, pen)) by {
        assert forall|k: int| 0 <= k < m.len() implies (#[trigger] m[k]).ev_type == pen[k].ev_type
            && m[k].code == pen[k].code by {
            assert(m[k].ev_type == pl[k].ev_type && m[k].code == pl[k].code);
            assert(pl[k] == pen[k]);
        }
    }
    let src0 = first_batch(s) + leftover(s);
    let p0 = penultimate_raw(s);
    let b1 = backfill(p0, src0, false);
    lemma_backfill_lacks(p0, src0, false);
    lemma_backfill_lacks(b1, src0, true);
    lemma_shape_last_axis(m, pen, m.len() as int, false);
    lemma_shape_last_axis(m, pen, m.len() as int, true);
    lemma_alike_axes(fo, fb, false);
    lemma_alike_axes(fo, fb, true);
    lemma_last_axis_bounds(fb, fb.len() as int, false);
    lemma_last_axis_bounds(fb, fb.len() as int, true);
    lemma_last_axis_bounds(m, m.len() as int, false);
    lemma_last_axis_bounds(m, m.len() as int, true);
    if last_axis_before(m, m.len() as int, false) == -1 {
        assert(last_axis_before(pen, pen.len() as int, false) == -1);
        assert(last_axis_before(b1, b1.len() as int, false) == -1);
        assert(last_axis_before(src0, src0.len() as int, false) == -1);
        let q = last_axis_before(fb, fb.len() as int, false);
        if q >= 0 {
            assert(src0[q] == fb[q]);
            lemma_last_axis_ge(src0, src0.len() as int, q, false);
        }
        assert(last_axis_before(fo, fo.len() as int, false) == -1);
    }
    if last_axis_before(m, m.len() as int, true) == -1 {
        assert(last_axis_before(pen, pen.len() as int, true) == -1);
        assert(last_axis_before(src0, src0.len() as int, true) == -1);
        let q = last_axis_before(fb, fb.len() as int, true);
        if q >= 0 {
            assert(src0[q] == fb[q]);
            lemma_last_axis_ge(src0, src0.len() as int, q, true);
        }
        assert(last_axis_before(fo, fo.len() as int, true) == -1);
    }
    assert(backfill(m, src, false) == m);
    assert(backfill(m, src, true) == m);
    assert(penultimate(o) == m);
    // the nudges change nothing: the end values already differ from the start
    assert(m + last_batch(o) =~= r);
    assert(nudge(fo, r, false) == r);
    assert(nudge(fo, r, true) == r);
    assert(tail(o) == r);
    assert(fo + r =~= o);
    // and retiming from the same first time gives the same times
    lemma_retime_twice(w, s[0].tv_sec, s[0].tv_usec as int, gap);
    assert(o[0] == RawEvent { tv_sec: s[0].tv_sec, tv_usec: (s[0].tv_usec as int) as i64, ..w[0] });
}

} // verus!
