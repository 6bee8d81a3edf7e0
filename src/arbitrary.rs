//! Input at arbitrary points: a recorded tap or swipe used as a template,
//! replayed at the coordinates a client sends, and the decisions of the
//! cursor that shows where the next touch goes.
use vstd::prelude::*;
use crate::codec::{decode_event, value_bytes, word_bytes, ActionEvent, DecodeError, EventLayout};
use crate::event::{
    batch_count, count_code, count_events, count_sync, first_sync_from, first_sync_index,
    is_sync_marker, is_x_coord, is_y_coord, sync_event, x_event, y_event, RawEvent, EV_SYN,
    SYN_REPORT,
};
use crate::optimize::{
    lemma_count_concat, lemma_count_split, lemma_first_sync_bounds, lemma_no_sync_count,
};
use crate::store::{clone_event, ActionRecording};
use crate::transform::{
    apply_flags, coord_in_range, effective_flags, flags_for, transform_coord, CanonicalRotation,
    Coord, TouchFlags,
};

verus! {

/// The screen as the display library reports it.
#[derive(Clone, Copy, Debug, PartialEq, Eq, Structural)]
pub struct ScreenState {
    pub width: u32,
    pub height: u32,
    pub rotation: CanonicalRotation,
    pub touch: TouchFlags,
}

/// The settings of arbitrary input that the logic reads.
#[derive(Clone, Debug)]
pub struct InputOptions {
    pub cursor_width: u16,
    pub cursor_height: u16,
    pub cursor_min_refresh_ms: i64,
    pub custom_cursor_path: String,
    pub cursor_invert_color: bool,
    pub reload_background_after_input: bool,
    pub reload_background_delay_ms: i64,
    pub use_overrides: bool,
    pub swap_axes_override: bool,
    pub mirror_x_override: bool,
    pub mirror_y_override: bool,
}

impl Default for InputOptions {
    fn default() -> (r: InputOptions)
        ensures
            r.cursor_width == 32,
            r.cursor_height == 50,
            r.cursor_min_refresh_ms == 200,
            r.custom_cursor_path@ == "cursor.png"@,
            !r.cursor_invert_color,
            r.reload_background_after_input,
            r.reload_background_delay_ms == 1500,
            !r.use_overrides,
            r.swap_axes_override,
            r.mirror_x_override,
            !r.mirror_y_override,
    {
        proof {
            reveal_strlit("cursor.png");
        }
        InputOptions {
            cursor_width: 32,
            cursor_height: 50,
            cursor_min_refresh_ms: 200,
            custom_cursor_path: "cursor.png".to_string(),
            cursor_invert_color: false,
            reload_background_after_input: true,
            reload_background_delay_ms: 1500,
            use_overrides: false,
            swap_axes_override: true,
            mirror_x_override: true,
            mirror_y_override: false,
        }
    }
}

impl InputOptions {
    /// The configured override of the panel flags, if overrides are on.
    pub fn overrides(&self) -> (r: Option<TouchFlags>)
        ensures
            r == if self.use_overrides {
                Some(
                    TouchFlags {
                        swap_axes: self.swap_axes_override,
                        mirror_x: self.mirror_x_override,
                        mirror_y: self.mirror_y_override,
                    },
                )
            } else {
                None::<TouchFlags>
            },
    {
        if self.use_overrides {
            Some(
                TouchFlags {
                    swap_axes: self.swap_axes_override,
                    mirror_x: self.mirror_x_override,
                    mirror_y: self.mirror_y_override,
                },
            )
        } else {
            None
        }
    }
}

/// A client's message to the input coordinator.
#[derive(Clone, Copy, Debug, PartialEq, Eq, Structural)]
pub enum InputMsg {
    StartInput(Option<Coord>),
    StopInput(Option<Coord>),
    MoveAbsolute(Coord),
    MoveRelative(Coord),
    Reinit,
    ClientConnect,
    ClientDisconnect,
    Shutdown,
}

/// A message to the cursor renderer.
#[derive(Clone, Copy, Debug, PartialEq, Eq, Structural)]
pub enum CursorMsg {
    Draw(Coord),
    Hide,
    ReloadBackground,
    Reinit,
    Stop,
}

/// A message sent back to the client.
#[derive(Clone, Debug)]
pub enum ClientMsg {
    Error(String),
}

/// What the input coordinator asks its caller to do, in order.
#[derive(Clone, Debug)]
pub enum InputAction {
    /// Write these bytes to the template's device.
    Write(Vec<u8>),
    /// Send this message to the cursor renderer.
    Cursor(CursorMsg),
    /// Sleep this many milliseconds.
    Sleep(i64),
    /// Start the cursor renderer.
    StartCursor,
}

/// An action with its bytes as a sequence.
pub enum ActionView {
    Write(Seq<u8>),
    Cursor(CursorMsg),
    Sleep(i64),
    StartCursor,
}

pub open spec fn action_view(a: InputAction) -> ActionView {
    match a {
        InputAction::Write(b) => ActionView::Write(b@),
        InputAction::Cursor(m) => ActionView::Cursor(m),
        InputAction::Sleep(ms) => ActionView::Sleep(ms),
        InputAction::StartCursor => ActionView::StartCursor,
    }
}

pub open spec fn actions_view(v: Seq<InputAction>) -> Seq<ActionView> {
    Seq::new(v.len(), |k: int| action_view(v[k]))
}

/// Why the coordinator could not start.
#[derive(Clone, Copy, Debug, PartialEq, Eq, Structural)]
pub enum InputError {
    /// The template recording was not optimized.
    NotOptimized,
    /// A template event could not be read back.
    Decode(DecodeError),
    /// The template does not have exactly three batches; this many instead.
    BatchCount(usize),
}

/// Every event of `v` has the layout's length.
pub open spec fn all_decodable(v: Seq<ActionEvent>, l: EventLayout) -> bool {
    forall|k: int| 0 <= k < v.len() ==> (#[trigger] v[k]).buf@.len() == l.event_len()
}

pub open spec fn decoded(v: Seq<ActionEvent>, l: EventLayout) -> Seq<RawEvent> {
    Seq::new(v.len(), |k: int| decode_event(v[k].buf@, l))
}

proof fn lemma_count_from_front(s: Seq<RawEvent>, i: int)
    requires
        0 <= i < s.len(),
    ensures
        count_sync(s.subrange(i, s.len() as int)) == count_sync(s.subrange(i + 1, s.len() as int))
            + if sync_event(s[i]) {
            1nat
        } else {
            0nat
        },
{
    let a = seq![s[i]];
    lemma_count_concat(a, s.subrange(i + 1, s.len() as int), EV_SYN, SYN_REPORT);
    assert(a + s.subrange(i + 1, s.len() as int) =~= s.subrange(i, s.len() as int));
    assert(a.drop_last() =~= Seq::<RawEvent>::empty());
    assert(a.last() == s[i]);
    assert(count_code(a.drop_last(), EV_SYN, SYN_REPORT) == 0);
}

proof fn lemma_count_le_len(s: Seq<RawEvent>)
    ensures
        count_sync(s) <= s.len(),
    decreases s.len(),
{
    if s.len() > 0 {
        lemma_count_le_len(s.drop_last());
    }
}

/// In a sequence of three batches, the first two end at markers.
proof fn lemma_three_batches(s: Seq<RawEvent>)
    requires
        batch_count(s) == 3,
    ensures
        first_sync_from(s, 0) < first_sync_from(s, first_sync_from(s, 0) + 1) < s.len(),
{
    lemma_first_sync_bounds(s, 0);
    if first_sync_from(s, 0) == s.len() {
        assert(s.subrange(0, s.len() as int) =~= s);
        lemma_sync_exists_from(s, 0);
    }
    let i1 = first_sync_from(s, 0);
    lemma_count_split(s, i1 + 1, EV_SYN, SYN_REPORT);
    assert(s.subrange(0, i1 + 1).drop_last() =~= s.subrange(0, i1));
    assert forall|k: int| 0 <= k < s.subrange(0, i1).len() implies !sync_event(
        #[trigger] s.subrange(0, i1)[k],
    ) by {
        assert(s.subrange(0, i1)[k] == s[k]);
    }
    lemma_no_sync_count(s.subrange(0, i1));
    if s.len() > 0 && !sync_event(s.last()) {
        assert(count_sync(s) == count_sync(s.drop_last()));
        lemma_count_le_len(s.drop_last());
    }
    lemma_sync_exists_from(s, i1 + 1);
    lemma_first_sync_bounds(s, i1 + 1);
}

fn decode_all(events: &Vec<ActionEvent>, l: &EventLayout) -> (r: Result<Vec<RawEvent>, InputError>)
    requires
        l.wf(),
    ensures
        all_decodable(events@, *l) <==> r is Ok,
        r matches Ok(d) ==> d@ == decoded(events@, *l),
{
    let mut d: Vec<RawEvent> = Vec::new();
    let mut i: usize = 0;
    while i < events.len()
        invariant
            l.wf(),
            i <= events.len(),
            d@ == decoded(events@, *l).subrange(0, i as int),
            forall|k: int| 0 <= k < i ==> (#[trigger] events@[k]).buf@.len() == l.event_len(),
        decreases events.len() - i,
    {
        match events[i].input_event(l) {
            Ok(e) => {
                d.push(e);
                assert(d@ =~= decoded(events@, *l).subrange(0, i + 1));
            },
            Err(e) => {
                return Err(InputError::Decode(e));
            },
        }
        i = i + 1;
    }
    assert(d@ =~= decoded(events@, *l));
    Ok(d)
}

/// A marker lies at or after `i` if the part from `i` counts one.
proof fn lemma_sync_exists_from(s: Seq<RawEvent>, i: int)
    requires
        0 <= i <= s.len(),
        count_sync(s.subrange(i, s.len() as int)) > 0,
    ensures
        first_sync_from(s, i) < s.len(),
    decreases s.len() - i,
{
    if i == s.len() {
        assert(s.subrange(i, s.len() as int) =~= Seq::<RawEvent>::empty());
    } else {
        lemma_count_from_front(s, i);
        if !sync_event(s[i]) {
            lemma_sync_exists_from(s, i + 1);
        }
    }
}

/// Splits a template into its start, move and stop batches.
pub fn split_template(events: Vec<ActionEvent>, l: &EventLayout) -> (r: Result<
    (Vec<ActionEvent>, Vec<ActionEvent>, Vec<ActionEvent>),
    InputError,
>)
    requires
        l.wf(),
    ensures
        !all_decodable(events@, *l) ==> r is Err,
        all_decodable(events@, *l) && batch_count(decoded(events@, *l)) != 3 ==> r == Err::<
            (Vec<ActionEvent>, Vec<ActionEvent>, Vec<ActionEvent>),
            InputError,
        >(InputError::BatchCount(batch_count(decoded(events@, *l)) as usize)),
        all_decodable(events@, *l) && batch_count(decoded(events@, *l)) == 3 ==> r is Ok,
        r matches Ok((a, b, c)) ==> {
            let d = decoded(events@, *l);
            let i1 = first_sync_from(d, 0);
            let i2 = first_sync_from(d, i1 + 1);
            &&& all_decodable(events@, *l)
            &&& i1 < i2 < d.len()
            &&& a@ == events@.subrange(0, i1 + 1)
            &&& b@ == events@.subrange(i1 + 1, i2 + 1)
            &&& c@ == events@.subrange(i2 + 1, events@.len() as int)
        },
{
    let d = match decode_all(&events, l) {
        Ok(d) => d,
        Err(e) => {
            return Err(e);
        },
    };
    let syncs = count_events(&d, EV_SYN, SYN_REPORT);
    let trailing: usize = if d.len() > 0 && !is_sync_marker(&d[d.len() - 1]) {
        1
    } else {
        0
    };
    proof {
        lemma_count_le_len(d@);
        if trailing == 1 {
            assert(count_sync(d@) == count_sync(d@.drop_last()));
            lemma_count_le_len(d@.drop_last());
        }
    }
    if syncs + trailing != 3 {
        return Err(InputError::BatchCount(syncs + trailing));
    }
    proof {
        lemma_three_batches(d@);
    }
    let i1 = first_sync_index(&d);
    let mut i2: usize = i1 + 1;
    while i2 < d.len() && !is_sync_marker(&d[i2])
        invariant
            i1 + 1 <= i2 <= d.len(),
            first_sync_from(d@, i1 + 1) == first_sync_from(d@, i2 as int),
        decreases d.len() - i2,
    {
        i2 = i2 + 1;
    }
    let mut rest = events;
    let stop = rest.split_off(i2 + 1);
    let moves = rest.split_off(i1 + 1);
    Ok((rest, moves, stop))
}

/// `v` clamped to the range of an `i32`: the value written for a coordinate.
pub open spec fn device_value(v: i64) -> i32 {
    if v > i32::MAX {
        i32::MAX
    } else if v < i32::MIN {
        i32::MIN
    } else {
        v as i32
    }
}

pub fn to_device_value(v: i64) -> (r: i32)
    ensures
        r == device_value(v),
{
    if v > i32::MAX as i64 {
        i32::MAX
    } else if v < i32::MIN as i64 {
        i32::MIN
    } else {
        v as i32
    }
}

/// The bytes written for a template event: its time fields replaced by
/// `elapsed` (microseconds) where given, and its value by the coordinate of
/// its axis where it is an X or Y event.
pub open spec fn substituted(e: ActionEvent, l: EventLayout, c: Coord, elapsed: Option<i64>) -> Seq<u8> {
    let t = l.time_bytes as int;
    let timed = match elapsed {
        Some(d) => word_bytes((d / 1_000_000) as i64, l) + word_bytes((d % 1_000_000) as i64, l)
            + e.buf@.subrange(2 * t, e.buf@.len() as int),
        None => e.buf@,
    };
    let ev = decode_event(e.buf@, l);
    if x_event(ev) {
        timed.subrange(0, timed.len() - 4) + value_bytes(device_value(c.x), l)
    } else if y_event(ev) {
        timed.subrange(0, timed.len() - 4) + value_bytes(device_value(c.y), l)
    } else {
        timed
    }
}

pub open spec fn writes_view(v: Seq<ActionEvent>, l: EventLayout, c: Coord, elapsed: Option<i64>) -> Seq<ActionView> {
    Seq::new(v.len(), |k: int| ActionView::Write(substituted(v[k], l, c, elapsed)))
}

fn substitute(e: &ActionEvent, l: &EventLayout, c: Coord, elapsed: Option<i64>) -> (r: Vec<u8>)
    requires
        l.wf(),
        e.buf@.len() == l.event_len(),
        elapsed matches Some(d) ==> d >= 0,
    ensures
        r@ == substituted(*e, *l, c, elapsed),
{
    let mut ae = clone_event(e);
    let ev = match ae.input_event(l) {
        Ok(ev) => ev,
        Err(_) => {
            return ae.buf;
        },
    };
    if let Some(d) = elapsed {
        ae.set_time(d, l);
    }
    if is_x_coord(&ev) {
        ae.set_value(to_device_value(c.x), l);
    } else if is_y_coord(&ev) {
        ae.set_value(to_device_value(c.y), l);
    }
    ae.buf
}

/// Appends one write per template event.
fn push_writes(
    out: &mut Vec<InputAction>,
    events: &Vec<ActionEvent>,
    l: &EventLayout,
    c: Coord,
    elapsed: Option<i64>,
)
    requires
        l.wf(),
        all_decodable(events@, *l),
        elapsed matches Some(d) ==> d >= 0,
    ensures
        actions_view(final(out)@) == actions_view(old(out)@) + writes_view(events@, *l, c, elapsed),
{
    let ghost start = actions_view(out@);
    let mut i: usize = 0;
    while i < events.len()
        invariant
            l.wf(),
            all_decodable(events@, *l),
            elapsed matches Some(d) ==> d >= 0,
            i <= events.len(),
            actions_view(out@) == start + writes_view(events@, *l, c, elapsed).subrange(0, i as int),
        decreases events.len() - i,
    {
        let b = substitute(&events[i], l, c, elapsed);
        let ghost before = out@;
        out.push(InputAction::Write(b));
        assert(actions_view(out@) =~= actions_view(before).push(ActionView::Write(b@)));
        assert(writes_view(events@, *l, c, elapsed).subrange(0, i + 1) =~= writes_view(
            events@,
            *l,
            c,
            elapsed,
        ).subrange(0, i as int).push(ActionView::Write(b@)));
        i = i + 1;
    }
    assert(writes_view(events@, *l, c, elapsed).subrange(0, events.len() as int) =~= writes_view(
        events@,
        *l,
        c,
        elapsed,
    ));
}

/// Receives client messages and decides what to write to the template's
/// device and what to tell the cursor renderer.
pub struct InputManager {
    pub layout: EventLayout,
    pub dev_path: String,
    pub start_events: Vec<ActionEvent>,
    pub move_events: Vec<ActionEvent>,
    pub stop_events: Vec<ActionEvent>,
    pub screen: ScreenState,
    pub overrides: Option<TouchFlags>,
    pub cursor_width: u32,
    pub cursor_height: u32,
    pub start_time_us: Option<i64>,
    pub current_coord: Option<Coord>,
    pub cursor_running: bool,
    pub reload_background_after_input: bool,
    pub reload_background_delay_ms: i64,
}

/// Milliseconds the coordinator waits after hiding the cursor on a reinit.
pub const REINIT_SLEEP_MS: i64 = 100;

/// Elapsed time used when a gesture has no start time.
pub const DEFAULT_ELAPSED_US: i64 = 1000;

pub open spec fn sent(running: bool, msgs: Seq<CursorMsg>) -> Seq<ActionView> {
    if running {
        Seq::new(msgs.len(), |k: int| ActionView::Cursor(msgs[k]))
    } else {
        Seq::empty()
    }
}

pub open spec fn span(size: u32, cursor: u32) -> int {
    if size >= cursor {
        size - cursor
    } else {
        0
    }
}

pub open spec fn clamp_to(v: int, hi: int) -> i64 {
    if v < 0 {
        0
    } else if v > hi {
        hi as i64
    } else {
        v as i64
    }
}

impl InputManager {
    pub open spec fn wf(&self) -> bool {
        &&& self.layout.wf()
        &&& all_decodable(self.start_events@, self.layout)
        &&& all_decodable(self.move_events@, self.layout)
        &&& all_decodable(self.stop_events@, self.layout)
        &&& self.current_coord matches Some(c) ==> coord_in_range(c)
        &&& self.start_time_us matches Some(t) ==> t >= 0
        &&& self.reload_background_delay_ms >= 0
    }

    /// Where the cursor rests when nothing else is known.
    pub open spec fn center(&self) -> Coord {
        Coord {
            x: (span(self.screen.width, self.cursor_width) / 2) as i64,
            y: (span(self.screen.height, self.cursor_height) / 2) as i64,
        }
    }

    /// The given point, else the last known one, else the center.
    pub open spec fn resolved(&self, c: Option<Coord>) -> Coord {
        match c {
            Some(c) => c,
            None => match self.current_coord {
                Some(p) => p,
                None => self.center(),
            },
        }
    }

    pub open spec fn native(&self, c: Coord) -> Coord {
        apply_flags(
            c,
            effective_flags(self.screen.rotation, self.screen.touch, self.overrides),
            self.screen.width as int,
            self.screen.height as int,
        )
    }

    pub open spec fn elapsed(&self, now_us: i64) -> i64 {
        match self.start_time_us {
            Some(t) => if now_us >= t {
                (now_us - t) as i64
            } else {
                0
            },
            None => DEFAULT_ELAPSED_US,
        }
    }

    /// Starts from an optimized template recording; refuses any other, and
    /// one whose events do not form exactly three batches.
    pub fn new(template: ActionRecording, l: EventLayout, screen: ScreenState, opts: &InputOptions) -> (r:
        Result<InputManager, InputError>)
        requires
            l.wf(),
            opts.reload_background_delay_ms >= 0,
        ensures
            !template.is_optimized ==> r == Err::<InputManager, InputError>(InputError::NotOptimized),
            template.is_optimized && all_decodable(template.events@, l) && batch_count(
                decoded(template.events@, l),
            ) == 3 ==> r is Ok,
            template.is_optimized && all_decodable(template.events@, l) && batch_count(
                decoded(template.events@, l),
            ) != 3 ==> r is Err,
            r matches Ok(m) ==> m.wf() && m.start_time_us.is_none() && m.current_coord.is_none()
                && !m.cursor_running && m.screen == screen && m.dev_path == template.dev_path
                && m.layout == l && m.overrides == (if opts.use_overrides {
                Some(
                    TouchFlags {
                        swap_axes: opts.swap_axes_override,
                        mirror_x: opts.mirror_x_override,
                        mirror_y: opts.mirror_y_override,
                    },
                )
            } else {
                None::<TouchFlags>
            }) && m.cursor_width == opts.cursor_width && m.cursor_height == opts.cursor_height
                && m.reload_background_after_input == opts.reload_background_after_input
                && m.reload_background_delay_ms == opts.reload_background_delay_ms
                && m.start_events@ + m.move_events@ + m.stop_events@ == template.events@,
    {
        if !template.is_optimized {
            return Err(InputError::NotOptimized);
        }
        let ghost all = template.events@;
        let (start_events, move_events, stop_events) = match split_template(template.events, &l) {
            Ok(b) => b,
            Err(e) => {
                return Err(e);
            },
        };
        proof {
            assert(start_events@ + move_events@ + stop_events@ =~= all);
            assert forall|k: int| 0 <= k < move_events@.len() implies (#[trigger] move_events@[k]).buf@.len() == l.event_len() by {
                assert(move_events@[k] == all[k + start_events@.len()]);
            }
            assert forall|k: int| 0 <= k < stop_events@.len() implies (#[trigger] stop_events@[k]).buf@.len() == l.event_len() by {
                assert(stop_events@[k] == all[k + start_events@.len() + move_events@.len()]);
            }
        }
        Ok(
            InputManager {
                layout: l,
                dev_path: template.dev_path,
                start_events,
                move_events,
                stop_events,
                screen,
                overrides: opts.overrides(),
                cursor_width: opts.cursor_width as u32,
                cursor_height: opts.cursor_height as u32,
                start_time_us: None,
                current_coord: None,
                cursor_running: false,
                reload_background_after_input: opts.reload_background_after_input,
                reload_background_delay_ms: opts.reload_background_delay_ms,
            },
        )
    }

    fn send(&self, out: &mut Vec<InputAction>, m: CursorMsg)
        ensures
            actions_view(final(out)@) == actions_view(old(out)@) + sent(self.cursor_running, seq![m]),
    {
        let ghost before = out@;
        if self.cursor_running {
            out.push(InputAction::Cursor(m));
            assert(actions_view(out@) =~= actions_view(before) + sent(true, seq![m]));
        } else {
            assert(actions_view(out@) =~= actions_view(before) + sent(false, seq![m]));
        }
    }

    pub fn get_coord(&self, c: Option<Coord>) -> (r: Coord)
        ensures
            r == self.resolved(c),
    {
        match c {
            Some(c) => c,
            None => match self.current_coord {
                Some(p) => p,
                None => {
                    let w = if self.screen.width >= self.cursor_width {
                        self.screen.width - self.cursor_width
                    } else {
                        0
                    };
                    let h = if self.screen.height >= self.cursor_height {
                        self.screen.height - self.cursor_height
                    } else {
                        0
                    };
                    Coord { x: (w / 2) as i64, y: (h / 2) as i64 }
                },
            },
        }
    }

    /// Moves a canonical point into the panel's native space.
    pub fn translate_coord(&self, c: Coord) -> (r: Coord)
        requires
            coord_in_range(c),
        ensures
            r == self.native(c),
    {
        let f = flags_for(self.screen.rotation, self.screen.touch, self.overrides);
        transform_coord(c, f, self.screen.width, self.screen.height)
    }

    fn elapsed_us(&self, now_us: i64) -> (r: i64)
        requires
            self.wf(),
            now_us >= 0,
        ensures
            r == self.elapsed(now_us),
            r >= 0,
    {
        match self.start_time_us {
            Some(t) => if now_us >= t {
                now_us - t
            } else {
                0
            },
            None => DEFAULT_ELAPSED_US,
        }
    }

    /// Touch down: hide the cursor and write the start batch at the point.
    pub fn input_start(&mut self, c: Option<Coord>, now_us: i64) -> (r: Vec<InputAction>)
        requires
            old(self).wf(),
            c matches Some(p) ==> coord_in_range(p),
            now_us >= 0,
        ensures
            final(self).wf(),
            *final(self) == (InputManager { start_time_us: Some(now_us), ..*old(self) }),
            actions_view(r@) == sent(old(self).cursor_running, seq![CursorMsg::Hide]) + writes_view(
                old(self).start_events@,
                old(self).layout,
                old(self).native(old(self).resolved(c)),
                None,
            ),
    {
        let mut out: Vec<InputAction> = Vec::new();
        self.send(&mut out, CursorMsg::Hide);
        let p = self.get_coord(c);
        let q = self.translate_coord(p);
        self.start_time_us = Some(now_us);
        push_writes(&mut out, &self.start_events, &self.layout, q, None);
        assert(actions_view(Seq::<InputAction>::empty()) =~= Seq::<ActionView>::empty());
        out
    }

    /// A move: during a gesture, write the move batch at the point with the
    /// time since touch down; before one, only move the cursor.
    pub fn input_move_abs(&mut self, c: Coord, now_us: i64) -> (r: Vec<InputAction>)
        requires
            old(self).wf(),
            coord_in_range(c),
            now_us >= 0,
        ensures
            final(self).wf(),
            *final(self) == (InputManager { current_coord: Some(c), ..*old(self) }),
            actions_view(r@) == if old(self).start_time_us is Some {
                writes_view(
                    old(self).move_events@,
                    old(self).layout,
                    old(self).native(c),
                    Some(old(self).elapsed(now_us)),
                )
            } else {
                sent(old(self).cursor_running, seq![CursorMsg::Draw(c)])
            },
    {
        let mut out: Vec<InputAction> = Vec::new();
        self.current_coord = Some(c);
        assert(actions_view(Seq::<InputAction>::empty()) =~= Seq::<ActionView>::empty());
        if self.start_time_us.is_some() {
            let q = self.translate_coord(c);
            let e = self.elapsed_us(now_us);
            push_writes(&mut out, &self.move_events, &self.layout, q, Some(e));
        } else {
            self.send(&mut out, CursorMsg::Draw(c));
        }
        out
    }

    /// The point `delta` away from the current one, kept on the screen.
    pub open spec fn moved_by(&self, delta: Coord) -> Coord {
        let p = self.resolved(None);
        Coord {
            x: clamp_to(p.x + delta.x, span(self.screen.width, self.cursor_width)),
            y: clamp_to(p.y + delta.y, span(self.screen.height, self.cursor_height)),
        }
    }

    /// A relative move: clamp the new point to the screen, then move there.
    pub fn input_move_rel(&mut self, delta: Coord, now_us: i64) -> (r: Vec<InputAction>)
        requires
            old(self).wf(),
            coord_in_range(delta),
            now_us >= 0,
        ensures
            final(self).wf(),
            *final(self) == (InputManager {
                current_coord: Some(old(self).moved_by(delta)),
                ..*old(self)
            }),
            actions_view(r@) == if old(self).start_time_us is Some {
                writes_view(
                    old(self).move_events@,
                    old(self).layout,
                    old(self).native(old(self).moved_by(delta)),
                    Some(old(self).elapsed(now_us)),
                )
            } else {
                sent(old(self).cursor_running, seq![CursorMsg::Draw(old(self).moved_by(delta))])
            },
    {
        let p = self.get_coord(None);
        let max_x: i64 = if self.screen.width >= self.cursor_width {
            (self.screen.width - self.cursor_width) as i64
        } else {
            0
        };
        let max_y: i64 = if self.screen.height >= self.cursor_height {
            (self.screen.height - self.cursor_height) as i64
        } else {
            0
        };
        let x = p.x + delta.x;
        let y = p.y + delta.y;
        let nx = if x < 0 {
            0
        } else if x > max_x {
            max_x
        } else {
            x
        };
        let ny = if y < 0 {
            0
        } else if y > max_y {
            max_y
        } else {
            y
        };
        self.input_move_abs(Coord { x: nx, y: ny }, now_us)
    }

    /// The native point a gesture ends on: one past the translated point on each axis.
    pub open spec fn stop_point(&self, c: Option<Coord>) -> Coord {
        let q = self.native(self.resolved(c));
        Coord { x: (q.x + 1) as i64, y: (q.y + 1) as i64 }
    }

    /// Touch up: write the move and the stop batch, end the gesture, and
    /// have the cursor's background reloaded if so configured.
    pub fn input_stop(&mut self, c: Option<Coord>, now_us: i64) -> (r: Vec<InputAction>)
        requires
            old(self).wf(),
            c matches Some(p) ==> coord_in_range(p),
            now_us >= 0,
        ensures
            final(self).wf(),
            *final(self) == (InputManager { start_time_us: None, ..*old(self) }),
            actions_view(r@) == writes_view(
                old(self).move_events@,
                old(self).layout,
                old(self).stop_point(c),
                Some(old(self).elapsed(now_us)),
            ) + writes_view(
                old(self).stop_events@,
                old(self).layout,
                old(self).stop_point(c),
                Some(old(self).elapsed(now_us)),
            ) + if old(self).reload_background_after_input {
                seq![ActionView::Sleep(old(self).reload_background_delay_ms)] + sent(
                    old(self).cursor_running,
                    seq![CursorMsg::ReloadBackground],
                )
            } else {
                Seq::empty()
            },
    {
        let mut out: Vec<InputAction> = Vec::new();
        let p = self.get_coord(c);
        let q = self.translate_coord(p);
        let stop = Coord { x: q.x + 1, y: q.y + 1 };
        let e = self.elapsed_us(now_us);
        assert(actions_view(Seq::<InputAction>::empty()) =~= Seq::<ActionView>::empty());
        push_writes(&mut out, &self.move_events, &self.layout, stop, Some(e));
        push_writes(&mut out, &self.stop_events, &self.layout, stop, Some(e));
        self.start_time_us = None;
        let ghost mid = actions_view(out@);
        if self.reload_background_after_input {
            out.push(InputAction::Sleep(self.reload_background_delay_ms));
            assert(actions_view(out@) =~= mid + seq![ActionView::Sleep(self.reload_background_delay_ms)]);
            self.send(&mut out, CursorMsg::ReloadBackground);
            assert(actions_view(out@) =~= mid + (seq![ActionView::Sleep(self.reload_background_delay_ms)] + sent(
                self.cursor_running,
                seq![CursorMsg::ReloadBackground],
            )));
        } else {
            assert(actions_view(out@) =~= mid + Seq::<ActionView>::empty());
        }
        out
    }

    /// The screen was re-read: take its geometry and orientation.
    pub fn reinit_screen(&mut self, screen: ScreenState)
        requires
            old(self).wf(),
        ensures
            final(self).wf(),
            *final(self) == (InputManager { screen, ..*old(self) }),
    {
        self.screen = screen;
    }

    /// Reinit: hide the cursor, take the new screen, reset the position to
    /// the center and have the renderer reset, reload and draw there.
    pub fn reinit(&mut self, screen: ScreenState) -> (r: Vec<InputAction>)
        requires
            old(self).wf(),
        ensures
            final(self).wf(),
            *final(self) == (InputManager {
                screen,
                current_coord: Some(final(self).center()),
                ..*old(self)
            }),
            actions_view(r@) == sent(old(self).cursor_running, seq![CursorMsg::Hide]) + seq![
                ActionView::Sleep(REINIT_SLEEP_MS),
            ] + sent(
                old(self).cursor_running,
                seq![CursorMsg::Reinit, CursorMsg::ReloadBackground, CursorMsg::Draw(final(self).center())],
            ),
    {
        let mut out: Vec<InputAction> = Vec::new();
        assert(actions_view(Seq::<InputAction>::empty()) =~= Seq::<ActionView>::empty());
        self.send(&mut out, CursorMsg::Hide);
        let ghost a = actions_view(out@);
        out.push(InputAction::Sleep(REINIT_SLEEP_MS));
        assert(actions_view(out@) =~= a + seq![ActionView::Sleep(REINIT_SLEEP_MS)]);
        self.reinit_screen(screen);
        self.current_coord = None;
        let start = self.get_coord(None);
        let ghost b = actions_view(out@);
        self.send(&mut out, CursorMsg::Reinit);
        self.send(&mut out, CursorMsg::ReloadBackground);
        self.send(&mut out, CursorMsg::Draw(start));
        assert(actions_view(out@) =~= b + sent(
            self.cursor_running,
            seq![CursorMsg::Reinit, CursorMsg::ReloadBackground, CursorMsg::Draw(start)],
        ));
        self.current_coord = Some(start);
        out
    }

    /// A client connected: take the re-read screen and start the cursor
    /// renderer if it is not running, drawing the cursor where it rests.
    pub fn client_connect(&mut self, screen: ScreenState) -> (r: Vec<InputAction>)
        requires
            old(self).wf(),
        ensures
            final(self).wf(),
            *final(self) == (InputManager { screen, cursor_running: true, ..*old(self) }),
            actions_view(r@) == if old(self).cursor_running {
                Seq::empty()
            } else {
                seq![ActionView::StartCursor, ActionView::Cursor(CursorMsg::Draw(final(self).resolved(None)))]
            },
    {
        let mut out: Vec<InputAction> = Vec::new();
        self.reinit_screen(screen);
        if !self.cursor_running {
            self.cursor_running = true;
            out.push(InputAction::StartCursor);
            let start = self.get_coord(None);
            out.push(InputAction::Cursor(CursorMsg::Draw(start)));
        }
        assert(actions_view(out@) =~= if old(self).cursor_running {
            Seq::empty()
        } else {
            seq![ActionView::StartCursor, ActionView::Cursor(CursorMsg::Draw(self.resolved(None)))]
        });
        out
    }

    /// Stops the cursor renderer and forgets the position.
    pub fn stop_cursor_manager(&mut self) -> (r: Vec<InputAction>)
        requires
            old(self).wf(),
        ensures
            final(self).wf(),
            *final(self) == (InputManager { current_coord: None, cursor_running: false, ..*old(self) }),
            actions_view(r@) == sent(old(self).cursor_running, seq![CursorMsg::Hide, CursorMsg::Stop]),
    {
        let mut out: Vec<InputAction> = Vec::new();
        assert(actions_view(Seq::<InputAction>::empty()) =~= Seq::<ActionView>::empty());
        self.send(&mut out, CursorMsg::Hide);
        self.send(&mut out, CursorMsg::Stop);
        assert(actions_view(out@) =~= sent(self.cursor_running, seq![CursorMsg::Hide, CursorMsg::Stop]));
        self.current_coord = None;
        self.cursor_running = false;
        out
    }

    /// Handles one message; the flag says whether the loop goes on.
    pub fn handle_msg(&mut self, msg: InputMsg, now_us: i64, screen: ScreenState) -> (r: (
        Vec<InputAction>,
        bool,
    ))
        requires
            old(self).wf(),
            msg_in_range(msg),
            now_us >= 0,
        ensures
            final(self).wf(),
            *final(self) == old(self).after_msg(msg, now_us, screen),
            actions_view(r.0@) == old(self).msg_actions(msg, now_us, screen),
            r.1 == !(msg is Shutdown),
    {
        match msg {
            InputMsg::ClientConnect => (self.client_connect(screen), true),
            InputMsg::StartInput(c) => (self.input_start(c, now_us), true),
            InputMsg::StopInput(c) => (self.input_stop(c, now_us), true),
            InputMsg::MoveAbsolute(c) => (self.input_move_abs(c, now_us), true),
            InputMsg::MoveRelative(c) => (self.input_move_rel(c, now_us), true),
            InputMsg::Reinit => (self.reinit(screen), true),
            InputMsg::ClientDisconnect => (self.stop_cursor_manager(), true),
            InputMsg::Shutdown => (self.stop_cursor_manager(), false),
        }
    }

    /// The coordinator with the screen replaced.
    pub open spec fn with_screen(&self, screen: ScreenState) -> InputManager {
        InputManager { screen, ..*self }
    }

    /// The state after a message.
    pub open spec fn after_msg(&self, msg: InputMsg, now_us: i64, screen: ScreenState) -> InputManager {
        match msg {
            InputMsg::ClientConnect => InputManager { screen, cursor_running: true, ..*self },
            InputMsg::StartInput(_) => InputManager { start_time_us: Some(now_us), ..*self },
            InputMsg::StopInput(_) => InputManager { start_time_us: None, ..*self },
            InputMsg::MoveAbsolute(c) => InputManager { current_coord: Some(c), ..*self },
            InputMsg::MoveRelative(d) => InputManager { current_coord: Some(self.moved_by(d)), ..*self },
            InputMsg::Reinit => InputManager {
                screen,
                current_coord: Some(self.with_screen(screen).center()),
                ..*self
            },
            InputMsg::ClientDisconnect | InputMsg::Shutdown => InputManager {
                current_coord: None,
                cursor_running: false,
                ..*self
            },
        }
    }

    /// What the caller is asked to do for a message, in order.
    pub open spec fn msg_actions(&self, msg: InputMsg, now_us: i64, screen: ScreenState) -> Seq<ActionView> {
        match msg {
            InputMsg::ClientConnect => if self.cursor_running {
                Seq::empty()
            } else {
                seq![
                    ActionView::StartCursor,
                    ActionView::Cursor(CursorMsg::Draw(self.with_screen(screen).resolved(None))),
                ]
            },
            InputMsg::StartInput(c) => sent(self.cursor_running, seq![CursorMsg::Hide]) + writes_view(
                self.start_events@,
                self.layout,
                self.native(self.resolved(c)),
                None,
            ),
            InputMsg::StopInput(c) => writes_view(
                self.move_events@,
                self.layout,
                self.stop_point(c),
                Some(self.elapsed(now_us)),
            ) + writes_view(self.stop_events@, self.layout, self.stop_point(c), Some(self.elapsed(now_us)))
                + if self.reload_background_after_input {
                seq![ActionView::Sleep(self.reload_background_delay_ms)] + sent(
                    self.cursor_running,
                    seq![CursorMsg::ReloadBackground],
                )
            } else {
                Seq::empty()
            },
            InputMsg::MoveAbsolute(c) => if self.start_time_us is Some {
                writes_view(self.move_events@, self.layout, self.native(c), Some(self.elapsed(now_us)))
            } else {
                sent(self.cursor_running, seq![CursorMsg::Draw(c)])
            },
            InputMsg::MoveRelative(d) => if self.start_time_us is Some {
                writes_view(
                    self.move_events@,
                    self.layout,
                    self.native(self.moved_by(d)),
                    Some(self.elapsed(now_us)),
                )
            } else {
                sent(self.cursor_running, seq![CursorMsg::Draw(self.moved_by(d))])
            },
            InputMsg::Reinit => sent(self.cursor_running, seq![CursorMsg::Hide]) + seq![
                ActionView::Sleep(REINIT_SLEEP_MS),
            ] + sent(
                self.cursor_running,
                seq![
                    CursorMsg::Reinit,
                    CursorMsg::ReloadBackground,
                    CursorMsg::Draw(self.with_screen(screen).center()),
                ],
            ),
            InputMsg::ClientDisconnect | InputMsg::Shutdown => sent(
                self.cursor_running,
                seq![CursorMsg::Hide, CursorMsg::Stop],
            ),
        }
    }
}

/// The coordinates a message carries lie in range.
pub open spec fn msg_in_range(msg: InputMsg) -> bool {
    match msg {
        InputMsg::StartInput(Some(c)) => coord_in_range(c),
        InputMsg::StopInput(Some(c)) => coord_in_range(c),
        InputMsg::MoveAbsolute(c) => coord_in_range(c),
        InputMsg::MoveRelative(c) => coord_in_range(c),
        _ => true,
    }
}

} // verus!
