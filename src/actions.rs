//! The action coordinator: one owner of both stores that records, plays,
//! lists, deletes and updates actions one request at a time. It decides;
//! the caller reads devices, sleeps, writes bytes and persists the stores.
use vstd::prelude::*;
use crate::codec::{
    create_action_events, encode_event, relative_event, sleep_after, EventLayout,
};
use crate::event::RawEvent;
use crate::optimize::{optimizable, optimize_events, optimize_outcome};
use crate::store::{
    entry_of, has_key, keyed_removed, keyed_set, slots_of, ActionOptions, ActionRecording,
    ActionsFile, LookupError, RecordingsFile,
};
use crate::transform::CanonicalRotation;
use vstd::utf8::encode_utf8;

verus! {

/// What the text's slug is (lower-case ASCII letters, digits and single dashes).
pub uninterp spec fn slug_of(s: Seq<char>) -> Seq<char>;

/// Relies on `slug::slugify`: the URL-safe slug of a text depends on the text alone.
#[verifier::external_body]
fn slugify(s: &String) -> (r: String)
    ensures
        r@ == slug_of(s@),
{
    slug::slugify(s)
}

/// What a client asks for when it records an action.
#[derive(Clone, Debug)]
pub struct RecordActionOptions {
    pub name: String,
    pub sort_value: Option<String>,
    pub path_segment: Option<String>,
    pub keyboard_shortcut: Option<String>,
    pub voice_trigger: Option<String>,
    pub only_check_touch: bool,
    pub optimize: bool,
    pub use_by_path: bool,
    pub optimize_max_duration_ms: i64,
    pub post_playback_delay_ms: i64,
    pub syn_gap_us: i64,
    pub no_input_timeout_ms: i64,
    pub new_event_timeout_ms: i64,
    pub poll_wait_ms: i64,
}

impl Default for RecordActionOptions {
    fn default() -> (r: RecordActionOptions)
        ensures
            r.name@ == "Default"@,
            r.sort_value.is_none(),
            r.path_segment.is_none(),
            r.keyboard_shortcut.is_none(),
            r.voice_trigger.is_none(),
            r.only_check_touch,
            !r.optimize,
            !r.use_by_path,
            r.optimize_max_duration_ms == 1000,
            r.post_playback_delay_ms == 300,
            r.syn_gap_us == 1,
            r.no_input_timeout_ms == 5000,
            r.new_event_timeout_ms == 4000,
            r.poll_wait_ms == 10,
    {
        proof {
            reveal_strlit("Default");
        }
        RecordActionOptions {
            name: "Default".to_string(),
            sort_value: None,
            path_segment: None,
            keyboard_shortcut: None,
            voice_trigger: None,
            only_check_touch: true,
            optimize: false,
            use_by_path: false,
            optimize_max_duration_ms: 1000,
            post_playback_delay_ms: 300,
            syn_gap_us: 1,
            no_input_timeout_ms: 5000,
            new_event_timeout_ms: 4000,
            poll_wait_ms: 10,
        }
    }
}

/// The summary of a recording session.
#[derive(Clone, Debug)]
pub struct RecordActionResponse {
    pub name: String,
    pub path_segment: String,
    pub sort_value: String,
    pub keyboard_shortcut: Option<String>,
    pub rotation: String,
    pub was_optimized: bool,
    pub device: String,
}

/// One action as the list shows it.
#[derive(Clone, Debug)]
pub struct ListActionResponse {
    pub name: String,
    pub path_segment: String,
    pub sort_value: String,
    pub keyboard_shortcut: Option<String>,
    pub post_playback_delay_ms: i64,
    pub voice_trigger: Option<String>,
}

impl ListActionResponse {
    /// The shortcut's name, or "None".
    pub fn shortcut_name(&self) -> (r: String)
        ensures
            r@ == match self.keyboard_shortcut {
                Some(s) => s@,
                None => "None"@,
            },
    {
        proof {
            reveal_strlit("None");
        }
        match &self.keyboard_shortcut {
            Some(s) => s.clone(),
            None => "None".to_string(),
        }
    }
}

/// Why a request to the coordinator failed.
#[derive(Clone, Debug, PartialEq, Eq)]
pub enum ActionError {
    /// Delete of an identifier that has no action.
    NoAction(String),
    /// Update of an identifier that has no action.
    DoesNotExist(String),
    RotationChanged,
    Lookup(LookupError),
}

/// The identifier a recording is stored under: the one asked for, else the
/// slug of the name.
pub open spec fn segment_for(opts: RecordActionOptions) -> Seq<char> {
    match opts.path_segment {
        Some(p) => p@,
        None => slug_of(opts.name@),
    }
}

pub fn resolve_path_segment(opts: &RecordActionOptions) -> (r: String)
    ensures
        r@ == segment_for(*opts),
{
    match &opts.path_segment {
        Some(p) => p.clone(),
        None => slugify(&opts.name),
    }
}

/// The metadata a new action gets from the options it was recorded with.
pub open spec fn new_metadata(opts: RecordActionOptions) -> ActionOptions {
    ActionOptions {
        name: opts.name,
        sort_value: match opts.sort_value {
            Some(s) => s,
            None => opts.name,
        },
        keyboard_shortcut: opts.keyboard_shortcut,
        post_playback_delay_ms: opts.post_playback_delay_ms,
        voice_trigger: opts.voice_trigger,
    }
}

/// The events a capture turns into, optimized where asked and possible.
pub open spec fn processed_events(events: Seq<RawEvent>, optimize: bool, gap: int) -> Seq<RawEvent> {
    if optimize {
        optimize_outcome(events, gap)
    } else {
        events
    }
}

/// The optimizer's precondition on a capture: the first event's microseconds
/// plus three gaps fit an `i64`.
pub open spec fn gap_fits(events: Seq<RawEvent>, gap: i64) -> bool {
    events.len() > 0 ==> i64::MIN <= events[0].tv_usec + 3 * gap <= i64::MAX
}

/// Whether a capture meets the optimizer's precondition for the gap.
pub fn gap_fits_i64(events: &Vec<RawEvent>, gap: i64) -> (r: bool)
    ensures
        r == gap_fits(events@, gap),
{
    if events.len() == 0 {
        return true;
    }
    let u = events[0].tv_usec as i128 + 3 * (gap as i128);
    u >= i64::MIN as i128 && u <= i64::MAX as i128
}

impl ActionRecording {
    /// Builds a recording from the events of the device the capture kept.
    pub fn from_capture(
        events: Vec<RawEvent>,
        optimize: bool,
        syn_gap_us: i64,
        rotation: CanonicalRotation,
        dev_path: String,
        dev_name: String,
        l: &EventLayout,
    ) -> (r: ActionRecording)
        requires
            l.wf(),
            gap_fits(events@, syn_gap_us),
        ensures
            r.is_optimized == (optimize && optimizable(events@)),
            r.rotation == rotation,
            r.dev_path == dev_path,
            r.dev_name == dev_name,
            r.events.len() == processed_events(events@, optimize, syn_gap_us as int).len(),
            forall|k: int|
                0 <= k < r.events.len() ==> (#[trigger] r.events[k]).buf@ == encode_event(
                    relative_event(processed_events(events@, optimize, syn_gap_us as int), k),
                    *l,
                ) && r.events[k].sleep_duration_us == sleep_after(
                    processed_events(events@, optimize, syn_gap_us as int),
                    k,
                ),
    {
        let mut events = events;
        let is_optimized = if optimize {
            optimize_events(&mut events, syn_gap_us)
        } else {
            false
        };
        ActionRecording {
            rotation,
            events: create_action_events(&events, l),
            dev_path,
            dev_name,
            is_optimized,
        }
    }
}

/// The coordinator's state: both stores and the earliest time of the next playback.
pub struct ActionManager {
    pub actions: ActionsFile,
    pub recordings: RecordingsFile,
    pub play_wait_until_us: i64,
}

/// `x` clamped to the range of `i64`.
pub open spec fn clamp_i64(x: int) -> i64 {
    if x > i64::MAX {
        i64::MAX
    } else if x < i64::MIN {
        i64::MIN
    } else {
        x as i64
    }
}

impl ActionManager {
    pub open spec fn wf(&self) -> bool {
        self.actions.wf() && self.recordings.wf()
    }

    pub fn new(actions: ActionsFile, recordings: RecordingsFile, now_us: i64) -> (r: ActionManager)
        requires
            actions.wf(),
            recordings.wf(),
        ensures
            r.wf(),
            r.actions == actions,
            r.recordings == recordings,
            r.play_wait_until_us == now_us,
    {
        ActionManager { actions, recordings, play_wait_until_us: now_us }
    }

    /// Stores a recording made under `recording.rotation` if the rotation is
    /// still `rotation_now`; a new identifier gets metadata from `opts`.
    pub fn record(
        &mut self,
        opts: &RecordActionOptions,
        recording: ActionRecording,
        rotation_now: CanonicalRotation,
    ) -> (r: Result<RecordActionResponse, ActionError>)
        requires
            old(self).wf(),
        ensures
            final(self).wf(),
            recording.rotation != rotation_now ==> r == Err::<RecordActionResponse, ActionError>(
                ActionError::RotationChanged,
            ) && *final(self) == *old(self),
            recording.rotation == rotation_now ==> r is Ok && stored(
                *old(self),
                *final(self),
                segment_for(*opts),
                new_metadata(*opts),
                recording,
            ),
            r matches Ok(resp) ==> resp.path_segment@ == segment_for(*opts) && responded(
                resp,
                final(self).actions.data@,
                segment_for(*opts),
                recording,
            ),
    {
        let path_segment = resolve_path_segment(opts);
        self.store_recording(path_segment, opts, recording, rotation_now)
    }

    /// `record` once the identifier is known.
    pub fn store_recording(
        &mut self,
        path_segment: String,
        opts: &RecordActionOptions,
        recording: ActionRecording,
        rotation_now: CanonicalRotation,
    ) -> (r: Result<RecordActionResponse, ActionError>)
        requires
            old(self).wf(),
        ensures
            final(self).wf(),
            recording.rotation != rotation_now ==> r == Err::<RecordActionResponse, ActionError>(
                ActionError::RotationChanged,
            ) && *final(self) == *old(self),
            recording.rotation == rotation_now ==> r is Ok && stored(
                *old(self),
                *final(self),
                path_segment@,
                new_metadata(*opts),
                recording,
            ),
            r matches Ok(resp) ==> resp.path_segment == path_segment && responded(
                resp,
                final(self).actions.data@,
                path_segment@,
                recording,
            ),
    {
        if recording.rotation != rotation_now {
            return Err(ActionError::RotationChanged);
        }
        if self.actions.get(&path_segment).is_none() {
            let meta = ActionOptions {
                sort_value: match &opts.sort_value {
                    Some(s) => s.clone(),
                    None => opts.name.clone(),
                },
                name: opts.name.clone(),
                keyboard_shortcut: opts.keyboard_shortcut.clone(),
                voice_trigger: opts.voice_trigger.clone(),
                post_playback_delay_ms: opts.post_playback_delay_ms,
            };
            self.actions.insert(path_segment.clone(), meta);
        }
        let (name, sort_value, keyboard_shortcut) = match self.actions.get(&path_segment) {
            Some(a) => (a.name.clone(), a.sort_value.clone(), a.keyboard_shortcut.clone()),
            None => (opts.name.clone(), opts.name.clone(), None),
        };
        let response = RecordActionResponse {
            name,
            path_segment: path_segment.clone(),
            sort_value,
            keyboard_shortcut,
            rotation: rotation_now.name(),
            was_optimized: recording.is_optimized,
            device: recording.dev_name.clone(),
        };
        let rotation = recording.rotation;
        self.recordings.add(path_segment, recording, rotation);
        Ok(response)
    }

    /// How long a playback starting at `now_us` waits: until the time set by
    /// the previous playback.
    pub fn play_wait_us(&self, now_us: i64) -> (r: i64)
        requires
            now_us >= 0,
        ensures
            r == if self.play_wait_until_us > now_us {
                self.play_wait_until_us - now_us
            } else {
                0
            },
    {
        if self.play_wait_until_us > now_us {
            self.play_wait_until_us - now_us
        } else {
            0
        }
    }

    /// The recording to play for the identifier under the current rotation.
    pub fn recording_to_play(&self, path_segment: &String, rotation: CanonicalRotation) -> (r:
        Result<&ActionRecording, ActionError>)
        requires
            self.wf(),
        ensures
            match slots_of(self.recordings.data@, path_segment@) {
                Some(s) => match s[rotation.spec_index()] {
                    Some(rec) => has_key(self.actions.data@, path_segment@) ==> r == Ok::<
                        &ActionRecording,
                        ActionError,
                    >(&rec),
                    None => r is Err,
                },
                None => r is Err,
            },
            !has_key(self.actions.data@, path_segment@) ==> r is Err,
    {
        match self.recordings.get(path_segment, rotation) {
            Ok(rec) => {
                if self.actions.get(path_segment).is_none() {
                    Err(ActionError::NoAction(path_segment.clone()))
                } else {
                    Ok(rec)
                }
            },
            Err(e) => Err(ActionError::Lookup(e)),
        }
    }

    /// After a playback that finished at `now_us`: the next one waits for the
    /// action's post-playback delay.
    pub fn finish_play(&mut self, path_segment: &String, now_us: i64)
        requires
            old(self).wf(),
        ensures
            final(self).wf(),
            final(self).actions == old(self).actions,
            final(self).recordings == old(self).recordings,
            final(self).play_wait_until_us == if has_key(old(self).actions.data@, path_segment@) {
                clamp_i64(
                    now_us + entry_of(old(self).actions.data@, path_segment@).post_playback_delay_ms
                        * 1000,
                )
            } else {
                now_us
            },
    {
        let delay_ms: i64 = match self.actions.get(path_segment) {
            Some(a) => a.post_playback_delay_ms,
            None => 0,
        };
        let t = now_us as i128 + (delay_ms as i128) * 1000;
        self.play_wait_until_us = if t > i64::MAX as i128 {
            i64::MAX
        } else if t < i64::MIN as i128 {
            i64::MIN
        } else {
            t as i64
        };
    }

    /// Removes the action from both stores; an unknown identifier is an
    /// error and changes nothing.
    pub fn delete(&mut self, path_segment: &String) -> (r: Result<(), ActionError>)
        requires
            old(self).wf(),
        ensures
            final(self).wf(),
            has_key(old(self).actions.data@, path_segment@) ==> r is Ok && keyed_removed(
                old(self).actions.data@,
                final(self).actions.data@,
                path_segment@,
            ) && keyed_removed(
                old(self).recordings.data@,
                final(self).recordings.data@,
                path_segment@,
            ) && final(self).play_wait_until_us == old(self).play_wait_until_us,
            !has_key(old(self).actions.data@, path_segment@) ==> r == Err::<(), ActionError>(
                ActionError::NoAction(*path_segment),
            ) && *final(self) == *old(self),
    {
        if self.actions.get(path_segment).is_none() {
            return Err(ActionError::NoAction(path_segment.clone()));
        }
        self.actions.remove(path_segment);
        self.recordings.remove(path_segment);
        Ok(())
    }

    /// Replaces the metadata of an existing action; an unknown identifier is
    /// an error and changes nothing.
    pub fn update(&mut self, path_segment: String, opts: ActionOptions) -> (r: Result<
        (),
        ActionError,
    >)
        requires
            old(self).wf(),
        ensures
            final(self).wf(),
            has_key(old(self).actions.data@, path_segment@) ==> r is Ok && keyed_set(
                old(self).actions.data@,
                final(self).actions.data@,
                path_segment@,
                opts,
            ) && final(self).recordings == old(self).recordings && final(self).play_wait_until_us
                == old(self).play_wait_until_us,
            !has_key(old(self).actions.data@, path_segment@) ==> r == Err::<(), ActionError>(
                ActionError::DoesNotExist(path_segment),
            ) && *final(self) == *old(self),
    {
        if self.actions.get(&path_segment).is_none() {
            return Err(ActionError::DoesNotExist(path_segment));
        }
        self.actions.insert(path_segment, opts);
        Ok(())
    }
}

/// The summary of a stored recording: the action's metadata, the rotation,
/// whether the optimizer ran and the device.
pub open spec fn responded(
    resp: RecordActionResponse,
    actions: Seq<(String, ActionOptions)>,
    k: Seq<char>,
    recording: ActionRecording,
) -> bool {
    let a = entry_of(actions, k);
    &&& resp.name == a.name
    &&& resp.sort_value == a.sort_value
    &&& resp.keyboard_shortcut == a.keyboard_shortcut
    &&& resp.rotation@ == recording.rotation.spec_name()
    &&& resp.was_optimized == recording.is_optimized
    &&& resp.device == recording.dev_name
}

/// `after` is `before` with the recording stored under `k` in its rotation's
/// slot, and with `meta` as the metadata of `k` if `k` had none.
pub open spec fn stored(
    before: ActionManager,
    after: ActionManager,
    k: Seq<char>,
    meta: ActionOptions,
    recording: ActionRecording,
) -> bool {
    &&& after.play_wait_until_us == before.play_wait_until_us
    &&& if has_key(before.actions.data@, k) {
        after.actions.data@ == before.actions.data@
    } else {
        keyed_set(before.actions.data@, after.actions.data@, k, meta)
    }
    &&& keyed_set(
        before.recordings.data@,
        after.recordings.data@,
        k,
        entry_of(after.recordings.data@, k),
    )
    &&& entry_of(after.recordings.data@, k)@ == (match slots_of(before.recordings.data@, k) {
        Some(s) => s,
        None => seq![None, None, None, None],
    }).update(recording.rotation.spec_index(), Some(recording))
}

/// `a` comes strictly before `b` in byte order.
pub open spec fn bytes_lt(a: Seq<u8>, b: Seq<u8>) -> bool
    decreases a.len(),
{
    if a.len() == 0 {
        b.len() > 0
    } else if b.len() == 0 {
        false
    } else if a[0] != b[0] {
        a[0] < b[0]
    } else {
        bytes_lt(a.drop_first(), b.drop_first())
    }
}

/// `a` comes strictly before `b` in the byte order of their UTF-8 forms.
pub open spec fn text_lt(a: Seq<char>, b: Seq<char>) -> bool {
    bytes_lt(encode_utf8(a), encode_utf8(b))
}

fn str_lt(a: &String, b: &String) -> (r: bool)
    ensures
        r == text_lt(a@, b@),
{
    let x = a.as_str().as_bytes();
    let y = b.as_str().as_bytes();
    let ghost xs = x@;
    let ghost ys = y@;
    let mut i: usize = 0;
    assert(xs.subrange(0, xs.len() as int) =~= xs);
    assert(ys.subrange(0, ys.len() as int) =~= ys);
    loop
        invariant
            xs == x@,
            ys == y@,
            xs == encode_utf8(a@),
            ys == encode_utf8(b@),
            i <= x.len(),
            i <= y.len(),
            bytes_lt(xs, ys) == bytes_lt(
                xs.subrange(i as int, xs.len() as int),
                ys.subrange(i as int, ys.len() as int),
            ),
        decreases x.len() - i,
    {
        let ghost xr = xs.subrange(i as int, xs.len() as int);
        let ghost yr = ys.subrange(i as int, ys.len() as int);
        if i == x.len() {
            return i < y.len();
        }
        if i == y.len() {
            return false;
        }
        assert(xr[0] == x@[i as int] && yr[0] == y@[i as int]);
        if x[i] != y[i] {
            return x[i] < y[i];
        }
        assert(xr.drop_first() =~= xs.subrange(i + 1, xs.len() as int));
        assert(yr.drop_first() =~= ys.subrange(i + 1, ys.len() as int));
        i = i + 1;
    }
}

/// The list order: by sort value, then by identifier.
pub open spec fn listed_before(a: ListActionResponse, b: ListActionResponse) -> bool {
    text_lt(a.sort_value@, b.sort_value@) || (a.sort_value@ == b.sort_value@ && text_lt(
        a.path_segment@,
        b.path_segment@,
    ))
}

/// Puts `x` after every element of the ordered `s` that it does not come before.
pub open spec fn insert_listed(s: Seq<ListActionResponse>, x: ListActionResponse) -> Seq<ListActionResponse>
    decreases s.len(),
{
    if s.len() == 0 || !listed_before(x, s.last()) {
        s.push(x)
    } else {
        insert_listed(s.drop_last(), x).push(s.last())
    }
}

/// The stable sort of `s` in list order.
pub open spec fn sorted_listing(s: Seq<ListActionResponse>) -> Seq<ListActionResponse>
    decreases s.len(),
{
    if s.len() == 0 {
        s
    } else {
        insert_listed(sorted_listing(s.drop_last()), s.last())
    }
}

pub open spec fn response_of(k: String, o: ActionOptions) -> ListActionResponse {
    ListActionResponse {
        name: o.name,
        path_segment: k,
        sort_value: o.sort_value,
        keyboard_shortcut: o.keyboard_shortcut,
        post_playback_delay_ms: o.post_playback_delay_ms,
        voice_trigger: o.voice_trigger,
    }
}

pub open spec fn responses(d: Seq<(String, ActionOptions)>) -> Seq<ListActionResponse> {
    Seq::new(d.len(), |k: int| response_of(d[k].0, d[k].1))
}

fn clone_opt(s: &Option<String>) -> (r: Option<String>)
    ensures
        r == *s,
{
    match s {
        Some(v) => Some(v.clone()),
        None => None,
    }
}

fn insert_response(out: &mut Vec<ListActionResponse>, x: ListActionResponse)
    ensures
        final(out)@ == insert_listed(old(out)@, x),
    decreases old(out)@.len(),
{
    if out.len() == 0 {
        out.push(x);
        return;
    }
    let n = out.len();
    let before = {
        let last = &out[n - 1];
        str_lt(&x.sort_value, &last.sort_value) || (x.sort_value == last.sort_value && str_lt(
            &x.path_segment,
            &last.path_segment,
        ))
    };
    if !before {
        out.push(x);
    } else {
        let ghost o = out@;
        let last = out.pop().unwrap();
        assert(out@ =~= o.drop_last());
        insert_response(out, x);
        out.push(last);
    }
}

impl ActionManager {
    /// All actions' metadata, ordered by sort value and then by identifier.
    pub fn list(&self) -> (r: Vec<ListActionResponse>)
        ensures
            r@ == sorted_listing(responses(self.actions.data@)),
    {
        let d = &self.actions.data;
        let mut out: Vec<ListActionResponse> = Vec::new();
        let mut i: usize = 0;
        assert(responses(d@).subrange(0, 0) =~= Seq::<ListActionResponse>::empty());
        while i < d.len()
            invariant
                i <= d.len(),
                d == &self.actions.data,
                out@ == sorted_listing(responses(d@).subrange(0, i as int)),
            decreases d.len() - i,
        {
            let (k, o) = &d[i];
            let item = ListActionResponse {
                name: o.name.clone(),
                path_segment: k.clone(),
                sort_value: o.sort_value.clone(),
                keyboard_shortcut: clone_opt(&o.keyboard_shortcut),
                post_playback_delay_ms: o.post_playback_delay_ms,
                voice_trigger: clone_opt(&o.voice_trigger),
            };
            assert(item == responses(d@)[i as int]);
            assert(responses(d@).subrange(0, i + 1).drop_last() =~= responses(d@).subrange(0, i as int));
            insert_response(&mut out, item);
            i = i + 1;
        }
        assert(responses(d@).subrange(0, d.len() as int) =~= responses(d@));
        out
    }
}

} // verus!
