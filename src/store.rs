//! The two identifier-keyed stores: per-action metadata, and per-action
//! recordings in one slot per screen rotation.
use vstd::prelude::*;
use crate::codec::ActionEvent;
use crate::transform::CanonicalRotation;

verus! {

/// Number of rotation slots per identifier.
pub const ROTATION_SLOTS: usize = 4;

/// Human-editable metadata of one action.
#[derive(Clone, Debug)]
pub struct ActionOptions {
    pub name: String,
    pub sort_value: String,
    pub keyboard_shortcut: Option<String>,
    pub post_playback_delay_ms: i64,
    pub voice_trigger: Option<String>,
}

/// One recorded gesture, ready to replay.
#[derive(Clone, Debug)]
pub struct ActionRecording {
    pub rotation: CanonicalRotation,
    pub events: Vec<ActionEvent>,
    pub dev_path: String,
    pub dev_name: String,
    pub is_optimized: bool,
}

/// Why a lookup in a store failed.
#[derive(Clone, Debug, PartialEq, Eq)]
pub enum LookupError {
    NoRecordings { path_segment: String },
    NoRecordingForRotation { path_segment: String, rotation: CanonicalRotation },
}

/// Index of the first entry with key `k`, if any.
pub fn find_key<V>(d: &Vec<(String, V)>, k: &String) -> (r: Option<usize>)
    ensures
        match r {
            Some(i) => i < d.len() && d@[i as int].0@ == k@ && forall|j: int|
                0 <= j < i ==> (#[trigger] d@[j]).0@ != k@,
            None => forall|j: int| 0 <= j < d.len() ==> (#[trigger] d@[j]).0@ != k@,
        },
{
    let mut i: usize = 0;
    while i < d.len()
        invariant
            i <= d.len(),
            forall|j: int| 0 <= j < i ==> (#[trigger] d@[j]).0@ != k@,
        decreases d.len() - i,
    {
        if d[i].0 == *k {
            return Some(i);
        }
        i = i + 1;
    }
    None
}

/// No key appears twice.
pub open spec fn keys_unique<V>(d: Seq<(String, V)>) -> bool {
    forall|i: int, j: int| 0 <= i < j < d.len() ==> (#[trigger] d[i]).0@ != (#[trigger] d[j]).0@
}

pub open spec fn has_key<V>(d: Seq<(String, V)>, k: Seq<char>) -> bool {
    exists|i: int| 0 <= i < d.len() && (#[trigger] d[i]).0@ == k
}

/// The entry of `d` with key `k`, where there is one.
pub open spec fn entry_of<V>(d: Seq<(String, V)>, k: Seq<char>) -> V
    recommends
        has_key(d, k),
{
    d[choose|i: int| 0 <= i < d.len() && (#[trigger] d[i]).0@ == k].1
}

proof fn lemma_entry_at<V>(d: Seq<(String, V)>, i: int)
    requires
        keys_unique(d),
        0 <= i < d.len(),
    ensures
        has_key(d, d[i].0@),
        entry_of(d, d[i].0@) == d[i].1,
{
    let k = d[i].0@;
    assert(0 <= i < d.len() && d[i].0@ == k);
    let c = choose|j: int| 0 <= j < d.len() && (#[trigger] d[j]).0@ == k;
    if c != i {
        if c < i {
            assert(d[c].0@ != d[i].0@);
        } else {
            assert(d[i].0@ != d[c].0@);
        }
    }
}

/// The metadata store.
pub struct ActionsFile {
    pub path: String,
    pub data: Vec<(String, ActionOptions)>,
}

impl ActionsFile {
    pub open spec fn wf(&self) -> bool {
        keys_unique(self.data@)
    }

    pub fn empty(path: String) -> (r: ActionsFile)
        ensures
            r.wf(),
            r.path == path,
            r.data@.len() == 0,
    {
        ActionsFile { path, data: Vec::new() }
    }

    pub fn get(&self, k: &String) -> (r: Option<&ActionOptions>)
        requires
            self.wf(),
        ensures
            has_key(self.data@, k@) ==> r == Some(&entry_of(self.data@, k@)),
            !has_key(self.data@, k@) ==> r.is_none(),
    {
        match find_key(&self.data, k) {
            Some(i) => {
                proof {
                    lemma_entry_at(self.data@, i as int);
                }
                Some(&self.data[i].1)
            },
            None => None,
        }
    }

    /// Sets the metadata of `k`, adding the key if it is new.
    pub fn insert(&mut self, k: String, v: ActionOptions)
        requires
            old(self).wf(),
        ensures
            final(self).wf(),
            final(self).path == old(self).path,
            keyed_set(old(self).data@, final(self).data@, k@, v),
    {
        keyed_insert(&mut self.data, k, v);
    }

    /// Gives `k` the voice trigger `phrase` if its metadata has none; every
    /// other entry is left as it is.
    pub fn default_voice_trigger(&mut self, k: &String, phrase: &str)
        requires
            old(self).wf(),
        ensures
            final(self).wf(),
            final(self).path == old(self).path,
            trigger_defaulted(old(self).data@, final(self).data@, k@, phrase@),
    {
        let entry = match self.get(k) {
            Some(o) => {
                if o.voice_trigger.is_some() {
                    return;
                }
                ActionOptions {
                    name: o.name.clone(),
                    sort_value: o.sort_value.clone(),
                    keyboard_shortcut: match &o.keyboard_shortcut {
                        Some(s) => Some(s.clone()),
                        None => None,
                    },
                    post_playback_delay_ms: o.post_playback_delay_ms,
                    voice_trigger: Some(phrase.to_string()),
                }
            },
            None => {
                return;
            },
        };
        self.insert(k.clone(), entry);
    }

    /// The triggers that older stores lack: "Forward" for the next page and
    /// "Backward" for the previous page.
    pub fn apply_default_voice_triggers(&mut self)
        requires
            old(self).wf(),
        ensures
            final(self).wf(),
            final(self).path == old(self).path,
            exists|mid: Seq<(String, ActionOptions)>|
                trigger_defaulted(old(self).data@, mid, "next-page"@, "Forward"@) && trigger_defaulted(
                    mid,
                    final(self).data@,
                    "prev-page"@,
                    "Backward"@,
                ),
    {
        let next = "next-page".to_string();
        let prev = "prev-page".to_string();
        self.default_voice_trigger(&next, "Forward");
        let ghost mid = self.data@;
        self.default_voice_trigger(&prev, "Backward");
        assert(trigger_defaulted(mid, self.data@, "prev-page"@, "Backward"@));
    }

    /// Removes `k`; says whether it was there.
    pub fn remove(&mut self, k: &String) -> (r: bool)
        requires
            old(self).wf(),
        ensures
            final(self).wf(),
            final(self).path == old(self).path,
            r == has_key(old(self).data@, k@),
            keyed_removed(old(self).data@, final(self).data@, k@),
    {
        keyed_remove(&mut self.data, k).is_some()
    }
}

/// `after` is `before` where `k` has no voice trigger or is absent; else
/// `before` with the trigger of `k` set to `phrase`.
pub open spec fn trigger_defaulted(
    before: Seq<(String, ActionOptions)>,
    after: Seq<(String, ActionOptions)>,
    k: Seq<char>,
    phrase: Seq<char>,
) -> bool {
    if has_key(before, k) && entry_of(before, k).voice_trigger is None {
        let o = entry_of(before, k);
        let n = entry_of(after, k);
        &&& has_key(after, k)
        &&& n.name == o.name && n.sort_value == o.sort_value && n.keyboard_shortcut
            == o.keyboard_shortcut && n.post_playback_delay_ms == o.post_playback_delay_ms
        &&& n.voice_trigger matches Some(t) && t@ == phrase
        &&& forall|q: Seq<char>|
            q != k ==> (has_key(after, q) == has_key(before, q)) && (has_key(before, q) ==> entry_of(
                after,
                q,
            ) == entry_of(before, q))
    } else {
        after == before
    }
}

/// `after` is `before` with `k` set to `v`.
pub open spec fn keyed_set<V>(before: Seq<(String, V)>, after: Seq<(String, V)>, k: Seq<char>, v: V) -> bool {
    &&& has_key(after, k)
    &&& entry_of(after, k) == v
    &&& forall|q: Seq<char>|
        q != k ==> (has_key(after, q) == has_key(before, q)) && (has_key(before, q) ==> entry_of(
            after,
            q,
        ) == entry_of(before, q))
}

/// `after` is `before` without `k` (and is `before` itself if `k` was absent).
pub open spec fn keyed_removed<V>(before: Seq<(String, V)>, after: Seq<(String, V)>, k: Seq<char>) -> bool {
    &&& !has_key(after, k)
    &&& !has_key(before, k) ==> after == before
    &&& forall|q: Seq<char>|
        q != k ==> (has_key(after, q) == has_key(before, q)) && (has_key(before, q) ==> entry_of(
            after,
            q,
        ) == entry_of(before, q))
}

/// Sets the entry of `k`, adding the key if it is new.
pub fn keyed_insert<V>(d: &mut Vec<(String, V)>, k: String, v: V)
    requires
        keys_unique(old(d)@),
    ensures
        keys_unique(final(d)@),
        keyed_set(old(d)@, final(d)@, k@, v),
{
    let ghost k_view = k@;
    let ghost before = d@;
    match find_key(d, &k) {
        Some(i) => {
            d.set(i, (k, v));
            proof {
                assert(keys_unique(d@));
                lemma_entry_at(d@, i as int);
                assert forall|q: Seq<char>| q != k_view implies (has_key(d@, q)
                    == has_key(before, q)) && (has_key(before, q) ==> entry_of(d@, q)
                    == entry_of(before, q)) by {
                    if has_key(before, q) {
                        let j = choose|j: int| 0 <= j < before.len() && (#[trigger] before[j]).0@ == q;
                        assert(d@[j] == before[j]);
                        lemma_entry_at(before, j);
                        lemma_entry_at(d@, j);
                    }
                    if has_key(d@, q) {
                        let j = choose|j: int| 0 <= j < d@.len() && (#[trigger] d@[j]).0@ == q;
                        assert(d@[j] == before[j]);
                    }
                }
            }
        },
        None => {
            d.push((k, v));
            proof {
                let n = before.len() as int;
                assert(keys_unique(d@)) by {
                    assert forall|i: int, j: int| 0 <= i < j < d@.len() implies (
                    #[trigger] d@[i]).0@ != (#[trigger] d@[j]).0@ by {
                        if j < n {
                            assert(d@[i] == before[i]);
                            assert(d@[j] == before[j]);
                        } else {
                            assert(d@[i] == before[i]);
                        }
                    }
                }
                lemma_entry_at(d@, n);
                assert forall|q: Seq<char>| q != k_view implies (has_key(d@, q)
                    == has_key(before, q)) && (has_key(before, q) ==> entry_of(d@, q)
                    == entry_of(before, q)) by {
                    if has_key(before, q) {
                        let j = choose|j: int| 0 <= j < before.len() && (#[trigger] before[j]).0@ == q;
                        assert(d@[j] == before[j]);
                        lemma_entry_at(before, j);
                        lemma_entry_at(d@, j);
                    }
                    if has_key(d@, q) {
                        let j = choose|j: int| 0 <= j < d@.len() && (#[trigger] d@[j]).0@ == q;
                        if j < n {
                            assert(d@[j] == before[j]);
                        }
                    }
                }
            }
        },
    }
}

/// Removes the entry of `k`; says whether there was one.
pub fn keyed_remove<V>(d: &mut Vec<(String, V)>, k: &String) -> (r: Option<V>)
    requires
        keys_unique(old(d)@),
    ensures
        keys_unique(final(d)@),
        has_key(old(d)@, k@) ==> r == Some(entry_of(old(d)@, k@)),
        !has_key(old(d)@, k@) ==> r.is_none(),
        keyed_removed(old(d)@, final(d)@, k@),
{
    let ghost before = d@;
    match find_key(d, k) {
        Some(i) => {
            let (_, v) = d.remove(i);
            proof {
                lemma_entry_at(before, i as int);
                let ghost n = before.len() as int;
                assert forall|a: int| 0 <= a < d@.len() implies (#[trigger] d@[a])
                    == if a < i {
                    before[a]
                } else {
                    before[a + 1]
                } by {}
                assert(keys_unique(d@)) by {
                    assert forall|a: int, b: int| 0 <= a < b < d@.len() implies (
                    #[trigger] d@[a]).0@ != (#[trigger] d@[b]).0@ by {
                        let a1 = if a < i { a } else { a + 1 };
                        let b1 = if b < i { b } else { b + 1 };
                        assert(before[a1].0@ != before[b1].0@);
                    }
                }
                assert(!has_key(d@, k@)) by {
                    if has_key(d@, k@) {
                        let j = choose|j: int| 0 <= j < d@.len() && (#[trigger] d@[j]).0@ == k@;
                        let j1 = if j < i { j } else { j + 1 };
                        assert(before[j1].0@ == k@);
                    }
                }
                assert forall|q: Seq<char>| q != k@ implies (has_key(d@, q)
                    == has_key(before, q)) && (has_key(before, q) ==> entry_of(d@, q)
                    == entry_of(before, q)) by {
                    if has_key(before, q) {
                        let j = choose|j: int| 0 <= j < before.len() && (#[trigger] before[j]).0@ == q;
                        let j0 = if j < i { j } else { j - 1 };
                        assert(j != i);
                        assert(d@[j0] == before[j]);
                        lemma_entry_at(before, j);
                        lemma_entry_at(d@, j0);
                    }
                    if has_key(d@, q) {
                        let j = choose|j: int| 0 <= j < d@.len() && (#[trigger] d@[j]).0@ == q;
                        let j1 = if j < i { j } else { j + 1 };
                        assert(before[j1].0@ == q);
                    }
                }
            }
            Some(v)
        },
        None => None,
    }
}


/// Looks `k` up.
pub fn keyed_get<'a, V>(d: &'a Vec<(String, V)>, k: &String) -> (r: Option<&'a V>)
    requires
        keys_unique(d@),
    ensures
        has_key(d@, k@) ==> r == Some(&entry_of(d@, k@)),
        !has_key(d@, k@) ==> r.is_none(),
{
    match find_key(d, k) {
        Some(i) => {
            proof {
                lemma_entry_at(d@, i as int);
            }
            Some(&d[i].1)
        },
        None => None,
    }
}

/// The slot array of `k` in `d` where there is one.
pub open spec fn slots_of(
    d: Seq<(String, Vec<Option<ActionRecording>>)>,
    k: Seq<char>,
) -> Option<Seq<Option<ActionRecording>>> {
    if has_key(d, k) {
        Some(entry_of(d, k)@)
    } else {
        None
    }
}

/// The index of the first filled slot.
pub open spec fn first_filled(s: Seq<Option<ActionRecording>>) -> int
    decreases s.len(),
{
    if s.len() == 0 {
        -1
    } else if first_filled(s.drop_last()) >= 0 {
        first_filled(s.drop_last())
    } else if s.last() is Some {
        s.len() - 1
    } else {
        -1
    }
}

/// The recordings store: for each identifier, one slot per rotation.
pub struct RecordingsFile {
    pub path: String,
    pub data: Vec<(String, Vec<Option<ActionRecording>>)>,
}

impl RecordingsFile {
    pub open spec fn wf(&self) -> bool {
        &&& keys_unique(self.data@)
        &&& forall|i: int| 0 <= i < self.data@.len() ==> (#[trigger] self.data@[i]).1@.len() == ROTATION_SLOTS
    }

    pub fn empty(path: String) -> (r: RecordingsFile)
        ensures
            r.wf(),
            r.path == path,
            r.data@.len() == 0,
    {
        RecordingsFile { path, data: Vec::new() }
    }

    /// The recording for the rotation.
    pub fn get(&self, path_segment: &String, rotation: CanonicalRotation) -> (r: Result<
        &ActionRecording,
        LookupError,
    >)
        requires
            self.wf(),
        ensures
            match slots_of(self.data@, path_segment@) {
                Some(s) => match s[rotation.spec_index()] {
                    Some(rec) => r == Ok::<&ActionRecording, LookupError>(&rec),
                    None => r is Err,
                },
                None => r is Err,
            },
            r matches Err(e) ==> e == (LookupError::NoRecordingForRotation {
                path_segment: *path_segment,
                rotation,
            }),
    {
        match keyed_get(&self.data, path_segment) {
            Some(slots) => {
                proof {
                    let i = choose|i: int| 0 <= i < self.data@.len() && (#[trigger] self.data@[i]).0@ == path_segment@;
                    assert(self.data@[i].1@.len() == ROTATION_SLOTS);
                }
                match &slots[rotation.index()] {
                    Some(rec) => Ok(rec),
                    None => Err(
                        LookupError::NoRecordingForRotation {
                            path_segment: path_segment.clone(),
                            rotation,
                        },
                    ),
                }
            },
            None => Err(
                LookupError::NoRecordingForRotation { path_segment: path_segment.clone(), rotation },
            ),
        }
    }

    /// The recording in the first filled slot, whatever its rotation.
    pub fn get_any(&self, path_segment: &String) -> (r: Result<&ActionRecording, LookupError>)
        requires
            self.wf(),
        ensures
            match slots_of(self.data@, path_segment@) {
                Some(s) => if first_filled(s) >= 0 {
                    r == Ok::<&ActionRecording, LookupError>(&s[first_filled(s)]->Some_0)
                } else {
                    r is Err
                },
                None => r is Err,
            },
            r matches Err(e) ==> e == (LookupError::NoRecordings { path_segment: *path_segment }),
    {
        match keyed_get(&self.data, path_segment) {
            Some(slots) => {
                let mut i: usize = 0;
                while i < slots.len()
                    invariant
                        i <= slots.len(),
                        first_filled(slots@.subrange(0, i as int)) == -1,
                        has_key(self.data@, path_segment@),
                        slots == &entry_of(self.data@, path_segment@),
                    decreases slots.len() - i,
                {
                    assert(slots@.subrange(0, i + 1).drop_last() =~= slots@.subrange(0, i as int));
                    if slots[i].is_some() {
                        proof {
                            lemma_first_filled_prefix(slots@, i as int);
                        }
                        return match &slots[i] {
                            Some(rec) => Ok(rec),
                            None => Err(LookupError::NoRecordings { path_segment: path_segment.clone() }),
                        };
                    }
                    i = i + 1;
                }
                assert(slots@.subrange(0, slots.len() as int) =~= slots@);
                Err(LookupError::NoRecordings { path_segment: path_segment.clone() })
            },
            None => Err(LookupError::NoRecordings { path_segment: path_segment.clone() }),
        }
    }

    /// Puts the recording into the rotation's slot of `path_segment`,
    /// creating the identifier with empty slots if it is new.
    pub fn add(&mut self, path_segment: String, recording: ActionRecording, rotation: CanonicalRotation)
        requires
            old(self).wf(),
        ensures
            final(self).wf(),
            final(self).path == old(self).path,
            keyed_set(
                old(self).data@,
                final(self).data@,
                path_segment@,
                entry_of(final(self).data@, path_segment@),
            ),
            entry_of(final(self).data@, path_segment@)@ == (match slots_of(old(self).data@, path_segment@) {
                Some(s) => s,
                None => seq![None, None, None, None],
            }).update(rotation.spec_index(), Some(recording)),
    {
        let ghost before = self.data@;
        proof {
            if has_key(before, path_segment@) {
                let i = choose|i: int| 0 <= i < before.len() && (#[trigger] before[i]).0@ == path_segment@;
                lemma_entry_at(before, i);
            }
        }
        let mut slots: Vec<Option<ActionRecording>> = match keyed_remove(&mut self.data, &path_segment) {
            Some(s) => s,
            None => {
                let v: Vec<Option<ActionRecording>> = vec![None, None, None, None];
                assert(v@ =~= seq![None, None, None, None]);
                v
            },
        };
        slots.set(rotation.index(), Some(recording));
        let ghost middle = self.data@;
        keyed_insert(&mut self.data, path_segment, slots);
        proof {
            assert forall|i: int| 0 <= i < self.data@.len() implies (#[trigger] self.data@[i]).1@.len() == ROTATION_SLOTS by {
                let q = self.data@[i].0@;
                lemma_entry_at(self.data@, i);
                if q != path_segment@ {
                    let j = choose|j: int| 0 <= j < middle.len() && (#[trigger] middle[j]).0@ == q;
                    lemma_entry_at(middle, j);
                    let j0 = choose|j: int| 0 <= j < before.len() && (#[trigger] before[j]).0@ == q;
                    lemma_entry_at(before, j0);
                }
            }
        }
    }

    /// Removes every slot of `path_segment`.
    pub fn remove(&mut self, path_segment: &String) -> (r: bool)
        requires
            old(self).wf(),
        ensures
            final(self).wf(),
            final(self).path == old(self).path,
            r == has_key(old(self).data@, path_segment@),
            keyed_removed(old(self).data@, final(self).data@, path_segment@),
    {
        let ghost before = self.data@;
        let r = keyed_remove(&mut self.data, path_segment).is_some();
        proof {
            assert forall|i: int| 0 <= i < self.data@.len() implies (#[trigger] self.data@[i]).1@.len() == ROTATION_SLOTS by {
                let q = self.data@[i].0@;
                lemma_entry_at(self.data@, i);
                let j = choose|j: int| 0 <= j < before.len() && (#[trigger] before[j]).0@ == q;
                lemma_entry_at(before, j);
            }
        }
        r
    }
}

proof fn lemma_first_filled_prefix(s: Seq<Option<ActionRecording>>, i: int)
    requires
        0 <= i < s.len(),
        first_filled(s.subrange(0, i)) == -1,
        s[i] is Some,
    ensures
        first_filled(s) == i,
    decreases s.len(),
{
    if i == s.len() - 1 {
        assert(s.drop_last() =~= s.subrange(0, i));
    } else {
        assert(s.drop_last().subrange(0, i) =~= s.subrange(0, i));
        lemma_first_filled_prefix(s.drop_last(), i);
    }
}

/// A copy of the event.
pub fn clone_event(e: &ActionEvent) -> (r: ActionEvent)
    ensures
        r.buf@ == e.buf@,
        r.sleep_duration_us == e.sleep_duration_us,
{
    let mut buf: Vec<u8> = Vec::new();
    let mut i: usize = 0;
    while i < e.buf.len()
        invariant
            i <= e.buf.len(),
            buf@ == e.buf@.subrange(0, i as int),
        decreases e.buf.len() - i,
    {
        buf.push(e.buf[i]);
        assert(buf@ =~= e.buf@.subrange(0, i + 1));
        i = i + 1;
    }
    assert(e.buf@.subrange(0, e.buf.len() as int) =~= e.buf@);
    ActionEvent { buf, sleep_duration_us: e.sleep_duration_us }
}

} // verus!
