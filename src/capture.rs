//! The decisions of a capture session: when a device's reader stops, and
//! which device's events the session keeps.
use vstd::prelude::*;

verus! {

/// What one device's reader reported.
#[derive(Clone, Copy, Debug, PartialEq, Eq, Structural)]
pub enum ReaderOutcome {
    /// The device produced this many events (at least one).
    Events(usize),
    NoEvents,
    /// The device reported a desynchronization.
    Error,
}

/// Why a capture session produced nothing to record.
#[derive(Clone, Copy, Debug, PartialEq, Eq, Structural)]
pub enum CaptureError {
    /// A reader failed; the results of the others are discarded.
    TryAgain,
    NoInputDetected,
}

impl CaptureError {
    pub fn message(&self) -> (r: String)
        ensures
            r@ == match self {
                CaptureError::TryAgain => "An error occured while reading input. Please try again."@,
                CaptureError::NoInputDetected => "No input detected"@,
            },
    {
        match self {
            CaptureError::TryAgain => "An error occured while reading input. Please try again.".to_string(),
            CaptureError::NoInputDetected => "No input detected".to_string(),
        }
    }
}

pub open spec fn event_count(o: ReaderOutcome) -> int {
    match o {
        ReaderOutcome::Events(n) => n as int,
        _ => -1,
    }
}

pub open spec fn has_error(outcomes: Seq<ReaderOutcome>) -> bool {
    exists|k: int| 0 <= k < outcomes.len() && outcomes[k] == ReaderOutcome::Error
}

pub open spec fn has_events(outcomes: Seq<ReaderOutcome>) -> bool {
    exists|k: int| 0 <= k < outcomes.len() && outcomes[k] is Events
}

/// `i` holds the most events, and no later device holds as many.
pub open spec fn is_choice(outcomes: Seq<ReaderOutcome>, i: int) -> bool {
    &&& 0 <= i < outcomes.len()
    &&& outcomes[i] is Events
    &&& forall|k: int| 0 <= k < outcomes.len() ==> event_count(#[trigger] outcomes[k]) <= event_count(outcomes[i])
    &&& forall|k: int| i < k < outcomes.len() ==> event_count(#[trigger] outcomes[k]) < event_count(outcomes[i])
}

/// Picks the device whose events the session keeps: any error fails the
/// whole session, no events at all is an error, and otherwise the device with
/// the most events wins (the last of equals).
pub fn choose_device(outcomes: &Vec<ReaderOutcome>) -> (r: Result<usize, CaptureError>)
    ensures
        has_error(outcomes@) ==> r == Err::<usize, CaptureError>(CaptureError::TryAgain),
        !has_error(outcomes@) && !has_events(outcomes@) ==> r == Err::<usize, CaptureError>(
            CaptureError::NoInputDetected,
        ),
        !has_error(outcomes@) && has_events(outcomes@) ==> (r matches Ok(i) && is_choice(
            outcomes@,
            i as int,
        )),
{
    let mut best: Option<usize> = None;
    let mut i: usize = 0;
    while i < outcomes.len()
        invariant
            i <= outcomes.len(),
            forall|k: int| 0 <= k < i ==> outcomes@[k] != ReaderOutcome::Error,
            match best {
                None => forall|k: int| 0 <= k < i ==> !(#[trigger] outcomes@[k] is Events),
                Some(b) => b < i && outcomes@[b as int] is Events && (forall|k: int|
                    0 <= k < i ==> event_count(#[trigger] outcomes@[k]) <= event_count(
                        outcomes@[b as int],
                    )) && (forall|k: int|
                    b < k < i ==> event_count(#[trigger] outcomes@[k]) < event_count(
                        outcomes@[b as int],
                    )),
            },
        decreases outcomes.len() - i,
    {
        match outcomes[i] {
            ReaderOutcome::Error => {
                return Err(CaptureError::TryAgain);
            },
            ReaderOutcome::NoEvents => {},
            ReaderOutcome::Events(n) => {
                match best {
                    None => {
                        best = Some(i);
                    },
                    Some(b) => {
                        if let ReaderOutcome::Events(m) = outcomes[b] {
                            if n >= m {
                                best = Some(i);
                            }
                        }
                    },
                }
            },
        }
        i = i + 1;
    }
    match best {
        None => Err(CaptureError::NoInputDetected),
        Some(b) => Ok(b),
    }
}

/// Whether a reader with no pending event stops: after `new_event_timeout_ms`
/// of quiet once events have come, or after `no_input_timeout_ms` without any.
pub fn reader_should_stop(
    ms_since_start: i64,
    ms_since_last_event: Option<i64>,
    no_input_timeout_ms: i64,
    new_event_timeout_ms: i64,
) -> (r: bool)
    ensures
        r == match ms_since_last_event {
            Some(q) => q > new_event_timeout_ms,
            None => ms_since_start > no_input_timeout_ms,
        },
{
    match ms_since_last_event {
        Some(q) => q > new_event_timeout_ms,
        None => ms_since_start > no_input_timeout_ms,
    }
}

} // verus!
