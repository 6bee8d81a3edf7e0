//! The cursor renderer's decisions: when a draw request is worth a redraw,
//! and where to draw once the pointer has come to rest.
use vstd::prelude::*;
use crate::transform::{coord_in_range, Coord};

verus! {

/// Movement, in pixels on each axis, below which the cursor is not redrawn.
pub const MIN_CHANGE: i64 = 5;

/// When and where the cursor was last drawn.
#[derive(Clone, Copy, Debug, PartialEq, Eq, Structural)]
pub struct LastDraw {
    pub time_us: i64,
    pub coord: Coord,
}

/// The renderer's record of the pointer and of the last draw.
pub struct CursorManager {
    pub cursor_min_refresh_ms: i64,
    pub current_coord: Option<Coord>,
    pub min_change: i64,
    pub last_draw: Option<LastDraw>,
}

/// The move from `a` to `b` stays within the tolerance on both axes.
pub open spec fn within_tolerance(a: Coord, b: Coord, tol: int) -> bool {
    -tol <= a.x - b.x < tol && -tol <= a.y - b.y < tol
}

impl CursorManager {
    pub open spec fn wf(&self) -> bool {
        &&& self.min_change == MIN_CHANGE
        &&& 0 <= self.cursor_min_refresh_ms <= i64::MAX / 1000
        &&& self.current_coord matches Some(c) ==> coord_in_range(c)
        &&& self.last_draw matches Some(d) ==> coord_in_range(d.coord) && d.time_us >= 0
    }

    pub fn new(cursor_min_refresh_ms: i64) -> (r: CursorManager)
        requires
            0 <= cursor_min_refresh_ms <= i64::MAX / 1000,
        ensures
            r.wf(),
            r.cursor_min_refresh_ms == cursor_min_refresh_ms,
            r.current_coord.is_none(),
            r.last_draw.is_none(),
    {
        CursorManager { cursor_min_refresh_ms, current_coord: None, min_change: MIN_CHANGE, last_draw: None }
    }

    /// A draw request is honoured unless the cursor is already there, was
    /// drawn less than the minimum refresh interval ago, or would move by
    /// less than the tolerance.
    pub open spec fn draw_wanted(&self, c: Coord, now_us: i64) -> bool {
        match self.last_draw {
            None => true,
            Some(d) => !(d.coord == c || now_us - d.time_us < self.cursor_min_refresh_ms * 1000
                || within_tolerance(d.coord, c, self.min_change as int)),
        }
    }

    /// Takes a draw request: the pointer is now at `c`; says whether to redraw.
    pub fn on_draw(&mut self, c: Coord, now_us: i64) -> (r: bool)
        requires
            old(self).wf(),
            coord_in_range(c),
            now_us >= 0,
        ensures
            final(self).wf(),
            final(self).current_coord == Some(c),
            final(self).last_draw == old(self).last_draw,
            final(self).cursor_min_refresh_ms == old(self).cursor_min_refresh_ms,
            r == old(self).draw_wanted(c, now_us),
    {
        self.current_coord = Some(c);
        match self.last_draw {
            None => true,
            Some(d) => {
                if d.coord == c {
                    return false;
                }
                if now_us - d.time_us < self.cursor_min_refresh_ms * 1000 {
                    return false;
                }
                let dx = d.coord.x - c.x;
                let dy = d.coord.y - c.y;
                !(-self.min_change <= dx && dx < self.min_change && -self.min_change <= dy && dy
                    < self.min_change)
            },
        }
    }

    /// The cursor was drawn at `c` at `now_us`.
    pub fn drawn(&mut self, c: Coord, now_us: i64)
        requires
            old(self).wf(),
            coord_in_range(c),
            now_us >= 0,
        ensures
            final(self).wf(),
            final(self).last_draw == Some(LastDraw { time_us: now_us, coord: c }),
            final(self).current_coord == old(self).current_coord,
            final(self).cursor_min_refresh_ms == old(self).cursor_min_refresh_ms,
    {
        self.last_draw = Some(LastDraw { time_us: now_us, coord: c });
    }

    /// The cursor was erased; says whether there was one to erase.
    pub fn hidden(&mut self) -> (r: bool)
        requires
            old(self).wf(),
        ensures
            final(self).wf(),
            r == old(self).last_draw.is_some(),
            final(self).last_draw.is_none(),
            final(self).current_coord == old(self).current_coord,
            final(self).cursor_min_refresh_ms == old(self).cursor_min_refresh_ms,
    {
        let had = self.last_draw.is_some();
        self.last_draw = None;
        had
    }

    /// Forgets the pointer and the last draw.
    pub fn reinit(&mut self)
        requires
            old(self).wf(),
        ensures
            final(self).wf(),
            final(self).last_draw.is_none(),
            final(self).current_coord.is_none(),
            final(self).cursor_min_refresh_ms == old(self).cursor_min_refresh_ms,
    {
        self.current_coord = None;
        self.last_draw = None;
    }

    /// No message came within the refresh interval: where to draw, if the
    /// pointer rests away from the last draw by at least the tolerance.
    pub fn on_timeout(&self) -> (r: Option<Coord>)
        requires
            self.wf(),
        ensures
            r == match (self.current_coord, self.last_draw) {
                (Some(c), Some(d)) => if c != d.coord && !within_tolerance(
                    d.coord,
                    c,
                    self.min_change as int,
                ) {
                    Some(c)
                } else {
                    None
                },
                _ => None,
            },
    {
        match (self.current_coord, self.last_draw) {
            (Some(c), Some(d)) => {
                if c == d.coord {
                    return None;
                }
                let dx = d.coord.x - c.x;
                let dy = d.coord.y - c.y;
                if -self.min_change <= dx && dx < self.min_change && -self.min_change <= dy && dy
                    < self.min_change {
                    None
                } else {
                    Some(c)
                }
            },
            _ => None,
        }
    }
}

} // verus!
