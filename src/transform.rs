//! Screen rotation and the transform from canonical (client) coordinates to
//! the touch panel's native coordinates.
use vstd::prelude::*;

verus! {

/// The four canonical screen orientations; a recording's slot is its index.
#[derive(Clone, Copy, Debug, PartialEq, Eq, Structural)]
pub enum CanonicalRotation {
    Upright,
    Clockwise,
    UpsideDown,
    CounterClockwise,
}

impl CanonicalRotation {
    pub open spec fn spec_index(self) -> int {
        match self {
            CanonicalRotation::Upright => 0,
            CanonicalRotation::Clockwise => 1,
            CanonicalRotation::UpsideDown => 2,
            CanonicalRotation::CounterClockwise => 3,
        }
    }

    /// The rotation's slot in a per-identifier array of recordings.
    pub fn index(&self) -> (r: usize)
        ensures
            r == self.spec_index(),
    {
        match self {
            CanonicalRotation::Upright => 0,
            CanonicalRotation::Clockwise => 1,
            CanonicalRotation::UpsideDown => 2,
            CanonicalRotation::CounterClockwise => 3,
        }
    }

    pub open spec fn spec_name(self) -> Seq<char> {
        match self {
            CanonicalRotation::Upright => "Upright"@,
            CanonicalRotation::Clockwise => "Clockwise"@,
            CanonicalRotation::UpsideDown => "UpsideDown"@,
            CanonicalRotation::CounterClockwise => "CounterClockwise"@,
        }
    }

    /// The rotation's name as clients see it.
    pub fn name(&self) -> (r: String)
        ensures
            r@ == self.spec_name(),
    {
        match self {
            CanonicalRotation::Upright => "Upright".to_string(),
            CanonicalRotation::Clockwise => "Clockwise".to_string(),
            CanonicalRotation::UpsideDown => "UpsideDown".to_string(),
            CanonicalRotation::CounterClockwise => "CounterClockwise".to_string(),
        }
    }
}

/// How the touch panel's axes relate to the screen's.
#[derive(Clone, Copy, Debug, PartialEq, Eq, Structural)]
pub struct TouchFlags {
    pub swap_axes: bool,
    pub mirror_x: bool,
    pub mirror_y: bool,
}

/// A point in whole pixels.
#[derive(Clone, Copy, Debug, PartialEq, Eq, Structural)]
pub struct Coord {
    pub x: i64,
    pub y: i64,
}

/// The baseline flags adjusted for the canonical rotation.
pub open spec fn rotated_flags(rota: CanonicalRotation, base: TouchFlags) -> TouchFlags {
    match rota {
        CanonicalRotation::Upright => base,
        CanonicalRotation::Clockwise => TouchFlags {
            swap_axes: !base.swap_axes,
            mirror_y: !base.mirror_y,
            ..base
        },
        CanonicalRotation::UpsideDown => TouchFlags {
            mirror_x: !base.mirror_x,
            mirror_y: !base.mirror_y,
            ..base
        },
        CanonicalRotation::CounterClockwise => TouchFlags {
            swap_axes: !base.swap_axes,
            mirror_x: !base.mirror_x,
            ..base
        },
    }
}

/// The flags in force: the override where one is configured, else the rotated baseline.
pub open spec fn effective_flags(
    rota: CanonicalRotation,
    base: TouchFlags,
    overrides: Option<TouchFlags>,
) -> TouchFlags {
    match overrides {
        Some(o) => o,
        None => rotated_flags(rota, base),
    }
}

/// Mirror X, then mirror Y, then swap the axes.
pub open spec fn apply_flags(c: Coord, f: TouchFlags, width: int, height: int) -> Coord {
    let x = if f.mirror_x {
        width - 1 - c.x
    } else {
        c.x as int
    };
    let y = if f.mirror_y {
        height - 1 - c.y
    } else {
        c.y as int
    };
    if f.swap_axes {
        Coord { x: y as i64, y: x as i64 }
    } else {
        Coord { x: x as i64, y: y as i64 }
    }
}

/// Largest distance from the origin of a point on any screen.
pub const COORD_LIMIT: i64 = 0x1_0000_0000;

/// Both coordinates lie within `COORD_LIMIT` of the origin.
pub open spec fn coord_in_range(c: Coord) -> bool {
    -COORD_LIMIT <= c.x <= COORD_LIMIT && -COORD_LIMIT <= c.y <= COORD_LIMIT
}

pub fn flags_for(rota: CanonicalRotation, base: TouchFlags, overrides: Option<TouchFlags>) -> (r:
    TouchFlags)
    ensures
        r == effective_flags(rota, base, overrides),
{
    match overrides {
        Some(o) => o,
        None => match rota {
            CanonicalRotation::Upright => base,
            CanonicalRotation::Clockwise => TouchFlags {
                swap_axes: !base.swap_axes,
                mirror_y: !base.mirror_y,
                ..base
            },
            CanonicalRotation::UpsideDown => TouchFlags {
                mirror_x: !base.mirror_x,
                mirror_y: !base.mirror_y,
                ..base
            },
            CanonicalRotation::CounterClockwise => TouchFlags {
                swap_axes: !base.swap_axes,
                mirror_x: !base.mirror_x,
                ..base
            },
        },
    }
}

/// Moves a canonical point into the panel's native space.
pub fn transform_coord(c: Coord, f: TouchFlags, width: u32, height: u32) -> (r: Coord)
    requires
        coord_in_range(c),
    ensures
        r == apply_flags(c, f, width as int, height as int),
{
    let x = if f.mirror_x {
        width as i64 - 1 - c.x
    } else {
        c.x
    };
    let y = if f.mirror_y {
        height as i64 - 1 - c.y
    } else {
        c.y
    };
    if f.swap_axes {
        Coord { x: y, y: x }
    } else {
        Coord { x, y }
    }
}

/// Under the upright rotation with no baseline flag and no override, the
/// transform leaves every point where it is.
pub proof fn lemma_upright_identity(c: Coord, width: int, height: int)
    ensures
        apply_flags(
            c,
            effective_flags(
                CanonicalRotation::Upright,
                TouchFlags { swap_axes: false, mirror_x: false, mirror_y: false },
                None,
            ),
            width,
            height,
        ) == c,
{
}

/// With no baseline flag and no override, each rotation sets the flags of the
/// rotation table: clockwise swaps the axes and mirrors Y, upside down mirrors
/// both axes, counter-clockwise swaps the axes and mirrors X.
pub proof fn lemma_rotation_table()
    ensures
        ({
            let none = TouchFlags { swap_axes: false, mirror_x: false, mirror_y: false };
            &&& effective_flags(CanonicalRotation::Upright, none, None) == none
            &&& effective_flags(CanonicalRotation::Clockwise, none, None) == (TouchFlags {
                swap_axes: true,
                mirror_x: false,
                mirror_y: true,
            })
            &&& effective_flags(CanonicalRotation::UpsideDown, none, None) == (TouchFlags {
                swap_axes: false,
                mirror_x: true,
                mirror_y: true,
            })
            &&& effective_flags(CanonicalRotation::CounterClockwise, none, None) == (TouchFlags {
                swap_axes: true,
                mirror_x: true,
                mirror_y: false,
            })
        }),
{
}

} // verus!
