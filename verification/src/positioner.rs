//! Window placement: compute window bounds from a desired size and a
//! semantic position, against the displays the shell reports.
//!
//! Coordinates and sizes are whole pixels. Centering halves a difference
//! that may be negative (a window larger than its display), rounding
//! toward zero.

use vstd::prelude::*;

verus! {

/// A rectangle on the screen: origin and size, in pixels.
#[derive(Clone, Copy, Debug, PartialEq, Eq, Structural)]
pub struct Bounds {
    pub origin_x: i64,
    pub origin_y: i64,
    pub width: i64,
    pub height: i64,
}

/// A window size, in pixels.
#[derive(Clone, Copy, Debug, PartialEq, Eq, Structural)]
pub struct WindowSize {
    pub width: i64,
    pub height: i64,
}

/// A display the shell reports: its identifier and its bounds.
#[derive(Clone, Copy, Debug, PartialEq, Eq, Structural)]
pub struct DisplayInfo {
    pub id: u64,
    pub bounds: Bounds,
}

/// Where a window asks to be placed.
#[derive(Clone, Copy, Debug, PartialEq, Eq, Structural)]
pub enum WindowPosition {
    /// Centered on the primary display.
    Center,
    /// Centered on the display with the given id, falling back to the
    /// primary display when no display has it.
    CenterOnDisplay(u64),
    /// Horizontally centered under a tray icon's bounds.
    TrayCenter(Bounds),
    /// In the top-right corner of the primary display, inset by a margin.
    TopRight { margin: i64 },
    /// In the bottom-right corner of the primary display, inset by a margin.
    BottomRight { margin: i64 },
    /// In the top-left corner of the primary display, inset by a margin.
    TopLeft { margin: i64 },
    /// In the bottom-left corner of the primary display, inset by a margin.
    BottomLeft { margin: i64 },
}

/// Magnitude bound under which every coordinate computation stays well
/// inside the pixel type.
pub const COORD_LIMIT: i64 = 0x10000000000;

/// Whether a quantity is within the coordinate magnitude bound.
pub open spec fn within_limit(v: int) -> bool {
    -COORD_LIMIT <= v <= COORD_LIMIT
}

/// Whether a rectangle's fields are within the coordinate bound.
pub open spec fn bounds_within_limit(b: Bounds) -> bool {
    within_limit(b.origin_x as int) && within_limit(b.origin_y as int) && within_limit(
        b.width as int,
    ) && within_limit(b.height as int)
}

/// Half of a difference, rounded toward zero.
pub open spec fn half_toward_zero(v: int) -> int {
    if v >= 0 {
        v / 2
    } else {
        0 - ((0 - v) / 2)
    }
}

/// A window of `size` centered in `display`.
pub open spec fn center_in_spec(size: WindowSize, display: Bounds) -> Bounds {
    Bounds {
        origin_x: (display.origin_x + half_toward_zero(display.width - size.width)) as i64,
        origin_y: (display.origin_y + half_toward_zero(display.height - size.height)) as i64,
        width: size.width,
        height: size.height,
    }
}

/// A window of `size` in a corner of the primary display, inset by
/// `margin`; at the origin when there is no primary display.
pub open spec fn corner_position_spec(
    size: WindowSize,
    primary: Option<DisplayInfo>,
    margin: i64,
    right: bool,
    bottom: bool,
) -> Bounds {
    match primary {
        Some(d) => {
            let db = d.bounds;
            Bounds {
                origin_x: (if right {
                    db.origin_x + db.width - size.width - margin
                } else {
                    db.origin_x + margin
                }) as i64,
                origin_y: (if bottom {
                    db.origin_y + db.height - size.height - margin
                } else {
                    db.origin_y + margin
                }) as i64,
                width: size.width,
                height: size.height,
            }
        },
        None => Bounds { origin_x: 0, origin_y: 0, width: size.width, height: size.height },
    }
}

/// The first display of `displays` with id `id`, if any.
pub open spec fn display_with_id(displays: Seq<DisplayInfo>, id: u64) -> Option<DisplayInfo>
    decreases displays.len(),
{
    if displays.len() == 0 {
        None
    } else if displays[0].id == id {
        Some(displays[0])
    } else {
        display_with_id(displays.subrange(1, displays.len() as int), id)
    }
}

proof fn lemma_display_with_id_at(displays: Seq<DisplayInfo>, id: u64, i: int)
    requires
        0 <= i < displays.len(),
        displays[i].id == id,
        forall|k: int| 0 <= k < i ==> (#[trigger] displays[k]).id != id,
    ensures
        display_with_id(displays, id) == Some(displays[i]),
    decreases i,
{
    if i > 0 {
        let t = displays.subrange(1, displays.len() as int);
        assert(forall|k: int| 0 <= k < t.len() ==> t[k] == displays[k + 1]);
        lemma_display_with_id_at(t, id, i - 1);
    }
}

proof fn lemma_display_with_id_none(displays: Seq<DisplayInfo>, id: u64)
    requires
        forall|k: int| 0 <= k < displays.len() ==> (#[trigger] displays[k]).id != id,
    ensures
        display_with_id(displays, id) is None,
    decreases displays.len(),
{
    if displays.len() > 0 {
        let t = displays.subrange(1, displays.len() as int);
        assert(forall|k: int| 0 <= k < t.len() ==> t[k] == displays[k + 1]);
        lemma_display_with_id_none(t, id);
    }
}

/// Window bounds for a desired size and a semantic position.
pub open spec fn compute_window_bounds_spec(
    size: WindowSize,
    position: WindowPosition,
    displays: Seq<DisplayInfo>,
    primary: Option<DisplayInfo>,
) -> Bounds {
    match position {
        WindowPosition::Center => match primary {
            Some(d) => center_in_spec(size, d.bounds),
            None => Bounds { origin_x: 0, origin_y: 0, width: size.width, height: size.height },
        },
        WindowPosition::CenterOnDisplay(id) => match display_with_id(displays, id) {
            Some(d) => center_in_spec(size, d.bounds),
            None => match primary {
                Some(d) => center_in_spec(size, d.bounds),
                None => Bounds {
                    origin_x: 0,
                    origin_y: 0,
                    width: size.width,
                    height: size.height,
                },
            },
        },
        WindowPosition::TrayCenter(tray) => Bounds {
            origin_x: (tray.origin_x + half_toward_zero(tray.width - size.width)) as i64,
            origin_y: (tray.origin_y + tray.height) as i64,
            width: size.width,
            height: size.height,
        },
        WindowPosition::TopRight { margin } => corner_position_spec(
            size,
            primary,
            margin,
            true,
            false,
        ),
        WindowPosition::BottomRight { margin } => corner_position_spec(
            size,
            primary,
            margin,
            true,
            true,
        ),
        WindowPosition::TopLeft { margin } => corner_position_spec(
            size,
            primary,
            margin,
            false,
            false,
        ),
        WindowPosition::BottomLeft { margin } => corner_position_spec(
            size,
            primary,
            margin,
            false,
            true,
        ),
    }
}

/// Half of a difference, rounded toward zero.
fn half_diff(v: i64) -> (r: i64)
    requires
        -2 * COORD_LIMIT <= v as int <= 2 * COORD_LIMIT,
    ensures
        r == half_toward_zero(v as int),
{
    if v >= 0 {
        v / 2
    } else {
        -((-v) / 2)
    }
}

/// Whether a position's own quantities are within the coordinate bound.
pub open spec fn position_within_limit(position: WindowPosition) -> bool {
    match position {
        WindowPosition::TrayCenter(tray) => bounds_within_limit(tray),
        WindowPosition::TopRight { margin } => within_limit(margin as int),
        WindowPosition::BottomRight { margin } => within_limit(margin as int),
        WindowPosition::TopLeft { margin } => within_limit(margin as int),
        WindowPosition::BottomLeft { margin } => within_limit(margin as int),
        _ => true,
    }
}

/// Whether every display the computation may read is within the bound.
pub open spec fn displays_within_limit(
    displays: Seq<DisplayInfo>,
    primary: Option<DisplayInfo>,
) -> bool {
    &&& forall|i: int| 0 <= i < displays.len() ==> bounds_within_limit((#[trigger] displays[i]).bounds)
    &&& match primary {
        Some(d) => bounds_within_limit(d.bounds),
        None => true,
    }
}

/// A window of `size` centered in `display`.
fn center_in(size: WindowSize, display: Bounds) -> (r: Bounds)
    requires
        within_limit(size.width as int),
        within_limit(size.height as int),
        bounds_within_limit(display),
    ensures
        r == center_in_spec(size, display),
{
    let x = display.origin_x + half_diff(display.width - size.width);
    let y = display.origin_y + half_diff(display.height - size.height);
    Bounds { origin_x: x, origin_y: y, width: size.width, height: size.height }
}

/// A window of `size` in a corner of the primary display, inset by
/// `margin`.
fn corner_position(
    size: WindowSize,
    primary_display: &Option<DisplayInfo>,
    margin: i64,
    right: bool,
    bottom: bool,
) -> (r: Bounds)
    requires
        within_limit(size.width as int),
        within_limit(size.height as int),
        within_limit(margin as int),
        (match *primary_display {
            Some(d) => bounds_within_limit(d.bounds),
            None => true,
        }),
    ensures
        r == corner_position_spec(size, *primary_display, margin, right, bottom),
{
    match primary_display {
        Some(display) => {
            let db = display.bounds;
            let x = if right {
                db.origin_x + db.width - size.width - margin
            } else {
                db.origin_x + margin
            };
            let y = if bottom {
                db.origin_y + db.height - size.height - margin
            } else {
                db.origin_y + margin
            };
            Bounds { origin_x: x, origin_y: y, width: size.width, height: size.height }
        },
        None => Bounds { origin_x: 0, origin_y: 0, width: size.width, height: size.height },
    }
}

/// Compute window bounds from a desired size and a semantic position.
pub fn compute_window_bounds(
    size: WindowSize,
    position: &WindowPosition,
    displays: &Vec<DisplayInfo>,
    primary_display: &Option<DisplayInfo>,
) -> (r: Bounds)
    requires
        within_limit(size.width as int),
        within_limit(size.height as int),
        position_within_limit(*position),
        displays_within_limit(displays@, *primary_display),
    ensures
        r == compute_window_bounds_spec(size, *position, displays@, *primary_display),
{
    match position {
        WindowPosition::Center => match primary_display {
            Some(display) => center_in(size, display.bounds),
            None => Bounds { origin_x: 0, origin_y: 0, width: size.width, height: size.height },
        },
        WindowPosition::CenterOnDisplay(id) => {
            match find_display(displays, *id) {
                Some(display) => center_in(size, display.bounds),
                None => match primary_display {
                    Some(display) => center_in(size, display.bounds),
                    None => Bounds {
                        origin_x: 0,
                        origin_y: 0,
                        width: size.width,
                        height: size.height,
                    },
                },
            }
        },
        WindowPosition::TrayCenter(tray) => {
            let x = tray.origin_x + half_diff(tray.width - size.width);
            let y = tray.origin_y + tray.height;
            Bounds { origin_x: x, origin_y: y, width: size.width, height: size.height }
        },
        WindowPosition::TopRight { margin } => corner_position(
            size,
            primary_display,
            *margin,
            true,
            false,
        ),
        WindowPosition::BottomRight { margin } => corner_position(
            size,
            primary_display,
            *margin,
            true,
            true,
        ),
        WindowPosition::TopLeft { margin } => corner_position(
            size,
            primary_display,
            *margin,
            false,
            false,
        ),
        WindowPosition::BottomLeft { margin } => corner_position(
            size,
            primary_display,
            *margin,
            false,
            true,
        ),
    }
}

/// The first display with the given id.
fn find_display(displays: &Vec<DisplayInfo>, id: u64) -> (r: Option<DisplayInfo>)
    ensures
        r == display_with_id(displays@, id),
        (match r {
            Some(d) => exists|i: int| 0 <= i < displays@.len() && #[trigger] displays@[i] == d,
            None => true,
        }),
{
    let n = displays.len();
    let mut i: usize = 0;
    while i < n
        invariant
            n == displays@.len(),
            i <= n,
            forall|k: int| 0 <= k < i ==> (#[trigger] displays@[k]).id != id,
        decreases n - i,
    {
        if displays[i].id == id {
            proof {
                lemma_display_with_id_at(displays@, id, i as int);
            }
            return Some(displays[i]);
        }
        i = i + 1;
    }
    proof {
        lemma_display_with_id_none(displays@, id);
    }
    None
}

} // verus!
