//! Restoring the saved main-window geometry onto the monitors that exist now.
//!
//! The native calls stay with the caller; these functions decide the probe
//! rectangles, the outer bounds and the clamping against a monitor work area.
use vstd::prelude::*;

verus! {

/// The largest accepted window-state file, in bytes.
pub const MAX_WINDOW_STATE_BYTES: u64 = 65_536;

/// The usable area of one monitor.
#[derive(Clone, Copy, Debug, PartialEq, Eq, Structural)]
pub struct WorkArea {
    pub x: i64,
    pub y: i64,
    pub width: u64,
    pub height: u64,
}

impl WorkArea {
    /// A work area whose extent fits the signed coordinate space.
    pub open spec fn bounded(self) -> bool {
        &&& self.width <= i64::MAX
        &&& self.height <= i64::MAX
        &&& self.x + self.width <= i64::MAX
        &&& self.y + self.height <= i64::MAX
    }
}

pub open spec fn spec_clamp_i64_to_i32(value: i64) -> i32 {
    if value < i32::MIN {
        i32::MIN
    } else if value > i32::MAX {
        i32::MAX
    } else {
        value as i32
    }
}

pub fn clamp_i64_to_i32(value: i64) -> (r: i32)
    ensures
        r == spec_clamp_i64_to_i32(value),
{
    if value < i32::MIN as i64 {
        i32::MIN
    } else if value > i32::MAX as i64 {
        i32::MAX
    } else {
        value as i32
    }
}

pub open spec fn spec_min(a: int, b: int) -> int {
    if a <= b {
        a
    } else {
        b
    }
}

pub open spec fn spec_max(a: int, b: int) -> int {
    if a >= b {
        a
    } else {
        b
    }
}

/// `a + b` saturated to the `i64` range.
pub open spec fn spec_saturating_add_i64(a: int, b: int) -> int {
    spec_min(spec_max(a + b, i64::MIN as int), i64::MAX as int)
}

/// A `u64` length read as an `i64`: itself up to `i64::MAX`, wrapped to a
/// negative value above it, as `as i64` does.
pub open spec fn spec_wrap_i64(w: u64) -> int {
    if w <= i64::MAX {
        w as int
    } else {
        w - 0x1_0000_0000_0000_0000
    }
}

proof fn lemma_wrap_i64(w: u64)
    ensures
        (w as i64) as int == spec_wrap_i64(w),
{
    assert((w <= 0x7fff_ffff_ffff_ffff ==> (w as i64) as int == w as int) && (w > 0x7fff_ffff_ffff_ffff ==> (
    w as i64) as int == w as int - 0x1_0000_0000_0000_0000int)) by (bit_vector);
}

/// The sides of the intersection of a window with a work area.
pub open spec fn spec_overlap_sides(x: i64, y: i64, width: u64, height: u64, area: WorkArea) -> (int, int) {
    let left = spec_max(x as int, area.x as int);
    let top = spec_max(y as int, area.y as int);
    let right = spec_min(
        spec_saturating_add_i64(x as int, spec_wrap_i64(width)),
        spec_saturating_add_i64(area.x as int, spec_wrap_i64(area.width)),
    );
    let bottom = spec_min(
        spec_saturating_add_i64(y as int, spec_wrap_i64(height)),
        spec_saturating_add_i64(area.y as int, spec_wrap_i64(area.height)),
    );
    if right <= left || bottom <= top {
        (0, 0)
    } else {
        (right - left, bottom - top)
    }
}

/// The area of the intersection of a window with a work area.
pub open spec fn spec_overlap_area(x: i64, y: i64, width: u64, height: u64, area: WorkArea) -> int {
    spec_overlap_sides(x, y, width, height, area).0 * spec_overlap_sides(x, y, width, height, area).1
}

/// The overlap of a window and a work area can be computed without overflow:
/// its sides fit `i64` and its area fits `u64`.
pub open spec fn overlap_fits(x: i64, y: i64, width: u64, height: u64, area: WorkArea) -> bool {
    &&& spec_overlap_sides(x, y, width, height, area).0 <= i64::MAX
    &&& spec_overlap_sides(x, y, width, height, area).1 <= i64::MAX
    &&& spec_overlap_area(x, y, width, height, area) <= u64::MAX
}

fn saturating_add_i64(a: i64, b: i64) -> (r: i64)
    ensures
        r == spec_saturating_add_i64(a as int, b as int),
{
    let sum = a as i128 + b as i128;
    if sum > i64::MAX as i128 {
        i64::MAX
    } else if sum < i64::MIN as i128 {
        i64::MIN
    } else {
        sum as i64
    }
}

pub fn overlap_area(x: i64, y: i64, width: u64, height: u64, area: WorkArea) -> (r: u64)
    requires
        overlap_fits(x, y, width, height, area),
    ensures
        r == spec_overlap_area(x, y, width, height, area),
{
    let left = if x >= area.x {
        x
    } else {
        area.x
    };
    let top = if y >= area.y {
        y
    } else {
        area.y
    };
    proof {
        lemma_wrap_i64(width);
        lemma_wrap_i64(height);
        lemma_wrap_i64(area.width);
        lemma_wrap_i64(area.height);
    }
    let window_right = saturating_add_i64(x, width as i64);
    let area_right = saturating_add_i64(area.x, area.width as i64);
    let right = if window_right <= area_right {
        window_right
    } else {
        area_right
    };
    let window_bottom = saturating_add_i64(y, height as i64);
    let area_bottom = saturating_add_i64(area.y, area.height as i64);
    let bottom = if window_bottom <= area_bottom {
        window_bottom
    } else {
        area_bottom
    };
    if right <= left || bottom <= top {
        0
    } else {
        let w = (right - left) as u64;
        let h = (bottom - top) as u64;
        assert(w * h == spec_overlap_area(x, y, width, height, area));
        w * h
    }
}

/// The index of the work area with the largest overlap among the first `n`;
/// on a tie the later area wins.
pub open spec fn spec_best_area(x: i64, y: i64, width: u64, height: u64, areas: Seq<WorkArea>, n: nat) -> int
    decreases n,
{
    if n <= 1 {
        0
    } else {
        let previous = spec_best_area(x, y, width, height, areas, (n - 1) as nat);
        if spec_overlap_area(x, y, width, height, areas[n - 1]) >= spec_overlap_area(
            x,
            y,
            width,
            height,
            areas[previous],
        ) {
            n - 1
        } else {
            previous
        }
    }
}

/// The work area a window is clamped into: the one it overlaps most, or the
/// first (primary) one when it overlaps none.
pub open spec fn spec_target_area(x: i64, y: i64, width: u64, height: u64, areas: Seq<WorkArea>) -> WorkArea {
    let best = areas[spec_best_area(x, y, width, height, areas, areas.len())];
    if spec_overlap_area(x, y, width, height, best) == 0 {
        areas[0]
    } else {
        best
    }
}

pub open spec fn spec_clamp(value: int, low: int, high: int) -> int {
    if value < low {
        low
    } else if value > high {
        high
    } else {
        value
    }
}

/// The clamped geometry: the size shrunk to the target area (at least one
/// pixel), and the position moved so the window lies inside it.
pub open spec fn spec_clamp_geometry(position: (i64, i64), size: (u64, u64), areas: Seq<WorkArea>) -> Option<((i64, i64), (u64, u64))> {
    if areas.len() == 0 {
        None
    } else {
        let target = spec_target_area(position.0, position.1, size.0, size.1, areas);
        let width = spec_max(spec_min(size.0 as int, target.width as int), 1);
        let height = spec_max(spec_min(size.1 as int, target.height as int), 1);
        let max_x = target.x + spec_max(target.width - width, 0);
        let max_y = target.y + spec_max(target.height - height, 0);
        Some(
            (
                (
                    spec_clamp(position.0 as int, target.x as int, max_x) as i64,
                    spec_clamp(position.1 as int, target.y as int, max_y) as i64,
                ),
                (width as u64, height as u64),
            ),
        )
    }
}

/// The overlap of the window with every work area is computable, and so is
/// the clamped position in the target area: the room beside the clamped
/// window and the far edge it allows fit `i64`.
pub open spec fn areas_fit(position: (i64, i64), size: (u64, u64), areas: Seq<WorkArea>) -> bool {
    &&& forall|i: int| 0 <= i < areas.len() ==> overlap_fits(position.0, position.1, size.0, size.1, #[trigger] areas[i])
    &&& areas.len() > 0 ==> {
        let target = spec_target_area(position.0, position.1, size.0, size.1, areas);
        let width = spec_max(spec_min(size.0 as int, target.width as int), 1);
        let height = spec_max(spec_min(size.1 as int, target.height as int), 1);
        &&& target.x + spec_max(target.width - width, 0) <= i64::MAX
        &&& target.y + spec_max(target.height - height, 0) <= i64::MAX
        &&& spec_max(target.width - width, 0) <= i64::MAX
        &&& spec_max(target.height - height, 0) <= i64::MAX
    }
}

/// The window's sides and every work area lie within the signed coordinate
/// space, so that no edge saturates.
pub open spec fn coordinates_fit(size: (u64, u64), areas: Seq<WorkArea>) -> bool {
    &&& size.0 <= i64::MAX
    &&& size.1 <= i64::MAX
    &&& forall|i: int| 0 <= i < areas.len() ==> (#[trigger] areas[i]).bounded()
}

pub fn clamp_geometry(position: (i64, i64), size: (u64, u64), work_areas: &[WorkArea]) -> (r: Option<((i64, i64), (u64, u64))>)
    requires
        areas_fit(position, size, work_areas@),
    ensures
        r == spec_clamp_geometry(position, size, work_areas@),
{
    if work_areas.len() == 0 {
        return None;
    }
    let (x, y) = position;
    let (width, height) = size;
    let mut best: usize = 0;
    let mut best_overlap = overlap_area(x, y, width, height, work_areas[0]);
    let mut i: usize = 1;
    while i < work_areas.len()
        invariant
            1 <= i <= work_areas@.len(),
            areas_fit(position, size, work_areas@),
            position == (x, y),
            size == (width, height),
            best as int == spec_best_area(x, y, width, height, work_areas@, i as nat),
            best < i,
            best_overlap == spec_overlap_area(x, y, width, height, work_areas@[best as int]),
        decreases work_areas.len() - i,
    {
        let overlap = overlap_area(x, y, width, height, work_areas[i]);
        if overlap >= best_overlap {
            best = i;
            best_overlap = overlap;
        }
        i = i + 1;
    }
    let target = if best_overlap == 0 {
        work_areas[0]
    } else {
        work_areas[best]
    };
    assert(overlap_fits(x, y, width, height, target));
    let width = if width < target.width {
        width
    } else {
        target.width
    };
    let width = if width < 1 {
        1
    } else {
        width
    };
    let height = if height < target.height {
        height
    } else {
        target.height
    };
    let height = if height < 1 {
        1
    } else {
        height
    };
    let max_x = target.x + target.width.saturating_sub(width) as i64;
    let max_y = target.y + target.height.saturating_sub(height) as i64;
    let x = if x < target.x {
        target.x
    } else if x > max_x {
        max_x
    } else {
        x
    };
    let y = if y < target.y {
        target.y
    } else if y > max_y {
        max_y
    } else {
        y
    };
    Some(((x, y), (width, height)))
}

/// The area chosen among the first `n` overlaps the window at least as much
/// as each of them.
proof fn lemma_best_area_is_maximal(x: i64, y: i64, width: u64, height: u64, areas: Seq<WorkArea>, n: nat)
    requires
        1 <= n <= areas.len(),
    ensures
        0 <= spec_best_area(x, y, width, height, areas, n) < n,
        forall|i: int|
            0 <= i < n ==> spec_overlap_area(x, y, width, height, #[trigger] areas[i]) <= spec_overlap_area(
                x,
                y,
                width,
                height,
                areas[spec_best_area(x, y, width, height, areas, n)],
            ),
    decreases n,
{
    if n > 1 {
        lemma_best_area_is_maximal(x, y, width, height, areas, (n - 1) as nat);
    }
}

/// A window lies inside a work area.
pub open spec fn window_inside(position: (i64, i64), size: (u64, u64), area: WorkArea) -> bool {
    &&& area.x <= position.0
    &&& position.0 + size.0 <= area.x + area.width
    &&& area.y <= position.1
    &&& position.1 + size.1 <= area.y + area.height
}

/// An intersection as large as the window itself means the window lies
/// inside the area.
proof fn lemma_full_overlap_is_inside(position: (i64, i64), size: (u64, u64), area: WorkArea)
    requires
        size.0 >= 1,
        size.1 >= 1,
        overlap_fits(position.0, position.1, size.0, size.1, area),
        spec_overlap_area(position.0, position.1, size.0, size.1, area) >= size.0 * size.1,
    ensures
        window_inside(position, size, area),
{
    let (s1, s2) = spec_overlap_sides(position.0, position.1, size.0, size.1, area);
    let w = size.0 as int;
    let h = size.1 as int;
    assert(s1 <= w && s2 <= h);
    if s1 == 0 {
        assert(s1 * s2 == 0) by (nonlinear_arith)
            requires
                s1 == 0,
        ;
        assert(w * h >= 1) by (nonlinear_arith)
            requires
                w >= 1,
                h >= 1,
        ;
    }
    assert(s1 > 0 && s2 > 0);
    assert(s1 == w && s2 == h) by (nonlinear_arith)
        requires
            0 < s1 <= w,
            0 < s2 <= h,
            s1 * s2 >= w * h,
    ;
}

/// The clamped window has a positive size no larger than its target work
/// area, and lies inside that area.
pub proof fn lemma_clamped_window_inside_target(position: (i64, i64), size: (u64, u64), areas: Seq<WorkArea>)
    requires
        areas.len() > 0,
        areas_fit(position, size, areas),
        coordinates_fit(size, areas),
    ensures
        ({
            let t = spec_target_area(position.0, position.1, size.0, size.1, areas);
            let ((x, y), (w, h)) = spec_clamp_geometry(position, size, areas)->0;
            &&& w >= 1
            &&& h >= 1
            &&& t.width >= 1 ==> w <= t.width && t.x <= x && x + w <= t.x + t.width
            &&& t.height >= 1 ==> h <= t.height && t.y <= y && y + h <= t.y + t.height
        }),
{
    lemma_best_area_is_maximal(position.0, position.1, size.0, size.1, areas, areas.len());
    let b = spec_best_area(position.0, position.1, size.0, size.1, areas, areas.len());
    assert(overlap_fits(position.0, position.1, size.0, size.1, areas[b]));
    assert(overlap_fits(position.0, position.1, size.0, size.1, areas[0]));
}

/// The distance between two coordinates.
pub open spec fn distance(a: int, b: int) -> int {
    if a >= b {
        a - b
    } else {
        b - a
    }
}

/// The clamped window sits where its saved position is nearest inside the
/// target area: on each axis its coordinate lies in the range the area
/// leaves for the clamped size, and no coordinate of that range is closer to
/// the saved one. So a window hanging off an edge is nudged to that edge.
/// A saved size that fits the area is kept; a larger one shrinks to the
/// area's.
pub proof fn lemma_clamped_position_is_nearest(position: (i64, i64), size: (u64, u64), areas: Seq<WorkArea>)
    requires
        areas.len() > 0,
        areas_fit(position, size, areas),
    ensures
        ({
            let t = spec_target_area(position.0, position.1, size.0, size.1, areas);
            let ((x, y), (w, h)) = spec_clamp_geometry(position, size, areas)->0;
            let x_high = t.x + spec_max(t.width - w, 0);
            let y_high = t.y + spec_max(t.height - h, 0);
            &&& t.x <= x <= x_high
            &&& t.y <= y <= y_high
            &&& forall|z: int| t.x <= z <= x_high ==> distance(x as int, position.0 as int) <= distance(z, position.0 as int)
            &&& forall|z: int| t.y <= z <= y_high ==> distance(y as int, position.1 as int) <= distance(z, position.1 as int)
            &&& 1 <= size.0 <= t.width ==> w == size.0
            &&& 1 <= size.1 <= t.height ==> h == size.1
            &&& size.0 > t.width >= 1 ==> w == t.width
            &&& size.1 > t.height >= 1 ==> h == t.height
        }),
{
}

/// A window that already lies inside some work area keeps its geometry.
pub proof fn lemma_visible_window_unchanged(position: (i64, i64), size: (u64, u64), areas: Seq<WorkArea>, k: int)
    requires
        areas_fit(position, size, areas),
        coordinates_fit(size, areas),
        0 <= k < areas.len(),
        size.0 >= 1,
        size.1 >= 1,
        window_inside(position, size, areas[k]),
    ensures
        spec_clamp_geometry(position, size, areas) == Some((position, size)),
{
    let (x, y) = position;
    let (w, h) = size;
    lemma_best_area_is_maximal(x, y, w, h, areas, areas.len());
    let b = spec_best_area(x, y, w, h, areas, areas.len());
    assert(overlap_fits(x, y, w, h, areas[k]));
    assert(overlap_fits(x, y, w, h, areas[b]));
    assert(spec_overlap_sides(x, y, w, h, areas[k]) == (w as int, h as int));
    assert(spec_overlap_area(x, y, w, h, areas[k]) == w * h);
    assert(w * h >= 1) by (nonlinear_arith)
        requires
            w >= 1,
            h >= 1,
    ;
    lemma_full_overlap_is_inside(position, size, areas[b]);
}

/// A window that overlaps no work area is moved into the first (primary) one.
pub proof fn lemma_offscreen_window_moves_to_primary(position: (i64, i64), size: (u64, u64), areas: Seq<WorkArea>)
    requires
        areas.len() > 0,
        areas_fit(position, size, areas),
        forall|i: int| 0 <= i < areas.len() ==> spec_overlap_area(position.0, position.1, size.0, size.1, #[trigger] areas[i]) == 0,
    ensures
        spec_target_area(position.0, position.1, size.0, size.1, areas) == areas[0],
{
    lemma_best_area_is_maximal(position.0, position.1, size.0, size.1, areas, areas.len());
}

/// The persisted state of a window, as the window-state store writes it.
#[derive(Clone, Copy, Debug, PartialEq, Eq, Structural)]
pub struct SavedWindowState {
    pub width: u32,
    pub height: u32,
    pub x: i32,
    pub y: i32,
    pub prev_x: i32,
    pub prev_y: i32,
    pub maximized: bool,
    pub visible: bool,
    pub decorated: bool,
    pub fullscreen: bool,
}

/// A native rectangle: left, top, right and bottom edges.
#[derive(Clone, Copy, Debug, PartialEq, Eq, Structural)]
pub struct NativeRect {
    pub left: i32,
    pub top: i32,
    pub right: i32,
    pub bottom: i32,
}

/// A saved state is restored only when it has a positive size.
pub fn usable_saved_state(saved: Option<SavedWindowState>) -> (r: Option<SavedWindowState>)
    ensures
        r == (match saved {
            Some(state) => if state.width > 0 && state.height > 0 {
                Some(state)
            } else {
                None::<SavedWindowState>
            },
            None => None,
        }),
{
    match saved {
        Some(state) => if state.width > 0 && state.height > 0 {
            Some(state)
        } else {
            None
        },
        None => None,
    }
}

/// Where a saved window sits: its pre-maximize origin when it was maximized.
pub fn saved_origin(state: SavedWindowState) -> (r: (i32, i32))
    ensures
        r == (if state.maximized {
            (state.prev_x, state.prev_y)
        } else {
            (state.x, state.y)
        }),
{
    if state.maximized {
        (state.prev_x, state.prev_y)
    } else {
        (state.x, state.y)
    }
}

pub open spec fn spec_side_i32(side: u32) -> i32 {
    if side > i32::MAX {
        i32::MAX
    } else {
        side as i32
    }
}

fn side_i32(side: u32) -> (r: i32)
    ensures
        r == spec_side_i32(side),
{
    if side > i32::MAX as u32 {
        i32::MAX
    } else {
        side as i32
    }
}

pub open spec fn spec_saturating_add_i32(a: i32, b: i32) -> i32 {
    spec_min(spec_max(a + b, i32::MIN as int), i32::MAX as int) as i32
}

fn saturating_add_i32(a: i32, b: i32) -> (r: i32)
    ensures
        r == spec_saturating_add_i32(a, b),
{
    let sum = a as i64 + b as i64;
    if sum > i32::MAX as i64 {
        i32::MAX
    } else if sum < i32::MIN as i64 {
        i32::MIN
    } else {
        sum as i32
    }
}

/// The rectangle used to find the monitor of a saved window.
pub fn saved_probe_rect(state: SavedWindowState) -> (r: NativeRect)
    ensures
        ({
            let (x, y) = if state.maximized {
                (state.prev_x, state.prev_y)
            } else {
                (state.x, state.y)
            };
            r == NativeRect {
                left: x,
                top: y,
                right: spec_saturating_add_i32(x, spec_side_i32(state.width)),
                bottom: spec_saturating_add_i32(y, spec_side_i32(state.height)),
            }
        }),
{
    let (x, y) = saved_origin(state);
    NativeRect {
        left: x,
        top: y,
        right: saturating_add_i32(x, side_i32(state.width)),
        bottom: saturating_add_i32(y, side_i32(state.height)),
    }
}

/// The client rectangle whose frame is added for the monitor's DPI.
pub fn saved_client_rect(state: SavedWindowState) -> (r: NativeRect)
    ensures
        r == (NativeRect { left: 0, top: 0, right: spec_side_i32(state.width), bottom: spec_side_i32(state.height) }),
{
    NativeRect { left: 0, top: 0, right: side_i32(state.width), bottom: side_i32(state.height) }
}

/// The outer bounds (x, y, width, height) to restore before clamping: the
/// saved origin with the frame-adjusted size (or the raw saved size when the
/// frame could not be computed), else the current window rectangle; each
/// side is at least one pixel.
pub open spec fn spec_initial_outer_bounds(saved: Option<SavedWindowState>, current: NativeRect, adjusted: Option<NativeRect>) -> (i64, i64, i64, i64) {
    let (x, y, w, h) = match saved {
        Some(state) => if state.width > 0 && state.height > 0 {
            let (x, y) = if state.maximized {
                (state.prev_x, state.prev_y)
            } else {
                (state.x, state.y)
            };
            match adjusted {
                Some(a) => (x as int, y as int, a.right - a.left, a.bottom - a.top),
                None => (x as int, y as int, state.width as int, state.height as int),
            }
        } else {
            (current.left as int, current.top as int, current.right - current.left, current.bottom - current.top)
        },
        None => (current.left as int, current.top as int, current.right - current.left, current.bottom - current.top),
    };
    (x as i64, y as i64, spec_max(w, 1) as i64, spec_max(h, 1) as i64)
}

pub fn initial_outer_bounds(saved: Option<SavedWindowState>, current: NativeRect, adjusted: Option<NativeRect>) -> (r: (i64, i64, i64, i64))
    ensures
        r == spec_initial_outer_bounds(saved, current, adjusted),
        1 <= r.2 && r.2 <= u32::MAX,
        1 <= r.3 && r.3 <= u32::MAX,
{
    let (x, y, w, h) = match usable_saved_state(saved) {
        Some(state) => {
            let (x, y) = saved_origin(state);
            match adjusted {
                Some(a) => (
                    x as i64,
                    y as i64,
                    a.right as i64 - a.left as i64,
                    a.bottom as i64 - a.top as i64,
                ),
                None => (x as i64, y as i64, state.width as i64, state.height as i64),
            }
        },
        None => (
            current.left as i64,
            current.top as i64,
            current.right as i64 - current.left as i64,
            current.bottom as i64 - current.top as i64,
        ),
    };
    let w = if w < 1 {
        1
    } else {
        w
    };
    let h = if h < 1 {
        1
    } else {
        h
    };
    (x, y, w, h)
}

/// The rectangle used to find the monitor of the outer bounds.
pub fn outer_probe_rect(bounds: (i64, i64, i64, i64)) -> (r: NativeRect)
    ensures
        r == (NativeRect {
            left: spec_clamp_i64_to_i32(bounds.0),
            top: spec_clamp_i64_to_i32(bounds.1),
            right: spec_clamp_i64_to_i32(spec_saturating_add_i64(bounds.0 as int, bounds.2 as int) as i64),
            bottom: spec_clamp_i64_to_i32(spec_saturating_add_i64(bounds.1 as int, bounds.3 as int) as i64),
        }),
{
    let (x, y, w, h) = bounds;
    NativeRect {
        left: clamp_i64_to_i32(x),
        top: clamp_i64_to_i32(y),
        right: clamp_i64_to_i32(saturating_add_i64(x, w)),
        bottom: clamp_i64_to_i32(saturating_add_i64(y, h)),
    }
}

/// The work area of a monitor rectangle, refused when it is empty.
pub fn work_area_from_rect(rect: NativeRect) -> (r: Result<WorkArea, String>)
    ensures
        match r {
            Ok(area) => {
                &&& rect.right - rect.left > 0
                &&& rect.bottom - rect.top > 0
                &&& area == (WorkArea {
                    x: rect.left as i64,
                    y: rect.top as i64,
                    width: (rect.right - rect.left) as u64,
                    height: (rect.bottom - rect.top) as u64,
                })
            },
            Err(message) => {
                &&& (rect.right - rect.left <= 0 || rect.bottom - rect.top <= 0)
                &&& message@ == "Windows reported an empty monitor work area."@
            },
        },
{
    let width = rect.right as i64 - rect.left as i64;
    let height = rect.bottom as i64 - rect.top as i64;
    if width <= 0 || height <= 0 {
        return Err("Windows reported an empty monitor work area.".to_owned());
    }
    Ok(WorkArea { x: rect.left as i64, y: rect.top as i64, width: width as u64, height: height as u64 })
}

/// A window whose sides fit `u32` always has a computable overlap with the
/// work area of a native monitor rectangle.
proof fn lemma_native_area_fits(x: i64, y: i64, width: u64, height: u64, area: WorkArea)
    requires
        width <= u32::MAX,
        height <= u32::MAX,
        i32::MIN <= area.x <= i32::MAX,
        i32::MIN <= area.y <= i32::MAX,
        area.width <= u32::MAX,
        area.height <= u32::MAX,
    ensures
        overlap_fits(x, y, width, height, area),
{
    let (s1, s2) = spec_overlap_sides(x, y, width, height, area);
    assert(0 <= s1 <= u32::MAX && 0 <= s2 <= u32::MAX);
    assert(s1 * s2 <= u64::MAX) by (nonlinear_arith)
        requires
            0 <= s1 <= 0xffff_ffff,
            0 <= s2 <= 0xffff_ffff,
    ;
}

/// The position and size to set: the outer bounds clamped into the work area
/// of their monitor.
pub fn clamp_outer_bounds(bounds: (i64, i64, i64, i64), area: WorkArea) -> (r: ((i64, i64), (u64, u64)))
    requires
        1 <= bounds.2 <= u32::MAX,
        1 <= bounds.3 <= u32::MAX,
        i32::MIN <= area.x <= i32::MAX,
        i32::MIN <= area.y <= i32::MAX,
        area.width <= u32::MAX,
        area.height <= u32::MAX,
    ensures
        Some(r) == spec_clamp_geometry((bounds.0, bounds.1), (bounds.2 as u64, bounds.3 as u64), seq![area]),
{
    let areas = [area];
    proof {
        lemma_native_area_fits(bounds.0, bounds.1, bounds.2 as u64, bounds.3 as u64, area);
        assert(areas@ =~= seq![area]);
    }
    match clamp_geometry((bounds.0, bounds.1), (bounds.2 as u64, bounds.3 as u64), &areas) {
        Some(geometry) => geometry,
        None => ((bounds.0, bounds.1), (bounds.2 as u64, bounds.3 as u64)),
    }
}

/// The position and size passed to the native window call.
pub fn native_bounds(position: (i64, i64), size: (u64, u64)) -> (r: (i32, i32, i32, i32))
    ensures
        r == (
            spec_clamp_i64_to_i32(position.0),
            spec_clamp_i64_to_i32(position.1),
            spec_side_i32(spec_min(size.0 as int, u32::MAX as int) as u32),
            spec_side_i32(spec_min(size.1 as int, u32::MAX as int) as u32),
        ),
{
    let width = if size.0 > i32::MAX as u64 {
        i32::MAX
    } else {
        size.0 as i32
    };
    let height = if size.1 > i32::MAX as u64 {
        i32::MAX
    } else {
        size.1 as i32
    };
    (clamp_i64_to_i32(position.0), clamp_i64_to_i32(position.1), width, height)
}

/// After the window moved, the geometry to set once more when its actual
/// rectangle is not already inside the work area of its monitor.
pub fn post_move_correction(actual: NativeRect, area: WorkArea) -> (r: Option<((i64, i64), (u64, u64))>)
    requires
        i32::MIN <= area.x <= i32::MAX,
        i32::MIN <= area.y <= i32::MAX,
        area.width <= u32::MAX,
        area.height <= u32::MAX,
    ensures
        ({
            let position = (actual.left as i64, actual.top as i64);
            let size = (
                spec_max(actual.right - actual.left, 1) as u64,
                spec_max(actual.bottom - actual.top, 1) as u64,
            );
            let clamped = spec_clamp_geometry(position, size, seq![area])->0;
            r == (if clamped == (position, size) {
                None
            } else {
                Some(clamped)
            })
        }),
{
    let width = actual.right as i64 - actual.left as i64;
    let height = actual.bottom as i64 - actual.top as i64;
    let bounds = (
        actual.left as i64,
        actual.top as i64,
        if width < 1 {
            1
        } else {
            width
        },
        if height < 1 {
            1
        } else {
            height
        },
    );
    let (position, size) = clamp_outer_bounds(bounds, area);
    if position.0 == bounds.0 && position.1 == bounds.1 && size.0 == bounds.2 as u64 && size.1 == bounds.3 as u64 {
        None
    } else {
        Some((position, size))
    }
}

/// The DPI of a monitor: the reported horizontal DPI when the query succeeded
/// with a positive value, else 96.
pub fn effective_dpi(status: i32, dpi_x: u32) -> (r: u32)
    ensures
        r == (if status >= 0 && dpi_x > 0 {
            dpi_x
        } else {
            96
        }),
{
    if status >= 0 && dpi_x > 0 {
        dpi_x
    } else {
        96
    }
}

/// What reading the window-state file found.
#[derive(Clone, Copy, Debug, PartialEq, Eq, Structural)]
pub enum StateFileRead {
    /// The file was read within the size limit; `parses` tells whether it is
    /// a valid window-state document.
    Read { parses: bool },
    /// The file exceeds the size limit.
    TooLarge,
    /// There is no file.
    NotFound,
    /// Reading failed otherwise.
    Failed,
}

/// What to do with the window-state file before the store loads it.
#[derive(Clone, Copy, Debug, PartialEq, Eq, Structural)]
pub enum StateFileAction {
    Keep,
    Remove,
    Fail,
}

/// Whether a state file of `length` bytes is within the limit.
pub fn state_length_allowed(length: u64) -> (r: bool)
    ensures
        r == (length <= MAX_WINDOW_STATE_BYTES),
{
    length <= MAX_WINDOW_STATE_BYTES
}

/// A valid file is kept, an invalid or oversized one removed, a missing one
/// left alone, and any other failure reported.
pub fn window_state_action(read: StateFileRead) -> (r: StateFileAction)
    ensures
        r == (match read {
            StateFileRead::Read { parses } => if parses {
                StateFileAction::Keep
            } else {
                StateFileAction::Remove
            },
            StateFileRead::TooLarge => StateFileAction::Remove,
            StateFileRead::NotFound => StateFileAction::Keep,
            StateFileRead::Failed => StateFileAction::Fail,
        }),
{
    match read {
        StateFileRead::Read { parses } => if parses {
            StateFileAction::Keep
        } else {
            StateFileAction::Remove
        },
        StateFileRead::TooLarge => StateFileAction::Remove,
        StateFileRead::NotFound => StateFileAction::Keep,
        StateFileRead::Failed => StateFileAction::Fail,
    }
}

} // verus!
