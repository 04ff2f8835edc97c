//! The compact mode of the main window: a small note window that snaps to
//! the top, left or right edge of the screen it is dragged to, slides into
//! that edge leaving a 20-pixel strip, slides out when the cursor touches
//! the strip, and slides back in 400 ms after the cursor leaves it, unless
//! locked or busy.
//!
//! The decisions are transitions of `DockControl`; the caller moves the
//! window, animates, reads the cursor and the clock, and hands back what it
//! saw.
use vstd::prelude::*;

verus! {

/// Pixels of a hidden window left on screen: the strip that slides the
/// window out again when the cursor touches it.
pub const VISIBLE_MARGIN_PX: i32 = 20;

/// Distance from an edge within which a dragged window snaps to it.
pub const EDGE_DOCK_THRESHOLD_PX: i32 = 35;

/// The edge the compact window is docked to.
#[derive(Debug, Clone, Copy, PartialEq, Eq, Structural)]
pub enum CompactDockEdge {
    NoEdge,
    Top,
    Left,
    Right,
}

/// Where the compact window is docked, whether it is slid in, and whether
/// it is locked open.
#[derive(Debug, Clone, Copy, PartialEq, Eq, Structural)]
pub struct CompactDockState {
    pub edge: CompactDockEdge,
    pub is_hidden: bool,
    pub is_locked: bool,
}

/// A position in physical pixels.
#[derive(Debug, Clone, Copy, PartialEq, Eq, Structural)]
pub struct Point {
    pub x: i32,
    pub y: i32,
}

/// A size in physical pixels.
#[derive(Debug, Clone, Copy, PartialEq, Eq, Structural)]
pub struct Size {
    pub width: u32,
    pub height: u32,
}

/// The work area of a screen: left, top, right and bottom.
#[derive(Debug, Clone, Copy, PartialEq, Eq, Structural)]
pub struct Bounds {
    pub left: i32,
    pub top: i32,
    pub right: i32,
    pub bottom: i32,
}

/// `|a - b| <= d`.
pub open spec fn near(a: int, b: int, d: int) -> bool {
    -d <= a - b <= d
}

/// The edge a window at `pos`, `width` wide, snaps to: the top when within
/// 35 pixels of it or above it, else the right, else the left, else none.
pub open spec fn edge_for(pos: Point, width: u32, b: Bounds) -> CompactDockEdge {
    let right_side = pos.x + width;
    if near(pos.y as int, b.top as int, 35) || pos.y < b.top {
        CompactDockEdge::Top
    } else if near(right_side, b.right as int, 35) || right_side > b.right {
        CompactDockEdge::Right
    } else if near(pos.x as int, b.left as int, 35) || pos.x < b.left {
        CompactDockEdge::Left
    } else {
        CompactDockEdge::NoEdge
    }
}

/// The edge a window at `pos`, `width` wide, snaps to (see `edge_for`).
pub fn detect_edge(pos: Point, width: u32, b: Bounds) -> (r: CompactDockEdge)
    ensures
        r == edge_for(pos, width, b),
{
    let x = pos.x as i64;
    let y = pos.y as i64;
    let right_side = x + width as i64;
    let top = b.top as i64;
    let left = b.left as i64;
    let right = b.right as i64;
    if (-35 <= y - top && y - top <= 35) || y < top {
        CompactDockEdge::Top
    } else if (-35 <= right_side - right && right_side - right <= 35) || right_side > right {
        CompactDockEdge::Right
    } else if (-35 <= x - left && x - left <= 35) || x < left {
        CompactDockEdge::Left
    } else {
        CompactDockEdge::NoEdge
    }
}


/// `v` as a 32-bit coordinate, wrapping as release builds do.
pub open spec fn wrap32(v: int) -> i32 {
    v as i32
}

/// `v` wrapped to 32 bits.
fn wrap(v: i64) -> (r: i32)
    ensures
        r == wrap32(v as int),
{
    v as i32
}

/// The compact-mode state of the main window.
pub struct DockControl {
    /// The main window is in compact mode.
    pub compact_mode: bool,
    /// The window is being animated.
    pub animating: bool,
    /// The front end asked that the window stay open.
    pub busy: bool,
    /// The dock state.
    pub state: CompactDockState,
    /// Where the window stands when slid out.
    pub expanded_pos: Option<Point>,
    /// The window's position and size before compact mode.
    pub saved_window: Option<(Point, Size)>,
}

/// The state outside compact mode.
pub open spec fn free_state() -> CompactDockState {
    CompactDockState { edge: CompactDockEdge::NoEdge, is_hidden: false, is_locked: false }
}

/// Where a window docked to `edge` stands open, where it was dragged to `pos`.
pub open spec fn open_pos(edge: CompactDockEdge, pos: Point, size: Size, b: Bounds) -> Point {
    match edge {
        CompactDockEdge::Top => Point { x: pos.x, y: b.top },
        CompactDockEdge::Right => Point { x: wrap32(b.right - size.width), y: pos.y },
        CompactDockEdge::Left => Point { x: b.left, y: pos.y },
        CompactDockEdge::NoEdge => pos,
    }
}

/// The control after the window was dragged to `pos`: unless animating, out
/// of compact mode or slid in, it docks to the edge it is near, open, and
/// remembers where it stands open.
pub open spec fn after_move(c: DockControl, pos: Point, size: Size, b: Bounds) -> DockControl {
    if c.animating || !c.compact_mode || c.state.is_hidden {
        c
    } else {
        let edge = edge_for(pos, size.width, b);
        DockControl {
            state: CompactDockState { edge, is_hidden: false, is_locked: c.state.is_locked },
            expanded_pos: Some(open_pos(edge, pos, size, b)),
            ..c
        }
    }
}

/// Where compact mode puts the window: 32 pixels from the right of the work
/// area, at its top.
pub open spec fn compact_home(size: Size, b: Bounds) -> Point {
    Point { x: wrap32(b.right - size.width - 32), y: b.top }
}

/// The control after entering compact mode with the window at `current`
/// (when known), resized to `size`.
pub open spec fn after_enter(c: DockControl, current: Option<(Point, Size)>, size: Size, b: Bounds) -> DockControl {
    DockControl {
        compact_mode: true,
        animating: c.animating,
        busy: false,
        state: CompactDockState { edge: CompactDockEdge::Top, is_hidden: false, is_locked: false },
        expanded_pos: Some(compact_home(size, b)),
        saved_window: match current {
            Some(w) => Some(w),
            None => c.saved_window,
        },
    }
}

/// The control after leaving compact mode.
pub open spec fn after_exit(c: DockControl) -> DockControl {
    DockControl { compact_mode: false, state: free_state(), expanded_pos: None, ..c }
}

/// The control with the window locked open, or no longer locked.
pub open spec fn lock_toggled(c: DockControl) -> DockControl {
    DockControl { state: CompactDockState { is_locked: !c.state.is_locked, ..c.state }, ..c }
}

/// Whether the window whose place along its edge is `p` stands open at that
/// edge: at the top, right or left of the work area.
pub open spec fn at_edge(edge: CompactDockEdge, p: Point, size: Size, b: Bounds) -> bool {
    match edge {
        CompactDockEdge::Top => p.y == b.top,
        CompactDockEdge::Right => p.x == wrap32(b.right - size.width),
        CompactDockEdge::Left => p.x == b.left,
        CompactDockEdge::NoEdge => true,
    }
}

/// Whether the window may slide in: docked, open and not locked.
pub open spec fn can_slide_in(s: CompactDockState) -> bool {
    !s.is_locked && s.edge != CompactDockEdge::NoEdge && !s.is_hidden
}

/// Where a window at `current` slides in to: beyond its edge but for a
/// 20-pixel strip.
pub open spec fn hidden_pos(edge: CompactDockEdge, current: Point, size: Size, b: Bounds) -> Point {
    match edge {
        CompactDockEdge::Top => Point { x: current.x, y: wrap32(b.top - size.height + VISIBLE_MARGIN_PX) },
        CompactDockEdge::Right => Point { x: wrap32(b.right - VISIBLE_MARGIN_PX), y: current.y },
        CompactDockEdge::Left => Point { x: wrap32(b.left - size.width + VISIBLE_MARGIN_PX), y: current.y },
        CompactDockEdge::NoEdge => current,
    }
}

/// The control after sliding the window in from `current`.
pub open spec fn after_slide_in(c: DockControl, current: Point) -> DockControl {
    if !can_slide_in(c.state) {
        c
    } else {
        DockControl {
            expanded_pos: Some(current),
            state: CompactDockState { is_hidden: true, ..c.state },
            ..c
        }
    }
}

/// Whether the window may slide out: slid in at an edge.
pub open spec fn can_slide_out(s: CompactDockState) -> bool {
    s.is_hidden && s.edge != CompactDockEdge::NoEdge
}

/// Where a slid-in window at `current` slides out to: back to its edge, at
/// the place along the edge it was left open at.
pub open spec fn shown_pos(edge: CompactDockEdge, saved: Option<Point>, current: Point, size: Size, b: Bounds) -> Point {
    let keep = match saved {
        Some(p) => p,
        None => current,
    };
    match edge {
        CompactDockEdge::Top => Point { x: keep.x, y: b.top },
        CompactDockEdge::Right => Point { x: wrap32(b.right - size.width), y: keep.y },
        CompactDockEdge::Left => Point { x: b.left, y: keep.y },
        CompactDockEdge::NoEdge => current,
    }
}

/// The control after sliding the window out from `current`.
pub open spec fn after_slide_out(c: DockControl, current: Point, size: Size, b: Bounds) -> DockControl {
    if !can_slide_out(c.state) {
        c
    } else {
        DockControl {
            expanded_pos: Some(shown_pos(c.state.edge, c.expanded_pos, current, size, b)),
            state: CompactDockState { is_hidden: false, ..c.state },
            ..c
        }
    }
}

impl DockControl {
    /// Out of compact mode, idle.
    pub fn new() -> (r: DockControl)
        ensures
            !r.compact_mode && !r.animating && !r.busy,
            r.state == free_state(),
            r.expanded_pos is None,
            r.saved_window is None,
    {
        DockControl {
            compact_mode: false,
            animating: false,
            busy: false,
            state: CompactDockState { edge: CompactDockEdge::NoEdge, is_hidden: false, is_locked: false },
            expanded_pos: None,
            saved_window: None,
        }
    }

    /// The window was dragged to `pos`; gives
    /// the new dock state when it changed.
    pub fn window_moved(&mut self, pos: Point, size: Size, b: Bounds) -> (r: Option<CompactDockState>)
        ensures
            *final(self) == after_move(*old(self), pos, size, b),
            r == if old(self).animating || !old(self).compact_mode || old(self).state.is_hidden {
                None
            } else {
                Some(final(self).state)
            },
    {
        if self.animating || !self.compact_mode || self.state.is_hidden {
            return None;
        }
        let edge = detect_edge(pos, size.width, b);
        let open = match edge {
            CompactDockEdge::Top => Point { x: pos.x, y: b.top },
            CompactDockEdge::Right => Point { x: wrap(b.right as i64 - size.width as i64), y: pos.y },
            CompactDockEdge::Left => Point { x: b.left, y: pos.y },
            CompactDockEdge::NoEdge => pos,
        };
        self.state = CompactDockState { edge, is_hidden: false, is_locked: self.state.is_locked };
        self.expanded_pos = Some(open);
        Some(self.state)
    }

    /// Enters compact mode: remembers the window at
    /// `current`, and gives the dock state and where to put the window,
    /// resized to `size`.
    pub fn enter_compact(&mut self, current: Option<(Point, Size)>, size: Size, b: Bounds) -> (r: (
        CompactDockState,
        Point,
    ))
        ensures
            *final(self) == after_enter(*old(self), current, size, b),
            r == (final(self).state, compact_home(size, b)),
    {
        let home = Point { x: wrap(b.right as i64 - size.width as i64 - 32), y: b.top };
        if current.is_some() {
            self.saved_window = current;
        }
        self.compact_mode = true;
        self.busy = false;
        self.state = CompactDockState { edge: CompactDockEdge::Top, is_hidden: false, is_locked: false };
        self.expanded_pos = Some(home);
        (self.state, home)
    }

    /// Leaves compact mode: gives the dock state and
    /// the window to restore, if one was remembered.
    pub fn exit_compact(&mut self) -> (r: (CompactDockState, Option<(Point, Size)>))
        ensures
            *final(self) == after_exit(*old(self)),
            r == (free_state(), old(self).saved_window),
    {
        self.compact_mode = false;
        self.state = CompactDockState { edge: CompactDockEdge::NoEdge, is_hidden: false, is_locked: false };
        self.expanded_pos = None;
        (self.state, self.saved_window)
    }

    /// Slides the window in: gives the dock state and,
    /// when it moves, where to.
    pub fn slide_in(&mut self, current: Point, size: Size, b: Bounds) -> (r: (CompactDockState, Option<Point>))
        ensures
            *final(self) == after_slide_in(*old(self), current),
            r == (final(self).state, if can_slide_in(old(self).state) {
                Some(hidden_pos(old(self).state.edge, current, size, b))
            } else {
                None
            }),
    {
        if self.state.is_locked || self.state.edge == CompactDockEdge::NoEdge || self.state.is_hidden {
            return (self.state, None);
        }
        let target = match self.state.edge {
            CompactDockEdge::Top => Point {
                x: current.x,
                y: wrap(b.top as i64 - size.height as i64 + VISIBLE_MARGIN_PX as i64),
            },
            CompactDockEdge::Right => Point { x: wrap(b.right as i64 - VISIBLE_MARGIN_PX as i64), y: current.y },
            CompactDockEdge::Left => Point { x: wrap(b.left as i64 - size.width as i64 + VISIBLE_MARGIN_PX as i64), y: current.y },
            CompactDockEdge::NoEdge => current,
        };
        self.expanded_pos = Some(current);
        self.state = CompactDockState { is_hidden: true, ..self.state };
        (self.state, Some(target))
    }

    /// Slides the window out: gives the dock state
    /// and, when it moves, where to.
    pub fn slide_out(&mut self, current: Point, size: Size, b: Bounds) -> (r: (CompactDockState, Option<Point>))
        ensures
            *final(self) == after_slide_out(*old(self), current, size, b),
            r == (final(self).state, if can_slide_out(old(self).state) {
                Some(shown_pos(old(self).state.edge, old(self).expanded_pos, current, size, b))
            } else {
                None
            }),
    {
        if !self.state.is_hidden || self.state.edge == CompactDockEdge::NoEdge {
            return (self.state, None);
        }
        let keep = match self.expanded_pos {
            Some(p) => p,
            None => current,
        };
        let target = match self.state.edge {
            CompactDockEdge::Top => Point { x: keep.x, y: b.top },
            CompactDockEdge::Right => Point { x: wrap(b.right as i64 - size.width as i64), y: keep.y },
            CompactDockEdge::Left => Point { x: b.left, y: keep.y },
            CompactDockEdge::NoEdge => current,
        };
        self.expanded_pos = Some(target);
        self.state = CompactDockState { is_hidden: false, ..self.state };
        (self.state, Some(target))
    }

    /// Locks or unlocks the window open.
    pub fn toggle_lock(&mut self) -> (r: CompactDockState)
        ensures
            *final(self) == lock_toggled(*old(self)),
            r == final(self).state,
    {
        self.state = CompactDockState { is_locked: !self.state.is_locked, ..self.state };
        self.state
    }

    /// Records whether the front end is busy.
    pub fn set_busy(&mut self, busy: bool)
        ensures
            *final(self) == (DockControl { busy, ..*old(self) }),
    {
        self.busy = busy;
    }

    /// Records whether the window is being animated.
    pub fn set_animating(&mut self, animating: bool)
        ensures
            *final(self) == (DockControl { animating, ..*old(self) }),
    {
        self.animating = animating;
    }
}

/// Whether moving from `start` to `target` in `steps` steps is animated:
/// more than one step, to another place.
pub fn animation_needed(start: Point, target: Point, steps: usize) -> (r: bool)
    ensures
        r == !(steps <= 1 || start == target),
{
    !(steps <= 1 || (start.x == target.x && start.y == target.y))
}


/// What one look at the cursor decides.
#[derive(Debug, Clone, Copy, PartialEq, Eq, Structural)]
pub enum MonitorAction {
    /// Nothing to do.
    Wait,
    /// Slide the window out.
    SlideOut,
    /// Slide the window in.
    SlideIn,
}

/// What the monitor sees at one look: the cursor, the window, the work area,
/// whether the left button is down, and the time in milliseconds.
#[derive(Debug, Clone, Copy, PartialEq, Eq, Structural)]
pub struct Sight {
    pub cursor: Point,
    pub win_pos: Point,
    pub win_size: Size,
    pub bounds: Bounds,
    pub left_button_down: bool,
    pub now_ms: u64,
}

/// Whether the cursor touches the strip a slid-in window leaves (6 pixels
/// of slack).
pub open spec fn in_strip(edge: CompactDockEdge, s: Sight) -> bool {
    let p = s.cursor;
    let w = s.win_pos;
    let b = s.bounds;
    match edge {
        CompactDockEdge::Top => p.x >= w.x && p.x <= w.x + s.win_size.width && p.y >= b.top && p.y <= b.top
            + VISIBLE_MARGIN_PX + 6,
        CompactDockEdge::Right => p.x >= b.right - VISIBLE_MARGIN_PX - 6 && p.x <= b.right && p.y >= w.y && p.y <= w.y
            + s.win_size.height,
        CompactDockEdge::Left => p.x >= b.left && p.x <= b.left + VISIBLE_MARGIN_PX + 6 && p.y >= w.y && p.y <= w.y
            + s.win_size.height,
        CompactDockEdge::NoEdge => false,
    }
}

/// Whether the cursor is over the open window, reaching to its edge (12
/// pixels of slack).
pub open spec fn over_window(edge: CompactDockEdge, s: Sight) -> bool {
    let p = s.cursor;
    let w = s.win_pos;
    let b = s.bounds;
    let ww = s.win_size.width;
    let wh = s.win_size.height;
    match edge {
        CompactDockEdge::Top => p.x >= w.x - 12 && p.x <= w.x + ww + 12 && p.y >= b.top && p.y <= w.y + wh
            + 12,
        CompactDockEdge::Right => p.x >= w.x - 12 && p.x <= b.right && p.y >= w.y - 12 && p.y <= w.y + wh
            + 12,
        CompactDockEdge::Left => p.x >= b.left && p.x <= w.x + ww + 12 && p.y >= w.y - 12 && p.y <= w.y
            + wh + 12,
        CompactDockEdge::NoEdge => true,
    }
}

/// One look of the cursor monitor, with `leave` the time the cursor left
/// the open window (if it has): gives the action and the new leave time.
/// A slid-in window slides out when the cursor touches its strip; an open
/// one slides in once the cursor has been off it for 400 ms, unless the
/// button is down, or the window is locked or busy.
pub open spec fn tick(c: DockControl, leave: Option<u64>, s: Sight) -> (MonitorAction, Option<u64>) {
    if !c.compact_mode || c.animating || c.state.edge == CompactDockEdge::NoEdge {
        (MonitorAction::Wait, None)
    } else if c.state.is_hidden {
        if in_strip(c.state.edge, s) {
            (MonitorAction::SlideOut, None)
        } else {
            (MonitorAction::Wait, leave)
        }
    } else if s.left_button_down || over_window(c.state.edge, s) || c.state.is_locked || c.busy {
        (MonitorAction::Wait, None)
    } else {
        match leave {
            None => (MonitorAction::Wait, Some(s.now_ms)),
            Some(t) => if s.now_ms >= t && s.now_ms - t >= 400 {
                (MonitorAction::SlideIn, None)
            } else {
                (MonitorAction::Wait, Some(t))
            },
        }
    }
}

impl DockControl {
    /// One look of the cursor monitor (see `tick`).
    pub fn monitor_tick(&self, leave: Option<u64>, s: Sight) -> (r: (MonitorAction, Option<u64>))
        ensures
            r == tick(*self, leave, s),
    {
        if !self.compact_mode || self.animating || self.state.edge == CompactDockEdge::NoEdge {
            return (MonitorAction::Wait, None);
        }
        let px = s.cursor.x as i64;
        let py = s.cursor.y as i64;
        let wx = s.win_pos.x as i64;
        let wy = s.win_pos.y as i64;
        let ww = s.win_size.width as i64;
        let wh = s.win_size.height as i64;
        let top = s.bounds.top as i64;
        let left = s.bounds.left as i64;
        let right = s.bounds.right as i64;
        if self.state.is_hidden {
            let margin = VISIBLE_MARGIN_PX as i64;
            let touch = match self.state.edge {
                CompactDockEdge::Top => px >= wx && px <= wx + ww && py >= top && py <= top + margin + 6,
                CompactDockEdge::Right => px >= right - margin - 6 && px <= right && py >= wy && py <= wy + wh,
                CompactDockEdge::Left => px >= left && px <= left + margin + 6 && py >= wy && py <= wy + wh,
                CompactDockEdge::NoEdge => false,
            };
            if touch {
                return (MonitorAction::SlideOut, None);
            }
            return (MonitorAction::Wait, leave);
        }
        let over = match self.state.edge {
            CompactDockEdge::Top => px >= wx - 12 && px <= wx + ww + 12 && py >= top && py <= wy + wh + 12,
            CompactDockEdge::Right => px >= wx - 12 && px <= right && py >= wy - 12 && py <= wy + wh + 12,
            CompactDockEdge::Left => px >= left && px <= wx + ww + 12 && py >= wy - 12 && py <= wy + wh + 12,
            CompactDockEdge::NoEdge => true,
        };
        if s.left_button_down || over || self.state.is_locked || self.busy {
            return (MonitorAction::Wait, None);
        }
        match leave {
            None => (MonitorAction::Wait, Some(s.now_ms)),
            Some(t) => if s.now_ms >= t && s.now_ms - t >= 400 {
                (MonitorAction::SlideIn, None)
            } else {
                (MonitorAction::Wait, Some(t))
            },
        }
    }
}

/// The size of the floating bar for a display mode, in logical pixels:
/// `"expanded"` 380 by 240, `"reminder"` 380 by 260, otherwise the 360 by
/// 76 capsule.
pub open spec fn hud_size(mode: Seq<char>) -> (u32, u32) {
    if mode == seq!['e', 'x', 'p', 'a', 'n', 'd', 'e', 'd'] {
        (380, 240)
    } else if mode == seq!['r', 'e', 'm', 'i', 'n', 'd', 'e', 'r'] {
        (380, 260)
    } else {
        (360, 76)
    }
}

/// The size of the floating bar for `mode` (see `hud_size`).
pub fn hud_size_for_mode(mode: &str) -> (r: (u32, u32))
    ensures
        r == hud_size(mode@),
{
    let expanded: [char; 8] = ['e', 'x', 'p', 'a', 'n', 'd', 'e', 'd'];
    let reminder: [char; 8] = ['r', 'e', 'm', 'i', 'n', 'd', 'e', 'r'];
    assert(expanded@ == seq!['e', 'x', 'p', 'a', 'n', 'd', 'e', 'd']);
    assert(reminder@ == seq!['r', 'e', 'm', 'i', 'n', 'd', 'e', 'r']);
    if crate::lits::str_is(mode, &expanded) {
        (380, 240)
    } else if crate::lits::str_is(mode, &reminder) {
        (380, 260)
    } else {
        (360, 76)
    }
}


/// Sliding the window in and then out again brings it back to where it
/// stood open at its edge, wherever it was slid in to, and leaves the
/// control as it was but for remembering that place.
pub proof fn lemma_slide_in_then_out(c: DockControl, p: Point, q: Point, size: Size, b: Bounds)
    requires
        can_slide_in(c.state),
        at_edge(c.state.edge, p, size, b),
    ensures
        after_slide_out(after_slide_in(c, p), q, size, b) == (DockControl { expanded_pos: Some(p), ..c }),
        can_slide_out(after_slide_in(c, p).state),
        shown_pos(c.state.edge, Some(p), q, size, b) == p,
{
}

/// Locking and then unlocking (or the reverse) leaves the control as it was.
pub proof fn lemma_lock_twice(c: DockControl)
    ensures
        lock_toggled(lock_toggled(c)) == c,
{
}

/// Leaving compact mode after entering it gives back the window remembered
/// on entry, with the window out of compact mode and not docked.
pub proof fn lemma_enter_then_exit(c: DockControl, w: (Point, Size), size: Size, b: Bounds)
    ensures
        after_exit(after_enter(c, Some(w), size, b)).saved_window == Some(w),
        !after_exit(after_enter(c, Some(w), size, b)).compact_mode,
        after_exit(after_enter(c, Some(w), size, b)).state == free_state(),
{
}

/// A window that is locked open, or busy, is never slid in by the monitor.
pub proof fn lemma_locked_stays_open(c: DockControl, leave: Option<u64>, s: Sight)
    requires
        c.state.is_locked || c.busy,
    ensures
        tick(c, leave, s).0 != MonitorAction::SlideIn,
{
}

} // verus!
