//! A fence on screen, and what the pointer does to it.

use crate::config::FenceCfg;
use crate::geometry::{clamped, Point, Rect};
use crate::scale::Scale;
use vstd::prelude::*;

verus! {

/// The side or corner by which a fence is resized.
#[derive(Clone, Copy, PartialEq, Eq, Structural, Debug)]
pub enum ResizeDir {
    N,
    S,
    E,
    W,
    NE,
    NW,
    SE,
    SW,
}

/// A fence on screen.
pub struct Fence {
    pub cfg: FenceCfg,
    /// The window's handle.
    pub hwnd: usize,
    /// The window has not been destroyed.
    pub valid: bool,
    /// The factor of the display that it is on.
    pub dpi: Scale,
    /// The DPI that its configured size is meant for.
    pub cfg_dpi: u32,
    /// It is being moved.
    pub moving: bool,
    /// Where in the window the pointer took hold of it.
    pub move_off: Point,
    /// It is being resized.
    pub resizing: Option<ResizeDir>,
    /// It has moved or changed size since the button went down.
    pub drag_moved: bool,
    /// The entry that the button went down on.
    pub drag_idx: Option<usize>,
    /// Where the button went down on it.
    pub drag_down: Point,
    /// The entry under the pointer.
    pub hover: Option<usize>,
    /// It shows because the pointer is over it.
    pub hover_visible: bool,
    /// The entry that is selected.
    pub selected: Option<usize>,
    /// How many entries it has.
    pub entries: usize,
    /// The part of a notch by which the wheel has turned.
    pub wheel_acc: i32,
    /// The page that it shows.
    pub page: usize,
}

impl Fence {
    /// A fence that has just come up: nothing has been done to it yet.
    pub open spec fn fresh(cfg: FenceCfg, hwnd: usize, dpi: Scale, cfg_dpi: u32) -> Fence {
        Fence {
            cfg,
            hwnd,
            valid: true,
            dpi,
            cfg_dpi,
            moving: false,
            move_off: Point { x: 0, y: 0 },
            resizing: None,
            drag_moved: false,
            drag_idx: None,
            drag_down: Point { x: 0, y: 0 },
            hover: None,
            hover_visible: false,
            selected: None,
            entries: 0,
            wheel_acc: 0,
            page: 0,
        }
    }

    /// A fence that has just come up.
    pub fn new(cfg: FenceCfg, hwnd: usize, dpi: Scale, cfg_dpi: u32) -> (r: Fence)
        ensures
            r == Fence::fresh(cfg, hwnd, dpi, cfg_dpi),
    {
        Fence {
            cfg,
            hwnd,
            valid: true,
            dpi,
            cfg_dpi,
            moving: false,
            move_off: Point { x: 0, y: 0 },
            resizing: None,
            drag_moved: false,
            drag_idx: None,
            drag_down: Point { x: 0, y: 0 },
            hover: None,
            hover_visible: false,
            selected: None,
            entries: 0,
            wheel_acc: 0,
            page: 0,
        }
    }

    /// The pointer has hold of the fence itself.
    pub open spec fn geometry_drag(self) -> bool {
        self.moving || self.resizing is Some
    }

    /// Something is going on that needs the pointer.
    pub open spec fn pointer_busy(self) -> bool {
        self.geometry_drag() || self.drag_idx is Some
    }

    /// The fence with nothing going on that needs the pointer.
    pub open spec fn at_rest(self) -> Fence {
        Fence {
            moving: false,
            resizing: None,
            drag_moved: false,
            drag_idx: None,
            hover: None,
            ..self
        }
    }

    /// What the wheel has turned is less than a notch.
    pub open spec fn wheel_settled(self) -> bool {
        -120 < self.wheel_acc < 120
    }
}

/// What calling off the pointer's business has changed.
#[derive(Clone, Copy, PartialEq, Eq, Structural, Debug)]
pub struct CancelledPointerInteraction {
    /// The fence is not where it was, or not the size it was.
    pub geometry_changed: bool,
    /// The fence does not look as it did.
    pub visual_changed: bool,
}

/// Calls off everything that depends on having the pointer.  The system can take
/// the pointer away without the button ever coming up; a fence that went on
/// being moved would jump with some later, unrelated movement.
pub fn reset_pointer_interaction(f: &mut Fence) -> (r: CancelledPointerInteraction)
    ensures
        *final(f) == old(f).at_rest(),
        r == (CancelledPointerInteraction {
            geometry_changed: old(f).geometry_drag() && old(f).drag_moved,
            visual_changed: old(f).drag_idx is Some || old(f).hover is Some,
        }),
        r.geometry_changed ==> old(f).drag_moved && (old(f).moving || old(f).resizing is Some),
        !r.geometry_changed ==> !old(f).drag_moved || !old(f).moving && old(f).resizing is None,
{
    let geometry_changed: bool = (f.moving || f.resizing.is_some()) && f.drag_moved;
    let visual_changed: bool = f.drag_idx.is_some() || f.hover.is_some();
    f.moving = false;
    f.resizing = None;
    f.drag_moved = false;
    f.drag_idx = None;
    f.hover = None;
    CancelledPointerInteraction { geometry_changed, visual_changed }
}

/// Calling off leaves nothing to call off, and leaves the fence where it is and
/// the size it is.
pub proof fn calling_off_is_final(f: Fence)
    ensures
        !f.at_rest().pointer_busy(),
        f.at_rest().at_rest() == f.at_rest(),
        f.at_rest().cfg == f.cfg,
{
}

/// The signed number in the low word.
pub open spec fn low_word(v: usize) -> int {
    signed_word(v as int % 0x1_0000)
}

/// The signed number in the high word.
pub open spec fn high_word(v: usize) -> int {
    signed_word(v as int / 0x1_0000 % 0x1_0000)
}

/// A word read as a signed number.
pub open spec fn signed_word(w: int) -> int {
    if w < 0x8000 {
        w
    } else {
        w - 0x1_0000
    }
}

/// The signed number in the low word.
pub fn low16(v: usize) -> (r: i32)
    ensures
        r == low_word(v),
        -0x8000 <= r < 0x8000,
{
    let w: i32 = (v % 0x1_0000) as i32;
    if w < 0x8000 {
        w
    } else {
        w - 0x1_0000
    }
}

/// The signed number in the high word.
pub fn high16(v: usize) -> (r: i32)
    ensures
        r == high_word(v),
        -0x8000 <= r < 0x8000,
{
    let w: i32 = (v / 0x1_0000 % 0x1_0000) as i32;
    if w < 0x8000 {
        w
    } else {
        w - 0x1_0000
    }
}

/// Whether a movement shows that the button came up unnoticed: something needs
/// the pointer, but the left button is not down.
pub fn pointer_lost(f: &Fence, keys: usize) -> (r: bool)
    ensures
        r == (f.pointer_busy() && keys & 1 == 0),
        keys % 2 == 1 ==> !r,
        keys % 2 == 0 ==> r == (f.moving || f.resizing is Some || f.drag_idx is Some),
{
    assert(keys & 1 == keys % 2) by (bit_vector);
    (f.moving || f.resizing.is_some() || f.drag_idx.is_some()) && keys & 1 == 0
}

/// A fence that hides comes up when the pointer gets over it; says whether it
/// has just done so.
pub fn come_up(f: &mut Fence, ghost_mode: bool) -> (r: bool)
    ensures
        r == (ghost_mode && !old(f).hover_visible),
        *final(f) == (Fence { hover_visible: old(f).hover_visible || ghost_mode, ..*old(f) }),
{
    if ghost_mode && !f.hover_visible {
        f.hover_visible = true;
        true
    } else {
        false
    }
}

/// What a movement of the pointer does.
#[derive(Clone, Copy, PartialEq, Eq, Structural, Debug)]
pub enum Drag {
    /// It moves the fence.
    Move,
    /// It resizes the fence.
    Resize(ResizeDir),
    /// It may start to drag an entry out.
    Entry,
    /// It passes over the entries.
    Hover,
}

/// What a movement of the pointer does.
pub open spec fn drag_of(f: Fence) -> Drag {
    if f.moving {
        Drag::Move
    } else {
        match f.resizing {
            Some(dir) => Drag::Resize(dir),
            None => if f.drag_idx is Some {
                Drag::Entry
            } else {
                Drag::Hover
            },
        }
    }
}

/// What a movement of the pointer does.
pub fn drag_kind(f: &Fence) -> (r: Drag)
    ensures
        r == drag_of(*f),
{
    if f.moving {
        Drag::Move
    } else {
        match f.resizing {
            Some(dir) => Drag::Resize(dir),
            None => if f.drag_idx.is_some() {
                Drag::Entry
            } else {
                Drag::Hover
            },
        }
    }
}

/// Where the pointer would put the corner of a fence that it moves.
pub fn move_target(f: &Fence, cursor: Point) -> (r: (i64, i64))
    ensures
        r.0 == cursor.x - f.move_off.x,
        r.1 == cursor.y - f.move_off.y,
{
    (cursor.x as i64 - f.move_off.x as i64, cursor.y as i64 - f.move_off.y as i64)
}

/// `v`, kept from `low` to where something of the size `size` still ends at
/// `high`, or at `low` if it does not fit.
pub open spec fn kept_inside(v: int, low: int, high: int, size: int) -> int {
    clamped(
        v,
        low,
        if high - size > low {
            high - size
        } else {
            low
        },
    )
}

fn keep_inside(v: i32, low: i32, high: i32, size: i32) -> (r: i32)
    ensures
        r == kept_inside(v as int, low as int, high as int, size as int),
{
    let room: i64 = high as i64 - size as i64;
    if v < low {
        low
    } else if room > low as i64 {
        if v as i64 > room {
            room as i32
        } else {
            v
        }
    } else {
        low
    }
}

/// Moves the fence: to `wanted`, where the grid has pulled the pointer's target,
/// but not out of the work area.
pub fn follow_move(f: &mut Fence, wanted: Point, work_area: Rect) -> (r: Point)
    ensures
        r.x == kept_inside(
            wanted.x as int,
            work_area.left as int,
            work_area.right as int,
            old(f).cfg.w as int,
        ),
        r.y == kept_inside(
            wanted.y as int,
            work_area.top as int,
            work_area.bottom as int,
            old(f).cfg.h as int,
        ),
        *final(f) == (Fence {
            cfg: FenceCfg { x: r.x, y: r.y, ..old(f).cfg },
            drag_moved: true,
            ..*old(f)
        }),
{
    let x: i32 = keep_inside(wanted.x, work_area.left, work_area.right, f.cfg.w);
    let y: i32 = keep_inside(wanted.y, work_area.top, work_area.bottom, f.cfg.h);
    f.cfg.x = x;
    f.cfg.y = y;
    f.drag_moved = true;
    Point { x, y }
}

/// A fence that is moved stays inside the work area if it fits into it.
pub proof fn moved_fence_stays_inside(v: int, low: int, high: int, size: int)
    requires
        low + size <= high,
    ensures
        low <= kept_inside(v, low, high, size),
        kept_inside(v, low, high, size) + size <= high,
        low <= v && v + size <= high ==> kept_inside(v, low, high, size) == v,
{
}

/// What it takes for the pointer to be busy: the fence is being moved or
/// resized, or the button went down on an entry.
pub proof fn what_needs_the_pointer(f: Fence)
    ensures
        f.pointer_busy() <==> f.moving || f.resizing is Some || f.drag_idx is Some,
        f.geometry_drag() <==> f.moving || f.resizing is Some,
        f.wheel_settled() <==> vstd::math::abs(f.wheel_acc as int) < 120,
{
}

/// Calling off ends moving, resizing and dragging, and nothing is under the
/// pointer any more; everything else about the fence stays.
pub proof fn calling_off_touches_nothing_else(f: Fence)
    ensures
        ({
            let r = f.at_rest();
            &&& !r.moving && r.resizing is None && !r.drag_moved && r.drag_idx is None && r.hover is None
            &&& r.cfg == f.cfg && r.hwnd == f.hwnd && r.valid == f.valid
            &&& r.dpi == f.dpi && r.cfg_dpi == f.cfg_dpi
            &&& r.move_off == f.move_off && r.drag_down == f.drag_down
            &&& r.hover_visible == f.hover_visible && r.selected == f.selected
            &&& r.entries == f.entries && r.wheel_acc == f.wheel_acc && r.page == f.page
        }),
{
}

/// A fence that has just come up is its window's and its configuration's; it
/// shows its first page, has no entries yet, and nothing is going on with it.
pub proof fn fresh_fence_is_idle(cfg: FenceCfg, hwnd: usize, dpi: Scale, cfg_dpi: u32)
    ensures
        ({
            let f = Fence::fresh(cfg, hwnd, dpi, cfg_dpi);
            &&& f.cfg == cfg && f.hwnd == hwnd && f.dpi == dpi && f.cfg_dpi == cfg_dpi
            &&& f.valid
            &&& !f.moving && f.resizing is None && f.drag_idx is None && !f.drag_moved
            &&& f.hover is None && f.selected is None && !f.hover_visible
            &&& f.entries == 0 && f.page == 0 && f.wheel_acc == 0
            &&& f.move_off == (Point { x: 0, y: 0 }) && f.drag_down == (Point { x: 0, y: 0 })
            &&& f.at_rest() == f
        }),
{
}

/// Two signed words that were packed into a number are read back from it,
/// whatever stands above them.
pub proof fn packed_words_are_read_back(v: usize, low: int, high: int, above: nat)
    requires
        -0x8000 <= low < 0x8000,
        -0x8000 <= high < 0x8000,
        v == above * 0x1_0000_0000 + (high % 0x1_0000) * 0x1_0000 + low % 0x1_0000,
    ensures
        low_word(v) == low,
        high_word(v) == high,
{
}

/// Moving comes before resizing, and both before what is done to the entries.
pub proof fn movement_does_one_thing(f: Fence)
    ensures
        drag_of(f) is Move <==> f.moving,
        drag_of(f) matches Drag::Resize(dir) ==> f.resizing == Some(dir),
        !f.moving && f.resizing is Some ==> drag_of(f) is Resize,
        drag_of(f) is Entry <==> !f.moving && f.resizing is None && f.drag_idx is Some,
        drag_of(f) is Hover <==> !f.pointer_busy(),
{
}

/// A fence that would stick out is moved just as far as it takes: to the end if
/// it sticks out there, to the beginning if it does there or does not fit at all.
pub proof fn moved_fence_is_held_at_the_border(v: int, low: int, high: int, size: int)
    ensures
        v <= low ==> kept_inside(v, low, high, size) == low,
        low + size >= high ==> kept_inside(v, low, high, size) == low,
        low + size <= high && v + size >= high ==> kept_inside(v, low, high, size) + size == high,
{
}

} // verus!
