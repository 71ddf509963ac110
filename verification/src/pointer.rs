//! What the mouse does to a fence: resizing it, dragging entries out of it,
//! selecting, turning its pages.

use crate::config::FenceCfg;
use crate::fence::{high16, high_word, Fence, ResizeDir};
use crate::geometry::{clamped, Point, Rect};
use vstd::prelude::*;

verus! {

/// A position and a size.
#[derive(Clone, Copy, PartialEq, Eq, Structural, Debug)]
pub struct Frame {
    pub x: i32,
    pub y: i32,
    pub w: i32,
    pub h: i32,
}

/// The right side is being dragged.
pub open spec fn drags_east(dir: ResizeDir) -> bool {
    dir == ResizeDir::E || dir == ResizeDir::NE || dir == ResizeDir::SE
}

/// The left side is being dragged.
pub open spec fn drags_west(dir: ResizeDir) -> bool {
    dir == ResizeDir::W || dir == ResizeDir::NW || dir == ResizeDir::SW
}

/// The lower side is being dragged.
pub open spec fn drags_south(dir: ResizeDir) -> bool {
    dir == ResizeDir::S || dir == ResizeDir::SE || dir == ResizeDir::SW
}

/// The upper side is being dragged.
pub open spec fn drags_north(dir: ResizeDir) -> bool {
    dir == ResizeDir::N || dir == ResizeDir::NE || dir == ResizeDir::NW
}

/// From where to where something reaches along one axis, of which one end is
/// dragged to `at` while the other stays, and which stays at least `least` long.
pub open spec fn stretched(
    from: int,
    to: int,
    at: int,
    least: int,
    drag_to: bool,
    drag_from: bool,
) -> (int, int) {
    if drag_to {
        (
            from,
            if at - from > least {
                at
            } else {
                from + least
            },
        )
    } else if drag_from {
        (
            if at < to - least {
                at
            } else {
                to - least
            },
            to,
        )
    } else {
        (from, to)
    }
}

/// Both ends and what lies between them can be held in an `i32`.
pub open spec fn representable(ends: (int, int)) -> bool {
    &&& i32::MIN <= ends.0 <= i32::MAX
    &&& i32::MIN <= ends.1 - ends.0 <= i32::MAX
}

/// What `stretched` gives from left to right when `dir` of a window is dragged.
pub open spec fn columns(window: Rect, cursor: Point, dir: ResizeDir, min_w: int) -> (int, int) {
    stretched(
        window.left as int,
        window.right as int,
        cursor.x as int,
        min_w,
        drags_east(dir),
        drags_west(dir),
    )
}

/// What `stretched` gives from top to bottom when `dir` of a window is dragged.
pub open spec fn rows(window: Rect, cursor: Point, dir: ResizeDir, min_h: int) -> (int, int) {
    stretched(
        window.top as int,
        window.bottom as int,
        cursor.y as int,
        min_h,
        drags_south(dir),
        drags_north(dir),
    )
}

fn stretch(from: i32, to: i32, at: i32, least: i32, drag_to: bool, drag_from: bool) -> (r: (
    i32,
    i32,
))
    requires
        representable(
            stretched(from as int, to as int, at as int, least as int, drag_to, drag_from),
        ),
    ensures
        ({
            let ends = stretched(
                from as int,
                to as int,
                at as int,
                least as int,
                drag_to,
                drag_from,
            );
            r.0 == ends.0 && r.1 == ends.1 - ends.0
        }),
{
    let from: i64 = from as i64;
    let to: i64 = to as i64;
    let at: i64 = at as i64;
    let least: i64 = least as i64;
    if drag_to {
        if at - from > least {
            (from as i32, (at - from) as i32)
        } else {
            (from as i32, least as i32)
        }
    } else if drag_from {
        if at < to - least {
            (at as i32, (to - at) as i32)
        } else {
            ((to - least) as i32, least as i32)
        }
    } else {
        (from as i32, (to - from) as i32)
    }
}

fn fits(from: i32, to: i32, at: i32, least: i32, drag_to: bool, drag_from: bool) -> (r: bool)
    ensures
        r == representable(
            stretched(from as int, to as int, at as int, least as int, drag_to, drag_from),
        ),
{
    let low: i64 = i32::MIN as i64;
    let high: i64 = i32::MAX as i64;
    let (begin, end): (i64, i64) = if drag_to {
        if at as i64 - from as i64 > least as i64 {
            (from as i64, at as i64)
        } else {
            (from as i64, from as i64 + least as i64)
        }
    } else if drag_from {
        if (at as i64) < to as i64 - least as i64 {
            (at as i64, to as i64)
        } else {
            (to as i64 - least as i64, to as i64)
        }
    } else {
        (from as i64, to as i64)
    };
    low <= begin && begin <= high && low <= end - begin && end - begin <= high
}

/// Which sides are dragged: the right, the left, the lower, the upper one.
fn dragged_sides(dir: ResizeDir) -> (r: (bool, bool, bool, bool))
    ensures
        r == (drags_east(dir), drags_west(dir), drags_south(dir), drags_north(dir)),
{
    match dir {
        ResizeDir::N => (false, false, false, true),
        ResizeDir::S => (false, false, true, false),
        ResizeDir::E => (true, false, false, false),
        ResizeDir::W => (false, true, false, false),
        ResizeDir::NE => (true, false, false, true),
        ResizeDir::NW => (false, true, false, true),
        ResizeDir::SE => (true, false, true, false),
        ResizeDir::SW => (false, true, true, false),
    }
}

/// A window as the pointer resizes it: the side or corner that it has hold of
/// follows it, as far as the least size lets it, and the opposite one stays.
pub fn resized(window: Rect, cursor: Point, dir: ResizeDir, min_w: i32, min_h: i32) -> (r: Frame)
    requires
        representable(columns(window, cursor, dir, min_w as int)),
        representable(rows(window, cursor, dir, min_h as int)),
    ensures
        r.x == columns(window, cursor, dir, min_w as int).0,
        r.x + r.w == columns(window, cursor, dir, min_w as int).1,
        r.y == rows(window, cursor, dir, min_h as int).0,
        r.y + r.h == rows(window, cursor, dir, min_h as int).1,
        dir == ResizeDir::E && cursor.x - window.left >= min_w ==> r.x + r.w == cursor.x,
        dir == ResizeDir::W && window.right - cursor.x >= min_w ==> r.x == cursor.x,
        dir == ResizeDir::S && cursor.y - window.top >= min_h ==> r.y + r.h == cursor.y,
        dir == ResizeDir::N && window.bottom - cursor.y >= min_h ==> r.y == cursor.y,
{
    let (east, west, south, north) = dragged_sides(dir);
    let (x, w) = stretch(window.left, window.right, cursor.x, min_w, east, west);
    let (y, h) = stretch(window.top, window.bottom, cursor.y, min_h, south, north);
    Frame { x, y, w, h }
}

/// A window as the pointer resizes it, if its place and size can be held.
pub fn resized_if_it_fits(window: Rect, cursor: Point, dir: ResizeDir, min_w: i32, min_h: i32) -> (r:
    Option<Frame>)
    ensures
        r is Some <==> representable(columns(window, cursor, dir, min_w as int)) && representable(
            rows(window, cursor, dir, min_h as int),
        ),
        r matches Some(f) ==> {
            &&& f.x == columns(window, cursor, dir, min_w as int).0
            &&& f.x + f.w == columns(window, cursor, dir, min_w as int).1
            &&& f.y == rows(window, cursor, dir, min_h as int).0
            &&& f.y + f.h == rows(window, cursor, dir, min_h as int).1
        },
{
    let (east, west, south, north) = dragged_sides(dir);
    if fits(window.left, window.right, cursor.x, min_w, east, west) && fits(
        window.top,
        window.bottom,
        cursor.y,
        min_h,
        south,
        north,
    ) {
        Some(resized(window, cursor, dir, min_w, min_h))
    } else {
        None
    }
}

/// The side that is not dragged stays where it is; where a side is dragged,
/// nothing gets smaller than the least size.
pub proof fn opposite_side_stays(window: Rect, cursor: Point, dir: ResizeDir, min_w: int, min_h: int)
    ensures
        !drags_west(dir) ==> columns(window, cursor, dir, min_w).0 == window.left,
        !drags_east(dir) ==> columns(window, cursor, dir, min_w).1 == window.right,
        !drags_north(dir) ==> rows(window, cursor, dir, min_h).0 == window.top,
        !drags_south(dir) ==> rows(window, cursor, dir, min_h).1 == window.bottom,
        drags_east(dir) || drags_west(dir) ==> columns(window, cursor, dir, min_w).1 - columns(
            window,
            cursor,
            dir,
            min_w,
        ).0 >= min_w,
        drags_south(dir) || drags_north(dir) ==> rows(window, cursor, dir, min_h).1 - rows(
            window,
            cursor,
            dir,
            min_h,
        ).0 >= min_h,
{
}

/// `size`, but no more than reaches from `at` to `end`, unless that is less than
/// the least size.
pub open spec fn kept_short(size: int, at: int, end: int, least: int) -> int {
    let room = if end - at > least {
        end - at
    } else {
        least
    };
    if size < room {
        size
    } else {
        room
    }
}

fn keep_short(size: i32, at: i32, end: i32, least: i32) -> (r: i32)
    ensures
        r == kept_short(size as int, at as int, end as int, least as int),
{
    let space: i64 = end as i64 - at as i64;
    let room: i64 = if space > least as i64 {
        space
    } else {
        least as i64
    };
    if (size as i64) < room {
        size
    } else {
        room as i32
    }
}

/// Resizes the fence: to `wanted`, whose size the grid has pulled, but not out
/// of the work area.
pub fn follow_resize(f: &mut Fence, wanted: Frame, work_area: Rect, min_w: i32, min_h: i32) -> (r:
    Frame)
    ensures
        r == (Frame {
            w: kept_short(
                wanted.w as int,
                wanted.x as int,
                work_area.right as int,
                min_w as int,
            ) as i32,
            h: kept_short(
                wanted.h as int,
                wanted.y as int,
                work_area.bottom as int,
                min_h as int,
            ) as i32,
            ..wanted
        }),
        *final(f) == (Fence {
            cfg: FenceCfg { x: r.x, y: r.y, w: r.w, h: r.h, ..old(f).cfg },
            drag_moved: true,
            ..*old(f)
        }),
{
    let w: i32 = keep_short(wanted.w, wanted.x, work_area.right, min_w);
    let h: i32 = keep_short(wanted.h, wanted.y, work_area.bottom, min_h);
    f.cfg.x = wanted.x;
    f.cfg.y = wanted.y;
    f.cfg.w = w;
    f.cfg.h = h;
    f.drag_moved = true;
    Frame { x: wanted.x, y: wanted.y, w, h }
}

/// How far the pointer has to go before a press becomes a drag: the larger of
/// the system's two distances, and at least 4.
pub fn drag_threshold(cx_drag: i32, cy_drag: i32) -> (r: i32)
    ensures
        r >= 4 && r >= cx_drag && r >= cy_drag,
        r == 4 || r == cx_drag || r == cy_drag,
{
    let t: i32 = if cx_drag > cy_drag {
        cx_drag
    } else {
        cy_drag
    };
    if t > 4 {
        t
    } else {
        4
    }
}

/// The pointer at `p` is at least `t` away from where the button went down, to
/// the side or up or down.
pub open spec fn dragged_far(f: Fence, p: Point, t: int) -> bool {
    ||| p.x - f.drag_down.x >= t
    ||| f.drag_down.x - p.x >= t
    ||| p.y - f.drag_down.y >= t
    ||| f.drag_down.y - p.y >= t
}

/// What comes of moving the pointer with the button down on an entry.
#[derive(Clone, Copy, PartialEq, Eq, Structural, Debug)]
pub enum EntryDrag {
    /// It has not gone far enough.
    Waiting,
    /// It is over, without an entry to drag.
    Nothing,
    /// This entry is dragged out.
    Start(usize),
}

/// Moves the pointer with the button down on an entry: once it has gone far
/// enough, the entry is dragged out, if it is still there.
pub fn drag_entry(f: &mut Fence, p: Point, t: i32) -> (r: EntryDrag)
    ensures
        !dragged_far(*old(f), p, t as int) ==> r == EntryDrag::Waiting && *final(f) == *old(f),
        dragged_far(*old(f), p, t as int) ==> {
            &&& *final(f) == (Fence { drag_idx: None, hover: None, ..*old(f) })
            &&& r == match old(f).drag_idx {
                Some(i) if i < old(f).entries => EntryDrag::Start(i),
                _ => EntryDrag::Nothing,
            }
        },
        r == EntryDrag::Waiting <==> {
            &&& -t < p.x - old(f).drag_down.x < t
            &&& -t < p.y - old(f).drag_down.y < t
        },
{
    let dx: i64 = p.x as i64 - f.drag_down.x as i64;
    let dy: i64 = p.y as i64 - f.drag_down.y as i64;
    let t: i64 = t as i64;
    if dx >= t || -dx >= t || dy >= t || -dy >= t {
        let pressed: Option<usize> = f.drag_idx;
        f.drag_idx = None;
        f.hover = None;
        match pressed {
            Some(i) => if i < f.entries {
                EntryDrag::Start(i)
            } else {
                EntryDrag::Nothing
            },
            None => EntryDrag::Nothing,
        }
    } else {
        EntryDrag::Waiting
    }
}

/// Notes the entry under the pointer; says whether it is another one.
pub fn hover_over(f: &mut Fence, hit: Option<usize>) -> (r: bool)
    ensures
        r == (hit != old(f).hover),
        *final(f) == (Fence { hover: hit, ..*old(f) }),
{
    let same: bool = match (f.hover, hit) {
        (Some(a), Some(b)) => a == b,
        (None, None) => true,
        _ => false,
    };
    f.hover = hit;
    !same
}

/// What a movement of the pointer came to.
#[derive(Clone, Copy, PartialEq, Eq, Structural, Debug)]
pub enum Moved {
    /// The fence moved.
    Fence,
    /// The fence changed its size.
    Size,
    /// An entry was being dragged.
    Entry(EntryDrag),
    /// The pointer passed over the entries; the one under it may be another now.
    Over { another: bool },
}

/// Whether a fence is drawn anew after a movement of the pointer; `came_up` says
/// whether it has just come up.  A fence that is moved looks the same.
pub open spec fn redrawn(came_up: bool, moved: Moved) -> bool {
    came_up || match moved {
        Moved::Fence => false,
        Moved::Size => true,
        Moved::Entry(e) => e != EntryDrag::Waiting,
        Moved::Over { another } => another,
    }
}

/// Whether a fence is drawn anew after a movement of the pointer.
pub fn redraws(came_up: bool, moved: Moved) -> (r: bool)
    ensures
        r == redrawn(came_up, moved),
{
    came_up || match moved {
        Moved::Fence => false,
        Moved::Size => true,
        Moved::Entry(e) => e != EntryDrag::Waiting,
        Moved::Over { another } => another,
    }
}

/// What the button has gone down on.
#[derive(Clone, Copy, PartialEq, Eq, Structural, Debug)]
pub enum Press {
    /// The title: the fence is being moved.
    Title,
    /// The border: the fence is being resized.
    Border(ResizeDir),
    /// An entry, which is now selected.
    Entry(usize),
    /// Nothing, and what was selected is no longer.
    Cleared,
    /// Nothing.
    Nothing,
}

/// What the button goes down on: the title above all, then the border, then an entry.
pub open spec fn press_of(
    f: Fence,
    p: Point,
    title_h: int,
    border: Option<ResizeDir>,
    hit: Option<usize>,
) -> Press {
    if p.y < title_h {
        Press::Title
    } else {
        match (border, hit) {
            (Some(dir), _) => Press::Border(dir),
            (None, Some(i)) => Press::Entry(i),
            (None, None) => if f.selected is Some {
                Press::Cleared
            } else {
                Press::Nothing
            },
        }
    }
}

/// The fence after the left button has gone down at `p` on `what`, the pointer
/// being `grip` away from the window's corner.
pub open spec fn pressed(f: Fence, what: Press, p: Point, grip: Point) -> Fence {
    match what {
        Press::Title => Fence { drag_moved: false, moving: true, move_off: grip, ..f },
        Press::Border(dir) => Fence { drag_moved: false, resizing: Some(dir), ..f },
        Press::Entry(i) => Fence {
            drag_moved: false,
            selected: Some(i),
            drag_idx: Some(i),
            drag_down: p,
            ..f
        },
        Press::Cleared => Fence { drag_moved: false, selected: None, ..f },
        Press::Nothing => Fence { drag_moved: false, ..f },
    }
}

/// The left button goes down at `p`, the pointer being at `cursor` on screen and
/// the window's corner at `corner`; `border` and `hit` say what is there besides
/// the title.
pub fn button_down(
    f: &mut Fence,
    p: Point,
    title_h: i32,
    border: Option<ResizeDir>,
    hit: Option<usize>,
    cursor: Point,
    corner: Point,
) -> (r: Press)
    requires
        p.y < title_h ==> {
            &&& i32::MIN <= cursor.x - corner.x <= i32::MAX
            &&& i32::MIN <= cursor.y - corner.y <= i32::MAX
        },
    ensures
        r == press_of(*old(f), p, title_h as int, border, hit),
        *final(f) == pressed(
            *old(f),
            r,
            p,
            Point { x: (cursor.x - corner.x) as i32, y: (cursor.y - corner.y) as i32 },
        ),
{
    f.drag_moved = false;
    if p.y < title_h {
        f.moving = true;
        f.move_off = Point { x: cursor.x - corner.x, y: cursor.y - corner.y };
        return Press::Title;
    }
    match border {
        Some(dir) => {
            f.resizing = Some(dir);
            Press::Border(dir)
        },
        None => match hit {
            Some(i) => {
                f.selected = Some(i);
                f.drag_idx = Some(i);
                f.drag_down = p;
                Press::Entry(i)
            },
            None => if f.selected.is_some() {
                f.selected = None;
                Press::Cleared
            } else {
                Press::Nothing
            },
        },
    }
}

/// What is due when the button has come up.
#[derive(Clone, Copy, PartialEq, Eq, Structural, Debug)]
pub struct Release {
    /// Let go of the pointer.
    pub let_go: bool,
    /// Put the fence in order: onto the grid, off the others, and saved.
    pub settle: bool,
}

/// What is due when the button comes up over a fence.
pub open spec fn release_of(f: Fence) -> Release {
    Release {
        let_go: f.geometry_drag() && f.drag_moved || f.drag_idx is Some,
        settle: f.geometry_drag() && f.drag_moved,
    }
}

/// The fence after the button has come up.
pub open spec fn released(f: Fence) -> Fence {
    Fence { moving: false, resizing: None, drag_moved: false, drag_idx: None, ..f }
}

/// A click that does not move the fence does not put it in order, wherever it
/// is; one that moves it by its title does.  Afterwards nothing is going on.
pub proof fn click_does_not_settle(
    f: Fence,
    p: Point,
    title_h: int,
    border: Option<ResizeDir>,
    hit: Option<usize>,
    grip: Point,
)
    requires
        !f.pointer_busy(),
    ensures
        ({
            let down = pressed(f, press_of(f, p, title_h, border, hit), p, grip);
            &&& !release_of(down).settle
            &&& released(down).cfg == f.cfg
            &&& !released(down).pointer_busy()
            &&& p.y < title_h ==> release_of(Fence { drag_moved: true, ..down }).settle
        }),
{
}

/// The left button comes up.  Only a fence that was really moved or resized is
/// put in order: a click on its title must not make it jump.
pub fn button_up(f: &mut Fence) -> (r: Release)
    ensures
        r == release_of(*old(f)),
        *final(f) == released(*old(f)),
{
    let settle: bool = (f.moving || f.resizing.is_some()) && f.drag_moved;
    let pressed: bool = f.drag_idx.is_some();
    f.moving = false;
    f.resizing = None;
    f.drag_moved = false;
    f.drag_idx = None;
    Release { let_go: settle || pressed, settle }
}

/// What a double click does.
#[derive(Clone, Copy, PartialEq, Eq, Structural, Debug)]
pub enum DoubleClick {
    /// Rename the fence.
    Rename,
    /// Open the entry.
    Open(usize),
    /// Nothing.
    Nothing,
}

/// A double click: on the title it renames the fence, on an entry it opens it.
pub fn double_click(f: &Fence, y: i32, title_h: i32, hit: Option<usize>) -> (r: DoubleClick)
    ensures
        r == if y < title_h {
            DoubleClick::Rename
        } else {
            match hit {
                Some(i) if i < f.entries => DoubleClick::Open(i),
                _ => DoubleClick::Nothing,
            }
        },
        r == DoubleClick::Rename <==> y < title_h,
        r matches DoubleClick::Open(i) ==> hit == Some(i) && i < f.entries,
        r == DoubleClick::Nothing ==> hit is None || hit->0 >= f.entries,
{
    if y < title_h {
        return DoubleClick::Rename;
    }
    match hit {
        Some(i) => if i < f.entries {
            DoubleClick::Open(i)
        } else {
            DoubleClick::Nothing
        },
        None => DoubleClick::Nothing,
    }
}

/// The right button comes up: an entry below the title gets selected, and its
/// menu comes up if it is still there.  Otherwise it is the fence's own menu.
pub fn right_click(f: &mut Fence, y: i32, title_h: i32, hit: Option<usize>) -> (r: Option<usize>)
    ensures
        r == match hit {
            Some(i) if y >= title_h && i < old(f).entries => Some(i),
            _ => None,
        },
        *final(f) == if y >= title_h && hit is Some {
            (Fence { selected: hit, ..*old(f) })
        } else {
            *old(f)
        },
{
    if y < title_h {
        return None;
    }
    match hit {
        Some(i) => {
            f.selected = Some(i);
            if i < f.entries {
                Some(i)
            } else {
                None
            }
        },
        None => None,
    }
}

/// The entry that the delete key is for: the selected one, if it is still there.
pub fn delete_target(f: &Fence) -> (r: Option<usize>)
    ensures
        r == match f.selected {
            Some(i) if i < f.entries => Some(i),
            _ => None,
        },
        r is Some ==> r == f.selected && r->0 < f.entries,
        r is None ==> f.selected is None || f.selected->0 >= f.entries,
{
    match f.selected {
        Some(i) => if i < f.entries {
            Some(i)
        } else {
            None
        },
        None => None,
    }
}

/// The selected entry has been deleted: nothing is selected any more.
pub fn deselect(f: &mut Fence)
    ensures
        *final(f) == (Fence { selected: None, ..*old(f) }),
{
    f.selected = None;
}

/// The pointer has left: nothing is under it, and a fence that hides goes away.
pub fn pointer_left(f: &mut Fence)
    ensures
        *final(f) == (Fence { hover_visible: false, hover: None, ..*old(f) }),
{
    f.hover_visible = false;
    f.hover = None;
}

/// One notch of the wheel.
pub const NOTCH: i32 = 120;

/// How many whole notches there are in `a`, towards zero.
pub open spec fn notches(a: int) -> int {
    if a >= 0 {
        a / NOTCH as int
    } else {
        -((-a) / NOTCH as int)
    }
}

/// What turning the wheel has come to.
#[derive(Clone, Copy, PartialEq, Eq, Structural, Debug)]
pub enum Wheel {
    /// Not a whole notch yet.
    Partial,
    /// A whole notch or more, but the page is the same.
    SamePage,
    /// Another page.
    Turned,
}

/// The page that `steps` notches lead to from `page`: up the wheel is back.
pub open spec fn page_after(page: nat, steps: int, pages: nat) -> int {
    clamped(page - steps, 0, pages - 1)
}

/// What is kept after the wheel, of which `acc` was kept, is turned by `turn`, and
/// how many whole notches that makes.
pub open spec fn wheel_turned(acc: int, turn: int) -> (int, int) {
    let steps = notches(acc + turn);
    (acc + turn - steps * NOTCH, steps)
}

/// Turns the wheel; `wparam` says by how much.  What does not make a whole notch
/// is kept for the next time, so that small steps add up.
pub fn turn_wheel(f: &mut Fence, wparam: usize, pages: usize) -> (r: Wheel)
    requires
        old(f).wheel_settled(),
        wheel_turned(old(f).wheel_acc as int, high_word(wparam)).1 != 0 ==> 1 <= pages <= i32::MAX
            && old(f).page <= i32::MAX,
    ensures
        ({
            let (kept, steps) = wheel_turned(old(f).wheel_acc as int, high_word(wparam));
            &&& final(f).wheel_settled()
            &&& *final(f) == (Fence {
                wheel_acc: kept as i32,
                page: if steps == 0 {
                    old(f).page
                } else {
                    page_after(old(f).page as nat, steps, pages as nat) as usize
                },
                ..*old(f)
            })
            &&& r == if steps == 0 {
                Wheel::Partial
            } else if final(f).page == old(f).page {
                Wheel::SamePage
            } else {
                Wheel::Turned
            }
        }),
{
    let turned: i32 = f.wheel_acc + high16(wparam);
    let steps: i32 = if turned >= 0 {
        turned / NOTCH
    } else {
        -((-turned) / NOTCH)
    };
    if steps == 0 {
        f.wheel_acc = turned;
        return Wheel::Partial;
    }
    f.wheel_acc = turned - steps * NOTCH;
    let aim: i64 = f.page as i64 - steps as i64;
    let page: usize = if aim < 0 {
        0
    } else if aim > pages as i64 - 1 {
        pages - 1
    } else {
        aim as usize
    };
    if page != f.page {
        f.page = page;
        Wheel::Turned
    } else {
        Wheel::SamePage
    }
}

/// How far the wheel has been turned by a series of steps, and how many notches
/// that was.
pub open spec fn wheel_series(acc: int, turns: Seq<int>) -> (int, int)
    decreases turns.len(),
{
    if turns.len() == 0 {
        (acc, 0)
    } else {
        let (a, n) = wheel_series(acc, turns.drop_last());
        let (kept, steps) = wheel_turned(a, turns.last());
        (kept, n + steps)
    }
}

/// The sum of a series of numbers.
pub open spec fn total(turns: Seq<int>) -> int
    decreases turns.len(),
{
    if turns.len() == 0 {
        0
    } else {
        total(turns.drop_last()) + turns.last()
    }
}

/// A series is turned step by step: one step more keeps what turning the wheel
/// once keeps of what the series before it kept, and makes as many notches more.
pub proof fn series_goes_step_by_step(acc: int, turns: Seq<int>, turn: int)
    ensures
        wheel_series(acc, turns.push(turn)).0 == wheel_turned(
            wheel_series(acc, turns).0,
            turn,
        ).0,
        wheel_series(acc, turns.push(turn)).1 == wheel_series(acc, turns).1 + wheel_turned(
            wheel_series(acc, turns).0,
            turn,
        ).1,
{
    assert(turns.push(turn).drop_last() == turns);
}

/// However small the steps of the wheel are, none is lost: the notches and what
/// is kept make up all that it was turned, and what is kept is less than a notch.
pub proof fn wheel_loses_nothing(acc: int, turns: Seq<int>)
    requires
        -NOTCH < acc < NOTCH,
    ensures
        wheel_series(acc, turns).0 + wheel_series(acc, turns).1 * NOTCH == acc + total(turns),
        -NOTCH < wheel_series(acc, turns).0 < NOTCH,
    decreases turns.len(),
{
    if turns.len() > 0 {
        wheel_loses_nothing(acc, turns.drop_last());
    }
}

/// The page after what a fence shows has changed: the same, or the last one if
/// there are not so many any more.
pub fn keep_page(page: usize, pages: usize) -> (r: usize)
    ensures
        r == if pages == 0 {
            0
        } else if page < pages {
            page as int
        } else {
            pages - 1
        },
        page < pages ==> r == page,
        pages <= page && pages > 0 ==> r + 1 == pages,
{
    if pages == 0 {
        0
    } else if page < pages {
        page
    } else {
        pages - 1
    }
}

/// The shape of the pointer.
#[derive(Clone, Copy, PartialEq, Eq, Structural, Debug)]
pub enum PointerShape {
    Arrow,
    MoveAll,
    NorthSouth,
    EastWest,
    NorthwestSoutheast,
    NortheastSouthwest,
}

/// The shape of the pointer over a fence: on the title it can be moved, on the
/// border resized.
pub fn pointer_shape(y: i32, title_h: i32, border: Option<ResizeDir>) -> (r: PointerShape)
    ensures
        r == if y < title_h {
            PointerShape::MoveAll
        } else {
            match border {
                None => PointerShape::Arrow,
                Some(dir) => match dir {
                    ResizeDir::N | ResizeDir::S => PointerShape::NorthSouth,
                    ResizeDir::E | ResizeDir::W => PointerShape::EastWest,
                    ResizeDir::NW | ResizeDir::SE => PointerShape::NorthwestSoutheast,
                    ResizeDir::NE | ResizeDir::SW => PointerShape::NortheastSouthwest,
                },
            }
        },
{
    if y < title_h {
        return PointerShape::MoveAll;
    }
    match border {
        None => PointerShape::Arrow,
        Some(dir) => match dir {
            ResizeDir::N | ResizeDir::S => PointerShape::NorthSouth,
            ResizeDir::E | ResizeDir::W => PointerShape::EastWest,
            ResizeDir::NW | ResizeDir::SE => PointerShape::NorthwestSoutheast,
            ResizeDir::NE | ResizeDir::SW => PointerShape::NortheastSouthwest,
        },
    }
}

/// The dragged side follows the pointer: it lies at the pointer where that
/// leaves at least the least size to the opposite side, and otherwise the size is
/// the least one.  A corner is the two sides that meet in it; what no side of the
/// dragged ones bounds keeps both its ends.
pub proof fn dragged_side_follows_the_pointer(
    window: Rect,
    cursor: Point,
    dir: ResizeDir,
    min_w: int,
    min_h: int,
)
    ensures
        ({
            let (left, right) = columns(window, cursor, dir, min_w);
            let (top, bottom) = rows(window, cursor, dir, min_h);
            &&& dir == ResizeDir::E || dir == ResizeDir::NE || dir == ResizeDir::SE ==> {
                &&& left == window.left
                &&& cursor.x - window.left >= min_w ==> right == cursor.x
                &&& cursor.x - window.left < min_w ==> right - left == min_w
            }
            &&& dir == ResizeDir::W || dir == ResizeDir::NW || dir == ResizeDir::SW ==> {
                &&& right == window.right
                &&& window.right - cursor.x >= min_w ==> left == cursor.x
                &&& window.right - cursor.x < min_w ==> right - left == min_w
            }
            &&& dir == ResizeDir::N || dir == ResizeDir::S ==> left == window.left && right
                == window.right
            &&& dir == ResizeDir::S || dir == ResizeDir::SE || dir == ResizeDir::SW ==> {
                &&& top == window.top
                &&& cursor.y - window.top >= min_h ==> bottom == cursor.y
                &&& cursor.y - window.top < min_h ==> bottom - top == min_h
            }
            &&& dir == ResizeDir::N || dir == ResizeDir::NE || dir == ResizeDir::NW ==> {
                &&& bottom == window.bottom
                &&& window.bottom - cursor.y >= min_h ==> top == cursor.y
                &&& window.bottom - cursor.y < min_h ==> bottom - top == min_h
            }
            &&& dir == ResizeDir::E || dir == ResizeDir::W ==> top == window.top && bottom
                == window.bottom
        }),
{
}

/// What is dragged by one side follows the pointer step for step: where the
/// pointer goes `by` further and there is room before and after, so does the side.
pub proof fn side_keeps_step_with_the_pointer(
    from: int,
    to: int,
    at: int,
    by: int,
    least: int,
)
    ensures
        at - from >= least && at + by - from >= least ==> stretched(
            from,
            to,
            at + by,
            least,
            true,
            false,
        ).1 == stretched(from, to, at, least, true, false).1 + by,
        to - at >= least && to - at - by >= least ==> stretched(
            from,
            to,
            at + by,
            least,
            false,
            true,
        ).0 == stretched(from, to, at, least, false, true).0 + by,
        stretched(from, to, at, least, false, false) == (from, to),
{
}

/// Whether a window can be held depends on nothing but its place and its size:
/// it can if and only if there is a position and a size of 32 bits for it.
pub proof fn held_where_numbers_reach(begin: int, end: int)
    ensures
        representable((begin, end)) <==> exists|x: i32, w: i32|
            x == begin && #[trigger] (x + w) == end,
{
    if representable((begin, end)) {
        let x = begin as i32;
        let w = (end - begin) as i32;
        assert(x == begin && x + w == end);
    }
}

/// A window and a pointer within half of what 32 bits reach can always be
/// resized, down to a least size within the same bounds.
pub proof fn ordinary_window_can_be_resized(
    window: Rect,
    cursor: Point,
    dir: ResizeDir,
    min_w: int,
    min_h: int,
)
    requires
        -0x2000_0000 <= window.left <= window.right <= 0x2000_0000,
        -0x2000_0000 <= window.top <= window.bottom <= 0x2000_0000,
        -0x2000_0000 <= cursor.x <= 0x2000_0000,
        -0x2000_0000 <= cursor.y <= 0x2000_0000,
        0 <= min_w <= 0x2000_0000,
        0 <= min_h <= 0x2000_0000,
    ensures
        representable(columns(window, cursor, dir, min_w)),
        representable(rows(window, cursor, dir, min_h)),
{
}

/// A size that is kept short is the wanted one as long as it ends before `end`
/// or is no more than the least one; otherwise it ends at `end`, unless that
/// would make it less than the least one.
pub proof fn size_is_cut_at_the_end(size: int, at: int, end: int, least: int)
    ensures
        at + size <= end || size <= least ==> kept_short(size, at, end, least) == size,
        at + size > end && size > least && end - at >= least ==> at + kept_short(
            size,
            at,
            end,
            least,
        ) == end,
        at + size > end && size > least && end - at < least ==> kept_short(size, at, end, least)
            == least,
{
}

/// The drag starts in every direction alike: whenever the pointer has gone at
/// least `t` to the left, to the right, up or down, and never before.
pub proof fn drag_starts_in_every_direction(f: Fence, p: Point, t: int)
    ensures
        dragged_far(f, p, t) <==> vstd::math::abs(p.x - f.drag_down.x) >= t || vstd::math::abs(
            p.y - f.drag_down.y,
        ) >= t,
{
}

/// Mirroring where the pointer is about where the button went down, sideways or
/// up and down, or exchanging the two ways, makes no difference to the drag.
pub proof fn mirrored_drag_starts_alike(f: Fence, p: Point, q: Point, t: int)
    requires
        ({
            let dx = p.x - f.drag_down.x;
            let dy = p.y - f.drag_down.y;
            let ex = q.x - f.drag_down.x;
            let ey = q.y - f.drag_down.y;
            ||| ex == -dx && ey == dy
            ||| ex == dx && ey == -dy
            ||| ex == dy && ey == dx
        }),
    ensures
        dragged_far(f, q, t) == dragged_far(f, p, t),
{
}

/// Once a drag has started it would have started further out too, in the same
/// direction, and with any smaller distance to go.
pub proof fn further_is_far_too(f: Fence, p: Point, q: Point, t: int, u: int)
    requires
        dragged_far(f, p, t),
        u <= t,
        vstd::math::abs(q.x - f.drag_down.x) >= vstd::math::abs(p.x - f.drag_down.x),
        vstd::math::abs(q.y - f.drag_down.y) >= vstd::math::abs(p.y - f.drag_down.y),
    ensures
        dragged_far(f, q, u),
{
}

/// Whether a fence looks different after a movement: a fence that has come up
/// does, whatever else happened, and otherwise one that was resized, that had an
/// entry dragged out or let go, or that has another entry under the pointer.
pub proof fn what_a_movement_shows(came_up: bool, e: EntryDrag, another: bool)
    ensures
        redrawn(true, Moved::Fence) && redrawn(true, Moved::Entry(e)) && redrawn(
            true,
            Moved::Over { another },
        ),
        !redrawn(false, Moved::Fence),
        redrawn(came_up, Moved::Size),
        redrawn(false, Moved::Entry(e)) <==> e is Start || e is Nothing,
        redrawn(false, Moved::Over { another }) <==> another,
{
}

/// The title takes a press before the border and the entries, the border before
/// the entries; below them a press on nothing clears what is selected.
pub proof fn press_takes_what_lies_on_top(
    f: Fence,
    p: Point,
    title_h: int,
    border: Option<ResizeDir>,
    hit: Option<usize>,
)
    ensures
        press_of(f, p, title_h, border, hit) is Title <==> p.y < title_h,
        press_of(f, p, title_h, border, hit) matches Press::Border(dir) ==> border == Some(dir),
        p.y >= title_h && border is Some ==> press_of(f, p, title_h, border, hit) is Border,
        press_of(f, p, title_h, border, hit) matches Press::Entry(i) ==> hit == Some(i),
        p.y >= title_h && border is None && hit is Some ==> press_of(
            f,
            p,
            title_h,
            border,
            hit,
        ) is Entry,
        press_of(f, p, title_h, border, hit) is Cleared ==> f.selected is Some,
        press_of(f, p, title_h, border, hit) is Nothing ==> f.selected is None,
{
}

/// What a press does: the title makes the fence move with the pointer, the
/// border makes it resize, an entry gets selected and may be dragged out from
/// where it was pressed, and a press beside all of them leaves nothing selected.
/// It moves nothing yet, and nothing else changes.
pub proof fn press_begins_one_thing(
    f: Fence,
    p: Point,
    title_h: int,
    border: Option<ResizeDir>,
    hit: Option<usize>,
    grip: Point,
)
    ensures
        ({
            let what = press_of(f, p, title_h, border, hit);
            let down = pressed(f, what, p, grip);
            &&& !down.drag_moved
            &&& p.y < title_h ==> down.moving && down.move_off == grip
            &&& p.y >= title_h ==> down.moving == f.moving && down.move_off == f.move_off
            &&& p.y >= title_h && border is Some ==> down.resizing == border
            &&& p.y < title_h || border is None ==> down.resizing == f.resizing
            &&& p.y >= title_h && border is None ==> down.selected == hit
            &&& p.y < title_h || border is Some ==> down.selected == f.selected
            &&& p.y >= title_h && border is None && hit is Some ==> down.drag_idx == hit
                && down.drag_down == p
            &&& p.y < title_h || border is Some || hit is None ==> down.drag_idx == f.drag_idx
                && down.drag_down == f.drag_down
            &&& down.cfg == f.cfg && down.hwnd == f.hwnd && down.valid == f.valid
            &&& down.dpi == f.dpi && down.cfg_dpi == f.cfg_dpi
            &&& down.hover == f.hover && down.hover_visible == f.hover_visible
            &&& down.entries == f.entries && down.wheel_acc == f.wheel_acc && down.page == f.page
        }),
{
}

/// When the button comes up after nothing but one press: what was moved or
/// resized is put in order, and the pointer is let go of then and after a press
/// on an entry.
pub proof fn release_ends_what_a_press_began(
    f: Fence,
    p: Point,
    title_h: int,
    border: Option<ResizeDir>,
    hit: Option<usize>,
    grip: Point,
    went: bool,
)
    requires
        !f.moving && f.resizing is None && f.drag_idx is None,
    ensures
        ({
            let down = Fence {
                drag_moved: went,
                ..pressed(f, press_of(f, p, title_h, border, hit), p, grip)
            };
            let geometry = p.y < title_h || border is Some;
            let up = released(down);
            &&& release_of(down).settle == (geometry && went)
            &&& release_of(down).let_go == (geometry && went || !geometry && hit is Some)
            &&& !up.moving && up.resizing is None && up.drag_idx is None && !up.drag_moved
            &&& up.selected == down.selected && up.hover == down.hover && up.hover_visible
                == down.hover_visible
            &&& up.cfg == down.cfg && up.hwnd == down.hwnd && up.valid == down.valid
            &&& up.dpi == down.dpi && up.cfg_dpi == down.cfg_dpi && up.move_off == down.move_off
            &&& up.drag_down == down.drag_down && up.entries == down.entries
            &&& up.wheel_acc == down.wheel_acc && up.page == down.page
        }),
{
}

/// Turning the wheel counts whole notches of 120: with what is kept they make up
/// what was turned and what had been kept, and what is kept is less than a notch
/// and of the same direction.
pub proof fn wheel_counts_notches(acc: int, turn: int)
    ensures
        ({
            let (kept, steps) = wheel_turned(acc, turn);
            &&& kept + 120 * steps == acc + turn
            &&& -120 < kept < 120
            &&& acc + turn >= 0 ==> kept >= 0
            &&& acc + turn <= 0 ==> kept <= 0
        }),
{
}

/// Turning the wheel up goes back as many pages as it makes notches, turning it
/// down goes on as many, and neither leads past the first or the last page.
pub proof fn wheel_turns_pages(page: nat, steps: int, pages: nat)
    requires
        pages >= 1,
    ensures
        0 <= page_after(page, steps, pages) < pages,
        0 <= page - steps < pages ==> page_after(page, steps, pages) == page - steps,
        steps >= page ==> page_after(page, steps, pages) == 0,
        page - steps >= pages ==> page_after(page, steps, pages) == pages - 1,
{
}

} // verus!
