//! All fences together: how they come and go, what the tray menu does to them,
//! and what is dropped on them.

use crate::config::{
    config_dir, config_dir_of, fence_views, text_of, Config, ConfigView, FenceCfg, FenceCfgView,
    DEFAULT_OPACITY,
};
use crate::droptarget::FenceDropTarget;
use crate::fence::{
    come_up, drag_kind, drag_of, pointer_lost, reset_pointer_interaction, CancelledPointerInteraction,
    Drag, Fence,
};
use crate::geometry::{min_h, min_w};
use crate::path::{Location, LocationView};
use crate::scale::{times, whole, Scale};
use crate::sweep::Errand;
use crate::text::{append_decimal, decimal};
use vstd::prelude::*;

verus! {

/// The state of the program.
pub struct Global {
    pub config: Config,
    /// The number of the next fence that is not given one.
    pub next_id: u32,
    pub fences: Vec<Fence>,
    /// The handle of the window that takes the program's own messages.
    pub msg_hwnd: usize,
    /// All fences are hidden.
    pub zen: bool,
    /// Files that could not be swept.
    pub sweep_retry: Vec<Errand>,
    pub exiting: bool,
    /// What takes the files that are dropped on windows, which has to stay.
    pub droptargets: Vec<FenceDropTarget>,
    /// The directories that are watched.
    pub watchers: Vec<Location>,
}

/// The directories that are watched.
pub open spec fn watched(g: Global) -> Seq<LocationView> {
    g.watchers@.map_values(|l: Location| l@)
}

/// What the fences on screen are configured as.
pub open spec fn shown(g: Global) -> Seq<FenceCfgView> {
    g.fences@.map_values(|f: Fence| f.cfg@)
}

impl Global {
    /// The state at the start: the configuration, and no fence yet.
    pub fn new(config: Config, next_id: u32, msg_hwnd: usize) -> (r: Global)
        ensures
            r.config == config,
            r.next_id == next_id,
            r.fences@.len() == 0,
            r.msg_hwnd == msg_hwnd,
            !r.zen,
            r.sweep_retry@.len() == 0,
            !r.exiting,
            r.droptargets@.len() == 0,
            r.watchers@.len() == 0,
    {
        Global {
            config,
            next_id,
            fences: Vec::new(),
            msg_hwnd,
            zen: false,
            sweep_retry: Vec::new(),
            exiting: false,
            droptargets: Vec::new(),
            watchers: Vec::new(),
        }
    }

    /// `self` is `other` but for the fences.
    pub open spec fn same_but_fences(self, other: Global) -> bool {
        self == (Global { fences: self.fences, ..other })
    }

    /// `self` is `other` but for the fences and what belongs to their windows.
    pub open spec fn same_but_windows(self, other: Global) -> bool {
        self == (Global {
            fences: self.fences,
            droptargets: self.droptargets,
            watchers: self.watchers,
            ..other
        })
    }
}

/// The number of the fence whose window is `hwnd`, from number `i` on.
pub open spec fn first_with(fences: Seq<Fence>, hwnd: usize, i: nat) -> Option<usize>
    decreases fences.len() - i,
{
    if i >= fences.len() {
        None
    } else if fences[i as int].valid && fences[i as int].hwnd == hwnd {
        Some(i as usize)
    } else {
        first_with(fences, hwnd, i + 1)
    }
}

/// The number of the fence whose window is `hwnd`; windows that were destroyed
/// do not count.
pub fn fence_idx(g: &Global, hwnd: usize) -> (r: Option<usize>)
    ensures
        r == first_with(g.fences@, hwnd, 0),
        r matches Some(i) ==> i < g.fences@.len() && g.fences@[i as int].valid
            && g.fences@[i as int].hwnd == hwnd,
{
    let mut i: usize = 0;
    while i < g.fences.len()
        invariant
            i <= g.fences@.len(),
            first_with(g.fences@, hwnd, 0) == first_with(g.fences@, hwnd, i as nat),
        decreases g.fences@.len() - i,
    {
        if g.fences[i].valid && g.fences[i].hwnd == hwnd {
            return Some(i);
        }
        i += 1;
    }
    None
}

/// The fence that is found is the first with that window; where none is found,
/// there is none.
pub proof fn found_fence_is_the_first(fences: Seq<Fence>, hwnd: usize, i: nat)
    requires
        fences.len() <= usize::MAX,
    ensures
        match first_with(fences, hwnd, i) {
            Some(k) => {
                &&& i <= k < fences.len()
                &&& fences[k as int].valid && fences[k as int].hwnd == hwnd
                &&& forall|j: int|
                    i <= j < k ==> !((#[trigger] fences[j]).valid && fences[j].hwnd == hwnd)
            },
            None => forall|j: int|
                i <= j < fences.len() ==> !((#[trigger] fences[j]).valid && fences[j].hwnd
                    == hwnd),
        },
    decreases fences.len() - i,
{
    if i < fences.len() && !(fences[i as int].valid && fences[i as int].hwnd == hwnd) {
        found_fence_is_the_first(fences, hwnd, i + 1);
    }
}

/// What is due after the pointer's business was called off.
#[derive(Clone, Copy, PartialEq, Eq, Structural, Debug)]
pub struct Cancelled {
    /// Draw the fence.
    pub render: bool,
    /// Save where the fences are, and keep the desktop's icons off them.
    pub save: bool,
}

/// Calls off what the pointer is doing to fence number `idx`.  The fence stays
/// where it has got to: it is not put onto the grid, which would look like a jump.
pub fn cancel_pointer_interaction(g: &mut Global, idx: usize) -> (r: Cancelled)
    ensures
        final(g).same_but_fences(*old(g)),
        idx >= old(g).fences@.len() ==> r == (Cancelled { render: false, save: false })
            && final(g).fences@ == old(g).fences@,
        idx < old(g).fences@.len() ==> {
            let f = old(g).fences@[idx as int];
            &&& final(g).fences@ == old(g).fences@.update(idx as int, f.at_rest())
            &&& r == (Cancelled {
                render: f.drag_idx is Some || f.hover is Some,
                save: f.geometry_drag() && f.drag_moved,
            })
        },
{
    if idx >= g.fences.len() {
        return Cancelled { render: false, save: false };
    }
    let outcome: CancelledPointerInteraction = reset_pointer_interaction(&mut g.fences[idx]);
    Cancelled { render: outcome.visual_changed, save: outcome.geometry_changed }
}

/// What a movement of the pointer over a window calls for.
#[derive(Clone, Copy, PartialEq, Eq, Structural, Debug)]
pub enum MoveAction {
    /// The window is no fence's.
    Unknown,
    /// The button came up unnoticed, and what was going on has been called off.
    CalledOff(Cancelled),
    /// It does this to this fence, which has just come up or not.
    Follow { idx: usize, drag: Drag, came_up: bool },
}

/// What a movement of the pointer over the window `hwnd` calls for.
pub open spec fn move_action(g: Global, hwnd: usize, keys: usize) -> MoveAction {
    match first_with(g.fences@, hwnd, 0) {
        None => MoveAction::Unknown,
        Some(i) => {
            let f = g.fences@[i as int];
            if f.pointer_busy() && keys & 1 == 0 {
                MoveAction::CalledOff(
                    Cancelled {
                        render: f.drag_idx is Some || f.hover is Some,
                        save: f.geometry_drag() && f.drag_moved,
                    },
                )
            } else {
                MoveAction::Follow {
                    idx: i,
                    drag: drag_of(f),
                    came_up: g.config.ghost_mode && !f.hover_visible,
                }
            }
        },
    }
}

/// The pointer moves over the window `hwnd`, `keys` being the buttons that are
/// down.  Without the left button what was going on is called off; else the
/// fence comes up if it hides, and follows the pointer.
pub fn pointer_moved(g: &mut Global, hwnd: usize, keys: usize) -> (r: MoveAction)
    ensures
        r == move_action(*old(g), hwnd, keys),
        final(g).same_but_fences(*old(g)),
        match first_with(old(g).fences@, hwnd, 0) {
            None => final(g).fences@ == old(g).fences@,
            Some(i) => {
                let f = old(g).fences@[i as int];
                final(g).fences@ == old(g).fences@.update(
                    i as int,
                    if r is CalledOff {
                        f.at_rest()
                    } else {
                        (Fence {
                            hover_visible: f.hover_visible || old(g).config.ghost_mode,
                            ..f
                        })
                    },
                )
            },
        },
{
    match fence_idx(g, hwnd) {
        None => MoveAction::Unknown,
        Some(idx) => if pointer_lost(&g.fences[idx], keys) {
            MoveAction::CalledOff(cancel_pointer_interaction(g, idx))
        } else {
            let ghost_mode: bool = g.config.ghost_mode;
            let drag: Drag = drag_kind(&g.fences[idx]);
            let came_up: bool = come_up(&mut g.fences[idx], ghost_mode);
            MoveAction::Follow { idx, drag, came_up }
        },
    }
}

/// A movement without the left button moves no fence and resizes none, whatever
/// was going on.
pub proof fn stale_drag_moves_nothing(g: Global, hwnd: usize, keys: usize)
    requires
        keys & 1 == 0,
    ensures
        move_action(g, hwnd, keys) matches MoveAction::Follow { drag, .. } ==> drag == Drag::Hover,
{
}

/// How far down the cascade the next fence goes, when there are `n`.
pub open spec fn cascade(n: nat) -> int {
    n as int % 5
}

/// Where a fence without a position goes, from the left: below the right end of
/// the screen, each of five further in.
pub open spec fn cascade_x(screen_w: int, n: nat, s: nat) -> int {
    let x = screen_w - whole(times(320, s)) - whole(times(20, s)) - cascade(n) * whole(
        times(30, s),
    );
    if x > 0 {
        x
    } else {
        0
    }
}

/// Where a fence without a position goes, from the top: each of five further
/// down, but not off the screen.
pub open spec fn cascade_y(screen_h: int, n: nat, s: nat) -> int {
    let y = whole(times(80, s)) + cascade(n) * whole(times(40, s));
    let bottom = if screen_h - whole(times(400, s)) > 0 {
        screen_h - whole(times(400, s))
    } else {
        0
    };
    if y < bottom {
        y
    } else {
        bottom
    }
}

/// The larger of the two.
pub open spec fn at_least(v: int, least: int) -> int {
    if v < least {
        least
    } else {
        v
    }
}

/// What becomes of a configuration before its window is made: it gets the number
/// `next_id` if it has none, a position if it has none, and the least size.
pub open spec fn prepared(
    cfg: FenceCfgView,
    next_id: u32,
    n: nat,
    screen_w: int,
    screen_h: int,
    s: nat,
) -> FenceCfgView {
    let placed = cfg.x == 0 && cfg.y == 0;
    FenceCfgView {
        id: if cfg.id == 0 {
            next_id
        } else {
            cfg.id
        },
        x: if placed {
            cascade_x(screen_w, n, s) as i32
        } else {
            cfg.x
        },
        y: if placed {
            cascade_y(screen_h, n, s) as i32
        } else {
            cfg.y
        },
        w: at_least(cfg.w as int, whole(times(180, s))) as i32,
        h: at_least(cfg.h as int, whole(times(100, s))) as i32,
        ..cfg
    }
}

/// Prepares a fence before its window is made.
pub fn prepare_fence(g: &mut Global, cfg: FenceCfg, s: Scale, screen_w: i32, screen_h: i32) -> (r:
    FenceCfg)
    requires
        cfg.id == 0 ==> old(g).next_id < u32::MAX,
    ensures
        r@ == prepared(
            cfg@,
            old(g).next_id,
            old(g).fences@.len(),
            screen_w as int,
            screen_h as int,
            s@,
        ),
        cfg.x != 0 || cfg.y != 0 ==> r.x == cfg.x && r.y == cfg.y,
        r.title@ == cfg.title@ && r@.folder == cfg@.folder,
        r.opacity == cfg.opacity && r.icon == cfg.icon,
        cfg.id != 0 ==> r.id == cfg.id,
        r.w >= cfg.w && r.h >= cfg.h,
        *final(g) == (Global {
            next_id: if cfg.id == 0 {
                (old(g).next_id + 1) as u32
            } else {
                old(g).next_id
            },
            ..*old(g)
        }),
{
    let mut cfg = cfg;
    if cfg.id == 0 {
        cfg.id = g.next_id;
        g.next_id = g.next_id + 1;
    }
    if cfg.x == 0 && cfg.y == 0 {
        let n: i64 = (g.fences.len() % 5) as i64;
        let right: i64 = s.floor(30) as i64;
        let down: i64 = s.floor(40) as i64;
        assert(0 <= n * right <= 4 * i32::MAX && 0 <= n * down <= 4 * i32::MAX) by (nonlinear_arith)
            requires
                0 <= n <= 4,
                0 <= right <= i32::MAX,
                0 <= down <= i32::MAX,
        ;
        let x: i64 = screen_w as i64 - s.floor(320) as i64 - s.floor(20) as i64 - n * right;
        cfg.x = if x > 0 {
            x as i32
        } else {
            0
        };
        let y: i64 = s.floor(80) as i64 + n * down;
        let room: i64 = screen_h as i64 - s.floor(400) as i64;
        let bottom: i64 = if room > 0 {
            room
        } else {
            0
        };
        cfg.y = if y < bottom {
            y as i32
        } else {
            bottom as i32
        };
    }
    let least_w: i32 = min_w(s);
    let least_h: i32 = min_h(s);
    if cfg.w < least_w {
        cfg.w = least_w;
    }
    if cfg.h < least_h {
        cfg.h = least_h;
    }
    cfg
}

/// A fence that got its position here starts on the screen, if there is one.
pub proof fn placed_fence_is_on_screen(screen_w: int, screen_h: int, n: nat, s: nat)
    requires
        screen_w >= 0,
        screen_h >= 0,
    ensures
        0 <= cascade_x(screen_w, n, s) <= screen_w,
        0 <= cascade_y(screen_h, n, s) <= screen_h,
{
    assert(cascade(n) * whole(times(30, s)) >= 0) by (nonlinear_arith)
        requires
            cascade(n) >= 0,
            whole(times(30, s)) >= 0,
    ;
    assert(cascade(n) * whole(times(40, s)) >= 0) by (nonlinear_arith)
        requires
            cascade(n) >= 0,
            whole(times(40, s)) >= 0,
    ;
}

/// The numbers of all fences are below the next one.
pub open spec fn numbered_below(g: Global) -> bool {
    forall|i: int| 0 <= i < shown(g).len() ==> (#[trigger] shown(g)[i]).id < g.next_id
}

/// What is watched for a fence: its folder, if it shows one.
pub fn folder_to_watch(cfg: &FenceCfg) -> (r: Option<Location>)
    ensures
        match r {
            Some(l) => cfg@.folder == Some(l@),
            None => cfg@.folder is None,
        },
{
    match &cfg.folder {
        Some(l) => Some(l.copy()),
        None => None,
    }
}

/// Watches another directory, if there is one.
pub fn watch(g: &mut Global, dir: Option<Location>)
    ensures
        *final(g) == (Global { watchers: final(g).watchers, ..*old(g) }),
        watched(*final(g)) == match dir {
            Some(l) => watched(*old(g)).push(l@),
            None => watched(*old(g)),
        },
{
    match dir {
        Some(l) => {
            g.watchers.push(l);
            assert(watched(*g) == watched(*old(g)).push(l@));
        },
        None => {},
    }
}

/// Brings up a prepared fence whose window is `hwnd`, and returns its number: it
/// takes what is dropped on the window, and its folder is watched if it shows
/// one.  If there is no window there is no fence, and the number is 0.
pub fn create_fence(g: &mut Global, cfg: FenceCfg, hwnd: usize, dpi: Scale, cfg_dpi: u32) -> (r:
    u32)
    ensures
        hwnd == 0 ==> r == 0 && *final(g) == *old(g),
        hwnd != 0 ==> {
            &&& r == cfg.id
            &&& final(g).same_but_windows(*old(g))
            &&& final(g).fences@ == old(g).fences@.push(Fence::fresh(cfg, hwnd, dpi, cfg_dpi))
            &&& final(g).droptargets@ == old(g).droptargets@.push(FenceDropTarget { hwnd })
            &&& watched(*final(g)) == match cfg@.folder {
                Some(l) => watched(*old(g)).push(l),
                None => watched(*old(g)),
            }
        },
{
    if hwnd == 0 {
        return 0;
    }
    let id: u32 = cfg.id;
    g.droptargets.push(FenceDropTarget::new(hwnd));
    watch(g, folder_to_watch(&cfg));
    g.fences.push(Fence::new(cfg, hwnd, dpi, cfg_dpi));
    id
}

/// Takes away fence number `idx`, and returns its window, which is to be destroyed.
pub fn delete_fence(g: &mut Global, idx: usize) -> (r: Option<usize>)
    ensures
        final(g).same_but_fences(*old(g)),
        idx >= old(g).fences@.len() ==> r is None && final(g).fences@ == old(g).fences@,
        idx < old(g).fences@.len() ==> r == Some(old(g).fences@[idx as int].hwnd)
            && final(g).fences@ == old(g).fences@.remove(idx as int),
{
    if idx >= g.fences.len() {
        return None;
    }
    let f: Fence = g.fences.remove(idx);
    Some(f.hwnd)
}

/// A new fence that is not given a number gets one that no other has.
pub proof fn new_fence_has_its_own_number(
    g: Global,
    cfg: FenceCfgView,
    screen_w: int,
    screen_h: int,
    s: nat,
    i: int,
)
    requires
        numbered_below(g),
        cfg.id == 0,
        0 <= i < shown(g).len(),
    ensures
        prepared(cfg, g.next_id, g.fences@.len(), screen_w, screen_h, s).id != shown(g)[i].id,
{
}

/// The numbers of all fences stay below the next one when a fence is added that
/// is not given a number, or one below.
pub proof fn numbers_stay_below(
    g: Global,
    later: Global,
    cfg: FenceCfgView,
    screen_w: int,
    screen_h: int,
    s: nat,
)
    requires
        numbered_below(g),
        cfg.id < g.next_id,
        later.next_id == g.next_id + if cfg.id == 0 {
            1int
        } else {
            0
        },
        shown(later) == shown(g).push(
            prepared(cfg, g.next_id, g.fences@.len(), screen_w, screen_h, s),
        ),
    ensures
        numbered_below(later),
{
    assert forall|i: int| 0 <= i < shown(later).len() implies (#[trigger] shown(later)[i]).id
        < later.next_id by {
        if i < shown(g).len() {
            assert(shown(later)[i] == shown(g)[i]);
        }
    }
}

/// The numbers of all fences are at most the next one.
pub open spec fn numbered_up_to(g: Global) -> bool {
    forall|i: int| 0 <= i < shown(g).len() ==> (#[trigger] shown(g)[i]).id <= g.next_id
}

/// No number passes the next one, also when a fence is added that is given the
/// next number itself, as one that shows a folder is, without using it up.
pub proof fn numbers_never_pass_the_next(
    g: Global,
    later: Global,
    cfg: FenceCfgView,
    screen_w: int,
    screen_h: int,
    s: nat,
)
    requires
        numbered_up_to(g),
        cfg.id <= g.next_id,
        later.next_id == g.next_id + if cfg.id == 0 {
            1int
        } else {
            0
        },
        shown(later) == shown(g).push(
            prepared(cfg, g.next_id, g.fences@.len(), screen_w, screen_h, s),
        ),
    ensures
        numbered_up_to(later),
{
    assert forall|i: int| 0 <= i < shown(later).len() implies (#[trigger] shown(later)[i]).id
        <= later.next_id by {
        if i < shown(g).len() {
            assert(shown(later)[i] == shown(g)[i]);
        }
    }
}

/// A new fence that is not given a number shares one only with a fence that was
/// given the next number itself.
pub proof fn only_the_next_number_is_shared(
    g: Global,
    cfg: FenceCfgView,
    screen_w: int,
    screen_h: int,
    s: nat,
    i: int,
)
    requires
        cfg.id == 0,
        0 <= i < shown(g).len(),
    ensures
        prepared(cfg, g.next_id, g.fences@.len(), screen_w, screen_h, s).id == shown(g)[i].id
            <==> shown(g)[i].id == g.next_id,
{
}

/// Puts what the fences are now into the configuration.
pub fn sync_config(g: &mut Global, snapshot: Vec<FenceCfg>)
    ensures
        final(g).config@ == (ConfigView {
            fences: fence_views(snapshot@),
            ..old(g).config@
        }),
        *final(g) == (Global { config: final(g).config, ..*old(g) }),
{
    g.config.fences = snapshot;
}

/// The windows of the fences, without those that were destroyed, in order.
pub open spec fn windows_of(fences: Seq<Fence>) -> Seq<usize>
    decreases fences.len(),
{
    if fences.len() == 0 {
        Seq::empty()
    } else {
        let rest = windows_of(fences.drop_last());
        if fences.last().valid {
            rest.push(fences.last().hwnd)
        } else {
            rest
        }
    }
}

/// The windows of the fences, without those that were destroyed, in order.
pub fn live_windows(g: &Global) -> (r: Vec<usize>)
    ensures
        r@ == windows_of(g.fences@),
{
    let mut out: Vec<usize> = Vec::new();
    let mut i: usize = 0;
    while i < g.fences.len()
        invariant
            i <= g.fences@.len(),
            out@ == windows_of(g.fences@.take(i as int)),
        decreases g.fences@.len() - i,
    {
        assert(g.fences@.take(i + 1).drop_last() == g.fences@.take(i as int));
        if g.fences[i].valid {
            out.push(g.fences[i].hwnd);
        }
        i += 1;
    }
    assert(g.fences@.take(i as int) == g.fences@);
    out
}

/// What is to be done to the windows so that all show or, in zen mode, none does.
pub fn apply_visibility(g: &Global) -> (r: (Vec<usize>, bool))
    ensures
        r.0@ == windows_of(g.fences@),
        r.1 == !g.zen,
{
    (live_windows(g), !g.zen)
}

/// Hides all fences, or shows them again.
pub fn toggle_zen(g: &mut Global)
    ensures
        *final(g) == (Global { zen: !old(g).zen, ..*old(g) }),
{
    g.zen = !g.zen;
}

/// Lets fences show only under the pointer, or always again.
pub fn toggle_ghost(g: &mut Global)
    ensures
        *final(g) == (Global {
            config: Config { ghost_mode: !old(g).config.ghost_mode, ..old(g).config },
            ..*old(g)
        }),
{
    g.config.ghost_mode = !g.config.ghost_mode;
}

/// Starts the program with the system, or no longer; says which.
pub fn toggle_autostart(g: &mut Global) -> (r: bool)
    ensures
        r == !old(g).config.autostart,
        *final(g) == (Global { config: Config { autostart: r, ..old(g).config }, ..*old(g) }),
{
    g.config.autostart = !g.config.autostart;
    g.config.autostart
}

/// Doing it twice undoes it.
pub proof fn toggling_twice_changes_nothing(g: Global)
    ensures
        ({
            let once = Global { zen: !g.zen, ..g };
            (Global { zen: !once.zen, ..once }) == g
        }),
        ({
            let once = Global {
                config: Config { ghost_mode: !g.config.ghost_mode, ..g.config },
                ..g
            };
            (Global {
                config: Config { ghost_mode: !once.config.ghost_mode, ..once.config },
                ..once
            }) == g
        }),
        ({
            let once = Global {
                config: Config { autostart: !g.config.autostart, ..g.config },
                ..g
            };
            (Global {
                config: Config { autostart: !once.config.autostart, ..once.config },
                ..once
            }) == g
        }),
{
}

/// The window of a fence is gone; the fence itself stays.
pub fn window_destroyed(g: &mut Global, hwnd: usize)
    ensures
        final(g).same_but_fences(*old(g)),
        final(g).fences@ == match first_with(old(g).fences@, hwnd, 0) {
            Some(i) => old(g).fences@.update(
                i as int,
                (Fence { valid: false, ..old(g).fences@[i as int] }),
            ),
            None => old(g).fences@,
        },
{
    match fence_idx(g, hwnd) {
        Some(i) => {
            g.fences[i].valid = false;
        },
        None => {},
    }
}

/// The fences from number `i` on whose windows were destroyed.
pub open spec fn lost_from(fences: Seq<Fence>, i: nat) -> Seq<usize>
    decreases fences.len() - i,
{
    if i >= fences.len() {
        Seq::empty()
    } else if !fences[i as int].valid {
        seq![i as usize] + lost_from(fences, i + 1)
    } else {
        lost_from(fences, i + 1)
    }
}

/// The fences whose windows were destroyed and are to be made anew.
pub fn watchdog_tick(g: &Global) -> (r: Vec<usize>)
    ensures
        r@ == lost_from(g.fences@, 0),
        forall|k: int|
            0 <= k < r@.len() ==> (#[trigger] r@[k]) < g.fences@.len()
                && !g.fences@[r@[k] as int].valid,
{
    let mut out: Vec<usize> = Vec::new();
    let mut i: usize = 0;
    assert(out@ + lost_from(g.fences@, 0) == lost_from(g.fences@, 0));
    while i < g.fences.len()
        invariant
            i <= g.fences@.len(),
            out@ + lost_from(g.fences@, i as nat) == lost_from(g.fences@, 0),
            forall|k: int|
                0 <= k < out@.len() ==> (#[trigger] out@[k]) < g.fences@.len()
                    && !g.fences@[out@[k] as int].valid,
        decreases g.fences@.len() - i,
    {
        let ghost before = out@;
        if !g.fences[i].valid {
            out.push(i);
            assert(out@ + lost_from(g.fences@, i as nat + 1) == before + (seq![i] + lost_from(
                g.fences@,
                i as nat + 1,
            )));
        }
        i += 1;
    }
    assert(out@ + lost_from(g.fences@, i as nat) == out@);
    out
}

/// A fence is to be made anew if and only if its window was destroyed.
pub proof fn all_lost_fences_are_made_anew(fences: Seq<Fence>, i: nat, k: usize)
    requires
        i <= k < fences.len() <= usize::MAX,
    ensures
        lost_from(fences, i).contains(k) <==> !fences[k as int].valid,
    decreases fences.len() - i,
{
    let rest = lost_from(fences, i + 1);
    let here = lost_from(fences, i);
    lemma_lost_range(fences, i + 1);
    if k == i {
        if fences[i as int].valid {
            if here.contains(k) {
                let j = choose|j: int| 0 <= j < here.len() && here[j] == k;
                assert(rest[j] >= i + 1);
            }
        } else {
            assert(here[0] == k);
        }
    } else {
        all_lost_fences_are_made_anew(fences, i + 1, k);
        if !fences[i as int].valid {
            if rest.contains(k) {
                let j = choose|j: int| 0 <= j < rest.len() && rest[j] == k;
                assert(here[j + 1] == k);
            }
            if here.contains(k) {
                let j = choose|j: int| 0 <= j < here.len() && here[j] == k;
                assert(j > 0);
                assert(rest[j - 1] == k);
            }
        }
    }
}

proof fn lemma_lost_range(fences: Seq<Fence>, i: nat)
    requires
        fences.len() <= usize::MAX,
    ensures
        forall|j: int|
            0 <= j < lost_from(fences, i).len() ==> i <= #[trigger] lost_from(fences, i)[j],
    decreases fences.len() - i,
{
    if i < fences.len() {
        lemma_lost_range(fences, i + 1);
        let rest = lost_from(fences, i + 1);
        let here = lost_from(fences, i);
        assert forall|j: int| 0 <= j < here.len() implies i <= #[trigger] here[j] by {
            if !fences[i as int].valid {
                if j > 0 {
                    assert(here[j] == rest[j - 1]);
                }
            } else {
                assert(here[j] == rest[j]);
            }
        }
    }
}

/// Gives fence number `idx` its new window; says whether that is to be hidden.
/// The window takes what is dropped on it.  If there is no window nothing changes.
pub fn revive_fence(g: &mut Global, idx: usize, hwnd: usize) -> (r: Option<bool>)
    requires
        idx < old(g).fences@.len(),
    ensures
        hwnd == 0 ==> r is None && *final(g) == *old(g),
        hwnd != 0 ==> {
            &&& r == Some(old(g).zen)
            &&& *final(g) == (Global {
                fences: final(g).fences,
                droptargets: final(g).droptargets,
                ..*old(g)
            })
            &&& final(g).droptargets@ == old(g).droptargets@.push(FenceDropTarget { hwnd })
            &&& final(g).fences@ == old(g).fences@.update(
                idx as int,
                (Fence {
                    hwnd,
                    valid: true,
                    moving: false,
                    resizing: None,
                    ..old(g).fences@[idx as int]
                }),
            )
        },
{
    if hwnd == 0 {
        return None;
    }
    g.droptargets.push(FenceDropTarget::new(hwnd));
    let f = &mut g.fences[idx];
    f.hwnd = hwnd;
    f.valid = true;
    f.moving = false;
    f.resizing = None;
    Some(g.zen)
}

/// Where files go that are dropped on a window.
pub enum DropInto {
    /// The window is no fence's.
    Nowhere,
    /// The folder that the fence shows.
    Folder(Location),
    /// The place where files are collected.
    Vault,
}

/// Where files go that are dropped on the window `hwnd`.
pub fn handle_drop(g: &Global, hwnd: usize) -> (r: DropInto)
    ensures
        match first_with(g.fences@, hwnd, 0) {
            None => r is Nowhere,
            Some(i) => match g.fences@[i as int].cfg@.folder {
                Some(l) => r matches DropInto::Folder(k) && k@ == l,
                None => r is Vault,
            },
        },
        r is Nowhere <==> forall|i: int|
            0 <= i < g.fences@.len() ==> !((#[trigger] g.fences@[i]).valid && g.fences@[i].hwnd
                == hwnd),
{
    proof {
        assert(g.fences.len() == g.fences@.len());
        found_fence_is_the_first(g.fences@, hwnd, 0);
    }
    match fence_idx(g, hwnd) {
        None => DropInto::Nowhere,
        Some(i) => match &g.fences[i].cfg.folder {
            Some(l) => DropInto::Folder(l.copy()),
            None => DropInto::Vault,
        },
    }
}

/// Whether a file that was dropped is to be moved: it is there, and not yet
/// where it is to go.
pub fn drop_moves(present: bool, already_there: bool) -> (r: bool)
    ensures
        r == (present && !already_there),
{
    present && !already_there
}

/// What came of a path that was dropped.
#[derive(Clone, Copy, PartialEq, Eq, Structural, Debug)]
pub enum DropOutcome {
    /// There was nothing to move.
    Skipped,
    /// The file was moved.
    Moved,
    /// The file could not be moved.
    Failed,
}

/// What comes of a path: whether it is there, whether it is where it is to go,
/// and whether it can be moved.
pub open spec fn drop_outcome(present: bool, already_there: bool, movable: bool) -> DropOutcome {
    if !present || already_there {
        DropOutcome::Skipped
    } else if movable {
        DropOutcome::Moved
    } else {
        DropOutcome::Failed
    }
}

/// What has come of the paths once the next one was looked at.
pub open spec fn looked_at(
    outcomes: Seq<DropOutcome>,
    present: bool,
    already_there: bool,
) -> Seq<DropOutcome> {
    if present && !already_there {
        outcomes
    } else {
        outcomes.push(DropOutcome::Skipped)
    }
}

/// What has come of the paths once it was tried to move the next one.
pub open spec fn tried_to_move(outcomes: Seq<DropOutcome>, moved: bool) -> Seq<DropOutcome> {
    outcomes.push(
        if moved {
            DropOutcome::Moved
        } else {
            DropOutcome::Failed
        },
    )
}

/// The paths of a drop, one after the other.
pub struct DropRun {
    /// How many paths were dropped.
    pub paths: usize,
    /// What came of the first ones.
    pub outcomes: Vec<DropOutcome>,
}

impl DropRun {
    /// The path that is next: the first one of which nothing has come yet.
    pub open spec fn upcoming(self) -> Option<usize> {
        if self.outcomes@.len() < self.paths {
            Some(self.outcomes@.len() as usize)
        } else {
            None
        }
    }

    /// Before the first of `paths` paths.
    pub fn new(paths: usize) -> (r: DropRun)
        ensures
            r.paths == paths,
            r.outcomes@.len() == 0,
    {
        DropRun { paths, outcomes: Vec::new() }
    }

    /// The path that is next; none if something has come of each.
    pub fn next(&self) -> (r: Option<usize>)
        ensures
            r == self.upcoming(),
    {
        if self.outcomes.len() < self.paths {
            Some(self.outcomes.len())
        } else {
            None
        }
    }

    /// Looks at the path that is next; says whether it is to be moved.  If not,
    /// that is what came of it.
    pub fn look(&mut self, present: bool, already_there: bool) -> (r: bool)
        requires
            old(self).upcoming() is Some,
        ensures
            r == (present && !already_there),
            final(self).paths == old(self).paths,
            final(self).outcomes@ == looked_at(old(self).outcomes@, present, already_there),
    {
        let moves: bool = drop_moves(present, already_there);
        if !moves {
            self.outcomes.push(DropOutcome::Skipped);
        }
        moves
    }

    /// It was tried to move the path that is next.  Whatever came of it, the one
    /// behind it is next then.
    pub fn tried(&mut self, moved: bool)
        requires
            old(self).upcoming() is Some,
        ensures
            final(self).paths == old(self).paths,
            final(self).outcomes@ == tried_to_move(old(self).outcomes@, moved),
    {
        self.outcomes.push(
            if moved {
                DropOutcome::Moved
            } else {
                DropOutcome::Failed
            },
        );
    }
}

/// Something was moved.
pub open spec fn any_moved(outcomes: Seq<DropOutcome>) -> bool {
    exists|i: int| 0 <= i < outcomes.len() && #[trigger] outcomes[i] == DropOutcome::Moved
}

/// Whether the fence is told that files were dropped on it: if any was moved.
pub fn drop_message_due(outcomes: &Vec<DropOutcome>) -> (r: bool)
    ensures
        r == any_moved(outcomes@),
{
    let mut i: usize = 0;
    while i < outcomes.len()
        invariant
            i <= outcomes@.len(),
            forall|k: int| 0 <= k < i ==> #[trigger] outcomes@[k] != DropOutcome::Moved,
        decreases outcomes@.len() - i,
    {
        if outcomes[i] == DropOutcome::Moved {
            return true;
        }
        i += 1;
    }
    false
}

/// What came of the paths, when `facts` says of each whether it was there, was
/// where it was to go, and could be moved.
pub open spec fn drop_outcomes(facts: Seq<(bool, bool, bool)>) -> Seq<DropOutcome>
    decreases facts.len(),
{
    if facts.len() == 0 {
        Seq::empty()
    } else {
        let f = facts.last();
        let looked = looked_at(drop_outcomes(facts.drop_last()), f.0, f.1);
        if f.0 && !f.1 {
            tried_to_move(looked, f.2)
        } else {
            looked
        }
    }
}

/// A drop goes path by path: where the outcomes are those of the paths so far,
/// the path that is next is the one behind them, and looking at it, and trying to
/// move it if that is due, gives those of one path more.
pub proof fn drop_goes_path_by_path(
    run: DropRun,
    facts: Seq<(bool, bool, bool)>,
    f: (bool, bool, bool),
)
    requires
        run.outcomes@ == drop_outcomes(facts),
        facts.len() < run.paths,
    ensures
        run.upcoming() == Some(facts.len() as usize),
        f.0 && !f.1 ==> tried_to_move(looked_at(run.outcomes@, f.0, f.1), f.2) == drop_outcomes(
            facts.push(f),
        ),
        !(f.0 && !f.1) ==> looked_at(run.outcomes@, f.0, f.1) == drop_outcomes(facts.push(f)),
{
    each_dropped_path_has_its_turn(facts);
    assert(facts.push(f).drop_last() == facts);
}

/// Each path is dealt with in its turn, whatever came of those before it, and
/// the fence is told if and only if one was there, elsewhere, and could be moved.
pub proof fn each_dropped_path_has_its_turn(facts: Seq<(bool, bool, bool)>)
    ensures
        drop_outcomes(facts).len() == facts.len(),
        forall|i: int|
            0 <= i < facts.len() ==> #[trigger] drop_outcomes(facts)[i] == drop_outcome(
                facts[i].0,
                facts[i].1,
                facts[i].2,
            ),
        any_moved(drop_outcomes(facts)) <==> exists|i: int|
            0 <= i < facts.len() && (#[trigger] facts[i]).0 && !facts[i].1 && facts[i].2,
    decreases facts.len(),
{
    if facts.len() > 0 {
        let front = facts.drop_last();
        each_dropped_path_has_its_turn(front);
        assert forall|i: int| 0 <= i < facts.len() implies #[trigger] drop_outcomes(facts)[i]
            == drop_outcome(facts[i].0, facts[i].1, facts[i].2) by {
            if i < front.len() {
                assert(drop_outcomes(facts)[i] == drop_outcomes(front)[i]);
                assert(front[i] == facts[i]);
            }
        }
    }
    if any_moved(drop_outcomes(facts)) {
        let i = choose|i: int|
            0 <= i < drop_outcomes(facts).len() && #[trigger] drop_outcomes(facts)[i]
                == DropOutcome::Moved;
        assert(facts[i].0 && !facts[i].1 && facts[i].2);
    }
    if exists|i: int| 0 <= i < facts.len() && (#[trigger] facts[i]).0 && !facts[i].1 && facts[i].2 {
        let i = choose|i: int|
            0 <= i < facts.len() && (#[trigger] facts[i]).0 && !facts[i].1 && facts[i].2;
        assert(drop_outcomes(facts)[i] == DropOutcome::Moved);
    }
}

/// A fence's configuration: `from_right` logical pixels from the right end of
/// the screen, a hundred from the top and forty more for each of `down`.
pub open spec fn laid_out(
    id: u32,
    title: Seq<char>,
    folder: Option<LocationView>,
    from_right: nat,
    down: int,
    width: nat,
    screen_w: int,
    s: nat,
) -> FenceCfgView {
    FenceCfgView {
        id,
        title,
        folder,
        x: (screen_w - whole(times(from_right, s))) as i32,
        y: (whole(times(100, s)) + down * whole(times(40, s))) as i32,
        w: whole(times(width, s)) as i32,
        h: whole(times(340, s)) as i32,
        opacity: DEFAULT_OPACITY,
        icon: 32,
    }
}

/// The position that `laid_out` gives can be held in an `i32`.
pub open spec fn layout_fits(from_right: nat, down: int, screen_w: int, s: nat) -> bool {
    &&& screen_w - whole(times(from_right, s)) >= i32::MIN
    &&& whole(times(100, s)) + down * whole(times(40, s)) <= i32::MAX
}

fn lay_out(
    id: u32,
    title: String,
    folder: Option<Location>,
    from_right: u32,
    down: u32,
    width: u32,
    screen_w: i32,
    s: Scale,
) -> (r: FenceCfg)
    requires
        down <= 4,
        layout_fits(from_right as nat, down as int, screen_w as int, s@),
    ensures
        r@ == laid_out(
            id,
            title@,
            match folder {
                Some(l) => Some(l@),
                None => None,
            },
            from_right as nat,
            down as int,
            width as nat,
            screen_w as int,
            s@,
        ),
{
    let step: i32 = s.floor(40);
    assert(0 <= down * step <= 4 * i32::MAX) by (nonlinear_arith)
        requires
            0 <= down <= 4,
            0 <= step <= i32::MAX,
    ;
    FenceCfg {
        id,
        title,
        folder,
        x: screen_w - s.floor(from_right),
        y: (s.floor(100) as i64 + down as i64 * step as i64) as i32,
        w: s.floor(width),
        h: s.floor(340),
        opacity: DEFAULT_OPACITY,
        icon: 32,
    }
}

/// A new fence that shows `folder`, called like it.
pub fn new_portal(
    g: &Global,
    folder: Location,
    folder_name: Option<String>,
    screen_w: i32,
    s: Scale,
) -> (r: FenceCfg)
    requires
        layout_fits(340, cascade(g.fences@.len()), screen_w as int, s@),
    ensures
        r@ == laid_out(
            g.next_id,
            match folder_name {
                Some(n) => n@,
                None => "文件夹栅栏"@,
            },
            Some(folder@),
            340,
            cascade(g.fences@.len()),
            280,
            screen_w as int,
            s@,
        ),
{
    let title: String = match folder_name {
        Some(n) => n,
        None => "文件夹栅栏".to_owned(),
    };
    let down: u32 = (g.fences.len() % 5) as u32;
    lay_out(g.next_id, title, Some(folder), 340, down, 280, screen_w, s)
}

/// A new fence that collects files in directory number `n`, called like it.  Its
/// own number is given out when it is prepared.
pub fn new_box(g: &Global, appdata: Option<String>, n: u32, screen_w: i32, s: Scale) -> (r: FenceCfg)
    requires
        layout_fits(320, cascade(g.fences@.len()), screen_w as int, s@),
    ensures
        r@ == laid_out(
            0,
            box_text(n as nat),
            Some(box_location(text_of(appdata), n as nat)),
            320,
            cascade(g.fences@.len()),
            260,
            screen_w as int,
            s@,
        ),
{
    let down: u32 = (g.fences.len() % 5) as u32;
    lay_out(0, box_name(n), Some(box_dir(appdata, n)), 320, down, 260, screen_w, s)
}

/// The fence that there is at the first start.
pub fn first_box(g: &Global, screen_w: i32, s: Scale) -> (r: FenceCfg)
    requires
        layout_fits(320, 0, screen_w as int, s@),
    ensures
        r@ == laid_out(g.next_id, "收纳箱"@, None, 320, 0, 260, screen_w as int, s@),
{
    lay_out(g.next_id, "收纳箱".to_owned(), None, 320, 0, 260, screen_w, s)
}

/// The name of the directory of collecting fence number `n`.
pub open spec fn box_text(n: nat) -> Seq<char> {
    if n == 1 {
        "收纳箱"@
    } else {
        "收纳箱 "@ + decimal(n)
    }
}

/// The name of the directory of collecting fence number `n`.
pub fn box_name(n: u32) -> (r: String)
    ensures
        r@ == box_text(n as nat),
{
    if n == 1 {
        "收纳箱".to_owned()
    } else {
        let mut r: String = "收纳箱 ".to_owned();
        append_decimal(&mut r, n as u64);
        r
    }
}

/// The directory of collecting fence number `n`.
pub open spec fn box_location(appdata: Option<Seq<char>>, n: nat) -> LocationView {
    config_dir_of(appdata).join("boxes"@).join(box_text(n))
}

/// The directory of collecting fence number `n`, beside the configuration.
pub fn box_dir(appdata: Option<String>, n: u32) -> (r: Location)
    ensures
        r@ == box_location(text_of(appdata), n as nat),
{
    config_dir(appdata).join("boxes").join(box_name(n).as_str())
}

/// The search for a name that is not taken.
#[derive(Clone, Copy, PartialEq, Eq, Structural, Debug)]
pub enum BoxSearch {
    /// Look whether the name with this number is taken.
    Probe(u32),
    /// The name with this number is free.
    Found(u32),
}

/// What follows after it was looked whether name number `n` is taken.
pub open spec fn box_after(n: u32, taken: bool) -> BoxSearch {
    if taken {
        BoxSearch::Probe((n + 1) as u32)
    } else {
        BoxSearch::Found(n)
    }
}

/// The number that the search from `n` on ends with, `free` being a number whose
/// name is not taken.
pub open spec fn box_found(taken: spec_fn(u32) -> bool, n: u32, free: u32) -> u32
    decreases free - n,
{
    if n >= free {
        free
    } else {
        match box_after(n, taken(n)) {
            BoxSearch::Found(k) => k,
            BoxSearch::Probe(k) => if k > n {
                box_found(taken, k, free)
            } else {
                free
            },
        }
    }
}

/// The search ends with the first name that is not taken.
pub proof fn search_finds_the_first(taken: spec_fn(u32) -> bool, n: u32, free: u32)
    requires
        n <= free,
        !taken(free),
    ensures
        n <= box_found(taken, n, free) <= free,
        !taken(box_found(taken, n, free)),
        forall|k: u32| n <= k < box_found(taken, n, free) ==> #[trigger] taken(k),
    decreases free - n,
{
    if n < free && taken(n) {
        search_finds_the_first(taken, (n + 1) as u32, free);
    }
}

/// What follows after it was looked whether name number `n` is taken.
pub fn search_box(n: u32, taken: bool) -> (r: BoxSearch)
    requires
        taken ==> n < u32::MAX,
    ensures
        r == box_after(n, taken),
{
    if taken {
        BoxSearch::Probe(n + 1)
    } else {
        BoxSearch::Found(n)
    }
}

/// No two numbers give the same name.
pub proof fn box_names_differ(a: nat, b: nat)
    requires
        a != b,
    ensures
        box_text(a) != box_text(b),
{
    reveal_strlit("收纳箱");
    reveal_strlit("收纳箱 ");
    let space = "收纳箱 "@.len();
    if a == 1 {
        assert(box_text(a).len() < box_text(b).len());
    } else if b == 1 {
        assert(box_text(b).len() < box_text(a).len());
    } else if box_text(a) == box_text(b) {
        assert(box_text(a).skip(space as int) == decimal(a));
        assert(box_text(b).skip(space as int) == decimal(b));
        crate::text::decimal_is_injective(a, b);
    }
}

/// Takes another configuration into use: all fences go, and with them what took
/// drops and all watching; their windows, which are returned, are to be destroyed.
pub fn reload(g: &mut Global, config: Config) -> (r: Vec<usize>)
    ensures
        r@ == windows_of(old(g).fences@),
        final(g).fences@.len() == 0,
        final(g).droptargets@.len() == 0,
        final(g).watchers@.len() == 0,
        final(g).config == config,
        final(g).same_but_windows(Global { config, ..*old(g) }),
{
    let windows: Vec<usize> = live_windows(g);
    g.config = config;
    g.fences = Vec::new();
    g.droptargets = Vec::new();
    g.watchers = Vec::new();
    windows
}

/// The fences that the configuration asks for, in its order.
pub fn configured_fences(g: &Global) -> (r: Vec<FenceCfg>)
    ensures
        fence_views(r@) == g.config@.fences,
{
    let mut out: Vec<FenceCfg> = Vec::new();
    let mut i: usize = 0;
    while i < g.config.fences.len()
        invariant
            i <= g.config.fences@.len(),
            out@.len() == i,
            forall|k: int| 0 <= k < i ==> (#[trigger] out@[k])@ == g.config.fences@[k]@,
        decreases g.config.fences@.len() - i,
    {
        out.push(g.config.fences[i].copy());
        i += 1;
    }
    assert(fence_views(out@) == g.config@.fences);
    out
}

/// What is done about starting with the system.
#[derive(Clone, Copy, PartialEq, Eq, Structural, Debug)]
pub enum Autostart {
    /// Enter the program's path.
    Enter,
    /// Take the entry out.
    Remove,
    /// Nothing.
    Leave,
}

/// What is done about starting with the system: the program's path is entered if
/// it is known.
pub fn set_autostart(enabled: bool, path_known: bool) -> (r: Autostart)
    ensures
        r == if !enabled {
            Autostart::Remove
        } else if path_known {
            Autostart::Enter
        } else {
            Autostart::Leave
        },
{
    if !enabled {
        Autostart::Remove
    } else if path_known {
        Autostart::Enter
    } else {
        Autostart::Leave
    }
}

/// The time in milliseconds since 1970; 0 if the clock stands before that.
pub fn now_ms(since_1970: Option<u128>) -> (r: u64)
    ensures
        r == match since_1970 {
            Some(ms) => (ms % 0x1_0000_0000_0000_0000) as int,
            None => 0,
        },
{
    match since_1970 {
        Some(ms) => (ms % 0x1_0000_0000_0000_0000) as u64,
        None => 0,
    }
}

/// Two states that are the same but for the fences agree on everything else, and
/// the other way round; so do two that are the same but for the windows, on
/// everything but the fences, what takes drops and what is watched.
pub proof fn the_rest_is_the_same(a: Global, b: Global)
    ensures
        a.same_but_fences(b) <==> a.config == b.config && a.next_id == b.next_id && a.msg_hwnd
            == b.msg_hwnd && a.zen == b.zen && a.sweep_retry == b.sweep_retry && a.exiting
            == b.exiting && a.droptargets == b.droptargets && a.watchers == b.watchers,
        a.same_but_windows(b) <==> a.config == b.config && a.next_id == b.next_id && a.msg_hwnd
            == b.msg_hwnd && a.zen == b.zen && a.sweep_retry == b.sweep_retry && a.exiting
            == b.exiting,
{
}

/// What is shown are the configurations of the fences, and what is watched are
/// the places, one for each and in order.
pub proof fn each_fence_is_shown(g: Global)
    ensures
        shown(g).len() == g.fences@.len(),
        forall|i: int| 0 <= i < g.fences@.len() ==> shown(g)[i] == (#[trigger] g.fences@[i]).cfg@,
        watched(g).len() == g.watchers@.len(),
        forall|i: int| 0 <= i < g.watchers@.len() ==> watched(g)[i] == (#[trigger] g.watchers@[i])@,
{
}

/// A movement with the left button down is followed, and so is one over a fence
/// that needs no pointer; otherwise what was going on is called off.
pub proof fn held_button_is_followed(g: Global, hwnd: usize, keys: usize, i: usize)
    requires
        first_with(g.fences@, hwnd, 0) == Some(i),
    ensures
        ({
            let f = g.fences@[i as int];
            let busy = f.moving || f.resizing is Some || f.drag_idx is Some;
            match move_action(g, hwnd, keys) {
                MoveAction::Unknown => false,
                MoveAction::CalledOff(c) => {
                    &&& keys % 2 == 0
                    &&& busy
                    &&& c.render == (f.drag_idx is Some || f.hover is Some)
                    &&& c.save == ((f.moving || f.resizing is Some) && f.drag_moved)
                },
                MoveAction::Follow { idx, drag, came_up } => {
                    &&& keys % 2 == 1 || !busy
                    &&& idx == i
                    &&& drag is Move <==> f.moving
                    &&& drag is Resize <==> !f.moving && f.resizing is Some
                    &&& drag is Entry <==> !f.moving && f.resizing is None && f.drag_idx is Some
                    &&& came_up == (g.config.ghost_mode && !f.hover_visible)
                },
            }
        }),
{
    assert(keys & 1 == keys % 2) by (bit_vector);
}

/// A movement over a window that no fence has is nobody's.
pub proof fn foreign_window_is_unknown(g: Global, hwnd: usize, keys: usize)
    ensures
        move_action(g, hwnd, keys) is Unknown <==> first_with(g.fences@, hwnd, 0) is None,
{
}

/// A fence that has a position keeps it, whatever the screen is and however many
/// fences there are; so does it keep its number if it has one, its size where
/// that is at least the least one, its title, its folder and its looks.
pub proof fn prepared_fence_keeps_what_it_has(
    cfg: FenceCfgView,
    next_id: u32,
    n: nat,
    screen_w: int,
    screen_h: int,
    s: nat,
)
    ensures
        ({
            let r = prepared(cfg, next_id, n, screen_w, screen_h, s);
            &&& cfg.x != 0 || cfg.y != 0 ==> r.x == cfg.x && r.y == cfg.y
            &&& cfg.id != 0 ==> r.id == cfg.id
            &&& cfg.id == 0 ==> r.id == next_id
            &&& cfg.w >= whole(times(180, s)) ==> r.w == cfg.w
            &&& cfg.w < whole(times(180, s)) ==> r.w == whole(times(180, s))
            &&& cfg.h >= whole(times(100, s)) ==> r.h == cfg.h
            &&& cfg.h < whole(times(100, s)) ==> r.h == whole(times(100, s))
            &&& r.title == cfg.title && r.folder == cfg.folder
            &&& r.opacity == cfg.opacity && r.icon == cfg.icon
        }),
{
}

/// A fence without a position gets one by how many fences there are, and not by
/// anything else about it; the sixth goes where the first went.
pub proof fn position_comes_from_the_count(
    a: FenceCfgView,
    b: FenceCfgView,
    next_id: u32,
    n: nat,
    screen_w: int,
    screen_h: int,
    s: nat,
)
    requires
        a.x == 0 && a.y == 0,
        b.x == 0 && b.y == 0,
    ensures
        prepared(a, next_id, n, screen_w, screen_h, s).x == prepared(
            b,
            next_id,
            n + 5,
            screen_w,
            screen_h,
            s,
        ).x,
        prepared(a, next_id, n, screen_w, screen_h, s).y == prepared(
            b,
            next_id,
            n + 5,
            screen_w,
            screen_h,
            s,
        ).y,
        prepared(a, next_id, n, screen_w, screen_h, s).x == cascade_x(screen_w, n, s) as i32,
        prepared(a, next_id, n, screen_w, screen_h, s).y == cascade_y(screen_h, n, s) as i32,
{
}

/// On a display whose factor is a whole number: of each five fences without a
/// position the first goes 340 logical pixels from the right end of the screen
/// and 80 from the top, and each further one 30 further in and 40 further down,
/// but not left of the screen and not below 400 from its lower end; and the least
/// size is 180 by 100.
pub proof fn cascade_goes_in_and_down(
    cfg: FenceCfgView,
    next_id: u32,
    n: nat,
    screen_w: int,
    screen_h: int,
    m: nat,
)
    requires
        1 <= m <= 1000,
        0 <= screen_w <= i32::MAX,
        0 <= screen_h <= i32::MAX,
    ensures
        ({
            let s = (m * 0x4000_0000) as nat;
            let k = n as int % 5;
            let x = screen_w - m * (340 + 30 * k);
            let y = m * (80 + 40 * k);
            let r = prepared(cfg, next_id, n, screen_w, screen_h, s);
            &&& cascade_x(screen_w, n, s) == if x > 0 {
                x
            } else {
                0
            }
            &&& y + 400 * m <= screen_h ==> cascade_y(screen_h, n, s) == y
            &&& y + 400 * m > screen_h && screen_h >= 400 * m ==> cascade_y(screen_h, n, s)
                == screen_h - 400 * m
            &&& screen_h < 400 * m ==> cascade_y(screen_h, n, s) == 0
            &&& cfg.w >= 180 * m ==> r.w == cfg.w
            &&& cfg.w < 180 * m ==> r.w == 180 * m
            &&& cfg.h >= 100 * m ==> r.h == cfg.h
            &&& cfg.h < 100 * m ==> r.h == 100 * m
        }),
{
    crate::scale::whole_factor_multiplies(320, m);
    crate::scale::whole_factor_multiplies(20, m);
    crate::scale::whole_factor_multiplies(30, m);
    crate::scale::whole_factor_multiplies(40, m);
    crate::scale::whole_factor_multiplies(80, m);
    crate::scale::whole_factor_multiplies(400, m);
    crate::scale::whole_factor_multiplies(180, m);
    crate::scale::whole_factor_multiplies(100, m);
    let k = n as int % 5;
    assert(m * (340 + 30 * k) == 320 * m + 20 * m + k * (30 * m)) by (nonlinear_arith);
    assert(m * (80 + 40 * k) == 80 * m + k * (40 * m)) by (nonlinear_arith);
    assert(k * (40 * m) >= 0 && k * (30 * m) >= 0) by (nonlinear_arith)
        requires
            k >= 0,
            m >= 0,
    ;
}

/// The windows are gathered fence by fence: those of two groups of fences are
/// those of the one followed by those of the other, and one fence has its window
/// if that was not destroyed, and none otherwise.
pub proof fn windows_are_gathered_in_order(a: Seq<Fence>, b: Seq<Fence>, f: Fence)
    ensures
        windows_of(a + b) == windows_of(a) + windows_of(b),
        f.valid ==> windows_of(seq![f]) == seq![f.hwnd],
        !f.valid ==> windows_of(seq![f]) == Seq::<usize>::empty(),
    decreases b.len(),
{
    if b.len() == 0 {
        assert(a + b == a);
        assert(windows_of(a) + windows_of(b) == windows_of(a));
    } else {
        windows_are_gathered_in_order(a, b.drop_last(), f);
        assert((a + b).drop_last() == a + b.drop_last());
        assert((a + b).last() == b.last());
        assert(windows_of(a + b) == windows_of(a) + windows_of(b));
    }
    assert(seq![f].drop_last() == Seq::<Fence>::empty());
    assert(windows_of(seq![f].drop_last()) == Seq::<usize>::empty());
    if f.valid {
        assert(windows_of(seq![f]) == seq![f.hwnd]);
    } else {
        assert(windows_of(seq![f]) == Seq::<usize>::empty());
    }
}

/// The fences that are made anew come in order, each once.
pub proof fn lost_fences_come_in_order(fences: Seq<Fence>, i: nat)
    requires
        fences.len() <= usize::MAX,
    ensures
        forall|j: int, k: int|
            0 <= j < k < lost_from(fences, i).len() ==> #[trigger] lost_from(fences, i)[j]
                < #[trigger] lost_from(fences, i)[k],
    decreases fences.len() - i,
{
    if i < fences.len() {
        lost_fences_come_in_order(fences, i + 1);
        lemma_lost_range(fences, i + 1);
        let rest = lost_from(fences, i + 1);
        let here = lost_from(fences, i);
        if !fences[i as int].valid {
            assert forall|j: int, k: int| 0 <= j < k < here.len() implies #[trigger] here[j]
                < #[trigger] here[k] by {
                assert(here[k] == rest[k - 1]);
                if j > 0 {
                    assert(here[j] == rest[j - 1]);
                }
            }
        }
    }
}

/// What comes of a path: it is left alone if it is not there or already where it
/// is to go, and otherwise it is moved if it can be.
pub proof fn path_is_moved_where_it_can_be(present: bool, already_there: bool, movable: bool)
    ensures
        drop_outcome(present, already_there, movable) is Moved <==> present && !already_there
            && movable,
        drop_outcome(present, already_there, movable) is Failed <==> present && !already_there
            && !movable,
{
}

/// The next path is the one behind those of which something has come, as long as
/// there is one.
pub proof fn paths_are_taken_in_turn(run: DropRun, i: usize)
    ensures
        run.upcoming() == Some(i) <==> i < run.paths && i == run.outcomes@.len(),
        run.upcoming() is None <==> run.outcomes@.len() >= run.paths,
{
}

/// On a display whose factor is a whole number, a fence is laid out where and as
/// large as it says, so many times the logical pixels, on every screen that it
/// can be held on.
pub proof fn layout_counts_from_the_right(
    id: u32,
    title: Seq<char>,
    folder: Option<LocationView>,
    from_right: nat,
    down: int,
    width: nat,
    screen_w: int,
    m: nat,
)
    requires
        1 <= m <= 1000,
        from_right <= 1000,
        width <= 1000,
        0 <= down <= 4,
        0 <= screen_w <= i32::MAX,
    ensures
        ({
            let s = (m * 0x4000_0000) as nat;
            let r = laid_out(id, title, folder, from_right, down, width, screen_w, s);
            &&& layout_fits(from_right, down, screen_w, s)
            &&& r.x == screen_w - from_right * m
            &&& r.y == (100 + 40 * down) * m
            &&& r.w == width * m
            &&& r.h == 340 * m
            &&& r.id == id && r.title == title && r.folder == folder
            &&& r.opacity == DEFAULT_OPACITY && r.icon == 32
        }),
{
    assert(from_right * m <= 1_000_000) by (nonlinear_arith)
        requires
            from_right <= 1000,
            m <= 1000,
    ;
    assert(width * m <= 1_000_000) by (nonlinear_arith)
        requires
            width <= 1000,
            m <= 1000,
    ;
    assert((100 + 40 * down) * m == 100 * m + down * (40 * m)) by (nonlinear_arith);
    assert(0 <= down * (40 * m) <= 160_000) by (nonlinear_arith)
        requires
            0 <= down <= 4,
            0 <= m <= 1000,
    ;
    crate::scale::whole_factor_multiplies(from_right, m);
    crate::scale::whole_factor_multiplies(width, m);
    crate::scale::whole_factor_multiplies(100, m);
    crate::scale::whole_factor_multiplies(40, m);
    crate::scale::whole_factor_multiplies(340, m);
}

/// On every display up to a thousand times scaled, and every screen, a fence can
/// be laid out.
pub proof fn layout_fits_ordinary_screens(from_right: nat, down: int, screen_w: int, s: nat)
    requires
        s <= 1000 * 0x4000_0000,
        from_right <= 1000,
        0 <= down <= 4,
        0 <= screen_w,
    ensures
        layout_fits(from_right, down, screen_w, s),
{
    crate::scale::lengths_grow_with_the_factor(100, s);
    crate::scale::lengths_grow_with_the_factor(40, s);
    crate::scale::whole_pixels_are_rounded_down(times(100, s));
    crate::scale::whole_pixels_are_rounded_down(times(40, s));
    crate::scale::whole_pixels_are_rounded_down(times(from_right, s));
    let step = whole(times(40, s));
    assert(step <= 80_000);
    assert(down * step <= 320_000) by (nonlinear_arith)
        requires
            0 <= down <= 4,
            0 <= step <= 80_000,
    ;
}

/// The names of collecting fences begin alike; all but the first go on with a
/// space and their number.
pub proof fn box_names_tell_their_number(n: nat)
    ensures
        box_text(1) == seq!['收', '纳', '箱'],
        n != 1 ==> box_text(n) == box_text(1).push(' ') + decimal(n),
{
    reveal_strlit("收纳箱");
    reveal_strlit("收纳箱 ");
    assert(box_text(1) == seq!['收', '纳', '箱']);
    assert("收纳箱 "@ == box_text(1).push(' '));
}

/// The directories of collecting fences stand in one directory, beside the
/// configuration.
pub proof fn boxes_stand_side_by_side(appdata: Option<Seq<char>>, n: nat)
    ensures
        box_location(appdata, n).base == config_dir_of(appdata).base,
        box_location(appdata, n).parts == seq!["feather-fences"@, "boxes"@, box_text(n)],
{
    assert(box_location(appdata, n).parts == seq!["feather-fences"@, "boxes"@, box_text(n)]);
}

/// Looking whether a name is taken leads to the next number if it is, and ends
/// the search if it is not.
pub proof fn search_goes_number_by_number(n: u32)
    requires
        n < u32::MAX,
    ensures
        box_after(n, false) == BoxSearch::Found(n),
        box_after(n, true) matches BoxSearch::Probe(k) && k == n + 1,
{
}

/// On every display: the first fence without a position goes as far from the
/// right end of the screen as 320 and 20 logical pixels are, and each of the next
/// four as far further in as 30 are and as far further down as 40 are, unless
/// there is no room.
pub proof fn cascade_goes_step_by_step(screen_w: int, screen_h: int, n: nat, s: nat)
    requires
        n as int % 5 < 4,
    ensures
        screen_w - whole(times(320, s)) - whole(times(20, s)) >= 0 ==> cascade_x(screen_w, 0, s)
            == screen_w - whole(times(320, s)) - whole(times(20, s)),
        cascade_x(screen_w, n + 1, s) > 0 ==> cascade_x(screen_w, n, s) - cascade_x(
            screen_w,
            n + 1,
            s,
        ) == whole(times(30, s)),
        cascade_x(screen_w, n, s) >= 0,
        cascade_x(screen_w, n + 1, s) <= cascade_x(screen_w, n, s),
        whole(times(80, s)) + whole(times(400, s)) <= screen_h ==> cascade_y(screen_h, 0, s)
            == whole(times(80, s)),
        cascade_y(screen_h, n + 1, s) + whole(times(400, s)) < screen_h ==> cascade_y(
            screen_h,
            n + 1,
            s,
        ) - cascade_y(screen_h, n, s) == whole(times(40, s)),
{
    let k = n as int % 5;
    assert((n + 1) as int % 5 == k + 1);
    let right = whole(times(30, s));
    let down = whole(times(40, s));
    assert((k + 1) * right == k * right + right && (k + 1) * down == k * down + down)
        by (nonlinear_arith);
    assert(0 * right == 0 && 0 * down == 0);
    assert(cascade(0) == 0);
}

/// On every display that a fence can be laid out on, it ends as far from the
/// right end of the screen, lies as far down and is as large as the logical
/// pixels that were asked for are there, rounded down.
pub proof fn layout_is_in_whole_pixels(
    id: u32,
    title: Seq<char>,
    folder: Option<LocationView>,
    from_right: nat,
    down: int,
    width: nat,
    screen_w: int,
    s: nat,
)
    requires
        layout_fits(from_right, down, screen_w, s),
        0 <= down,
        screen_w <= i32::MAX,
    ensures
        ({
            let r = laid_out(id, title, folder, from_right, down, width, screen_w, s);
            &&& r.x + whole(times(from_right, s)) == screen_w
            &&& r.y == whole(times(100, s)) + down * whole(times(40, s))
            &&& r.w == whole(times(width, s))
            &&& r.h == whole(times(340, s))
        }),
{
    let step = whole(times(40, s));
    assert(down * step >= 0) by (nonlinear_arith)
        requires
            down >= 0,
            step >= 0,
    ;
}

} // verus!
