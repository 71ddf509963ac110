//! Windows: their styles, which message asks for what, and how a fence follows
//! the display that it is on.

use crate::config::FenceCfg;
use crate::fence::Fence;
use crate::geometry::{min_h, min_w, scale_of, window_dpi, Rect};
use crate::global::{at_least, Cancelled};
use crate::pointer::{redrawn, redraws, Moved, Press, Wheel};
use crate::scale::{dpi_ratio, rounded_unsigned, times, whole, Scale, HUNDREDTH};
use crate::text::{append_decimal, decimal, number_in, utf16, wstr};
use crate::tray::WM_APP_TRAY;
use vstd::prelude::*;

verus! {

pub const WM_DESTROY: u32 = 0x0002;

pub const WM_SIZE: u32 = 0x0005;

pub const WM_PAINT: u32 = 0x000F;

pub const WM_QUIT: u32 = 0x0012;

pub const WM_ERASEBKGND: u32 = 0x0014;

pub const WM_CANCELMODE: u32 = 0x001F;

pub const WM_SETCURSOR: u32 = 0x0020;

pub const WM_CONTEXTMENU: u32 = 0x007B;

pub const WM_DISPLAYCHANGE: u32 = 0x007E;

pub const WM_NCCREATE: u32 = 0x0081;

pub const WM_NCCALCSIZE: u32 = 0x0083;

pub const WM_NCHITTEST: u32 = 0x0084;

pub const WM_NCACTIVATE: u32 = 0x0086;

pub const WM_KEYDOWN: u32 = 0x0100;

pub const WM_SYSCOMMAND: u32 = 0x0112;

pub const WM_TIMER: u32 = 0x0113;

pub const WM_MOUSEMOVE: u32 = 0x0200;

pub const WM_LBUTTONDOWN: u32 = 0x0201;

pub const WM_LBUTTONUP: u32 = 0x0202;

pub const WM_LBUTTONDBLCLK: u32 = 0x0203;

pub const WM_RBUTTONUP: u32 = 0x0205;

pub const WM_MOUSEWHEEL: u32 = 0x020A;

pub const WM_CAPTURECHANGED: u32 = 0x0215;

pub const WM_MOUSELEAVE: u32 = 0x02A3;

pub const WM_DPICHANGED: u32 = 0x02E0;

pub const WM_HOTKEY: u32 = 0x0312;

/// The folder of a fence has changed.
pub const WM_APP_REFRESH: u32 = 0x8001;

/// Files have been dropped on a fence.
pub const WM_APP_DROP: u32 = 0x8002;

/// A fence has been minimized and is to come back.
pub const WM_APP_DESKTOP_RESTORE: u32 = 0x8003;

/// The desktop is to be swept.
pub const WM_APP_SWEEP: u32 = 0x8005;

pub const SC_MINIMIZE: u32 = 0xF020;

pub const SIZE_MINIMIZED: u32 = 1;

pub const VK_DELETE: usize = 0x2E;

pub const HTCLIENT: isize = 1;

/// The timer of the page animation.
pub const ANIM_TICK: usize = 0xFE10;

/// The timer that gathers changes of the folder.
pub const REFRESH_TICK: usize = 0xFE11;

/// The timer after which the acrylic material is set once more.
pub const BACKDROP_NUDGE_TICK: usize = 0xFE12;

/// How long after the window came up that is, in milliseconds.
pub const BACKDROP_NUDGE_MS: u32 = 500;

/// The timer that looks after destroyed windows.
pub const TID_WATCHDOG: usize = 1;

/// The timer that tries again to sweep files.
pub const TID_SWEEP_RETRY: usize = 3;

/// The last error of a start when the program is running already.
pub const ERROR_ALREADY_EXISTS: u32 = 183;

pub const WS_EX_TOOLWINDOW: u32 = 0x0000_0080;

pub const WS_EX_LAYERED: u32 = 0x0008_0000;

pub const WS_EX_NOREDIRECTIONBITMAP: u32 = 0x0020_0000;

pub const WS_POPUP: u32 = 0x8000_0000;

pub const WS_CAPTION: u32 = 0x00C0_0000;

/// What a message to a fence's window asks for.
#[derive(Clone, Copy, PartialEq, Eq, Structural, Debug)]
pub enum Request {
    /// What the system does with it by itself.
    Default,
    /// Not to be minimized.
    StayUp,
    /// To come back after it was minimized.
    AskRestore,
    /// To show again.
    Restore,
    /// Not to be erased: all of it is drawn anew.
    KeepBackground,
    /// To pass for active, so that its material stays alive.
    PassForActive,
    /// To be all client area.
    NoFrame,
    /// What the pointer is over.
    HitTest,
    /// To be drawn.
    Paint,
    /// It has been destroyed.
    Destroyed,
    /// Its folder has changed.
    Refresh,
    /// Files have been dropped on it.
    Dropped,
    /// The pointer has been taken away, or everything is called off.
    PointerTaken,
    /// To delete what is selected.
    Delete,
    PointerMoved,
    ButtonDown,
    ButtonUp,
    DoubleClick,
    RightButtonUp,
    Wheel,
    RefreshTimer,
    AnimationTimer,
    NudgeTimer,
    /// A timer that is not known.
    OtherTimer,
    PointerLeft,
    SetPointer,
    DpiChanged,
    DisplayChanged,
}

/// What a timer asks for.
pub open spec fn timer_request(id: usize) -> Request {
    if id == REFRESH_TICK {
        Request::RefreshTimer
    } else if id == ANIM_TICK {
        Request::AnimationTimer
    } else if id == BACKDROP_NUDGE_TICK {
        Request::NudgeTimer
    } else {
        Request::OtherTimer
    }
}

/// The command in a system command, without the bits that the system uses itself.
pub open spec fn system_command(wparam: usize) -> int {
    wparam as int % 0x1_0000 / 16 * 16
}

/// What a message to a fence's window asks for.  `acrylic` says whether fences
/// have the acrylic material, `reasserting` whether one is just passing for active.
pub open spec fn request_of(msg: u32, wparam: usize, acrylic: bool, reasserting: bool) -> Request {
    if msg == WM_SYSCOMMAND {
        if system_command(wparam) == SC_MINIMIZE {
            Request::StayUp
        } else {
            Request::Default
        }
    } else if msg == WM_SIZE {
        if wparam as int % 0x1_0000_0000 == SIZE_MINIMIZED {
            Request::AskRestore
        } else {
            Request::Default
        }
    } else if msg == WM_NCACTIVATE {
        if acrylic && wparam == 0 && !reasserting {
            Request::PassForActive
        } else {
            Request::Default
        }
    } else if msg == WM_NCCALCSIZE {
        if acrylic {
            Request::NoFrame
        } else {
            Request::Default
        }
    } else if msg == WM_KEYDOWN {
        if wparam == VK_DELETE {
            Request::Delete
        } else {
            Request::Default
        }
    } else if msg == WM_TIMER {
        timer_request(wparam)
    } else if msg == WM_APP_DESKTOP_RESTORE {
        Request::Restore
    } else if msg == WM_ERASEBKGND {
        Request::KeepBackground
    } else if msg == WM_NCHITTEST {
        Request::HitTest
    } else if msg == WM_PAINT {
        Request::Paint
    } else if msg == WM_DESTROY {
        Request::Destroyed
    } else if msg == WM_APP_REFRESH {
        Request::Refresh
    } else if msg == WM_APP_DROP {
        Request::Dropped
    } else if msg == WM_CANCELMODE || msg == WM_CAPTURECHANGED {
        Request::PointerTaken
    } else if msg == WM_MOUSEMOVE {
        Request::PointerMoved
    } else if msg == WM_LBUTTONDOWN {
        Request::ButtonDown
    } else if msg == WM_LBUTTONUP {
        Request::ButtonUp
    } else if msg == WM_LBUTTONDBLCLK {
        Request::DoubleClick
    } else if msg == WM_RBUTTONUP {
        Request::RightButtonUp
    } else if msg == WM_MOUSEWHEEL {
        Request::Wheel
    } else if msg == WM_MOUSELEAVE {
        Request::PointerLeft
    } else if msg == WM_SETCURSOR {
        Request::SetPointer
    } else if msg == WM_DPICHANGED {
        Request::DpiChanged
    } else if msg == WM_DISPLAYCHANGE {
        Request::DisplayChanged
    } else {
        Request::Default
    }
}

/// What a message to a fence's window asks for.
pub fn fence_wndproc(msg: u32, wparam: usize, acrylic: bool, reasserting: bool) -> (r: Request)
    ensures
        r == request_of(msg, wparam, acrylic, reasserting),
{
    if msg == WM_NCCREATE {
        return Request::Default;
    }
    if msg == WM_SYSCOMMAND && wparam % 0x1_0000 / 16 * 16 == SC_MINIMIZE as usize {
        return Request::StayUp;
    }
    if msg == WM_SIZE && wparam as u64 % 0x1_0000_0000 == SIZE_MINIMIZED as u64 {
        return Request::AskRestore;
    }
    if msg == WM_NCACTIVATE && acrylic && wparam == 0 && !reasserting {
        return Request::PassForActive;
    }
    if msg == WM_NCCALCSIZE && acrylic {
        return Request::NoFrame;
    }
    if msg == WM_KEYDOWN && wparam == VK_DELETE {
        return Request::Delete;
    }
    if msg == WM_TIMER {
        return if wparam == REFRESH_TICK {
            Request::RefreshTimer
        } else if wparam == ANIM_TICK {
            Request::AnimationTimer
        } else if wparam == BACKDROP_NUDGE_TICK {
            Request::NudgeTimer
        } else {
            Request::OtherTimer
        };
    }
    if msg == WM_APP_DESKTOP_RESTORE {
        Request::Restore
    } else if msg == WM_ERASEBKGND {
        Request::KeepBackground
    } else if msg == WM_NCHITTEST {
        Request::HitTest
    } else if msg == WM_PAINT {
        Request::Paint
    } else if msg == WM_DESTROY {
        Request::Destroyed
    } else if msg == WM_APP_REFRESH {
        Request::Refresh
    } else if msg == WM_APP_DROP {
        Request::Dropped
    } else if msg == WM_CANCELMODE || msg == WM_CAPTURECHANGED {
        Request::PointerTaken
    } else if msg == WM_MOUSEMOVE {
        Request::PointerMoved
    } else if msg == WM_LBUTTONDOWN {
        Request::ButtonDown
    } else if msg == WM_LBUTTONUP {
        Request::ButtonUp
    } else if msg == WM_LBUTTONDBLCLK {
        Request::DoubleClick
    } else if msg == WM_RBUTTONUP {
        Request::RightButtonUp
    } else if msg == WM_MOUSEWHEEL {
        Request::Wheel
    } else if msg == WM_MOUSELEAVE {
        Request::PointerLeft
    } else if msg == WM_SETCURSOR {
        Request::SetPointer
    } else if msg == WM_DPICHANGED {
        Request::DpiChanged
    } else if msg == WM_DISPLAYCHANGE {
        Request::DisplayChanged
    } else {
        Request::Default
    }
}

/// What a fence's window answers to a request; nothing where the answer is the
/// system's.
pub fn answer(request: Request) -> (r: Option<isize>)
    ensures
        r == match request {
            Request::Default | Request::PassForActive => None,
            Request::KeepBackground | Request::SetPointer => Some(1isize),
            Request::HitTest => Some(HTCLIENT),
            _ => Some(0isize),
        },
{
    match request {
        Request::Default | Request::PassForActive => None,
        Request::KeepBackground | Request::SetPointer => Some(1),
        Request::HitTest => Some(HTCLIENT),
        _ => Some(0),
    }
}

/// A fence is never minimized, with whatever bits the system adds to the command.
pub proof fn fences_are_never_minimized(wparam: usize, acrylic: bool, reasserting: bool)
    requires
        SC_MINIMIZE <= wparam < SC_MINIMIZE + 16,
    ensures
        request_of(WM_SYSCOMMAND, wparam, acrylic, reasserting) == Request::StayUp,
{
}

/// What a message to the program's own window asks for.
#[derive(Clone, Copy, PartialEq, Eq, Structural, Debug)]
pub enum AppRequest {
    /// What the system does with it by itself.
    Default,
    /// The menu of the icon.
    TrayMenu,
    /// Hide all fences, or show them.
    ToggleZen,
    /// Look after destroyed windows.
    Watchdog,
    /// Try again to sweep files.
    SweepRetry,
    /// Sweep the desktop.
    Sweep,
    /// End the program.
    Quit,
    /// Nothing.
    Ignore,
}

/// What a message to the program's own window asks for.
pub open spec fn app_request_of(msg: u32, wparam: usize, lparam: usize) -> AppRequest {
    if msg == WM_APP_TRAY {
        let action = lparam as int % 0x1_0000;
        if action == WM_RBUTTONUP || action == WM_CONTEXTMENU {
            AppRequest::TrayMenu
        } else if action == WM_LBUTTONDBLCLK {
            AppRequest::ToggleZen
        } else {
            AppRequest::Ignore
        }
    } else if msg == WM_HOTKEY {
        AppRequest::ToggleZen
    } else if msg == WM_TIMER {
        if wparam == TID_WATCHDOG {
            AppRequest::Watchdog
        } else if wparam == TID_SWEEP_RETRY {
            AppRequest::SweepRetry
        } else {
            AppRequest::Ignore
        }
    } else if msg == WM_APP_SWEEP {
        AppRequest::Sweep
    } else if msg == WM_DESTROY {
        AppRequest::Quit
    } else {
        AppRequest::Default
    }
}

/// What a message to the program's own window asks for.
pub fn msg_wndproc(msg: u32, wparam: usize, lparam: usize) -> (r: AppRequest)
    ensures
        r == app_request_of(msg, wparam, lparam),
{
    if msg == WM_APP_TRAY {
        let action: u32 = (lparam % 0x1_0000) as u32;
        if action == WM_RBUTTONUP || action == WM_CONTEXTMENU {
            AppRequest::TrayMenu
        } else if action == WM_LBUTTONDBLCLK {
            AppRequest::ToggleZen
        } else {
            AppRequest::Ignore
        }
    } else if msg == WM_HOTKEY {
        AppRequest::ToggleZen
    } else if msg == WM_TIMER {
        if wparam == TID_WATCHDOG {
            AppRequest::Watchdog
        } else if wparam == TID_SWEEP_RETRY {
            AppRequest::SweepRetry
        } else {
            AppRequest::Ignore
        }
    } else if msg == WM_APP_SWEEP {
        AppRequest::Sweep
    } else if msg == WM_DESTROY {
        AppRequest::Quit
    } else {
        AppRequest::Default
    }
}

/// Whether a start finds the program running already.
pub fn already_running(last_error: u32) -> (r: bool)
    ensures
        r == (last_error == ERROR_ALREADY_EXISTS),
{
    last_error == ERROR_ALREADY_EXISTS
}

/// How fences are drawn.
#[derive(Clone, Copy, PartialEq, Eq, Structural, Debug)]
pub enum RenderMode {
    /// As layered windows.
    Layered,
    /// On the acrylic material.
    AcrylicBackdrop,
}

/// Whether fences have the acrylic material.
pub fn acrylic_mode(mode: RenderMode) -> (r: bool)
    ensures
        r == (mode == RenderMode::AcrylicBackdrop),
{
    mode == RenderMode::AcrylicBackdrop
}

/// What a fence's window is made with.
#[derive(Clone, Copy, PartialEq, Eq, Structural, Debug)]
pub struct WindowPlan {
    pub ex_style: u32,
    pub style: u32,
    pub x: i32,
    pub y: i32,
    pub w: i32,
    pub h: i32,
}

/// What a fence's window is made with: the place and size that are configured,
/// and either it is layered, or it has the acrylic material, which takes a window
/// with a frame and without a surface of its own.
pub fn create_window(cfg: &FenceCfg, acrylic: bool) -> (r: WindowPlan)
    ensures
        acrylic ==> r.ex_style == WS_EX_TOOLWINDOW + WS_EX_NOREDIRECTIONBITMAP && r.style
            == WS_POPUP + WS_CAPTION,
        !acrylic ==> r.ex_style == WS_EX_TOOLWINDOW + WS_EX_LAYERED && r.style == WS_POPUP,
        r.x == cfg@.x && r.y == cfg@.y && r.w == cfg@.w && r.h == cfg@.h,
{
    let (ex_style, style): (u32, u32) = if acrylic {
        (WS_EX_TOOLWINDOW + WS_EX_NOREDIRECTIONBITMAP, WS_POPUP + WS_CAPTION)
    } else {
        (WS_EX_TOOLWINDOW + WS_EX_LAYERED, WS_POPUP)
    };
    WindowPlan { ex_style, style, x: cfg.x, y: cfg.y, w: cfg.w, h: cfg.h }
}

/// The title that a fence's window is made with, with a zero behind it.
pub fn window_title(cfg: &FenceCfg) -> (r: Vec<u16>)
    ensures
        r@ == utf16(cfg@.title).push(0),
{
    wstr(cfg.title.as_str())
}

/// What is done to a fence's window once it is there.
#[derive(Clone, Copy, PartialEq, Eq, Structural, Debug)]
pub enum CreateStep {
    /// Give it the acrylic material.
    Material,
    /// Put it right above the desktop or, if `above_icons`, the desktop's icons.
    Insert { above_icons: bool },
    /// Show it without activating it.
    Show,
    /// Round its corners.
    Round,
    /// Have the material set once more after a while.
    NudgeLater,
    /// Draw it.
    Render,
}

/// What is done to a fence's window once it is there, in this order.
pub open spec fn steps_after_creation(acrylic: bool) -> Seq<CreateStep> {
    if acrylic {
        seq![
            CreateStep::Material,
            CreateStep::Insert { above_icons: true },
            CreateStep::Show,
            CreateStep::Round,
            CreateStep::Material,
            CreateStep::NudgeLater,
            CreateStep::Render,
        ]
    } else {
        seq![
            CreateStep::Insert { above_icons: false },
            CreateStep::Show,
            CreateStep::Round,
            CreateStep::Render,
        ]
    }
}

/// What is done to the window `hwnd` of a fence once it is there; nothing if
/// there is none.
pub fn after_creation(acrylic: bool, hwnd: usize) -> (r: Vec<CreateStep>)
    ensures
        r@ == if hwnd == 0 {
            Seq::empty()
        } else {
            steps_after_creation(acrylic)
        },
{
    let mut v: Vec<CreateStep> = Vec::new();
    if hwnd == 0 {
        return v;
    }
    if acrylic {
        v.push(CreateStep::Material);
    }
    v.push(CreateStep::Insert { above_icons: acrylic });
    v.push(CreateStep::Show);
    v.push(CreateStep::Round);
    if acrylic {
        v.push(CreateStep::Material);
        v.push(CreateStep::NudgeLater);
    }
    v.push(CreateStep::Render);
    v
}

/// A step in giving a window the acrylic material.
#[derive(Clone, Copy, PartialEq, Eq, Structural, Debug)]
pub enum MaterialStep {
    /// Choose the material.
    Choose,
    /// Extend the frame into the client area by this much on every side.
    Extend(i32),
    /// Have the frame computed anew.
    FrameChanged,
    /// Wait until the system has drawn.
    Flush,
    /// Choose the dark variant.
    Dark,
    /// Have the window pass for active.
    PassForActive,
}

/// The steps that give a window the acrylic material.  It comes up only when the
/// frame's extent changes, and each change counts only once the frame has been
/// computed anew.
pub open spec fn material_steps() -> Seq<MaterialStep> {
    seq![
        MaterialStep::Choose,
        MaterialStep::Extend(-1i32),
        MaterialStep::FrameChanged,
        MaterialStep::Extend(0),
        MaterialStep::FrameChanged,
        MaterialStep::Flush,
        MaterialStep::Dark,
        MaterialStep::PassForActive,
    ]
}

/// The steps that give a window the acrylic material.
pub fn apply_acrylic_backdrop() -> (r: Vec<MaterialStep>)
    ensures
        r@ == material_steps(),
{
    let mut v: Vec<MaterialStep> = Vec::new();
    v.push(MaterialStep::Choose);
    v.push(MaterialStep::Extend(-1));
    v.push(MaterialStep::FrameChanged);
    v.push(MaterialStep::Extend(0));
    v.push(MaterialStep::FrameChanged);
    v.push(MaterialStep::Flush);
    v.push(MaterialStep::Dark);
    v.push(MaterialStep::PassForActive);
    v
}

/// The frame is computed anew right after every change of its extent, and its
/// extent does change.
pub proof fn material_comes_up(i: int)
    requires
        0 <= i < material_steps().len(),
    ensures
        material_steps()[i] is Extend ==> i + 1 < material_steps().len() && material_steps()[i + 1]
            == MaterialStep::FrameChanged,
        exists|a: int, b: int|
            0 <= a < b < material_steps().len() && #[trigger] material_steps()[a]
                == MaterialStep::Extend(-1i32) && #[trigger] material_steps()[b]
                == MaterialStep::Extend(0),
{
    assert(material_steps()[1] == MaterialStep::Extend(-1i32));
    assert(material_steps()[3] == MaterialStep::Extend(0));
}

/// Whether a fence that was minimized shows again.
pub fn restores(zen: bool, known: bool) -> (r: bool)
    ensures
        r == (!zen && known),
{
    !zen && known
}

/// What has happened to a fence, and what came of it.
#[derive(Clone, Copy, PartialEq, Eq, Structural, Debug)]
pub enum Occasion {
    /// Its window is to be painted.
    Painted,
    /// It was minimized; it shows again, or not.
    Restored { shows: bool },
    /// The pointer's business was called off.
    CalledOff(Cancelled),
    /// The selected entry was to be deleted, and was, or not.
    Deleted { gone: bool },
    /// The pointer moved; the fence has just come up, or not.
    PointerMoved { came_up: bool, moved: Moved },
    /// The left button has gone down.
    Pressed(Press),
    /// The right button has come up, at the height `y`, over the entry `hit`.
    RightClicked { y: i32, title_h: i32, hit: Option<usize> },
    /// The wheel was turned.
    WheelTurned(Wheel),
    /// The page animation goes on.
    AnimationTick,
    /// The pointer has left.
    PointerLeft,
    /// The display is another one; the fence has changed with it, or not.
    DisplayChanged { changed: bool },
}

/// Whether a fence is drawn anew; `acrylic` says whether it has the acrylic
/// material.  What is painted otherwise stays by itself.
pub open spec fn drawn_after(occasion: Occasion, acrylic: bool) -> bool {
    match occasion {
        Occasion::Painted => acrylic,
        Occasion::Restored { shows } => shows,
        Occasion::CalledOff(c) => c.render,
        Occasion::Deleted { gone } => gone,
        Occasion::PointerMoved { came_up, moved } => redrawn(came_up, moved),
        Occasion::Pressed(press) => press is Entry || press is Cleared,
        Occasion::RightClicked { y, title_h, hit } => y >= title_h && hit is Some,
        Occasion::WheelTurned(w) => w != Wheel::Partial,
        Occasion::AnimationTick => true,
        Occasion::PointerLeft => true,
        Occasion::DisplayChanged { changed } => changed,
    }
}

/// Whether a fence is drawn anew.
pub fn is_drawn(occasion: Occasion, acrylic: bool) -> (r: bool)
    ensures
        r == drawn_after(occasion, acrylic),
{
    match occasion {
        Occasion::Painted => acrylic,
        Occasion::Restored { shows } => shows,
        Occasion::CalledOff(c) => c.render,
        Occasion::Deleted { gone } => gone,
        Occasion::PointerMoved { came_up, moved } => redraws(came_up, moved),
        Occasion::Pressed(press) => match press {
            Press::Entry(_) | Press::Cleared => true,
            _ => false,
        },
        Occasion::RightClicked { y, title_h, hit } => y >= title_h && hit.is_some(),
        Occasion::WheelTurned(w) => match w {
            Wheel::Partial => false,
            _ => true,
        },
        Occasion::AnimationTick => true,
        Occasion::PointerLeft => true,
        Occasion::DisplayChanged { changed } => changed,
    }
}

/// What the signal of a folder's changes says when the timer runs out.
#[derive(Clone, Copy, PartialEq, Eq, Structural, Debug)]
pub enum RefreshTimerAction {
    /// There is nothing to do.
    Idle,
    /// There have been changes just now: wait for so many milliseconds.
    Wait(u32),
    /// It has been quiet: read the folder.
    Refresh,
}

/// What is done about the timer, and whether the folder is read.
#[derive(Clone, Copy, PartialEq, Eq, Structural, Debug)]
pub struct RefreshPlan {
    /// Start the timer anew, with so many milliseconds.
    pub restart: Option<u32>,
    /// Stop the timer.
    pub stop: bool,
    /// Forget about the signal.
    pub cancel: bool,
    /// Read the folder now.
    pub refresh: bool,
}

/// What is done when the timer runs out; `restarted` says whether a timer that
/// had to be started anew was.
pub fn refresh_timer(action: RefreshTimerAction, restarted: bool) -> (r: RefreshPlan)
    ensures
        r == match action {
            RefreshTimerAction::Idle => (RefreshPlan {
                restart: None,
                stop: true,
                cancel: false,
                refresh: false,
            }),
            RefreshTimerAction::Wait(ms) => (RefreshPlan {
                restart: Some(ms),
                stop: false,
                cancel: !restarted,
                refresh: !restarted,
            }),
            RefreshTimerAction::Refresh => (RefreshPlan {
                restart: None,
                stop: true,
                cancel: false,
                refresh: true,
            }),
        },
{
    match action {
        RefreshTimerAction::Idle => RefreshPlan {
            restart: None,
            stop: true,
            cancel: false,
            refresh: false,
        },
        RefreshTimerAction::Wait(ms) => RefreshPlan {
            restart: Some(ms),
            stop: false,
            cancel: !restarted,
            refresh: !restarted,
        },
        RefreshTimerAction::Refresh => RefreshPlan {
            restart: None,
            stop: true,
            cancel: false,
            refresh: true,
        },
    }
}

/// What is done when files have been dropped on a fence: its folder is read now,
/// whatever the timer was waiting for.
pub fn files_dropped() -> (r: RefreshPlan)
    ensures
        r == (RefreshPlan { restart: None, stop: true, cancel: true, refresh: true }),
{
    RefreshPlan { restart: None, stop: true, cancel: true, refresh: true }
}

/// The fence is on a display of another DPI now, and the system has said which
/// rectangle it is to take there.
pub fn dpi_changed(f: &mut Fence, wparam: usize, rect: Rect) -> (r: bool)
    requires
        wparam as int % 0x1_0000 != 0 ==> rect.right - rect.left <= i32::MAX,
        wparam as int % 0x1_0000 != 0 ==> rect.bottom - rect.top <= i32::MAX,
    ensures
        r == (wparam as int % 0x1_0000 != 0),
        !r ==> *final(f) == *old(f),
        r ==> {
            let dpi = (wparam as int % 0x1_0000) as u32;
            &&& final(f).dpi@ == dpi_ratio(dpi)
            &&& *final(f) == (Fence {
                dpi: final(f).dpi,
                cfg_dpi: dpi,
                cfg: FenceCfg {
                    x: rect.left,
                    y: rect.top,
                    w: at_least(rect.right - rect.left, 1) as i32,
                    h: at_least(rect.bottom - rect.top, 1) as i32,
                    ..old(f).cfg
                },
                ..*old(f)
            })
        },
{
    let dpi: u32 = (wparam % 0x1_0000) as u32;
    if dpi == 0 {
        return false;
    }
    let w: i64 = rect.right as i64 - rect.left as i64;
    let h: i64 = rect.bottom as i64 - rect.top as i64;
    f.dpi = Scale::ratio(dpi);
    f.cfg.x = rect.left;
    f.cfg.y = rect.top;
    f.cfg.w = if w < 1 {
        1
    } else {
        w as i32
    };
    f.cfg.h = if h < 1 {
        1
    } else {
        h as i32
    };
    f.cfg_dpi = dpi;
    true
}

/// The DPI that belongs to a factor.
pub fn display_dpi(d: Scale) -> (r: u32)
    ensures
        r == rounded_unsigned(times(96, d@)),
{
    d.round_unsigned(96)
}

/// The size of a fence on a display at the factor `s`: what was meant, but at
/// least the least size.
pub open spec fn fitted(w: int, h: int, s: nat) -> (int, int) {
    (at_least(w, whole(times(180, s))), at_least(h, whole(times(100, s))))
}

/// The display has changed; `scaled_w` and `scaled_h` are the fence's size there.
/// The fence stays where it is, even off the screen, so that it is back in its
/// place when the display is.
pub fn display_changed(f: &mut Fence, dpi_of_window: u32, scaled_w: i32, scaled_h: i32) -> (r: bool)
    ensures
        ({
            let s = scale_of(dpi_of_window);
            let size = fitted(scaled_w as int, scaled_h as int, s);
            let same = size.0 == old(f).cfg.w && size.1 == old(f).cfg.h && !(old(f).dpi@ > s
                + HUNDREDTH || s > old(f).dpi@ + HUNDREDTH);
            &&& r == !same
            &&& same ==> *final(f) == *old(f)
            &&& !same ==> final(f).dpi@ == s && *final(f) == (Fence {
                dpi: final(f).dpi,
                cfg_dpi: rounded_unsigned(times(96, s)) as u32,
                cfg: FenceCfg { w: size.0 as i32, h: size.1 as i32, ..old(f).cfg },
                ..*old(f)
            })
        }),
{
    let d: Scale = window_dpi(dpi_of_window);
    let least_w: i32 = min_w(d);
    let least_h: i32 = min_h(d);
    let w: i32 = if scaled_w < least_w {
        least_w
    } else {
        scaled_w
    };
    let h: i32 = if scaled_h < least_h {
        least_h
    } else {
        scaled_h
    };
    if w != f.cfg.w || h != f.cfg.h || f.dpi.differs(d) {
        f.dpi = d;
        f.cfg.w = w;
        f.cfg.h = h;
        f.cfg_dpi = display_dpi(d);
        true
    } else {
        false
    }
}

/// A path list with one path, as the system's file operations take it: with two
/// zeros behind it.
pub fn path_list(path: Vec<u16>) -> (r: Vec<u16>)
    ensures
        r@ == path@.push(0).push(0),
{
    let mut out = path;
    out.push(0);
    out.push(0);
    out
}

/// A signed number in decimal.
pub open spec fn signed_decimal(n: int) -> Seq<char> {
    if n < 0 {
        "-"@ + decimal((-n) as nat)
    } else {
        decimal(n as nat)
    }
}

/// What came of moving a file to the recycle bin: all went well if the code is
/// zero and nothing was called off.
pub fn recycle_path(code: i32, aborted: bool) -> (r: Result<(), String>)
    ensures
        code == 0 && !aborted ==> r is Ok,
        !(code == 0 && !aborted) ==> r is Err && r->Err_0@ == "SHFileOperationW code="@
            + signed_decimal(code as int) + ", aborted="@ + if aborted {
            "true"@
        } else {
            "false"@
        },
{
    if code == 0 && !aborted {
        return Ok(());
    }
    let mut text: String = "SHFileOperationW code=".to_owned();
    if code < 0 {
        text.append("-");
        append_decimal(&mut text, (-(code as i64)) as u64);
    } else {
        append_decimal(&mut text, code as u64);
    }
    text.append(", aborted=");
    text.append(
        if aborted {
            "true"
        } else {
            "false"
        },
    );
    proof {
        let d = if code < 0 {
            decimal((-code) as nat)
        } else {
            decimal(code as nat)
        };
        assert("SHFileOperationW code="@ + "-"@ + d == "SHFileOperationW code="@ + ("-"@ + d));
    }
    Err(text)
}

/// Each timer has its own number.
pub proof fn timers_are_told_apart(id: usize)
    ensures
        timer_request(id) is AnimationTimer <==> id == 0xFE10,
        timer_request(id) is RefreshTimer <==> id == 0xFE11,
        timer_request(id) is NudgeTimer <==> id == 0xFE12,
        timer_request(id) is OtherTimer <==> id < 0xFE10 || id > 0xFE12,
{
}

/// Of system commands none but the one to minimize is kept from the system, in
/// whatever way its four lowest bits and those above the low word are set.
pub proof fn only_minimizing_is_refused(
    wparam: usize,
    acrylic: bool,
    reasserting: bool,
)
    ensures
        request_of(0x0112, wparam, acrylic, reasserting) is StayUp <==> 0xF020 <= wparam as int
            % 0x1_0000 <= 0xF02F,
        !(0xF020 <= wparam as int % 0x1_0000 <= 0xF02F) ==> request_of(
            0x0112,
            wparam,
            acrylic,
            reasserting,
        ) is Default,
{
}

/// A fence that was minimized in spite of that asks to come back; no other change
/// of size does.
pub proof fn minimized_fence_asks_to_come_back(
    wparam: usize,
    acrylic: bool,
    reasserting: bool,
)
    ensures
        request_of(0x0005, wparam, acrylic, reasserting) is AskRestore <==> wparam as int
            % 0x1_0000_0000 == 1,
        wparam as int % 0x1_0000_0000 != 1 ==> request_of(0x0005, wparam, acrylic, reasserting) is Default,
{
}

/// Only with the acrylic material a fence has no frame and passes for active when
/// it is to become inactive, and not while it is just passing for it.
pub proof fn acrylic_fence_passes_for_active(
    msg: u32,
    wparam: usize,
    acrylic: bool,
    reasserting: bool,
)
    ensures
        request_of(msg, wparam, acrylic, reasserting) is NoFrame <==> msg == 0x0083 && acrylic,
        request_of(msg, wparam, acrylic, reasserting) is PassForActive <==> msg == 0x0086 && acrylic
            && wparam == 0 && !reasserting,
{
}

/// Each request comes with its own message and with no other, whatever else the
/// message holds.
pub proof fn requests_come_with_their_message(
    msg: u32,
    wparam: usize,
    acrylic: bool,
    reasserting: bool,
)
    ensures
        ({
            let r = request_of(msg, wparam, acrylic, reasserting);
            &&& r is StayUp ==> msg == 0x0112
            &&& r is AskRestore ==> msg == 0x0005
            &&& r is Restore <==> msg == 0x8003
            &&& r is KeepBackground <==> msg == 0x0014
            &&& r is HitTest <==> msg == 0x0084
            &&& r is Paint <==> msg == 0x000F
            &&& r is Destroyed <==> msg == 0x0002
            &&& r is Refresh <==> msg == 0x8001
            &&& r is Dropped <==> msg == 0x8002
            &&& r is PointerTaken <==> msg == 0x001F || msg == 0x0215
            &&& r is Delete <==> msg == 0x0100 && wparam == 0x2E
            &&& r is PointerMoved <==> msg == 0x0200
            &&& r is ButtonDown <==> msg == 0x0201
            &&& r is ButtonUp <==> msg == 0x0202
            &&& r is DoubleClick <==> msg == 0x0203
            &&& r is RightButtonUp <==> msg == 0x0205
            &&& r is Wheel <==> msg == 0x020A
            &&& r is PointerLeft <==> msg == 0x02A3
            &&& r is SetPointer <==> msg == 0x0020
            &&& r is DpiChanged <==> msg == 0x02E0
            &&& r is DisplayChanged <==> msg == 0x007E
            &&& r is RefreshTimer || r is AnimationTimer || r is NudgeTimer || r is OtherTimer
                <==> msg == 0x0113
            &&& msg == 0x0113 ==> r == timer_request(wparam)
        }),
{
}

/// Each request to the program comes with its own message: the icon brings up the
/// menu by the right button and hides or shows all fences by a double click, the
/// key does that too, and two timers are known.
pub proof fn program_requests_come_with_their_message(msg: u32, wparam: usize, lparam: usize)
    ensures
        ({
            let r = app_request_of(msg, wparam, lparam);
            let action = lparam as int % 0x1_0000;
            &&& r is TrayMenu <==> msg == 0x800A && (action == 0x0205 || action == 0x007B)
            &&& r is ToggleZen <==> msg == 0x0312 || msg == 0x800A && action == 0x0203
            &&& r is Watchdog <==> msg == 0x0113 && wparam == 1
            &&& r is SweepRetry <==> msg == 0x0113 && wparam == 3
            &&& r is Sweep <==> msg == 0x8005
            &&& r is Quit <==> msg == 0x0002
            &&& r is Ignore <==> msg == 0x800A && action != 0x0205 && action != 0x007B && action
                != 0x0203 || msg == 0x0113 && wparam != 1 && wparam != 3
        }),
{
}

/// A window is put in its place before it shows, its corners are rounded right
/// after, and it is drawn last of all.  Only with the acrylic material it gets
/// that, before it is put in its place and once more after it shows, and again
/// after a while; it then goes above the icons, and otherwise below them.
pub proof fn window_comes_up_in_order(acrylic: bool, i: int)
    requires
        0 <= i < steps_after_creation(acrylic).len(),
    ensures
        ({
            let v = steps_after_creation(acrylic);
            let at = if acrylic {
                1int
            } else {
                0
            };
            &&& v.len() == if acrylic {
                7int
            } else {
                4
            }
            &&& v[i] == (CreateStep::Insert { above_icons: acrylic }) <==> i == at
            &&& v[i] is Insert <==> i == at
            &&& v[i] is Show <==> i == at + 1
            &&& v[i] is Round <==> i == at + 2
            &&& v[i] is Render <==> i == v.len() - 1
            &&& v[i] is Material <==> acrylic && (i == 0 || i == 4)
            &&& v[i] is NudgeLater <==> acrylic && i == 5
        }),
{
}

/// The material is chosen before the frame is touched; once the frame is as it
/// was, the system is waited for, and then the dark variant is chosen and the
/// window passes for active.
pub proof fn material_is_chosen_first(i: int)
    requires
        0 <= i < material_steps().len(),
    ensures
        material_steps().len() == 8,
        material_steps()[i] is Choose <==> i == 0,
        material_steps()[i] matches MaterialStep::Extend(d) ==> d == -1 && i == 1 || d == 0 && i
            == 3,
        material_steps()[i] is FrameChanged <==> i == 2 || i == 4,
        material_steps()[i] is Flush <==> i == 5,
        material_steps()[i] is Dark <==> i == 6,
        material_steps()[i] is PassForActive <==> i == 7,
{
}

/// A fence is drawn when it looks different: after everything but a paint request
/// alike whether or not it has the acrylic material, and after that only with it.
pub proof fn what_is_drawn(
    acrylic: bool,
    other: bool,
    occasion: Occasion,
    c: Cancelled,
    yes: bool,
    press: Press,
    y: i32,
    title_h: i32,
    hit: Option<usize>,
    w: Wheel,
    moved: Moved,
)
    ensures
        occasion !is Painted ==> drawn_after(occasion, acrylic) == drawn_after(occasion, other),
        drawn_after(Occasion::Painted, acrylic) <==> acrylic,
        drawn_after(Occasion::Restored { shows: yes }, acrylic) <==> yes,
        drawn_after(Occasion::CalledOff(c), acrylic) <==> c.render,
        drawn_after(Occasion::Deleted { gone: yes }, acrylic) <==> yes,
        drawn_after(Occasion::PointerMoved { came_up: true, moved }, acrylic),
        drawn_after(Occasion::PointerMoved { came_up: yes, moved: Moved::Size }, acrylic),
        !drawn_after(Occasion::PointerMoved { came_up: false, moved: Moved::Fence }, acrylic),
        drawn_after(
            Occasion::PointerMoved { came_up: false, moved: Moved::Over { another: yes } },
            acrylic,
        ) <==> yes,
        drawn_after(Occasion::Pressed(press), acrylic) <==> press is Entry || press is Cleared,
        drawn_after(Occasion::RightClicked { y, title_h, hit }, acrylic) <==> !(y < title_h) && !(
        hit is None),
        drawn_after(Occasion::WheelTurned(w), acrylic) <==> w is SamePage || w is Turned,
        drawn_after(Occasion::AnimationTick, acrylic),
        drawn_after(Occasion::PointerLeft, acrylic),
        drawn_after(Occasion::DisplayChanged { changed: yes }, acrylic) <==> yes,
{
}

/// A fence keeps the size that was meant where that is at least the least one,
/// which on a display whose factor is a whole number is so many times 180 by 100;
/// and the two sides do not matter to one another.
pub proof fn fitted_size_is_the_larger(w: int, h: int, s: nat, m: nat)
    requires
        1 <= m <= 1000,
    ensures
        w >= whole(times(180, s)) ==> fitted(w, h, s).0 == w,
        h >= whole(times(100, s)) ==> fitted(w, h, s).1 == h,
        w < whole(times(180, s)) ==> fitted(w, h, s).0 == whole(times(180, s)),
        h < whole(times(100, s)) ==> fitted(w, h, s).1 == whole(times(100, s)),
        w >= 180 * m ==> fitted(w, h, (m * 0x4000_0000) as nat).0 == w,
        w < 180 * m ==> fitted(w, h, (m * 0x4000_0000) as nat).0 == 180 * m,
        h >= 100 * m ==> fitted(w, h, (m * 0x4000_0000) as nat).1 == h,
        h < 100 * m ==> fitted(w, h, (m * 0x4000_0000) as nat).1 == 100 * m,
{
    crate::scale::whole_factor_multiplies(180, m);
    crate::scale::whole_factor_multiplies(100, m);
}

/// A signed number stands for itself: its digits, behind a minus if it is below
/// zero.
pub proof fn signed_decimal_stands_for_the_number(n: int)
    ensures
        n >= 0 ==> number_in(signed_decimal(n)) == n && signed_decimal(n)[0] != '-',
        n < 0 ==> signed_decimal(n)[0] == '-' && number_in(signed_decimal(n).skip(1)) == -n,
{
    reveal_strlit("-");
    if n >= 0 {
        crate::text::decimal_stands_for_the_number(n as nat);
        assert('0' <= decimal(n as nat)[0]);
    } else {
        crate::text::decimal_stands_for_the_number((-n) as nat);
        assert(signed_decimal(n).skip(1) == decimal((-n) as nat));
    }
}

/// The styles and codes are those that the system uses.
pub proof fn window_codes_are_the_systems()
    ensures
        WS_EX_TOOLWINDOW == 0x80 && WS_EX_LAYERED == 0x8_0000,
        WS_EX_NOREDIRECTIONBITMAP == 0x20_0000,
        WS_POPUP == 0x8000_0000 && WS_CAPTION == 0xC0_0000,
        HTCLIENT == 1 && WM_NCCREATE == 0x0081 && WM_QUIT == 0x0012,
        ERROR_ALREADY_EXISTS == 183,
{
}

} // verus!
