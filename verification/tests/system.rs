use feather_fences::backdrop::{submit_next, Backdrop, SubmitStep};
use feather_fences::config::FenceCfg;
use feather_fences::fence::Fence;
use feather_fences::geometry::{window_dpi, Point, Rect};
use feather_fences::global::Cancelled;
use feather_fences::path::Location;
use feather_fences::pointer::{Moved, Press, Wheel};
use feather_fences::shellmenu::{
    forward_menu_msg, owner_wndproc, show_for_path, show_for_path_async, take_latest, OwnerRequest,
    ShowStep, WM_APP_SHOWMENU, WM_DRAWITEM, WM_INITMENUPOPUP,
};
use feather_fences::tray::{
    dispatch_menu, label_text, make_tray_icon, set_tip, show_tray_menu, Label, MenuCommand,
    MenuItem, BAR_COLOR, TIP_SIZE, WM_APP_TRAY,
};
use feather_fences::watcher::{
    changed_names, is_worth_telling, read_lost, watch_action, DirWatcher, WatchAction,
};
use feather_fences::window::{
    acrylic_mode, after_creation, already_running, answer, apply_acrylic_backdrop, create_window,
    display_changed, display_dpi, dpi_changed, fence_wndproc, files_dropped, msg_wndproc,
    path_list, recycle_path, refresh_timer, restores, is_drawn, window_title, AppRequest, CreateStep,
    MaterialStep, Occasion, RefreshPlan, RefreshTimerAction, RenderMode, Request,
};

#[test]
fn tray_icon_shows_three_bars() {
    let px = make_tray_icon();
    assert_eq!(px.len(), 256);
    let mut expected = vec![0u32; 256];
    for (r0, r1) in [(2usize, 5usize), (7, 10), (12, 15)] {
        for r in r0..=r1 {
            for c in 2..14usize {
                let corner = (r == r0 || r == r1) && (c == 2 || c == 13);
                if !corner {
                    expected[r * 16 + c] = BAR_COLOR;
                }
            }
        }
    }
    assert_eq!(px, expected);
    assert_eq!(px.iter().filter(|p| **p != 0).count(), 132);
}

#[test]
fn tips_end_in_zero() {
    let tip = set_tip("轻栅栏 Feather Fences", TIP_SIZE);
    assert_eq!(tip.len(), 128);
    let text: Vec<u16> = "轻栅栏 Feather Fences".encode_utf16().collect();
    assert_eq!(tip[..text.len()], text[..]);
    assert!(tip[text.len()..].iter().all(|u| *u == 0));
    let cut = set_tip("abcdef", 4);
    assert_eq!(cut, vec![97, 98, 99, 0]);
    assert_eq!(set_tip("abc", 0), Vec::<u16>::new());
}

#[test]
fn tray_menu_marks_the_switches() {
    let menu = show_tray_menu(true, false, true);
    assert_eq!(menu.len(), 13);
    assert_eq!(menu[0], MenuItem::Command { id: 2001, checked: false, label: Label::NewPortal });
    assert_eq!(menu[2], MenuItem::Separator);
    assert_eq!(menu[4], MenuItem::Command { id: 2004, checked: true, label: Label::Zen });
    assert_eq!(menu[5], MenuItem::Command { id: 2005, checked: false, label: Label::GhostMode });
    assert_eq!(menu[8], MenuItem::Command { id: 2007, checked: true, label: Label::Autostart });
    assert_eq!(label_text(Label::Zen), "Zen 模式\tCtrl+Alt+Z");
    assert_eq!(label_text(Label::Exit), "退出");
}

#[test]
fn tray_commands_are_told_apart() {
    assert_eq!(dispatch_menu(2001), MenuCommand::NewPortal);
    assert_eq!(dispatch_menu(2002), MenuCommand::NewBox);
    assert_eq!(dispatch_menu(2003), MenuCommand::ToggleZen);
    assert_eq!(dispatch_menu(2004), MenuCommand::ToggleZen);
    assert_eq!(dispatch_menu(2005), MenuCommand::ToggleGhost);
    assert_eq!(dispatch_menu(2006), MenuCommand::Sweep);
    assert_eq!(dispatch_menu(2007), MenuCommand::ToggleAutostart);
    assert_eq!(dispatch_menu(2008), MenuCommand::OpenConfigDir);
    assert_eq!(dispatch_menu(2009), MenuCommand::Exit);
    assert_eq!(dispatch_menu(2010), MenuCommand::Reload);
    assert_eq!(dispatch_menu(0), MenuCommand::Nothing);
}

#[test]
fn fence_messages_are_told_apart() {
    let ask = |msg: u32, wparam: usize| fence_wndproc(msg, wparam, false, false);
    assert_eq!(ask(0x0081, 0), Request::Default);
    assert_eq!(ask(0x0112, 0xF022), Request::StayUp);
    assert_eq!(ask(0x0112, 0xF030), Request::Default);
    assert_eq!(ask(5, 1), Request::AskRestore);
    assert_eq!(ask(5, 0), Request::Default);
    assert_eq!(ask(0x0100, 0x2E), Request::Delete);
    assert_eq!(ask(0x0100, 0x41), Request::Default);
    assert_eq!(ask(0x0113, 0xFE10), Request::AnimationTimer);
    assert_eq!(ask(0x0113, 0xFE11), Request::RefreshTimer);
    assert_eq!(ask(0x0113, 0xFE12), Request::NudgeTimer);
    assert_eq!(ask(0x0113, 1), Request::OtherTimer);
    assert_eq!(ask(0x001F, 0), Request::PointerTaken);
    assert_eq!(ask(0x0215, 0), Request::PointerTaken);
    assert_eq!(ask(0x0200, 0), Request::PointerMoved);
    assert_eq!(ask(0x02E0, 0), Request::DpiChanged);
    assert_eq!(ask(0x007E, 0), Request::DisplayChanged);
    assert_eq!(ask(0x0400, 0), Request::Default);
}

#[test]
fn acrylic_fences_pass_for_active() {
    assert!(acrylic_mode(RenderMode::AcrylicBackdrop));
    assert!(!acrylic_mode(RenderMode::Layered));
    assert_eq!(fence_wndproc(0x0086, 0, true, false), Request::PassForActive);
    assert_eq!(fence_wndproc(0x0086, 0, true, true), Request::Default);
    assert_eq!(fence_wndproc(0x0086, 1, true, false), Request::Default);
    assert_eq!(fence_wndproc(0x0086, 0, false, false), Request::Default);
    assert_eq!(fence_wndproc(0x0083, 1, true, false), Request::NoFrame);
    assert_eq!(fence_wndproc(0x0083, 1, false, false), Request::Default);
}

#[test]
fn fence_windows_answer() {
    assert_eq!(answer(Request::Default), None);
    assert_eq!(answer(Request::PassForActive), None);
    assert_eq!(answer(Request::KeepBackground), Some(1));
    assert_eq!(answer(Request::SetPointer), Some(1));
    assert_eq!(answer(Request::HitTest), Some(1));
    assert_eq!(answer(Request::StayUp), Some(0));
}

#[test]
fn own_messages_are_told_apart() {
    assert_eq!(msg_wndproc(WM_APP_TRAY, 0, 0x1_0205), AppRequest::TrayMenu);
    assert_eq!(msg_wndproc(WM_APP_TRAY, 0, 0x007B), AppRequest::TrayMenu);
    assert_eq!(msg_wndproc(WM_APP_TRAY, 0, 0x0203), AppRequest::ToggleZen);
    assert_eq!(msg_wndproc(WM_APP_TRAY, 0, 0x0200), AppRequest::Ignore);
    assert_eq!(msg_wndproc(0x0312, 1, 0), AppRequest::ToggleZen);
    assert_eq!(msg_wndproc(0x0113, 1, 0), AppRequest::Watchdog);
    assert_eq!(msg_wndproc(0x0113, 3, 0), AppRequest::SweepRetry);
    assert_eq!(msg_wndproc(0x0113, 2, 0), AppRequest::Ignore);
    assert_eq!(msg_wndproc(0x8005, 0, 0), AppRequest::Sweep);
    assert_eq!(msg_wndproc(2, 0, 0), AppRequest::Quit);
    assert_eq!(msg_wndproc(1, 0, 0), AppRequest::Default);
    assert!(already_running(183));
    assert!(!already_running(0));
}

#[test]
fn windows_are_layered_or_acrylic() {
    let mut cfg = FenceCfg::default();
    cfg.x = 7;
    cfg.y = -8;
    let layered = create_window(&cfg, false);
    assert_eq!((layered.ex_style, layered.style), (0x0008_0080, 0x8000_0000));
    assert_eq!((layered.x, layered.y, layered.w, layered.h), (7, -8, 260, 340));
    assert_eq!(window_title(&cfg), vec![0x6805, 0x680F, 0]);
    let acrylic = create_window(&cfg, true);
    assert_eq!((acrylic.ex_style, acrylic.style), (0x0020_0080, 0x80C0_0000));
    assert!(after_creation(true, 0).is_empty());
    assert_eq!(
        after_creation(false, 1),
        vec![
            CreateStep::Insert { above_icons: false },
            CreateStep::Show,
            CreateStep::Round,
            CreateStep::Render
        ]
    );
    let steps = after_creation(true, 1);
    assert_eq!(steps.iter().filter(|s| **s == CreateStep::Material).count(), 2);
    assert_eq!(steps[5], CreateStep::NudgeLater);
}

#[test]
fn material_needs_a_changed_frame() {
    let steps = apply_acrylic_backdrop();
    assert_eq!(steps.len(), 8);
    assert_eq!(steps[1], MaterialStep::Extend(-1));
    assert_eq!(steps[2], MaterialStep::FrameChanged);
    assert_eq!(steps[3], MaterialStep::Extend(0));
    assert_eq!(steps[4], MaterialStep::FrameChanged);
}

#[test]
fn folder_is_read_when_it_is_quiet() {
    let plan = |restart, stop, cancel, refresh| RefreshPlan { restart, stop, cancel, refresh };
    assert_eq!(
        refresh_timer(RefreshTimerAction::Idle, true),
        plan(None, true, false, false)
    );
    assert_eq!(
        refresh_timer(RefreshTimerAction::Wait(80), true),
        plan(Some(80), false, false, false)
    );
    assert_eq!(
        refresh_timer(RefreshTimerAction::Wait(80), false),
        plan(Some(80), false, true, true)
    );
    assert_eq!(
        refresh_timer(RefreshTimerAction::Refresh, false),
        plan(None, true, false, true)
    );
    assert_eq!(files_dropped(), plan(None, true, true, true));
    assert!(restores(false, true));
    assert!(!restores(true, true));
    assert!(!restores(false, false));
}

fn fence() -> Fence {
    Fence::new(FenceCfg::default(), 1, window_dpi(96), 96)
}

#[test]
fn fence_takes_the_suggested_rectangle() {
    let mut f = fence();
    let r = Rect { left: 5, top: 6, right: 395, bottom: 6 };
    assert!(!dpi_changed(&mut f, 0xFFFF_0000, r));
    assert_eq!(f.cfg.w, 260);
    assert!(dpi_changed(&mut f, 144 * 65_536 + 144, r));
    assert_eq!((f.cfg.x, f.cfg.y, f.cfg.w, f.cfg.h), (5, 6, 390, 1));
    assert_eq!(f.cfg_dpi, 144);
    assert_eq!(f.dpi.round(100), 150);
}

#[test]
fn fence_keeps_its_place_when_the_display_changes() {
    let mut f = fence();
    f.cfg.x = 5000;
    assert!(!display_changed(&mut f, 96, 260, 340));
    assert!(display_changed(&mut f, 192, 520, 680));
    assert_eq!((f.cfg.x, f.cfg.y, f.cfg.w, f.cfg.h), (5000, 0, 520, 680));
    assert_eq!(f.cfg_dpi, 192);
    assert!(display_changed(&mut f, 192, 10, 10));
    assert_eq!((f.cfg.w, f.cfg.h), (360, 200));
    assert!(display_changed(&mut f, 96, 360, 200));
    assert_eq!(display_dpi(f.dpi), 96);
    assert_eq!(display_dpi(window_dpi(3_000_000_000)), 3_000_000_000);
    assert_eq!(display_dpi(window_dpi(u32::MAX)), u32::MAX);
    assert!(display_changed(&mut f, 3_000_000_000, 360, 200));
    assert_eq!(f.cfg_dpi, 3_000_000_000);
}

#[test]
fn fence_is_drawn_when_it_looks_different() {
    assert!(is_drawn(Occasion::Painted, true) && !is_drawn(Occasion::Painted, false));
    let right = |y: i32, hit: Option<usize>| {
        is_drawn(Occasion::RightClicked { y, title_h: 30, hit }, false)
    };
    assert!(right(30, Some(9)) && !right(29, Some(9)) && !right(30, None));
    let pressed = |p: Press| is_drawn(Occasion::Pressed(p), false);
    assert!(pressed(Press::Entry(1)) && pressed(Press::Cleared));
    assert!(!pressed(Press::Title) && !pressed(Press::Nothing));
    let wheel = |w: Wheel| is_drawn(Occasion::WheelTurned(w), false);
    assert!(wheel(Wheel::SamePage) && wheel(Wheel::Turned) && !wheel(Wheel::Partial));
    let off = Cancelled { render: false, save: true };
    assert!(!is_drawn(Occasion::CalledOff(off), true));
    let moved = Occasion::PointerMoved { came_up: false, moved: Moved::Fence };
    assert!(!is_drawn(moved, true));
    assert!(is_drawn(Occasion::PointerLeft, false) && is_drawn(Occasion::AnimationTick, false));
    assert!(is_drawn(Occasion::Restored { shows: true }, false));
    assert!(!is_drawn(Occasion::Deleted { gone: false }, false));
    assert!(is_drawn(Occasion::DisplayChanged { changed: true }, false));
}

#[test]
fn unknown_dpi_changes_nothing() {
    let mut f = fence();
    let endless = Rect { left: i32::MIN, top: 0, right: i32::MAX, bottom: 1 };
    assert!(!dpi_changed(&mut f, 0x1_0000, endless));
    assert_eq!((f.cfg.x, f.cfg.w), (0, 260));
}

#[test]
fn recycling_reports_failures() {
    assert_eq!(recycle_path(0, false), Ok(()));
    assert_eq!(
        recycle_path(-5, false),
        Err("SHFileOperationW code=-5, aborted=false".to_string())
    );
    assert_eq!(
        recycle_path(0, true),
        Err("SHFileOperationW code=0, aborted=true".to_string())
    );
    assert_eq!(path_list(vec![97]), vec![97, 0, 0]);
}

fn notification(next: u32, action: u32, name: &str) -> Vec<u8> {
    let units: Vec<u16> = name.encode_utf16().collect();
    let mut b = Vec::new();
    b.extend_from_slice(&next.to_le_bytes());
    b.extend_from_slice(&action.to_le_bytes());
    b.extend_from_slice(&(units.len() as u32 * 2).to_le_bytes());
    for u in units {
        b.extend_from_slice(&u.to_le_bytes());
    }
    b
}

#[test]
fn notifications_name_what_is_new() {
    let mut buf = notification(24, 1, "a.txt");
    buf.resize(24, 0);
    buf.extend(notification(20, 2, "gone"));
    buf.resize(44, 0);
    buf.extend(notification(16, 5, "箱"));
    buf.resize(60, 0);
    buf.extend(notification(0, 3, "z"));
    buf.resize(80, 0);
    assert_eq!(changed_names(&buf, 80), vec!["a.txt", "箱", "z"]);
    assert_eq!(changed_names(&buf, 60), vec!["a.txt", "箱"]);
    assert_eq!(changed_names(&buf, 57), vec!["a.txt"]);
    let tight = notification(0, 1, "a.txt");
    assert_eq!(tight.len(), 22);
    assert_eq!(changed_names(&tight, 22), vec!["a.txt"]);
    assert_eq!(changed_names(&tight, 21), Vec::<String>::new());
    assert!(is_worth_telling(&vec!["a".to_string()]) && !is_worth_telling(&Vec::new()));
    assert_eq!(changed_names(&buf, 10), Vec::<String>::new());
    assert_eq!(changed_names(&Vec::new(), 0), Vec::<String>::new());
}

#[test]
fn whoever_takes_the_handle_closes_it() {
    let mut w = DirWatcher::new();
    assert_eq!(watch_action(w.stopping, None), WatchAction::Open);
    w.publish(7);
    assert_eq!(watch_action(w.stopping, Some(7)), WatchAction::Read(7));
    assert_eq!(w.stop(), Some(7));
    assert_eq!(w.stop(), None);
    assert_eq!(watch_action(w.stopping, Some(7)), WatchAction::Finish(Some(7)));
    assert!(!w.give_back(7));
    let mut w = DirWatcher::new();
    w.publish(8);
    assert!(w.give_back(8));
    assert_eq!(w.stop(), None);
    assert!(read_lost(false, 5) && read_lost(true, 0) && !read_lost(true, 5));
}

#[test]
fn latest_request_counts() {
    let mut q = Vec::new();
    assert!(take_latest(&mut q).is_none());
    show_for_path_async(&mut q, Location::at("a".to_string()), 1, 2);
    show_for_path_async(&mut q, Location::at("b".to_string()), 3, 4);
    let r = take_latest(&mut q).unwrap();
    assert_eq!((r.path.base.as_str(), r.x, r.y), ("b", 3, 4));
    assert!(q.is_empty());
}

#[test]
fn menu_messages_are_handed_on() {
    assert_eq!(owner_wndproc(WM_APP_SHOWMENU, true), OwnerRequest::ShowLatest);
    assert_eq!(owner_wndproc(WM_INITMENUPOPUP, true), OwnerRequest::Forward);
    assert_eq!(owner_wndproc(WM_DRAWITEM, false), OwnerRequest::Default);
    assert_eq!(owner_wndproc(1, true), OwnerRequest::Default);
    assert!(forward_menu_msg(0x002C));
    assert!(!forward_menu_msg(0x002D));
}

#[test]
fn menus_are_taken_down_again() {
    let run = |codes: &[i32]| {
        let mut step = ShowStep::Find;
        let mut seen = Vec::new();
        for c in codes {
            step = show_for_path(step, *c);
            seen.push(step);
        }
        seen
    };
    assert_eq!(run(&[0]), vec![ShowStep::Over]);
    assert_eq!(run(&[1, 0, 0]), vec![ShowStep::MakeMenu, ShowStep::Release, ShowStep::Over]);
    assert_eq!(
        run(&[1, 1, 0, 0]),
        vec![ShowStep::MakeMenu, ShowStep::Fill, ShowStep::DestroyMenu, ShowStep::Release]
    );
    assert_eq!(
        run(&[1, 1, 1, 18, 0, 0, 0]),
        vec![
            ShowStep::MakeMenu,
            ShowStep::Fill,
            ShowStep::Track,
            ShowStep::Invoke(17),
            ShowStep::DestroyMenu,
            ShowStep::Release,
            ShowStep::Over
        ]
    );
}

#[test]
fn pictures_have_the_size_of_their_surface() {
    assert!(Backdrop::attach(3, 4, false).is_none());
    let mut b = Backdrop::attach(30, 40, true).unwrap();
    assert_eq!(b.size(), (30, 40));
    assert_eq!(b.submit(30, 40), SubmitStep::BeginDraw { w: 30, h: 40 });
    assert_eq!(b.submit(30, 41), SubmitStep::Done(false));
    assert!(!b.resize(5, 6, true, true, false));
    assert_eq!(b.size(), (30, 40));
    assert!(b.resize(5, 6, true, true, true));
    assert_eq!(b.size(), (5, 6));
    assert!(b.resize(0, 6, true, true, true));
    assert_eq!(b.submit(0, 6), SubmitStep::Done(false));
}

#[test]
fn drawing_is_ended_in_any_case() {
    let run = |oks: &[bool]| {
        let mut step = SubmitStep::BeginDraw { w: 3, h: 4 };
        for (i, ok) in oks.iter().enumerate() {
            step = submit_next(step, *ok, Point { x: 10 + i as i32, y: 20 + i as i32 });
        }
        step
    };
    assert_eq!(run(&[false]), SubmitStep::Done(false));
    assert_eq!(run(&[true, false]), SubmitStep::Done(false));
    assert_eq!(run(&[true, true, false]), SubmitStep::EndDraw(false));
    assert_eq!(
        run(&[true, true, true]),
        SubmitStep::Copy { at: Point { x: 10, y: 20 }, w: 3, h: 4 }
    );
    assert_eq!(run(&[true, true, true, true, false, true, true]), SubmitStep::Done(true));
    assert_eq!(run(&[true, true, true, false, true, true, true]), SubmitStep::Done(false));
    assert_eq!(run(&[true, true, true, true, true, false, true]), SubmitStep::Done(false));
}
