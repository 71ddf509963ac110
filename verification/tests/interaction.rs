use feather_fences::config::{Config, FenceCfg};
use feather_fences::fence::{
    come_up, drag_kind, follow_move, high16, low16, move_target, pointer_lost,
    reset_pointer_interaction, Drag, Fence, ResizeDir,
};
use feather_fences::geometry::{window_dpi, Point, Rect};
use feather_fences::global::{
    apply_visibility, box_dir, box_name, cancel_pointer_interaction, configured_fences, create_fence,
    delete_fence, drop_message_due, drop_moves, fence_idx, folder_to_watch, handle_drop, live_windows, new_box, new_portal, now_ms,
    pointer_moved, prepare_fence, reload, revive_fence, search_box, set_autostart, sync_config,
    toggle_autostart, toggle_ghost, toggle_zen, watch, watchdog_tick, window_destroyed, Autostart,
    BoxSearch, Cancelled, DropInto, DropOutcome, DropRun, Global, MoveAction,
};
use feather_fences::path::Location;
use feather_fences::pointer::{
    button_down, button_up, delete_target, deselect, double_click, drag_entry, drag_threshold,
    follow_resize, hover_over, keep_page, pointer_left, pointer_shape, redraws, resized,
    resized_if_it_fits,    right_click, turn_wheel, DoubleClick, EntryDrag, Frame, Moved, PointerShape, Press, Release,
    Wheel,
};

fn fence() -> Fence {
    Fence::new(FenceCfg::default(), 11, window_dpi(96), 96)
}

fn at(x: i32, y: i32) -> Point {
    Point { x, y }
}

fn work_area() -> Rect {
    Rect { left: 0, top: 0, right: 1920, bottom: 1040 }
}

#[test]
fn cancelled_capture_clears_geometry_drag_without_requesting_a_snap() {
    let mut fence = Fence::new(FenceCfg::default(), 0, window_dpi(96), 96);
    fence.moving = true;
    fence.resizing = Some(ResizeDir::SE);
    fence.drag_moved = true;

    let outcome = reset_pointer_interaction(&mut fence);

    assert!(outcome.geometry_changed);
    assert!(!fence.moving);
    assert!(fence.resizing.is_none());
    assert!(!fence.drag_moved);
}

#[test]
fn cancelled_capture_clears_pending_item_drag() {
    let mut fence = Fence::new(FenceCfg::default(), 0, window_dpi(96), 96);
    fence.drag_idx = Some(3);
    fence.hover = Some(3);

    let outcome = reset_pointer_interaction(&mut fence);

    assert!(!outcome.geometry_changed);
    assert!(outcome.visual_changed);
    assert!(fence.drag_idx.is_none());
    assert!(fence.hover.is_none());
}

#[test]
fn words_are_signed() {
    let v: usize = 0xFFF6_0005;
    assert_eq!((low16(v), high16(v)), (5, -10));
    assert_eq!((low16(0x7FFF_8000), high16(0x7FFF_8000)), (-32768, 32767));
}

#[test]
fn movement_kinds_have_their_order() {
    let mut f = fence();
    assert_eq!(drag_kind(&f), Drag::Hover);
    f.drag_idx = Some(0);
    assert_eq!(drag_kind(&f), Drag::Entry);
    f.resizing = Some(ResizeDir::N);
    assert_eq!(drag_kind(&f), Drag::Resize(ResizeDir::N));
    f.moving = true;
    assert_eq!(drag_kind(&f), Drag::Move);
    assert!(pointer_lost(&f, 2));
    assert!(!pointer_lost(&f, 3));
    assert!(!pointer_lost(&fence(), 0));
}

#[test]
fn hiding_fence_comes_up_once() {
    let mut f = fence();
    assert!(!come_up(&mut f, false));
    assert!(!f.hover_visible);
    assert!(come_up(&mut f, true));
    assert!(!come_up(&mut f, true));
    f.hover = Some(1);
    pointer_left(&mut f);
    assert!(!f.hover_visible && f.hover.is_none());
}

#[test]
fn moved_fence_stays_in_the_work_area() {
    let mut f = fence();
    f.move_off = at(10, 5);
    assert_eq!(move_target(&f, at(100, 50)), (90, 45));
    assert_eq!(follow_move(&mut f, at(90, 45), work_area()), at(90, 45));
    assert!(f.drag_moved);
    assert_eq!((f.cfg.x, f.cfg.y), (90, 45));
    assert_eq!(follow_move(&mut f, at(5000, 5000), work_area()), at(1660, 700));
    assert_eq!(follow_move(&mut f, at(-5, -5), work_area()), at(0, 0));
    f.cfg.w = 4000;
    assert_eq!(follow_move(&mut f, at(50, 0), work_area()), at(0, 0));
}

#[test]
fn resizing_follows_the_pointer() {
    let window = Rect { left: 100, top: 100, right: 400, bottom: 400 };
    let pull = |x: i32, y: i32, dir: ResizeDir| resized(window, at(x, y), dir, 180, 100);
    assert_eq!(pull(500, 450, ResizeDir::SE), Frame { x: 100, y: 100, w: 400, h: 350 });
    assert_eq!(pull(50, 60, ResizeDir::NW), Frame { x: 50, y: 60, w: 350, h: 340 });
    assert_eq!(pull(390, 390, ResizeDir::NW), Frame { x: 220, y: 300, w: 180, h: 100 });
    assert_eq!(pull(0, 0, ResizeDir::SE), Frame { x: 100, y: 100, w: 180, h: 100 });
    assert_eq!(pull(0, 0, ResizeDir::E), Frame { x: 100, y: 100, w: 180, h: 300 });
    assert_eq!(pull(0, 0, ResizeDir::W), Frame { x: 0, y: 100, w: 400, h: 300 });
    assert_eq!(pull(0, 0, ResizeDir::N), Frame { x: 100, y: 0, w: 300, h: 400 });
    assert_eq!(pull(0, 500, ResizeDir::S), Frame { x: 100, y: 100, w: 300, h: 400 });
    assert_eq!(pull(450, 50, ResizeDir::NE), Frame { x: 100, y: 50, w: 350, h: 350 });
    assert_eq!(pull(50, 450, ResizeDir::SW), Frame { x: 50, y: 100, w: 350, h: 350 });
}

#[test]
fn resized_fence_ends_with_the_work_area() {
    let mut f = fence();
    let wanted = Frame { x: 1700, y: 1000, w: 500, h: 300 };
    let r = follow_resize(&mut f, wanted, work_area(), 180, 100);
    assert_eq!(r, Frame { x: 1700, y: 1000, w: 220, h: 100 });
    assert_eq!((f.cfg.x, f.cfg.y, f.cfg.w, f.cfg.h), (1700, 1000, 220, 100));
    assert!(f.drag_moved);
    let small = Frame { x: 0, y: 0, w: 200, h: 150 };
    assert_eq!(follow_resize(&mut f, small, work_area(), 180, 100), small);
}

#[test]
fn entry_is_dragged_beyond_the_threshold() {
    assert_eq!(drag_threshold(2, 3), 4);
    assert_eq!(drag_threshold(9, 6), 9);
    let mut f = fence();
    f.entries = 5;
    f.drag_idx = Some(2);
    f.hover = Some(2);
    f.drag_down = at(10, 10);
    assert_eq!(drag_entry(&mut f, at(13, 7), 4), EntryDrag::Waiting);
    assert_eq!(f.drag_idx, Some(2));
    assert_eq!(drag_entry(&mut f, at(10, 6), 4), EntryDrag::Start(2));
    assert!(f.drag_idx.is_none() && f.hover.is_none());
    f.drag_idx = Some(7);
    assert_eq!(drag_entry(&mut f, at(30, 10), 4), EntryDrag::Nothing);
}

#[test]
fn redrawing_follows_what_changed() {
    assert!(redraws(true, Moved::Fence));
    assert!(!redraws(false, Moved::Fence));
    assert!(redraws(false, Moved::Size));
    assert!(!redraws(false, Moved::Entry(EntryDrag::Waiting)));
    assert!(redraws(false, Moved::Entry(EntryDrag::Nothing)));
    assert!(redraws(false, Moved::Over { another: true }));
    assert!(!redraws(false, Moved::Over { another: false }));
    let mut f = fence();
    assert!(hover_over(&mut f, Some(1)));
    assert!(!hover_over(&mut f, Some(1)));
    assert!(hover_over(&mut f, None));
}

#[test]
fn press_goes_to_title_border_entry() {
    let press = |f: &mut Fence, y: i32, border: Option<ResizeDir>, hit: Option<usize>| {
        button_down(f, at(20, y), 30, border, hit, at(120, 80), at(100, 60))
    };
    let mut f = fence();
    assert_eq!(press(&mut f, 29, Some(ResizeDir::N), Some(1)), Press::Title);
    assert!(f.moving);
    assert_eq!(f.move_off, at(20, 20));
    let mut f = fence();
    assert_eq!(press(&mut f, 30, Some(ResizeDir::E), Some(1)), Press::Border(ResizeDir::E));
    assert_eq!(f.resizing, Some(ResizeDir::E));
    let mut f = fence();
    f.drag_moved = true;
    assert_eq!(press(&mut f, 40, None, Some(1)), Press::Entry(1));
    assert_eq!((f.selected, f.drag_idx, f.drag_down), (Some(1), Some(1), at(20, 40)));
    assert!(!f.drag_moved);
    assert_eq!(press(&mut f, 40, None, None), Press::Cleared);
    assert_eq!(press(&mut f, 40, None, None), Press::Nothing);
}

#[test]
fn click_on_the_title_does_not_settle() {
    let mut f = fence();
    button_down(&mut f, at(5, 5), 30, None, None, at(0, 0), at(0, 0));
    assert_eq!(button_up(&mut f), Release { let_go: false, settle: false });
    button_down(&mut f, at(5, 5), 30, None, None, at(0, 0), at(0, 0));
    follow_move(&mut f, at(50, 50), work_area());
    assert_eq!(button_up(&mut f), Release { let_go: true, settle: true });
    assert!(!f.moving && !f.drag_moved);
    f.drag_idx = Some(0);
    assert_eq!(button_up(&mut f), Release { let_go: true, settle: false });
}

#[test]
fn clicks_find_their_entry() {
    let mut f = fence();
    f.entries = 3;
    assert_eq!(double_click(&f, 10, 30, Some(1)), DoubleClick::Rename);
    assert_eq!(double_click(&f, 30, 30, Some(1)), DoubleClick::Open(1));
    assert_eq!(double_click(&f, 40, 30, Some(3)), DoubleClick::Nothing);
    assert_eq!(double_click(&f, 40, 30, None), DoubleClick::Nothing);
    assert_eq!(right_click(&mut f, 10, 30, Some(1)), None);
    assert_eq!(f.selected, None);
    assert_eq!(right_click(&mut f, 40, 30, Some(2)), Some(2));
    assert_eq!(f.selected, Some(2));
    assert_eq!(delete_target(&f), Some(2));
    assert_eq!(right_click(&mut f, 40, 30, Some(9)), None);
    assert_eq!((f.selected, delete_target(&f)), (Some(9), None));
    deselect(&mut f);
    assert_eq!(f.selected, None);
    assert_eq!(right_click(&mut f, 40, 30, None), None);
}

fn turned(n: i16) -> usize {
    (n as u16 as usize) << 16
}

#[test]
fn wheel_turns_pages_by_notches() {
    let mut f = fence();
    assert_eq!(turn_wheel(&mut f, turned(-60), 3), Wheel::Partial);
    assert_eq!(f.wheel_acc, -60);
    assert_eq!(turn_wheel(&mut f, turned(-70), 3), Wheel::Turned);
    assert_eq!((f.wheel_acc, f.page), (-10, 1));
    assert_eq!(turn_wheel(&mut f, turned(-1200), 3), Wheel::Turned);
    assert_eq!((f.wheel_acc, f.page), (-10, 2));
    assert_eq!(turn_wheel(&mut f, turned(-120), 3), Wheel::SamePage);
    assert_eq!(turn_wheel(&mut f, turned(130), 3), Wheel::Turned);
    assert_eq!((f.wheel_acc, f.page), (0, 1));
    assert_eq!(turn_wheel(&mut f, 0, 3), Wheel::Partial);
    assert_eq!((keep_page(4, 3), keep_page(1, 3), keep_page(1, 0)), (2, 1, 0));
}

#[test]
fn pointer_shows_what_it_would_do() {
    let shape = |y: i32, b: Option<ResizeDir>| pointer_shape(y, 30, b);
    assert_eq!(shape(29, Some(ResizeDir::N)), PointerShape::MoveAll);
    assert_eq!(shape(30, None), PointerShape::Arrow);
    assert_eq!(shape(30, Some(ResizeDir::S)), PointerShape::NorthSouth);
    assert_eq!(shape(30, Some(ResizeDir::W)), PointerShape::EastWest);
    assert_eq!(shape(30, Some(ResizeDir::SE)), PointerShape::NorthwestSoutheast);
    assert_eq!(shape(30, Some(ResizeDir::SW)), PointerShape::NortheastSouthwest);
}

#[test]
fn folders_are_watched_and_windows_take_drops() {
    let mut g = global(1);
    assert!(g.watchers.is_empty());
    assert_eq!(g.droptargets.iter().map(|t| t.hwnd).collect::<Vec<usize>>(), vec![10]);
    let mut cfg = FenceCfg::default();
    cfg.folder = Some(Location::at("C:\\docs".to_string()));
    assert_eq!(folder_to_watch(&cfg).unwrap().base, "C:\\docs");
    assert!(folder_to_watch(&FenceCfg::default()).is_none());
    create_fence(&mut g, cfg, 20, window_dpi(96), 96);
    watch(&mut g, None);
    watch(&mut g, Some(Location::at("desk".to_string())));
    let watched: Vec<&str> = g.watchers.iter().map(|l| l.base.as_str()).collect();
    assert_eq!(watched, vec!["C:\\docs", "desk"]);
    assert_eq!(g.droptargets.len(), 2);
    reload(&mut g, Config::default());
    assert!(g.watchers.is_empty() && g.droptargets.is_empty());
}

#[test]
fn fence_that_shows_a_folder_does_not_use_up_its_number() {
    let mut g = global(2);
    let s = window_dpi(96);
    let portal = new_portal(&g, Location::at("C:\\docs".to_string()), None, 1920, s);
    let portal = prepare_fence(&mut g, portal, s, 1920, 1080);
    assert_eq!(create_fence(&mut g, portal, 30, s, 96), 3);
    let next = new_box(&g, None, 1, 1920, s);
    let next = prepare_fence(&mut g, next, s, 1920, 1080);
    assert_eq!((next.id, g.next_id), (3, 4));
}

#[test]
fn dragging_a_border_stops_where_nothing_fits() {
    let window = Rect { left: 0, top: 0, right: 300, bottom: 300 };
    let grown = resized_if_it_fits(window, at(400, 350), ResizeDir::SE, 180, 100).unwrap();
    assert_eq!((grown.x, grown.y, grown.w, grown.h), (0, 0, 400, 350));
    let far = Rect { left: i32::MIN, top: 0, right: i32::MIN + 300, bottom: 300 };
    assert!(resized_if_it_fits(far, at(i32::MAX, 9), ResizeDir::E, 180, 100).is_none());
}

#[test]
fn failed_move_does_not_stop_a_drop() {
    // Whether each is there, is where it is to go, and can be moved.
    let facts = [(true, false, false), (false, false, true), (true, true, true), (true, false, true)];
    let mut run = DropRun::new(facts.len());
    let mut tried = Vec::new();
    while let Some(i) = run.next() {
        if run.look(facts[i].0, facts[i].1) {
            tried.push(i);
            run.tried(facts[i].2);
        }
    }
    assert_eq!(tried, vec![0, 3]);
    assert_eq!(
        run.outcomes,
        vec![
            DropOutcome::Failed,
            DropOutcome::Skipped,
            DropOutcome::Skipped,
            DropOutcome::Moved
        ]
    );
    assert!(drop_message_due(&run.outcomes));
    assert!(!drop_message_due(&vec![DropOutcome::Failed, DropOutcome::Skipped]));
    assert!(!drop_message_due(&Vec::new()));
}

fn global(n: usize) -> Global {
    let mut g = Global::new(Config::default(), 1, 99);
    for i in 0..n {
        let cfg = prepare_fence(&mut g, FenceCfg::default(), window_dpi(96), 1920, 1080);
        create_fence(&mut g, cfg, 10 + i, window_dpi(96), 96);
    }
    g
}

#[test]
fn fences_come_and_go() {
    let mut g = global(3);
    assert_eq!(g.fences.iter().map(|f| f.cfg.id).collect::<Vec<u32>>(), vec![1, 2, 3]);
    assert_eq!(create_fence(&mut g, FenceCfg::default(), 0, window_dpi(96), 96), 0);
    assert_eq!(g.fences.len(), 3);
    assert_eq!(fence_idx(&g, 11), Some(1));
    assert_eq!(fence_idx(&g, 50), None);
    assert_eq!(delete_fence(&mut g, 1), Some(11));
    assert_eq!(delete_fence(&mut g, 2), None);
    assert_eq!(live_windows(&g), vec![10, 12]);
}

#[test]
fn destroyed_window_is_made_anew() {
    let mut g = global(3);
    window_destroyed(&mut g, 11);
    window_destroyed(&mut g, 77);
    assert_eq!(fence_idx(&g, 11), None);
    assert_eq!(live_windows(&g), vec![10, 12]);
    assert_eq!(watchdog_tick(&g), vec![1]);
    assert_eq!(revive_fence(&mut g, 1, 0), None);
    g.fences[1].moving = true;
    toggle_zen(&mut g);
    assert_eq!(revive_fence(&mut g, 1, 40), Some(true));
    assert_eq!(g.droptargets.last().unwrap().hwnd, 40);
    assert!(g.fences[1].valid && !g.fences[1].moving);
    assert_eq!(watchdog_tick(&g), Vec::<usize>::new());
    assert_eq!(apply_visibility(&g), (vec![10, 40, 12], false));
}

#[test]
fn switches_turn_and_turn_back() {
    let mut g = global(0);
    toggle_zen(&mut g);
    toggle_ghost(&mut g);
    assert!(toggle_autostart(&mut g));
    assert!(g.zen && g.config.ghost_mode && g.config.autostart);
    toggle_zen(&mut g);
    toggle_ghost(&mut g);
    assert!(!toggle_autostart(&mut g));
    assert!(!g.zen && !g.config.ghost_mode && !g.config.autostart);
    assert_eq!(set_autostart(true, true), Autostart::Enter);
    assert_eq!(set_autostart(true, false), Autostart::Leave);
    assert_eq!(set_autostart(false, true), Autostart::Remove);
}

#[test]
fn cancelling_saves_what_has_moved() {
    let mut g = global(1);
    assert_eq!(cancel_pointer_interaction(&mut g, 5), Cancelled { render: false, save: false });
    g.fences[0].moving = true;
    assert_eq!(cancel_pointer_interaction(&mut g, 0), Cancelled { render: false, save: false });
    g.fences[0].resizing = Some(ResizeDir::E);
    g.fences[0].drag_moved = true;
    g.fences[0].hover = Some(0);
    assert_eq!(cancel_pointer_interaction(&mut g, 0), Cancelled { render: true, save: true });
}

#[test]
fn movement_without_the_button_calls_off() {
    let mut g = global(2);
    assert_eq!(pointer_moved(&mut g, 50, 1), MoveAction::Unknown);
    g.fences[1].moving = true;
    assert_eq!(
        pointer_moved(&mut g, 11, 1),
        MoveAction::Follow { idx: 1, drag: Drag::Move, came_up: false }
    );
    g.fences[1].drag_moved = true;
    assert_eq!(
        pointer_moved(&mut g, 11, 0),
        MoveAction::CalledOff(Cancelled { render: false, save: true })
    );
    assert!(!g.fences[1].moving);
    toggle_ghost(&mut g);
    assert_eq!(
        pointer_moved(&mut g, 11, 0),
        MoveAction::Follow { idx: 1, drag: Drag::Hover, came_up: true }
    );
}

#[test]
fn drops_go_to_the_folder_or_the_vault() {
    let mut g = global(2);
    g.fences[1].cfg.folder = Some(Location::at("D:\\docs".to_string()));
    assert!(matches!(handle_drop(&g, 10), DropInto::Vault));
    assert!(matches!(handle_drop(&g, 50), DropInto::Nowhere));
    match handle_drop(&g, 11) {
        DropInto::Folder(l) => assert_eq!(l.base, "D:\\docs"),
        _ => panic!("the fence shows a folder"),
    }
    assert!(drop_moves(true, false));
    assert!(!drop_moves(true, true));
    assert!(!drop_moves(false, false));
}

#[test]
fn new_fences_are_laid_out() {
    let g = global(6);
    let s = window_dpi(96);
    let folder = || Location::at("D:\\docs".to_string());
    let p = new_portal(&g, folder(), Some("docs".to_string()), 1920, s);
    assert_eq!(p.title, "docs");
    assert_eq!((p.id, p.x, p.y, p.w, p.h), (7, 1580, 140, 280, 340));
    assert_eq!(new_portal(&g, folder(), None, 1920, s).title, "文件夹栅栏");
    let b = new_box(&g, Some("C:\\data".to_string()), 2, 1920, s);
    assert_eq!(b.title, "收纳箱 2");
    assert_eq!((b.id, b.x, b.y, b.w, b.h), (0, 1600, 140, 260, 340));
    let dir = b.folder.unwrap();
    assert_eq!(dir.base, "C:\\data");
    assert_eq!(dir.parts, vec!["feather-fences", "boxes", "收纳箱 2"]);
    assert_eq!(box_dir(None, 1).parts, vec!["feather-fences", "boxes", "收纳箱"]);
    assert_eq!(new_box(&g, None, 1, 1920, s).title, "收纳箱");
    assert_eq!(box_name(1), "收纳箱");
    assert_eq!(search_box(1, true), BoxSearch::Probe(2));
    assert_eq!(search_box(2, false), BoxSearch::Found(2));
}

#[test]
fn reloading_takes_all_fences_away() {
    let mut g = global(2);
    let mut c = Config::default();
    c.icon = 48;
    c.fences = vec![FenceCfg::default()];
    c.fences[0].id = 5;
    assert_eq!(reload(&mut g, c), vec![10, 11]);
    assert!(g.fences.is_empty());
    assert_eq!(g.config.icon, 48);
    assert_eq!(configured_fences(&g)[0].id, 5);
    sync_config(&mut g, Vec::new());
    assert!(g.config.fences.is_empty());
    assert_eq!(g.config.icon, 48);
}

#[test]
fn clock_before_1970_counts_as_zero() {
    assert_eq!(now_ms(None), 0);
    assert_eq!(now_ms(Some(1_700_000_000_123)), 1_700_000_000_123);
    assert_eq!(now_ms(Some(1 << 64)), 0);
}

#[test]
fn part_of_a_notch_asks_for_no_pages() {
    let mut f = fence();
    assert_eq!(turn_wheel(&mut f, 60 << 16, 0), Wheel::Partial);
    assert_eq!((f.wheel_acc, f.page), (60, 0));
}
