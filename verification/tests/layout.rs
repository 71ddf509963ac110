use feather_fences::config::{Config, FenceCfg};
use feather_fences::desktop_icons::{
    cell_size, client_area, icons_to_look_at, is_needed, overlaps, packed_position, position_or_nowhere, reserve,
    without_auto_arrange, Desktop,
};
use feather_fences::geometry::{
    cell_h, cell_w, dpi_scale, edge, font_label, font_title, icon, label_h, margin, min_h, min_w,
    rail, set_icon_px, set_title_font_px, title_h, window_dpi, Metrics, Point, Rect, FONT_NAME,
};
use feather_fences::global::{first_box, prepare_fence, Global};
use feather_fences::scale::{Scale, ONE};

fn rect(left: i32, top: i32, right: i32, bottom: i32) -> Rect {
    Rect { left, top, right, bottom }
}

fn at(x: i32, y: i32) -> Point {
    Point { x, y }
}

#[test]
fn scaling_agrees_with_single_precision() {
    let lengths: [u32; 14] = [0, 1, 8, 10, 12, 18, 22, 38, 96, 100, 180, 340, 65_535, 16_777_217];
    for dpi in 0..3000u32 {
        let d = dpi as f32 / 96.0;
        let s = Scale::ratio(dpi);
        for k in lengths {
            assert_eq!(s.floor(k), (k as f32 * d) as i32, "{} at {}", k, dpi);
            assert_eq!(s.round(k), (k as f32 * d).round() as i32, "{} at {}", k, dpi);
            assert_eq!(s.product(k) as f64, (k as f32 * d) as f64 * ONE as f64);
        }
        assert_eq!(s.is_one(), d == 1.0);
        assert_eq!(s.at_least_one().round(1000), (1000.0 * d.max(1.0)).round() as i32);
    }
}

#[test]
fn coordinates_agree_with_single_precision() {
    let places: [i32; 9] =
        [i32::MIN, -16_777_217, -1921, -1, 0, 1, 1919, 1_000_000_007, i32::MAX];
    for dpi in [1u32, 95, 96, 97, 120, 144, 168, 192, 240, 65_535, 4_000_000_000] {
        let d = dpi as f32 / 96.0;
        for x in places {
            assert_eq!(
                Scale::ratio(dpi).coordinate(x),
                (x as f32 * d).round() as i32,
                "{} at {}",
                x,
                dpi
            );
        }
    }
}

#[test]
fn factors_differ_by_more_than_a_hundredth() {
    for a in 90..130u32 {
        for b in 90..130u32 {
            let far = (a as f32 / 96.0 - b as f32 / 96.0).abs() > 0.01;
            assert_eq!(Scale::ratio(a).differs(Scale::ratio(b)), far);
        }
    }
}

#[test]
fn dpi_can_be_told_from_the_factor() {
    for dpi in 96..2000u32 {
        assert_eq!(Scale::ratio(dpi).round(96) as u32, dpi);
    }
}

#[test]
fn lengths_at_one_and_a_half() {
    let d = window_dpi(144);
    let m = Metrics::default();
    assert_eq!(title_h(&m, d), 45);
    assert_eq!((edge(d), margin(d), rail(d), label_h(d)), (12, 15, 33, 57));
    assert_eq!((icon(&m, d), cell_w(&m, d), cell_h(&m, d)), (48, 60, 105));
    assert_eq!((min_w(d), min_h(d)), (270, 150));
    assert_eq!(font_title(&m, d), 18 * ONE as u128);
    assert_eq!(font_label(d), 18 * ONE as u128);
    assert_eq!(FONT_NAME, "Microsoft YaHei UI");
}

#[test]
fn factor_is_never_below_one() {
    assert!(dpi_scale(48).is_one());
    assert!(window_dpi(0).is_one());
    assert_eq!(dpi_scale(192).round(10), 20);
}

#[test]
fn sizes_are_kept_in_their_bounds() {
    let d = window_dpi(96);
    let mut m = Metrics::default();
    assert_eq!((icon(&m, d), title_h(&m, d)), (32, 30));
    set_icon_px(&mut m, 0);
    assert_eq!(icon(&m, d), 16);
    set_icon_px(&mut m, 64);
    assert_eq!(icon(&m, d), 64);
    set_icon_px(&mut m, 1000);
    assert_eq!((icon(&m, d), title_h(&m, d)), (128, 30));
    set_title_font_px(&mut m, 1);
    assert_eq!(title_h(&m, d), 28);
    set_title_font_px(&mut m, 20);
    assert_eq!(title_h(&m, d), 38);
    set_title_font_px(&mut m, 99);
    assert_eq!((title_h(&m, d), icon(&m, d)), (50, 128));
}

#[test]
fn touching_rectangles_do_not_overlap() {
    assert!(overlaps(rect(0, 0, 10, 10), rect(9, 9, 20, 20)));
    assert!(!overlaps(rect(0, 0, 10, 10), rect(10, 0, 20, 10)));
    assert!(!overlaps(rect(0, 0, 10, 10), rect(0, 10, 10, 20)));
}

fn desktop(reserved: Vec<Rect>) -> Desktop {
    Desktop { reserved, cell_w: 100, cell_h: 100, right: 300, bottom: 300 }
}

#[test]
fn covered_icons_move_to_the_first_free_cells() {
    let d = desktop(vec![rect(0, 0, 50, 150)]);
    let mut icons = vec![at(0, 0), at(0, 100), at(100, 0), at(200, 200)];
    let moves = reserve(&d, &mut icons);
    assert_eq!(moves, vec![(0, at(0, 200)), (1, at(100, 100))]);
    assert_eq!(icons, vec![at(0, 200), at(100, 100), at(100, 0), at(200, 200)]);
}

#[test]
fn icon_without_a_free_cell_stays() {
    let d = desktop(vec![rect(0, 0, 300, 300)]);
    let mut icons = vec![at(0, 0), at(-10000, -10000)];
    assert_eq!(reserve(&d, &mut icons), vec![]);
    assert_eq!(icons, vec![at(0, 0), at(-10000, -10000)]);
}

#[test]
fn nothing_moves_where_nothing_is_covered() {
    let d = desktop(vec![]);
    let mut icons = vec![at(5, 5), at(7, 7)];
    assert_eq!(reserve(&d, &mut icons), vec![]);
    assert_eq!(icons, vec![at(5, 5), at(7, 7)]);
}

#[test]
fn small_desktop_has_one_cell() {
    let d = Desktop { reserved: vec![rect(60, 60, 90, 90)], cell_w: 50, cell_h: 50, right: 10, bottom: 10 };
    let mut icons = vec![at(60, 60)];
    assert_eq!(reserve(&d, &mut icons), vec![(0, at(0, 0))]);
}

#[test]
fn desktop_words_are_taken_apart_and_put_together() {
    assert_eq!(cell_size(0x0064_004B), (75, 100));
    assert_eq!(cell_size(0x0001_0001), (48, 48));
    assert_eq!(packed_position(at(300, 100)), 100 * 65_536 + 300);
    assert_eq!(packed_position(at(-1, 2)), 0x0002_FFFF);
    assert_eq!(position_or_nowhere(None), at(-10000, -10000));
    assert_eq!(position_or_nowhere(Some(at(1, 2))), at(1, 2));
    assert_eq!(without_auto_arrange(0x0101), Some(1));
    assert_eq!(without_auto_arrange(0x0001), None);
    assert_eq!(client_area(Some(at(1, 2)), Some(at(3, 4))), Some(rect(1, 2, 3, 4)));
    assert_eq!(client_area(Some(at(1, 2)), None), None);
    assert_eq!(client_area(None, Some(at(1, 2))), None);
}

#[test]
fn fence_without_a_place_goes_down_the_cascade() {
    let mut g = Global::new(Config::default(), 7, 1);
    let s = dpi_scale(96);
    let mut cfg = FenceCfg::default();
    cfg.w = 10;
    cfg.h = 10;
    let cfg = prepare_fence(&mut g, cfg, s, 1920, 1080);
    assert_eq!((cfg.id, cfg.x, cfg.y, cfg.w, cfg.h), (7, 1580, 80, 180, 100));
    assert_eq!(g.next_id, 8);
    for _ in 0..3 {
        let cfg = FenceCfg::default();
        feather_fences::global::create_fence(&mut g, cfg, 5, s, 96);
    }
    let cfg = prepare_fence(&mut g, FenceCfg::default(), s, 1920, 450);
    assert_eq!((cfg.x, cfg.y), (1490, 50));
    let cfg = prepare_fence(&mut g, FenceCfg::default(), s, 100, 100);
    assert_eq!((cfg.x, cfg.y), (0, 0));
    let mut cfg = FenceCfg::default();
    cfg.id = 3;
    cfg.x = -5;
    let cfg = prepare_fence(&mut g, cfg, s, 1920, 1080);
    assert_eq!((cfg.id, cfg.x, cfg.y, g.next_id), (3, -5, 0, 10));
}

#[test]
fn first_fence_stands_on_the_right() {
    let g = Global::new(Config::default(), 1, 1);
    let cfg = first_box(&g, 1920, dpi_scale(120));
    assert_eq!(cfg.title, "收纳箱");
    assert!(cfg.folder.is_none());
    assert_eq!((cfg.id, cfg.x, cfg.y, cfg.w, cfg.h), (1, 1520, 125, 325, 425));
    assert_eq!(f32::from_bits(cfg.opacity), 0.74);
    assert_eq!(cfg.icon, 32);
}

#[test]
fn icons_are_looked_at_only_where_it_matters() {
    let area = vec![Rect { left: 0, top: 0, right: 1, bottom: 1 }];
    assert!(is_needed(&area) && !is_needed(&Vec::new()));
    assert_eq!(icons_to_look_at(&area, 12), Some(12));
    assert_eq!(icons_to_look_at(&area, 0), None);
    assert_eq!(icons_to_look_at(&area, -1), None);
    assert_eq!(icons_to_look_at(&Vec::new(), 12), None);
}
