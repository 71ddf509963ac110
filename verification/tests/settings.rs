use feather_fences::config::{
    config_dir, config_path, default_icon, default_opacity, default_vault_dir, ensure_dir, load,
    migrate_icon, next_id, normalize_dpi, vault_dir, Config, EnsureDir, FenceCfg, SweepRule,
};
use feather_fences::geometry::dpi_scale;
use feather_fences::path::{extension, file_stem, Location};
use feather_fences::sweep::{
    calls_for_sweep, dotted, ext_of, position_of, retry_later, rule_for, sweep_desktop,
    sweep_retry_tick, Outcome,
};
use feather_fences::text::{append_decimal, append_utf16, buffer_text, wstr};
use feather_fences::transfer::{failure_message, move_on, move_to_dir, unique_dest, Failure, Step};

fn at(path: &str) -> Location {
    Location::at(path.to_string())
}

fn rule(ext: &str, dest: &str) -> SweepRule {
    SweepRule { ext: ext.to_string(), dest: at(dest) }
}

fn fence(id: u32, icon: u32) -> FenceCfg {
    let mut f = FenceCfg::default();
    f.id = id;
    f.icon = icon;
    f
}

#[test]
fn defaults_are_as_documented() {
    let f = FenceCfg::default();
    assert_eq!(f.title, "栅栏");
    assert_eq!((f.id, f.x, f.y, f.w, f.h, f.icon), (0, 0, 0, 260, 340, 32));
    assert!(f.folder.is_none());
    assert_eq!(f32::from_bits(default_opacity()), 0.74);
    assert_eq!(default_icon(), 32);
    let c = Config::default();
    assert!(c.fences.is_empty() && c.sweep_rules.is_empty() && c.vault_dir.is_none());
    assert_eq!((c.ghost_mode, c.autostart, c.icon, c.version), (false, false, 32, 2));
}

#[test]
fn unreadable_configuration_is_the_default() {
    assert_eq!(load(None).version, 2);
    let mut c = Config::default();
    c.icon = 99;
    assert_eq!(load(Some(c)).icon, 99);
}

#[test]
fn logical_pixels_become_physical() {
    let mut c = Config::default();
    let mut f = FenceCfg::default();
    f.x = -11;
    f.y = 13;
    c.fences.push(f);
    normalize_dpi(&mut c, dpi_scale(144));
    let f = &c.fences[0];
    assert_eq!((f.x, f.y, f.w, f.h), (-17, 20, 390, 510));
    assert_eq!(c.version, 2);
}

#[test]
fn old_configuration_is_in_physical_pixels_already() {
    let mut c = Config::default();
    c.version = 1;
    c.fences.push(FenceCfg::default());
    normalize_dpi(&mut c, dpi_scale(192));
    assert_eq!((c.fences[0].w, c.version), (260, 2));
    normalize_dpi(&mut c, dpi_scale(96));
    assert_eq!(c.fences[0].w, 260);
}

#[test]
fn locations_lie_below_the_application_data() {
    let p = config_path(Some("C:\\Data".to_string()));
    assert_eq!(p.base, "C:\\Data");
    assert_eq!(p.parts, vec!["feather-fences", "config.json"]);
    assert_eq!(config_dir(None).base, ".");
    assert_eq!(config_dir(None).parts, vec!["feather-fences"]);
    assert_eq!(default_vault_dir(None).parts, vec!["feather-fences", "vault"]);
    let mut c = Config::default();
    assert_eq!(vault_dir(&c, Some("A".to_string())).base, "A");
    c.vault_dir = Some(at("D:\\v"));
    let v = vault_dir(&c, None);
    assert_eq!(v.base, "D:\\v");
    assert!(v.parts.is_empty());
}

#[test]
fn directory_is_made_only_where_there_is_nothing() {
    assert_eq!(ensure_dir(true, true), EnsureDir::Known(true));
    assert_eq!(ensure_dir(true, false), EnsureDir::Known(false));
    assert_eq!(ensure_dir(false, false), EnsureDir::Make);
}

#[test]
fn icon_size_comes_from_the_first_fence_that_has_one() {
    let mut c = Config::default();
    c.icon = 0;
    c.fences = vec![fence(1, 0), fence(2, 48), fence(3, 64)];
    migrate_icon(&mut c);
    assert_eq!(c.icon, 48);
    migrate_icon(&mut c);
    assert_eq!(c.icon, 48);
    c.icon = 0;
    c.fences = vec![fence(1, 0)];
    migrate_icon(&mut c);
    assert_eq!(c.icon, 32);
}

#[test]
fn next_number_is_above_all() {
    let mut c = Config::default();
    assert_eq!(next_id(&c), 1);
    c.fences = vec![fence(4, 0), fence(9, 0), fence(2, 0)];
    assert_eq!(next_id(&c), 10);
}

#[test]
fn names_are_cut_at_the_last_dot() {
    let parts = |s: &str| (file_stem(s), extension(s));
    let some = |s: &str| Some(s.to_string());
    assert_eq!(parts("a.tar.gz"), (some("a.tar"), some("gz")));
    assert_eq!(parts("收纳.文档"), (some("收纳"), some("文档")));
    assert_eq!(parts(".profile"), (some(".profile"), None));
    assert_eq!(parts("name"), (some("name"), None));
    assert_eq!(parts("end."), (some("end"), some("")));
    assert_eq!(parts("..x"), (some("."), some("x")));
    assert_eq!(parts(".."), (None, None));
    assert_eq!(parts("."), (None, None));
    assert_eq!(parts(""), (None, None));
    assert_eq!(parts("x/y.txt"), (some("y"), some("txt")));
    assert_eq!(parts("d.x\\README"), (some("README"), None));
    assert_eq!(parts("C:a.b"), (some("a"), some("b")));
    assert_eq!(parts("C:\\"), (None, None));
    assert_eq!(parts("C:"), (None, None));
    for root in [
        "\\\\server\\a.d",
        "//server/a.d",
        "\\\\server\\a.d\\",
        "\\\\.\\com.1",
        "\\\\?\\part.x",
        "\\\\?\\C:",
        "\\\\?\\UNC\\server\\a.d",
        "\\\\?\\C:\\a.b\\.",
    ] {
        assert_eq!(parts(root), (None, None));
    }
    for inside in [
        "\\\\server\\share\\a.b",
        "\\\\.\\disk\\a.b",
        "\\\\?\\part\\a.b",
        "\\\\?\\C:\\a.b",
        "\\\\?\\UNC\\server\\share\\a.b\\",
        "\\\\a.b",
        "C:x/./a.b/.",
    ] {
        assert_eq!(parts(inside), (some("a"), some("b")));
    }
    assert_eq!(parts("\\\\?\\C:\\x/y.z"), (some("x/y"), some("z")));
    for s in [
        "a.tar.gz", ".profile", "name", "end.", "..x", "..", ".", "", "a..b", "...", "x/y.txt",
        "d.x/README", "a.b/", "a.b//", "a.b/.", "a.b/./", "a.b/..", "/", "/a.b", "./a.b", "./",
    ] {
        let p = std::path::Path::new(s);
        assert_eq!(file_stem(s), p.file_stem().map(|t| t.to_string_lossy().to_string()));
        assert_eq!(extension(s), p.extension().map(|t| t.to_string_lossy().to_string()));
    }
}

#[test]
fn extension_is_dotted_and_in_lower_case() {
    assert_eq!(ext_of("Photo.JPG"), ".jpg");
    assert_eq!(ext_of("X.ÄÖ"), ".äö");
    assert_eq!(ext_of("none"), "");
    assert_eq!(ext_of("d.x/README"), "");
    assert_eq!(ext_of("\\\\server\\a.d"), "");
    assert_eq!(ext_of("PHOTO.jPg"), ext_of("photo.JpG"));
    assert_eq!(dotted(Some("a".to_string())), ".a");
    assert_eq!(dotted(None), "");
}

#[test]
fn first_matching_rule_counts() {
    let rules = vec![rule(".png", "p"), rule(".JPG", "one"), rule(".jpg", "two")];
    assert_eq!(rule_for(&rules, "x.Jpg"), Some(1));
    assert_eq!(rule_for(&rules, "x.gif"), None);
    assert_eq!(sweep_desktop(&rules, "x.png", true), Some(0));
    assert_eq!(sweep_desktop(&rules, "x.png", false), None);
    let exts = vec![".a".to_string(), ".b".to_string(), ".b".to_string()];
    assert_eq!(position_of(&exts, &".b".to_string()), Some(1));
    assert_eq!(position_of(&exts, &".c".to_string()), None);
}

#[test]
fn rule_without_extension_is_for_names_without_one() {
    let rules = vec![rule("", "bare")];
    assert_eq!(rule_for(&rules, "README"), Some(0));
    assert_eq!(rule_for(&rules, "README.md"), None);
}

#[test]
fn sweep_is_called_for_by_any_file() {
    let rules = vec![rule(".png", "p")];
    let names = |v: &[&str]| v.iter().map(|s| s.to_string()).collect::<Vec<String>>();
    assert!(calls_for_sweep(&rules, &names(&["a.txt", "b.PNG"])));
    assert!(!calls_for_sweep(&rules, &names(&["a.txt"])));
    assert!(!calls_for_sweep(&rules, &names(&[])));
    assert!(!calls_for_sweep(&Vec::new(), &names(&["b.png"])));
}

#[test]
fn failed_files_are_tried_again() {
    let mut list = Vec::new();
    retry_later(&mut list, at("a"), at("x"));
    retry_later(&mut list, at("b"), at("y"));
    retry_later(&mut list, at("c"), at("z"));
    sweep_retry_tick(&mut list, &vec![Outcome::Failed, Outcome::Gone, Outcome::Failed]);
    let left: Vec<(&str, &str)> =
        list.iter().map(|e| (e.src.base.as_str(), e.dest.base.as_str())).collect();
    assert_eq!(left, vec![("a", "x"), ("c", "z")]);
    sweep_retry_tick(&mut list, &vec![Outcome::Moved, Outcome::Gone]);
    assert!(list.is_empty());
}

#[test]
fn file_is_renamed_under_the_first_free_name() {
    let mut step = move_to_dir(true, true);
    let taken = [true, true, false];
    while let Step::Probe(k) = step {
        step = move_on(step, taken[k as usize], true);
    }
    assert_eq!(step, Step::Rename(2));
    assert_eq!(unique_dest("a.txt", 2, 0), "a (2).txt");
    assert_eq!(move_on(step, true, true), Step::Done(2));
    let copy = move_on(step, false, true);
    assert_eq!(copy, Step::Copy(2));
    assert_eq!(move_on(copy, true, true), Step::RemoveOriginal(2));
    assert_eq!(move_on(Step::RemoveOriginal(2), true, true), Step::Done(2));
    assert_eq!(
        move_on(Step::RemoveOriginal(2), false, true),
        Step::Failed(Failure::NotRemoved)
    );
    assert_eq!(move_on(copy, false, true), Step::Failed(Failure::NotMoved));
}

#[test]
fn time_of_day_is_the_last_resort() {
    let mut step = move_to_dir(true, true);
    let mut probes = 0;
    while let Step::Probe(_) = step {
        probes += 1;
        step = move_on(step, true, true);
    }
    assert_eq!(probes, 1000);
    assert_eq!(step, Step::Rename(1000));
    assert_eq!(unique_dest("a.txt", 999, 7), "a (999).txt");
    assert_eq!(unique_dest("a.txt", 1000, 1_700_000_000), "a (1700000000).txt");
}

#[test]
fn directory_comes_first() {
    let step = move_to_dir(false, true);
    assert_eq!(step, Step::MakeDirectory);
    assert_eq!(move_on(step, true, true), Step::Probe(0));
    assert_eq!(move_on(step, false, true), Step::Failed(Failure::NoDirectory));
    assert_eq!(move_on(step, true, false), Step::Failed(Failure::NoFileName));
    assert_eq!(move_to_dir(true, false), Step::Failed(Failure::NoFileName));
    let end = Step::Failed(Failure::NoFileName);
    assert_eq!(move_on(end, true, true), end);
}

#[test]
fn failures_are_reported() {
    assert_eq!(failure_message(Failure::NoDirectory, "denied", ""), "denied");
    assert_eq!(failure_message(Failure::NoFileName, "", ""), "no file name");
    assert_eq!(failure_message(Failure::NotMoved, "a", "b"), "rename: a; copy: b");
    assert_eq!(failure_message(Failure::NotRemoved, "a", "b"), "rename: a; remove: b");
}

#[test]
fn file_is_moved_or_stays_on_a_disk_of_its_own() {
    let run = |renames: bool, removes: bool| {
        let mut source = Some(7);
        let mut files = std::collections::BTreeMap::new();
        files.insert("a.txt".to_string(), 1);
        let mut step = move_to_dir(true, true);
        loop {
            let yes = match step {
                Step::MakeDirectory => true,
                Step::Probe(k) => files.contains_key(&unique_dest("a.txt", k, 0)),
                Step::Rename(k) => {
                    if renames {
                        files.insert(unique_dest("a.txt", k, 0), source.take().unwrap());
                    }
                    renames
                }
                Step::Copy(k) => {
                    files.insert(unique_dest("a.txt", k, 0), source.unwrap());
                    true
                }
                Step::RemoveOriginal(_) => {
                    if removes {
                        source = None;
                    }
                    removes
                }
                Step::Done(_) | Step::Failed(_) => break,
            };
            step = move_on(step, yes, true);
        }
        assert_eq!(files["a.txt"], 1);
        assert_eq!(files["a (1).txt"], 7);
        (step, source)
    };
    assert_eq!(run(true, true), (Step::Done(1), None));
    assert_eq!(run(false, true), (Step::Done(1), None));
    assert_eq!(run(false, false), (Step::Failed(Failure::NotRemoved), Some(7)));
}

#[test]
fn numbers_go_before_the_extension() {
    assert_eq!(unique_dest("x.tar.gz", 0, 0), "x.tar.gz");
    assert_eq!(unique_dest("x.tar.gz", 12, 0), "x.tar (12).gz");
    assert_eq!(unique_dest(".env", 1, 0), ".env (1)");
    assert_eq!(unique_dest("..", 1, 0), "file (1)");
    assert_eq!(unique_dest("x/y.txt", 1, 0), "y (1).txt");
}

#[test]
fn text_goes_to_utf16_and_back() {
    let s = "a箱\u{1F4C1}";
    let mut expected: Vec<u16> = s.encode_utf16().collect();
    let mut out = vec![9];
    append_utf16(&mut out, s);
    assert_eq!(out[1..], expected[..]);
    expected.push(0);
    assert_eq!(wstr(s), expected);
    expected.push(0x41);
    assert_eq!(buffer_text(&expected), s);
    assert_eq!(buffer_text(&vec![]), "");
    assert_eq!(buffer_text(&vec![0xDC00, 0xD83D, 0x41]), "\u{FFFD}\u{FFFD}A");
}

#[test]
fn numbers_are_written_in_decimal() {
    let mut s = "n=".to_string();
    append_decimal(&mut s, u64::MAX);
    append_decimal(&mut s, 0);
    assert_eq!(s, "n=184467440737095516150");
}
