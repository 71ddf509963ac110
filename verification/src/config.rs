//! The configuration: fences, sweep rules and switches, and where it is kept.
//!
//! Positions and sizes are kept in logical pixels and are multiplied by the
//! display's scale when the configuration is taken into use.

use crate::path::{Location, LocationView};
use crate::scale::{scaled_coordinate, Scale, ONE};
use vstd::prelude::*;

verus! {

/// The opacity of a fence that says none, 0.74, as the bits of a
/// single-precision number.
pub const DEFAULT_OPACITY: u32 = 0x3F3D_70A4;

/// From this version on positions and sizes are in logical pixels.
pub const LOGICAL_PIXELS: u32 = 2;

/// A fence as it is configured.
pub struct FenceCfg {
    pub id: u32,
    pub title: String,
    /// The folder that it shows; none if it collects what is dropped on it.
    pub folder: Option<Location>,
    pub x: i32,
    pub y: i32,
    pub w: i32,
    pub h: i32,
    /// The bits of a single-precision number.
    pub opacity: u32,
    /// The size of its icons, from when each fence had its own.
    pub icon: u32,
}

/// What a fence's configuration is.
#[verifier::ext_equal]
pub struct FenceCfgView {
    pub id: u32,
    pub title: Seq<char>,
    pub folder: Option<LocationView>,
    pub x: i32,
    pub y: i32,
    pub w: i32,
    pub h: i32,
    pub opacity: u32,
    pub icon: u32,
}

impl View for FenceCfg {
    type V = FenceCfgView;

    open spec fn view(&self) -> FenceCfgView {
        FenceCfgView {
            id: self.id,
            title: self.title@,
            folder: match self.folder {
                Some(l) => Some(l@),
                None => None,
            },
            x: self.x,
            y: self.y,
            w: self.w,
            h: self.h,
            opacity: self.opacity,
            icon: self.icon,
        }
    }
}

/// The opacity of a fence that says none.
pub fn default_opacity() -> (r: u32)
    ensures
        r == DEFAULT_OPACITY,
        r == 0x3F3D_70A4,
{
    DEFAULT_OPACITY
}

/// The size of icons that are not given one, in logical pixels.
pub fn default_icon() -> (r: u32)
    ensures
        r == 32,
{
    32
}

impl Default for FenceCfg {
    fn default() -> (r: FenceCfg)
        ensures
            r@ == (FenceCfgView {
                id: 0,
                title: "栅栏"@,
                folder: None,
                x: 0,
                y: 0,
                w: 260,
                h: 340,
                opacity: DEFAULT_OPACITY,
                icon: 32,
            }),
    {
        FenceCfg {
            id: 0,
            title: "栅栏".to_owned(),
            folder: None,
            x: 0,
            y: 0,
            w: 260,
            h: 340,
            opacity: default_opacity(),
            icon: default_icon(),
        }
    }
}

impl FenceCfg {
    /// The same configuration.
    pub fn copy(&self) -> (r: FenceCfg)
        ensures
            r@ == self@,
    {
        FenceCfg {
            id: self.id,
            title: self.title.clone(),
            folder: match &self.folder {
                Some(l) => Some(l.copy()),
                None => None,
            },
            x: self.x,
            y: self.y,
            w: self.w,
            h: self.h,
            opacity: self.opacity,
            icon: self.icon,
        }
    }
}

/// Files with this extension belong into that directory.
pub struct SweepRule {
    /// The extension with its dot, such as ".jpg".
    pub ext: String,
    pub dest: Location,
}

/// What a sweep rule is.
pub struct SweepRuleView {
    pub ext: Seq<char>,
    pub dest: LocationView,
}

impl View for SweepRule {
    type V = SweepRuleView;

    open spec fn view(&self) -> SweepRuleView {
        SweepRuleView { ext: self.ext@, dest: self.dest@ }
    }
}

/// The whole configuration.
pub struct Config {
    pub fences: Vec<FenceCfg>,
    pub sweep_rules: Vec<SweepRule>,
    pub ghost_mode: bool,
    pub autostart: bool,
    pub vault_dir: Option<Location>,
    /// The size of icons, in logical pixels.
    pub icon: u32,
    pub version: u32,
}

/// What a configuration is.
pub struct ConfigView {
    pub fences: Seq<FenceCfgView>,
    pub sweep_rules: Seq<SweepRuleView>,
    pub ghost_mode: bool,
    pub autostart: bool,
    pub vault_dir: Option<LocationView>,
    pub icon: u32,
    pub version: u32,
}

/// What fences' configurations are.
pub open spec fn fence_views(v: Seq<FenceCfg>) -> Seq<FenceCfgView> {
    v.map_values(|f: FenceCfg| f@)
}

impl View for Config {
    type V = ConfigView;

    open spec fn view(&self) -> ConfigView {
        ConfigView {
            fences: fence_views(self.fences@),
            sweep_rules: self.sweep_rules@.map_values(|r: SweepRule| r@),
            ghost_mode: self.ghost_mode,
            autostart: self.autostart,
            vault_dir: match self.vault_dir {
                Some(l) => Some(l@),
                None => None,
            },
            icon: self.icon,
            version: self.version,
        }
    }
}

impl ConfigView {
    /// The configuration before anything was configured.
    pub open spec fn initial() -> ConfigView {
        ConfigView {
            fences: Seq::empty(),
            sweep_rules: Seq::empty(),
            ghost_mode: false,
            autostart: false,
            vault_dir: None,
            icon: 32,
            version: 2,
        }
    }

    /// The configuration with its fences in the pixels of a display at the
    /// factor `s`, where they were in logical ones.
    pub open spec fn in_pixels(self, s: nat) -> ConfigView {
        ConfigView {
            fences: if self.version >= LOGICAL_PIXELS && s != ONE {
                self.fences.map_values(|f: FenceCfgView| scaled_fence(f, s))
            } else {
                self.fences
            },
            version: LOGICAL_PIXELS,
            ..self
        }
    }
}

/// A fence with its position and size multiplied by `s`.
pub open spec fn scaled_fence(f: FenceCfgView, s: nat) -> FenceCfgView {
    FenceCfgView {
        x: scaled_coordinate(f.x, s) as i32,
        y: scaled_coordinate(f.y, s) as i32,
        w: scaled_coordinate(f.w, s) as i32,
        h: scaled_coordinate(f.h, s) as i32,
        ..f
    }
}

impl Default for Config {
    fn default() -> (r: Config)
        ensures
            r@ == ConfigView::initial(),
    {
        let r = Config {
            fences: Vec::new(),
            sweep_rules: Vec::new(),
            ghost_mode: false,
            autostart: false,
            vault_dir: None,
            icon: default_icon(),
            version: 2,
        };
        assert(r@.fences == Seq::<FenceCfgView>::empty());
        assert(r@.sweep_rules == Seq::<SweepRuleView>::empty());
        r
    }
}

/// Takes a configuration into use on a display at the factor `s`: positions and
/// sizes in logical pixels become the display's.  Those of a configuration from
/// before version 2 are the display's already.
pub fn normalize_dpi(c: &mut Config, s: Scale)
    ensures
        final(c)@ == old(c)@.in_pixels(s@),
{
    let ghost before = c@;
    let ghost rules = c.sweep_rules@;
    if c.version >= LOGICAL_PIXELS && !s.is_one() {
        let mut i: usize = 0;
        while i < c.fences.len()
            invariant
                i <= c.fences@.len(),
                c.fences@.len() == before.fences.len(),
                c.sweep_rules@ == rules,
                c@.ghost_mode == before.ghost_mode,
                c@.autostart == before.autostart,
                c@.vault_dir == before.vault_dir,
                c@.icon == before.icon,
                before.version >= LOGICAL_PIXELS,
                s@ != ONE,
                forall|k: int|
                    0 <= k < i ==> (#[trigger] c.fences@[k])@ == scaled_fence(
                        before.fences[k],
                        s@,
                    ),
                forall|k: int|
                    i <= k < c.fences@.len() ==> (#[trigger] c.fences@[k])@ == before.fences[k],
            decreases c.fences@.len() - i,
        {
            let f = &mut c.fences[i];
            f.x = s.coordinate(f.x);
            f.y = s.coordinate(f.y);
            f.w = s.coordinate(f.w);
            f.h = s.coordinate(f.h);
            i += 1;
        }
        assert(c@.fences == before.in_pixels(s@).fences);
    }
    c.version = LOGICAL_PIXELS;
}

/// Only positions and sizes change when a configuration is taken into use, and
/// its version; and those only where they were in logical pixels and the display
/// is scaled.
pub proof fn taking_into_use_keeps_the_rest(c: ConfigView, s: nat, i: int)
    requires
        0 <= i < c.fences.len(),
    ensures
        c.in_pixels(s).fences.len() == c.fences.len(),
        c.in_pixels(s).fences[i] == (FenceCfgView {
            x: c.in_pixels(s).fences[i].x,
            y: c.in_pixels(s).fences[i].y,
            w: c.in_pixels(s).fences[i].w,
            h: c.in_pixels(s).fences[i].h,
            ..c.fences[i]
        }),
        c.in_pixels(s).version == LOGICAL_PIXELS,
        c.version < LOGICAL_PIXELS || s == ONE ==> c.in_pixels(s).fences == c.fences,
{
}

/// The directory of the configuration, below the user's application data or,
/// where that is not known, the current directory.
pub open spec fn config_dir_of(appdata: Option<Seq<char>>) -> LocationView {
    LocationView {
        base: match appdata {
            Some(p) => p,
            None => "."@,
        },
        parts: seq!["feather-fences"@],
    }
}

/// What an optional string holds.
pub open spec fn text_of(s: Option<String>) -> Option<Seq<char>> {
    match s {
        Some(t) => Some(t@),
        None => None,
    }
}

/// The directory of the configuration.
pub fn config_dir(appdata: Option<String>) -> (r: Location)
    ensures
        r@ == config_dir_of(text_of(appdata)),
{
    let base: String = match appdata {
        Some(p) => p,
        None => ".".to_owned(),
    };
    let r = Location::at(base).join("feather-fences");
    assert(r@.parts == seq!["feather-fences"@]);
    r
}

/// The file of the configuration.
pub fn config_path(appdata: Option<String>) -> (r: Location)
    ensures
        r@ == config_dir_of(text_of(appdata)).join("config.json"@),
{
    config_dir(appdata).join("config.json")
}

/// Where files are collected unless the configuration says otherwise.
pub fn default_vault_dir(appdata: Option<String>) -> (r: Location)
    ensures
        r@ == config_dir_of(text_of(appdata)).join("vault"@),
{
    config_dir(appdata).join("vault")
}

/// Where files are collected.
pub fn vault_dir(c: &Config, appdata: Option<String>) -> (r: Location)
    ensures
        r@ == match c@.vault_dir {
            Some(l) => l,
            None => config_dir_of(text_of(appdata)).join("vault"@),
        },
{
    match &c.vault_dir {
        Some(l) => l.copy(),
        None => default_vault_dir(appdata),
    }
}

/// The configuration that was read, or the initial one if none could be.
pub fn load(read: Option<Config>) -> (r: Config)
    ensures
        match read {
            Some(c) => r == c,
            None => r@ == ConfigView::initial(),
        },
{
    match read {
        Some(c) => c,
        None => Config::default(),
    }
}

/// What it takes for a directory to be there.
#[derive(Clone, Copy, PartialEq, Eq, Structural, Debug)]
pub enum EnsureDir {
    /// There is something of that name: a directory, or not.
    Known(bool),
    /// It has to be made.
    Make,
}

/// What it takes for a directory to be there, by whether something of that name
/// is present and whether that is a directory.
pub fn ensure_dir(present: bool, is_dir: bool) -> (r: EnsureDir)
    ensures
        r == if present {
            EnsureDir::Known(is_dir)
        } else {
            EnsureDir::Make
        },
{
    if present {
        EnsureDir::Known(is_dir)
    } else {
        EnsureDir::Make
    }
}

/// The first size that is not zero, from number `i` on.
pub open spec fn first_icon(fences: Seq<FenceCfgView>, i: int) -> Option<u32>
    decreases fences.len() - i,
{
    if i < 0 || i >= fences.len() {
        None
    } else if fences[i].icon != 0 {
        Some(fences[i].icon)
    } else {
        first_icon(fences, i + 1)
    }
}

/// Gives a configuration without a size of icons the one of its first fence
/// that has one, or else the usual one.
pub fn migrate_icon(c: &mut Config)
    ensures
        final(c)@ == (ConfigView {
            icon: if old(c)@.icon != 0 {
                old(c)@.icon
            } else {
                match first_icon(old(c)@.fences, 0) {
                    Some(v) => v,
                    None => 32,
                }
            },
            ..old(c)@
        }),
{
    if c.icon == 0 {
        let mut i: usize = 0;
        let mut found: u32 = 0;
        while i < c.fences.len() && found == 0
            invariant
                i <= c.fences@.len(),
                found == 0 ==> first_icon(c@.fences, 0) == first_icon(c@.fences, i as int),
                found != 0 ==> first_icon(c@.fences, 0) == Some(found),
            decreases c.fences@.len() - i,
        {
            assert(c@.fences[i as int] == c.fences@[i as int]@);
            found = c.fences[i].icon;
            i += 1;
        }
        c.icon = if found != 0 {
            found
        } else {
            32
        };
    }
}

/// The first number above those of all fences.
pub fn next_id(c: &Config) -> (r: u32)
    requires
        forall|i: int| 0 <= i < c@.fences.len() ==> (#[trigger] c@.fences[i]).id < u32::MAX,
    ensures
        forall|i: int| 0 <= i < c@.fences.len() ==> (#[trigger] c@.fences[i]).id < r,
        r == 1 || exists|i: int|
            0 <= i < c@.fences.len() && (#[trigger] c@.fences[i]).id + 1 == r,
        r >= 1,
{
    let mut top: u32 = 0;
    let mut i: usize = 0;
    while i < c.fences.len()
        invariant
            i <= c.fences@.len(),
            top < u32::MAX,
            forall|k: int| 0 <= k < c@.fences.len() ==> (#[trigger] c@.fences[k]).id < u32::MAX,
            forall|k: int| 0 <= k < i ==> (#[trigger] c@.fences[k]).id <= top,
            top == 0 || exists|k: int| 0 <= k < i && (#[trigger] c@.fences[k]).id == top,
        decreases c.fences@.len() - i,
    {
        assert(c@.fences[i as int] == c.fences@[i as int]@);
        if c.fences[i].id > top {
            top = c.fences[i].id;
        }
        i += 1;
    }
    top + 1
}

/// What a fence is configured as holds all that it is configured with.
pub proof fn view_tells_the_fence(f: FenceCfg)
    ensures
        f@.id == f.id,
        f@.title == f.title@,
        f@.folder is Some <==> f.folder is Some,
        f.folder matches Some(l) ==> f@.folder == Some(l@),
        f@.x == f.x && f@.y == f.y && f@.w == f.w && f@.h == f.h,
        f@.opacity == f.opacity,
        f@.icon == f.icon,
{
}

/// What a configuration is holds all that it was given, fences and rules in order.
pub proof fn view_tells_the_configuration(c: Config)
    ensures
        c@.fences.len() == c.fences@.len(),
        forall|i: int| 0 <= i < c.fences@.len() ==> c@.fences[i] == (#[trigger] c.fences@[i])@,
        c@.sweep_rules.len() == c.sweep_rules@.len(),
        forall|i: int|
            0 <= i < c.sweep_rules@.len() ==> {
                &&& c@.sweep_rules[i].ext == (#[trigger] c.sweep_rules@[i]).ext@
                &&& c@.sweep_rules[i].dest == c.sweep_rules@[i].dest@
            },
        c@.ghost_mode == c.ghost_mode,
        c@.autostart == c.autostart,
        c@.vault_dir is Some <==> c.vault_dir is Some,
        c.vault_dir matches Some(l) ==> c@.vault_dir == Some(l@),
        c@.icon == c.icon,
        c@.version == c.version,
{
}

/// Before anything was configured there are no fences and no rules, no switch is
/// on, and icons have 32 logical pixels.
pub proof fn nothing_is_configured_at_first()
    ensures
        ConfigView::initial().fences.len() == 0,
        ConfigView::initial().sweep_rules.len() == 0,
        !ConfigView::initial().ghost_mode && !ConfigView::initial().autostart,
        ConfigView::initial().vault_dir is None,
        ConfigView::initial().icon == 32,
        ConfigView::initial().version == 2,
{
}

/// From version 2 on, taking a configuration into use multiplies positions and
/// sizes alike by the display's factor, for every fence: exactly where the factor
/// is a whole number and nothing gets past 2^24.  Before, it leaves them.
pub proof fn taking_into_use_scales_every_fence(c: ConfigView, m: nat, i: int)
    requires
        0 <= i < c.fences.len(),
        m >= 1,
        -0x100_0000 < c.fences[i].x < 0x100_0000 && -0x100_0000 < c.fences[i].x * m < 0x100_0000,
        -0x100_0000 < c.fences[i].y < 0x100_0000 && -0x100_0000 < c.fences[i].y * m < 0x100_0000,
        -0x100_0000 < c.fences[i].w < 0x100_0000 && -0x100_0000 < c.fences[i].w * m < 0x100_0000,
        -0x100_0000 < c.fences[i].h < 0x100_0000 && -0x100_0000 < c.fences[i].h * m < 0x100_0000,
    ensures
        ({
            let f = c.fences[i];
            let r = c.in_pixels((m * 0x4000_0000) as nat).fences[i];
            let by = if c.version >= 2 {
                m as int
            } else {
                1
            };
            r.x == f.x * by && r.y == f.y * by && r.w == f.w * by && r.h == f.h * by
        }),
        c.in_pixels((m * 0x4000_0000) as nat).sweep_rules == c.sweep_rules,
        c.in_pixels((m * 0x4000_0000) as nat).ghost_mode == c.ghost_mode,
        c.in_pixels((m * 0x4000_0000) as nat).autostart == c.autostart,
        c.in_pixels((m * 0x4000_0000) as nat).vault_dir == c.vault_dir,
        c.in_pixels((m * 0x4000_0000) as nat).icon == c.icon,
{
    let f = c.fences[i];
    crate::scale::whole_factor_multiplies_coordinates(f.x, m);
    crate::scale::whole_factor_multiplies_coordinates(f.y, m);
    crate::scale::whole_factor_multiplies_coordinates(f.w, m);
    crate::scale::whole_factor_multiplies_coordinates(f.h, m);
    assert(f.x * 1 == f.x && f.y * 1 == f.y && f.w * 1 == f.w && f.h * 1 == f.h);
}

/// On every display that is scaled, position and size alike are scaled as
/// coordinates are.
pub proof fn every_measure_is_scaled(c: ConfigView, s: nat, i: int)
    requires
        0 <= i < c.fences.len(),
        c.version >= 2,
        s != 0x4000_0000,
    ensures
        c.in_pixels(s).fences[i].x == scaled_coordinate(c.fences[i].x, s) as i32,
        c.in_pixels(s).fences[i].y == scaled_coordinate(c.fences[i].y, s) as i32,
        c.in_pixels(s).fences[i].w == scaled_coordinate(c.fences[i].w, s) as i32,
        c.in_pixels(s).fences[i].h == scaled_coordinate(c.fences[i].h, s) as i32,
{
}

/// The size of icons that is taken over is that of the first fence that has one.
pub proof fn first_size_is_taken(fences: Seq<FenceCfgView>, i: int)
    requires
        0 <= i,
    ensures
        match first_icon(fences, i) {
            Some(v) => v != 0 && exists|k: int|
                #![trigger fences[k]]
                i <= k < fences.len() && fences[k].icon == v && forall|j: int|
                    i <= j < k ==> (#[trigger] fences[j]).icon == 0,
            None => forall|k: int| i <= k < fences.len() ==> (#[trigger] fences[k]).icon == 0,
        },
    decreases fences.len() - i,
{
    if i < fences.len() {
        if fences[i].icon == 0 {
            first_size_is_taken(fences, i + 1);
            match first_icon(fences, i + 1) {
                Some(v) => {
                    let k = choose|k: int|
                        #![trigger fences[k]]
                        i + 1 <= k < fences.len() && fences[k].icon == v && forall|j: int|
                            i + 1 <= j < k ==> (#[trigger] fences[j]).icon == 0;
                    assert(fences[k].icon == v && forall|j: int|
                        i <= j < k ==> (#[trigger] fences[j]).icon == 0);
                },
                None => {},
            }
        } else {
            assert(fences[i].icon == fences[i].icon);
        }
    }
}

/// The configuration stands in one directory of a fixed name, right below the
/// application data or the current directory.
pub proof fn configuration_has_its_own_directory(appdata: Seq<char>)
    ensures
        config_dir_of(Some(appdata)).base == appdata,
        config_dir_of(None).base == seq!['.'],
        config_dir_of(Some(appdata)).parts == seq!["feather-fences"@],
        config_dir_of(None).parts == config_dir_of(Some(appdata)).parts,
{
    reveal_strlit(".");
}

/// An optional string gives its text, and none where there is none.
pub proof fn optional_string_gives_its_text(s: String)
    ensures
        text_of(None) is None,
        text_of(Some(s)) == Some(s@),
{
}

} // verus!
