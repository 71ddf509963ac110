//! The icon in the notification area: its picture, its texts, its menu.

use crate::text::{utf16, wstr};
use vstd::prelude::*;

verus! {

/// The message by which the notification area reports what happens to the icon.
pub const WM_APP_TRAY: u32 = 0x800A;

/// The number of the icon.
pub const TRAY_ID: u32 = 1;

pub const MENU_NEW_PORTAL: u32 = 2001;

pub const MENU_NEW_BOX: u32 = 2002;

pub const MENU_TOGGLE_VIS: u32 = 2003;

pub const MENU_ZEN: u32 = 2004;

pub const MENU_GHOST: u32 = 2005;

pub const MENU_SWEEP: u32 = 2006;

pub const MENU_AUTOSTART: u32 = 2007;

pub const MENU_CONFIG_DIR: u32 = 2008;

pub const MENU_EXIT: u32 = 2009;

pub const MENU_RELOAD: u32 = 2010;

/// How many code units there is room for in the icon's tip, its zero included.
pub const TIP_SIZE: usize = 128;

/// How many code units there is room for in a notice's title.
pub const INFO_TITLE_SIZE: usize = 64;

/// How many code units there is room for in a notice.
pub const INFO_SIZE: usize = 256;

/// The picture is this many pixels wide and high.
pub const ICON_SIDE: usize = 16;

/// A white that lets some of the background through.
pub const BAR_COLOR: u32 = 0xE8FF_FFFF;

/// The rows of a bar's first and last line, for each of the three bars.
pub open spec fn bars() -> Seq<(int, int)> {
    seq![(2, 5), (7, 10), (12, 15)]
}

/// The pixel belongs to the bar: it lies in its rows, from column 2 to 13, and
/// is not one of its corners.
pub open spec fn in_bar(bar: (int, int), row: int, col: int) -> bool {
    &&& bar.0 <= row <= bar.1
    &&& 2 <= col <= 13
    &&& !((row == bar.0 || row == bar.1) && (col == 2 || col == 13))
}

/// The picture: three bars, one below the other, with the corners off.
pub open spec fn picture(row: int, col: int) -> u32 {
    if exists|k: int| 0 <= k < 3 && in_bar(#[trigger] bars()[k], row, col) {
        BAR_COLOR
    } else {
        0
    }
}

fn is_bar(row: usize, col: usize) -> (r: bool)
    requires
        row < 16,
        col < 16,
    ensures
        r == (picture(row as int, col as int) == BAR_COLOR),
        !r ==> picture(row as int, col as int) == 0,
{
    let first: bool = row == 2 || row == 7 || row == 12;
    let last: bool = row == 5 || row == 10 || row == 15;
    let inside: bool = (2 <= row && row <= 5) || (7 <= row && row <= 10) || (12 <= row && row
        <= 15);
    proof {
        assert(bars()[0] == (2int, 5int));
        assert(bars()[1] == (7int, 10int));
        assert(bars()[2] == (12int, 15int));
    }
    inside && 2 <= col && col <= 13 && !((first || last) && (col == 2 || col == 13))
}

/// The picture, row by row from the top.
pub fn make_tray_icon() -> (px: Vec<u32>)
    ensures
        px@ == Seq::new(256, |i: int| picture(i / 16, i % 16)),
{
    let mut px: Vec<u32> = Vec::new();
    let mut i: usize = 0;
    while i < ICON_SIDE * ICON_SIDE
        invariant
            i <= 256,
            px@ == Seq::new(i as nat, |k: int| picture(k / 16, k % 16)),
        decreases 256 - i,
    {
        if is_bar(i / 16, i % 16) {
            px.push(BAR_COLOR);
        } else {
            px.push(0);
        }
        i += 1;
    }
    px
}

/// A text in a field of `size` code units: as much as leaves room for a zero
/// behind it, then zeros.
pub open spec fn field_of(s: Seq<char>, size: nat) -> Seq<u16> {
    Seq::new(
        size,
        |i: int|
            if i < size - 1 && i < utf16(s).len() {
                utf16(s)[i]
            } else {
                0
            },
    )
}

/// A text in a field of `size` code units, such as the icon's tip.
pub fn set_tip(s: &str, size: usize) -> (r: Vec<u16>)
    ensures
        r@ == field_of(s@, size as nat),
{
    let wide: Vec<u16> = wstr(s);
    let mut out: Vec<u16> = Vec::new();
    let mut i: usize = 0;
    while i < size
        invariant
            i <= size,
            wide@ == utf16(s@).push(0),
            out@.len() == i,
            forall|k: int| 0 <= k < i ==> out@[k] == field_of(s@, size as nat)[k],
        decreases size - i,
    {
        if i < size - 1 && i < wide.len() {
            out.push(wide[i]);
        } else {
            out.push(0);
        }
        i += 1;
    }
    assert(out@ == field_of(s@, size as nat));
    out
}

/// A field always ends in a zero, and a text that leaves room for it is there
/// as a whole.
pub proof fn fields_end_in_zero(s: Seq<char>, size: nat)
    requires
        size > 0,
    ensures
        field_of(s, size).last() == 0,
        utf16(s).len() < size ==> field_of(s, size).take(utf16(s).len() as int) == utf16(s),
{
    if utf16(s).len() < size {
        assert(field_of(s, size).take(utf16(s).len() as int) == utf16(s));
    }
}

/// An entry of the menu.
#[derive(Clone, Copy, PartialEq, Eq, Structural, Debug)]
pub enum MenuItem {
    Separator,
    /// A command, with a mark if it is a switch that is on.
    Command { id: u32, checked: bool, label: Label },
}

/// What a command of the menu says.
#[derive(Clone, Copy, PartialEq, Eq, Structural, Debug)]
pub enum Label {
    NewPortal,
    NewBox,
    ToggleVisibility,
    Zen,
    GhostMode,
    Sweep,
    Autostart,
    Reload,
    ConfigDir,
    Exit,
}

/// The words of a label.
pub open spec fn words(label: Label) -> Seq<char> {
    match label {
        Label::NewPortal => "新建文件夹栅栏…"@,
        Label::NewBox => "新建收纳栅栏"@,
        Label::ToggleVisibility => "隐藏/显示全部栅栏"@,
        Label::Zen => "Zen 模式\tCtrl+Alt+Z"@,
        Label::GhostMode => "Ghost 模式(悬停显现)"@,
        Label::Sweep => "立即整理桌面"@,
        Label::Autostart => "开机自启"@,
        Label::Reload => "重新加载配置"@,
        Label::ConfigDir => "打开配置目录"@,
        Label::Exit => "退出"@,
    }
}

/// The words of a label.
pub fn label_text(label: Label) -> (r: &'static str)
    ensures
        r@ == words(label),
{
    match label {
        Label::NewPortal => "新建文件夹栅栏…",
        Label::NewBox => "新建收纳栅栏",
        Label::ToggleVisibility => "隐藏/显示全部栅栏",
        Label::Zen => "Zen 模式\tCtrl+Alt+Z",
        Label::GhostMode => "Ghost 模式(悬停显现)",
        Label::Sweep => "立即整理桌面",
        Label::Autostart => "开机自启",
        Label::Reload => "重新加载配置",
        Label::ConfigDir => "打开配置目录",
        Label::Exit => "退出",
    }
}

/// A command.
pub open spec fn command(id: u32, checked: bool, label: Label) -> MenuItem {
    MenuItem::Command { id, checked, label }
}

/// The menu, with the switches as they stand.
pub open spec fn menu(zen: bool, ghost_mode: bool, autostart: bool) -> Seq<MenuItem> {
    seq![
        command(MENU_NEW_PORTAL, false, Label::NewPortal),
        command(MENU_NEW_BOX, false, Label::NewBox),
        MenuItem::Separator,
        command(MENU_TOGGLE_VIS, false, Label::ToggleVisibility),
        command(MENU_ZEN, zen, Label::Zen),
        command(MENU_GHOST, ghost_mode, Label::GhostMode),
        command(MENU_SWEEP, false, Label::Sweep),
        MenuItem::Separator,
        command(MENU_AUTOSTART, autostart, Label::Autostart),
        command(MENU_RELOAD, false, Label::Reload),
        command(MENU_CONFIG_DIR, false, Label::ConfigDir),
        MenuItem::Separator,
        command(MENU_EXIT, false, Label::Exit),
    ]
}

/// The menu, with the switches as they stand.
pub fn show_tray_menu(zen: bool, ghost_mode: bool, autostart: bool) -> (r: Vec<MenuItem>)
    ensures
        r@ == menu(zen, ghost_mode, autostart),
{
    let mut v: Vec<MenuItem> = Vec::new();
    v.push(MenuItem::Command { id: MENU_NEW_PORTAL, checked: false, label: Label::NewPortal });
    v.push(MenuItem::Command { id: MENU_NEW_BOX, checked: false, label: Label::NewBox });
    v.push(MenuItem::Separator);
    v.push(
        MenuItem::Command { id: MENU_TOGGLE_VIS, checked: false, label: Label::ToggleVisibility },
    );
    v.push(MenuItem::Command { id: MENU_ZEN, checked: zen, label: Label::Zen });
    v.push(MenuItem::Command { id: MENU_GHOST, checked: ghost_mode, label: Label::GhostMode });
    v.push(MenuItem::Command { id: MENU_SWEEP, checked: false, label: Label::Sweep });
    v.push(MenuItem::Separator);
    v.push(MenuItem::Command { id: MENU_AUTOSTART, checked: autostart, label: Label::Autostart });
    v.push(MenuItem::Command { id: MENU_RELOAD, checked: false, label: Label::Reload });
    v.push(MenuItem::Command { id: MENU_CONFIG_DIR, checked: false, label: Label::ConfigDir });
    v.push(MenuItem::Separator);
    v.push(MenuItem::Command { id: MENU_EXIT, checked: false, label: Label::Exit });
    v
}

/// What a command of the menu does.
#[derive(Clone, Copy, PartialEq, Eq, Structural, Debug)]
pub enum MenuCommand {
    /// A new fence that shows a folder, which is to be picked.
    NewPortal,
    /// A new fence that collects files.
    NewBox,
    /// Hide all fences, or show them.
    ToggleZen,
    /// Let fences show only under the pointer, or always.
    ToggleGhost,
    /// Sweep the desktop.
    Sweep,
    /// Start with the system, or not.
    ToggleAutostart,
    /// Read the configuration again.
    Reload,
    /// Open the directory of the configuration.
    OpenConfigDir,
    /// End the program.
    Exit,
    /// Nothing was chosen.
    Nothing,
}

/// What the command with the number `id` does.
pub open spec fn command_of(id: u32) -> MenuCommand {
    if id == MENU_NEW_PORTAL {
        MenuCommand::NewPortal
    } else if id == MENU_NEW_BOX {
        MenuCommand::NewBox
    } else if id == MENU_TOGGLE_VIS || id == MENU_ZEN {
        MenuCommand::ToggleZen
    } else if id == MENU_GHOST {
        MenuCommand::ToggleGhost
    } else if id == MENU_SWEEP {
        MenuCommand::Sweep
    } else if id == MENU_AUTOSTART {
        MenuCommand::ToggleAutostart
    } else if id == MENU_RELOAD {
        MenuCommand::Reload
    } else if id == MENU_CONFIG_DIR {
        MenuCommand::OpenConfigDir
    } else if id == MENU_EXIT {
        MenuCommand::Exit
    } else {
        MenuCommand::Nothing
    }
}

/// What the command with the number `id` does.
pub fn dispatch_menu(id: u32) -> (r: MenuCommand)
    ensures
        r == command_of(id),
{
    if id == MENU_NEW_PORTAL {
        MenuCommand::NewPortal
    } else if id == MENU_NEW_BOX {
        MenuCommand::NewBox
    } else if id == MENU_TOGGLE_VIS || id == MENU_ZEN {
        MenuCommand::ToggleZen
    } else if id == MENU_GHOST {
        MenuCommand::ToggleGhost
    } else if id == MENU_SWEEP {
        MenuCommand::Sweep
    } else if id == MENU_AUTOSTART {
        MenuCommand::ToggleAutostart
    } else if id == MENU_RELOAD {
        MenuCommand::Reload
    } else if id == MENU_CONFIG_DIR {
        MenuCommand::OpenConfigDir
    } else if id == MENU_EXIT {
        MenuCommand::Exit
    } else {
        MenuCommand::Nothing
    }
}

/// Every command in the menu does something, and no two have the same number.
pub proof fn menu_commands_are_known(
    zen: bool,
    ghost_mode: bool,
    autostart: bool,
    i: int,
    j: int,
)
    requires
        0 <= i < j < menu(zen, ghost_mode, autostart).len(),
    ensures
        menu(zen, ghost_mode, autostart)[i] matches MenuItem::Command { id, .. }
            ==> command_of(id) != MenuCommand::Nothing,
        menu(zen, ghost_mode, autostart)[j] matches MenuItem::Command { id, .. }
            ==> command_of(id) != MenuCommand::Nothing,
        menu(zen, ghost_mode, autostart)[i] matches MenuItem::Command { id: a, .. } ==> menu(
            zen,
            ghost_mode,
            autostart,
        )[j] matches MenuItem::Command { id: b, .. } ==> a != b,
{
}

/// The picture repeats every five rows from the second on: four rows from column
/// 2 to 13, of which the first and the last leave out both ends, and a row that is
/// empty.  It is the same from the left and from the right.
pub proof fn picture_is_three_bars(row: int, col: int)
    requires
        0 <= row < 16,
        0 <= col < 16,
    ensures
        ({
            let line = (row - 2) % 5;
            let inner = 3 <= col <= 12;
            let end = col == 2 || col == 13;
            let shown = row >= 2 && (line == 1 || line == 2) && (inner || end) || row >= 2 && (line
                == 0 || line == 3) && inner;
            picture(row, col) == if shown {
                0xE8FF_FFFFu32
            } else {
                0
            }
        }),
        picture(row, col) == picture(row, 15 - col),
        2 <= row <= 10 ==> picture(row, col) == picture(row + 5, col),
{
    assert(bars()[0] == (2int, 5int));
    assert(bars()[1] == (7int, 10int));
    assert(bars()[2] == (12int, 15int));
}

/// A text that is too long is cut so that a zero fits behind it, and not more;
/// whatever a field does not hold of the text is zero.
pub proof fn long_texts_are_cut(s: Seq<char>, size: nat)
    requires
        size > 0,
    ensures
        field_of(s, size).len() == size,
        utf16(s).len() >= size ==> field_of(s, size) == utf16(s).take(size - 1).push(0),
        forall|i: int| utf16(s).len() <= i < size ==> #[trigger] field_of(s, size)[i] == 0,
{
    if utf16(s).len() >= size {
        assert(field_of(s, size) == utf16(s).take(size - 1).push(0));
    }
}

/// The menu marks the switches that are on, and nothing else; its commands are
/// the ten that are known, in three groups and the last one by itself.
pub proof fn menu_marks_what_is_on(zen: bool, ghost_mode: bool, autostart: bool, i: int)
    requires
        0 <= i < menu(zen, ghost_mode, autostart).len(),
    ensures
        menu(zen, ghost_mode, autostart).len() == 13,
        menu(zen, ghost_mode, autostart)[i] is Separator <==> i == 2 || i == 7 || i == 11,
        menu(zen, ghost_mode, autostart)[i] matches MenuItem::Command { id, checked, label } ==> {
            &&& checked <==> label == Label::Zen && zen || label == Label::GhostMode && ghost_mode
                || label == Label::Autostart && autostart
            &&& match label {
                Label::NewPortal => i == 0 && command_of(id) == MenuCommand::NewPortal,
                Label::NewBox => i == 1 && command_of(id) == MenuCommand::NewBox,
                Label::ToggleVisibility => i == 3 && command_of(id) == MenuCommand::ToggleZen,
                Label::Zen => i == 4 && command_of(id) == MenuCommand::ToggleZen,
                Label::GhostMode => i == 5 && command_of(id) == MenuCommand::ToggleGhost,
                Label::Sweep => i == 6 && command_of(id) == MenuCommand::Sweep,
                Label::Autostart => i == 8 && command_of(id) == MenuCommand::ToggleAutostart,
                Label::Reload => i == 9 && command_of(id) == MenuCommand::Reload,
                Label::ConfigDir => i == 10 && command_of(id) == MenuCommand::OpenConfigDir,
                Label::Exit => i == 12 && command_of(id) == MenuCommand::Exit,
            }
        },
{
}

/// The numbers from 2001 to 2010 are commands, each its own but for the two that
/// hide and show all fences, and no other number is one.
pub proof fn numbers_of_commands(a: u32, b: u32)
    ensures
        command_of(a) is Nothing <==> !(2001 <= a <= 2010),
        command_of(a) == command_of(b) && 2001 <= a < b ==> b > 2010 || a == 2003 && b == 2004,
        command_of(a) is NewPortal <==> a == 2001,
        command_of(a) is NewBox <==> a == 2002,
        command_of(a) is ToggleGhost <==> a == 2005,
        command_of(a) is Sweep <==> a == 2006,
        command_of(a) is ToggleAutostart <==> a == 2007,
        command_of(a) is OpenConfigDir <==> a == 2008,
        command_of(a) is Exit <==> a == 2009,
        command_of(a) is Reload <==> a == 2010,
{
}

/// What the commands say.
pub proof fn labels_say_what_they_do()
    ensures
        words(Label::NewPortal) == "新建文件夹栅栏…"@,
        words(Label::NewBox) == "新建收纳栅栏"@,
        words(Label::ToggleVisibility) == "隐藏/显示全部栅栏"@,
        words(Label::Zen) == "Zen 模式\tCtrl+Alt+Z"@,
        words(Label::GhostMode) == "Ghost 模式(悬停显现)"@,
        words(Label::Sweep) == "立即整理桌面"@,
        words(Label::Autostart) == "开机自启"@,
        words(Label::Reload) == "重新加载配置"@,
        words(Label::ConfigDir) == "打开配置目录"@,
        words(Label::Exit) == "退出"@,
{
}

} // verus!
