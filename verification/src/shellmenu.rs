//! The system's own menu for an entry.  It takes long to build, so it is built
//! and shown on a thread of its own, which is sent requests.

use crate::path::{Location, LocationView};
use vstd::prelude::*;

verus! {

pub const WM_DRAWITEM: u32 = 0x002B;

pub const WM_MEASUREITEM: u32 = 0x002C;

pub const WM_INITMENUPOPUP: u32 = 0x0117;

/// The message that tells the thread of requests.
pub const WM_APP_SHOWMENU: u32 = 0x8051;

/// The number of the menu's first command.
pub const ID_CMD_FIRST: u32 = 1;

/// The highest number that a command of the menu can have.
pub const ID_CMD_LAST: u32 = 0x7FFF;

/// A menu is wanted for an entry, at this point of the screen.
pub struct Req {
    pub path: Location,
    pub x: i32,
    pub y: i32,
}

/// What a request is.
pub open spec fn request_view(r: Req) -> (LocationView, i32, i32) {
    (r.path@, r.x, r.y)
}

/// What requests are.
pub open spec fn request_views(q: Seq<Req>) -> Seq<(LocationView, i32, i32)> {
    q.map_values(|r: Req| request_view(r))
}

/// Asks for a menu.
pub fn show_for_path_async(queue: &mut Vec<Req>, path: Location, x: i32, y: i32)
    ensures
        request_views(final(queue)@) == request_views(old(queue)@).push((path@, x, y)),
{
    queue.push(Req { path, x, y });
    assert(request_views(queue@) == request_views(old(queue)@).push((path@, x, y)));
}

/// Takes the latest request; those before it are dropped, so that a series of
/// clicks brings up one menu.
pub fn take_latest(queue: &mut Vec<Req>) -> (r: Option<Req>)
    ensures
        final(queue)@.len() == 0,
        match r {
            Some(req) => old(queue)@.len() > 0 && req == old(queue)@.last(),
            None => old(queue)@.len() == 0,
        },
{
    let last: Option<Req> = queue.pop();
    queue.clear();
    last
}

/// What a message to the menu's owner asks for.
#[derive(Clone, Copy, PartialEq, Eq, Structural, Debug)]
pub enum OwnerRequest {
    /// Show the menu that was asked for last.
    ShowLatest,
    /// Hand the message on to the menu, which fills or draws a part of itself.
    Forward,
    /// What the system does with it by itself.
    Default,
}

/// What a message to the menu's owner asks for; `menu_up` says whether there is
/// a menu to hand it on to.
pub fn owner_wndproc(msg: u32, menu_up: bool) -> (r: OwnerRequest)
    ensures
        r == if msg == WM_APP_SHOWMENU {
            OwnerRequest::ShowLatest
        } else if menu_up && (msg == WM_INITMENUPOPUP || msg == WM_DRAWITEM || msg
            == WM_MEASUREITEM) {
            OwnerRequest::Forward
        } else {
            OwnerRequest::Default
        },
{
    if msg == WM_APP_SHOWMENU {
        OwnerRequest::ShowLatest
    } else if forward_menu_msg(msg) && menu_up {
        OwnerRequest::Forward
    } else {
        OwnerRequest::Default
    }
}

/// Whether a message is for the menu itself.
pub fn forward_menu_msg(msg: u32) -> (r: bool)
    ensures
        r == (msg == WM_INITMENUPOPUP || msg == WM_DRAWITEM || msg == WM_MEASUREITEM),
{
    msg == WM_INITMENUPOPUP || msg == WM_DRAWITEM || msg == WM_MEASUREITEM
}

/// What showing a menu takes, step by step.
#[derive(Clone, Copy, PartialEq, Eq, Structural, Debug)]
pub enum ShowStep {
    /// Find the entry.
    Find,
    /// Make an empty menu.
    MakeMenu,
    /// Fill it.
    Fill,
    /// Show it until something is chosen.
    Track,
    /// Carry out the command with this offset.
    Invoke(u32),
    /// Destroy the menu.
    DestroyMenu,
    /// Release the entry.
    Release,
    /// It is over.
    Over,
}

/// What follows a step that came out with `code`: positive if it went well, and
/// for the menu itself the number of the command that was chosen.
pub open spec fn show_after(step: ShowStep, code: int) -> ShowStep {
    match step {
        ShowStep::Find => if code > 0 {
            ShowStep::MakeMenu
        } else {
            ShowStep::Over
        },
        ShowStep::MakeMenu => if code > 0 {
            ShowStep::Fill
        } else {
            ShowStep::Release
        },
        ShowStep::Fill => if code > 0 {
            ShowStep::Track
        } else {
            ShowStep::DestroyMenu
        },
        ShowStep::Track => if code > 0 {
            ShowStep::Invoke((code - ID_CMD_FIRST) as u32)
        } else {
            ShowStep::DestroyMenu
        },
        ShowStep::Invoke(_) => ShowStep::DestroyMenu,
        ShowStep::DestroyMenu => ShowStep::Release,
        ShowStep::Release => ShowStep::Over,
        ShowStep::Over => ShowStep::Over,
    }
}

/// What follows a step of showing a menu.
pub fn show_for_path(step: ShowStep, code: i32) -> (r: ShowStep)
    ensures
        r == show_after(step, code as int),
{
    match step {
        ShowStep::Find => if code > 0 {
            ShowStep::MakeMenu
        } else {
            ShowStep::Over
        },
        ShowStep::MakeMenu => if code > 0 {
            ShowStep::Fill
        } else {
            ShowStep::Release
        },
        ShowStep::Fill => if code > 0 {
            ShowStep::Track
        } else {
            ShowStep::DestroyMenu
        },
        ShowStep::Track => if code > 0 {
            ShowStep::Invoke(code as u32 - ID_CMD_FIRST)
        } else {
            ShowStep::DestroyMenu
        },
        ShowStep::Invoke(_) => ShowStep::DestroyMenu,
        ShowStep::DestroyMenu => ShowStep::Release,
        ShowStep::Release => ShowStep::Over,
        ShowStep::Over => ShowStep::Over,
    }
}

/// The steps that follow one another from `step` on, when they come out with `codes`.
pub open spec fn show_run(step: ShowStep, codes: Seq<int>) -> ShowStep
    decreases codes.len(),
{
    if codes.len() == 0 {
        step
    } else {
        show_run(show_after(step, codes.first()), codes.drop_first())
    }
}

/// Whatever comes of the steps, an entry that was found is released at the end,
/// and a menu that was made is destroyed before that.
pub proof fn nothing_is_left_behind(codes: Seq<int>)
    requires
        codes.len() == 7,
    ensures
        show_run(ShowStep::Find, codes) == ShowStep::Over,
        codes[0] > 0 ==> exists|k: int|
            0 <= k < 7 && show_run(ShowStep::Find, #[trigger] codes.take(k)) == ShowStep::Release,
        codes[0] > 0 && codes[1] > 0 ==> exists|k: int|
            0 <= k < 6 && show_run(ShowStep::Find, #[trigger] codes.take(k))
                == ShowStep::DestroyMenu && show_run(ShowStep::Find, codes.take(k + 1))
                == ShowStep::Release,
{
    reveal_with_fuel(show_run, 8);
    lemma_run_step(ShowStep::Find, codes, 0);
    lemma_run_step(ShowStep::Find, codes, 1);
    lemma_run_step(ShowStep::Find, codes, 2);
    lemma_run_step(ShowStep::Find, codes, 3);
    lemma_run_step(ShowStep::Find, codes, 4);
    lemma_run_step(ShowStep::Find, codes, 5);
    lemma_run_step(ShowStep::Find, codes, 6);
    assert(codes.take(0) == Seq::<int>::empty());
    assert(codes.take(7) == codes);
    if codes[0] > 0 && codes[1] > 0 {
        if codes[2] <= 0 {
            assert(show_run(ShowStep::Find, codes.take(3)) == ShowStep::DestroyMenu);
            assert(show_run(ShowStep::Find, codes.take(4)) == ShowStep::Release);
        } else if codes[3] <= 0 {
            assert(show_run(ShowStep::Find, codes.take(4)) == ShowStep::DestroyMenu);
            assert(show_run(ShowStep::Find, codes.take(5)) == ShowStep::Release);
        } else {
            assert(show_run(ShowStep::Find, codes.take(5)) == ShowStep::DestroyMenu);
            assert(show_run(ShowStep::Find, codes.take(6)) == ShowStep::Release);
        }
    } else if codes[0] > 0 {
        assert(show_run(ShowStep::Find, codes.take(2)) == ShowStep::Release);
    }
}

proof fn lemma_run_step(step: ShowStep, codes: Seq<int>, k: int)
    requires
        0 <= k < codes.len(),
    ensures
        show_run(step, codes.take(k + 1)) == show_after(show_run(step, codes.take(k)), codes[k]),
    decreases codes.len(),
{
    let longer = codes.take(k + 1);
    if k == 0 {
        assert(codes.take(0) == Seq::<int>::empty());
        assert(longer.drop_first() == Seq::<int>::empty());
        reveal_with_fuel(show_run, 2);
    } else {
        let rest = codes.drop_first();
        assert(longer.drop_first() == rest.take(k));
        assert(codes.take(k).drop_first() == rest.take(k - 1));
        lemma_run_step(show_after(step, codes.first()), rest, k - 1);
    }
}

/// The command that was chosen is the one that is carried out, by its place in
/// the menu, counted from 1; where nothing was chosen nothing is carried out.
pub proof fn chosen_command_is_carried_out(code: int)
    requires
        code <= i32::MAX,
    ensures
        code > 0 ==> (show_after(ShowStep::Track, code) matches ShowStep::Invoke(k) && k + 1
            == code),
        code <= 0 ==> show_after(ShowStep::Track, code) == ShowStep::DestroyMenu,
{
}

/// A command is carried out only after the menu was shown and one was chosen; the
/// menu is shown only if it was filled, and filled only if it was made, for an
/// entry that was found.
pub proof fn steps_need_the_ones_before(step: ShowStep, code: int)
    ensures
        show_after(step, code) is Invoke ==> step is Track && code > 0,
        show_after(step, code) is Track <==> step is Fill && code > 0,
        show_after(step, code) is Fill <==> step is MakeMenu && code > 0,
        show_after(step, code) is MakeMenu <==> step is Find && code > 0,
        show_after(step, code) !is Find,
{
}

/// A request is told by its entry and its point, and requests in their order.
pub proof fn requests_tell_entry_and_point(q: Seq<Req>)
    ensures
        request_views(q).len() == q.len(),
        forall|i: int|
            0 <= i < q.len() ==> request_views(q)[i].0 == (#[trigger] q[i]).path@ && request_views(
                q,
            )[i].1 == q[i].x && request_views(q)[i].2 == q[i].y,
{
}

/// The messages and numbers are those that the system uses for menus.
pub proof fn menu_codes_are_the_systems()
    ensures
        WM_DRAWITEM == 0x002B && WM_MEASUREITEM == 0x002C && WM_INITMENUPOPUP == 0x0117,
        WM_APP_SHOWMENU == 0x8051,
        ID_CMD_FIRST == 1 && ID_CMD_LAST == 0x7FFF,
{
}

} // verus!
