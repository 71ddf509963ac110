//! Keeping the desktop's own icons out from under the fences: an icon that a
//! fence covers moves to the first free cell of the desktop's icon grid.

use crate::fence::{high_word, low_word, packed_words_are_read_back};
use crate::geometry::{Point, Rect};
use vstd::prelude::*;

verus! {

/// The style bit by which the desktop arranges its icons by itself.
pub const LVS_AUTOARRANGE: u32 = 256;

/// Where an icon is taken to be whose position could not be read.
pub const NOWHERE: i32 = -10000;

/// The least width and height of a grid cell.
pub const MIN_CELL: i32 = 48;

/// Whether the two areas share a pixel; each is given by its four lines.
pub open spec fn areas_overlap(
    a_left: int,
    a_top: int,
    a_right: int,
    a_bottom: int,
    b: Rect,
) -> bool {
    a_left < b.right && a_right > b.left && a_top < b.bottom && a_bottom > b.top
}

/// Whether the two rectangles overlap.
pub fn overlaps(a: Rect, b: Rect) -> (r: bool)
    ensures
        r == areas_overlap(a.left as int, a.top as int, a.right as int, a.bottom as int, b),
{
    a.left < b.right && a.right > b.left && a.top < b.bottom && a.bottom > b.top
}

/// The desktop as the icons see it: the areas that the fences cover, the cells
/// of the icon grid, and how far the desktop reaches.
pub struct Desktop {
    pub reserved: Vec<Rect>,
    pub cell_w: i32,
    pub cell_h: i32,
    pub right: i32,
    pub bottom: i32,
}

impl Desktop {
    /// Cells are of a size that can be stepped through.
    pub open spec fn wf(self) -> bool {
        self.cell_w >= 1 && self.cell_h >= 1
    }

    /// An icon at `p` would lie under a fence.
    pub open spec fn blocked(self, p: Point) -> bool {
        exists|k: int|
            0 <= k < self.reserved@.len() && areas_overlap(
                p.x as int,
                p.y as int,
                p.x + self.cell_w,
                p.y + self.cell_h,
                #[trigger] self.reserved@[k],
            )
    }

    /// Icons at `p` and `q` would lie less than half a cell apart, both ways.
    pub open spec fn too_close(self, p: Point, q: Point) -> bool {
        &&& -(self.cell_w / 2) < p.x - q.x < self.cell_w / 2
        &&& -(self.cell_h / 2) < p.y - q.y < self.cell_h / 2
    }

    /// An icon at `p` would lie too close to an icon other than number `skip`.
    pub open spec fn collides(self, p: Point, skip: int, all: Seq<Point>) -> bool {
        exists|i: int|
            0 <= i < all.len() && i != skip && self.too_close(p, #[trigger] all[i])
    }

    /// The last column at which a cell may begin.
    pub open spec fn max_x(self) -> int {
        if self.right - self.cell_w > 0 {
            self.right - self.cell_w
        } else {
            0
        }
    }

    /// The last row at which a cell may begin.
    pub open spec fn max_y(self) -> int {
        if self.bottom - self.cell_h > 0 {
            self.bottom - self.cell_h
        } else {
            0
        }
    }

    /// `p` is the corner of a cell of the grid.
    pub open spec fn on_grid(self, p: Point) -> bool {
        &&& 0 <= p.x <= self.max_x()
        &&& p.x as int % self.cell_w as int == 0
        &&& 0 <= p.y <= self.max_y()
        &&& p.y as int % self.cell_h as int == 0
    }

    /// `p` is a cell that icon number `idx` may move to.
    pub open spec fn free(self, p: Point, idx: int, all: Seq<Point>) -> bool {
        self.on_grid(p) && !self.blocked(p) && !self.collides(p, idx, all)
    }

    /// `p` is the first such cell, column by column from the left, each from the top.
    pub open spec fn is_first_free(self, p: Point, idx: int, all: Seq<Point>) -> bool {
        &&& self.free(p, idx, all)
        &&& forall|q: Point| #[trigger] self.free(q, idx, all) ==> !before(q, p)
    }

    /// The first cell that icon number `idx` may move to.
    pub open spec fn first_free(self, idx: int, all: Seq<Point>) -> Option<Point> {
        if exists|p: Point| self.free(p, idx, all) {
            Some(choose|p: Point| self.is_first_free(p, idx, all))
        } else {
            None
        }
    }

    /// Where icon number `idx` moves, if it has to and can.
    pub open spec fn move_of(self, idx: int, all: Seq<Point>) -> Option<Point> {
        if self.blocked(all[idx]) {
            self.first_free(idx, all)
        } else {
            None
        }
    }

    /// Where the icons are once the first `n` have been looked at.
    pub open spec fn settled(self, all: Seq<Point>, n: nat) -> Seq<Point>
        decreases n,
    {
        if n == 0 {
            all
        } else {
            let i = (n - 1) as nat;
            let before = self.settled(all, i);
            match self.move_of(i as int, before) {
                Some(p) => before.update(i as int, p),
                None => before,
            }
        }
    }

    /// The moves that the first `n` icons make, in their order.
    pub open spec fn moves(self, all: Seq<Point>, n: nat) -> Seq<(usize, Point)>
        decreases n,
    {
        if n == 0 {
            Seq::empty()
        } else {
            let i = (n - 1) as nat;
            match self.move_of(i as int, self.settled(all, i)) {
                Some(p) => self.moves(all, i).push((i as usize, p)),
                None => self.moves(all, i),
            }
        }
    }
}

/// `q` comes before `p`, column by column from the left, each from the top.
pub open spec fn before(q: Point, p: Point) -> bool {
    q.x < p.x || (q.x == p.x && q.y < p.y)
}

impl Desktop {
    fn is_blocked(&self, p: Point) -> (r: bool)
        ensures
            r == self.blocked(p),
    {
        let right: i64 = p.x as i64 + self.cell_w as i64;
        let bottom: i64 = p.y as i64 + self.cell_h as i64;
        let mut k: usize = 0;
        while k < self.reserved.len()
            invariant
                k <= self.reserved@.len(),
                right == p.x + self.cell_w,
                bottom == p.y + self.cell_h,
                forall|j: int|
                    0 <= j < k ==> !areas_overlap(
                        p.x as int,
                        p.y as int,
                        p.x + self.cell_w,
                        p.y + self.cell_h,
                        #[trigger] self.reserved@[j],
                    ),
            decreases self.reserved@.len() - k,
        {
            let b: Rect = self.reserved[k];
            if p.x < b.right && right > b.left as i64 && p.y < b.bottom && bottom > b.top as i64 {
                assert(areas_overlap(
                    p.x as int,
                    p.y as int,
                    p.x + self.cell_w,
                    p.y + self.cell_h,
                    self.reserved@[k as int],
                ));
                return true;
            }
            k += 1;
        }
        false
    }

    fn is_taken(&self, p: Point, skip: usize, all: &Vec<Point>) -> (r: bool)
        requires
            self.wf(),
        ensures
            r == self.collides(p, skip as int, all@),
    {
        let half_w: i64 = (self.cell_w / 2) as i64;
        let half_h: i64 = (self.cell_h / 2) as i64;
        let mut i: usize = 0;
        while i < all.len()
            invariant
                i <= all@.len(),
                self.wf(),
                half_w == self.cell_w / 2,
                half_h == self.cell_h / 2,
                forall|j: int|
                    0 <= j < i && j != skip ==> !self.too_close(p, #[trigger] all@[j]),
            decreases all@.len() - i,
        {
            let q: Point = all[i];
            let dx: i64 = p.x as i64 - q.x as i64;
            let dy: i64 = p.y as i64 - q.y as i64;
            if i != skip && -half_w < dx && dx < half_w && -half_h < dy && dy < half_h {
                assert(self.too_close(p, all@[i as int]));
                return true;
            }
            i += 1;
        }
        false
    }

    /// The first free cell for icon number `idx`.
    fn find_cell(&self, idx: usize, all: &Vec<Point>) -> (r: Option<Point>)
        requires
            self.wf(),
        ensures
            r == self.first_free(idx as int, all@),
    {
        let max_x: i64 = if self.right as i64 - self.cell_w as i64 > 0 {
            self.right as i64 - self.cell_w as i64
        } else {
            0
        };
        let max_y: i64 = if self.bottom as i64 - self.cell_h as i64 > 0 {
            self.bottom as i64 - self.cell_h as i64
        } else {
            0
        };
        let mut x: i64 = 0;
        while x <= max_x
            invariant
                self.wf(),
                max_x == self.max_x(),
                max_y == self.max_y(),
                0 <= x <= max_x + self.cell_w,
                x as int % self.cell_w as int == 0,
                forall|q: Point| #[trigger] self.free(q, idx as int, all@) ==> q.x >= x,
            decreases max_x + self.cell_w - x,
        {
            let mut y: i64 = 0;
            while y <= max_y
                invariant
                    self.wf(),
                    max_x == self.max_x(),
                    max_y == self.max_y(),
                    0 <= x <= max_x,
                    x as int % self.cell_w as int == 0,
                    0 <= y <= max_y + self.cell_h,
                    y as int % self.cell_h as int == 0,
                    forall|q: Point| #[trigger]
                        self.free(q, idx as int, all@) ==> q.x >= x && (q.x > x || q.y >= y),
                decreases max_y + self.cell_h - y,
            {
                let p = Point { x: x as i32, y: y as i32 };
                if !self.is_blocked(p) && !self.is_taken(p, idx, all) {
                    proof {
                        assert(self.free(p, idx as int, all@));
                        assert(self.is_first_free(p, idx as int, all@));
                        first_free_cell_is_one(
                            *self,
                            p,
                            self.first_free(idx as int, all@)->0,
                            idx as int,
                            all@,
                        );
                    }
                    return Some(p);
                }
                proof {
                    assert forall|q: Point| #[trigger] self.free(q, idx as int, all@) implies q.x
                        >= x && (q.x > x || q.y >= y + self.cell_h) by {
                        if q.x == x && q.y < y + self.cell_h {
                            lemma_next_multiple(y as int, q.y as int, self.cell_h as int);
                            assert(q == p);
                        }
                    }
                    lemma_step_multiple(y as int, self.cell_h as int);
                }
                y += self.cell_h as i64;
            }
            proof {
                assert forall|q: Point| #[trigger] self.free(q, idx as int, all@) implies q.x >= x
                    + self.cell_w by {
                    if q.x < x + self.cell_w {
                        lemma_next_multiple(x as int, q.x as int, self.cell_w as int);
                    }
                }
                lemma_step_multiple(x as int, self.cell_w as int);
            }
            x += self.cell_w as i64;
        }
        None
    }
}

/// No two cells are both the first that icon number `idx` may move to.
pub proof fn first_free_cell_is_one(desktop: Desktop, p: Point, q: Point, idx: int, all: Seq<Point>)
    requires
        desktop.is_first_free(p, idx, all),
        desktop.is_first_free(q, idx, all),
    ensures
        p == q,
{
    assert(desktop.free(p, idx, all) && desktop.free(q, idx, all));
    assert(!before(p, q) && !before(q, p));
}

proof fn lemma_step_multiple(a: int, c: int)
    requires
        c > 0,
        a % c == 0,
    ensures
        (a + c) % c == 0,
{
    vstd::arithmetic::div_mod::lemma_mod_add_multiples_vanish(a, c);
}

proof fn lemma_next_multiple(a: int, b: int, c: int)
    requires
        c > 0,
        a % c == 0,
        b % c == 0,
        a <= b < a + c,
    ensures
        a == b,
{
    vstd::arithmetic::div_mod::lemma_sub_mod_noop(b, a, c);
    vstd::arithmetic::div_mod::lemma_small_mod(0, c as nat);
    vstd::arithmetic::div_mod::lemma_small_mod((b - a) as nat, c as nat);
}

/// Moves every icon that a fence covers to the first free cell of the grid, in
/// the icons' order, and returns the moves.  An icon for which there is no free
/// cell stays where it is.
pub fn reserve(desktop: &Desktop, positions: &mut Vec<Point>) -> (moves: Vec<(usize, Point)>)
    requires
        desktop.wf(),
    ensures
        final(positions)@ == desktop.settled(old(positions)@, old(positions)@.len()),
        moves@ == desktop.moves(old(positions)@, old(positions)@.len()),
{
    let mut moves: Vec<(usize, Point)> = Vec::new();
    let ghost all = positions@;
    let mut idx: usize = 0;
    while idx < positions.len()
        invariant
            desktop.wf(),
            idx <= positions@.len(),
            positions@.len() == all.len(),
            positions@ == desktop.settled(all, idx as nat),
            moves@ == desktop.moves(all, idx as nat),
        decreases positions@.len() - idx,
    {
        if desktop.is_blocked(positions[idx]) {
            match desktop.find_cell(idx, positions) {
                Some(p) => {
                    moves.push((idx, p));
                    positions.set(idx, p);
                },
                None => {},
            }
        }
        idx += 1;
    }
    moves
}

/// Whether there is anything to keep the icons off.
pub fn is_needed(areas: &Vec<Rect>) -> (r: bool)
    ensures
        r == (areas@.len() > 0),
{
    areas.len() > 0
}

/// How many icons there are to look at, by the number that the desktop reports;
/// none if there are no icons, or nothing to keep them off.
pub fn icons_to_look_at(reserved: &Vec<Rect>, count: i32) -> (r: Option<usize>)
    ensures
        r == if reserved@.len() > 0 && count > 0 {
            Some(count as usize)
        } else {
            None
        },
{
    if is_needed(reserved) && count > 0 {
        Some(count as usize)
    } else {
        None
    }
}

/// The style of the desktop without the bit by which it would put the icons
/// back, if that bit is set.
pub fn without_auto_arrange(style: u32) -> (r: Option<u32>)
    ensures
        r == if style & LVS_AUTOARRANGE == 0 {
            None
        } else {
            Some(style & !LVS_AUTOARRANGE)
        },
{
    if style & LVS_AUTOARRANGE != 0 {
        Some(style & !LVS_AUTOARRANGE)
    } else {
        None
    }
}

/// A fence's area in the desktop's own coordinates: known if both its corners are.
pub fn client_area(top_left: Option<Point>, bottom_right: Option<Point>) -> (r: Option<Rect>)
    ensures
        r == match (top_left, bottom_right) {
            (Some(a), Some(b)) => Some(Rect { left: a.x, top: a.y, right: b.x, bottom: b.y }),
            _ => None,
        },
{
    match (top_left, bottom_right) {
        (Some(a), Some(b)) => Some(Rect { left: a.x, top: a.y, right: b.x, bottom: b.y }),
        _ => None,
    }
}

/// The size of a grid cell, from the word pair that the desktop reports it as:
/// the width in the low word, the height in the high one, neither under 48.
pub fn cell_size(packed: u32) -> (r: (i32, i32))
    ensures
        r.0 == if packed % 0x1_0000 < MIN_CELL {
            MIN_CELL as int
        } else {
            (packed % 0x1_0000) as int
        },
        r.1 == if packed / 0x1_0000 < MIN_CELL {
            MIN_CELL as int
        } else {
            (packed / 0x1_0000) as int
        },
        r.0 >= 48 && r.1 >= 48,
        packed as int % 0x1_0000 >= 48 ==> r.0 == packed as int % 0x1_0000,
        packed as int / 0x1_0000 >= 48 ==> r.1 == packed as int / 0x1_0000,
{
    let w: i32 = (packed % 0x1_0000) as i32;
    let h: i32 = (packed / 0x1_0000) as i32;
    (
        if w < MIN_CELL {
            MIN_CELL
        } else {
            w
        },
        if h < MIN_CELL {
            MIN_CELL
        } else {
            h
        },
    )
}

/// The position of an icon, or a place far off the desktop where it could not be read.
pub fn position_or_nowhere(read: Option<Point>) -> (r: Point)
    ensures
        r == match read {
            Some(p) => p,
            None => (Point { x: NOWHERE, y: NOWHERE }),
        },
        read is None ==> r.x == -10000 && r.y == -10000,
{
    match read {
        Some(p) => p,
        None => Point { x: NOWHERE, y: NOWHERE },
    }
}

/// A position as the word pair that the desktop takes it as: `x` in the low
/// word, `y` in the high one, each without what does not fit.
pub fn packed_position(p: Point) -> (r: u32)
    ensures
        r == (p.y as int % 0x1_0000) * 0x1_0000 + p.x as int % 0x1_0000,
        -0x8000 <= p.x < 0x8000 && -0x8000 <= p.y < 0x8000 ==> low_word(r as usize) == p.x
            && high_word(r as usize) == p.y,
{
    let x: u32 = (p.x as i64 + 0x8000_0000) as u32 % 0x1_0000;
    let y: u32 = (p.y as i64 + 0x8000_0000) as u32 % 0x1_0000;
    proof {
        if -0x8000 <= p.x < 0x8000 && -0x8000 <= p.y < 0x8000 {
            packed_words_are_read_back((y * 0x1_0000 + x) as usize, p.x as int, p.y as int, 0);
        }
    }
    y * 0x1_0000 + x
}

/// If icon number `idx` has a free cell at all, it has a first one.
pub proof fn free_cell_has_a_first(desktop: Desktop, p: Point, idx: int, all: Seq<Point>)
    requires
        desktop.free(p, idx, all),
    ensures
        exists|q: Point| desktop.is_first_free(q, idx, all),
    decreases p.x, p.y,
{
    if exists|q: Point| #[trigger] desktop.free(q, idx, all) && before(q, p) {
        let q = choose|q: Point| #[trigger] desktop.free(q, idx, all) && before(q, p);
        free_cell_has_a_first(desktop, q, idx, all);
    } else {
        assert(desktop.is_first_free(p, idx, all));
    }
}

/// An icon stays where it is until its turn, and where its turn put it after that.
pub proof fn each_icon_moves_in_its_turn(desktop: Desktop, all: Seq<Point>, n: nat, i: int)
    requires
        n <= all.len(),
        0 <= i < all.len(),
    ensures
        desktop.settled(all, n).len() == all.len(),
        i >= n ==> desktop.settled(all, n)[i] == all[i],
        i < n ==> desktop.settled(all, n)[i] == match desktop.move_of(
            i,
            desktop.settled(all, i as nat),
        ) {
            Some(p) => p,
            None => all[i],
        },
    decreases n,
{
    if n > 0 {
        let m = (n - 1) as nat;
        each_icon_moves_in_its_turn(desktop, all, m, i);
        if i < m {
            each_icon_moves_in_its_turn(desktop, all, m, m as int);
        }
    }
}

/// An icon that no fence covers does not move.
pub proof fn uncovered_icon_stays(desktop: Desktop, all: Seq<Point>, i: int)
    requires
        0 <= i < all.len(),
        !desktop.blocked(all[i]),
    ensures
        desktop.settled(all, all.len())[i] == all[i],
{
    each_icon_moves_in_its_turn(desktop, all, all.len(), i);
    each_icon_moves_in_its_turn(desktop, all, i as nat, i);
}

/// An icon that moved lies on the grid, under no fence, and too close to no
/// other icon, wherever those ended up.
pub proof fn moved_icon_has_its_own_cell(desktop: Desktop, all: Seq<Point>, i: int, j: int)
    requires
        desktop.wf(),
        0 <= i < all.len(),
        0 <= j < all.len(),
        desktop.settled(all, all.len())[i] != all[i],
    ensures
        desktop.on_grid(desktop.settled(all, all.len())[i]),
        !desktop.blocked(desktop.settled(all, all.len())[i]),
        j != i ==> !desktop.too_close(
            desktop.settled(all, all.len())[i],
            desktop.settled(all, all.len())[j],
        ),
{
    let end = desktop.settled(all, all.len());
    let turn = desktop.settled(all, i as nat);
    each_icon_moves_in_its_turn(desktop, all, all.len(), i);
    each_icon_moves_in_its_turn(desktop, all, all.len(), j);
    each_icon_moves_in_its_turn(desktop, all, i as nat, i);
    each_icon_moves_in_its_turn(desktop, all, i as nat, j);
    lemma_move_is_free(desktop, i, turn);
    assert(desktop.free(end[i], i, turn));
    if j < i {
        assert(end[j] == turn[j]);
    } else if j > i {
        let later = desktop.settled(all, j as nat);
        each_icon_moves_in_its_turn(desktop, all, j as nat, i);
        each_icon_moves_in_its_turn(desktop, all, j as nat, j);
        if end[j] != all[j] {
            lemma_move_is_free(desktop, j, later);
            assert(desktop.free(end[j], j, later));
            assert(later[i] == end[i]);
            assert(!desktop.too_close(end[j], later[i]));
        } else {
            assert(turn[j] == end[j]);
        }
    }
}

proof fn lemma_move_is_free(desktop: Desktop, idx: int, all: Seq<Point>)
    ensures
        desktop.move_of(idx, all) matches Some(p) ==> desktop.is_first_free(p, idx, all),
{
    if exists|p: Point| desktop.free(p, idx, all) {
        let p = choose|p: Point| desktop.free(p, idx, all);
        free_cell_has_a_first(desktop, p, idx, all);
    }
}

/// An icon that a fence still covers afterwards had no free cell when its turn came.
pub proof fn covered_icon_had_no_cell(desktop: Desktop, all: Seq<Point>, i: int, p: Point)
    requires
        0 <= i < all.len(),
        desktop.blocked(desktop.settled(all, all.len())[i]),
    ensures
        desktop.settled(all, all.len())[i] == all[i],
        !desktop.free(p, i, desktop.settled(all, i as nat)),
{
    each_icon_moves_in_its_turn(desktop, all, all.len(), i);
    each_icon_moves_in_its_turn(desktop, all, i as nat, i);
    lemma_move_is_free(desktop, i, desktop.settled(all, i as nat));
}

/// Where no icon is covered nothing moves.
pub proof fn nothing_covered_nothing_moves(desktop: Desktop, all: Seq<Point>, n: nat)
    requires
        n <= all.len(),
        forall|i: int| 0 <= i < all.len() ==> !desktop.blocked(#[trigger] all[i]),
    ensures
        desktop.moves(all, n) == Seq::<(usize, Point)>::empty(),
        desktop.settled(all, n) == all,
    decreases n,
{
    if n > 0 {
        nothing_covered_nothing_moves(desktop, all, (n - 1) as nat);
        assert(!desktop.blocked(all[n - 1]));
    }
}

/// The pixel (x, y) belongs to an icon at `p` whose cell is `w` wide and `h` high.
pub open spec fn pixel_of_icon(p: Point, w: int, h: int, x: int, y: int) -> bool {
    p.x <= x < p.x + w && p.y <= y < p.y + h
}

/// The pixel (x, y) belongs to the rectangle.
pub open spec fn pixel_of_rect(r: Rect, x: int, y: int) -> bool {
    r.left <= x < r.right && r.top <= y < r.bottom
}

/// Two areas overlap if and only if they share a pixel; neither may be empty.
pub proof fn overlap_is_a_shared_pixel(a: Rect, b: Rect)
    requires
        a.left < a.right && a.top < a.bottom,
        b.left < b.right && b.top < b.bottom,
    ensures
        areas_overlap(a.left as int, a.top as int, a.right as int, a.bottom as int, b) <==> exists|
            x: int,
            y: int,
        | #[trigger]
            pixel_of_rect(a, x, y) && pixel_of_rect(b, x, y),
{
    let x = if a.left > b.left {
        a.left as int
    } else {
        b.left as int
    };
    let y = if a.top > b.top {
        a.top as int
    } else {
        b.top as int
    };
    if areas_overlap(a.left as int, a.top as int, a.right as int, a.bottom as int, b) {
        assert(pixel_of_rect(a, x, y) && pixel_of_rect(b, x, y));
    }
}

/// No pixel of an icon that moved lies in a fence.
pub proof fn moved_icon_shares_no_pixel(
    desktop: Desktop,
    all: Seq<Point>,
    i: int,
    k: int,
    x: int,
    y: int,
)
    requires
        desktop.wf(),
        0 <= i < all.len(),
        0 <= k < desktop.reserved@.len(),
        desktop.settled(all, all.len())[i] != all[i],
    ensures
        !(pixel_of_icon(
            desktop.settled(all, all.len())[i],
            desktop.cell_w as int,
            desktop.cell_h as int,
            x,
            y,
        ) && pixel_of_rect(desktop.reserved@[k], x, y)),
{
    moved_icon_has_its_own_cell(desktop, all, i, i);
    let p = desktop.settled(all, all.len())[i];
    if pixel_of_icon(p, desktop.cell_w as int, desktop.cell_h as int, x, y) && pixel_of_rect(
        desktop.reserved@[k],
        x,
        y,
    ) {
        assert(areas_overlap(
            p.x as int,
            p.y as int,
            p.x + desktop.cell_w,
            p.y + desktop.cell_h,
            desktop.reserved@[k],
        ));
    }
}

/// An icon of which a pixel lies in a fence moves if, when its turn comes, there
/// is a cell of the grid of which no pixel lies in a fence or belongs to another
/// icon.  The fences are rectangles with at least one pixel.
pub proof fn covered_icon_moves(
    desktop: Desktop,
    all: Seq<Point>,
    i: int,
    k: int,
    x: int,
    y: int,
    cell: Point,
)
    requires
        desktop.wf(),
        0 <= i < all.len(),
        0 <= k < desktop.reserved@.len(),
        pixel_of_icon(all[i], desktop.cell_w as int, desktop.cell_h as int, x, y),
        pixel_of_rect(desktop.reserved@[k], x, y),
        cell.x >= 0 && cell.x as int % desktop.cell_w as int == 0,
        cell.y >= 0 && cell.y as int % desktop.cell_h as int == 0,
        cell.x == 0 || cell.x + desktop.cell_w <= desktop.right,
        cell.y == 0 || cell.y + desktop.cell_h <= desktop.bottom,
        forall|j: int|
            0 <= j < desktop.reserved@.len() ==> (#[trigger] desktop.reserved@[j]).left
                < desktop.reserved@[j].right && desktop.reserved@[j].top
                < desktop.reserved@[j].bottom,
        forall|j: int, u: int, v: int|
            0 <= j < desktop.reserved@.len() && pixel_of_icon(
                cell,
                desktop.cell_w as int,
                desktop.cell_h as int,
                u,
                v,
            ) ==> !#[trigger] pixel_of_rect(desktop.reserved@[j], u, v),
        forall|j: int, u: int, v: int|
            0 <= j < all.len() && j != i && pixel_of_icon(
                cell,
                desktop.cell_w as int,
                desktop.cell_h as int,
                u,
                v,
            ) ==> !#[trigger] pixel_of_icon(
                desktop.settled(all, i as nat)[j],
                desktop.cell_w as int,
                desktop.cell_h as int,
                u,
                v,
            ),
    ensures
        desktop.settled(all, all.len())[i] != all[i],
{
    let turn = desktop.settled(all, i as nat);
    let w = desktop.cell_w as int;
    let h = desktop.cell_h as int;
    each_icon_moves_in_its_turn(desktop, all, all.len(), i);
    each_icon_moves_in_its_turn(desktop, all, i as nat, i);
    assert(desktop.blocked(all[i])) by {
        assert(areas_overlap(
            all[i].x as int,
            all[i].y as int,
            all[i].x + desktop.cell_w,
            all[i].y + desktop.cell_h,
            desktop.reserved@[k],
        ));
    }
    assert(!desktop.blocked(cell)) by {
        if desktop.blocked(cell) {
            let j = choose|j: int|
                0 <= j < desktop.reserved@.len() && areas_overlap(
                    cell.x as int,
                    cell.y as int,
                    cell.x + desktop.cell_w,
                    cell.y + desktop.cell_h,
                    #[trigger] desktop.reserved@[j],
                );
            let r = desktop.reserved@[j];
            let u = if cell.x > r.left {
                cell.x as int
            } else {
                r.left as int
            };
            let v = if cell.y > r.top {
                cell.y as int
            } else {
                r.top as int
            };
            assert(pixel_of_icon(cell, w, h, u, v));
            assert(pixel_of_rect(desktop.reserved@[j], u, v));
        }
    }
    assert(!desktop.collides(cell, i, turn)) by {
        if desktop.collides(cell, i, turn) {
            let j = choose|j: int|
                0 <= j < turn.len() && j != i && desktop.too_close(cell, #[trigger] turn[j]);
            let q = turn[j];
            let u = if cell.x > q.x {
                cell.x as int
            } else {
                q.x as int
            };
            let v = if cell.y > q.y {
                cell.y as int
            } else {
                q.y as int
            };
            assert(pixel_of_icon(cell, w, h, u, v));
            assert(pixel_of_icon(desktop.settled(all, i as nat)[j], w, h, u, v));
        }
    }
    assert(desktop.free(cell, i, turn));
    lemma_move_is_free(desktop, i, turn);
    let p = desktop.settled(all, all.len())[i];
    assert(desktop.free(p, i, turn));
}

/// An icon none of whose pixels can lie in a fence, because each fence lies
/// wholly to one side of it, stays where it is.
pub proof fn icon_beside_the_fences_stays(desktop: Desktop, all: Seq<Point>, i: int)
    requires
        0 <= i < all.len(),
        forall|k: int|
            0 <= k < desktop.reserved@.len() ==> {
                let r = #[trigger] desktop.reserved@[k];
                ||| r.right <= all[i].x
                ||| r.left >= all[i].x + desktop.cell_w
                ||| r.bottom <= all[i].y
                ||| r.top >= all[i].y + desktop.cell_h
            },
    ensures
        desktop.settled(all, all.len())[i] == all[i],
{
    uncovered_icon_stays(desktop, all, i);
}

/// An icon that moved begins where a cell of the grid does, within the desktop
/// or at its edge, and lies at least half a cell away from every other icon, to
/// the side or up or down.
pub proof fn moved_icon_keeps_its_distance(desktop: Desktop, all: Seq<Point>, i: int, j: int)
    requires
        desktop.wf(),
        0 <= i < all.len(),
        0 <= j < all.len(),
        j != i,
        desktop.settled(all, all.len())[i] != all[i],
    ensures
        ({
            let p = desktop.settled(all, all.len())[i];
            let q = desktop.settled(all, all.len())[j];
            &&& p.x >= 0 && p.x as int % desktop.cell_w as int == 0
            &&& p.y >= 0 && p.y as int % desktop.cell_h as int == 0
            &&& p.x == 0 || p.x + desktop.cell_w <= desktop.right
            &&& p.y == 0 || p.y + desktop.cell_h <= desktop.bottom
            &&& {
                ||| p.x - q.x >= desktop.cell_w / 2
                ||| q.x - p.x >= desktop.cell_w / 2
                ||| p.y - q.y >= desktop.cell_h / 2
                ||| q.y - p.y >= desktop.cell_h / 2
            }
        }),
{
    moved_icon_has_its_own_cell(desktop, all, i, j);
}

/// Every cell of the grid that comes before the one an icon moved to, in a column
/// further left or further up in the same column, was no place for it when its
/// turn came: a fence reaches into it, or another icon is less than half a cell
/// away both ways.
pub proof fn icon_moves_to_the_first_cell(
    desktop: Desktop,
    all: Seq<Point>,
    i: int,
    cell: Point,
)
    requires
        desktop.wf(),
        0 <= i < all.len(),
        desktop.settled(all, all.len())[i] != all[i],
        cell.x >= 0 && cell.x as int % desktop.cell_w as int == 0,
        cell.y >= 0 && cell.y as int % desktop.cell_h as int == 0,
        cell.x == 0 || cell.x + desktop.cell_w <= desktop.right,
        cell.y == 0 || cell.y + desktop.cell_h <= desktop.bottom,
        cell.x < desktop.settled(all, all.len())[i].x || (cell.x == desktop.settled(
            all,
            all.len(),
        )[i].x && cell.y < desktop.settled(all, all.len())[i].y),
    ensures
        ({
            ||| exists|k: int|
                0 <= k < desktop.reserved@.len() && cell.x < (#[trigger] desktop.reserved@[k]).right
                    && cell.x + desktop.cell_w > desktop.reserved@[k].left && cell.y
                    < desktop.reserved@[k].bottom && cell.y + desktop.cell_h
                    > desktop.reserved@[k].top
            ||| exists|j: int|
                0 <= j < all.len() && j != i && {
                    let q = #[trigger] desktop.settled(all, i as nat)[j];
                    &&& cell.x - q.x < desktop.cell_w / 2 && q.x - cell.x < desktop.cell_w / 2
                    &&& cell.y - q.y < desktop.cell_h / 2 && q.y - cell.y < desktop.cell_h / 2
                }
        }),
{
    let turn = desktop.settled(all, i as nat);
    each_icon_moves_in_its_turn(desktop, all, all.len(), i);
    each_icon_moves_in_its_turn(desktop, all, i as nat, i);
    lemma_move_is_free(desktop, i, turn);
    assert(!desktop.free(cell, i, turn));
    if desktop.blocked(cell) {
        let k = choose|k: int|
            0 <= k < desktop.reserved@.len() && areas_overlap(
                cell.x as int,
                cell.y as int,
                cell.x + desktop.cell_w,
                cell.y + desktop.cell_h,
                #[trigger] desktop.reserved@[k],
            );
        assert(cell.x < desktop.reserved@[k].right);
    } else {
        let j = choose|j: int|
            0 <= j < turn.len() && j != i && desktop.too_close(cell, #[trigger] turn[j]);
        assert(desktop.settled(all, i as nat)[j] == turn[j]);
    }
}

/// The moves that are returned are those that were made: each icon that is
/// elsewhere in the end is named once, in the icons' order, with where it is.
pub proof fn moves_name_what_moved(desktop: Desktop, all: Seq<Point>, n: nat)
    requires
        desktop.wf(),
        n <= all.len() <= usize::MAX,
    ensures
        forall|m: int|
            0 <= m < desktop.moves(all, n).len() ==> {
                let (i, p) = #[trigger] desktop.moves(all, n)[m];
                i < n && desktop.settled(all, n)[i as int] == p && p != all[i as int]
            },
        forall|m: int, l: int|
            0 <= m < l < desktop.moves(all, n).len() ==> (#[trigger] desktop.moves(all, n)[m]).0 < (
            #[trigger] desktop.moves(all, n)[l]).0,
        forall|i: int|
            0 <= i < n && #[trigger] desktop.settled(all, n)[i] != all[i] ==> exists|m: int|
                0 <= m < desktop.moves(all, n).len() && (#[trigger] desktop.moves(all, n)[m]).0
                    == i,
    decreases n,
{
    if n > 0 {
        let l = (n - 1) as nat;
        moves_name_what_moved(desktop, all, l);
        let before = desktop.settled(all, l);
        let after = desktop.settled(all, n);
        let old_moves = desktop.moves(all, l);
        let new_moves = desktop.moves(all, n);
        each_icon_moves_in_its_turn(desktop, all, l, l as int);
        lemma_move_is_free(desktop, l as int, before);
        match desktop.move_of(l as int, before) {
            Some(p) => {
                assert(desktop.free(p, l as int, before));
                assert(new_moves == old_moves.push((l as usize, p)));
                assert forall|m: int| 0 <= m < new_moves.len() implies {
                    let (i, p) = #[trigger] new_moves[m];
                    i < n && after[i as int] == p && p != all[i as int]
                } by {
                    if m < old_moves.len() {
                        assert(new_moves[m] == old_moves[m]);
                    }
                }
                assert forall|i: int| 0 <= i < n && #[trigger] after[i] != all[i] implies exists|
                    m: int,
                | 0 <= m < new_moves.len() && (#[trigger] new_moves[m]).0 == i by {
                    if i < l {
                        assert(before[i] == after[i]);
                        let m = choose|m: int|
                            0 <= m < old_moves.len() && (#[trigger] old_moves[m]).0 == i;
                        assert(new_moves[m] == old_moves[m]);
                    } else {
                        assert(new_moves[old_moves.len() as int].0 == i);
                    }
                }
                assert forall|m: int, k: int| 0 <= m < k < new_moves.len() implies (
                #[trigger] new_moves[m]).0 < (#[trigger] new_moves[k]).0 by {
                    assert(new_moves[m] == old_moves[m]);
                    if k < old_moves.len() {
                        assert(new_moves[k] == old_moves[k]);
                    }
                }
            },
            None => {},
        }
    }
}

/// Cells of at least one pixel both ways can be stepped through.
pub proof fn cells_with_a_pixel_will_do(desktop: Desktop)
    ensures
        desktop.wf() <==> desktop.cell_w > 0 && desktop.cell_h > 0,
{
}

/// An icon that a fence reaches into moves if, when its turn comes, there is a
/// cell of the grid beside all fences that lies at least half a cell away from
/// every other icon, to the side or up or down.
pub proof fn covered_icon_moves_to_where_there_is_room(
    desktop: Desktop,
    all: Seq<Point>,
    i: int,
    k: int,
    cell: Point,
)
    requires
        desktop.wf(),
        0 <= i < all.len(),
        0 <= k < desktop.reserved@.len(),
        all[i].x < desktop.reserved@[k].right && all[i].x + desktop.cell_w
            > desktop.reserved@[k].left,
        all[i].y < desktop.reserved@[k].bottom && all[i].y + desktop.cell_h
            > desktop.reserved@[k].top,
        cell.x >= 0 && cell.x as int % desktop.cell_w as int == 0,
        cell.y >= 0 && cell.y as int % desktop.cell_h as int == 0,
        cell.x == 0 || cell.x + desktop.cell_w <= desktop.right,
        cell.y == 0 || cell.y + desktop.cell_h <= desktop.bottom,
        forall|j: int|
            0 <= j < desktop.reserved@.len() ==> {
                let r = #[trigger] desktop.reserved@[j];
                ||| r.right <= cell.x
                ||| r.left >= cell.x + desktop.cell_w
                ||| r.bottom <= cell.y
                ||| r.top >= cell.y + desktop.cell_h
            },
        forall|j: int|
            0 <= j < all.len() && j != i ==> {
                let q = #[trigger] desktop.settled(all, i as nat)[j];
                ||| cell.x - q.x >= desktop.cell_w / 2
                ||| q.x - cell.x >= desktop.cell_w / 2
                ||| cell.y - q.y >= desktop.cell_h / 2
                ||| q.y - cell.y >= desktop.cell_h / 2
            },
    ensures
        desktop.settled(all, all.len())[i] != all[i],
{
    let turn = desktop.settled(all, i as nat);
    each_icon_moves_in_its_turn(desktop, all, all.len(), i);
    each_icon_moves_in_its_turn(desktop, all, i as nat, i);
    assert(areas_overlap(
        all[i].x as int,
        all[i].y as int,
        all[i].x + desktop.cell_w,
        all[i].y + desktop.cell_h,
        desktop.reserved@[k],
    ));
    assert(desktop.blocked(all[i]));
    assert(desktop.free(cell, i, turn));
    lemma_move_is_free(desktop, i, turn);
    let p = desktop.settled(all, all.len())[i];
    assert(desktop.free(p, i, turn));
}

} // verus!
