//! The surface that carries the content of a window with the acrylic material.
//!
//! The surface is one part of a larger one, and another part each time: where it
//! lies is said when drawing begins, and the picture has to go there.

use crate::geometry::Point;
use vstd::prelude::*;

verus! {

/// The size of a window's surface.
#[derive(Clone, Copy, PartialEq, Eq, Structural, Debug)]
pub struct Backdrop {
    pub w: i32,
    pub h: i32,
}

/// A step in putting a picture on the surface.
#[derive(Clone, Copy, PartialEq, Eq, Structural, Debug)]
pub enum SubmitStep {
    /// Begin to draw a picture of this size; the surface says where in it that
    /// is to be.
    BeginDraw { w: i32, h: i32 },
    /// Get at the surface's pixels.
    Open { at: Point, w: i32, h: i32 },
    /// Get a device context on them.
    GetDc { at: Point, w: i32, h: i32 },
    /// Copy the whole picture, of this size, to this place.
    Copy { at: Point, w: i32, h: i32 },
    /// Release the device context.
    ReleaseDc(bool),
    /// End drawing.
    EndDraw(bool),
    /// Make it show.
    Commit(bool),
    /// It is over; it went well, or not.
    Done(bool),
}

/// What follows a step, by whether it went well; `offset` is the place that the
/// surface named, where the step was to begin to draw.
pub open spec fn submit_after(step: SubmitStep, ok: bool, offset: Point) -> SubmitStep {
    match step {
        SubmitStep::BeginDraw { w, h } => if ok {
            SubmitStep::Open { at: offset, w, h }
        } else {
            SubmitStep::Done(false)
        },
        SubmitStep::Open { at, w, h } => if ok {
            SubmitStep::GetDc { at, w, h }
        } else {
            SubmitStep::Done(false)
        },
        SubmitStep::GetDc { at, w, h } => if ok {
            SubmitStep::Copy { at, w, h }
        } else {
            SubmitStep::EndDraw(false)
        },
        SubmitStep::Copy { .. } => SubmitStep::ReleaseDc(ok),
        SubmitStep::ReleaseDc(good) => SubmitStep::EndDraw(good),
        SubmitStep::EndDraw(good) => SubmitStep::Commit(good && ok),
        SubmitStep::Commit(good) => SubmitStep::Done(good && ok),
        SubmitStep::Done(good) => SubmitStep::Done(good),
    }
}

impl Backdrop {
    /// A surface of this size, if it could be made and attached to its window.
    pub fn attach(w: i32, h: i32, attached: bool) -> (r: Option<Backdrop>)
        ensures
            r == if attached {
                Some(Backdrop { w, h })
            } else {
                None
            },
    {
        if attached {
            Some(Backdrop { w, h })
        } else {
            None
        }
    }

    /// The size of the surface.
    pub fn size(&self) -> (r: (i32, i32))
        ensures
            r == (self.w, self.h),
    {
        (self.w, self.h)
    }

    /// The window has another size: the surface has it too if a new one was made,
    /// put in place and shown.
    pub fn resize(&mut self, w: i32, h: i32, made: bool, placed: bool, shown: bool) -> (r: bool)
        ensures
            r == (made && placed && shown),
            *final(self) == if r {
                (Backdrop { w, h })
            } else {
                *old(self)
            },
    {
        if made && placed && shown {
            self.w = w;
            self.h = h;
            true
        } else {
            false
        }
    }

    /// Begins to put a picture on the surface: it has to have the surface's size.
    pub fn submit(&self, w: i32, h: i32) -> (r: SubmitStep)
        ensures
            r == if w == self.w && h == self.h && w > 0 && h > 0 {
                SubmitStep::BeginDraw { w, h }
            } else {
                SubmitStep::Done(false)
            },
    {
        if w != self.w || h != self.h || w <= 0 || h <= 0 {
            SubmitStep::Done(false)
        } else {
            SubmitStep::BeginDraw { w, h }
        }
    }
}

/// Goes on with putting a picture on the surface.
pub fn submit_next(step: SubmitStep, ok: bool, offset: Point) -> (r: SubmitStep)
    ensures
        r == submit_after(step, ok, offset),
{
    match step {
        SubmitStep::BeginDraw { w, h } => if ok {
            SubmitStep::Open { at: offset, w, h }
        } else {
            SubmitStep::Done(false)
        },
        SubmitStep::Open { at, w, h } => if ok {
            SubmitStep::GetDc { at, w, h }
        } else {
            SubmitStep::Done(false)
        },
        SubmitStep::GetDc { at, w, h } => if ok {
            SubmitStep::Copy { at, w, h }
        } else {
            SubmitStep::EndDraw(false)
        },
        SubmitStep::Copy { .. } => SubmitStep::ReleaseDc(ok),
        SubmitStep::ReleaseDc(good) => SubmitStep::EndDraw(good),
        SubmitStep::EndDraw(good) => SubmitStep::Commit(good && ok),
        SubmitStep::Commit(good) => SubmitStep::Done(good && ok),
        SubmitStep::Done(good) => SubmitStep::Done(good),
    }
}

/// The step that is reached from `step` when the steps come out as `outcomes`
/// say: whether each went well, and the place that came with it.
pub open spec fn submitted(step: SubmitStep, outcomes: Seq<(bool, Point)>) -> SubmitStep
    decreases outcomes.len(),
{
    if outcomes.len() == 0 {
        step
    } else {
        let before = submitted(step, outcomes.drop_last());
        submit_after(before, outcomes.last().0, outcomes.last().1)
    }
}

/// The picture is copied as a whole, and to the place that the surface named
/// when drawing began; a place that comes with another step does not count.
pub proof fn picture_goes_where_the_surface_says(w: i32, h: i32, outcomes: Seq<(bool, Point)>)
    ensures
        submitted(SubmitStep::BeginDraw { w, h }, outcomes) matches SubmitStep::Copy {
            at,
            w: cw,
            h: ch,
        } ==> outcomes.len() == 3 && at == outcomes[0].1 && cw == w && ch == h,
        outcomes.len() == 3 && outcomes[0].0 && outcomes[1].0 && outcomes[2].0 ==> submitted(
            SubmitStep::BeginDraw { w, h },
            outcomes,
        ) == (SubmitStep::Copy { at: outcomes[0].1, w, h }),
{
    lemma_submitted(w, h, outcomes);
    if outcomes.len() == 3 {
        lemma_submitted(w, h, outcomes.drop_last());
        lemma_submitted(w, h, outcomes.drop_last().drop_last());
        reveal_with_fuel(submitted, 4);
    }
}

proof fn lemma_submitted(w: i32, h: i32, outcomes: Seq<(bool, Point)>)
    ensures
        match submitted(SubmitStep::BeginDraw { w, h }, outcomes) {
            SubmitStep::BeginDraw { w: cw, h: ch } => outcomes.len() == 0 && cw == w && ch == h,
            SubmitStep::Open { at, w: cw, h: ch } => outcomes.len() == 1 && at == outcomes[0].1
                && cw == w && ch == h,
            SubmitStep::GetDc { at, w: cw, h: ch } => outcomes.len() == 2 && at == outcomes[0].1
                && cw == w && ch == h,
            SubmitStep::Copy { at, w: cw, h: ch } => outcomes.len() == 3 && at == outcomes[0].1
                && cw == w && ch == h,
            _ => outcomes.len() > 0,
        },
    decreases outcomes.len(),
{
    if outcomes.len() > 0 {
        lemma_submitted(w, h, outcomes.drop_last());
    }
}

/// A picture shows if and only if drawing begins, its pixels and a device
/// context on them are to be had, it is copied, and drawing ends and shows; the
/// release of the device context does not count.  Once there may be a device
/// context, drawing is ended and shown in any case.
pub proof fn picture_shows_if_all_went_well(w: i32, h: i32, outcomes: Seq<(bool, Point)>)
    requires
        outcomes.len() == 7,
    ensures
        submitted(SubmitStep::BeginDraw { w, h }, outcomes) == SubmitStep::Done(
            outcomes[0].0 && outcomes[1].0 && outcomes[2].0 && outcomes[3].0 && outcomes[5].0
                && outcomes[6].0,
        ),
        outcomes[0].0 && outcomes[1].0 && outcomes[2].0 ==> submitted(
            SubmitStep::BeginDraw { w, h },
            outcomes.take(5),
        ) == SubmitStep::EndDraw(outcomes[3].0),
        outcomes[0].0 && outcomes[1].0 && !outcomes[2].0 ==> submitted(
            SubmitStep::BeginDraw { w, h },
            outcomes.take(3),
        ) == SubmitStep::EndDraw(false),
{
    reveal_with_fuel(submitted, 8);
    assert(outcomes.take(7) == outcomes);
    assert(outcomes.take(7).drop_last() == outcomes.take(6));
    assert(outcomes.take(6).drop_last() == outcomes.take(5));
    assert(outcomes.take(5).drop_last() == outcomes.take(4));
    assert(outcomes.take(4).drop_last() == outcomes.take(3));
    assert(outcomes.take(3).drop_last() == outcomes.take(2));
    assert(outcomes.take(2).drop_last() == outcomes.take(1));
    assert(outcomes.take(1).drop_last() == outcomes.take(0));
}

/// What was opened is closed: a device context that was to be had is released
/// whether or not the picture was copied, and then drawing is ended; without
/// pixels to draw on it is over at once, and so it is if drawing does not begin.
pub proof fn what_was_opened_is_closed(w: i32, h: i32, at: Point, ok: bool, offset: Point)
    ensures
        submit_after(SubmitStep::BeginDraw { w, h }, false, offset) == SubmitStep::Done(false),
        submit_after(SubmitStep::BeginDraw { w, h }, true, offset) == (SubmitStep::Open {
            at: offset,
            w,
            h,
        }),
        submit_after(SubmitStep::Open { at, w, h }, false, offset) == SubmitStep::Done(false),
        submit_after(SubmitStep::GetDc { at, w, h }, false, offset) is EndDraw,
        submit_after(SubmitStep::Copy { at, w, h }, ok, offset) is ReleaseDc,
        submit_after(submit_after(SubmitStep::Copy { at, w, h }, ok, offset), true, offset)
            == submit_after(
            submit_after(SubmitStep::Copy { at, w, h }, ok, offset),
            false,
            offset,
        ),
        submit_after(SubmitStep::EndDraw(ok), false, offset) == SubmitStep::Commit(false),
        submit_after(SubmitStep::Commit(ok), false, offset) == SubmitStep::Done(false),
{
}

} // verus!
