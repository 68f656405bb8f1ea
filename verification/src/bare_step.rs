//! A widget that draws nothing but yields one step per redraw.
use vstd::prelude::*;

verus! {

/// Whether a widget's drawing is finished or yields to let a child draw.
#[derive(Clone, Copy, Debug, PartialEq, Eq, Structural)]
pub enum DrawStep {
    Done,
    Step,
}

/// The state that a widget keeps across the steps of one redraw: the redraw
/// it belongs to, and whether it has begun.
#[derive(Clone, Copy, Debug, PartialEq, Eq, Structural)]
pub struct DrawStateWrap {
    pub redraw_id: u64,
    pub begun: bool,
}

impl DrawStateWrap {
    pub fn new() -> (w: DrawStateWrap)
        ensures
            w.redraw_id == 0,
            !w.begun,
    {
        DrawStateWrap { redraw_id: 0, begun: false }
    }

    /// Begins the state for redraw `redraw_id`: true the first time in that
    /// redraw, false after.
    pub fn begin(&mut self, redraw_id: u64) -> (first: bool)
        ensures
            first == (old(self).redraw_id != redraw_id),
            final(self).redraw_id == redraw_id,
            final(self).begun == (old(self).begun || first),
    {
        if self.redraw_id != redraw_id {
            self.redraw_id = redraw_id;
            self.begun = true;
            true
        } else {
            false
        }
    }
}

/// What a bare step draws in redraw `redraw_id`, and its state after.
pub open spec fn bare_step_draw(state: DrawStateWrap, redraw_id: u64) -> (DrawStateWrap, DrawStep) {
    if state.redraw_id != redraw_id {
        (DrawStateWrap { redraw_id, begun: true }, DrawStep::Step)
    } else {
        (state, DrawStep::Done)
    }
}

pub struct BareStep {
    pub draw_state: DrawStateWrap,
}

impl BareStep {
    /// The first call in a redraw yields a step; every later one is done.
    pub fn draw_walk(&mut self, redraw_id: u64) -> (s: DrawStep)
        ensures
            (final(self).draw_state, s) == bare_step_draw(old(self).draw_state, redraw_id),
    {
        if self.draw_state.begin(redraw_id) {
            return DrawStep::Step;
        }
        DrawStep::Done
    }
}

/// Within one redraw, a bare step yields exactly once: a second call gives `Done`.
/// A new redraw always yields its step first.
pub proof fn law_one_step_per_redraw(w: DrawStateWrap, redraw_id: u64)
    ensures
        bare_step_draw(bare_step_draw(w, redraw_id).0, redraw_id).1 == DrawStep::Done,
        w.redraw_id != redraw_id ==> bare_step_draw(w, redraw_id).1 == DrawStep::Step,
{
}

} // verus!
