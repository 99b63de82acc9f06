//! The hello-world template sketch: animated greeting text in a cycling
//! hue, with pointer tracking and a diagnostic report on a press.

use vstd::prelude::*;

use crate::events::InputEvent;
use crate::geom::Vec2i;

verus! {

/// Frames per full hue cycle of the greeting text.
pub const HUE_CYCLE_FRAMES: u64 = 180;

/// The sketch's state.
#[derive(Clone, Copy, PartialEq, Eq, Structural, Debug)]
pub struct Model {
    pub height: i64,
    pub width: i64,
    pub mouse_position: Option<Vec2i>,
}

impl Model {
    /// The initial model for a window of the given size.
    pub fn init(width: i64, height: i64) -> (r: Model)
        ensures
            r.width == width,
            r.height == height,
            r.mouse_position is None,
    {
        Model { height, width, mouse_position: None }
    }

    /// Applies one input event: pointer moves are tracked, and a press asks
    /// the caller to report the last known pointer position.
    pub fn event(&mut self, ev: InputEvent) -> (report: Option<Option<Vec2i>>)
        ensures
            final(self).width == old(self).width,
            final(self).height == old(self).height,
            ev matches InputEvent::MouseMoved(p) ==> final(self).mouse_position == Some(p)
                && report is None,
            ev is MousePressed ==> final(self).mouse_position == old(self).mouse_position
                && report == Some(old(self).mouse_position),
            ev is MouseReleased ==> final(self).mouse_position == old(self).mouse_position
                && report is None,
    {
        match ev {
            InputEvent::MouseMoved(p) => {
                self.mouse_position = Some(p);
                None
            },
            InputEvent::MousePressed => Some(self.mouse_position),
            InputEvent::MouseReleased => None,
        }
    }
}

/// The greeting's hue for the given frame, as thousandths of a turn: the
/// fractional part of the frame count over one cycle, so the colour wheels
/// around once every [`HUE_CYCLE_FRAMES`] frames.
pub fn title_hue_permille(frames: u64) -> (r: i64)
    ensures
        r == ((frames as int) % (HUE_CYCLE_FRAMES as int)) * 1000 / (HUE_CYCLE_FRAMES as int),
        0 <= r < 1000,
{
    let m: u64 = frames % HUE_CYCLE_FRAMES;
    let r: u64 = (m * 1000) / HUE_CYCLE_FRAMES;
    proof {
        vstd::arithmetic::div_mod::lemma_div_is_ordered((m as int) * 1000, 179_000, 180);
    }
    r as i64
}

} // verus!
