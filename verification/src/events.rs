//! The flat input-event type every sketch consumes.
//!
//! Whatever envelope the window system wraps around its notifications, each
//! sketch only ever reacts to these three kinds.

use vstd::prelude::*;

use crate::geom::Vec2i;

verus! {

/// One input notification, delivered between frames.
#[derive(Clone, Copy, PartialEq, Eq, Structural, Debug)]
pub enum InputEvent {
    /// The pointer moved to the given position.
    MouseMoved(Vec2i),
    /// The primary button was pressed.
    MousePressed,
    /// The primary button was released.
    MouseReleased,
}

} // verus!
