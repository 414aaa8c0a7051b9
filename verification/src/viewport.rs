//! The viewport transform: which scalar of the view a wheel event
//! advances, and what a reset restores. The scalars themselves — the zoom
//! scale and the two translation components — are the host's 32-bit
//! floating-point words; this module never computes with them (Verus
//! refuses floating point), it holds and routes them, and the host does
//! the arithmetic. The all-zero word is the origin value of a component,
//! the bit pattern of IEEE 754 +0.0.
use vstd::prelude::*;

verus! {

/// Which scalar one wheel event advances.
#[derive(Debug, Clone, Copy, PartialEq, Eq, Structural)]
pub enum WheelBranch {
    /// Control held alone: the event pans along X.
    PanX,
    /// Shift held alone: the event pans along Y.
    PanY,
    /// Neither or both held: the event zooms.
    Zoom,
}

/// One wheel event as the routing sees it: the modifier keys, and the
/// advanced word for the scalar the event lands on, already computed by
/// the host from the wheel delta.
#[derive(Debug, Clone, Copy, PartialEq, Eq, Structural)]
pub struct WheelEvent {
    pub ctrl: bool,
    pub shift: bool,
    pub advanced_bits: u32,
}

/// The pan/zoom state of the view: the zoom scale and the translation,
/// each a 32-bit scalar word of the host.
#[derive(Debug, Clone, Copy, PartialEq, Eq, Structural)]
pub struct ViewState {
    pub scale_bits: u32,
    pub translation_x_bits: u32,
    pub translation_y_bits: u32,
}

/// The branch a wheel event falls on. Exactly one fires: control alone
/// pans X, shift alone pans Y, and everything else — neither modifier or
/// both at once — zooms.
pub open spec fn wheel_branch_of(ctrl: bool, shift: bool) -> WheelBranch {
    if ctrl && !shift {
        WheelBranch::PanX
    } else if !ctrl && shift {
        WheelBranch::PanY
    } else {
        WheelBranch::Zoom
    }
}

/// The state after one wheel event: the scalar of the event's branch is
/// replaced by the advanced word, and the other two stand untouched.
pub open spec fn wheel_step(s: ViewState, e: WheelEvent) -> ViewState {
    match wheel_branch_of(e.ctrl, e.shift) {
        WheelBranch::PanX => ViewState { translation_x_bits: e.advanced_bits, ..s },
        WheelBranch::PanY => ViewState { translation_y_bits: e.advanced_bits, ..s },
        WheelBranch::Zoom => ViewState { scale_bits: e.advanced_bits, ..s },
    }
}

/// The state a whole sequence of wheel events leaves behind.
pub open spec fn wheel_run(s: ViewState, events: Seq<WheelEvent>) -> ViewState
    decreases events.len(),
{
    if events.len() == 0 {
        s
    } else {
        wheel_step(wheel_run(s, events.drop_last()), events.last())
    }
}

/// The state after a reset: the translation at the origin, the scale as
/// it was.
pub open spec fn reset_state(s: ViewState) -> ViewState {
    ViewState { translation_x_bits: 0, translation_y_bits: 0, ..s }
}

/// The branch a wheel event falls on, for the host to pick the wheel
/// factor by.
pub fn wheel_branch(ctrl: bool, shift: bool) -> (b: WheelBranch)
    ensures
        b == wheel_branch_of(ctrl, shift),
{
    if ctrl && !shift {
        WheelBranch::PanX
    } else if !ctrl && shift {
        WheelBranch::PanY
    } else {
        WheelBranch::Zoom
    }
}

impl ViewState {
    /// A fresh view: translation at the origin, and the scale word the
    /// host starts with (its unit scale).
    pub fn new(scale_bits: u32) -> (s: ViewState)
        ensures
            s == (ViewState { scale_bits, translation_x_bits: 0, translation_y_bits: 0 }),
    {
        ViewState { scale_bits, translation_x_bits: 0, translation_y_bits: 0 }
    }

    /// The current word of the scalar that a wheel event with these
    /// modifiers would advance; the host advances it and hands it back to
    /// `apply_wheel`.
    pub fn wheel_target(&self, ctrl: bool, shift: bool) -> (bits: u32)
        ensures
            wheel_branch_of(ctrl, shift) == WheelBranch::PanX ==> bits == self.translation_x_bits,
            wheel_branch_of(ctrl, shift) == WheelBranch::PanY ==> bits == self.translation_y_bits,
            wheel_branch_of(ctrl, shift) == WheelBranch::Zoom ==> bits == self.scale_bits,
    {
        if ctrl && !shift {
            self.translation_x_bits
        } else if !ctrl && shift {
            self.translation_y_bits
        } else {
            self.scale_bits
        }
    }

    /// Applies one wheel event: stores the advanced word into the scalar
    /// of the event's branch and touches nothing else.
    pub fn apply_wheel(&mut self, ctrl: bool, shift: bool, advanced_bits: u32)
        ensures
            *final(self) == wheel_step(*old(self), WheelEvent { ctrl, shift, advanced_bits }),
    {
        if ctrl && !shift {
            self.translation_x_bits = advanced_bits;
        } else if !ctrl && shift {
            self.translation_y_bits = advanced_bits;
        } else {
            self.scale_bits = advanced_bits;
        }
    }

    /// Resets the pan: the translation returns to the origin and the
    /// scale keeps its value.
    pub fn reset(&mut self)
        ensures
            *final(self) == reset_state(*old(self)),
    {
        self.translation_x_bits = 0;
        self.translation_y_bits = 0;
    }
}

/// A reset after any sequence of wheel events puts the translation at the
/// origin and leaves the scale exactly where the events took it.
pub proof fn lemma_reset_after_any_wheel_sequence(s0: ViewState, events: Seq<WheelEvent>)
    ensures
        reset_state(wheel_run(s0, events)).translation_x_bits == 0,
        reset_state(wheel_run(s0, events)).translation_y_bits == 0,
        reset_state(wheel_run(s0, events)).scale_bits == wheel_run(s0, events).scale_bits,
{
}

} // verus!
