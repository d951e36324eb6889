//! A typed action-mapping input engine.
//!
//! Physical inputs (keys, mouse buttons, mouse motion, gamepad buttons) are
//! mapped onto named actions carrying a boolean, scalar, or 2D-vector value.
//! Once per tick the engine resets every accumulator to its neutral value and
//! then folds every device binding into the owning action's accumulator and
//! into the accumulators of matching subaction paths.  Scalar quantities are
//! fixed-point integers: the host decides what one unit means.

use vstd::prelude::*;

pub mod engine;
pub mod gamepad;
pub mod keyboard;
pub mod mouse;
pub mod paths;
pub mod rebind;
pub mod sync;
pub mod values;

verus! {

/// The two phases of a tick, in their mandatory order: every accumulator is
/// reset to neutral before any device evaluator runs.
#[derive(Clone, Copy, Debug, PartialEq, Eq, Structural)]
pub enum SchminputSet {
    CleanValues,
    SyncActions,
}

/// The component of a 2D action value that a binding writes.  +X is right,
/// +Y is up, never screen-space down.
#[derive(Clone, Copy, Debug, PartialEq, Eq, Structural)]
pub enum InputAxis {
    X,
    Y,
}

/// The sign a binding applies to its contribution.
#[derive(Clone, Copy, Debug, PartialEq, Eq, Structural)]
pub enum InputAxisDirection {
    Positive,
    Negative,
}

/// How a discrete binding evaluates the state of its source.
#[derive(Clone, Copy, Debug, PartialEq, Eq, Structural)]
pub enum ButtonInputBeheavior {
    JustPressed,
    Pressed,
    JustReleased,
}

/// The device classes the engine evaluates, one binding list per class on
/// every action.
#[derive(Clone, Copy, Debug, PartialEq, Eq, Structural)]
pub enum DeviceClass {
    Keyboard,
    Mouse,
    Gamepad,
}

/// The per-tick state of one discrete source, as reported by the host's
/// input backend.
#[derive(Clone, Copy, Debug, PartialEq, Eq, Structural)]
pub struct ButtonState {
    pub pressed: bool,
    pub just_pressed: bool,
    pub just_released: bool,
}

/// The state of a source the backend reported nothing about.
pub open spec fn idle_button_state() -> ButtonState {
    ButtonState { pressed: false, just_pressed: false, just_released: false }
}

/// The sign that an axis direction multiplies a contribution by.
pub open spec fn dir_sign(d: InputAxisDirection) -> int {
    match d {
        InputAxisDirection::Positive => 1,
        InputAxisDirection::Negative => -1,
    }
}

/// Whether a trigger behavior holds of a source state.
pub open spec fn behavior_fires(b: ButtonInputBeheavior, st: ButtonState) -> bool {
    match b {
        ButtonInputBeheavior::JustPressed => st.just_pressed,
        ButtonInputBeheavior::Pressed => st.pressed,
        ButtonInputBeheavior::JustReleased => st.just_released,
    }
}

/// The component of `v` that `axis` selects.
pub open spec fn axis_pick(axis: InputAxis, v: (i128, i128)) -> i128 {
    match axis {
        InputAxis::X => v.0,
        InputAxis::Y => v.1,
    }
}

impl ButtonState {
    /// A state with nothing pressed and nothing changed.
    pub fn idle() -> (r: ButtonState)
        ensures
            r == idle_button_state(),
    {
        ButtonState { pressed: false, just_pressed: false, just_released: false }
    }
}

impl InputAxis {
    /// Read the component of `vec` that this axis selects.
    pub fn vec_axis(&self, vec: (i128, i128)) -> (r: i128)
        ensures
            r == axis_pick(*self, vec),
    {
        match self {
            InputAxis::X => vec.0,
            InputAxis::Y => vec.1,
        }
    }

    /// Borrow the component of `vec` that this axis selects.
    pub fn vec_axis_mut<'a>(&self, vec: &'a mut (i128, i128)) -> (r: &'a mut i128)
        ensures
            *r == axis_pick(*self, *old(vec)),
            *self == InputAxis::X ==> *final(vec) == (*final(r), old(vec).1),
            *self == InputAxis::Y ==> *final(vec) == (old(vec).0, *final(r)),
    {
        match self {
            InputAxis::X => &mut vec.0,
            InputAxis::Y => &mut vec.1,
        }
    }
}

impl InputAxisDirection {
    /// The factor this direction contributes: +1 or -1.
    pub fn as_multipier(&self) -> (m: i128)
        ensures
            m as int == dir_sign(*self),
    {
        match self {
            InputAxisDirection::Positive => 1i128,
            InputAxisDirection::Negative => -1i128,
        }
    }
}

impl ButtonInputBeheavior {
    /// Evaluate this trigger behavior against the reported state of a source.
    pub fn apply(&self, state: ButtonState) -> (b: bool)
        ensures
            b == behavior_fires(*self, state),
    {
        match self {
            ButtonInputBeheavior::JustPressed => state.just_pressed,
            ButtonInputBeheavior::Pressed => state.pressed,
            ButtonInputBeheavior::JustReleased => state.just_released,
        }
    }
}

} // verus!
