//! Mouse bindings: discrete button bindings plus an optional continuous
//! delta-motion binding with a scalar multiplier.

use crate::sync::{motion_x, motion_y, DiscreteBinding, TickInput};
use crate::{ButtonInputBeheavior, InputAxis, InputAxisDirection};
use vstd::prelude::*;

verus! {

/// The mouse-scoped tags a resolved path can carry.
#[derive(Clone, Copy, Debug, PartialEq, Eq, Structural)]
pub enum MouseSubactionPath {
    DeltaMotion,
    Button,
    All,
}

/// One mouse button binding.
#[derive(Clone, Copy, Debug, PartialEq, Eq, Structural)]
pub struct MouseButtonBinding {
    /// The component of a 2D target this binding writes.
    pub axis: InputAxis,
    /// The sign of the contribution.
    pub axis_dir: InputAxisDirection,
    /// The code of the bound mouse button.
    pub button: u32,
    /// Scale the contribution by this tick's elapsed time units.
    pub premultipy_delta_time: bool,
    /// How the button's state is turned into fired / not fired.
    pub behavior: ButtonInputBeheavior,
}

impl MouseButtonBinding {
    /// A binding for `button` with the default shape: writes +Y while the
    /// button is pressed, without time scaling.
    pub fn new(button: u32) -> (r: MouseButtonBinding)
        ensures
            r == (MouseButtonBinding {
                axis: InputAxis::Y,
                axis_dir: InputAxisDirection::Positive,
                button,
                premultipy_delta_time: false,
                behavior: ButtonInputBeheavior::Pressed,
            }),
    {
        MouseButtonBinding {
            axis: InputAxis::Y,
            axis_dir: InputAxisDirection::Positive,
            button,
            premultipy_delta_time: false,
            behavior: ButtonInputBeheavior::Pressed,
        }
    }
}

/// The kinds of continuous mouse motion a binding can read.
#[derive(Clone, Copy, Debug, PartialEq, Eq, Structural)]
pub enum MouseMotionType {
    DeltaMotion,
}

/// One continuous mouse motion binding: a motion kind and a fixed-point
/// scalar multiplier applied to every motion sample.
#[derive(Clone, Copy, Debug, PartialEq, Eq, Structural)]
pub struct MouseMotionBinding {
    /// Which kind of motion this binding reads.
    pub motion_type: MouseMotionType,
    /// The multiplier applied to each sample, in fixed-point units.
    pub multiplier: i32,
}

/// Every mouse binding attached to one action.
#[derive(Clone, Debug)]
pub struct MouseBindings {
    /// The discrete button bindings, all evaluated and summed every tick.
    pub buttons: Vec<MouseButtonBinding>,
    /// The optional motion binding.
    pub movement: Option<MouseMotionBinding>,
}

impl MouseBindings {
    /// No bindings at all.
    pub fn new() -> (r: MouseBindings)
        ensures
            r.buttons@ == Seq::<MouseButtonBinding>::empty(),
            r.movement is None,
    {
        MouseBindings { buttons: Vec::new(), movement: None }
    }

    /// These bindings with one more button binding appended.
    pub fn add_binding(self, binding: MouseButtonBinding) -> (r: MouseBindings)
        ensures
            r.buttons@ == self.buttons@.push(binding),
            r.movement == self.movement,
    {
        let mut r = self;
        r.buttons.push(binding);
        r
    }

    /// These bindings with a delta-motion binding present; an existing
    /// motion binding keeps its multiplier, a new one starts at 1.
    pub fn delta_motion(self) -> (r: MouseBindings)
        ensures
            r.buttons@ == self.buttons@,
            r.movement == Some(
                MouseMotionBinding {
                    motion_type: MouseMotionType::DeltaMotion,
                    multiplier: match self.movement {
                        Some(v) => v.multiplier,
                        None => 1,
                    },
                },
            ),
    {
        let mut r = self;
        let mut mmb = match r.movement {
            Some(v) => v,
            None => MouseMotionBinding { motion_type: MouseMotionType::DeltaMotion, multiplier: 1 },
        };
        mmb.motion_type = MouseMotionType::DeltaMotion;
        r.movement = Some(mmb);
        r
    }

    /// These bindings with the motion multiplier set, creating a
    /// delta-motion binding if none exists yet.
    pub fn motion_multiplier(self, multiplier: i32) -> (r: MouseBindings)
        ensures
            r.buttons@ == self.buttons@,
            r.movement == Some(
                MouseMotionBinding {
                    motion_type: match self.movement {
                        Some(v) => v.motion_type,
                        None => MouseMotionType::DeltaMotion,
                    },
                    multiplier,
                },
            ),
    {
        let mut r = self;
        let mut mmb = match r.movement {
            Some(v) => v,
            None => MouseMotionBinding { motion_type: MouseMotionType::DeltaMotion, multiplier: 1 },
        };
        mmb.multiplier = multiplier;
        r.movement = Some(mmb);
        r
    }
}

impl Default for MouseBindings {
    /// No bindings at all.
    fn default() -> (r: MouseBindings)
        ensures
            r.buttons@ == Seq::<MouseButtonBinding>::empty(),
            r.movement is None,
    {
        MouseBindings::new()
    }
}

/// The discrete-binding view of one mouse button binding.
pub open spec fn discrete_of_mouse(b: MouseButtonBinding) -> DiscreteBinding {
    DiscreteBinding {
        source: b.button,
        axis: b.axis,
        axis_dir: b.axis_dir,
        premultipy_delta_time: b.premultipy_delta_time,
        behavior: b.behavior,
    }
}

/// The discrete-binding view of a whole mouse button list.
pub open spec fn mouse_discrete_seq(bs: Seq<MouseButtonBinding>) -> Seq<DiscreteBinding> {
    bs.map_values(|b: MouseButtonBinding| discrete_of_mouse(b))
}

/// Convert the button bindings into the shared discrete-binding form.
pub fn mouse_discretes(bs: &Vec<MouseButtonBinding>) -> (r: Vec<DiscreteBinding>)
    ensures
        r@ == mouse_discrete_seq(bs@),
{
    let n = bs.len();
    let mut r: Vec<DiscreteBinding> = Vec::new();
    let mut i: usize = 0;
    while i < n
        invariant
            n == bs@.len(),
            i <= n,
            r@.len() == i,
            forall|j: int| 0 <= j < i ==> r@[j] == discrete_of_mouse(bs@[j]),
        decreases n - i,
    {
        let b = bs[i];
        r.push(
            DiscreteBinding {
                source: b.button,
                axis: b.axis,
                axis_dir: b.axis_dir,
                premultipy_delta_time: b.premultipy_delta_time,
                behavior: b.behavior,
            },
        );
        i += 1;
    }
    proof {
        assert(r@ =~= mouse_discrete_seq(bs@));
    }
    r
}

/// This tick's motion delta under these bindings: every sample scaled and
/// summed, nothing when no motion binding is attached.
pub open spec fn mouse_motion_delta(bindings: MouseBindings, input: TickInput) -> Option<
    (int, int),
> {
    match bindings.movement {
        Some(m) => if m.motion_type == MouseMotionType::DeltaMotion {
            Some(
                (
                    motion_x(input.mouse_motion@, m.multiplier as int),
                    motion_y(input.mouse_motion@, m.multiplier as int),
                ),
            )
        } else {
            None
        },
        None => None,
    }
}


/// Copy a mouse button binding list.
pub fn copy_mouse_buttons(v: &Vec<MouseButtonBinding>) -> (r: Vec<MouseButtonBinding>)
    ensures
        r@ == v@,
{
    let n = v.len();
    let mut r: Vec<MouseButtonBinding> = Vec::new();
    let mut i: usize = 0;
    while i < n
        invariant
            n == v@.len(),
            i <= n,
            r@.len() == i,
            forall|j: int| 0 <= j < i ==> r@[j] == v@[j],
        decreases n - i,
    {
        r.push(v[i]);
        i += 1;
    }
    proof {
        assert(r@ =~= v@);
    }
    r
}

/// The mouse evaluator: fold every action's mouse bindings into its
/// accumulators for this tick.
pub fn sync_actions(
    actions: &mut Vec<crate::engine::Action>,
    paths: &Vec<crate::paths::SubactionPath>,
    input: &TickInput,
)
    requires
        forall|k: int|
            0 <= k < old(actions)@.len() ==> (#[trigger] old(actions)@[k]).wf(paths@.len() as int),
        forall|k: int|
            0 <= k < old(actions)@.len() ==> crate::sync::value_bounded(
                (#[trigger] old(actions)@[k]).value,
                crate::sync::VALUE_LIMIT as int,
            ),
    ensures
        final(actions)@.len() == old(actions)@.len(),
        forall|k: int|
            0 <= k < old(actions)@.len() ==> crate::engine::device_pass_applied(
                old(actions)@[k],
                #[trigger] final(actions)@[k],
                paths@,
                crate::DeviceClass::Mouse,
                *input,
            ),
        forall|k: int|
            0 <= k < old(actions)@.len() ==> (#[trigger] final(actions)@[k]).wf(
                paths@.len() as int,
            ),
{
    crate::engine::sync_device(actions, paths, input, crate::DeviceClass::Mouse)
}

} // verus!
