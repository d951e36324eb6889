//! The action world and its per-tick synchronization scheduler.
//!
//! A tick runs two strictly ordered phases: every accumulator is reset to
//! its neutral value, and only then does each device evaluator fold this
//! tick's input into the accumulators.  Device passes merge per-device
//! partial sums, so their order among themselves does not matter.

use crate::gamepad::GamepadBindings;
use crate::keyboard::KeyboardBindings;
use crate::mouse::{mouse_discrete_seq, mouse_discretes, mouse_motion_delta, MouseBindings};
use crate::mouse::MouseMotionType;
use crate::paths::SubactionPath;
use crate::rebind::RebindState;
use crate::sync::{mot_nonzero, mot_x, mot_y, path_btn_applies, path_mot_applies};
use crate::sync::{
    apply_pass, copy_discretes, discrete_any, discrete_axis_sum, eval_discrete, eval_motion,
    mot_view, pass_applied, value_bounded, value_growth, DiscreteBinding, TickInput, PASS_LIMIT,
    VALUE_LIMIT,
};
use crate::values::{ActionKind, ActionValue};
use crate::{ButtonState, DeviceClass, InputAxis};
use vstd::prelude::*;

verus! {

/// The unique identifier of an action within its set.
#[derive(Clone, Debug)]
pub struct ActionId(pub String);

/// The display name of an action.
#[derive(Clone, Debug)]
pub struct ActionName(pub String);

/// The action set an action belongs to, by set index.
#[derive(Clone, Copy, Debug, PartialEq, Eq, Structural)]
pub struct ActionSet(pub usize);

/// One action: identity, the typed accumulator consumers read, the
/// subaction paths requested against it, the binding lists of every device
/// class, and the snapshot of those lists taken at registration, which
/// reset-to-default restores.
#[derive(Clone, Debug)]
pub struct Action {
    /// The stable string id.
    pub id: ActionId,
    /// The display name.
    pub name: ActionName,
    /// The owning action set, if any.
    pub set: Option<ActionSet>,
    /// The typed accumulator.
    pub value: ActionValue,
    /// The path ids requested against this action.
    pub sub_paths: Vec<usize>,
    /// The keyboard bindings evaluated every tick.
    pub keyboard: KeyboardBindings,
    /// The mouse bindings evaluated every tick.
    pub mouse: MouseBindings,
    /// The gamepad bindings evaluated every tick.
    pub gamepad: GamepadBindings,
    /// The keyboard bindings as registered.
    pub default_keyboard: KeyboardBindings,
    /// The mouse bindings as registered.
    pub default_mouse: MouseBindings,
    /// The gamepad bindings as registered.
    pub default_gamepad: GamepadBindings,
}

impl Action {
    /// Well-formedness: breakdown keys are unique, and the requested path
    /// ids are distinct and name existing paths.
    pub open spec fn wf(self, n_paths: int) -> bool {
        &&& self.value.wf()
        &&& forall|k: int|
            0 <= k < self.sub_paths@.len() ==> (#[trigger] self.sub_paths@[k]) < n_paths
        &&& forall|k1: int, k2: int|
            0 <= k1 < k2 < self.sub_paths@.len() ==> self.sub_paths@[k1] != self.sub_paths@[k2]
    }
}

/// Whether two actions agree on everything but their accumulator: identity,
/// requested paths, bindings and registered defaults.
pub open spec fn same_shape(a: Action, b: Action) -> bool {
    &&& b.id.0@ == a.id.0@
    &&& b.name.0@ == a.name.0@
    &&& b.set == a.set
    &&& b.sub_paths@ == a.sub_paths@
    &&& b.keyboard.bindings@ == a.keyboard.bindings@
    &&& b.mouse.buttons@ == a.mouse.buttons@
    &&& b.mouse.movement == a.mouse.movement
    &&& b.gamepad.bindings@ == a.gamepad.bindings@
    &&& b.default_keyboard.bindings@ == a.default_keyboard.bindings@
    &&& b.default_mouse.buttons@ == a.default_mouse.buttons@
    &&& b.default_mouse.movement == a.default_mouse.movement
    &&& b.default_gamepad.bindings@ == a.default_gamepad.bindings@
}

/// The states this tick's input reports for one device class.
pub open spec fn device_states(input: TickInput, d: DeviceClass) -> Seq<(u32, ButtonState)> {
    match d {
        DeviceClass::Keyboard => input.keyboard@,
        DeviceClass::Mouse => input.mouse_buttons@,
        DeviceClass::Gamepad => input.gamepad@,
    }
}

/// An action's discrete bindings of one device class, in the shared form.
pub open spec fn action_discretes(a: Action, d: DeviceClass) -> Seq<DiscreteBinding> {
    match d {
        DeviceClass::Keyboard => a.keyboard.bindings@,
        DeviceClass::Mouse => mouse_discrete_seq(a.mouse.buttons@),
        DeviceClass::Gamepad => a.gamepad.bindings@,
    }
}

/// An action's motion delta under one device class; only the mouse
/// produces motion.
pub open spec fn action_motion(a: Action, d: DeviceClass, input: TickInput) -> Option<(int, int)> {
    match d {
        DeviceClass::Mouse => mouse_motion_delta(a.mouse, input),
        _ => None,
    }
}

/// Whether any of an action's discrete bindings of one device class fires
/// this tick.
pub open spec fn dev_btn_any(a: Action, d: DeviceClass, input: TickInput) -> bool {
    discrete_any(action_discretes(a, d), device_states(input, d))
}

/// The X-axis sum of an action's discrete bindings of one device class.
pub open spec fn dev_btn_x(a: Action, d: DeviceClass, input: TickInput) -> int {
    discrete_axis_sum(action_discretes(a, d), device_states(input, d), input.delta_time, InputAxis::X)
}

/// The Y-axis sum of an action's discrete bindings of one device class.
pub open spec fn dev_btn_y(a: Action, d: DeviceClass, input: TickInput) -> int {
    discrete_axis_sum(action_discretes(a, d), device_states(input, d), input.delta_time, InputAxis::Y)
}

/// How one device pass transforms one action: the shape is kept and the
/// accumulator takes exactly this device's partial sums.
pub open spec fn device_pass_applied(
    a_old: Action,
    a_new: Action,
    paths: Seq<SubactionPath>,
    d: DeviceClass,
    input: TickInput,
) -> bool {
    &&& same_shape(a_old, a_new)
    &&& a_new.value.wf()
    &&& pass_applied(
        a_old.value,
        a_new.value,
        a_old.sub_paths@,
        paths,
        d,
        dev_btn_any(a_old, d, input),
        dev_btn_x(a_old, d, input),
        dev_btn_y(a_old, d, input),
        action_motion(a_old, d, input),
    )
}

/// Run one device class's evaluator over one action.
fn sync_one(a: &mut Action, paths: &Vec<SubactionPath>, input: &TickInput, d: DeviceClass)
    requires
        old(a).wf(paths@.len() as int),
        value_bounded(old(a).value, VALUE_LIMIT as int),
    ensures
        final(a).wf(paths@.len() as int),
        device_pass_applied(*old(a), *final(a), paths@, d, *input),
        value_growth(old(a).value, final(a).value, 3 * PASS_LIMIT as int),
{
    let (any, bx, by) = match d {
        DeviceClass::Keyboard => eval_discrete(&a.keyboard.bindings, &input.keyboard, input.delta_time),
        DeviceClass::Mouse => {
            let ds = mouse_discretes(&a.mouse.buttons);
            eval_discrete(&ds, &input.mouse_buttons, input.delta_time)
        },
        DeviceClass::Gamepad => eval_discrete(&a.gamepad.bindings, &input.gamepad, input.delta_time),
    };
    let mot: Option<(i128, i128)> = match d {
        DeviceClass::Mouse => match &a.mouse.movement {
            Some(m) => if matches!(m.motion_type, MouseMotionType::DeltaMotion) {
                Some(eval_motion(&input.mouse_motion, m.multiplier))
            } else {
                None
            },
            None => None,
        },
        _ => None,
    };
    proof {
        assert(mot_view(mot) == action_motion(*a, d, *input));
    }
    apply_pass(&mut a.value, &a.sub_paths, paths, d, any, bx, by, mot);
}

/// Run one device class's evaluator over every action.
pub(crate) fn sync_device(
    actions: &mut Vec<Action>,
    paths: &Vec<SubactionPath>,
    input: &TickInput,
    d: DeviceClass,
)
    requires
        forall|k: int|
            0 <= k < old(actions)@.len() ==> (#[trigger] old(actions)@[k]).wf(paths@.len() as int),
        forall|k: int|
            0 <= k < old(actions)@.len() ==> value_bounded(
                (#[trigger] old(actions)@[k]).value,
                VALUE_LIMIT as int,
            ),
    ensures
        final(actions)@.len() == old(actions)@.len(),
        forall|k: int|
            0 <= k < old(actions)@.len() ==> (#[trigger] final(actions)@[k]).wf(
                paths@.len() as int,
            ),
        forall|k: int|
            0 <= k < old(actions)@.len() ==> device_pass_applied(
                old(actions)@[k],
                #[trigger] final(actions)@[k],
                paths@,
                d,
                *input,
            ),
        forall|k: int|
            0 <= k < old(actions)@.len() ==> value_growth(
                old(actions)@[k].value,
                (#[trigger] final(actions)@[k]).value,
                3 * PASS_LIMIT as int,
            ),
{
    let n = actions.len();
    let mut k: usize = 0;
    while k < n
        invariant
            n == actions@.len(),
            n == old(actions)@.len(),
            k <= n,
            forall|j: int| k <= j < n ==> #[trigger] actions@[j] == old(actions)@[j],
            forall|j: int|
                0 <= j < n ==> (#[trigger] old(actions)@[j]).wf(paths@.len() as int),
            forall|j: int|
                0 <= j < n ==> value_bounded(
                    (#[trigger] old(actions)@[j]).value,
                    VALUE_LIMIT as int,
                ),
            forall|j: int|
                0 <= j < k ==> (#[trigger] actions@[j]).wf(paths@.len() as int),
            forall|j: int|
                0 <= j < k ==> device_pass_applied(
                    old(actions)@[j],
                    #[trigger] actions@[j],
                    paths@,
                    d,
                    *input,
                ),
            forall|j: int|
                0 <= j < k ==> value_growth(
                    old(actions)@[j].value,
                    (#[trigger] actions@[j]).value,
                    3 * PASS_LIMIT as int,
                ),
        decreases n - k,
    {
        sync_one(&mut actions[k], paths, input, d);
        k += 1;
    }
}


/// Reset one action's accumulator to neutral.
fn clean_action(a: &mut Action)
    ensures
        same_shape(*old(a), *final(a)),
        final(a).value.kind() == old(a).value.kind(),
        final(a).value.is_neutral(),
        old(a).value.wf() ==> final(a).value.wf(),
        final(a).sub_paths@ == old(a).sub_paths@,
{
    a.value.reset();
}

/// The whole action world: the registered sets, the actions with their
/// accumulators and bindings, the subaction path entities, and the
/// rebinding machine.
#[derive(Debug)]
pub struct InputEngine {
    /// The names of the registered action sets.
    pub sets: Vec<String>,
    /// Every registered action.
    pub actions: Vec<Action>,
    /// Every subaction path entity, indexed by path id.
    pub paths: Vec<SubactionPath>,
    /// The rebinding machine.
    pub rebind: RebindState,
}

/// Whether a boolean action synchronized from zero this tick ends up true:
/// some discrete binding of some device class fired, or mouse motion was
/// seen.
pub open spec fn synced_bool_any(a: Action, input: TickInput) -> bool {
    ||| dev_btn_any(a, DeviceClass::Keyboard, input)
    ||| dev_btn_any(a, DeviceClass::Mouse, input)
    ||| dev_btn_any(a, DeviceClass::Gamepad, input)
    ||| mot_nonzero(action_motion(a, DeviceClass::Mouse, input))
}

/// What a boolean action's breakdown holds for path `id` after a tick.
pub open spec fn synced_bool_at(
    a: Action,
    paths: Seq<SubactionPath>,
    input: TickInput,
    id: usize,
) -> bool {
    ||| (path_btn_applies(a.sub_paths@, paths, DeviceClass::Keyboard, id) && dev_btn_any(
        a,
        DeviceClass::Keyboard,
        input,
    ))
    ||| (path_btn_applies(a.sub_paths@, paths, DeviceClass::Mouse, id) && dev_btn_any(
        a,
        DeviceClass::Mouse,
        input,
    ))
    ||| (path_mot_applies(a.sub_paths@, paths, DeviceClass::Mouse, id) && mot_nonzero(
        action_motion(a, DeviceClass::Mouse, input),
    ))
    ||| (path_btn_applies(a.sub_paths@, paths, DeviceClass::Gamepad, id) && dev_btn_any(
        a,
        DeviceClass::Gamepad,
        input,
    ))
}

/// What a scalar action totals after a tick: the sum of every discrete
/// contribution of every device class plus the X component of mouse motion.
pub open spec fn synced_scalar_total(a: Action, input: TickInput) -> int {
    dev_btn_x(a, DeviceClass::Keyboard, input) + dev_btn_y(a, DeviceClass::Keyboard, input)
        + dev_btn_x(a, DeviceClass::Mouse, input) + dev_btn_y(a, DeviceClass::Mouse, input) + mot_x(
        action_motion(a, DeviceClass::Mouse, input),
    ) + dev_btn_x(a, DeviceClass::Gamepad, input) + dev_btn_y(a, DeviceClass::Gamepad, input)
}

/// What a scalar action's breakdown holds for path `id` after a tick.
pub open spec fn synced_scalar_at(
    a: Action,
    paths: Seq<SubactionPath>,
    input: TickInput,
    id: usize,
) -> int {
    (if path_btn_applies(a.sub_paths@, paths, DeviceClass::Keyboard, id) {
        dev_btn_x(a, DeviceClass::Keyboard, input) + dev_btn_y(a, DeviceClass::Keyboard, input)
    } else {
        0
    }) + (if path_btn_applies(a.sub_paths@, paths, DeviceClass::Mouse, id) {
        dev_btn_x(a, DeviceClass::Mouse, input) + dev_btn_y(a, DeviceClass::Mouse, input)
    } else {
        0
    }) + (if path_mot_applies(a.sub_paths@, paths, DeviceClass::Mouse, id) {
        mot_x(action_motion(a, DeviceClass::Mouse, input))
    } else {
        0
    }) + (if path_btn_applies(a.sub_paths@, paths, DeviceClass::Gamepad, id) {
        dev_btn_x(a, DeviceClass::Gamepad, input) + dev_btn_y(a, DeviceClass::Gamepad, input)
    } else {
        0
    })
}

/// What a 2D action totals after a tick, per component.
pub open spec fn synced_vec2_total(a: Action, input: TickInput) -> (int, int) {
    (
        dev_btn_x(a, DeviceClass::Keyboard, input) + dev_btn_x(a, DeviceClass::Mouse, input)
            + mot_x(action_motion(a, DeviceClass::Mouse, input)) + dev_btn_x(
            a,
            DeviceClass::Gamepad,
            input,
        ),
        dev_btn_y(a, DeviceClass::Keyboard, input) + dev_btn_y(a, DeviceClass::Mouse, input)
            + mot_y(action_motion(a, DeviceClass::Mouse, input)) + dev_btn_y(
            a,
            DeviceClass::Gamepad,
            input,
        ),
    )
}

/// What a 2D action's breakdown holds for path `id` after a tick.
pub open spec fn synced_vec2_at(
    a: Action,
    paths: Seq<SubactionPath>,
    input: TickInput,
    id: usize,
) -> (int, int) {
    (
        (if path_btn_applies(a.sub_paths@, paths, DeviceClass::Keyboard, id) {
            dev_btn_x(a, DeviceClass::Keyboard, input)
        } else {
            0
        }) + (if path_btn_applies(a.sub_paths@, paths, DeviceClass::Mouse, id) {
            dev_btn_x(a, DeviceClass::Mouse, input)
        } else {
            0
        }) + (if path_mot_applies(a.sub_paths@, paths, DeviceClass::Mouse, id) {
            mot_x(action_motion(a, DeviceClass::Mouse, input))
        } else {
            0
        }) + (if path_btn_applies(a.sub_paths@, paths, DeviceClass::Gamepad, id) {
            dev_btn_x(a, DeviceClass::Gamepad, input)
        } else {
            0
        }),
        (if path_btn_applies(a.sub_paths@, paths, DeviceClass::Keyboard, id) {
            dev_btn_y(a, DeviceClass::Keyboard, input)
        } else {
            0
        }) + (if path_btn_applies(a.sub_paths@, paths, DeviceClass::Mouse, id) {
            dev_btn_y(a, DeviceClass::Mouse, input)
        } else {
            0
        }) + (if path_mot_applies(a.sub_paths@, paths, DeviceClass::Mouse, id) {
            mot_y(action_motion(a, DeviceClass::Mouse, input))
        } else {
            0
        }) + (if path_btn_applies(a.sub_paths@, paths, DeviceClass::Gamepad, id) {
            dev_btn_y(a, DeviceClass::Gamepad, input)
        } else {
            0
        }),
    )
}

/// How one whole tick transforms one action: the shape is kept and the
/// accumulator holds exactly this tick's synchronized values.
pub open spec fn tick_synced(
    a_old: Action,
    a_new: Action,
    paths: Seq<SubactionPath>,
    input: TickInput,
) -> bool {
    &&& same_shape(a_old, a_new)
    &&& a_new.value.wf()
    &&& match (a_old.value, a_new.value) {
        (ActionValue::Bool(_), ActionValue::Bool(b)) => {
            &&& b.any == synced_bool_any(a_old, input)
            &&& forall|id: usize|
                #[trigger] crate::values::bool_at(b, id) == synced_bool_at(
                    a_old,
                    paths,
                    input,
                    id,
                )
        },
        (ActionValue::Scalar(_), ActionValue::Scalar(b)) => {
            &&& b.total == synced_scalar_total(a_old, input)
            &&& forall|id: usize|
                #[trigger] crate::values::scalar_at(b, id) == synced_scalar_at(
                    a_old,
                    paths,
                    input,
                    id,
                )
        },
        (ActionValue::Vec2(_), ActionValue::Vec2(b)) => {
            &&& b.x == synced_vec2_total(a_old, input).0
            &&& b.y == synced_vec2_total(a_old, input).1
            &&& forall|id: usize|
                #[trigger] crate::values::vec2_at(b, id) == synced_vec2_at(
                    a_old,
                    paths,
                    input,
                    id,
                )
        },
        _ => false,
    }
}

impl InputEngine {
    /// Well-formedness: every action is well-formed against the path table.
    pub open spec fn wf(self) -> bool {
        forall|k: int|
            0 <= k < self.actions@.len() ==> (#[trigger] self.actions@[k]).wf(
                self.paths@.len() as int,
            )
    }

    /// An empty world: no sets, no actions, no paths, machine idle.
    pub fn new() -> (r: InputEngine)
        ensures
            r.wf(),
            r.sets@ == Seq::<String>::empty(),
            r.actions@ == Seq::<Action>::empty(),
            r.paths@ == Seq::<SubactionPath>::empty(),
            r.rebind == RebindState::Idle,
    {
        InputEngine {
            sets: Vec::new(),
            actions: Vec::new(),
            paths: Vec::new(),
            rebind: RebindState::Idle,
        }
    }

    /// The first tick phase: reset the accumulator of every action, total
    /// and breakdown alike, to the neutral element of its kind.
    pub fn clean_values(&mut self)
        ensures
            final(self).actions@.len() == old(self).actions@.len(),
            forall|k: int|
                0 <= k < old(self).actions@.len() ==> same_shape(
                    old(self).actions@[k],
                    #[trigger] final(self).actions@[k],
                ),
            forall|k: int|
                0 <= k < old(self).actions@.len() ==> (#[trigger] final(self).actions@[k]).value.kind()
                    == old(self).actions@[k].value.kind(),
            forall|k: int|
                0 <= k < old(self).actions@.len() ==> (#[trigger] final(self).actions@[k]).value.is_neutral(),
            final(self).paths == old(self).paths,
            final(self).sets == old(self).sets,
            final(self).rebind == old(self).rebind,
            old(self).wf() ==> final(self).wf(),
    {
        let n = self.actions.len();
        let mut k: usize = 0;
        while k < n
            invariant
                n == self.actions@.len(),
                n == old(self).actions@.len(),
                k <= n,
                forall|j: int| k <= j < n ==> #[trigger] self.actions@[j] == old(self).actions@[j],
                forall|j: int|
                    0 <= j < k ==> same_shape(old(self).actions@[j], #[trigger] self.actions@[j]),
                forall|j: int|
                    0 <= j < k ==> (#[trigger] self.actions@[j]).value.kind()
                        == old(self).actions@[j].value.kind(),
                forall|j: int|
                    0 <= j < k ==> (#[trigger] self.actions@[j]).value.is_neutral(),
                forall|j: int|
                    0 <= j < k ==> (old(self).actions@[j].value.wf()
                        ==> (#[trigger] self.actions@[j]).value.wf()),
                self.paths == old(self).paths,
                self.sets == old(self).sets,
                self.rebind == old(self).rebind,
            decreases n - k,
        {
            clean_action(&mut self.actions[k]);
            k += 1;
        }
    }

    /// Run one tick: reset every accumulator, then evaluate every device
    /// class's bindings into them.  The reset strictly precedes every
    /// evaluator, and the accumulators end up holding exactly this tick's
    /// input folded through the bindings — independent of the order of the
    /// device passes, which only add into accumulators the reset cleared.
    pub fn tick(&mut self, input: &TickInput)
        requires
            old(self).wf(),
        ensures
            final(self).wf(),
            final(self).actions@.len() == old(self).actions@.len(),
            forall|k: int|
                0 <= k < old(self).actions@.len() ==> tick_synced(
                    old(self).actions@[k],
                    #[trigger] final(self).actions@[k],
                    old(self).paths@,
                    *input,
                ),
            final(self).paths == old(self).paths,
            final(self).sets == old(self).sets,
            final(self).rebind == old(self).rebind,
    {
        self.clean_values();
        let ghost s0 = self.actions@;
        proof {
            assert forall|k: int|
                0 <= k < s0.len() implies value_bounded(
                (#[trigger] s0[k]).value,
                VALUE_LIMIT as int,
            ) by {
                crate::sync::lemma_neutral_bounded(s0[k].value);
                crate::sync::lemma_growth_bounded(s0[k].value, s0[k].value, 0, VALUE_LIMIT as int);
            }
        }
        sync_device(&mut self.actions, &self.paths, input, DeviceClass::Keyboard);
        let ghost s1 = self.actions@;
        proof {
            assert forall|k: int|
                0 <= k < s1.len() implies value_bounded(
                (#[trigger] s1[k]).value,
                VALUE_LIMIT as int,
            ) by {
                crate::sync::lemma_neutral_bounded(s0[k].value);
                crate::sync::lemma_growth_bounded(
                    s0[k].value,
                    s1[k].value,
                    0,
                    3 * PASS_LIMIT as int,
                );
            }
        }
        sync_device(&mut self.actions, &self.paths, input, DeviceClass::Mouse);
        let ghost s2 = self.actions@;
        proof {
            assert forall|k: int|
                0 <= k < s2.len() implies value_bounded(
                (#[trigger] s2[k]).value,
                VALUE_LIMIT as int,
            ) by {
                crate::sync::lemma_neutral_bounded(s0[k].value);
                crate::sync::lemma_growth_bounded(
                    s0[k].value,
                    s1[k].value,
                    0,
                    3 * PASS_LIMIT as int,
                );
                crate::sync::lemma_growth_bounded(
                    s1[k].value,
                    s2[k].value,
                    3 * PASS_LIMIT as int,
                    3 * PASS_LIMIT as int,
                );
            }
        }
        sync_device(&mut self.actions, &self.paths, input, DeviceClass::Gamepad);
        proof {
            let ghost s3 = self.actions@;
            let ghost ps = old(self).paths@;
            assert forall|k: int|
                0 <= k < s0.len() implies tick_synced(
                old(self).actions@[k],
                #[trigger] s3[k],
                ps,
                *input,
            ) by {
                let a0 = old(self).actions@[k];
                let ac = s0[k];
                let a1 = s1[k];
                let a2 = s2[k];
                let a3 = s3[k];
                assert(same_shape(a0, ac));
                assert(device_pass_applied(ac, a1, ps, DeviceClass::Keyboard, *input));
                assert(device_pass_applied(a1, a2, ps, DeviceClass::Mouse, *input));
                assert(device_pass_applied(a2, a3, ps, DeviceClass::Gamepad, *input));
                assert(action_discretes(ac, DeviceClass::Keyboard) == action_discretes(
                    a0,
                    DeviceClass::Keyboard,
                ));
                assert(action_discretes(a1, DeviceClass::Mouse) =~= action_discretes(
                    a0,
                    DeviceClass::Mouse,
                ));
                assert(action_discretes(a2, DeviceClass::Gamepad) == action_discretes(
                    a0,
                    DeviceClass::Gamepad,
                ));
                assert(action_motion(a1, DeviceClass::Mouse, *input) == action_motion(
                    a0,
                    DeviceClass::Mouse,
                    *input,
                ));
                assert(ac.sub_paths@ == a0.sub_paths@ && a1.sub_paths@ == a0.sub_paths@
                    && a2.sub_paths@ == a0.sub_paths@);
                match (a0.value, a3.value) {
                    (ActionValue::Bool(_), ActionValue::Bool(b)) => {
                        assert forall|id: usize|
                            #[trigger] crate::values::bool_at(b, id) == synced_bool_at(
                            a0,
                            ps,
                            *input,
                            id,
                        ) by {}
                    },
                    (ActionValue::Scalar(_), ActionValue::Scalar(b)) => {
                        assert forall|id: usize|
                            #[trigger] crate::values::scalar_at(b, id) == synced_scalar_at(
                            a0,
                            ps,
                            *input,
                            id,
                        ) by {}
                    },
                    (ActionValue::Vec2(_), ActionValue::Vec2(b)) => {
                        assert forall|id: usize|
                            #[trigger] crate::values::vec2_at(b, id) == synced_vec2_at(
                            a0,
                            ps,
                            *input,
                            id,
                        ) by {}
                    },
                    _ => {},
                }
            }
        }
    }
}


/// Append a requested path id to an action.
fn add_sub_path(a: &mut Action, id: usize)
    ensures
        final(a).sub_paths@ == old(a).sub_paths@.push(id),
        final(a).id == old(a).id,
        final(a).name == old(a).name,
        final(a).set == old(a).set,
        final(a).value == old(a).value,
        final(a).keyboard == old(a).keyboard,
        final(a).mouse == old(a).mouse,
        final(a).gamepad == old(a).gamepad,
        final(a).default_keyboard == old(a).default_keyboard,
        final(a).default_mouse == old(a).default_mouse,
        final(a).default_gamepad == old(a).default_gamepad,
{
    a.sub_paths.push(id);
}

/// Install keyboard bindings on an action, snapshotting them as defaults.
fn set_keyboard(a: &mut Action, bindings: KeyboardBindings, snapshot: KeyboardBindings)
    ensures
        final(a).keyboard == bindings,
        final(a).default_keyboard == snapshot,
        final(a).id == old(a).id,
        final(a).name == old(a).name,
        final(a).set == old(a).set,
        final(a).value == old(a).value,
        final(a).sub_paths == old(a).sub_paths,
        final(a).mouse == old(a).mouse,
        final(a).gamepad == old(a).gamepad,
        final(a).default_mouse == old(a).default_mouse,
        final(a).default_gamepad == old(a).default_gamepad,
{
    a.keyboard = bindings;
    a.default_keyboard = snapshot;
}

/// Install mouse bindings on an action, snapshotting them as defaults.
fn set_mouse(a: &mut Action, bindings: MouseBindings, snapshot: MouseBindings)
    ensures
        final(a).mouse == bindings,
        final(a).default_mouse == snapshot,
        final(a).id == old(a).id,
        final(a).name == old(a).name,
        final(a).set == old(a).set,
        final(a).value == old(a).value,
        final(a).sub_paths == old(a).sub_paths,
        final(a).keyboard == old(a).keyboard,
        final(a).gamepad == old(a).gamepad,
        final(a).default_keyboard == old(a).default_keyboard,
        final(a).default_gamepad == old(a).default_gamepad,
{
    a.mouse = bindings;
    a.default_mouse = snapshot;
}

/// Install gamepad bindings on an action, snapshotting them as defaults.
fn set_gamepad(a: &mut Action, bindings: GamepadBindings, snapshot: GamepadBindings)
    ensures
        final(a).gamepad == bindings,
        final(a).default_gamepad == snapshot,
        final(a).id == old(a).id,
        final(a).name == old(a).name,
        final(a).set == old(a).set,
        final(a).value == old(a).value,
        final(a).sub_paths == old(a).sub_paths,
        final(a).keyboard == old(a).keyboard,
        final(a).mouse == old(a).mouse,
        final(a).default_keyboard == old(a).default_keyboard,
        final(a).default_mouse == old(a).default_mouse,
{
    a.gamepad = bindings;
    a.default_gamepad = snapshot;
}

/// Builds the identity of a new action before it is spawned into the world.
pub struct ActionHeaderBuilder {
    /// The stable string id.
    pub id: ActionId,
    /// The display name; the id stands in when none is given.
    pub name: Option<ActionName>,
    /// The owning action set, if any.
    pub set: Option<ActionSet>,
}

impl ActionHeaderBuilder {
    /// Start building an action with the given id.
    pub fn new(id: &str) -> (r: ActionHeaderBuilder)
        ensures
            r.id.0@ == id@,
            r.name is None,
            r.set is None,
    {
        ActionHeaderBuilder { id: ActionId(id.to_owned()), name: None, set: None }
    }

    /// Give the action a display name.
    pub fn with_name(self, name: &str) -> (r: ActionHeaderBuilder)
        ensures
            r.id == self.id,
            r.name matches Some(n) && n.0@ == name@,
            r.set == self.set,
    {
        ActionHeaderBuilder { name: Some(ActionName(name.to_owned())), ..self }
    }

    /// Put the action into an action set.
    pub fn with_set(self, set: usize) -> (r: ActionHeaderBuilder)
        ensures
            r.id == self.id,
            r.name == self.name,
            r.set == Some(ActionSet(set)),
    {
        ActionHeaderBuilder { set: Some(ActionSet(set)), ..self }
    }

    /// Spawn the action into the world with an accumulator of the given
    /// kind, no bindings and no requested paths, and hand back its index.
    pub fn build(self, world: &mut InputEngine, kind: ActionKind) -> (idx: usize)
        ensures
            idx == old(world).actions@.len(),
            final(world).actions@.len() == old(world).actions@.len() + 1,
            forall|k: int|
                0 <= k < old(world).actions@.len() ==> #[trigger] final(world).actions@[k] == old(
                    world,
                ).actions@[k],
            final(world).actions@[idx as int].id.0@ == self.id.0@,
            final(world).actions@[idx as int].name.0@ == (match self.name {
                Some(n) => n.0@,
                None => self.id.0@,
            }),
            final(world).actions@[idx as int].set == self.set,
            final(world).actions@[idx as int].value.kind() == kind,
            final(world).actions@[idx as int].value.is_neutral(),
            final(world).actions@[idx as int].sub_paths@ == Seq::<usize>::empty(),
            final(world).actions@[idx as int].keyboard.bindings@ == Seq::<DiscreteBinding>::empty(),
            final(world).actions@[idx as int].mouse.buttons@ == Seq::<
                crate::mouse::MouseButtonBinding,
            >::empty(),
            final(world).actions@[idx as int].mouse.movement is None,
            final(world).actions@[idx as int].gamepad.bindings@ == Seq::<
                DiscreteBinding,
            >::empty(),
            final(world).paths == old(world).paths,
            final(world).sets == old(world).sets,
            final(world).rebind == old(world).rebind,
            old(world).wf() ==> final(world).wf(),
    {
        let idx = world.actions.len();
        let name = match self.name {
            Some(n) => n,
            None => ActionName(self.id.0.clone()),
        };
        world.actions.push(
            Action {
                id: self.id,
                name,
                set: self.set,
                value: ActionValue::new(kind),
                sub_paths: Vec::new(),
                keyboard: KeyboardBindings::new(),
                mouse: MouseBindings::new(),
                gamepad: GamepadBindings::new(),
                default_keyboard: KeyboardBindings::new(),
                default_mouse: MouseBindings::new(),
                default_gamepad: GamepadBindings::new(),
            },
        );
        idx
    }
}

impl InputEngine {
    /// Register an action set under a name and hand back its index.
    pub fn register_set(&mut self, name: &str) -> (idx: usize)
        ensures
            idx == old(self).sets@.len(),
            final(self).sets@.len() == old(self).sets@.len() + 1,
            final(self).sets@[idx as int]@ == name@,
            forall|j: int|
                0 <= j < old(self).sets@.len() ==> #[trigger] final(self).sets@[j] == old(
                    self,
                ).sets@[j],
            final(self).actions == old(self).actions,
            final(self).paths == old(self).paths,
            final(self).rebind == old(self).rebind,
            old(self).wf() ==> final(self).wf(),
    {
        let idx = self.sets.len();
        self.sets.push(name.to_owned());
        idx
    }

    /// Install keyboard bindings on an action and snapshot them as that
    /// action's registered default.
    pub fn attach_keyboard_bindings(&mut self, action: usize, bindings: KeyboardBindings)
        requires
            action < old(self).actions@.len(),
        ensures
            final(self).actions@.len() == old(self).actions@.len(),
            forall|k: int|
                0 <= k < old(self).actions@.len() && k != action as int
                    ==> #[trigger] final(self).actions@[k] == old(self).actions@[k],
            final(self).actions@[action as int].keyboard.bindings@ == bindings.bindings@,
            final(self).actions@[action as int].default_keyboard.bindings@ == bindings.bindings@,
            final(self).actions@[action as int].mouse == old(self).actions@[action as int].mouse,
            final(self).actions@[action as int].gamepad == old(
                self,
            ).actions@[action as int].gamepad,
            final(self).actions@[action as int].value == old(self).actions@[action as int].value,
            final(self).actions@[action as int].sub_paths == old(
                self,
            ).actions@[action as int].sub_paths,
            final(self).paths == old(self).paths,
            final(self).sets == old(self).sets,
            final(self).rebind == old(self).rebind,
            old(self).wf() ==> final(self).wf(),
    {
        let snapshot = KeyboardBindings { bindings: copy_discretes(&bindings.bindings) };
        set_keyboard(&mut self.actions[action], bindings, snapshot);
    }

    /// Install mouse bindings on an action and snapshot them as that
    /// action's registered default.
    pub fn attach_mouse_bindings(&mut self, action: usize, bindings: MouseBindings)
        requires
            action < old(self).actions@.len(),
        ensures
            final(self).actions@.len() == old(self).actions@.len(),
            forall|k: int|
                0 <= k < old(self).actions@.len() && k != action as int
                    ==> #[trigger] final(self).actions@[k] == old(self).actions@[k],
            final(self).actions@[action as int].mouse.buttons@ == bindings.buttons@,
            final(self).actions@[action as int].mouse.movement == bindings.movement,
            final(self).actions@[action as int].default_mouse.buttons@ == bindings.buttons@,
            final(self).actions@[action as int].default_mouse.movement == bindings.movement,
            final(self).actions@[action as int].keyboard == old(
                self,
            ).actions@[action as int].keyboard,
            final(self).actions@[action as int].gamepad == old(
                self,
            ).actions@[action as int].gamepad,
            final(self).actions@[action as int].value == old(self).actions@[action as int].value,
            final(self).actions@[action as int].sub_paths == old(
                self,
            ).actions@[action as int].sub_paths,
            final(self).paths == old(self).paths,
            final(self).sets == old(self).sets,
            final(self).rebind == old(self).rebind,
            old(self).wf() ==> final(self).wf(),
    {
        let snapshot = MouseBindings {
            buttons: crate::mouse::copy_mouse_buttons(&bindings.buttons),
            movement: bindings.movement,
        };
        set_mouse(&mut self.actions[action], bindings, snapshot);
    }

    /// Install gamepad bindings on an action and snapshot them as that
    /// action's registered default.
    pub fn attach_gamepad_bindings(&mut self, action: usize, bindings: GamepadBindings)
        requires
            action < old(self).actions@.len(),
        ensures
            final(self).actions@.len() == old(self).actions@.len(),
            forall|k: int|
                0 <= k < old(self).actions@.len() && k != action as int
                    ==> #[trigger] final(self).actions@[k] == old(self).actions@[k],
            final(self).actions@[action as int].gamepad.bindings@ == bindings.bindings@,
            final(self).actions@[action as int].default_gamepad.bindings@ == bindings.bindings@,
            final(self).actions@[action as int].keyboard == old(
                self,
            ).actions@[action as int].keyboard,
            final(self).actions@[action as int].mouse == old(self).actions@[action as int].mouse,
            final(self).actions@[action as int].value == old(self).actions@[action as int].value,
            final(self).actions@[action as int].sub_paths == old(
                self,
            ).actions@[action as int].sub_paths,
            final(self).paths == old(self).paths,
            final(self).sets == old(self).sets,
            final(self).rebind == old(self).rebind,
            old(self).wf() ==> final(self).wf(),
    {
        let snapshot = GamepadBindings { bindings: copy_discretes(&bindings.bindings) };
        set_gamepad(&mut self.actions[action], bindings, snapshot);
    }

    /// Create a subaction path entity for an action from its raw string,
    /// resolving its device tag once, and hand back its path id.  An
    /// unresolvable string still creates the path; it stays untagged and
    /// never receives contributions.
    pub fn request_subaction_path(&mut self, action: usize, path: &str) -> (id: usize)
        requires
            action < old(self).actions@.len(),
            old(self).wf(),
        ensures
            final(self).wf(),
            id == old(self).paths@.len(),
            final(self).paths@.len() == old(self).paths@.len() + 1,
            forall|j: int|
                0 <= j < old(self).paths@.len() ==> #[trigger] final(self).paths@[j] == old(
                    self,
                ).paths@[j],
            final(self).paths@[id as int].raw@ == path@,
            final(self).paths@[id as int].tag == crate::paths::spec_resolve(path@),
            final(self).actions@.len() == old(self).actions@.len(),
            forall|k: int|
                0 <= k < old(self).actions@.len() && k != action as int
                    ==> #[trigger] final(self).actions@[k] == old(self).actions@[k],
            final(self).actions@[action as int].sub_paths@ == old(
                self,
            ).actions@[action as int].sub_paths@.push(id),
            final(self).actions@[action as int].value == old(self).actions@[action as int].value,
            final(self).actions@[action as int].keyboard == old(
                self,
            ).actions@[action as int].keyboard,
            final(self).actions@[action as int].mouse == old(self).actions@[action as int].mouse,
            final(self).actions@[action as int].gamepad == old(
                self,
            ).actions@[action as int].gamepad,
            final(self).sets == old(self).sets,
            final(self).rebind == old(self).rebind,
    {
        let id = self.paths.len();
        self.paths.push(SubactionPath::new(path));
        add_sub_path(&mut self.actions[action], id);
        proof {
            let np = final(self).paths@.len() as int;
            assert forall|k: int|
                0 <= k < final(self).actions@.len() implies (#[trigger] final(self).actions@[k]).wf(
                np,
            ) by {
                let a_old = old(self).actions@[k];
                assert(a_old.wf(old(self).paths@.len() as int));
                if k == action as int {
                    let sp = final(self).actions@[k].sub_paths@;
                    assert(sp == a_old.sub_paths@.push(id));
                    assert forall|i: int| 0 <= i < sp.len() implies (#[trigger] sp[i]) < np by {
                        if i < a_old.sub_paths@.len() {
                            assert(sp[i] == a_old.sub_paths@[i]);
                        }
                    }
                    assert forall|i: int, j: int| 0 <= i < j < sp.len() implies sp[i] != sp[j] by {
                        if j < a_old.sub_paths@.len() {
                            assert(sp[i] == a_old.sub_paths@[i] && sp[j] == a_old.sub_paths@[j]);
                        } else {
                            assert(sp[j] == id);
                            assert(sp[i] == a_old.sub_paths@[i]);
                            assert(a_old.sub_paths@[i] < old(self).paths@.len());
                        }
                    }
                }
            }
        }
        id
    }

    /// How many actions are registered.
    pub fn action_count(&self) -> (n: usize)
        ensures
            n == self.actions@.len(),
    {
        self.actions.len()
    }

    /// Read a boolean action's total value; nothing when the index names no
    /// action or the action is not boolean.
    pub fn bool_value(&self, action: usize) -> (r: Option<bool>)
        ensures
            r == (if action < self.actions@.len() {
                match self.actions@[action as int].value {
                    ActionValue::Bool(v) => Some(v.any),
                    _ => None,
                }
            } else {
                None
            }),
    {
        if action < self.actions.len() {
            match &self.actions[action].value {
                ActionValue::Bool(v) => Some(v.any),
                _ => None,
            }
        } else {
            None
        }
    }

    /// Read a scalar action's total value; nothing when the index names no
    /// action or the action is not scalar.
    pub fn scalar_value(&self, action: usize) -> (r: Option<i128>)
        ensures
            r == (if action < self.actions@.len() {
                match self.actions@[action as int].value {
                    ActionValue::Scalar(v) => Some(v.total),
                    _ => None,
                }
            } else {
                None
            }),
    {
        if action < self.actions.len() {
            match &self.actions[action].value {
                ActionValue::Scalar(v) => Some(v.total),
                _ => None,
            }
        } else {
            None
        }
    }

    /// Read a 2D action's total value; nothing when the index names no
    /// action or the action is not 2D.
    pub fn vec2_value(&self, action: usize) -> (r: Option<(i128, i128)>)
        ensures
            r == (if action < self.actions@.len() {
                match self.actions@[action as int].value {
                    ActionValue::Vec2(v) => Some((v.x, v.y)),
                    _ => None,
                }
            } else {
                None
            }),
    {
        if action < self.actions.len() {
            match &self.actions[action].value {
                ActionValue::Vec2(v) => Some((v.x, v.y)),
                _ => None,
            }
        } else {
            None
        }
    }

    /// Read a boolean action's breakdown value for one path id.
    pub fn bool_value_at_path(&self, action: usize, path: usize) -> (r: Option<bool>)
        requires
            self.wf(),
        ensures
            r == (if action < self.actions@.len() {
                match self.actions@[action as int].value {
                    ActionValue::Bool(v) => Some(crate::values::bool_at(v, path)),
                    _ => None,
                }
            } else {
                None
            }),
    {
        if action < self.actions.len() {
            match &self.actions[action].value {
                ActionValue::Bool(v) => Some(v.value_at_path(path)),
                _ => None,
            }
        } else {
            None
        }
    }

    /// Read a scalar action's breakdown value for one path id.
    pub fn scalar_value_at_path(&self, action: usize, path: usize) -> (r: Option<i128>)
        requires
            self.wf(),
        ensures
            r matches Some(x) ==> (action < self.actions@.len()
                && (self.actions@[action as int].value matches ActionValue::Scalar(v) && x as int
                == crate::values::scalar_at(v, path))),
            r is None ==> (action >= self.actions@.len() || !(self.actions@[action as int].value
                is Scalar)),
    {
        if action < self.actions.len() {
            match &self.actions[action].value {
                ActionValue::Scalar(v) => Some(v.value_at_path(path)),
                _ => None,
            }
        } else {
            None
        }
    }

    /// Read a 2D action's breakdown value for one path id.
    pub fn vec2_value_at_path(&self, action: usize, path: usize) -> (r: Option<(i128, i128)>)
        requires
            self.wf(),
        ensures
            r matches Some(x) ==> (action < self.actions@.len()
                && (self.actions@[action as int].value matches ActionValue::Vec2(v) && (
            x.0 as int,
            x.1 as int,
            ) == crate::values::vec2_at(v, path))),
            r is None ==> (action >= self.actions@.len() || !(self.actions@[action as int].value
                is Vec2)),
    {
        if action < self.actions.len() {
            match &self.actions[action].value {
                ActionValue::Vec2(v) => Some(v.value_at_path(path)),
                _ => None,
            }
        } else {
            None
        }
    }
}

/// Path isolation: over one tick, a path tagged for mouse buttons receives
/// exactly the mouse discrete contribution and nothing from motion; a path
/// tagged for delta motion receives exactly the motion contribution and
/// nothing discrete; a path tagged all-of-mouse receives both.
pub proof fn lemma_path_isolation(
    a: Action,
    paths: Seq<SubactionPath>,
    input: TickInput,
    id: usize,
)
    requires
        a.sub_paths@.contains(id),
        id < paths.len(),
    ensures
        paths[id as int].tag == Some(
            crate::paths::PathTag::Mouse(crate::mouse::MouseSubactionPath::Button),
        ) ==> {
            &&& synced_bool_at(a, paths, input, id) == dev_btn_any(a, DeviceClass::Mouse, input)
            &&& synced_scalar_at(a, paths, input, id) == dev_btn_x(a, DeviceClass::Mouse, input)
                + dev_btn_y(a, DeviceClass::Mouse, input)
            &&& synced_vec2_at(a, paths, input, id) == (
                dev_btn_x(a, DeviceClass::Mouse, input),
                dev_btn_y(a, DeviceClass::Mouse, input),
            )
        },
        paths[id as int].tag == Some(
            crate::paths::PathTag::Mouse(crate::mouse::MouseSubactionPath::DeltaMotion),
        ) ==> {
            &&& synced_bool_at(a, paths, input, id) == mot_nonzero(
                action_motion(a, DeviceClass::Mouse, input),
            )
            &&& synced_scalar_at(a, paths, input, id) == mot_x(
                action_motion(a, DeviceClass::Mouse, input),
            )
            &&& synced_vec2_at(a, paths, input, id) == (
                mot_x(action_motion(a, DeviceClass::Mouse, input)),
                mot_y(action_motion(a, DeviceClass::Mouse, input)),
            )
        },
        paths[id as int].tag == Some(
            crate::paths::PathTag::Mouse(crate::mouse::MouseSubactionPath::All),
        ) ==> {
            &&& synced_bool_at(a, paths, input, id) == (dev_btn_any(a, DeviceClass::Mouse, input)
                || mot_nonzero(action_motion(a, DeviceClass::Mouse, input)))
            &&& synced_scalar_at(a, paths, input, id) == dev_btn_x(a, DeviceClass::Mouse, input)
                + dev_btn_y(a, DeviceClass::Mouse, input) + mot_x(
                action_motion(a, DeviceClass::Mouse, input),
            )
            &&& synced_vec2_at(a, paths, input, id) == (
                dev_btn_x(a, DeviceClass::Mouse, input) + mot_x(
                    action_motion(a, DeviceClass::Mouse, input),
                ),
                dev_btn_y(a, DeviceClass::Mouse, input) + mot_y(
                    action_motion(a, DeviceClass::Mouse, input),
                ),
            )
        },
{
}


/// The OR invariant over a whole tick: a boolean action's synchronized
/// total is true exactly when at least one discrete binding of some device
/// class has its trigger condition hold this tick, or mouse motion was
/// seen; with no binding firing and no motion it is false.
pub proof fn lemma_or_invariant_tick(a: Action, input: TickInput)
    ensures
        synced_bool_any(a, input) <==> {
            ||| exists|k: int|
                0 <= k < action_discretes(a, DeviceClass::Keyboard).len() && crate::behavior_fires(
                    (#[trigger] action_discretes(a, DeviceClass::Keyboard)[k]).behavior,
                    crate::sync::state_for(
                        device_states(input, DeviceClass::Keyboard),
                        action_discretes(a, DeviceClass::Keyboard)[k].source,
                    ),
                )
            ||| exists|k: int|
                0 <= k < action_discretes(a, DeviceClass::Mouse).len() && crate::behavior_fires(
                    (#[trigger] action_discretes(a, DeviceClass::Mouse)[k]).behavior,
                    crate::sync::state_for(
                        device_states(input, DeviceClass::Mouse),
                        action_discretes(a, DeviceClass::Mouse)[k].source,
                    ),
                )
            ||| exists|k: int|
                0 <= k < action_discretes(a, DeviceClass::Gamepad).len() && crate::behavior_fires(
                    (#[trigger] action_discretes(a, DeviceClass::Gamepad)[k]).behavior,
                    crate::sync::state_for(
                        device_states(input, DeviceClass::Gamepad),
                        action_discretes(a, DeviceClass::Gamepad)[k].source,
                    ),
                )
            ||| mot_nonzero(action_motion(a, DeviceClass::Mouse, input))
        },
{
    crate::sync::lemma_or_invariant(
        action_discretes(a, DeviceClass::Keyboard),
        device_states(input, DeviceClass::Keyboard),
    );
    crate::sync::lemma_or_invariant(
        action_discretes(a, DeviceClass::Mouse),
        device_states(input, DeviceClass::Mouse),
    );
    crate::sync::lemma_or_invariant(
        action_discretes(a, DeviceClass::Gamepad),
        device_states(input, DeviceClass::Gamepad),
    );
}

} // verus!
