//! The runtime-rebinding state machine.
//!
//! At most one rebind is pending at a time.  A request suspends nothing: it
//! only arms the machine, and the first raw input event of the matching
//! device class observed afterwards commits a replacement binding into the
//! requested slot and disarms the machine.  Events of other device classes
//! are ignored.  Binding mutation happens between ticks, so it is never
//! observed mid-tick.  A separate bulk operation restores an action's whole
//! binding set to the snapshot taken at registration.

use crate::engine::{Action, InputEngine};
use crate::mouse::MouseButtonBinding;
use crate::sync::DiscreteBinding;
use crate::{ButtonInputBeheavior, DeviceClass, InputAxis, InputAxisDirection};
use vstd::prelude::*;

verus! {

/// The state of the rebinding machine: idle, or waiting for the next input
/// of one device class to rebind one slot of one action.
#[derive(Clone, Copy, Debug, PartialEq, Eq, Structural)]
pub enum RebindState {
    Idle,
    WaitingForInput {
        /// The index of the action whose binding is replaced.
        action: usize,
        /// The binding slot to replace; nothing appends a new binding.
        slot: Option<usize>,
        /// The device class whose next input commits the rebind.
        device: DeviceClass,
    },
}

/// One raw physical input event, as the host reports it to the machine.
#[derive(Clone, Copy, Debug, PartialEq, Eq, Structural)]
pub struct InputEvent {
    /// The device class the event came from.
    pub device: DeviceClass,
    /// The device-specific code of the source that produced the event.
    pub source: u32,
}

/// The discrete binding a committed rebind writes: the captured source with
/// default shape (+Y, positive, `Pressed`, no time scaling).
pub open spec fn default_rebound_discrete(source: u32) -> DiscreteBinding {
    DiscreteBinding {
        source,
        axis: InputAxis::Y,
        axis_dir: InputAxisDirection::Positive,
        premultipy_delta_time: false,
        behavior: ButtonInputBeheavior::Pressed,
    }
}

/// The mouse button binding a committed rebind writes.
pub open spec fn default_rebound_mouse(source: u32) -> MouseButtonBinding {
    MouseButtonBinding {
        axis: InputAxis::Y,
        axis_dir: InputAxisDirection::Positive,
        button: source,
        premultipy_delta_time: false,
        behavior: ButtonInputBeheavior::Pressed,
    }
}

/// A binding list after a rebind commit: the slot is overwritten when it
/// names an existing position, otherwise the binding is appended.
pub open spec fn rebound_list<T>(list: Seq<T>, slot: Option<usize>, b: T) -> Seq<T> {
    match slot {
        Some(i) => if i < list.len() {
            list.update(i as int, b)
        } else {
            list.push(b)
        },
        None => list.push(b),
    }
}

/// How a commit for `event` transforms the targeted action: exactly the
/// binding list of the event's device class is rebound, everything else is
/// kept.
pub open spec fn rebind_committed(
    a_old: Action,
    a_new: Action,
    slot: Option<usize>,
    event: InputEvent,
) -> bool {
    &&& a_new.id.0@ == a_old.id.0@
    &&& a_new.name.0@ == a_old.name.0@
    &&& a_new.set == a_old.set
    &&& a_new.value == a_old.value
    &&& a_new.sub_paths@ == a_old.sub_paths@
    &&& a_new.default_keyboard.bindings@ == a_old.default_keyboard.bindings@
    &&& a_new.default_mouse.buttons@ == a_old.default_mouse.buttons@
    &&& a_new.default_mouse.movement == a_old.default_mouse.movement
    &&& a_new.default_gamepad.bindings@ == a_old.default_gamepad.bindings@
    &&& match event.device {
        DeviceClass::Keyboard => {
            &&& a_new.keyboard.bindings@ == rebound_list(
                a_old.keyboard.bindings@,
                slot,
                default_rebound_discrete(event.source),
            )
            &&& a_new.mouse.buttons@ == a_old.mouse.buttons@
            &&& a_new.mouse.movement == a_old.mouse.movement
            &&& a_new.gamepad.bindings@ == a_old.gamepad.bindings@
        },
        DeviceClass::Mouse => {
            &&& a_new.keyboard.bindings@ == a_old.keyboard.bindings@
            &&& a_new.mouse.buttons@ == rebound_list(
                a_old.mouse.buttons@,
                slot,
                default_rebound_mouse(event.source),
            )
            &&& a_new.mouse.movement == a_old.mouse.movement
            &&& a_new.gamepad.bindings@ == a_old.gamepad.bindings@
        },
        DeviceClass::Gamepad => {
            &&& a_new.keyboard.bindings@ == a_old.keyboard.bindings@
            &&& a_new.mouse.buttons@ == a_old.mouse.buttons@
            &&& a_new.mouse.movement == a_old.mouse.movement
            &&& a_new.gamepad.bindings@ == rebound_list(
                a_old.gamepad.bindings@,
                slot,
                default_rebound_discrete(event.source),
            )
        },
    }
}

/// Overwrite `list[slot]` with `b`, or append `b` when the slot names no
/// existing position.
fn rebind_discrete_list(list: &mut Vec<DiscreteBinding>, slot: Option<usize>, b: DiscreteBinding)
    ensures
        final(list)@ == rebound_list(old(list)@, slot, b),
{
    match slot {
        Some(i) => {
            if i < list.len() {
                list[i] = b;
            } else {
                list.push(b);
            }
        },
        None => list.push(b),
    }
}

/// Overwrite `list[slot]` with `b`, or append `b` when the slot names no
/// existing position.
fn rebind_mouse_list(list: &mut Vec<MouseButtonBinding>, slot: Option<usize>, b: MouseButtonBinding)
    ensures
        final(list)@ == rebound_list(old(list)@, slot, b),
{
    match slot {
        Some(i) => {
            if i < list.len() {
                list[i] = b;
            } else {
                list.push(b);
            }
        },
        None => list.push(b),
    }
}

/// Commit a captured input into one action's binding list.
fn commit_rebind(a: &mut Action, slot: Option<usize>, event: InputEvent)
    ensures
        rebind_committed(*old(a), *final(a), slot, event),
{
    match event.device {
        DeviceClass::Keyboard => {
            rebind_discrete_list(
                &mut a.keyboard.bindings,
                slot,
                DiscreteBinding {
                    source: event.source,
                    axis: InputAxis::Y,
                    axis_dir: InputAxisDirection::Positive,
                    premultipy_delta_time: false,
                    behavior: ButtonInputBeheavior::Pressed,
                },
            );
        },
        DeviceClass::Mouse => {
            rebind_mouse_list(
                &mut a.mouse.buttons,
                slot,
                MouseButtonBinding {
                    axis: InputAxis::Y,
                    axis_dir: InputAxisDirection::Positive,
                    button: event.source,
                    premultipy_delta_time: false,
                    behavior: ButtonInputBeheavior::Pressed,
                },
            );
        },
        DeviceClass::Gamepad => {
            rebind_discrete_list(
                &mut a.gamepad.bindings,
                slot,
                DiscreteBinding {
                    source: event.source,
                    axis: InputAxis::Y,
                    axis_dir: InputAxisDirection::Positive,
                    premultipy_delta_time: false,
                    behavior: ButtonInputBeheavior::Pressed,
                },
            );
        },
    }
}

impl InputEngine {
    /// Arm the rebinding machine for one action, slot and device class.  A
    /// request made while another is pending silently replaces it.
    pub fn request_rebind(&mut self, action: usize, slot: Option<usize>, device: DeviceClass)
        ensures
            final(self).rebind == (RebindState::WaitingForInput { action, slot, device }),
            final(self).actions == old(self).actions,
            final(self).paths == old(self).paths,
            final(self).sets == old(self).sets,
            old(self).wf() ==> final(self).wf(),
    {
        self.rebind = RebindState::WaitingForInput { action, slot, device };
    }

    /// Feed one raw input event to the rebinding machine.  While waiting,
    /// the first event of the matching device class commits the rebind into
    /// the targeted action and slot and returns the machine to idle; events
    /// of other device classes leave everything unchanged, as does any event
    /// while idle.  A pending target that names no existing action commits
    /// nothing but still disarms the machine.
    pub fn observe_input_event(&mut self, event: InputEvent)
        ensures
            final(self).paths == old(self).paths,
            final(self).sets == old(self).sets,
            final(self).actions@.len() == old(self).actions@.len(),
            old(self).wf() ==> final(self).wf(),
            match old(self).rebind {
                RebindState::Idle => final(self).rebind == RebindState::Idle && final(self).actions
                    == old(self).actions,
                RebindState::WaitingForInput { action, slot, device } => {
                    if event.device == device {
                        &&& final(self).rebind == RebindState::Idle
                        &&& forall|k: int|
                            0 <= k < old(self).actions@.len() && k != action as int
                                ==> #[trigger] final(self).actions@[k] == old(self).actions@[k]
                        &&& action < old(self).actions@.len() ==> rebind_committed(
                            old(self).actions@[action as int],
                            final(self).actions@[action as int],
                            slot,
                            event,
                        )
                    } else {
                        final(self).rebind == old(self).rebind && final(self).actions == old(
                            self,
                        ).actions
                    }
                },
            },
    {
        match self.rebind {
            RebindState::Idle => {},
            RebindState::WaitingForInput { action, slot, device } => {
                if event.device == device {
                    if action < self.actions.len() {
                        commit_rebind(&mut self.actions[action], slot, event);
                    }
                    self.rebind = RebindState::Idle;
                }
            },
        }
    }
}


/// How reset-to-default transforms one action: every binding list of every
/// device class is overwritten, unconditionally, with the snapshot taken at
/// registration; identity, accumulator, requested paths and the snapshot
/// itself are kept.
pub open spec fn reset_applied(a_old: Action, a_new: Action) -> bool {
    &&& a_new.id.0@ == a_old.id.0@
    &&& a_new.name.0@ == a_old.name.0@
    &&& a_new.set == a_old.set
    &&& a_new.value == a_old.value
    &&& a_new.sub_paths@ == a_old.sub_paths@
    &&& a_new.keyboard.bindings@ == a_old.default_keyboard.bindings@
    &&& a_new.mouse.buttons@ == a_old.default_mouse.buttons@
    &&& a_new.mouse.movement == a_old.default_mouse.movement
    &&& a_new.gamepad.bindings@ == a_old.default_gamepad.bindings@
    &&& a_new.default_keyboard.bindings@ == a_old.default_keyboard.bindings@
    &&& a_new.default_mouse.buttons@ == a_old.default_mouse.buttons@
    &&& a_new.default_mouse.movement == a_old.default_mouse.movement
    &&& a_new.default_gamepad.bindings@ == a_old.default_gamepad.bindings@
}

/// Reset-to-default idempotence: resetting an already-reset action changes
/// nothing more — the binding set after two resets in a row equals the
/// binding set after one.
pub proof fn lemma_reset_to_default_idempotent(a: Action, once: Action, twice: Action)
    requires
        reset_applied(a, once),
        reset_applied(once, twice),
    ensures
        twice.keyboard.bindings@ == once.keyboard.bindings@,
        twice.mouse.buttons@ == once.mouse.buttons@,
        twice.mouse.movement == once.mouse.movement,
        twice.gamepad.bindings@ == once.gamepad.bindings@,
        twice.value == once.value,
        twice.sub_paths@ == once.sub_paths@,
{
}

/// Restore one action's binding set from its registration snapshot.
fn reset_action(a: &mut Action)
    ensures
        reset_applied(*old(a), *final(a)),
{
    let kb = crate::sync::copy_discretes(&a.default_keyboard.bindings);
    a.keyboard = crate::keyboard::KeyboardBindings { bindings: kb };
    let mb = crate::mouse::copy_mouse_buttons(&a.default_mouse.buttons);
    a.mouse = crate::mouse::MouseBindings { buttons: mb, movement: a.default_mouse.movement };
    let gb = crate::sync::copy_discretes(&a.default_gamepad.bindings);
    a.gamepad = crate::gamepad::GamepadBindings { bindings: gb };
}

impl InputEngine {
    /// Restore one action's entire binding set, across every device class,
    /// to the snapshot captured at registration, replacing any runtime
    /// edits.  Naming no existing action changes nothing.
    pub fn reset_to_default(&mut self, action: usize)
        ensures
            final(self).actions@.len() == old(self).actions@.len(),
            forall|k: int|
                0 <= k < old(self).actions@.len() && k != action as int
                    ==> #[trigger] final(self).actions@[k] == old(self).actions@[k],
            action < old(self).actions@.len() ==> reset_applied(
                old(self).actions@[action as int],
                final(self).actions@[action as int],
            ),
            action >= old(self).actions@.len() ==> final(self).actions == old(self).actions,
            final(self).paths == old(self).paths,
            final(self).sets == old(self).sets,
            final(self).rebind == old(self).rebind,
            old(self).wf() ==> final(self).wf(),
    {
        if action < self.actions.len() {
            reset_action(&mut self.actions[action]);
        }
    }

    /// Restore every action's binding set to its registration snapshot.
    pub fn reset_all_to_default(&mut self)
        ensures
            final(self).actions@.len() == old(self).actions@.len(),
            forall|k: int|
                0 <= k < old(self).actions@.len() ==> reset_applied(
                    old(self).actions@[k],
                    #[trigger] final(self).actions@[k],
                ),
            final(self).paths == old(self).paths,
            final(self).sets == old(self).sets,
            final(self).rebind == old(self).rebind,
            old(self).wf() ==> final(self).wf(),
    {
        let n = self.actions.len();
        let mut k: usize = 0;
        while k < n
            invariant
                n == self.actions@.len(),
                n == old(self).actions@.len(),
                k <= n,
                forall|j: int| k <= j < n ==> #[trigger] self.actions@[j] == old(self).actions@[j],
                forall|j: int|
                    0 <= j < k ==> reset_applied(old(self).actions@[j], #[trigger] self.actions@[j]),
                self.paths == old(self).paths,
                self.sets == old(self).sets,
                self.rebind == old(self).rebind,
            decreases n - k,
        {
            reset_action(&mut self.actions[k]);
            k += 1;
        }
    }
}

} // verus!
