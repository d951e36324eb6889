//! Keyboard bindings: discrete key bindings in the shared discrete form.

use crate::sync::DiscreteBinding;
use vstd::prelude::*;

verus! {

/// The keyboard-scoped tags a resolved path can carry.
#[derive(Clone, Copy, Debug, PartialEq, Eq, Structural)]
pub enum KeyboardSubactionPath {
    Button,
    All,
}

/// Every keyboard binding attached to one action.
#[derive(Clone, Debug)]
pub struct KeyboardBindings {
    /// The key bindings, all evaluated and summed every tick.
    pub bindings: Vec<DiscreteBinding>,
}

impl KeyboardBindings {
    /// No bindings at all.
    pub fn new() -> (r: KeyboardBindings)
        ensures
            r.bindings@ == Seq::<DiscreteBinding>::empty(),
    {
        KeyboardBindings { bindings: Vec::new() }
    }

    /// These bindings with one more key binding appended.
    pub fn add_binding(self, binding: DiscreteBinding) -> (r: KeyboardBindings)
        ensures
            r.bindings@ == self.bindings@.push(binding),
    {
        let mut r = self;
        r.bindings.push(binding);
        r
    }
}


impl Default for KeyboardBindings {
    /// No bindings at all.
    fn default() -> (r: KeyboardBindings)
        ensures
            r.bindings@ == Seq::<DiscreteBinding>::empty(),
    {
        KeyboardBindings::new()
    }
}

/// The keyboard evaluator: fold every action's keyboard bindings into its
/// accumulators for this tick.
pub fn sync_actions(
    actions: &mut Vec<crate::engine::Action>,
    paths: &Vec<crate::paths::SubactionPath>,
    input: &crate::sync::TickInput,
)
    requires
        forall|k: int|
            0 <= k < old(actions)@.len() ==> (#[trigger] old(actions)@[k]).wf(paths@.len() as int),
        forall|k: int|
            0 <= k < old(actions)@.len() ==> crate::sync::value_bounded(
                (#[trigger] old(actions)@[k]).value,
                crate::sync::VALUE_LIMIT as int,
            ),
    ensures
        final(actions)@.len() == old(actions)@.len(),
        forall|k: int|
            0 <= k < old(actions)@.len() ==> crate::engine::device_pass_applied(
                old(actions)@[k],
                #[trigger] final(actions)@[k],
                paths@,
                crate::DeviceClass::Keyboard,
                *input,
            ),
        forall|k: int|
            0 <= k < old(actions)@.len() ==> (#[trigger] final(actions)@[k]).wf(
                paths@.len() as int,
            ),
{
    crate::engine::sync_device(actions, paths, input, crate::DeviceClass::Keyboard)
}

} // verus!
