use schminput::engine::{ActionHeaderBuilder, InputEngine};
use schminput::keyboard::KeyboardBindings;
use schminput::gamepad::GamepadSubactionPath;
use schminput::keyboard::KeyboardSubactionPath;
use schminput::mouse::MouseSubactionPath;
use schminput::paths::{resolve_path, PathTag};
use schminput::rebind::{InputEvent, RebindState};
use schminput::sync::{DiscreteBinding, TickInput};
use schminput::values::ActionKind;
use schminput::{ButtonInputBeheavior, ButtonState, DeviceClass};

const KEY_W: u32 = 87;
const KEY_S: u32 = 83;
const KEY_K: u32 = 75;

fn held() -> ButtonState {
    ButtonState {
        pressed: true,
        just_pressed: false,
        just_released: false,
    }
}

fn two_actions(eng: &mut InputEngine) -> (usize, usize) {
    let a0 = ActionHeaderBuilder::new("first").build(eng, ActionKind::Bool);
    let a1 = ActionHeaderBuilder::new("second").build(eng, ActionKind::Bool);
    let kb0 = KeyboardBindings::new()
        .add_binding(DiscreteBinding::new(KEY_W))
        .add_binding(DiscreteBinding::new(KEY_S).just_pressed());
    eng.attach_keyboard_bindings(a0, kb0);
    let kb1 = KeyboardBindings::new().add_binding(DiscreteBinding::new(KEY_S));
    eng.attach_keyboard_bindings(a1, kb1);
    (a0, a1)
}

#[test]
fn rebind_commit_replaces_slot_and_returns_to_idle() {
    let mut eng = InputEngine::new();
    let (a0, a1) = two_actions(&mut eng);
    let before_a1 = eng.actions[a1].keyboard.bindings.clone();

    eng.request_rebind(a0, Some(0), DeviceClass::Keyboard);
    assert_eq!(
        eng.rebind,
        RebindState::WaitingForInput {
            action: a0,
            slot: Some(0),
            device: DeviceClass::Keyboard
        }
    );

    // An event of another device class is ignored: still waiting.
    eng.observe_input_event(InputEvent {
        device: DeviceClass::Gamepad,
        source: 9,
    });
    assert!(matches!(eng.rebind, RebindState::WaitingForInput { .. }));

    // The first matching event commits into slot 0 and disarms.
    eng.observe_input_event(InputEvent {
        device: DeviceClass::Keyboard,
        source: KEY_K,
    });
    assert_eq!(eng.rebind, RebindState::Idle);
    assert_eq!(eng.actions[a0].keyboard.bindings[0].source, KEY_K);
    assert_eq!(
        eng.actions[a0].keyboard.bindings[0].behavior,
        ButtonInputBeheavior::Pressed
    );
    // The other slot and the other action are untouched.
    assert_eq!(eng.actions[a0].keyboard.bindings[1].source, KEY_S);
    assert_eq!(eng.actions[a1].keyboard.bindings, before_a1);

    // The new binding takes part from the following tick on.
    let mut input = TickInput::empty();
    input.keyboard = vec![(KEY_K, held())];
    eng.tick(&input);
    assert_eq!(eng.bool_value(a0), Some(true));
    assert_eq!(eng.bool_value(a1), Some(false));
}

#[test]
fn rebind_append_when_slot_is_absent() {
    let mut eng = InputEngine::new();
    let (a0, _) = two_actions(&mut eng);

    eng.request_rebind(a0, None, DeviceClass::Keyboard);
    eng.observe_input_event(InputEvent {
        device: DeviceClass::Keyboard,
        source: 70,
    });
    assert_eq!(eng.actions[a0].keyboard.bindings.len(), 3);
    assert_eq!(eng.actions[a0].keyboard.bindings[2].source, 70);

    eng.request_rebind(a0, Some(99), DeviceClass::Keyboard);
    eng.observe_input_event(InputEvent {
        device: DeviceClass::Keyboard,
        source: 71,
    });
    assert_eq!(eng.actions[a0].keyboard.bindings.len(), 4);
    assert_eq!(eng.actions[a0].keyboard.bindings[3].source, 71);
}

#[test]
fn rebind_newer_request_replaces_pending_one() {
    let mut eng = InputEngine::new();
    let (a0, a1) = two_actions(&mut eng);

    eng.request_rebind(a0, Some(0), DeviceClass::Keyboard);
    eng.request_rebind(a1, Some(0), DeviceClass::Keyboard);
    eng.observe_input_event(InputEvent {
        device: DeviceClass::Keyboard,
        source: KEY_K,
    });
    // Only the newer target was rebound.
    assert_eq!(eng.actions[a0].keyboard.bindings[0].source, KEY_W);
    assert_eq!(eng.actions[a1].keyboard.bindings[0].source, KEY_K);
}

#[test]
fn rebind_for_missing_action_disarms_without_effect() {
    let mut eng = InputEngine::new();
    let (a0, _) = two_actions(&mut eng);
    let before = eng.actions[a0].keyboard.bindings.clone();

    eng.request_rebind(42, Some(0), DeviceClass::Keyboard);
    eng.observe_input_event(InputEvent {
        device: DeviceClass::Keyboard,
        source: KEY_K,
    });
    assert_eq!(eng.rebind, RebindState::Idle);
    assert_eq!(eng.actions[a0].keyboard.bindings, before);
}

#[test]
fn events_while_idle_change_nothing() {
    let mut eng = InputEngine::new();
    let (a0, _) = two_actions(&mut eng);
    let before = eng.actions[a0].keyboard.bindings.clone();
    eng.observe_input_event(InputEvent {
        device: DeviceClass::Keyboard,
        source: KEY_K,
    });
    assert_eq!(eng.rebind, RebindState::Idle);
    assert_eq!(eng.actions[a0].keyboard.bindings, before);
}

#[test]
fn reset_to_default_restores_registered_snapshot() {
    let mut eng = InputEngine::new();
    let (a0, _) = two_actions(&mut eng);
    let registered = eng.actions[a0].keyboard.bindings.clone();

    eng.request_rebind(a0, Some(0), DeviceClass::Keyboard);
    eng.observe_input_event(InputEvent {
        device: DeviceClass::Keyboard,
        source: KEY_K,
    });
    assert_ne!(eng.actions[a0].keyboard.bindings, registered);

    eng.reset_to_default(a0);
    assert_eq!(eng.actions[a0].keyboard.bindings, registered);
}

#[test]
fn reset_to_default_twice_equals_once() {
    let mut eng = InputEngine::new();
    let (a0, a1) = two_actions(&mut eng);
    eng.request_rebind(a0, Some(1), DeviceClass::Keyboard);
    eng.observe_input_event(InputEvent {
        device: DeviceClass::Keyboard,
        source: 99,
    });

    eng.reset_all_to_default();
    let once_a0 = eng.actions[a0].keyboard.bindings.clone();
    let once_a1 = eng.actions[a1].keyboard.bindings.clone();
    eng.reset_all_to_default();
    assert_eq!(eng.actions[a0].keyboard.bindings, once_a0);
    assert_eq!(eng.actions[a1].keyboard.bindings, once_a1);
}

#[test]
fn path_resolution_table() {
    assert_eq!(
        resolve_path("/mouse"),
        Some(PathTag::Mouse(MouseSubactionPath::All))
    );
    assert_eq!(
        resolve_path("/mouse/*"),
        Some(PathTag::Mouse(MouseSubactionPath::All))
    );
    assert_eq!(
        resolve_path("/mouse/motion"),
        Some(PathTag::Mouse(MouseSubactionPath::DeltaMotion))
    );
    assert_eq!(
        resolve_path("/mouse/button"),
        Some(PathTag::Mouse(MouseSubactionPath::Button))
    );
    assert_eq!(
        resolve_path("/keyboard"),
        Some(PathTag::Keyboard(KeyboardSubactionPath::All))
    );
    assert_eq!(
        resolve_path("/keyboard/button"),
        Some(PathTag::Keyboard(KeyboardSubactionPath::Button))
    );
    assert_eq!(
        resolve_path("/gamepad/*"),
        Some(PathTag::Gamepad(GamepadSubactionPath::All))
    );
    assert_eq!(
        resolve_path("/gamepad/button"),
        Some(PathTag::Gamepad(GamepadSubactionPath::Button))
    );
    assert_eq!(resolve_path("/mouse/scroll"), None);
    assert_eq!(resolve_path("/mousetrap"), None);
    assert_eq!(resolve_path("mouse"), None);
    assert_eq!(resolve_path(""), None);
}

#[test]
fn builder_defaults_name_to_id() {
    let mut eng = InputEngine::new();
    let a = ActionHeaderBuilder::new("walk").build(&mut eng, ActionKind::Scalar);
    assert_eq!(eng.actions[a].id.0, "walk");
    assert_eq!(eng.actions[a].name.0, "walk");
    let b = ActionHeaderBuilder::new("run")
        .with_name("Run Fast")
        .build(&mut eng, ActionKind::Scalar);
    assert_eq!(eng.actions[b].name.0, "Run Fast");
    assert_eq!(eng.action_count(), 2);
}
