use schminput::engine::{ActionHeaderBuilder, InputEngine};
use schminput::gamepad::GamepadBindings;
use schminput::keyboard::KeyboardBindings;
use schminput::mouse::{MouseBindings, MouseButtonBinding, MouseMotionType};
use schminput::sync::{DiscreteBinding, TickInput};
use schminput::values::ActionKind;
use schminput::{ButtonInputBeheavior, ButtonState, InputAxis, InputAxisDirection};

const KEY_W: u32 = 87;
const KEY_A: u32 = 65;
const KEY_S: u32 = 83;
const KEY_D: u32 = 68;

fn held() -> ButtonState {
    ButtonState {
        pressed: true,
        just_pressed: false,
        just_released: false,
    }
}

fn just_down() -> ButtonState {
    ButtonState {
        pressed: true,
        just_pressed: true,
        just_released: false,
    }
}

fn just_up() -> ButtonState {
    ButtonState {
        pressed: false,
        just_pressed: false,
        just_released: true,
    }
}

fn wasd_move(eng: &mut InputEngine) -> usize {
    let set = eng.register_set("core");
    let mv = ActionHeaderBuilder::new("move")
        .with_name("Move")
        .with_set(set)
        .build(eng, ActionKind::Vec2);
    let kb = KeyboardBindings::new()
        .add_binding(DiscreteBinding::new(KEY_W).y_axis().positive_axis_dir())
        .add_binding(DiscreteBinding::new(KEY_S).y_axis().negative_axis_dir())
        .add_binding(DiscreteBinding::new(KEY_A).x_axis().negative_axis_dir())
        .add_binding(DiscreteBinding::new(KEY_D).x_axis().positive_axis_dir());
    eng.attach_keyboard_bindings(mv, kb);
    mv
}

#[test]
fn wasd_hold_w_and_d_one_tick() {
    let mut eng = InputEngine::new();
    let mv = wasd_move(&mut eng);
    let mut input = TickInput::empty();
    input.keyboard = vec![(KEY_W, held()), (KEY_D, held())];
    eng.tick(&input);
    assert_eq!(eng.vec2_value(mv), Some((1, 1)));
    eng.tick(&TickInput::empty());
    assert_eq!(eng.vec2_value(mv), Some((0, 0)));
}

#[test]
fn wasd_opposing_keys_cancel() {
    let mut eng = InputEngine::new();
    let mv = wasd_move(&mut eng);
    let mut input = TickInput::empty();
    input.keyboard = vec![(KEY_W, held()), (KEY_S, held()), (KEY_A, held())];
    eng.tick(&input);
    assert_eq!(eng.vec2_value(mv), Some((-1, 0)));
}

#[test]
fn gamepad_just_pressed_fires_only_first_tick() {
    let south: u32 = 1;
    let mut eng = InputEngine::new();
    let jump = ActionHeaderBuilder::new("jump").build(&mut eng, ActionKind::Bool);
    let gp = GamepadBindings::new().add_binding(DiscreteBinding::new(south).just_pressed());
    eng.attach_gamepad_bindings(jump, gp);

    let mut first = TickInput::empty();
    first.gamepad = vec![(south, just_down())];
    eng.tick(&first);
    assert_eq!(eng.bool_value(jump), Some(true));

    let mut later = TickInput::empty();
    later.gamepad = vec![(south, held())];
    eng.tick(&later);
    assert_eq!(eng.bool_value(jump), Some(false));
    eng.tick(&later);
    assert_eq!(eng.bool_value(jump), Some(false));
}

#[test]
fn bool_or_across_bindings_and_devices() {
    let mut eng = InputEngine::new();
    let act = ActionHeaderBuilder::new("any").build(&mut eng, ActionKind::Bool);
    let kb = KeyboardBindings::new()
        .add_binding(DiscreteBinding::new(KEY_W).just_pressed())
        .add_binding(DiscreteBinding::new(KEY_S));
    eng.attach_keyboard_bindings(act, kb);
    let gp = GamepadBindings::new().add_binding(DiscreteBinding::new(7).just_released());
    eng.attach_gamepad_bindings(act, gp);

    // Nothing fires: W held but not just pressed, S absent, button 7 idle.
    let mut input = TickInput::empty();
    input.keyboard = vec![(KEY_W, held())];
    eng.tick(&input);
    assert_eq!(eng.bool_value(act), Some(false));

    // One binding on another device fires.
    let mut input = TickInput::empty();
    input.gamepad = vec![(7, just_up())];
    eng.tick(&input);
    assert_eq!(eng.bool_value(act), Some(true));
}

#[test]
fn scalar_total_is_exact_signed_sum() {
    let mut eng = InputEngine::new();
    let act = ActionHeaderBuilder::new("throttle").build(&mut eng, ActionKind::Scalar);
    // +dt from a premultiplied key, -1 from a gamepad button, +1 from a
    // mouse button, +6 from motion (delta x 3 times multiplier 2).
    let kb = KeyboardBindings::new().add_binding(DiscreteBinding::new(KEY_W).premultiplied());
    eng.attach_keyboard_bindings(act, kb);
    let gp = GamepadBindings::new().add_binding(DiscreteBinding::new(2).negative_axis_dir());
    eng.attach_gamepad_bindings(act, gp);
    let mb = MouseBindings::new()
        .add_binding(MouseButtonBinding::new(0))
        .motion_multiplier(2);
    eng.attach_mouse_bindings(act, mb);

    let mut input = TickInput::empty();
    input.delta_time = 16;
    input.keyboard = vec![(KEY_W, held())];
    input.gamepad = vec![(2, held())];
    input.mouse_buttons = vec![(0, held())];
    input.mouse_motion = vec![(1, 4), (2, -3)];
    eng.tick(&input);
    // 16 - 1 + 1 + (1 + 2) * 2 = 22
    assert_eq!(eng.scalar_value(act), Some(22));
}

#[test]
fn motion_vertical_component_is_flipped_up_positive() {
    let mut eng = InputEngine::new();
    let look = ActionHeaderBuilder::new("look").build(&mut eng, ActionKind::Vec2);
    eng.attach_mouse_bindings(look, MouseBindings::new().motion_multiplier(-2));

    let mut input = TickInput::empty();
    input.mouse_motion = vec![(1, 2)];
    eng.tick(&input);
    // x: 1 * -2 = -2; y: device-down 2 becomes up -2, times -2 gives 4.
    assert_eq!(eng.vec2_value(look), Some((-2, 4)));
}

#[test]
fn path_isolation_button_motion_all() {
    let mut eng = InputEngine::new();
    let look = ActionHeaderBuilder::new("look").build(&mut eng, ActionKind::Vec2);
    let mb = MouseBindings::new()
        .add_binding(MouseButtonBinding::new(3))
        .delta_motion();
    eng.attach_mouse_bindings(look, mb);
    let p_button = eng.request_subaction_path(look, "/mouse/button");
    let p_motion = eng.request_subaction_path(look, "/mouse/motion");
    let p_all = eng.request_subaction_path(look, "/mouse/*");
    let p_other = eng.request_subaction_path(look, "/gamepad");
    let p_bogus = eng.request_subaction_path(look, "/mouse/scroll");

    let mut input = TickInput::empty();
    input.mouse_buttons = vec![(3, held())];
    input.mouse_motion = vec![(2, 5)];
    eng.tick(&input);

    // The button writes +1 to Y; motion contributes (2, -5).
    assert_eq!(eng.vec2_value(look), Some((2, -4)));
    assert_eq!(eng.vec2_value_at_path(look, p_button), Some((0, 1)));
    assert_eq!(eng.vec2_value_at_path(look, p_motion), Some((2, -5)));
    assert_eq!(eng.vec2_value_at_path(look, p_all), Some((2, -4)));
    assert_eq!(eng.vec2_value_at_path(look, p_other), Some((0, 0)));
    assert_eq!(eng.vec2_value_at_path(look, p_bogus), Some((0, 0)));
}

#[test]
fn bool_path_takes_only_matching_contributions() {
    let mut eng = InputEngine::new();
    let act = ActionHeaderBuilder::new("poke").build(&mut eng, ActionKind::Bool);
    let mb = MouseBindings::new()
        .add_binding(MouseButtonBinding::new(0))
        .delta_motion();
    eng.attach_mouse_bindings(act, mb);
    let p_button = eng.request_subaction_path(act, "/mouse/button");
    let p_motion = eng.request_subaction_path(act, "/mouse/motion");

    // Only motion this tick.
    let mut input = TickInput::empty();
    input.mouse_motion = vec![(1, 0)];
    eng.tick(&input);
    assert_eq!(eng.bool_value(act), Some(true));
    assert_eq!(eng.bool_value_at_path(act, p_button), Some(false));
    assert_eq!(eng.bool_value_at_path(act, p_motion), Some(true));
}

#[test]
fn clean_values_resets_totals_and_paths() {
    let mut eng = InputEngine::new();
    let look = ActionHeaderBuilder::new("look").build(&mut eng, ActionKind::Vec2);
    eng.attach_mouse_bindings(look, MouseBindings::new().delta_motion());
    let p_all = eng.request_subaction_path(look, "/mouse/*");

    let mut input = TickInput::empty();
    input.mouse_motion = vec![(7, -7)];
    eng.tick(&input);
    assert_eq!(eng.vec2_value(look), Some((7, 7)));
    assert_eq!(eng.vec2_value_at_path(look, p_all), Some((7, 7)));

    eng.clean_values();
    assert_eq!(eng.vec2_value(look), Some((0, 0)));
    assert_eq!(eng.vec2_value_at_path(look, p_all), Some((0, 0)));
}

#[test]
fn premultiplied_binding_scales_with_zero_elapsed_time() {
    let mut eng = InputEngine::new();
    let act = ActionHeaderBuilder::new("scaled").build(&mut eng, ActionKind::Scalar);
    let kb = KeyboardBindings::new().add_binding(DiscreteBinding::new(KEY_W).premultiplied());
    eng.attach_keyboard_bindings(act, kb);

    let mut input = TickInput::empty();
    input.keyboard = vec![(KEY_W, held())];
    input.delta_time = 0;
    eng.tick(&input);
    assert_eq!(eng.scalar_value(act), Some(0));
}

#[test]
fn value_kind_getters_reject_other_kinds() {
    let mut eng = InputEngine::new();
    let b = ActionHeaderBuilder::new("b").build(&mut eng, ActionKind::Bool);
    let v = ActionHeaderBuilder::new("v").build(&mut eng, ActionKind::Vec2);
    assert_eq!(eng.bool_value(v), None);
    assert_eq!(eng.vec2_value(b), None);
    assert_eq!(eng.scalar_value(b), None);
    assert_eq!(eng.bool_value(99), None);
}

#[test]
fn behavior_apply_matches_reported_state() {
    assert!(ButtonInputBeheavior::Pressed.apply(held()));
    assert!(!ButtonInputBeheavior::JustPressed.apply(held()));
    assert!(ButtonInputBeheavior::JustPressed.apply(just_down()));
    assert!(ButtonInputBeheavior::JustReleased.apply(just_up()));
    assert!(!ButtonInputBeheavior::JustReleased.apply(held()));
}

#[test]
fn axis_helpers_pick_components_and_signs() {
    assert_eq!(InputAxis::X.vec_axis((3, 4)), 3);
    assert_eq!(InputAxis::Y.vec_axis((3, 4)), 4);
    let mut v: (i128, i128) = (1, 2);
    *InputAxis::X.vec_axis_mut(&mut v) += 10;
    assert_eq!(v, (11, 2));
    assert_eq!(InputAxisDirection::Positive.as_multipier(), 1);
    assert_eq!(InputAxisDirection::Negative.as_multipier(), -1);
}

#[test]
fn mouse_binding_builders_keep_and_set_motion() {
    let mb = MouseBindings::new().motion_multiplier(5).delta_motion();
    let m = mb.movement.unwrap();
    assert_eq!(m.motion_type, MouseMotionType::DeltaMotion);
    assert_eq!(m.multiplier, 5);

    let mb2 = MouseBindings::new().delta_motion();
    assert_eq!(mb2.movement.unwrap().multiplier, 1);

    let mb3 = MouseBindings::new().add_binding(MouseButtonBinding::new(2));
    assert_eq!(mb3.buttons.len(), 1);
    assert_eq!(mb3.buttons[0].button, 2);
    assert_eq!(mb3.buttons[0].behavior, ButtonInputBeheavior::Pressed);
}

#[test]
fn scalar_takes_discrete_contributions_of_both_axes() {
    let mut eng = InputEngine::new();
    let act = ActionHeaderBuilder::new("mixed").build(&mut eng, ActionKind::Scalar);
    let kb = KeyboardBindings::new()
        .add_binding(DiscreteBinding::new(KEY_W).x_axis())
        .add_binding(DiscreteBinding::new(KEY_S).y_axis());
    eng.attach_keyboard_bindings(act, kb);

    let mut input = TickInput::empty();
    input.keyboard = vec![(KEY_W, held()), (KEY_S, held())];
    eng.tick(&input);
    // A scalar accumulator sums every discrete contribution, whatever axis
    // the binding targets.
    assert_eq!(eng.scalar_value(act), Some(2));
}

#[test]
fn attach_replaces_bindings_and_snapshot() {
    let mut eng = InputEngine::new();
    let act = ActionHeaderBuilder::new("act").build(&mut eng, ActionKind::Bool);
    let kb1 = KeyboardBindings::new().add_binding(DiscreteBinding::new(KEY_W));
    eng.attach_keyboard_bindings(act, kb1);
    let kb2 = KeyboardBindings::new().add_binding(DiscreteBinding::new(KEY_S));
    eng.attach_keyboard_bindings(act, kb2);

    // Attaching is registration: the snapshot follows the new bindings, so
    // a reset restores the second set, not the first.
    eng.reset_to_default(act);
    assert_eq!(eng.actions[act].keyboard.bindings.len(), 1);
    assert_eq!(eng.actions[act].keyboard.bindings[0].source, KEY_S);
}

#[test]
fn requested_paths_get_fresh_sequential_ids() {
    let mut eng = InputEngine::new();
    let a = ActionHeaderBuilder::new("a").build(&mut eng, ActionKind::Bool);
    let b = ActionHeaderBuilder::new("b").build(&mut eng, ActionKind::Bool);
    let p0 = eng.request_subaction_path(a, "/mouse");
    let p1 = eng.request_subaction_path(b, "/mouse");
    let p2 = eng.request_subaction_path(a, "/keyboard");
    assert_eq!((p0, p1, p2), (0, 1, 2));
    assert_eq!(eng.paths[p0].raw, "/mouse");
    // Two requests for the same string are distinct path entities with
    // their own accumulators.
    assert_eq!(eng.actions[a].sub_paths, vec![p0, p2]);
    assert_eq!(eng.actions[b].sub_paths, vec![p1]);
}
