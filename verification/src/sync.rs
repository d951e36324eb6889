//! The device-evaluation core.
//!
//! Every device class evaluates its discrete (button-like) bindings the same
//! way: the trigger behavior is checked against the source's reported state,
//! and a fired binding contributes its direction sign, scaled by the elapsed
//! time when it asks for that.  The mouse additionally folds this tick's
//! relative-motion samples through a multiplier.  One pass over an action
//! first reduces all of its bindings of one device class to per-axis partial
//! sums, then merges those sums once into the action's accumulator and into
//! every matching subaction-path accumulator; merging per-device partial sums
//! keeps accumulation associative and commutative across device classes.

use crate::paths::{tag_matches_button, tag_matches_motion};
use crate::paths::{path_matches_button, path_matches_motion, SubactionPath};
use crate::values::{bool_at, scalar_at, vec2_at, ActionValue};
use crate::{behavior_fires, dir_sign, idle_button_state};
use crate::{ButtonInputBeheavior, ButtonState, DeviceClass, InputAxis, InputAxisDirection};
use vstd::prelude::*;

verus! {

/// No single device pass moves any accumulator by more than this.
pub const PASS_LIMIT: i128 = 0x1000000000000000000000000000000;

/// The bound on accumulators under which a device pass is free of overflow.
pub const VALUE_LIMIT: i128 = 0x10000000000000000000000000000000;

/// One discrete (button-like) binding: a physical source code, the axis and
/// sign it writes, a trigger behavior, and whether its contribution is
/// premultiplied by this tick's elapsed time.
#[derive(Clone, Copy, Debug, PartialEq, Eq, Structural)]
pub struct DiscreteBinding {
    /// The device-specific code of the bound source.
    pub source: u32,
    /// The component of a 2D target this binding writes.
    pub axis: InputAxis,
    /// The sign of the contribution.
    pub axis_dir: InputAxisDirection,
    /// Scale the contribution by this tick's elapsed time units.
    pub premultipy_delta_time: bool,
    /// How the source's state is turned into fired / not fired.
    pub behavior: ButtonInputBeheavior,
}

impl DiscreteBinding {
    /// A binding for `source` with the default shape: writes +Y while the
    /// source is pressed, without time scaling.
    pub fn new(source: u32) -> (r: DiscreteBinding)
        ensures
            r == (DiscreteBinding {
                source,
                axis: InputAxis::Y,
                axis_dir: InputAxisDirection::Positive,
                premultipy_delta_time: false,
                behavior: ButtonInputBeheavior::Pressed,
            }),
    {
        DiscreteBinding {
            source,
            axis: InputAxis::Y,
            axis_dir: InputAxisDirection::Positive,
            premultipy_delta_time: false,
            behavior: ButtonInputBeheavior::Pressed,
        }
    }

    /// The same binding, writing the X component.
    pub fn x_axis(self) -> (r: DiscreteBinding)
        ensures
            r == (DiscreteBinding { axis: InputAxis::X, ..self }),
    {
        DiscreteBinding { axis: InputAxis::X, ..self }
    }

    /// The same binding, writing the Y component.
    pub fn y_axis(self) -> (r: DiscreteBinding)
        ensures
            r == (DiscreteBinding { axis: InputAxis::Y, ..self }),
    {
        DiscreteBinding { axis: InputAxis::Y, ..self }
    }

    /// The same binding, contributing with positive sign.
    pub fn positive_axis_dir(self) -> (r: DiscreteBinding)
        ensures
            r == (DiscreteBinding { axis_dir: InputAxisDirection::Positive, ..self }),
    {
        DiscreteBinding { axis_dir: InputAxisDirection::Positive, ..self }
    }

    /// The same binding, contributing with negative sign.
    pub fn negative_axis_dir(self) -> (r: DiscreteBinding)
        ensures
            r == (DiscreteBinding { axis_dir: InputAxisDirection::Negative, ..self }),
    {
        DiscreteBinding { axis_dir: InputAxisDirection::Negative, ..self }
    }

    /// The same binding, firing only on the tick the source goes down.
    pub fn just_pressed(self) -> (r: DiscreteBinding)
        ensures
            r == (DiscreteBinding { behavior: ButtonInputBeheavior::JustPressed, ..self }),
    {
        DiscreteBinding { behavior: ButtonInputBeheavior::JustPressed, ..self }
    }

    /// The same binding, firing only on the tick the source goes up.
    pub fn just_released(self) -> (r: DiscreteBinding)
        ensures
            r == (DiscreteBinding { behavior: ButtonInputBeheavior::JustReleased, ..self }),
    {
        DiscreteBinding { behavior: ButtonInputBeheavior::JustReleased, ..self }
    }

    /// The same binding, premultiplied by this tick's elapsed time.
    pub fn premultiplied(self) -> (r: DiscreteBinding)
        ensures
            r == (DiscreteBinding { premultipy_delta_time: true, ..self }),
    {
        DiscreteBinding { premultipy_delta_time: true, ..self }
    }
}

/// Everything the host's input backend reports for one tick: the state of
/// every touched discrete source per device class, this tick's relative
/// mouse-motion samples (raw, +Y still meaning down, as devices report it),
/// and the elapsed time in fixed-point units.
#[derive(Clone, Debug)]
pub struct TickInput {
    /// Keyboard key states, keyed by key code.
    pub keyboard: Vec<(u32, ButtonState)>,
    /// Mouse button states, keyed by button code.
    pub mouse_buttons: Vec<(u32, ButtonState)>,
    /// Gamepad button states, keyed by button code.
    pub gamepad: Vec<(u32, ButtonState)>,
    /// Relative mouse-motion samples of this tick, in device coordinates.
    pub mouse_motion: Vec<(i16, i16)>,
    /// Elapsed time of this tick, in fixed-point time units.
    pub delta_time: u32,
}

impl TickInput {
    /// An input report with nothing pressed, no motion, and no elapsed time.
    pub fn empty() -> (r: TickInput)
        ensures
            r.keyboard@ == Seq::<(u32, ButtonState)>::empty(),
            r.mouse_buttons@ == Seq::<(u32, ButtonState)>::empty(),
            r.gamepad@ == Seq::<(u32, ButtonState)>::empty(),
            r.mouse_motion@ == Seq::<(i16, i16)>::empty(),
            r.delta_time == 0,
    {
        TickInput {
            keyboard: Vec::new(),
            mouse_buttons: Vec::new(),
            gamepad: Vec::new(),
            mouse_motion: Vec::new(),
            delta_time: 0,
        }
    }
}

/// The state the backend reported for `src`: the first entry keyed by it, or
/// the idle state if the backend did not mention it.
pub open spec fn state_for_from(states: Seq<(u32, ButtonState)>, src: u32, i: int) -> ButtonState
    decreases states.len() - i,
{
    if i < 0 || i >= states.len() {
        idle_button_state()
    } else if states[i].0 == src {
        states[i].1
    } else {
        state_for_from(states, src, i + 1)
    }
}

/// The state the backend reported for `src`.
pub open spec fn state_for(states: Seq<(u32, ButtonState)>, src: u32) -> ButtonState {
    state_for_from(states, src, 0)
}

/// The time factor of a binding: elapsed time units when premultiplied,
/// otherwise 1.
pub open spec fn time_scale(premultiply: bool, dt: u32) -> int {
    if premultiply {
        dt as int
    } else {
        1
    }
}

/// The signed contribution of one discrete binding this tick: its direction
/// sign times its time factor if its trigger fires, otherwise 0.
pub open spec fn binding_amount(b: DiscreteBinding, states: Seq<(u32, ButtonState)>, dt: u32) -> int {
    if behavior_fires(b.behavior, state_for(states, b.source)) {
        dir_sign(b.axis_dir) * time_scale(b.premultipy_delta_time, dt)
    } else {
        0
    }
}

/// The contribution of one discrete binding to one axis: its amount when it
/// targets that axis, otherwise 0.
pub open spec fn binding_axis_amount(
    b: DiscreteBinding,
    states: Seq<(u32, ButtonState)>,
    dt: u32,
    axis: InputAxis,
) -> int {
    if b.axis == axis {
        binding_amount(b, states, dt)
    } else {
        0
    }
}

/// The sum of the per-axis contributions of the bindings from index `i` on.
pub open spec fn discrete_axis_sum_from(
    bs: Seq<DiscreteBinding>,
    states: Seq<(u32, ButtonState)>,
    dt: u32,
    axis: InputAxis,
    i: int,
) -> int
    decreases bs.len() - i,
{
    if i < 0 || i >= bs.len() {
        0
    } else {
        binding_axis_amount(bs[i], states, dt, axis) + discrete_axis_sum_from(
            bs,
            states,
            dt,
            axis,
            i + 1,
        )
    }
}

/// The sum of the contributions of all bindings targeting one axis.
pub open spec fn discrete_axis_sum(
    bs: Seq<DiscreteBinding>,
    states: Seq<(u32, ButtonState)>,
    dt: u32,
    axis: InputAxis,
) -> int {
    discrete_axis_sum_from(bs, states, dt, axis, 0)
}

/// Whether any binding from index `i` on fires this tick.
pub open spec fn discrete_any_from(
    bs: Seq<DiscreteBinding>,
    states: Seq<(u32, ButtonState)>,
    i: int,
) -> bool
    decreases bs.len() - i,
{
    if i < 0 || i >= bs.len() {
        false
    } else {
        behavior_fires(bs[i].behavior, state_for(states, bs[i].source)) || discrete_any_from(
            bs,
            states,
            i + 1,
        )
    }
}

/// Whether any of the bindings fires this tick.
pub open spec fn discrete_any(bs: Seq<DiscreteBinding>, states: Seq<(u32, ButtonState)>) -> bool {
    discrete_any_from(bs, states, 0)
}

/// The X component of the summed motion samples from index `i` on, each
/// scaled by the multiplier.
pub open spec fn motion_x_from(samples: Seq<(i16, i16)>, m: int, i: int) -> int
    decreases samples.len() - i,
{
    if i < 0 || i >= samples.len() {
        0
    } else {
        samples[i].0 * m + motion_x_from(samples, m, i + 1)
    }
}

/// The Y component of the summed motion samples from index `i` on, each
/// sign-flipped so that +Y means up, then scaled by the multiplier.
pub open spec fn motion_y_from(samples: Seq<(i16, i16)>, m: int, i: int) -> int
    decreases samples.len() - i,
{
    if i < 0 || i >= samples.len() {
        0
    } else {
        (-samples[i].1) * m + motion_y_from(samples, m, i + 1)
    }
}

/// The X component of this tick's accumulated motion delta.
pub open spec fn motion_x(samples: Seq<(i16, i16)>, m: int) -> int {
    motion_x_from(samples, m, 0)
}

/// The Y component of this tick's accumulated motion delta, up positive.
pub open spec fn motion_y(samples: Seq<(i16, i16)>, m: int) -> int {
    motion_y_from(samples, m, 0)
}

/// A product of bounded factors is bounded by the product of the bounds.
pub proof fn lemma_mul_le(a: int, b: int, bound_a: int, bound_b: int)
    by (nonlinear_arith)
    requires
        -bound_a <= a <= bound_a,
        -bound_b <= b <= bound_b,
        0 <= bound_a,
        0 <= bound_b,
    ensures
        -(bound_a * bound_b) <= a * b <= bound_a * bound_b,
{
}

/// Splitting one term off a bounded count distributes over the product.
proof fn lemma_count_step(n: int, c: int)
    by (nonlinear_arith)
    requires
        0 <= c,
        1 <= n,
    ensures
        n * c == (n - 1) * c + c,
{
}

/// One discrete binding contributes at most `dt + 1` in magnitude.
proof fn lemma_binding_amount_bound(
    b: DiscreteBinding,
    states: Seq<(u32, ButtonState)>,
    dt: u32,
    axis: InputAxis,
)
    ensures
        -(dt + 1) <= binding_axis_amount(b, states, dt, axis) <= dt + 1,
{
    let ts = time_scale(b.premultipy_delta_time, dt);
    assert(0 <= ts <= dt + 1);
    match b.axis_dir {
        InputAxisDirection::Positive => {
            assert(dir_sign(b.axis_dir) * ts == ts);
        },
        InputAxisDirection::Negative => {
            assert(dir_sign(b.axis_dir) * ts == -ts);
        },
    }
}

/// The state the backend reported for `src`, by a scan of this tick's
/// report.
pub fn lookup_state(states: &Vec<(u32, ButtonState)>, src: u32) -> (st: ButtonState)
    ensures
        st == state_for(states@, src),
{
    let n = states.len();
    let mut i: usize = 0;
    while i < n
        invariant
            n == states@.len(),
            i <= n,
            state_for(states@, src) == state_for_from(states@, src, i as int),
        decreases n - i,
    {
        if states[i].0 == src {
            return states[i].1;
        }
        i += 1;
    }
    ButtonState::idle()
}

/// Reduce one device class's discrete bindings to this tick's partial sums:
/// whether any binding fired, and the per-axis signed sums.
pub fn eval_discrete(
    bindings: &Vec<DiscreteBinding>,
    states: &Vec<(u32, ButtonState)>,
    dt: u32,
) -> (r: (bool, i128, i128))
    ensures
        r.0 == discrete_any(bindings@, states@),
        r.1 == discrete_axis_sum(bindings@, states@, dt, InputAxis::X),
        r.2 == discrete_axis_sum(bindings@, states@, dt, InputAxis::Y),
        -PASS_LIMIT <= r.1 <= PASS_LIMIT,
        -PASS_LIMIT <= r.2 <= PASS_LIMIT,
{
    let n = bindings.len();
    let mut any = false;
    let mut sum_x: i128 = 0;
    let mut sum_y: i128 = 0;
    let mut i: usize = 0;
    while i < n
        invariant
            n == bindings@.len(),
            i <= n,
            discrete_any(bindings@, states@) == (any || discrete_any_from(
                bindings@,
                states@,
                i as int,
            )),
            discrete_axis_sum(bindings@, states@, dt, InputAxis::X) == sum_x
                + discrete_axis_sum_from(bindings@, states@, dt, InputAxis::X, i as int),
            discrete_axis_sum(bindings@, states@, dt, InputAxis::Y) == sum_y
                + discrete_axis_sum_from(bindings@, states@, dt, InputAxis::Y, i as int),
            -((i as int) * (dt + 1)) <= sum_x <= (i as int) * (dt + 1),
            -((i as int) * (dt + 1)) <= sum_y <= (i as int) * (dt + 1),
        decreases n - i,
    {
        let b = bindings[i];
        let st = lookup_state(states, b.source);
        let fired = b.behavior.apply(st);
        any = any || fired;
        let amount: i128 = if fired {
            let scale: i128 = if b.premultipy_delta_time {
                dt as i128
            } else {
                1
            };
            match b.axis_dir {
                InputAxisDirection::Positive => scale,
                InputAxisDirection::Negative => -scale,
            }
        } else {
            0
        };
        proof {
            lemma_binding_amount_bound(b, states@, dt, InputAxis::X);
            lemma_binding_amount_bound(b, states@, dt, InputAxis::Y);
            assert(amount as int == binding_amount(b, states@, dt)) by {
                if fired {
                    match b.axis_dir {
                        InputAxisDirection::Positive => {
                            assert(dir_sign(b.axis_dir) * time_scale(
                                b.premultipy_delta_time,
                                dt,
                            ) == time_scale(b.premultipy_delta_time, dt));
                        },
                        InputAxisDirection::Negative => {
                            assert(dir_sign(b.axis_dir) * time_scale(
                                b.premultipy_delta_time,
                                dt,
                            ) == -time_scale(b.premultipy_delta_time, dt));
                        },
                    }
                }
            }
            lemma_count_step(i + 1, dt + 1);
            lemma_mul_le(i as int + 1, dt as int + 1, 0x10000000000000000, 0x100000000);
        }
        match b.axis {
            InputAxis::X => sum_x = sum_x + amount,
            InputAxis::Y => sum_y = sum_y + amount,
        }
        i += 1;
    }
    proof {
        lemma_mul_le(n as int, dt as int + 1, 0x10000000000000000, 0x100000000);
    }
    (any, sum_x, sum_y)
}

/// Reduce this tick's motion samples to one delta: the per-sample deltas,
/// vertical component flipped so +Y means up, each scaled by the multiplier,
/// and summed.
pub fn eval_motion(samples: &Vec<(i16, i16)>, multiplier: i32) -> (r: (i128, i128))
    ensures
        r.0 == motion_x(samples@, multiplier as int),
        r.1 == motion_y(samples@, multiplier as int),
        -PASS_LIMIT <= r.0 <= PASS_LIMIT,
        -PASS_LIMIT <= r.1 <= PASS_LIMIT,
{
    let n = samples.len();
    let mut dx: i128 = 0;
    let mut dy: i128 = 0;
    let mut i: usize = 0;
    while i < n
        invariant
            n == samples@.len(),
            i <= n,
            motion_x(samples@, multiplier as int) == dx + motion_x_from(
                samples@,
                multiplier as int,
                i as int,
            ),
            motion_y(samples@, multiplier as int) == dy + motion_y_from(
                samples@,
                multiplier as int,
                i as int,
            ),
            -((i as int) * 0x400000000000) <= dx <= (i as int) * 0x400000000000,
            -((i as int) * 0x400000000000) <= dy <= (i as int) * 0x400000000000,
        decreases n - i,
    {
        let s = samples[i];
        proof {
            lemma_mul_le(s.0 as int, multiplier as int, 0x8000, 0x80000000);
            lemma_mul_le(-(s.1 as int), multiplier as int, 0x8000, 0x80000000);
        }
        let sx: i128 = (s.0 as i128) * (multiplier as i128);
        let sy: i128 = (-(s.1 as i128)) * (multiplier as i128);
        dx = dx + sx;
        dy = dy + sy;
        i += 1;
    }
    proof {
        lemma_mul_le(n as int, 0x400000000000, 0x10000000000000000, 0x400000000000);
    }
    (dx, dy)
}

/// Whether the subaction path `id` takes discrete contributions of device
/// class `d`: the action requested it, it exists, and its tag matches.
pub open spec fn path_btn_applies(
    sub: Seq<usize>,
    paths: Seq<SubactionPath>,
    d: DeviceClass,
    id: usize,
) -> bool {
    sub.contains(id) && id < paths.len() && tag_matches_button(paths[id as int].tag, d)
}

/// Whether the subaction path `id` takes motion contributions of device
/// class `d`.
pub open spec fn path_mot_applies(
    sub: Seq<usize>,
    paths: Seq<SubactionPath>,
    d: DeviceClass,
    id: usize,
) -> bool {
    sub.contains(id) && id < paths.len() && tag_matches_motion(paths[id as int].tag, d)
}

/// The view of an optional motion delta.
pub open spec fn mot_view(mot: Option<(i128, i128)>) -> Option<(int, int)> {
    match mot {
        Some(m) => Some((m.0 as int, m.1 as int)),
        None => None,
    }
}

/// Whether a motion delta is present and non-neutral.
pub open spec fn mot_nonzero(mot: Option<(int, int)>) -> bool {
    match mot {
        Some(m) => m.0 != 0 || m.1 != 0,
        None => false,
    }
}

/// The X component of a motion delta, 0 when absent.
pub open spec fn mot_x(mot: Option<(int, int)>) -> int {
    match mot {
        Some(m) => m.0,
        None => 0,
    }
}

/// The Y component of a motion delta, 0 when absent.
pub open spec fn mot_y(mot: Option<(int, int)>) -> int {
    match mot {
        Some(m) => m.1,
        None => 0,
    }
}

/// How one device pass changes an action's accumulator, given the pass's
/// partial sums: the total takes the whole contribution, and each requested
/// path whose tag matches takes the matching part.  A boolean accumulator
/// ORs; the others add.  A scalar accumulator takes every discrete
/// contribution regardless of target axis, and the X component of motion.
pub open spec fn pass_applied(
    v_old: ActionValue,
    v_new: ActionValue,
    sub: Seq<usize>,
    paths: Seq<SubactionPath>,
    d: DeviceClass,
    btn_any: bool,
    btn_x: int,
    btn_y: int,
    mot: Option<(int, int)>,
) -> bool {
    match (v_old, v_new) {
        (ActionValue::Bool(a), ActionValue::Bool(b)) => {
            &&& b.any == (a.any || btn_any || mot_nonzero(mot))
            &&& forall|id: usize|
                #[trigger] bool_at(b, id) == (bool_at(a, id) || (path_btn_applies(sub, paths, d, id)
                    && btn_any) || (path_mot_applies(sub, paths, d, id) && mot_nonzero(mot)))
        },
        (ActionValue::Scalar(a), ActionValue::Scalar(b)) => {
            &&& b.total == a.total + btn_x + btn_y + mot_x(mot)
            &&& forall|id: usize|
                #[trigger] scalar_at(b, id) == scalar_at(a, id) + (if path_btn_applies(
                    sub,
                    paths,
                    d,
                    id,
                ) {
                    btn_x + btn_y
                } else {
                    0
                }) + (if path_mot_applies(sub, paths, d, id) {
                    mot_x(mot)
                } else {
                    0
                })
        },
        (ActionValue::Vec2(a), ActionValue::Vec2(b)) => {
            &&& b.x == a.x + btn_x + mot_x(mot)
            &&& b.y == a.y + btn_y + mot_y(mot)
            &&& forall|id: usize|
                #[trigger] vec2_at(b, id) == ((vec2_at(a, id).0 + (if path_btn_applies(
                    sub,
                    paths,
                    d,
                    id,
                ) {
                    btn_x
                } else {
                    0
                }) + (if path_mot_applies(sub, paths, d, id) {
                    mot_x(mot)
                } else {
                    0
                })), (vec2_at(a, id).1 + (if path_btn_applies(sub, paths, d, id) {
                    btn_y
                } else {
                    0
                }) + (if path_mot_applies(sub, paths, d, id) {
                    mot_y(mot)
                } else {
                    0
                })))
        },
        _ => false,
    }
}

/// Accumulators and every breakdown entry lie within `b` in magnitude.
pub open spec fn value_bounded(v: ActionValue, b: int) -> bool {
    match v {
        ActionValue::Bool(_) => true,
        ActionValue::Scalar(sv) => -b <= sv.total <= b && forall|id: usize|
            -b <= #[trigger] scalar_at(sv, id) <= b,
        ActionValue::Vec2(vv) => -b <= vv.x <= b && -b <= vv.y <= b && forall|id: usize|
            -b <= (#[trigger] vec2_at(vv, id)).0 <= b && -b <= vec2_at(vv, id).1 <= b,
    }
}

/// What a one-longer prefix of a sequence contains: everything the shorter
/// prefix does, plus its new last element.
proof fn lemma_subrange_contains_step(s: Seq<usize>, k: int)
    requires
        0 <= k < s.len(),
    ensures
        forall|y: usize|
            #[trigger] s.subrange(0, k + 1).contains(y) <==> (s.subrange(0, k).contains(y) || y
                == s[k]),
{
    assert forall|y: usize| #[trigger]
        s.subrange(0, k + 1).contains(y) implies (s.subrange(0, k).contains(y) || y == s[k]) by {
        let w = choose|w: int|
            0 <= w < s.subrange(0, k + 1).len() && #[trigger] s.subrange(0, k + 1)[w] == y;
        if w < k {
            assert(s.subrange(0, k)[w] == y);
        }
    }
    assert forall|y: usize| (s.subrange(0, k).contains(y) || y == s[k]) implies #[trigger]
        s.subrange(0, k + 1).contains(y) by {
        if s.subrange(0, k).contains(y) {
            let w = choose|w: int|
                0 <= w < s.subrange(0, k).len() && #[trigger] s.subrange(0, k)[w] == y;
            assert(s.subrange(0, k + 1)[w] == y);
        } else {
            assert(s.subrange(0, k + 1)[k] == y);
        }
    }
}

/// With pairwise-distinct entries, an entry does not occur in the prefix
/// before its own position.
proof fn lemma_prefix_not_contains(s: Seq<usize>, k: int)
    requires
        0 <= k < s.len(),
        forall|i: int, j: int| 0 <= i < j < s.len() ==> s[i] != s[j],
    ensures
        !s.subrange(0, k).contains(s[k]),
{
    if s.subrange(0, k).contains(s[k]) {
        let w = choose|w: int|
            0 <= w < s.subrange(0, k).len() && #[trigger] s.subrange(0, k)[w] == s[k];
        assert(s[w] == s[k]);
        assert(false);
    }
}

/// Every accumulator of `b` lies within `g` of the same accumulator of `a`.
pub open spec fn value_growth(a: ActionValue, b: ActionValue, g: int) -> bool {
    match (a, b) {
        (ActionValue::Bool(_), ActionValue::Bool(_)) => true,
        (ActionValue::Scalar(x), ActionValue::Scalar(y)) => x.total - g <= y.total <= x.total + g
            && forall|id: usize|
                scalar_at(x, id) - g <= #[trigger] scalar_at(y, id) <= scalar_at(x, id) + g,
        (ActionValue::Vec2(x), ActionValue::Vec2(y)) => x.x - g <= y.x <= x.x + g && x.y - g <= y.y
            <= x.y + g && forall|id: usize|
            vec2_at(x, id).0 - g <= (#[trigger] vec2_at(y, id)).0 <= vec2_at(x, id).0 + g && vec2_at(
                x,
                id,
            ).1 - g <= vec2_at(y, id).1 <= vec2_at(x, id).1 + g,
        _ => false,
    }
}

/// Growth within `g` starting from values bounded by `bound` stays within
/// `bound + g`.
pub proof fn lemma_growth_bounded(a: ActionValue, b: ActionValue, bound: int, g: int)
    requires
        value_bounded(a, bound),
        value_growth(a, b, g),
        0 <= g,
    ensures
        value_bounded(b, bound + g),
{
    match (a, b) {
        (ActionValue::Scalar(x), ActionValue::Scalar(y)) => {
            assert forall|id: usize|
                -(bound + g) <= #[trigger] scalar_at(y, id) <= bound + g by {
                assert(-bound <= scalar_at(x, id) <= bound);
            }
        },
        (ActionValue::Vec2(x), ActionValue::Vec2(y)) => {
            assert forall|id: usize|
                -(bound + g) <= (#[trigger] vec2_at(y, id)).0 <= bound + g && -(bound + g)
                    <= vec2_at(y, id).1 <= bound + g by {
                assert(-bound <= vec2_at(x, id).0 <= bound);
                assert(-bound <= vec2_at(x, id).1 <= bound);
            }
        },
        _ => {},
    }
}

/// A neutral accumulator is bounded by 0.
pub proof fn lemma_neutral_bounded(v: ActionValue)
    requires
        v.is_neutral(),
    ensures
        value_bounded(v, 0),
{
    match v {
        ActionValue::Scalar(x) => {
            assert forall|id: usize| -0 <= #[trigger] scalar_at(x, id) <= 0 by {
                assert(scalar_at(x, id) == 0);
            }
        },
        ActionValue::Vec2(x) => {
            assert forall|id: usize|
                -0 <= (#[trigger] vec2_at(x, id)).0 <= 0 && -0 <= vec2_at(x, id).1 <= 0 by {
                assert(vec2_at(x, id) == (0int, 0int));
            }
        },
        _ => {},
    }
}

/// Merge one device pass's partial sums into an action's accumulator and
/// into the accumulators of its matching subaction paths.
pub fn apply_pass(
    value: &mut ActionValue,
    sub_paths: &Vec<usize>,
    paths: &Vec<SubactionPath>,
    d: DeviceClass,
    btn_any: bool,
    btn_x: i128,
    btn_y: i128,
    mot: Option<(i128, i128)>,
)
    requires
        old(value).wf(),
        value_bounded(*old(value), VALUE_LIMIT as int),
        -PASS_LIMIT <= btn_x <= PASS_LIMIT,
        -PASS_LIMIT <= btn_y <= PASS_LIMIT,
        mot matches Some(m) ==> -PASS_LIMIT <= m.0 <= PASS_LIMIT && -PASS_LIMIT <= m.1
            <= PASS_LIMIT,
        forall|k: int| 0 <= k < sub_paths@.len() ==> (#[trigger] sub_paths@[k]) < paths@.len(),
        forall|k1: int, k2: int|
            0 <= k1 < k2 < sub_paths@.len() ==> sub_paths@[k1] != sub_paths@[k2],
    ensures
        final(value).wf(),
        final(value).kind() == old(value).kind(),
        pass_applied(
            *old(value),
            *final(value),
            sub_paths@,
            paths@,
            d,
            btn_any,
            btn_x as int,
            btn_y as int,
            mot_view(mot),
        ),
        value_growth(*old(value), *final(value), 3 * PASS_LIMIT as int),
{
    let ghost sub = sub_paths@;
    let ghost mv = mot_view(mot);
    let n = sub_paths.len();
    match value {
        ActionValue::Bool(v) => {
            let ghost a0 = *v;
            let m_nz = match mot {
                Some(m) => m.0 != 0 || m.1 != 0,
                None => false,
            };
            v.accumulate(btn_any || m_nz);
            let ghost v0 = *v;
            let mut k: usize = 0;
            while k < n
                invariant
                    n == sub.len(),
                    k <= n,
                    crate::values::keys_unique(v.paths@),
                    v.any == v0.any,
                    m_nz == mot_nonzero(mv),
                    forall|j: int| 0 <= j < sub.len() ==> (#[trigger] sub[j]) < paths@.len(),
                    forall|j1: int, j2: int| 0 <= j1 < j2 < sub.len() ==> sub[j1] != sub[j2],
                    sub_paths@ == sub,
                    forall|id: usize|
                        #[trigger] bool_at(*v, id) == (bool_at(v0, id) || (sub.subrange(
                            0,
                            k as int,
                        ).contains(id) && ((tag_matches_button(paths@[id as int].tag, d) && btn_any)
                            || (tag_matches_motion(paths@[id as int].tag, d) && m_nz)))),
                decreases n - k,
            {
                let id = sub_paths[k];
                let tag = paths[id].tag;
                let hit = (path_matches_button(tag, d) && btn_any) || (path_matches_motion(tag, d)
                    && m_nz);
                proof {
                    lemma_prefix_not_contains(sub, k as int);
                }
                let ghost v_pre = *v;
                v.accumulate_at_path(id, hit);
                proof {
                    lemma_subrange_contains_step(sub, k as int);
                    assert forall|id2: usize| #[trigger]
                        bool_at(*v, id2) == (bool_at(v0, id2) || (sub.subrange(
                            0,
                            k as int + 1,
                        ).contains(id2) && ((tag_matches_button(paths@[id2 as int].tag, d)
                            && btn_any) || (tag_matches_motion(paths@[id2 as int].tag, d)
                            && m_nz)))) by {
                        if id2 == id {
                            assert(bool_at(v_pre, id2) == bool_at(v0, id2));
                        } else {
                            assert(bool_at(*v, id2) == bool_at(v_pre, id2));
                        }
                    }
                }
                k += 1;
            }
            proof {
                assert(sub.subrange(0, n as int) =~= sub);
                assert forall|id: usize|
                    #[trigger] bool_at(*v, id) == (bool_at(a0, id) || (path_btn_applies(
                        sub,
                        paths@,
                        d,
                        id,
                    ) && btn_any) || (path_mot_applies(sub, paths@, d, id) && m_nz)) by {
                    assert(bool_at(v0, id) == bool_at(a0, id));
                    if sub.contains(id) {
                        let w = choose|w: int| 0 <= w < sub.len() && #[trigger] sub[w] == id;
                        assert(sub[w] < paths@.len());
                    }
                }
            }
        },
        ActionValue::Scalar(v) => {
            let ghost a0 = *v;
            let m_x = match mot {
                Some(m) => m.0,
                None => 0,
            };
            let delta = btn_x + btn_y + m_x;
            v.accumulate(delta);
            let ghost v0 = *v;
            proof {
                assert forall|id: usize|
                    -(VALUE_LIMIT as int) <= #[trigger] scalar_at(v0, id) <= VALUE_LIMIT
                        as int by {
                    assert(scalar_at(v0, id) == scalar_at(a0, id));
                }
            }
            let mut k: usize = 0;
            while k < n
                invariant
                    n == sub.len(),
                    k <= n,
                    crate::values::keys_unique(v.paths@),
                    v.total == v0.total,
                    m_x as int == mot_x(mv),
                    -PASS_LIMIT <= btn_x <= PASS_LIMIT,
                    -PASS_LIMIT <= btn_y <= PASS_LIMIT,
                    -PASS_LIMIT <= m_x <= PASS_LIMIT,
                    forall|id: usize|
                        -(VALUE_LIMIT as int) <= #[trigger] scalar_at(v0, id) <= VALUE_LIMIT as int,
                    forall|j: int| 0 <= j < sub.len() ==> (#[trigger] sub[j]) < paths@.len(),
                    forall|j1: int, j2: int| 0 <= j1 < j2 < sub.len() ==> sub[j1] != sub[j2],
                    sub_paths@ == sub,
                    forall|id: usize|
                        #[trigger] scalar_at(*v, id) == scalar_at(v0, id) + (if sub.subrange(
                            0,
                            k as int,
                        ).contains(id) {
                            (if tag_matches_button(paths@[id as int].tag, d) {
                                btn_x + btn_y
                            } else {
                                0
                            }) + (if tag_matches_motion(paths@[id as int].tag, d) {
                                m_x as int
                            } else {
                                0
                            })
                        } else {
                            0
                        }),
                decreases n - k,
            {
                let id = sub_paths[k];
                let tag = paths[id].tag;
                let b_part: i128 = if path_matches_button(tag, d) {
                    btn_x + btn_y
                } else {
                    0
                };
                let m_part: i128 = if path_matches_motion(tag, d) {
                    m_x
                } else {
                    0
                };
                proof {
                    lemma_prefix_not_contains(sub, k as int);
                    assert(scalar_at(*v, id) == scalar_at(v0, id));
                }
                let ghost v_pre = *v;
                v.accumulate_at_path(id, b_part + m_part);
                proof {
                    lemma_subrange_contains_step(sub, k as int);
                    assert forall|id2: usize| #[trigger]
                        scalar_at(*v, id2) == scalar_at(v0, id2) + (if sub.subrange(
                            0,
                            k as int + 1,
                        ).contains(id2) {
                            (if tag_matches_button(paths@[id2 as int].tag, d) {
                                btn_x + btn_y
                            } else {
                                0
                            }) + (if tag_matches_motion(paths@[id2 as int].tag, d) {
                                m_x as int
                            } else {
                                0
                            })
                        } else {
                            0
                        }) by {
                        if id2 == id {
                            assert(scalar_at(v_pre, id2) == scalar_at(v0, id2));
                        } else {
                            assert(scalar_at(*v, id2) == scalar_at(v_pre, id2));
                        }
                    }
                }
                k += 1;
            }
            proof {
                assert(sub.subrange(0, n as int) =~= sub);
                assert forall|id: usize|
                    #[trigger] scalar_at(*v, id) == scalar_at(a0, id) + (if path_btn_applies(
                        sub,
                        paths@,
                        d,
                        id,
                    ) {
                        btn_x + btn_y
                    } else {
                        0
                    }) + (if path_mot_applies(sub, paths@, d, id) {
                        mot_x(mv)
                    } else {
                        0
                    }) by {
                    assert(scalar_at(v0, id) == scalar_at(a0, id));
                    if sub.contains(id) {
                        let w = choose|w: int| 0 <= w < sub.len() && #[trigger] sub[w] == id;
                        assert(sub[w] < paths@.len());
                    }
                }
            }
        },
        ActionValue::Vec2(v) => {
            let ghost a0 = *v;
            let (m_x, m_y) = match mot {
                Some(m) => (m.0, m.1),
                None => (0, 0),
            };
            v.accumulate(btn_x + m_x, btn_y + m_y);
            let ghost v0 = *v;
            proof {
                assert forall|id: usize|
                    -(VALUE_LIMIT as int) <= (#[trigger] vec2_at(v0, id)).0 <= VALUE_LIMIT as int
                        && -(VALUE_LIMIT as int) <= vec2_at(v0, id).1 <= VALUE_LIMIT as int by {
                    assert(vec2_at(v0, id) == vec2_at(a0, id));
                }
            }
            let mut k: usize = 0;
            while k < n
                invariant
                    n == sub.len(),
                    k <= n,
                    crate::values::keys_unique(v.paths@),
                    v.x == v0.x,
                    v.y == v0.y,
                    m_x as int == mot_x(mv),
                    m_y as int == mot_y(mv),
                    -PASS_LIMIT <= btn_x <= PASS_LIMIT,
                    -PASS_LIMIT <= btn_y <= PASS_LIMIT,
                    -PASS_LIMIT <= m_x <= PASS_LIMIT,
                    -PASS_LIMIT <= m_y <= PASS_LIMIT,
                    forall|id: usize|
                        -(VALUE_LIMIT as int) <= (#[trigger] vec2_at(v0, id)).0 <= VALUE_LIMIT
                            as int && -(VALUE_LIMIT as int) <= vec2_at(v0, id).1 <= VALUE_LIMIT
                            as int,
                    forall|j: int| 0 <= j < sub.len() ==> (#[trigger] sub[j]) < paths@.len(),
                    forall|j1: int, j2: int| 0 <= j1 < j2 < sub.len() ==> sub[j1] != sub[j2],
                    sub_paths@ == sub,
                    forall|id: usize|
                        #[trigger] vec2_at(*v, id) == ((vec2_at(v0, id).0 + (if sub.subrange(
                            0,
                            k as int,
                        ).contains(id) {
                            (if tag_matches_button(paths@[id as int].tag, d) {
                                btn_x as int
                            } else {
                                0
                            }) + (if tag_matches_motion(paths@[id as int].tag, d) {
                                m_x as int
                            } else {
                                0
                            })
                        } else {
                            0
                        })), (vec2_at(v0, id).1 + (if sub.subrange(0, k as int).contains(id) {
                            (if tag_matches_button(paths@[id as int].tag, d) {
                                btn_y as int
                            } else {
                                0
                            }) + (if tag_matches_motion(paths@[id as int].tag, d) {
                                m_y as int
                            } else {
                                0
                            })
                        } else {
                            0
                        }))),
                decreases n - k,
            {
                let id = sub_paths[k];
                let tag = paths[id].tag;
                let bm = path_matches_button(tag, d);
                let mm = path_matches_motion(tag, d);
                let dx: i128 = (if bm {
                    btn_x
                } else {
                    0
                }) + (if mm {
                    m_x
                } else {
                    0
                });
                let dy: i128 = (if bm {
                    btn_y
                } else {
                    0
                }) + (if mm {
                    m_y
                } else {
                    0
                });
                proof {
                    lemma_prefix_not_contains(sub, k as int);
                    assert(vec2_at(*v, id) == vec2_at(v0, id));
                }
                let ghost v_pre = *v;
                v.accumulate_at_path(id, dx, dy);
                proof {
                    lemma_subrange_contains_step(sub, k as int);
                    assert forall|id2: usize| #[trigger]
                        vec2_at(*v, id2) == ((vec2_at(v0, id2).0 + (if sub.subrange(
                            0,
                            k as int + 1,
                        ).contains(id2) {
                            (if tag_matches_button(paths@[id2 as int].tag, d) {
                                btn_x as int
                            } else {
                                0
                            }) + (if tag_matches_motion(paths@[id2 as int].tag, d) {
                                m_x as int
                            } else {
                                0
                            })
                        } else {
                            0
                        })), (vec2_at(v0, id2).1 + (if sub.subrange(0, k as int + 1).contains(id2) {
                            (if tag_matches_button(paths@[id2 as int].tag, d) {
                                btn_y as int
                            } else {
                                0
                            }) + (if tag_matches_motion(paths@[id2 as int].tag, d) {
                                m_y as int
                            } else {
                                0
                            })
                        } else {
                            0
                        }))) by {
                        if id2 == id {
                            assert(vec2_at(v_pre, id2) == vec2_at(v0, id2));
                        } else {
                            assert(vec2_at(*v, id2) == vec2_at(v_pre, id2));
                        }
                    }
                }
                k += 1;
            }
            proof {
                assert(sub.subrange(0, n as int) =~= sub);
                assert forall|id: usize|
                    #[trigger] vec2_at(*v, id) == ((vec2_at(a0, id).0 + (if path_btn_applies(
                        sub,
                        paths@,
                        d,
                        id,
                    ) {
                        btn_x as int
                    } else {
                        0
                    }) + (if path_mot_applies(sub, paths@, d, id) {
                        mot_x(mv)
                    } else {
                        0
                    })), (vec2_at(a0, id).1 + (if path_btn_applies(sub, paths@, d, id) {
                        btn_y as int
                    } else {
                        0
                    }) + (if path_mot_applies(sub, paths@, d, id) {
                        mot_y(mv)
                    } else {
                        0
                    }))) by {
                    assert(vec2_at(v0, id) == vec2_at(a0, id));
                    if sub.contains(id) {
                        let w = choose|w: int| 0 <= w < sub.len() && #[trigger] sub[w] == id;
                        assert(sub[w] < paths@.len());
                    }
                }
            }
        },
    }
}

/// Copy a discrete binding list.
pub fn copy_discretes(v: &Vec<DiscreteBinding>) -> (r: Vec<DiscreteBinding>)
    ensures
        r@ == v@,
{
    let n = v.len();
    let mut r: Vec<DiscreteBinding> = Vec::new();
    let mut i: usize = 0;
    while i < n
        invariant
            n == v@.len(),
            i <= n,
            r@.len() == i,
            forall|j: int| 0 <= j < i ==> r@[j] == v@[j],
        decreases n - i,
    {
        r.push(v[i]);
        i += 1;
    }
    proof {
        assert(r@ =~= v@);
    }
    r
}

/// Whether any binding from index `i` on fires, as an explicit witness.
proof fn lemma_or_from(bs: Seq<DiscreteBinding>, states: Seq<(u32, ButtonState)>, i: int)
    requires
        0 <= i <= bs.len(),
    ensures
        discrete_any_from(bs, states, i) <==> exists|k: int|
            i <= k < bs.len() && behavior_fires(
                (#[trigger] bs[k]).behavior,
                state_for(states, bs[k].source),
            ),
    decreases bs.len() - i,
{
    if i < bs.len() {
        lemma_or_from(bs, states, i + 1);
        if behavior_fires(bs[i].behavior, state_for(states, bs[i].source)) {
            assert(i <= i < bs.len());
        }
    }
}

/// The OR invariant: a set of discrete bindings yields true exactly when at
/// least one binding's trigger condition holds this tick, and false when
/// none does.
pub proof fn lemma_or_invariant(bs: Seq<DiscreteBinding>, states: Seq<(u32, ButtonState)>)
    ensures
        discrete_any(bs, states) <==> exists|k: int|
            0 <= k < bs.len() && behavior_fires(
                (#[trigger] bs[k]).behavior,
                state_for(states, bs[k].source),
            ),
{
    lemma_or_from(bs, states, 0);
}

/// The tail of a concatenation sums like the second operand.
proof fn lemma_sum_concat_tail(
    bs1: Seq<DiscreteBinding>,
    bs2: Seq<DiscreteBinding>,
    states: Seq<(u32, ButtonState)>,
    dt: u32,
    axis: InputAxis,
    j: int,
)
    requires
        0 <= j <= bs2.len(),
    ensures
        discrete_axis_sum_from(bs1 + bs2, states, dt, axis, bs1.len() + j)
            == discrete_axis_sum_from(bs2, states, dt, axis, j),
    decreases bs2.len() - j,
{
    if j < bs2.len() {
        assert((bs1 + bs2)[bs1.len() + j] == bs2[j]);
        lemma_sum_concat_tail(bs1, bs2, states, dt, axis, j + 1);
    }
}

/// A concatenation, summed from a point inside the first operand, splits
/// into the remaining first operand plus the whole second operand.
proof fn lemma_sum_concat_from(
    bs1: Seq<DiscreteBinding>,
    bs2: Seq<DiscreteBinding>,
    states: Seq<(u32, ButtonState)>,
    dt: u32,
    axis: InputAxis,
    i: int,
)
    requires
        0 <= i <= bs1.len(),
    ensures
        discrete_axis_sum_from(bs1 + bs2, states, dt, axis, i) == discrete_axis_sum_from(
            bs1,
            states,
            dt,
            axis,
            i,
        ) + discrete_axis_sum(bs2, states, dt, axis),
    decreases bs1.len() - i,
{
    if i < bs1.len() {
        assert((bs1 + bs2)[i] == bs1[i]);
        lemma_sum_concat_from(bs1, bs2, states, dt, axis, i + 1);
    } else {
        lemma_sum_concat_tail(bs1, bs2, states, dt, axis, 0);
    }
}

/// Additivity: the per-axis total of a set of discrete bindings is the
/// exact sum of each binding's signed, possibly time-scaled contribution,
/// independent of evaluation order — splitting the bindings into two lists
/// and evaluating them in either order yields the same total.
pub proof fn lemma_additivity(
    bs1: Seq<DiscreteBinding>,
    bs2: Seq<DiscreteBinding>,
    states: Seq<(u32, ButtonState)>,
    dt: u32,
    axis: InputAxis,
)
    ensures
        discrete_axis_sum(bs1 + bs2, states, dt, axis) == discrete_axis_sum(bs1, states, dt, axis)
            + discrete_axis_sum(bs2, states, dt, axis),
        discrete_axis_sum(bs1 + bs2, states, dt, axis) == discrete_axis_sum(
            bs2 + bs1,
            states,
            dt,
            axis,
        ),
{
    lemma_sum_concat_from(bs1, bs2, states, dt, axis, 0);
    lemma_sum_concat_from(bs2, bs1, states, dt, axis, 0);
}

} // verus!
