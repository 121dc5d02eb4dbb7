//! Keyboard bindings of the plane's controls: A/D move the ailerons, S/W the
//! elevator, Q/E the rudder and F/V the throttle, one step per pressed key
//! and frame.
use vstd::prelude::*;

verus! {

/// The keys that steer the plane, each `true` while it is held.
#[derive(Clone, Copy, Debug, PartialEq, Eq, Structural)]
pub struct ControlKeys {
    pub key_a: bool,
    pub key_d: bool,
    pub key_s: bool,
    pub key_w: bool,
    pub key_q: bool,
    pub key_e: bool,
    pub key_f: bool,
    pub key_v: bool,
}

/// A control of the plane that the keyboard moves.
#[derive(Clone, Copy, Debug, PartialEq, Eq, Structural)]
pub enum ControlSurface {
    Aileron,
    Elevator,
    Rudder,
    Throttle,
}

/// One step of one control: up by its step size when `raise`, down otherwise.
#[derive(Clone, Copy, Debug, PartialEq, Eq, Structural)]
pub struct ControlStep {
    pub surface: ControlSurface,
    pub raise: bool,
}

/// `step` when `pressed`, nothing otherwise.
pub open spec fn step_if(pressed: bool, surface: ControlSurface, raise: bool) -> Seq<ControlStep> {
    if pressed {
        seq![ControlStep { surface, raise }]
    } else {
        seq![]
    }
}

/// The steps of one frame, in the order in which they are applied:
/// A lowers and D raises the ailerons, S raises and W lowers the elevator,
/// Q lowers and E raises the rudder, F raises and V lowers the throttle.
pub open spec fn steps_for(keys: ControlKeys) -> Seq<ControlStep> {
    step_if(keys.key_a, ControlSurface::Aileron, false)
        + step_if(keys.key_d, ControlSurface::Aileron, true)
        + step_if(keys.key_s, ControlSurface::Elevator, true)
        + step_if(keys.key_w, ControlSurface::Elevator, false)
        + step_if(keys.key_q, ControlSurface::Rudder, false)
        + step_if(keys.key_e, ControlSurface::Rudder, true)
        + step_if(keys.key_f, ControlSurface::Throttle, true)
        + step_if(keys.key_v, ControlSurface::Throttle, false)
}

/// Whether the key bound to `step` is held: A lowers and D raises the
/// ailerons, S raises and W lowers the elevator, Q lowers and E raises the
/// rudder, F raises and V lowers the throttle.
pub open spec fn bound_key_held(keys: ControlKeys, step: ControlStep) -> bool {
    match (step.surface, step.raise) {
        (ControlSurface::Aileron, false) => keys.key_a,
        (ControlSurface::Aileron, true) => keys.key_d,
        (ControlSurface::Elevator, true) => keys.key_s,
        (ControlSurface::Elevator, false) => keys.key_w,
        (ControlSurface::Rudder, false) => keys.key_q,
        (ControlSurface::Rudder, true) => keys.key_e,
        (ControlSurface::Throttle, true) => keys.key_f,
        (ControlSurface::Throttle, false) => keys.key_v,
    }
}

/// Position of the key bound to `step` in the order A, D, S, W, Q, E, F, V.
pub open spec fn key_rank(step: ControlStep) -> int {
    match (step.surface, step.raise) {
        (ControlSurface::Aileron, false) => 0,
        (ControlSurface::Aileron, true) => 1,
        (ControlSurface::Elevator, true) => 2,
        (ControlSurface::Elevator, false) => 3,
        (ControlSurface::Rudder, false) => 4,
        (ControlSurface::Rudder, true) => 5,
        (ControlSurface::Throttle, true) => 6,
        (ControlSurface::Throttle, false) => 7,
    }
}

/// `steps` holds, in key order and each once, exactly the steps of the held
/// keys whose rank is below `bound`.
pub open spec fn held_steps_below(keys: ControlKeys, steps: Seq<ControlStep>, bound: int) -> bool {
    &&& forall|i: int| 0 <= i < steps.len() ==> bound_key_held(keys, #[trigger] steps[i])
    &&& forall|i: int| 0 <= i < steps.len() ==> key_rank(#[trigger] steps[i]) < bound
    &&& forall|i: int, j: int|
        0 <= i < j < steps.len() ==> key_rank(#[trigger] steps[i]) < key_rank(#[trigger] steps[j])
    &&& forall|x: ControlStep| key_rank(x) < bound && bound_key_held(keys, x) ==> #[trigger] steps.contains(x)
}

/// Appending the step of the key of rank `bound` keeps `held_steps_below`.
proof fn lemma_append_key(
    keys: ControlKeys,
    steps: Seq<ControlStep>,
    bound: int,
    pressed: bool,
    surface: ControlSurface,
    raise: bool,
)
    requires
        held_steps_below(keys, steps, bound),
        key_rank(ControlStep { surface, raise }) == bound,
        pressed == bound_key_held(keys, ControlStep { surface, raise }),
    ensures
        held_steps_below(keys, steps + step_if(pressed, surface, raise), bound + 1),
{
    let next = steps + step_if(pressed, surface, raise);
    let step = ControlStep { surface, raise };
    assert forall|i: int| 0 <= i < next.len() implies bound_key_held(keys, #[trigger] next[i]) && key_rank(
        next[i],
    ) < bound + 1 by {
        if i < steps.len() {
            assert(next[i] == steps[i]);
        } else {
            assert(next[i] == step);
        }
    }
    assert forall|i: int, j: int| 0 <= i < j < next.len() implies key_rank(#[trigger] next[i]) < key_rank(
        #[trigger] next[j],
    ) by {
        assert(next[i] == steps[i]);
        if j < steps.len() {
            assert(next[j] == steps[j]);
        } else {
            assert(next[j] == step);
        }
    }
    assert forall|x: ControlStep| key_rank(x) < bound + 1 && bound_key_held(keys, x) implies #[trigger] next.contains(
        x,
    ) by {
        if key_rank(x) < bound {
            assert(steps.contains(x));
            let i = choose|i: int| 0 <= i < steps.len() && steps[i] == x;
            assert(next[i] == x);
        } else {
            assert(x == step);
            assert(next[steps.len() as int] == x);
        }
    }
}

/// Each held key contributes its own step, whatever the other keys are:
/// every step of a frame belongs to a held key, the steps come in the key
/// order A, D, S, W, Q, E, F, V with no step twice, and every held key's step
/// is among them. So holding F always raises the throttle once, holding S
/// always raises the elevator once, holding Q always lowers the rudder once,
/// and so on for each key, independently of the rest.
pub proof fn lemma_steps_follow_held_keys(keys: ControlKeys)
    ensures
        forall|i: int| 0 <= i < steps_for(keys).len() ==> bound_key_held(keys, #[trigger] steps_for(keys)[i]),
        forall|i: int, j: int|
            0 <= i < j < steps_for(keys).len() ==> key_rank(#[trigger] steps_for(keys)[i]) < key_rank(
                #[trigger] steps_for(keys)[j],
            ),
        forall|x: ControlStep| bound_key_held(keys, x) <==> #[trigger] steps_for(keys).contains(x),
{
    let s0 = Seq::<ControlStep>::empty();
    let s1 = s0 + step_if(keys.key_a, ControlSurface::Aileron, false);
    lemma_append_key(keys, s0, 0, keys.key_a, ControlSurface::Aileron, false);
    let s2 = s1 + step_if(keys.key_d, ControlSurface::Aileron, true);
    lemma_append_key(keys, s1, 1, keys.key_d, ControlSurface::Aileron, true);
    let s3 = s2 + step_if(keys.key_s, ControlSurface::Elevator, true);
    lemma_append_key(keys, s2, 2, keys.key_s, ControlSurface::Elevator, true);
    let s4 = s3 + step_if(keys.key_w, ControlSurface::Elevator, false);
    lemma_append_key(keys, s3, 3, keys.key_w, ControlSurface::Elevator, false);
    let s5 = s4 + step_if(keys.key_q, ControlSurface::Rudder, false);
    lemma_append_key(keys, s4, 4, keys.key_q, ControlSurface::Rudder, false);
    let s6 = s5 + step_if(keys.key_e, ControlSurface::Rudder, true);
    lemma_append_key(keys, s5, 5, keys.key_e, ControlSurface::Rudder, true);
    let s7 = s6 + step_if(keys.key_f, ControlSurface::Throttle, true);
    lemma_append_key(keys, s6, 6, keys.key_f, ControlSurface::Throttle, true);
    let s8 = s7 + step_if(keys.key_v, ControlSurface::Throttle, false);
    lemma_append_key(keys, s7, 7, keys.key_v, ControlSurface::Throttle, false);
    assert(s0 + step_if(keys.key_a, ControlSurface::Aileron, false) =~= step_if(
        keys.key_a,
        ControlSurface::Aileron,
        false,
    ));
    assert(s8 =~= steps_for(keys));
    assert forall|x: ControlStep| #[trigger] s8.contains(x) implies bound_key_held(keys, x) by {
        let i = choose|i: int| 0 <= i < s8.len() && s8[i] == x;
        assert(bound_key_held(keys, s8[i]));
    }
    assert forall|x: ControlStep| bound_key_held(keys, x) implies #[trigger] s8.contains(x) by {
        assert(key_rank(x) < 8);
    }
}

/// Appends `step` to `steps` when `pressed`.
fn push_if(steps: &mut Vec<ControlStep>, pressed: bool, surface: ControlSurface, raise: bool)
    ensures
        final(steps)@ == old(steps)@ + step_if(pressed, surface, raise),
{
    if pressed {
        steps.push(ControlStep { surface, raise });
    }
    proof {
        if !pressed {
            assert(old(steps)@ + step_if(pressed, surface, raise) =~= old(steps)@);
        }
    }
}

/// The control steps that the held keys call for in one frame.
pub fn control_steps(keys: &ControlKeys) -> (steps: Vec<ControlStep>)
    ensures
        steps@ == steps_for(*keys),
        forall|i: int| 0 <= i < steps@.len() ==> bound_key_held(*keys, #[trigger] steps@[i]),
        forall|i: int, j: int|
            0 <= i < j < steps@.len() ==> key_rank(#[trigger] steps@[i]) < key_rank(#[trigger] steps@[j]),
        forall|x: ControlStep| bound_key_held(*keys, x) <==> #[trigger] steps@.contains(x),
{
    let mut steps: Vec<ControlStep> = Vec::new();
    push_if(&mut steps, keys.key_a, ControlSurface::Aileron, false);
    push_if(&mut steps, keys.key_d, ControlSurface::Aileron, true);
    push_if(&mut steps, keys.key_s, ControlSurface::Elevator, true);
    push_if(&mut steps, keys.key_w, ControlSurface::Elevator, false);
    push_if(&mut steps, keys.key_q, ControlSurface::Rudder, false);
    push_if(&mut steps, keys.key_e, ControlSurface::Rudder, true);
    push_if(&mut steps, keys.key_f, ControlSurface::Throttle, true);
    push_if(&mut steps, keys.key_v, ControlSurface::Throttle, false);
    assert(steps@ =~= steps_for(*keys));
    proof {
        lemma_steps_follow_held_keys(*keys);
    }
    steps
}

} // verus!
