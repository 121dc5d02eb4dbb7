//! The frog's controls: the left mouse button jumps, the right mouse button
//! shoots the tongue at the target under the cursor and holds it out until
//! the button is released.
use vstd::prelude::*;

verus! {

/// The two control flags of the frog.
#[derive(Clone, Copy, Debug, PartialEq, Eq, Structural)]
pub struct FrogControl {
    pub jump_active: bool,
    pub tongue_active: bool,
}

/// A button edge that the frog reacts to.
#[derive(Clone, Copy, Debug, PartialEq, Eq, Structural)]
pub enum FrogInput {
    /// The left mouse button was just pressed.
    JumpPressed,
    /// The left mouse button was just released.
    JumpReleased,
    /// The right mouse button was just pressed.
    TonguePressed,
    /// The right mouse button was just released.
    TongueReleased,
}

/// What the game does to the world in answer to an input.
#[derive(Clone, Copy, Debug, PartialEq, Eq, Structural)]
pub enum FrogAction {
    /// Add the upward jump force to the frog's body.
    Jump,
    /// Nothing beyond the change of the flags.
    Idle,
    /// Measure the distance to the target as the tongue's length, open the
    /// frog's mouth and spawn the tongue between frog and target.
    ShootTongue,
    /// Close the frog's mouth and remove every tongue.
    RetractTongue,
}

/// The flags after `input`: a jump edge sets or clears `jump_active`, a
/// tongue edge sets or clears `tongue_active`, and the other flag is kept.
pub open spec fn next_control(c: FrogControl, input: FrogInput) -> FrogControl {
    match input {
        FrogInput::JumpPressed => FrogControl { jump_active: true, ..c },
        FrogInput::JumpReleased => FrogControl { jump_active: false, ..c },
        FrogInput::TonguePressed => FrogControl { tongue_active: true, ..c },
        FrogInput::TongueReleased => FrogControl { tongue_active: false, ..c },
    }
}

/// The action that answers `input`.
pub open spec fn action_for(input: FrogInput) -> FrogAction {
    match input {
        FrogInput::JumpPressed => FrogAction::Jump,
        FrogInput::JumpReleased => FrogAction::Idle,
        FrogInput::TonguePressed => FrogAction::ShootTongue,
        FrogInput::TongueReleased => FrogAction::RetractTongue,
    }
}

/// The flags after handling `inputs` in order, starting from `c`.
pub open spec fn run(c: FrogControl, inputs: Seq<FrogInput>) -> FrogControl
    decreases inputs.len(),
{
    if inputs.len() == 0 {
        c
    } else {
        next_control(run(c, inputs.drop_last()), inputs.last())
    }
}

/// The control state of a freshly spawned frog.
pub open spec fn fresh() -> FrogControl {
    FrogControl { jump_active: false, tongue_active: false }
}

/// Some press `pressed` in `inputs` is followed by no `released`.
pub open spec fn held_since_last_press(inputs: Seq<FrogInput>, pressed: FrogInput, released: FrogInput) -> bool {
    exists|i: int|
        0 <= i < inputs.len() && inputs[i] == pressed && forall|j: int|
            i < j < inputs.len() ==> #[trigger] inputs[j] != released
}

impl FrogControl {
    /// A freshly spawned frog: neither jumping nor holding its tongue out.
    pub fn new() -> (c: FrogControl)
        ensures
            c == fresh(),
    {
        FrogControl { jump_active: false, tongue_active: false }
    }

    /// Updates the flags for `input` and says what to do to the world.
    pub fn handle(&mut self, input: FrogInput) -> (action: FrogAction)
        ensures
            *final(self) == next_control(*old(self), input),
            action == action_for(input),
    {
        match input {
            FrogInput::JumpPressed => {
                self.jump_active = true;
                FrogAction::Jump
            },
            FrogInput::JumpReleased => {
                self.jump_active = false;
                FrogAction::Idle
            },
            FrogInput::TonguePressed => {
                self.tongue_active = true;
                FrogAction::ShootTongue
            },
            FrogInput::TongueReleased => {
                self.tongue_active = false;
                FrogAction::RetractTongue
            },
        }
    }
}

/// Whether the tongue systems run this frame: true exactly when the world
/// holds a single frog (`Some`) and that frog's tongue is out.
pub fn frog_tongue_active(frog: Option<FrogControl>) -> (active: bool)
    ensures
        active == (frog matches Some(c) && c.tongue_active),
{
    match frog {
        Some(c) => c.tongue_active,
        None => false,
    }
}

/// Handling one input more: the flags of `inputs.push(e)` are those of
/// `inputs` updated by `e`.
proof fn lemma_run_push(c: FrogControl, inputs: Seq<FrogInput>, e: FrogInput)
    ensures
        run(c, inputs.push(e)) == next_control(run(c, inputs), e),
{
    assert(inputs.push(e).drop_last() =~= inputs);
}

/// From a freshly spawned frog, after any sequence of inputs, the tongue is
/// out exactly when some right press has not yet been followed by a right
/// release, and the frog is jumping exactly when some left press has not yet
/// been followed by a left release.
pub proof fn lemma_flags_follow_last_edge(inputs: Seq<FrogInput>)
    ensures
        run(fresh(), inputs).tongue_active == held_since_last_press(
            inputs,
            FrogInput::TonguePressed,
            FrogInput::TongueReleased,
        ),
        run(fresh(), inputs).jump_active == held_since_last_press(
            inputs,
            FrogInput::JumpPressed,
            FrogInput::JumpReleased,
        ),
    decreases inputs.len(),
{
    if inputs.len() > 0 {
        let prefix = inputs.drop_last();
        let e = inputs.last();
        lemma_flags_follow_last_edge(prefix);
        assert(inputs =~= prefix.push(e));
        lemma_run_push(fresh(), prefix, e);
        lemma_held_push(prefix, e, FrogInput::TonguePressed, FrogInput::TongueReleased);
        lemma_held_push(prefix, e, FrogInput::JumpPressed, FrogInput::JumpReleased);
    }
}

/// How `held_since_last_press` changes when one input is appended.
proof fn lemma_held_push(prefix: Seq<FrogInput>, e: FrogInput, pressed: FrogInput, released: FrogInput)
    requires
        pressed != released,
    ensures
        held_since_last_press(prefix.push(e), pressed, released) == if e == pressed {
            true
        } else if e == released {
            false
        } else {
            held_since_last_press(prefix, pressed, released)
        },
{
    let s = prefix.push(e);
    let n = prefix.len() as int;
    if e == pressed {
        assert(s[n] == pressed);
        assert(forall|j: int| n < j < s.len() ==> #[trigger] s[j] != released);
    } else if e == released {
        if held_since_last_press(s, pressed, released) {
            let i = choose|i: int|
                0 <= i < s.len() && s[i] == pressed && forall|j: int|
                    i < j < s.len() ==> #[trigger] s[j] != released;
            assert(i != n);
            assert(s[n] != released);
        }
    } else {
        if held_since_last_press(prefix, pressed, released) {
            let i = choose|i: int|
                0 <= i < prefix.len() && prefix[i] == pressed && forall|j: int|
                    i < j < prefix.len() ==> #[trigger] prefix[j] != released;
            assert(s[i] == pressed);
            assert forall|j: int| i < j < s.len() implies #[trigger] s[j] != released by {
                if j < n {
                    assert(s[j] == prefix[j]);
                }
            }
        }
        if held_since_last_press(s, pressed, released) {
            let i = choose|i: int|
                0 <= i < s.len() && s[i] == pressed && forall|j: int|
                    i < j < s.len() ==> #[trigger] s[j] != released;
            assert(i != n);
            assert(prefix[i] == pressed);
            assert forall|j: int| i < j < prefix.len() implies #[trigger] prefix[j] != released by {
                assert(s[j] == prefix[j]);
            }
        }
    }
}

} // verus!
