//! How an overlap between two axis-aligned bodies is resolved: along the
//! axis of least overlap, the bodies are pushed apart and their velocity
//! along that axis is stopped. Which of the two move depends only on which
//! of them are moveable.
use vstd::prelude::*;

verus! {

/// The part of the overlap by which one body of a colliding pair is pushed.
/// A body with a share other than `Zero` also has its velocity along the
/// separation axis set to zero; a body with share `Zero` is left untouched.
#[derive(Clone, Copy, Debug, PartialEq, Eq, Structural)]
pub enum PushShare {
    Zero,
    Half,
    Whole,
}

/// How each body of an overlapping pair `(a, b)` is moved: `a` along the
/// push, `b` against it.
#[derive(Clone, Copy, Debug, PartialEq, Eq, Structural)]
pub struct CollisionResponse {
    pub a: PushShare,
    pub b: PushShare,
}

/// A share counted in halves of the overlap.
pub open spec fn halves(s: PushShare) -> nat {
    match s {
        PushShare::Zero => 0,
        PushShare::Half => 1,
        PushShare::Whole => 2,
    }
}

/// The response to an overlap of a body with moveability `a_moveable` and a
/// body with moveability `b_moveable`: none when neither can move; the whole
/// overlap to the only moveable one; half to each when both can move.
pub open spec fn response_for(a_moveable: bool, b_moveable: bool) -> Option<CollisionResponse> {
    if !a_moveable && !b_moveable {
        None
    } else if a_moveable && !b_moveable {
        Some(CollisionResponse { a: PushShare::Whole, b: PushShare::Zero })
    } else if !a_moveable && b_moveable {
        Some(CollisionResponse { a: PushShare::Zero, b: PushShare::Whole })
    } else {
        Some(CollisionResponse { a: PushShare::Half, b: PushShare::Half })
    }
}

/// Decides how the overlap of two bodies is shared out between them.
pub fn collision_response(a_moveable: bool, b_moveable: bool) -> (response: Option<CollisionResponse>)
    ensures
        response == response_for(a_moveable, b_moveable),
        response is Some <==> (a_moveable || b_moveable),
        response matches Some(r) ==> {
            &&& (halves(r.a) > 0 <==> a_moveable)
            &&& (halves(r.b) > 0 <==> b_moveable)
            &&& halves(r.a) + halves(r.b) == 2
        },
{
    if !a_moveable && !b_moveable {
        None
    } else if a_moveable && !b_moveable {
        Some(CollisionResponse { a: PushShare::Whole, b: PushShare::Zero })
    } else if !a_moveable && b_moveable {
        Some(CollisionResponse { a: PushShare::Zero, b: PushShare::Whole })
    } else {
        Some(CollisionResponse { a: PushShare::Half, b: PushShare::Half })
    }
}

/// A pair of bodies is resolved exactly when at least one of them can move;
/// a body that cannot move is never pushed nor slowed; a body that can move
/// always is; and the two shares add up to the whole overlap, so the bodies
/// end up just touching.
pub proof fn lemma_response_separates(a_moveable: bool, b_moveable: bool)
    ensures
        response_for(a_moveable, b_moveable) is Some <==> (a_moveable || b_moveable),
        response_for(a_moveable, b_moveable) matches Some(r) ==> {
            &&& (halves(r.a) > 0 <==> a_moveable)
            &&& (halves(r.b) > 0 <==> b_moveable)
            &&& halves(r.a) + halves(r.b) == 2
        },
{
}

/// Swapping the two bodies swaps their shares.
pub proof fn lemma_response_symmetric(a_moveable: bool, b_moveable: bool)
    ensures
        response_for(b_moveable, a_moveable) == match response_for(a_moveable, b_moveable) {
            Some(r) => Some(CollisionResponse { a: r.b, b: r.a }),
            None => None,
        },
{
}

} // verus!
