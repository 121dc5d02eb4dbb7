use frog_swing::physics::{collision_response, CollisionResponse, PushShare};

fn halves(s: PushShare) -> u32 {
    match s {
        PushShare::Zero => 0,
        PushShare::Half => 1,
        PushShare::Whole => 2,
    }
}

#[test]
fn two_static_bodies_are_left_alone() {
    assert_eq!(collision_response(false, false), None);
}

#[test]
fn only_the_moveable_body_is_pushed() {
    assert_eq!(
        collision_response(true, false),
        Some(CollisionResponse { a: PushShare::Whole, b: PushShare::Zero })
    );
    assert_eq!(
        collision_response(false, true),
        Some(CollisionResponse { a: PushShare::Zero, b: PushShare::Whole })
    );
}

#[test]
fn two_moveable_bodies_share_the_push() {
    assert_eq!(
        collision_response(true, true),
        Some(CollisionResponse { a: PushShare::Half, b: PushShare::Half })
    );
}

#[test]
fn shares_cover_the_overlap_and_are_symmetric() {
    for a in [false, true] {
        for b in [false, true] {
            match (collision_response(a, b), collision_response(b, a)) {
                (Some(r), Some(s)) => {
                    assert_eq!(halves(r.a) + halves(r.b), 2);
                    assert_eq!((r.a, r.b), (s.b, s.a));
                    assert_eq!(halves(r.a) > 0, a);
                    assert_eq!(halves(r.b) > 0, b);
                }
                (None, None) => assert!(!a && !b),
                _ => panic!("asymmetric response"),
            }
        }
    }
}
