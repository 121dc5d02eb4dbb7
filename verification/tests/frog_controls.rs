use frog_swing::player::{frog_tongue_active, FrogAction, FrogControl, FrogInput};

#[test]
fn fresh_frog_is_idle() {
    let c = FrogControl::new();
    assert!(!c.jump_active);
    assert!(!c.tongue_active);
    assert!(!frog_tongue_active(Some(c)));
}

#[test]
fn jump_press_and_release() {
    let mut c = FrogControl::new();
    assert_eq!(c.handle(FrogInput::JumpPressed), FrogAction::Jump);
    assert_eq!(c, FrogControl { jump_active: true, tongue_active: false });
    assert_eq!(c.handle(FrogInput::JumpReleased), FrogAction::Idle);
    assert_eq!(c, FrogControl { jump_active: false, tongue_active: false });
}

#[test]
fn tongue_press_and_release() {
    let mut c = FrogControl::new();
    assert_eq!(c.handle(FrogInput::TonguePressed), FrogAction::ShootTongue);
    assert!(c.tongue_active);
    assert!(frog_tongue_active(Some(c)));
    assert_eq!(c.handle(FrogInput::TongueReleased), FrogAction::RetractTongue);
    assert!(!c.tongue_active);
    assert!(!frog_tongue_active(Some(c)));
}

#[test]
fn jump_leaves_tongue_alone() {
    let mut c = FrogControl::new();
    c.handle(FrogInput::TonguePressed);
    c.handle(FrogInput::JumpPressed);
    assert_eq!(c, FrogControl { jump_active: true, tongue_active: true });
    c.handle(FrogInput::JumpReleased);
    assert_eq!(c, FrogControl { jump_active: false, tongue_active: true });
    c.handle(FrogInput::TongueReleased);
    c.handle(FrogInput::JumpPressed);
    assert_eq!(c, FrogControl { jump_active: true, tongue_active: false });
}

#[test]
fn tongue_follows_last_right_edge() {
    let inputs = [
        FrogInput::TonguePressed,
        FrogInput::JumpPressed,
        FrogInput::TongueReleased,
        FrogInput::JumpReleased,
        FrogInput::TonguePressed,
        FrogInput::JumpPressed,
    ];
    let mut c = FrogControl::new();
    for input in inputs {
        c.handle(input);
    }
    assert!(c.tongue_active);
    assert!(c.jump_active);
    c.handle(FrogInput::TonguePressed);
    assert!(c.tongue_active);
}

#[test]
fn no_single_frog_means_no_tongue() {
    assert!(!frog_tongue_active(None));
}
