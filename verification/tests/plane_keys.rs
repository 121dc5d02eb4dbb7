use frog_swing::input::{control_steps, ControlKeys, ControlStep, ControlSurface};

fn no_keys() -> ControlKeys {
    ControlKeys {
        key_a: false,
        key_d: false,
        key_s: false,
        key_w: false,
        key_q: false,
        key_e: false,
        key_f: false,
        key_v: false,
    }
}

fn step(surface: ControlSurface, raise: bool) -> ControlStep {
    ControlStep { surface, raise }
}

#[test]
fn no_keys_no_steps() {
    assert_eq!(control_steps(&no_keys()), vec![]);
}

#[test]
fn each_key_moves_its_surface() {
    let cases = [
        (ControlKeys { key_a: true, ..no_keys() }, step(ControlSurface::Aileron, false)),
        (ControlKeys { key_d: true, ..no_keys() }, step(ControlSurface::Aileron, true)),
        (ControlKeys { key_s: true, ..no_keys() }, step(ControlSurface::Elevator, true)),
        (ControlKeys { key_w: true, ..no_keys() }, step(ControlSurface::Elevator, false)),
        (ControlKeys { key_q: true, ..no_keys() }, step(ControlSurface::Rudder, false)),
        (ControlKeys { key_e: true, ..no_keys() }, step(ControlSurface::Rudder, true)),
        (ControlKeys { key_f: true, ..no_keys() }, step(ControlSurface::Throttle, true)),
        (ControlKeys { key_v: true, ..no_keys() }, step(ControlSurface::Throttle, false)),
    ];
    for (keys, expected) in cases {
        assert_eq!(control_steps(&keys), vec![expected]);
    }
}

#[test]
fn all_keys_in_binding_order() {
    let keys = ControlKeys {
        key_a: true,
        key_d: true,
        key_s: true,
        key_w: true,
        key_q: true,
        key_e: true,
        key_f: true,
        key_v: true,
    };
    assert_eq!(
        control_steps(&keys),
        vec![
            step(ControlSurface::Aileron, false),
            step(ControlSurface::Aileron, true),
            step(ControlSurface::Elevator, true),
            step(ControlSurface::Elevator, false),
            step(ControlSurface::Rudder, false),
            step(ControlSurface::Rudder, true),
            step(ControlSurface::Throttle, true),
            step(ControlSurface::Throttle, false),
        ]
    );
}

#[test]
fn throttle_and_rudder_together() {
    let keys = ControlKeys { key_e: true, key_v: true, ..no_keys() };
    assert_eq!(
        control_steps(&keys),
        vec![step(ControlSurface::Rudder, true), step(ControlSurface::Throttle, false)]
    );
}
