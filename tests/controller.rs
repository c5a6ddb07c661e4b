use molotilka::controller::{next_commanded_load, within_tolerance, ControlAction, Controller};
use molotilka::percent::Percent;

#[test]
fn tolerance_is_symmetric_distance() {
    assert!(within_tolerance(Percent(11), Percent(10), Percent(1)));
    assert!(within_tolerance(Percent(9), Percent(10), Percent(1)));
    assert!(!within_tolerance(Percent(12), Percent(10), Percent(1)));
    assert!(!within_tolerance(Percent(8), Percent(10), Percent(1)));
    assert!(within_tolerance(Percent(0), Percent(0), Percent(0)));
    assert!(within_tolerance(Percent(100), Percent(99), Percent(5)));
    assert!(within_tolerance(Percent(0), Percent(3), Percent(5)));
}

#[test]
fn stepping_rule() {
    assert_eq!(next_commanded_load(Percent(10), Percent(0), Percent(50), Percent(4)), Percent(14));
    assert_eq!(next_commanded_load(Percent(48), Percent(0), Percent(50), Percent(4)), Percent(50));
    assert_eq!(next_commanded_load(Percent(10), Percent(90), Percent(50), Percent(4)), Percent(6));
    assert_eq!(next_commanded_load(Percent(3), Percent(90), Percent(50), Percent(4)), Percent(0));
    assert_eq!(next_commanded_load(Percent(99), Percent(0), Percent(100), Percent(10)), Percent(100));
}

#[test]
fn steps_up_to_target_and_caps() {
    let mut c = Controller::new(Percent(4), Percent(1));
    c.set_target(Percent(50));
    let mut sent = Vec::new();
    for _ in 0..14 {
        match c.on_sample(Percent(0)) {
            ControlAction::Broadcast(p) => sent.push(p.0),
            ControlAction::Resample => panic!("not within tolerance"),
        }
    }
    assert_eq!(sent[0], 4);
    let expected: Vec<u8> = vec![4, 8, 12, 16, 20, 24, 28, 32, 36, 40, 44, 48, 50, 50];
    assert_eq!(sent, expected);
    assert!(sent.iter().all(|p| *p <= 50));
}

#[test]
fn within_tolerance_sends_nothing() {
    let mut c = Controller::new(Percent(4), Percent(1));
    c.set_target(Percent(10));
    let before = c;
    assert_eq!(c.on_sample(Percent(11)), ControlAction::Resample);
    assert_eq!(c, before);
    assert_eq!(c.commanded_load, Percent(0));
}

#[test]
fn steps_down_when_above_target() {
    let mut c = Controller::new(Percent(4), Percent(1));
    c.set_target(Percent(30));
    for _ in 0..3 {
        c.on_sample(Percent(0));
    }
    assert_eq!(c.commanded_load, Percent(12));
    assert_eq!(c.on_sample(Percent(60)), ControlAction::Broadcast(Percent(8)));
    c.set_target(Percent(0));
    assert_eq!(c.on_sample(Percent(20)), ControlAction::Broadcast(Percent(4)));
    assert_eq!(c.on_sample(Percent(20)), ControlAction::Broadcast(Percent(0)));
    assert_eq!(c.on_sample(Percent(20)), ControlAction::Broadcast(Percent(0)));
}
