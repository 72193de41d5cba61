use rc_link::drive::EngineCommand::{Backward, Forward, Stop};
use rc_link::drive::{drive_plan, DrivePlan, EngineCommand};
use rc_link::state::{ControlStateDiffer, MachineEvents, MachineState, RemoteState};

fn state(forward: bool, backward: bool, left: bool, right: bool, lamp_enabled: bool) -> MachineState {
    MachineState { forward, backward, left, right, lamp_enabled }
}

#[test]
fn new_state_is_idle() {
    assert_eq!(MachineState::new(), state(false, false, false, false, false));
}

#[test]
fn forward_twice_then_stop() {
    let mut s = MachineState::new();
    assert!(s.update(MachineEvents::Forward));
    assert!(!s.update(MachineEvents::Forward));
    assert!(s.update(MachineEvents::Stop));
    assert!(!s.forward);
    assert!(!s.backward);
    assert!(!s.update(MachineEvents::Stop));
}

#[test]
fn light_trigger_toggles() {
    let mut s = state(true, false, true, false, false);
    let start = s;
    assert!(s.update(MachineEvents::LightTrigger));
    assert!(s.lamp_enabled);
    assert!(s.update(MachineEvents::LightTrigger));
    assert_eq!(s, start);
}

#[test]
fn axes_are_independent() {
    let mut s = MachineState::new();
    assert!(s.update(MachineEvents::Left));
    assert!(s.update(MachineEvents::Backward));
    assert_eq!(s, state(false, true, true, false, false));
    assert!(s.update(MachineEvents::Straight));
    assert_eq!(s, state(false, true, false, false, false));
    assert!(!s.update(MachineEvents::Straight));
    assert!(s.update(MachineEvents::Right));
    assert!(!s.update(MachineEvents::Right));
    assert_eq!(s, state(false, true, false, true, false));
}

#[test]
fn differ_hands_out_changes_only() {
    let mut d = ControlStateDiffer::new();
    assert_eq!(d.apply(MachineEvents::Forward), Some(state(true, false, false, false, false)));
    assert_eq!(d.apply(MachineEvents::Forward), None);
    assert_eq!(d.apply(MachineEvents::LightTrigger), Some(state(true, false, false, false, true)));
    assert_eq!(d.apply(MachineEvents::Stop), Some(state(false, false, false, false, true)));
    assert_eq!(d.apply(MachineEvents::Straight), None);
    assert_eq!(d.state(), state(false, false, false, false, true));
}

#[test]
fn remote_state_pushes_when_dirty() {
    let mut r = RemoteState::new();
    assert_eq!(r.push(), None);
    r.forward();
    r.forward();
    r.left();
    assert_eq!(r.push(), Some(state(true, false, true, false, false)));
    assert_eq!(r.push(), None);
    r.stop();
    r.straight();
    r.enable_light();
    assert_eq!(r.push(), Some(state(false, false, false, false, true)));
    r.enable_light();
    assert_eq!(r.push(), None);
    r.disable_light();
    r.backward();
    r.right();
    assert_eq!(r.push(), Some(state(false, true, false, true, false)));
}

#[test]
fn drive_plans() {
    let plan = |s: MachineState| drive_plan(&s);
    assert_eq!(plan(state(false, false, false, false, true)), DrivePlan { lamp_on: true, right: Stop, left: Stop });
    assert_eq!(plan(state(true, false, false, false, false)), DrivePlan { lamp_on: false, right: Forward, left: Forward });
    assert_eq!(plan(state(true, false, true, false, false)), DrivePlan { lamp_on: false, right: Stop, left: Backward });
    assert_eq!(plan(state(true, false, false, true, false)), DrivePlan { lamp_on: false, right: Backward, left: Stop });
    assert_eq!(plan(state(false, true, false, false, false)), DrivePlan { lamp_on: false, right: Backward, left: Backward });
    assert_eq!(plan(state(false, true, true, false, false)), DrivePlan { lamp_on: false, right: Backward, left: Stop });
    assert_eq!(plan(state(false, true, false, true, false)), DrivePlan { lamp_on: false, right: Stop, left: Backward });
    assert_eq!(plan(state(false, false, true, false, false)), DrivePlan { lamp_on: false, right: Backward, left: Forward });
    assert_eq!(plan(state(false, false, false, true, false)), DrivePlan { lamp_on: false, right: Forward, left: Backward });
}

#[test]
fn engine_pin_levels() {
    assert_eq!(EngineCommand::Forward.pin_levels(), (1, 0));
    assert_eq!(EngineCommand::Backward.pin_levels(), (0, 1));
    assert_eq!(EngineCommand::Stop.pin_levels(), (0, 0));
}
