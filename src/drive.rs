//! How the robot turns a machine state into commands for its two engines
//! and its lamp.
use vstd::prelude::*;
use crate::state::MachineState;

verus! {

/// What one engine is told to do.
#[derive(Debug, Clone, Copy, PartialEq, Eq, Structural)]
pub enum EngineCommand {
    Forward,
    Backward,
    Stop,
}

/// The commands for the lamp and both engines that carry out one state.
#[derive(Debug, Clone, Copy, PartialEq, Eq, Structural)]
pub struct DrivePlan {
    pub lamp_on: bool,
    pub right: EngineCommand,
    pub left: EngineCommand,
}

/// The plan for `s`. Going forward or backward, a turn stops the engine on
/// the inner side; forward, the outer engine runs backward, as the wiring
/// of the robot wants. Turning on the spot runs the engines against each
/// other.
pub open spec fn plan_for(s: MachineState) -> DrivePlan {
    let (right, left) = if s.forward {
        if s.left {
            (EngineCommand::Stop, EngineCommand::Backward)
        } else if s.right {
            (EngineCommand::Backward, EngineCommand::Stop)
        } else {
            (EngineCommand::Forward, EngineCommand::Forward)
        }
    } else if s.backward {
        if s.left {
            (EngineCommand::Backward, EngineCommand::Stop)
        } else if s.right {
            (EngineCommand::Stop, EngineCommand::Backward)
        } else {
            (EngineCommand::Backward, EngineCommand::Backward)
        }
    } else if s.left {
        (EngineCommand::Backward, EngineCommand::Forward)
    } else if s.right {
        (EngineCommand::Forward, EngineCommand::Backward)
    } else {
        (EngineCommand::Stop, EngineCommand::Stop)
    };
    DrivePlan { lamp_on: s.lamp_enabled, right, left }
}

/// The plan that carries out `state`.
pub fn drive_plan(state: &MachineState) -> (r: DrivePlan)
    ensures
        r == plan_for(*state),
{
    let (right, left) = if state.forward {
        if state.left {
            (EngineCommand::Stop, EngineCommand::Backward)
        } else if state.right {
            (EngineCommand::Backward, EngineCommand::Stop)
        } else {
            (EngineCommand::Forward, EngineCommand::Forward)
        }
    } else if state.backward {
        if state.left {
            (EngineCommand::Backward, EngineCommand::Stop)
        } else if state.right {
            (EngineCommand::Stop, EngineCommand::Backward)
        } else {
            (EngineCommand::Backward, EngineCommand::Backward)
        }
    } else if state.left {
        (EngineCommand::Backward, EngineCommand::Forward)
    } else if state.right {
        (EngineCommand::Forward, EngineCommand::Backward)
    } else {
        (EngineCommand::Stop, EngineCommand::Stop)
    };
    DrivePlan { lamp_on: state.lamp_enabled, right, left }
}

impl EngineCommand {
    /// The values of the engine's two pins: the first drives it forward,
    /// the second backward, and both low stop it.
    pub fn pin_levels(self) -> (r: (u8, u8))
        ensures
            self == EngineCommand::Forward ==> r == (1u8, 0u8),
            self == EngineCommand::Backward ==> r == (0u8, 1u8),
            self == EngineCommand::Stop ==> r == (0u8, 0u8),
    {
        match self {
            EngineCommand::Forward => (1, 0),
            EngineCommand::Backward => (0, 1),
            EngineCommand::Stop => (0, 0),
        }
    }
}

} // verus!
