//! The machine-state snapshot and the event rules that change it.
use vstd::prelude::*;

verus! {

/// What the operator wants the robot to do: the snapshot that is sent.
#[derive(Debug, Clone, Copy, PartialEq, Eq, Structural)]
pub struct MachineState {
    pub forward: bool,
    pub backward: bool,
    pub left: bool,
    pub right: bool,
    pub lamp_enabled: bool,
}

/// The closed set of operator intents.
#[derive(Debug, Clone, Copy, PartialEq, Eq, Structural)]
pub enum MachineEvents {
    Forward,
    Backward,
    Stop,
    Left,
    Right,
    Straight,
    LightTrigger,
}

/// The state with every field cleared.
pub open spec fn idle_state() -> MachineState {
    MachineState { forward: false, backward: false, left: false, right: false, lamp_enabled: false }
}

/// The state after `e` is applied to `s`. The longitudinal axis, the
/// lateral axis and the lamp change independently.
pub open spec fn apply_event(s: MachineState, e: MachineEvents) -> MachineState {
    match e {
        MachineEvents::Forward => MachineState { forward: true, ..s },
        MachineEvents::Backward => MachineState { backward: true, ..s },
        MachineEvents::Stop => MachineState { forward: false, backward: false, ..s },
        MachineEvents::Left => MachineState { left: true, ..s },
        MachineEvents::Right => MachineState { right: true, ..s },
        MachineEvents::Straight => MachineState { left: false, right: false, ..s },
        MachineEvents::LightTrigger => MachineState { lamp_enabled: !s.lamp_enabled, ..s },
    }
}

/// Whether applying `e` to `s` changes anything.
pub open spec fn event_changes(s: MachineState, e: MachineEvents) -> bool {
    match e {
        MachineEvents::Forward => !s.forward,
        MachineEvents::Backward => !s.backward,
        MachineEvents::Stop => s.forward || s.backward,
        MachineEvents::Left => !s.left,
        MachineEvents::Right => !s.right,
        MachineEvents::Straight => s.left || s.right,
        MachineEvents::LightTrigger => true,
    }
}

impl MachineState {
    /// The idle state: not moving, not turning, lamp off.
    pub fn new() -> (r: MachineState)
        ensures
            r == idle_state(),
    {
        MachineState { forward: false, backward: false, left: false, right: false, lamp_enabled: false }
    }

    /// Applies `event` and says whether the state changed.
    pub fn update(&mut self, event: MachineEvents) -> (changed: bool)
        ensures
            *final(self) == apply_event(*old(self), event),
            changed == event_changes(*old(self), event),
    {
        match event {
            MachineEvents::Forward => {
                if !self.forward {
                    self.forward = true;
                    true
                } else {
                    false
                }
            },
            MachineEvents::Backward => {
                if !self.backward {
                    self.backward = true;
                    true
                } else {
                    false
                }
            },
            MachineEvents::Stop => {
                if self.forward || self.backward {
                    self.forward = false;
                    self.backward = false;
                    true
                } else {
                    false
                }
            },
            MachineEvents::Left => {
                if !self.left {
                    self.left = true;
                    true
                } else {
                    false
                }
            },
            MachineEvents::Right => {
                if !self.right {
                    self.right = true;
                    true
                } else {
                    false
                }
            },
            MachineEvents::Straight => {
                if self.left || self.right {
                    self.left = false;
                    self.right = false;
                    true
                } else {
                    false
                }
            },
            MachineEvents::LightTrigger => {
                self.lamp_enabled = !self.lamp_enabled;
                true
            },
        }
    }
}

/// An event reports a change exactly when the state it leaves behind
/// differs from the one it found.
pub proof fn lemma_changed_iff_different(s: MachineState, e: MachineEvents)
    ensures
        event_changes(s, e) <==> apply_event(s, e) != s,
{
}

/// Every event but the lamp toggle is idempotent: applied a second time in a
/// row it reports no change and leaves the state as it is.
pub proof fn lemma_event_idempotent(s: MachineState, e: MachineEvents)
    requires
        e != MachineEvents::LightTrigger,
    ensures
        !event_changes(apply_event(s, e), e),
        apply_event(apply_event(s, e), e) == apply_event(s, e),
{
}

/// `Forward` twice in a row reports a change and then none; a `Stop` after
/// them reports a change and leaves the robot neither going forward nor
/// backward.
pub proof fn lemma_forward_then_stop(s: MachineState)
    requires
        !s.forward,
    ensures
        event_changes(s, MachineEvents::Forward),
        !event_changes(apply_event(s, MachineEvents::Forward), MachineEvents::Forward),
        event_changes(
            apply_event(apply_event(s, MachineEvents::Forward), MachineEvents::Forward),
            MachineEvents::Stop,
        ),
        !apply_event(
            apply_event(apply_event(s, MachineEvents::Forward), MachineEvents::Forward),
            MachineEvents::Stop,
        ).forward,
        !apply_event(
            apply_event(apply_event(s, MachineEvents::Forward), MachineEvents::Forward),
            MachineEvents::Stop,
        ).backward,
{
}

/// The lamp toggle always reports a change, and two toggles in a row give
/// back the state they started from.
pub proof fn lemma_light_trigger_toggles(s: MachineState)
    ensures
        event_changes(s, MachineEvents::LightTrigger),
        apply_event(s, MachineEvents::LightTrigger).lamp_enabled == !s.lamp_enabled,
        apply_event(apply_event(s, MachineEvents::LightTrigger), MachineEvents::LightTrigger)
            == s,
{
}

/// Holds the current intent and hands out a snapshot only when an event
/// changed it, so that traffic follows changes of intent and nothing else.
pub struct ControlStateDiffer {
    state: MachineState,
}

impl View for ControlStateDiffer {
    type V = MachineState;

    /// The current intent.
    closed spec fn view(&self) -> MachineState {
        self.state
    }
}

impl ControlStateDiffer {
    /// A differ that starts from the idle state.
    pub fn new() -> (r: ControlStateDiffer)
        ensures
            r@ == idle_state(),
    {
        ControlStateDiffer { state: MachineState::new() }
    }

    /// The current intent.
    pub fn state(&self) -> (r: MachineState)
        ensures
            r == self@,
    {
        self.state
    }

    /// Applies `event`; the new snapshot is returned for sending when it
    /// differs from the previous one, and `None` otherwise.
    pub fn apply(&mut self, event: MachineEvents) -> (r: Option<MachineState>)
        ensures
            final(self)@ == apply_event(old(self)@, event),
            event_changes(old(self)@, event) ==> r == Some(final(self)@),
            !event_changes(old(self)@, event) ==> r is None,
    {
        if self.state.update(event) {
            Some(self.state)
        } else {
            None
        }
    }
}

/// A machine state with a mark for changes that were not sent yet, moved
/// by one method per intent.
pub struct RemoteState {
    state: MachineState,
    dirty: bool,
}

impl RemoteState {
    pub closed spec fn state(&self) -> MachineState {
        self.state
    }

    /// Whether the state changed since it was last handed out.
    pub closed spec fn dirty(&self) -> bool {
        self.dirty
    }

    /// The idle state, with nothing to send.
    pub fn new() -> (r: RemoteState)
        ensures
            r.state() == idle_state(),
            !r.dirty(),
    {
        RemoteState { state: MachineState::new(), dirty: false }
    }

    fn apply(&mut self, event: MachineEvents)
        ensures
            final(self).state() == apply_event(old(self).state(), event),
            final(self).dirty() == (old(self).dirty() || event_changes(old(self).state(), event)),
    {
        if self.state.update(event) {
            self.dirty = true;
        }
    }

    pub fn forward(&mut self)
        ensures
            final(self).state() == apply_event(old(self).state(), MachineEvents::Forward),
            final(self).dirty() == (old(self).dirty() || !old(self).state().forward),
    {
        self.apply(MachineEvents::Forward);
    }

    pub fn backward(&mut self)
        ensures
            final(self).state() == apply_event(old(self).state(), MachineEvents::Backward),
            final(self).dirty() == (old(self).dirty() || !old(self).state().backward),
    {
        self.apply(MachineEvents::Backward);
    }

    pub fn stop(&mut self)
        ensures
            final(self).state() == apply_event(old(self).state(), MachineEvents::Stop),
            final(self).dirty() == (old(self).dirty() || old(self).state().forward
                || old(self).state().backward),
    {
        self.apply(MachineEvents::Stop);
    }

    pub fn left(&mut self)
        ensures
            final(self).state() == apply_event(old(self).state(), MachineEvents::Left),
            final(self).dirty() == (old(self).dirty() || !old(self).state().left),
    {
        self.apply(MachineEvents::Left);
    }

    pub fn right(&mut self)
        ensures
            final(self).state() == apply_event(old(self).state(), MachineEvents::Right),
            final(self).dirty() == (old(self).dirty() || !old(self).state().right),
    {
        self.apply(MachineEvents::Right);
    }

    pub fn straight(&mut self)
        ensures
            final(self).state() == apply_event(old(self).state(), MachineEvents::Straight),
            final(self).dirty() == (old(self).dirty() || old(self).state().left
                || old(self).state().right),
    {
        self.apply(MachineEvents::Straight);
    }

    /// Turns the lamp on.
    pub fn enable_light(&mut self)
        ensures
            final(self).state() == (MachineState { lamp_enabled: true, ..old(self).state() }),
            final(self).dirty() == (old(self).dirty() || !old(self).state().lamp_enabled),
    {
        if !self.state.lamp_enabled {
            self.state.lamp_enabled = true;
            self.dirty = true;
        }
    }

    /// Turns the lamp off.
    pub fn disable_light(&mut self)
        ensures
            final(self).state() == (MachineState { lamp_enabled: false, ..old(self).state() }),
            final(self).dirty() == (old(self).dirty() || old(self).state().lamp_enabled),
    {
        if self.state.lamp_enabled {
            self.state.lamp_enabled = false;
            self.dirty = true;
        }
    }

    /// The state to send, if it changed since it was last handed out; it is
    /// then no longer marked as changed.
    pub fn push(&mut self) -> (r: Option<MachineState>)
        ensures
            final(self).state() == old(self).state(),
            !final(self).dirty(),
            old(self).dirty() ==> r == Some(old(self).state()),
            !old(self).dirty() ==> r is None,
    {
        if self.dirty {
            self.dirty = false;
            Some(self.state)
        } else {
            None
        }
    }
}

} // verus!
