use vstd::prelude::*;

use crate::machine::{GlobalPickingState, PickingStateMachine, PressState};
use crate::types::{EntityId, MouseButton, Position};

verus! {

/// A picking transition event. `down` is where the press started and `time`
/// how long it lasted, in nanoseconds.
#[derive(Clone, Copy, Debug, PartialEq, Eq, Structural)]
pub enum PickingTransition {
    Pressed { entity: EntityId, button: MouseButton },
    Released {
        entity: EntityId,
        button: MouseButton,
        down: Position,
        time: u64,
        outside: bool,
    },
    HoverEnter { entity: EntityId },
    HoverExit { entity: EntityId },
    Cancelled { entity: EntityId, button: MouseButton, down: Position, time: u64 },
}

impl PickingTransition {
    /// The entity the event is addressed to.
    pub open spec fn target(self) -> EntityId {
        match self {
            PickingTransition::Pressed { entity, .. } => entity,
            PickingTransition::Released { entity, .. } => entity,
            PickingTransition::HoverEnter { entity } => entity,
            PickingTransition::HoverExit { entity } => entity,
            PickingTransition::Cancelled { entity, .. } => entity,
        }
    }

    pub fn entity(&self) -> (r: EntityId)
        ensures
            r == self.target(),
    {
        match *self {
            PickingTransition::Pressed { entity, .. } => entity,
            PickingTransition::Released { entity, .. } => entity,
            PickingTransition::HoverEnter { entity } => entity,
            PickingTransition::HoverExit { entity } => entity,
            PickingTransition::Cancelled { entity, .. } => entity,
        }
    }
}

/// The transitions of one frame: none, one, or an ending followed by a
/// beginning.
#[derive(Clone, Copy, Debug, PartialEq, Eq, Structural)]
pub enum PickingTransitions {
    Empty,
    One(PickingTransition),
    FromTo(PickingTransition, PickingTransition),
}

impl Default for PickingTransitions {
    fn default() -> (r: Self)
        ensures
            r == PickingTransitions::Empty,
    {
        PickingTransitions::Empty
    }
}

impl View for PickingTransitions {
    type V = Seq<PickingTransition>;

    /// The events in order.
    open spec fn view(&self) -> Seq<PickingTransition> {
        match *self {
            PickingTransitions::Empty => seq![],
            PickingTransitions::One(t) => seq![t],
            PickingTransitions::FromTo(a, b) => seq![a, b],
        }
    }
}

/// The first event of `s` addressed to `e`, if any.
pub open spec fn first_for(s: Seq<PickingTransition>, e: EntityId) -> Option<PickingTransition>
    decreases s.len(),
{
    if s.len() == 0 {
        None
    } else if s[0].target() == e {
        Some(s[0])
    } else {
        first_for(s.drop_first(), e)
    }
}

impl PickingTransitions {
    pub open spec fn find_spec(self, e: EntityId) -> Option<PickingTransition> {
        first_for(self@, e)
    }

    pub fn len(&self) -> (r: usize)
        ensures
            r == self@.len(),
    {
        match self {
            PickingTransitions::Empty => 0,
            PickingTransitions::One(_) => 1,
            PickingTransitions::FromTo(_, _) => 2,
        }
    }

    /// The events in order.
    pub fn iter(&self) -> (r: Vec<PickingTransition>)
        ensures
            r@ == self@,
    {
        match *self {
            PickingTransitions::Empty => Vec::new(),
            PickingTransitions::One(t) => vec![t],
            PickingTransitions::FromTo(a, b) => vec![a, b],
        }
    }

    /// The first event addressed to `e`, if any.
    pub fn find_entity(&self, e: EntityId) -> (r: Option<PickingTransition>)
        ensures
            r == self.find_spec(e),
    {
        proof {
            reveal_with_fuel(first_for, 3);
        }
        match *self {
            PickingTransitions::Empty => None,
            PickingTransitions::One(t) => {
                if t.entity() == e {
                    Some(t)
                } else {
                    None
                }
            },
            PickingTransitions::FromTo(a, b) => {
                assert(seq![a, b].drop_first() == seq![b]);
                assert(seq![b].drop_first().len() == 0);
                if a.entity() == e {
                    Some(a)
                } else if b.entity() == e {
                    Some(b)
                } else {
                    None
                }
            },
        }
    }
}

/// How long the recorded press has lasted at `now`; 0 without a record.
pub open spec fn elapsed(press: Option<PressState>, now: u64) -> u64 {
    match press {
        Some(p) => if now >= p.time {
            (now - p.time) as u64
        } else {
            0
        },
        None => 0,
    }
}

/// The button of the recorded press; the left button without a record.
pub open spec fn press_button(press: Option<PressState>) -> MouseButton {
    match press {
        Some(p) => p.button,
        None => MouseButton::Left,
    }
}

/// Where the recorded press started; the origin without a record.
pub open spec fn press_down(press: Option<PressState>) -> Position {
    match press {
        Some(p) => p.position,
        None => Position::origin(),
    }
}

/// The transitions from `previous` to `current`. `post_cancel` tells that the
/// frame is after a cancellation, `fresh` that the held button went down in
/// this frame.
pub open spec fn transitions_for(
    previous: GlobalPickingState,
    current: GlobalPickingState,
    press: Option<PressState>,
    post_cancel: bool,
    fresh: bool,
    now: u64,
) -> PickingTransitions {
    let time = elapsed(press, now);
    let button = press_button(press);
    let down = press_down(press);
    let released = |e: EntityId, outside: bool|
        PickingTransition::Released { entity: e, button, down, time, outside };
    match (previous, current) {
        (GlobalPickingState::Idle, GlobalPickingState::Idle) => PickingTransitions::Empty,
        (GlobalPickingState::Idle, GlobalPickingState::Hover { entity }) => PickingTransitions::One(
            PickingTransition::HoverEnter { entity },
        ),
        (GlobalPickingState::Idle, GlobalPickingState::Pressed { entity }) => PickingTransitions::One(
            PickingTransition::Pressed { entity, button },
        ),
        (GlobalPickingState::Hover { entity }, GlobalPickingState::Idle) => PickingTransitions::One(
            PickingTransition::HoverExit { entity },
        ),
        (GlobalPickingState::Hover { entity: e1 }, GlobalPickingState::Hover { entity: e2 }) => {
            if e1 != e2 {
                PickingTransitions::FromTo(
                    PickingTransition::HoverExit { entity: e1 },
                    PickingTransition::HoverEnter { entity: e2 },
                )
            } else {
                PickingTransitions::Empty
            }
        },
        (GlobalPickingState::Hover { entity: e1 }, GlobalPickingState::Pressed { entity: e2 }) => {
            if e1 == e2 {
                PickingTransitions::One(PickingTransition::Pressed { entity: e1, button })
            } else {
                PickingTransitions::FromTo(
                    PickingTransition::HoverExit { entity: e1 },
                    PickingTransition::Pressed { entity: e2, button },
                )
            }
        },
        (GlobalPickingState::Pressed { entity }, GlobalPickingState::Idle) => {
            if post_cancel {
                PickingTransitions::One(
                    PickingTransition::Cancelled { entity, button, down, time },
                )
            } else {
                PickingTransitions::One(released(entity, true))
            }
        },
        (GlobalPickingState::Pressed { entity: e1 }, GlobalPickingState::Hover { entity: e2 }) => {
            if e1 == e2 {
                PickingTransitions::One(released(e1, false))
            } else {
                PickingTransitions::FromTo(
                    released(e1, true),
                    PickingTransition::HoverEnter { entity: e2 },
                )
            }
        },
        (GlobalPickingState::Pressed { entity: e1 }, GlobalPickingState::Pressed { entity: e2 }) => {
            if e1 != e2 || fresh {
                PickingTransitions::FromTo(
                    released(e1, true),
                    PickingTransition::Pressed { entity: e2, button },
                )
            } else {
                PickingTransitions::Empty
            }
        },
    }
}

/// A frame never has more than two transitions.
pub proof fn lemma_transitions_at_most_two(
    previous: GlobalPickingState,
    current: GlobalPickingState,
    press: Option<PressState>,
    post_cancel: bool,
    fresh: bool,
    now: u64,
)
    ensures
        transitions_for(previous, current, press, post_cancel, fresh, now)@.len() <= 2,
{
}

impl PickingStateMachine {
    /// Sets the transitions of the frame from `previous` and `current`, at
    /// time `now`.
    pub fn queue_transitions(&mut self, now: u64)
        ensures
            *final(self) == (PickingStateMachine {
                transitions: transitions_for(
                    old(self).previous,
                    old(self).current,
                    old(self).press,
                    old(self).is_post_cancellation_state,
                    old(self).current_btn_just_pressed,
                    now,
                ),
                ..*old(self)
            }),
    {
        let (time, button, down) = match self.press {
            Some(p) => {
                let t: u64 = if now >= p.time {
                    now - p.time
                } else {
                    0
                };
                (t, p.button, p.position)
            },
            None => (0u64, MouseButton::Left, Position::zero()),
        };
        let t = match (self.previous, self.current) {
            (GlobalPickingState::Idle, GlobalPickingState::Idle) => PickingTransitions::Empty,
            (GlobalPickingState::Idle, GlobalPickingState::Hover { entity }) => PickingTransitions::One(
                PickingTransition::HoverEnter { entity },
            ),
            (GlobalPickingState::Idle, GlobalPickingState::Pressed { entity }) => PickingTransitions::One(
                PickingTransition::Pressed { entity, button },
            ),
            (GlobalPickingState::Hover { entity }, GlobalPickingState::Idle) => PickingTransitions::One(
                PickingTransition::HoverExit { entity },
            ),
            (GlobalPickingState::Hover { entity: e1 }, GlobalPickingState::Hover { entity: e2 }) => {
                if e1 != e2 {
                    PickingTransitions::FromTo(
                        PickingTransition::HoverExit { entity: e1 },
                        PickingTransition::HoverEnter { entity: e2 },
                    )
                } else {
                    PickingTransitions::Empty
                }
            },
            (GlobalPickingState::Hover { entity: e1 }, GlobalPickingState::Pressed { entity: e2 }) => {
                if e1 == e2 {
                    PickingTransitions::One(PickingTransition::Pressed { entity: e1, button })
                } else {
                    PickingTransitions::FromTo(
                        PickingTransition::HoverExit { entity: e1 },
                        PickingTransition::Pressed { entity: e2, button },
                    )
                }
            },
            (GlobalPickingState::Pressed { entity }, GlobalPickingState::Idle) => {
                if self.is_post_cancellation_state {
                    PickingTransitions::One(
                        PickingTransition::Cancelled { entity, button, down, time },
                    )
                } else {
                    PickingTransitions::One(
                        PickingTransition::Released { entity, button, down, time, outside: true },
                    )
                }
            },
            (GlobalPickingState::Pressed { entity: e1 }, GlobalPickingState::Hover { entity: e2 }) => {
                if e1 == e2 {
                    PickingTransitions::One(
                        PickingTransition::Released {
                            entity: e1,
                            button,
                            down,
                            time,
                            outside: false,
                        },
                    )
                } else {
                    PickingTransitions::FromTo(
                        PickingTransition::Released {
                            entity: e1,
                            button,
                            down,
                            time,
                            outside: true,
                        },
                        PickingTransition::HoverEnter { entity: e2 },
                    )
                }
            },
            (
                GlobalPickingState::Pressed { entity: e1 },
                GlobalPickingState::Pressed { entity: e2 },
            ) => {
                // Not reached by the arbitration of `update_buttons`; kept so
                // that every pair of states has its transitions.
                if e1 != e2 || self.current_btn_just_pressed {
                    PickingTransitions::FromTo(
                        PickingTransition::Released {
                            entity: e1,
                            button,
                            down,
                            time,
                            outside: true,
                        },
                        PickingTransition::Pressed { entity: e2, button },
                    )
                } else {
                    PickingTransitions::Empty
                }
            },
        };
        self.transitions = t;
    }
}

} // verus!
