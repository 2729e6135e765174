use vstd::prelude::*;

use crate::hits::{hits_contain, lemma_best_is_a_hit, select_target, select_target_spec, HitBatch};
use crate::local::{filter_permits, permits, ButtonFilter};
use crate::transitions::{transitions_for, PickingTransition, PickingTransitions};
use crate::types::{EntityId, MouseButton, Position};

verus! {

/// Settings of the machine.
#[derive(Clone, Debug)]
pub struct PickingStateMachinePlugin {
    /// Only buttons in this list are considered.
    pub allowed_buttons: Vec<MouseButton>,
    /// If true, pressing several buttons immediately turns `Hover` into `None`.
    pub cancel_hover: bool,
}

impl Default for PickingStateMachinePlugin {
    /// The left button alone, and hovering kept across a cancellation.
    fn default() -> (r: Self)
        ensures
            r.allowed_buttons@ == seq![MouseButton::Left],
            !r.cancel_hover,
    {
        PickingStateMachinePlugin { allowed_buttons: vec![MouseButton::Left], cancel_hover: false }
    }
}

/// Picking state of one entity.
#[derive(Clone, Copy, Debug, PartialEq, Eq, Structural)]
pub enum EntityPickingState {
    Idle,
    Hover,
    Pressed,
}

impl Default for EntityPickingState {
    fn default() -> (r: Self)
        ensures
            r == EntityPickingState::Idle,
    {
        EntityPickingState::Idle
    }
}

/// Picking state of the whole world: at most one entity is active.
#[derive(Clone, Copy, Debug, PartialEq, Eq, Structural)]
pub enum GlobalPickingState {
    Idle,
    Hover { entity: EntityId },
    Pressed { entity: EntityId },
}

impl Default for GlobalPickingState {
    fn default() -> (r: Self)
        ensures
            r == GlobalPickingState::Idle,
    {
        GlobalPickingState::Idle
    }
}

impl GlobalPickingState {
    /// The entity named by the state, if any.
    pub open spec fn active(self) -> Option<EntityId> {
        match self {
            GlobalPickingState::Idle => None,
            GlobalPickingState::Hover { entity } => Some(entity),
            GlobalPickingState::Pressed { entity } => Some(entity),
        }
    }

    /// The state as seen by the active entity.
    pub open spec fn projection(self) -> EntityPickingState {
        match self {
            GlobalPickingState::Idle => EntityPickingState::Idle,
            GlobalPickingState::Hover { .. } => EntityPickingState::Hover,
            GlobalPickingState::Pressed { .. } => EntityPickingState::Pressed,
        }
    }

    /// The state as seen by `e`: the projection where `e` is the active
    /// entity, `None` elsewhere.
    pub open spec fn state_of(self, e: EntityId) -> EntityPickingState {
        if self.active() == Some(e) {
            self.projection()
        } else {
            EntityPickingState::Idle
        }
    }

    pub fn current_entity(&self) -> (r: Option<EntityId>)
        ensures
            r == self.active(),
    {
        match self {
            GlobalPickingState::Idle => None,
            GlobalPickingState::Hover { entity } => Some(*entity),
            GlobalPickingState::Pressed { entity } => Some(*entity),
        }
    }
}

/// State of a button press: which button, where the pointer was when the
/// press started to be tracked, and when (in nanoseconds).
#[derive(Clone, Copy, Debug, PartialEq, Eq, Structural)]
pub struct PressState {
    pub button: MouseButton,
    pub position: Position,
    pub time: u64,
}

/// The reading of one tracked button in a frame.
#[derive(Clone, Copy, Debug, PartialEq, Eq, Structural)]
pub struct ButtonReading {
    pub button: MouseButton,
    /// The button is down.
    pub pressed: bool,
    /// The button went down in this frame.
    pub just_pressed: bool,
}

/// How many of the readings are down.
pub open spec fn count_pressed(r: Seq<ButtonReading>) -> nat
    decreases r.len(),
{
    if r.len() == 0 {
        0
    } else {
        count_pressed(r.drop_last()) + if r.last().pressed {
            1nat
        } else {
            0nat
        }
    }
}

/// The last reading that is down, if any.
pub open spec fn last_pressed(r: Seq<ButtonReading>) -> Option<ButtonReading>
    decreases r.len(),
{
    if r.len() == 0 {
        None
    } else if r.last().pressed {
        Some(r.last())
    } else {
        last_pressed(r.drop_last())
    }
}

/// The button held in a frame: the one that is down when exactly one is.
pub open spec fn held_button(r: Seq<ButtonReading>) -> Option<MouseButton> {
    if count_pressed(r) == 1 {
        Some(last_pressed(r)->0.button)
    } else {
        None
    }
}

/// Exactly one button is down and it went down in this frame.
pub open spec fn held_just_pressed(r: Seq<ButtonReading>) -> bool {
    count_pressed(r) == 1 && last_pressed(r)->0.just_pressed
}

/// Global state machine for pointer picking.
#[derive(Clone, Copy, Debug)]
pub struct PickingStateMachine {
    /// State of the previous frame.
    pub previous: GlobalPickingState,
    /// State of the current frame.
    pub current: GlobalPickingState,
    /// Last known pointer position.
    pub pointer: Position,
    /// While a tracked button is held: its button, and where and when the
    /// press started. Kept through the frame of the release, so that the
    /// transitions of that frame can read it; use `transitions` after that.
    pub press: Option<PressState>,
    /// The held button went down in this frame.
    pub current_btn_just_pressed: bool,
    /// The pointer was not found on the surface in this frame, and `pointer`
    /// is an earlier position.
    pub pointer_is_out_of_bounds: bool,
    /// Several tracked buttons were down at once; lasts until every tracked
    /// button is up.
    pub is_post_cancellation_state: bool,
    /// The transitions of the current frame.
    pub transitions: PickingTransitions,
}

impl Default for PickingStateMachine {
    fn default() -> (r: Self)
        ensures
            r == PickingStateMachine::initial(),
    {
        PickingStateMachine::new()
    }
}

impl PickingStateMachine {
    /// A machine with nothing active, no press and no transitions.
    pub open spec fn initial() -> PickingStateMachine {
        PickingStateMachine {
            previous: GlobalPickingState::Idle,
            current: GlobalPickingState::Idle,
            pointer: Position::origin(),
            press: None,
            current_btn_just_pressed: false,
            pointer_is_out_of_bounds: false,
            is_post_cancellation_state: false,
            transitions: PickingTransitions::Empty,
        }
    }

    pub fn new() -> (r: PickingStateMachine)
        ensures
            r == PickingStateMachine::initial(),
    {
        PickingStateMachine {
            previous: GlobalPickingState::Idle,
            current: GlobalPickingState::Idle,
            pointer: Position::zero(),
            press: None,
            current_btn_just_pressed: false,
            pointer_is_out_of_bounds: false,
            is_post_cancellation_state: false,
            transitions: PickingTransitions::Empty,
        }
    }

    /// A new target may be acquired: not after a cancellation, and either no
    /// button is tracked or the tracked one went down in this frame.
    pub open spec fn can_acquire_spec(self) -> bool {
        !self.is_post_cancellation_state && (self.press is None || self.current_btn_just_pressed)
    }

    /// The reading of the pointer: a position on the surface, or none.
    pub open spec fn pointer_next(self, position: Option<Position>) -> PickingStateMachine {
        match position {
            Some(p) => PickingStateMachine { pointer: p, pointer_is_out_of_bounds: false, ..self },
            None => PickingStateMachine { pointer_is_out_of_bounds: true, ..self },
        }
    }

    /// The readings cancel the current interaction: several buttons are down,
    /// or the held button is not the tracked one.
    pub open spec fn cancels(self, r: Seq<ButtonReading>) -> bool {
        count_pressed(r) >= 2 || (self.press is Some && held_button(r) is Some && held_button(r)->0
            != self.press->0.button)
    }

    /// The machine after the button readings of a frame at time `now`.
    pub open spec fn buttons_next(self, r: Seq<ButtonReading>, now: u64) -> PickingStateMachine {
        let held = held_button(r);
        let cancel = self.cancels(r);
        PickingStateMachine {
            is_post_cancellation_state: if cancel {
                true
            } else if self.is_post_cancellation_state && held is None {
                false
            } else {
                self.is_post_cancellation_state
            },
            current_btn_just_pressed: !cancel && held_just_pressed(r),
            press: match held {
                Some(b) => if self.press is Some && self.press->0.button == b {
                    self.press
                } else {
                    Some(PressState { button: b, position: self.pointer, time: now })
                },
                None => self.press,
            },
            ..self
        }
    }

    /// The entity the state holds pressed, if any: it stays the target while
    /// it is among the hits.
    pub open spec fn locked(self) -> Option<EntityId> {
        match self.current {
            GlobalPickingState::Pressed { entity } => Some(entity),
            _ => None,
        }
    }

    /// The global state that follows from the target of the frame.
    pub open spec fn next_global(
        self,
        target: Option<EntityId>,
        pressed: bool,
        filters: Seq<(EntityId, ButtonFilter)>,
        cancel_hover: bool,
    ) -> GlobalPickingState {
        match target {
            None => if pressed && !self.current_btn_just_pressed && !self.is_post_cancellation_state
                && self.current is Pressed {
                self.current
            } else {
                GlobalPickingState::Idle
            },
            Some(e) => if self.is_post_cancellation_state {
                if self.current == (GlobalPickingState::Hover { entity: e }) && !cancel_hover {
                    self.current
                } else {
                    GlobalPickingState::Idle
                }
            } else if !pressed {
                GlobalPickingState::Hover { entity: e }
            } else if permits(filters, e, self.press->0.button) {
                GlobalPickingState::Pressed { entity: e }
            } else {
                GlobalPickingState::Hover { entity: e }
            },
        }
    }

    /// The machine after resolving the hits of a frame at time `now`.
    pub open spec fn state_next(
        self,
        pressed: bool,
        now: u64,
        hits: Seq<HitBatch>,
        filters: Seq<(EntityId, ButtonFilter)>,
        cancel_hover: bool,
    ) -> PickingStateMachine {
        let target = select_target_spec(hits, self.locked(), self.can_acquire_spec());
        let next = self.next_global(target, pressed, filters, cancel_hover);
        PickingStateMachine {
            previous: self.current,
            current: next,
            transitions: transitions_for(
                self.current,
                next,
                self.press,
                self.is_post_cancellation_state,
                self.current_btn_just_pressed,
                now,
            ),
            press: if pressed {
                self.press
            } else {
                None
            },
            ..self
        }
    }

    /// The machine after a whole frame.
    pub open spec fn frame_next(
        self,
        position: Option<Position>,
        r: Seq<ButtonReading>,
        hits: Seq<HitBatch>,
        filters: Seq<(EntityId, ButtonFilter)>,
        cancel_hover: bool,
        now: u64,
    ) -> PickingStateMachine {
        let a = self.pointer_next(position).buttons_next(r, now);
        a.state_next(held_button(r) is Some, now, hits, filters, cancel_hover)
    }

    /// The state of `entity`: that of the active entity if it is `entity`,
    /// `None` otherwise.
    pub fn get_state(&self, entity: EntityId) -> (r: EntityPickingState)
        ensures
            r == self.current.state_of(entity),
    {
        match self.current {
            GlobalPickingState::Idle => EntityPickingState::Idle,
            GlobalPickingState::Hover { entity: e } => {
                if entity == e {
                    EntityPickingState::Hover
                } else {
                    EntityPickingState::Idle
                }
            },
            GlobalPickingState::Pressed { entity: e } => {
                if entity == e {
                    EntityPickingState::Pressed
                } else {
                    EntityPickingState::Idle
                }
            },
        }
    }

    /// The state as seen by the active entity.
    pub fn active_state(&self) -> (r: EntityPickingState)
        ensures
            r == self.current.projection(),
    {
        match self.current {
            GlobalPickingState::Idle => EntityPickingState::Idle,
            GlobalPickingState::Hover { .. } => EntityPickingState::Hover,
            GlobalPickingState::Pressed { .. } => EntityPickingState::Pressed,
        }
    }

    /// The transition of this frame addressed to `entity`, if any.
    pub fn get_transition(&self, entity: EntityId) -> (r: Option<PickingTransition>)
        ensures
            r == self.transitions.find_spec(entity),
    {
        self.transitions.find_entity(entity)
    }

    pub fn get_active_entity(&self) -> (r: Option<EntityId>)
        ensures
            r == self.current.active(),
    {
        self.current.current_entity()
    }

    pub fn is_hovering(&self) -> (r: bool)
        ensures
            r == self.current is Hover,
    {
        matches!(self.current, GlobalPickingState::Hover { .. })
    }

    pub fn is_pressing(&self) -> (r: bool)
        ensures
            r == self.current is Pressed,
    {
        matches!(self.current, GlobalPickingState::Pressed { .. })
    }

    fn can_acquire_new_target(&self) -> (r: bool)
        ensures
            r == self.can_acquire_spec(),
    {
        !self.is_post_cancellation_state && (self.press.is_none() || self.current_btn_just_pressed)
    }

    /// Records where the pointer is: a position on the surface, or none when
    /// it is off the surface (the last position is then kept).
    pub fn update_pointer(&mut self, position: Option<Position>)
        ensures
            *final(self) == old(self).pointer_next(position),
    {
        match position {
            Some(p) => {
                self.pointer = p;
                self.pointer_is_out_of_bounds = false;
            },
            None => {
                self.pointer_is_out_of_bounds = true;
            },
        }
    }

    /// Arbitrates the tracked buttons of a frame at time `now`, given one
    /// reading per tracked button. Returns whether a single button is held.
    pub fn update_buttons(&mut self, readings: &Vec<ButtonReading>, now: u64) -> (r: bool)
        ensures
            *final(self) == old(self).buttons_next(readings@, now),
            r == held_button(readings@) is Some,
    {
        let mut current_button: Option<MouseButton> = None;
        let mut multiple = false;
        let mut just_pressed = false;
        let mut i: usize = 0;
        while i < readings.len() && !multiple
            invariant
                0 <= i <= readings@.len(),
                !multiple ==> count_pressed(readings@.take(i as int)) <= 1 && current_button
                    == held_button(readings@.take(i as int)) && just_pressed == held_just_pressed(
                    readings@.take(i as int),
                ),
                multiple ==> count_pressed(readings@) >= 2 && current_button is None,
            decreases readings.len() - i,
        {
            let reading = readings[i];
            assert(readings@.take(i + 1).drop_last() == readings@.take(i as int));
            if reading.pressed {
                if current_button.is_none() {
                    current_button = Some(reading.button);
                    just_pressed = reading.just_pressed;
                } else {
                    current_button = None;
                    multiple = true;
                    proof {
                        lemma_count_pressed_prefix(readings@, i + 1);
                    }
                }
            }
            i = i + 1;
        }
        proof {
            if !multiple {
                assert(readings@.take(i as int) == readings@);
            }
        }
        let mut cancel = multiple;
        if let Some(press) = self.press {
            if let Some(b) = current_button {
                if b != press.button {
                    cancel = true;
                }
            }
        }
        self.current_btn_just_pressed = false;
        if cancel {
            self.is_post_cancellation_state = true;
        } else if self.is_post_cancellation_state && current_button.is_none() {
            self.is_post_cancellation_state = false;
        } else if just_pressed {
            self.current_btn_just_pressed = true;
        }
        if let Some(button) = current_button {
            let keep = match self.press {
                Some(p) => p.button == button,
                None => false,
            };
            if !keep {
                self.press = Some(PressState { button, position: self.pointer, time: now });
            }
        }
        current_button.is_some()
    }

    /// Resolves the hits of a frame at time `now` into the new global state
    /// and the transitions of the frame. `pressed` tells whether a single
    /// tracked button is held; `filters` lists the button filters attached to
    /// entities.
    pub fn update_state(
        &mut self,
        pressed: bool,
        now: u64,
        hits: &Vec<HitBatch>,
        filters: &Vec<(EntityId, ButtonFilter)>,
        cancel_hover: bool,
    )
        requires
            pressed ==> old(self).press is Some,
        ensures
            *final(self) == old(self).state_next(pressed, now, hits@, filters@, cancel_hover),
    {
        let locked = match self.current {
            GlobalPickingState::Pressed { entity } => Some(entity),
            _ => None,
        };
        let can_acquire = self.can_acquire_new_target();
        let target = select_target(hits, locked, can_acquire);
        let ghost start = *self;
        self.previous = self.current;
        match target {
            None => {
                if pressed && !self.current_btn_just_pressed && !self.is_post_cancellation_state {
                    match self.current {
                        GlobalPickingState::Pressed { .. } => {},
                        _ => self.current = GlobalPickingState::Idle,
                    }
                } else {
                    self.current = GlobalPickingState::Idle;
                }
            },
            Some(entity) => {
                if self.is_post_cancellation_state {
                    let keep = match self.current {
                        GlobalPickingState::Hover { entity: e } => e == entity && !cancel_hover,
                        _ => false,
                    };
                    if !keep {
                        self.current = GlobalPickingState::Idle;
                    }
                } else if !pressed {
                    self.current = GlobalPickingState::Hover { entity };
                } else {
                    let button = match self.press {
                        Some(p) => p.button,
                        None => MouseButton::Left,
                    };
                    if filter_permits(filters, entity, button) {
                        self.current = GlobalPickingState::Pressed { entity };
                    } else {
                        self.current = GlobalPickingState::Hover { entity };
                    }
                }
            },
        }
        assert(self.current == start.next_global(target, pressed, filters@, cancel_hover));
        self.queue_transitions(now);
        if !pressed {
            self.press = None;
        }
    }

    /// Runs a whole frame at time `now`: the pointer reading, one reading per
    /// tracked button, the hits and the filters attached to entities.
    pub fn update_frame(
        &mut self,
        position: Option<Position>,
        readings: &Vec<ButtonReading>,
        hits: &Vec<HitBatch>,
        filters: &Vec<(EntityId, ButtonFilter)>,
        cancel_hover: bool,
        now: u64,
    )
        ensures
            *final(self) == old(self).frame_next(
                position,
                readings@,
                hits@,
                filters@,
                cancel_hover,
                now,
            ),
    {
        self.update_pointer(position);
        let pressed = self.update_buttons(readings, now);
        self.update_state(pressed, now, hits, filters, cancel_hover);
    }
}

/// After a frame the global state names at most one entity, and that entity
/// is the target chosen from the hits or the entity that was held pressed; a
/// chosen target is always one of the hits.
pub proof fn lemma_single_active_entity(
    m: PickingStateMachine,
    position: Option<Position>,
    r: Seq<ButtonReading>,
    hits: Seq<HitBatch>,
    filters: Seq<(EntityId, ButtonFilter)>,
    cancel_hover: bool,
    now: u64,
)
    ensures
        ({
            let a = m.pointer_next(position).buttons_next(r, now);
            let n = m.frame_next(position, r, hits, filters, cancel_hover, now);
            let target = select_target_spec(hits, m.locked(), a.can_acquire_spec());
            &&& n.current.active() is None || n.current.active() == target || n.current.active()
                == m.locked()
            &&& target is Some ==> hits_contain(hits, target->0)
        }),
{
    lemma_best_is_a_hit(hits);
}

/// Two tracked buttons down in one frame put the machine after a
/// cancellation; a press that was going on ends with `Cancelled`, never with
/// `Released`.
pub proof fn lemma_two_buttons_cancel(
    m: PickingStateMachine,
    position: Option<Position>,
    r: Seq<ButtonReading>,
    hits: Seq<HitBatch>,
    filters: Seq<(EntityId, ButtonFilter)>,
    cancel_hover: bool,
    now: u64,
)
    requires
        count_pressed(r) >= 2,
    ensures
        ({
            let n = m.frame_next(position, r, hits, filters, cancel_hover, now);
            &&& n.is_post_cancellation_state
            &&& n.current == GlobalPickingState::Idle || n.current == m.current
            &&& m.current is Pressed ==> n.transitions@.len() == 1 && n.transitions@[0] is Cancelled
                && n.transitions@[0].target() == m.current->Pressed_entity
            &&& m.current is Pressed && m.press is Some && now >= m.press->0.time ==> {
                &&& n.transitions@ == seq![
                    PickingTransition::Cancelled {
                        entity: m.current->Pressed_entity,
                        button: m.press->0.button,
                        down: m.press->0.position,
                        time: (now - m.press->0.time) as u64,
                    },
                ]
                &&& n.press is None
            }
        }),
{
}

/// The state after a cancellation ends exactly in a frame where no tracked
/// button is down: never while one of them is still held.
pub proof fn lemma_post_cancellation_ends_when_all_released(
    m: PickingStateMachine,
    position: Option<Position>,
    r: Seq<ButtonReading>,
    hits: Seq<HitBatch>,
    filters: Seq<(EntityId, ButtonFilter)>,
    cancel_hover: bool,
    now: u64,
)
    requires
        m.is_post_cancellation_state,
    ensures
        !m.frame_next(position, r, hits, filters, cancel_hover, now).is_post_cancellation_state
            <==> count_pressed(r) == 0,
{
}

/// A pressed entity that is still among the hits stays the target, whatever
/// ranks above it: after the frame no other entity is active.
pub proof fn lemma_pressed_target_kept(
    m: PickingStateMachine,
    e: EntityId,
    position: Option<Position>,
    r: Seq<ButtonReading>,
    hits: Seq<HitBatch>,
    filters: Seq<(EntityId, ButtonFilter)>,
    cancel_hover: bool,
    now: u64,
)
    requires
        m.current == (GlobalPickingState::Pressed { entity: e }),
        hits_contain(hits, e),
    ensures
        select_target_spec(hits, Some(e), true) == Some(e),
        ({
            let n = m.frame_next(position, r, hits, filters, cancel_hover, now);
            n.current.active() is None || n.current.active() == Some(e)
        }),
{
}

/// Releasing every tracked button while the pressed entity is still among the
/// hits ends the press over it: the state becomes `Hover` on that entity and
/// the frame has the one event `Released` with `outside` false, carrying the
/// press's button, where it started and how long it lasted.
pub proof fn lemma_release_over_pressed_entity(
    m: PickingStateMachine,
    e: EntityId,
    p: PressState,
    position: Option<Position>,
    r: Seq<ButtonReading>,
    hits: Seq<HitBatch>,
    filters: Seq<(EntityId, ButtonFilter)>,
    cancel_hover: bool,
    now: u64,
)
    requires
        m.current == (GlobalPickingState::Pressed { entity: e }),
        m.press == Some(p),
        now >= p.time,
        count_pressed(r) == 0,
        hits_contain(hits, e),
    ensures
        ({
            let n = m.frame_next(position, r, hits, filters, cancel_hover, now);
            &&& n.current == (GlobalPickingState::Hover { entity: e })
            &&& n.transitions@ == seq![
                PickingTransition::Released {
                    entity: e,
                    button: p.button,
                    down: p.position,
                    time: (now - p.time) as u64,
                    outside: false,
                },
            ]
            &&& n.press is None
        }),
{
}

/// Hovering an entity from nothing and leaving it again gives exactly
/// `[HoverEnter(e)]` in the first frame and `[HoverExit(e)]` in the second.
pub proof fn lemma_hover_round_trip(
    m: PickingStateMachine,
    e: EntityId,
    position1: Option<Position>,
    r1: Seq<ButtonReading>,
    hits1: Seq<HitBatch>,
    filters1: Seq<(EntityId, ButtonFilter)>,
    position2: Option<Position>,
    r2: Seq<ButtonReading>,
    hits2: Seq<HitBatch>,
    filters2: Seq<(EntityId, ButtonFilter)>,
    cancel_hover: bool,
    now1: u64,
    now2: u64,
)
    requires
        m.current == GlobalPickingState::Idle,
        m.frame_next(position1, r1, hits1, filters1, cancel_hover, now1).current
            == (GlobalPickingState::Hover { entity: e }),
        m.frame_next(position1, r1, hits1, filters1, cancel_hover, now1).frame_next(
            position2,
            r2,
            hits2,
            filters2,
            cancel_hover,
            now2,
        ).current == GlobalPickingState::Idle,
    ensures
        m.frame_next(position1, r1, hits1, filters1, cancel_hover, now1).transitions@ == seq![
            PickingTransition::HoverEnter { entity: e },
        ],
        m.frame_next(position1, r1, hits1, filters1, cancel_hover, now1).frame_next(
            position2,
            r2,
            hits2,
            filters2,
            cancel_hover,
            now2,
        ).transitions@ == seq![PickingTransition::HoverExit { entity: e }],
{
}

/// A prefix never has more readings down than the whole.
proof fn lemma_count_pressed_prefix(r: Seq<ButtonReading>, k: int)
    requires
        0 <= k <= r.len(),
    ensures
        count_pressed(r.take(k)) <= count_pressed(r),
    decreases r.len() - k,
{
    if k == r.len() {
        assert(r.take(k) == r);
    } else {
        lemma_count_pressed_prefix(r, k + 1);
        assert(r.take(k + 1).drop_last() == r.take(k));
    }
}

} // verus!
