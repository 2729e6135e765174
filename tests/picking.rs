use std::collections::HashMap;

use picking_state::hits::{beats, best_candidate, contains_entity, f32_bits_eq, f32_bits_lt, select_target};
use picking_state::local::filter_permits;
use picking_state::{
    ButtonFilter, ButtonReading, EntityId, EntityPickingState, GlobalPickingState, Hit, HitBatch,
    MouseButton, PickingPropagation, PickingStateMachine, PickingStateMachinePlugin,
    PickingTransition, PickingTransitions, Position, PressState, PropagatedPickingStateMachine,
};

const A: EntityId = EntityId(1);
const B: EntityId = EntityId(2);
const C: EntityId = EntityId(3);

fn batch(order: f32, picks: &[(EntityId, f32)]) -> HitBatch {
    HitBatch {
        order_bits: order.to_bits(),
        picks: picks
            .iter()
            .map(|(e, d)| Hit { entity: *e, depth_bits: d.to_bits() })
            .collect(),
    }
}

fn scenario_hits() -> Vec<HitBatch> {
    vec![batch(1.0, &[(A, 2.0)]), batch(2.0, &[(B, 5.0)])]
}

fn left(pressed: bool, just_pressed: bool) -> ButtonReading {
    ButtonReading { button: MouseButton::Left, pressed, just_pressed }
}

fn right(pressed: bool, just_pressed: bool) -> ButtonReading {
    ButtonReading { button: MouseButton::Right, pressed, just_pressed }
}

fn pos(x: f32, y: f32) -> Position {
    Position { x_bits: x.to_bits(), y_bits: y.to_bits() }
}

fn frame(
    m: &mut PickingStateMachine,
    readings: Vec<ButtonReading>,
    hits: &Vec<HitBatch>,
    now: u64,
) {
    m.update_frame(Some(pos(10.0, 20.0)), &readings, hits, &Vec::new(), false, now);
}

#[test]
fn hover_highest_order_wins() {
    let mut m = PickingStateMachine::new();
    frame(&mut m, vec![left(false, false)], &scenario_hits(), 1);
    assert_eq!(m.current, GlobalPickingState::Hover { entity: B });
    assert_eq!(m.transitions.iter(), vec![PickingTransition::HoverEnter { entity: B }]);
}

#[test]
fn press_on_hovered_entity() {
    let mut m = PickingStateMachine::new();
    m.current = GlobalPickingState::Hover { entity: B };
    m.update_frame(Some(pos(3.0, 4.0)), &vec![left(true, true)], &scenario_hits(), &Vec::new(), false, 70);
    assert_eq!(m.current, GlobalPickingState::Pressed { entity: B });
    assert_eq!(
        m.transitions.iter(),
        vec![PickingTransition::Pressed { entity: B, button: MouseButton::Left }]
    );
    assert_eq!(
        m.press,
        Some(PressState { button: MouseButton::Left, position: pos(3.0, 4.0), time: 70 })
    );
}

#[test]
fn pressed_target_kept_without_hits() {
    let mut m = PickingStateMachine::new();
    m.current = GlobalPickingState::Pressed { entity: B };
    m.press = Some(PressState { button: MouseButton::Left, position: pos(1.0, 1.0), time: 5 });
    let hits = vec![batch(1.0, &[(A, 2.0)])];
    frame(&mut m, vec![left(true, false)], &hits, 9);
    assert_eq!(m.current, GlobalPickingState::Pressed { entity: B });
    assert_eq!(m.transitions.len(), 0);
    assert_eq!(m.transitions, PickingTransitions::Empty);
}

#[test]
fn release_over_pressed_entity() {
    let mut m = PickingStateMachine::new();
    m.current = GlobalPickingState::Pressed { entity: B };
    m.press = Some(PressState { button: MouseButton::Left, position: pos(1.0, 2.0), time: 100 });
    frame(&mut m, vec![left(false, false)], &scenario_hits(), 350);
    assert_eq!(m.current, GlobalPickingState::Hover { entity: B });
    assert_eq!(
        m.transitions.iter(),
        vec![PickingTransition::Released {
            entity: B,
            button: MouseButton::Left,
            down: pos(1.0, 2.0),
            time: 250,
            outside: false,
        }]
    );
    assert_eq!(m.press, None);
}

#[test]
fn only_one_entity_active_after_frames() {
    let mut m = PickingStateMachine::new();
    let hits = vec![batch(1.0, &[(A, 1.0), (B, 0.5), (C, 3.0)])];
    frame(&mut m, vec![left(false, false)], &hits, 1);
    assert_eq!(m.get_active_entity(), Some(B));
    assert_eq!(m.get_state(B), EntityPickingState::Hover);
    assert_eq!(m.get_state(A), EntityPickingState::Idle);
    assert_eq!(m.get_state(C), EntityPickingState::Idle);
    assert!(m.is_hovering());
    assert!(!m.is_pressing());
}

#[test]
fn transitions_never_exceed_two() {
    let mut m = PickingStateMachine::new();
    frame(&mut m, vec![left(false, false)], &vec![batch(1.0, &[(A, 1.0)])], 1);
    frame(&mut m, vec![left(false, false)], &vec![batch(1.0, &[(B, 1.0)])], 2);
    assert_eq!(m.transitions.len(), 2);
    assert_eq!(
        m.transitions.iter(),
        vec![
            PickingTransition::HoverExit { entity: A },
            PickingTransition::HoverEnter { entity: B },
        ]
    );
}

#[test]
fn two_buttons_cancel_press() {
    let mut m = PickingStateMachine::new();
    let hits = vec![batch(1.0, &[(A, 1.0)])];
    frame(&mut m, vec![left(true, true), right(false, false)], &hits, 10);
    assert_eq!(m.current, GlobalPickingState::Pressed { entity: A });
    frame(&mut m, vec![left(true, false), right(true, true)], &hits, 30);
    assert!(m.is_post_cancellation_state);
    assert_eq!(m.current, GlobalPickingState::Idle);
    assert_eq!(
        m.transitions.iter(),
        vec![PickingTransition::Cancelled {
            entity: A,
            button: MouseButton::Left,
            down: pos(10.0, 20.0),
            time: 20,
        }]
    );
}

#[test]
fn cancellation_lasts_until_all_released() {
    let mut m = PickingStateMachine::new();
    let hits = vec![batch(1.0, &[(A, 1.0)])];
    frame(&mut m, vec![left(true, true), right(true, true)], &hits, 1);
    assert!(m.is_post_cancellation_state);
    assert_eq!(m.current, GlobalPickingState::Idle);
    frame(&mut m, vec![left(false, false), right(true, false)], &hits, 2);
    assert!(m.is_post_cancellation_state);
    assert_eq!(m.current, GlobalPickingState::Idle);
    frame(&mut m, vec![left(false, false), right(false, false)], &hits, 3);
    assert!(!m.is_post_cancellation_state);
    assert_eq!(m.current, GlobalPickingState::Idle);
    assert_eq!(m.press, None);
    frame(&mut m, vec![left(false, false), right(false, false)], &hits, 4);
    assert_eq!(m.current, GlobalPickingState::Hover { entity: A });
}

#[test]
fn cancellation_drops_hover_without_target() {
    let hits = vec![batch(1.0, &[(A, 1.0)])];
    let mut keep = PickingStateMachine::new();
    keep.current = GlobalPickingState::Hover { entity: A };
    keep.update_frame(None, &vec![left(true, true), right(true, true)], &hits, &Vec::new(), false, 1);
    assert_eq!(keep.current, GlobalPickingState::Idle);
    assert_eq!(keep.transitions.iter(), vec![PickingTransition::HoverExit { entity: A }]);
    assert!(keep.pointer_is_out_of_bounds);

    let mut drop = PickingStateMachine::new();
    drop.current = GlobalPickingState::Hover { entity: A };
    drop.update_frame(None, &vec![left(true, true), right(true, true)], &hits, &Vec::new(), true, 1);
    assert_eq!(drop.current, GlobalPickingState::Idle);
    assert_eq!(drop.transitions.iter(), vec![PickingTransition::HoverExit { entity: A }]);
}

#[test]
fn changing_button_cancels() {
    let mut m = PickingStateMachine::new();
    let hits = vec![batch(1.0, &[(A, 1.0)])];
    frame(&mut m, vec![left(true, true), right(false, false)], &hits, 1);
    assert_eq!(m.current, GlobalPickingState::Pressed { entity: A });
    frame(&mut m, vec![left(false, false), right(true, true)], &hits, 2);
    assert!(m.is_post_cancellation_state);
    assert_eq!(m.current, GlobalPickingState::Idle);
    assert!(matches!(m.transitions.iter()[0], PickingTransition::Cancelled { entity: A, .. }));
    assert_eq!(m.press.map(|p| p.button), Some(MouseButton::Right));
}

#[test]
fn pressed_target_not_preempted() {
    let mut m = PickingStateMachine::new();
    frame(&mut m, vec![left(true, true)], &vec![batch(1.0, &[(A, 1.0)])], 1);
    assert_eq!(m.current, GlobalPickingState::Pressed { entity: A });
    let hits = vec![batch(1.0, &[(A, 1.0)]), batch(9.0, &[(B, 0.1)])];
    frame(&mut m, vec![left(true, false)], &hits, 2);
    assert_eq!(m.current, GlobalPickingState::Pressed { entity: A });
    assert_eq!(m.transitions.len(), 0);
    assert_eq!(m.get_state(A), EntityPickingState::Pressed);
}

#[test]
fn hover_round_trip() {
    let mut m = PickingStateMachine::new();
    frame(&mut m, vec![left(false, false)], &vec![batch(1.0, &[(A, 1.0)])], 1);
    assert_eq!(m.transitions.iter(), vec![PickingTransition::HoverEnter { entity: A }]);
    frame(&mut m, vec![left(false, false)], &Vec::new(), 2);
    assert_eq!(m.current, GlobalPickingState::Idle);
    assert_eq!(m.transitions.iter(), vec![PickingTransition::HoverExit { entity: A }]);
}

#[test]
fn release_away_from_pressed_entity() {
    let mut m = PickingStateMachine::new();
    m.current = GlobalPickingState::Pressed { entity: A };
    m.press = Some(PressState { button: MouseButton::Left, position: pos(0.0, 0.0), time: 1 });
    frame(&mut m, vec![left(false, false)], &vec![batch(1.0, &[(B, 1.0)])], 4);
    assert_eq!(m.current, GlobalPickingState::Idle);
    assert!(matches!(
        m.transitions.iter()[..],
        [PickingTransition::Released { entity: A, outside: true, time: 3, .. }]
    ));
}

#[test]
fn filter_suppresses_press() {
    let mut m = PickingStateMachine::new();
    let filters = vec![(A, ButtonFilter::new(vec![MouseButton::Right]))];
    m.update_frame(None, &vec![left(true, true)], &vec![batch(1.0, &[(A, 1.0)])], &filters, false, 1);
    assert_eq!(m.current, GlobalPickingState::Hover { entity: A });
    assert_eq!(m.transitions.iter(), vec![PickingTransition::HoverEnter { entity: A }]);
}

#[test]
fn filter_lookup() {
    let f = ButtonFilter::new(vec![MouseButton::Left, MouseButton::Other(7)]);
    assert!(f.contains(MouseButton::Other(7)));
    assert!(!f.contains(MouseButton::Other(8)));
    let filters = vec![(A, ButtonFilter::new(vec![MouseButton::Right])), (A, f)];
    assert!(filter_permits(&filters, A, MouseButton::Right));
    assert!(!filter_permits(&filters, A, MouseButton::Left));
    assert!(filter_permits(&filters, B, MouseButton::Middle));
}

#[test]
fn float_bit_order() {
    assert!(f32_bits_lt((-1.0f32).to_bits(), 0.5f32.to_bits()));
    assert!(f32_bits_lt((-2.0f32).to_bits(), (-1.0f32).to_bits()));
    assert!(!f32_bits_lt(1.0f32.to_bits(), 1.0f32.to_bits()));
    assert!(f32_bits_eq(0.0f32.to_bits(), (-0.0f32).to_bits()));
    assert!(!f32_bits_eq(f32::NAN.to_bits(), f32::NAN.to_bits()));
    assert!(!f32_bits_lt(f32::NAN.to_bits(), 1.0f32.to_bits()));
    assert!(beats(2.0f32.to_bits(), 9.0f32.to_bits(), 1.0f32.to_bits(), 0.0f32.to_bits()));
    assert!(beats(1.0f32.to_bits(), 1.0f32.to_bits(), 1.0f32.to_bits(), 2.0f32.to_bits()));
    assert!(!beats(1.0f32.to_bits(), 2.0f32.to_bits(), 1.0f32.to_bits(), 2.0f32.to_bits()));
}

#[test]
fn target_selection() {
    let hits = vec![batch(1.0, &[(A, 2.0), (C, 2.0)]), batch(1.0, &[(B, 1.0)])];
    assert_eq!(best_candidate(&hits), Some(B));
    let tie = vec![batch(1.0, &[(A, 2.0), (C, 2.0)])];
    assert_eq!(best_candidate(&tie), Some(A));
    assert_eq!(best_candidate(&Vec::new()), None);
    let lowest_key = vec![batch(f32::NEG_INFINITY, &[(A, f32::INFINITY)])];
    assert_eq!(best_candidate(&lowest_key), Some(A));
    let nan_order = vec![batch(f32::NAN, &[(A, 1.0)])];
    assert_eq!(best_candidate(&nan_order), None);
    assert!(contains_entity(&hits, C));
    assert!(!contains_entity(&hits, EntityId(99)));
    assert_eq!(select_target(&hits, Some(C), false), Some(C));
    assert_eq!(select_target(&hits, Some(EntityId(99)), false), None);
    assert_eq!(select_target(&hits, Some(EntityId(99)), true), Some(B));
}

#[test]
fn transition_lookup_by_entity() {
    let mut m = PickingStateMachine::new();
    frame(&mut m, vec![left(false, false)], &vec![batch(1.0, &[(A, 1.0)])], 1);
    frame(&mut m, vec![left(false, false)], &vec![batch(1.0, &[(B, 1.0)])], 2);
    assert_eq!(m.get_transition(A), Some(PickingTransition::HoverExit { entity: A }));
    assert_eq!(m.get_transition(B), Some(PickingTransition::HoverEnter { entity: B }));
    assert_eq!(m.get_transition(C), None);
    assert_eq!(PickingTransition::HoverExit { entity: A }.entity(), A);
}

#[test]
fn defaults() {
    let plugin = PickingStateMachinePlugin::default();
    assert_eq!(plugin.allowed_buttons, vec![MouseButton::Left]);
    assert!(!plugin.cancel_hover);
    let m = PickingStateMachine::default();
    assert_eq!(m.current, GlobalPickingState::Idle);
    assert_eq!(m.transitions, PickingTransitions::default());
    assert_eq!(PickingPropagation::default(), PickingPropagation::PropagateDown);
    assert_eq!(GlobalPickingState::Hover { entity: A }.current_entity(), Some(A));
    assert_eq!(GlobalPickingState::Idle.current_entity(), None);
}

// Hierarchy used below:   R -> P -> X (active) -> Y
//                         R -> S -> T
const R: EntityId = EntityId(10);
const P: EntityId = EntityId(11);
const X: EntityId = EntityId(12);
const Y: EntityId = EntityId(13);
const S: EntityId = EntityId(14);
const T: EntityId = EntityId(15);
const Q: EntityId = EntityId(16);

fn hierarchy() -> HashMap<u64, u64> {
    let mut parents = HashMap::new();
    parents.insert(P.0, R.0);
    parents.insert(X.0, P.0);
    parents.insert(Y.0, X.0);
    parents.insert(S.0, R.0);
    parents.insert(T.0, S.0);
    parents.insert(Q.0, P.0);
    parents
}

fn hovering(e: EntityId) -> PickingStateMachine {
    let mut m = PickingStateMachine::new();
    m.current = GlobalPickingState::Hover { entity: e };
    m
}

#[test]
fn propagate_up_one_covers_parent_subtree() {
    let m = hovering(X);
    let parents = hierarchy();
    let mut policies = HashMap::new();
    policies.insert(X.0, PickingPropagation::PropagateUp(1));
    let view = PropagatedPickingStateMachine { state_machine: &m, parents: &parents, propagation: &policies };
    assert!(view.entity_equivalent(X, X));
    assert!(view.entity_equivalent(X, Y));
    assert!(view.entity_equivalent(X, Q));
    assert!(!view.entity_equivalent(X, S));
    assert!(!view.entity_equivalent(X, T));
    assert!(!view.entity_equivalent(X, R));
    assert_eq!(view.get_state(Q), EntityPickingState::Hover);
    assert_eq!(view.get_state(T), EntityPickingState::Idle);
}

#[test]
fn propagate_down_by_default() {
    let m = hovering(X);
    let parents = hierarchy();
    let policies = HashMap::new();
    let view = PropagatedPickingStateMachine { state_machine: &m, parents: &parents, propagation: &policies };
    assert!(view.entity_equivalent(X, Y));
    assert!(!view.entity_equivalent(X, P));
    assert!(!view.entity_equivalent(X, Q));
}

#[test]
fn and_propagate_up_reaches_ancestors_only() {
    let m = hovering(X);
    let parents = hierarchy();
    let mut policies = HashMap::new();
    policies.insert(X.0, PickingPropagation::AndPropagateUp(2));
    let view = PropagatedPickingStateMachine { state_machine: &m, parents: &parents, propagation: &policies };
    assert!(view.entity_equivalent(X, Y));
    assert!(view.entity_equivalent(X, P));
    assert!(view.entity_equivalent(X, R));
    assert!(!view.entity_equivalent(X, Q));
    assert!(!view.entity_equivalent(X, S));
}

#[test]
fn no_propagation_is_exact() {
    let parents = hierarchy();
    let mut policies = HashMap::new();
    policies.insert(X.0, PickingPropagation::NoPropagation);
    let mut m = PickingStateMachine::new();
    frame(&mut m, vec![left(false, false)], &vec![batch(1.0, &[(X, 1.0)])], 1);
    let view = PropagatedPickingStateMachine { state_machine: &m, parents: &parents, propagation: &policies };
    assert!(view.entity_equivalent(X, X));
    assert!(!view.entity_equivalent(X, Y));
    assert_eq!(view.get_transition(X), Some(PickingTransition::HoverEnter { entity: X }));
    assert_eq!(view.get_transition(Y), None);
}

#[test]
fn propagated_transition_reaches_descendant() {
    let parents = hierarchy();
    let policies = HashMap::new();
    let mut m = PickingStateMachine::new();
    frame(&mut m, vec![left(false, false)], &vec![batch(1.0, &[(X, 1.0)])], 1);
    let view = PropagatedPickingStateMachine { state_machine: &m, parents: &parents, propagation: &policies };
    assert_eq!(view.get_transition(Y), Some(PickingTransition::HoverEnter { entity: X }));
    assert_eq!(view.get_state(Y), EntityPickingState::Hover);
    assert_eq!(view.get_state(P), EntityPickingState::Idle);
}

#[test]
fn defensive_transition_rows() {
    let mut m = PickingStateMachine::new();
    m.previous = GlobalPickingState::Pressed { entity: A };
    m.current = GlobalPickingState::Pressed { entity: A };
    m.current_btn_just_pressed = true;
    m.press = Some(PressState { button: MouseButton::Middle, position: pos(2.0, 3.0), time: 4 });
    m.queue_transitions(10);
    assert_eq!(
        m.transitions.iter(),
        vec![
            PickingTransition::Released {
                entity: A,
                button: MouseButton::Middle,
                down: pos(2.0, 3.0),
                time: 6,
                outside: true,
            },
            PickingTransition::Pressed { entity: A, button: MouseButton::Middle },
        ]
    );
    m.previous = GlobalPickingState::Hover { entity: B };
    m.current = GlobalPickingState::Pressed { entity: A };
    m.press = None;
    m.queue_transitions(10);
    assert_eq!(
        m.transitions.iter(),
        vec![
            PickingTransition::HoverExit { entity: B },
            PickingTransition::Pressed { entity: A, button: MouseButton::Left },
        ]
    );
}

#[test]
fn changing_button_away_from_target_cancels() {
    let mut m = PickingStateMachine::new();
    frame(&mut m, vec![left(true, true), right(false, false)], &vec![batch(1.0, &[(A, 1.0)])], 5);
    assert_eq!(m.current, GlobalPickingState::Pressed { entity: A });
    frame(&mut m, vec![left(false, false), right(true, true)], &Vec::new(), 8);
    assert!(m.is_post_cancellation_state);
    assert_eq!(m.current, GlobalPickingState::Idle);
    assert_eq!(
        m.transitions.iter(),
        vec![PickingTransition::Cancelled {
            entity: A,
            button: MouseButton::Right,
            down: pos(10.0, 20.0),
            time: 0,
        }]
    );
}
