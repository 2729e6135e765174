//! A global state machine for pointer picking.
//!
//! * One action at a time: at most one entity is hovered or pressed.
//! * Single button only: pressing several tracked buttons cancels the current
//!   click or drag, and that cancellation lasts until every tracked button is up.
//! * Clean interactions: while a tracked button is held, no new entity can
//!   become hovered or pressed.
//!
//! Every frame the host hands the machine its inputs as plain values (pointer
//! position, button readings, ranked hit batches, per-entity button filters);
//! the machine decides the new global state and the transitions of the frame.

pub mod hits;
pub mod local;
pub mod machine;
pub mod propagation;
pub mod transitions;
pub mod types;

pub use hits::{Hit, HitBatch};
pub use local::ButtonFilter;
pub use machine::{
    ButtonReading, EntityPickingState, GlobalPickingState, PickingStateMachine,
    PickingStateMachinePlugin, PressState,
};
pub use propagation::{PickingPropagation, PropagatedPickingStateMachine};
pub use transitions::{PickingTransition, PickingTransitions};
pub use types::{EntityId, MouseButton, Position};
