//! The movement state machine.
//!
//! Once per frame the driver hands over what it has read from its
//! collaborators and gets back the state the character settles in and the
//! step, if any, that the frame calls for. A routine that changes the state
//! hands over to the routine of the new state within the same frame, so a
//! frame may pass through several states before it settles.

use vstd::prelude::*;
use crate::surface::Direction;

verus! {

/// What a character at rest is doing.
#[derive(Clone, Copy, Debug, PartialEq, Eq, Structural)]
pub enum StationaryAction {
    Idle,
    Sleeping,
}

/// What a character on the move is doing.
#[derive(Clone, Copy, Debug, PartialEq, Eq, Structural)]
pub enum MovingAction {
    Walking,
    Sliding,
    Landing,
}

/// What a character in the air is doing.
#[derive(Clone, Copy, Debug, PartialEq, Eq, Structural)]
pub enum AirborneAction {
    Jump,
    FreeFall,
}

/// The state of the character: exactly one of three kinds, each with what
/// the character is doing within it.
#[derive(Clone, Copy, Debug, PartialEq, Eq, Structural)]
pub enum PlayerState {
    Stationary(StationaryAction),
    Moving(MovingAction),
    Airborne(AirborneAction),
}

/// The step that a frame calls for once the state has settled.
#[derive(Clone, Copy, Debug, PartialEq, Eq, Structural)]
pub enum FrameAction {
    Rest,
    GroundStep,
    AirStep,
}

/// What the driver reads for one frame: the facing of the floor under the
/// character (the zero vector where there is none) and the direction the
/// character is asked to move in (the zero vector for none).
#[derive(Clone, Copy, Debug, PartialEq, Eq, Structural)]
pub struct FrameInput {
    pub floor_normal: Direction,
    pub desired_direction: Direction,
}

/// What one routine hands back: the state to go on with, whether that is a
/// change, and the step to take if it is not.
#[derive(Clone, Copy, Debug, PartialEq, Eq, Structural)]
pub struct Outcome {
    pub state: PlayerState,
    pub changed: bool,
    pub action: FrameAction,
}

/// The character, as far as the state machine is concerned.
#[derive(Clone, Copy, Debug, PartialEq, Eq, Structural)]
pub struct Player {
    pub state: PlayerState,
}

/// A routine's way of saying that the state stays as it is.
pub open spec fn stay(state: PlayerState, action: FrameAction) -> Outcome {
    Outcome { state, changed: false, action }
}

/// A routine's way of saying that the state changes.
pub open spec fn change_to(state: PlayerState) -> Outcome {
    Outcome { state, changed: true, action: FrameAction::Rest }
}

/// What the routine of `state` decides on `input`.
///
/// An idle character falls when the floor is too steep to stand on, and
/// otherwise starts walking when it is asked to move. A walking character
/// takes a ground step and a falling one an air step. Every other state
/// rests.
pub open spec fn dispatch(state: PlayerState, input: FrameInput) -> Outcome {
    match state {
        PlayerState::Stationary(StationaryAction::Idle) => {
            if input.floor_normal.below_walkable() {
                change_to(PlayerState::Airborne(AirborneAction::FreeFall))
            } else if !input.desired_direction.is_zero() {
                change_to(PlayerState::Moving(MovingAction::Walking))
            } else {
                stay(state, FrameAction::Rest)
            }
        },
        PlayerState::Moving(MovingAction::Walking) => stay(state, FrameAction::GroundStep),
        PlayerState::Airborne(AirborneAction::FreeFall) => stay(state, FrameAction::AirStep),
        _ => stay(state, FrameAction::Rest),
    }
}

/// Where a frame that starts in `state` settles: routines are dispatched
/// until one leaves the state as it is. Two dispatches are always enough.
pub open spec fn settle(state: PlayerState, input: FrameInput) -> Outcome {
    let first = dispatch(state, input);
    if first.changed {
        dispatch(first.state, input)
    } else {
        first
    }
}

/// The number of state changes a frame can still go through from `state`.
pub open spec fn changes_left(state: PlayerState) -> nat {
    match state {
        PlayerState::Stationary(StationaryAction::Idle) => 1,
        _ => 0,
    }
}

/// Every change of state leads to a state that changes no further within the
/// frame, so a frame always settles.
pub proof fn lemma_frame_settles(state: PlayerState, input: FrameInput)
    ensures
        dispatch(state, input).changed ==> changes_left(dispatch(state, input).state)
            < changes_left(state),
        !settle(state, input).changed,
        dispatch(settle(state, input).state, input) == settle(state, input),
{
}

/// An idle character that is asked to move, on a floor it can stand on, is
/// walking by the end of the same frame, and the frame calls for a ground
/// step.
pub proof fn lemma_idle_walks_at_once(input: FrameInput)
    requires
        !input.desired_direction.is_zero(),
        !input.floor_normal.below_walkable(),
    ensures
        settle(PlayerState::Stationary(StationaryAction::Idle), input) == stay(
            PlayerState::Moving(MovingAction::Walking),
            FrameAction::GroundStep,
        ),
{
}

/// An idle character on a floor too steep to stand on, or on none, is
/// falling by the end of the same frame, whatever it is asked to do.
pub proof fn lemma_idle_falls_at_once(input: FrameInput)
    requires
        input.floor_normal.below_walkable(),
    ensures
        settle(PlayerState::Stationary(StationaryAction::Idle), input) == stay(
            PlayerState::Airborne(AirborneAction::FreeFall),
            FrameAction::AirStep,
        ),
{
}

/// The routine of an idle character.
pub fn act_stationary_idle(input: FrameInput) -> (r: Outcome)
    ensures
        r == dispatch(PlayerState::Stationary(StationaryAction::Idle), input),
{
    if input.floor_normal.too_steep() {
        return Outcome {
            state: PlayerState::Airborne(AirborneAction::FreeFall),
            changed: true,
            action: FrameAction::Rest,
        };
    }
    if !input.desired_direction.is_zero_vector() {
        return Outcome {
            state: PlayerState::Moving(MovingAction::Walking),
            changed: true,
            action: FrameAction::Rest,
        };
    }
    Outcome {
        state: PlayerState::Stationary(StationaryAction::Idle),
        changed: false,
        action: FrameAction::Rest,
    }
}

/// The routine of a character at rest.
pub fn act_stationary(action: StationaryAction, input: FrameInput) -> (r: Outcome)
    ensures
        r == dispatch(PlayerState::Stationary(action), input),
{
    match action {
        StationaryAction::Idle => act_stationary_idle(input),
        StationaryAction::Sleeping => Outcome {
            state: PlayerState::Stationary(StationaryAction::Sleeping),
            changed: false,
            action: FrameAction::Rest,
        },
    }
}

/// The routine of a walking character.
pub fn act_moving_walking() -> (r: Outcome)
    ensures
        r == stay(PlayerState::Moving(MovingAction::Walking), FrameAction::GroundStep),
{
    Outcome {
        state: PlayerState::Moving(MovingAction::Walking),
        changed: false,
        action: FrameAction::GroundStep,
    }
}

/// The routine of a character on the move.
pub fn act_moving(action: MovingAction, input: FrameInput) -> (r: Outcome)
    ensures
        r == dispatch(PlayerState::Moving(action), input),
{
    match action {
        MovingAction::Walking => act_moving_walking(),
        MovingAction::Sliding => Outcome {
            state: PlayerState::Moving(MovingAction::Sliding),
            changed: false,
            action: FrameAction::Rest,
        },
        MovingAction::Landing => Outcome {
            state: PlayerState::Moving(MovingAction::Landing),
            changed: false,
            action: FrameAction::Rest,
        },
    }
}

/// The routine of a falling character.
pub fn act_airborne_freefall() -> (r: Outcome)
    ensures
        r == stay(PlayerState::Airborne(AirborneAction::FreeFall), FrameAction::AirStep),
{
    Outcome {
        state: PlayerState::Airborne(AirborneAction::FreeFall),
        changed: false,
        action: FrameAction::AirStep,
    }
}

/// The routine of a character in the air.
pub fn act_airborne(action: AirborneAction, input: FrameInput) -> (r: Outcome)
    ensures
        r == dispatch(PlayerState::Airborne(action), input),
{
    match action {
        AirborneAction::Jump => Outcome {
            state: PlayerState::Airborne(AirborneAction::Jump),
            changed: false,
            action: FrameAction::Rest,
        },
        AirborneAction::FreeFall => act_airborne_freefall(),
    }
}

/// The routine of any state.
pub fn act(state: PlayerState, input: FrameInput) -> (r: Outcome)
    ensures
        r == dispatch(state, input),
{
    match state {
        PlayerState::Stationary(a) => act_stationary(a, input),
        PlayerState::Moving(a) => act_moving(a, input),
        PlayerState::Airborne(a) => act_airborne(a, input),
    }
}

impl Player {
    /// A character in the given state.
    pub fn new(state: PlayerState) -> (p: Player)
        ensures
            p.state == state,
    {
        Player { state }
    }

    /// Puts the character into `state` and reports a change.
    pub fn set_state(&mut self, state: PlayerState) -> (changed: bool)
        ensures
            changed,
            final(self).state == state,
    {
        self.state = state;
        true
    }

    /// Runs one frame: dispatches routines until the state settles, leaves
    /// the character in that state, and returns the step the frame calls for.
    pub fn update(&mut self, input: FrameInput) -> (action: FrameAction)
        ensures
            final(self).state == settle(old(self).state, input).state,
            action == settle(old(self).state, input).action,
    {
        let mut action: FrameAction = FrameAction::Rest;
        let mut in_loop: bool = true;
        while in_loop
            invariant
                in_loop ==> settle(self.state, input) == settle(old(self).state, input),
                !in_loop ==> self.state == settle(old(self).state, input).state && action
                    == settle(old(self).state, input).action,
            decreases changes_left(self.state), (if in_loop { 1nat } else { 0nat }),
        {
            let outcome: Outcome = act(self.state, input);
            proof {
                lemma_frame_settles(self.state, input);
            }
            if outcome.changed {
                in_loop = self.set_state(outcome.state);
            } else {
                action = outcome.action;
                in_loop = false;
            }
        }
        action
    }
}

} // verus!
