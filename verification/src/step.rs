//! The step resolver: what becomes of one intended move.
//!
//! A step is resolved in passes. For each pass the driver casts a ray from
//! the middle of the character toward the intended position and reports what
//! the probe found. A pass that finds a surface clips the move to the meeting
//! point and remembers the surface as floor, wall or ceiling; a pass that
//! finds none confirms the move as it stands. After a clip one more pass is
//! due, up to a fixed number of passes. The resolver makes the decisions: it
//! says when to probe, keeps the record, and names the result. Lengths are
//! whole numbers of whatever unit the driver measures distances in.

use vstd::prelude::*;
use crate::grid::Point;
use crate::probe::Hit;
use crate::surface::Direction;
use crate::surface::Surface;
use crate::surface::SurfaceClass;

verus! {

/// The height of a standing character, in world units.
pub const PLAYER_HEIGHT: i64 = 60;

/// The largest number of passes that one step is resolved in.
pub const STEP_PASSES: u8 = 2;

/// How a step ends: in the air, on the ground, or against a wall.
#[derive(Clone, Copy, Debug, PartialEq, Eq, Structural)]
pub enum StepResult {
    Air,
    Ground,
    Wall,
}

/// What the resolver asks of the driver next.
#[derive(Clone, Copy, Debug, PartialEq, Eq, Structural)]
pub enum StepAction {
    /// Cast a ray toward the intended position and report what it met.
    Probe,
    /// The step is resolved.
    Done(StepResult),
}

/// What the driver reports to the resolver.
#[derive(Clone, Copy, Debug, PartialEq, Eq, Structural)]
pub enum StepEvent {
    /// The step begins.
    Begin,
    /// The ray that was asked for met this surface, or none.
    Probed(Option<Hit>),
}

/// The record of one step while it is being resolved.
#[derive(Clone, Copy, Debug, PartialEq, Eq, Structural)]
pub struct MoveData {
    /// The facing of the surface that the last pass met, if it met one.
    pub hit_surface_normal: Option<Direction>,
    /// The wall that the step ran into, if any.
    pub wall_surface: Option<Surface>,
    /// The floor that the step came down on, if any.
    pub floor_surface: Option<Surface>,
    /// The ceiling that the step ran into, if any.
    pub ceil_surface: Option<Surface>,
    /// Where the character can get to, as far as the passes so far can tell.
    pub intended_pos: Point,
    /// Where the step set out to go.
    pub goal_pos: Point,
    /// The height of the floor under the character.
    pub floor_height: i64,
    /// The height of the ceiling over the character.
    pub ceil_height: i64,
    /// The height of the character as it collides: half for a crouch.
    pub player_height: i64,
    /// Whether the character is to be put on the floor it came down on.
    pub snap_to_floor: bool,
    /// The length of the longest move that the passes so far have confirmed.
    pub biggest_valid_move: u64,
    /// The length of the move from the start to the goal.
    pub goal_distance: u64,
    /// The number of passes made.
    pub passes: u8,
}

/// The height at which a character collides.
pub open spec fn collision_height(crouching: bool) -> int {
    if crouching {
        PLAYER_HEIGHT / 2
    } else {
        PLAYER_HEIGHT as int
    }
}

impl MoveData {
    /// The confirmed move is never longer than the move that was asked for,
    /// and no more passes were made than a step allows.
    pub open spec fn wf(self) -> bool {
        self.biggest_valid_move <= self.goal_distance && self.passes <= STEP_PASSES
    }

    /// The length of the move to the intended position: the whole move until
    /// a pass has been made, then what that pass left of it.
    pub open spec fn reach(self) -> u64 {
        if self.passes == 0 {
            self.goal_distance
        } else {
            self.biggest_valid_move
        }
    }

    /// The record of a step that has not been probed yet.
    pub open spec fn fresh(
        goal: Point,
        goal_distance: u64,
        crouching: bool,
        snap_to_floor: bool,
        floor_height: i64,
        ceil_height: i64,
    ) -> MoveData {
        MoveData {
            hit_surface_normal: None,
            wall_surface: None,
            floor_surface: None,
            ceil_surface: None,
            intended_pos: goal,
            goal_pos: goal,
            floor_height,
            ceil_height,
            player_height: collision_height(crouching) as i64,
            snap_to_floor,
            biggest_valid_move: 0,
            goal_distance,
            passes: 0,
        }
    }

    /// The record with one more pass counted and the last meeting forgotten.
    pub open spec fn next_pass(self) -> MoveData {
        MoveData { hit_surface_normal: None, passes: (self.passes + 1) as u8, ..self }
    }

    /// The record after a pass that met nothing: the move to the intended
    /// position is confirmed.
    pub open spec fn confirmed(self) -> MoveData {
        MoveData { biggest_valid_move: self.reach(), ..self.next_pass() }
    }

    /// The record after a pass that met `hit`: the move is clipped to the
    /// meeting point and the surface is remembered under its class.
    pub open spec fn clipped(self, hit: Hit) -> MoveData {
        let length = if hit.distance < self.reach() {
            hit.distance
        } else {
            self.reach()
        };
        let base = MoveData {
            hit_surface_normal: Some(hit.surface.normal),
            intended_pos: hit.point,
            biggest_valid_move: length,
            ..self.next_pass()
        };
        match hit.surface.normal.class() {
            SurfaceClass::Floor => MoveData {
                floor_surface: Some(hit.surface),
                floor_height: hit.point.y,
                ..base
            },
            SurfaceClass::Ceiling => MoveData {
                ceil_surface: Some(hit.surface),
                ceil_height: hit.point.y,
                ..base
            },
            SurfaceClass::Wall => MoveData { wall_surface: Some(hit.surface), ..base },
        }
    }

    /// The record after one pass with the given outcome. A step that goes
    /// nowhere meets nothing: the last meeting is forgotten and all else
    /// stays. So does a step that has used up its passes.
    pub open spec fn after_pass(self, probe: Option<Hit>) -> MoveData {
        if self.goal_distance == 0 || self.passes >= STEP_PASSES {
            MoveData { hit_surface_normal: None, ..self }
        } else {
            match probe {
                None => self.confirmed(),
                Some(hit) => self.clipped(hit),
            }
        }
    }

    /// Whether another pass is due: the step goes somewhere, passes are
    /// left, and either none was made yet or the last one clipped the move.
    pub open spec fn wants_probe(self) -> bool {
        &&& self.goal_distance > 0
        &&& self.passes < STEP_PASSES
        &&& (self.passes == 0 || self.hit_surface_normal is Some)
    }

    /// How the step ends: against a wall if it ran into one, else on the
    /// ground if it came down on a floor, else in the air.
    pub open spec fn verdict(self) -> StepResult {
        if self.wall_surface is Some {
            StepResult::Wall
        } else if self.floor_surface is Some {
            StepResult::Ground
        } else {
            StepResult::Air
        }
    }

    /// The record of a resolved step: where floor-snapping was asked for and
    /// the step came down on a floor, the intended position is put on it.
    pub open spec fn landed(self) -> MoveData {
        if self.snap_to_floor && self.floor_surface is Some {
            MoveData {
                intended_pos: Point {
                    x: self.intended_pos.x,
                    y: self.floor_height,
                    z: self.intended_pos.z,
                },
                ..self
            }
        } else {
            self
        }
    }

    /// The record after `event`.
    pub open spec fn after_event(self, event: StepEvent) -> MoveData {
        let heard = match event {
            StepEvent::Begin => self,
            StepEvent::Probed(probe) => self.after_pass(probe),
        };
        if heard.wants_probe() {
            heard
        } else {
            heard.landed()
        }
    }

    /// What the resolver asks for after `event`.
    pub open spec fn asks_after(self, event: StepEvent) -> StepAction {
        let heard = match event {
            StepEvent::Begin => self,
            StepEvent::Probed(probe) => self.after_pass(probe),
        };
        if heard.wants_probe() {
            StepAction::Probe
        } else {
            StepAction::Done(heard.verdict())
        }
    }

    /// Begins the record of a step toward `goal`, which lies `goal_distance`
    /// away.
    pub fn new(
        goal: Point,
        goal_distance: u64,
        crouching: bool,
        snap_to_floor: bool,
        floor_height: i64,
        ceil_height: i64,
    ) -> (md: MoveData)
        ensures
            md == MoveData::fresh(
                goal,
                goal_distance,
                crouching,
                snap_to_floor,
                floor_height,
                ceil_height,
            ),
            md.wf(),
    {
        MoveData {
            hit_surface_normal: None,
            wall_surface: None,
            floor_surface: None,
            ceil_surface: None,
            intended_pos: goal,
            goal_pos: goal,
            floor_height,
            ceil_height,
            player_height: if crouching {
                PLAYER_HEIGHT / 2
            } else {
                PLAYER_HEIGHT
            },
            snap_to_floor,
            biggest_valid_move: 0,
            goal_distance,
            passes: 0,
        }
    }

    /// Whether another pass is due.
    pub fn needs_probe(&self) -> (r: bool)
        ensures
            r == self.wants_probe(),
    {
        self.goal_distance > 0 && self.passes < STEP_PASSES && (self.passes == 0
            || self.hit_surface_normal.is_some())
    }

    /// How the step ends, as far as the record goes.
    pub fn result(&self) -> (r: StepResult)
        ensures
            r == self.verdict(),
    {
        if self.wall_surface.is_some() {
            StepResult::Wall
        } else if self.floor_surface.is_some() {
            StepResult::Ground
        } else {
            StepResult::Air
        }
    }
}

/// Begins an air step: the character is not put on the floor it meets.
pub fn perform_air_step(
    goal: Point,
    goal_distance: u64,
    crouching: bool,
    floor_height: i64,
    ceil_height: i64,
) -> (md: MoveData)
    ensures
        md == MoveData::fresh(goal, goal_distance, crouching, false, floor_height, ceil_height),
        md.wf(),
{
    MoveData::new(goal, goal_distance, crouching, false, floor_height, ceil_height)
}

/// Begins a ground step: the character is put on the floor it meets.
pub fn perform_ground_step(
    goal: Point,
    goal_distance: u64,
    crouching: bool,
    floor_height: i64,
    ceil_height: i64,
) -> (md: MoveData)
    ensures
        md == MoveData::fresh(goal, goal_distance, crouching, true, floor_height, ceil_height),
        md.wf(),
{
    MoveData::new(goal, goal_distance, crouching, true, floor_height, ceil_height)
}

/// Takes in the outcome of one pass: clips the move to the surface that the
/// probe met, or confirms it where the probe met none.
pub fn check_move_end_position(move_result: &mut MoveData, probe: Option<Hit>)
    requires
        old(move_result).wf(),
    ensures
        *final(move_result) == old(move_result).after_pass(probe),
        final(move_result).wf(),
{
    move_result.hit_surface_normal = None;
    if move_result.goal_distance == 0 || move_result.passes >= STEP_PASSES {
        return ;
    }
    let reach: u64 = if move_result.passes == 0 {
        move_result.goal_distance
    } else {
        move_result.biggest_valid_move
    };
    move_result.passes = move_result.passes + 1;
    match probe {
        None => {
            move_result.biggest_valid_move = reach;
        },
        Some(hit) => {
            move_result.hit_surface_normal = Some(hit.surface.normal);
            move_result.intended_pos = hit.point;
            move_result.biggest_valid_move = if hit.distance < reach {
                hit.distance
            } else {
                reach
            };
            match hit.surface.normal.classify() {
                SurfaceClass::Floor => {
                    move_result.floor_surface = Some(hit.surface);
                    move_result.floor_height = hit.point.y;
                },
                SurfaceClass::Ceiling => {
                    move_result.ceil_surface = Some(hit.surface);
                    move_result.ceil_height = hit.point.y;
                },
                SurfaceClass::Wall => {
                    move_result.wall_surface = Some(hit.surface);
                },
            }
        },
    }
}

/// Moves the resolution of a step along by one event and says what is due
/// next: another probe, or nothing more.
pub fn perform_step(move_result: &mut MoveData, event: StepEvent) -> (action: StepAction)
    requires
        old(move_result).wf(),
    ensures
        *final(move_result) == old(move_result).after_event(event),
        action == old(move_result).asks_after(event),
        final(move_result).wf(),
{
    match event {
        StepEvent::Begin => {},
        StepEvent::Probed(probe) => {
            check_move_end_position(move_result, probe);
        },
    }
    if move_result.needs_probe() {
        return StepAction::Probe;
    }
    let result: StepResult = move_result.result();
    if move_result.snap_to_floor && move_result.floor_surface.is_some() {
        move_result.intended_pos.y = move_result.floor_height;
    }
    StepAction::Done(result)
}

/// The confirmed move never grows longer than the move that was asked for.
pub proof fn lemma_pass_keeps_bound(md: MoveData, probe: Option<Hit>)
    requires
        md.wf(),
    ensures
        md.after_pass(probe).wf(),
        md.after_pass(probe).biggest_valid_move <= md.goal_distance,
        md.after_pass(probe).goal_distance == md.goal_distance,
        md.after_pass(probe).goal_pos == md.goal_pos,
{
}

/// A pass never lengthens the move: what a pass leaves of it is no longer
/// than what the pass found.
pub proof fn lemma_pass_never_lengthens(md: MoveData, probe: Option<Hit>)
    requires
        md.wf(),
        md.wants_probe(),
    ensures
        md.after_pass(probe).reach() <= md.reach(),
        md.after_pass(probe).passes == md.passes + 1,
{
}

/// A step is resolved in no more passes than `STEP_PASSES`: once that many
/// are made, no probe is asked for, and a pass that met nothing ends the
/// step at once.
pub proof fn lemma_passes_are_bounded(md: MoveData, probe: Option<Hit>)
    requires
        md.wf(),
    ensures
        md.wants_probe() ==> md.passes < STEP_PASSES,
        md.passes == STEP_PASSES ==> !md.wants_probe(),
        !md.after_pass(None).wants_probe(),
        md.asks_after(StepEvent::Probed(None)) is Done,
{
}

/// A step that goes nowhere asks for no probe, and whatever is reported to
/// it changes nothing but the memory of the last meeting.
pub proof fn lemma_still_step(md: MoveData, probe: Option<Hit>)
    requires
        md.goal_distance == 0,
    ensures
        !md.wants_probe(),
        md.asks_after(StepEvent::Begin) == StepAction::Done(md.verdict()),
        md.after_pass(probe) == (MoveData { hit_surface_normal: None, ..md }),
        md.after_pass(probe).verdict() == md.verdict(),
{
}

/// A step whose first pass meets a floor, and whose second pass meets that
/// floor again, another floor, or nothing, ends on the ground.
pub proof fn lemma_floor_means_ground(md: MoveData, first: Hit, second: Option<Hit>)
    requires
        md.wf(),
        md.passes == 0,
        md.goal_distance > 0,
        md.wall_surface is None,
        first.surface.normal.class() == SurfaceClass::Floor,
        second is Some ==> second->Some_0.surface.normal.class() == SurfaceClass::Floor,
    ensures
        md.after_pass(Some(first)).verdict() == StepResult::Ground,
        md.after_pass(Some(first)).floor_surface == Some(first.surface),
        md.asks_after(StepEvent::Probed(Some(first))) == StepAction::Probe,
        md.after_pass(Some(first)).asks_after(StepEvent::Probed(second)) == StepAction::Done(
            StepResult::Ground,
        ),
{
}

/// A step whose first pass meets a wall short of the goal ends against a
/// wall, whatever the second pass meets, and the confirmed move is strictly
/// shorter than the move that was asked for.
pub proof fn lemma_wall_stops_short(md: MoveData, first: Hit, second: Option<Hit>)
    requires
        md.wf(),
        md.passes == 0,
        first.surface.normal.class() == SurfaceClass::Wall,
        first.distance < md.goal_distance,
    ensures
        md.after_pass(Some(first)).verdict() == StepResult::Wall,
        md.after_pass(Some(first)).wall_surface == Some(first.surface),
        md.after_pass(Some(first)).biggest_valid_move == first.distance,
        md.after_pass(Some(first)).biggest_valid_move < md.goal_distance,
        md.after_pass(Some(first)).after_pass(second).biggest_valid_move < md.goal_distance,
        md.after_pass(Some(first)).asks_after(StepEvent::Probed(second)) == StepAction::Done(
            StepResult::Wall,
        ),
{
}

/// A step that meets nothing is confirmed in full and ends in the air,
/// unless its record already holds a wall or a floor.
pub proof fn lemma_free_step(md: MoveData)
    requires
        md.wf(),
        md.passes == 0,
        md.goal_distance > 0,
        md.wall_surface is None,
        md.floor_surface is None,
    ensures
        md.after_pass(None).biggest_valid_move == md.goal_distance,
        md.asks_after(StepEvent::Probed(None)) == StepAction::Done(StepResult::Air),
{
}

} // verus!
