//! The chain of joints, its pose, and the animation that moves it from one
//! solved pose to the next.
//!
//! The library is generic in the scalar type `S` in which lengths and angles
//! are measured. It stores and hands out such values and never computes with
//! them: solving for a target and blending between two poses are the
//! caller's work, asked for through a [`TickAction`].

use vstd::prelude::*;
use crate::axis::Axis;
use crate::solver::{Solver, SolverRun, RunView};

verus! {

/// Ticks over which a chain moves from one pose to the next.
pub const TRANSITION_FRAMES: i32 = 180;

/// Ticks for which a chain holds a pose it has reached.
pub const WAIT_FRAMES: i32 = 60;

/// A point in the space the chain moves in.
#[derive(Debug)]
pub struct Point<S> {
    pub x: S,
    pub y: S,
    pub z: S,
}

/// One rotational joint: it turns about `axis`, and the next joint sits
/// `length` further along the turned frame's second axis.
#[derive(Debug)]
pub struct Joint<S> {
    pub axis: Axis,
    pub length: S,
}

/// What one joint does to the frame it is handed, at one angle: a turn by
/// `angle` about `axis`, then a step of `length` along the turned frame's
/// second axis.
#[derive(Debug)]
pub struct LocalTransform<S> {
    pub axis: Axis,
    pub angle: S,
    pub length: S,
}

impl<S: Copy> Clone for LocalTransform<S> {
    fn clone(&self) -> (copy: LocalTransform<S>)
        ensures
            copy == *self,
    {
        *self
    }
}

impl<S: Copy> Copy for LocalTransform<S> {}

impl<S: Copy> Clone for Point<S> {
    fn clone(&self) -> (copy: Point<S>)
        ensures
            copy == *self,
    {
        *self
    }
}

impl<S: Copy> Copy for Point<S> {}

impl<S: Copy> Clone for Joint<S> {
    fn clone(&self) -> (copy: Joint<S>)
        ensures
            copy == *self,
    {
        *self
    }
}

impl<S: Copy> Copy for Joint<S> {}

/// What a chain is doing.
#[derive(Debug)]
pub enum ChainState<S> {
    /// Moving from `start_angles` to `target_angles`, which were solved for
    /// `target`; `current_frame` of `transition_frames` ticks have passed.
    Seeking {
        target: Point<S>,
        transition_frames: i32,
        current_frame: i32,
        start_angles: Vec<S>,
        target_angles: Vec<S>,
    },
    /// Holding the pose for another `wait_frames` ticks.
    Waiting { wait_frames: i32 },
    /// At rest: the next tick asks for a new target.
    Done,
}

/// The mathematical value of a [`ChainState`].
pub enum StateView<S> {
    Seeking {
        target: Point<S>,
        transition_frames: int,
        current_frame: int,
        start_angles: Seq<S>,
        target_angles: Seq<S>,
    },
    Waiting { wait_frames: int },
    Done,
}

/// What the caller has to do after a tick.
#[derive(Clone, Copy, Debug, PartialEq, Eq, Structural)]
pub enum TickAction {
    /// The chain is at rest. Pick a target, solve for it with `solver`
    /// starting from the chain's angles, and hand the result to
    /// [`Chain::begin_seek`].
    Solve { solver: Solver },
    /// The chain is moving. Set every angle to the start angle plus
    /// `numerator / denominator` of the way to the target angle, with
    /// [`Chain::set_angles`].
    Interpolate { numerator: i32, denominator: i32 },
    /// Nothing.
    Hold,
}

/// Why a chain refused a value.
#[derive(Clone, Copy, Debug, PartialEq, Eq, Structural)]
pub enum ChainError {
    /// The number of angles is not the number of joints.
    LengthMismatch,
    /// A solved pose was handed to a chain that is not at rest.
    NotAtRest,
}

impl<S> View for ChainState<S> {
    type V = StateView<S>;

    open spec fn view(&self) -> StateView<S> {
        match *self {
            ChainState::Seeking {
                target,
                transition_frames,
                current_frame,
                start_angles,
                target_angles,
            } => StateView::Seeking {
                target,
                transition_frames: transition_frames as int,
                current_frame: current_frame as int,
                start_angles: start_angles@,
                target_angles: target_angles@,
            },
            ChainState::Waiting { wait_frames } => StateView::Waiting {
                wait_frames: wait_frames as int,
            },
            ChainState::Done => StateView::Done,
        }
    }
}

impl<S> StateView<S> {
    /// The states a chain of `joints` joints can be in.
    pub open spec fn wf(self, joints: nat) -> bool {
        match self {
            StateView::Seeking {
                transition_frames,
                current_frame,
                start_angles,
                target_angles,
                ..
            } => {
                &&& 0 <= current_frame < transition_frames <= i32::MAX
                &&& start_angles.len() == joints
                &&& target_angles.len() == joints
            },
            StateView::Waiting { wait_frames } => 0 <= wait_frames <= i32::MAX,
            StateView::Done => true,
        }
    }

    /// The state in which a chain sets out from `start_angles` for
    /// `target_angles`.
    pub open spec fn setting_out(
        target: Point<S>,
        start_angles: Seq<S>,
        target_angles: Seq<S>,
    ) -> StateView<S> {
        StateView::Seeking {
            target,
            transition_frames: TRANSITION_FRAMES as int,
            current_frame: 0,
            start_angles,
            target_angles,
        }
    }

    /// The state one tick later. A chain at rest stays at rest until it is
    /// given a pose to seek.
    pub open spec fn ticked(self) -> StateView<S> {
        match self {
            StateView::Seeking {
                target,
                transition_frames,
                current_frame,
                start_angles,
                target_angles,
            } => {
                if current_frame + 1 == transition_frames {
                    StateView::Waiting { wait_frames: WAIT_FRAMES as int }
                } else {
                    StateView::Seeking {
                        target,
                        transition_frames,
                        current_frame: current_frame + 1,
                        start_angles,
                        target_angles,
                    }
                }
            },
            StateView::Waiting { wait_frames } => {
                if wait_frames == 0 {
                    StateView::Done
                } else {
                    StateView::Waiting { wait_frames: wait_frames - 1 }
                }
            },
            StateView::Done => StateView::Done,
        }
    }

    /// What a tick in this state asks of the caller. While the chain keeps
    /// moving, the fraction of the way it is to be at is one frame ahead of
    /// the frame count the tick leaves.
    pub open spec fn action(self, solver: Solver) -> TickAction {
        match self {
            StateView::Seeking { transition_frames, current_frame, .. } => {
                if current_frame + 1 == transition_frames {
                    TickAction::Hold
                } else {
                    TickAction::Interpolate {
                        numerator: (current_frame + 2) as i32,
                        denominator: transition_frames as i32,
                    }
                }
            },
            StateView::Waiting { .. } => TickAction::Hold,
            StateView::Done => TickAction::Solve { solver },
        }
    }

    /// The state one tick later when a chain at rest is given `pose`, solved
    /// for `target`, on the tick that finds it at rest, while its angles are
    /// `angles`.
    pub open spec fn driven(self, target: Point<S>, angles: Seq<S>, pose: Seq<S>) -> StateView<
        S,
    > {
        if self is Done {
            Self::setting_out(target, angles, pose)
        } else {
            self.ticked()
        }
    }

    /// The state `ticks` such ticks later.
    pub open spec fn driven_for(
        self,
        ticks: nat,
        target: Point<S>,
        angles: Seq<S>,
        pose: Seq<S>,
    ) -> StateView<S>
        decreases ticks,
    {
        if ticks == 0 {
            self
        } else {
            self.driven_for((ticks - 1) as nat, target, angles, pose).driven(target, angles, pose)
        }
    }
}

impl<S> Default for ChainState<S> {
    /// A chain starts at rest.
    fn default() -> (state: ChainState<S>)
        ensures
            state@ == StateView::<S>::Done,
    {
        ChainState::Done
    }
}

/// The mathematical value of a [`Chain`].
pub struct ChainView<S> {
    pub joints: Seq<Joint<S>>,
    pub angles: Seq<S>,
    pub state: StateView<S>,
    pub solver: Solver,
}

impl<S> ChainView<S> {
    /// There is one angle per joint, and the state carries poses of as many
    /// angles.
    pub open spec fn wf(self) -> bool {
        &&& self.angles.len() == self.joints.len()
        &&& self.state.wf(self.joints.len())
    }

    /// The local transform of each joint at `angles`, from the root to the
    /// end effector. The frame at the end of a joint is the frame at the end
    /// of the joint before it, or the root's, followed by the joint's local
    /// transform.
    pub open spec fn local_transforms(self, angles: Seq<S>) -> Seq<LocalTransform<S>> {
        Seq::new(
            self.joints.len(),
            |i: int|
                LocalTransform {
                    axis: self.joints[i].axis,
                    angle: angles[i],
                    length: self.joints[i].length,
                },
        )
    }

    /// The target the chain is moving towards, if it is moving.
    pub open spec fn target(self) -> Option<Point<S>> {
        match self.state {
            StateView::Seeking { target, .. } => Some(target),
            _ => None,
        }
    }
}

/// A chain of rotational joints from a root to an end effector, with the
/// angle of each joint, the state of its animation, and the strategy by which
/// its poses are solved.
pub struct Chain<S> {
    joints: Vec<Joint<S>>,
    angles: Vec<S>,
    state: ChainState<S>,
    solver: Solver,
}

impl<S> View for Chain<S> {
    type V = ChainView<S>;

    closed spec fn view(&self) -> ChainView<S> {
        ChainView {
            joints: self.joints@,
            angles: self.angles@,
            state: self.state@,
            solver: self.solver,
        }
    }
}

impl<S> Chain<S> {
    #[verifier::type_invariant]
    spec fn inv(self) -> bool {
        self@.wf()
    }
}

impl<S: Copy> Chain<S> {
    /// A chain at rest with the given joints and angles. There must be one
    /// angle per joint.
    pub fn new(joints: Vec<Joint<S>>, angles: Vec<S>, solver: Solver) -> (made: Result<
        Chain<S>,
        ChainError,
    >)
        ensures
            joints.len() == angles.len() ==> made is Ok && made->Ok_0@ == (ChainView {
                joints: joints@,
                angles: angles@,
                state: StateView::Done,
                solver,
            }),
            joints.len() != angles.len() ==> made == Err::<Chain<S>, ChainError>(
                ChainError::LengthMismatch,
            ),
    {
        if joints.len() != angles.len() {
            return Err(ChainError::LengthMismatch);
        }
        Ok(Chain { joints, angles, state: ChainState::Done, solver })
    }

    /// The number of joints.
    pub fn len(&self) -> (n: usize)
        ensures
            n == self@.joints.len(),
            n == self@.angles.len(),
    {
        proof {
            use_type_invariant(self);
        }
        self.joints.len()
    }

    /// The joints, from the root to the end effector.
    pub fn joints(&self) -> (joints: &Vec<Joint<S>>)
        ensures
            joints@ == self@.joints,
    {
        &self.joints
    }

    /// The current angle of each joint.
    pub fn angles(&self) -> (angles: &Vec<S>)
        ensures
            angles@ == self@.angles,
            angles@.len() == self@.joints.len(),
    {
        proof {
            use_type_invariant(self);
        }
        &self.angles
    }

    /// What the chain is doing.
    pub fn state(&self) -> (state: &ChainState<S>)
        ensures
            state@ == self@.state,
            state@.wf(self@.joints.len()),
    {
        proof {
            use_type_invariant(self);
        }
        &self.state
    }

    /// The strategy by which the chain's poses are solved.
    pub fn solver(&self) -> (solver: Solver)
        ensures
            solver == self@.solver,
    {
        self.solver
    }

    /// The target the chain is moving towards, if it is moving.
    pub fn target(&self) -> (target: Option<Point<S>>)
        ensures
            target == self@.target(),
    {
        match &self.state {
            ChainState::Seeking { target, .. } => Some(*target),
            _ => None,
        }
    }

    /// The local transform of each joint at the chain's own angles, from the
    /// root to the end effector.
    pub fn local_transforms(&self) -> (transforms: Vec<LocalTransform<S>>)
        ensures
            transforms@ == self@.local_transforms(self@.angles),
    {
        proof {
            use_type_invariant(self);
        }
        self.pair_with(self.angles.as_slice())
    }

    /// The local transform of each joint at `angles`, from the root to the
    /// end effector. There must be one angle per joint.
    pub fn local_transforms_with_angles(&self, angles: &[S]) -> (transforms: Result<
        Vec<LocalTransform<S>>,
        ChainError,
    >)
        ensures
            angles.len() == self@.joints.len() ==> transforms is Ok && transforms->Ok_0@
                == self@.local_transforms(angles@),
            angles.len() != self@.joints.len() ==> transforms == Err::<
                Vec<LocalTransform<S>>,
                ChainError,
            >(ChainError::LengthMismatch),
    {
        if angles.len() != self.joints.len() {
            return Err(ChainError::LengthMismatch);
        }
        Ok(self.pair_with(angles))
    }

    /// Each joint with its angle.
    fn pair_with(&self, angles: &[S]) -> (transforms: Vec<LocalTransform<S>>)
        requires
            angles.len() == self@.joints.len(),
        ensures
            transforms@ == self@.local_transforms(angles@),
    {
        let mut transforms: Vec<LocalTransform<S>> = Vec::with_capacity(self.joints.len());
        let mut i: usize = 0;
        while i < self.joints.len()
            invariant
                i <= self.joints.len(),
                angles.len() == self.joints.len(),
                self@.joints == self.joints@,
                transforms@ == self@.local_transforms(angles@).take(i as int),
            decreases self.joints.len() - i,
        {
            let joint = self.joints[i];
            transforms.push(
                LocalTransform { axis: joint.axis, angle: angles[i], length: joint.length },
            );
            i = i + 1;
        }
        transforms
    }

    /// Replaces the angles. There must be one per joint; otherwise the chain
    /// is left as it was.
    pub fn set_angles(&mut self, angles: Vec<S>) -> (set: Result<(), ChainError>)
        ensures
            angles.len() == old(self)@.joints.len() ==> set is Ok && final(self)@ == (ChainView {
                angles: angles@,
                ..old(self)@
            }),
            angles.len() != old(self)@.joints.len() ==> set == Err::<(), ChainError>(
                ChainError::LengthMismatch,
            ) && final(self)@ == old(self)@,
    {
        proof {
            use_type_invariant(&*self);
        }
        if angles.len() != self.joints.len() {
            return Err(ChainError::LengthMismatch);
        }
        self.angles = angles;
        Ok(())
    }

    /// Advances the animation by one tick and says what the caller has to
    /// do. A moving chain counts a frame, and comes to hold its pose when the
    /// count reaches the length of the transition. A holding chain counts
    /// down, and comes to rest when the count has run out. A chain at rest
    /// stays at rest and asks for a solved pose.
    pub fn tick(&mut self) -> (action: TickAction)
        ensures
            final(self)@ == (ChainView { state: old(self)@.state.ticked(), ..old(self)@ }),
            action == old(self)@.state.action(old(self)@.solver),
    {
        proof {
            use_type_invariant(&*self);
        }
        let mut state = ChainState::Done;
        core::mem::swap(&mut self.state, &mut state);
        let (next, action) = match state {
            ChainState::Seeking {
                target,
                transition_frames,
                current_frame,
                start_angles,
                target_angles,
            } => {
                let frame: i32 = current_frame + 1;
                if frame == transition_frames {
                    (ChainState::Waiting { wait_frames: WAIT_FRAMES }, TickAction::Hold)
                } else {
                    (
                        ChainState::Seeking {
                            target,
                            transition_frames,
                            current_frame: frame,
                            start_angles,
                            target_angles,
                        },
                        TickAction::Interpolate {
                            numerator: frame + 1,
                            denominator: transition_frames,
                        },
                    )
                }
            },
            ChainState::Waiting { wait_frames } => {
                if wait_frames == 0 {
                    (ChainState::Done, TickAction::Hold)
                } else {
                    (ChainState::Waiting { wait_frames: wait_frames - 1 }, TickAction::Hold)
                }
            },
            ChainState::Done => (ChainState::Done, TickAction::Solve { solver: self.solver }),
        };
        self.state = next;
        action
    }

    /// Sets a chain at rest out for `target_angles`, the pose solved for
    /// `target`: the current angles become the start of the transition, and
    /// no frame of it has passed. There must be one target angle per joint.
    /// A chain that is not at rest, or a pose of another length, leaves the
    /// chain as it was.
    pub fn begin_seek(&mut self, target: Point<S>, target_angles: Vec<S>) -> (begun: Result<
        (),
        ChainError,
    >)
        ensures
            old(self)@.state is Done && target_angles.len() == old(self)@.joints.len() ==> {
                &&& begun is Ok
                &&& final(self)@ == (ChainView {
                    state: StateView::setting_out(target, old(self)@.angles, target_angles@),
                    ..old(self)@
                })
            },
            !(old(self)@.state is Done) ==> {
                &&& begun == Err::<(), ChainError>(ChainError::NotAtRest)
                &&& final(self)@ == old(self)@
            },
            old(self)@.state is Done && target_angles.len() != old(self)@.joints.len() ==> {
                &&& begun == Err::<(), ChainError>(ChainError::LengthMismatch)
                &&& final(self)@ == old(self)@
            },
    {
        proof {
            use_type_invariant(&*self);
        }
        match self.state {
            ChainState::Done => {},
            _ => {
                return Err(ChainError::NotAtRest);
            },
        }
        if target_angles.len() != self.joints.len() {
            return Err(ChainError::LengthMismatch);
        }
        let start_angles = copy_of(&self.angles);
        self.state = ChainState::Seeking {
            target,
            transition_frames: TRANSITION_FRAMES,
            current_frame: 0,
            start_angles,
            target_angles,
        };
        Ok(())
    }

    /// Starts a run of the chain's solver from the chain's angles.
    pub fn begin_solve(&self) -> (run: SolverRun<S>)
        ensures
            run@ == RunView::begun(self@.solver, self@.angles),
            run@.wf(),
    {
        SolverRun::begin(self.solver, copy_of(&self.angles))
    }
}

/// A vector that holds the items of `items`, in their order.
fn copy_of<S: Copy>(items: &Vec<S>) -> (copy: Vec<S>)
    ensures
        copy@ == items@,
{
    let mut copy: Vec<S> = Vec::with_capacity(items.len());
    let mut i: usize = 0;
    while i < items.len()
        invariant
            i <= items.len(),
            copy@ == items@.take(i as int),
        decreases items.len() - i,
    {
        copy.push(items[i]);
        i = i + 1;
    }
    copy
}

/// Ticks from one rest to the next: one on which the chain sets out, the
/// transition, and the wait with its last tick, on which the count is found
/// run out.
pub open spec fn cycle_ticks() -> nat {
    (TRANSITION_FRAMES + WAIT_FRAMES + 2) as nat
}

/// A tick keeps a chain's state among the states it can be in, and so does
/// setting out for a pose with one angle per joint.
pub proof fn lemma_states_stay_wf<S>(
    state: StateView<S>,
    joints: nat,
    target: Point<S>,
    start_angles: Seq<S>,
    target_angles: Seq<S>,
)
    requires
        state.wf(joints),
    ensures
        state.ticked().wf(joints),
        start_angles.len() == joints && target_angles.len() == joints ==> StateView::setting_out(
            target,
            start_angles,
            target_angles,
        ).wf(joints),
{
}

/// A moving chain counts every tick: the frame count goes up by one with
/// each tick until it reaches the length of the transition, and the target
/// and the two poses stay as they are.
pub proof fn lemma_frames_count_up<S>(state: StateView<S>, joints: nat)
    requires
        state.wf(joints),
        state is Seeking,
    ensures
        state.ticked() is Seeking ==> {
            &&& state.ticked()->current_frame == state->current_frame + 1
            &&& state.ticked()->transition_frames == state->transition_frames
            &&& state.ticked()->target == state->target
            &&& state.ticked()->start_angles == state->start_angles
            &&& state.ticked()->target_angles == state->target_angles
        },
        state.ticked() is Seeking <==> state->current_frame + 1 < state->transition_frames,
        !(state.ticked() is Seeking) ==> state.ticked() == (StateView::<S>::Waiting {
            wait_frames: WAIT_FRAMES as int,
        }),
{
}

/// The cycle of the animation. A chain at rest that is given a pose on the
/// tick that finds it at rest is moving towards that pose after each of the
/// first `TRANSITION_FRAMES` ticks, with one frame fewer counted than ticks
/// have passed; it holds its pose after each of the next `WAIT_FRAMES + 1`
/// ticks, with the count at `WAIT_FRAMES` after the first of them and at zero
/// after the last; and it is at rest again after one tick more.
pub proof fn lemma_cycle<S>(ticks: nat, target: Point<S>, angles: Seq<S>, pose: Seq<S>)
    requires
        ticks <= cycle_ticks(),
    ensures
        ticks == 0 ==> StateView::<S>::Done.driven_for(ticks, target, angles, pose)
            == StateView::<S>::Done,
        1 <= ticks <= TRANSITION_FRAMES ==> StateView::<S>::Done.driven_for(
            ticks,
            target,
            angles,
            pose,
        ) == (StateView::Seeking {
            target,
            transition_frames: TRANSITION_FRAMES as int,
            current_frame: ticks - 1,
            start_angles: angles,
            target_angles: pose,
        }),
        TRANSITION_FRAMES < ticks < cycle_ticks() ==> StateView::<S>::Done.driven_for(
            ticks,
            target,
            angles,
            pose,
        ) == (StateView::<S>::Waiting { wait_frames: cycle_ticks() - 1 - ticks }),
        ticks == cycle_ticks() ==> StateView::<S>::Done.driven_for(ticks, target, angles, pose)
            == StateView::<S>::Done,
    decreases ticks,
{
    if ticks > 0 {
        lemma_cycle((ticks - 1) as nat, target, angles, pose);
    }
}

/// The animation repeats: from rest, the state after a whole cycle and
/// `ticks` ticks more is the state after `ticks` ticks.
pub proof fn lemma_cycle_repeats<S>(ticks: nat, target: Point<S>, angles: Seq<S>, pose: Seq<S>)
    ensures
        StateView::<S>::Done.driven_for(cycle_ticks() + ticks, target, angles, pose)
            == StateView::<S>::Done.driven_for(ticks, target, angles, pose),
    decreases ticks,
{
    if ticks == 0 {
        lemma_cycle(cycle_ticks(), target, angles, pose);
    } else {
        lemma_cycle_repeats((ticks - 1) as nat, target, angles, pose);
        assert((cycle_ticks() + ticks - 1) as nat == cycle_ticks() + (ticks - 1) as nat);
    }
}

/// The fractions of the way that a chain is asked to be at during one
/// transition: the tick that leaves `frame` frames counted asks for
/// `frame + 1` parts of `TRANSITION_FRAMES`, so the first tick after setting
/// out asks for two parts, the last moving tick for the whole way, and the
/// tick after it for nothing.
pub proof fn lemma_fractions<S>(
    ticks: nat,
    target: Point<S>,
    angles: Seq<S>,
    pose: Seq<S>,
    solver: Solver,
)
    requires
        1 <= ticks <= TRANSITION_FRAMES,
    ensures
        ticks < TRANSITION_FRAMES ==> StateView::<S>::Done.driven_for(
            ticks,
            target,
            angles,
            pose,
        ).action(solver) == (TickAction::Interpolate {
            numerator: (ticks + 1) as i32,
            denominator: TRANSITION_FRAMES,
        }),
        ticks == TRANSITION_FRAMES ==> StateView::<S>::Done.driven_for(
            ticks,
            target,
            angles,
            pose,
        ).action(solver) == TickAction::Hold,
{
    lemma_cycle(ticks, target, angles, pose);
}

} // verus!
