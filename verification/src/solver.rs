//! Iteration control for the three inverse-kinematics strategies.
//!
//! A solver run alternates numeric work (measuring how far the end effector is
//! from the target, turning a joint, applying a Jacobian update) with decisions
//! (stop, go on, which joint comes next). The numeric work is the caller's. The
//! decisions are made here: a [`SolverRun`] tells the caller which piece of work
//! is pending, takes a [`Report`] of how it went, and moves on. Every run ends
//! within a fixed number of steps, whatever is reported.

use vstd::prelude::*;

verus! {

/// Passes that cyclic coordinate descent may make over the joints.
pub const CCD_MAX_ITERATIONS: usize = 240;

/// Updates that the Jacobian transpose method may apply.
pub const TRANSPOSE_MAX_ITERATIONS: usize = 120;

/// Updates that the Jacobian pseudo-inverse method may apply.
pub const PSEUDO_INVERSE_MAX_ITERATIONS: usize = 240;

/// The strategy by which a chain's joint angles are solved for a target.
#[derive(Clone, Copy, Debug, PartialEq, Eq, Structural)]
pub enum Solver {
    /// Turns one joint at a time, from the end effector back to the root.
    CyclicCoordinateDescent,
    /// Moves every joint along the transposed Jacobian applied to the error.
    JacobianTranspose,
    /// Moves every joint along the right pseudo-inverse of the Jacobian
    /// applied to the error.
    JacobianPseudoInverse,
}

impl Solver {
    /// The number of iterations after which a run of this strategy gives up.
    pub open spec fn iteration_cap(self) -> nat {
        match self {
            Solver::CyclicCoordinateDescent => 240,
            Solver::JacobianTranspose => 120,
            Solver::JacobianPseudoInverse => 240,
        }
    }

    /// Whether an iteration visits the joints one by one.
    pub open spec fn visits_joints(self) -> bool {
        self is CyclicCoordinateDescent
    }

    /// The number of steps that one full iteration takes on a chain of
    /// `joints` joints: the measurement, then either one adjustment per joint
    /// or a single update of all joints.
    pub open spec fn steps_per_iteration(self, joints: nat) -> nat {
        if self.visits_joints() {
            joints + 1
        } else {
            2
        }
    }

    /// The largest number of steps that a run on `joints` joints can take.
    pub open spec fn step_budget(self, joints: nat) -> nat {
        self.iteration_cap() * self.steps_per_iteration(joints)
    }

    /// The number of iterations after which a run of this strategy gives up.
    pub fn max_iterations(&self) -> (cap: usize)
        ensures
            cap == self.iteration_cap(),
    {
        match self {
            Solver::CyclicCoordinateDescent => CCD_MAX_ITERATIONS,
            Solver::JacobianTranspose => TRANSPOSE_MAX_ITERATIONS,
            Solver::JacobianPseudoInverse => PSEUDO_INVERSE_MAX_ITERATIONS,
        }
    }
}

/// Why a run ended.
#[derive(Clone, Copy, Debug, PartialEq, Eq, Structural)]
pub enum Outcome {
    /// The chain has no joints, so there was nothing to solve.
    Empty,
    /// A measurement found the end effector within the distance threshold.
    Converged,
    /// The iteration cap was reached without such a measurement. The angles
    /// reached so far are the result.
    Exhausted,
    /// An update could not be computed because the Jacobian's Gram matrix was
    /// not invertible. The angles reached before it are the result.
    Singular,
}

/// The piece of work a run is waiting for.
#[derive(Clone, Copy, Debug, PartialEq, Eq, Structural)]
pub enum Step {
    /// Evaluate the chain at the current angles and compare the distance from
    /// the end effector to the target with the threshold.
    Measure,
    /// Turn joint `joint` towards the target and re-evaluate what lies
    /// downstream of it.
    Adjust { joint: usize },
    /// Build the Jacobian at the current angles and apply its update to all
    /// joints.
    Update,
    /// Nothing: the run is over.
    Finished { outcome: Outcome },
}

/// How a piece of work went.
#[derive(Debug)]
pub enum Report<S> {
    /// The distance was measured.
    Measured { within_threshold: bool },
    /// The joint was turned: `angle` is its new angle.
    Adjusted { angle: S },
    /// The joint was left alone, because its axis is nearly parallel to the
    /// direction it would have to turn towards.
    Skipped,
    /// The update was applied: `angles` are the new angles of all joints.
    Updated { angles: Vec<S> },
    /// The update could not be computed, because the Jacobian's Gram matrix
    /// is not invertible.
    Singular,
}

/// The mathematical value of a [`Report`].
pub enum ReportView<S> {
    Measured { within_threshold: bool },
    Adjusted { angle: S },
    Skipped,
    Updated { angles: Seq<S> },
    Singular,
}

impl<S> View for Report<S> {
    type V = ReportView<S>;

    open spec fn view(&self) -> ReportView<S> {
        match *self {
            Report::Measured { within_threshold } => ReportView::Measured { within_threshold },
            Report::Adjusted { angle } => ReportView::Adjusted { angle },
            Report::Skipped => ReportView::Skipped,
            Report::Updated { angles } => ReportView::Updated { angles: angles@ },
            Report::Singular => ReportView::Singular,
        }
    }
}

/// Why a run refused a report.
#[derive(Clone, Copy, Debug, PartialEq, Eq, Structural)]
pub enum RunError {
    /// The report is of another kind than the pending step asks for.
    UnexpectedReport,
    /// The update does not hold one angle per joint.
    LengthMismatch,
}

/// The mathematical state of a run.
pub struct RunView<S> {
    pub solver: Solver,
    pub angles: Seq<S>,
    pub iteration: nat,
    pub step: Step,
}

impl<S> RunView<S> {
    /// The state in which a run that starts from `angles` is.
    pub open spec fn begun(solver: Solver, angles: Seq<S>) -> RunView<S> {
        RunView {
            solver,
            angles,
            iteration: 0,
            step: if angles.len() == 0 {
                Step::Finished { outcome: Outcome::Empty }
            } else {
                Step::Measure
            },
        }
    }

    /// The number of joints of the chain the run works on.
    pub open spec fn joints(self) -> nat {
        self.angles.len()
    }

    /// The states a run can be in.
    pub open spec fn wf(self) -> bool {
        &&& self.joints() <= usize::MAX
        &&& self.iteration <= self.solver.iteration_cap()
        &&& match self.step {
            Step::Finished { .. } => true,
            Step::Measure => self.joints() > 0 && self.iteration < self.solver.iteration_cap(),
            Step::Adjust { joint } => {
                &&& self.solver.visits_joints()
                &&& joint < self.joints()
                &&& self.iteration < self.solver.iteration_cap()
            },
            Step::Update => {
                &&& !self.solver.visits_joints()
                &&& self.joints() > 0
                &&& self.iteration < self.solver.iteration_cap()
            },
        }
    }

    /// Whether the run is over.
    pub open spec fn finished(self) -> bool {
        self.step is Finished
    }

    /// Whether `report` answers the pending step.
    pub open spec fn accepts(self, report: ReportView<S>) -> bool {
        match (self.step, report) {
            (Step::Measure, ReportView::Measured { .. }) => true,
            (Step::Adjust { .. }, ReportView::Adjusted { .. }) => true,
            (Step::Adjust { .. }, ReportView::Skipped) => true,
            (Step::Update, ReportView::Updated { angles }) => angles.len() == self.joints(),
            (Step::Update, ReportView::Singular) => true,
            _ => false,
        }
    }

    /// The error with which a report that is not accepted is refused.
    pub open spec fn refusal(self, report: ReportView<S>) -> RunError {
        if self.step is Update && report is Updated {
            RunError::LengthMismatch
        } else {
            RunError::UnexpectedReport
        }
    }

    /// The state after the current iteration is complete: the next
    /// measurement, unless the cap is reached.
    pub open spec fn iteration_closed(self) -> RunView<S> {
        RunView {
            iteration: self.iteration + 1,
            step: if self.iteration + 1 >= self.solver.iteration_cap() {
                Step::Finished { outcome: Outcome::Exhausted }
            } else {
                Step::Measure
            },
            ..self
        }
    }

    /// The state after the joint that was up has been dealt with: the joint
    /// before it is up, or the iteration is complete.
    pub open spec fn joint_closed(self, joint: usize) -> RunView<S> {
        if joint > 0 {
            RunView { step: Step::Adjust { joint: (joint - 1) as usize }, ..self }
        } else {
            self.iteration_closed()
        }
    }

    /// The state after `report`. A report that is not accepted changes
    /// nothing.
    pub open spec fn advanced(self, report: ReportView<S>) -> RunView<S> {
        if !self.accepts(report) {
            self
        } else {
            match (self.step, report) {
                (Step::Measure, ReportView::Measured { within_threshold }) => {
                    if within_threshold {
                        RunView { step: Step::Finished { outcome: Outcome::Converged }, ..self }
                    } else if self.solver.visits_joints() {
                        RunView {
                            step: Step::Adjust { joint: (self.joints() - 1) as usize },
                            ..self
                        }
                    } else {
                        RunView { step: Step::Update, ..self }
                    }
                },
                (Step::Adjust { joint }, ReportView::Adjusted { angle }) => (RunView {
                    angles: self.angles.update(joint as int, angle),
                    ..self
                }).joint_closed(joint),
                (Step::Adjust { joint }, ReportView::Skipped) => self.joint_closed(joint),
                (Step::Update, ReportView::Updated { angles }) => (RunView {
                    angles,
                    ..self
                }).iteration_closed(),
                (Step::Update, ReportView::Singular) => RunView {
                    step: Step::Finished { outcome: Outcome::Singular },
                    ..self
                },
                _ => self,
            }
        }
    }

    /// The state after each of `reports` in turn.
    pub open spec fn advanced_through(self, reports: Seq<ReportView<S>>) -> RunView<S>
        decreases reports.len(),
    {
        if reports.len() == 0 {
            self
        } else {
            self.advanced_through(reports.drop_last()).advanced(reports.last())
        }
    }

    /// Whether each of `reports` is accepted when it arrives.
    pub open spec fn accepts_all(self, reports: Seq<ReportView<S>>) -> bool
        decreases reports.len(),
    {
        if reports.len() == 0 {
            true
        } else {
            &&& self.accepts_all(reports.drop_last())
            &&& self.advanced_through(reports.drop_last()).accepts(reports.last())
        }
    }

    /// Whether `report` reports no end: the measurement is outside the
    /// threshold, or the update was computed.
    pub open spec fn goes_on(report: ReportView<S>) -> bool {
        match report {
            ReportView::Measured { within_threshold } => !within_threshold,
            ReportView::Singular => false,
            _ => true,
        }
    }

    /// Whether each of `reports` reports no end.
    pub open spec fn all_go_on(reports: Seq<ReportView<S>>) -> bool {
        forall|i: int| 0 <= i < reports.len() ==> Self::goes_on(#[trigger] reports[i])
    }

    /// The number of steps of the current iteration that are done: none
    /// before the measurement, one before the update, and before the
    /// adjustment of a joint the measurement and one adjustment for each
    /// joint behind it.
    pub open spec fn steps_into_iteration(self) -> nat {
        match self.step {
            Step::Adjust { joint } => (self.joints() - joint) as nat,
            Step::Update => 1,
            _ => 0,
        }
    }

    /// The number of reports the run accepts before it is over, if none of
    /// them reports an end.
    pub open spec fn steps_left(self) -> nat {
        let per_iteration = self.solver.steps_per_iteration(self.joints());
        let whole = (self.solver.iteration_cap() - self.iteration) * per_iteration;
        if self.finished() {
            0
        } else {
            (whole - self.steps_into_iteration()) as nat
        }
    }
}

/// One run of a solver: the angles it has reached, the iteration it is in,
/// and the piece of work it is waiting for.
pub struct SolverRun<S> {
    solver: Solver,
    angles: Vec<S>,
    iteration: usize,
    step: Step,
}

impl<S> View for SolverRun<S> {
    type V = RunView<S>;

    closed spec fn view(&self) -> RunView<S> {
        RunView {
            solver: self.solver,
            angles: self.angles@,
            iteration: self.iteration as nat,
            step: self.step,
        }
    }
}

impl<S> SolverRun<S> {
    #[verifier::type_invariant]
    spec fn inv(self) -> bool {
        self@.wf()
    }

    /// Starts a run of `solver` from `angles`, one per joint. On an empty
    /// chain the run is over at once.
    pub fn begin(solver: Solver, angles: Vec<S>) -> (run: SolverRun<S>)
        ensures
            run@ == RunView::begun(solver, angles@),
            run@.wf(),
    {
        let step = if angles.len() == 0 {
            Step::Finished { outcome: Outcome::Empty }
        } else {
            Step::Measure
        };
        SolverRun { solver, angles, iteration: 0, step }
    }

    /// The strategy of the run.
    pub fn solver(&self) -> (solver: Solver)
        ensures
            solver == self@.solver,
    {
        self.solver
    }

    /// The angles reached so far, one per joint.
    pub fn angles(&self) -> (angles: &Vec<S>)
        ensures
            angles@ == self@.angles,
    {
        &self.angles
    }

    /// The angles reached, one per joint: the result of a run that is over,
    /// and the best so far of one that is not.
    pub fn into_angles(self) -> (angles: Vec<S>)
        ensures
            angles@ == self@.angles,
    {
        self.angles
    }

    /// The number of iterations completed so far.
    pub fn iteration(&self) -> (iteration: usize)
        ensures
            iteration == self@.iteration,
            iteration <= self@.solver.iteration_cap(),
    {
        proof {
            use_type_invariant(self);
        }
        self.iteration
    }

    /// The piece of work the run is waiting for.
    pub fn pending(&self) -> (step: Step)
        ensures
            step == self@.step,
            self@.wf(),
    {
        proof {
            use_type_invariant(self);
        }
        self.step
    }

    /// Why the run ended, if it has.
    pub fn outcome(&self) -> (outcome: Option<Outcome>)
        ensures
            outcome == match self@.step {
                Step::Finished { outcome } => Some(outcome),
                _ => None,
            },
    {
        match self.step {
            Step::Finished { outcome } => Some(outcome),
            _ => None,
        }
    }

    /// Whether the run is over.
    pub fn is_finished(&self) -> (finished: bool)
        ensures
            finished == self@.finished(),
    {
        match self.step {
            Step::Finished { .. } => true,
            _ => false,
        }
    }

    /// Replaces the angle of joint `joint`.
    fn set_angle(&mut self, joint: usize, angle: S)
        requires
            old(self)@.step == (Step::Adjust { joint }),
        ensures
            final(self)@ == (RunView {
                angles: old(self)@.angles.update(joint as int, angle),
                ..old(self)@
            }),
    {
        proof {
            use_type_invariant(&*self);
        }
        // While the angles are out, the run is parked in a state that is
        // well-formed with any angles.
        self.step = Step::Finished { outcome: Outcome::Exhausted };
        let mut angles: Vec<S> = Vec::new();
        core::mem::swap(&mut self.angles, &mut angles);
        angles.set(joint, angle);
        self.angles = angles;
        self.step = Step::Adjust { joint };
    }

    /// The step that follows the last step of an iteration.
    fn close_iteration(&mut self)
        requires
            !old(self)@.finished(),
        ensures
            final(self)@ == old(self)@.iteration_closed(),
            final(self)@.wf(),
    {
        proof {
            use_type_invariant(&*self);
        }
        let iteration = self.iteration + 1;
        let step = if iteration >= self.solver.max_iterations() {
            Step::Finished { outcome: Outcome::Exhausted }
        } else {
            Step::Measure
        };
        self.step = Step::Finished { outcome: Outcome::Exhausted };
        self.iteration = iteration;
        self.step = step;
    }

    /// The step that follows the work on joint `joint`.
    fn close_joint(&mut self, joint: usize)
        requires
            old(self)@.step == (Step::Adjust { joint }),
        ensures
            final(self)@ == old(self)@.joint_closed(joint),
            final(self)@.wf(),
    {
        proof {
            use_type_invariant(&*self);
        }
        if joint > 0 {
            self.step = Step::Adjust { joint: joint - 1 };
        } else {
            self.close_iteration();
        }
    }

    /// Takes the report on the pending step and returns the step that is
    /// pending next. A report of another kind than the pending step asks
    /// for, and an update that does not hold one angle per joint, are refused
    /// and change nothing.
    pub fn advance(&mut self, report: Report<S>) -> (next: Result<Step, RunError>)
        ensures
            final(self)@ == old(self)@.advanced(report@),
            final(self)@.wf(),
            old(self)@.accepts(report@) ==> next == Ok::<Step, RunError>(final(self)@.step),
            !old(self)@.accepts(report@) ==> next == Err::<Step, RunError>(
                old(self)@.refusal(report@),
            ),
    {
        proof {
            use_type_invariant(&*self);
        }
        match (self.step, report) {
            (Step::Measure, Report::Measured { within_threshold }) => {
                if within_threshold {
                    self.step = Step::Finished { outcome: Outcome::Converged };
                } else {
                    match self.solver {
                        Solver::CyclicCoordinateDescent => {
                            self.step = Step::Adjust { joint: self.angles.len() - 1 };
                        },
                        _ => {
                            self.step = Step::Update;
                        },
                    }
                }
            },
            (Step::Adjust { joint }, Report::Adjusted { angle }) => {
                self.set_angle(joint, angle);
                self.close_joint(joint);
            },
            (Step::Adjust { joint }, Report::Skipped) => {
                self.close_joint(joint);
            },
            (Step::Update, Report::Updated { angles }) => {
                if angles.len() != self.angles.len() {
                    return Err(RunError::LengthMismatch);
                }
                self.angles = angles;
                self.close_iteration();
            },
            (Step::Update, Report::Singular) => {
                self.step = Step::Finished { outcome: Outcome::Singular };
            },
            _ => {
                return Err(RunError::UnexpectedReport);
            },
        }
        Ok(self.step)
    }
}

/// Every report keeps a run among the states a run can be in, on the same
/// chain and with the same strategy, and completes at most one iteration.
pub proof fn lemma_advanced_is_wf<S>(run: RunView<S>, report: ReportView<S>)
    requires
        run.wf(),
    ensures
        run.advanced(report).wf(),
        run.advanced(report).solver == run.solver,
        run.advanced(report).joints() == run.joints(),
        run.iteration <= run.advanced(report).iteration <= run.iteration + 1,
{
}

/// A run that is over accepts no report, and a report that is not accepted
/// changes nothing.
pub proof fn lemma_unaccepted_report_is_ignored<S>(run: RunView<S>, report: ReportView<S>)
    ensures
        run.finished() ==> !run.accepts(report),
        !run.accepts(report) ==> run.advanced(report) == run,
{
}

/// The angles of a run change only by the reports on its adjustments and
/// updates: a measurement, a skipped joint and a failed update leave them as
/// they are, an adjustment changes the angle of the joint that was up and no
/// other, and an update replaces them all.
pub proof fn lemma_angles_change_as_reported<S>(run: RunView<S>, report: ReportView<S>)
    requires
        run.wf(),
    ensures
        !(report is Adjusted) && !(report is Updated) ==> run.advanced(report).angles
            == run.angles,
        run.accepts(report) && report is Adjusted ==> run.advanced(report).angles
            == run.angles.update(run.step->joint as int, report->angle),
        run.accepts(report) && report is Updated ==> run.advanced(report).angles == report->angles,
{
}

/// Every accepted report uses up at least one of the steps that are left,
/// and exactly one if it reports no end. After such a report the run is over
/// only if it is exhausted.
pub proof fn lemma_accepted_report_uses_a_step<S>(run: RunView<S>, report: ReportView<S>)
    requires
        run.wf(),
        run.accepts(report),
    ensures
        run.advanced(report).steps_left() < run.steps_left(),
        RunView::<S>::goes_on(report) ==> run.advanced(report).steps_left() + 1
            == run.steps_left(),
        RunView::<S>::goes_on(report) && run.advanced(report).finished() ==> {
            &&& run.advanced(report).step == (Step::Finished { outcome: Outcome::Exhausted })
            &&& run.advanced(report).iteration == run.solver.iteration_cap()
        },
{
    let cap = run.solver.iteration_cap() as int;
    let per = run.solver.steps_per_iteration(run.joints()) as int;
    let rest = cap - run.iteration;
    assert(per >= 2) by {
        if run.solver.visits_joints() {
            assert(run.joints() >= 1);
        }
    }
    assert(rest * per >= per && (rest - 1) * per == rest * per - per) by (nonlinear_arith)
        requires
            rest >= 1,
            per >= 2,
    ;
    let after = run.advanced(report);
    if after.iteration == run.iteration + 1 {
        if after.finished() {
            assert(rest == 1);
            assert(rest * per == per) by (nonlinear_arith)
                requires
                    rest == 1,
            ;
        } else {
            assert(cap - after.iteration == rest - 1);
        }
    }
}

/// Bounded termination: a run accepts at most `solver.step_budget(joints)`
/// reports, whatever they say, and never completes more iterations than the
/// strategy's cap.
pub proof fn lemma_run_is_bounded<S>(solver: Solver, angles: Seq<S>, reports: Seq<ReportView<S>>)
    requires
        angles.len() <= usize::MAX,
        RunView::begun(solver, angles).accepts_all(reports),
    ensures
        RunView::begun(solver, angles).advanced_through(reports).wf(),
        RunView::begun(solver, angles).advanced_through(reports).solver == solver,
        RunView::begun(solver, angles).advanced_through(reports).joints() == angles.len(),
        RunView::begun(solver, angles).advanced_through(reports).iteration
            <= solver.iteration_cap(),
        reports.len() + RunView::begun(solver, angles).advanced_through(reports).steps_left()
            <= solver.step_budget(angles.len()),
        reports.len() <= solver.step_budget(angles.len()),
    decreases reports.len(),
{
    let start = RunView::begun(solver, angles);
    if reports.len() == 0 {
        assert(start.steps_left() <= solver.step_budget(angles.len()));
    } else {
        lemma_run_is_bounded(solver, angles, reports.drop_last());
        let before = start.advanced_through(reports.drop_last());
        lemma_advanced_is_wf(before, reports.last());
        lemma_accepted_report_uses_a_step(before, reports.last());
    }
}

/// Bounded termination on an unreachable target, and the order of the steps:
/// while no report reports an end, a run on a chain with at least one joint
/// is over exactly when it has accepted `solver.step_budget(joints)` reports.
/// It is then exhausted, and has completed `solver.iteration_cap()`
/// iterations. Before that, the reports accepted so far make up the
/// iterations completed and the steps done of the current one: each
/// iteration starts with the measurement, which is followed by the update,
/// or by the adjustments of the joints from the last to the first.
pub proof fn lemma_out_of_reach_run_exhausts<S>(
    solver: Solver,
    angles: Seq<S>,
    reports: Seq<ReportView<S>>,
)
    requires
        0 < angles.len() <= usize::MAX,
        RunView::begun(solver, angles).accepts_all(reports),
        RunView::<S>::all_go_on(reports),
    ensures
        reports.len() + RunView::begun(solver, angles).advanced_through(reports).steps_left()
            == solver.step_budget(angles.len()),
        RunView::begun(solver, angles).advanced_through(reports).finished() <==> reports.len()
            == solver.step_budget(angles.len()),
        !RunView::begun(solver, angles).advanced_through(reports).finished() ==> reports.len()
            == RunView::begun(solver, angles).advanced_through(reports).iteration
            * solver.steps_per_iteration(angles.len()) + RunView::begun(
            solver,
            angles,
        ).advanced_through(reports).steps_into_iteration(),
        RunView::begun(solver, angles).advanced_through(reports).finished() ==> {
            &&& RunView::begun(solver, angles).advanced_through(reports).step == (Step::Finished {
                outcome: Outcome::Exhausted,
            })
            &&& RunView::begun(solver, angles).advanced_through(reports).iteration
                == solver.iteration_cap()
        },
    decreases reports.len(),
{
    let start = RunView::begun(solver, angles);
    let cap = solver.iteration_cap() as int;
    let per = solver.steps_per_iteration(angles.len()) as int;
    assert(cap * per >= 1) by (nonlinear_arith)
        requires
            cap >= 1,
            per >= 1,
    ;
    if reports.len() > 0 {
        let earlier = reports.drop_last();
        assert(RunView::<S>::all_go_on(earlier)) by {
            assert forall|i: int| 0 <= i < earlier.len() implies RunView::<S>::goes_on(
                #[trigger] earlier[i],
            ) by {
                assert(earlier[i] == reports[i]);
            }
        }
        assert(RunView::<S>::goes_on(reports.last())) by {
            assert(reports.last() == reports[reports.len() - 1]);
        }
        lemma_out_of_reach_run_exhausts(solver, angles, earlier);
        lemma_run_is_bounded(solver, angles, earlier);
        let before = start.advanced_through(earlier);
        lemma_advanced_is_wf(before, reports.last());
        lemma_accepted_report_uses_a_step(before, reports.last());
    }
    let after = start.advanced_through(reports);
    lemma_run_is_bounded(solver, angles, reports);
    if !after.finished() {
        lemma_pending_step_can_be_answered(after);
        let done = after.iteration as int;
        assert((cap - done) * per == cap * per - done * per) by (nonlinear_arith);
    }
}

/// A run that is not over has at least one step left: a report that its
/// pending step accepts exists.
pub proof fn lemma_pending_step_can_be_answered<S>(run: RunView<S>)
    requires
        run.wf(),
        !run.finished(),
    ensures
        run.steps_left() >= 1,
        run.accepts(
            match run.step {
                Step::Measure => ReportView::Measured { within_threshold: false },
                Step::Adjust { .. } => ReportView::Skipped,
                _ => ReportView::Singular,
            },
        ),
{
    let answer: ReportView<S> = match run.step {
        Step::Measure => ReportView::Measured { within_threshold: false },
        Step::Adjust { .. } => ReportView::Skipped,
        _ => ReportView::Singular,
    };
    lemma_accepted_report_uses_a_step(run, answer);
}

} // verus!
