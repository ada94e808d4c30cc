use bevy::math::{Mat4, Vec3, Vec4};
use ik_chain::axis::Axis;
use ik_chain::chain::{
    Chain, ChainError, ChainState, Joint, LocalTransform, Point, TickAction,
};
use ik_chain::solver::{Outcome, Report, Solver, SolverRun, Step};
use nalgebra::{DVector, Matrix3, Matrix3xX, Vector3};

const DISTANCE_THRESHOLD: f32 = 0.01;
const PERP_LENGTH_THRESHOLD: f32 = 0.0001;

fn axis_direction(axis: Axis) -> Vec3 {
    let unit = axis.to_vec3();
    Vec3::new(unit.x as f32, unit.y as f32, unit.z as f32)
}

fn matrix_of(local: &LocalTransform<f32>) -> Mat4 {
    Mat4::from_axis_angle(axis_direction(local.axis), local.angle.to_radians())
        * Mat4::from_translation(Vec3::new(0.0, local.length, 0.0))
}

fn local_transform(joint: &Joint<f32>, angle: f32) -> Mat4 {
    matrix_of(&LocalTransform { axis: joint.axis, angle, length: joint.length })
}

fn cumulative_transforms(chain: &Chain<f32>, angles: &[f32]) -> Vec<Mat4> {
    let locals = match chain.local_transforms_with_angles(angles) {
        Ok(locals) => locals,
        Err(e) => panic!("the angles were refused: {:?}", e),
    };
    let mut models = Vec::with_capacity(locals.len());
    let mut accumulator = Mat4::IDENTITY;
    for local in &locals {
        accumulator = accumulator * matrix_of(local);
        models.push(accumulator);
    }
    models
}

fn origin_of(transform: Mat4) -> Vec3 {
    (transform * Vec4::W).truncate()
}

fn end_effector(chain: &Chain<f32>, angles: &[f32]) -> Vec3 {
    cumulative_transforms(chain, angles).last().map_or(Vec3::ZERO, |m| origin_of(*m))
}

/// The angle, in degrees, by which the joint whose parent frame is `parent`
/// has to turn to bring `end` towards `target`; `None` where either lies on
/// the joint's axis.
fn descent_turn(parent: Mat4, axis: Axis, end: Vec3, target: Vec3) -> Option<f32> {
    let root = origin_of(parent);
    let axis = (parent * axis_direction(axis).extend(0.0)).truncate();
    let target_dir = target - root;
    let target_perp = target_dir - axis * axis.dot(target_dir);
    let target_perp_len = target_perp.length();
    if target_perp_len < PERP_LENGTH_THRESHOLD {
        return None;
    }
    let end_dir = end - root;
    let end_perp = end_dir - axis * axis.dot(end_dir);
    let end_perp_len = end_perp.length();
    if end_perp_len < PERP_LENGTH_THRESHOLD {
        return None;
    }
    let cross = (end_perp / end_perp_len).cross(target_perp / target_perp_len);
    let sign = if cross.dot(axis) > 0.0 { 1.0 } else { -1.0 };
    Some((sign * cross.length().asin()).to_degrees())
}

fn run_descent(chain: &Chain<f32>, target: Vec3) -> SolverRun<f32> {
    let joints = chain.joints();
    let mut run = SolverRun::begin(Solver::CyclicCoordinateDescent, chain.angles().clone());
    let mut transforms = cumulative_transforms(chain, run.angles());
    let mut end = transforms.last().map_or(Vec3::ZERO, |m| origin_of(*m));
    let mut downstream = Mat4::IDENTITY;
    loop {
        let report = match run.pending() {
            Step::Measure => {
                downstream = Mat4::IDENTITY;
                Report::Measured { within_threshold: (end - target).length() < DISTANCE_THRESHOLD }
            },
            Step::Adjust { joint } => {
                let parent = if joint > 0 { transforms[joint - 1] } else { Mat4::IDENTITY };
                let turn = descent_turn(parent, joints[joint].axis, end, target);
                let angle = run.angles()[joint] + turn.unwrap_or(0.0);
                let local = local_transform(&joints[joint], angle);
                transforms[joint] = parent * local;
                downstream = local * downstream;
                end = origin_of(parent * downstream);
                match turn {
                    Some(_) => Report::Adjusted { angle },
                    None => Report::Skipped,
                }
            },
            Step::Update => panic!("descent makes no update"),
            Step::Finished { .. } => return run,
        };
        if let Err(e) = run.advance(report) {
            panic!("the run refused a report: {:?}", e);
        }
    }
}

/// The Jacobian at `angles` with the columns the methods use, and the end
/// effector.
fn jacobian(chain: &Chain<f32>, angles: &[f32], target: Vec3) -> (Matrix3xX<f32>, Vec3) {
    let joints = chain.joints();
    let mut frames = vec![Mat4::IDENTITY];
    frames.extend(cumulative_transforms(chain, angles));
    let end = origin_of(frames[frames.len() - 1]);
    let mut jacobian = Matrix3xX::from_element(joints.len(), 0.0);
    for (idx, (frame, joint)) in frames.iter().zip(joints).enumerate() {
        let position = origin_of(*frame);
        let axis = (*frame * axis_direction(joint.axis).extend(0.0)).truncate();
        let column = axis.cross(target - position);
        jacobian[(0, idx)] = column.x;
        jacobian[(1, idx)] = column.y;
        jacobian[(2, idx)] = column.z;
    }
    (jacobian, end)
}

fn run_jacobian(chain: &Chain<f32>, solver: Solver, target: Vec3) -> SolverRun<f32> {
    let mut run = SolverRun::begin(solver, chain.angles().clone());
    loop {
        let report = match run.pending() {
            Step::Measure => {
                let end = end_effector(chain, run.angles());
                Report::Measured { within_threshold: (end - target).length() < DISTANCE_THRESHOLD }
            },
            Step::Update => {
                let (jacobian, end) = jacobian(chain, run.angles(), target);
                let change = target - end;
                let change = Vector3::new(change.x, change.y, change.z);
                let transpose = jacobian.transpose();
                let step: Option<DVector<f32>> = match solver {
                    Solver::JacobianPseudoInverse => {
                        let gram: Matrix3<f32> = &jacobian * &transpose;
                        gram.try_inverse().map(|inverse| &transpose * inverse * change)
                    },
                    _ => Some(&transpose * change),
                };
                match step {
                    Some(step) => Report::Updated {
                        angles: run.angles().iter().zip(step.iter()).map(|(a, d)| a + d).collect(),
                    },
                    None => Report::Singular,
                }
            },
            Step::Adjust { .. } => panic!("a Jacobian method adjusts no single joint"),
            Step::Finished { .. } => return run,
        };
        if let Err(e) = run.advance(report) {
            panic!("the run refused a report: {:?}", e);
        }
    }
}

fn chain_of(joints: Vec<Joint<f32>>, angles: Vec<f32>, solver: Solver) -> Chain<f32> {
    match Chain::new(joints, angles, solver) {
        Ok(chain) => chain,
        Err(e) => panic!("the chain was refused: {:?}", e),
    }
}

fn planar_pair() -> Chain<f32> {
    chain_of(
        vec![Joint { axis: Axis::X, length: 1.0 }, Joint { axis: Axis::X, length: 1.0 }],
        vec![0.0, 0.0],
        Solver::CyclicCoordinateDescent,
    )
}

fn arm(solver: Solver) -> Chain<f32> {
    chain_of(
        vec![
            Joint { axis: Axis::Y, length: 0.0 },
            Joint { axis: Axis::X, length: 3.0 },
            Joint { axis: Axis::X, length: 3.0 },
            Joint { axis: Axis::X, length: 3.0 },
        ],
        vec![0.0, 0.0, 0.0, 0.1],
        solver,
    )
}

#[test]
fn planar_pair_reaches_its_target_by_descent() {
    let chain = planar_pair();
    let target = Vec3::new(0.0, 1.0, 1.0);
    let run = run_descent(&chain, target);
    assert_eq!(run.outcome(), Some(Outcome::Converged));
    assert!(run.iteration() < 240);
    let angles = run.into_angles();
    assert_eq!(angles.len(), 2);
    let end = end_effector(&chain, &angles);
    assert!((end - target).length() < 0.01, "end effector at {:?}", end);
    for angle in &angles {
        assert!((-180.0..=180.0).contains(angle), "angle {}", angle);
    }
}

#[test]
fn planar_pair_needs_one_pass_for_a_quarter_turn() {
    let chain = planar_pair();
    let run = run_descent(&chain, Vec3::new(0.0, 1.0, 1.0));
    assert_eq!(run.iteration(), 1);
    let angles = run.into_angles();
    assert!(angles[0].abs() < 0.001, "first angle {}", angles[0]);
    assert!((angles[1] - 90.0).abs() < 0.001, "second angle {}", angles[1]);
}

#[test]
fn descent_reaches_targets_within_reach() {
    let chain = arm(Solver::CyclicCoordinateDescent);
    for target in [
        Vec3::new(3.0, 4.0, 2.0),
        Vec3::new(-2.0, 5.0, 4.0),
        Vec3::new(0.5, 2.0, -6.0),
        Vec3::new(4.0, 1.0, 5.0),
        Vec3::new(-5.0, 3.0, -3.0),
    ] {
        assert!(target.length() < 0.9 * 9.0);
        let run = run_descent(&chain, target);
        assert_eq!(run.outcome(), Some(Outcome::Converged), "target {:?}", target);
        let angles = run.into_angles();
        let end = end_effector(&chain, &angles);
        assert!((end - target).length() < 0.01, "target {:?}, end effector {:?}", target, end);
    }
}

#[test]
fn every_solver_returns_on_a_target_out_of_reach() {
    let target = Vec3::new(8.0, 9.0, 7.0);
    assert!(target.length() > 1.5 * 9.0);
    let run = run_descent(&arm(Solver::CyclicCoordinateDescent), target);
    assert_eq!(run.outcome(), Some(Outcome::Exhausted));
    assert_eq!(run.iteration(), 240);
    assert_eq!(run.into_angles().len(), 4);

    let run = run_jacobian(&arm(Solver::JacobianTranspose), Solver::JacobianTranspose, target);
    assert_eq!(run.outcome(), Some(Outcome::Exhausted));
    assert_eq!(run.iteration(), 120);
    assert_eq!(run.into_angles().len(), 4);

    let run =
        run_jacobian(&arm(Solver::JacobianPseudoInverse), Solver::JacobianPseudoInverse, target);
    assert!(matches!(run.outcome(), Some(Outcome::Exhausted) | Some(Outcome::Singular)));
    assert!(run.iteration() <= 240);
    assert_eq!(run.into_angles().len(), 4);
}

#[test]
fn pseudo_inverse_stops_on_a_singular_gram_matrix() {
    // One joint gives a Jacobian of rank one.
    let chain = chain_of(
        vec![Joint { axis: Axis::X, length: 1.0 }],
        vec![0.0],
        Solver::JacobianPseudoInverse,
    );
    let run = run_jacobian(&chain, Solver::JacobianPseudoInverse, Vec3::new(0.0, 0.0, 1.0));
    assert_eq!(run.outcome(), Some(Outcome::Singular));
    assert_eq!(run.iteration(), 0);
    assert_eq!(run.into_angles(), vec![0.0]);
}

#[test]
fn solvers_return_no_angles_for_an_empty_chain() {
    let target = Vec3::new(1.0, 1.0, 1.0);
    let chain = chain_of(Vec::new(), Vec::new(), Solver::CyclicCoordinateDescent);
    let run = run_descent(&chain, target);
    assert_eq!(run.outcome(), Some(Outcome::Empty));
    assert!(run.into_angles().is_empty());
    for solver in [Solver::JacobianTranspose, Solver::JacobianPseudoInverse] {
        let run = run_jacobian(&chain, solver, target);
        assert_eq!(run.outcome(), Some(Outcome::Empty));
        assert!(run.into_angles().is_empty());
    }
}

#[test]
fn descent_leaves_a_joint_alone_when_the_target_lies_on_its_axis() {
    // The first joint turns about the vertical through the root, and the
    // target lies on that vertical.
    let chain = chain_of(
        vec![Joint { axis: Axis::Y, length: 0.0 }, Joint { axis: Axis::X, length: 1.0 }],
        vec![25.0, 40.0],
        Solver::CyclicCoordinateDescent,
    );
    let run = run_descent(&chain, Vec3::new(0.0, 0.5, 0.0));
    assert!(run.is_finished());
    let angles = run.into_angles();
    assert_eq!(angles[0], 25.0);
    assert!(angles[1].abs() < 0.01, "second angle {}", angles[1]);
}

#[test]
fn pseudo_inverse_approaches_targets_within_reach() {
    let chain = arm(Solver::JacobianPseudoInverse);
    let start = end_effector(&chain, chain.angles());
    for target in [
        Vec3::new(3.0, 4.0, 2.0),
        Vec3::new(-2.0, 5.0, 4.0),
        Vec3::new(0.5, 2.0, -6.0),
        Vec3::new(4.0, 1.0, 5.0),
        Vec3::new(-5.0, 3.0, -3.0),
    ] {
        let run = run_jacobian(&chain, Solver::JacobianPseudoInverse, target);
        assert!(
            matches!(run.outcome(), Some(Outcome::Converged) | Some(Outcome::Exhausted)),
            "target {:?}",
            target
        );
        assert!(run.iteration() <= 240);
        let end = end_effector(&chain, &run.into_angles());
        assert!(
            (end - target).length() < 0.25 && (end - target).length() < (start - target).length(),
            "target {:?}, end effector {:?}",
            target,
            end
        );
    }
}

#[test]
fn transpose_returns_one_angle_per_joint_within_its_cap() {
    let chain = arm(Solver::JacobianTranspose);
    for target in [Vec3::new(3.0, 4.0, 2.0), Vec3::new(-5.0, 3.0, -3.0)] {
        let run = run_jacobian(&chain, Solver::JacobianTranspose, target);
        assert!(matches!(run.outcome(), Some(Outcome::Converged) | Some(Outcome::Exhausted)));
        assert!(run.iteration() <= 120);
        assert_eq!(run.into_angles().len(), 4);
    }
}

#[test]
fn solvers_leave_the_chain_as_it_was() {
    let chain = arm(Solver::CyclicCoordinateDescent);
    let run = run_descent(&chain, Vec3::new(3.0, 4.0, 2.0));
    assert_ne!(run.angles(), chain.angles());
    assert_eq!(chain.angles(), &vec![0.0, 0.0, 0.0, 0.1]);
}

#[test]
fn forward_kinematics_of_the_planar_pair() {
    let chain = planar_pair();
    let upright = cumulative_transforms(&chain, &[0.0, 0.0]);
    assert_eq!(upright.len(), 2);
    assert!((origin_of(upright[0]) - Vec3::new(0.0, 1.0, 0.0)).length() < 1e-6);
    assert!((origin_of(upright[1]) - Vec3::new(0.0, 2.0, 0.0)).length() < 1e-6);
    let bent = cumulative_transforms(&chain, &[0.0, 90.0]);
    assert!((origin_of(bent[1]) - Vec3::new(0.0, 1.0, 1.0)).length() < 1e-6);
    assert_eq!(
        cumulative_transforms(&chain, &[30.0, 60.0]),
        cumulative_transforms(&chain, &[30.0, 60.0])
    );
}

#[test]
fn local_transforms_pair_each_joint_with_its_angle() {
    let chain = arm(Solver::JacobianTranspose);
    let locals = chain.local_transforms();
    assert_eq!(locals.len(), 4);
    let listed: Vec<(Axis, f32, f32)> = locals.iter().map(|l| (l.axis, l.angle, l.length)).collect();
    assert_eq!(
        listed,
        vec![(Axis::Y, 0.0, 0.0), (Axis::X, 0.0, 3.0), (Axis::X, 0.0, 3.0), (Axis::X, 0.1, 3.0)]
    );
    let locals = match chain.local_transforms_with_angles(&[10.0, 20.0, 30.0, 40.0]) {
        Ok(locals) => locals,
        Err(e) => panic!("four angles were refused: {:?}", e),
    };
    let listed: Vec<(Axis, f32, f32)> = locals.iter().map(|l| (l.axis, l.angle, l.length)).collect();
    assert_eq!(
        listed,
        vec![(Axis::Y, 10.0, 0.0), (Axis::X, 20.0, 3.0), (Axis::X, 30.0, 3.0), (Axis::X, 40.0, 3.0)]
    );
}

#[test]
fn local_transforms_need_one_angle_per_joint() {
    let chain = arm(Solver::JacobianTranspose);
    assert!(matches!(
        chain.local_transforms_with_angles(&[10.0, 20.0, 30.0]),
        Err(ChainError::LengthMismatch)
    ));
    assert!(matches!(
        chain.local_transforms_with_angles(&[0.0; 5]),
        Err(ChainError::LengthMismatch)
    ));
    assert!(matches!(chain.local_transforms_with_angles(&[]), Err(ChainError::LengthMismatch)));
    let empty = chain_of(Vec::new(), Vec::new(), Solver::JacobianTranspose);
    assert!(empty.local_transforms().is_empty());
    assert!(matches!(empty.local_transforms_with_angles(&[]), Ok(locals) if locals.is_empty()));
}

/// The angle that differs from `target` by whole turns and lies nearest to
/// `start`.
fn nearest_turn(start: f32, target: f32) -> f32 {
    let difference = target - start;
    if difference.abs() > 180.0 {
        target - 360.0 * (difference / 360.0).round()
    } else {
        target
    }
}

#[test]
fn chain_moves_to_the_solved_pose_over_one_transition() {
    let mut chain = arm(Solver::CyclicCoordinateDescent);
    let target = Vec3::new(-5.0, 3.0, -3.0);
    let mut solved = Vec::new();
    for tick in 0..181 {
        match chain.tick() {
            TickAction::Solve { solver } => {
                assert_eq!(tick, 0);
                assert_eq!(solver, Solver::CyclicCoordinateDescent);
                solved = run_descent(&chain, target).into_angles();
                for (start, angle) in chain.angles().iter().zip(solved.iter_mut()) {
                    *angle = nearest_turn(*start, *angle);
                    assert!(-180.0 < *angle - start && *angle - start <= 180.0);
                }
                let marker = Point { x: target.x, y: target.y, z: target.z };
                assert_eq!(chain.begin_seek(marker, solved.clone()), Ok(()));
            },
            TickAction::Interpolate { numerator, denominator } => {
                assert_eq!((numerator, denominator), (tick + 1, 180));
                let t = numerator as f32 / denominator as f32;
                let blended: Vec<f32> = match chain.state() {
                    ChainState::Seeking { start_angles, target_angles, .. } => start_angles
                        .iter()
                        .zip(target_angles)
                        .map(|(start, target)| start + t * (target - start))
                        .collect(),
                    other => panic!("expected a moving chain, found {:?}", other),
                };
                assert_eq!(chain.set_angles(blended), Ok(()));
            },
            TickAction::Hold => assert_eq!(tick, 180),
        }
    }
    assert!(matches!(chain.state(), ChainState::Waiting { wait_frames: 60 }));
    for (angle, wanted) in chain.angles().iter().zip(&solved) {
        assert!((angle - wanted).abs() < 1e-3, "angle {} for {}", angle, wanted);
    }
    let end = end_effector(&chain, chain.angles());
    assert!((end - target).length() < 0.02, "end effector at {:?}", end);
}
