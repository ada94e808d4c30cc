//! Pose control for chains of rotational joints.
//!
//! A chain is a sequence of joints, each turning about one axis, from a root
//! to an end effector. Its pose is one angle per joint. This library keeps
//! the chain, schedules the search for a pose that brings the end effector to
//! a target, and paces the movement from one pose to the next.
//!
//! The library decides; it does not calculate. Lengths and angles are values
//! of a scalar type that the caller chooses, and all arithmetic on them is
//! the caller's: evaluating the chain, turning a joint towards the target,
//! inverting a matrix, blending two poses. The library says which of these is
//! due, takes the result, and guarantees what does not depend on the numbers:
//!
//! - a chain has one angle per joint, and so has every pose it carries;
//! - a solver run ends within its budget of steps whatever the measurements
//!   say, and hands back one angle per joint;
//! - the animation cycles through moving, holding and rest with fixed
//!   lengths.

pub mod axis;
pub mod chain;
pub mod solver;
