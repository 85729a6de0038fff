//! Building blocks of a bootstrap particle filter: a seedable ISAAC-driven
//! variate source, aligned structure-of-arrays particle storage, the index
//! logic of the four resampling schemes, and the boundary-handling protocol
//! of particle propagation.
//!
//! Everything here works on integers and on values it only moves; the
//! floating-point arithmetic of the filter (likelihoods, cumulative weights,
//! kinematics) is left to the caller, who hands weights in as order codes.

pub mod aligned_vec;
pub mod bounce;
pub mod heading;
pub mod isaac;
pub mod particles;
pub mod resample;
pub mod ziggurat;
