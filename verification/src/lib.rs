//! Estimation of the planar projective transform, the homography, that maps
//! one set of points onto another: the part of it that is decided rather than
//! computed.
//!
//! A homography is fitted to point correspondences by a normalized linear
//! system and a symmetric eigendecomposition, on doubles. This library holds
//! no floating-point arithmetic. It takes the doubles that such a fit
//! produces as their bit patterns and makes the fit's decisions on them:
//! [`binary64`] gives the patterns their meaning and order, [`kernel`] holds
//! the single decisions of a fit, [`fit`] strings them into the course of one
//! fit, [`matrix`] is the homography as a value, [`residual`] settles the
//! residual of a correspondence under a homography, and [`estimator`] and
//! [`consensus`] are what a sample-consensus search over minimal fits is
//! set up with.
pub mod binary64;
pub mod consensus;
pub mod estimator;
pub mod fit;
pub mod kernel;
pub mod matrix;
pub mod residual;

pub use crate::consensus::ConsensusConfig;
pub use crate::estimator::HomographyEstimator;
pub use crate::fit::{advance, FitAction, FitEvent, FitStage};
pub use crate::kernel::{FitError, Spreads, MIN_SAMPLES};
pub use crate::matrix::HomographyMatrix;
