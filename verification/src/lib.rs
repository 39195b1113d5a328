//! An engine for experimentally measured quantities: vectors of values paired
//! with uncertainties, propagated through arithmetic and elementary functions,
//! rounded to significant figures, and fitted against linear and nonlinear
//! models (least squares and a Nelder-Mead simplex search with a
//! finite-difference covariance estimate).
//!
//! Every algorithm is generic over the [`Scalar`] trait, which names the
//! arithmetic a number type offers. Contracts pin each result down to a
//! formula over the trait's specification functions, so what is proved here
//! holds for any scalar whose operations meet their own contracts.

pub mod aprox;
pub mod fit;
pub mod objects;
pub mod reader;
pub mod scalar;
pub mod tables;

pub use crate::aprox::aprox;
pub use crate::aprox::round;
pub use crate::fit::invert_matrix;
pub use crate::fit::Chi2;
pub use crate::fit::CurveFit;
pub use crate::fit::LinearFit;
pub use crate::fit::LineModel;
pub use crate::fit::Model;
pub use crate::fit::Objective;
pub use crate::objects::lemma_addition_quadrature;
pub use crate::objects::lemma_broadcast_add;
pub use crate::objects::lemma_invalid_error_len_iff;
pub use crate::objects::lemma_single_error_broadcast;
pub use crate::objects::Measure;
pub use crate::objects::MyError;
pub use crate::objects::Style;
pub use crate::reader::Reader;
pub use crate::scalar::Scalar;
pub use crate::tables::transpose;
