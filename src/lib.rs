//! Sobol low-discrepancy sequences: direction values from primitive-polynomial
//! parameters, a Gray-code stepping generator, and pluggable rendering of the
//! raw integer points.
use vstd::prelude::*;

pub mod bits;
pub mod direction;
pub mod error;
pub mod params;
pub mod sequence;
pub mod type_support;

pub use error::SobolError;
pub use params::{JoeKuoD6, JoeKuoD6Dim, ParamDimension, SobolParams};
pub use sequence::Sobol;
pub use type_support::{InternalType, LinearRender, LossyFrom, Render, SobolType};

verus! {

} // verus!
