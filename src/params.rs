//! Where the primitive-polynomial parameters come from: the accessor traits the
//! generator reads them through, and an in-memory table in the layout of the
//! Joe and Kuo direction-number data.
use vstd::prelude::*;

mod joe_kuo_d6;

pub use joe_kuo_d6::{JoeKuoD6, JoeKuoD6Dim};

verus! {

/// Primitive polynomial parameters and initial direction values for a single
/// dimension.
pub trait ParamDimension {
    /// Degree of the primitive polynomial.
    spec fn spec_s(&self) -> nat;

    /// Coefficient bit `i` of the polynomial, counted from the right.
    spec fn spec_coefficient(&self, i: nat) -> u32;

    /// Initial direction value `i`, zero-based.
    spec fn spec_m(&self, i: nat) -> u32;

    /// The one-based index of this dimension.
    fn d(&self) -> u16;

    /// The degree of the primitive polynomial.
    fn s(&self) -> (r: usize)
        ensures
            r as nat == self.spec_s(),
    ;

    /// The binary coefficient for bit `i`, the zero-based index from the right.
    fn coefficient(&self, i: usize) -> (r: u32)
        ensures
            r == self.spec_coefficient(i as nat),
            r <= 1,
    ;

    /// The initial direction value `i`, zero-based.
    fn m(&self, i: usize) -> (r: u32)
        requires
            i < self.spec_s(),
        ensures
            r == self.spec_m(i as nat),
    ;
}

/// Primitive polynomial parameters and initial direction values for all
/// dimensions of a sequence.
pub trait SobolParams {
    type Dimension: ParamDimension;

    /// The accessor is consistent: every dimension in `2..=max_dims` is present.
    spec fn wf(&self) -> bool;

    /// Maximum number of dimensions supported.
    spec fn spec_max_dims(&self) -> nat;

    /// Parameters of dimension `d` (one-based, from 2 on).
    spec fn spec_dim(&self, d: nat) -> Self::Dimension;

    /// Parameters for a given dimension.
    fn get_dim(&self, dim: usize) -> (r: &Self::Dimension)
        requires
            self.wf(),
            2 <= dim <= self.spec_max_dims(),
        ensures
            *r == self.spec_dim(dim as nat),
    ;

    /// Maximum number of dimensions supported by this instance.
    fn max_dims(&self) -> (r: usize)
        ensures
            r as nat == self.spec_max_dims(),
    ;
}

} // verus!
