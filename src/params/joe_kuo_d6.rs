//! Parameter tables laid out as in the Joe and Kuo "new-joe-kuo-6" data: one
//! row per dimension from 2 on, holding its index, the packed polynomial
//! coefficients and the initial direction numbers.
use vstd::prelude::*;
use super::{ParamDimension, SobolParams};

verus! {

/// Parameters for a single dimension.
#[derive(Debug, Clone)]
pub struct JoeKuoD6Dim {
    /// One-based dimension index.
    pub d: u16,
    /// Packed polynomial coefficients, bit `i` counted from the right.
    pub a: u32,
    /// Initial direction numbers; their count is the polynomial's degree.
    pub m: Vec<u32>,
}

impl JoeKuoD6Dim {
    /// A row of the table.
    pub fn new(d: u16, a: u32, m: Vec<u32>) -> (r: Self)
        ensures
            r.d == d,
            r.a == a,
            r.m@ == m@,
    {
        JoeKuoD6Dim { d, a, m }
    }
}

impl ParamDimension for JoeKuoD6Dim {
    open spec fn spec_s(&self) -> nat {
        self.m@.len()
    }

    open spec fn spec_coefficient(&self, i: nat) -> u32 {
        if i < 32 {
            (self.a >> (i as u32)) & 1
        } else {
            0
        }
    }

    open spec fn spec_m(&self, i: nat) -> u32 {
        self.m@[i as int]
    }

    fn d(&self) -> u16 {
        self.d
    }

    fn s(&self) -> (r: usize) {
        self.m.len()
    }

    fn coefficient(&self, i: usize) -> (r: u32) {
        if i < 32 {
            let a = self.a;
            let k = i as u32;
            assert((a >> k) & 1 <= 1) by (bit_vector);
            (a >> k) & 1
        } else {
            0
        }
    }

    fn m(&self, i: usize) -> (r: u32) {
        self.m[i]
    }
}

/// A table of per-dimension parameters. Dimension 1 needs no row: row `k`
/// holds dimension `k + 2`.
#[derive(Debug, Clone)]
pub struct JoeKuoD6 {
    /// Rows for dimensions `2..=max_dims`, in order.
    pub dim_params: Vec<JoeKuoD6Dim>,
    /// Number of dimensions supported.
    pub max_dims: usize,
}

impl JoeKuoD6 {
    /// A table over the given rows, supporting one dimension more than it
    /// has rows.
    pub fn new(dim_params: Vec<JoeKuoD6Dim>) -> (r: Self)
        requires
            dim_params@.len() < usize::MAX,
        ensures
            r.wf(),
            r.spec_max_dims() == dim_params@.len() + 1,
            forall|d: nat|
                2 <= d <= r.spec_max_dims() ==> #[trigger] r.spec_dim(d) == dim_params@[d - 2],
    {
        let max_dims = dim_params.len() + 1;
        JoeKuoD6 { dim_params, max_dims }
    }
}

impl SobolParams for JoeKuoD6 {
    type Dimension = JoeKuoD6Dim;

    open spec fn wf(&self) -> bool {
        1 <= self.max_dims <= self.dim_params@.len() + 1
    }

    open spec fn spec_max_dims(&self) -> nat {
        self.max_dims as nat
    }

    open spec fn spec_dim(&self, d: nat) -> JoeKuoD6Dim {
        self.dim_params@[d - 2]
    }

    fn get_dim(&self, dim: usize) -> (r: &JoeKuoD6Dim) {
        &self.dim_params[dim - 2]
    }

    fn max_dims(&self) -> (r: usize) {
        self.max_dims
    }
}

} // verus!
