//! Direction values: the per-dimension words that the generator XORs into its
//! points, computed from primitive-polynomial parameters by the Sobol
//! recurrence.
use vstd::prelude::*;
use crate::bits::{fits, low_mask, shl_in, valid_width, lemma_mask_fits, lemma_xor_fits, lemma_shr_fits, lemma_bit_fits, lemma_zero_fits};
use crate::params::{ParamDimension, SobolParams};
use crate::type_support::LossyFrom;

verus! {

/// The recurrence for entry `i` (one-based) of a dimension with effective
/// degree `s`, folded over the terms `1..k`; `prev[j]` is entry `j + 1`.
pub open spec fn recur_acc<D: ParamDimension>(p: D, prev: Seq<u128>, s: nat, i: nat, k: nat) -> u128
    decreases k,
{
    if k <= 1 {
        let v = prev[i - s - 1];
        v ^ (v >> (s as u32))
    } else {
        let j = (k - 1) as nat;
        let acc = recur_acc(p, prev, s, i, j);
        if p.spec_coefficient((s - j - 1) as nat) == 1 {
            acc ^ prev[i - j - 1]
        } else {
            acc
        }
    }
}

/// Entry `i` (one-based) of a dimension in a `w`-bit word, given the earlier
/// entries `prev`: the first `s` are the published initial values shifted into
/// place, the rest follow the recurrence.
pub open spec fn dir_entry<D: ParamDimension>(p: D, prev: Seq<u128>, s: nat, w: nat, i: nat) -> u128 {
    if i <= s {
        shl_in(p.spec_m((i - 1) as nat) as u128, (w - i) as nat, w)
    } else if s == 0 {
        0
    } else {
        recur_acc(p, prev, s, i, s)
    }
}

/// The first `n` direction values of a dimension with effective degree `s`.
pub open spec fn dim_dirs<D: ParamDimension>(p: D, s: nat, w: nat, n: nat) -> Seq<u128>
    decreases n,
{
    if n == 0 {
        Seq::empty()
    } else {
        let prev = dim_dirs(p, s, w, (n - 1) as nat);
        prev.push(dir_entry(p, prev, s, w, n))
    }
}

/// `dim_dirs` holds exactly `n` values.
pub proof fn lemma_dim_dirs_len<D: ParamDimension>(p: D, s: nat, w: nat, n: nat)
    ensures
        dim_dirs(p, s, w, n).len() == n,
    decreases n,
{
    if n > 0 {
        lemma_dim_dirs_len(p, s, w, (n - 1) as nat);
    }
}

/// The effective degree: the polynomial's degree, bounded by the resolution.
pub open spec fn effective_degree(degree: nat, resolution: nat) -> nat {
    if resolution >= degree {
        degree
    } else {
        resolution
    }
}

/// The `r` direction values of dimension `d` (one-based) in a `w`-bit word.
/// Dimension 1 has entry `i` equal to `1 << (w - i)`, the base-2 van der
/// Corput sequence.
pub open spec fn column<P: SobolParams>(params: P, d: nat, w: nat, r: nat) -> Seq<u128> {
    if d == 1 {
        Seq::new(r, |j: int| 1u128 << ((w - (j + 1)) as u32))
    } else {
        let p = params.spec_dim(d);
        dim_dirs(p, effective_degree(p.spec_s(), r), w, r)
    }
}

/// The direction values of dimensions `1..=dims`, one sequence per dimension.
pub open spec fn direction_table<P: SobolParams>(params: P, dims: nat, w: nat, r: nat) -> Seq<Seq<u128>> {
    Seq::new(dims, |k: int| column(params, (k + 1) as nat, w, r))
}

/// Every column of the table holds `r` values.
pub proof fn lemma_table_shape<P: SobolParams>(params: P, dims: nat, w: nat, r: nat)
    ensures
        direction_table(params, dims, w, r).len() == dims,
        forall|d: int| 0 <= d < dims ==> (#[trigger] direction_table(params, dims, w, r)[d]).len() == r,
{
    assert forall|d: int| 0 <= d < dims implies (#[trigger] direction_table(params, dims, w, r)[d]).len() == r by {
        if d > 0 {
            let p = params.spec_dim((d + 1) as nat);
            lemma_dim_dirs_len(p, effective_degree(p.spec_s(), r), w, r);
        }
    }
}

/// Every word of `s` fits in `w` bits.
pub open spec fn all_fit(s: Seq<u128>, w: nat) -> bool {
    forall|j: int| 0 <= j < s.len() ==> fits(#[trigger] s[j], w)
}

/// The mask of the low `bits` bits.
pub fn word_mask(bits: usize) -> (r: u128)
    requires
        1 <= bits <= 128,
    ensures
        r == low_mask(bits as nat),
{
    if bits >= 128 {
        u128::MAX
    } else {
        u128::MAX >> ((128 - bits) as u32)
    }
}

/// The direction values of dimension 1: entry `i` is `1 << (bits - i)`.
pub fn first_dimension_directions(resolution: usize, bits: usize) -> (r: Vec<u128>)
    requires
        1 <= resolution <= bits <= 128,
    ensures
        r@ == Seq::new(resolution as nat, |j: int| 1u128 << ((bits - (j + 1)) as u32)),
        all_fit(r@, bits as nat),
{
    let mut dirs: Vec<u128> = Vec::new();
    let mut i: usize = 1;
    while i <= resolution
        invariant
            1 <= i <= resolution + 1,
            resolution <= bits <= 128,
            dirs@ == Seq::new((i - 1) as nat, |j: int| 1u128 << ((bits - (j + 1)) as u32)),
            all_fit(dirs@, bits as nat),
        decreases resolution + 1 - i,
    {
        let v = 1u128 << ((bits - i) as u32);
        proof {
            lemma_bit_fits((bits - i) as nat, bits as nat);
        }
        dirs.push(v);
        assert(dirs@ =~= Seq::new(i as nat, |j: int| 1u128 << ((bits - (j + 1)) as u32)));
        i += 1;
    }
    dirs
}

/// The `resolution` direction values of one dimension from its parameters,
/// in a `bits`-bit word.
pub fn dimension_directions<D: ParamDimension>(p: &D, resolution: usize, bits: usize) -> (r: Vec<u128>)
    requires
        1 <= resolution <= bits,
        valid_width(bits as nat),
    ensures
        r@ == dim_dirs(*p, effective_degree(p.spec_s(), resolution as nat), bits as nat, resolution as nat),
        all_fit(r@, bits as nat),
{
    let deg = p.s();
    let s = if resolution >= deg {
        deg
    } else {
        resolution
    };
    let ghost gs = effective_degree(p.spec_s(), resolution as nat);
    assert(s as nat == gs);
    let mask = word_mask(bits);
    let mut dirs: Vec<u128> = Vec::new();
    let mut i: usize = 1;
    while i <= resolution
        invariant
            1 <= i <= resolution + 1,
            s <= resolution <= bits <= 128,
            s as nat == gs,
            gs <= p.spec_s(),
            mask == low_mask(bits as nat),
            dirs@ == dim_dirs(*p, gs, bits as nat, (i - 1) as nat),
            all_fit(dirs@, bits as nat),
        decreases resolution + 1 - i,
    {
        proof {
            lemma_dim_dirs_len(*p, gs, bits as nat, (i - 1) as nat);
        }
        let v: u128;
        if i <= s {
            let m = u128::lossy_from(p.m(i - 1));
            v = (m << ((bits - i) as u32)) & mask;
            proof {
                lemma_mask_fits(m << ((bits - i) as u32), bits as nat);
            }
        } else if s == 0 {
            v = 0;
            proof {
                lemma_zero_fits(bits as nat);
            }
        } else {
            let base = dirs[i - s - 1];
            let mut acc = base ^ (base >> (s as u32));
            proof {
                lemma_shr_fits(base, s as u32, bits as nat);
                lemma_xor_fits(base, base >> (s as u32), bits as nat);
            }
            let mut k: usize = 1;
            while k < s
                invariant
                    1 <= k <= s,
                    s < i <= resolution,
                    dirs@.len() == i - 1,
                    s as nat == gs,
                    all_fit(dirs@, bits as nat),
                    acc == recur_acc(*p, dirs@, gs, i as nat, k as nat),
                    fits(acc, bits as nat),
                decreases s - k,
            {
                let a = p.coefficient(s - k - 1);
                if a == 1 {
                    proof {
                        lemma_xor_fits(acc, dirs@[i - k - 1], bits as nat);
                    }
                    acc = acc ^ dirs[i - k - 1];
                }
                k += 1;
            }
            v = acc;
        }
        assert(v == dir_entry(*p, dirs@, gs, bits as nat, i as nat));
        dirs.push(v);
        assert(dirs@ == dim_dirs(*p, gs, bits as nat, i as nat));
        i += 1;
    }
    dirs
}

} // verus!
