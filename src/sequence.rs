//! The generator: a state machine that steps through the points of a Sobol
//! sequence, one Gray-code XOR per coordinate and step.
use vstd::prelude::*;
use vstd::arithmetic::power2::{pow2, lemma_pow2_unfold, lemma_pow2_pos, lemma2_to64};
use crate::bits::{fits, low_mask, trailing_ones, valid_width, lemma_low_mask_value, lemma_xor_fits, lemma_zero_fits};
use crate::direction::{all_fit, direction_table, first_dimension_directions, dimension_directions, column, word_mask};
use crate::error::{SobolError, check_dims, dims_outcome};
use crate::params::SobolParams;
use crate::type_support::{InternalType, LinearRender, Render, SobolType};

verus! {

/// The resolution used for a request: the requested one when it is within the
/// type's limit, the limit otherwise.
pub open spec fn clamped_resolution(requested: Option<usize>, max: nat) -> nat {
    match requested {
        Some(r) => if r as nat <= max { r as nat } else { max },
        None => max,
    }
}

/// The direction table regrouped by bit index: row `i` holds entry `i` of
/// every dimension.
pub open spec fn transpose(t: Seq<Seq<u128>>, dims: nat, r: nat) -> Seq<Seq<u128>> {
    Seq::new(r, |i: int| Seq::new(dims, |d: int| t[d][i]))
}

/// Raw point `n` of the sequence over the direction rows `rows`: point 0 is
/// all zeros, and point `n` is point `n - 1` XOR the row at the lowest zero bit
/// of `n - 1`.
pub open spec fn raw_point(rows: Seq<Seq<u128>>, dims: nat, n: nat) -> Seq<u128>
    decreases n,
{
    if n == 0 {
        Seq::new(dims, |d: int| 0u128)
    } else {
        let prev = raw_point(rows, dims, (n - 1) as nat);
        let c = trailing_ones((n - 1) as nat) as int;
        Seq::new(dims, |d: int| prev[d] ^ rows[c][d])
    }
}

/// The raw point a single step yields from a generator that has produced `e`
/// of its `total` points.
pub open spec fn step_output(rows: Seq<Seq<u128>>, dims: nat, total: nat, e: nat) -> Option<Seq<u128>> {
    if e < total {
        Some(raw_point(rows, dims, e))
    } else {
        None
    }
}

/// The raw point that skipping `n` points and then stepping yields from a
/// generator that has produced `e` of its `total` points.
pub open spec fn skip_output(rows: Seq<Seq<u128>>, dims: nat, total: nat, e: nat, n: nat) -> Option<Seq<u128>> {
    if e + n < total {
        Some(raw_point(rows, dims, e + n))
    } else {
        None
    }
}

/// How many points a generator that has produced `e` of `total` points has
/// produced after `k` more steps.
pub open spec fn produced_after(e: nat, total: nat, k: nat) -> nat {
    if e + k <= total {
        e + k
    } else if e <= total {
        total
    } else {
        e
    }
}

/// The output of the last of `k` steps (`k >= 1`) taken from a generator that
/// has produced `e` of its `total` points.
pub open spec fn last_of_steps(rows: Seq<Seq<u128>>, dims: nat, total: nat, e: nat, k: nat) -> Option<Seq<u128>> {
    step_output(rows, dims, total, produced_after(e, total, (k - 1) as nat))
}

/// A number below `2^r - 1` has a zero among its low `r` bits.
pub proof fn lemma_trailing_ones_bound(n: nat, r: nat)
    requires
        1 <= r,
        n + 1 < pow2(r),
    ensures
        trailing_ones(n) < r,
    decreases r,
{
    lemma_pow2_unfold(r);
    if n % 2 == 1 {
        if r == 1 {
            lemma2_to64();
        } else {
            lemma_trailing_ones_bound(n / 2, (r - 1) as nat);
        }
    }
}

/// A single step XORs one direction row into the previous point, so raw
/// points stay inside the internal word.
proof fn lemma_step_fits(prev: Seq<u128>, row: Seq<u128>, w: nat)
    requires
        prev.len() == row.len(),
        all_fit(prev, w),
        all_fit(row, w),
    ensures
        all_fit(Seq::new(prev.len(), |d: int| prev[d] ^ row[d]), w),
{
    let next = Seq::new(prev.len(), |d: int| prev[d] ^ row[d]);
    assert forall|d: int| 0 <= d < prev.len() implies fits(#[trigger] next[d], w) by {
        lemma_xor_fits(prev[d], row[d], w);
    }
}

/// A low-discrepancy Sobol sequence generator.
pub struct Sobol<T: SobolType, R: Render<T> = LinearRender> {
    dims: usize,
    resolution: usize,
    /// Direction rows: row `i` holds entry `i + 1` of every dimension.
    dir_vals: Vec<Vec<u128>>,
    /// The last point produced; `None` before the first.
    previous: Option<Vec<u128>>,
    render: R,
    /// Index of the last point produced (0 before the first).
    count: u128,
    /// Index of the last point of the sequence, `2^resolution - 1`.
    max_len: u128,
    marker: std::marker::PhantomData<T>,
}

impl<T: SobolType, R: Render<T>> Sobol<T, R> {
    /// Number of coordinates of each point.
    pub closed spec fn spec_dims(&self) -> nat {
        self.dims as nat
    }

    /// Number of bits used to compute the sequence.
    pub closed spec fn spec_resolution(&self) -> nat {
        self.resolution as nat
    }

    /// The render policy.
    pub closed spec fn spec_render(&self) -> R {
        self.render
    }

    /// The direction rows: row `i` holds entry `i + 1` of every dimension.
    pub closed spec fn rows(&self) -> Seq<Seq<u128>> {
        self.dir_vals@.map_values(|v: Vec<u128>| v@)
    }

    /// Number of points produced so far.
    pub closed spec fn produced(&self) -> nat {
        match self.previous {
            None => 0,
            Some(_) => self.count as nat + 1,
        }
    }

    /// Number of points in the whole sequence.
    pub closed spec fn total(&self) -> nat {
        self.max_len as nat + 1
    }

    /// Raw point `n` of this generator's sequence.
    pub open spec fn point(&self, n: nat) -> Seq<u128> {
        raw_point(self.rows(), self.spec_dims(), n)
    }

    /// Returns the zero-based index of the rightmost binary zero of `n`. Used
    /// for the Gray-code step.
    pub fn rightmost_zero(n: u128) -> (r: usize)
        ensures
            r as nat == trailing_ones(n as nat),
            r <= 128,
    {
        let mut x: u128 = n;
        let mut c: usize = 0;
        assert(n >> 0u32 == n) by (bit_vector);
        while x % 2 == 1
            invariant
                c <= 128,
                x == n >> (c as u32),
                trailing_ones(n as nat) == c + trailing_ones(x as nat),
            decreases x,
        {
            let cc = c as u32;
            assert(cc == 128 ==> n >> cc == 0) by (bit_vector);
            assert(cc < 128 ==> (n >> cc) / 2 == n >> ((cc + 1) as u32)) by (bit_vector);
            x = x / 2;
            c = c + 1;
        }
        c
    }

    /// Initializes the per-dimension direction values of dimensions
    /// `1..=dims` in the internal word of `T`.
    pub fn init_direction_vals<P: SobolParams>(dims: usize, resolution: usize, params: &P) -> (r: Vec<Vec<u128>>)
        requires
            params.wf(),
            1 <= dims <= params.spec_max_dims(),
            1 <= resolution <= T::IT::spec_bits(),
        ensures
            r@.len() == dims,
            forall|d: int| 0 <= d < dims ==> (#[trigger] r@[d])@ == direction_table(*params, dims as nat, T::IT::spec_bits(), resolution as nat)[d],
            forall|d: int| 0 <= d < dims ==> all_fit((#[trigger] r@[d])@, T::IT::spec_bits()),
    {
        proof {
            T::IT::lemma_width();
        }
        let bits = T::IT::bits();
        let ghost table = direction_table(*params, dims as nat, bits as nat, resolution as nat);
        let mut out: Vec<Vec<u128>> = Vec::new();
        let mut k: usize = 0;
        while k < dims
            invariant
                0 <= k <= dims,
                dims <= params.spec_max_dims(),
                params.wf(),
                1 <= resolution <= bits,
                bits as nat == T::IT::spec_bits(),
                valid_width(bits as nat),
                table == direction_table(*params, dims as nat, bits as nat, resolution as nat),
                out@.len() == k,
                forall|d: int| 0 <= d < k ==> (#[trigger] out@[d])@ == table[d],
                forall|d: int| 0 <= d < k ==> all_fit((#[trigger] out@[d])@, bits as nat),
            decreases dims - k,
        {
            let dim = k + 1;
            let dirs = if dim == 1 {
                first_dimension_directions(resolution, bits)
            } else {
                let p = params.get_dim(dim);
                dimension_directions(p, resolution, bits)
            };
            assert(dirs@ == column(*params, dim as nat, bits as nat, resolution as nat));
            out.push(dirs);
            k += 1;
        }
        out
    }

    /// Regroups per-dimension direction values by bit index.
    fn transpose_directions(cols: &Vec<Vec<u128>>, dims: usize, resolution: usize) -> (r: Vec<Vec<u128>>)
        requires
            cols@.len() == dims,
            forall|d: int| 0 <= d < dims ==> (#[trigger] cols@[d])@.len() == resolution,
        ensures
            r@.len() == resolution,
            forall|i: int| 0 <= i < resolution ==> (#[trigger] r@[i])@ == transpose(cols@.map_values(|v: Vec<u128>| v@), dims as nat, resolution as nat)[i],
    {
        let ghost t = transpose(cols@.map_values(|v: Vec<u128>| v@), dims as nat, resolution as nat);
        let mut rows: Vec<Vec<u128>> = Vec::new();
        let mut i: usize = 0;
        while i < resolution
            invariant
                0 <= i <= resolution,
                cols@.len() == dims,
                forall|d: int| 0 <= d < dims ==> (#[trigger] cols@[d])@.len() == resolution,
                t == transpose(cols@.map_values(|v: Vec<u128>| v@), dims as nat, resolution as nat),
                rows@.len() == i,
                forall|k: int| 0 <= k < i ==> (#[trigger] rows@[k])@ == t[k],
            decreases resolution - i,
        {
            let mut row: Vec<u128> = Vec::new();
            let mut d: usize = 0;
            while d < dims
                invariant
                    0 <= d <= dims,
                    i < resolution,
                    cols@.len() == dims,
                    forall|d: int| 0 <= d < dims ==> (#[trigger] cols@[d])@.len() == resolution,
                    row@ == Seq::new(d as nat, |j: int| cols@[j]@[i as int]),
                decreases dims - d,
            {
                row.push(cols[d][i]);
                assert(row@ =~= Seq::new((d + 1) as nat, |j: int| cols@[j]@[i as int]));
                d += 1;
            }
            assert(row@ =~= t[i as int]);
            rows.push(row);
            i += 1;
        }
        rows
    }

    /// Builds a generator of `dims` dimensions over `params`. The resolution
    /// is the requested one when it is within the limit of `T`, the limit
    /// otherwise; a lower resolution makes each point cheaper when the
    /// sequence is not expected to approach its full length of
    /// `2^resolution` points.
    pub fn new_with_resolution<P: SobolParams>(
        dims: usize,
        params: &P,
        resolution: Option<usize>,
        render: R,
    ) -> (r: Result<Self, SobolError>)
        requires
            params.wf(),
            1 <= dims,
            resolution != Some(0usize),
        ensures
            match dims_outcome(dims as nat, params.spec_max_dims(), render.spec_support_dims()) {
                Err(e) => r == Err::<Self, SobolError>(e),
                Ok(_) => r matches Ok(s) && s.built_from(*params, dims as nat, resolution, render),
            },
    {
        proof {
            T::lemma_resolution();
            T::IT::lemma_width();
        }
        let max_res = T::max_resolution();
        let res = match resolution {
            Some(r) => if r <= max_res {
                r
            } else {
                max_res
            },
            None => max_res,
        };
        let max_dims = params.max_dims();
        let render_dims = render.support_dims();
        match check_dims(dims, max_dims, render_dims) {
            Err(e) => {
                return Err(e);
            },
            Ok(()) => {},
        }
        let cols = Self::init_direction_vals(dims, res, params);
        let ghost w = T::IT::spec_bits();
        let ghost table = direction_table(*params, dims as nat, w, res as nat);
        assert(cols@.map_values(|v: Vec<u128>| v@) =~= table);
        proof {
            crate::direction::lemma_table_shape(*params, dims as nat, w, res as nat);
        }
        let rows = Self::transpose_directions(&cols, dims, res);
        let max_len = word_mask(res);
        let s = Sobol {
            dims,
            resolution: res,
            dir_vals: rows,
            previous: None,
            render,
            count: 0,
            max_len,
            marker: std::marker::PhantomData,
        };
        assert(s.rows() =~= transpose(table, dims as nat, res as nat));
        proof {
            lemma_low_mask_value(res as nat);
        }
        assert forall|i: int| 0 <= i < res implies all_fit((#[trigger] s.dir_vals@[i])@, w) by {
            assert forall|d: int| 0 <= d < dims implies fits(#[trigger] s.dir_vals@[i]@[d], w) by {
                assert(all_fit(cols@[d]@, w));
            }
        }
        Ok(s)
    }

    /// Whether every point of the sequence has been produced.
    pub fn is_exhausted(&self) -> (r: bool)
        requires
            self.wf(),
        ensures
            r == (self.produced() >= self.total()),
    {
        self.previous.is_some() && self.count >= self.max_len
    }

    /// Produces the next raw point: all zeros first, then the previous point
    /// XOR the direction row at the lowest zero bit of the previous index.
    /// Returns `None` once all `2^resolution` points have been produced.
    pub fn advance(&mut self) -> (r: Option<Vec<u128>>)
        requires
            old(self).wf(),
        ensures
            final(self).wf(),
            final(self).same_sequence(old(self)),
            final(self).produced() == produced_after(old(self).produced(), old(self).total(), 1),
            match r {
                Some(v) => step_output(old(self).rows(), old(self).spec_dims(), old(self).total(), old(self).produced()) == Some(v@)
                    && all_fit(v@, T::IT::spec_bits()),
                None => step_output(old(self).rows(), old(self).spec_dims(), old(self).total(), old(self).produced()) is None,
            },
    {
        let ghost w = T::IT::spec_bits();
        let dims = self.dims;
        if self.previous.is_none() {
            let mut a: Vec<u128> = Vec::new();
            let mut b: Vec<u128> = Vec::new();
            let mut d: usize = 0;
            while d < dims
                invariant
                    0 <= d <= dims,
                    a@ == Seq::new(d as nat, |j: int| 0u128),
                    b@ == a@,
                decreases dims - d,
            {
                a.push(0);
                b.push(0);
                assert(a@ =~= Seq::new((d + 1) as nat, |j: int| 0u128));
                d += 1;
            }
            assert(a@ =~= self.point(0));
            proof {
                lemma_zero_fits(w);
            }
            self.previous = Some(a);
            Some(b)
        } else if self.count < self.max_len {
            let c = Self::rightmost_zero(self.count);
            proof {
                lemma_low_mask_value(self.resolution as nat);
                lemma_trailing_ones_bound(self.count as nat, self.resolution as nat);
            }
            let ghost row = self.rows()[c as int];
            let ghost n = self.count as nat;
            let (a, b) = match &self.previous {
                Some(prev) => {
                    let dir = &self.dir_vals[c];
                    let mut a: Vec<u128> = Vec::new();
                    let mut b: Vec<u128> = Vec::new();
                    let mut d: usize = 0;
                    while d < dims
                        invariant
                            0 <= d <= dims,
                            prev@.len() == dims,
                            dir@ == row,
                            row.len() == dims,
                            a@ == Seq::new(d as nat, |j: int| prev@[j] ^ row[j]),
                            b@ == a@,
                        decreases dims - d,
                    {
                        let v = prev[d] ^ dir[d];
                        a.push(v);
                        b.push(v);
                        assert(a@ =~= Seq::new((d + 1) as nat, |j: int| prev@[j] ^ row[j]));
                        d += 1;
                    }
                    proof {
                        lemma_step_fits(prev@, row, w);
                    }
                    assert(a@ =~= self.point(n + 1));
                    (a, b)
                },
                None => {
                    proof {
                        assert(false);
                    }
                    (Vec::new(), Vec::new())
                },
            };
            self.count = self.count + 1;
            self.previous = Some(a);
            Some(b)
        } else {
            None
        }
    }

    /// Produces the next point, rendered. Returns `None` once the sequence is
    /// exhausted.
    pub fn next(&mut self) -> (r: Option<Vec<T>>)
        requires
            old(self).wf(),
        ensures
            final(self).wf(),
            final(self).same_sequence(old(self)),
            final(self).produced() == produced_after(old(self).produced(), old(self).total(), 1),
            match r {
                Some(v) => step_output(old(self).rows(), old(self).spec_dims(), old(self).total(), old(self).produced()) matches Some(p)
                    && v@ == old(self).render_point(p),
                None => step_output(old(self).rows(), old(self).spec_dims(), old(self).total(), old(self).produced()) is None,
            },
    {
        match self.advance() {
            None => None,
            Some(raw) => {
                let ghost p = raw@;
                let mut out: Vec<T> = Vec::new();
                let mut d: usize = 0;
                while d < self.dims
                    invariant
                        0 <= d <= self.dims,
                        raw@.len() == self.dims,
                        raw@ == p,
                        out@ == Seq::new(d as nat, |j: int| self.spec_render().spec_render(j as nat, T::IT::narrow(p[j]))),
                    decreases self.dims - d,
                {
                    let v = self.render.render(d, T::IT::from_wide(raw[d]));
                    out.push(v);
                    assert(out@ =~= Seq::new((d + 1) as nat, |j: int| self.spec_render().spec_render(j as nat, T::IT::narrow(p[j]))));
                    d += 1;
                }
                assert(out@ =~= old(self).render_point(p));
                Some(out)
            },
        }
    }

    /// Skips `n` points, then produces the next one, rendered. Skipping takes
    /// the same step `n` times.
    pub fn nth(&mut self, n: usize) -> (r: Option<Vec<T>>)
        requires
            old(self).wf(),
        ensures
            final(self).wf(),
            final(self).same_sequence(old(self)),
            final(self).produced() == produced_after(old(self).produced(), old(self).total(), (n + 1) as nat),
            match r {
                Some(v) => skip_output(old(self).rows(), old(self).spec_dims(), old(self).total(), old(self).produced(), n as nat) matches Some(p)
                    && v@ == old(self).render_point(p),
                None => skip_output(old(self).rows(), old(self).spec_dims(), old(self).total(), old(self).produced(), n as nat) is None,
            },
    {
        let ghost e0 = self.produced();
        let mut k: usize = 0;
        while k < n
            invariant
                0 <= k <= n,
                self.wf(),
                self.same_sequence(old(self)),
                e0 == old(self).produced(),
                e0 <= old(self).total(),
                self.produced() == produced_after(e0, old(self).total(), k as nat),
                self.produced() <= self.total(),
            ensures
                self.wf(),
                self.same_sequence(old(self)),
                self.produced() == produced_after(e0, old(self).total(), n as nat),
            decreases n - k,
        {
            if self.is_exhausted() {
                break;
            }
            let _ = self.advance();
            k += 1;
        }
        self.next()
    }

    /// Produces up to `n` further points, rendered; fewer once the sequence
    /// runs out.
    pub fn take_points(&mut self, n: usize) -> (r: Vec<Vec<T>>)
        requires
            old(self).wf(),
        ensures
            final(self).wf(),
            final(self).same_sequence(old(self)),
            final(self).produced() == produced_after(old(self).produced(), old(self).total(), n as nat),
            r@.len() == final(self).produced() - old(self).produced(),
            forall|k: int|
                0 <= k < r@.len() ==> (#[trigger] r@[k])@ == old(self).render_point(old(self).point((old(self).produced() + k) as nat)),
    {
        let ghost e0 = self.produced();
        let mut out: Vec<Vec<T>> = Vec::new();
        let mut k: usize = 0;
        while k < n
            invariant
                0 <= k <= n,
                self.wf(),
                self.same_sequence(old(self)),
                e0 == old(self).produced(),
                e0 <= old(self).total(),
                self.produced() <= self.total(),
                self.produced() == produced_after(e0, old(self).total(), k as nat),
                out@.len() == self.produced() - e0,
                forall|j: int|
                    0 <= j < out@.len() ==> (#[trigger] out@[j])@ == old(self).render_point(old(self).point((e0 + j) as nat)),
            ensures
                self.wf(),
                self.same_sequence(old(self)),
                self.produced() == produced_after(e0, old(self).total(), n as nat),
                out@.len() == self.produced() - e0,
                forall|j: int|
                    0 <= j < out@.len() ==> (#[trigger] out@[j])@ == old(self).render_point(old(self).point((e0 + j) as nat)),
            decreases n - k,
        {
            match self.next() {
                Some(p) => {
                    out.push(p);
                },
                None => {
                    break;
                },
            }
            k += 1;
        }
        out
    }

    /// Number of coordinates of each point.
    pub fn dims(&self) -> (r: usize)
        ensures
            r as nat == self.spec_dims(),
    {
        self.dims
    }

    /// Number of bits used to compute the sequence.
    pub fn resolution(&self) -> (r: usize)
        ensures
            r as nat == self.spec_resolution(),
    {
        self.resolution
    }

    /// The point as rendered for the caller, coordinate by coordinate.
    pub open spec fn render_point(&self, p: Seq<u128>) -> Seq<T> {
        Seq::new(self.spec_dims(), |d: int| self.spec_render().spec_render(d as nat, T::IT::narrow(p[d])))
    }

    /// Both generators walk the same sequence with the same render.
    pub open spec fn same_sequence(&self, other: &Self) -> bool {
        &&& self.spec_dims() == other.spec_dims()
        &&& self.spec_resolution() == other.spec_resolution()
        &&& self.rows() == other.rows()
        &&& self.spec_render() == other.spec_render()
        &&& self.total() == other.total()
    }

    /// A fresh, consistent generator built from these inputs.
    pub open spec fn built_from<P: SobolParams>(&self, params: P, dims: nat, resolution: Option<usize>, render: R) -> bool {
        let res = clamped_resolution(resolution, T::spec_max_resolution());
        &&& self.wf()
        &&& self.spec_dims() == dims
        &&& self.spec_resolution() == res
        &&& self.rows() == transpose(direction_table(params, dims, T::IT::spec_bits(), res), dims, res)
        &&& self.spec_render() == render
        &&& self.produced() == 0
        &&& self.total() == pow2(res)
    }

    /// The generator's state is consistent.
    pub closed spec fn wf(&self) -> bool {
        let w = T::IT::spec_bits();
        &&& valid_width(w)
        &&& 1 <= self.dims
        &&& 1 <= self.resolution <= T::spec_max_resolution()
        &&& T::spec_max_resolution() <= w
        &&& self.dir_vals@.len() == self.resolution
        &&& forall|i: int| 0 <= i < self.resolution ==> (#[trigger] self.dir_vals@[i])@.len() == self.dims
        &&& forall|i: int| 0 <= i < self.resolution ==> all_fit((#[trigger] self.dir_vals@[i])@, w)
        &&& self.max_len == low_mask(self.resolution as nat)
        &&& self.count <= self.max_len
        &&& match self.previous {
            None => self.count == 0,
            Some(p) => p@ == self.point(self.count as nat) && all_fit(p@, w),
        }
    }
}

impl<T: SobolType> Sobol<T, LinearRender> where LinearRender: Render<T> {
    /// Builds a generator of `dims` dimensions over `params`, using every bit
    /// `T` allows and the linear render.
    pub fn new<P: SobolParams>(dims: usize, params: &P) -> (r: Result<Self, SobolError>)
        requires
            params.wf(),
            1 <= dims,
        ensures
            match dims_outcome(dims as nat, params.spec_max_dims(), Render::<T>::spec_support_dims(&LinearRender)) {
                Err(e) => r == Err::<Self, SobolError>(e),
                Ok(_) => r matches Ok(s) && s.built_from(*params, dims as nat, None, LinearRender),
            },
    {
        Self::new_with_resolution(dims, params, None, LinearRender)
    }
}

} // verus!

verus! {

/// The first point of every freshly built generator is the all-zero vector.
pub proof fn lemma_first_point_is_zero<T: SobolType, R: Render<T>, P: SobolParams>(
    g: Sobol<T, R>,
    params: P,
    dims: nat,
    resolution: Option<usize>,
    render: R,
)
    requires
        g.built_from(params, dims, resolution, render),
    ensures
        step_output(g.rows(), g.spec_dims(), g.total(), g.produced()) == Some(Seq::new(dims, |d: int| 0u128)),
{
    lemma_pow2_pos(g.spec_resolution());
}

/// A freshly built generator yields exactly `2^resolution` points: the zero
/// point and `2^resolution - 1` more, and nothing after them.
pub proof fn lemma_sequence_length<T: SobolType, R: Render<T>, P: SobolParams>(
    g: Sobol<T, R>,
    params: P,
    dims: nat,
    resolution: Option<usize>,
    render: R,
)
    requires
        g.built_from(params, dims, resolution, render),
    ensures
        g.total() == pow2(clamped_resolution(resolution, T::spec_max_resolution())),
        forall|e: nat|
            (#[trigger] step_output(g.rows(), g.spec_dims(), g.total(), e)) is Some <==> e < g.total(),
{
}

/// Two generators built from the same dimensionality, parameters, resolution
/// and render produce the same sequence, coordinate for coordinate.
pub proof fn lemma_deterministic<T: SobolType, R: Render<T>, P: SobolParams>(
    a: Sobol<T, R>,
    b: Sobol<T, R>,
    params: P,
    dims: nat,
    resolution: Option<usize>,
    render: R,
)
    requires
        a.built_from(params, dims, resolution, render),
        b.built_from(params, dims, resolution, render),
    ensures
        a.total() == b.total(),
        forall|n: nat| #[trigger] a.point(n) == b.point(n),
        forall|n: nat| a.render_point(a.point(n)) == #[trigger] b.render_point(b.point(n)),
{
}

/// Skipping `n` points and then stepping once yields the same point as
/// stepping `n + 1` times, from any reachable state.
pub proof fn lemma_skip_matches_steps(rows: Seq<Seq<u128>>, dims: nat, total: nat, e: nat, n: nat)
    requires
        e <= total,
    ensures
        last_of_steps(rows, dims, total, e, n + 1) == skip_output(rows, dims, total, e, n),
{
}

} // verus!
