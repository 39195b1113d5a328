//! Least-squares fitting: a closed-form ordinary and weighted linear fit, and
//! a derivative-free nonlinear fit built from a Nelder-Mead simplex search, a
//! finite-difference Hessian, and Gauss-Jordan matrix inversion.

use crate::objects::spec_sum;
use crate::objects::sum;
use crate::objects::vec_copy;
use crate::objects::vec_of;
use crate::objects::Measure;
use crate::objects::Style;
use crate::scalar::Scalar;
use vstd::prelude::*;

verus! {

/// A model curve `y = f(x, coefficients)`. The fitting engine searches the
/// coefficient space for the best fit of a model to data.
///
/// Every implementation names what it computes in `s_eval` and must return
/// exactly that; an implementation decides for itself what a coefficient
/// vector of unexpected arity yields, so that evaluation is total.
pub trait Model<T: Scalar>: Sized {
    /// The value `eval` returns.
    spec fn s_eval(&self, x: T, coefs: Seq<T>) -> T;

    /// Evaluates the model at `x` under the coefficients given.
    fn eval(&self, x: &T, coefs: &Vec<T>) -> (r: T)
        ensures
            r == self.s_eval(*x, coefs@),
    ;
}

/// The straight line `a * x + b`, under coefficients `[a, b]`. With fewer
/// than two coefficients it evaluates to zero.
pub struct LineModel;

impl<T: Scalar> Model<T> for LineModel {
    open spec fn s_eval(&self, x: T, coefs: Seq<T>) -> T {
        if coefs.len() >= 2 {
            coefs[0].s_mul(x).s_add(coefs[1])
        } else {
            T::s_zero()
        }
    }

    fn eval(&self, x: &T, coefs: &Vec<T>) -> (r: T) {
        if coefs.len() >= 2 {
            coefs[0].mul(*x).add(coefs[1])
        } else {
            T::zero()
        }
    }
}

/// An objective function over a point in coefficient space, as the simplex
/// search sees it.
pub trait Objective<T: Scalar>: Sized {
    /// The value `f` returns.
    spec fn s_f(&self, point: Seq<T>) -> T;

    /// Evaluates the objective at a point.
    fn f(&self, point: &Vec<T>) -> (r: T)
        ensures
            r == self.s_f(point@),
    ;
}

/// The sum of the first `k` weighted squared residuals of a model against
/// data: `((y_i - f(x_i, p)) / yerr_i)^2`, summed left to right.
pub open spec fn spec_chi2_terms<T: Scalar, M: Model<T>>(
    model: M,
    x: Seq<T>,
    y: Seq<T>,
    yerr: Seq<T>,
    point: Seq<T>,
    k: int,
) -> T
    decreases k,
{
    if k <= 0 {
        T::s_zero()
    } else {
        spec_chi2_terms(model, x, y, yerr, point, k - 1).s_add(
            y[k - 1].s_sub(model.s_eval(x[k - 1], point)).s_div(yerr[k - 1]).s_powi(2),
        )
    }
}

/// The weighted sum of squared residuals, over as many points as all three
/// data vectors cover.
pub open spec fn spec_chi2<T: Scalar, M: Model<T>>(
    model: M,
    x: Seq<T>,
    y: Seq<T>,
    yerr: Seq<T>,
    point: Seq<T>,
) -> T {
    spec_chi2_terms(
        model,
        x,
        y,
        yerr,
        point,
        vstd::math::min(
            vstd::math::min(x.len() as int, y.len() as int),
            yerr.len() as int,
        ),
    )
}

/// The weighted sum of squared residuals of a model against data, as the
/// nonlinear fit minimises it.
pub struct Chi2<'a, T: Scalar, M: Model<T>> {
    /// The model under fit.
    pub model: &'a M,
    /// The x coordinates of the data.
    pub x: &'a Vec<T>,
    /// The y coordinates of the data.
    pub y: &'a Vec<T>,
    /// The per-point y errors, taken as weights.
    pub yerr: &'a Vec<T>,
}

impl<'a, T: Scalar, M: Model<T>> Objective<T> for Chi2<'a, T, M> {
    open spec fn s_f(&self, point: Seq<T>) -> T {
        spec_chi2(*self.model, self.x@, self.y@, self.yerr@, point)
    }

    fn f(&self, point: &Vec<T>) -> (r: T) {
        let mut k = self.x.len();
        if self.y.len() < k {
            k = self.y.len();
        }
        if self.yerr.len() < k {
            k = self.yerr.len();
        }
        let mut acc = T::zero();
        for i in 0..k
            invariant
                k == vstd::math::min(
                    vstd::math::min(self.x@.len() as int, self.y@.len() as int),
                    self.yerr@.len() as int,
                ),
                acc == spec_chi2_terms(
                    *self.model,
                    self.x@,
                    self.y@,
                    self.yerr@,
                    point@,
                    i as int,
                ),
        {
            let e = self.model.eval(&self.x[i], point);
            acc = acc.add(self.y[i].sub(e).div(self.yerr[i]).powi(2));
        }
        acc
    }
}

/// The views of a sequence of vectors, row by row.
pub open spec fn grid<T>(s: Seq<Vec<T>>) -> Seq<Seq<T>> {
    s.map_values(|v: Vec<T>| v@)
}

/// The position at which a stable insertion sort places `j` among the sorted
/// indices `idx`: the first position from `p` on whose value exceeds `j`'s.
pub open spec fn s_insert_pos<T: Scalar>(vals: Seq<T>, idx: Seq<usize>, j: usize, p: int) -> int
    decreases idx.len() - p,
{
    if p >= idx.len() {
        idx.len() as int
    } else if vals[j as int].s_lt(vals[idx[p] as int]) {
        p
    } else {
        s_insert_pos(vals, idx, j, p + 1)
    }
}

/// The first `k` indices, sorted stably by their values ascending: each index
/// in turn goes after every index whose value does not exceed its own.
pub open spec fn s_sorted_idx<T: Scalar>(vals: Seq<T>, k: int) -> Seq<usize>
    decreases k,
{
    if k <= 0 {
        Seq::empty()
    } else {
        let prev = s_sorted_idx(vals, k - 1);
        prev.insert(s_insert_pos(vals, prev, (k - 1) as usize, 0), (k - 1) as usize)
    }
}

/// Sorts the indices of `values` by their values ascending, stably. A value
/// that compares with nothing (an IEEE NaN) gathers at the front, never
/// stopping the sort.
fn sort_indices<T: Scalar>(values: &Vec<T>) -> (idx: Vec<usize>)
    ensures
        idx@ == s_sorted_idx(values@, values@.len() as int),
        idx@.len() == values@.len(),
        forall|q: int| 0 <= q < idx@.len() ==> idx@[q] < values@.len(),
{
    let n = values.len();
    let mut idx: Vec<usize> = Vec::new();
    for j in 0..n
        invariant
            n == values@.len(),
            idx@ == s_sorted_idx(values@, j as int),
            idx@.len() == j,
            forall|q: int| 0 <= q < idx@.len() ==> idx@[q] < j,
    {
        let mut p: usize = 0;
        while p < idx.len() && !values[j].lt_v(values[idx[p]])
            invariant
                n == values@.len(),
                j < n,
                idx@.len() == j,
                forall|q: int| 0 <= q < idx@.len() ==> idx@[q] < j,
                0 <= p <= idx@.len(),
                s_insert_pos(values@, idx@, j, 0) == s_insert_pos(values@, idx@, j, p as int),
            decreases idx@.len() - p,
        {
            p = p + 1;
        }
        assert(p as int == s_insert_pos(values@, idx@, j, 0));
        idx.insert(p, j);
    }
    idx
}

/// The running sum of one centroid coordinate over the best `k` vertices.
pub open spec fn s_centroid_acc<T: Scalar>(
    sx: Seq<Seq<T>>,
    idx: Seq<usize>,
    c: int,
    k: int,
) -> T
    decreases k,
{
    if k <= 0 {
        T::s_zero()
    } else {
        s_centroid_acc(sx, idx, c, k - 1).s_add(sx[idx[k - 1] as int][c])
    }
}

/// The centroid of the best `n` of the sorted vertices.
pub open spec fn s_centroid<T: Scalar>(sx: Seq<Seq<T>>, idx: Seq<usize>, n: nat) -> Seq<T> {
    Seq::new(n, |c: int| s_centroid_acc(sx, idx, c, n as int).s_div(T::s_from_usize(n as usize)))
}

/// The worst vertex reflected through the centroid.
pub open spec fn s_reflection<T: Scalar>(
    sx: Seq<Seq<T>>,
    idx: Seq<usize>,
    cent: Seq<T>,
    n: nat,
) -> Seq<T> {
    Seq::new(
        n,
        |c: int| T::s_from_usize(2).s_mul(cent[c]).s_sub(sx[idx[n as int] as int][c]),
    )
}

/// The expansion beyond the reflection. Its base is the centroid's first
/// coordinate in every component, an exact shape the fitted scenarios
/// depend on.
pub open spec fn s_expansion<T: Scalar>(cent: Seq<T>, refl: Seq<T>, n: nat) -> Seq<T> {
    Seq::new(n, |c: int| cent[0].s_add(T::s_from_usize(2).s_mul(refl[c].s_sub(cent[c]))))
}

/// The contraction halfway between the worst vertex and the centroid.
pub open spec fn s_contraction<T: Scalar>(
    sx: Seq<Seq<T>>,
    idx: Seq<usize>,
    cent: Seq<T>,
    n: nat,
) -> Seq<T> {
    Seq::new(
        n,
        |c: int| T::s_one().s_div(T::s_from_usize(2)).s_mul(
            sx[idx[n as int] as int][c].s_add(cent[c]),
        ),
    )
}

/// The shrink move from position `i` on: every vertex but the best moves
/// halfway toward the best, in sorted order, its objective re-evaluated.
pub open spec fn s_shrink<T: Scalar, O: Objective<T>>(
    o: O,
    sx: Seq<Seq<T>>,
    vals: Seq<T>,
    idx: Seq<usize>,
    i: int,
) -> (Seq<Seq<T>>, Seq<T>)
    decreases idx.len() - i,
{
    if i < 1 || i >= idx.len() {
        (sx, vals)
    } else {
        let s0 = sx[idx[0] as int];
        let si = sx[idx[i] as int];
        let newp = Seq::new(
            si.len(),
            |c: int| T::s_one().s_div(T::s_from_usize(2)).s_mul(s0[c].s_add(si[c])),
        );
        let sx2 = sx.update(idx[i] as int, newp);
        let vals2 = vals.update(idx[i] as int, o.s_f(newp));
        s_shrink(o, sx2, vals2, idx, i + 1)
    }
}

/// One iteration of the simplex search: sort, reflect, then accept the
/// reflection, expand, contract or shrink exactly as the objective values
/// direct; the flag reports convergence of the sorted extremes under `tol`.
pub open spec fn s_nm_step<T: Scalar, O: Objective<T>>(
    o: O,
    sx: Seq<Seq<T>>,
    vals: Seq<T>,
    n: nat,
    tol: T,
) -> (Seq<Seq<T>>, Seq<T>, bool) {
    let idx = s_sorted_idx(vals, vals.len() as int);
    let cent = s_centroid(sx, idx, n);
    let refl = s_reflection(sx, idx, cent, n);
    let rv = o.s_f(refl);
    let upd = if rv.s_lt(vals[idx[0] as int]) && rv.s_ge(vals[idx[n - 1] as int]) {
        (sx.update(idx[n as int] as int, refl), vals.update(idx[n as int] as int, rv))
    } else if rv.s_lt(vals[idx[n - 1] as int]) {
        let expn = s_expansion(cent, refl, n);
        let ev = o.s_f(expn);
        if ev.s_lt(rv) {
            (sx.update(idx[n as int] as int, expn), vals.update(idx[n as int] as int, ev))
        } else {
            (sx.update(idx[n as int] as int, refl), vals.update(idx[n as int] as int, rv))
        }
    } else {
        let con = s_contraction(sx, idx, cent, n);
        let cv = o.s_f(con);
        if cv.s_lt(vals[idx[n as int] as int]) {
            (sx.update(idx[n as int] as int, con), vals.update(idx[n as int] as int, cv))
        } else {
            s_shrink(o, sx, vals, idx, 1)
        }
    };
    let done = upd.1[idx[0] as int].s_sub(upd.1[idx[n as int] as int]).s_abs().s_lt(tol);
    (upd.0, upd.1, done)
}

/// Performs one simplex iteration in place and reports convergence.
fn nm_step<T: Scalar, O: Objective<T>>(
    o: &O,
    simplex: &mut Vec<Vec<T>>,
    values: &mut Vec<T>,
    n: usize,
    tol: T,
) -> (done: bool)
    requires
        n >= 1,
        old(simplex)@.len() == n + 1,
        old(values)@.len() == n + 1,
        forall|i: int| 0 <= i < n + 1 ==> (#[trigger] old(simplex)@[i])@.len() == n,
    ensures
        final(simplex)@.len() == n + 1,
        final(values)@.len() == n + 1,
        forall|i: int| 0 <= i < n + 1 ==> (#[trigger] final(simplex)@[i])@.len() == n,
        grid(final(simplex)@) == s_nm_step(*o, grid(old(simplex)@), old(values)@, n as nat, tol).0,
        final(values)@ == s_nm_step(*o, grid(old(simplex)@), old(values)@, n as nat, tol).1,
        done == s_nm_step(*o, grid(old(simplex)@), old(values)@, n as nat, tol).2,
{
    let ghost o_sx = grid(simplex@);
    let ghost o_vals = values@;
    let indices = sort_indices(values);
    let ghost g_idx = indices@;
    proof {
        assert(forall|i: int|
            0 <= i < n + 1 ==> o_sx[i] == (#[trigger] simplex@[i])@ && o_sx[i].len() == n);
    }

    // Centroid of the best n vertices.
    let mut centroid: Vec<T> = vec_of(n, T::zero());
    proof {
        assert(forall|c: int| 0 <= c < n ==> centroid@[c] == s_centroid_acc(o_sx, g_idx, c, 0));
    }
    for k in 0..n
        invariant
            n >= 1,
            simplex@.len() == n + 1,
            values@.len() == n + 1,
            grid(simplex@) == o_sx,
            values@ == o_vals,
            g_idx == indices@,
            indices@ == s_sorted_idx(o_vals, o_vals.len() as int),
            indices@.len() == n + 1,
            forall|q: int| 0 <= q < indices@.len() ==> indices@[q] < n + 1,
            forall|i: int| 0 <= i < n + 1 ==> (#[trigger] simplex@[i])@.len() == n,
            centroid@.len() == n,
            forall|c: int| 0 <= c < n ==> centroid@[c] == s_centroid_acc(o_sx, g_idx, c, k as int),
    {
        for c in 0..n
            invariant
                n >= 1,
                k < n,
                simplex@.len() == n + 1,
                values@.len() == n + 1,
                grid(simplex@) == o_sx,
                values@ == o_vals,
                g_idx == indices@,
                indices@.len() == n + 1,
                forall|q: int| 0 <= q < indices@.len() ==> indices@[q] < n + 1,
                forall|i: int| 0 <= i < n + 1 ==> (#[trigger] simplex@[i])@.len() == n,
                centroid@.len() == n,
                forall|c2: int|
                    0 <= c2 < c ==> centroid@[c2] == s_centroid_acc(o_sx, g_idx, c2, k + 1 as int),
                forall|c2: int|
                    c <= c2 < n ==> centroid@[c2] == s_centroid_acc(o_sx, g_idx, c2, k as int),
        {
            let v = centroid[c].add(simplex[indices[k]][c]);
            centroid[c] = v;
        }
    }
    for c in 0..n
        invariant
            n >= 1,
            simplex@.len() == n + 1,
            values@.len() == n + 1,
            grid(simplex@) == o_sx,
            values@ == o_vals,
            g_idx == indices@,
            indices@ == s_sorted_idx(o_vals, o_vals.len() as int),
            indices@.len() == n + 1,
            forall|q: int| 0 <= q < indices@.len() ==> indices@[q] < n + 1,
            forall|i: int| 0 <= i < n + 1 ==> (#[trigger] simplex@[i])@.len() == n,
            centroid@.len() == n,
            forall|c2: int| 0 <= c2 < c ==> centroid@[c2] == s_centroid(o_sx, g_idx, n as nat)[c2],
            forall|c2: int|
                c <= c2 < n ==> centroid@[c2] == s_centroid_acc(o_sx, g_idx, c2, n as int),
    {
        let v = centroid[c].div(T::from_usize(n));
        centroid[c] = v;
    }
    proof {
        assert(centroid@ =~= s_centroid(o_sx, g_idx, n as nat));
    }
    let ghost g_cent = centroid@;

    // Reflection of the worst vertex through the centroid.
    let mut reflection: Vec<T> = Vec::new();
    for c in 0..n
        invariant
            n >= 1,
            simplex@.len() == n + 1,
            values@.len() == n + 1,
            grid(simplex@) == o_sx,
            values@ == o_vals,
            g_idx == indices@,
            indices@.len() == n + 1,
            forall|q: int| 0 <= q < indices@.len() ==> indices@[q] < n + 1,
            forall|i: int| 0 <= i < n + 1 ==> (#[trigger] simplex@[i])@.len() == n,
            centroid@ == g_cent,
            centroid@.len() == n,
            reflection@.len() == c,
            forall|c2: int|
                0 <= c2 < c ==> reflection@[c2] == s_reflection(o_sx, g_idx, g_cent, n as nat)[c2],
    {
        reflection.push(T::from_usize(2).mul(centroid[c]).sub(simplex[indices[n]][c]));
    }
    proof {
        assert(reflection@ =~= s_reflection(o_sx, g_idx, g_cent, n as nat));
    }
    let reflection_value = o.f(&reflection);

    let idx0 = indices[0];
    let idxn1 = indices[n - 1];
    let idxn = indices[n];

    if reflection_value.lt_v(values[idx0]) && reflection_value.ge_v(values[idxn1]) {
        let ghost g_refl = reflection@;
        simplex[idxn] = reflection;
        values[idxn] = reflection_value;
        proof {
            assert(grid(simplex@) =~~= o_sx.update(g_idx[n as int] as int, g_refl));
        }
    } else if reflection_value.lt_v(values[idxn1]) {
        // Expansion beyond the reflection.
        let mut expansion: Vec<T> = Vec::new();
        for c in 0..n
            invariant
                n >= 1,
                simplex@.len() == n + 1,
                values@.len() == n + 1,
                grid(simplex@) == o_sx,
                values@ == o_vals,
                centroid@ == g_cent,
                centroid@.len() == n,
                reflection@.len() == n,
                expansion@.len() == c,
                forall|c2: int|
                    0 <= c2 < c ==> expansion@[c2] == s_expansion(
                        g_cent,
                        reflection@,
                        n as nat,
                    )[c2],
        {
            expansion.push(centroid[0].add(T::from_usize(2).mul(reflection[c].sub(centroid[c]))));
        }
        proof {
            assert(expansion@ =~= s_expansion(g_cent, reflection@, n as nat));
        }
        let expansion_value = o.f(&expansion);
        if expansion_value.lt_v(reflection_value) {
            let ghost g_expn = expansion@;
            simplex[idxn] = expansion;
            values[idxn] = expansion_value;
            proof {
                assert(grid(simplex@) =~~= o_sx.update(g_idx[n as int] as int, g_expn));
            }
        } else {
            let ghost g_refl = reflection@;
            simplex[idxn] = reflection;
            values[idxn] = reflection_value;
            proof {
                assert(grid(simplex@) =~~= o_sx.update(g_idx[n as int] as int, g_refl));
            }
        }
    } else {
        // Contraction toward the centroid.
        let mut contraction: Vec<T> = Vec::new();
        for c in 0..n
            invariant
                n >= 1,
                simplex@.len() == n + 1,
                values@.len() == n + 1,
                grid(simplex@) == o_sx,
                values@ == o_vals,
                g_idx == indices@,
                indices@.len() == n + 1,
                forall|q: int| 0 <= q < indices@.len() ==> indices@[q] < n + 1,
                forall|i: int| 0 <= i < n + 1 ==> (#[trigger] simplex@[i])@.len() == n,
                centroid@ == g_cent,
                centroid@.len() == n,
                contraction@.len() == c,
                forall|c2: int|
                    0 <= c2 < c ==> contraction@[c2] == s_contraction(
                        o_sx,
                        g_idx,
                        g_cent,
                        n as nat,
                    )[c2],
        {
            contraction.push(
                T::one().div(T::from_usize(2)).mul(simplex[indices[n]][c].add(centroid[c])),
            );
        }
        proof {
            assert(contraction@ =~= s_contraction(o_sx, g_idx, g_cent, n as nat));
        }
        let contraction_value = o.f(&contraction);
        if contraction_value.lt_v(values[idxn]) {
            let ghost g_con = contraction@;
            simplex[idxn] = contraction;
            values[idxn] = contraction_value;
            proof {
                assert(grid(simplex@) =~~= o_sx.update(g_idx[n as int] as int, g_con));
            }
        } else {
            // Shrink every vertex but the best toward the best.
            let mut i: usize = 1;
            while i < n + 1
                invariant
                    n >= 1,
                    1 <= i <= n + 1,
                    simplex@.len() == n + 1,
                    values@.len() == n + 1,
                    g_idx == indices@,
                    indices@.len() == n + 1,
                    forall|q: int| 0 <= q < indices@.len() ==> indices@[q] < n + 1,
                    forall|j: int| 0 <= j < n + 1 ==> (#[trigger] simplex@[j])@.len() == n,
                    s_shrink(*o, o_sx, o_vals, g_idx, 1) == s_shrink(
                        *o,
                        grid(simplex@),
                        values@,
                        g_idx,
                        i as int,
                    ),
                decreases n + 1 - i,
            {
                let ghost pre_sx = grid(simplex@);
                let ghost pre_vals = values@;
                let mut newp: Vec<T> = Vec::new();
                for c in 0..n
                    invariant
                        n >= 1,
                        1 <= i <= n,
                        simplex@.len() == n + 1,
                        values@.len() == n + 1,
                        grid(simplex@) == pre_sx,
                        values@ == pre_vals,
                        g_idx == indices@,
                        indices@.len() == n + 1,
                        forall|q: int| 0 <= q < indices@.len() ==> indices@[q] < n + 1,
                        forall|j: int| 0 <= j < n + 1 ==> (#[trigger] simplex@[j])@.len() == n,
                        newp@.len() == c,
                        forall|c2: int|
                            0 <= c2 < c ==> newp@[c2] == T::s_one().s_div(T::s_from_usize(2)).s_mul(
                                pre_sx[g_idx[0] as int][c2].s_add(pre_sx[g_idx[i as int] as int][c2]),
                            ),
                {
                    newp.push(
                        T::one().div(T::from_usize(2)).mul(
                            simplex[indices[0]][c].add(simplex[indices[i]][c]),
                        ),
                    );
                }
                proof {
                    let si = pre_sx[g_idx[i as int] as int];
                    assert(newp@ =~= Seq::new(
                        si.len(),
                        |c: int| T::s_one().s_div(T::s_from_usize(2)).s_mul(
                            pre_sx[g_idx[0] as int][c].s_add(si[c]),
                        ),
                    ));
                }
                let ghost g_newp = newp@;
                simplex[indices[i]] = newp;
                let nv = o.f(&simplex[indices[i]]);
                values[indices[i]] = nv;
                proof {
                    assert(grid(simplex@) =~~= pre_sx.update(g_idx[i as int] as int, g_newp));
                }
                i = i + 1;
            }
        }
    }

    // Convergence of the sorted extremes, read at the pre-step index order.
    let max_diff = values[idx0].sub(values[idxn]).abs();
    let done = max_diff.lt_v(tol);
    proof {
        assert(grid(simplex@) == s_nm_step(*o, o_sx, o_vals, n as nat, tol).0);
        assert(values@ == s_nm_step(*o, o_sx, o_vals, n as nat, tol).1);
    }
    done
}

/// The starting simplex: the initial point, then one copy per coordinate with
/// that coordinate moved by `scale`.
pub open spec fn s_initial_simplex<T: Scalar>(p: Seq<T>, scale: T) -> Seq<Seq<T>> {
    Seq::new(
        p.len() + 1,
        |i: int| if i == 0 {
            p
        } else {
            Seq::new(p.len(), |c: int| if c == i - 1 {
                p[c].s_add(scale)
            } else {
                p[c]
            })
        },
    )
}

/// Builds the starting simplex.
fn generate_initial_simplex<T: Scalar>(initial_point: &Vec<T>, scale: T) -> (r: Vec<Vec<T>>)
    ensures
        r@.len() == initial_point@.len() + 1,
        forall|i: int| 0 <= i < r@.len() ==> (#[trigger] r@[i])@.len() == initial_point@.len(),
        grid(r@) == s_initial_simplex(initial_point@, scale),
{
    let n = initial_point.len();
    let mut simplex: Vec<Vec<T>> = Vec::new();
    simplex.push(vec_copy(initial_point));
    for i in 0..n
        invariant
            n == initial_point@.len(),
            simplex@.len() == i + 1,
            forall|j: int| 0 <= j < simplex@.len() ==> (#[trigger] simplex@[j])@.len() == n,
            forall|j: int|
                0 <= j < i + 1 ==> (#[trigger] simplex@[j])@ == s_initial_simplex(
                    initial_point@,
                    scale,
                )[j],
    {
        let mut point = vec_copy(initial_point);
        let moved = point[i].add(scale);
        point[i] = moved;
        proof {
            assert(point@ =~= s_initial_simplex(initial_point@, scale)[i + 1]);
        }
        simplex.push(point);
    }
    proof {
        assert(grid(simplex@) =~~= s_initial_simplex(initial_point@, scale));
    }
    simplex
}

/// The search state after `k` iterations: the simplex, the objective values,
/// and whether the iteration before signalled convergence. A converged state
/// stands still.
pub open spec fn s_nm_iter<T: Scalar, O: Objective<T>>(
    o: O,
    sx: Seq<Seq<T>>,
    vals: Seq<T>,
    n: nat,
    tol: T,
    k: nat,
) -> (Seq<Seq<T>>, Seq<T>, bool)
    decreases k,
{
    if k == 0 {
        (sx, vals, false)
    } else {
        let prev = s_nm_iter(o, sx, vals, n, tol, (k - 1) as nat);
        if prev.2 {
            prev
        } else {
            s_nm_step(o, prev.0, prev.1, n, tol)
        }
    }
}

/// Whether a simplex grid is the state the search reaches after `k`
/// iterations from the starting simplex, with the stop the iteration cap and
/// the tolerance dictate: either the extremes converged, or the cap fell due.
pub open spec fn nm_reached<T: Scalar, O: Objective<T>>(
    o: O,
    initial_point: Seq<T>,
    max_iterations: Option<usize>,
    tol: T,
    scale: T,
    k: nat,
    sx: Seq<Seq<T>>,
) -> bool {
    let sx0 = s_initial_simplex(initial_point, scale);
    let v0 = Seq::new(sx0.len(), |i: int| o.s_f(sx0[i]));
    let st = s_nm_iter(o, sx0, v0, initial_point.len(), tol, k);
    let cap = cap_of(max_iterations);
    &&& sx == st.0
    &&& k <= cap
    &&& (st.2 || k == cap)
}

/// The iteration bound the search runs under: the cap given, or the largest
/// machine count where none is. Every loop here carries a bound the verifier
/// checks; an uncapped search takes the largest count as its bound, which no
/// run exhausts before converging or exhausting time.
pub open spec fn cap_of(max_iterations: Option<usize>) -> nat {
    match max_iterations {
        Some(m) => m as nat,
        None => usize::MAX as nat,
    }
}

/// Whether `r` is the best vertex of the state the search reaches after `k`
/// iterations, stopped as the iteration cap and the tolerance dictate: the
/// vertex the stable sort of the final objective values puts first, with
/// either the extremes converged or the cap fallen due.
pub open spec fn nm_result<T: Scalar, O: Objective<T>>(
    o: O,
    initial_point: Seq<T>,
    max_iterations: Option<usize>,
    tol: T,
    scale: T,
    k: nat,
    r: Seq<T>,
) -> bool {
    let sx0 = s_initial_simplex(initial_point, scale);
    let v0 = Seq::new(sx0.len(), |i: int| o.s_f(sx0[i]));
    let st = s_nm_iter(o, sx0, v0, initial_point.len(), tol, k);
    let best = s_sorted_idx(st.1, st.1.len() as int)[0] as int;
    &&& r == st.0[best]
    &&& k <= cap_of(max_iterations)
    &&& (st.2 || k == cap_of(max_iterations))
}

/// Minimises an objective by the Nelder-Mead simplex search, and returns the
/// best vertex of the final simplex, first among equals. Without an
/// iteration cap the loop runs until the sorted extremes converge under the
/// tolerance, up to the largest machine count of iterations: an objective
/// that never converges keeps it running for all practical purposes, a risk
/// the caller accepts by passing no cap.
fn nelder_mead<T: Scalar, O: Objective<T>>(
    o: &O,
    initial_point: &Vec<T>,
    max_iterations: Option<usize>,
    tol: T,
    scale: T,
) -> (r: Vec<T>)
    requires
        initial_point@.len() >= 1,
    ensures
        r@.len() == initial_point@.len(),
        exists|k: nat| nm_result(*o, initial_point@, max_iterations, tol, scale, k, r@),
{
    let n = initial_point.len();
    let mut simplex = generate_initial_simplex(initial_point, scale);
    let ghost sx0 = grid(simplex@);
    let mut values: Vec<T> = Vec::new();
    let vertices = simplex.len();
    for i in 0..vertices
        invariant
            vertices == n + 1,
            n == initial_point@.len(),
            simplex@.len() == n + 1,
            grid(simplex@) == sx0,
            forall|j: int| 0 <= j < n + 1 ==> (#[trigger] simplex@[j])@.len() == n,
            values@.len() == i,
            forall|j: int| 0 <= j < i ==> values@[j] == o.s_f(sx0[j]),
    {
        values.push(o.f(&simplex[i]));
    }
    proof {
        assert(values@ =~= Seq::new(sx0.len(), |i: int| o.s_f(sx0[i])));
    }
    let ghost v0 = values@;

    let ghost mut gk: nat = 0;
    let mut iters: usize = 0;
    let cap = match max_iterations {
        Some(m) => m,
        None => usize::MAX,
    };
    while iters < cap
        invariant_except_break
            n >= 1,
            n == initial_point@.len(),
            simplex@.len() == n + 1,
            values@.len() == n + 1,
            forall|j: int| 0 <= j < n + 1 ==> (#[trigger] simplex@[j])@.len() == n,
            sx0 == s_initial_simplex(initial_point@, scale),
            v0 == Seq::new(sx0.len(), |i: int| o.s_f(sx0[i])),
            grid(simplex@) == s_nm_iter(*o, sx0, v0, n as nat, tol, gk).0,
            values@ == s_nm_iter(*o, sx0, v0, n as nat, tol, gk).1,
            s_nm_iter(*o, sx0, v0, n as nat, tol, gk).2 == false,
            cap as nat == cap_of(max_iterations),
            iters as nat == gk,
            gk <= cap as nat,
        ensures
            simplex@.len() == n + 1,
            values@.len() == n + 1,
            forall|j: int| 0 <= j < n + 1 ==> (#[trigger] simplex@[j])@.len() == n,
            values@ == s_nm_iter(*o, sx0, v0, n as nat, tol, gk).1,
            nm_reached(*o, initial_point@, max_iterations, tol, scale, gk, grid(simplex@)),
        decreases cap - iters,
    {
        let d = nm_step(o, &mut simplex, &mut values, n, tol);
        proof {
            gk = gk + 1;
        }
        iters = iters + 1;
        if d {
            proof {
                assert(nm_reached(
                    *o,
                    initial_point@,
                    max_iterations,
                    tol,
                    scale,
                    gk,
                    grid(simplex@),
                ));
            }
            break;
        }
    }
    let best = sort_indices(&values);
    let r = vec_copy(&simplex[best[0]]);
    proof {
        assert(r@ == grid(simplex@)[best@[0] as int]);
        assert(nm_result(*o, initial_point@, max_iterations, tol, scale, gk, r@));
    }
    r
}

/// The left fold of `min` over the magnitudes of the first `k` parameters,
/// from infinity.
pub open spec fn s_min_fold<T: Scalar>(params: Seq<T>, k: int) -> T
    decreases k,
{
    if k <= 0 {
        T::s_infinity()
    } else {
        s_min_fold(params, k - 1).s_min(params[k - 1].s_abs())
    }
}

/// The finite-difference step: a millionth of the smallest parameter
/// magnitude, or a bare millionth where that product is exactly zero, so
/// that an exactly-zero parameter cannot degenerate the step.
pub open spec fn s_fd_step<T: Scalar>(params: Seq<T>) -> T {
    let c = T::s_one().s_div(T::s_from_usize(1000000));
    let h = c.s_mul(s_min_fold(params, params.len() as int));
    if h.s_eq(T::s_zero()) {
        c
    } else {
        h
    }
}

/// The central finite-difference gradient of an objective.
pub open spec fn s_gradient<T: Scalar, O: Objective<T>>(o: O, params: Seq<T>) -> Seq<T> {
    let h = s_fd_step(params);
    Seq::new(
        params.len(),
        |i: int| o.s_f(params.update(i, params[i].s_add(h))).s_sub(
            o.s_f(params.update(i, params[i].s_sub(h))),
        ).s_div(T::s_from_usize(2).s_mul(h)),
    )
}

/// The central finite-difference Hessian of an objective: each row differences
/// the gradient across one perturbed coordinate.
pub open spec fn s_hessian<T: Scalar, O: Objective<T>>(o: O, params: Seq<T>) -> Seq<Seq<T>> {
    let h = s_fd_step(params);
    Seq::new(
        params.len(),
        |i: int| Seq::new(
            params.len(),
            |j: int| s_gradient(o, params.update(i, params[i].s_add(h)))[j].s_sub(
                s_gradient(o, params.update(i, params[i].s_sub(h)))[j],
            ).s_div(T::s_from_usize(2).s_mul(h)),
        ),
    )
}

/// Computes the finite-difference step for the parameters given.
fn fd_step<T: Scalar>(params: &Vec<T>) -> (h: T)
    ensures
        h == s_fd_step(params@),
{
    let n = params.len();
    let mut m = T::infinity();
    for i in 0..n
        invariant
            n == params@.len(),
            m == s_min_fold(params@, i as int),
    {
        m = m.min_v(params[i].abs());
    }
    let c = T::one().div(T::from_usize(1000000));
    let h = c.mul(m);
    if h.eq_v(T::zero()) {
        c
    } else {
        h
    }
}

/// The central finite-difference gradient of an objective.
fn calculate_gradient<T: Scalar, O: Objective<T>>(o: &O, params: &Vec<T>) -> (r: Vec<T>)
    ensures
        r@ == s_gradient(*o, params@),
        r@.len() == params@.len(),
{
    let n = params.len();
    let h = fd_step(params);
    let mut gradient: Vec<T> = Vec::new();
    for i in 0..n
        invariant
            n == params@.len(),
            h == s_fd_step(params@),
            gradient@.len() == i,
            forall|j: int| 0 <= j < i ==> gradient@[j] == s_gradient(*o, params@)[j],
    {
        let mut params1 = vec_copy(params);
        let mut params2 = vec_copy(params);
        let up = params1[i].add(h);
        params1[i] = up;
        let down = params2[i].sub(h);
        params2[i] = down;
        let f1 = o.f(&params1);
        let f2 = o.f(&params2);
        gradient.push(f1.sub(f2).div(T::from_usize(2).mul(h)));
    }
    proof {
        assert(gradient@ =~= s_gradient(*o, params@));
    }
    gradient
}

/// The central finite-difference Hessian of an objective.
fn calculate_hessian_matrix<T: Scalar, O: Objective<T>>(o: &O, params: &Vec<T>) -> (r: Vec<
    Vec<T>,
>)
    ensures
        grid(r@) == s_hessian(*o, params@),
        r@.len() == params@.len(),
        forall|i: int| 0 <= i < r@.len() ==> (#[trigger] r@[i])@.len() == params@.len(),
{
    let n = params.len();
    let h = fd_step(params);
    let mut hessian_matrix: Vec<Vec<T>> = Vec::new();
    for i in 0..n
        invariant
            n == params@.len(),
            h == s_fd_step(params@),
            hessian_matrix@.len() == i,
            forall|k: int|
                0 <= k < i ==> (#[trigger] hessian_matrix@[k])@.len() == n,
            forall|k: int|
                0 <= k < i ==> (#[trigger] hessian_matrix@[k])@ == s_hessian(*o, params@)[k],
    {
        let mut params1 = vec_copy(params);
        let mut params2 = vec_copy(params);
        let up = params1[i].add(h);
        params1[i] = up;
        let down = params2[i].sub(h);
        params2[i] = down;
        let gradient1 = calculate_gradient(o, &params1);
        let gradient2 = calculate_gradient(o, &params2);
        let mut row: Vec<T> = Vec::new();
        for j in 0..n
            invariant
                n == params@.len(),
                h == s_fd_step(params@),
                i < n,
                gradient1@ == s_gradient(*o, params@.update(i as int, params@[i as int].s_add(h))),
                gradient2@ == s_gradient(*o, params@.update(i as int, params@[i as int].s_sub(h))),
                gradient1@.len() == n,
                gradient2@.len() == n,
                row@.len() == j,
                forall|j2: int| 0 <= j2 < j ==> row@[j2] == s_hessian(*o, params@)[i as int][j2],
        {
            row.push(gradient1[j].sub(gradient2[j]).div(T::from_usize(2).mul(h)));
        }
        proof {
            assert(row@ =~= s_hessian(*o, params@)[i as int]);
        }
        hessian_matrix.push(row);
    }
    proof {
        assert(grid(hessian_matrix@) =~~= s_hessian(*o, params@));
    }
    hessian_matrix
}

/// One row of the identity, as the augmented matrix carries it.
pub open spec fn s_identity_row<T: Scalar>(n: nat, i: int) -> Seq<T> {
    Seq::new(n, |j: int| if i == j {
        T::s_one()
    } else {
        T::s_zero()
    })
}

/// The matrix with the identity appended to the right of every row.
pub open spec fn s_augmented<T: Scalar>(m: Seq<Seq<T>>) -> Seq<Seq<T>> {
    Seq::new(m.len(), |i: int| m[i] + s_identity_row(m.len(), i))
}

/// The row a magnitude scan from `r` with current candidate `best` settles
/// on: a later row takes over whenever its entry's magnitude is not below the
/// candidate's, so among equals the last one wins.
pub open spec fn s_pivot_acc<T: Scalar>(m: Seq<Seq<T>>, col: int, r: int, best: int) -> int
    decreases m.len() - r,
{
    if r >= m.len() {
        best
    } else {
        let b2 = if !m[r][col].s_abs().s_lt(m[best][col].s_abs()) {
            r
        } else {
            best
        };
        s_pivot_acc(m, col, r + 1, b2)
    }
}

/// The pivot row for a column: the largest-magnitude candidate from the
/// diagonal down, read off the original matrix.
pub open spec fn s_pivot<T: Scalar>(m: Seq<Seq<T>>, col: int) -> int {
    s_pivot_acc(m, col, col + 1, col)
}

/// One column of Gauss-Jordan elimination: swap the pivot row up, refuse a
/// zero pivot, normalise the diagonal, and clear the column in every other
/// row from the diagonal rightward.
pub open spec fn s_gauss_step<T: Scalar>(aug: Seq<Seq<T>>, m: Seq<Seq<T>>, i: int) -> Option<
    Seq<Seq<T>>,
> {
    let piv = s_pivot(m, i);
    let aug1 = aug.update(i, aug[piv]).update(piv, aug[i]);
    let pval = aug1[i][i];
    if pval.s_eq(T::s_zero()) {
        None
    } else {
        let norm = Seq::new(aug1[i].len(), |j: int| aug1[i][j].s_div(pval));
        let aug2 = aug1.update(i, norm);
        Some(
            Seq::new(
                aug2.len(),
                |k: int| if k == i {
                    aug2[k]
                } else {
                    Seq::new(aug2[k].len(), |j: int| if j < i {
                        aug2[k][j]
                    } else {
                        aug2[k][j].s_sub(aug2[k][i].s_mul(aug2[i][j]))
                    })
                },
            ),
        )
    }
}

/// Gauss-Jordan elimination from column `i` on.
pub open spec fn s_gauss<T: Scalar>(aug: Seq<Seq<T>>, m: Seq<Seq<T>>, i: int) -> Option<
    Seq<Seq<T>>,
>
    decreases m.len() - i,
{
    if i >= m.len() {
        Some(aug)
    } else {
        match s_gauss_step(aug, m, i) {
            Some(next) => s_gauss(next, m, i + 1),
            None => None,
        }
    }
}

/// What matrix inversion returns: nothing for a ragged matrix or one with a
/// pivotless column, and the right half of the eliminated augmented matrix
/// otherwise.
pub open spec fn s_invert<T: Scalar>(m: Seq<Seq<T>>) -> Option<Seq<Seq<T>>> {
    if exists|i: int| 0 <= i < m.len() && (#[trigger] m[i]).len() != m.len() {
        None
    } else {
        match s_gauss(s_augmented(m), m, 0) {
            Some(aug) => Some(
                Seq::new(m.len(), |i: int| aug[i].subrange(m.len() as int, 2 * m.len() as int)),
            ),
            None => None,
        }
    }
}

/// Inverts a square matrix by Gauss-Jordan elimination with partial
/// pivoting, or returns nothing for a ragged or singular one.
pub fn invert_matrix<T: Scalar>(matrix: &Vec<Vec<T>>) -> (r: Option<Vec<Vec<T>>>)
    ensures
        r is Some <==> s_invert(grid(matrix@)) is Some,
        r matches Some(inv) ==> {
            &&& grid(inv@) == s_invert(grid(matrix@))->Some_0
            &&& inv@.len() == matrix@.len()
            &&& forall|i: int| 0 <= i < inv@.len() ==> (#[trigger] inv@[i])@.len() == matrix@.len()
        },
{
    let ghost g_m = grid(matrix@);
    let n = matrix.len();

    for i in 0..n
        invariant
            n == matrix@.len(),
            grid(matrix@) == g_m,
            forall|k: int| 0 <= k < i ==> (#[trigger] grid(matrix@)[k]).len() == n,
    {
        if matrix[i].len() != n {
            proof {
                assert(g_m[i as int] == matrix@[i as int]@);
                assert(g_m.len() == matrix@.len());
                assert(g_m[i as int].len() != g_m.len());
                assert(exists|k: int|
                    0 <= k < g_m.len() && (#[trigger] g_m[k]).len() != g_m.len());
                assert(s_invert(g_m) is None);
            }
            return None;
        }
    }
    proof {
        assert(forall|k: int| 0 <= k < n ==> (#[trigger] g_m[k]).len() == n);
        assert(!(exists|i: int| 0 <= i < g_m.len() && (#[trigger] g_m[i]).len() != g_m.len()));
    }

    let mut aug: Vec<Vec<T>> = Vec::new();
    for i in 0..n
        invariant
            n == matrix@.len(),
            grid(matrix@) == g_m,
            forall|k: int| 0 <= k < n ==> (#[trigger] g_m[k]).len() == n,
            aug@.len() == i,
            forall|k: int| 0 <= k < i ==> (#[trigger] aug@[k])@.len() == 2 * n,
            forall|k: int| 0 <= k < i ==> (#[trigger] aug@[k])@ == s_augmented(g_m)[k],
    {
        let mut row = vec_copy(&matrix[i]);
        proof {
            assert(row@.subrange(0, n as int) =~= g_m[i as int]);
        }
        for j in 0..n
            invariant
                n == matrix@.len(),
                i < n,
                row@.len() == n + j,
                row@.subrange(0, n as int) == g_m[i as int],
                forall|j2: int|
                    0 <= j2 < j ==> row@[n + j2] == s_identity_row::<T>(n as nat, i as int)[j2],
        {
            let ghost r0 = row@;
            if i == j {
                row.push(T::one());
            } else {
                row.push(T::zero());
            }
            proof {
                assert(row@.subrange(0, n as int) =~= r0.subrange(0, n as int));
            }
        }
        proof {
            assert(row@ =~= g_m[i as int] + s_identity_row(n as nat, i as int));
        }
        aug.push(row);
    }
    proof {
        assert(grid(aug@) =~~= s_augmented(g_m));
    }

    for i in 0..n
        invariant
            n == matrix@.len(),
            grid(matrix@) == g_m,
            forall|k: int| 0 <= k < n ==> (#[trigger] g_m[k]).len() == n,
            aug@.len() == n,
            forall|k: int| 0 <= k < n ==> (#[trigger] aug@[k])@.len() == 2 * n,
            s_gauss(s_augmented(g_m), g_m, 0) == s_gauss(grid(aug@), g_m, i as int),
    {
        let ghost pre = grid(aug@);

        // Pivot search over the original matrix, from the diagonal down.
        let mut pivot_row = i;
        let mut r = i + 1;
        while r < n
            invariant
                n == matrix@.len(),
                grid(matrix@) == g_m,
                forall|k: int| 0 <= k < n ==> (#[trigger] g_m[k]).len() == n,
                i < n,
                i <= pivot_row < n,
                i + 1 <= r <= n,
                s_pivot(g_m, i as int) == s_pivot_acc(g_m, i as int, r as int, pivot_row as int),
            decreases n - r,
        {
            if !matrix[r][i].abs().lt_v(matrix[pivot_row][i].abs()) {
                pivot_row = r;
            }
            r = r + 1;
        }
        proof {
            assert(pivot_row as int == s_pivot(g_m, i as int));
        }

        // Swap the pivot row up.
        let row_i = vec_copy(&aug[i]);
        let row_p = vec_copy(&aug[pivot_row]);
        aug[i] = row_p;
        aug[pivot_row] = row_i;
        proof {
            assert(grid(aug@) =~~= pre.update(i as int, pre[pivot_row as int]).update(
                pivot_row as int,
                pre[i as int],
            ));
        }
        let ghost swapped = grid(aug@);

        let pivot_val = aug[i][i];
        proof {
            assert(pivot_val == swapped[i as int][i as int]);
        }
        if pivot_val.eq_v(T::zero()) {
            proof {
                let piv = s_pivot(g_m, i as int);
                assert(piv == pivot_row as int);
                let aug1 = pre.update(i as int, pre[piv]).update(piv, pre[i as int]);
                assert(aug1 =~~= swapped);
                assert(aug1[i as int][i as int] == pivot_val);
                assert(s_gauss_step(pre, g_m, i as int) is None);
                assert(s_gauss(pre, g_m, i as int) is None);
                assert(s_gauss(s_augmented(g_m), g_m, 0) is None);
                assert(s_invert(g_m) is None);
            }
            return None;
        }

        // Normalise the pivot row.
        let w = aug[i].len();
        let mut norm: Vec<T> = Vec::new();
        for j in 0..w
            invariant
                w == 2 * n,
                i < n,
                aug@.len() == n,
                grid(aug@) == swapped,
                forall|k: int| 0 <= k < n ==> (#[trigger] aug@[k])@.len() == 2 * n,
                pivot_val == swapped[i as int][i as int],
                norm@.len() == j,
                forall|j2: int|
                    0 <= j2 < j ==> norm@[j2] == swapped[i as int][j2].s_div(pivot_val),
        {
            norm.push(aug[i][j].div(pivot_val));
        }
        aug[i] = norm;
        proof {
            assert(grid(aug@) =~~= swapped.update(
                i as int,
                Seq::new(swapped[i as int].len(), |j: int| swapped[i as int][j].s_div(pivot_val)),
            ));
        }
        let ghost normed = grid(aug@);

        // Clear the column in every other row, from the diagonal rightward.
        for k in 0..n
            invariant
                n == matrix@.len(),
                i < n,
                w == 2 * n,
                aug@.len() == n,
                forall|k2: int| 0 <= k2 < n ==> (#[trigger] aug@[k2])@.len() == 2 * n,
                grid(aug@)[i as int] == normed[i as int],
                forall|k2: int| k <= k2 < n ==> #[trigger] grid(aug@)[k2] == normed[k2],
                forall|k2: int|
                    0 <= k2 < k && k2 != i ==> #[trigger] grid(aug@)[k2] == Seq::new(
                        normed[k2].len(),
                        |j: int| if j < i {
                            normed[k2][j]
                        } else {
                            normed[k2][j].s_sub(normed[k2][i as int].s_mul(normed[i as int][j]))
                        },
                    ),
        {
            if k != i {
                let factor = aug[k][i];
                let ghost row_pre = grid(aug@)[k as int];
                let ghost cur = grid(aug@);
                let mut newrow: Vec<T> = Vec::new();
                for j in 0..w
                    invariant
                        i < n,
                        k < n,
                        k != i,
                        w == 2 * n,
                        aug@.len() == n,
                        forall|k2: int| 0 <= k2 < n ==> (#[trigger] aug@[k2])@.len() == 2 * n,
                        grid(aug@)[k as int] == row_pre,
                        row_pre == normed[k as int],
                        grid(aug@)[i as int] == normed[i as int],
                        factor == normed[k as int][i as int],
                        newrow@.len() == j,
                        forall|j2: int|
                            0 <= j2 < j ==> newrow@[j2] == (if j2 < i {
                                normed[k as int][j2]
                            } else {
                                normed[k as int][j2].s_sub(
                                    normed[k as int][i as int].s_mul(normed[i as int][j2]),
                                )
                            }),
                {
                    if j < i {
                        newrow.push(aug[k][j]);
                    } else {
                        newrow.push(aug[k][j].sub(factor.mul(aug[i][j])));
                    }
                }
                let ghost g_newrow = newrow@;
                aug[k] = newrow;
                proof {
                    assert(grid(aug@) =~~= cur.update(k as int, g_newrow));
                    assert(grid(aug@)[k as int] =~= Seq::new(
                        normed[k as int].len(),
                        |j: int| if j < i {
                            normed[k as int][j]
                        } else {
                            normed[k as int][j].s_sub(
                                normed[k as int][i as int].s_mul(normed[i as int][j]),
                            )
                        },
                    ));
                }
            }
        }
        proof {
            let piv = s_pivot(g_m, i as int);
            assert(piv == pivot_row as int);
            let aug1 = pre.update(i as int, pre[piv]).update(piv, pre[i as int]);
            assert(aug1 =~~= swapped);
            let pval = aug1[i as int][i as int];
            assert(pval == pivot_val);
            assert(!pval.s_eq(T::s_zero()));
            let norm_s = Seq::new(aug1[i as int].len(), |j: int| aug1[i as int][j].s_div(pval));
            let aug2 = aug1.update(i as int, norm_s);
            assert(aug2 =~~= normed);
            let stepped = s_gauss_step(pre, g_m, i as int);
            assert(stepped is Some);
            assert(stepped->Some_0 =~~= grid(aug@));
            assert(s_gauss(pre, g_m, i as int) == s_gauss(grid(aug@), g_m, i + 1));
        }
    }
    proof {
        assert(s_gauss(s_augmented(g_m), g_m, 0) == Some(grid(aug@)));
    }

    // The inverse is the right half of the eliminated augmented matrix.
    let mut inverse: Vec<Vec<T>> = Vec::new();
    for i in 0..n
        invariant
            n == matrix@.len(),
            aug@.len() == n,
            forall|k: int| 0 <= k < n ==> (#[trigger] aug@[k])@.len() == 2 * n,
            inverse@.len() == i,
            forall|k: int| 0 <= k < i ==> (#[trigger] inverse@[k])@.len() == n,
            forall|k: int|
                0 <= k < i ==> (#[trigger] inverse@[k])@ == aug@[k]@.subrange(n as int, 2 * n),
    {
        let mut row: Vec<T> = Vec::new();
        let wi = aug[i].len();
        for j in 0..n
            invariant
                n == matrix@.len(),
                i < n,
                aug@.len() == n,
                forall|k: int| 0 <= k < n ==> (#[trigger] aug@[k])@.len() == 2 * n,
                wi == 2 * n,
                row@.len() == j,
                forall|j2: int| 0 <= j2 < j ==> row@[j2] == aug@[i as int]@[n + j2],
        {
            assert(n + j < wi);
            row.push(aug[i][n + j]);
        }
        proof {
            assert(row@ =~= aug@[i as int]@.subrange(n as int, 2 * n));
        }
        inverse.push(row);
    }
    proof {
        assert(grid(inverse@) =~~= s_invert(g_m)->Some_0);
    }
    Some(inverse)
}

/// Half the finite-difference Hessian, entry by entry.
pub open spec fn s_half_hessian<T: Scalar, O: Objective<T>>(o: O, params: Seq<T>) -> Seq<Seq<T>> {
    Seq::new(
        params.len(),
        |i: int| Seq::new(
            params.len(),
            |j: int| s_hessian(o, params)[i][j].s_div(T::s_from_usize(2)),
        ),
    )
}

/// A square matrix of zeroes.
pub open spec fn s_zero_matrix<T: Scalar>(n: nat) -> Seq<Seq<T>> {
    Seq::new(n, |i: int| Seq::new(n, |j: int| T::s_zero()))
}

/// The per-parameter standard errors the covariance estimate assigns: the
/// square roots of the diagonal of `inverse(Hessian/2) * rss / dof`, with
/// `dof` the point count less the parameter count. A singular halved Hessian
/// stands in as a zero matrix, so the fit still reports its point estimates,
/// with zero errors.
pub open spec fn s_param_errors<T: Scalar, O: Objective<T>>(o: O, params: Seq<T>, npts: nat) -> Seq<
    T,
> {
    let n = params.len();
    let inverse = match s_invert(s_half_hessian(o, params)) {
        Some(inv) => inv,
        None => s_zero_matrix::<T>(n),
    };
    let rss = o.s_f(params);
    let dof = T::s_from_usize((npts - n) as usize);
    Seq::new(n, |i: int| inverse[i][i].s_mul(rss).s_div(dof).s_sqrt())
}

/// Whether `r` is the sequence of single-pair measures the nonlinear fit
/// builds after `k` search iterations: each value a fitted parameter, each
/// error the covariance estimate's standard error for it.
pub open spec fn curve_fit_post<T: Scalar, O: Objective<T>>(
    o: O,
    initial_point: Seq<T>,
    max_iterations: Option<usize>,
    tol: T,
    scale: T,
    npts: nat,
    k: nat,
    r: Seq<Measure<T>>,
) -> bool {
    exists|params: Seq<T>|
        {
            &&& #[trigger] nm_result(o, initial_point, max_iterations, tol, scale, k, params)
            &&& params.len() == initial_point.len()
            &&& r.len() == initial_point.len()
            &&& forall|i: int|
                0 <= i < r.len() ==> {
                    &&& (#[trigger] r[i]).spec_len() == 1
                    &&& r[i].spec_errors().len() == 1
                    &&& r[i].spec_style() == Style::PM
                    &&& r[i].spec_values()[0] == params[i]
                    &&& r[i].spec_errors()[0] == s_param_errors(o, params, npts)[i]
                }
        }
}

/// Fits a model to data by the simplex search and estimates each parameter's
/// standard error from the finite-difference Hessian.
fn curve_fit<T: Scalar, M: Model<T>>(
    model: &M,
    x: &Vec<T>,
    y: &Vec<T>,
    yerr: &Vec<T>,
    initial_point: &Vec<T>,
    max_iterations: Option<usize>,
    tol: T,
    scale: T,
) -> (r: Vec<Measure<T>>)
    requires
        x@.len() == y@.len(),
        1 <= initial_point@.len() <= x@.len(),
    ensures
        r@.len() == initial_point@.len(),
        forall|i: int|
            0 <= i < r@.len() ==> (#[trigger] r@[i]).spec_len() == 1 && r@[i].spec_errors().len()
                == 1,
        exists|k: nat|
            curve_fit_post(
                (Chi2 { model: model, x: x, y: y, yerr: yerr }),
                initial_point@,
                max_iterations,
                tol,
                scale,
                x@.len() as nat,
                k,
                r@,
            ),
{
    let chi2 = Chi2 { model, x, y, yerr };
    let result = nelder_mead(&chi2, initial_point, max_iterations, tol, scale);
    let ghost params = result@;
    let npar = result.len();

    let hessian_matrix = calculate_hessian_matrix(&chi2, &result);
    let mut half: Vec<Vec<T>> = Vec::new();
    for i in 0..npar
        invariant
            npar == params.len(),
            result@ == params,
            hessian_matrix@.len() == npar,
            forall|k: int| 0 <= k < npar ==> (#[trigger] hessian_matrix@[k])@.len() == npar,
            grid(hessian_matrix@) == s_hessian(chi2, params),
            half@.len() == i,
            forall|k: int| 0 <= k < i ==> (#[trigger] half@[k])@.len() == npar,
            forall|k: int| 0 <= k < i ==> (#[trigger] half@[k])@ == s_half_hessian(chi2, params)[k],
    {
        let mut row: Vec<T> = Vec::new();
        for j in 0..npar
            invariant
                npar == params.len(),
                i < npar,
                hessian_matrix@.len() == npar,
                forall|k: int| 0 <= k < npar ==> (#[trigger] hessian_matrix@[k])@.len() == npar,
                grid(hessian_matrix@) == s_hessian(chi2, params),
                row@.len() == j,
                forall|j2: int|
                    0 <= j2 < j ==> row@[j2] == s_hessian(chi2, params)[i as int][j2].s_div(
                        T::s_from_usize(2),
                    ),
        {
            row.push(hessian_matrix[i][j].div(T::from_usize(2)));
        }
        proof {
            assert(row@ =~= s_half_hessian(chi2, params)[i as int]);
        }
        half.push(row);
    }
    let ghost half_hess = s_half_hessian(chi2, params);
    proof {
        assert(grid(half@) =~~= half_hess);
    }

    let n = x.len();
    let inverse_hessian = match invert_matrix(&half) {
        Some(inverse) => inverse,
        None => {
            // A singular Hessian: the covariance degrades to all zeros and
            // the point estimates still come back.
            let mut zeros: Vec<Vec<T>> = Vec::new();
            for i in 0..n
                invariant
                    zeros@.len() == i,
                    forall|k: int| 0 <= k < i ==> (#[trigger] zeros@[k])@.len() == n,
                    forall|k: int|
                        0 <= k < i ==> forall|j: int|
                            0 <= j < n ==> (#[trigger] zeros@[k])@[j] == T::s_zero(),
            {
                zeros.push(vec_of(n, T::zero()));
            }
            zeros
        },
    };
    proof {
        assert(forall|i: int|
            0 <= i < npar ==> (#[trigger] inverse_hessian@[i])@.len() >= npar);
        assert(forall|i: int|
            0 <= i < npar ==> #[trigger] inverse_hessian@[i]@[i] == (match s_invert(half_hess) {
                Some(inv) => inv,
                None => s_zero_matrix::<T>(params.len()),
            })[i][i]);
    }

    let rss = chi2.f(&result);
    let dof = T::from_usize(x.len() - npar);
    let mut errors: Vec<T> = Vec::new();
    for i in 0..npar
        invariant
            npar == params.len(),
            npar <= x@.len(),
            rss == chi2.s_f(params),
            dof == T::s_from_usize((x@.len() - npar) as usize),
            inverse_hessian@.len() >= npar,
            forall|k: int|
                0 <= k < npar ==> (#[trigger] inverse_hessian@[k])@.len() >= npar,
            half_hess == s_half_hessian(chi2, params),
            forall|k: int|
                0 <= k < npar ==> #[trigger] inverse_hessian@[k]@[k] == (match s_invert(
                    half_hess,
                ) {
                    Some(inv) => inv,
                    None => s_zero_matrix::<T>(params.len()),
                })[k][k],
            errors@.len() == i,
            forall|k: int| 0 <= k < i ==> errors@[k] == s_param_errors(chi2, params, x@.len() as nat)[k],
    {
        errors.push(inverse_hessian[i][i].mul(rss).div(dof).sqrt());
    }

    let mut out: Vec<Measure<T>> = Vec::new();
    for i in 0..npar
        invariant
            npar == params.len(),
            result@ == params,
            errors@.len() == npar,
            forall|k: int|
                0 <= k < npar ==> errors@[k] == s_param_errors(chi2, params, x@.len() as nat)[k],
            out@.len() == i,
            forall|k: int|
                0 <= k < i ==> {
                    &&& (#[trigger] out@[k]).spec_len() == 1
                    &&& out@[k].spec_errors().len() == 1
                    &&& out@[k].spec_style() == Style::PM
                    &&& out@[k].spec_values()[0] == params[k]
                    &&& out@[k].spec_errors()[0] == s_param_errors(chi2, params, x@.len() as nat)[k]
                },
    {
        out.push(crate::objects::single(result[i], errors[i]));
    }
    proof {
        assert(chi2 == (Chi2 { model: model, x: x, y: y, yerr: yerr }));
        let k = choose|k: nat|
            nm_result(chi2, initial_point@, max_iterations, tol, scale, k, params);
        assert(nm_result(chi2, initial_point@, max_iterations, tol, scale, k, params));
        assert(curve_fit_post(
            chi2,
            initial_point@,
            max_iterations,
            tol,
            scale,
            x@.len() as nat,
            k,
            out@,
        ));
    }
    out
}

/// The ordinary least-squares line through `(x, y)`: slope, intercept, and
/// their residual-scaled standard errors, each written as the closed normal
/// equations compute it.
pub open spec fn s_linfit<T: Scalar>(x: Seq<T>, y: Seq<T>) -> (T, T, T, T) {
    let n_t = T::s_from_usize(x.len() as usize);
    let two = T::s_from_usize(2);
    let sum_x = spec_sum(x);
    let sum_y = spec_sum(y);
    let sum_xy = spec_sum(Seq::new(x.len(), |i: int| x[i].s_mul(y[i])));
    let sum_x2 = spec_sum(Seq::new(x.len(), |i: int| x[i].s_powf(two)));
    let slope = n_t.s_mul(sum_xy).s_sub(sum_x.s_mul(sum_y)).s_div(
        n_t.s_mul(sum_x2).s_sub(sum_x.s_powf(two)),
    );
    let n0 = sum_y.s_mul(sum_x2).s_sub(sum_x.s_mul(sum_xy)).s_div(
        n_t.s_mul(sum_x2).s_sub(sum_x.s_powf(two)),
    );
    let sigma_y = spec_sum(
        Seq::new(
            x.len(),
            |i: int| y[i].s_sub(slope.s_mul(x[i]).s_add(n0)).s_powi(2).s_div(n_t.s_sub(two)),
        ),
    ).s_sqrt();
    let sigma_slope = sigma_y.s_mul(n_t.s_div(n_t.s_mul(sum_x2).s_sub(sum_x.s_powi(2))).s_sqrt());
    let sigma_n0 = sigma_y.s_mul(
        sum_x2.s_div(n_t.s_mul(sum_x2).s_sub(sum_x.s_powi(2))).s_sqrt(),
    );
    (slope, n0, sigma_slope, sigma_n0)
}

/// The weighted least-squares line through `(x, y)` under weights
/// `1 / yerr^2`: slope, intercept, and their errors. The weighted error
/// formulas carry no residual scale; the weights already encode each point's
/// variance.
pub open spec fn s_wlinfit<T: Scalar>(x: Seq<T>, y: Seq<T>, yerr: Seq<T>) -> (T, T, T, T) {
    let w = Seq::new(yerr.len(), |i: int| T::s_one().s_div(yerr[i].s_powi(2)));
    let sum_w = spec_sum(w);
    let sum_xw = spec_sum(Seq::new(x.len(), |i: int| x[i].s_mul(w[i])));
    let sum_x2w = spec_sum(Seq::new(x.len(), |i: int| x[i].s_powi(2).s_mul(w[i])));
    let sum_yw = spec_sum(Seq::new(y.len(), |i: int| y[i].s_mul(w[i])));
    let sum_xyw = spec_sum(Seq::new(x.len(), |i: int| x[i].s_mul(y[i]).s_mul(w[i])));
    let wslope = sum_w.s_mul(sum_xyw).s_sub(sum_xw.s_mul(sum_yw)).s_div(
        sum_w.s_mul(sum_x2w).s_sub(sum_xw.s_powi(2)),
    );
    let wn0 = sum_yw.s_mul(sum_x2w).s_sub(sum_xw.s_mul(sum_xyw)).s_div(
        sum_w.s_mul(sum_x2w).s_sub(sum_xw.s_powi(2)),
    );
    let wsigma_slope = sum_w.s_div(sum_w.s_mul(sum_x2w).s_sub(sum_xw.s_powi(2))).s_sqrt();
    let wsigma_n0 = sum_x2w.s_div(sum_w.s_mul(sum_x2w).s_sub(sum_xw.s_powi(2))).s_sqrt();
    (wslope, wn0, wsigma_slope, wsigma_n0)
}

/// Fits a straight line by ordinary least squares and returns slope and
/// intercept as single-pair measures, not auto-approximated. The error
/// formulas divide by the point count less two, so fewer than three points
/// yield meaningless (infinite or undefined) errors rather than a failure.
fn linear_fit<T: Scalar>(x: &Vec<T>, y: &Vec<T>) -> (r: (Measure<T>, Measure<T>))
    requires
        x@.len() == y@.len(),
    ensures
        r.0.spec_len() == 1 && r.0.spec_errors().len() == 1,
        r.1.spec_len() == 1 && r.1.spec_errors().len() == 1,
        r.0.spec_values()[0] == s_linfit(x@, y@).0,
        r.1.spec_values()[0] == s_linfit(x@, y@).1,
        r.0.spec_errors()[0] == s_linfit(x@, y@).2,
        r.1.spec_errors()[0] == s_linfit(x@, y@).3,
        r.0.spec_style() == Style::PM,
        r.1.spec_style() == Style::PM,
{
    let n = x.len();
    let n_t = T::from_usize(n);
    let two = T::from_usize(2);
    let sum_x = sum(x);
    let sum_y = sum(y);
    let mut xy: Vec<T> = Vec::new();
    let mut x2: Vec<T> = Vec::new();
    for i in 0..n
        invariant
            n == x@.len(),
            x@.len() == y@.len(),
            two == T::s_from_usize(2),
            xy@.len() == i,
            x2@.len() == i,
            forall|j: int| 0 <= j < i ==> xy@[j] == x@[j].s_mul(y@[j]),
            forall|j: int| 0 <= j < i ==> x2@[j] == x@[j].s_powf(T::s_from_usize(2)),
    {
        xy.push(x[i].mul(y[i]));
        x2.push(x[i].powf(two));
    }
    proof {
        assert(xy@ =~= Seq::new(x@.len(), |i: int| x@[i].s_mul(y@[i])));
        assert(x2@ =~= Seq::new(x@.len(), |i: int| x@[i].s_powf(T::s_from_usize(2))));
    }
    let sum_xy = sum(&xy);
    let sum_x2 = sum(&x2);

    let slope = n_t.mul(sum_xy).sub(sum_x.mul(sum_y)).div(
        n_t.mul(sum_x2).sub(sum_x.powf(two)),
    );
    let n0 = sum_y.mul(sum_x2).sub(sum_x.mul(sum_xy)).div(n_t.mul(sum_x2).sub(sum_x.powf(two)));

    let mut res: Vec<T> = Vec::new();
    for i in 0..n
        invariant
            n == x@.len(),
            x@.len() == y@.len(),
            n_t == T::s_from_usize(x@.len() as usize),
            two == T::s_from_usize(2),
            slope == s_linfit(x@, y@).0,
            n0 == s_linfit(x@, y@).1,
            res@.len() == i,
            forall|j: int|
                0 <= j < i ==> res@[j] == y@[j].s_sub(
                    s_linfit(x@, y@).0.s_mul(x@[j]).s_add(s_linfit(x@, y@).1),
                ).s_powi(2).s_div(T::s_from_usize(x@.len() as usize).s_sub(T::s_from_usize(2))),
    {
        res.push(y[i].sub(slope.mul(x[i]).add(n0)).powi(2).div(n_t.sub(two)));
    }
    proof {
        assert(res@ =~= Seq::new(
            x@.len(),
            |i: int| y@[i].s_sub(
                s_linfit(x@, y@).0.s_mul(x@[i]).s_add(s_linfit(x@, y@).1),
            ).s_powi(2).s_div(T::s_from_usize(x@.len() as usize).s_sub(T::s_from_usize(2))),
        ));
    }
    let sigma_y = sum(&res).sqrt();

    let sigma_slope = sigma_y.mul(n_t.div(n_t.mul(sum_x2).sub(sum_x.powi(2))).sqrt());
    let sigma_n0 = sigma_y.mul(sum_x2.div(n_t.mul(sum_x2).sub(sum_x.powi(2))).sqrt());

    (crate::objects::single(slope, sigma_slope), crate::objects::single(n0, sigma_n0))
}

/// Fits a straight line by weighted least squares, the weights the inverse
/// squared y errors, and returns slope and intercept as single-pair
/// measures, not auto-approximated.
fn wlinear_fit<T: Scalar>(x: &Vec<T>, y: &Vec<T>, yerr: &Vec<T>) -> (r: (Measure<T>, Measure<T>))
    requires
        x@.len() == y@.len(),
        x@.len() == yerr@.len(),
    ensures
        r.0.spec_len() == 1 && r.0.spec_errors().len() == 1,
        r.1.spec_len() == 1 && r.1.spec_errors().len() == 1,
        r.0.spec_values()[0] == s_wlinfit(x@, y@, yerr@).0,
        r.1.spec_values()[0] == s_wlinfit(x@, y@, yerr@).1,
        r.0.spec_errors()[0] == s_wlinfit(x@, y@, yerr@).2,
        r.1.spec_errors()[0] == s_wlinfit(x@, y@, yerr@).3,
        r.0.spec_style() == Style::PM,
        r.1.spec_style() == Style::PM,
{
    let n = x.len();
    let ghost gw = Seq::new(yerr@.len(), |i: int| T::s_one().s_div(yerr@[i].s_powi(2)));
    let mut w: Vec<T> = Vec::new();
    let mut xw: Vec<T> = Vec::new();
    let mut x2w: Vec<T> = Vec::new();
    let mut yw: Vec<T> = Vec::new();
    let mut xyw: Vec<T> = Vec::new();
    for i in 0..n
        invariant
            n == x@.len(),
            x@.len() == y@.len(),
            x@.len() == yerr@.len(),
            gw == Seq::new(yerr@.len(), |i: int| T::s_one().s_div(yerr@[i].s_powi(2))),
            w@.len() == i,
            xw@.len() == i,
            x2w@.len() == i,
            yw@.len() == i,
            xyw@.len() == i,
            forall|j: int| 0 <= j < i ==> w@[j] == gw[j],
            forall|j: int| 0 <= j < i ==> xw@[j] == x@[j].s_mul(gw[j]),
            forall|j: int| 0 <= j < i ==> x2w@[j] == x@[j].s_powi(2).s_mul(gw[j]),
            forall|j: int| 0 <= j < i ==> yw@[j] == y@[j].s_mul(gw[j]),
            forall|j: int| 0 <= j < i ==> xyw@[j] == x@[j].s_mul(y@[j]).s_mul(gw[j]),
    {
        let wi = T::one().div(yerr[i].powi(2));
        w.push(wi);
        xw.push(x[i].mul(wi));
        x2w.push(x[i].powi(2).mul(wi));
        yw.push(y[i].mul(wi));
        xyw.push(x[i].mul(y[i]).mul(wi));
    }
    proof {
        assert(w@ =~= gw);
        assert(xw@ =~= Seq::new(x@.len(), |i: int| x@[i].s_mul(gw[i])));
        assert(x2w@ =~= Seq::new(x@.len(), |i: int| x@[i].s_powi(2).s_mul(gw[i])));
        assert(yw@ =~= Seq::new(y@.len(), |i: int| y@[i].s_mul(gw[i])));
        assert(xyw@ =~= Seq::new(x@.len(), |i: int| x@[i].s_mul(y@[i]).s_mul(gw[i])));
    }
    let sum_w = sum(&w);
    let sum_xw = sum(&xw);
    let sum_x2w = sum(&x2w);
    let sum_yw = sum(&yw);
    let sum_xyw = sum(&xyw);

    let wslope = sum_w.mul(sum_xyw).sub(sum_xw.mul(sum_yw)).div(
        sum_w.mul(sum_x2w).sub(sum_xw.powi(2)),
    );
    let wn0 = sum_yw.mul(sum_x2w).sub(sum_xw.mul(sum_xyw)).div(
        sum_w.mul(sum_x2w).sub(sum_xw.powi(2)),
    );
    let wsigma_slope = sum_w.div(sum_w.mul(sum_x2w).sub(sum_xw.powi(2))).sqrt();
    let wsigma_n0 = sum_x2w.div(sum_w.mul(sum_x2w).sub(sum_xw.powi(2))).sqrt();

    (crate::objects::single(wslope, wsigma_slope), crate::objects::single(wn0, wsigma_n0))
}

/// Pearson's correlation coefficient over mean-centred deviations, the
/// product sum running over as many pairs as both vectors cover.
pub open spec fn s_pearson<T: Scalar>(x: Seq<T>, y: Seq<T>) -> T {
    let x_mean = spec_sum(x).s_div(T::s_from_usize(x.len() as usize));
    let y_mean = spec_sum(y).s_div(T::s_from_usize(y.len() as usize));
    let xd = Seq::new(x.len(), |i: int| x[i].s_sub(x_mean));
    let yd = Seq::new(y.len(), |i: int| y[i].s_sub(y_mean));
    let sigma_x = spec_sum(Seq::new(xd.len(), |i: int| xd[i].s_powi(2)));
    let sigma_y = spec_sum(Seq::new(yd.len(), |i: int| yd[i].s_powi(2)));
    spec_sum(
        Seq::new(
            vstd::math::min(xd.len() as int, yd.len() as int) as nat,
            |i: int| xd[i].s_mul(yd[i]),
        ),
    ).s_div(sigma_x.s_mul(sigma_y).s_sqrt())
}

/// The unweighted residual sum of squares of a model at a parameter point,
/// over as many pairs as both data vectors cover.
pub open spec fn s_ss_res<T: Scalar, M: Model<T>>(
    model: M,
    x: Seq<T>,
    y: Seq<T>,
    params: Seq<T>,
) -> T {
    spec_sum(
        Seq::new(
            vstd::math::min(x.len() as int, y.len() as int) as nat,
            |i: int| y[i].s_sub(model.s_eval(x[i], params)).s_powi(2),
        ),
    )
}

/// The total sum of squares of the data about its mean.
pub open spec fn s_ss_total<T: Scalar>(y: Seq<T>) -> T {
    spec_sum(
        Seq::new(
            y.len(),
            |i: int| y[i].s_sub(spec_sum(y).s_div(T::s_from_usize(y.len() as usize))).s_powi(2),
        ),
    )
}

/// A nonlinear fit of a model to `(x, y)` data by the simplex search, with
/// its configuration gathered fluently.
pub struct CurveFit<T: Scalar, M: Model<T>> {
    /// The model under fit.
    pub model: M,
    /// The x coordinates of the data.
    pub x_values: Vec<T>,
    /// The y coordinates of the data.
    pub y_values: Vec<T>,
    /// Per-point y errors, all one until `y_error` replaces them.
    pub yerr: Vec<T>,
    /// Where the simplex search starts.
    pub initial_point: Vec<T>,
    /// The convergence tolerance of the search.
    pub tolerance: T,
    /// An iteration cap, none by default.
    pub max_iterations: Option<usize>,
    /// The edge length of the starting simplex. A scale far smaller than the
    /// expected coefficients can mislead the fit.
    pub initial_simplex_scale: T,
}

impl<T: Scalar, M: Model<T>> CurveFit<T, M> {
    /// A fit of the model to the data given, with unit weights, a tolerance
    /// of one millionth, no iteration cap, a simplex scale of one half, and
    /// no starting point yet.
    pub fn new(model: M, x_values: Vec<T>, y_values: Vec<T>) -> (r: CurveFit<T, M>)
        ensures
            r.model == model,
            r.x_values@ == x_values@,
            r.y_values@ == y_values@,
            r.yerr@ == Seq::new(x_values@.len(), |i: int| T::s_one()),
            r.initial_point@ == Seq::<T>::empty(),
            r.tolerance == T::s_one().s_div(T::s_from_usize(1000000)),
            r.max_iterations is None,
            r.initial_simplex_scale == T::s_one().s_div(T::s_from_usize(2)),
    {
        let n = x_values.len();
        CurveFit {
            model,
            x_values,
            y_values,
            yerr: vec_of(n, T::one()),
            initial_point: Vec::new(),
            tolerance: T::one().div(T::from_usize(1000000)),
            max_iterations: None,
            initial_simplex_scale: T::one().div(T::from_usize(2)),
        }
    }

    /// The same fit, started at the point given.
    pub fn initial_point(self, initial_point: Vec<T>) -> (r: CurveFit<T, M>)
        ensures
            r.initial_point@ == initial_point@,
            r.model == self.model,
            r.x_values@ == self.x_values@,
            r.y_values@ == self.y_values@,
            r.yerr@ == self.yerr@,
            r.tolerance == self.tolerance,
            r.max_iterations == self.max_iterations,
            r.initial_simplex_scale == self.initial_simplex_scale,
    {
        CurveFit { initial_point, ..self }
    }

    /// The same fit, weighted by the y errors given.
    pub fn y_error(self, yerr: Vec<T>) -> (r: CurveFit<T, M>)
        ensures
            r.yerr@ == yerr@,
            r.model == self.model,
            r.x_values@ == self.x_values@,
            r.y_values@ == self.y_values@,
            r.initial_point@ == self.initial_point@,
            r.tolerance == self.tolerance,
            r.max_iterations == self.max_iterations,
            r.initial_simplex_scale == self.initial_simplex_scale,
    {
        CurveFit { yerr, ..self }
    }

    /// The same fit, stopping after at most the iterations given.
    pub fn max_iterations(self, max_iterations: Option<usize>) -> (r: CurveFit<T, M>)
        ensures
            r.max_iterations == max_iterations,
            r.model == self.model,
            r.x_values@ == self.x_values@,
            r.y_values@ == self.y_values@,
            r.yerr@ == self.yerr@,
            r.initial_point@ == self.initial_point@,
            r.tolerance == self.tolerance,
            r.initial_simplex_scale == self.initial_simplex_scale,
    {
        CurveFit { max_iterations, ..self }
    }

    /// The same fit, started at the origin of a space of the given dimension.
    pub fn initial_zeros(self, number_of_components: usize) -> (r: CurveFit<T, M>)
        ensures
            r.initial_point@ == Seq::new(number_of_components as nat, |i: int| T::s_zero()),
            r.model == self.model,
            r.x_values@ == self.x_values@,
            r.y_values@ == self.y_values@,
            r.yerr@ == self.yerr@,
            r.tolerance == self.tolerance,
            r.max_iterations == self.max_iterations,
            r.initial_simplex_scale == self.initial_simplex_scale,
    {
        let initial_point = vec_of(number_of_components, T::zero());
        CurveFit { initial_point, ..self }
    }

    /// The same fit, started at all ones in a space of the given dimension.
    pub fn initial_ones(self, number_of_components: usize) -> (r: CurveFit<T, M>)
        ensures
            r.initial_point@ == Seq::new(number_of_components as nat, |i: int| T::s_one()),
            r.model == self.model,
            r.x_values@ == self.x_values@,
            r.y_values@ == self.y_values@,
            r.yerr@ == self.yerr@,
            r.tolerance == self.tolerance,
            r.max_iterations == self.max_iterations,
            r.initial_simplex_scale == self.initial_simplex_scale,
    {
        let initial_point = vec_of(number_of_components, T::one());
        CurveFit { initial_point, ..self }
    }

    /// The same fit, converging under the tolerance given.
    pub fn tolerance(self, tol: T) -> (r: CurveFit<T, M>)
        ensures
            r.tolerance == tol,
            r.model == self.model,
            r.x_values@ == self.x_values@,
            r.y_values@ == self.y_values@,
            r.yerr@ == self.yerr@,
            r.initial_point@ == self.initial_point@,
            r.max_iterations == self.max_iterations,
            r.initial_simplex_scale == self.initial_simplex_scale,
    {
        CurveFit { tolerance: tol, ..self }
    }

    /// The same fit, its starting simplex scaled by the edge given.
    pub fn initial_simplex_scale(self, scale: T) -> (r: CurveFit<T, M>)
        ensures
            r.initial_simplex_scale == scale,
            r.model == self.model,
            r.x_values@ == self.x_values@,
            r.y_values@ == self.y_values@,
            r.yerr@ == self.yerr@,
            r.initial_point@ == self.initial_point@,
            r.tolerance == self.tolerance,
            r.max_iterations == self.max_iterations,
    {
        CurveFit { initial_simplex_scale: scale, ..self }
    }

    /// Fits the model to the data under every parameter established: one
    /// single-pair measure per coefficient, its value the fitted point
    /// estimate and its error the covariance estimate's standard error.
    pub fn fit(&self) -> (r: Vec<Measure<T>>)
        requires
            self.x_values@.len() == self.y_values@.len(),
            1 <= self.initial_point@.len() <= self.x_values@.len(),
        ensures
            r@.len() == self.initial_point@.len(),
            forall|i: int|
                0 <= i < r@.len() ==> (#[trigger] r@[i]).spec_len() == 1
                    && r@[i].spec_errors().len() == 1,
            exists|k: nat|
                curve_fit_post(
                    (Chi2 {
                        model: &self.model,
                        x: &self.x_values,
                        y: &self.y_values,
                        yerr: &self.yerr,
                    }),
                    self.initial_point@,
                    self.max_iterations,
                    self.tolerance,
                    self.initial_simplex_scale,
                    self.x_values@.len() as nat,
                    k,
                    r@,
                ),
    {
        curve_fit(
            &self.model,
            &self.x_values,
            &self.y_values,
            &self.yerr,
            &self.initial_point,
            self.max_iterations,
            self.tolerance,
            self.initial_simplex_scale,
        )
    }

    /// The coefficient of determination's square root for the fitted model:
    /// `sqrt(1 - ss_res / ss_total)` at the parameters a fresh fit returns.
    pub fn r_value(&self) -> (r: T)
        requires
            self.x_values@.len() == self.y_values@.len(),
            1 <= self.initial_point@.len() <= self.x_values@.len(),
        ensures
            exists|k: nat, params: Seq<T>|
                {
                    &&& #[trigger] nm_result(
                        (Chi2 {
                            model: &self.model,
                            x: &self.x_values,
                            y: &self.y_values,
                            yerr: &self.yerr,
                        }),
                        self.initial_point@,
                        self.max_iterations,
                        self.tolerance,
                        self.initial_simplex_scale,
                        k,
                        params,
                    )
                    &&& r == T::s_one().s_sub(
                        s_ss_res(self.model, self.x_values@, self.y_values@, params).s_div(
                            s_ss_total(self.y_values@),
                        ),
                    ).s_sqrt()
                },
    {
        let parameters = self.fit();
        let npar = parameters.len();
        let mut par: Vec<T> = Vec::new();
        for i in 0..npar
            invariant
                npar == parameters@.len(),
                forall|j: int|
                    0 <= j < npar ==> (#[trigger] parameters@[j]).spec_len() == 1,
                par@.len() == i,
                forall|j: int| 0 <= j < i ==> par@[j] == parameters@[j].spec_values()[0],
        {
            par.push(parameters[i].value()[0]);
        }

        let nx = self.x_values.len();
        let ny = self.y_values.len();
        let k2 = if nx < ny {
            nx
        } else {
            ny
        };
        let mut res_terms: Vec<T> = Vec::new();
        for i in 0..k2
            invariant
                nx == self.x_values@.len(),
                ny == self.y_values@.len(),
                k2 == vstd::math::min(nx as int, ny as int),
                res_terms@.len() == i,
                forall|j: int|
                    0 <= j < i ==> res_terms@[j] == self.y_values@[j].s_sub(
                        self.model.s_eval(self.x_values@[j], par@),
                    ).s_powi(2),
        {
            let e = self.model.eval(&self.x_values[i], &par);
            res_terms.push(self.y_values[i].sub(e).powi(2));
        }
        proof {
            assert(res_terms@ =~= Seq::new(
                vstd::math::min(self.x_values@.len() as int, self.y_values@.len() as int) as nat,
                |i: int| self.y_values@[i].s_sub(
                    self.model.s_eval(self.x_values@[i], par@),
                ).s_powi(2),
            ));
        }
        let ss_res = sum(&res_terms);

        let mean_y = sum(&self.y_values).div(T::from_usize(ny));
        let mut tot_terms: Vec<T> = Vec::new();
        for i in 0..ny
            invariant
                ny == self.y_values@.len(),
                mean_y == spec_sum(self.y_values@).s_div(
                    T::s_from_usize(self.y_values@.len() as usize),
                ),
                tot_terms@.len() == i,
                forall|j: int|
                    0 <= j < i ==> tot_terms@[j] == self.y_values@[j].s_sub(
                        spec_sum(self.y_values@).s_div(
                            T::s_from_usize(self.y_values@.len() as usize),
                        ),
                    ).s_powi(2),
        {
            tot_terms.push(self.y_values[i].sub(mean_y).powi(2));
        }
        proof {
            assert(tot_terms@ =~= Seq::new(
                self.y_values@.len(),
                |i: int| self.y_values@[i].s_sub(
                    spec_sum(self.y_values@).s_div(T::s_from_usize(self.y_values@.len() as usize)),
                ).s_powi(2),
            ));
        }
        let ss_total = sum(&tot_terms);

        let r = T::one().sub(ss_res.div(ss_total)).sqrt();
        proof {
            let chi2v = (Chi2 {
                model: &self.model,
                x: &self.x_values,
                y: &self.y_values,
                yerr: &self.yerr,
            });
            let k = choose|k: nat|
                curve_fit_post(
                    chi2v,
                    self.initial_point@,
                    self.max_iterations,
                    self.tolerance,
                    self.initial_simplex_scale,
                    self.x_values@.len() as nat,
                    k,
                    parameters@,
                );
            let params = choose|params: Seq<T>|
                {
                    &&& #[trigger] nm_result(
                        chi2v,
                        self.initial_point@,
                        self.max_iterations,
                        self.tolerance,
                        self.initial_simplex_scale,
                        k,
                        params,
                    )
                    &&& params.len() == self.initial_point@.len()
                    &&& parameters@.len() == self.initial_point@.len()
                    &&& forall|i: int|
                        0 <= i < parameters@.len() ==> {
                            &&& (#[trigger] parameters@[i]).spec_len() == 1
                            &&& parameters@[i].spec_errors().len() == 1
                            &&& parameters@[i].spec_style() == Style::PM
                            &&& parameters@[i].spec_values()[0] == params[i]
                            &&& parameters@[i].spec_errors()[0] == s_param_errors(
                                chi2v,
                                params,
                                self.x_values@.len() as nat,
                            )[i]
                        }
                };
            assert(par@ =~= params);
        }
        r
    }
}

/// A linear least-squares fit of `(x, y)` data, weighted when per-point
/// y errors are given.
pub struct LinearFit<T: Scalar> {
    /// The x coordinates of the data.
    pub x_values: Vec<T>,
    /// The y coordinates of the data.
    pub y_values: Vec<T>,
    /// Per-point y errors; given, they turn the fit into its weighted form.
    pub yerr: Option<Vec<T>>,
}

impl<T: Scalar> LinearFit<T> {
    /// A fit of the data given, unweighted until `y_error` supplies errors.
    pub fn new(x_values: Vec<T>, y_values: Vec<T>) -> (r: LinearFit<T>)
        ensures
            r.x_values@ == x_values@,
            r.y_values@ == y_values@,
            r.yerr is None,
    {
        LinearFit { x_values, y_values, yerr: None }
    }

    /// The same fit, weighted by the y errors given.
    pub fn y_error(self, yerr: Vec<T>) -> (r: LinearFit<T>)
        ensures
            r.x_values@ == self.x_values@,
            r.y_values@ == self.y_values@,
            r.yerr matches Some(e) && e@ == yerr@,
    {
        LinearFit { yerr: Some(yerr), ..self }
    }

    /// The slope and intercept of the least-squares line, each a single-pair
    /// measure: the weighted form when y errors were given, the ordinary
    /// form otherwise.
    pub fn fit(&self) -> (r: (Measure<T>, Measure<T>))
        requires
            self.x_values@.len() == self.y_values@.len(),
            self.yerr matches Some(e) ==> e@.len() == self.x_values@.len(),
        ensures
            r.0.spec_len() == 1 && r.0.spec_errors().len() == 1,
            r.1.spec_len() == 1 && r.1.spec_errors().len() == 1,
            r.0.spec_style() == Style::PM,
            r.1.spec_style() == Style::PM,
            self.yerr is None ==> {
                &&& r.0.spec_values()[0] == s_linfit(self.x_values@, self.y_values@).0
                &&& r.1.spec_values()[0] == s_linfit(self.x_values@, self.y_values@).1
                &&& r.0.spec_errors()[0] == s_linfit(self.x_values@, self.y_values@).2
                &&& r.1.spec_errors()[0] == s_linfit(self.x_values@, self.y_values@).3
            },
            self.yerr matches Some(e) ==> {
                &&& r.0.spec_values()[0] == s_wlinfit(self.x_values@, self.y_values@, e@).0
                &&& r.1.spec_values()[0] == s_wlinfit(self.x_values@, self.y_values@, e@).1
                &&& r.0.spec_errors()[0] == s_wlinfit(self.x_values@, self.y_values@, e@).2
                &&& r.1.spec_errors()[0] == s_wlinfit(self.x_values@, self.y_values@, e@).3
            },
    {
        match &self.yerr {
            Some(yerr) => wlinear_fit(&self.x_values, &self.y_values, yerr),
            None => linear_fit(&self.x_values, &self.y_values),
        }
    }

    /// Pearson's coefficient of linear correlation of the data.
    pub fn r_value(&self) -> (r: T)
        ensures
            r == s_pearson(self.x_values@, self.y_values@),
    {
        let x_mean = sum(&self.x_values).div(T::from_usize(self.x_values.len()));
        let y_mean = sum(&self.y_values).div(T::from_usize(self.y_values.len()));
        let nx = self.x_values.len();
        let ny = self.y_values.len();
        let mut xd: Vec<T> = Vec::new();
        let mut x2: Vec<T> = Vec::new();
        for i in 0..nx
            invariant
                nx == self.x_values@.len(),
                x_mean == spec_sum(self.x_values@).s_div(
                    T::s_from_usize(self.x_values@.len() as usize),
                ),
                xd@.len() == i,
                x2@.len() == i,
                forall|j: int| 0 <= j < i ==> xd@[j] == self.x_values@[j].s_sub(x_mean),
                forall|j: int| 0 <= j < i ==> x2@[j] == self.x_values@[j].s_sub(x_mean).s_powi(2),
        {
            let d = self.x_values[i].sub(x_mean);
            xd.push(d);
            x2.push(d.powi(2));
        }
        let mut yd: Vec<T> = Vec::new();
        let mut y2: Vec<T> = Vec::new();
        for i in 0..ny
            invariant
                ny == self.y_values@.len(),
                y_mean == spec_sum(self.y_values@).s_div(
                    T::s_from_usize(self.y_values@.len() as usize),
                ),
                yd@.len() == i,
                y2@.len() == i,
                forall|j: int| 0 <= j < i ==> yd@[j] == self.y_values@[j].s_sub(y_mean),
                forall|j: int| 0 <= j < i ==> y2@[j] == self.y_values@[j].s_sub(y_mean).s_powi(2),
        {
            let d = self.y_values[i].sub(y_mean);
            yd.push(d);
            y2.push(d.powi(2));
        }
        let sigma_x = sum(&x2);
        let sigma_y = sum(&y2);
        let k = if nx < ny {
            nx
        } else {
            ny
        };
        let mut prod: Vec<T> = Vec::new();
        for i in 0..k
            invariant
                nx == self.x_values@.len(),
                ny == self.y_values@.len(),
                k == vstd::math::min(nx as int, ny as int),
                xd@.len() == nx,
                yd@.len() == ny,
                forall|j: int| 0 <= j < nx ==> xd@[j] == self.x_values@[j].s_sub(
                    spec_sum(self.x_values@).s_div(T::s_from_usize(self.x_values@.len() as usize)),
                ),
                forall|j: int| 0 <= j < ny ==> yd@[j] == self.y_values@[j].s_sub(
                    spec_sum(self.y_values@).s_div(T::s_from_usize(self.y_values@.len() as usize)),
                ),
                prod@.len() == i,
                forall|j: int| 0 <= j < i ==> prod@[j] == xd@[j].s_mul(yd@[j]),
        {
            prod.push(xd[i].mul(yd[i]));
        }
        let r = sum(&prod).div(sigma_x.mul(sigma_y).sqrt());
        proof {
            let sxd = Seq::new(
                self.x_values@.len(),
                |i: int| self.x_values@[i].s_sub(
                    spec_sum(self.x_values@).s_div(T::s_from_usize(self.x_values@.len() as usize)),
                ),
            );
            let syd = Seq::new(
                self.y_values@.len(),
                |i: int| self.y_values@[i].s_sub(
                    spec_sum(self.y_values@).s_div(T::s_from_usize(self.y_values@.len() as usize)),
                ),
            );
            assert(xd@ =~= sxd);
            assert(yd@ =~= syd);
            assert(x2@ =~= Seq::new(sxd.len(), |i: int| sxd[i].s_powi(2)));
            assert(y2@ =~= Seq::new(syd.len(), |i: int| syd[i].s_powi(2)));
            assert(prod@ =~= Seq::new(
                vstd::math::min(sxd.len() as int, syd.len() as int) as nat,
                |i: int| sxd[i].s_mul(syd[i]),
            ));
        }
        r
    }
}

} // verus!
