use crate::definitions::{kind_valid, KernelKind};
use crate::kernel1d::{output_taps, Kernel1D};
use vstd::prelude::*;

verus! {

/// A separable 2D kernel: the weights of the x axis and of the y axis, from one
/// kernel. It is applied as a horizontal pass followed by a vertical pass.
pub struct Kernel2D {
    pub x: Kernel1D,
    pub y: Kernel1D,
}

impl Kernel2D {
    pub open spec fn wf(&self) -> bool {
        &&& self.x.wf()
        &&& self.y.wf()
        &&& self.x.kind_spec() == self.y.kind_spec()
    }

    /// The map from `from_size` (width, height) to `to_size` with the given kernel.
    pub open spec fn maps(&self, kind: KernelKind, from_size: (u32, u32), to_size: (u32, u32)) -> bool {
        &&& self.wf()
        &&& self.x.kind_spec() == kind
        &&& self.x.number_in_spec() == from_size.0
        &&& self.x.number_out_spec() == to_size.0
        &&& self.y.number_in_spec() == from_size.1
        &&& self.y.number_out_spec() == to_size.1
    }

    /// Builds the weights of both axes for a map from `from_size` (width,
    /// height) to `to_size`, with one kernel for both.
    pub fn new(kind: KernelKind, from_size: (u32, u32), to_size: (u32, u32)) -> (r: Self)
        requires
            kind_valid(kind, from_size.0 as int, to_size.0 as int),
            kind_valid(kind, from_size.1 as int, to_size.1 as int),
        ensures
            r.maps(kind, from_size, to_size),
    {
        Kernel2D {
            x: Kernel1D::new(kind, from_size.0, to_size.0),
            y: Kernel1D::new(kind, from_size.1, to_size.1),
        }
    }
}

/// `sum of w * f(i)` over the `(i, w)` pairs of a list of taps.
pub open spec fn weighted_sum(taps: Seq<(int, int)>, f: spec_fn(int) -> int) -> int
    decreases taps.len(),
{
    if taps.len() == 0 {
        0
    } else {
        weighted_sum(taps.drop_last(), f) + taps.last().1 * f(taps.last().0)
    }
}

/// `sum of w * g(x, y)` over the `((x, y), w)` pairs of a list of 2D taps.
pub open spec fn weighted_sum_2d(taps: Seq<((int, int), int)>, g: spec_fn(int, int) -> int) -> int
    decreases taps.len(),
{
    if taps.len() == 0 {
        0
    } else {
        weighted_sum_2d(taps.drop_last(), g) + taps.last().1 * g(taps.last().0.0, taps.last().0.1)
    }
}

/// The taps of `xs` at row `y`, each weight multiplied by `wy`.
pub open spec fn row_taps(xs: Seq<(int, int)>, y: int, wy: int) -> Seq<((int, int), int)> {
    xs.map_values(|t: (int, int)| ((t.0, y), t.1 * wy))
}

/// The tensor product of the taps of two axes: one 2D tap for each pair.
pub open spec fn tensor_taps(xs: Seq<(int, int)>, ys: Seq<(int, int)>) -> Seq<((int, int), int)>
    decreases ys.len(),
{
    if ys.len() == 0 {
        Seq::empty()
    } else {
        tensor_taps(xs, ys.drop_last()) + row_taps(xs, ys.last().0, ys.last().1)
    }
}

/// The horizontal pass then the vertical pass, before normalizing: each
/// column sample of the intermediate is the weighted sum of a source row.
pub open spec fn two_pass(xs: Seq<(int, int)>, ys: Seq<(int, int)>, g: spec_fn(int, int) -> int) -> int {
    weighted_sum(ys, |y: int| weighted_sum(xs, |x: int| g(x, y)))
}

proof fn lemma_sum_concat(a: Seq<((int, int), int)>, b: Seq<((int, int), int)>, g: spec_fn(int, int) -> int)
    ensures
        weighted_sum_2d(a + b, g) == weighted_sum_2d(a, g) + weighted_sum_2d(b, g),
    decreases b.len(),
{
    if b.len() > 0 {
        lemma_sum_concat(a, b.drop_last(), g);
        assert((a + b).drop_last() =~= a + b.drop_last());
    }
}

proof fn lemma_row_sum(xs: Seq<(int, int)>, y: int, wy: int, g: spec_fn(int, int) -> int)
    ensures
        weighted_sum_2d(row_taps(xs, y, wy), g) == wy * weighted_sum(xs, |x: int| g(x, y)),
    decreases xs.len(),
{
    if xs.len() > 0 {
        lemma_row_sum(xs.drop_last(), y, wy, g);
        assert(row_taps(xs, y, wy).drop_last() =~= row_taps(xs.drop_last(), y, wy));
        let f = |x: int| g(x, y);
        let rest = weighted_sum(xs.drop_last(), f);
        let t = xs.last();
        assert((t.1 * wy) * g(t.0, y) + wy * rest == wy * (rest + t.1 * g(t.0, y))) by (nonlinear_arith);
    }
}

/// Applying the x weights to each row and then the y weights to each column
/// gives, for every output sample, the direct 2D convolution with the tensor
/// product of the two axes' weights, on any samples `g`. Both are normalized by
/// the same product of the two totals.
pub proof fn lemma_separable_is_direct(
    kernel: &Kernel2D,
    x_out: int,
    y_out: int,
    g: spec_fn(int, int) -> int,
)
    requires
        kernel.wf(),
        0 <= x_out < kernel.x.number_out_spec(),
        0 <= y_out < kernel.y.number_out_spec(),
    ensures
        ({
            let xs = output_taps(kernel.x.kind_spec(), x_out, kernel.x.number_in_spec(), kernel.x.number_out_spec());
            let ys = output_taps(kernel.y.kind_spec(), y_out, kernel.y.number_in_spec(), kernel.y.number_out_spec());
            two_pass(xs, ys, g) == weighted_sum_2d(tensor_taps(xs, ys), g)
        }),
{
    let xs = output_taps(kernel.x.kind_spec(), x_out, kernel.x.number_in_spec(), kernel.x.number_out_spec());
    let ys = output_taps(kernel.y.kind_spec(), y_out, kernel.y.number_in_spec(), kernel.y.number_out_spec());
    lemma_tensor_sum(xs, ys, g);
}

proof fn lemma_tensor_sum(xs: Seq<(int, int)>, ys: Seq<(int, int)>, g: spec_fn(int, int) -> int)
    ensures
        two_pass(xs, ys, g) == weighted_sum_2d(tensor_taps(xs, ys), g),
    decreases ys.len(),
{
    if ys.len() > 0 {
        lemma_tensor_sum(xs, ys.drop_last(), g);
        let t = ys.last();
        lemma_sum_concat(tensor_taps(xs, ys.drop_last()), row_taps(xs, t.0, t.1), g);
        lemma_row_sum(xs, t.0, t.1, g);
        let inner = |y: int| weighted_sum(xs, |x: int| g(x, y));
        assert(inner(t.0) == weighted_sum(xs, |x: int| g(x, t.0)));
        assert(t.1 * inner(t.0) == t.1 * weighted_sum(xs, |x: int| g(x, t.0)));
    }
}

} // verus!
