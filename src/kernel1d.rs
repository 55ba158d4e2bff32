use crate::definitions::{
    kind_bounds, kind_first, kind_last, kind_valid, kind_weight, kind_weight_exec, magic_first,
    magic_offset, magic_value, max_int, weight_bound, KernelKind,
};
use vstd::arithmetic::div_mod::{
    lemma_fundamental_div_mod, lemma_fundamental_div_mod_converse, lemma_mod_bound,
};
use vstd::prelude::*;

verus! {

/// Sum of the weights of inputs `lo .. hi` for output `o`.
pub open spec fn window_sum(kind: KernelKind, o: int, n_in: int, n_out: int, lo: int, hi: int) -> int
    decreases hi - lo,
{
    if hi <= lo {
        0
    } else {
        window_sum(kind, o, n_in, n_out, lo, hi - 1) + kind_weight(kind, hi - 1, o, n_in, n_out)
    }
}

/// The `(input, weight)` pairs of inputs `lo .. hi` for output `o`, in order,
/// without those of weight zero.
pub open spec fn window_taps(kind: KernelKind, o: int, n_in: int, n_out: int, lo: int, hi: int) -> Seq<(int, int)>
    decreases hi - lo,
{
    if hi <= lo {
        Seq::empty()
    } else {
        let prev = window_taps(kind, o, n_in, n_out, lo, hi - 1);
        let w = kind_weight(kind, hi - 1, o, n_in, n_out);
        if w != 0 {
            prev.push((hi - 1, w))
        } else {
            prev
        }
    }
}

/// Last input of output `o`'s window once clamped to the inputs.
pub open spec fn clamped_last(kind: KernelKind, o: int, n_in: int, n_out: int) -> int {
    if kind_last(kind, o, n_in, n_out) < n_in - 1 {
        kind_last(kind, o, n_in, n_out)
    } else {
        n_in - 1
    }
}

/// The nonzero `(input, weight)` pairs of output `o` over its clamped window.
pub open spec fn output_taps(kind: KernelKind, o: int, n_in: int, n_out: int) -> Seq<(int, int)> {
    window_taps(kind, o, n_in, n_out, kind_first(kind, o, n_in, n_out), clamped_last(kind, o, n_in, n_out) + 1)
}

/// Sum of the weights of output `o` over its clamped window: the weights of
/// `output_taps` are normalized by it.
pub open spec fn output_total(kind: KernelKind, o: int, n_in: int, n_out: int) -> int {
    window_sum(kind, o, n_in, n_out, kind_first(kind, o, n_in, n_out), clamped_last(kind, o, n_in, n_out) + 1)
}

/// Sum of the weights of a list of taps.
pub open spec fn tap_sum(s: Seq<(int, int)>) -> int
    decreases s.len(),
{
    if s.len() == 0 {
        0
    } else {
        tap_sum(s.drop_last()) + s.last().1
    }
}

pub open spec fn taps_view(v: Seq<(u32, i128)>) -> Seq<(int, int)> {
    v.map_values(|t: (u32, i128)| (t.0 as int, t.1 as int))
}

/// The taps of one output: input `taps[j].0` has weight `taps[j].1 / total`.
pub struct TapList {
    pub taps: Vec<(u32, i128)>,
    pub total: i128,
}

/// What the list of output `o` holds.
pub open spec fn list_matches(kind: KernelKind, o: int, n_in: int, n_out: int, l: TapList) -> bool {
    &&& taps_view(l.taps@) == output_taps(kind, o, n_in, n_out)
    &&& l.total == output_total(kind, o, n_in, n_out)
    &&& l.total > 0
}

/// The weights of one axis: for each output index, its normalized taps.
pub struct Kernel1D {
    kind: KernelKind,
    number_in: u32,
    number_out: u32,
    weights_map: Vec<TapList>,
}

proof fn lemma_quotient_at_least(x: int, d: int, k: int)
    requires
        x >= d * k,
        d > 0,
    ensures
        x / d >= k,
{
    lemma_fundamental_div_mod(x, d);
    lemma_mod_bound(x, d);
    let q = x / d;
    let r = x % d;
    assert(q >= k) by (nonlinear_arith)
        requires
            x == d * q + r,
            r < d,
            x >= d * k,
            d > 0,
    ;
}

proof fn lemma_magic_nonneg(i: int, o: int, n_in: int, n_out: int)
    requires
        n_in >= 1,
        n_out >= 1,
    ensures
        kind_weight(KernelKind::Magic, i, o, n_in, n_out) >= 0,
{
    let u = magic_offset(i, o, n_in, n_out);
    let m = max_int(n_in, n_out);
    if u >= 3 * m {
    } else if u >= m {
        assert((3 * m - u) * (3 * m - u) >= 0) by (nonlinear_arith);
    } else {
        assert(6 * m * m - 2 * u * u > 0) by (nonlinear_arith)
            requires
                0 <= u < m,
        ;
    }
}

/// With no negative weights in `lo .. hi`, their sum is at least the weight at `k`.
proof fn lemma_sum_at_least_one(kind: KernelKind, o: int, n_in: int, n_out: int, lo: int, hi: int, k: int)
    requires
        lo <= k < hi,
        forall|i: int| lo <= i < hi ==> kind_weight(kind, i, o, n_in, n_out) >= 0,
    ensures
        window_sum(kind, o, n_in, n_out, lo, hi) >= kind_weight(kind, k, o, n_in, n_out),
    decreases hi - lo,
{
    if k < hi - 1 {
        lemma_sum_at_least_one(kind, o, n_in, n_out, lo, hi - 1, k);
    } else {
        lemma_sum_nonneg(kind, o, n_in, n_out, lo, hi - 1);
    }
}

proof fn lemma_sum_nonneg(kind: KernelKind, o: int, n_in: int, n_out: int, lo: int, hi: int)
    requires
        forall|i: int| lo <= i < hi ==> kind_weight(kind, i, o, n_in, n_out) >= 0,
    ensures
        window_sum(kind, o, n_in, n_out, lo, hi) >= 0,
    decreases hi - lo,
{
    if hi > lo {
        lemma_sum_nonneg(kind, o, n_in, n_out, lo, hi - 1);
    }
}

/// The input nearest to the centre of output `o` lies in its clamped window
/// and has a positive Magic Kernel weight.
proof fn lemma_magic_centre(o: int, n_in: int, n_out: int) -> (c: int)
    requires
        kind_valid(KernelKind::Magic, n_in, n_out),
        0 <= o < n_out,
    ensures
        magic_first(o, n_in, n_out) <= c <= clamped_last(KernelKind::Magic, o, n_in, n_out),
        kind_weight(KernelKind::Magic, c, o, n_in, n_out) > 0,
{
    let m = max_int(n_in, n_out);
    let t = (2 * o + 1) * n_in;
    let d = 2 * n_out;
    lemma_fundamental_div_mod(t, d);
    lemma_mod_bound(t, d);
    let c = t / d;
    let r = t % d;
    assert(t >= 0 && t < d * n_in) by (nonlinear_arith)
        requires
            t == (2 * o + 1) * n_in,
            0 <= o < n_out,
            d == 2 * n_out,
            n_in >= 1,
    ;
    assert(c >= 0 && c < n_in) by (nonlinear_arith)
        requires
            t == d * c + r,
            0 <= r < d,
            t >= 0,
            t < d * n_in,
    ;
    assert((2 * c + 1) * n_out == d * c + n_out) by (nonlinear_arith)
        requires
            d == 2 * n_out,
    ;
    let u = magic_offset(c, o, n_in, n_out);
    assert(u <= n_out);
    if u >= m {
        assert((3 * m - u) * (3 * m - u) > 0) by (nonlinear_arith)
            requires
                u < 3 * m,
        ;
    } else {
        assert(6 * m * m - 2 * u * u > 0) by (nonlinear_arith)
            requires
                0 <= u < m,
        ;
    }
    let a = 2 * t - 2 * n_out - 3 * m;
    if a >= 0 {
        lemma_fundamental_div_mod(a, 4 * n_out);
        lemma_mod_bound(a, 4 * n_out);
        let f = a / (4 * n_out);
        assert(f <= c) by (nonlinear_arith)
            requires
                a == (4 * n_out) * f + a % (4 * n_out),
                a % (4 * n_out) >= 0,
                a == 2 * t - 2 * n_out - 3 * m,
                t == d * c + r,
                0 <= r < d,
                d == 2 * n_out,
                m >= n_out,
                n_out >= 1,
        ;
    }
    let b = 2 * t - 2 * n_out + 3 * m;
    assert((4 * n_out) * c == 2 * (d * c)) by (nonlinear_arith)
        requires
            d == 2 * n_out,
    ;
    assert(b + 4 * n_out - 1 >= (4 * n_out) * c);
    lemma_quotient_at_least(b + 4 * n_out - 1, 4 * n_out, c);
    c
}

/// Every output's window has a positive total weight, so normalizing by it is defined.
pub proof fn lemma_total_positive(kind: KernelKind, o: int, n_in: int, n_out: int)
    requires
        kind_valid(kind, n_in, n_out),
        0 <= o < n_out,
    ensures
        output_total(kind, o, n_in, n_out) > 0,
{
    let lo = kind_first(kind, o, n_in, n_out);
    let hi = clamped_last(kind, o, n_in, n_out) + 1;
    match kind {
        KernelKind::Magic => {
            let c = lemma_magic_centre(o, n_in, n_out);
            assert forall|i: int| lo <= i < hi implies kind_weight(kind, i, o, n_in, n_out) >= 0 by {
                lemma_magic_nonneg(i, o, n_in, n_out);
            }
            lemma_sum_at_least_one(kind, o, n_in, n_out, lo, hi, c);
        },
        KernelKind::Sharp2013 => {
            reveal_with_fuel(window_sum, 4);
        },
        KernelKind::Sharp2021 => {
            lemma_sum_at_least_one(kind, o, n_in, n_out, lo, hi, o);
        },
    }
}

proof fn lemma_tap_sum(kind: KernelKind, o: int, n_in: int, n_out: int, lo: int, hi: int)
    ensures
        tap_sum(window_taps(kind, o, n_in, n_out, lo, hi)) == window_sum(kind, o, n_in, n_out, lo, hi),
    decreases hi - lo,
{
    if hi > lo {
        lemma_tap_sum(kind, o, n_in, n_out, lo, hi - 1);
        let prev = window_taps(kind, o, n_in, n_out, lo, hi - 1);
        let w = kind_weight(kind, hi - 1, o, n_in, n_out);
        if w != 0 {
            assert(prev.push((hi - 1, w)).drop_last() =~= prev);
        }
    }
}

proof fn lemma_taps_shape(kind: KernelKind, o: int, n_in: int, n_out: int, lo: int, hi: int)
    ensures
        forall|j: int|
            0 <= j < window_taps(kind, o, n_in, n_out, lo, hi).len() ==> {
                let t = #[trigger] window_taps(kind, o, n_in, n_out, lo, hi)[j];
                &&& lo <= t.0 < hi
                &&& t.1 != 0
                &&& t.1 == kind_weight(kind, t.0, o, n_in, n_out)
            },
    decreases hi - lo,
{
    if hi > lo {
        lemma_taps_shape(kind, o, n_in, n_out, lo, hi - 1);
        let prev = window_taps(kind, o, n_in, n_out, lo, hi - 1);
        let cur = window_taps(kind, o, n_in, n_out, lo, hi);
        assert forall|j: int| 0 <= j < cur.len() implies {
            let t = #[trigger] cur[j];
            &&& lo <= t.0 < hi
            &&& t.1 != 0
            &&& t.1 == kind_weight(kind, t.0, o, n_in, n_out)
        } by {
            if j < prev.len() {
                assert(cur[j] == prev[j]);
            }
        }
    }
}

/// The weights of each output's list sum to exactly one: the numerators add up
/// to the total that they are divided by, and that total is positive.
/// Every listed input lies in `[0, n_in)` and has a nonzero weight.
pub proof fn lemma_weights_sum_to_one(kind: KernelKind, o: int, n_in: int, n_out: int)
    requires
        kind_valid(kind, n_in, n_out),
        0 <= o < n_out,
    ensures
        tap_sum(output_taps(kind, o, n_in, n_out)) == output_total(kind, o, n_in, n_out),
        output_total(kind, o, n_in, n_out) > 0,
        forall|j: int|
            0 <= j < output_taps(kind, o, n_in, n_out).len() ==> {
                let t = #[trigger] output_taps(kind, o, n_in, n_out)[j];
                &&& 0 <= t.0 < n_in
                &&& t.1 != 0
            },
{
    let lo = kind_first(kind, o, n_in, n_out);
    let hi = clamped_last(kind, o, n_in, n_out) + 1;
    lemma_tap_sum(kind, o, n_in, n_out, lo, hi);
    lemma_total_positive(kind, o, n_in, n_out);
    lemma_taps_shape(kind, o, n_in, n_out, lo, hi);
}

/// The correction kernels' windows hold only the distances that they define
/// weights for: at most 1 from the output for kernel A, at most 2 for kernel B.
/// Their weights are the kernels' own constants.
pub proof fn lemma_correction_distances(kind: KernelKind, o: int, n: int)
    requires
        kind == KernelKind::Sharp2013 || kind == KernelKind::Sharp2021,
        kind_valid(kind, n, n),
        0 <= o < n,
    ensures
        forall|j: int|
            0 <= j < output_taps(kind, o, n, n).len() ==> {
                let t = #[trigger] output_taps(kind, o, n, n)[j];
                &&& kind == KernelKind::Sharp2013 ==> o - 1 <= t.0 <= o + 1
                &&& kind == KernelKind::Sharp2021 ==> o - 2 <= t.0 <= o + 2
                &&& t.1 == kind_weight(kind, t.0, o, n, n)
            },
{
    let lo = kind_first(kind, o, n, n);
    let hi = clamped_last(kind, o, n, n) + 1;
    lemma_taps_shape(kind, o, n, n, lo, hi);
}

/// At unity scale the resampling kernel gives each interior output `o` the
/// taps `o - 1`, `o`, `o + 1` with weights 1/8, 3/4, 1/8: a symmetric window
/// whose weighted mean position is `o` itself, so that samples that vary
/// linearly around `o` come out unchanged.
pub proof fn lemma_unity_interior(n: int, o: int)
    requires
        kind_valid(KernelKind::Magic, n, n),
        1 <= o <= n - 2,
    ensures
        output_taps(KernelKind::Magic, o, n, n) == seq![(o - 1, n * n), (o, 6 * (n * n)), (o + 1, n * n)],
        output_total(KernelKind::Magic, o, n, n) == 8 * (n * n),
        (o - 1) * (n * n) + o * (6 * (n * n)) + (o + 1) * (n * n) == o * output_total(KernelKind::Magic, o, n, n),
{
    let m = max_int(n, n);
    assert(2 * ((2 * o + 1) * n) - 2 * n - 3 * m == (4 * n) * (o - 1) + n) by (nonlinear_arith)
        requires
            m == n,
    ;
    assert((4 * n) * (o - 1) + n >= 0) by (nonlinear_arith)
        requires
            o >= 1,
            n >= 1,
    ;
    lemma_fundamental_div_mod_converse((4 * n) * (o - 1) + n, 4 * n, o - 1, n);
    assert(kind_first(KernelKind::Magic, o, n, n) == o - 1);
    assert(2 * ((2 * o + 1) * n) - 2 * n + 3 * m + 4 * n - 1 == (4 * n) * (o + 1) + 3 * n - 1)
        by (nonlinear_arith)
        requires
            m == n,
    ;
    lemma_fundamental_div_mod_converse((4 * n) * (o + 1) + 3 * n - 1, 4 * n, o + 1, 3 * n - 1);
    assert(kind_last(KernelKind::Magic, o, n, n) == o + 1);
    assert(clamped_last(KernelKind::Magic, o, n, n) == o + 1);
    assert((2 * (o - 1) + 1) * n - (2 * o + 1) * n == -2 * n) by (nonlinear_arith);
    assert((2 * o + 1) * n - (2 * o + 1) * n == 0);
    assert((2 * (o + 1) + 1) * n - (2 * o + 1) * n == 2 * n) by (nonlinear_arith);
    assert(magic_value(2 * n, n) == n * n) by (nonlinear_arith)
        requires
            n >= 1,
    ;
    assert(magic_value(0, n) == 6 * (n * n)) by (nonlinear_arith)
        requires
            n >= 1,
    ;
    assert(n * n > 0) by (nonlinear_arith)
        requires
            n >= 1,
    ;
    reveal_with_fuel(window_taps, 4);
    reveal_with_fuel(window_sum, 4);
    assert(output_taps(KernelKind::Magic, o, n, n) =~= seq![(o - 1, n * n), (o, 6 * (n * n)), (o + 1, n * n)]);
    assert((o - 1) * (n * n) + o * (6 * (n * n)) + (o + 1) * (n * n) == o * (8 * (n * n))) by (nonlinear_arith);
}

/// Builds the taps of output `out`.
fn build_list(kind: KernelKind, out: u32, number_in: u32, number_out: u32) -> (r: TapList)
    requires
        kind_valid(kind, number_in as int, number_out as int),
        out < number_out,
    ensures
        list_matches(kind, out as int, number_in as int, number_out as int, r),
{
    let ghost (o, n_in, n_out) = (out as int, number_in as int, number_out as int);
    let (first, last) = kind_bounds(kind, out, number_in, number_out);
    let hi: u64 = if last < number_in as u64 - 1 {
        last
    } else {
        number_in as u64 - 1
    };
    let ghost bound = weight_bound(n_in, n_out);
    proof {
        let m = max_int(n_in, n_out);
        assert(bound <= 36 * (0xffff_ffff * 0xffff_ffff)) by (nonlinear_arith)
            requires
                bound == 36 * (m * m),
                1 <= m <= 0xffff_ffff,
        ;
    }
    let mut taps: Vec<(u32, i128)> = Vec::new();
    let mut total: i128 = 0;
    let mut i: u64 = first;
    proof {
        if kind == KernelKind::Magic {
            lemma_magic_centre(o, n_in, n_out);
        }
        assert(taps_view(taps@) =~= Seq::empty());
        assert((i - first) * bound == 0) by (nonlinear_arith)
            requires
                i == first,
        ;
    }
    while i <= hi
        invariant
            kind_valid(kind, n_in, n_out),
            o == out,
            n_in == number_in,
            n_out == number_out,
            out < number_out,
            first == kind_first(kind, o, n_in, n_out),
            last == kind_last(kind, o, n_in, n_out),
            hi == clamped_last(kind, o, n_in, n_out),
            hi < number_in,
            first <= i <= hi + 1,
            bound == weight_bound(n_in, n_out),
            bound <= 36 * (0xffff_ffff * 0xffff_ffff),
            taps_view(taps@) == window_taps(kind, o, n_in, n_out, first as int, i as int),
            total == window_sum(kind, o, n_in, n_out, first as int, i as int),
            -((i - first) * bound) <= total <= (i - first) * bound,
        decreases hi + 1 - i,
    {
        let w = kind_weight_exec(kind, i as u32, out, number_in, number_out);
        proof {
            let k = i - first;
            assert((k + 1) * bound == k * bound + bound) by (nonlinear_arith);
            assert((k + 1) * bound <= 0x1_0000_0000 * (36 * (0xffff_ffff * 0xffff_ffff)))
                by (nonlinear_arith)
                requires
                    0 <= k + 1 <= 0x1_0000_0000,
                    0 <= bound <= 36 * (0xffff_ffff * 0xffff_ffff),
            ;
        }
        total = total + w;
        if w != 0 {
            let ghost old_taps = taps@;
            taps.push((i as u32, w));
            assert(taps_view(taps@) =~= taps_view(old_taps).push((i as int, w as int)));
        }
        i = i + 1;
    }
    proof {
        lemma_total_positive(kind, o, n_in, n_out);
    }
    TapList { taps, total }
}

impl Kernel1D {
    /// Each output index `o < number_out` has its list, built as `output_taps` and `output_total` say.
    pub closed spec fn wf(&self) -> bool {
        &&& kind_valid(self.kind_spec(), self.number_in_spec(), self.number_out_spec())
        &&& self.weights_map.len() == self.number_out
        &&& forall|o: int|
            0 <= o < self.number_out_spec() ==> list_matches(
                self.kind_spec(),
                o,
                self.number_in_spec(),
                self.number_out_spec(),
                #[trigger] self.entry(o),
            )
    }

    pub closed spec fn kind_spec(&self) -> KernelKind {
        self.kind
    }

    pub closed spec fn number_in_spec(&self) -> int {
        self.number_in as int
    }

    pub closed spec fn number_out_spec(&self) -> int {
        self.number_out as int
    }

    /// The list of output `o`.
    pub closed spec fn entry(&self, o: int) -> TapList {
        self.weights_map@[o]
    }

    /// Builds the weights of an axis that maps `number_in` inputs onto
    /// `number_out` outputs with the given kernel, at scale factor `number_out / number_in`.
    pub fn new(kind: KernelKind, number_in: u32, number_out: u32) -> (r: Self)
        requires
            kind_valid(kind, number_in as int, number_out as int),
        ensures
            r.wf(),
            r.kind_spec() == kind,
            r.number_in_spec() == number_in,
            r.number_out_spec() == number_out,
    {
        let mut weights_map: Vec<TapList> = Vec::new();
        let mut out: u32 = 0;
        while out < number_out
            invariant
                kind_valid(kind, number_in as int, number_out as int),
                out <= number_out,
                weights_map.len() == out,
                forall|o: int|
                    0 <= o < out ==> list_matches(
                        kind,
                        o,
                        number_in as int,
                        number_out as int,
                        #[trigger] weights_map@[o],
                    ),
            decreases number_out - out,
        {
            let list = build_list(kind, out, number_in, number_out);
            weights_map.push(list);
            out = out + 1;
        }
        let r = Kernel1D { kind, number_in, number_out, weights_map };
        assert forall|o: int| 0 <= o < number_out implies list_matches(
            kind,
            o,
            number_in as int,
            number_out as int,
            #[trigger] r.entry(o),
        ) by {
            assert(r.entry(o) == weights_map@[o]);
        }
        r
    }

    /// The kernel that the weights come from.
    pub fn kind(&self) -> (r: KernelKind)
        ensures
            r == self.kind_spec(),
    {
        self.kind
    }

    /// The number of inputs.
    pub fn number_in(&self) -> (r: u32)
        ensures
            r == self.number_in_spec(),
    {
        self.number_in
    }

    /// The number of outputs.
    pub fn number_out(&self) -> (r: u32)
        ensures
            r == self.number_out_spec(),
    {
        self.number_out
    }

    /// The taps of output `out`.
    pub fn taps(&self, out: u32) -> (r: &TapList)
        requires
            self.wf(),
            out < self.number_out_spec(),
        ensures
            *r == self.entry(out as int),
            list_matches(self.kind_spec(), out as int, self.number_in_spec(), self.number_out_spec(), *r),
    {
        assert(list_matches(
            self.kind_spec(),
            out as int,
            self.number_in_spec(),
            self.number_out_spec(),
            self.entry(out as int),
        ));
        &self.weights_map[out as usize]
    }
}

} // verus!
