use vstd::arithmetic::div_mod::{lemma_fundamental_div_mod, lemma_mod_bound};
use vstd::prelude::*;

verus! {

pub open spec fn max_int(a: int, b: int) -> int {
    if a >= b {
        a
    } else {
        b
    }
}

pub open spec fn abs_int(a: int) -> int {
    if a >= 0 {
        a
    } else {
        -a
    }
}

/// Distance between input sample `i` and output sample `o`, measured on the
/// grid of unit spacing (the output grid when enlarging, the input grid when
/// reducing), in units of `1 / (2 * max(n_in, n_out))`.
///
/// When enlarging, `x = i - in_from_out(o)` with `in_from_out(o) = (o + 1/2) * n_in / n_out - 1/2`;
/// when reducing, `x = o - out_from_in(i)` with `out_from_in(i) = (i + 1/2) * n_out / n_in - 1/2`.
/// In both cases `|x| * 2 * max(n_in, n_out) == |(2i + 1) * n_out - (2o + 1) * n_in|`.
pub open spec fn magic_offset(i: int, o: int, n_in: int, n_out: int) -> int {
    abs_int((2 * i + 1) * n_out - (2 * o + 1) * n_in)
}

/// The Magic Kernel `K(x)` at `|x| = u / (2m)`, multiplied by `8 m^2`:
/// `K` is `0` for `|x| >= 3/2`, `(|x| - 3/2)^2 / 2` for `1/2 <= |x| < 3/2`,
/// and `3/4 - x^2` for `|x| < 1/2`.
pub open spec fn magic_value(u: int, m: int) -> int {
    if u >= 3 * m {
        0
    } else if u >= m {
        (3 * m - u) * (3 * m - u)
    } else {
        6 * m * m - 2 * u * u
    }
}

/// Weight of input `i` for output `o` in units of `1 / magic_denominator(n_in, n_out)`.
pub open spec fn magic_weight(i: int, o: int, n_in: int, n_out: int) -> int {
    magic_value(magic_offset(i, o, n_in, n_out), max_int(n_in, n_out))
}

/// `8 m^2` with `m = max(n_in, n_out)`: the common denominator of all Magic Kernel weights.
pub open spec fn magic_denominator(n_in: int, n_out: int) -> int {
    8 * max_int(n_in, n_out) * max_int(n_in, n_out)
}

/// `floor(c - d)` with `c = in_from_out(o)` and `d = (3/4) / min(n_out / n_in, 1)`,
/// given as 0 where it is negative.
pub open spec fn magic_first(o: int, n_in: int, n_out: int) -> int {
    let a = 2 * ((2 * o + 1) * n_in) - 2 * n_out - 3 * max_int(n_in, n_out);
    if a < 0 {
        0
    } else {
        a / (4 * n_out)
    }
}

/// `ceil(c + d)` with `c` and `d` as for `magic_first`.
pub open spec fn magic_last(o: int, n_in: int, n_out: int) -> int {
    let a = 2 * ((2 * o + 1) * n_in) - 2 * n_out + 3 * max_int(n_in, n_out);
    (a + 4 * n_out - 1) / (4 * n_out)
}

/// Weight of sharpening correction kernel A at distance `d`, in units of 1/4:
/// 3/2 at distance 0 and -1/4 at distance 1.
pub open spec fn sharp2013_weight(d: int) -> int {
    if d == 0 {
        6
    } else {
        -1
    }
}

/// Weight of sharpening correction kernel B at distance `d`, in units of 1/36:
/// 17/18 at distance 0, 0 at distance 1 and 1/36 at distance 2.
pub open spec fn sharp2021_weight(d: int) -> int {
    if d == 0 {
        34
    } else if d == 1 {
        0
    } else {
        1
    }
}

/// The general resampling kernel (the Magic Kernel).
pub struct MagicKernel;

/// Sharpening correction kernel A: three taps, used at unity scale only.
pub struct Sharp2013;

/// Sharpening correction kernel B: five taps, used at unity scale only.
pub struct Sharp2021;

proof fn lemma_quotient_below(x: int, d: int, k: int)
    requires
        0 <= x < d * k,
        d > 0,
    ensures
        0 <= x / d < k,
{
    lemma_fundamental_div_mod(x, d);
    lemma_mod_bound(x, d);
    let q = x / d;
    let r = x % d;
    assert(0 <= q) by (nonlinear_arith)
        requires
            x == d * q + r,
            0 <= r < d,
            x >= 0,
    ;
    assert(q < k) by (nonlinear_arith)
        requires
            x == d * q + r,
            0 <= r,
            x < d * k,
            d > 0,
    ;
}

impl MagicKernel {
    /// The inclusive window of inputs that output `out` reads, before clamping
    /// to `[0, number_in - 1]`; a start below zero is given as 0.
    pub fn bounds(out: u32, number_in: u32, number_out: u32) -> (r: (u64, u64))
        requires
            number_in >= 1,
            number_out >= 1,
            out < number_out,
        ensures
            r.0 == magic_first(out as int, number_in as int, number_out as int),
            r.1 == magic_last(out as int, number_in as int, number_out as int),
            r.1 <= 2 * number_in + 1,
            r.0 < number_in,
    {
        let o = out as u128;
        let n_in = number_in as u128;
        let n_out = number_out as u128;
        let m: u128 = if n_in >= n_out {
            n_in
        } else {
            n_out
        };
        proof {
            assert((2 * o + 1) * n_in <= (2 * n_out - 1) * n_in) by (nonlinear_arith)
                requires
                    o < n_out,
            ;
            assert((2 * n_out - 1) * n_in <= 0x1_0000_0000 * 0x2_0000_0000) by (nonlinear_arith)
                requires
                    n_out <= 0xffff_ffff,
                    n_in <= 0xffff_ffff,
            ;
            assert(m <= n_in * n_out) by (nonlinear_arith)
                requires
                    m == n_in || m == n_out,
                    n_in >= 1,
                    n_out >= 1,
            ;
            assert((2 * o + 1) * n_in >= n_in) by (nonlinear_arith);
        }
        let t = (2 * o + 1) * n_in;
        let four_out = 4 * n_out;
        let low = 2 * n_out + 3 * m;
        let first: u128 = if 2 * t < low {
            0
        } else {
            (2 * t - low) / four_out
        };
        let high = 2 * t + 3 * m + four_out - 1 - 2 * n_out;
        proof {
            let k = 2 * n_in + 1;
            assert(high < four_out * k) by (nonlinear_arith)
                requires
                    high == 2 * t + 3 * m + four_out - 1 - 2 * n_out,
                    t <= (2 * n_out - 1) * n_in,
                    m <= n_in * n_out,
                    four_out == 4 * n_out,
                    k == 2 * n_in + 1,
                    n_out >= 1,
            ;
            lemma_quotient_below(high as int, four_out as int, k as int);
            if 2 * t >= low {
                assert(2 * t - low < four_out * n_in) by (nonlinear_arith)
                    requires
                        t <= (2 * n_out - 1) * n_in,
                        four_out == 4 * n_out,
                        low >= 0,
                        n_in >= 1,
                ;
                lemma_quotient_below((2 * t - low) as int, four_out as int, n_in as int);
            }
        }
        let last = high / four_out;
        (first as u64, last as u64)
    }

    /// Weight of input `in_` for output `out`, in units of
    /// `1 / magic_denominator(number_in, number_out)`; the scale factor is
    /// `number_out / number_in`.
    pub fn weight(in_: u32, out: u32, number_in: u32, number_out: u32) -> (r: i128)
        ensures
            r == magic_weight(in_ as int, out as int, number_in as int, number_out as int),
            0 <= r <= 6 * max_int(number_in as int, number_out as int) * max_int(
                number_in as int,
                number_out as int,
            ),
    {
        proof {
            assert((2 * in_ as int + 1) * number_out as int <= 0x2_0000_0000 * 0x1_0000_0000)
                by (nonlinear_arith)
                requires
                    in_ <= 0xffff_ffff,
                    number_out <= 0xffff_ffff,
                    number_out >= 0,
            ;
            assert((2 * out as int + 1) * number_in as int <= 0x2_0000_0000 * 0x1_0000_0000)
                by (nonlinear_arith)
                requires
                    out <= 0xffff_ffff,
                    number_in <= 0xffff_ffff,
                    number_in >= 0,
            ;
            assert((2 * in_ as int + 1) * number_out as int >= 0) by (nonlinear_arith);
            assert((2 * out as int + 1) * number_in as int >= 0) by (nonlinear_arith);
        }
        let a = (2 * in_ as i128 + 1) * number_out as i128;
        let b = (2 * out as i128 + 1) * number_in as i128;
        let u: i128 = if a >= b {
            a - b
        } else {
            b - a
        };
        let m: i128 = if number_in >= number_out {
            number_in as i128
        } else {
            number_out as i128
        };
        proof {
            assert(m * m <= 0xffff_ffff * 0xffff_ffff) by (nonlinear_arith)
                requires
                    0 <= m <= 0xffff_ffff,
            ;
        }
        let mm = m * m;
        if u >= 3 * m {
            0
        } else if u >= m {
            let v = 3 * m - u;
            proof {
                assert(0 <= v * v <= 6 * m * m) by (nonlinear_arith)
                    requires
                        0 < v <= 2 * m,
                ;
                assert(v * v <= 4 * mm) by (nonlinear_arith)
                    requires
                        0 < v <= 2 * m,
                        mm == m * m,
                ;
            }
            v * v
        } else {
            proof {
                assert(u * u <= m * m) by (nonlinear_arith)
                    requires
                        0 <= u < m,
                ;
            }
            let uu = u * u;
            proof {
                assert(6 * m * m == 6 * mm) by (nonlinear_arith)
                    requires
                        mm == m * m,
                ;
                assert(2 * u * u == 2 * uu) by (nonlinear_arith)
                    requires
                        uu == u * u,
                ;
                assert(0 <= 6 * mm - 2 * uu <= 6 * m * m) by (nonlinear_arith)
                    requires
                        uu == u * u,
                        mm == m * m,
                        0 <= u < m,
                ;
            }
            6 * mm - 2 * uu
        }
    }

    /// The common denominator `8 m^2`, `m = max(number_in, number_out)`, of the
    /// weights given by `weight`.
    pub fn denominator(number_in: u32, number_out: u32) -> (r: i128)
        ensures
            r == magic_denominator(number_in as int, number_out as int),
    {
        let m: i128 = if number_in >= number_out {
            number_in as i128
        } else {
            number_out as i128
        };
        proof {
            assert(m * m <= 0xffff_ffff * 0xffff_ffff) by (nonlinear_arith)
                requires
                    0 <= m <= 0xffff_ffff,
            ;
        }
        let mm = m * m;
        proof {
            assert(8 * m * m == 8 * mm) by (nonlinear_arith)
                requires
                    mm == m * m,
            ;
        }
        8 * mm
    }
}

impl Sharp2013 {
    /// The inclusive window `[max(out - 1, 0), out + 1]` of inputs that output `out` reads.
    pub fn bounds(out: u32) -> (r: (u64, u64))
        ensures
            r.0 == max_int(out - 1, 0),
            r.1 == out + 1,
    {
        let first: u64 = if out == 0 {
            0
        } else {
            out as u64 - 1
        };
        (first, out as u64 + 1)
    }

    /// Weight of input `in_` for output `out`, in units of 1/4.
    /// Only distances 0 and 1 belong to this kernel.
    pub fn weight(in_: u32, out: u32) -> (r: i128)
        requires
            abs_int(in_ - out) <= 1,
        ensures
            r == sharp2013_weight(abs_int(in_ - out)),
            in_ == out ==> 2 * r == 3 * Self::denominator_spec(),
            in_ != out ==> -4 * r == Self::denominator_spec(),
    {
        if in_ == out {
            6
        } else {
            -1
        }
    }

    pub open spec fn denominator_spec() -> int {
        4
    }

    /// The common denominator of the weights given by `weight`.
    pub fn denominator() -> (r: i128)
        ensures
            r == Self::denominator_spec(),
    {
        4
    }
}

impl Sharp2021 {
    /// The inclusive window `[max(out - 2, 0), out + 2]` of inputs that output `out` reads.
    pub fn bounds(out: u32) -> (r: (u64, u64))
        ensures
            r.0 == max_int(out - 2, 0),
            r.1 == out + 2,
    {
        let first: u64 = if out < 2 {
            0
        } else {
            out as u64 - 2
        };
        (first, out as u64 + 2)
    }

    /// Weight of input `in_` for output `out`, in units of 1/36.
    /// Only distances 0, 1 and 2 belong to this kernel.
    pub fn weight(in_: u32, out: u32) -> (r: i128)
        requires
            abs_int(in_ - out) <= 2,
        ensures
            r == sharp2021_weight(abs_int(in_ - out)),
            abs_int(in_ - out) == 0 ==> 18 * r == 17 * Self::denominator_spec(),
            abs_int(in_ - out) == 1 ==> r == 0,
            abs_int(in_ - out) == 2 ==> 36 * r == Self::denominator_spec(),
    {
        let d: u32 = if in_ >= out {
            in_ - out
        } else {
            out - in_
        };
        if d == 0 {
            34
        } else if d == 1 {
            0
        } else {
            1
        }
    }

    pub open spec fn denominator_spec() -> int {
        36
    }

    /// The common denominator of the weights given by `weight`.
    pub fn denominator() -> (r: i128)
        ensures
            r == Self::denominator_spec(),
    {
        36
    }
}

/// The kernel that a weight map is built from: chosen once per map.
#[derive(Clone, Copy, Debug, PartialEq, Eq, Structural)]
pub enum KernelKind {
    Magic,
    Sharp2013,
    Sharp2021,
}

/// Sizes that a kernel can map between: both at least 1, and equal for the
/// correction kernels, which work at unity scale only.
pub open spec fn kind_valid(kind: KernelKind, n_in: int, n_out: int) -> bool {
    &&& 1 <= n_in <= u32::MAX
    &&& 1 <= n_out <= u32::MAX
    &&& (kind != KernelKind::Magic ==> n_in == n_out)
}

/// First input of output `o`'s window, before clamping to the inputs.
pub open spec fn kind_first(kind: KernelKind, o: int, n_in: int, n_out: int) -> int {
    match kind {
        KernelKind::Magic => magic_first(o, n_in, n_out),
        KernelKind::Sharp2013 => max_int(o - 1, 0),
        KernelKind::Sharp2021 => max_int(o - 2, 0),
    }
}

/// Last input of output `o`'s window, before clamping to the inputs.
pub open spec fn kind_last(kind: KernelKind, o: int, n_in: int, n_out: int) -> int {
    match kind {
        KernelKind::Magic => magic_last(o, n_in, n_out),
        KernelKind::Sharp2013 => o + 1,
        KernelKind::Sharp2021 => o + 2,
    }
}

/// Weight of input `i` for output `o`, over the kernel's own denominator.
pub open spec fn kind_weight(kind: KernelKind, i: int, o: int, n_in: int, n_out: int) -> int {
    match kind {
        KernelKind::Magic => magic_weight(i, o, n_in, n_out),
        KernelKind::Sharp2013 => sharp2013_weight(abs_int(i - o)),
        KernelKind::Sharp2021 => sharp2021_weight(abs_int(i - o)),
    }
}

/// A bound on the size of every weight that a kernel gives between these sizes.
pub open spec fn weight_bound(n_in: int, n_out: int) -> int {
    36 * (max_int(n_in, n_out) * max_int(n_in, n_out))
}

pub fn kind_bounds(kind: KernelKind, out: u32, number_in: u32, number_out: u32) -> (r: (u64, u64))
    requires
        kind_valid(kind, number_in as int, number_out as int),
        out < number_out,
    ensures
        r.0 == kind_first(kind, out as int, number_in as int, number_out as int),
        r.1 == kind_last(kind, out as int, number_in as int, number_out as int),
        r.0 < number_in,
{
    match kind {
        KernelKind::Magic => MagicKernel::bounds(out, number_in, number_out),
        KernelKind::Sharp2013 => Sharp2013::bounds(out),
        KernelKind::Sharp2021 => Sharp2021::bounds(out),
    }
}

pub fn kind_weight_exec(kind: KernelKind, in_: u32, out: u32, number_in: u32, number_out: u32) -> (r: i128)
    requires
        kind_valid(kind, number_in as int, number_out as int),
        kind_first(kind, out as int, number_in as int, number_out as int) <= in_
            <= kind_last(kind, out as int, number_in as int, number_out as int),
    ensures
        r == kind_weight(kind, in_ as int, out as int, number_in as int, number_out as int),
        -weight_bound(number_in as int, number_out as int) <= r <= weight_bound(
            number_in as int,
            number_out as int,
        ),
{
    let ghost m = max_int(number_in as int, number_out as int);
    proof {
        assert(m * m >= 1) by (nonlinear_arith)
            requires
                m >= 1,
        ;
        assert(6 * m * m <= 36 * (m * m)) by (nonlinear_arith)
            requires
                m >= 1,
        ;
    }
    match kind {
        KernelKind::Magic => MagicKernel::weight(in_, out, number_in, number_out),
        KernelKind::Sharp2013 => Sharp2013::weight(in_, out),
        KernelKind::Sharp2021 => Sharp2021::weight(in_, out),
    }
}

} // verus!
