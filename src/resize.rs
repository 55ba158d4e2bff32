use crate::definitions::KernelKind;
use crate::kernel2d::Kernel2D;
use vstd::prelude::*;

verus! {

/// Version of the resize algorithm.
#[derive(Clone, Copy, Debug, PartialEq, Eq, Structural)]
pub enum Version {
    /// The Magic Kernel alone, with no sharpening.
    MagicKernel,
    /// The Magic Kernel followed by correction kernel A.
    MagicKernelSharp2013,
    /// The Magic Kernel followed by correction kernels A and B.
    MagicKernelSharp2021,
}

/// `floor(value * num / den)`, or `u32::MAX` where that does not fit.
pub open spec fn scaled(value: int, num: int, den: int) -> int {
    if (value * num) / den > u32::MAX {
        u32::MAX as int
    } else {
        (value * num) / den
    }
}

/// The target size: a missing dimension is scaled in proportion to the given
/// one (truncating), and with neither given the size stays as it is.
pub open spec fn resolved_size(width: int, height: int, new_width: Option<u32>, new_height: Option<u32>) -> (int, int) {
    match (new_width, new_height) {
        (Some(w), Some(h)) => (w as int, h as int),
        (Some(w), None) => (w as int, scaled(height, w as int, width)),
        (None, Some(h)) => (scaled(width, h as int, height), h as int),
        (None, None) => (width, height),
    }
}

/// What `resolve_size` needs: the dimension that a missing one is scaled by is not zero.
pub open spec fn resolvable(width: int, height: int, new_width: Option<u32>, new_height: Option<u32>) -> bool {
    match (new_width, new_height) {
        (Some(_), None) => width >= 1,
        (None, Some(_)) => height >= 1,
        _ => true,
    }
}

fn scale(value: u32, num: u32, den: u32) -> (r: u32)
    requires
        den >= 1,
    ensures
        r == scaled(value as int, num as int, den as int),
{
    proof {
        assert(value as int * num as int <= 0xffff_ffff * 0xffff_ffff) by (nonlinear_arith)
            requires
                0 <= value <= 0xffff_ffff,
                0 <= num <= 0xffff_ffff,
        ;
        assert(value as int * num as int >= 0) by (nonlinear_arith);
    }
    let q = (value as u64 * num as u64) / den as u64;
    if q > u32::MAX as u64 {
        u32::MAX
    } else {
        q as u32
    }
}

/// Resolves the target (width, height) of a resize of a `width` x `height` image.
pub fn resolve_size(width: u32, height: u32, new_width: Option<u32>, new_height: Option<u32>) -> (r: (u32, u32))
    requires
        resolvable(width as int, height as int, new_width, new_height),
    ensures
        (r.0 as int, r.1 as int) == resolved_size(width as int, height as int, new_width, new_height),
{
    match (new_width, new_height) {
        (Some(w), Some(h)) => (w, h),
        (Some(w), None) => (w, scale(height, w, width)),
        (None, Some(h)) => (scale(width, h, height), h),
        (None, None) => (width, height),
    }
}

/// The number of kernel stages of a version.
pub open spec fn stage_count(version: Version) -> int {
    match version {
        Version::MagicKernel => 1,
        Version::MagicKernelSharp2013 => 2,
        Version::MagicKernelSharp2021 => 3,
    }
}

/// The kernel of stage `k`: the resampling kernel first, then the correction
/// kernels, A before B.
pub open spec fn stage_kind(k: int) -> KernelKind {
    if k == 0 {
        KernelKind::Magic
    } else if k == 1 {
        KernelKind::Sharp2013
    } else {
        KernelKind::Sharp2021
    }
}

/// The stages of a resize from `from_size` to `to_size`, in the order in which
/// they are applied. The resampling stage runs first, at the source-to-target
/// scale; the correction stages that the version asks for follow at the
/// target size, at unity scale, A before B.
pub fn plan(version: Version, from_size: (u32, u32), to_size: (u32, u32)) -> (r: Vec<Kernel2D>)
    requires
        from_size.0 >= 1,
        from_size.1 >= 1,
        to_size.0 >= 1,
        to_size.1 >= 1,
    ensures
        r.len() == stage_count(version),
        r[0].maps(KernelKind::Magic, from_size, to_size),
        forall|k: int| 1 <= k < r.len() ==> (#[trigger] r[k]).maps(stage_kind(k), to_size, to_size),
{
    let mut stages: Vec<Kernel2D> = Vec::new();
    stages.push(Kernel2D::new(KernelKind::Magic, from_size, to_size));
    if version != Version::MagicKernel {
        stages.push(Kernel2D::new(KernelKind::Sharp2013, to_size, to_size));
    }
    if version == Version::MagicKernelSharp2021 {
        stages.push(Kernel2D::new(KernelKind::Sharp2021, to_size, to_size));
    }
    stages
}

} // verus!
