//! The density estimator's policy over single-precision bit patterns.
//!
//! The kernel sum itself (Silverman bandwidth, Gaussian kernel) is floating-point work done by
//! the caller; this module decides when that work is needed and what the estimate is, given
//! its outcome: zeros where the estimate is undefined or the bandwidth is degenerate.
use vstd::prelude::*;

verus! {

/// The bit pattern of `+0.0`.
pub const ZERO_BITS: u32 = 0;

/// `b` is the bit pattern of a NaN (all exponent bits set, mantissa not zero).
pub open spec fn is_nan_bits(b: u32) -> bool {
    (b & 0x7f80_0000u32) == 0x7f80_0000u32 && (b & 0x007f_ffffu32) != 0
}

/// No entry of `s` is a NaN.
pub open spec fn no_nan(s: Seq<u32>) -> bool {
    forall|i: int| 0 <= i < s.len() ==> !is_nan_bits(#[trigger] s[i])
}

/// A bandwidth the kernel sum can be evaluated with: a positive, normal, finite value.
pub open spec fn usable_bandwidth(h: u32) -> bool {
    0x0080_0000u32 <= h < 0x7f80_0000u32
}

/// `k` zeros.
pub open spec fn zeros(k: nat) -> Seq<u32> {
    Seq::new(k, |i: int| ZERO_BITS)
}

/// The kernel sum is evaluated for `samples`: there are at least two, and none is a NaN.
pub open spec fn kernel_needed(samples: Seq<u32>) -> bool {
    samples.len() >= 2 && no_nan(samples)
}

/// The outcome of the kernel sum for one sample set: the Silverman bandwidth and the density
/// at each evaluation point, in order.
pub struct KernelOutput {
    pub bandwidth: u32,
    pub density: Vec<u32>,
}

impl View for KernelOutput {
    type V = (u32, Seq<u32>);

    open spec fn view(&self) -> (u32, Seq<u32>) {
        (self.bandwidth, self.density@)
    }
}

/// The view of an optional kernel outcome.
pub open spec fn kernel_view(k: Option<KernelOutput>) -> Option<(u32, Seq<u32>)> {
    match k {
        Some(o) => Some(o@),
        None => None,
    }
}

/// The density estimate at `k` evaluation points of a sample set, given the kernel outcome
/// `kernel` (present exactly when the kernel sum was needed).
///
/// It is the zero function with fewer than two samples, with a NaN among them, or with a
/// bandwidth that is zero, subnormal, negative or not finite; otherwise the kernel's densities.
pub open spec fn estimate_spec(samples: Seq<u32>, k: nat, kernel: Option<(u32, Seq<u32>)>) -> Seq<u32> {
    match kernel {
        Some((h, d)) => if kernel_needed(samples) && usable_bandwidth(h) {
            d
        } else {
            zeros(k)
        },
        None => zeros(k),
    }
}

/// Whether `b` is the bit pattern of a NaN.
pub fn is_nan(b: u32) -> (r: bool)
    ensures
        r == is_nan_bits(b),
{
    (b & 0x7f80_0000u32) == 0x7f80_0000u32 && (b & 0x007f_ffffu32) != 0
}

/// Whether some entry of `s` is a NaN.
pub fn has_nan(s: &Vec<u32>) -> (r: bool)
    ensures
        r == !no_nan(s@),
{
    let mut i: usize = 0;
    while i < s.len()
        invariant
            i <= s@.len(),
            forall|j: int| 0 <= j < i ==> !is_nan_bits(#[trigger] s@[j]),
        decreases s@.len() - i,
    {
        if is_nan(s[i]) {
            return true;
        }
        i = i + 1;
    }
    false
}

/// Whether the kernel sum is to be evaluated for `samples`.
pub fn needs_kernel(samples: &Vec<u32>) -> (r: bool)
    ensures
        r == kernel_needed(samples@),
{
    samples.len() >= 2 && !has_nan(samples)
}

/// Whether `h` is a bandwidth the kernel sum can be evaluated with.
pub fn is_usable_bandwidth(h: u32) -> (r: bool)
    ensures
        r == usable_bandwidth(h),
{
    0x0080_0000u32 <= h && h < 0x7f80_0000u32
}

/// `k` zeros, as a vector.
pub fn zero_vec(k: usize) -> (r: Vec<u32>)
    ensures
        r@ == zeros(k as nat),
{
    let mut r: Vec<u32> = Vec::new();
    let mut i: usize = 0;
    while i < k
        invariant
            i <= k,
            r@ == zeros(i as nat),
        decreases k - i,
    {
        r.push(ZERO_BITS);
        i = i + 1;
        assert(r@ =~= zeros(i as nat));
    }
    r
}

/// The density estimate of `sample_points` at each of `eval_points`, given the outcome of the
/// kernel sum, which is handed in exactly when `needs_kernel(sample_points)` holds.
///
/// The result has one value per evaluation point, in order.
pub fn compute_kde(sample_points: &Vec<u32>, eval_points: &Vec<u32>, kernel: Option<KernelOutput>) -> (r: Vec<u32>)
    requires
        kernel.is_some() == kernel_needed(sample_points@),
        kernel matches Some(o) ==> o.density@.len() == eval_points@.len(),
    ensures
        r@ == estimate_spec(sample_points@, eval_points@.len(), kernel_view(kernel)),
        r@.len() == eval_points@.len(),
        sample_points@.len() <= 1 ==> r@ == zeros(eval_points@.len()),
{
    match kernel {
        Some(o) => {
            if is_usable_bandwidth(o.bandwidth) {
                o.density
            } else {
                zero_vec(eval_points.len())
            }
        },
        None => zero_vec(eval_points.len()),
    }
}

} // verus!
