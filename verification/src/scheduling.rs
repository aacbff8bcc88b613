//! The integer decisions that steer the parallel and cache-blocked resizers: how many worker
//! threads to start, how tall a block of output rows to hand to one worker, how many rows to
//! process per cache-sized batch, and which Lanczos3 kernel suits an image of a given size.
use vstd::arithmetic::power2::is_pow2;
use vstd::prelude::*;

verus! {

/// Worker threads for a machine of `num_cores` cores: keep two cores free on machines of
/// twelve or more, one on machines of eight to eleven, none on smaller ones.
pub open spec fn worker_threads_for(num_cores: nat) -> nat {
    if num_cores >= 12 {
        (num_cores - 2) as nat
    } else if num_cores >= 8 {
        (num_cores - 1) as nat
    } else {
        num_cores
    }
}

/// The number of worker threads to start on a machine of `num_cores` cores.
pub fn worker_thread_count(num_cores: usize) -> (r: usize)
    ensures
        r == worker_threads_for(num_cores as nat),
{
    if num_cores >= 12 {
        num_cores - 2
    } else if num_cores >= 8 {
        num_cores - 1
    } else {
        num_cores
    }
}

/// The number of logical CPUs available to this process.
///
/// Calls `num_cpus::get()`, whose documentation promises a value of at least 1. The value
/// depends on the machine, its scheduler affinity and its cgroup limits; nothing more is claimed.
#[verifier::external_body]
fn available_cores() -> (r: usize)
    ensures
        r >= 1,
{
    num_cpus::get()
}

/// The number of worker threads for a resize on this machine.
pub fn resize_worker_threads() -> (r: usize)
    ensures
        r >= 1,
        exists|cores: nat| cores >= 1 && r == worker_threads_for(cores),
{
    let cores = available_cores();
    let r = worker_thread_count(cores);
    proof {
        law_worker_threads_bounds(cores as nat);
    }
    r
}

/// A machine of at least one core starts at least one worker and never more workers than cores.
pub proof fn law_worker_threads_bounds(num_cores: nat)
    requires
        num_cores >= 1,
    ensures
        1 <= worker_threads_for(num_cores) <= num_cores,
{
}

/// Rows per block for a `width`-wide output of `height` rows: about ten thousand pixels,
/// at least 16 rows, at most a quarter of the image and at most 256 rows (the quarter wins
/// over the 16-row floor).
pub open spec fn block_height_for(width: nat, height: nat) -> nat {
    let optimal = 10000nat / width;
    let at_least = if optimal >= 16 {
        optimal
    } else {
        16
    };
    let quarter = if at_least <= height / 4 {
        at_least
    } else {
        height / 4
    };
    if quarter <= 256 {
        quarter
    } else {
        256
    }
}

/// The height of the row blocks that the parallel bilinear resizer hands to its workers.
pub fn calculate_optimal_block_height(width: usize, height: usize) -> (r: usize)
    requires
        width > 0,
    ensures
        r == block_height_for(width as nat, height as nat),
        r <= 256,
        r <= height / 4,
{
    let target_pixels_per_block: usize = 10_000;
    let optimal_height = target_pixels_per_block / width;
    let at_least = if optimal_height >= 16 {
        optimal_height
    } else {
        16
    };
    let quarter = if at_least <= height / 4 {
        at_least
    } else {
        height / 4
    };
    if quarter <= 256 {
        quarter
    } else {
        256
    }
}

/// The smallest power of two that is at least `bound`, searched upwards from `p`.
pub open spec fn power_of_two_from(p: nat, bound: nat) -> nat
    decreases (if p < bound {
        bound - p
    } else {
        0
    }),
{
    if p == 0 || p >= bound {
        p
    } else {
        power_of_two_from(2 * p, bound)
    }
}

/// The smallest power of two that is at least `n` (one for zero), as `usize::next_power_of_two`.
pub open spec fn next_power_of_two(n: nat) -> nat {
    power_of_two_from(1, n)
}

/// The row estimate held between 8 and the target height (the target height wins).
pub open spec fn clamped_estimate(estimate: nat, target_height: nat) -> nat {
    let at_least = if estimate < 8 {
        8
    } else {
        estimate
    };
    if at_least > target_height {
        target_height
    } else {
        at_least
    }
}

/// The batch height: the clamped estimate rounded up to a power of two, but never above the
/// target height.
pub open spec fn batch_size_for(estimate: nat, target_height: nat) -> nat {
    let p = next_power_of_two(clamped_estimate(estimate, target_height));
    if p < target_height {
        p
    } else {
        target_height
    }
}

proof fn lemma_double_pow2(p: int)
    requires
        is_pow2(p),
    ensures
        is_pow2(2 * p),
        p >= 1,
{
    reveal(is_pow2);
    if p <= 0 {
    } else {
        assert((2 * p) / 2 == p);
        assert((2 * p) % 2 == 0);
    }
}

proof fn lemma_pow2_gap(p: int, t: int)
    requires
        is_pow2(p),
        is_pow2(t),
        p < t,
    ensures
        2 * p <= t,
    decreases t,
{
    reveal(is_pow2);
    if p == 1 {
    } else {
        lemma_pow2_gap(p / 2, t / 2);
    }
}

proof fn lemma_power_of_two_from(p: nat, bound: nat)
    requires
        is_pow2(p as int),
    ensures
        is_pow2(power_of_two_from(p, bound) as int),
        bound <= power_of_two_from(p, bound),
        p <= power_of_two_from(p, bound),
    decreases (if p < bound {
        bound - p
    } else {
        0
    }),
{
    lemma_double_pow2(p as int);
    if p < bound {
        lemma_power_of_two_from(2 * p, bound);
    }
}

proof fn lemma_power_of_two_from_below(p: nat, bound: nat, t: nat)
    requires
        is_pow2(p as int),
        is_pow2(t as int),
        p <= t,
        bound <= t,
    ensures
        power_of_two_from(p, bound) <= t,
    decreases (if p < bound {
        bound - p
    } else {
        0
    }),
{
    lemma_double_pow2(p as int);
    if p < bound {
        lemma_pow2_gap(p as int, t as int);
        lemma_power_of_two_from_below(2 * p, bound, t);
    }
}

/// The number of output rows that the cache-blocked Lanczos3 resizer processes per batch,
/// given its cache-based estimate (computed in floating point by the caller).
pub fn clamp_batch_size(estimate: usize, target_height: usize) -> (r: usize)
    requires
        clamped_estimate(estimate as nat, target_height as nat) <= usize::MAX / 2 + 1,
    ensures
        r == batch_size_for(estimate as nat, target_height as nat),
        r <= target_height,
        clamped_estimate(estimate as nat, target_height as nat) <= r,
{
    let mut b = estimate;
    if b < 8 {
        b = 8;
    }
    if b > target_height {
        b = target_height;
    }
    let mut p: usize = 1;
    proof {
        reveal(is_pow2);
        lemma_power_of_two_from(1, b as nat);
    }
    while p < b
        invariant
            1 <= p,
            b <= usize::MAX / 2 + 1,
            power_of_two_from(p as nat, b as nat) == next_power_of_two(b as nat),
        decreases (if p < b {
            b - p
        } else {
            0
        }),
    {
        p = p * 2;
    }
    if p < target_height {
        p
    } else {
        target_height
    }
}

/// With a power-of-two target of at least 8 rows, the batch height is a power of two between
/// 8 and the target.
pub proof fn law_batch_size_power_of_two(estimate: nat, target_height: nat)
    requires
        target_height >= 8,
        is_pow2(target_height as int),
    ensures
        8 <= batch_size_for(estimate, target_height) <= target_height,
        is_pow2(batch_size_for(estimate, target_height) as int),
{
    let b = clamped_estimate(estimate, target_height);
    reveal(is_pow2);
    lemma_power_of_two_from(1, b);
    lemma_power_of_two_from_below(1, b, target_height);
}

/// The two Lanczos3 kernels between which the adaptive resizer chooses.
#[derive(Debug, Clone, Copy, PartialEq, Eq, Structural)]
pub enum Lanczos3Kernel {
    /// One fused pass with no intermediate buffer, for small images.
    Fused,
    /// Separable passes over cache-sized blocks, for large images.
    Blocked,
}

/// The fused kernel serves images whose source and target both hold fewer than 512 x 512
/// pixels; the blocked kernel serves all others.
pub open spec fn lanczos3_kernel_for(
    src_width: nat,
    src_height: nat,
    target_width: nat,
    target_height: nat,
) -> Lanczos3Kernel {
    if src_width * src_height < 512 * 512 && target_width * target_height < 512 * 512 {
        Lanczos3Kernel::Fused
    } else {
        Lanczos3Kernel::Blocked
    }
}

/// Chooses the Lanczos3 kernel for a resize from `src_width x src_height` to
/// `target_width x target_height`.
pub fn choose_lanczos3_kernel(
    src_width: usize,
    src_height: usize,
    target_width: u32,
    target_height: u32,
) -> (r: Lanczos3Kernel)
    requires
        src_width * src_height <= usize::MAX,
        target_width * target_height <= usize::MAX,
    ensures
        r == lanczos3_kernel_for(
            src_width as nat,
            src_height as nat,
            target_width as nat,
            target_height as nat,
        ),
{
    let total_src_pixels = src_width * src_height;
    let total_dst_pixels = (target_width as usize) * (target_height as usize);
    if total_src_pixels < 512 * 512 && total_dst_pixels < 512 * 512 {
        Lanczos3Kernel::Fused
    } else {
        Lanczos3Kernel::Blocked
    }
}

} // verus!
