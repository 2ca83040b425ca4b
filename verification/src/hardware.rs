//! Arithmetic on hardware readings: byte-to-megabyte conversion and the
//! running accumulation of per-disk space figures.

use vstd::prelude::*;
use crate::common_rpc_types::HardwareUsage;

verus! {

/// Bytes to whole megabytes, rounding towards zero (as integer division of
/// machine integers does).
pub open spec fn spec_mb(n: int) -> int {
    if n >= 0 {
        n / 1000000
    } else {
        -((-n) / 1000000)
    }
}

/// Converts a byte count to whole megabytes, rounding towards zero.
pub fn mb(n: i128) -> (q: i64)
    requires
        -0x20000000000000000 <= n <= 0x20000000000000000,
    ensures
        q as int == spec_mb(n as int),
{
    if n >= 0 {
        ((n as u128) / 1000000) as i64
    } else {
        let m: u128 = ((-(n + 1)) as u128) + 1;
        proof {
            assert(m as int == -(n as int));
        }
        -((m / 1000000) as i64)
    }
}

/// The sum of the total-space figures of a disk list.
pub open spec fn spec_sum_totals(s: Seq<(u64, u64)>) -> int
    decreases s.len(),
{
    if s.len() == 0 {
        0
    } else {
        spec_sum_totals(s.drop_last()) + s.last().0
    }
}

/// The sum of the available-space figures of a disk list.
pub open spec fn spec_sum_avails(s: Seq<(u64, u64)>) -> int
    decreases s.len(),
{
    if s.len() == 0 {
        0
    } else {
        spec_sum_avails(s.drop_last()) + s.last().1
    }
}

/// Both sums only grow along prefixes: each is bounded by the sum over the
/// whole list.
proof fn lemma_sum_prefix_le(s: Seq<(u64, u64)>, i: int)
    requires
        0 <= i <= s.len(),
    ensures
        spec_sum_totals(s.take(i)) <= spec_sum_totals(s),
        spec_sum_avails(s.take(i)) <= spec_sum_avails(s),
        spec_sum_totals(s.take(i)) >= 0,
        spec_sum_avails(s.take(i)) >= 0,
    decreases s.len(),
{
    if s.len() == 0 {
        assert(s.take(i) =~= s);
    } else if i == s.len() {
        assert(s.take(i) =~= s);
        lemma_sum_prefix_le(s.drop_last(), i - 1);
    } else {
        assert(s.drop_last().take(i) =~= s.take(i));
        lemma_sum_prefix_le(s.drop_last(), i);
    }
}

/// Accumulates per-disk space figures into running totals, one entry per
/// disk: entry `i` holds the sums over the first `i + 1` disks.  Each disk
/// is given as `(total_space, available_space)` in bytes.
pub fn get_disk_usage(disks: &Vec<(u64, u64)>) -> (r: Vec<HardwareUsage>)
    requires
        spec_sum_totals(disks@) <= i64::MAX,
        spec_sum_avails(disks@) <= i64::MAX,
    ensures
        r@.len() == disks@.len(),
        forall|i: int|
            0 <= i < disks@.len() ==> (#[trigger] r@[i]).total == spec_sum_totals(
                disks@.take(i + 1),
            ) && r@[i].available == spec_sum_avails(disks@.take(i + 1)),
{
    let mut total: i64 = 0;
    let mut available: i64 = 0;
    let mut result: Vec<HardwareUsage> = Vec::new();
    let mut k: usize = 0;
    while k < disks.len()
        invariant
            0 <= k <= disks@.len(),
            spec_sum_totals(disks@) <= i64::MAX,
            spec_sum_avails(disks@) <= i64::MAX,
            total == spec_sum_totals(disks@.take(k as int)),
            available == spec_sum_avails(disks@.take(k as int)),
            result@.len() == k,
            forall|i: int|
                0 <= i < k ==> (#[trigger] result@[i]).total == spec_sum_totals(
                    disks@.take(i + 1),
                ) && result@[i].available == spec_sum_avails(disks@.take(i + 1)),
        decreases disks@.len() - k,
    {
        let (t, a) = disks[k];
        proof {
            assert(disks@.take(k + 1).drop_last() =~= disks@.take(k as int));
            assert(disks@.take(k + 1).last() == disks@[k as int]);
            lemma_sum_prefix_le(disks@, k as int);
            lemma_sum_prefix_le(disks@, k + 1);
        }
        total = total + (t as i64);
        available = available + (a as i64);
        result.push(HardwareUsage { total, available });
        k += 1;
    }
    proof {
        assert(disks@.take(disks@.len() as int) =~= disks@);
    }
    result
}

} // verus!
