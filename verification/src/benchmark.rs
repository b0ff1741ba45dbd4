//! Throughput accounting for the order pipeline.

use vstd::prelude::*;

verus! {

/// Orders per second from a processed count and an elapsed window, rounded
/// down; a zero-length window reports zero, and a rate beyond `u64` saturates.
pub open spec fn orders_per_sec(processed_orders: u64, elapsed_nanos: u128) -> int {
    if elapsed_nanos == 0 {
        0
    } else if (processed_orders * 1_000_000_000) / (elapsed_nanos as int) > u64::MAX {
        u64::MAX as int
    } else {
        (processed_orders * 1_000_000_000) / (elapsed_nanos as int)
    }
}

pub fn calculate_orders_per_sec(processed_orders: u64, elapsed_nanos: u128) -> (r: u64)
    ensures
        r as int == orders_per_sec(processed_orders, elapsed_nanos),
{
    if elapsed_nanos == 0 {
        return 0;
    }

    let scaled_orders: u128 = (processed_orders as u128) * 1_000_000_000;
    proof {
        assert((processed_orders as int) * 1_000_000_000 <= (u64::MAX as int) * 1_000_000_000)
            by (nonlinear_arith)
            requires
                processed_orders as int <= u64::MAX as int,
        ;
    }
    let achieved: u128 = scaled_orders / elapsed_nanos;
    if achieved > u64::MAX as u128 {
        u64::MAX
    } else {
        achieved as u64
    }
}

/// Whether the achieved throughput reaches the target.
pub fn meets_target_orders_per_sec(achieved_orders_per_sec: u64, target_orders_per_sec: u64) -> (r:
    bool)
    ensures
        r == (achieved_orders_per_sec >= target_orders_per_sec),
{
    achieved_orders_per_sec >= target_orders_per_sec
}

} // verus!
