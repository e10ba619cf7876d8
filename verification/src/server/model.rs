//! Figures that sum up a snapshot.

use vstd::prelude::*;
use crate::common::snapshot::{GresView, ServerGresSnapshot};

verus! {

/// Figures that sum up a snapshot.
pub trait SnapshotSummary {
    /// How many resources there are, at most 255.
    fn gres_num(&self) -> u8;

    /// The same, under its older name.
    fn gpu_num(&self) -> u8;

    /// The average utilization in percent, at most 100.
    fn avg_utilization(&self) -> u8;
}

/// `n`, or 255 if that is less.
pub open spec fn count_byte(n: nat) -> u8 {
    if n > 255 {
        255
    } else {
        n as u8
    }
}

/// The sum of the utilization counters.
pub open spec fn total_utilization(gres: Seq<GresView>) -> nat
    decreases gres.len(),
{
    if gres.len() == 0 {
        0
    } else {
        total_utilization(gres.drop_last()) + gres.last().utilization.gres_percent as nat
    }
}

/// The average of the utilization counters, rounded down, at most 100; zero
/// if there are none.
pub open spec fn average_utilization(gres: Seq<GresView>) -> nat {
    if gres.len() == 0 {
        0
    } else {
        let mean = total_utilization(gres) / gres.len();
        if mean > 100 {
            100
        } else {
            mean
        }
    }
}

impl SnapshotSummary for ServerGresSnapshot {
    fn gres_num(&self) -> (r: u8)
        ensures
            r == count_byte(self@.gres.len()),
    {
        let n: usize = self.gres.len();
        if n > 255 {
            255
        } else {
            n as u8
        }
    }

    fn gpu_num(&self) -> (r: u8)
        ensures
            r == count_byte(self@.gres.len()),
    {
        self.gres_num()
    }

    fn avg_utilization(&self) -> (r: u8)
        ensures
            r == average_utilization(self@.gres),
    {
        let n: usize = self.gres.len();
        if n == 0 {
            return 0;
        }
        let ghost all = self@.gres;
        let mut total: u128 = 0;
        let mut i: usize = 0;
        assert(all.take(0) =~= Seq::empty());
        while i < n
            invariant
                i <= n == self.gres@.len(),
                all == self@.gres,
                total == total_utilization(all.take(i as int)),
                total <= 255 * i,
            decreases n - i,
        {
            proof {
                assert(all.take(i + 1).drop_last() =~= all.take(i as int));
                assert(all.take(i + 1).last() == self.gres@[i as int]@);
            }
            total = total + self.gres[i].utilization.gres_percent as u128;
            i = i + 1;
        }
        assert(all.take(i as int) =~= all);
        let mean: u128 = total / n as u128;
        if mean > 100 {
            100
        } else {
            mean as u8
        }
    }
}

} // verus!
