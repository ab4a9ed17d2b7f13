//! How far a scan of a firmware image has come.

use vstd::prelude::*;

verus! {

/// The progress of a scan: `done` of `total` top-level units of work are
/// finished, and `complete` tells whether the catalog is ready.
///
/// The fraction it stands for is 1 once the scan is complete; before that it
/// is `done / total`, taken as 0 while `total` is 0.
#[derive(Clone, Copy, Debug, PartialEq, Eq, Structural)]
pub struct ScanProgress {
    pub done: usize,
    pub total: usize,
    pub complete: bool,
}

impl ScanProgress {
    /// No more is done than there is to do, and all is done exactly when the
    /// scan is complete.
    pub open spec fn well_formed(self) -> bool {
        &&& self.done <= self.total
        &&& self.complete ==> self.done == self.total
        &&& self.total > 0 && self.done == self.total ==> self.complete
    }

    /// The fraction in thousandths, before rounding: 1000 for a complete
    /// scan.
    pub open spec fn scaled(self) -> int {
        if self.complete {
            1000
        } else if self.total == 0 {
            0
        } else {
            (self.done * 1000) / (self.total as int)
        }
    }

    /// The fraction of `self` is at least that of `earlier`, both being of
    /// one scan.
    pub open spec fn not_behind(self, earlier: ScanProgress) -> bool {
        &&& earlier.complete ==> self.complete
        &&& self.total == earlier.total ==> self.done >= earlier.done
    }

    /// The progress in thousandths, rounded down. For a well-formed progress
    /// it is 1000 exactly when the scan is complete.
    pub fn per_mille(self) -> (r: u32)
        ensures
            r <= 1000,
            self.well_formed() ==> r == self.scaled() && (r == 1000 <==> self.complete),
            !self.complete && self.done <= self.total ==> r == self.scaled(),
    {
        if self.complete || self.done > self.total {
            1000
        } else if self.total == 0 {
            0
        } else {
            let product: u128 = (self.done as u128) * 1000;
            let r: u128 = product / (self.total as u128);
            assert(r <= 1000 && (self.done < self.total ==> r < 1000)) by (nonlinear_arith)
                requires
                    r == (self.done * 1000) / (self.total as int),
                    self.done <= self.total,
                    self.total > 0,
            ;
            r as u32
        }
    }
}

} // verus!
