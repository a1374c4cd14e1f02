//! Render progress, modelled as a bar of a fixed number of cells.
//!
//! Drawing the bar is terminal output and lives with the caller; the
//! library only carries the bar's length.

use vstd::prelude::*;

verus! {

/// A progress bar `length` cells wide.
#[derive(Clone, Copy, Debug, PartialEq, Eq, Structural)]
pub struct ProgressBar {
    pub length: u32,
}

impl ProgressBar {
    pub fn new(length: u32) -> (r: Self)
        ensures
            r == (ProgressBar { length }),
    {
        ProgressBar { length }
    }

    /// How many of the bar's cells are filled when `done` out of
    /// `total` scanlines are finished.
    pub fn filled_cells(&self, done: u32, total: u32) -> (r: u32)
        requires
            0 < total,
            done <= total,
        ensures
            r as int == (self.length * done) as int / total as int,
            r <= self.length,
    {
        proof {
            assert((self.length as int) * (done as int) <= u64::MAX as int) by (nonlinear_arith)
                requires
                    0 <= (self.length as int) && (self.length as int) < 0x100000000,
                    0 <= (done as int) && (done as int) < 0x100000000;
        }
        let wide: u64 = (self.length as u64) * (done as u64) / (total as u64);
        proof {
            assert((self.length as int) * (done as int) <= (self.length as int) * (total as int))
                by (nonlinear_arith)
                requires done as int <= total as int, self.length as int >= 0;
            vstd::arithmetic::div_mod::lemma_div_is_ordered(
                (self.length as int) * (done as int), (self.length as int) * (total as int),
                total as int);
            vstd::arithmetic::div_mod::lemma_div_multiples_vanish(
                self.length as int, total as int);
            assert((self.length as int) * (total as int) == (total as int) * (self.length as int))
                by (nonlinear_arith);
        }
        wide as u32
    }
}

} // verus!
