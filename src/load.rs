//! Utilization values kept as exact ratios.

use vstd::prelude::*;

verus! {

/// The largest value that a part or a whole of a utilization can take: a
/// sum of eight 64-bit counters.
pub const LOAD_MAX: u128 = 147573952589676412920;

/// A utilization of `part / whole * 100` percent; a zero `whole` stands for
/// zero percent. The value is not clamped: `part` may exceed `whole`.
#[derive(Debug, Clone, Copy, PartialEq, Eq)]
pub struct Load {
    pub part: u128,
    pub whole: u128,
}

pub open spec fn saturating_diff(a: int, b: int) -> int {
    if a >= b {
        a - b
    } else {
        0
    }
}

/// The utilization of `part` out of `whole`, zero when `whole` is zero.
pub open spec fn load_of(part: int, whole: int) -> Load {
    if whole == 0 {
        Load { part: 0, whole: 0 }
    } else {
        Load { part: part as u128, whole: whole as u128 }
    }
}

impl Load {
    pub open spec fn wf(self) -> bool {
        self.part <= LOAD_MAX && self.whole <= LOAD_MAX
    }

    /// The utilization is exactly zero percent.
    pub open spec fn is_zero(self) -> bool {
        self.whole == 0 || self.part == 0
    }

    /// The utilization is exactly `num / den` percent.
    pub open spec fn equals_percent(self, num: int, den: int) -> bool {
        if self.whole == 0 {
            num == 0
        } else {
            self.part * 100 * den == num * self.whole
        }
    }

    /// The utilization in hundredths of a percent, rounded to the nearest
    /// (halves up): `floor(10000 * part / whole + 1/2)`.
    pub open spec fn spec_hundredths(self) -> int {
        if self.whole == 0 {
            0
        } else {
            (20000 * self.part + self.whole) / (2 * self.whole as int)
        }
    }

    /// Zero percent.
    pub fn zero() -> (r: Load)
        ensures
            r == (Load { part: 0, whole: 0 }),
            r.is_zero(),
            r.wf(),
    {
        Load { part: 0, whole: 0 }
    }

    /// The utilization of `part` out of `whole`.
    pub fn ratio(part: u128, whole: u128) -> (r: Load)
        ensures
            r == load_of(part as int, whole as int),
    {
        if whole == 0 {
            Load { part: 0, whole: 0 }
        } else {
            Load { part, whole }
        }
    }

    /// The utilization in hundredths of a percent, rounded to the nearest.
    pub fn hundredths(&self) -> (r: u128)
        requires
            self.wf(),
        ensures
            r as int == self.spec_hundredths(),
            r as int <= LOAD_MAX as int * 10000,
    {
        if self.whole == 0 {
            0
        } else {
            let scaled = 20000 * self.part + self.whole;
            let den = 2 * self.whole;
            let r = scaled / den;
            proof {
                vstd::arithmetic::div_mod::lemma_fundamental_div_mod(scaled as int, den as int);
                let l = LOAD_MAX as int;
                assert(r <= l * 10000) by (nonlinear_arith)
                    requires
                        r * den <= scaled,
                        scaled == 20000 * self.part + self.whole,
                        den == 2 * self.whole,
                        1 <= self.whole,
                        self.part <= l,
                        r >= 0,
                ;
            }
            r
        }
    }
}

} // verus!
