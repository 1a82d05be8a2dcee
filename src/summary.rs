//! Mean and peak of a series of utilizations.

use vstd::prelude::*;
use vstd::arithmetic::div_mod::lemma_fundamental_div_mod_converse;
use crate::cpu::CpuStats;
use crate::load::{Load, LOAD_MAX};
use crate::memory::MemoryStats;
use crate::natural::{from_u128, le, mul_small, plus, value};

verus! {

/// Mean and peak of a non-empty series, in hundredths of a percent. Each is
/// computed from the exact utilizations and rounded once, to the nearest
/// hundredth (halves up).
#[derive(Debug, Clone, Copy, PartialEq, Eq)]
pub struct LoadSummary {
    pub mean_hundredths: u128,
    pub peak_hundredths: u128,
}

/// The three CPU utilizations, summarized.
#[derive(Debug, Clone, Copy, PartialEq, Eq)]
pub struct CpuSummary {
    pub total: LoadSummary,
    pub user: LoadSummary,
    pub system: LoadSummary,
}

/// The sum of the utilizations of `s` as fractions (a zero whole counts as
/// zero): the fraction `num / den`, where `den` is the product of the
/// non-zero wholes.
pub open spec fn load_sum(s: Seq<Load>) -> (int, int)
    decreases s.len(),
{
    if s.len() == 0 {
        (0, 1)
    } else {
        let (num, den) = load_sum(s.drop_last());
        let l = s.last();
        if l.whole == 0 {
            (num, den)
        } else {
            (num * l.whole + l.part * den, den * l.whole)
        }
    }
}

/// The mean utilization of a non-empty `s` in hundredths of a percent,
/// rounded to the nearest (halves up): with the sum `num / den`, that is
/// `floor(10000 * num / (den * n) + 1/2)`.
pub open spec fn mean_hundredths(s: Seq<Load>) -> int {
    let (num, den) = load_sum(s);
    let n = s.len() as int;
    (20000 * num + n * den) / (2 * n * den)
}

/// The largest of the samples' utilizations, each rounded to the nearest
/// hundredth of a percent; as rounding keeps order, this is the largest
/// utilization rounded once.
pub open spec fn peak_hundredths(s: Seq<Load>) -> int
    decreases s.len(),
{
    if s.len() == 0 {
        0
    } else {
        let p = peak_hundredths(s.drop_last());
        let h = s.last().spec_hundredths();
        if h > p {
            h
        } else {
            p
        }
    }
}

pub open spec fn all_wf(s: Seq<Load>) -> bool {
    forall|i: int| 0 <= i < s.len() ==> (#[trigger] s[i]).wf()
}

/// The summary of `s`: none for an empty series.
pub open spec fn summary_of(s: Seq<Load>) -> Option<LoadSummary> {
    if s.len() == 0 {
        None
    } else {
        Some(
            LoadSummary {
                mean_hundredths: mean_hundredths(s) as u128,
                peak_hundredths: peak_hundredths(s) as u128,
            },
        )
    }
}

pub open spec fn total_loads(s: Seq<CpuStats>) -> Seq<Load> {
    s.map_values(|c: CpuStats| c.total_load)
}

pub open spec fn user_loads(s: Seq<CpuStats>) -> Seq<Load> {
    s.map_values(|c: CpuStats| c.user_load)
}

pub open spec fn system_loads(s: Seq<CpuStats>) -> Seq<Load> {
    s.map_values(|c: CpuStats| c.system_load)
}

pub open spec fn usage_loads(s: Seq<MemoryStats>) -> Seq<Load> {
    s.map_values(|m: MemoryStats| m.usage_percent)
}

/// Mean and peak of `loads`; `None` when there are none, so an empty
/// series needs no division.
pub fn summarize(loads: &Vec<Load>) -> (r: Option<LoadSummary>)
    requires
        all_wf(loads@),
    ensures
        r == summary_of(loads@),
        r is None <==> loads@.len() == 0,
{
    if loads.len() == 0 {
        return None;
    }
    // The exact sum, `num / den`, needs more than any fixed width: its
    // denominator is a product of all the wholes.
    let ghost lmax: int = LOAD_MAX as int;
    let mut num: Vec<u32> = from_u128(0);
    let mut den: Vec<u32> = from_u128(1);
    let mut peak: u128 = 0;
    let mut i: usize = 0;
    assert(loads@.take(0) == Seq::<Load>::empty());
    while i < loads.len()
        invariant
            all_wf(loads@),
            lmax == LOAD_MAX as int,
            i <= loads@.len(),
            value(num@) == load_sum(loads@.take(i as int)).0,
            value(den@) == load_sum(loads@.take(i as int)).1,
            0 <= value(num@) <= i * lmax * value(den@),
            value(den@) >= 1,
            peak == peak_hundredths(loads@.take(i as int)),
        decreases loads.len() - i,
    {
        let ghost prefix = loads@.take(i + 1);
        assert(prefix.drop_last() == loads@.take(i as int));
        assert(prefix.last() == loads@[i as int]);
        assert(loads@[i as int].wf());
        let l = loads[i];
        let h = l.hundredths();
        if h > peak {
            peak = h;
        }
        if l.whole != 0 {
            let scaled_num = mul_small(&num, l.whole);
            let scaled_part = mul_small(&den, l.part);
            let next_num = plus(&scaled_num, &scaled_part);
            let next_den = mul_small(&den, l.whole);
            proof {
                let n0 = value(num@);
                let d0 = value(den@);
                let w = l.whole as int;
                let p = l.part as int;
                assert(0 <= n0 * w + p * d0 <= (i + 1) * lmax * (d0 * w)) by (nonlinear_arith)
                    requires
                        0 <= n0 <= i * lmax * d0,
                        d0 >= 1,
                        1 <= w,
                        0 <= p <= lmax,
                        i >= 0,
                ;
                assert(d0 * w >= 1) by (nonlinear_arith)
                    requires
                        d0 >= 1,
                        w >= 1,
                ;
            }
            num = next_num;
            den = next_den;
        } else {
            proof {
                let n0 = value(num@);
                let d0 = value(den@);
                assert(n0 <= (i + 1) * lmax * d0) by (nonlinear_arith)
                    requires
                        0 <= n0 <= i * lmax * d0,
                        d0 >= 1,
                        lmax >= 0,
                ;
            }
        }
        i += 1;
    }
    assert(loads@.take(i as int) == loads@);
    let count: u128 = loads.len() as u128;
    // mean = floor(x / y) with x = 20000 * num + count * den and
    // y = 2 * count * den; it lies in [0, 10000 * LOAD_MAX].
    let x = plus(&mul_small(&num, 20000), &mul_small(&den, count));
    let y = mul_small(&den, 2 * count);
    let mut lo: u128 = 0;
    let mut hi: u128 = LOAD_MAX * 10000 + 1;
    proof {
        let n0 = value(num@);
        let d0 = value(den@);
        let c = count as int;
        assert(value(x@) < value(y@) * hi) by (nonlinear_arith)
            requires
                value(x@) == 20000 * n0 + c * d0,
                value(y@) == 2 * c * d0,
                0 <= n0 <= c * lmax * d0,
                d0 >= 1,
                c >= 1,
                hi == lmax * 10000 + 1,
        ;
        assert(value(y@) >= 1) by (nonlinear_arith)
            requires
                value(y@) == 2 * c * d0,
                d0 >= 1,
                c >= 1,
        ;
    }
    while hi - lo > 1
        invariant
            lo < hi <= LOAD_MAX * 10000 + 1,
            value(y@) >= 1,
            value(y@) * lo <= value(x@),
            value(x@) < value(y@) * hi,
        decreases hi - lo,
    {
        let mid = lo + (hi - lo) / 2;
        if le(&mul_small(&y, mid), &x) {
            lo = mid;
        } else {
            hi = mid;
        }
    }
    proof {
        let xv = value(x@);
        let yv = value(y@);
        assert(hi == lo + 1);
        assert(xv - yv * lo < yv) by (nonlinear_arith)
            requires
                xv < yv * hi,
                hi == lo + 1,
        ;
        lemma_fundamental_div_mod_converse(xv, yv, lo as int, xv - yv * lo);
        assert(yv == 2 * (count as int) * load_sum(loads@).1);
    }
    Some(LoadSummary { mean_hundredths: lo, peak_hundredths: peak })
}

/// Mean and peak of each CPU utilization over `series`; `None` when it is
/// empty.
pub fn cpu_summary(series: &Vec<CpuStats>) -> (r: Option<CpuSummary>)
    requires
        forall|i: int| 0 <= i < series@.len() ==> (#[trigger] series@[i]).wf(),
    ensures
        r is None <==> series@.len() == 0,
        r matches Some(c) ==> {
            &&& summary_of(total_loads(series@)) == Some(c.total)
            &&& summary_of(user_loads(series@)) == Some(c.user)
            &&& summary_of(system_loads(series@)) == Some(c.system)
        },
{
    let mut totals: Vec<Load> = Vec::new();
    let mut users: Vec<Load> = Vec::new();
    let mut systems: Vec<Load> = Vec::new();
    let mut i: usize = 0;
    while i < series.len()
        invariant
            i <= series@.len(),
            forall|j: int| 0 <= j < series@.len() ==> (#[trigger] series@[j]).wf(),
            totals@ == total_loads(series@.take(i as int)),
            users@ == user_loads(series@.take(i as int)),
            systems@ == system_loads(series@.take(i as int)),
        decreases series.len() - i,
    {
        let s = series[i];
        totals.push(s.total_load);
        users.push(s.user_load);
        systems.push(s.system_load);
        assert(series@.take(i + 1) == series@.take(i as int).push(s));
        assert(totals@ == total_loads(series@.take(i + 1)));
        assert(users@ == user_loads(series@.take(i + 1)));
        assert(systems@ == system_loads(series@.take(i + 1)));
        i += 1;
    }
    assert(series@.take(i as int) == series@);
    assert(all_wf(totals@) && all_wf(users@) && all_wf(systems@)) by {
        assert forall|j: int| 0 <= j < series@.len() implies #[trigger] totals@[j].wf()
            && users@[j].wf() && systems@[j].wf() by {
            assert(series@[j].wf());
        }
    }
    match (summarize(&totals), summarize(&users), summarize(&systems)) {
        (Some(total), Some(user), Some(system)) => Some(CpuSummary { total, user, system }),
        _ => None,
    }
}

/// Mean and peak of the memory utilization over `series`; `None` when it is
/// empty.
pub fn memory_summary(series: &Vec<MemoryStats>) -> (r: Option<LoadSummary>)
    requires
        forall|i: int| 0 <= i < series@.len() ==> (#[trigger] series@[i]).wf(),
    ensures
        r == summary_of(usage_loads(series@)),
        r is None <==> series@.len() == 0,
{
    let mut usages: Vec<Load> = Vec::new();
    let mut i: usize = 0;
    while i < series.len()
        invariant
            i <= series@.len(),
            forall|j: int| 0 <= j < series@.len() ==> (#[trigger] series@[j]).wf(),
            usages@ == usage_loads(series@.take(i as int)),
        decreases series.len() - i,
    {
        let m = series[i];
        usages.push(m.usage_percent);
        assert(series@.take(i + 1) == series@.take(i as int).push(m));
        assert(usages@ == usage_loads(series@.take(i + 1)));
        i += 1;
    }
    assert(series@.take(i as int) == series@);
    assert(all_wf(usages@)) by {
        assert forall|j: int| 0 <= j < usages@.len() implies #[trigger] usages@[j].wf() by {
            assert(series@[j].wf());
        }
    }
    summarize(&usages)
}

} // verus!
