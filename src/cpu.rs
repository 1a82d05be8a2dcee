//! CPU utilization from successive readings of cumulative time counters.

use vstd::prelude::*;
use crate::load::{Load, load_of, saturating_diff, LOAD_MAX};
use crate::text::{
    ParseError, decimal_u64, first_line, first_line_of, parse_decimal_u64, split_words, views_of,
    words,
};

verus! {

/// One reading of the cumulative CPU time counters, in clock ticks.
#[derive(Debug, Clone, Copy, Default, PartialEq, Eq)]
pub struct CpuTime {
    pub user: u64,
    pub nice: u64,
    pub system: u64,
    pub idle: u64,
    pub iowait: u64,
    pub irq: u64,
    pub softirq: u64,
    pub steal: u64,
}

/// One CPU sample: when it was taken and the three utilizations.
#[derive(Debug, Clone, Copy, PartialEq, Eq)]
pub struct CpuStats {
    /// Milliseconds since the Unix epoch.
    pub time: u64,
    pub total_load: Load,
    pub user_load: Load,
    pub system_load: Load,
}

impl CpuTime {
    pub open spec fn spec_total(self) -> int {
        self.user + self.nice + self.system + self.idle + self.iowait + self.irq + self.softirq
            + self.steal
    }

    pub open spec fn spec_active(self) -> int {
        self.spec_total() - self.idle - self.iowait
    }

    pub open spec fn spec_user_time(self) -> int {
        self.user + self.nice
    }

    pub open spec fn spec_system_time(self) -> int {
        self.system + self.irq + self.softirq
    }

    /// All eight counters together.
    pub fn total(&self) -> (r: u128)
        ensures
            r == self.spec_total(),
            r <= LOAD_MAX,
    {
        self.user as u128 + self.nice as u128 + self.system as u128 + self.idle as u128
            + self.iowait as u128 + self.irq as u128 + self.softirq as u128 + self.steal as u128
    }

    /// All counters but idle and iowait.
    pub fn active(&self) -> (r: u128)
        ensures
            r == self.spec_active(),
            r <= LOAD_MAX,
    {
        self.user as u128 + self.nice as u128 + self.system as u128 + self.irq as u128
            + self.softirq as u128 + self.steal as u128
    }

    /// Time in user mode, niced or not.
    pub fn user_time(&self) -> (r: u128)
        ensures
            r == self.spec_user_time(),
            r <= LOAD_MAX,
    {
        self.user as u128 + self.nice as u128
    }

    /// Time in the kernel, interrupts included.
    pub fn system_time(&self) -> (r: u128)
        ensures
            r == self.spec_system_time(),
            r <= LOAD_MAX,
    {
        self.system as u128 + self.irq as u128 + self.softirq as u128
    }
}

/// The counters that the first line of `/proc/stat` holds: the word `cpu`,
/// then eight unsigned decimal counters (user, nice, system, idle, iowait,
/// irq, softirq, steal); any further words are ignored.
pub open spec fn proc_stat_reading(s: Seq<char>) -> Result<CpuTime, ParseError> {
    let ws = words(first_line(s));
    if s.len() == 0 {
        Err(ParseError::Empty)
    } else if ws.len() < 9 || ws[0] != seq!['c', 'p', 'u'] {
        Err(ParseError::InvalidFormat)
    } else if forall|k: int| 1 <= k <= 8 ==> (#[trigger] decimal_u64(ws[k])) is Some {
        Ok(
            CpuTime {
                user: decimal_u64(ws[1])->0,
                nice: decimal_u64(ws[2])->0,
                system: decimal_u64(ws[3])->0,
                idle: decimal_u64(ws[4])->0,
                iowait: decimal_u64(ws[5])->0,
                irq: decimal_u64(ws[6])->0,
                softirq: decimal_u64(ws[7])->0,
                steal: decimal_u64(ws[8])->0,
            },
        )
    } else {
        Err(ParseError::InvalidField)
    }
}

/// The sample that a reading `cur` taken at `time` gives against the
/// baseline `prev`. Without a baseline every utilization is zero. Otherwise
/// each is a difference of `cur` and `prev` over the difference of their
/// totals; a difference that would be negative counts as zero, and so do all
/// three utilizations when the totals do not differ.
pub open spec fn cpu_sample(prev: Option<CpuTime>, cur: CpuTime, time: u64) -> CpuStats {
    match prev {
        None => CpuStats {
            time,
            total_load: Load { part: 0, whole: 0 },
            user_load: Load { part: 0, whole: 0 },
            system_load: Load { part: 0, whole: 0 },
        },
        Some(p) => {
            let total_delta = saturating_diff(cur.spec_total(), p.spec_total());
            CpuStats {
                time,
                total_load: load_of(
                    saturating_diff(cur.spec_active(), p.spec_active()),
                    total_delta,
                ),
                user_load: load_of(
                    saturating_diff(cur.spec_user_time(), p.spec_user_time()),
                    total_delta,
                ),
                system_load: load_of(
                    saturating_diff(cur.spec_system_time(), p.spec_system_time()),
                    total_delta,
                ),
            }
        },
    }
}

/// When the totals of two readings do not differ, all three utilizations
/// are zero, whatever the other counters did.
pub proof fn lemma_no_elapsed_time_gives_zero_loads(prev: CpuTime, cur: CpuTime, time: u64)
    requires
        saturating_diff(cur.spec_total(), prev.spec_total()) == 0,
    ensures
        cpu_sample(Some(prev), cur, time).total_load.is_zero(),
        cpu_sample(Some(prev), cur, time).user_load.is_zero(),
        cpu_sample(Some(prev), cur, time).system_load.is_zero(),
{
}

/// Without a baseline, the sample has all three utilizations zero,
/// whatever the reading holds.
pub proof fn lemma_cold_start_gives_zero_loads(cur: CpuTime, time: u64)
    ensures
        cpu_sample(None, cur, time).total_load.is_zero(),
        cpu_sample(None, cur, time).user_load.is_zero(),
        cpu_sample(None, cur, time).system_load.is_zero(),
{
}

/// When the active counters grow by 100 ticks while the total grows by
/// 200, the total utilization is exactly 50 percent.
pub proof fn lemma_half_active_is_fifty_percent(prev: CpuTime, cur: CpuTime, time: u64)
    requires
        cur.spec_active() == prev.spec_active() + 100,
        cur.spec_total() == prev.spec_total() + 200,
    ensures
        cpu_sample(Some(prev), cur, time).total_load.equals_percent(50, 1),
{
}

impl CpuStats {
    pub open spec fn wf(self) -> bool {
        self.total_load.wf() && self.user_load.wf() && self.system_load.wf()
    }
}

/// Turns successive counter readings into utilizations. It keeps one
/// reading, the baseline that the next one is measured against.
pub struct CpuCollector {
    last_cpu_time: Option<CpuTime>,
}

impl CpuCollector {
    /// The reading that the next one is measured against, if any.
    pub closed spec fn baseline(&self) -> Option<CpuTime> {
        self.last_cpu_time
    }

    /// A collector without a baseline.
    pub fn new() -> (r: Self)
        ensures
            r.baseline() is None,
    {
        Self { last_cpu_time: None }
    }

    /// The sample for the reading `cur` taken at `now_ms`; `cur` becomes
    /// the baseline.
    pub fn collect_reading(&mut self, now_ms: u64, cur: CpuTime) -> (r: CpuStats)
        ensures
            r == cpu_sample(old(self).baseline(), cur, now_ms),
            r.wf(),
            final(self).baseline() == Some(cur),
    {
        let stats = match &self.last_cpu_time {
            None => CpuStats {
                time: now_ms,
                total_load: Load::zero(),
                user_load: Load::zero(),
                system_load: Load::zero(),
            },
            Some(last) => {
                let total_delta = cur.total().saturating_sub(last.total());
                let active_delta = cur.active().saturating_sub(last.active());
                let user_delta = cur.user_time().saturating_sub(last.user_time());
                let system_delta = cur.system_time().saturating_sub(last.system_time());
                CpuStats {
                    time: now_ms,
                    total_load: Load::ratio(active_delta, total_delta),
                    user_load: Load::ratio(user_delta, total_delta),
                    system_load: Load::ratio(system_delta, total_delta),
                }
            },
        };
        self.last_cpu_time = Some(cur);
        stats
    }

    /// Reads the text of `/proc/stat` taken at `now_ms` and gives its
    /// sample. On a parse failure the error is returned and the baseline
    /// stays as it was.
    pub fn collect(&mut self, now_ms: u64, proc_stat: &str) -> (r: Result<CpuStats, ParseError>)
        ensures
            match proc_stat_reading(proc_stat@) {
                Ok(cur) => {
                    &&& r == Ok::<CpuStats, ParseError>(cpu_sample(old(self).baseline(), cur, now_ms))
                    &&& final(self).baseline() == Some(cur)
                },
                Err(e) => {
                    &&& r == Err::<CpuStats, ParseError>(e)
                    &&& final(self).baseline() == old(self).baseline()
                },
            },
            r matches Ok(s) ==> s.wf(),
    {
        match Self::parse_proc_stat(proc_stat) {
            Ok(cur) => Ok(self.collect_reading(now_ms, cur)),
            Err(e) => Err(e),
        }
    }

    /// Reads the counters from the text of `/proc/stat`.
    pub fn parse_proc_stat(content: &str) -> (r: Result<CpuTime, ParseError>)
        ensures
            r == proc_stat_reading(content@),
    {
        if content.unicode_len() == 0 {
            return Err(ParseError::Empty);
        }
        let line = first_line_of(content);
        let parts = split_words(&line);
        let ghost ws = words(first_line(content@));
        assert(views_of(parts@) == ws);
        if parts.len() < 9 {
            return Err(ParseError::InvalidFormat);
        }
        assert(ws[0] == parts@[0]@);
        let head = &parts[0];
        if !(head.len() == 3 && head[0] == 'c' && head[1] == 'p' && head[2] == 'u') {
            assert(ws[0] != seq!['c', 'p', 'u']) by {
                if ws[0] == seq!['c', 'p', 'u'] {
                    assert(head@[0] == 'c' && head@[1] == 'p' && head@[2] == 'u');
                }
            }
            return Err(ParseError::InvalidFormat);
        }
        assert(ws[0] == seq!['c', 'p', 'u']);
        let mut values: Vec<u64> = Vec::new();
        let mut k: usize = 1;
        while k <= 8
            invariant
                1 <= k <= 9,
                content@.len() > 0,
                ws == words(first_line(content@)),
                ws[0] == seq!['c', 'p', 'u'],
                parts@.len() >= 9,
                views_of(parts@) == ws,
                values@.len() == k - 1,
                forall|j: int| 1 <= j < k ==> #[trigger] decimal_u64(ws[j]) == Some(values@[j - 1]),
            decreases 9 - k,
        {
            assert(ws[k as int] == parts@[k as int]@);
            match parse_decimal_u64(&parts[k]) {
                Some(v) => values.push(v),
                None => {
                    assert(decimal_u64(ws[k as int]) is None);
                    return Err(ParseError::InvalidField);
                },
            }
            k += 1;
        }
        assert(decimal_u64(ws[1]) == Some(values@[0]));
        assert(decimal_u64(ws[2]) == Some(values@[1]));
        assert(decimal_u64(ws[3]) == Some(values@[2]));
        assert(decimal_u64(ws[4]) == Some(values@[3]));
        assert(decimal_u64(ws[5]) == Some(values@[4]));
        assert(decimal_u64(ws[6]) == Some(values@[5]));
        assert(decimal_u64(ws[7]) == Some(values@[6]));
        assert(decimal_u64(ws[8]) == Some(values@[7]));
        assert(forall|j: int| 1 <= j <= 8 ==> (#[trigger] decimal_u64(ws[j])) is Some) by {
            assert forall|j: int| 1 <= j <= 8 implies (#[trigger] decimal_u64(ws[j])) is Some by {
                assert(decimal_u64(ws[j]) == Some(values@[j - 1]));
            }
        }
        Ok(
            CpuTime {
                user: values[0],
                nice: values[1],
                system: values[2],
                idle: values[3],
                iowait: values[4],
                irq: values[5],
                softirq: values[6],
                steal: values[7],
            },
        )
    }
}

impl Default for CpuCollector {
    fn default() -> (r: Self)
        ensures
            r.baseline() is None,
    {
        Self::new()
    }
}

} // verus!
