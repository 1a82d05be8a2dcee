//! The two append-only series and the latch that lets them be flushed at
//! most once per process.

use vstd::prelude::*;
use crate::cpu::CpuStats;
use crate::memory::MemoryStats;
use crate::text::ParseError;

verus! {

/// A point-in-time copy of both series.
#[derive(Debug)]
pub struct TelemetrySnapshot {
    pub cpu: Vec<CpuStats>,
    pub memory: Vec<MemoryStats>,
}

/// The CPU and memory series, in collection order. Samples are only ever
/// appended.
pub struct TimeSeriesStore {
    cpu: Vec<CpuStats>,
    memory: Vec<MemoryStats>,
}

/// `s` followed by the sample of `r`, if there is one.
pub open spec fn appended<T>(s: Seq<T>, r: Result<T, ParseError>) -> Seq<T> {
    match r {
        Ok(x) => s.push(x),
        Err(_) => s,
    }
}

fn copy_series<T: Copy>(v: &Vec<T>) -> (r: Vec<T>)
    ensures
        r@ == v@,
{
    let mut out: Vec<T> = Vec::new();
    let mut i: usize = 0;
    while i < v.len()
        invariant
            i <= v@.len(),
            out@ == v@.take(i as int),
        decreases v.len() - i,
    {
        out.push(v[i]);
        assert(out@ == v@.take(i + 1));
        i += 1;
    }
    assert(v@.take(i as int) == v@);
    out
}

impl TimeSeriesStore {
    pub closed spec fn cpu_series(&self) -> Seq<CpuStats> {
        self.cpu@
    }

    pub closed spec fn memory_series(&self) -> Seq<MemoryStats> {
        self.memory@
    }

    /// Both series empty.
    pub fn new() -> (r: Self)
        ensures
            r.cpu_series() == Seq::<CpuStats>::empty(),
            r.memory_series() == Seq::<MemoryStats>::empty(),
    {
        TimeSeriesStore { cpu: Vec::new(), memory: Vec::new() }
    }

    pub fn push_cpu(&mut self, sample: CpuStats)
        ensures
            final(self).cpu_series() == old(self).cpu_series().push(sample),
            final(self).memory_series() == old(self).memory_series(),
    {
        self.cpu.push(sample);
    }

    pub fn push_memory(&mut self, sample: MemoryStats)
        ensures
            final(self).cpu_series() == old(self).cpu_series(),
            final(self).memory_series() == old(self).memory_series().push(sample),
    {
        self.memory.push(sample);
    }

    /// Appends what one tick collected: each metric that succeeded adds
    /// one sample to its series; one that failed adds nothing and does not
    /// keep the other from being added.
    pub fn record_tick(
        &mut self,
        cpu: Result<CpuStats, ParseError>,
        memory: Result<MemoryStats, ParseError>,
    )
        ensures
            final(self).cpu_series() == appended(old(self).cpu_series(), cpu),
            final(self).memory_series() == appended(old(self).memory_series(), memory),
    {
        if let Ok(s) = cpu {
            self.push_cpu(s);
        }
        if let Ok(s) = memory {
            self.push_memory(s);
        }
    }

    pub fn cpu_len(&self) -> (r: usize)
        ensures
            r == self.cpu_series().len(),
    {
        self.cpu.len()
    }

    pub fn memory_len(&self) -> (r: usize)
        ensures
            r == self.memory_series().len(),
    {
        self.memory.len()
    }

    /// A copy of both series as they stand.
    pub fn snapshot(&self) -> (r: TelemetrySnapshot)
        ensures
            r.cpu@ == self.cpu_series(),
            r.memory@ == self.memory_series(),
    {
        TelemetrySnapshot { cpu: copy_series(&self.cpu), memory: copy_series(&self.memory) }
    }
}

/// The outcome of a flush request on a latch that has (`flushed`) or has
/// not flushed yet: the latch is then set, and only a first request yields
/// the contents of the store to persist.
pub open spec fn flush_outcome(
    flushed: bool,
    cpu: Seq<CpuStats>,
    memory: Seq<MemoryStats>,
) -> (bool, Option<(Seq<CpuStats>, Seq<MemoryStats>)>) {
    if flushed {
        (true, None)
    } else {
        (true, Some((cpu, memory)))
    }
}

/// The outcomes of flush requests made in order on a latch that starts as
/// `flushed`, the store holding `contents[i]` at the `i`-th request.
pub open spec fn flush_outcomes(
    flushed: bool,
    contents: Seq<(Seq<CpuStats>, Seq<MemoryStats>)>,
) -> Seq<Option<(Seq<CpuStats>, Seq<MemoryStats>)>>
    decreases contents.len(),
{
    if contents.len() == 0 {
        Seq::empty()
    } else {
        let (next, out) = flush_outcome(flushed, contents[0].0, contents[0].1);
        seq![out] + flush_outcomes(next, contents.drop_first())
    }
}

proof fn lemma_flushed_latch_yields_nothing(contents: Seq<(Seq<CpuStats>, Seq<MemoryStats>)>)
    ensures
        flush_outcomes(true, contents).len() == contents.len(),
        forall|i: int| 0 <= i < contents.len() ==> (#[trigger] flush_outcomes(true, contents)[i]) is None,
    decreases contents.len(),
{
    if contents.len() > 0 {
        lemma_flushed_latch_yields_nothing(contents.drop_first());
        let outs = flush_outcomes(true, contents);
        assert forall|i: int| 0 <= i < contents.len() implies (#[trigger] outs[i]) is None by {
            if i > 0 {
                assert(outs[i] == flush_outcomes(true, contents.drop_first())[i - 1]);
            }
        }
    }
}

/// However many flush requests a fresh latch receives, and whatever the
/// store holds at each, exactly one yields a snapshot: the first, with the
/// contents at that moment.
pub proof fn lemma_flush_at_most_once(contents: Seq<(Seq<CpuStats>, Seq<MemoryStats>)>)
    requires
        contents.len() > 0,
    ensures
        flush_outcomes(false, contents).len() == contents.len(),
        flush_outcomes(false, contents)[0] == Some(contents[0]),
        forall|i: int| 1 <= i < contents.len() ==> (#[trigger] flush_outcomes(false, contents)[i]) is None,
{
    lemma_flushed_latch_yields_nothing(contents.drop_first());
    let outs = flush_outcomes(false, contents);
    assert forall|i: int| 1 <= i < contents.len() implies (#[trigger] outs[i]) is None by {
        assert(outs[i] == flush_outcomes(true, contents.drop_first())[i - 1]);
    }
}

/// Guards the flush of the series: whichever of the termination path and
/// the normal completion asks first gets the snapshot, and no one after.
pub struct FlushLatch {
    flushed: bool,
}

impl FlushLatch {
    pub closed spec fn has_flushed(&self) -> bool {
        self.flushed
    }

    pub fn new() -> (r: Self)
        ensures
            !r.has_flushed(),
    {
        FlushLatch { flushed: false }
    }

    /// The snapshot to persist, on the first request only.
    pub fn try_flush(&mut self, store: &TimeSeriesStore) -> (r: Option<TelemetrySnapshot>)
        ensures
            final(self).has_flushed() == flush_outcome(
                old(self).has_flushed(),
                store.cpu_series(),
                store.memory_series(),
            ).0,
            match flush_outcome(old(self).has_flushed(), store.cpu_series(), store.memory_series()).1 {
                Some((c, m)) => r matches Some(s) && s.cpu@ == c && s.memory@ == m,
                None => r is None,
            },
    {
        if self.flushed {
            return None;
        }
        self.flushed = true;
        Some(store.snapshot())
    }
}

} // verus!
