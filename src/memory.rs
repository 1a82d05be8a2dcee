//! Memory utilization from the totals of `/proc/meminfo`.

use vstd::prelude::*;
use crate::load::{Load, load_of, saturating_diff};
use crate::text::{
    ParseError, chars_of, decimal_u64, has_prefix, line_at, lines, parse_decimal_u64,
    split_words, suffix_from, words,
};

verus! {

/// Total and available memory, in KiB.
#[derive(Debug, Clone, Copy, PartialEq, Eq)]
pub struct MemoryReading {
    pub total_kb: u64,
    pub available_kb: u64,
}

/// One memory sample.
#[derive(Debug, Clone, Copy, PartialEq, Eq)]
pub struct MemoryStats {
    /// Milliseconds since the Unix epoch.
    pub time: u64,
    /// The share of the total memory that is in use.
    pub usage_percent: Load,
    pub used_mb: u64,
    pub total_mb: u64,
}

impl MemoryStats {
    pub open spec fn wf(self) -> bool {
        self.usage_percent.wf()
    }
}

pub open spec fn mem_total_key() -> Seq<char> {
    seq!['M', 'e', 'm', 'T', 'o', 't', 'a', 'l', ':']
}

pub open spec fn mem_available_key() -> Seq<char> {
    seq!['M', 'e', 'm', 'A', 'v', 'a', 'i', 'l', 'a', 'b', 'l', 'e', ':']
}

/// What follows `key` on the last of `ls` that starts with it.
pub open spec fn last_entry(ls: Seq<Seq<char>>, key: Seq<char>) -> Option<Seq<char>>
    decreases ls.len(),
{
    if ls.len() == 0 {
        None
    } else if key.is_prefix_of(ls.last()) {
        Some(ls.last().skip(key.len() as int))
    } else {
        last_entry(ls.drop_last(), key)
    }
}

/// The number that an entry's value starts with (the unit follows it).
pub open spec fn entry_value(rest: Seq<char>) -> Option<u64> {
    let ws = words(rest);
    if ws.len() > 0 {
        decimal_u64(ws[0])
    } else {
        None
    }
}

/// The totals in the text of `/proc/meminfo`: lines of the form
/// `Key: value [unit]`, of which `MemTotal:` and `MemAvailable:` are needed.
/// Where a key occurs twice, its last line counts.
pub open spec fn meminfo_reading(s: Seq<char>) -> Result<MemoryReading, ParseError> {
    let total = last_entry(lines(s), mem_total_key());
    let available = last_entry(lines(s), mem_available_key());
    if total is None || available is None {
        Err(ParseError::MissingKey)
    } else if entry_value(total->0) is None || entry_value(available->0) is None {
        Err(ParseError::InvalidField)
    } else {
        Ok(
            MemoryReading {
                total_kb: entry_value(total->0)->0,
                available_kb: entry_value(available->0)->0,
            },
        )
    }
}

/// The sample for a reading taken at `time`. Used memory is the total less
/// the available memory, or zero where more is available than the total;
/// megabytes are KiB divided by 1024, rounded down.
pub open spec fn memory_sample(m: MemoryReading, time: u64) -> MemoryStats {
    let used = saturating_diff(m.total_kb as int, m.available_kb as int);
    MemoryStats {
        time,
        usage_percent: load_of(used, m.total_kb as int),
        used_mb: (used / 1024) as u64,
        total_mb: (m.total_kb / 1024) as u64,
    }
}

pub open spec fn opt_view(o: Option<Vec<char>>) -> Option<Seq<char>> {
    match o {
        Some(v) => Some(v@),
        None => None,
    }
}

/// The number that an entry's value starts with.
fn read_entry_value(rest: &Vec<char>) -> (r: Option<u64>)
    ensures
        r == entry_value(rest@),
{
    let ws = split_words(rest);
    if ws.len() == 0 {
        return None;
    }
    assert(words(rest@)[0] == ws@[0]@);
    parse_decimal_u64(&ws[0])
}

/// Turns the memory totals into samples; it keeps no state.
pub struct MemoryCollector;

impl MemoryCollector {
    pub fn new() -> (r: Self) {
        MemoryCollector
    }

    /// The sample for `reading` taken at `now_ms`.
    pub fn snapshot(&self, now_ms: u64, reading: MemoryReading) -> (r: MemoryStats)
        ensures
            r == memory_sample(reading, now_ms),
            r.wf(),
    {
        let used_kb = reading.total_kb.saturating_sub(reading.available_kb);
        MemoryStats {
            time: now_ms,
            usage_percent: Load::ratio(used_kb as u128, reading.total_kb as u128),
            used_mb: used_kb / 1024,
            total_mb: reading.total_kb / 1024,
        }
    }

    /// Reads the text of `/proc/meminfo` taken at `now_ms` and gives its
    /// sample, or the parse failure.
    pub fn collect(&self, now_ms: u64, meminfo: &str) -> (r: Result<MemoryStats, ParseError>)
        ensures
            r == match meminfo_reading(meminfo@) {
                Ok(m) => Ok::<MemoryStats, ParseError>(memory_sample(m, now_ms)),
                Err(e) => Err::<MemoryStats, ParseError>(e),
            },
            r matches Ok(s) ==> s.wf(),
    {
        match Self::parse_meminfo(meminfo) {
            Ok(m) => Ok(self.snapshot(now_ms, m)),
            Err(e) => Err(e),
        }
    }

    /// Reads the totals from the text of `/proc/meminfo`.
    pub fn parse_meminfo(content: &str) -> (r: Result<MemoryReading, ParseError>)
        ensures
            r == meminfo_reading(content@),
    {
        let chars = chars_of(content);
        let total_key = vec!['M', 'e', 'm', 'T', 'o', 't', 'a', 'l', ':'];
        let available_key = vec!['M', 'e', 'm', 'A', 'v', 'a', 'i', 'l', 'a', 'b', 'l', 'e', ':'];
        assert(total_key@ == mem_total_key());
        assert(available_key@ == mem_available_key());
        let mut total_rest: Option<Vec<char>> = None;
        let mut available_rest: Option<Vec<char>> = None;
        let mut pos: usize = 0;
        let ghost mut seen: Seq<Seq<char>> = Seq::empty();
        assert(chars@.skip(0) == chars@);
        assert(seen + lines(chars@) == lines(chars@));
        while pos < chars.len()
            invariant
                pos <= chars@.len(),
                chars@ == content@,
                total_key@ == mem_total_key(),
                available_key@ == mem_available_key(),
                lines(chars@) == seen + lines(chars@.skip(pos as int)),
                opt_view(total_rest) == last_entry(seen, mem_total_key()),
                opt_view(available_rest) == last_entry(seen, mem_available_key()),
            decreases chars.len() - pos,
        {
            let line = line_at(&chars, pos);
            let ghost rest = chars@.skip(pos as int);
            proof {
                crate::text::lemma_first_line_len(rest);
            }
            if has_prefix(&line, &total_key) {
                total_rest = Some(suffix_from(&line, total_key.len()));
            } else if has_prefix(&line, &available_key) {
                available_rest = Some(suffix_from(&line, available_key.len()));
            }
            let ghost old_seen = seen;
            proof {
                seen = seen.push(line@);
                assert(seen.drop_last() == old_seen);
            }
            if line.len() < chars.len() - pos {
                assert(rest.skip(line@.len() + 1 as int) == chars@.skip(pos + line@.len() + 1));
                assert(lines(rest) == seq![line@] + lines(chars@.skip(pos + line@.len() + 1)));
                assert(old_seen + (seq![line@] + lines(chars@.skip(pos + line@.len() + 1)))
                    == seen + lines(chars@.skip(pos + line@.len() + 1)));
                pos = pos + line.len() + 1;
            } else {
                assert(lines(rest) == seq![line@]);
                assert(chars@.skip(chars@.len() as int) == Seq::<char>::empty());
                assert(old_seen + seq![line@] == seen + lines(Seq::<char>::empty()));
                pos = chars.len();
            }
        }
        assert(chars@.skip(pos as int) == Seq::<char>::empty());
        assert(seen + Seq::<Seq<char>>::empty() == seen);
        let total = match &total_rest {
            None => {
                return Err(ParseError::MissingKey);
            },
            Some(t) => t,
        };
        let available = match &available_rest {
            None => {
                return Err(ParseError::MissingKey);
            },
            Some(a) => a,
        };
        let total_kb = match read_entry_value(total) {
            None => {
                return Err(ParseError::InvalidField);
            },
            Some(v) => v,
        };
        let available_kb = match read_entry_value(available) {
            None => {
                return Err(ParseError::InvalidField);
            },
            Some(v) => v,
        };
        Ok(MemoryReading { total_kb, available_kb })
    }
}

} // verus!
