use workflow_telemetry::load::Load;
use workflow_telemetry::memory::{MemoryCollector, MemoryReading};
use workflow_telemetry::text::ParseError;

const MEMINFO: &str = "MemTotal:       16384000 kB\nMemFree:         1000000 kB\nMemAvailable:    4096000 kB\nBuffers:          100000 kB\n";

#[test]
fn half_used_memory_is_fifty_percent() {
    let c = MemoryCollector::new();
    let s = c.snapshot(7, MemoryReading { total_kb: 10_000_000, available_kb: 5_000_000 });
    assert_eq!(s.time, 7);
    assert_eq!(s.usage_percent, Load { part: 5_000_000, whole: 10_000_000 });
    assert_eq!(s.usage_percent.hundredths(), 5000);
    assert_eq!(s.used_mb, 5_000_000 / 1024);
    assert_eq!(s.used_mb, 4882);
    assert_eq!(s.total_mb, 9765);
}

#[test]
fn zero_total_memory_is_zero_percent() {
    let c = MemoryCollector::new();
    let s = c.snapshot(0, MemoryReading { total_kb: 0, available_kb: 0 });
    assert_eq!(s.usage_percent, Load::zero());
    assert_eq!(s.used_mb, 0);
    assert_eq!(s.total_mb, 0);
}

#[test]
fn available_above_total_counts_as_nothing_used() {
    let c = MemoryCollector::new();
    let s = c.snapshot(0, MemoryReading { total_kb: 2048, available_kb: 4096 });
    assert_eq!(s.usage_percent, Load { part: 0, whole: 2048 });
    assert_eq!(s.used_mb, 0);
    assert_eq!(s.total_mb, 2);
}

#[test]
fn parse_meminfo_reads_both_keys() {
    let m = MemoryCollector::parse_meminfo(MEMINFO).unwrap();
    assert_eq!(m, MemoryReading { total_kb: 16384000, available_kb: 4096000 });
}

#[test]
fn collect_meminfo_gives_sample() {
    let s = MemoryCollector::new().collect(99, MEMINFO).unwrap();
    assert_eq!(s.time, 99);
    assert_eq!(s.usage_percent, Load { part: 12288000, whole: 16384000 });
    assert_eq!(s.usage_percent.hundredths(), 7500);
    assert_eq!(s.used_mb, 12000);
    assert_eq!(s.total_mb, 16000);
}

#[test]
fn parse_meminfo_last_entry_counts() {
    let text = "MemTotal: 1 kB\nMemAvailable: 2 kB\nMemTotal: 3072 kB";
    let m = MemoryCollector::parse_meminfo(text).unwrap();
    assert_eq!(m, MemoryReading { total_kb: 3072, available_kb: 2 });
}

#[test]
fn parse_meminfo_missing_key() {
    assert_eq!(MemoryCollector::parse_meminfo("MemTotal: 100 kB\n"), Err(ParseError::MissingKey));
    assert_eq!(MemoryCollector::parse_meminfo(""), Err(ParseError::MissingKey));
    assert_eq!(
        MemoryCollector::parse_meminfo(" MemTotal: 100 kB\nMemAvailable: 50 kB\n"),
        Err(ParseError::MissingKey)
    );
}

#[test]
fn parse_meminfo_bad_value() {
    assert_eq!(
        MemoryCollector::parse_meminfo("MemTotal: lots kB\nMemAvailable: 50 kB\n"),
        Err(ParseError::InvalidField)
    );
    assert_eq!(
        MemoryCollector::parse_meminfo("MemTotal: 100 kB\nMemAvailable:\n"),
        Err(ParseError::InvalidField)
    );
    assert_eq!(
        MemoryCollector::new().collect(0, "MemTotal: 100 kB\nMemAvailable:\n"),
        Err(ParseError::InvalidField)
    );
}

#[test]
fn test_collect_memory() {
    let collector = MemoryCollector::new();
    let stats = collector.collect(1_700_000_000_000, MEMINFO);

    if let Ok(stats) = stats {
        assert!(stats.time > 0);
        assert!(stats.usage_percent.whole > 0);
        assert!(stats.usage_percent.part <= stats.usage_percent.whole);
        assert!(stats.usage_percent.hundredths() <= 10000);
        assert!(stats.total_mb > 0);
    } else {
        panic!("meminfo text did not parse");
    }
}
