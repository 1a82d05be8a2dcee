use workflow_telemetry::cpu::{CpuCollector, CpuTime};
use workflow_telemetry::load::Load;
use workflow_telemetry::text::ParseError;

const SAMPLE: &str = "cpu  74608 2520 24433 1117073 6176 4054 500 100 0 0";

fn reading(user: u64, nice: u64, system: u64, idle: u64, iowait: u64) -> CpuTime {
    CpuTime { user, nice, system, idle, iowait, irq: 0, softirq: 0, steal: 0 }
}

#[test]
fn test_cpu_time_calculations() {
    let cpu_time = CpuTime {
        user: 1000,
        nice: 100,
        system: 500,
        idle: 5000,
        iowait: 200,
        irq: 50,
        softirq: 50,
        steal: 100,
    };

    assert_eq!(cpu_time.total(), 7000);
    assert_eq!(cpu_time.active(), 1800);
    assert_eq!(cpu_time.user_time(), 1100);
    assert_eq!(cpu_time.system_time(), 600);
}

#[test]
fn test_parse_proc_stat() {
    let sample = "cpu  74608 2520 24433 1117073 6176 4054 500 100 0 0";
    let cpu_time = CpuCollector::parse_proc_stat(sample).expect("Failed to parse");

    assert_eq!(cpu_time.user, 74608);
    assert_eq!(cpu_time.nice, 2520);
    assert_eq!(cpu_time.system, 24433);
    assert_eq!(cpu_time.idle, 1117073);
}

#[test]
fn parse_reads_all_eight_counters() {
    let t = CpuCollector::parse_proc_stat(SAMPLE).unwrap();
    assert_eq!(
        t,
        CpuTime {
            user: 74608,
            nice: 2520,
            system: 24433,
            idle: 1117073,
            iowait: 6176,
            irq: 4054,
            softirq: 500,
            steal: 100,
        }
    );
}

#[test]
fn parse_uses_first_line_only() {
    let text = "cpu 1 2 3 4 5 6 7 8\ncpu0 9 9 9 9 9 9 9 9\nintr 5\n";
    let t = CpuCollector::parse_proc_stat(text).unwrap();
    assert_eq!(t.user, 1);
    assert_eq!(t.steal, 8);
}

#[test]
fn parse_accepts_tabs_carriage_return_and_plus_sign() {
    let t = CpuCollector::parse_proc_stat("\tcpu\t+1 2 3 4 5 6 7 8\r\nrest").unwrap();
    assert_eq!(t.user, 1);
    assert_eq!(t.steal, 8);
}

#[test]
fn parse_accepts_largest_counter() {
    let t = CpuCollector::parse_proc_stat("cpu 18446744073709551615 0 0 0 0 0 0 0").unwrap();
    assert_eq!(t.user, u64::MAX);
    assert_eq!(t.total(), u64::MAX as u128);
}

#[test]
fn parse_empty_source_is_empty_error() {
    assert_eq!(CpuCollector::parse_proc_stat(""), Err(ParseError::Empty));
}

#[test]
fn parse_short_or_foreign_line_is_format_error() {
    assert_eq!(CpuCollector::parse_proc_stat("cpu 1 2 3 4 5 6 7"), Err(ParseError::InvalidFormat));
    assert_eq!(CpuCollector::parse_proc_stat("cpu0 1 2 3 4 5 6 7 8"), Err(ParseError::InvalidFormat));
    assert_eq!(CpuCollector::parse_proc_stat("\ncpu 1 2 3 4 5 6 7 8"), Err(ParseError::InvalidFormat));
}

#[test]
fn parse_bad_counter_is_field_error() {
    assert_eq!(CpuCollector::parse_proc_stat("cpu 1 2 x 4 5 6 7 8"), Err(ParseError::InvalidField));
    assert_eq!(CpuCollector::parse_proc_stat("cpu 1 2 3 4 5 6 7 -8"), Err(ParseError::InvalidField));
    assert_eq!(CpuCollector::parse_proc_stat("cpu + 2 3 4 5 6 7 8"), Err(ParseError::InvalidField));
    assert_eq!(
        CpuCollector::parse_proc_stat("cpu 18446744073709551616 0 0 0 0 0 0 0"),
        Err(ParseError::InvalidField)
    );
}

#[test]
fn first_collect_gives_zero_loads() {
    let mut c = CpuCollector::new();
    let s = c.collect(1234, SAMPLE).unwrap();
    assert_eq!(s.time, 1234);
    assert_eq!(s.total_load, Load::zero());
    assert_eq!(s.user_load, Load::zero());
    assert_eq!(s.system_load, Load::zero());
}

#[test]
fn same_reading_twice_gives_zero_loads() {
    let mut c = CpuCollector::default();
    c.collect(1000, SAMPLE).unwrap();
    let s = c.collect(2000, SAMPLE).unwrap();
    assert_eq!(s.time, 2000);
    assert_eq!(s.total_load, Load::zero());
    assert_eq!(s.user_load, Load::zero());
    assert_eq!(s.system_load, Load::zero());
}

#[test]
fn half_active_delta_is_fifty_percent() {
    let mut c = CpuCollector::new();
    c.collect_reading(0, reading(1000, 0, 500, 5000, 0));
    // active grows by 100 (user 60, system 40), total by 200 (idle 100)
    let s = c.collect_reading(5000, reading(1060, 0, 540, 5100, 0));
    assert_eq!(s.total_load, Load { part: 100, whole: 200 });
    assert_eq!(s.user_load, Load { part: 60, whole: 200 });
    assert_eq!(s.system_load, Load { part: 40, whole: 200 });
    assert_eq!(s.total_load.hundredths(), 5000);
}

#[test]
fn backward_counters_saturate_at_zero() {
    let mut c = CpuCollector::new();
    c.collect_reading(0, reading(1000, 0, 500, 5000, 0));
    // user went backwards, idle moved forward: user delta counts as zero
    let s = c.collect_reading(1, reading(900, 0, 600, 5300, 0));
    assert_eq!(s.user_load, Load { part: 0, whole: 300 });
    assert_eq!(s.system_load, Load { part: 100, whole: 300 });
    assert_eq!(s.total_load, Load { part: 0, whole: 300 });
}

#[test]
fn loads_are_not_clamped() {
    let mut c = CpuCollector::new();
    c.collect_reading(0, reading(0, 0, 0, 1000, 0));
    // idle dropped while user grew: active delta exceeds total delta
    let s = c.collect_reading(1, reading(300, 0, 0, 800, 0));
    assert_eq!(s.total_load, Load { part: 300, whole: 100 });
    assert_eq!(s.total_load.hundredths(), 30000);
}

#[test]
fn failed_parse_keeps_baseline() {
    let mut c = CpuCollector::new();
    c.collect(0, "cpu 100 0 0 100 0 0 0 0").unwrap();
    assert_eq!(c.collect(1, "garbage"), Err(ParseError::InvalidFormat));
    let s = c.collect(2, "cpu 150 0 0 150 0 0 0 0").unwrap();
    assert_eq!(s.total_load, Load { part: 50, whole: 100 });
}

#[test]
fn first_read_failure_leaves_no_baseline() {
    let mut c = CpuCollector::new();
    assert_eq!(c.collect(0, ""), Err(ParseError::Empty));
    let s = c.collect(1, SAMPLE).unwrap();
    assert_eq!(s.total_load, Load::zero());
}
