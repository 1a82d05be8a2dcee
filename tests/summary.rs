use workflow_telemetry::cpu::CpuStats;
use workflow_telemetry::load::Load;
use workflow_telemetry::memory::MemoryStats;
use workflow_telemetry::summary::{cpu_summary, memory_summary, summarize, LoadSummary};

fn cpu(time: u64, total: u128, user: u128, system: u128) -> CpuStats {
    CpuStats {
        time,
        total_load: Load { part: total, whole: 100 },
        user_load: Load { part: user, whole: 100 },
        system_load: Load { part: system, whole: 100 },
    }
}

#[test]
fn empty_series_has_no_summary() {
    assert_eq!(summarize(&vec![]), None);
    assert_eq!(cpu_summary(&vec![]), None);
    assert_eq!(memory_summary(&vec![]), None);
}

#[test]
fn cpu_summary_mean_and_peak() {
    let data = vec![cpu(1000, 10, 6, 4), cpu(2000, 20, 12, 8)];
    let s = cpu_summary(&data).unwrap();
    assert_eq!(s.total, LoadSummary { mean_hundredths: 1500, peak_hundredths: 2000 });
    assert_eq!(s.user, LoadSummary { mean_hundredths: 900, peak_hundredths: 1200 });
    assert_eq!(s.system, LoadSummary { mean_hundredths: 600, peak_hundredths: 800 });
}

#[test]
fn summary_rounds_to_nearest() {
    let loads = vec![Load { part: 1, whole: 3 }, Load { part: 2, whole: 3 }, Load::zero()];
    // exact mean 33.333...%, exact peak 66.666...%
    let s = summarize(&loads).unwrap();
    assert_eq!(s, LoadSummary { mean_hundredths: 3333, peak_hundredths: 6667 });
}

#[test]
fn summary_mean_uses_exact_loads() {
    let loads = vec![Load { part: 1, whole: 3 }, Load { part: 2, whole: 3 }];
    let s = summarize(&loads).unwrap();
    assert_eq!(s, LoadSummary { mean_hundredths: 5000, peak_hundredths: 6667 });
    // 33.333...% and 16.666...%: the mean is exactly 25%
    let mixed = vec![Load { part: 1, whole: 3 }, Load { part: 1, whole: 6 }];
    assert_eq!(
        summarize(&mixed).unwrap(),
        LoadSummary { mean_hundredths: 2500, peak_hundredths: 3333 }
    );
}

#[test]
fn summary_of_one_load_rounds_half_up() {
    let loads = vec![Load { part: 12346, whole: 100000 }];
    let s = summarize(&loads).unwrap();
    assert_eq!(s, LoadSummary { mean_hundredths: 1235, peak_hundredths: 1235 });
    let half = vec![Load { part: 1, whole: 20000 }];
    assert_eq!(summarize(&half).unwrap().mean_hundredths, 1);
}

#[test]
fn summary_of_largest_loads() {
    let max = workflow_telemetry::load::LOAD_MAX;
    let loads = vec![Load { part: max, whole: 1 }, Load { part: max, whole: 1 }];
    let s = summarize(&loads).unwrap();
    assert_eq!(s.mean_hundredths, max * 10000);
    assert_eq!(s.peak_hundredths, max * 10000);
}

#[test]
fn memory_summary_mean_and_peak() {
    let data = vec![
        MemoryStats { time: 1, usage_percent: Load { part: 1, whole: 4 }, used_mb: 1, total_mb: 4 },
        MemoryStats { time: 2, usage_percent: Load { part: 3, whole: 4 }, used_mb: 3, total_mb: 4 },
    ];
    let s = memory_summary(&data).unwrap();
    assert_eq!(s, LoadSummary { mean_hundredths: 5000, peak_hundredths: 7500 });
}
