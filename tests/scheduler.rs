use workflow_telemetry::cpu::CpuCollector;
use workflow_telemetry::memory::MemoryCollector;
use workflow_telemetry::scheduler::{SamplingScheduler, SchedulerAction, SchedulerState};
use workflow_telemetry::store::{FlushLatch, TimeSeriesStore};

const STAT: &str = "cpu 10 0 10 80 0 0 0 0";
const MEMINFO: &str = "MemTotal: 2048 kB\nMemAvailable: 1024 kB\n";

/// Runs the loop with the flag given for each decision; returns the actions.
fn drive(
    sched: &mut SamplingScheduler,
    store: &mut TimeSeriesStore,
    flags: &[bool],
) -> Vec<SchedulerAction> {
    let mut cpu = CpuCollector::new();
    let mem = MemoryCollector::new();
    let mut actions = Vec::new();
    for (i, &cancelled) in flags.iter().enumerate() {
        let a = sched.advance(cancelled);
        actions.push(a);
        match a {
            SchedulerAction::Tick => {
                let now = i as u64 * 1000;
                store.record_tick(cpu.collect(now, STAT), mem.collect(now, MEMINFO));
            }
            SchedulerAction::Sleep => {}
            SchedulerAction::Finish => break,
        }
    }
    actions
}

#[test]
fn uncancelled_run_ticks_max_iterations() {
    let mut sched = SamplingScheduler::new(3);
    assert_eq!(sched.state(), SchedulerState::Idle);
    let mut store = TimeSeriesStore::new();
    let actions = drive(&mut sched, &mut store, &[false; 10]);
    let (tick, sleep, finish) = (SchedulerAction::Tick, SchedulerAction::Sleep, SchedulerAction::Finish);
    assert_eq!(actions, vec![tick, sleep, tick, sleep, tick, finish]);
    assert_eq!(sched.state(), SchedulerState::Completed);
    assert_eq!(sched.ticks(), 3);
    assert_eq!(sched.max_iterations(), 3);
    assert_eq!(store.cpu_len(), 3);
    assert_eq!(store.memory_len(), 3);
}

#[test]
fn cancel_before_first_sleep_keeps_one_sample() {
    let mut sched = SamplingScheduler::new(3);
    let mut store = TimeSeriesStore::new();
    let actions = drive(&mut sched, &mut store, &[false, true, true, true]);
    assert_eq!(actions, vec![SchedulerAction::Tick, SchedulerAction::Finish]);
    assert_eq!(sched.state(), SchedulerState::Cancelled);
    assert_eq!(sched.ticks(), 1);
    assert_eq!(store.cpu_len(), 1);
    assert_eq!(store.memory_len(), 1);
}

#[test]
fn cancel_before_start_ticks_nothing() {
    let mut sched = SamplingScheduler::new(3);
    assert_eq!(sched.advance(true), SchedulerAction::Finish);
    assert_eq!(sched.state(), SchedulerState::Cancelled);
    assert_eq!(sched.ticks(), 0);
}

#[test]
fn cancel_after_last_tick_is_completion() {
    let mut sched = SamplingScheduler::new(1);
    assert_eq!(sched.advance(false), SchedulerAction::Tick);
    assert_eq!(sched.advance(true), SchedulerAction::Finish);
    assert_eq!(sched.state(), SchedulerState::Completed);
    assert_eq!(sched.ticks(), 1);
}

#[test]
fn zero_iterations_completes_at_once() {
    let mut sched = SamplingScheduler::new(0);
    assert_eq!(sched.advance(false), SchedulerAction::Finish);
    assert_eq!(sched.state(), SchedulerState::Completed);
    assert_eq!(sched.advance(false), SchedulerAction::Finish);
}

#[test]
fn failed_tick_appends_nothing_for_that_metric() {
    let mut store = TimeSeriesStore::new();
    let mut cpu = CpuCollector::new();
    let mem = MemoryCollector::new();
    store.record_tick(cpu.collect(0, "broken"), mem.collect(0, MEMINFO));
    assert_eq!(store.cpu_len(), 0);
    assert_eq!(store.memory_len(), 1);
}

#[test]
fn second_flush_yields_nothing() {
    let mut store = TimeSeriesStore::new();
    let mut cpu = CpuCollector::new();
    let mem = MemoryCollector::new();
    store.record_tick(cpu.collect(0, STAT), mem.collect(0, MEMINFO));
    let mut latch = FlushLatch::new();
    let first = latch.try_flush(&store).unwrap();
    store.record_tick(cpu.collect(1, STAT), mem.collect(1, MEMINFO));
    assert!(latch.try_flush(&store).is_none());
    assert_eq!(first.cpu.len(), 1);
    assert_eq!(first.memory.len(), 1);
    assert_eq!(store.cpu_len(), 2);
    let again = store.snapshot();
    assert_eq!(again.cpu.len(), 2);
    assert_eq!(again.cpu[0], first.cpu[0]);
}
