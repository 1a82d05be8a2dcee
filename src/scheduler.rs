//! The decisions of the sampling loop: when to tick, when to sleep and when
//! to stop, for a bounded number of ticks with cooperative cancellation.
//! The caller performs each action and reports the cancellation flag.

use vstd::prelude::*;

verus! {

#[derive(Debug, Clone, Copy, PartialEq, Eq, Structural)]
pub enum SchedulerState {
    Idle,
    Running,
    Completed,
    Cancelled,
}

/// What the caller is to do next.
#[derive(Debug, Clone, Copy, PartialEq, Eq, Structural)]
pub enum SchedulerAction {
    /// Collect both metrics once and append what succeeded.
    Tick,
    /// Sleep for the sampling interval.
    Sleep,
    /// Stop: the scheduler has reached a terminal state.
    Finish,
}

/// The abstract state of a scheduler.
#[derive(Debug, Clone, Copy, PartialEq, Eq)]
pub struct SchedulerModel {
    pub max_iterations: u64,
    /// Ticks performed so far.
    pub ticks: u64,
    pub state: SchedulerState,
    /// A tick has been handed out and not yet reported back.
    pub tick_in_flight: bool,
}

impl SchedulerModel {
    pub open spec fn wf(self) -> bool {
        &&& self.ticks <= self.max_iterations
        &&& self.tick_in_flight ==> self.state == SchedulerState::Running && self.ticks
            < self.max_iterations
        &&& self.state == SchedulerState::Idle ==> self.ticks == 0
        &&& self.state == SchedulerState::Completed ==> self.ticks == self.max_iterations
        &&& self.state == SchedulerState::Cancelled ==> self.ticks < self.max_iterations
    }

    pub open spec fn is_terminal(self) -> bool {
        self.state == SchedulerState::Completed || self.state == SchedulerState::Cancelled
    }
}

pub open spec fn initial(max_iterations: u64) -> SchedulerModel {
    SchedulerModel {
        max_iterations,
        ticks: 0,
        state: SchedulerState::Idle,
        tick_in_flight: false,
    }
}

/// One decision, taken with the cancellation flag as it reads now. A tick
/// that was handed out counts as done at the next decision; then the loop
/// sleeps if ticks remain and no cancellation is seen, and otherwise stops.
/// Before a tick, the loop stops if all ticks are done or cancellation is
/// seen. A terminal state stays as it is.
pub open spec fn step(m: SchedulerModel, cancelled: bool) -> (SchedulerModel, SchedulerAction) {
    if m.is_terminal() {
        (m, SchedulerAction::Finish)
    } else if m.tick_in_flight {
        let t = (m.ticks + 1) as u64;
        if t < m.max_iterations && !cancelled {
            (
                SchedulerModel { ticks: t, tick_in_flight: false, state: SchedulerState::Running, ..m },
                SchedulerAction::Sleep,
            )
        } else {
            (
                SchedulerModel {
                    ticks: t,
                    tick_in_flight: false,
                    state: if t >= m.max_iterations {
                        SchedulerState::Completed
                    } else {
                        SchedulerState::Cancelled
                    },
                    ..m
                },
                SchedulerAction::Finish,
            )
        }
    } else if m.ticks >= m.max_iterations {
        (SchedulerModel { state: SchedulerState::Completed, ..m }, SchedulerAction::Finish)
    } else if cancelled {
        (SchedulerModel { state: SchedulerState::Cancelled, ..m }, SchedulerAction::Finish)
    } else {
        (
            SchedulerModel { state: SchedulerState::Running, tick_in_flight: true, ..m },
            SchedulerAction::Tick,
        )
    }
}

/// The state after one decision per flag of `flags`, in order, and the
/// number of ticks handed out on the way.
pub open spec fn run(m: SchedulerModel, flags: Seq<bool>) -> (SchedulerModel, nat)
    decreases flags.len(),
{
    if flags.len() == 0 {
        (m, 0)
    } else {
        let (next, action) = step(m, flags[0]);
        let (last, ticks) = run(next, flags.drop_first());
        (last, if action == SchedulerAction::Tick { ticks + 1 } else { ticks })
    }
}

/// A decision keeps the scheduler well formed.
pub proof fn lemma_step_wf(m: SchedulerModel, cancelled: bool)
    requires
        m.wf(),
    ensures
        step(m, cancelled).0.wf(),
        step(m, cancelled).0.max_iterations == m.max_iterations,
{
}

/// A terminal scheduler hands out nothing more and stays as it is.
pub proof fn lemma_terminal_run(m: SchedulerModel, flags: Seq<bool>)
    requires
        m.is_terminal(),
    ensures
        run(m, flags) == (m, 0nat),
    decreases flags.len(),
{
    if flags.len() > 0 {
        lemma_terminal_run(m, flags.drop_first());
    }
}

proof fn lemma_uncancelled_from(m: SchedulerModel, flags: Seq<bool>)
    requires
        m.wf(),
        m.state == SchedulerState::Idle || m.state == SchedulerState::Running,
        !m.tick_in_flight,
        flags.len() >= 2 * (m.max_iterations - m.ticks) + 1,
        forall|i: int| 0 <= i < flags.len() ==> !flags[i],
    ensures
        run(m, flags).0.state == SchedulerState::Completed,
        run(m, flags).0.ticks == m.max_iterations,
        run(m, flags).1 == m.max_iterations - m.ticks,
    decreases m.max_iterations - m.ticks,
{
    let (m1, a1) = step(m, flags[0]);
    let rest = flags.drop_first();
    if m.ticks >= m.max_iterations {
        lemma_terminal_run(m1, rest);
    } else {
        assert(a1 == SchedulerAction::Tick);
        let (m2, a2) = step(m1, rest[0]);
        let rest2 = rest.drop_first();
        assert(run(m1, rest) == ({
            let (last, ticks) = run(m2, rest2);
            (last, if a2 == SchedulerAction::Tick { ticks + 1 } else { ticks })
        }));
        if m2.is_terminal() {
            lemma_terminal_run(m2, rest2);
        } else {
            lemma_uncancelled_from(m2, rest2);
        }
    }
}

/// Without cancellation, a scheduler that starts idle performs exactly
/// `max_iterations` ticks and completes, given one decision for each tick,
/// each sleep and the final stop.
pub proof fn lemma_uncancelled_run_completes(max_iterations: u64, flags: Seq<bool>)
    requires
        flags.len() >= 2 * max_iterations + 1,
        forall|i: int| 0 <= i < flags.len() ==> !flags[i],
    ensures
        run(initial(max_iterations), flags).0.state == SchedulerState::Completed,
        run(initial(max_iterations), flags).0.ticks == max_iterations,
        run(initial(max_iterations), flags).1 == max_iterations,
{
    lemma_uncancelled_from(initial(max_iterations), flags);
}

/// Cancellation seen once the first tick is done, before the first sleep,
/// stops the scheduler as cancelled after exactly that one tick, whatever
/// the flag reads afterwards.
pub proof fn lemma_cancel_before_first_sleep(max_iterations: u64, later: Seq<bool>)
    requires
        max_iterations >= 2,
    ensures
        run(initial(max_iterations), seq![false, true] + later).0.state
            == SchedulerState::Cancelled,
        run(initial(max_iterations), seq![false, true] + later).0.ticks == 1,
        run(initial(max_iterations), seq![false, true] + later).1 == 1,
{
    let flags = seq![false, true] + later;
    let m0 = initial(max_iterations);
    let (m1, a1) = step(m0, false);
    let (m2, a2) = step(m1, true);
    assert(flags[0] == false && flags.drop_first()[0] == true);
    assert(flags.drop_first().drop_first() == later);
    lemma_terminal_run(m2, later);
    assert(a1 == SchedulerAction::Tick && a2 == SchedulerAction::Finish);
    assert(run(m1, flags.drop_first()) == (m2, 0nat));
    assert(run(m0, flags) == (m2, 1nat));
}

/// Drives the sampling loop one decision at a time.
pub struct SamplingScheduler {
    max_iterations: u64,
    ticks: u64,
    state: SchedulerState,
    tick_in_flight: bool,
}

impl View for SamplingScheduler {
    type V = SchedulerModel;

    closed spec fn view(&self) -> SchedulerModel {
        SchedulerModel {
            max_iterations: self.max_iterations,
            ticks: self.ticks,
            state: self.state,
            tick_in_flight: self.tick_in_flight,
        }
    }
}

impl SamplingScheduler {
    /// An idle scheduler for at most `max_iterations` ticks.
    pub fn new(max_iterations: u64) -> (r: Self)
        ensures
            r@ == initial(max_iterations),
            r@.wf(),
    {
        SamplingScheduler { max_iterations, ticks: 0, state: SchedulerState::Idle, tick_in_flight: false }
    }

    /// The next action, given whether cancellation has been requested.
    pub fn advance(&mut self, cancelled: bool) -> (r: SchedulerAction)
        requires
            old(self)@.wf(),
        ensures
            (final(self)@, r) == step(old(self)@, cancelled),
            final(self)@.wf(),
    {
        proof {
            lemma_step_wf(self@, cancelled);
        }
        if self.state == SchedulerState::Completed || self.state == SchedulerState::Cancelled {
            return SchedulerAction::Finish;
        }
        if self.tick_in_flight {
            self.ticks = self.ticks + 1;
            self.tick_in_flight = false;
            if self.ticks < self.max_iterations && !cancelled {
                self.state = SchedulerState::Running;
                return SchedulerAction::Sleep;
            }
            self.state = if self.ticks >= self.max_iterations {
                SchedulerState::Completed
            } else {
                SchedulerState::Cancelled
            };
            return SchedulerAction::Finish;
        }
        if self.ticks >= self.max_iterations {
            self.state = SchedulerState::Completed;
            SchedulerAction::Finish
        } else if cancelled {
            self.state = SchedulerState::Cancelled;
            SchedulerAction::Finish
        } else {
            self.state = SchedulerState::Running;
            self.tick_in_flight = true;
            SchedulerAction::Tick
        }
    }

    pub fn state(&self) -> (r: SchedulerState)
        ensures
            r == self@.state,
    {
        self.state
    }

    /// Ticks performed so far.
    pub fn ticks(&self) -> (r: u64)
        ensures
            r == self@.ticks,
    {
        self.ticks
    }

    pub fn max_iterations(&self) -> (r: u64)
        ensures
            r == self@.max_iterations,
    {
        self.max_iterations
    }
}

} // verus!
