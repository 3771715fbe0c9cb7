//! The run controller: when a sampling loop ticks and when it ends.
//!
//! A loop sleeps, samples, writes, and counts the time that it takes as
//! spent; it goes on while the time counted is below its budget. Sleeping,
//! sampling and writing happen elsewhere: [`SamplingLoop::step`] is told what
//! happened and answers what to do next.

use vstd::prelude::*;

verus! {

/// How long the temperature loop sleeps before each tick, whatever interval
/// was asked for.
pub const TEMPERATURE_PAUSE_MS: u64 = 1000;

/// The states of a sampling loop.
#[derive(Clone, Copy, Debug, PartialEq, Eq)]
pub enum LoopState {
    /// The loop may tick again.
    Running,
    /// The loop has ended and stays so.
    Done,
}

/// What happened since the loop was last asked.
#[derive(Clone, Copy, Debug, PartialEq, Eq)]
pub enum Event {
    /// The loop was entered; nothing was done yet.
    Started,
    /// A tick was carried out and its table was written.
    Written,
    /// A tick was carried out, but its table could not be written.
    WriteFailed,
}

/// What the driver of a loop is to do next.
#[derive(Clone, Copy, Debug, PartialEq, Eq)]
pub enum Action {
    /// Sleep for `pause_ms` milliseconds, take one round of samples, write
    /// the table, and report how that went.
    Tick { pause_ms: u64 },
    /// The budget is used up: leave the loop.
    Stop,
    /// The table could not be written: give up.
    Abort,
}

/// A sampling loop as a mathematical value.
pub struct LoopView {
    pub state: LoopState,
    /// Time counted as spent so far, in milliseconds.
    pub elapsed_ms: nat,
    /// Time the loop may spend, in milliseconds.
    pub budget_ms: nat,
    /// Time counted for each tick, in milliseconds.
    pub step_ms: nat,
    /// Time slept before each tick, in milliseconds.
    pub pause_ms: u64,
}

impl LoopView {
    /// A loop that has not been entered yet.
    pub open spec fn fresh(pause_ms: u64, step_ms: nat, budget_ms: nat) -> LoopView {
        LoopView { state: LoopState::Running, elapsed_ms: 0, budget_ms, step_ms, pause_ms }
    }

    /// The test at the top of the loop: a running loop whose time counted
    /// has reached its budget is done.
    pub open spec fn checked(self) -> LoopView {
        if self.state is Running && self.elapsed_ms >= self.budget_ms {
            LoopView { state: LoopState::Done, ..self }
        } else {
            self
        }
    }

    /// The loop after `event`.
    ///
    /// A loop that is done stays as it is. A running loop counts the time of
    /// a tick that was written and is tested against its budget; it ends at
    /// once when the table could not be written.
    pub open spec fn react(self, event: Event) -> LoopView {
        match self.state {
            LoopState::Done => self,
            LoopState::Running => match event {
                Event::Started => self.checked(),
                Event::Written => LoopView {
                    elapsed_ms: self.elapsed_ms + self.step_ms,
                    ..self
                }.checked(),
                Event::WriteFailed => LoopView { state: LoopState::Done, ..self },
            },
        }
    }

    /// What the driver is told after `event`.
    pub open spec fn action(self, event: Event) -> Action {
        match self.state {
            LoopState::Done => Action::Stop,
            LoopState::Running => match event {
                Event::WriteFailed => Action::Abort,
                _ => if self.react(event).state is Running {
                    Action::Tick { pause_ms: self.pause_ms }
                } else {
                    Action::Stop
                },
            },
        }
    }

    /// The loop after it was entered and `ticks` ticks were written.
    pub open spec fn after(self, ticks: nat) -> LoopView
        decreases ticks,
    {
        if ticks == 0 {
            self.react(Event::Started)
        } else {
            self.after((ticks - 1) as nat).react(Event::Written)
        }
    }
}

/// The number of steps of size `step` that it takes to reach `budget`:
/// `budget / step`, rounded up.
pub open spec fn ticks_needed(budget: nat, step: nat) -> nat
    recommends
        step > 0,
{
    ((budget + step - 1) / step as int) as nat
}

/// One sampling loop: its budget, its cadence and the time it has counted.
///
/// The time counted for a tick is what was asked for, not what the tick
/// took. A loop that counts nothing for a tick never uses up a budget: it
/// is told to tick for ever.
pub struct SamplingLoop {
    state: LoopState,
    elapsed_ms: u128,
    budget_ms: u128,
    step_ms: u64,
    pause_ms: u64,
}

impl View for SamplingLoop {
    type V = LoopView;

    closed spec fn view(&self) -> LoopView {
        LoopView {
            state: self.state,
            elapsed_ms: self.elapsed_ms as nat,
            budget_ms: self.budget_ms as nat,
            step_ms: self.step_ms as nat,
            pause_ms: self.pause_ms,
        }
    }
}

impl SamplingLoop {
    #[verifier::type_invariant]
    spec fn in_range(self) -> bool {
        &&& self.budget_ms <= 1000 * u64::MAX
        &&& self.elapsed_ms <= self.budget_ms + u64::MAX
        &&& self.state is Running ==> self.elapsed_ms <= self.budget_ms
    }

    /// A loop that sleeps `pause_ms` milliseconds before each tick, counts
    /// `step_ms` milliseconds for each tick, and may spend `duration_s`
    /// seconds. It is running and has counted no time.
    pub fn new(pause_ms: u64, step_ms: u64, duration_s: u64) -> (run: SamplingLoop)
        ensures
            run@ == LoopView::fresh(pause_ms, step_ms as nat, 1000 * duration_s as nat),
    {
        SamplingLoop {
            state: LoopState::Running,
            elapsed_ms: 0,
            budget_ms: 1000 * (duration_s as u128),
            step_ms,
            pause_ms,
        }
    }

    /// The CPU loop: it sleeps for the interval and counts the interval.
    pub fn for_cpu(interval_ms: u64, duration_s: u64) -> (run: SamplingLoop)
        ensures
            run@ == LoopView::fresh(interval_ms, interval_ms as nat, 1000 * duration_s as nat),
    {
        SamplingLoop::new(interval_ms, interval_ms, duration_s)
    }

    /// The temperature loop: it sleeps for [`TEMPERATURE_PAUSE_MS`] whatever
    /// the interval, and counts the interval.
    pub fn for_temperature(interval_ms: u64, duration_s: u64) -> (run: SamplingLoop)
        ensures
            run@ == LoopView::fresh(
                TEMPERATURE_PAUSE_MS,
                interval_ms as nat,
                1000 * duration_s as nat,
            ),
    {
        SamplingLoop::new(TEMPERATURE_PAUSE_MS, interval_ms, duration_s)
    }

    /// The state of the loop.
    pub fn state(&self) -> (state: LoopState)
        ensures
            state == self@.state,
    {
        self.state
    }

    /// Takes note of what happened and says what to do next.
    pub fn step(&mut self, event: Event) -> (action: Action)
        ensures
            final(self)@ == old(self)@.react(event),
            action == old(self)@.action(event),
    {
        proof {
            use_type_invariant(&*self);
        }
        match self.state {
            LoopState::Done => Action::Stop,
            LoopState::Running => {
                let elapsed_ms = match event {
                    Event::Started => self.elapsed_ms,
                    Event::Written => self.elapsed_ms + self.step_ms as u128,
                    Event::WriteFailed => {
                        self.state = LoopState::Done;
                        return Action::Abort;
                    },
                };
                if elapsed_ms >= self.budget_ms {
                    *self = SamplingLoop { state: LoopState::Done, elapsed_ms, ..*self };
                    Action::Stop
                } else {
                    self.elapsed_ms = elapsed_ms;
                    Action::Tick { pause_ms: self.pause_ms }
                }
            },
        }
    }
}

/// `ticks` steps stay below the budget exactly when `ticks` is below the
/// number of steps that reach it.
proof fn lemma_below_budget(budget: nat, step: nat, ticks: nat)
    requires
        step > 0,
    ensures
        ticks * step < budget <==> ticks < ticks_needed(budget, step),
{
    let needed = (budget + step - 1) / step as int;
    assert(needed * step <= budget + step - 1 < needed * step + step) by (nonlinear_arith)
        requires
            step > 0,
            needed == (budget + step - 1) / step as int,
    ;
    assert(ticks * step < budget <==> ticks < needed) by (nonlinear_arith)
        requires
            step > 0,
            needed * step <= budget + step - 1 < needed * step + step,
    ;
}

/// Where a loop stands after it was entered and `ticks` ticks were written:
/// it has counted every step until the budget was reached, and none after.
proof fn lemma_after(run: LoopView, ticks: nat)
    requires
        run.state is Running,
        run.elapsed_ms == 0,
        run.step_ms > 0,
    ensures
        run.after(ticks).budget_ms == run.budget_ms,
        run.after(ticks).step_ms == run.step_ms,
        run.after(ticks).pause_ms == run.pause_ms,
        run.after(ticks).state is Running <==> ticks < ticks_needed(run.budget_ms, run.step_ms),
        ticks <= ticks_needed(run.budget_ms, run.step_ms) ==> run.after(ticks).elapsed_ms == ticks
            * run.step_ms,
        ticks >= ticks_needed(run.budget_ms, run.step_ms) ==> run.after(ticks).elapsed_ms
            == ticks_needed(run.budget_ms, run.step_ms) * run.step_ms,
    decreases ticks,
{
    let needed = ticks_needed(run.budget_ms, run.step_ms);
    lemma_below_budget(run.budget_ms, run.step_ms, ticks);
    if ticks == 0 {
        assert(0 * run.step_ms == 0);
        if needed == 0 {
            assert(needed * run.step_ms == 0);
        }
    } else {
        let earlier = (ticks - 1) as nat;
        lemma_after(run, earlier);
        lemma_below_budget(run.budget_ms, run.step_ms, earlier);
        assert(earlier * run.step_ms + run.step_ms == ticks * run.step_ms) by (nonlinear_arith)
            requires
                earlier + 1 == ticks,
        ;
    }
}

/// The number of ticks of a loop. A loop that counts a positive time for
/// each tick, entered fresh and never failing to write, ticks exactly
/// `budget / step` times, rounded up, and then halts for good: it is told to
/// tick while fewer ticks than that were written, and to stop from then on.
/// With a budget of zero it never ticks.
pub proof fn lemma_tick_count(pause_ms: u64, step_ms: nat, budget_ms: nat, ticks: nat)
    requires
        step_ms > 0,
    ensures
        ({
            let run = LoopView::fresh(pause_ms, step_ms, budget_ms);
            let needed = ticks_needed(budget_ms, step_ms);
            let told = if ticks == 0 {
                run.action(Event::Started)
            } else {
                run.after((ticks - 1) as nat).action(Event::Written)
            };
            &&& ticks < needed ==> run.after(ticks).state is Running && told == (Action::Tick {
                pause_ms,
            })
            &&& ticks >= needed ==> run.after(ticks).state is Done && told == Action::Stop
            &&& budget_ms == 0 ==> needed == 0
            &&& budget_ms % step_ms == 0 ==> needed == budget_ms / step_ms
            &&& budget_ms % step_ms != 0 ==> needed == budget_ms / step_ms + 1
        }),
{
    let run = LoopView::fresh(pause_ms, step_ms, budget_ms);
    let needed = ticks_needed(budget_ms, step_ms);
    lemma_after(run, ticks);
    if ticks > 0 {
        lemma_after(run, (ticks - 1) as nat);
    }
    let whole = budget_ms / step_ms;
    assert(budget_ms == whole * step_ms + budget_ms % step_ms && 0 <= budget_ms % step_ms
        < step_ms) by (nonlinear_arith)
        requires
            step_ms > 0,
            whole == budget_ms / step_ms,
    ;
    lemma_below_budget(budget_ms, step_ms, whole);
    lemma_below_budget(budget_ms, step_ms, whole + 1);
    assert((whole + 1) * step_ms == whole * step_ms + step_ms) by (nonlinear_arith);
    if whole > 0 {
        lemma_below_budget(budget_ms, step_ms, (whole - 1) as nat);
        assert((whole - 1) * step_ms == whole * step_ms - step_ms) by (nonlinear_arith);
    }
}

} // verus!
