use vstd::prelude::*;

use crate::dto::{FaultyServerResponse, RunId, RunJob, RunJobResult};
use crate::settings::{at_least_one, effective_limit};

verus! {

/// What the driver of a run should do next.
#[derive(Debug, Clone, Copy, PartialEq, Eq, Structural)]
pub enum FanOutAction {
    /// Send one more upstream call; it is counted as in flight already.
    Launch,
    /// Every slot is taken: wait for a call to complete or for the deadline.
    Wait,
    /// The deadline has passed: abandon the calls in flight and report.
    Stop,
}

/// The sum of a sequence of upstream values.
pub open spec fn sum_of(s: Seq<u32>) -> nat
    decreases s.len(),
{
    if s.len() == 0 {
        0
    } else {
        sum_of(s.drop_last()) + s.last() as nat
    }
}

/// The abstract state of one run's execution: when it ends (milliseconds
/// after its start), how many upstream calls it may keep in flight, how
/// many are in flight, and the values of the successful calls counted so far.
pub struct ExecutionView {
    pub id: RunId,
    pub deadline_ms: nat,
    pub cap: nat,
    pub in_flight: nat,
    pub counted: Seq<u32>,
}

/// One thing that happens to a run while it executes, at a time in
/// milliseconds after its start.
pub enum ExecutionEvent {
    /// The driver asks what to do next.
    Poll { now_ms: nat },
    /// An upstream call came back.
    Complete { outcome: FaultyServerResponse, now_ms: nat },
}

impl ExecutionView {
    pub open spec fn wf(self) -> bool {
        &&& self.cap >= 1
        &&& self.in_flight <= self.cap
        &&& self.counted.len() <= u64::MAX
        &&& sum_of(self.counted) <= u64::MAX
    }

    pub open spec fn action(self, now_ms: nat) -> FanOutAction {
        if now_ms >= self.deadline_ms {
            FanOutAction::Stop
        } else if self.in_flight < self.cap {
            FanOutAction::Launch
        } else {
            FanOutAction::Wait
        }
    }

    /// Asking what to do next; a launch takes a slot at once.
    pub open spec fn poll(self, now_ms: nat) -> (ExecutionView, FanOutAction) {
        let a = self.action(now_ms);
        if a == FanOutAction::Launch {
            (ExecutionView { in_flight: self.in_flight + 1, ..self }, a)
        } else {
            (self, a)
        }
    }

    /// Whether a call completing with this outcome at this time is counted:
    /// only successes that land strictly before the deadline are.
    pub open spec fn counts(self, outcome: FaultyServerResponse, now_ms: nat) -> bool {
        now_ms < self.deadline_ms && outcome.spec_value() is Some
    }

    /// A call came back: its slot is freed, and its value is counted if it
    /// succeeded in time.
    pub open spec fn complete(self, outcome: FaultyServerResponse, now_ms: nat) -> ExecutionView {
        ExecutionView {
            in_flight: if self.in_flight > 0 {
                (self.in_flight - 1) as nat
            } else {
                0
            },
            counted: if self.counts(outcome, now_ms) {
                self.counted.push(outcome.spec_value()->Some_0)
            } else {
                self.counted
            },
            ..self
        }
    }

    /// Whether the 64-bit tallies can take this outcome in.
    pub open spec fn absorbs(self, outcome: FaultyServerResponse, now_ms: nat) -> bool {
        self.counts(outcome, now_ms) ==> {
            &&& self.counted.len() + 1 <= u64::MAX
            &&& sum_of(self.counted) + outcome.spec_value()->Some_0 <= u64::MAX
        }
    }

    pub open spec fn step(self, event: ExecutionEvent) -> ExecutionView {
        match event {
            ExecutionEvent::Poll { now_ms } => self.poll(now_ms).0,
            ExecutionEvent::Complete { outcome, now_ms } => self.complete(outcome, now_ms),
        }
    }

    /// The state after a sequence of events.
    pub open spec fn run(self, events: Seq<ExecutionEvent>) -> ExecutionView
        decreases events.len(),
    {
        if events.len() == 0 {
            self
        } else {
            self.step(events[0]).run(events.drop_first())
        }
    }

    /// The tally reported for the run.
    pub open spec fn result(self) -> RunJobResult {
        RunJobResult {
            id: self.id,
            successful_responses: self.counted.len() as u64,
            value_sum: sum_of(self.counted) as u64,
        }
    }
}

/// The fresh state of a job's execution.
pub open spec fn initial_execution(job: RunJob, concurrent_requests_per_run: usize) -> ExecutionView {
    ExecutionView {
        id: job.id,
        deadline_ms: job.duration_secs as nat * 1000,
        cap: effective_limit(concurrent_requests_per_run),
        in_flight: 0,
        counted: Seq::empty(),
    }
}

/// The decisions of one run's execution.
///
/// The driver polls it for what to do: launch another upstream call while a
/// slot is free and the deadline has not passed, wait while all slots are
/// taken, stop once the deadline has passed. Each completed call is handed
/// back with the time it completed; successes before the deadline are
/// tallied, everything else leaves the tally as it is.
pub struct RunExecution {
    id: RunId,
    deadline_ms: u128,
    cap: usize,
    in_flight: usize,
    successful: u64,
    sum: u64,
    counted: Ghost<Seq<u32>>,
}

impl View for RunExecution {
    type V = ExecutionView;

    closed spec fn view(&self) -> ExecutionView {
        ExecutionView {
            id: self.id,
            deadline_ms: self.deadline_ms as nat,
            cap: self.cap as nat,
            in_flight: self.in_flight as nat,
            counted: self.counted@,
        }
    }
}

proof fn lemma_sum_push(s: Seq<u32>, v: u32)
    ensures
        sum_of(s.push(v)) == sum_of(s) + v,
{
    assert(s.push(v).drop_last() =~= s);
}

impl RunExecution {
    /// The tallies agree with the counted values, and the view is sound.
    pub closed spec fn wf(&self) -> bool {
        &&& self@.wf()
        &&& self.successful as nat == self.counted@.len()
        &&& self.sum as nat == sum_of(self.counted@)
    }

    /// Starts the execution of a job, with at most
    /// `concurrent_requests_per_run` calls in flight (at least one).
    pub fn new(job: &RunJob, concurrent_requests_per_run: usize) -> (r: RunExecution)
        ensures
            r.wf(),
            r@ == initial_execution(*job, concurrent_requests_per_run),
    {
        RunExecution {
            id: job.id,
            deadline_ms: job.duration_secs as u128 * 1000,
            cap: at_least_one(concurrent_requests_per_run),
            in_flight: 0,
            successful: 0,
            sum: 0,
            counted: Ghost(Seq::empty()),
        }
    }

    /// What to do at `now_ms` milliseconds after the start.
    pub fn poll(&mut self, now_ms: u64) -> (r: FanOutAction)
        requires
            old(self).wf(),
        ensures
            final(self).wf(),
            (final(self)@, r) == old(self)@.poll(now_ms as nat),
    {
        if now_ms as u128 >= self.deadline_ms {
            FanOutAction::Stop
        } else if self.in_flight < self.cap {
            self.in_flight = self.in_flight + 1;
            FanOutAction::Launch
        } else {
            FanOutAction::Wait
        }
    }

    /// Whether the tallies can take this outcome in without overflowing.
    pub fn can_absorb(&self, outcome: &FaultyServerResponse, now_ms: u64) -> (r: bool)
        requires
            self.wf(),
        ensures
            r == self@.absorbs(*outcome, now_ms as nat),
    {
        if now_ms as u128 >= self.deadline_ms {
            true
        } else {
            match outcome.value() {
                None => true,
                Some(v) => self.successful < u64::MAX && v as u64 <= u64::MAX - self.sum,
            }
        }
    }

    /// An upstream call launched earlier came back at `now_ms`.
    pub fn on_complete(&mut self, outcome: &FaultyServerResponse, now_ms: u64)
        requires
            old(self).wf(),
            old(self)@.in_flight > 0,
            old(self)@.absorbs(*outcome, now_ms as nat),
        ensures
            final(self).wf(),
            final(self)@ == old(self)@.complete(*outcome, now_ms as nat),
    {
        self.in_flight = self.in_flight - 1;
        if now_ms as u128 >= self.deadline_ms {
            return ;
        }
        match outcome.value() {
            None => {},
            Some(v) => {
                proof {
                    lemma_sum_push(self.counted@, v);
                }
                self.successful = self.successful + 1;
                self.sum = self.sum + v as u64;
                self.counted = Ghost(self.counted@.push(v));
            },
        }
    }

    /// The tally of the successful calls counted so far.
    pub fn result(&self) -> (r: RunJobResult)
        requires
            self.wf(),
        ensures
            r == self@.result(),
            r.successful_responses == self@.counted.len(),
            r.value_sum == sum_of(self@.counted),
    {
        RunJobResult { id: self.id, successful_responses: self.successful, value_sum: self.sum }
    }

    pub fn in_flight(&self) -> (r: usize)
        ensures
            r == self@.in_flight,
    {
        self.in_flight
    }
}

} // verus!

verus! {

/// Whatever happens during a run, no more upstream calls are in flight at
/// once than its cap allows.
pub proof fn lemma_in_flight_within_cap(e: ExecutionView, events: Seq<ExecutionEvent>)
    requires
        e.cap >= 1,
        e.in_flight <= e.cap,
    ensures
        e.run(events).in_flight <= e.cap,
        e.run(events).cap == e.cap,
    decreases events.len(),
{
    if events.len() > 0 {
        lemma_in_flight_within_cap(e.step(events[0]), events.drop_first());
    }
}

/// A call that completes at or after the deadline leaves both tallies as
/// they were, whatever it returned; and from the deadline on no call is
/// launched.
pub proof fn lemma_late_completion_ignored(e: ExecutionView, outcome: FaultyServerResponse, now_ms: nat)
    requires
        now_ms >= e.deadline_ms,
    ensures
        e.complete(outcome, now_ms).counted == e.counted,
        e.complete(outcome, now_ms).result() == e.result(),
        e.poll(now_ms) == (e, FanOutAction::Stop),
{
}

/// The sum of values that are all `v` is `v` times their number.
pub proof fn lemma_sum_of_uniform(s: Seq<u32>, v: u32)
    requires
        forall|i: int| 0 <= i < s.len() ==> s[i] == v,
    ensures
        sum_of(s) == v as nat * s.len(),
    decreases s.len(),
{
    if s.len() > 0 {
        lemma_sum_of_uniform(s.drop_last(), v);
        assert(sum_of(s) == v as nat * (s.len() - 1) + v) by (nonlinear_arith)
            requires
                sum_of(s) == sum_of(s.drop_last()) + v as nat,
                sum_of(s.drop_last()) == v as nat * (s.len() - 1),
        ;
        assert(v as nat * (s.len() - 1) + v == v as nat * s.len()) by (nonlinear_arith);
    }
}

/// An upstream that always succeeds with `v`: every value a run counts is
/// `v`, so the reported sum is `v` times the reported count.
pub proof fn lemma_uniform_upstream(e: ExecutionView, events: Seq<ExecutionEvent>, v: u32)
    requires
        forall|i: int| 0 <= i < e.counted.len() ==> e.counted[i] == v,
        forall|i: int|
            0 <= i < events.len() ==> match #[trigger] events[i] {
                ExecutionEvent::Complete { outcome, .. } => outcome == (FaultyServerResponse::Success {
                    value: v,
                }),
                ExecutionEvent::Poll { .. } => true,
            },
    ensures
        forall|i: int| 0 <= i < e.run(events).counted.len() ==> e.run(events).counted[i] == v,
        sum_of(e.run(events).counted) == v as nat * e.run(events).counted.len(),
    decreases events.len(),
{
    if events.len() > 0 {
        let e1 = e.step(events[0]);
        assert forall|i: int| 0 <= i < e1.counted.len() implies e1.counted[i] == v by {
            if i < e.counted.len() {
                match events[0] {
                    ExecutionEvent::Complete { outcome, now_ms } => {
                        if e.counts(outcome, now_ms) {
                            assert(e1.counted[i] == e.counted[i]);
                        }
                    },
                    ExecutionEvent::Poll { .. } => {},
                }
            }
        }
        let rest = events.drop_first();
        assert forall|i: int| 0 <= i < rest.len() implies match #[trigger] rest[i] {
            ExecutionEvent::Complete { outcome, .. } => outcome == (FaultyServerResponse::Success {
                value: v,
            }),
            ExecutionEvent::Poll { .. } => true,
        } by {
            assert(rest[i] == events[i + 1]);
        }
        lemma_uniform_upstream(e1, rest, v);
    } else {
        lemma_sum_of_uniform(e.counted, v);
    }
}

} // verus!
