//! A worker task: takes two resources in a planned order, adds one item to
//! each, and gives its locks back, under one of two acquisition policies.
use vstd::prelude::*;
use crate::retry::{RetryDecision, RetryPolicy};
use crate::table::{ResourceTable, TableView};

verus! {

/// How a task acquires its resources.
#[derive(Debug, Clone, Copy, PartialEq, Eq, Structural)]
pub enum Policy {
    /// Waits for the first lock without limit, keeps it, and probes the
    /// second lock once without waiting.
    Unsafe,
    /// Acquires each lock with a bounded retry and gives the first lock back
    /// before asking for the second.
    Safe,
}

/// What one task does.
#[derive(Debug)]
pub struct TaskPlan {
    pub id: u64,
    pub first: usize,
    pub first_item: String,
    pub second: usize,
    pub second_item: String,
    pub policy: Policy,
    /// Pause before the first attempt.
    pub start_delay_ms: u64,
    /// Pause after the first item is added, while still holding its lock.
    pub hold_ms: u64,
    pub retry: RetryPolicy,
}

/// Where a task stands.
#[derive(Debug, Clone, Copy, PartialEq, Eq, Structural)]
pub enum TaskState {
    Start,
    AcquiringFirst,
    HoldingFirst,
    /// The first item is added and the first lock still held.
    Pausing,
    /// The first lock was given back (safe policy only).
    Released,
    AcquiringSecond,
    HoldingSecond,
    /// The probe for the second lock failed; the first lock is still held
    /// and is given back next (unsafe policy only).
    GivingUp,
    Done,
    /// A bounded-retry acquisition ran out of time.
    TimedOut,
    /// The single probe for the second lock found it held.
    LockUnavailable,
}

/// What a step did, for the transcript.
#[derive(Debug, Clone, Copy, PartialEq, Eq, Structural)]
pub enum Note {
    Started,
    GotFirst,
    StillWaiting,
    AddedFirst,
    ReleasedFirst,
    AttemptingSecond,
    GotSecond,
    AddedSecond,
    TimedOutFirst,
    TimedOutSecond,
    DeadlockDetected,
    Finished,
}

/// What the runner of a task does after a step.
#[derive(Debug, Clone, Copy, PartialEq, Eq, Structural)]
pub enum Directive {
    /// Step again at once.
    Continue,
    /// Pause this many milliseconds, then step again.
    Sleep(u64),
    /// The task is over.
    Stop,
}

/// How a finished task ended, as its coordinator sees it.
#[derive(Debug, Clone, Copy, PartialEq, Eq, Structural)]
pub enum TaskOutcome {
    /// Both items were added.
    Completed,
    /// The task gave up at an acquisition.
    Partial,
}

/// The effect of one step.
pub struct Transition {
    pub state: TaskState,
    pub table: TableView,
    pub note: Note,
    pub directive: Directive,
}

/// The step of a task with plan `p` in state `s`, on table `m`, `elapsed`
/// milliseconds after the task entered `s`.
pub open spec fn transition(p: TaskPlan, s: TaskState, m: TableView, elapsed: u64) -> Transition {
    let id = p.id;
    let a = p.first as int;
    let b = p.second as int;
    match s {
        TaskState::Start => Transition {
            state: TaskState::AcquiringFirst,
            table: m,
            note: Note::Started,
            directive: Directive::Sleep(p.start_delay_ms),
        },
        TaskState::AcquiringFirst => {
            let got = m.lock_result(a, id) is Ok;
            let granted = Transition {
                state: TaskState::HoldingFirst,
                table: m.after_lock(a, id),
                note: Note::GotFirst,
                directive: Directive::Continue,
            };
            match p.policy {
                Policy::Unsafe => if got {
                    granted
                } else {
                    Transition {
                        state: s,
                        table: m,
                        note: Note::StillWaiting,
                        directive: Directive::Sleep(p.retry.poll_ms),
                    }
                },
                Policy::Safe => match p.retry.decision(got, elapsed) {
                    RetryDecision::Granted => granted,
                    RetryDecision::Wait(ms) => Transition {
                        state: s,
                        table: m,
                        note: Note::StillWaiting,
                        directive: Directive::Sleep(ms),
                    },
                    RetryDecision::TimedOut => Transition {
                        state: TaskState::TimedOut,
                        table: m,
                        note: Note::TimedOutFirst,
                        directive: Directive::Stop,
                    },
                },
            }
        },
        TaskState::HoldingFirst => Transition {
            state: TaskState::Pausing,
            table: m.after_append(a, id, p.first_item@),
            note: Note::AddedFirst,
            directive: Directive::Sleep(p.hold_ms),
        },
        TaskState::Pausing => match p.policy {
            Policy::Safe => Transition {
                state: TaskState::Released,
                table: m.after_release(a, id),
                note: Note::ReleasedFirst,
                directive: Directive::Continue,
            },
            Policy::Unsafe => Transition {
                state: TaskState::AcquiringSecond,
                table: m,
                note: Note::AttemptingSecond,
                directive: Directive::Continue,
            },
        },
        TaskState::Released => Transition {
            state: TaskState::AcquiringSecond,
            table: m,
            note: Note::AttemptingSecond,
            directive: Directive::Continue,
        },
        TaskState::AcquiringSecond => {
            let got = m.lock_result(b, id) is Ok;
            let granted = Transition {
                state: TaskState::HoldingSecond,
                table: m.after_lock(b, id),
                note: Note::GotSecond,
                directive: Directive::Continue,
            };
            match p.policy {
                Policy::Unsafe => if got {
                    granted
                } else {
                    Transition {
                        state: TaskState::GivingUp,
                        table: m,
                        note: Note::DeadlockDetected,
                        directive: Directive::Continue,
                    }
                },
                Policy::Safe => match p.retry.decision(got, elapsed) {
                    RetryDecision::Granted => granted,
                    RetryDecision::Wait(ms) => Transition {
                        state: s,
                        table: m,
                        note: Note::StillWaiting,
                        directive: Directive::Sleep(ms),
                    },
                    RetryDecision::TimedOut => Transition {
                        state: TaskState::TimedOut,
                        table: m,
                        note: Note::TimedOutSecond,
                        directive: Directive::Stop,
                    },
                },
            }
        },
        TaskState::HoldingSecond => {
            let added = m.after_append(b, id, p.second_item@).after_release(b, id);
            Transition {
                state: TaskState::Done,
                table: match p.policy {
                    Policy::Unsafe => added.after_release(a, id),
                    Policy::Safe => added,
                },
                note: Note::AddedSecond,
                directive: Directive::Stop,
            }
        },
        TaskState::GivingUp => Transition {
            state: TaskState::LockUnavailable,
            table: m.after_release(a, id),
            note: Note::ReleasedFirst,
            directive: Directive::Stop,
        },
        _ => Transition { state: s, table: m, note: Note::Finished, directive: Directive::Stop },
    }
}

/// The resources that a task with plan `p` holds in state `s`.
pub open spec fn expected_holdings(p: TaskPlan, s: TaskState) -> Set<int> {
    let a = p.first as int;
    let b = p.second as int;
    match s {
        TaskState::HoldingFirst | TaskState::Pausing | TaskState::GivingUp => set![a],
        TaskState::AcquiringSecond => match p.policy {
            Policy::Unsafe => set![a],
            Policy::Safe => Set::empty(),
        },
        TaskState::HoldingSecond => match p.policy {
            Policy::Unsafe => set![a, b],
            Policy::Safe => set![b],
        },
        _ => Set::empty(),
    }
}

/// Only a task under the safe policy gives its first lock back early.
pub open spec fn state_fits(p: TaskPlan, s: TaskState) -> bool {
    s is Released ==> p.policy is Safe
}

/// In `m`, `task` holds exactly the resources of `held`.
pub open spec fn holds_exactly(m: TableView, task: u64, held: Set<int>) -> bool {
    forall|r: int| m.has(r) ==> (#[trigger] m.holders[r] == Some(task) <==> held.contains(r))
}

/// From `m` to `n` a lock changes only by `task` taking a free one or
/// giving back one of its own: the locks of every other task stay.
pub open spec fn others_unchanged(m: TableView, n: TableView, task: u64) -> bool {
    &&& n.holders.len() == m.holders.len()
    &&& forall|r: int|
        m.has(r) && #[trigger] n.holders[r] != m.holders[r] ==> {
            ||| m.holders[r] is None && n.holders[r] == Some(task)
            ||| m.holders[r] == Some(task) && n.holders[r] is None
        }
}

/// A step keeps the table well formed, touches no other task's locks, and
/// leaves the task holding exactly the locks that its new state says.
pub proof fn lemma_step_keeps_holdings(p: TaskPlan, s: TaskState, m: TableView, elapsed: u64)
    requires
        m.wf(),
        m.has(p.first as int),
        m.has(p.second as int),
        state_fits(p, s),
        holds_exactly(m, p.id, expected_holdings(p, s)),
    ensures
        state_fits(p, transition(p, s, m, elapsed).state),
        transition(p, s, m, elapsed).table.wf(),
        others_unchanged(m, transition(p, s, m, elapsed).table, p.id),
        holds_exactly(
            transition(p, s, m, elapsed).table,
            p.id,
            expected_holdings(p, transition(p, s, m, elapsed).state),
        ),
{
    let a = p.first as int;
    let b = p.second as int;
    let t = transition(p, s, m, elapsed);
    assert(m.holders[a] == Some(p.id) <==> expected_holdings(p, s).contains(a));
    assert(m.holders[b] == Some(p.id) <==> expected_holdings(p, s).contains(b));
    let n = t.table;
    let got_a = m.lock_result(a, p.id) is Ok;
    let got_b = m.lock_result(b, p.id) is Ok;
    assert forall|r: int| n.has(r) implies (#[trigger] n.holders[r] == Some(p.id)
        <==> expected_holdings(p, t.state).contains(r)) by {
        assert(m.holders[r] == Some(p.id) <==> expected_holdings(p, s).contains(r));
        match s {
            TaskState::AcquiringFirst => {
                if t.state is HoldingFirst {
                    assert(got_a);
                    assert(n.holders == m.holders.update(a, Some(p.id)));
                } else {
                    assert(n == m);
                }
            },
            TaskState::Pausing => {
                if p.policy is Safe {
                    assert(n.holders == m.holders.update(a, None));
                }
            },
            TaskState::AcquiringSecond => {
                if t.state is HoldingSecond {
                    assert(got_b);
                    assert(n.holders == m.holders.update(b, Some(p.id)));
                    if p.policy is Unsafe {
                        assert(a != b);
                    }
                } else {
                    assert(n == m);
                }
            },
            TaskState::GivingUp => {
                assert(n.holders == m.holders.update(a, None));
            },
            TaskState::HoldingSecond => {
                let added = m.after_append(b, p.id, p.second_item@);
                assert(added.holders == m.holders);
                let freed = added.after_release(b, p.id);
                assert(freed.holders == m.holders.update(b, None));
                if p.policy is Unsafe {
                    assert(n.holders == freed.holders.update(a, None)
                        || n.holders == freed.holders);
                }
            },
            _ => {},
        }
    }
}

/// A task that holds the lock its step needs always lands its item: the
/// step from `HoldingFirst` appends the first item to the first resource,
/// and the step from `HoldingSecond` appends the second item to the second
/// resource, whatever other tasks do in between.
pub proof fn lemma_held_appends_land(p: TaskPlan, s: TaskState, m: TableView, elapsed: u64)
    requires
        m.wf(),
        m.has(p.first as int),
        m.has(p.second as int),
        state_fits(p, s),
        holds_exactly(m, p.id, expected_holdings(p, s)),
    ensures
        s is HoldingFirst ==> transition(p, s, m, elapsed).table.resources[p.first as int].items
            == m.resources[p.first as int].items.push(p.first_item@),
        s is HoldingSecond ==> transition(p, s, m, elapsed).table.resources[p.second as int].items
            == m.resources[p.second as int].items.push(p.second_item@),
{
    let a = p.first as int;
    let b = p.second as int;
    assert(m.holders[a] == Some(p.id) <==> expected_holdings(p, s).contains(a));
    assert(m.holders[b] == Some(p.id) <==> expected_holdings(p, s).contains(b));
}

/// Under the safe policy a task never holds its two resources at once.
pub proof fn lemma_safe_single_hold(p: TaskPlan, s: TaskState, m: TableView)
    requires
        p.policy is Safe,
        p.first != p.second,
        m.has(p.first as int),
        m.has(p.second as int),
        holds_exactly(m, p.id, expected_holdings(p, s)),
    ensures
        !(m.held_by(p.first as int, p.id) && m.held_by(p.second as int, p.id)),
{
    let a = p.first as int;
    let b = p.second as int;
    assert(m.holders[a] == Some(p.id) <==> expected_holdings(p, s).contains(a));
    assert(m.holders[b] == Some(p.id) <==> expected_holdings(p, s).contains(b));
}

/// A task and its current state.
pub struct Worker {
    pub plan: TaskPlan,
    pub state: TaskState,
}

impl Worker {
    /// A task that has not started yet.
    pub fn new(plan: TaskPlan) -> (w: Worker)
        ensures
            w.plan == plan,
            w.state == TaskState::Start,
    {
        Worker { plan, state: TaskState::Start }
    }

    /// Whether the task is over.
    pub fn is_finished(&self) -> (r: bool)
        ensures
            r == (self.state is Done || self.state is TimedOut || self.state is LockUnavailable),
    {
        match self.state {
            TaskState::Done | TaskState::TimedOut | TaskState::LockUnavailable => true,
            _ => false,
        }
    }

    /// How the task ended, or `None` while it runs.
    pub fn outcome(&self) -> (r: Option<TaskOutcome>)
        ensures
            r == match self.state {
                TaskState::Done => Some(TaskOutcome::Completed),
                TaskState::TimedOut | TaskState::LockUnavailable => Some(TaskOutcome::Partial),
                _ => None::<TaskOutcome>,
            },
    {
        match self.state {
            TaskState::Done => Some(TaskOutcome::Completed),
            TaskState::TimedOut | TaskState::LockUnavailable => Some(TaskOutcome::Partial),
            _ => None,
        }
    }
    /// Runs one step of the task on `table`, `elapsed_ms` after the task
    /// entered its current state; says what happened and what to do next.
    pub fn step(&mut self, table: &mut ResourceTable, elapsed_ms: u64) -> (r: (Note, Directive))
        requires
            old(table)@.wf(),
            old(table)@.has(old(self).plan.first as int),
            old(table)@.has(old(self).plan.second as int),
        ensures
            ({
                let t = transition(old(self).plan, old(self).state, old(table)@, elapsed_ms);
                &&& final(self).plan == old(self).plan
                &&& final(self).state == t.state
                &&& final(table)@ == t.table
                &&& r == (t.note, t.directive)
            }),
            final(table)@.wf(),
            others_unchanged(old(table)@, final(table)@, old(self).plan.id),
            state_fits(old(self).plan, old(self).state) && holds_exactly(
                old(table)@,
                old(self).plan.id,
                expected_holdings(old(self).plan, old(self).state),
            ) ==> state_fits(final(self).plan, final(self).state) && holds_exactly(
                final(table)@,
                final(self).plan.id,
                expected_holdings(final(self).plan, final(self).state),
            ),
    {
        proof {
            if state_fits(self.plan, self.state) && holds_exactly(
                table@,
                self.plan.id,
                expected_holdings(self.plan, self.state),
            ) {
                lemma_step_keeps_holdings(self.plan, self.state, table@, elapsed_ms);
            }
        }
        let id = self.plan.id;
        let a = self.plan.first;
        let b = self.plan.second;
        match self.state {
            TaskState::Start => {
                self.state = TaskState::AcquiringFirst;
                (Note::Started, Directive::Sleep(self.plan.start_delay_ms))
            },
            TaskState::AcquiringFirst => {
                let got = table.try_lock(a, id).is_ok();
                let decision = match self.plan.policy {
                    Policy::Unsafe => if got {
                        RetryDecision::Granted
                    } else {
                        RetryDecision::Wait(self.plan.retry.poll_ms)
                    },
                    Policy::Safe => self.plan.retry.decide(got, elapsed_ms),
                };
                match decision {
                    RetryDecision::Granted => {
                        self.state = TaskState::HoldingFirst;
                        (Note::GotFirst, Directive::Continue)
                    },
                    RetryDecision::Wait(ms) => (Note::StillWaiting, Directive::Sleep(ms)),
                    RetryDecision::TimedOut => {
                        self.state = TaskState::TimedOut;
                        (Note::TimedOutFirst, Directive::Stop)
                    },
                }
            },
            TaskState::HoldingFirst => {
                let _ = table.append(a, id, self.plan.first_item.clone());
                self.state = TaskState::Pausing;
                (Note::AddedFirst, Directive::Sleep(self.plan.hold_ms))
            },
            TaskState::Pausing => match self.plan.policy {
                Policy::Safe => {
                    let _ = table.release(a, id);
                    self.state = TaskState::Released;
                    (Note::ReleasedFirst, Directive::Continue)
                },
                Policy::Unsafe => {
                    self.state = TaskState::AcquiringSecond;
                    (Note::AttemptingSecond, Directive::Continue)
                },
            },
            TaskState::Released => {
                self.state = TaskState::AcquiringSecond;
                (Note::AttemptingSecond, Directive::Continue)
            },
            TaskState::AcquiringSecond => {
                let got = table.try_lock(b, id).is_ok();
                match self.plan.policy {
                    Policy::Unsafe => {
                        if got {
                            self.state = TaskState::HoldingSecond;
                            (Note::GotSecond, Directive::Continue)
                        } else {
                            self.state = TaskState::GivingUp;
                            (Note::DeadlockDetected, Directive::Continue)
                        }
                    },
                    Policy::Safe => match self.plan.retry.decide(got, elapsed_ms) {
                        RetryDecision::Granted => {
                            self.state = TaskState::HoldingSecond;
                            (Note::GotSecond, Directive::Continue)
                        },
                        RetryDecision::Wait(ms) => (Note::StillWaiting, Directive::Sleep(ms)),
                        RetryDecision::TimedOut => {
                            self.state = TaskState::TimedOut;
                            (Note::TimedOutSecond, Directive::Stop)
                        },
                    },
                }
            },
            TaskState::HoldingSecond => {
                let _ = table.append(b, id, self.plan.second_item.clone());
                let _ = table.release(b, id);
                if let Policy::Unsafe = self.plan.policy {
                    let _ = table.release(a, id);
                }
                self.state = TaskState::Done;
                (Note::AddedSecond, Directive::Stop)
            },
            TaskState::GivingUp => {
                let _ = table.release(a, id);
                self.state = TaskState::LockUnavailable;
                (Note::ReleasedFirst, Directive::Stop)
            },
            _ => (Note::Finished, Directive::Stop),
        }
    }
}

} // verus!
