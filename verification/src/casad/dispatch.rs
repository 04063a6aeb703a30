//! Per-device workers: what each worker does with the actions queued for its
//! device. Actions for one device run one at a time in queue order; an `off`
//! fired by an event is held for a grace period and dropped if an `on` for the
//! same device comes first; consecutive commands keep a least gap.
//!
//! The worker's decisions are a state machine: the program around it waits on
//! the queue, hands each outcome of the wait to [`WorkerState::step`], runs
//! what the step says, and records when it sent.

use vstd::prelude::*;

use crate::casad::rules::{spec_actions, spec_target, Rule, RuleFile, Settings, Then, Trigger};
use crate::text::{lemma_lex_irreflexive, lemma_lex_total, lemma_lex_trans, lex_lt, str_eq, str_lt};

verus! {

/// Nanoseconds in a second.
pub const NANOS_PER_SEC: u128 = 1_000_000_000;

/// How a worker throttles commands, in nanoseconds.
#[derive(Debug, Clone, Copy, PartialEq, Eq, Structural)]
pub struct WorkerPolicy {
    /// How long an event-triggered `off` is held before it is sent.
    pub off_grace_nanos: u128,
    /// The least time between two commands to the device.
    pub min_gap_nanos: u128,
}

impl WorkerPolicy {
    /// The policy of the rule file's settings.
    pub fn from_settings(s: &Settings) -> (r: WorkerPolicy)
        ensures
            r.off_grace_nanos == s.off_grace_secs * NANOS_PER_SEC,
            r.min_gap_nanos == s.min_gap_secs * NANOS_PER_SEC,
    {
        assert(s.off_grace_secs * NANOS_PER_SEC <= u128::MAX) by (nonlinear_arith)
            requires s.off_grace_secs <= u64::MAX;
        assert(s.min_gap_secs * NANOS_PER_SEC <= u128::MAX) by (nonlinear_arith)
            requires s.min_gap_secs <= u64::MAX;
        WorkerPolicy {
            off_grace_nanos: s.off_grace_secs as u128 * NANOS_PER_SEC,
            min_gap_nanos: s.min_gap_secs as u128 * NANOS_PER_SEC,
        }
    }
}

/// One queued action: the rule that fired (for its trigger and name) and the
/// action.
#[derive(Debug, Clone, Copy)]
pub struct Job<'a> {
    pub rule: &'a Rule,
    pub action: &'a Then,
}

/// Whether a job's `off` is held back: the policy has a grace period, the
/// action is `off`, and an event (not the clock) fired it. A time-triggered
/// `off` would only be delayed, never cancelled, so it is not held.
pub open spec fn spec_grace_applies(job: Job, policy: WorkerPolicy) -> bool {
    &&& policy.off_grace_nanos != 0
    &&& job.action is Off
    &&& (job.rule.when is Event || job.rule.when is MatterEvent)
}

/// Whether a job's `off` is held back.
pub fn grace_applies(job: &Job, policy: WorkerPolicy) -> (r: bool)
    ensures
        r == spec_grace_applies(*job, policy),
{
    policy.off_grace_nanos != 0 && match job.action {
        Then::Off { .. } => match job.rule.when {
            Trigger::Event { .. } | Trigger::MatterEvent { .. } => true,
            Trigger::Time { .. } => false,
        },
        _ => false,
    }
}

/// What a worker knows: the `off` it holds (with the time it falls due) and
/// when it last sent a command. Times are nanoseconds on one monotonic clock.
#[derive(Debug, Clone, Copy)]
pub struct WorkerState<'a> {
    pub pending_off: Option<(u128, Job<'a>)>,
    pub last_sent: Option<u128>,
}

/// What the wait on a worker's queue gave: a job, the held `off` falling due,
/// or the queue closing.
#[derive(Debug, Clone, Copy)]
pub enum WorkerEvent<'a> {
    Received(Job<'a>),
    Timeout,
    Disconnected,
}

/// What a worker does next: nothing (wait again), run a job, or stop after
/// running the job it held, if any.
#[derive(Debug, Clone, Copy)]
pub enum Step<'a> {
    Hold,
    Run(Job<'a>),
    Finish(Option<Job<'a>>),
}

/// The worker's transition.
/// - An `off` under grace is held until `now + grace`, replacing any held
///   `off`.
/// - Any other `on` or `off` drops the held `off` and runs.
/// - `invoke` runs and leaves the held `off` alone.
/// - The held `off` falling due runs it.
/// - The queue closing runs the held `off` at once and stops.
pub open spec fn spec_step<'a>(s: WorkerState<'a>, ev: WorkerEvent<'a>, now: u128, policy: WorkerPolicy) -> (WorkerState<'a>, Step<'a>) {
    match ev {
        WorkerEvent::Received(job) => if spec_grace_applies(job, policy) {
            (
                WorkerState { pending_off: Some(((now + policy.off_grace_nanos) as u128, job)), last_sent: s.last_sent },
                Step::Hold,
            )
        } else {
            match job.action {
                Then::Invoke { .. } => (s, Step::Run(job)),
                _ => (WorkerState { pending_off: None, last_sent: s.last_sent }, Step::Run(job)),
            }
        },
        WorkerEvent::Timeout => match s.pending_off {
            Some((_, job)) => (WorkerState { pending_off: None, last_sent: s.last_sent }, Step::Run(job)),
            None => (s, Step::Hold),
        },
        WorkerEvent::Disconnected => match s.pending_off {
            Some((_, job)) => (WorkerState { pending_off: None, last_sent: s.last_sent }, Step::Finish(Some(job))),
            None => (s, Step::Finish(None)),
        },
    }
}

/// The time since `last` as `Instant::elapsed` gives it: never negative.
pub open spec fn elapsed_since(last: u128, now: u128) -> int {
    if now >= last { now - last } else { 0 }
}

/// How long to wait before sending at `now` so that commands keep the least
/// gap: the rest of the gap since the last send, or nothing.
pub open spec fn spec_gap_delay(last_sent: Option<u128>, now: u128, policy: WorkerPolicy) -> int {
    match last_sent {
        Some(last) => if elapsed_since(last, now) < policy.min_gap_nanos {
            policy.min_gap_nanos - elapsed_since(last, now)
        } else {
            0
        },
        None => 0,
    }
}

impl<'a> WorkerState<'a> {
    /// A worker that holds nothing and has sent nothing.
    pub fn new() -> (r: WorkerState<'a>)
        ensures
            r.pending_off is None,
            r.last_sent is None,
    {
        WorkerState { pending_off: None, last_sent: None }
    }

    /// When the held `off` falls due, if one is held: the wait on the queue
    /// ends at that time.
    pub fn deadline(&self) -> (r: Option<u128>)
        ensures
            r == (match self.pending_off {
                Some((d, _)) => Some(d),
                None => None,
            }),
    {
        match self.pending_off {
            Some((d, _)) => Some(d),
            None => None,
        }
    }

    /// Takes the outcome of a wait at time `now` and says what to do.
    pub fn step(&mut self, ev: WorkerEvent<'a>, now: u128, policy: WorkerPolicy) -> (r: Step<'a>)
        requires
            now + policy.off_grace_nanos <= u128::MAX,
        ensures
            (*final(self), r) == spec_step(*old(self), ev, now, policy),
    {
        match ev {
            WorkerEvent::Received(job) => {
                if grace_applies(&job, policy) {
                    self.pending_off = Some((now + policy.off_grace_nanos, job));
                    Step::Hold
                } else {
                    match job.action {
                        Then::Invoke { .. } => {},
                        _ => {
                            self.pending_off = None;
                        },
                    }
                    Step::Run(job)
                }
            },
            WorkerEvent::Timeout => match self.pending_off {
                Some((_, job)) => {
                    self.pending_off = None;
                    Step::Run(job)
                },
                None => Step::Hold,
            },
            WorkerEvent::Disconnected => match self.pending_off {
                Some((_, job)) => {
                    self.pending_off = None;
                    Step::Finish(Some(job))
                },
                None => Step::Finish(None),
            },
        }
    }

    /// How long to wait at `now` before sending the next command.
    pub fn gap_delay(&self, now: u128, policy: WorkerPolicy) -> (r: u128)
        ensures
            r == spec_gap_delay(self.last_sent, now, policy),
    {
        match self.last_sent {
            Some(last) => {
                let since = if now >= last { now - last } else { 0 };
                if since < policy.min_gap_nanos {
                    policy.min_gap_nanos - since
                } else {
                    0
                }
            },
            None => 0,
        }
    }

    /// Records that a command was sent at `at`.
    pub fn sent(&mut self, at: u128)
        ensures
            final(self).last_sent == Some(at),
            final(self).pending_off == old(self).pending_off,
    {
        self.last_sent = Some(at);
    }
}

/// Law: an event-triggered `off` under a grace period is not sent when it
/// arrives; it is held until the grace period ends.
pub proof fn law_event_off_is_held<'a>(s: WorkerState<'a>, job: Job<'a>, now: u128, policy: WorkerPolicy)
    requires
        policy.off_grace_nanos != 0,
        job.action is Off,
        job.rule.when is Event || job.rule.when is MatterEvent,
    ensures
        spec_step(s, WorkerEvent::Received(job), now, policy).1 is Hold,
        spec_step(s, WorkerEvent::Received(job), now, policy).0.pending_off == Some(((now + policy.off_grace_nanos) as u128, job)),
{
}

/// Law: a time-triggered `off` runs at once; it is never held.
pub proof fn law_time_off_runs_at_once<'a>(s: WorkerState<'a>, job: Job<'a>, now: u128, policy: WorkerPolicy)
    requires
        job.rule.when is Time,
    ensures
        spec_step(s, WorkerEvent::Received(job), now, policy).1 == Step::Run(job),
{
}

/// Law: an `on` (or an `off` that is not held) runs at once and cancels the
/// held `off`.
pub proof fn law_on_cancels_held_off<'a>(s: WorkerState<'a>, job: Job<'a>, now: u128, policy: WorkerPolicy)
    requires
        job.action is On || (job.action is Off && !spec_grace_applies(job, policy)),
    ensures
        spec_step(s, WorkerEvent::Received(job), now, policy).1 == Step::Run(job),
        spec_step(s, WorkerEvent::Received(job), now, policy).0.pending_off is None,
{
}

/// Law: `invoke` runs at once and leaves the held `off` as it was.
pub proof fn law_invoke_leaves_held_off<'a>(s: WorkerState<'a>, job: Job<'a>, now: u128, policy: WorkerPolicy)
    requires
        job.action is Invoke,
    ensures
        spec_step(s, WorkerEvent::Received(job), now, policy) == (s, Step::Run(job)),
{
}

/// Law: when the held `off` falls due, it runs and is no longer held.
pub proof fn law_due_off_runs<'a>(s: WorkerState<'a>, deadline: u128, job: Job<'a>, now: u128, policy: WorkerPolicy)
    requires
        s.pending_off == Some((deadline, job)),
    ensures
        spec_step(s, WorkerEvent::Timeout, now, policy).1 == Step::Run(job),
        spec_step(s, WorkerEvent::Timeout, now, policy).0.pending_off is None,
{
}

/// Law: when the queue closes, the held `off` (if any) runs without waiting for
/// its grace period, and the worker stops.
pub proof fn law_close_flushes_held_off<'a>(s: WorkerState<'a>, now: u128, policy: WorkerPolicy)
    ensures
        spec_step(s, WorkerEvent::Disconnected, now, policy).1 == Step::Finish(
            match s.pending_off {
                Some((_, job)) => Some(job),
                None => None,
            },
        ),
        spec_step(s, WorkerEvent::Disconnected, now, policy).0.pending_off is None,
{
}

/// A worker's run over the outcomes of its waits, each with the time it came:
/// the state after, and the steps taken. The worker stops at the first
/// `Finish`; outcomes after it never come.
pub open spec fn spec_run<'a>(
    s: WorkerState<'a>,
    evs: Seq<(WorkerEvent<'a>, u128)>,
    policy: WorkerPolicy,
) -> (WorkerState<'a>, Seq<Step<'a>>)
    decreases evs.len(),
{
    if evs.len() == 0 {
        (s, Seq::empty())
    } else {
        let (s1, st) = spec_step(s, evs[0].0, evs[0].1, policy);
        if st is Finish {
            (s1, seq![st])
        } else {
            let (s2, more) = spec_run(s1, evs.drop_first(), policy);
            (s2, seq![st] + more)
        }
    }
}

/// The jobs that a run of steps sends, in order: each `Run`, and the job a
/// `Finish` flushes.
pub open spec fn sent_jobs<'a>(steps: Seq<Step<'a>>) -> Seq<Job<'a>>
    decreases steps.len(),
{
    if steps.len() == 0 {
        Seq::empty()
    } else {
        (match steps[0] {
            Step::Run(j) => seq![j],
            Step::Finish(Some(j)) => seq![j],
            _ => Seq::empty(),
        }) + sent_jobs(steps.drop_first())
    }
}

/// The outcomes of receiving `jobs`, one by one, at `times`.
pub open spec fn received<'a>(jobs: Seq<Job<'a>>, times: Seq<u128>) -> Seq<(WorkerEvent<'a>, u128)> {
    Seq::new(jobs.len(), |i: int| (WorkerEvent::Received(jobs[i]), times[i]))
}

/// The steps that run each of `jobs`, in order.
pub open spec fn runs<'a>(jobs: Seq<Job<'a>>) -> Seq<Step<'a>> {
    Seq::new(jobs.len(), |i: int| Step::Run(jobs[i]))
}

/// `n` steps that hold.
pub open spec fn holds<'a>(n: nat) -> Seq<Step<'a>> {
    Seq::new(n, |i: int| Step::<'a>::Hold)
}

/// The state holding `job` until `deadline`.
pub open spec fn holding<'a>(s: WorkerState<'a>, deadline: u128, job: Job<'a>) -> WorkerState<'a> {
    WorkerState { pending_off: Some((deadline, job)), last_sent: s.last_sent }
}

/// The state holding nothing.
pub open spec fn clear<'a>(s: WorkerState<'a>) -> WorkerState<'a> {
    WorkerState { pending_off: None, last_sent: s.last_sent }
}

proof fn lemma_sent_jobs_append<'a>(a: Seq<Step<'a>>, b: Seq<Step<'a>>)
    ensures
        sent_jobs(a + b) == sent_jobs(a) + sent_jobs(b),
    decreases a.len(),
{
    if a.len() == 0 {
        assert(a + b =~= b);
        assert(sent_jobs(a) + sent_jobs(b) =~= sent_jobs(b));
    } else {
        assert((a + b).drop_first() =~= a.drop_first() + b);
        assert((a + b)[0] == a[0]);
        lemma_sent_jobs_append(a.drop_first(), b);
        let head = match a[0] {
            Step::Run(j) => seq![j],
            Step::Finish(Some(j)) => seq![j],
            _ => Seq::<Job<'a>>::empty(),
        };
        assert(sent_jobs(a + b) == head + sent_jobs(a.drop_first() + b));
        assert(head + (sent_jobs(a.drop_first()) + sent_jobs(b)) =~= (head + sent_jobs(a.drop_first())) + sent_jobs(b));
    }
}

/// The job a single step sends, if any.
pub open spec fn step_job<'a>(st: Step<'a>) -> Seq<Job<'a>> {
    match st {
        Step::Run(j) => seq![j],
        Step::Finish(Some(j)) => seq![j],
        _ => Seq::empty(),
    }
}

proof fn lemma_sent_one<'a>(st: Step<'a>)
    ensures
        sent_jobs(seq![st]) == step_job(st),
{
    assert(seq![st].drop_first() =~= Seq::<Step<'a>>::empty());
    assert(sent_jobs(Seq::<Step<'a>>::empty()) == Seq::<Job<'a>>::empty());
    assert(sent_jobs(seq![st]) =~= step_job(st));
}

proof fn lemma_sent_runs<'a>(jobs: Seq<Job<'a>>)
    ensures
        sent_jobs(runs(jobs)) == jobs,
    decreases jobs.len(),
{
    if jobs.len() == 0 {
        assert(runs(jobs) =~= Seq::<Step<'a>>::empty());
        assert(sent_jobs(runs(jobs)) =~= jobs);
    } else {
        assert(runs(jobs).drop_first() =~= runs(jobs.drop_first()));
        lemma_sent_runs(jobs.drop_first());
        assert(sent_jobs(runs(jobs)) == seq![jobs[0]] + sent_jobs(runs(jobs.drop_first())));
        assert(seq![jobs[0]] + jobs.drop_first() =~= jobs);
    }
}

proof fn lemma_sent_holds<'a>(n: nat)
    ensures
        sent_jobs(holds::<'a>(n)) == Seq::<Job<'a>>::empty(),
    decreases n,
{
    if n > 0 {
        assert(holds::<'a>(n).drop_first() =~= holds::<'a>((n - 1) as nat));
        lemma_sent_holds((n - 1) as nat);
        assert(sent_jobs(holds::<'a>(n)) =~= Seq::<Job<'a>>::empty());
    } else {
        assert(holds::<'a>(n) =~= Seq::<Step<'a>>::empty());
    }
}

/// Receiving jobs that each run at once and leave the state as it was.
proof fn lemma_run_steady<'a>(
    s: WorkerState<'a>,
    jobs: Seq<Job<'a>>,
    times: Seq<u128>,
    rest: Seq<(WorkerEvent<'a>, u128)>,
    policy: WorkerPolicy,
)
    requires
        times.len() == jobs.len(),
        forall|i: int| 0 <= i < jobs.len() ==> spec_step(s, WorkerEvent::Received(#[trigger] jobs[i]), times[i], policy) == (s, Step::Run(jobs[i])),
    ensures
        spec_run(s, received(jobs, times) + rest, policy) == (spec_run(s, rest, policy).0, runs(jobs) + spec_run(s, rest, policy).1),
    decreases jobs.len(),
{
    let evs = received(jobs, times) + rest;
    if jobs.len() == 0 {
        assert(evs =~= rest);
        assert(runs(jobs) + spec_run(s, rest, policy).1 =~= spec_run(s, rest, policy).1);
    } else {
        assert(evs[0] == (WorkerEvent::Received(jobs[0]), times[0]));
        assert(evs.drop_first() =~= received(jobs.drop_first(), times.drop_first()) + rest);
        assert forall|i: int| 0 <= i < jobs.drop_first().len() implies spec_step(
            s,
            WorkerEvent::Received(#[trigger] jobs.drop_first()[i]),
            times.drop_first()[i],
            policy,
        ) == (s, Step::Run(jobs.drop_first()[i])) by {
            assert(jobs.drop_first()[i] == jobs[i + 1]);
        }
        lemma_run_steady(s, jobs.drop_first(), times.drop_first(), rest, policy);
        assert(runs(jobs) + spec_run(s, rest, policy).1 =~= seq![Step::Run(jobs[0])] + (runs(jobs.drop_first())
            + spec_run(s, rest, policy).1));
    }
}

/// Receiving `off`s that are all held: each step holds, and the last `off` is
/// held until its own grace ends.
proof fn lemma_run_held<'a>(
    s: WorkerState<'a>,
    offs: Seq<Job<'a>>,
    times: Seq<u128>,
    rest: Seq<(WorkerEvent<'a>, u128)>,
    policy: WorkerPolicy,
)
    requires
        offs.len() > 0,
        times.len() == offs.len(),
        forall|i: int| 0 <= i < offs.len() ==> spec_grace_applies(#[trigger] offs[i], policy),
    ensures
        ({
            let h = holding(s, (times.last() + policy.off_grace_nanos) as u128, offs.last());
            spec_run(s, received(offs, times) + rest, policy) == (spec_run(h, rest, policy).0, holds(offs.len())
                + spec_run(h, rest, policy).1)
        }),
    decreases offs.len(),
{
    let evs = received(offs, times) + rest;
    let s1 = holding(s, (times[0] + policy.off_grace_nanos) as u128, offs[0]);
    assert(evs[0] == (WorkerEvent::Received(offs[0]), times[0]));
    assert(spec_grace_applies(offs[0], policy));
    assert(spec_step(s, evs[0].0, evs[0].1, policy) == (s1, Step::<'a>::Hold));
    if offs.len() == 1 {
        assert(evs.drop_first() =~= rest);
        assert(holds::<'a>(1) + spec_run(s1, rest, policy).1 =~= seq![Step::<'a>::Hold] + spec_run(s1, rest, policy).1);
    } else {
        assert(evs.drop_first() =~= received(offs.drop_first(), times.drop_first()) + rest);
        assert forall|i: int| 0 <= i < offs.drop_first().len() implies spec_grace_applies(#[trigger] offs.drop_first()[i], policy) by {
            assert(offs.drop_first()[i] == offs[i + 1]);
        }
        lemma_run_held(s1, offs.drop_first(), times.drop_first(), rest, policy);
        assert(offs.drop_first().last() == offs.last());
        assert(times.drop_first().last() == times.last());
        let h = holding(s, (times.last() + policy.off_grace_nanos) as u128, offs.last());
        assert(holding(s1, (times.last() + policy.off_grace_nanos) as u128, offs.last()) == h);
        assert(holds::<'a>(offs.len()) + spec_run(h, rest, policy).1 =~= seq![Step::<'a>::Hold] + (holds::<'a>(
            offs.drop_first().len(),
        ) + spec_run(h, rest, policy).1));
    }
}

/// Whether `job` can come out of a run from `s` over `evs`: it is the job `s`
/// holds, or one of the jobs received.
pub open spec fn from_start<'a>(s: WorkerState<'a>, evs: Seq<(WorkerEvent<'a>, u128)>, job: Job<'a>) -> bool {
    ||| (s.pending_off matches Some((_, held)) && held == job)
    ||| exists|i: int| 0 <= i < evs.len() && #[trigger] evs[i].0 == WorkerEvent::Received(job)
}

/// Law: a run sends nothing of its own making: every job it sends is the job
/// held when the run began or a job it received. So once the held `off` is
/// dropped, it is sent again only if it arrives again.
pub proof fn law_only_queued_jobs_are_sent<'a>(
    s: WorkerState<'a>,
    evs: Seq<(WorkerEvent<'a>, u128)>,
    policy: WorkerPolicy,
)
    ensures
        forall|k: int|
            0 <= k < sent_jobs(spec_run(s, evs, policy).1).len() ==> from_start(
                s,
                evs,
                #[trigger] sent_jobs(spec_run(s, evs, policy).1)[k],
            ),
    decreases evs.len(),
{
    if evs.len() > 0 {
        let (s1, st) = spec_step(s, evs[0].0, evs[0].1, policy);
        let tail = evs.drop_first();
        lemma_sent_one(st);
        // What the first step sends, and what it leaves held, come from the start.
        assert forall|k: int| 0 <= k < step_job(st).len() implies from_start(s, evs, #[trigger] step_job(st)[k]) by {
            match evs[0].0 {
                WorkerEvent::Received(j) => {
                    assert(evs[0].0 == WorkerEvent::Received(j));
                },
                _ => {},
            }
        }
        if st is Finish {
            assert(spec_run(s, evs, policy).1 == seq![st]);
        } else {
            law_only_queued_jobs_are_sent(s1, tail, policy);
            let more = spec_run(s1, tail, policy).1;
            assert(spec_run(s, evs, policy).1 == seq![st] + more);
            lemma_sent_jobs_append(seq![st], more);
            assert forall|k: int| 0 <= k < sent_jobs(more).len() implies from_start(s, evs, #[trigger] sent_jobs(more)[k]) by {
                let j = sent_jobs(more)[k];
                assert(from_start(s1, tail, j));
                if exists|i: int| 0 <= i < tail.len() && #[trigger] tail[i].0 == WorkerEvent::Received(j) {
                    let i = choose|i: int| 0 <= i < tail.len() && #[trigger] tail[i].0 == WorkerEvent::Received(j);
                    assert(evs[i + 1] == tail[i]);
                } else {
                    match evs[0].0 {
                        WorkerEvent::Received(r) => {
                            assert(evs[0].0 == WorkerEvent::Received(r));
                        },
                        _ => {},
                    }
                }
            }
            let all = sent_jobs(spec_run(s, evs, policy).1);
            assert forall|k: int| 0 <= k < all.len() implies from_start(s, evs, #[trigger] all[k]) by {
                if k < step_job(st).len() {
                    assert(all[k] == step_job(st)[k]);
                } else {
                    assert(all[k] == sent_jobs(more)[k - step_job(st).len()]);
                }
            }
        }
    }
}

/// Law: an event `off` that an `on` (or an `off` that is not held) follows
/// before its grace ends is never sent. Whatever `invoke`s come between run
/// at once; the `on` runs and clears the held `off`; the rest of the run goes
/// on from a state holding nothing and sends only jobs that arrive in it. With
/// the queue closing right after, the jobs sent are exactly the `invoke`s and
/// the `on`.
pub proof fn law_off_then_on_sends_only_on<'a>(
    s: WorkerState<'a>,
    off: Job<'a>,
    t0: u128,
    mids: Seq<Job<'a>>,
    mtimes: Seq<u128>,
    on: Job<'a>,
    t1: u128,
    rest: Seq<(WorkerEvent<'a>, u128)>,
    t2: u128,
    policy: WorkerPolicy,
)
    requires
        spec_grace_applies(off, policy),
        mtimes.len() == mids.len(),
        forall|i: int| 0 <= i < mids.len() ==> (#[trigger] mids[i]).action is Invoke,
        on.action is On || (on.action is Off && !spec_grace_applies(on, policy)),
    ensures
        ({
            let evs = seq![(WorkerEvent::Received(off), t0)] + received(mids, mtimes) + seq![(WorkerEvent::Received(on), t1)] + rest;
            let after = spec_run(clear(s), rest, policy);
            &&& spec_run(s, evs, policy).1 == seq![Step::<'a>::Hold] + runs(mids) + seq![Step::Run(on)] + after.1
            &&& sent_jobs(spec_run(s, evs, policy).1) == mids + seq![on] + sent_jobs(after.1)
            &&& forall|k: int| 0 <= k < sent_jobs(after.1).len() ==> from_start(clear(s), rest, #[trigger] sent_jobs(after.1)[k])
        }),
        ({
            let closed = seq![(WorkerEvent::Received(off), t0)] + received(mids, mtimes) + seq![
                (WorkerEvent::Received(on), t1),
                (WorkerEvent::Disconnected, t2),
            ];
            sent_jobs(spec_run(s, closed, policy).1) == mids + seq![on]
        }),
{
    lemma_off_then_on(s, off, t0, mids, mtimes, on, t1, rest, policy);
    law_only_queued_jobs_are_sent(clear(s), rest, policy);
    lemma_off_then_on(s, off, t0, mids, mtimes, on, t1, seq![(WorkerEvent::<'a>::Disconnected, t2)], policy);
    let closed_rest = seq![(WorkerEvent::<'a>::Disconnected, t2)];
    assert(seq![(WorkerEvent::Received(on), t1)] + closed_rest =~= seq![
        (WorkerEvent::Received(on), t1),
        (WorkerEvent::Disconnected, t2),
    ]);
    let closed = seq![(WorkerEvent::Received(off), t0)] + received(mids, mtimes) + seq![
        (WorkerEvent::Received(on), t1),
        (WorkerEvent::Disconnected, t2),
    ];
    assert(closed =~= seq![(WorkerEvent::Received(off), t0)] + received(mids, mtimes) + seq![(WorkerEvent::Received(on), t1)]
        + closed_rest);
    let c = clear(s);
    assert(closed_rest.drop_first() =~= Seq::<(WorkerEvent<'a>, u128)>::empty());
    assert(spec_run(c, closed_rest, policy).1 == seq![Step::<'a>::Finish(None)]);
    lemma_sent_one(Step::<'a>::Finish(None));
    assert(mids + seq![on] + Seq::<Job<'a>>::empty() =~= mids + seq![on]);
}

proof fn lemma_off_then_on<'a>(
    s: WorkerState<'a>,
    off: Job<'a>,
    t0: u128,
    mids: Seq<Job<'a>>,
    mtimes: Seq<u128>,
    on: Job<'a>,
    t1: u128,
    rest: Seq<(WorkerEvent<'a>, u128)>,
    policy: WorkerPolicy,
)
    requires
        spec_grace_applies(off, policy),
        mtimes.len() == mids.len(),
        forall|i: int| 0 <= i < mids.len() ==> (#[trigger] mids[i]).action is Invoke,
        on.action is On || (on.action is Off && !spec_grace_applies(on, policy)),
    ensures
        ({
            let evs = seq![(WorkerEvent::Received(off), t0)] + received(mids, mtimes) + seq![(WorkerEvent::Received(on), t1)] + rest;
            let after = spec_run(clear(s), rest, policy);
            &&& spec_run(s, evs, policy).1 == seq![Step::<'a>::Hold] + runs(mids) + seq![Step::Run(on)] + after.1
            &&& sent_jobs(spec_run(s, evs, policy).1) == mids + seq![on] + sent_jobs(after.1)
        }),
{
    let e0 = (WorkerEvent::Received(off), t0);
    let eon = (WorkerEvent::Received(on), t1);
    let evs = seq![e0] + received(mids, mtimes) + seq![eon] + rest;
    let tail = seq![eon] + rest;
    let h = holding(s, (t0 + policy.off_grace_nanos) as u128, off);
    let c = clear(s);
    assert(evs[0] == e0);
    assert(evs.drop_first() =~= received(mids, mtimes) + tail);
    assert(spec_step(s, WorkerEvent::Received(off), t0, policy) == (h, Step::<'a>::Hold));
    assert forall|i: int| 0 <= i < mids.len() implies spec_step(h, WorkerEvent::Received(#[trigger] mids[i]), mtimes[i], policy)
        == (h, Step::Run(mids[i])) by {
        assert(mids[i].action is Invoke);
    }
    lemma_run_steady(h, mids, mtimes, tail, policy);
    assert(tail[0] == eon);
    assert(tail.drop_first() =~= rest);
    assert(spec_step(h, WorkerEvent::Received(on), t1, policy) == (c, Step::Run(on)));
    let after = spec_run(c, rest, policy);
    assert(spec_run(h, tail, policy).1 == seq![Step::Run(on)] + after.1);
    let steps = spec_run(s, evs, policy).1;
    assert(steps == seq![Step::<'a>::Hold] + (runs(mids) + (seq![Step::Run(on)] + after.1)));
    assert(steps =~= seq![Step::<'a>::Hold] + runs(mids) + seq![Step::Run(on)] + after.1);
    lemma_sent_jobs_append(seq![Step::<'a>::Hold], runs(mids) + (seq![Step::Run(on)] + after.1));
    lemma_sent_jobs_append(runs(mids), seq![Step::Run(on)] + after.1);
    lemma_sent_jobs_append(seq![Step::Run(on)], after.1);
    lemma_sent_runs(mids);
    lemma_sent_one(Step::<'a>::Hold);
    lemma_sent_one(Step::Run(on));
    assert(sent_jobs(steps) =~= mids + seq![on] + sent_jobs(after.1));
}

/// Law: an event `off` is held until its grace ends (the worker's wait ends at
/// that deadline), `invoke`s meanwhile run at once, and when the wait times out
/// the `off` is sent, once: the rest of the run goes on holding nothing and
/// sends only jobs that arrive in it.
pub proof fn law_held_off_runs_when_due<'a>(
    s: WorkerState<'a>,
    off: Job<'a>,
    t0: u128,
    mids: Seq<Job<'a>>,
    mtimes: Seq<u128>,
    t: u128,
    rest: Seq<(WorkerEvent<'a>, u128)>,
    policy: WorkerPolicy,
)
    requires
        spec_grace_applies(off, policy),
        mtimes.len() == mids.len(),
        forall|i: int| 0 <= i < mids.len() ==> (#[trigger] mids[i]).action is Invoke,
    ensures
        spec_step(s, WorkerEvent::Received(off), t0, policy).0.pending_off == Some(((t0 + policy.off_grace_nanos) as u128, off)),
        ({
            let evs = seq![(WorkerEvent::Received(off), t0)] + received(mids, mtimes) + seq![(WorkerEvent::<'a>::Timeout, t)] + rest;
            let after = spec_run(clear(s), rest, policy);
            &&& spec_run(s, evs, policy).1 == seq![Step::<'a>::Hold] + runs(mids) + seq![Step::Run(off)] + after.1
            &&& sent_jobs(spec_run(s, evs, policy).1) == mids + seq![off] + sent_jobs(after.1)
            &&& forall|k: int| 0 <= k < sent_jobs(after.1).len() ==> from_start(clear(s), rest, #[trigger] sent_jobs(after.1)[k])
        }),
{
    law_only_queued_jobs_are_sent(clear(s), rest, policy);
    let e0 = (WorkerEvent::Received(off), t0);
    let et = (WorkerEvent::<'a>::Timeout, t);
    let evs = seq![e0] + received(mids, mtimes) + seq![et] + rest;
    let tail = seq![et] + rest;
    let h = holding(s, (t0 + policy.off_grace_nanos) as u128, off);
    let c = clear(s);
    assert(evs[0] == e0);
    assert(evs.drop_first() =~= received(mids, mtimes) + tail);
    assert forall|i: int| 0 <= i < mids.len() implies spec_step(h, WorkerEvent::Received(#[trigger] mids[i]), mtimes[i], policy)
        == (h, Step::Run(mids[i])) by {
        assert(mids[i].action is Invoke);
    }
    lemma_run_steady(h, mids, mtimes, tail, policy);
    assert(tail[0] == et);
    assert(tail.drop_first() =~= rest);
    let after = spec_run(c, rest, policy);
    assert(spec_run(h, tail, policy).1 == seq![Step::Run(off)] + after.1);
    let steps = spec_run(s, evs, policy).1;
    assert(steps =~= seq![Step::<'a>::Hold] + runs(mids) + seq![Step::Run(off)] + after.1);
    lemma_sent_jobs_append(seq![Step::<'a>::Hold], runs(mids) + (seq![Step::Run(off)] + after.1));
    lemma_sent_jobs_append(runs(mids), seq![Step::Run(off)] + after.1);
    lemma_sent_jobs_append(seq![Step::Run(off)], after.1);
    lemma_sent_runs(mids);
    lemma_sent_one(Step::<'a>::Hold);
    lemma_sent_one(Step::Run(off));
    assert(seq![Step::<'a>::Hold] + (runs(mids) + (seq![Step::Run(off)] + after.1)) =~= steps);
    assert(sent_jobs(steps) =~= mids + seq![off] + sent_jobs(after.1));
}

/// Law: any number of event `off`s in a row are held as one: each arrival
/// holds, the last one is held until its own grace ends, and then exactly one
/// `off`, the last, is sent, whether the wait times out or the queue closes;
/// after a time-out the worker holds nothing.
pub proof fn law_repeated_offs_conflate<'a>(
    s: WorkerState<'a>,
    offs: Seq<Job<'a>>,
    times: Seq<u128>,
    t: u128,
    policy: WorkerPolicy,
)
    requires
        offs.len() > 0,
        times.len() == offs.len(),
        forall|i: int| 0 <= i < offs.len() ==> spec_grace_applies(#[trigger] offs[i], policy),
    ensures
        spec_run(s, received(offs, times), policy).1 == holds::<'a>(offs.len()),
        spec_run(s, received(offs, times), policy).0.pending_off == Some(((times.last() + policy.off_grace_nanos) as u128, offs.last())),
        sent_jobs(spec_run(s, received(offs, times).push((WorkerEvent::Timeout, t)), policy).1) == seq![offs.last()],
        spec_run(s, received(offs, times).push((WorkerEvent::Timeout, t)), policy).0.pending_off is None,
        sent_jobs(spec_run(s, received(offs, times).push((WorkerEvent::Disconnected, t)), policy).1) == seq![offs.last()],
{
    let h = holding(s, (times.last() + policy.off_grace_nanos) as u128, offs.last());
    let empty = Seq::<(WorkerEvent<'a>, u128)>::empty();
    lemma_run_held(s, offs, times, empty, policy);
    assert(received(offs, times) + empty =~= received(offs, times));
    assert(holds::<'a>(offs.len()) + Seq::<Step<'a>>::empty() =~= holds::<'a>(offs.len()));
    let tt = seq![(WorkerEvent::<'a>::Timeout, t)];
    lemma_run_held(s, offs, times, tt, policy);
    assert(received(offs, times).push((WorkerEvent::Timeout, t)) =~= received(offs, times) + tt);
    assert(tt.drop_first() =~= empty);
    assert(tt[0] == (WorkerEvent::<'a>::Timeout, t));
    assert(spec_step(h, WorkerEvent::Timeout, t, policy) == (clear(h), Step::Run(offs.last())));
    assert(spec_run(clear(h), empty, policy) == (clear(h), Seq::<Step<'a>>::empty()));
    assert(spec_run(h, tt, policy) == (clear(h), seq![Step::Run(offs.last())] + Seq::<Step<'a>>::empty()));
    assert(seq![Step::Run(offs.last())] + Seq::<Step<'a>>::empty() =~= seq![Step::Run(offs.last())]);
    assert(spec_run(h, tt, policy).1 == seq![Step::Run(offs.last())]);
    lemma_sent_jobs_append(holds::<'a>(offs.len()), seq![Step::Run(offs.last())]);
    lemma_sent_holds(offs.len());
    lemma_sent_one(Step::Run(offs.last()));
    assert(Seq::<Job<'a>>::empty() + seq![offs.last()] =~= seq![offs.last()]);
    let td = seq![(WorkerEvent::<'a>::Disconnected, t)];
    lemma_run_held(s, offs, times, td, policy);
    assert(received(offs, times).push((WorkerEvent::Disconnected, t)) =~= received(offs, times) + td);
    assert(spec_run(h, td, policy).1 == seq![Step::Finish(Some(offs.last()))]);
    lemma_sent_jobs_append(holds::<'a>(offs.len()), seq![Step::Finish(Some(offs.last()))]);
    lemma_sent_one(Step::Finish(Some(offs.last())));
}

/// Law: a job that is not held (an `on`, an `invoke`, a time-triggered `off`,
/// or any `off` when the grace period is zero) is sent at once, as the first
/// step; an `on` or `off` also clears a held `off`, which is then not sent by
/// the rest of the run unless it arrives again: the rest sends only what the
/// state after the first step holds or what arrives.
pub proof fn law_unheld_job_runs_at_once<'a>(
    s: WorkerState<'a>,
    job: Job<'a>,
    t: u128,
    rest: Seq<(WorkerEvent<'a>, u128)>,
    policy: WorkerPolicy,
)
    requires
        !spec_grace_applies(job, policy),
    ensures
        ({
            let s1 = spec_step(s, WorkerEvent::Received(job), t, policy).0;
            let evs = seq![(WorkerEvent::Received(job), t)] + rest;
            &&& spec_run(s, evs, policy).1 == seq![Step::Run(job)] + spec_run(s1, rest, policy).1
            &&& sent_jobs(spec_run(s, evs, policy).1) == seq![job] + sent_jobs(spec_run(s1, rest, policy).1)
            &&& (job.action is Invoke ==> s1 == s)
            &&& (!(job.action is Invoke) ==> s1 == clear(s))
            &&& forall|k: int|
                0 <= k < sent_jobs(spec_run(s1, rest, policy).1).len() ==> from_start(
                    s1,
                    rest,
                    #[trigger] sent_jobs(spec_run(s1, rest, policy).1)[k],
                )
        }),
{
    law_only_queued_jobs_are_sent(spec_step(s, WorkerEvent::Received(job), t, policy).0, rest, policy);
    let evs = seq![(WorkerEvent::Received(job), t)] + rest;
    let s1 = spec_step(s, WorkerEvent::Received(job), t, policy).0;
    assert(evs[0] == (WorkerEvent::Received(job), t));
    assert(evs.drop_first() =~= rest);
    lemma_sent_jobs_append(seq![Step::Run(job)], spec_run(s1, rest, policy).1);
    lemma_sent_one(Step::Run(job));
}

/// Law: when the queue closes the run ends at once: the held `off`, if any, is
/// sent without waiting out its grace, nothing else is, and later outcomes
/// never come.
pub proof fn law_close_ends_the_run<'a>(
    s: WorkerState<'a>,
    t: u128,
    rest: Seq<(WorkerEvent<'a>, u128)>,
    policy: WorkerPolicy,
)
    ensures
        ({
            let held = match s.pending_off {
                Some((_, job)) => Some(job),
                None => None,
            };
            let evs = seq![(WorkerEvent::<'a>::Disconnected, t)] + rest;
            &&& spec_run(s, evs, policy) == (clear(s), seq![Step::Finish(held)])
            &&& sent_jobs(spec_run(s, evs, policy).1) == (match held {
                Some(job) => seq![job],
                None => Seq::empty(),
            })
        }),
{
    let held = match s.pending_off {
        Some((_, job)) => Some(job),
        None => None,
    };
    let evs = seq![(WorkerEvent::<'a>::Disconnected, t)] + rest;
    assert(evs[0] == (WorkerEvent::<'a>::Disconnected, t));
    lemma_sent_one(Step::<'a>::Finish(held));
}

/// Law: with no grace period, jobs run in the order received, each once, and
/// when the queue closes nothing is left: the jobs sent are exactly the jobs
/// received, in order.
pub proof fn law_jobs_run_in_order<'a>(
    s: WorkerState<'a>,
    jobs: Seq<Job<'a>>,
    times: Seq<u128>,
    t: u128,
    policy: WorkerPolicy,
)
    requires
        policy.off_grace_nanos == 0,
        s.pending_off is None,
        times.len() == jobs.len(),
    ensures
        spec_run(s, received(jobs, times).push((WorkerEvent::Disconnected, t)), policy).1 == runs(jobs).push(
            Step::<'a>::Finish(None),
        ),
        sent_jobs(spec_run(s, received(jobs, times).push((WorkerEvent::Disconnected, t)), policy).1) == jobs,
{
    let td = seq![(WorkerEvent::<'a>::Disconnected, t)];
    assert forall|i: int| 0 <= i < jobs.len() implies spec_step(s, WorkerEvent::Received(#[trigger] jobs[i]), times[i], policy)
        == (s, Step::Run(jobs[i])) by {
        assert(clear(s) == s);
    }
    lemma_run_steady(s, jobs, times, td, policy);
    assert(received(jobs, times).push((WorkerEvent::Disconnected, t)) =~= received(jobs, times) + td);
    assert(td.drop_first() =~= Seq::<(WorkerEvent<'a>, u128)>::empty());
    assert(spec_run(s, td, policy).1 == seq![Step::<'a>::Finish(None)]);
    assert(runs(jobs) + seq![Step::<'a>::Finish(None)] =~= runs(jobs).push(Step::<'a>::Finish(None)));
    lemma_sent_jobs_append(runs(jobs), seq![Step::<'a>::Finish(None)]);
    lemma_sent_runs(jobs);
    lemma_sent_one(Step::<'a>::Finish(None));
    assert(jobs + Seq::<Job<'a>>::empty() =~= jobs);
}

/// When the `i`-th send of a run may start: when the worker is ready for it,
/// plus the gap delay since the previous send ended (or since `first_last`).
pub open spec fn send_start(first_last: Option<u128>, ready: Seq<u128>, ends: Seq<u128>, i: int, policy: WorkerPolicy) -> int {
    let last = if i == 0 { first_last } else { Some(ends[i - 1]) };
    ready[i] + spec_gap_delay(last, ready[i], policy)
}

/// Law: over a run of sends, each waiting its gap delay before it starts, every
/// send starts at least the least gap after the previous one ended.
pub proof fn law_sends_keep_min_gap(first_last: Option<u128>, ready: Seq<u128>, ends: Seq<u128>, policy: WorkerPolicy)
    requires
        ready.len() == ends.len(),
        forall|i: int| 0 < i < ready.len() ==> #[trigger] ready[i] >= ends[i - 1],
    ensures
        forall|i: int| 0 < i < ready.len() ==> #[trigger] send_start(first_last, ready, ends, i, policy) - ends[i - 1]
            >= policy.min_gap_nanos,
{
    assert forall|i: int| 0 < i < ready.len() implies #[trigger] send_start(first_last, ready, ends, i, policy) - ends[i - 1]
        >= policy.min_gap_nanos by {
        assert(ready[i] >= ends[i - 1]);
    }
}

/// Law: a command sent after waiting the gap delay comes at least the least
/// gap after the previous one.
pub proof fn law_min_gap_kept(last: u128, now: u128, policy: WorkerPolicy)
    requires
        last <= now,
    ensures
        now + spec_gap_delay(Some(last), now, policy) - last >= policy.min_gap_nanos,
        spec_gap_delay(None, now, policy) == 0,
{
}


/// Whether a rule in `rules` has an action on `name`.
pub open spec fn is_target(rules: Seq<Rule>, name: Seq<char>) -> bool {
    exists|i: int, k: int|
        0 <= i < rules.len() && 0 <= k < spec_actions(rules[i].thens).len()
            && #[trigger] spec_target(spec_actions(rules[i].thens)[k]) == name
}

/// Whether an action of the rules before `ri`, or of rule `ri` before its
/// action `ki`, is on `name`.
pub open spec fn target_before(rules: Seq<Rule>, ri: int, ki: int, name: Seq<char>) -> bool {
    exists|i: int, k: int|
        0 <= i <= ri && i < rules.len() && 0 <= k < spec_actions(rules[i].thens).len() && (i < ri || k < ki)
            && #[trigger] spec_target(spec_actions(rules[i].thens)[k]) == name
}

/// Whether `v` holds `name`.
pub open spec fn has_name(v: Seq<String>, name: Seq<char>) -> bool {
    exists|i: int| 0 <= i < v.len() && (#[trigger] v[i])@ == name
}

/// Whether the names are in strictly increasing order (so none is there twice).
pub open spec fn strictly_sorted(v: Seq<String>) -> bool {
    forall|i: int, j: int| 0 <= i < j < v.len() ==> lex_lt((#[trigger] v[i])@, (#[trigger] v[j])@)
}

/// The position of the first name in `v` not before `s`.
fn lower_bound(v: &Vec<String>, s: &str) -> (j: usize)
    ensures
        j <= v.len(),
        forall|k: int| 0 <= k < j ==> lex_lt((#[trigger] v@[k])@, s@),
        j < v.len() ==> !lex_lt(v@[j as int]@, s@),
{
    let mut j: usize = 0;
    while j < v.len()
        invariant
            j <= v.len(),
            forall|k: int| 0 <= k < j ==> lex_lt((#[trigger] v@[k])@, s@),
        decreases v.len() - j,
    {
        if !str_lt(v[j].as_str(), s) {
            return j;
        }
        j = j + 1;
    }
    j
}

/// Adds a name to a strictly sorted list, keeping it so.
fn insert_sorted(v: &mut Vec<String>, s: &str)
    requires
        strictly_sorted(old(v)@),
    ensures
        strictly_sorted(final(v)@),
        forall|x: Seq<char>| has_name(final(v)@, x) <==> (has_name(old(v)@, x) || x == s@),
{
    let j = lower_bound(v, s);
    if j < v.len() && str_eq(v[j].as_str(), s) {
        assert(has_name(v@, s@) && v@[j as int]@ == s@);
        return;
    }
    proof {
        if j < v.len() {
            lemma_lex_total(v@[j as int]@, s@);
        }
    }
    let ghost before = v@;
    v.insert(j, s.to_owned());
    proof {
        assert forall|a: int, b: int| 0 <= a < b < v@.len() implies lex_lt((#[trigger] v@[a])@, (#[trigger] v@[b])@) by {
            if b < j {
                assert(v@[a] == before[a] && v@[b] == before[b]);
            } else if b == j {
                assert(v@[a] == before[a]);
            } else if a == j {
                assert(v@[b] == before[b - 1]);
                if b - 1 > j {
                    lemma_lex_trans(s@, before[j as int]@, before[b - 1]@);
                }
            } else if a < j {
                assert(v@[a] == before[a] && v@[b] == before[b - 1]);
                if b - 1 >= j {
                    lemma_lex_total(before[j as int]@, s@);
                }
            } else {
                assert(v@[a] == before[a - 1] && v@[b] == before[b - 1]);
            }
        }
        assert forall|x: Seq<char>| #[trigger] has_name(v@, x) <==> (has_name(old(v)@, x) || x == s@) by {
            if has_name(v@, x) {
                let i = choose|i: int| 0 <= i < v@.len() && (#[trigger] v@[i])@ == x;
                if i < j {
                    assert(before[i] == v@[i]);
                } else if i > j {
                    assert(before[i - 1] == v@[i]);
                }
            }
            if has_name(before, x) {
                let i = choose|i: int| 0 <= i < before.len() && (#[trigger] before[i])@ == x;
                if i < j {
                    assert(before[i] == v@[i]);
                } else {
                    assert(before[i] == v@[i + 1]);
                }
            }
            if x == s@ {
                assert(v@[j as int]@ == x);
            }
        }
    }
}

/// The names that the rules' actions target, each once, in `str` order: the
/// devices (and groups) that get a worker.
pub fn distinct_devices(file: &RuleFile) -> (r: Vec<String>)
    ensures
        strictly_sorted(r@),
        forall|x: Seq<char>| has_name(r@, x) <==> is_target(file.rules@, x),
{
    let mut out: Vec<String> = Vec::new();
    let mut i: usize = 0;
    while i < file.rules.len()
        invariant
            i <= file.rules.len(),
            strictly_sorted(out@),
            forall|x: Seq<char>| has_name(out@, x) <==> target_before(file.rules@, i as int, 0, x),
        decreases file.rules.len() - i,
    {
        let acts = file.rules[i].thens.actions();
        let mut k: usize = 0;
        while k < acts.len()
            invariant
                i < file.rules.len(),
                acts@ == spec_actions(file.rules@[i as int].thens),
                k <= acts.len(),
                strictly_sorted(out@),
                forall|x: Seq<char>| has_name(out@, x) <==> target_before(file.rules@, i as int, k as int, x),
            decreases acts.len() - k,
        {
            let name = acts[k].device();
            insert_sorted(&mut out, name);
            proof {
                assert forall|x: Seq<char>| target_before(file.rules@, i as int, k + 1, x)
                    <==> (target_before(file.rules@, i as int, k as int, x) || x == name@) by {
                    if target_before(file.rules@, i as int, k + 1, x) {
                        let (a, b) = choose|a: int, b: int|
                            0 <= a <= i && a < file.rules@.len() && 0 <= b < spec_actions(file.rules@[a].thens).len() && (a < i || b < k + 1)
                                && #[trigger] spec_target(spec_actions(file.rules@[a].thens)[b]) == x;
                        if !(a == i && b == k) {
                            assert(target_before(file.rules@, i as int, k as int, x));
                        }
                    }
                    if x == name@ {
                        assert(spec_target(spec_actions(file.rules@[i as int].thens)[k as int]) == x);
                    }
                }
            }
            k = k + 1;
        }
        proof {
            assert forall|x: Seq<char>| target_before(file.rules@, i + 1, 0, x)
                <==> target_before(file.rules@, i as int, k as int, x) by {
                if target_before(file.rules@, i + 1, 0, x) {
                    let (a, b) = choose|a: int, b: int|
                        0 <= a <= i + 1 && a < file.rules@.len() && 0 <= b < spec_actions(file.rules@[a].thens).len() && (a < i + 1 || b < 0)
                            && #[trigger] spec_target(spec_actions(file.rules@[a].thens)[b]) == x;
                    assert(target_before(file.rules@, i as int, k as int, x));
                }
                if target_before(file.rules@, i as int, k as int, x) {
                    let (a, b) = choose|a: int, b: int|
                        0 <= a <= i && a < file.rules@.len() && 0 <= b < spec_actions(file.rules@[a].thens).len() && (a < i || b < k)
                            && #[trigger] spec_target(spec_actions(file.rules@[a].thens)[b]) == x;
                    assert(target_before(file.rules@, i + 1, 0, x));
                }
            }
        }
        i = i + 1;
    }
    proof {
        assert forall|x: Seq<char>| has_name(out@, x) <==> is_target(file.rules@, x) by {
            if is_target(file.rules@, x) {
                let (a, b) = choose|a: int, b: int|
                    0 <= a < file.rules@.len() && 0 <= b < spec_actions(file.rules@[a].thens).len()
                        && #[trigger] spec_target(spec_actions(file.rules@[a].thens)[b]) == x;
                assert(target_before(file.rules@, i as int, 0, x));
            }
        }
    }
    out
}

/// The worker for a device: the position of its name among the workers' names.
pub fn worker_for(workers: &[String], device: &str) -> (r: Option<usize>)
    ensures
        match r {
            Some(w) => w < workers@.len() && workers@[w as int]@ == device@
                && forall|i: int| 0 <= i < w ==> (#[trigger] workers@[i])@ != device@,
            None => !has_name(workers@, device@),
        },
{
    let mut i: usize = 0;
    while i < workers.len()
        invariant
            i <= workers.len(),
            forall|j: int| 0 <= j < i ==> (#[trigger] workers@[j])@ != device@,
        decreases workers.len() - i,
    {
        if str_eq(workers[i].as_str(), device) {
            return Some(i);
        }
        i = i + 1;
    }
    None
}

/// Law: the worker list names every target once: no name twice.
pub proof fn law_worker_names_distinct(v: Seq<String>, i: int, j: int)
    requires
        strictly_sorted(v),
        0 <= i < v.len(),
        0 <= j < v.len(),
        i != j,
    ensures
        v[i]@ != v[j]@,
{
    if i < j {
        assert(lex_lt(v[i]@, v[j]@));
        lemma_lex_irreflexive(v[i]@);
    } else {
        assert(lex_lt(v[j]@, v[i]@));
        lemma_lex_irreflexive(v[j]@);
    }
}

} // verus!
