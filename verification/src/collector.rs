use crate::worker::TaskResult;
use vstd::prelude::*;

verus! {

/// What one attempt to receive from the result channel can observe.
pub enum RecvEvent {
    /// A result arrived.
    Received(TaskResult),
    /// Nothing is available right now, but senders still exist.
    Empty,
    /// Every sender handle is gone: no further result can ever arrive.
    Closed,
}

/// What the collector asks its driver to do after one receive attempt.
#[derive(PartialEq, Eq, Structural, Clone, Copy, Debug)]
pub enum CollectAction {
    /// Try to receive again at once.
    Proceed,
    /// Wait one poll interval before the next attempt.
    Pause,
    /// Collection is over; no further attempt may be made.
    Stop,
}

/// The deadline-bounded collection policy: poll without blocking until the
/// deadline passes or the channel closes, keeping every result seen so far.
pub struct BoundedCollector {
    pub deadline_millis: u64,
    pub poll_interval_millis: u64,
    pub collected: Vec<TaskResult>,
    pub finished: bool,
}

impl BoundedCollector {
    /// Starts a bounded collection with nothing collected yet.
    pub fn new(deadline_millis: u64, poll_interval_millis: u64) -> (c: BoundedCollector)
        ensures
            c.deadline_millis == deadline_millis,
            c.poll_interval_millis == poll_interval_millis,
            c.collected@ == Seq::<TaskResult>::empty(),
            !c.finished,
    {
        BoundedCollector {
            deadline_millis,
            poll_interval_millis,
            collected: Vec::new(),
            finished: false,
        }
    }

    /// The loop guard: collection stops exactly when the clock reaches the
    /// deadline, so no receive attempt begins at or after it.
    pub fn should_stop(&self, now_millis: u64) -> (b: bool)
        ensures
            b == (now_millis >= self.deadline_millis),
    {
        now_millis >= self.deadline_millis
    }

    /// Absorbs what one non-blocking receive attempt observed: a result is
    /// appended and polling goes on at once; an empty channel asks for one
    /// poll-interval pause; a closed channel ends collection for good.
    pub fn on_event(&mut self, event: RecvEvent) -> (a: CollectAction)
        requires
            !old(self).finished,
        ensures
            final(self).deadline_millis == old(self).deadline_millis,
            final(self).poll_interval_millis == old(self).poll_interval_millis,
            match event {
                RecvEvent::Received(r) => final(self).collected@ == old(self).collected@.push(r)
                    && a == CollectAction::Proceed && !final(self).finished,
                RecvEvent::Empty => final(self).collected@ == old(self).collected@ && a
                    == CollectAction::Pause && !final(self).finished,
                RecvEvent::Closed => final(self).collected@ == old(self).collected@ && a
                    == CollectAction::Stop && final(self).finished,
            },
    {
        match event {
            RecvEvent::Received(r) => {
                self.collected.push(r);
                CollectAction::Proceed
            },
            RecvEvent::Empty => CollectAction::Pause,
            RecvEvent::Closed => {
                self.finished = true;
                CollectAction::Stop
            },
        }
    }
}

/// The exhaustive collection policy: block on receive until the expected
/// number of results arrived or the channel closed.
pub struct ExhaustiveCollector {
    pub expected: usize,
    pub collected: Vec<TaskResult>,
    pub finished: bool,
}

impl ExhaustiveCollector {
    /// Starts an exhaustive collection that waits for `expected` results.
    pub fn new(expected: usize) -> (c: ExhaustiveCollector)
        ensures
            c.expected == expected,
            c.collected@ == Seq::<TaskResult>::empty(),
            !c.finished,
    {
        ExhaustiveCollector { expected, collected: Vec::new(), finished: false }
    }

    /// Absorbs what one blocking receive observed: a result is appended, and
    /// collection ends as soon as the expected count is reached or the channel
    /// closes; an empty observation merely waits on.
    pub fn on_event(&mut self, event: RecvEvent) -> (a: CollectAction)
        requires
            !old(self).finished,
            old(self).collected@.len() < old(self).expected,
        ensures
            final(self).expected == old(self).expected,
            match event {
                RecvEvent::Received(r) => final(self).collected@ == old(self).collected@.push(r)
                    && (final(self).finished == (final(self).collected@.len()
                    == final(self).expected)) && a == (if final(self).finished {
                    CollectAction::Stop
                } else {
                    CollectAction::Proceed
                }),
                RecvEvent::Empty => final(self).collected@ == old(self).collected@ && a
                    == CollectAction::Pause && !final(self).finished,
                RecvEvent::Closed => final(self).collected@ == old(self).collected@ && a
                    == CollectAction::Stop && final(self).finished,
            },
    {
        match event {
            RecvEvent::Received(r) => {
                self.collected.push(r);
                if self.collected.len() == self.expected {
                    self.finished = true;
                    CollectAction::Stop
                } else {
                    CollectAction::Proceed
                }
            },
            RecvEvent::Empty => CollectAction::Pause,
            RecvEvent::Closed => {
                self.finished = true;
                CollectAction::Stop
            },
        }
    }
}

/// What the bounded policy collects from a scripted sequence of receive
/// attempts, each a clock reading paired with what the attempt observed:
/// attempts are taken in order, nothing observed at or past the deadline is
/// kept, and a closed channel ends collection at once.
pub open spec fn spec_bounded_collect(sched: Seq<(u64, RecvEvent)>, deadline_millis: u64) -> Seq<
    TaskResult,
>
    decreases sched.len(),
{
    if sched.len() == 0 {
        Seq::empty()
    } else if sched[0].0 >= deadline_millis {
        Seq::empty()
    } else {
        match sched[0].1 {
            RecvEvent::Received(r) => seq![r] + spec_bounded_collect(
                sched.drop_first(),
                deadline_millis,
            ),
            RecvEvent::Empty => spec_bounded_collect(sched.drop_first(), deadline_millis),
            RecvEvent::Closed => Seq::empty(),
        }
    }
}

/// What the exhaustive policy collects from a scripted sequence of receive
/// observations while it still waits for `remaining` results: it keeps every
/// result until the count is reached or the channel closes.
pub open spec fn spec_exhaustive_collect(sched: Seq<RecvEvent>, remaining: nat) -> Seq<TaskResult>
    decreases sched.len(),
{
    if remaining == 0 || sched.len() == 0 {
        Seq::empty()
    } else {
        match sched[0] {
            RecvEvent::Received(r) => seq![r] + spec_exhaustive_collect(
                sched.drop_first(),
                (remaining - 1) as nat,
            ),
            RecvEvent::Empty => spec_exhaustive_collect(sched.drop_first(), remaining),
            RecvEvent::Closed => Seq::empty(),
        }
    }
}

/// With every unit succeeding in time, the bounded policy misses nothing: a
/// run whose every receive attempt happens strictly before the deadline and
/// observes a result keeps each of those results, in arrival order.
pub proof fn lemma_bounded_collects_all(sched: Seq<(u64, RecvEvent)>, deadline_millis: u64)
    requires
        forall|k: int|
            0 <= k < sched.len() ==> (#[trigger] sched[k]).0 < deadline_millis && sched[k].1
                is Received,
    ensures
        spec_bounded_collect(sched, deadline_millis) == Seq::new(
            sched.len(),
            |k: int| sched[k].1->Received_0,
        ),
    decreases sched.len(),
{
    if sched.len() == 0 {
        assert(spec_bounded_collect(sched, deadline_millis) =~= Seq::new(
            sched.len(),
            |k: int| sched[k].1->Received_0,
        ));
    } else {
        let rest = sched.drop_first();
        lemma_bounded_collects_all(rest, deadline_millis);
        assert(spec_bounded_collect(sched, deadline_millis) =~= Seq::new(
            sched.len(),
            |k: int| sched[k].1->Received_0,
        ));
    }
}

/// With every unit succeeding, the exhaustive policy collects every result: a
/// run over exactly the expected number of result observations keeps each of
/// them, in arrival order.
pub proof fn lemma_exhaustive_collects_all(sched: Seq<RecvEvent>, remaining: nat)
    requires
        remaining == sched.len(),
        forall|k: int| 0 <= k < sched.len() ==> (#[trigger] sched[k]) is Received,
    ensures
        spec_exhaustive_collect(sched, remaining) == Seq::new(
            sched.len(),
            |k: int| sched[k]->Received_0,
        ),
    decreases sched.len(),
{
    if sched.len() == 0 {
        assert(spec_exhaustive_collect(sched, remaining) =~= Seq::new(
            sched.len(),
            |k: int| sched[k]->Received_0,
        ));
    } else {
        let rest = sched.drop_first();
        lemma_exhaustive_collects_all(rest, (remaining - 1) as nat);
        assert(spec_exhaustive_collect(sched, remaining) =~= Seq::new(
            sched.len(),
            |k: int| sched[k]->Received_0,
        ));
    }
}

/// The bounded policy keeps nothing observed at or past the deadline: every
/// collected result comes from a receive attempt whose clock reading was
/// strictly below it. The attempt in flight when the deadline passes, plus at
/// most one poll-interval pause before it, is all the policy can overrun by.
pub proof fn lemma_bounded_respects_deadline(sched: Seq<(u64, RecvEvent)>, deadline_millis: u64)
    ensures
        forall|r: TaskResult|
            #[trigger] spec_bounded_collect(sched, deadline_millis).contains(r) ==> exists|k: int|
                0 <= k < sched.len() && sched[k].0 < deadline_millis && sched[k].1
                    == RecvEvent::Received(r),
    decreases sched.len(),
{
    if sched.len() == 0 {
    } else if sched[0].0 >= deadline_millis {
    } else {
        let rest = sched.drop_first();
        lemma_bounded_respects_deadline(rest, deadline_millis);
        let c = spec_bounded_collect(sched, deadline_millis);
        let tail = spec_bounded_collect(rest, deadline_millis);
        assert forall|r: TaskResult| #[trigger] c.contains(r) implies exists|k: int|
            0 <= k < sched.len() && sched[k].0 < deadline_millis && sched[k].1
                == RecvEvent::Received(r) by {
            match sched[0].1 {
                RecvEvent::Received(r0) => {
                    let i = choose|i: int| 0 <= i < c.len() && c[i] == r;
                    if i == 0 {
                        assert(sched[0].0 < deadline_millis && sched[0].1 == RecvEvent::Received(
                            r,
                        ));
                    } else {
                        assert(tail[i - 1] == r);
                        assert(tail.contains(r));
                        let k = choose|k: int|
                            0 <= k < rest.len() && rest[k].0 < deadline_millis && rest[k].1
                                == RecvEvent::Received(r);
                        assert(sched[k + 1] == rest[k]);
                        assert(sched[k + 1].0 < deadline_millis && sched[k + 1].1
                            == RecvEvent::Received(r));
                    }
                },
                RecvEvent::Empty => {
                    assert(tail.contains(r));
                    let k = choose|k: int|
                        0 <= k < rest.len() && rest[k].0 < deadline_millis && rest[k].1
                            == RecvEvent::Received(r);
                    assert(sched[k + 1] == rest[k]);
                    assert(sched[k + 1].0 < deadline_millis && sched[k + 1].1
                        == RecvEvent::Received(r));
                },
                RecvEvent::Closed => {
                    assert(c.len() == 0);
                },
            }
        };
    }
}

/// Replays the deadline-bounded policy over a scripted sequence of receive
/// attempts, driving a `BoundedCollector` exactly as the live polling loop
/// does, and returns what it collected.
pub fn run_bounded(
    schedule: &Vec<(u64, RecvEvent)>,
    deadline_millis: u64,
    poll_interval_millis: u64,
) -> (c: Vec<TaskResult>)
    ensures
        c@ == spec_bounded_collect(schedule@, deadline_millis),
{
    let mut coll = BoundedCollector::new(deadline_millis, poll_interval_millis);
    let n = schedule.len();
    let mut i: usize = 0;
    let mut stopped = false;
    proof {
        assert(schedule@.subrange(0int, n as int) =~= schedule@);
        assert(Seq::<TaskResult>::empty() + spec_bounded_collect(schedule@, deadline_millis)
            =~= spec_bounded_collect(schedule@, deadline_millis));
    }
    while !stopped && i < n
        invariant
            i <= n,
            n == schedule.len(),
            coll.deadline_millis == deadline_millis,
            !stopped ==> !coll.finished,
            !stopped ==> spec_bounded_collect(schedule@, deadline_millis) == coll.collected@
                + spec_bounded_collect(
                schedule@.subrange(i as int, n as int),
                deadline_millis,
            ),
            stopped ==> spec_bounded_collect(schedule@, deadline_millis) == coll.collected@,
        decreases n - i + (if stopped {
            0int
        } else {
            1int
        }),
    {
        let ghost suffix = schedule@.subrange(i as int, n as int);
        proof {
            assert(suffix[0] == schedule@[i as int]);
            assert(suffix.drop_first() =~= schedule@.subrange(i as int + 1, n as int));
        }
        let now = schedule[i].0;
        if coll.should_stop(now) {
            stopped = true;
            proof {
                assert(spec_bounded_collect(suffix, deadline_millis) =~= Seq::<
                    TaskResult,
                >::empty());
                assert(coll.collected@ + Seq::<TaskResult>::empty() =~= coll.collected@);
            }
        } else {
            let ghost prev = coll.collected@;
            match &schedule[i].1 {
                RecvEvent::Received(r) => {
                    let _ = coll.on_event(RecvEvent::Received(r.clone()));
                    proof {
                        assert(prev + (seq![suffix[0].1->Received_0] + spec_bounded_collect(
                            suffix.drop_first(),
                            deadline_millis,
                        )) =~= coll.collected@ + spec_bounded_collect(
                            suffix.drop_first(),
                            deadline_millis,
                        ));
                    }
                },
                RecvEvent::Empty => {
                    let _ = coll.on_event(RecvEvent::Empty);
                },
                RecvEvent::Closed => {
                    let _ = coll.on_event(RecvEvent::Closed);
                    stopped = true;
                    proof {
                        assert(coll.collected@ + Seq::<TaskResult>::empty() =~= coll.collected@);
                    }
                },
            }
            i = i + 1;
        }
    }
    proof {
        if !stopped {
            assert(schedule@.subrange(i as int, n as int) =~= Seq::<(u64, RecvEvent)>::empty());
            assert(coll.collected@ + Seq::<TaskResult>::empty() =~= coll.collected@);
        }
    }
    coll.collected
}

/// Replays the exhaustive policy over a scripted sequence of receive
/// observations, driving an `ExhaustiveCollector` exactly as the live blocking
/// loop does, and returns what it collected.
pub fn run_exhaustive(schedule: &Vec<RecvEvent>, expected: usize) -> (c: Vec<TaskResult>)
    ensures
        c@ == spec_exhaustive_collect(schedule@, expected as nat),
{
    let mut coll = ExhaustiveCollector::new(expected);
    let n = schedule.len();
    let mut i: usize = 0;
    let mut stopped = expected == 0;
    proof {
        assert(schedule@.subrange(0int, n as int) =~= schedule@);
        assert(Seq::<TaskResult>::empty() + spec_exhaustive_collect(schedule@, expected as nat)
            =~= spec_exhaustive_collect(schedule@, expected as nat));
    }
    while !stopped && i < n
        invariant
            i <= n,
            n == schedule.len(),
            coll.expected == expected,
            !stopped ==> !coll.finished,
            !stopped ==> coll.collected@.len() < expected,
            !stopped ==> spec_exhaustive_collect(schedule@, expected as nat) == coll.collected@
                + spec_exhaustive_collect(
                schedule@.subrange(i as int, n as int),
                (expected - coll.collected@.len()) as nat,
            ),
            stopped ==> spec_exhaustive_collect(schedule@, expected as nat) == coll.collected@,
        decreases n - i + (if stopped {
            0int
        } else {
            1int
        }),
    {
        let ghost suffix = schedule@.subrange(i as int, n as int);
        let ghost remaining = (expected - coll.collected@.len()) as nat;
        proof {
            assert(suffix[0] == schedule@[i as int]);
            assert(suffix.drop_first() =~= schedule@.subrange(i as int + 1, n as int));
        }
        let ghost prev = coll.collected@;
        match &schedule[i] {
            RecvEvent::Received(r) => {
                let _ = coll.on_event(RecvEvent::Received(r.clone()));
                proof {
                    assert(prev + (seq![suffix[0]->Received_0] + spec_exhaustive_collect(
                        suffix.drop_first(),
                        (remaining - 1) as nat,
                    )) =~= coll.collected@ + spec_exhaustive_collect(
                        suffix.drop_first(),
                        (remaining - 1) as nat,
                    ));
                }
                if coll.finished {
                    stopped = true;
                    proof {
                        assert(spec_exhaustive_collect(suffix.drop_first(), 0nat) =~= Seq::<
                            TaskResult,
                        >::empty());
                        assert(coll.collected@ + Seq::<TaskResult>::empty() =~= coll.collected@);
                    }
                }
            },
            RecvEvent::Empty => {
                let _ = coll.on_event(RecvEvent::Empty);
            },
            RecvEvent::Closed => {
                let _ = coll.on_event(RecvEvent::Closed);
                stopped = true;
                proof {
                    assert(coll.collected@ + Seq::<TaskResult>::empty() =~= coll.collected@);
                }
            },
        }
        i = i + 1;
    }
    proof {
        if !stopped {
            assert(schedule@.subrange(i as int, n as int) =~= Seq::<RecvEvent>::empty());
            assert(coll.collected@ + Seq::<TaskResult>::empty() =~= coll.collected@);
        }
    }
    coll.collected
}

} // verus!
