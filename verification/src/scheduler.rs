//! The driver: it owns the workers and the subject under test, takes its
//! choices from an oracle, and holds what it observes against a sequential
//! reference model.

use arbtest::arbitrary::Unstructured;
use vstd::arithmetic::div_mod::{
    lemma_fundamental_div_mod,
    lemma_mod_multiples_vanish,
    lemma_small_mod,
};
use vstd::prelude::*;
use crate::cell::Status;
use crate::counter::{BadCounter, Mode};
use crate::oracle::{is_exhausted, left, next_flag, over, pending};
use crate::system::{
    driven,
    finished,
    lemma_driven,
    lemma_driven_step,
    lemma_release,
    lemma_retire,
    lemma_submit,
    lemma_unwritten_idle,
    poke,
    retire,
    sound,
    start,
    wind_up,
    System,
};
use crate::thread::{controlled_thread, released_walk, releases_left, ControlledThread};

verus! {

/// What a run ended with.
#[derive(Clone, Copy, PartialEq, Eq, Debug)]
pub struct Outcome {
    /// What the counter held once every worker was wound up.
    pub observed: u32,
    /// What the reference model expects it to hold: one for each increment
    /// submitted.
    pub expected: u32,
}

impl Outcome {
    /// Whether the run has caught the counter out.
    pub fn diverged(&self) -> (diverged: bool)
        ensures
            diverged == (self.observed != self.expected),
    {
        self.observed != self.expected
    }
}

/// The driver's side of a run: the counter under test, a handle on each
/// worker, and the reference model.
pub struct Scheduler {
    counter: BadCounter,
    threads: Vec<ControlledThread>,
    model: u32,
}

impl View for Scheduler {
    type V = System;

    /// What the counter holds, where each worker is parked, and what the
    /// reference model has counted.
    closed spec fn view(&self) -> System {
        System {
            value: self.counter.value(),
            parked: Seq::new(self.threads@.len(), |i: int| self.threads@[i].parked()),
            model: self.model as nat,
        }
    }
}

/// In a round that began after `start` bytes, a multiple of the number of
/// workers, the byte after `start + worker` bytes is the one for `worker`.
proof fn lemma_round(start: int, worker: int, workers: int)
    requires
        0 <= start,
        start % workers == 0,
        0 <= worker < workers,
    ensures
        (start + worker) % workers == worker,
        (start + workers) % workers == 0,
{
    lemma_fundamental_div_mod(start, workers);
    lemma_mod_multiples_vanish(start / workers, worker, workers);
    lemma_small_mod(worker as nat, workers as nat);
    lemma_mod_multiples_vanish(start / workers + 1, 0, workers);
    assert(workers * (start / workers + 1) == workers * (start / workers) + workers)
        by (nonlinear_arith);
}

impl Scheduler {
    /// How the counter under test increments.
    pub closed spec fn mode(&self) -> Mode {
        self.counter.mode()
    }

    /// The handles on the workers.
    pub closed spec fn handles(&self) -> Seq<ControlledThread> {
        self.threads@
    }

    /// Every handle is well formed, and the system is sound.
    pub closed spec fn wf(&self) -> bool {
        &&& forall|i: int| 0 <= i < self.threads@.len() ==> (#[trigger] self.threads@[i]).wf()
        &&& sound(self@)
    }

    /// No worker has been wound up yet.
    pub closed spec fn open(&self) -> bool {
        forall|i: int| 0 <= i < self.threads@.len() ==> !(#[trigger] self.threads@[i]).joined()
    }

    /// What a well-formed driver holds: each handle is well formed, so that
    /// what holds of every handle holds of each of these, and each stands
    /// for one worker of the system.
    pub proof fn lemma_handles(&self)
        requires
            self.wf(),
        ensures
            sound(self@),
            self.handles().len() == self@.parked.len(),
            forall|i: int|
                0 <= i < self.handles().len() ==> {
                    &&& (#[trigger] self.handles()[i]).wf()
                    &&& self.handles()[i].parked() == self@.parked[i]
                },
    {
    }

    /// A counter at zero and `workers` idle workers.
    pub fn new(workers: usize, mode: Mode) -> (scheduler: Scheduler)
        ensures
            scheduler.wf(),
            scheduler.open(),
            scheduler.mode() == mode,
            scheduler@ == start(workers as nat),
    {
        let mut threads: Vec<ControlledThread> = Vec::new();
        while threads.len() < workers
            invariant
                threads.len() <= workers,
                forall|i: int|
                    0 <= i < threads@.len() ==> {
                        &&& (#[trigger] threads@[i]).wf()
                        &&& !threads@[i].joined()
                        &&& threads@[i].parked() is None
                    },
            decreases workers - threads.len(),
        {
            threads.push(controlled_thread());
        }
        let scheduler = Scheduler { counter: BadCounter::new(mode), threads, model: 0 };
        proof {
            assert(scheduler@.parked =~= start(workers as nat).parked);
            lemma_unwritten_idle(scheduler@.parked);
        }
        scheduler
    }

    /// How many workers there are.
    pub fn workers(&self) -> (workers: usize)
        ensures
            workers == self@.parked.len(),
    {
        self.threads.len()
    }

    /// Whether a worker is parked at a suspension point.
    pub fn is_blocked(&self, worker: usize) -> (blocked: bool)
        requires
            self.wf(),
            worker < self@.parked.len(),
        ensures
            blocked == (self@.parked[worker as int] is Some),
    {
        self.threads[worker].is_blocked()
    }

    /// Turns to one worker: releases it if it is parked, and gives it an
    /// increment, which the reference model counts, if it is idle.
    pub fn poke(&mut self, worker: usize)
        requires
            old(self).wf(),
            old(self).open(),
            worker < old(self)@.parked.len(),
            old(self)@.parked[worker as int] is None ==> old(self)@.model < u32::MAX,
        ensures
            final(self).wf(),
            final(self).open(),
            final(self).mode() == old(self).mode(),
            final(self)@ == poke(old(self).mode(), old(self)@, worker as int),
            final(self).handles().len() == old(self).handles().len(),
            forall|i: int|
                0 <= i < old(self).handles().len() && i != worker ==> final(self).handles()[i]
                    == old(self).handles()[i],
            final(self).handles()[worker as int].history() == old(self).handles()[worker as int]
                .history().push(Status::Running).push(
                final(self).handles()[worker as int].status(),
            ),
    {
        let ghost before = self@;
        let ghost mode = self.mode();
        if self.threads[worker].is_blocked() {
            proof {
                lemma_release(before, worker as int);
            }
            self.threads[worker].unblock(&mut self.counter);
        } else {
            proof {
                lemma_submit(mode, before, worker as int);
            }
            self.threads[worker].act(&self.counter);
            self.model += 1;
        }
        proof {
            assert(self@.parked =~= poke(mode, before, worker as int).parked);
        }
    }

    /// Winds every worker up, first one first, and reads the counter: each
    /// worker is released until the increment it has in hand is done.
    pub fn wind_up(&mut self) -> (outcome: Outcome)
        requires
            old(self).wf(),
        ensures
            final(self).wf(),
            final(self).mode() == old(self).mode(),
            final(self)@ == wind_up(old(self)@, 0),
            outcome.observed == final(self)@.value,
            outcome.expected == final(self)@.model,
            final(self).handles().len() == old(self).handles().len(),
            forall|i: int|
                0 <= i < final(self).handles().len() ==> {
                    &&& (#[trigger] final(self).handles()[i]).joined()
                    &&& final(self).handles()[i].status() == Status::Ready
                    &&& final(self).handles()[i].tally().submitted == old(
                        self,
                    ).handles()[i].tally().submitted
                    &&& final(self).handles()[i].history() == old(self).handles()[i].history()
                        + released_walk(releases_left(old(self).handles()[i].parked()))
                },
    {
        let mut i: usize = 0;
        while i < self.threads.len()
            invariant
                self.wf(),
                self.mode() == old(self).mode(),
                i <= self.threads@.len(),
                self.threads@.len() == old(self).threads@.len(),
                wind_up(self@, i as nat) == wind_up(old(self)@, 0),
                forall|j: int|
                    0 <= j < self.threads@.len() ==> (#[trigger] self.threads@[j]).tally().submitted
                        == old(self).threads@[j].tally().submitted,
                forall|j: int|
                    0 <= j < i ==> {
                        &&& (#[trigger] self.threads@[j]).joined()
                        &&& self.threads@[j].status() == Status::Ready
                        &&& self.threads@[j].history() == old(self).threads@[j].history()
                            + released_walk(releases_left(old(self).threads@[j].parked()))
                    },
                forall|j: int|
                    i <= j < self.threads@.len() ==> #[trigger] self.threads@[j] == old(
                        self,
                    ).threads@[j],
            decreases self.threads@.len() - i,
        {
            let ghost before = self@;
            proof {
                lemma_retire(before, i as int);
                if before.parked[i as int] is Some {
                    lemma_release(before, i as int);
                }
            }
            self.threads[i].shutdown(&mut self.counter);
            proof {
                assert(self@.parked =~= retire(before, i as int).parked);
                assert(self@ == retire(before, i as int));
            }
            i += 1;
        }
        Outcome { observed: self.counter.get(), expected: self.model }
    }

    /// A whole run. While the oracle has bytes left the driver goes round the
    /// workers, asks the oracle once for each and turns to those for which it
    /// says so; then it winds every worker up and reads the counter.
    pub fn run(oracle: &mut Unstructured<'_>, workers: usize, mode: Mode) -> (outcome: Outcome)
        requires
            workers >= 1,
            pending(*old(oracle)).len() <= u32::MAX,
        ensures
            pending(*final(oracle)).len() == 0,
            outcome.observed == finished(mode, workers as nat, pending(*old(oracle))).value,
            outcome.expected == finished(mode, workers as nat, pending(*old(oracle))).model,
    {
        let ghost all = pending(*oracle);
        let ghost mut used: int = 0;
        let mut scheduler = Scheduler::new(workers, mode);
        assert(all.take(0) =~= Seq::<u8>::empty());
        assert(all.skip(0) =~= all);
        while !is_exhausted(oracle)
            invariant
                workers >= 1,
                all.len() <= u32::MAX,
                scheduler.wf(),
                scheduler.open(),
                scheduler.mode() == mode,
                0 <= used <= all.len(),
                pending(*oracle) == all.skip(used),
                scheduler@ == driven(mode, workers as nat, all.take(used)),
                used == all.len() || used % (workers as int) == 0,
            decreases all.len() - used,
        {
            let ghost round = used;
            let mut worker: usize = 0;
            while worker < workers
                invariant
                    workers >= 1,
                    all.len() <= u32::MAX,
                    scheduler.wf(),
                    scheduler.open(),
                    scheduler.mode() == mode,
                    0 <= used <= all.len(),
                    pending(*oracle) == all.skip(used),
                    scheduler@ == driven(mode, workers as nat, all.take(used)),
                    worker <= workers,
                    0 <= round < all.len(),
                    round % (workers as int) == 0,
                    used == all.len() || used == round + worker,
                    worker > 0 ==> used > round,
                decreases workers - worker,
            {
                let flag = next_flag(oracle);
                proof {
                    if used < all.len() {
                        lemma_driven_step(mode, workers as nat, all, used);
                        assert(all.skip(used).drop_first() =~= all.skip(used + 1));
                        lemma_round(round, worker as int, workers as int);
                        lemma_driven(mode, workers as nat, all.take(used));
                        assert(scheduler@.parked.len() == workers);
                    }
                }
                match flag {
                    Some(true) => scheduler.poke(worker),
                    _ => {},
                }
                proof {
                    if used < all.len() {
                        used = used + 1;
                    }
                }
                worker += 1;
            }
            proof {
                lemma_round(round, 0, workers as int);
            }
        }
        assert(all.take(used) =~= all);
        scheduler.wind_up()
    }

    /// A run on an oracle of which nothing is known beforehand: `None`, and
    /// nothing drawn from the oracle, where there is no worker to drive or
    /// where the oracle holds more bytes than the reference model can count.
    pub fn try_run(oracle: &mut Unstructured<'_>, workers: usize, mode: Mode) -> (outcome: Option<
        Outcome,
    >)
        ensures
            workers >= 1 && pending(*old(oracle)).len() <= u32::MAX ==> {
                &&& outcome matches Some(outcome)
                &&& outcome.observed == finished(
                    mode,
                    workers as nat,
                    pending(*old(oracle)),
                ).value
                &&& outcome.expected == finished(
                    mode,
                    workers as nat,
                    pending(*old(oracle)),
                ).model
                &&& pending(*final(oracle)).len() == 0
            },
            !(workers >= 1 && pending(*old(oracle)).len() <= u32::MAX) ==> {
                &&& outcome is None
                &&& pending(*final(oracle)) == pending(*old(oracle))
            },
    {
        if workers >= 1 && left(oracle) <= u32::MAX as usize {
            Some(Scheduler::run(oracle, workers, mode))
        } else {
            None
        }
    }

    /// A run on an oracle that gives out `data`.
    pub fn replay(data: &[u8], workers: usize, mode: Mode) -> (outcome: Option<Outcome>)
        ensures
            workers >= 1 && data@.len() <= u32::MAX ==> {
                &&& outcome matches Some(outcome)
                &&& outcome.observed == finished(mode, workers as nat, data@).value
                &&& outcome.expected == finished(mode, workers as nat, data@).model
            },
            !(workers >= 1 && data@.len() <= u32::MAX) ==> outcome is None,
    {
        let mut oracle = over(data);
        Scheduler::try_run(&mut oracle, workers, mode)
    }
}

} // verus!
