//! The handle through which a driver controls one worker.

use vstd::prelude::*;
use crate::atomic::{Access, Parked};
use crate::cell::{legal_walk, lemma_history_is_legal_walk, Shared, Status};
use crate::counter::{
    can_resume,
    first_point,
    next_point,
    points_left,
    write_pending,
    BadCounter,
    Mode,
};

verus! {

/// What a worker has been given and what it has done with it.
pub struct Tally {
    /// Units of work handed to the worker.
    pub submitted: nat,
    /// Units of work that the worker has run to the end.
    pub finished: nat,
    /// Writes that the worker has made to the shared cell.
    pub writes: nat,
}

/// One worker and the driver's handle on it.
///
/// The worker is resumable: it runs inside [`ControlledThread::act`] and
/// [`ControlledThread::unblock`], from one suspension point to the next, so
/// both return once the worker is parked or idle again.
pub struct ControlledThread {
    shared: Shared,
    parked: Option<Parked>,
    is_blocked: bool,
    joined: bool,
    tally: Ghost<Tally>,
}

/// What a worker has to do before its unit of work has returned: 0 for an
/// idle worker.
pub open spec fn releases_left(parked: Option<Parked>) -> nat {
    match parked {
        Some(at) => points_left(at),
        None => 0,
    }
}

/// The statuses that a worker's cell goes through while the worker is
/// released `releases` times and finishes its unit of work at the last.
pub open spec fn released_walk(releases: nat) -> Seq<Status>
    decreases releases,
{
    if releases == 0 {
        Seq::empty()
    } else if releases == 1 {
        seq![Status::Running, Status::Ready]
    } else {
        seq![Status::Running, Status::Blocked] + released_walk((releases - 1) as nat)
    }
}

/// What the shared cell holds once a worker parked at `at`, released again
/// and again with nobody else running, has finished its unit of work.
pub open spec fn settle(at: Parked, held: u32) -> u32
    decreases points_left(at),
{
    match next_point(at, held).0 {
        Some(next) => settle(next, next_point(at, held).1),
        None => next_point(at, held).1,
    }
}

/// No release on the way from `at` to the end of the unit of work, with
/// nobody else running, computes a sum that leaves `u32`.
pub open spec fn can_settle(at: Parked, held: u32) -> bool {
    &&& can_resume(at)
    &&& at == Parked::Before(Access::Load) ==> held < u32::MAX
}

impl ControlledThread {
    /// The status of the worker's rendezvous cell.
    pub closed spec fn status(&self) -> Status {
        self.shared.current()
    }

    /// Every status the worker's rendezvous cell has had, oldest first.
    pub closed spec fn history(&self) -> Seq<Status> {
        self.shared.history()
    }

    /// The suspension point at which the worker is parked, if it is.
    pub closed spec fn parked(&self) -> Option<Parked> {
        self.parked
    }

    /// What the worker has been given and what it has done with it.
    pub closed spec fn tally(&self) -> Tally {
        self.tally@
    }

    /// Whether the worker has been wound up: it takes no more work.
    pub closed spec fn joined(&self) -> bool {
        self.joined
    }

    /// The handle agrees with the cell.
    pub closed spec fn coherent(&self) -> bool {
        &&& self.shared.wf()
        &&& self.is_blocked == (self.shared.current() == Status::Blocked)
    }

    /// Between two calls a worker is idle or parked, never running; it is
    /// parked exactly when it has a unit of work in hand; and each unit of
    /// work it was given has been run once, but for the one in hand.
    pub open spec fn wf(&self) -> bool {
        &&& self.coherent()
        &&& self.status() != Status::Running
        &&& self.parked() is Some <==> self.status() == Status::Blocked
        &&& self.joined() ==> self.status() == Status::Ready
        &&& self.tally().finished + (if self.parked() is Some { 1nat } else { 0nat })
            == self.tally().submitted
        &&& self.tally().writes + (if self.parked() is Some && write_pending(
            self.parked().unwrap(),
        ) { 1nat } else { 0nat }) == self.tally().submitted
    }

    /// Submits an increment of `state` as a unit of work. The worker takes it
    /// up and parks at its first suspension point.
    pub fn act(&mut self, state: &BadCounter)
        requires
            old(self).wf(),
            old(self).status() == Status::Ready,
            !old(self).joined(),
        ensures
            final(self).wf(),
            !final(self).joined(),
            final(self).status() == Status::Blocked,
            final(self).parked() == Some(first_point(state.mode())),
            final(self).history() == old(self).history().push(Status::Running).push(
                Status::Blocked,
            ),
            final(self).tally() == (Tally {
                submitted: old(self).tally().submitted + 1,
                ..old(self).tally()
            }),
    {
        self.shared.submit();
        let at = state.begin();
        self.parked = Some(at);
        self.shared.block();
        self.is_blocked = self.shared.is_blocked();
        self.tally = Ghost(Tally { submitted: self.tally@.submitted + 1, ..self.tally@ });
    }

    /// Whether the worker was parked when last heard of.
    pub fn is_blocked(&self) -> (blocked: bool)
        requires
            self.wf(),
        ensures
            blocked == (self.status() == Status::Blocked),
            blocked == (self.parked() is Some),
    {
        self.is_blocked
    }

    /// Releases the parked worker. It runs to its next suspension point and
    /// parks there, or finishes its unit of work and is idle again.
    pub fn unblock(&mut self, state: &mut BadCounter)
        requires
            old(self).wf(),
            old(self).status() == Status::Blocked,
            can_resume(old(self).parked().unwrap()),
        ensures
            final(self).wf(),
            final(state).mode() == old(state).mode(),
            (final(self).parked(), final(state).value()) == next_point(
                old(self).parked().unwrap(),
                old(state).value(),
            ),
            final(self).history() == old(self).history().push(Status::Running).push(
                final(self).status(),
            ),
            final(self).tally().submitted == old(self).tally().submitted,
            final(self).joined() == old(self).joined(),
            releases_left(final(self).parked()) + 1 == releases_left(old(self).parked()),
    {
        self.shared.release();
        let at = self.parked.unwrap();
        match state.resume(at) {
            Some(next) => {
                self.parked = Some(next);
                self.shared.block();
                self.tally = Ghost(
                    Tally {
                        writes: if write_pending(at) && !write_pending(next) {
                            self.tally@.writes + 1
                        } else {
                            self.tally@.writes
                        },
                        ..self.tally@
                    },
                );
            },
            None => {
                self.parked = None;
                self.shared.complete();
                self.tally = Ghost(Tally { finished: self.tally@.finished + 1, ..self.tally@ });
            },
        }
        self.is_blocked = self.shared.is_blocked();
    }

    /// Winds the worker up: releases it until its unit of work has returned,
    /// then closes it to further work. Without the releases a worker parked
    /// at its last suspension point would wait forever.
    pub fn shutdown(&mut self, state: &mut BadCounter)
        requires
            old(self).wf(),
            old(self).parked() matches Some(at) ==> can_settle(at, old(state).value()),
        ensures
            final(self).wf(),
            final(self).joined(),
            final(self).status() == Status::Ready,
            final(self).tally().submitted == old(self).tally().submitted,
            final(self).history() == old(self).history() + released_walk(
                releases_left(old(self).parked()),
            ),
            final(state).mode() == old(state).mode(),
            final(state).value() == match old(self).parked() {
                Some(at) => settle(at, old(state).value()),
                None => old(state).value(),
            },
    {
        while self.is_blocked
            invariant
                self.wf(),
                self.joined() == old(self).joined(),
                self.tally().submitted == old(self).tally().submitted,
                state.mode() == old(state).mode(),
                self.parked() matches Some(at) ==> can_settle(at, state.value()),
                self.history() + released_walk(releases_left(self.parked())) == old(
                    self,
                ).history() + released_walk(releases_left(old(self).parked())),
                match self.parked() {
                    Some(at) => settle(at, state.value()),
                    None => state.value(),
                } == match old(self).parked() {
                    Some(at) => settle(at, old(state).value()),
                    None => old(state).value(),
                },
            decreases releases_left(self.parked()),
        {
            let ghost before = self.history();
            let ghost left = releases_left(self.parked());
            self.unblock(state);
            proof {
                let step = seq![Status::Running, self.status()];
                assert(self.history() == before + step);
                assert(released_walk(left) == step + released_walk((left - 1) as nat));
                assert((before + step) + released_walk((left - 1) as nat) == before + (step
                    + released_walk((left - 1) as nat)));
            }
        }
        self.joined = true;
        assert(self.history() + released_walk(0) == self.history());
    }
}

/// An increment that nobody comes between adds one, however the counter
/// increments.
pub proof fn lemma_undisturbed_increment(mode: Mode, held: u32)
    requires
        held < u32::MAX,
    ensures
        can_settle(first_point(mode), held),
        settle(first_point(mode), held) == held + 1,
        releases_left(Some(first_point(mode))) == match mode {
            Mode::TwoStep => 4nat,
            Mode::Atomic => 2nat,
        },
{
    reveal_with_fuel(settle, 5);
}

/// The statuses that a handle has seen its worker in form a walk that starts
/// at `Ready`, takes legal steps only, and ends at the status the worker has
/// now.
pub proof fn lemma_status_walk_is_legal(thread: ControlledThread)
    requires
        thread.wf(),
    ensures
        legal_walk(thread.history()),
        thread.history().last() == thread.status(),
{
    lemma_history_is_legal_walk(thread.shared);
}

/// Each unit of work that a worker was given has run once, to the end, when
/// the worker is idle again: as many units have finished, and as many writes
/// were made, as units were submitted. While the worker is parked, the one
/// unit in hand is under way and all before it are done.
pub proof fn lemma_each_unit_runs_once(thread: ControlledThread)
    requires
        thread.wf(),
    ensures
        thread.status() == Status::Ready ==> thread.tally().finished == thread.tally().submitted
            && thread.tally().writes == thread.tally().submitted,
        thread.status() == Status::Blocked ==> thread.tally().finished + 1
            == thread.tally().submitted && thread.tally().writes <= thread.tally().submitted
            <= thread.tally().writes + 1,
{
}

/// Starts a worker: idle, with a fresh rendezvous cell and nothing done yet.
pub fn controlled_thread() -> (thread: ControlledThread)
    ensures
        thread.wf(),
        !thread.joined(),
        thread.status() == Status::Ready,
        thread.history() == seq![Status::Ready],
        thread.tally() == (Tally { submitted: 0, finished: 0, writes: 0 }),
{
    let tally = Ghost(Tally { submitted: 0, finished: 0, writes: 0 });
    ControlledThread {
        shared: Shared::new(),
        parked: None,
        is_blocked: false,
        joined: false,
        tally,
    }
}

} // verus!
