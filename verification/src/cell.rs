//! The rendezvous cell: one worker's status and the record of how it got there.

use vstd::prelude::*;

verus! {

/// Where a worker stands.
#[derive(Clone, Copy, PartialEq, Eq, Structural, Debug)]
pub enum Status {
    /// Idle, awaiting a unit of work.
    Ready,
    /// Executing a unit of work, away from any suspension point.
    Running,
    /// Parked at a suspension point, awaiting release.
    Blocked,
}

/// The moves a cell may make: `Ready -> Running`, `Running -> Blocked`,
/// `Blocked -> Running` and `Running -> Ready`.
pub open spec fn legal_step(from: Status, to: Status) -> bool {
    ||| from == Status::Ready && to == Status::Running
    ||| from == Status::Running && to == Status::Blocked
    ||| from == Status::Blocked && to == Status::Running
    ||| from == Status::Running && to == Status::Ready
}

/// A walk starts at `Ready` and moves by legal steps only.
pub open spec fn legal_walk(walk: Seq<Status>) -> bool {
    &&& walk.len() > 0
    &&& walk[0] == Status::Ready
    &&& forall|k: int| 0 <= k < walk.len() - 1 ==> legal_step(#[trigger] walk[k], walk[k + 1])
}

/// The synchronisation object that a worker and its handle share. It holds
/// the worker's status; every move of the status goes through it and is
/// added to its history.
pub struct Shared {
    status: Status,
    walk: Ghost<Seq<Status>>,
}

impl Shared {
    /// Every status the cell has had, oldest first.
    pub closed spec fn history(&self) -> Seq<Status> {
        self.walk@
    }

    /// The status the cell has now.
    pub open spec fn current(&self) -> Status {
        self.history().last()
    }

    /// The cell's status is the end of a legal walk.
    pub closed spec fn wf(&self) -> bool {
        &&& legal_walk(self.walk@)
        &&& self.status == self.walk@.last()
    }

    /// A cell for a worker that has just started: `Ready`, with nothing behind it.
    pub fn new() -> (cell: Shared)
        ensures
            cell.wf(),
            cell.history() == seq![Status::Ready],
    {
        let walk = Ghost(Seq::empty().push(Status::Ready));
        Shared { status: Status::Ready, walk }
    }

    /// The status the cell has now.
    pub fn status(&self) -> (status: Status)
        requires
            self.wf(),
        ensures
            status == self.current(),
    {
        self.status
    }

    /// The suspension primitive, called by the worker that owns the cell:
    /// the worker parks and stays parked until its handle releases it.
    pub fn block(&mut self)
        requires
            old(self).wf(),
            old(self).current() == Status::Running,
        ensures
            final(self).wf(),
            final(self).history() == old(self).history().push(Status::Blocked),
    {
        self.status = Status::Blocked;
        self.walk = Ghost(self.walk@.push(Status::Blocked));
    }

    /// The handle hands a unit of work over: the idle worker starts running.
    pub fn submit(&mut self)
        requires
            old(self).wf(),
            old(self).current() == Status::Ready,
        ensures
            final(self).wf(),
            final(self).history() == old(self).history().push(Status::Running),
    {
        self.status = Status::Running;
        self.walk = Ghost(self.walk@.push(Status::Running));
    }

    /// The handle releases the parked worker, which runs on.
    pub fn release(&mut self)
        requires
            old(self).wf(),
            old(self).current() == Status::Blocked,
        ensures
            final(self).wf(),
            final(self).history() == old(self).history().push(Status::Running),
    {
        self.status = Status::Running;
        self.walk = Ghost(self.walk@.push(Status::Running));
    }

    /// The worker has run its unit of work to the end and is idle again.
    pub fn complete(&mut self)
        requires
            old(self).wf(),
            old(self).current() == Status::Running,
        ensures
            final(self).wf(),
            final(self).history() == old(self).history().push(Status::Ready),
    {
        self.status = Status::Ready;
        self.walk = Ghost(self.walk@.push(Status::Ready));
    }

    /// Whether the worker is parked at a suspension point.
    pub fn is_blocked(&self) -> (blocked: bool)
        requires
            self.wf(),
        ensures
            blocked == (self.current() == Status::Blocked),
    {
        self.status == Status::Blocked
    }
}

/// Whatever a cell has been through, its statuses form a walk that starts at
/// `Ready` and takes legal steps only, and the walk ends at the status the
/// cell has now.
pub proof fn lemma_history_is_legal_walk(cell: Shared)
    requires
        cell.wf(),
    ensures
        legal_walk(cell.history()),
        cell.history().last() == cell.current(),
        forall|k: int|
            0 <= k < cell.history().len() - 1 ==> legal_step(
                #[trigger] cell.history()[k],
                cell.history()[k + 1],
            ),
{
}

/// In a legal walk nothing but `Running` stands next to `Ready` or to
/// `Blocked`, and no status follows itself.
pub proof fn lemma_walk_neighbours(walk: Seq<Status>, k: int)
    requires
        legal_walk(walk),
        0 <= k < walk.len() - 1,
    ensures
        walk[k] != walk[k + 1],
        walk[k] != Status::Running ==> walk[k + 1] == Status::Running,
        walk[k + 1] != Status::Running ==> walk[k] == Status::Running,
{
    assert(legal_step(walk[k], walk[k + 1]));
}

} // verus!
