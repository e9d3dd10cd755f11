//! The controlled system as a whole, in the abstract: what the shared cell
//! holds, where each worker is parked, and what the reference model expects.

use vstd::arithmetic::div_mod::lemma_mod_bound;
use vstd::prelude::*;
use crate::atomic::{Access, Parked};
use crate::counter::{
    can_resume,
    first_point,
    next_point,
    points_left,
    write_pending,
    Mode,
};
use crate::oracle::says_go;
use crate::thread::{can_settle, settle};

verus! {

/// A state of the controlled system.
pub struct System {
    /// What the shared cell holds.
    pub value: u32,
    /// Where each worker is parked; `None` for an idle one.
    pub parked: Seq<Option<Parked>>,
    /// The reference model: how many increments have been submitted.
    pub model: nat,
}

/// The system before the driver has done anything.
pub open spec fn start(workers: nat) -> System {
    System { value: 0, parked: Seq::new(workers, |i: int| None::<Parked>), model: 0 }
}

/// The driver submits an increment to the idle worker `i` and counts it.
pub open spec fn submit(mode: Mode, s: System, i: int) -> System {
    System {
        value: s.value,
        parked: s.parked.update(i, Some(first_point(mode))),
        model: s.model + 1,
    }
}

/// The driver releases the parked worker `i`.
pub open spec fn release(s: System, i: int) -> System {
    let (next, value) = next_point(s.parked[i].unwrap(), s.value);
    System { value, parked: s.parked.update(i, next), model: s.model }
}

/// The driver turns to worker `i`: it releases a parked worker and gives an
/// idle one an increment.
pub open spec fn poke(mode: Mode, s: System, i: int) -> System {
    if s.parked[i] is Some {
        release(s, i)
    } else {
        submit(mode, s, i)
    }
}

/// The system once the driver has used up `bytes`. The driver goes round the
/// workers and asks the oracle once for each, so byte `k` decides for worker
/// `k % workers`: the driver turns to that worker if the byte says so.
pub open spec fn driven(mode: Mode, workers: nat, bytes: Seq<u8>) -> System
    decreases bytes.len(),
{
    if bytes.len() == 0 {
        start(workers)
    } else {
        let before = driven(mode, workers, bytes.drop_last());
        if says_go(bytes.last()) {
            poke(mode, before, (bytes.len() - 1) % (workers as int))
        } else {
            before
        }
    }
}

/// What one more byte of input does: byte `k` makes the driver turn to worker
/// `k % workers`, or leaves the system as it is.
pub proof fn lemma_driven_step(mode: Mode, workers: nat, bytes: Seq<u8>, k: int)
    requires
        0 <= k < bytes.len(),
    ensures
        driven(mode, workers, bytes.take(k + 1)) == if says_go(bytes[k]) {
            poke(mode, driven(mode, workers, bytes.take(k)), k % (workers as int))
        } else {
            driven(mode, workers, bytes.take(k))
        },
{
    assert(bytes.take(k + 1).drop_last() =~= bytes.take(k));
}

/// Worker `i` is wound up: released until its unit of work has returned.
pub open spec fn retire(s: System, i: int) -> System {
    System {
        value: match s.parked[i] {
            Some(at) => settle(at, s.value),
            None => s.value,
        },
        parked: s.parked.update(i, None),
        model: s.model,
    }
}

/// The workers from `from` on are wound up, one after the other.
pub open spec fn wind_up(s: System, from: nat) -> System
    decreases s.parked.len() - from,
{
    if from >= s.parked.len() {
        s
    } else {
        wind_up(retire(s, from as int), from + 1)
    }
}

/// The system at the end of a run: the driver has used up `bytes` and wound
/// up every worker.
pub open spec fn finished(mode: Mode, workers: nat, bytes: Seq<u8>) -> System {
    wind_up(driven(mode, workers, bytes), 0)
}

/// 1 for a worker that has been given an increment and has not written to the
/// cell for it yet, 0 for any other.
pub open spec fn owes(parked: Option<Parked>) -> nat {
    match parked {
        Some(at) => if write_pending(at) {
            1
        } else {
            0
        },
        None => 0,
    }
}

/// How many increments have been submitted and not written yet.
pub open spec fn unwritten(parked: Seq<Option<Parked>>) -> nat
    decreases parked.len(),
{
    if parked.len() == 0 {
        0
    } else {
        unwritten(parked.drop_last()) + owes(parked.last())
    }
}

/// How many increments have been written to the cell.
pub open spec fn written(s: System) -> int {
    s.model - unwritten(s.parked)
}

/// What a parked worker carries is no more than `written` increments allow.
pub open spec fn carries_at_most(parked: Option<Parked>, written: int) -> bool {
    match parked {
        Some(Parked::After(Access::Load, seen)) => seen <= written,
        Some(Parked::Before(Access::Store(value))) => value <= written + 1,
        Some(Parked::Before(Access::FetchAdd(value))) => value == 1,
        _ => true,
    }
}

/// The cell never holds more than has been written to it, and no worker
/// carries more: so no increment leaves `u32` while the model fits in it.
pub open spec fn sound(s: System) -> bool {
    &&& unwritten(s.parked) <= s.model <= u32::MAX
    &&& s.value <= written(s)
    &&& forall|i: int|
        0 <= i < s.parked.len() ==> carries_at_most(#[trigger] s.parked[i], written(s))
}

/// A worker of a counter that increments in one step.
pub open spec fn adds_in_one_step(parked: Option<Parked>) -> bool {
    match parked {
        Some(Parked::Before(access)) => access == Access::FetchAdd(1),
        Some(Parked::After(access, _)) => access == Access::FetchAdd(1),
        None => true,
    }
}

/// A sound system whose workers all increment in one step, and whose cell
/// holds exactly what has been written to it.
pub open spec fn exact(s: System) -> bool {
    &&& sound(s)
    &&& s.value == written(s)
    &&& forall|i: int| 0 <= i < s.parked.len() ==> adds_in_one_step(#[trigger] s.parked[i])
}

/// One worker's change of place changes the number of unwritten increments
/// by what that worker owes before and after.
pub proof fn lemma_unwritten_update(parked: Seq<Option<Parked>>, i: int, to: Option<Parked>)
    requires
        0 <= i < parked.len(),
    ensures
        unwritten(parked.update(i, to)) + owes(parked[i]) == unwritten(parked) + owes(to),
        owes(parked[i]) <= unwritten(parked),
    decreases parked.len(),
{
    if i == parked.len() - 1 {
        assert(parked.update(i, to).drop_last() =~= parked.drop_last());
    } else {
        lemma_unwritten_update(parked.drop_last(), i, to);
        assert(parked.update(i, to).drop_last() =~= parked.drop_last().update(i, to));
    }
}

/// Idle workers owe nothing.
pub proof fn lemma_unwritten_idle(parked: Seq<Option<Parked>>)
    requires
        forall|i: int| 0 <= i < parked.len() ==> parked[i] is None,
    ensures
        unwritten(parked) == 0,
    decreases parked.len(),
{
    if parked.len() > 0 {
        lemma_unwritten_idle(parked.drop_last());
    }
}

/// Submitting an increment keeps a system sound, and exact where the counter
/// increments in one step.
pub proof fn lemma_submit(mode: Mode, s: System, i: int)
    requires
        sound(s),
        0 <= i < s.parked.len(),
        s.parked[i] is None,
        s.model < u32::MAX,
    ensures
        sound(submit(mode, s, i)),
        written(submit(mode, s, i)) == written(s),
        exact(s) && mode == Mode::Atomic ==> exact(submit(mode, s, i)),
{
    let after = submit(mode, s, i);
    lemma_unwritten_update(s.parked, i, Some(first_point(mode)));
    assert forall|j: int| 0 <= j < after.parked.len() implies carries_at_most(
        #[trigger] after.parked[j],
        written(after),
    ) by {
        if j != i {
            assert(carries_at_most(s.parked[j], written(s)));
        }
    }
    if exact(s) && mode == Mode::Atomic {
        assert forall|j: int| 0 <= j < after.parked.len() implies adds_in_one_step(
            #[trigger] after.parked[j],
        ) by {
            if j != i {
                assert(adds_in_one_step(s.parked[j]));
            }
        }
    }
}

/// A release in a sound system computes no sum that leaves `u32`, and keeps
/// the system sound, and exact where it was.
pub proof fn lemma_release(s: System, i: int)
    requires
        sound(s),
        0 <= i < s.parked.len(),
        s.parked[i] is Some,
    ensures
        can_resume(s.parked[i].unwrap()),
        can_settle(s.parked[i].unwrap(), s.value),
        sound(release(s, i)),
        written(s) <= written(release(s, i)),
        exact(s) ==> exact(release(s, i)),
{
    let at = s.parked[i].unwrap();
    let after = release(s, i);
    lemma_unwritten_update(s.parked, i, after.parked[i]);
    assert(carries_at_most(s.parked[i], written(s)));
    assert forall|j: int| 0 <= j < after.parked.len() implies carries_at_most(
        #[trigger] after.parked[j],
        written(after),
    ) by {
        if j != i {
            assert(carries_at_most(s.parked[j], written(s)));
        }
    }
    if exact(s) {
        assert(adds_in_one_step(s.parked[i]));
        assert forall|j: int| 0 <= j < after.parked.len() implies adds_in_one_step(
            #[trigger] after.parked[j],
        ) by {
            if j != i {
                assert(adds_in_one_step(s.parked[j]));
            }
        }
    }
}

/// Winding a worker up is releasing it until it is idle.
pub proof fn lemma_retire_unfolds(s: System, i: int)
    requires
        0 <= i < s.parked.len(),
        s.parked[i] is Some,
    ensures
        retire(s, i) == retire(release(s, i), i),
        release(s, i).parked[i] matches Some(next) ==> points_left(next) < points_left(
            s.parked[i].unwrap(),
        ),
{
    let after = release(s, i);
    assert(after.parked.update(i, None) =~= s.parked.update(i, None));
}

/// Winding a worker up keeps a system sound, and exact where it was.
pub proof fn lemma_retire(s: System, i: int)
    requires
        sound(s),
        0 <= i < s.parked.len(),
    ensures
        sound(retire(s, i)),
        written(s) <= written(retire(s, i)),
        exact(s) ==> exact(retire(s, i)),
    decreases
            match s.parked[i] {
                Some(at) => points_left(at),
                None => 0,
            },
{
    if s.parked[i] is Some {
        lemma_release(s, i);
        lemma_retire_unfolds(s, i);
        lemma_retire(release(s, i), i);
    } else {
        assert(retire(s, i).parked =~= s.parked);
    }
}

/// Winding up leaves every worker idle, and the system sound, and exact where
/// it was; the reference model is what it was.
pub proof fn lemma_wind_up(s: System, from: nat)
    requires
        sound(s),
        forall|j: int| 0 <= j < from && j < s.parked.len() ==> s.parked[j] is None,
    ensures
        sound(wind_up(s, from)),
        exact(s) ==> exact(wind_up(s, from)),
        wind_up(s, from).model == s.model,
        wind_up(s, from).parked.len() == s.parked.len(),
        forall|j: int| 0 <= j < s.parked.len() ==> wind_up(s, from).parked[j] is None,
    decreases s.parked.len() - from,
{
    if from < s.parked.len() {
        lemma_retire(s, from as int);
        lemma_wind_up(retire(s, from as int), from + 1);
    }
}

/// However the driver is driven, the system stays sound, and exact where the
/// counter increments in one step; at most one increment is submitted for
/// each byte of input.
pub proof fn lemma_driven(mode: Mode, workers: nat, bytes: Seq<u8>)
    requires
        workers >= 1,
        bytes.len() <= u32::MAX,
    ensures
        sound(driven(mode, workers, bytes)),
        driven(mode, workers, bytes).parked.len() == workers,
        driven(mode, workers, bytes).model <= bytes.len(),
        mode == Mode::Atomic ==> exact(driven(mode, workers, bytes)),
    decreases bytes.len(),
{
    if bytes.len() == 0 {
        lemma_unwritten_idle(start(workers).parked);
    } else {
        let before = driven(mode, workers, bytes.drop_last());
        let i = (bytes.len() - 1) % (workers as int);
        lemma_driven(mode, workers, bytes.drop_last());
        lemma_mod_bound(bytes.len() - 1, workers as int);
        if says_go(bytes.last()) {
            if before.parked[i] is Some {
                lemma_release(before, i);
            } else {
                lemma_submit(mode, before, i);
            }
        }
    }
}

} // verus!
