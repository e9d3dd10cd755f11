//! What holds of every run: stated over the abstract system, of which
//! [`crate::scheduler::Scheduler::run`] computes the end.

use vstd::arithmetic::div_mod::lemma_mod_bound;
use vstd::prelude::*;
use crate::atomic::{Access, Parked};
use crate::counter::Mode;
use crate::system::{
    driven,
    finished,
    lemma_driven,
    lemma_driven_step,
    lemma_unwritten_idle,
    lemma_wind_up,
    retire,
    unwritten,
    wind_up,
    System,
};
use crate::thread::settle;

verus! {

/// Winding up from `from` on leaves every worker idle, if those before
/// `from` are idle already.
proof fn lemma_wind_up_idles(s: System, from: nat)
    requires
        forall|j: int| 0 <= j < from && j < s.parked.len() ==> s.parked[j] is None,
    ensures
        wind_up(s, from).parked.len() == s.parked.len(),
        forall|j: int| 0 <= j < s.parked.len() ==> wind_up(s, from).parked[j] is None,
    decreases s.parked.len() - from,
{
    if from < s.parked.len() {
        lemma_wind_up_idles(retire(s, from as int), from + 1);
    }
}

/// Driving neither adds a worker nor takes one away.
proof fn lemma_driven_keeps_workers(mode: Mode, workers: nat, bytes: Seq<u8>)
    requires
        workers >= 1,
    ensures
        driven(mode, workers, bytes).parked.len() == workers,
    decreases bytes.len(),
{
    if bytes.len() > 0 {
        lemma_driven_keeps_workers(mode, workers, bytes.drop_last());
        lemma_mod_bound(bytes.len() - 1, workers as int);
    }
}

/// Whatever the oracle's input, a run ends with every worker idle: none is
/// left parked.
pub proof fn lemma_no_worker_stays_parked(mode: Mode, workers: nat, bytes: Seq<u8>)
    requires
        workers >= 1,
    ensures
        finished(mode, workers, bytes).parked.len() == workers,
        forall|i: int| 0 <= i < workers ==> finished(mode, workers, bytes).parked[i] is None,
{
    lemma_driven_keeps_workers(mode, workers, bytes);
    lemma_wind_up_idles(driven(mode, workers, bytes), 0);
}

/// At the end of a run every increment that was submitted has been written,
/// and the counter holds no more than the reference model expects: an
/// interleaving can lose updates and cannot make any up.
pub proof fn lemma_updates_are_only_lost(mode: Mode, workers: nat, bytes: Seq<u8>)
    requires
        workers >= 1,
        bytes.len() <= u32::MAX,
    ensures
        unwritten(finished(mode, workers, bytes).parked) == 0,
        finished(mode, workers, bytes).value <= finished(mode, workers, bytes).model,
        finished(mode, workers, bytes).model == driven(mode, workers, bytes).model,
        finished(mode, workers, bytes).model <= bytes.len(),
{
    lemma_driven(mode, workers, bytes);
    lemma_wind_up(driven(mode, workers, bytes), 0);
    lemma_unwritten_idle(finished(mode, workers, bytes).parked);
}

/// With a counter that increments in one step no input makes the counter
/// and the reference model part.
pub proof fn lemma_atomic_never_diverges(workers: nat, bytes: Seq<u8>)
    requires
        workers >= 1,
        bytes.len() <= u32::MAX,
    ensures
        finished(Mode::Atomic, workers, bytes).value == finished(
            Mode::Atomic,
            workers,
            bytes,
        ).model,
{
    lemma_driven(Mode::Atomic, workers, bytes);
    lemma_wind_up(driven(Mode::Atomic, workers, bytes), 0);
    lemma_unwritten_idle(finished(Mode::Atomic, workers, bytes).parked);
}

/// An input that loses an update with two workers. The first worker is given
/// an increment and released once, so that it has read the counter, and is
/// then left parked; the second is given an increment and released until it
/// is done. Winding up then releases the first, which writes what it read,
/// plus one.
pub open spec fn lost_update_input() -> Seq<u8> {
    seq![1u8, 0u8, 1u8, 0u8, 0u8, 1u8, 0u8, 1u8, 0u8, 1u8, 0u8, 1u8, 0u8, 1u8]
}

/// With two workers and a counter that increments in two steps, some input
/// makes the counter and the reference model part: on
/// [`lost_update_input`] two increments are submitted and the counter ends
/// at 1.
pub proof fn lemma_lost_update_is_reachable()
    ensures
        finished(Mode::TwoStep, 2, lost_update_input()).value == 1,
        finished(Mode::TwoStep, 2, lost_update_input()).model == 2,
        exists|bytes: Seq<u8>|
            bytes.len() <= u32::MAX && (#[trigger] finished(Mode::TwoStep, 2, bytes)).value
                != finished(Mode::TwoStep, 2, bytes).model,
{
    let mode = Mode::TwoStep;
    let idle = None::<Parked>;
    let entry = Some(Parked::Before(Access::Load));
    let read = Some(Parked::After(Access::Load, 0));
    let write = Some(Parked::Before(Access::Store(1)));
    let written = Some(Parked::After(Access::Store(1), 0));
    let input = lost_update_input();
    assert(input.take(0) =~= Seq::<u8>::empty());
    let d0 = driven(mode, 2, input.take(0));
    assert(d0.parked =~= seq![idle, idle] && d0.value == 0 && d0.model == 0);
    // The first worker is given an increment and reads the counter.
    lemma_driven_step(mode, 2, input, 0);
    let d1 = driven(mode, 2, input.take(1));
    assert(d1.parked =~= seq![entry, idle] && d1.value == 0 && d1.model == 1);
    lemma_driven_step(mode, 2, input, 1);
    lemma_driven_step(mode, 2, input, 2);
    let d3 = driven(mode, 2, input.take(3));
    assert(d3.parked =~= seq![read, idle] && d3.value == 0 && d3.model == 1);
    lemma_driven_step(mode, 2, input, 3);
    lemma_driven_step(mode, 2, input, 4);
    // The second worker is given an increment and runs it to the end.
    lemma_driven_step(mode, 2, input, 5);
    let d6 = driven(mode, 2, input.take(6));
    assert(d6.parked =~= seq![read, entry] && d6.value == 0 && d6.model == 2);
    lemma_driven_step(mode, 2, input, 6);
    lemma_driven_step(mode, 2, input, 7);
    let d8 = driven(mode, 2, input.take(8));
    assert(d8.parked =~= seq![read, read] && d8.value == 0 && d8.model == 2);
    lemma_driven_step(mode, 2, input, 8);
    lemma_driven_step(mode, 2, input, 9);
    let d10 = driven(mode, 2, input.take(10));
    assert(d10.parked =~= seq![read, write] && d10.value == 0 && d10.model == 2);
    lemma_driven_step(mode, 2, input, 10);
    lemma_driven_step(mode, 2, input, 11);
    let d12 = driven(mode, 2, input.take(12));
    assert(d12.parked =~= seq![read, written] && d12.value == 1 && d12.model == 2);
    lemma_driven_step(mode, 2, input, 12);
    lemma_driven_step(mode, 2, input, 13);
    let d14 = driven(mode, 2, input.take(14));
    assert(d14.parked =~= seq![read, idle] && d14.value == 1 && d14.model == 2);
    assert(input.take(14) =~= input);
    // Winding up releases the first worker, which writes what it read, plus one.
    reveal_with_fuel(settle, 4);
    assert(settle(Parked::After(Access::Load, 0), 1) == 1);
    let r1 = retire(d14, 0);
    assert(r1.parked =~= seq![idle, idle] && r1.value == 1 && r1.model == 2);
    let r2 = retire(r1, 1);
    assert(r2.parked =~= seq![idle, idle] && r2.value == 1 && r2.model == 2);
    reveal_with_fuel(wind_up, 3);
    assert(wind_up(d14, 0) == r2);
}

} // verus!
