//! The subject under test: a counter whose increment can be torn in two.

use vstd::prelude::*;
use crate::atomic::{Access, AtomicU32, Parked};

verus! {

/// How the counter increments.
#[derive(Clone, Copy, PartialEq, Eq, Structural, Debug)]
pub enum Mode {
    /// Read, then write one more: two accesses, and room between them for
    /// another worker's update to get lost.
    TwoStep,
    /// One fetch-and-add.
    Atomic,
}

/// The suspension point at which a freshly submitted increment parks.
pub open spec fn first_point(mode: Mode) -> Parked {
    match mode {
        Mode::TwoStep => Parked::Before(Access::Load),
        Mode::Atomic => Parked::Before(Access::FetchAdd(1)),
    }
}

/// One release of a worker parked at `at`, while the cell holds `held`: where
/// the worker parks next (`None` once the increment has returned) and what
/// the cell holds then.
pub open spec fn next_point(at: Parked, held: u32) -> (Option<Parked>, u32) {
    match at {
        Parked::Before(access) => (Some(Parked::After(access, held)), access.effect(held)),
        // The increment has read `seen` and goes on to write one more.
        Parked::After(Access::Load, seen) => (
            Some(Parked::Before(Access::Store((seen + 1) as u32))),
            held,
        ),
        Parked::After(_, _) => (None, held),
    }
}

/// No release from `at` computes a sum that leaves `u32`.
pub open spec fn can_resume(at: Parked) -> bool {
    at matches Parked::After(Access::Load, seen) ==> seen < u32::MAX
}

/// How many releases a worker parked at `at` needs before its increment has
/// returned.
pub open spec fn points_left(at: Parked) -> nat {
    match at {
        Parked::Before(Access::Load) => 4,
        Parked::After(Access::Load, _) => 3,
        Parked::Before(_) => 2,
        Parked::After(_, _) => 1,
    }
}

/// Whether a worker parked at `at` has its write to the cell still before it.
pub open spec fn write_pending(at: Parked) -> bool {
    match at {
        Parked::Before(_) => true,
        Parked::After(access, _) => !access.writes(),
    }
}

/// A counter on a shared numeric cell. In two steps its increment is not
/// safe against other workers; in one step it is.
pub struct BadCounter {
    value: AtomicU32,
    mode: Mode,
}

impl BadCounter {
    /// What the counter holds.
    pub closed spec fn value(&self) -> u32 {
        self.value@
    }

    /// How the counter increments.
    pub closed spec fn mode(&self) -> Mode {
        self.mode
    }

    /// A counter at zero.
    pub fn new(mode: Mode) -> (counter: BadCounter)
        ensures
            counter.value() == 0,
            counter.mode() == mode,
    {
        BadCounter { value: AtomicU32::new(0), mode }
    }

    /// What the counter holds, read on a thread that nobody controls.
    pub fn get(&self) -> (value: u32)
        ensures
            value == self.value(),
    {
        self.value.load()
    }

    /// An increment on a thread that nobody controls: it runs straight
    /// through, so nothing can come between its accesses.
    pub fn increment(&mut self)
        requires
            old(self).mode() == Mode::TwoStep ==> old(self).value() < u32::MAX,
        ensures
            final(self).mode() == old(self).mode(),
            final(self).value() == old(self).value().wrapping_add(1),
    {
        match self.mode {
            Mode::TwoStep => {
                let value = self.value.load();
                self.value.store(value + 1);
            },
            Mode::Atomic => self.value.fetch_add(1),
        }
    }

    /// An increment on a controlled worker, up to its first suspension point.
    pub fn begin(&self) -> (at: Parked)
        ensures
            at == first_point(self.mode()),
    {
        match self.mode {
            Mode::TwoStep => Parked::Before(Access::Load),
            Mode::Atomic => Parked::Before(Access::FetchAdd(1)),
        }
    }

    /// The stretch of an increment from the suspension point `at` to the
    /// next one; `None` once the increment has returned.
    pub fn resume(&mut self, at: Parked) -> (next: Option<Parked>)
        requires
            can_resume(at),
        ensures
            final(self).mode() == old(self).mode(),
            (next, final(self).value()) == next_point(at, old(self).value()),
    {
        match at {
            Parked::Before(access) => {
                let held = self.value.perform(access);
                Some(Parked::After(access, held))
            },
            Parked::After(Access::Load, seen) => Some(Parked::Before(Access::Store(seen + 1))),
            Parked::After(_, _) => None,
        }
    }
}

impl Default for BadCounter {
    /// The counter as it is meant to be caught: at zero, incrementing in two
    /// steps.
    fn default() -> (counter: BadCounter)
        ensures
            counter.value() == 0,
            counter.mode() == Mode::TwoStep,
    {
        BadCounter::new(Mode::TwoStep)
    }
}

} // verus!
