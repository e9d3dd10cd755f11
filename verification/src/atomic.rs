//! The shared numeric cell and the accesses that workers make to it.

use vstd::prelude::*;

verus! {

/// One access to the numeric cell. A controlled worker parks at a suspension
/// point before the access and at another one after it.
#[derive(Clone, Copy, PartialEq, Eq, Structural, Debug)]
pub enum Access {
    /// Read the value.
    Load,
    /// Overwrite the value.
    Store(u32),
    /// Add to the value in one step, wrapping around on overflow.
    FetchAdd(u32),
}

impl Access {
    /// What the cell holds after the access, given what it held before.
    pub open spec fn effect(self, held: u32) -> u32 {
        match self {
            Access::Load => held,
            Access::Store(value) => value,
            Access::FetchAdd(value) => held.wrapping_add(value),
        }
    }

    /// Whether the access changes what the cell holds.
    pub open spec fn writes(self) -> bool {
        !(self is Load)
    }
}

/// Where a controlled worker is parked: at one of the two suspension points
/// of an access.
#[derive(Clone, Copy, PartialEq, Eq, Structural, Debug)]
pub enum Parked {
    /// At the suspension point before an access.
    Before(Access),
    /// At the suspension point after an access, with what the cell held when
    /// the access was made.
    After(Access, u32),
}

/// The one resource that workers share: a number. A worker that is under
/// control parks before each access to it and after, so that the driver can
/// let another worker in between any two accesses.
#[derive(Debug)]
pub struct AtomicU32 {
    inner: u32,
}

impl View for AtomicU32 {
    type V = u32;

    closed spec fn view(&self) -> u32 {
        self.inner
    }
}

impl AtomicU32 {
    /// A cell that holds `value`.
    pub fn new(value: u32) -> (cell: AtomicU32)
        ensures
            cell@ == value,
    {
        AtomicU32 { inner: value }
    }

    /// Reads the value.
    pub fn load(&self) -> (value: u32)
        ensures
            value == self@,
    {
        self.inner
    }

    /// Overwrites the value.
    pub fn store(&mut self, value: u32)
        ensures
            final(self)@ == value,
    {
        self.inner = value;
    }

    /// Adds `value` in one step, wrapping around on overflow.
    pub fn fetch_add(&mut self, value: u32)
        ensures
            final(self)@ == old(self)@.wrapping_add(value),
    {
        self.inner = self.inner.wrapping_add(value);
    }

    /// Makes the access and returns what the cell held when it was made.
    pub fn perform(&mut self, access: Access) -> (held: u32)
        ensures
            held == old(self)@,
            final(self)@ == access.effect(old(self)@),
    {
        let held = self.load();
        match access {
            Access::Load => {},
            Access::Store(value) => self.store(value),
            Access::FetchAdd(value) => self.fetch_add(value),
        }
        held
    }
}

impl Default for AtomicU32 {
    /// A cell that holds zero.
    fn default() -> (cell: AtomicU32)
        ensures
            cell@ == 0,
    {
        AtomicU32::new(0)
    }
}

} // verus!
