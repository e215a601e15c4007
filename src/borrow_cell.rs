//! A cell whose borrows are checked when they are asked for: any number of
//! shared borrows, or one exclusive borrow, never both.
//!
//! A borrow is represented by a guard value. The guard is handed back to the
//! cell to release the borrow; the cell counts outstanding guards in its
//! `BorrowState`.

use vstd::prelude::*;

verus! {

/// How a `DynamicBorrowCell` is borrowed at the moment.
#[derive(Clone, Copy, Debug, PartialEq, Eq, Structural)]
pub enum BorrowState {
    Unborrowed,
    /// `n` shared guards are outstanding, `n >= 1`.
    Shared(usize),
    Exclusive,
}

/// A borrow was asked for that conflicts with the borrows outstanding.
#[derive(Clone, Copy, Debug, PartialEq, Eq, Structural)]
pub struct BorrowConflict;

/// A borrow state is valid when a shared state counts at least one guard.
pub open spec fn state_valid(s: BorrowState) -> bool {
    match s {
        BorrowState::Shared(n) => n >= 1,
        _ => true,
    }
}

/// The state after a shared borrow is granted, or `None` where it conflicts.
pub open spec fn after_shared(s: BorrowState) -> Option<BorrowState> {
    match s {
        BorrowState::Unborrowed => Some(BorrowState::Shared(1)),
        BorrowState::Shared(n) => Some(BorrowState::Shared((n + 1) as usize)),
        BorrowState::Exclusive => None,
    }
}

/// The state after an exclusive borrow is granted, or `None` where it
/// conflicts.
pub open spec fn after_exclusive(s: BorrowState) -> Option<BorrowState> {
    match s {
        BorrowState::Unborrowed => Some(BorrowState::Exclusive),
        _ => None,
    }
}

/// The state after one shared guard is released.
pub open spec fn after_release_shared(s: BorrowState) -> BorrowState {
    match s {
        BorrowState::Shared(n) => if n > 1 {
            BorrowState::Shared((n - 1) as usize)
        } else {
            BorrowState::Unborrowed
        },
        _ => s,
    }
}

/// A shared count that one more guard would push past `usize::MAX`.
pub open spec fn shared_saturated(s: BorrowState) -> bool {
    s == BorrowState::Shared(usize::MAX)
}

/// Proof that a shared borrow is granted (a guard). It is released by
/// handing it back to the cell it came from.
pub struct SharedGuard {
    _private: (),
}

/// Proof that the exclusive borrow is granted (a guard). It is released by
/// handing it back to the cell it came from.
pub struct ExclusiveGuard {
    _private: (),
}

/// A value together with the borrows outstanding on it.
pub struct DynamicBorrowCell<T> {
    payload: T,
    state: BorrowState,
}

impl<T> DynamicBorrowCell<T> {
    /// The value held.
    pub closed spec fn value(&self) -> T {
        self.payload
    }

    /// The borrows outstanding.
    pub closed spec fn borrow_state(&self) -> BorrowState {
        self.state
    }

    /// The cell's invariant: its borrow state is valid.
    pub open spec fn wf(&self) -> bool {
        state_valid(self.borrow_state())
    }

    /// A cell holding `value`, with no borrow outstanding.
    pub fn new(value: T) -> (r: Self)
        ensures
            r.value() == value,
            r.borrow_state() == BorrowState::Unborrowed,
            r.wf(),
    {
        DynamicBorrowCell { payload: value, state: BorrowState::Unborrowed }
    }

    /// The borrows outstanding.
    pub fn state(&self) -> (r: BorrowState)
        ensures
            r == self.borrow_state(),
    {
        self.state
    }

    /// Asks for a shared borrow. It is granted unless the exclusive borrow is
    /// outstanding; then `BorrowConflict` comes back and nothing changes.
    pub fn try_borrow(&mut self) -> (r: Result<SharedGuard, BorrowConflict>)
        requires
            old(self).wf(),
            !shared_saturated(old(self).borrow_state()),
        ensures
            final(self).wf(),
            final(self).value() == old(self).value(),
            r is Ok <==> after_shared(old(self).borrow_state()) is Some,
            r is Ok ==> final(self).borrow_state() == after_shared(
                old(self).borrow_state(),
            )->Some_0,
            r is Err ==> final(self).borrow_state() == old(self).borrow_state(),
    {
        match self.state {
            BorrowState::Unborrowed => {
                self.state = BorrowState::Shared(1);
                Ok(SharedGuard { _private: () })
            },
            BorrowState::Shared(n) => {
                self.state = BorrowState::Shared(n + 1);
                Ok(SharedGuard { _private: () })
            },
            BorrowState::Exclusive => Err(BorrowConflict),
        }
    }

    /// Asks for the exclusive borrow. It is granted only where no borrow is
    /// outstanding; otherwise `BorrowConflict` comes back and nothing changes.
    pub fn try_borrow_mut(&mut self) -> (r: Result<ExclusiveGuard, BorrowConflict>)
        requires
            old(self).wf(),
        ensures
            final(self).wf(),
            final(self).value() == old(self).value(),
            r is Ok <==> old(self).borrow_state() == BorrowState::Unborrowed,
            r is Ok ==> final(self).borrow_state() == BorrowState::Exclusive,
            r is Err ==> final(self).borrow_state() == old(self).borrow_state(),
    {
        match self.state {
            BorrowState::Unborrowed => {
                self.state = BorrowState::Exclusive;
                Ok(ExclusiveGuard { _private: () })
            },
            _ => Err(BorrowConflict),
        }
    }

    /// A shared borrow, where the caller knows that none conflicts: a
    /// conflict is a programming error and is ruled out by the precondition.
    pub fn borrow(&mut self) -> (g: SharedGuard)
        requires
            old(self).wf(),
            old(self).borrow_state() != BorrowState::Exclusive,
            !shared_saturated(old(self).borrow_state()),
        ensures
            final(self).wf(),
            final(self).value() == old(self).value(),
            final(self).borrow_state() == after_shared(old(self).borrow_state())->Some_0,
    {
        if let BorrowState::Shared(n) = self.state {
            self.state = BorrowState::Shared(n + 1);
        } else {
            self.state = BorrowState::Shared(1);
        }
        SharedGuard { _private: () }
    }

    /// The exclusive borrow, where the caller knows that none conflicts: a
    /// conflict is a programming error and is ruled out by the precondition.
    pub fn borrow_mut(&mut self) -> (g: ExclusiveGuard)
        requires
            old(self).wf(),
            old(self).borrow_state() == BorrowState::Unborrowed,
        ensures
            final(self).wf(),
            final(self).value() == old(self).value(),
            final(self).borrow_state() == BorrowState::Exclusive,
    {
        self.state = BorrowState::Exclusive;
        ExclusiveGuard { _private: () }
    }

    /// Reads the value under a shared guard.
    pub fn read<'a>(&'a self, guard: &SharedGuard) -> (r: &'a T)
        requires
            self.borrow_state() is Shared,
        ensures
            *r == self.value(),
    {
        &self.payload
    }

    /// Replaces the value under the exclusive guard; returns the value that
    /// was held.
    pub fn replace(&mut self, guard: &ExclusiveGuard, value: T) -> (r: T)
        requires
            old(self).borrow_state() == BorrowState::Exclusive,
        ensures
            r == old(self).value(),
            final(self).value() == value,
            final(self).borrow_state() == old(self).borrow_state(),
    {
        let mut value = value;
        std::mem::swap(&mut self.payload, &mut value);
        value
    }

    /// Mutable access to the value under the exclusive guard.
    pub fn get_mut<'a>(&'a mut self, guard: &ExclusiveGuard) -> (r: &'a mut T)
        requires
            old(self).borrow_state() == BorrowState::Exclusive,
        ensures
            *r == old(self).value(),
            final(self).value() == *final(r),
            final(self).borrow_state() == old(self).borrow_state(),
    {
        &mut self.payload
    }

    /// Gives a shared guard back: `Shared(n)` becomes `Shared(n - 1)`, or
    /// `Unborrowed` where it was the last one.
    pub fn release(&mut self, guard: SharedGuard)
        requires
            old(self).wf(),
            old(self).borrow_state() is Shared,
        ensures
            final(self).wf(),
            final(self).value() == old(self).value(),
            final(self).borrow_state() == after_release_shared(old(self).borrow_state()),
    {
        if let BorrowState::Shared(n) = self.state {
            if n > 1 {
                self.state = BorrowState::Shared(n - 1);
            } else {
                self.state = BorrowState::Unborrowed;
            }
        }
    }

    /// Gives the exclusive guard back: the cell is `Unborrowed` again.
    pub fn release_mut(&mut self, guard: ExclusiveGuard)
        requires
            old(self).borrow_state() == BorrowState::Exclusive,
        ensures
            final(self).wf(),
            final(self).value() == old(self).value(),
            final(self).borrow_state() == BorrowState::Unborrowed,
    {
        self.state = BorrowState::Unborrowed;
    }

    /// Takes the value out of a cell with no borrow outstanding.
    pub fn into_inner(self) -> (r: T)
        requires
            self.borrow_state() == BorrowState::Unborrowed,
        ensures
            r == self.value(),
    {
        self.payload
    }
}

/// Two cells that hold the same value in the same borrow state are equal.
pub proof fn lemma_cell_ext<T>(a: DynamicBorrowCell<T>, b: DynamicBorrowCell<T>)
    requires
        a.value() == b.value(),
        a.borrow_state() == b.borrow_state(),
    ensures
        a == b,
{
}

/// A shared borrow followed by its release leaves every valid state as it
/// was, where the borrow is granted at all.
pub proof fn lemma_shared_round_trip(s: BorrowState)
    requires
        state_valid(s),
        !shared_saturated(s),
    ensures
        after_shared(s) is Some <==> s != BorrowState::Exclusive,
        after_shared(s) is Some ==> state_valid(after_shared(s)->Some_0)
            && after_release_shared(after_shared(s)->Some_0) == s,
{
}

/// The borrow rules from a valid state `s`: the exclusive borrow is granted
/// exactly from `Unborrowed`; two shared borrows in a row are granted and
/// give `Shared(2)`; after a shared borrow an exclusive one conflicts; after
/// the exclusive borrow every borrow conflicts; and once the sole guard is
/// released the exclusive borrow is granted again.
pub proof fn lemma_borrow_rules(s: BorrowState)
    requires
        state_valid(s),
    ensures
        after_exclusive(s) is Some <==> s == BorrowState::Unborrowed,
        after_shared(after_shared(BorrowState::Unborrowed)->Some_0) == Some(BorrowState::Shared(2)),
        !shared_saturated(s) && after_shared(s) is Some ==> after_exclusive(
            after_shared(s)->Some_0,
        ) is None,
        after_shared(BorrowState::Exclusive) is None,
        after_exclusive(BorrowState::Exclusive) is None,
        after_exclusive(after_release_shared(BorrowState::Shared(1))) is Some,
{
}

} // verus!
