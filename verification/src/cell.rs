//! The per-object borrow tracker.
//!
//! A [`UserDataCell`] wraps one host value living inside the engine's heap
//! and enforces single-writer-xor-multi-reader access at run time, because
//! the engine's collector — not the host's type system — owns the storage.
//! One counter encodes the three logical borrow states: `0` is unborrowed,
//! [`EXCLUSIVE_BORROW`] is exclusively borrowed, and any other value is the
//! number of live shared borrows.  A cell whose value was taken out is
//! permanently *destructed* and refuses every further operation.

use vstd::prelude::*;

use crate::error::Error;

verus! {

/// Sentinel counter value marking an exclusive borrow.
pub const EXCLUSIVE_BORROW: u64 = u64::MAX;

/// Borrow-tracked storage for one hosted object.
pub struct UserDataCell<T> {
    /// The hosted value; `None` once the cell was destructed by `take`.
    pub value: Option<T>,
    /// `0`, a shared-borrow count, or [`EXCLUSIVE_BORROW`].
    pub borrow: u64,
}

impl<T> UserDataCell<T> {
    /// The cell was emptied by a successful `take` and rejects all use.
    pub open spec fn is_destructed(self) -> bool {
        self.value is None
    }

    /// No borrow of any kind is outstanding.
    pub open spec fn is_unborrowed(self) -> bool {
        self.borrow == 0
    }

    /// At least one shared borrow, and no exclusive borrow, is outstanding.
    pub open spec fn has_shared(self) -> bool {
        0 < self.borrow < EXCLUSIVE_BORROW
    }

    /// An exclusive borrow is outstanding.
    pub open spec fn has_exclusive(self) -> bool {
        self.borrow == EXCLUSIVE_BORROW
    }

    /// What `try_borrow` decides and the state it leaves behind.
    pub open spec fn spec_try_borrow(self) -> Result<UserDataCell<T>, Error> {
        if self.is_destructed() {
            Err(Error::Destructed)
        } else if self.has_exclusive() {
            Err(Error::BorrowConflict)
        } else if self.borrow == EXCLUSIVE_BORROW - 1 {
            Err(Error::BorrowCountOverflow)
        } else {
            Ok(UserDataCell { value: self.value, borrow: (self.borrow + 1) as u64 })
        }
    }

    /// What `try_borrow_mut` decides and the state it leaves behind.
    pub open spec fn spec_try_borrow_mut(self) -> Result<UserDataCell<T>, Error> {
        if self.is_destructed() {
            Err(Error::Destructed)
        } else if !self.is_unborrowed() {
            Err(Error::BorrowConflict)
        } else {
            Ok(UserDataCell { value: self.value, borrow: EXCLUSIVE_BORROW })
        }
    }

    /// What `take` decides: the extracted value and the destructed state
    /// it leaves behind.
    pub open spec fn spec_take(self) -> Result<(T, UserDataCell<T>), Error> {
        if self.is_destructed() {
            Err(Error::Destructed)
        } else if !self.is_unborrowed() {
            Err(Error::BorrowConflict)
        } else {
            Ok((self.value->Some_0, UserDataCell { value: None, borrow: 0 }))
        }
    }

    /// Wraps a fresh host value: present, unborrowed.
    pub fn new(value: T) -> (c: UserDataCell<T>)
        ensures
            c == (UserDataCell { value: Some(value), borrow: 0u64 }),
    {
        UserDataCell { value: Some(value), borrow: 0 }
    }

    /// Acquires one shared borrow, or reports why it cannot.
    ///
    /// A conflicting request fails immediately — there is no queuing — and
    /// an error leaves the cell exactly as it was.
    pub fn try_borrow(&mut self) -> (r: Result<(), Error>)
        ensures
            match old(self).spec_try_borrow() {
                Ok(c) => r is Ok && *final(self) == c,
                Err(e) => r == Err::<(), Error>(e) && *final(self) == *old(self),
            },
    {
        if self.value.is_none() {
            Err(Error::Destructed)
        } else if self.borrow == EXCLUSIVE_BORROW {
            Err(Error::BorrowConflict)
        } else if self.borrow == EXCLUSIVE_BORROW - 1 {
            Err(Error::BorrowCountOverflow)
        } else {
            self.borrow = self.borrow + 1;
            Ok(())
        }
    }

    /// Acquires the exclusive borrow, or reports why it cannot.
    ///
    /// While any borrow is outstanding the attempt fails with
    /// [`Error::BorrowConflict`] and the cell is left unchanged.
    pub fn try_borrow_mut(&mut self) -> (r: Result<(), Error>)
        ensures
            match old(self).spec_try_borrow_mut() {
                Ok(c) => r is Ok && *final(self) == c,
                Err(e) => r == Err::<(), Error>(e) && *final(self) == *old(self),
            },
    {
        if self.value.is_none() {
            Err(Error::Destructed)
        } else if self.borrow != 0 {
            Err(Error::BorrowConflict)
        } else {
            self.borrow = EXCLUSIVE_BORROW;
            Ok(())
        }
    }

    /// Releases one shared borrow.
    pub fn release_shared(&mut self)
        requires
            old(self).has_shared(),
        ensures
            *final(self) == (UserDataCell {
                value: old(self).value,
                borrow: (old(self).borrow - 1) as u64,
            }),
    {
        self.borrow = self.borrow - 1;
    }

    /// Releases the exclusive borrow.
    pub fn release_exclusive(&mut self)
        requires
            old(self).has_exclusive(),
        ensures
            *final(self) == (UserDataCell { value: old(self).value, borrow: 0u64 }),
    {
        self.borrow = 0;
    }

    /// Extracts the hosted value, permanently destructing the cell.
    ///
    /// Succeeds only with zero outstanding borrows, so no live reference
    /// can survive the extraction; afterwards every operation on the cell
    /// fails with [`Error::Destructed`].
    pub fn take(&mut self) -> (r: Result<T, Error>)
        ensures
            match old(self).spec_take() {
                Ok(p) => r == Ok::<T, Error>(p.0) && *final(self) == p.1,
                Err(e) => r == Err::<T, Error>(e) && *final(self) == *old(self),
            },
    {
        if self.value.is_none() {
            Err(Error::Destructed)
        } else if self.borrow != 0 {
            Err(Error::BorrowConflict)
        } else {
            let mut v: Option<T> = None;
            core::mem::swap(&mut self.value, &mut v);
            match v {
                Some(value) => Ok(value),
                None => Err(Error::Destructed),
            }
        }
    }

    /// Consumes an intact cell and returns the hosted value.
    pub fn into_inner(self) -> (r: T)
        requires
            !self.is_destructed(),
        ensures
            Some(r) == self.value,
    {
        match self.value {
            Some(value) => value,
            None => unreached(),
        }
    }

    /// Reads the hosted value of an intact cell.
    pub fn get(&self) -> (r: &T)
        requires
            !self.is_destructed(),
        ensures
            Some(*r) == self.value,
    {
        match &self.value {
            Some(value) => value,
            None => unreached(),
        }
    }

    /// Replaces the hosted value of an intact cell, returning the old one.
    pub fn replace(&mut self, value: T) -> (r: T)
        requires
            !old(self).is_destructed(),
        ensures
            Some(r) == old(self).value,
            *final(self) == (UserDataCell { value: Some(value), borrow: old(self).borrow }),
    {
        let mut v = Some(value);
        core::mem::swap(&mut self.value, &mut v);
        match v {
            Some(prior) => prior,
            None => unreached(),
        }
    }
}

/// At all times exactly one of {no borrow, N shared borrows, one exclusive
/// borrow} holds of a cell: the three states partition every counter value.
pub proof fn lemma_borrow_state_trichotomy<T>(c: UserDataCell<T>)
    ensures
        c.is_unborrowed() || c.has_shared() || c.has_exclusive(),
        c.is_unborrowed() ==> !c.has_shared() && !c.has_exclusive(),
        c.has_shared() ==> !c.is_unborrowed() && !c.has_exclusive(),
        c.has_exclusive() ==> !c.is_unborrowed() && !c.has_shared(),
{
}

/// A second exclusive-borrow attempt while one is outstanding always fails
/// with [`Error::BorrowConflict`]; shared borrowers are refused as well, and
/// a failed attempt never changes the cell (stated by `try_borrow_mut`'s
/// contract, restated here over its decision model).
pub proof fn lemma_exclusive_borrow_is_unique<T>(c: UserDataCell<T>)
    requires
        c.spec_try_borrow_mut() is Ok,
    ensures
        (c.spec_try_borrow_mut()->Ok_0).spec_try_borrow_mut() == Err::<UserDataCell<T>, Error>(
            Error::BorrowConflict,
        ),
        (c.spec_try_borrow_mut()->Ok_0).spec_try_borrow() == Err::<UserDataCell<T>, Error>(
            Error::BorrowConflict,
        ),
        (c.spec_try_borrow_mut()->Ok_0).spec_take() == Err::<(T, UserDataCell<T>), Error>(
            Error::BorrowConflict,
        ),
{
}

/// `take` fails while any borrow is live; it succeeds exactly once: after a
/// successful `take`, every further `take` or borrow of the same cell fails
/// with [`Error::Destructed`].
pub proof fn lemma_take_exactly_once<T>(c: UserDataCell<T>)
    ensures
        !c.is_unborrowed() && !c.is_destructed() ==> c.spec_take() == Err::<
            (T, UserDataCell<T>),
            Error,
        >(Error::BorrowConflict),
        c.spec_take() is Ok ==> {
            let after = c.spec_take()->Ok_0.1;
            &&& after.spec_take() == Err::<(T, UserDataCell<T>), Error>(Error::Destructed)
            &&& after.spec_try_borrow() == Err::<UserDataCell<T>, Error>(Error::Destructed)
            &&& after.spec_try_borrow_mut() == Err::<UserDataCell<T>, Error>(Error::Destructed)
        },
{
}

} // verus!
