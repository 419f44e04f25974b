//! The heterogeneous app state store.
//!
//! Host callbacks share ambient, per-engine state keyed by type identity
//! (here a `u64` type key standing for the host type).  Each entry carries
//! its own borrow count, and one store-wide outstanding-borrow counter —
//! deliberately not per-type — gates every structural modification (insert
//! of a new entry, removal of any entry), because relocating the backing
//! storage could invalidate guards held by any borrower.  Fallible entry
//! points surface a gated modification as a recoverable error; the
//! non-fallible ones exclude it by precondition, as calling them so is a
//! host programming fault.

use vstd::prelude::*;

use crate::cell::EXCLUSIVE_BORROW;
use crate::error::Error;
use crate::lookup::{
    assoc_key, lemma_assoc_key_found, lemma_assoc_key_none, lemma_assoc_key_push_other,
    lemma_assoc_key_remove_other, lemma_assoc_key_update_other,
};

verus! {

/// One stored value and its borrow state: `0` is free, a shared-borrow
/// count, or [`EXCLUSIVE_BORROW`].
pub struct AppDataEntry<V> {
    /// The stored value.
    pub value: V,
    /// `0`, a shared-borrow count, or [`EXCLUSIVE_BORROW`].
    pub state: u64,
}

/// How many outstanding guards a borrow state accounts for.
pub open spec fn guard_count(state: u64) -> nat {
    if state == EXCLUSIVE_BORROW {
        1
    } else {
        state as nat
    }
}

/// The outstanding guards of all entries together.
pub open spec fn total_guards<V>(s: Seq<(u64, AppDataEntry<V>)>) -> nat
    decreases s.len(),
{
    if s.len() == 0 {
        0
    } else {
        total_guards(s.drop_last()) + guard_count(s.last().1.state)
    }
}

/// Appending an entry adds its guards to the total.
pub proof fn lemma_total_guards_push<V>(s: Seq<(u64, AppDataEntry<V>)>, e: (u64, AppDataEntry<V>))
    ensures
        total_guards(s.push(e)) == total_guards(s) + guard_count(e.1.state),
{
    assert(s.push(e).drop_last() =~= s);
}

/// Overwriting one entry trades its guards for the new entry's guards.
pub proof fn lemma_total_guards_update<V>(
    s: Seq<(u64, AppDataEntry<V>)>,
    i: int,
    e: (u64, AppDataEntry<V>),
)
    requires
        0 <= i < s.len(),
    ensures
        total_guards(s.update(i, e)) + guard_count(s[i].1.state) == total_guards(s) + guard_count(
            e.1.state,
        ),
    decreases s.len(),
{
    let s2 = s.update(i, e);
    if i == s.len() - 1 {
        assert(s2.drop_last() =~= s.drop_last());
        assert(s2.last() == e);
    } else {
        assert(s2.drop_last() =~= s.drop_last().update(i, e));
        assert(s2.last() == s.last());
        lemma_total_guards_update(s.drop_last(), i, e);
    }
}

/// Removing one entry subtracts its guards from the total.
pub proof fn lemma_total_guards_remove<V>(s: Seq<(u64, AppDataEntry<V>)>, i: int)
    requires
        0 <= i < s.len(),
    ensures
        total_guards(s.remove(i)) + guard_count(s[i].1.state) == total_guards(s),
    decreases s.len(),
{
    let s2 = s.remove(i);
    if i == s.len() - 1 {
        assert(s2 =~= s.drop_last());
    } else {
        assert(s2.drop_last() =~= s.drop_last().remove(i));
        assert(s2.last() == s.last());
        lemma_total_guards_remove(s.drop_last(), i);
    }
}

/// No entry holds more guards than all entries together.
pub proof fn lemma_total_guards_at_least<V>(s: Seq<(u64, AppDataEntry<V>)>, i: int)
    requires
        0 <= i < s.len(),
    ensures
        total_guards(s) >= guard_count(s[i].1.state),
    decreases s.len(),
{
    if i == s.len() - 1 {
    } else {
        lemma_total_guards_at_least(s.drop_last(), i);
    }
}

/// When no guard is outstanding, every entry is free.
pub proof fn lemma_total_guards_zero<V>(s: Seq<(u64, AppDataEntry<V>)>, i: int)
    requires
        0 <= i < s.len(),
        total_guards(s) == 0,
    ensures
        s[i].1.state == 0,
{
    lemma_total_guards_at_least(s, i);
}

/// A live shared borrow of one store entry, to be returned through
/// [`AppData::release`].
#[derive(Debug)]
pub struct AppDataRef {
    /// The type key of the borrowed entry.
    pub key: u64,
}

/// A live exclusive borrow of one store entry, to be returned through
/// [`AppData::release_mut`].
#[derive(Debug)]
pub struct AppDataRefMut {
    /// The type key of the borrowed entry.
    pub key: u64,
}

/// A container for ambient data associated with one engine instance,
/// keyed by type identity.
pub struct AppData<V> {
    /// The entries, keyed by type key.
    pub entries: Vec<(u64, AppDataEntry<V>)>,
    /// The store-wide count of outstanding borrow guards.
    pub borrow: u64,
}

impl<V> AppData<V> {
    /// The store accounts exactly for its outstanding guards, and keys are
    /// unique.
    pub open spec fn wf(self) -> bool {
        &&& self.borrow as nat == total_guards(self.entries@)
        &&& forall|i: int, j: int|
            0 <= i < j < self.entries@.len() ==> (#[trigger] self.entries@[i]).0 != (
            #[trigger] self.entries@[j]).0
    }

    /// The entry stored under a type key, if any.
    pub open spec fn lookup(self, key: u64) -> Option<AppDataEntry<V>> {
        assoc_key(self.entries@, key)
    }

    /// An empty store.
    pub fn new() -> (a: AppData<V>)
        ensures
            a.wf(),
            a.entries@.len() == 0,
            a.borrow == 0,
    {
        AppData { entries: Vec::new(), borrow: 0 }
    }

    /// Finds the position of a key.
    fn find(&self, key: u64) -> (r: Option<usize>)
        ensures
            match r {
                Some(i) => i < self.entries@.len() && self.entries@[i as int].0 == key
                    && forall|j: int| 0 <= j < i ==> (#[trigger] self.entries@[j]).0 != key,
                None => forall|j: int|
                    0 <= j < self.entries@.len() ==> (#[trigger] self.entries@[j]).0 != key,
            },
    {
        let n = self.entries.len();
        let mut i: usize = 0;
        while i < n
            invariant
                0 <= i <= n,
                n == self.entries@.len(),
                forall|j: int| 0 <= j < i ==> (#[trigger] self.entries@[j]).0 != key,
            decreases n - i,
        {
            if self.entries[i].0 == key {
                return Some(i);
            }
            i = i + 1;
        }
        None
    }

    /// Inserts a value under a type key, returning the prior value of that
    /// key, or hands the value back when any borrow is outstanding: a
    /// structural modification could invalidate a guard held by any
    /// borrower, of any type.
    pub fn try_insert(&mut self, key: u64, data: V) -> (r: Result<Option<V>, V>)
        requires
            old(self).wf(),
        ensures
            final(self).wf(),
            ({
                if old(self).borrow != 0 {
                    (r matches Err(d) && d == data) && *final(self) == *old(self)
                } else {
                    &&& final(self).borrow == 0
                    &&& final(self).lookup(key) matches Some(e) && e.value == data && e.state == 0
                    &&& forall|k: u64|
                        k != key ==> (#[trigger] final(self).lookup(k)) == old(self).lookup(k)
                    &&& match old(self).lookup(key) {
                        Some(e) => r == Ok::<Option<V>, V>(Some(e.value)),
                        None => r == Ok::<Option<V>, V>(None),
                    }
                }
            }),
    {
        if self.borrow != 0 {
            return Err(data);
        }
        match self.find(key) {
            Some(i) => {
                let ghost e0 = self.entries@;
                proof {
                    lemma_assoc_key_found(e0, i as int, key);
                    lemma_total_guards_zero(e0, i as int);
                }
                let mut swapped = (key, AppDataEntry { value: data, state: 0u64 });
                let slot = &mut self.entries[i];
                core::mem::swap(slot, &mut swapped);
                proof {
                    let e2 = self.entries@;
                    assert(e2 =~= e0.update(i as int, e2[i as int]));
                    lemma_total_guards_update(e0, i as int, e2[i as int]);
                    lemma_assoc_key_found(e2, i as int, key);
                    assert forall|k: u64| k != key implies assoc_key(e2, k) == assoc_key(
                        e0,
                        k,
                    ) by {
                        lemma_assoc_key_update_other(e0, i as int, e2[i as int], k);
                    }
                }
                Ok(Some(swapped.1.value))
            },
            None => {
                let ghost e0 = self.entries@;
                self.entries.push((key, AppDataEntry { value: data, state: 0 }));
                proof {
                    let e2 = self.entries@;
                    lemma_total_guards_push(e0, e2[e0.len() as int]);
                    lemma_assoc_key_found(e2, e0.len() as int, key);
                    lemma_assoc_key_none(e0, key);
                    assert forall|k: u64| k != key implies assoc_key(e2, k) == assoc_key(
                        e0,
                        k,
                    ) by {
                        lemma_assoc_key_push_other(e0, e2[e0.len() as int], k);
                    }
                }
                Ok(None)
            },
        }
    }

    /// Inserts a value under a type key, returning the prior value.  A
    /// caller must not hold any borrow: doing so is a programming fault,
    /// excluded here by precondition.
    pub fn insert(&mut self, key: u64, data: V) -> (r: Option<V>)
        requires
            old(self).wf(),
            old(self).borrow == 0,
        ensures
            final(self).wf(),
            final(self).borrow == 0,
            final(self).lookup(key) matches Some(e) && e.value == data && e.state == 0,
            forall|k: u64| k != key ==> (#[trigger] final(self).lookup(k)) == old(self).lookup(k),
            match old(self).lookup(key) {
                Some(e) => r == Some(e.value),
                None => r is None,
            },
    {
        match self.try_insert(key, data) {
            Ok(prior) => prior,
            Err(_) => unreached(),
        }
    }

    /// Borrows the entry under a type key, counting one more reader on the
    /// entry and one more guard on the store; `None` when the key is
    /// absent.  A caller must not hold the exclusive borrow of this entry.
    pub fn borrow(&mut self, key: u64) -> (r: Option<AppDataRef>)
        requires
            old(self).wf(),
            old(self).borrow < EXCLUSIVE_BORROW,
            match old(self).lookup(key) {
                Some(e) => e.state != EXCLUSIVE_BORROW && e.state < EXCLUSIVE_BORROW - 1,
                None => true,
            },
        ensures
            final(self).wf(),
            ({
                match old(self).lookup(key) {
                    None => r is None && *final(self) == *old(self),
                    Some(e) => {
                        &&& r matches Some(g) && g.key == key
                        &&& final(self).lookup(key) == Some(
                            AppDataEntry { value: e.value, state: (e.state + 1) as u64 },
                        )
                        &&& forall|k: u64|
                            k != key ==> (#[trigger] final(self).lookup(k)) == old(self).lookup(k)
                        &&& final(self).borrow == old(self).borrow + 1
                    },
                }
            }),
    {
        match self.find(key) {
            None => {
                proof {
                    lemma_assoc_key_none(self.entries@, key);
                }
                None
            },
            Some(i) => {
                let ghost e0 = self.entries@;
                proof {
                    lemma_assoc_key_found(e0, i as int, key);
                    lemma_total_guards_at_least(e0, i as int);
                }
                let state = self.entries[i].1.state;
                let slot = &mut self.entries[i];
                slot.1.state = state + 1;
                proof {
                    let e2 = self.entries@;
                    assert(e2 =~= e0.update(i as int, e2[i as int]));
                    lemma_total_guards_update(e0, i as int, e2[i as int]);
                    lemma_assoc_key_found(e2, i as int, key);
                    assert forall|k: u64| k != key implies assoc_key(e2, k) == assoc_key(
                        e0,
                        k,
                    ) by {
                        lemma_assoc_key_update_other(e0, i as int, e2[i as int], k);
                    }
                }
                self.borrow = self.borrow + 1;
                Some(AppDataRef { key })
            },
        }
    }

    /// Borrows the entry under a type key exclusively; `None` when the key
    /// is absent.  A caller must not hold any borrow of this entry.
    pub fn borrow_mut(&mut self, key: u64) -> (r: Option<AppDataRefMut>)
        requires
            old(self).wf(),
            old(self).borrow < EXCLUSIVE_BORROW,
            match old(self).lookup(key) {
                Some(e) => e.state == 0,
                None => true,
            },
        ensures
            final(self).wf(),
            ({
                match old(self).lookup(key) {
                    None => r is None && *final(self) == *old(self),
                    Some(e) => {
                        &&& r matches Some(g) && g.key == key
                        &&& final(self).lookup(key) == Some(
                            AppDataEntry { value: e.value, state: EXCLUSIVE_BORROW },
                        )
                        &&& forall|k: u64|
                            k != key ==> (#[trigger] final(self).lookup(k)) == old(self).lookup(k)
                        &&& final(self).borrow == old(self).borrow + 1
                    },
                }
            }),
    {
        match self.find(key) {
            None => {
                proof {
                    lemma_assoc_key_none(self.entries@, key);
                }
                None
            },
            Some(i) => {
                let ghost e0 = self.entries@;
                proof {
                    lemma_assoc_key_found(e0, i as int, key);
                    lemma_total_guards_at_least(e0, i as int);
                }
                let slot = &mut self.entries[i];
                slot.1.state = EXCLUSIVE_BORROW;
                proof {
                    let e2 = self.entries@;
                    assert(e2 =~= e0.update(i as int, e2[i as int]));
                    lemma_total_guards_update(e0, i as int, e2[i as int]);
                    lemma_assoc_key_found(e2, i as int, key);
                    assert forall|k: u64| k != key implies assoc_key(e2, k) == assoc_key(
                        e0,
                        k,
                    ) by {
                        lemma_assoc_key_update_other(e0, i as int, e2[i as int], k);
                    }
                }
                self.borrow = self.borrow + 1;
                Some(AppDataRefMut { key })
            },
        }
    }

    /// Reads the value behind a live shared borrow.
    pub fn get<'a>(&'a self, guard: &AppDataRef) -> (r: &'a V)
        requires
            self.wf(),
            self.lookup(guard.key) matches Some(e) && 0 < e.state < EXCLUSIVE_BORROW,
        ensures
            Some(*r) == match self.lookup(guard.key) {
                Some(e) => Some(e.value),
                None => None::<V>,
            },
    {
        match self.find(guard.key) {
            Some(i) => {
                proof {
                    lemma_assoc_key_found(self.entries@, i as int, guard.key);
                }
                &self.entries[i].1.value
            },
            None => {
                proof {
                    lemma_assoc_key_none(self.entries@, guard.key);
                }
                unreached()
            },
        }
    }

    /// Reads the value behind the live exclusive borrow.
    pub fn get_mut<'a>(&'a self, guard: &AppDataRefMut) -> (r: &'a V)
        requires
            self.wf(),
            self.lookup(guard.key) matches Some(e) && e.state == EXCLUSIVE_BORROW,
        ensures
            Some(*r) == match self.lookup(guard.key) {
                Some(e) => Some(e.value),
                None => None::<V>,
            },
    {
        match self.find(guard.key) {
            Some(i) => {
                proof {
                    lemma_assoc_key_found(self.entries@, i as int, guard.key);
                }
                &self.entries[i].1.value
            },
            None => {
                proof {
                    lemma_assoc_key_none(self.entries@, guard.key);
                }
                unreached()
            },
        }
    }

    /// Replaces the value behind the live exclusive borrow, returning the
    /// prior value.
    pub fn replace(&mut self, guard: &AppDataRefMut, data: V) -> (r: V)
        requires
            old(self).wf(),
            old(self).lookup(guard.key) matches Some(e) && e.state == EXCLUSIVE_BORROW,
        ensures
            final(self).wf(),
            final(self).borrow == old(self).borrow,
            ({
                let e = old(self).lookup(guard.key)->Some_0;
                &&& r == e.value
                &&& final(self).lookup(guard.key) == Some(
                    AppDataEntry { value: data, state: EXCLUSIVE_BORROW },
                )
                &&& forall|k: u64|
                    k != guard.key ==> (#[trigger] final(self).lookup(k)) == old(self).lookup(k)
            }),
    {
        match self.find(guard.key) {
            Some(i) => {
                let ghost e0 = self.entries@;
                proof {
                    lemma_assoc_key_found(e0, i as int, guard.key);
                }
                let mut swapped = (guard.key, AppDataEntry { value: data, state: EXCLUSIVE_BORROW });
                let slot = &mut self.entries[i];
                core::mem::swap(slot, &mut swapped);
                proof {
                    let e2 = self.entries@;
                    assert(e2 =~= e0.update(i as int, e2[i as int]));
                    lemma_total_guards_update(e0, i as int, e2[i as int]);
                    lemma_assoc_key_found(e2, i as int, guard.key);
                    assert forall|k: u64| k != guard.key implies assoc_key(e2, k) == assoc_key(
                        e0,
                        k,
                    ) by {
                        lemma_assoc_key_update_other(e0, i as int, e2[i as int], k);
                    }
                }
                swapped.1.value
            },
            None => {
                proof {
                    lemma_assoc_key_none(self.entries@, guard.key);
                }
                unreached()
            },
        }
    }

    /// Returns a shared borrow, freeing one reader on the entry and one
    /// guard on the store.
    pub fn release(&mut self, guard: AppDataRef)
        requires
            old(self).wf(),
            old(self).lookup(guard.key) matches Some(e) && 0 < e.state < EXCLUSIVE_BORROW,
        ensures
            final(self).wf(),
            ({
                let e = old(self).lookup(guard.key)->Some_0;
                &&& final(self).lookup(guard.key) == Some(
                    AppDataEntry { value: e.value, state: (e.state - 1) as u64 },
                )
                &&& forall|k: u64|
                    k != guard.key ==> (#[trigger] final(self).lookup(k)) == old(self).lookup(k)
                &&& final(self).borrow == old(self).borrow - 1
            }),
    {
        match self.find(guard.key) {
            Some(i) => {
                let ghost e0 = self.entries@;
                proof {
                    lemma_assoc_key_found(e0, i as int, guard.key);
                    lemma_total_guards_at_least(e0, i as int);
                }
                let state = self.entries[i].1.state;
                let slot = &mut self.entries[i];
                slot.1.state = state - 1;
                proof {
                    let e2 = self.entries@;
                    assert(e2 =~= e0.update(i as int, e2[i as int]));
                    lemma_total_guards_update(e0, i as int, e2[i as int]);
                    lemma_assoc_key_found(e2, i as int, guard.key);
                    assert forall|k: u64| k != guard.key implies assoc_key(e2, k) == assoc_key(
                        e0,
                        k,
                    ) by {
                        lemma_assoc_key_update_other(e0, i as int, e2[i as int], k);
                    }
                }
                self.borrow = self.borrow - 1;
            },
            None => {
                proof {
                    lemma_assoc_key_none(self.entries@, guard.key);
                }
                unreached()
            },
        }
    }

    /// Returns the exclusive borrow, freeing the entry and one guard on the
    /// store.
    pub fn release_mut(&mut self, guard: AppDataRefMut)
        requires
            old(self).wf(),
            old(self).lookup(guard.key) matches Some(e) && e.state == EXCLUSIVE_BORROW,
        ensures
            final(self).wf(),
            ({
                let e = old(self).lookup(guard.key)->Some_0;
                &&& final(self).lookup(guard.key) == Some(
                    AppDataEntry { value: e.value, state: 0u64 },
                )
                &&& forall|k: u64|
                    k != guard.key ==> (#[trigger] final(self).lookup(k)) == old(self).lookup(k)
                &&& final(self).borrow == old(self).borrow - 1
            }),
    {
        match self.find(guard.key) {
            Some(i) => {
                let ghost e0 = self.entries@;
                proof {
                    lemma_assoc_key_found(e0, i as int, guard.key);
                    lemma_total_guards_at_least(e0, i as int);
                }
                let slot = &mut self.entries[i];
                slot.1.state = 0;
                proof {
                    let e2 = self.entries@;
                    assert(e2 =~= e0.update(i as int, e2[i as int]));
                    lemma_total_guards_update(e0, i as int, e2[i as int]);
                    lemma_assoc_key_found(e2, i as int, guard.key);
                    assert forall|k: u64| k != guard.key implies assoc_key(e2, k) == assoc_key(
                        e0,
                        k,
                    ) by {
                        lemma_assoc_key_update_other(e0, i as int, e2[i as int], k);
                    }
                }
                self.borrow = self.borrow - 1;
            },
            None => {
                proof {
                    lemma_assoc_key_none(self.entries@, guard.key);
                }
                unreached()
            },
        }
    }

    /// Removes the entry under a type key, returning its value, or refuses
    /// with [`Error::BorrowConflict`] while any borrow — of any entry — is
    /// outstanding.
    pub fn try_remove(&mut self, key: u64) -> (r: Result<Option<V>, Error>)
        requires
            old(self).wf(),
        ensures
            final(self).wf(),
            ({
                if old(self).borrow != 0 {
                    r == Err::<Option<V>, Error>(Error::BorrowConflict) && *final(self) == *old(
                        self,
                    )
                } else {
                    &&& final(self).borrow == 0
                    &&& final(self).lookup(key) is None
                    &&& forall|k: u64|
                        k != key ==> (#[trigger] final(self).lookup(k)) == old(self).lookup(k)
                    &&& match old(self).lookup(key) {
                        Some(e) => r == Ok::<Option<V>, Error>(Some(e.value)),
                        None => r == Ok::<Option<V>, Error>(None),
                    }
                }
            }),
    {
        if self.borrow != 0 {
            return Err(Error::BorrowConflict);
        }
        match self.find(key) {
            None => {
                proof {
                    lemma_assoc_key_none(self.entries@, key);
                }
                Ok(None)
            },
            Some(i) => {
                let ghost e0 = self.entries@;
                proof {
                    lemma_assoc_key_found(e0, i as int, key);
                }
                let removed = self.entries.remove(i);
                proof {
                    let e2 = self.entries@;
                    lemma_total_guards_remove(e0, i as int);
                    assert forall|j: int| 0 <= j < e2.len() implies (#[trigger] e2[j]).0 != key by {
                        if j < i {
                            assert(e2[j] == e0[j]);
                        } else {
                            assert(e2[j] == e0[j + 1]);
                        }
                    }
                    lemma_assoc_key_none(e2, key);
                    assert forall|x: int, y: int| 0 <= x < y < e2.len() implies (
                    #[trigger] e2[x]).0 != (#[trigger] e2[y]).0 by {
                        let x0 = if x < i { x } else { x + 1 };
                        let y0 = if y < i { y } else { y + 1 };
                        assert(e2[x] == e0[x0] && e2[y] == e0[y0]);
                    }
                    assert forall|k: u64| k != key implies assoc_key(e2, k) == assoc_key(
                        e0,
                        k,
                    ) by {
                        lemma_assoc_key_remove_other(e0, i as int, k);
                    }
                }
                Ok(Some(removed.1.value))
            },
        }
    }

    /// Removes the entry under a type key, returning its value.  A caller
    /// must not hold any borrow: doing so is a programming fault, excluded
    /// here by precondition.
    pub fn remove(&mut self, key: u64) -> (r: Option<V>)
        requires
            old(self).wf(),
            old(self).borrow == 0,
        ensures
            final(self).wf(),
            final(self).borrow == 0,
            final(self).lookup(key) is None,
            forall|k: u64| k != key ==> (#[trigger] final(self).lookup(k)) == old(self).lookup(k),
            match old(self).lookup(key) {
                Some(e) => r == Some(e.value),
                None => r is None,
            },
    {
        match self.try_remove(key) {
            Ok(prior) => prior,
            Err(_) => unreached(),
        }
    }
}

} // verus!
