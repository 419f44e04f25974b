//! Handles to hosted objects and the engine-owned storage they point into.
//!
//! A hosted object lives in a heap slot owned by the engine's collector;
//! the host only ever holds an [`AnyUserData`]: a slot index with no
//! ownership of the storage.  Every typed access goes through the slot's
//! type tag (mismatch is reported before the stored value is touched) and
//! through the slot's borrow-tracked cell.

use vstd::prelude::*;

use crate::cell::UserDataCell;
use crate::error::Error;
use crate::lookup::{
    assoc_key, assoc_str, find_str_key, find_usize_key, lemma_assoc_key_found,
    lemma_assoc_key_none, lemma_assoc_key_push_other, lemma_assoc_key_update_other,
    lemma_assoc_str_found, lemma_assoc_str_none, lemma_assoc_str_push_other,
    lemma_assoc_str_remove_other, lemma_assoc_str_update_other, str_eq, str_has_prefix,
};
use crate::value::Value;

verus! {

/// User-value indices strictly below this bound live in the fast,
/// engine-native per-object storage; indices from this bound up overflow
/// into the attached table.
pub const USER_VALUE_MAXSLOT: usize = 8;

/// Largest admissible user-value index (indices are 1-based).
pub const MAX_USER_VALUE_INDEX: usize = 65535;

/// Kinds of metamethods that can be overridden.
///
/// The collection hook cannot be overridden: hosts are expected to rely on
/// their own destructors instead, so its name is reserved (see
/// [`MetaMethod::validate`]).
#[derive(Debug, Clone, Copy, PartialEq, Eq, Hash, Structural)]
pub enum MetaMethod {
    /// The `+` operator.
    Add,
    /// The `-` operator.
    Sub,
    /// The `*` operator.
    Mul,
    /// The `/` operator.
    Div,
    /// The `%` operator.
    Mod,
    /// The `^` operator.
    Pow,
    /// The unary minus (`-`) operator.
    Unm,
    /// The floor division (`//`) operator.
    IDiv,
    /// The bitwise AND (`&`) operator.
    BAnd,
    /// The bitwise OR (`|`) operator.
    BOr,
    /// The bitwise XOR (binary `~`) operator.
    BXor,
    /// The bitwise NOT (unary `~`) operator.
    BNot,
    /// The bitwise left shift (`<<`) operator.
    Shl,
    /// The bitwise right shift (`>>`) operator.
    Shr,
    /// The string concatenation operator `..`.
    Concat,
    /// The length operator `#`.
    Len,
    /// The `==` operator.
    Eq,
    /// The `<` operator.
    Lt,
    /// The `<=` operator.
    Le,
    /// Index access `obj[key]`.
    Index,
    /// Index write access `obj[key] = value`.
    NewIndex,
    /// The call "operator" `obj(arg1, arg2, ...)`.
    Call,
    /// The string-conversion metamethod.
    ToString,
    /// The pairs-iteration metamethod.
    Pairs,
    /// Executed when a to-be-closed variable goes out of scope.
    Close,
    /// The type-name metafield consulted by string conversion.
    Type,
}

/// The metamethod name under which the engine dispatches each kind.
pub open spec fn meta_method_name(m: MetaMethod) -> Seq<char> {
    match m {
        MetaMethod::Add => "__add"@,
        MetaMethod::Sub => "__sub"@,
        MetaMethod::Mul => "__mul"@,
        MetaMethod::Div => "__div"@,
        MetaMethod::Mod => "__mod"@,
        MetaMethod::Pow => "__pow"@,
        MetaMethod::Unm => "__unm"@,
        MetaMethod::IDiv => "__idiv"@,
        MetaMethod::BAnd => "__band"@,
        MetaMethod::BOr => "__bor"@,
        MetaMethod::BXor => "__bxor"@,
        MetaMethod::BNot => "__bnot"@,
        MetaMethod::Shl => "__shl"@,
        MetaMethod::Shr => "__shr"@,
        MetaMethod::Concat => "__concat"@,
        MetaMethod::Len => "__len"@,
        MetaMethod::Eq => "__eq"@,
        MetaMethod::Lt => "__lt"@,
        MetaMethod::Le => "__le"@,
        MetaMethod::Index => "__index"@,
        MetaMethod::NewIndex => "__newindex"@,
        MetaMethod::Call => "__call"@,
        MetaMethod::ToString => "__tostring"@,
        MetaMethod::Pairs => "__pairs"@,
        MetaMethod::Close => "__close"@,
        MetaMethod::Type => "__name"@,
    }
}

/// A name the registry must refuse: the collection hook, the engine's
/// protected metatable field, and the prefix under which the bridge caches
/// its own dispatch values.
pub open spec fn is_reserved_meta_name(s: Seq<char>) -> bool {
    s == "__gc"@ || s == "__metatable"@ || (s.len() >= "__mlua"@.len() && s.subrange(
        0,
        "__mlua"@.len() as int,
    ) == "__mlua"@)
}

impl MetaMethod {
    /// Returns the engine-side metamethod name, prefixed by two underscores.
    pub fn name(self) -> (r: &'static str)
        ensures
            r@ == meta_method_name(self),
    {
        match self {
            MetaMethod::Add => "__add",
            MetaMethod::Sub => "__sub",
            MetaMethod::Mul => "__mul",
            MetaMethod::Div => "__div",
            MetaMethod::Mod => "__mod",
            MetaMethod::Pow => "__pow",
            MetaMethod::Unm => "__unm",
            MetaMethod::IDiv => "__idiv",
            MetaMethod::BAnd => "__band",
            MetaMethod::BOr => "__bor",
            MetaMethod::BXor => "__bxor",
            MetaMethod::BNot => "__bnot",
            MetaMethod::Shl => "__shl",
            MetaMethod::Shr => "__shr",
            MetaMethod::Concat => "__concat",
            MetaMethod::Len => "__len",
            MetaMethod::Eq => "__eq",
            MetaMethod::Lt => "__lt",
            MetaMethod::Le => "__le",
            MetaMethod::Index => "__index",
            MetaMethod::NewIndex => "__newindex",
            MetaMethod::Call => "__call",
            MetaMethod::ToString => "__tostring",
            MetaMethod::Pairs => "__pairs",
            MetaMethod::Close => "__close",
            MetaMethod::Type => "__name",
        }
    }

    /// Accepts a metamethod name for registration or metatable access, or
    /// refuses a reserved one with [`Error::MetaMethodRestricted`] carrying
    /// the offending name.
    pub fn validate<'a>(name: &'a str) -> (r: Result<&'a str, Error>)
        ensures
            match r {
                Ok(n) => !is_reserved_meta_name(name@) && n@ == name@,
                Err(e) => is_reserved_meta_name(name@) && (e matches Error::MetaMethodRestricted(s)
                    && s@ == name@),
            },
    {
        if str_eq(name, "__gc") || str_eq(name, "__metatable") || str_has_prefix(name, "__mlua") {
            Err(Error::MetaMethodRestricted(name.to_owned()))
        } else {
            Ok(name)
        }
    }
}

/// Handle to a hosted object: an index into engine-owned storage.
///
/// The handle never owns the object's memory — the engine's collector does —
/// so every operation takes the [`Heap`] it points into.  Two handles are
/// equal exactly when they reference the identical heap slot.
#[derive(Debug, Clone, Copy, PartialEq, Eq, Structural)]
pub struct AnyUserData {
    /// The heap-slot index.
    pub slot: usize,
}

/// One engine-owned storage slot: the hosted object's borrow-tracked cell,
/// its type tag, its user values and its dispatch metatable.
pub struct Slot<T> {
    /// Identifies the concrete host type stored here; checked before any
    /// typed access.
    pub tag: u64,
    /// The borrow-tracked storage of the hosted object.
    pub cell: UserDataCell<T>,
    /// User values at indices `1..USER_VALUE_MAXSLOT`: engine-native fast
    /// storage, one entry per index.
    pub fast_values: Vec<(usize, Value)>,
    /// User values at indices `USER_VALUE_MAXSLOT..`: the attached overflow
    /// table, keyed by index.
    pub extra_values: Vec<(usize, Value)>,
    /// Name-addressed user values; these always use the table form.
    pub named_values: Vec<(String, Value)>,
    /// The dispatch metatable entries, keyed by metamethod name.
    pub meta: Vec<(String, Value)>,
    /// Identity of the compiled dispatch table this slot was created with;
    /// two slots share logical equality support only when these agree.
    pub registry_id: u64,
}

impl<T> Slot<T> {
    /// Structural soundness of a slot: the fast region holds exactly the
    /// indices `1..USER_VALUE_MAXSLOT` in order, and every keyed region has
    /// unique keys.
    pub open spec fn wf(self) -> bool {
        &&& (self.cell.is_destructed() ==> self.cell.is_unborrowed())
        &&& self.fast_values@.len() == USER_VALUE_MAXSLOT - 1
        &&& forall|i: int|
            0 <= i < self.fast_values@.len() ==> (#[trigger] self.fast_values@[i]).0 == i + 1
        &&& forall|i: int, j: int|
            0 <= i < j < self.extra_values@.len() ==> (#[trigger] self.extra_values@[i]).0 != (
            #[trigger] self.extra_values@[j]).0
        &&& forall|i: int|
            0 <= i < self.extra_values@.len() ==> (#[trigger] self.extra_values@[i]).0
                >= USER_VALUE_MAXSLOT
        &&& forall|i: int, j: int|
            0 <= i < j < self.named_values@.len() ==> (#[trigger] self.named_values@[i]).0@ != (
            #[trigger] self.named_values@[j]).0@
        &&& forall|i: int, j: int|
            0 <= i < j < self.meta@.len() ==> (#[trigger] self.meta@[i]).0@ != (
            #[trigger] self.meta@[j]).0@
    }

    /// The user value stored at index `n`, [`Value::Nil`] when unset.
    /// Indices below [`USER_VALUE_MAXSLOT`] read the fast region, the rest
    /// read the overflow table.
    pub open spec fn nth_user_value(self, n: usize) -> Value {
        if 1 <= n < USER_VALUE_MAXSLOT {
            self.fast_values@[n - 1].1
        } else {
            match assoc_key(self.extra_values@, n) {
                Some(v) => v,
                None => Value::Nil,
            }
        }
    }

    /// The user value stored under `name`, [`Value::Nil`] when unset.
    pub open spec fn named_user_value(self, name: Seq<char>) -> Value {
        match assoc_str(self.named_values@, name) {
            Some(v) => v,
            None => Value::Nil,
        }
    }

    /// The metatable entry under `name`, if any.
    pub open spec fn meta_value(self, name: Seq<char>) -> Option<Value> {
        assoc_str(self.meta@, name)
    }
}

/// The same slot with another cell state; everything else unchanged.
pub open spec fn with_cell<T>(s: Slot<T>, c: UserDataCell<T>) -> Slot<T> {
    Slot {
        tag: s.tag,
        cell: c,
        fast_values: s.fast_values,
        extra_values: s.extra_values,
        named_values: s.named_values,
        meta: s.meta,
        registry_id: s.registry_id,
    }
}

/// The engine-owned arena of hosted objects.
///
/// The engine's collector is the sole owner of this storage; handles are
/// back-references into it.  A destructed slot keeps its place — a handle
/// never dangles — but rejects every further access.
pub struct Heap<T> {
    /// The slots, in creation order.
    pub slots: Vec<Slot<T>>,
}

/// A live shared borrow of a hosted object, to be returned through
/// [`Heap::release`].
#[derive(Debug)]
pub struct UserDataRef {
    /// The borrowed slot.
    pub slot: usize,
}

/// The live exclusive borrow of a hosted object, to be returned through
/// [`Heap::release_mut`].
#[derive(Debug)]
pub struct UserDataRefMut {
    /// The borrowed slot.
    pub slot: usize,
}

impl<T> Heap<T> {
    /// Every slot is structurally sound.
    pub open spec fn wf(self) -> bool {
        forall|i: int| 0 <= i < self.slots@.len() ==> (#[trigger] self.slots@[i]).wf()
    }

    /// The handle points at a slot of this heap.
    pub open spec fn valid_handle(self, u: AnyUserData) -> bool {
        u.slot < self.slots@.len()
    }

    /// The slot a handle points at.
    pub open spec fn slot_of(self, u: AnyUserData) -> Slot<T> {
        self.slots@[u.slot as int]
    }

    /// An empty heap.
    pub fn new() -> (h: Heap<T>)
        ensures
            h.slots@.len() == 0,
            h.wf(),
    {
        Heap { slots: Vec::new() }
    }

    /// Hosts a new object: appends a slot holding `value` under type tag
    /// `tag`, with the given dispatch metatable, no user values and no
    /// outstanding borrow, and hands back its handle.
    pub fn create(
        &mut self,
        tag: u64,
        value: T,
        meta: Vec<(String, Value)>,
        registry_id: u64,
    ) -> (u: AnyUserData)
        requires
            old(self).wf(),
            forall|i: int, j: int|
                0 <= i < j < meta@.len() ==> (#[trigger] meta@[i]).0@ != (#[trigger] meta@[j]).0@,
        ensures
            final(self).wf(),
            final(self).slots@.len() == old(self).slots@.len() + 1,
            forall|i: int|
                0 <= i < old(self).slots@.len() ==> final(self).slots@[i] == old(self).slots@[i],
            u.slot == old(self).slots@.len(),
            final(self).valid_handle(u),
            ({
                let s = final(self).slot_of(u);
                &&& s.tag == tag
                &&& s.cell == (UserDataCell { value: Some(value), borrow: 0u64 })
                &&& s.extra_values@.len() == 0
                &&& s.named_values@.len() == 0
                &&& s.meta == meta
                &&& s.registry_id == registry_id
                &&& forall|n: usize| 1 <= n < USER_VALUE_MAXSLOT ==> s.nth_user_value(n) == Value::Nil
            }),
    {
        let mut fast_values: Vec<(usize, Value)> = Vec::new();
        let mut n: usize = 1;
        while n < USER_VALUE_MAXSLOT
            invariant
                1 <= n <= USER_VALUE_MAXSLOT,
                fast_values@.len() == n - 1,
                forall|i: int|
                    0 <= i < fast_values@.len() ==> (#[trigger] fast_values@[i]) == (
                    (i + 1) as usize,
                    Value::Nil,
                ),
            decreases USER_VALUE_MAXSLOT - n,
        {
            fast_values.push((n, Value::Nil));
            n = n + 1;
        }
        let slot = Slot {
            tag,
            cell: UserDataCell::new(value),
            fast_values,
            extra_values: Vec::new(),
            named_values: Vec::new(),
            meta,
            registry_id,
        };
        let u = AnyUserData { slot: self.slots.len() };
        self.slots.push(slot);
        u
    }

    /// Reads the hosted value of a slot under a live shared borrow.
    pub fn read<'a>(&'a self, guard: &UserDataRef) -> (r: &'a T)
        requires
            self.wf(),
            self.valid_handle(AnyUserData { slot: guard.slot }),
            self.slot_of(AnyUserData { slot: guard.slot }).cell.has_shared(),
        ensures
            Some(*r) == self.slot_of(AnyUserData { slot: guard.slot }).cell.value,
    {
        self.slots[guard.slot].cell.get()
    }

    /// Returns a shared borrow, decrementing the slot's reader count.
    pub fn release(&mut self, guard: UserDataRef)
        requires
            old(self).wf(),
            old(self).valid_handle(AnyUserData { slot: guard.slot }),
            old(self).slot_of(AnyUserData { slot: guard.slot }).cell.has_shared(),
        ensures
            final(self).wf(),
            final(self).slots@.len() == old(self).slots@.len(),
            forall|i: int|
                0 <= i < old(self).slots@.len() && i != guard.slot ==> final(self).slots@[i] == old(
                    self,
                ).slots@[i],
            ({
                let s = old(self).slots@[guard.slot as int];
                final(self).slots@[guard.slot as int] == with_cell(
                    s,
                    UserDataCell { value: s.cell.value, borrow: (s.cell.borrow - 1) as u64 },
                )
            }),
    {
        let slot = &mut self.slots[guard.slot];
        slot.cell.release_shared();
    }

    /// Reads the hosted value of a slot under the live exclusive borrow.
    pub fn read_mut<'a>(&'a self, guard: &UserDataRefMut) -> (r: &'a T)
        requires
            self.wf(),
            self.valid_handle(AnyUserData { slot: guard.slot }),
            self.slot_of(AnyUserData { slot: guard.slot }).cell.has_exclusive(),
        ensures
            Some(*r) == self.slot_of(AnyUserData { slot: guard.slot }).cell.value,
    {
        self.slots[guard.slot].cell.get()
    }

    /// Replaces the hosted value of a slot under the live exclusive borrow,
    /// returning the prior value.
    pub fn write(&mut self, guard: &UserDataRefMut, value: T) -> (r: T)
        requires
            old(self).wf(),
            old(self).valid_handle(AnyUserData { slot: guard.slot }),
            old(self).slot_of(AnyUserData { slot: guard.slot }).cell.has_exclusive(),
        ensures
            final(self).wf(),
            final(self).slots@.len() == old(self).slots@.len(),
            forall|i: int|
                0 <= i < old(self).slots@.len() && i != guard.slot ==> final(self).slots@[i] == old(
                    self,
                ).slots@[i],
            ({
                let s = old(self).slots@[guard.slot as int];
                &&& Some(r) == s.cell.value
                &&& final(self).slots@[guard.slot as int] == with_cell(
                    s,
                    UserDataCell { value: Some(value), borrow: s.cell.borrow },
                )
            }),
    {
        let slot = &mut self.slots[guard.slot];
        slot.cell.replace(value)
    }

    /// Returns the exclusive borrow, freeing the slot for other borrowers.
    pub fn release_mut(&mut self, guard: UserDataRefMut)
        requires
            old(self).wf(),
            old(self).valid_handle(AnyUserData { slot: guard.slot }),
            old(self).slot_of(AnyUserData { slot: guard.slot }).cell.has_exclusive(),
        ensures
            final(self).wf(),
            final(self).slots@.len() == old(self).slots@.len(),
            forall|i: int|
                0 <= i < old(self).slots@.len() && i != guard.slot ==> final(self).slots@[i] == old(
                    self,
                ).slots@[i],
            ({
                let s = old(self).slots@[guard.slot as int];
                final(self).slots@[guard.slot as int] == with_cell(
                    s,
                    UserDataCell { value: s.cell.value, borrow: 0u64 },
                )
            }),
    {
        let slot = &mut self.slots[guard.slot];
        slot.cell.release_exclusive();
    }
}

impl AnyUserData {
    /// Hosts `data` in the heap as a fresh object with an empty dispatch
    /// metatable, returning its handle.
    pub fn wrap<T>(heap: &mut Heap<T>, tag: u64, data: T) -> (u: AnyUserData)
        requires
            old(heap).wf(),
        ensures
            final(heap).wf(),
            final(heap).slots@.len() == old(heap).slots@.len() + 1,
            forall|i: int|
                0 <= i < old(heap).slots@.len() ==> final(heap).slots@[i] == old(heap).slots@[i],
            u.slot == old(heap).slots@.len(),
            final(heap).valid_handle(u),
            final(heap).slot_of(u).tag == tag,
            final(heap).slot_of(u).cell == (UserDataCell { value: Some(data), borrow: 0u64 }),
            final(heap).slot_of(u).meta@.len() == 0,
    {
        heap.create(tag, data, Vec::new(), 0)
    }

    /// Checks whether the hosted object behind this handle is intact and of
    /// the concrete type identified by `tag`.
    pub fn is<T>(&self, heap: &Heap<T>, tag: u64) -> (r: bool)
        requires
            heap.valid_handle(*self),
        ensures
            r == (!heap.slot_of(*self).cell.is_destructed() && heap.slot_of(*self).tag == tag),
    {
        let slot = &heap.slots[self.slot];
        slot.cell.value.is_some() && slot.tag == tag
    }

    /// Borrows the hosted object immutably if it is intact, of the type
    /// identified by `tag`, and not exclusively borrowed.
    ///
    /// The type check comes before any attempt to touch the stored value;
    /// a failure leaves the heap exactly as it was.
    pub fn borrow<T>(&self, heap: &mut Heap<T>, tag: u64) -> (r: Result<UserDataRef, Error>)
        requires
            old(heap).wf(),
            old(heap).valid_handle(*self),
        ensures
            final(heap).wf(),
            final(heap).slots@.len() == old(heap).slots@.len(),
            forall|i: int|
                0 <= i < old(heap).slots@.len() && i != self.slot ==> final(heap).slots@[i] == old(
                    heap,
                ).slots@[i],
            ({
                let s = old(heap).slot_of(*self);
                let s2 = final(heap).slot_of(*self);
                if s.cell.is_destructed() {
                    r == Err::<UserDataRef, Error>(Error::Destructed) && s2 == s
                } else if s.tag != tag {
                    r == Err::<UserDataRef, Error>(Error::TypeMismatch) && s2 == s
                } else {
                    match s.cell.spec_try_borrow() {
                        Ok(c) => (r matches Ok(g) && g.slot == self.slot) && s2 == with_cell(s, c),
                        Err(e) => r == Err::<UserDataRef, Error>(e) && s2 == s,
                    }
                }
            }),
    {
        if heap.slots[self.slot].cell.value.is_none() {
            return Err(Error::Destructed);
        }
        if heap.slots[self.slot].tag != tag {
            return Err(Error::TypeMismatch);
        }
        let slot = &mut heap.slots[self.slot];
        match slot.cell.try_borrow() {
            Ok(()) => Ok(UserDataRef { slot: self.slot }),
            Err(e) => Err(e),
        }
    }

    /// Borrows the hosted object exclusively if it is intact, of the type
    /// identified by `tag`, and not borrowed at all.
    pub fn borrow_mut<T>(&self, heap: &mut Heap<T>, tag: u64) -> (r: Result<UserDataRefMut, Error>)
        requires
            old(heap).wf(),
            old(heap).valid_handle(*self),
        ensures
            final(heap).wf(),
            final(heap).slots@.len() == old(heap).slots@.len(),
            forall|i: int|
                0 <= i < old(heap).slots@.len() && i != self.slot ==> final(heap).slots@[i] == old(
                    heap,
                ).slots@[i],
            ({
                let s = old(heap).slot_of(*self);
                let s2 = final(heap).slot_of(*self);
                if s.cell.is_destructed() {
                    r == Err::<UserDataRefMut, Error>(Error::Destructed) && s2 == s
                } else if s.tag != tag {
                    r == Err::<UserDataRefMut, Error>(Error::TypeMismatch) && s2 == s
                } else {
                    match s.cell.spec_try_borrow_mut() {
                        Ok(c) => (r matches Ok(g) && g.slot == self.slot) && s2 == with_cell(s, c),
                        Err(e) => r == Err::<UserDataRefMut, Error>(e) && s2 == s,
                    }
                }
            }),
    {
        if heap.slots[self.slot].cell.value.is_none() {
            return Err(Error::Destructed);
        }
        if heap.slots[self.slot].tag != tag {
            return Err(Error::TypeMismatch);
        }
        let slot = &mut heap.slots[self.slot];
        match slot.cell.try_borrow_mut() {
            Ok(()) => Ok(UserDataRefMut { slot: self.slot }),
            Err(e) => Err(e),
        }
    }

    /// Takes the hosted value out of the slot.
    ///
    /// Requires first acquiring the exclusive borrow — so no live reference
    /// survives the extraction — then removes the value and demotes the slot
    /// to the permanent destructed state that rejects all further access.
    /// The associated user values are kept unchanged for the collector.
    pub fn take<T>(&self, heap: &mut Heap<T>, tag: u64) -> (r: Result<T, Error>)
        requires
            old(heap).wf(),
            old(heap).valid_handle(*self),
        ensures
            final(heap).wf(),
            final(heap).slots@.len() == old(heap).slots@.len(),
            forall|i: int|
                0 <= i < old(heap).slots@.len() && i != self.slot ==> final(heap).slots@[i] == old(
                    heap,
                ).slots@[i],
            ({
                let s = old(heap).slot_of(*self);
                let s2 = final(heap).slot_of(*self);
                if s.cell.is_destructed() {
                    r == Err::<T, Error>(Error::Destructed) && s2 == s
                } else if s.tag != tag {
                    r == Err::<T, Error>(Error::TypeMismatch) && s2 == s
                } else if !s.cell.is_unborrowed() {
                    r == Err::<T, Error>(Error::BorrowConflict) && s2 == s
                } else {
                    (r matches Ok(v) && Some(v) == s.cell.value) && s2 == with_cell(
                        s,
                        UserDataCell { value: None, borrow: 0u64 },
                    )
                }
            }),
    {
        if heap.slots[self.slot].cell.value.is_none() {
            return Err(Error::Destructed);
        }
        if heap.slots[self.slot].tag != tag {
            return Err(Error::TypeMismatch);
        }
        let slot = &mut heap.slots[self.slot];
        slot.cell.take()
    }

    /// Sets the `n`th user value of this object.
    ///
    /// `n` is 1-based and at most [`MAX_USER_VALUE_INDEX`].  Indices below
    /// [`USER_VALUE_MAXSLOT`] land in the fast engine-native storage, the
    /// rest overflow transparently into the attached table; either way the
    /// value is retrievable under exactly the index it was set at.
    pub fn set_nth_user_value<T>(&self, heap: &mut Heap<T>, n: usize, v: Value) -> (r: Result<
        (),
        Error,
    >)
        requires
            old(heap).wf(),
            old(heap).valid_handle(*self),
        ensures
            final(heap).wf(),
            final(heap).slots@.len() == old(heap).slots@.len(),
            forall|i: int|
                0 <= i < old(heap).slots@.len() && i != self.slot ==> final(heap).slots@[i] == old(
                    heap,
                ).slots@[i],
            ({
                let s = old(heap).slot_of(*self);
                let s2 = final(heap).slot_of(*self);
                if n < 1 || n > MAX_USER_VALUE_INDEX {
                    r == Err::<(), Error>(Error::UserValueIndexOutOfRange) && s2 == s
                } else if s.cell.is_destructed() {
                    r == Err::<(), Error>(Error::Destructed) && s2 == s
                } else {
                    &&& r is Ok
                    &&& s2.nth_user_value(n) == v
                    &&& forall|m: usize|
                        1 <= m <= MAX_USER_VALUE_INDEX && m != n ==> (
                        #[trigger] s2.nth_user_value(m)) == s.nth_user_value(m)
                    &&& s2.tag == s.tag
                    &&& s2.cell == s.cell
                    &&& s2.named_values == s.named_values
                    &&& s2.meta == s.meta
                    &&& s2.registry_id == s.registry_id
                }
            }),
    {
        if n < 1 || n > MAX_USER_VALUE_INDEX {
            return Err(Error::UserValueIndexOutOfRange);
        }
        if heap.slots[self.slot].cell.value.is_none() {
            return Err(Error::Destructed);
        }
        let slot = &mut heap.slots[self.slot];
        if n < USER_VALUE_MAXSLOT {
            slot.fast_values[n - 1] = (n, v);
            Ok(())
        } else {
            match find_usize_key(&slot.extra_values, n) {
                Some(i) => {
                    let ghost e0 = slot.extra_values@;
                    slot.extra_values[i] = (n, v);
                    proof {
                        let e2 = slot.extra_values@;
                        lemma_assoc_key_found(e2, i as int, n);
                        assert forall|m: usize|
                            1 <= m <= MAX_USER_VALUE_INDEX && m != n && m
                                >= USER_VALUE_MAXSLOT implies assoc_key(e2, m) == assoc_key(
                            e0,
                            m,
                        ) by {
                            lemma_assoc_key_update_other(e0, i as int, (n, v), m);
                        }
                    }
                    Ok(())
                },
                None => {
                    let ghost e0 = slot.extra_values@;
                    slot.extra_values.push((n, v));
                    proof {
                        let e2 = slot.extra_values@;
                        lemma_assoc_key_found(e2, e0.len() as int, n);
                        assert forall|m: usize|
                            1 <= m <= MAX_USER_VALUE_INDEX && m != n && m
                                >= USER_VALUE_MAXSLOT implies assoc_key(e2, m) == assoc_key(
                            e0,
                            m,
                        ) by {
                            lemma_assoc_key_push_other(e0, (n, v), m);
                        }
                    }
                    Ok(())
                },
            }
        }
    }

    /// Reads the `n`th user value of this object; [`Value::Nil`] when that
    /// index was never set.
    pub fn nth_user_value<T>(&self, heap: &Heap<T>, n: usize) -> (r: Result<Value, Error>)
        requires
            heap.wf(),
            heap.valid_handle(*self),
        ensures
            ({
                let s = heap.slot_of(*self);
                if n < 1 || n > MAX_USER_VALUE_INDEX {
                    r == Err::<Value, Error>(Error::UserValueIndexOutOfRange)
                } else if s.cell.is_destructed() {
                    r == Err::<Value, Error>(Error::Destructed)
                } else {
                    r matches Ok(v) && v@ == s.nth_user_value(n)@
                }
            }),
    {
        if n < 1 || n > MAX_USER_VALUE_INDEX {
            return Err(Error::UserValueIndexOutOfRange);
        }
        if heap.slots[self.slot].cell.value.is_none() {
            return Err(Error::Destructed);
        }
        let slot = &heap.slots[self.slot];
        if n < USER_VALUE_MAXSLOT {
            Ok(slot.fast_values[n - 1].1.deep_copy())
        } else {
            match find_usize_key(&slot.extra_values, n) {
                Some(i) => {
                    proof {
                        lemma_assoc_key_found(slot.extra_values@, i as int, n);
                    }
                    Ok(slot.extra_values[i].1.deep_copy())
                },
                None => {
                    proof {
                        lemma_assoc_key_none(slot.extra_values@, n);
                    }
                    Ok(Value::Nil)
                },
            }
        }
    }

    /// Sets the first user value; the same as `set_nth_user_value` with `n`
    /// set to 1.
    pub fn set_user_value<T>(&self, heap: &mut Heap<T>, v: Value) -> (r: Result<(), Error>)
        requires
            old(heap).wf(),
            old(heap).valid_handle(*self),
        ensures
            final(heap).wf(),
            final(heap).slots@.len() == old(heap).slots@.len(),
            forall|i: int|
                0 <= i < old(heap).slots@.len() && i != self.slot ==> final(heap).slots@[i] == old(
                    heap,
                ).slots@[i],
            ({
                let s = old(heap).slot_of(*self);
                let s2 = final(heap).slot_of(*self);
                if s.cell.is_destructed() {
                    r == Err::<(), Error>(Error::Destructed) && s2 == s
                } else {
                    &&& r is Ok
                    &&& s2.nth_user_value(1) == v
                    &&& forall|m: usize|
                        1 <= m <= MAX_USER_VALUE_INDEX && m != 1 ==> (
                        #[trigger] s2.nth_user_value(m)) == s.nth_user_value(m)
                    &&& s2.tag == s.tag
                    &&& s2.cell == s.cell
                    &&& s2.named_values == s.named_values
                    &&& s2.meta == s.meta
                    &&& s2.registry_id == s.registry_id
                }
            }),
    {
        self.set_nth_user_value(heap, 1, v)
    }

    /// Reads the first user value; the same as `nth_user_value` with `n`
    /// set to 1.
    pub fn user_value<T>(&self, heap: &Heap<T>) -> (r: Result<Value, Error>)
        requires
            heap.wf(),
            heap.valid_handle(*self),
        ensures
            ({
                let s = heap.slot_of(*self);
                if s.cell.is_destructed() {
                    r == Err::<Value, Error>(Error::Destructed)
                } else {
                    r matches Ok(v) && v@ == s.nth_user_value(1)@
                }
            }),
    {
        self.nth_user_value(heap, 1)
    }

    /// Reads the first user value; kept for callers of the older name.
    pub fn get_user_value<T>(&self, heap: &Heap<T>) -> (r: Result<Value, Error>)
        requires
            heap.wf(),
            heap.valid_handle(*self),
        ensures
            ({
                let s = heap.slot_of(*self);
                if s.cell.is_destructed() {
                    r == Err::<Value, Error>(Error::Destructed)
                } else {
                    r matches Ok(v) && v@ == s.nth_user_value(1)@
                }
            }),
    {
        self.nth_user_value(heap, 1)
    }

    /// Reads the `n`th user value; kept for callers of the older name.
    pub fn get_nth_user_value<T>(&self, heap: &Heap<T>, n: usize) -> (r: Result<Value, Error>)
        requires
            heap.wf(),
            heap.valid_handle(*self),
        ensures
            ({
                let s = heap.slot_of(*self);
                if n < 1 || n > MAX_USER_VALUE_INDEX {
                    r == Err::<Value, Error>(Error::UserValueIndexOutOfRange)
                } else if s.cell.is_destructed() {
                    r == Err::<Value, Error>(Error::Destructed)
                } else {
                    r matches Ok(v) && v@ == s.nth_user_value(n)@
                }
            }),
    {
        self.nth_user_value(heap, n)
    }

    /// Sets the user value addressed by `name`; name-addressed values
    /// always use the attached table.
    pub fn set_named_user_value<T>(&self, heap: &mut Heap<T>, name: &str, v: Value) -> (r: Result<
        (),
        Error,
    >)
        requires
            old(heap).wf(),
            old(heap).valid_handle(*self),
        ensures
            final(heap).wf(),
            final(heap).slots@.len() == old(heap).slots@.len(),
            forall|i: int|
                0 <= i < old(heap).slots@.len() && i != self.slot ==> final(heap).slots@[i] == old(
                    heap,
                ).slots@[i],
            ({
                let s = old(heap).slot_of(*self);
                let s2 = final(heap).slot_of(*self);
                if s.cell.is_destructed() {
                    r == Err::<(), Error>(Error::Destructed) && s2 == s
                } else {
                    &&& r is Ok
                    &&& s2.named_user_value(name@) == v
                    &&& forall|m: Seq<char>|
                        m != name@ ==> (#[trigger] s2.named_user_value(m)) == s.named_user_value(m)
                    &&& s2.tag == s.tag
                    &&& s2.cell == s.cell
                    &&& s2.fast_values == s.fast_values
                    &&& s2.extra_values == s.extra_values
                    &&& s2.meta == s.meta
                    &&& s2.registry_id == s.registry_id
                }
            }),
    {
        if heap.slots[self.slot].cell.value.is_none() {
            return Err(Error::Destructed);
        }
        let slot = &mut heap.slots[self.slot];
        match find_str_key(&slot.named_values, name) {
            Some(i) => {
                let ghost e0 = slot.named_values@;
                slot.named_values[i] = (name.to_owned(), v);
                proof {
                    let e2 = slot.named_values@;
                    lemma_assoc_str_found(e2, i as int, name@);
                    assert forall|m: Seq<char>| m != name@ implies assoc_str(e2, m) == assoc_str(
                        e0,
                        m,
                    ) by {
                        lemma_assoc_str_update_other(e0, i as int, e2[i as int], m);
                    }
                }
                Ok(())
            },
            None => {
                let ghost e0 = slot.named_values@;
                slot.named_values.push((name.to_owned(), v));
                proof {
                    let e2 = slot.named_values@;
                    lemma_assoc_str_found(e2, e0.len() as int, name@);
                    assert forall|m: Seq<char>| m != name@ implies assoc_str(e2, m) == assoc_str(
                        e0,
                        m,
                    ) by {
                        lemma_assoc_str_push_other(e0, e2[e0.len() as int], m);
                    }
                }
                Ok(())
            },
        }
    }

    /// Reads the user value addressed by `name`; [`Value::Nil`] when that
    /// name was never set.
    pub fn named_user_value<T>(&self, heap: &Heap<T>, name: &str) -> (r: Result<Value, Error>)
        requires
            heap.wf(),
            heap.valid_handle(*self),
        ensures
            ({
                let s = heap.slot_of(*self);
                if s.cell.is_destructed() {
                    r == Err::<Value, Error>(Error::Destructed)
                } else {
                    r matches Ok(v) && v@ == s.named_user_value(name@)@
                }
            }),
    {
        if heap.slots[self.slot].cell.value.is_none() {
            return Err(Error::Destructed);
        }
        let slot = &heap.slots[self.slot];
        match find_str_key(&slot.named_values, name) {
            Some(i) => {
                proof {
                    lemma_assoc_str_found(slot.named_values@, i as int, name@);
                }
                Ok(slot.named_values[i].1.deep_copy())
            },
            None => {
                proof {
                    lemma_assoc_str_none(slot.named_values@, name@);
                }
                Ok(Value::Nil)
            },
        }
    }

    /// Reads the user value addressed by `name`; kept for callers of the
    /// older name.
    pub fn get_named_user_value<T>(&self, heap: &Heap<T>, name: &str) -> (r: Result<Value, Error>)
        requires
            heap.wf(),
            heap.valid_handle(*self),
        ensures
            ({
                let s = heap.slot_of(*self);
                if s.cell.is_destructed() {
                    r == Err::<Value, Error>(Error::Destructed)
                } else {
                    r matches Ok(v) && v@ == s.named_user_value(name@)@
                }
            }),
    {
        self.named_user_value(heap, name)
    }

    /// Returns the type name of this object, read from the name metafield
    /// of its dispatch metatable; `None` when the metatable does not carry
    /// a string there.
    pub fn type_label<T>(&self, heap: &Heap<T>) -> (r: Result<Option<String>, Error>)
        requires
            heap.wf(),
            heap.valid_handle(*self),
        ensures
            ({
                let s = heap.slot_of(*self);
                if s.cell.is_destructed() {
                    r == Err::<Option<String>, Error>(Error::Destructed)
                } else {
                    match s.meta_value("__name"@) {
                        Some(v) => {
                            if v is Str {
                                r matches Ok(n) && (n matches Some(x) && x@ == v->Str_0@)
                            } else {
                                r == Ok::<Option<String>, Error>(None)
                            }
                        },
                        None => r == Ok::<Option<String>, Error>(None),
                    }
                }
            }),
    {
        if heap.slots[self.slot].cell.value.is_none() {
            return Err(Error::Destructed);
        }
        let slot = &heap.slots[self.slot];
        match find_str_key(&slot.meta, "__name") {
            Some(i) => {
                proof {
                    lemma_assoc_str_found(slot.meta@, i as int, "__name"@);
                }
                match &slot.meta[i].1 {
                    Value::Str(s) => Ok(Some(s.clone())),
                    _ => Ok(None),
                }
            },
            None => {
                proof {
                    lemma_assoc_str_none(slot.meta@, "__name"@);
                }
                Ok(None)
            },
        }
    }

    /// Returns a handle to this object's dispatch metatable, through which
    /// it can be read and edited safely.  A destructed slot rejects the
    /// access.
    pub fn get_metatable<T>(&self, heap: &Heap<T>) -> (r: Result<UserDataMetatable, Error>)
        requires
            heap.wf(),
            heap.valid_handle(*self),
        ensures
            ({
                let s = heap.slot_of(*self);
                if s.cell.is_destructed() {
                    r == Err::<UserDataMetatable, Error>(Error::Destructed)
                } else {
                    r matches Ok(m) && m.slot == self.slot
                }
            }),
    {
        if heap.slots[self.slot].cell.value.is_none() {
            return Err(Error::Destructed);
        }
        Ok(UserDataMetatable { slot: self.slot })
    }

    /// Decides logical equality of two handles as far as the bridge can:
    /// identical slots are equal; objects with different dispatch tables, or
    /// destructed ones, are unequal; otherwise a user-declared equality
    /// overload, when present, must additionally be consulted — the host
    /// runs that callback, so it is handed back rather than invoked here.
    pub fn equals<T>(&self, other: &AnyUserData, heap: &Heap<T>) -> (r: EqOutcome)
        requires
            heap.wf(),
            heap.valid_handle(*self),
            heap.valid_handle(*other),
        ensures
            ({
                let s = heap.slot_of(*self);
                let o = heap.slot_of(*other);
                if self.slot == other.slot {
                    r == EqOutcome::Decided(true)
                } else if s.cell.is_destructed() || o.cell.is_destructed() {
                    r == EqOutcome::Decided(false)
                } else if s.registry_id != o.registry_id {
                    r == EqOutcome::Decided(false)
                } else {
                    match s.meta_value("__eq"@) {
                        Some(f) => r matches EqOutcome::Consult(v) && v@ == f@,
                        None => r == EqOutcome::Decided(false),
                    }
                }
            }),
    {
        if self.slot == other.slot {
            return EqOutcome::Decided(true);
        }
        if heap.slots[self.slot].cell.value.is_none() || heap.slots[other.slot].cell.value.is_none()
        {
            return EqOutcome::Decided(false);
        }
        if heap.slots[self.slot].registry_id != heap.slots[other.slot].registry_id {
            return EqOutcome::Decided(false);
        }
        let slot = &heap.slots[self.slot];
        match find_str_key(&slot.meta, "__eq") {
            Some(i) => {
                proof {
                    lemma_assoc_str_found(slot.meta@, i as int, "__eq"@);
                }
                EqOutcome::Consult(slot.meta[i].1.deep_copy())
            },
            None => {
                proof {
                    lemma_assoc_str_none(slot.meta@, "__eq"@);
                }
                EqOutcome::Decided(false)
            },
        }
    }
}

/// What handle equality could decide without the host: a verdict, or the
/// user-declared equality overload that the host must consult.
#[derive(Debug, PartialEq)]
pub enum EqOutcome {
    /// Equality was decided by slot identity or dispatch-table identity.
    Decided(bool),
    /// Both objects share a dispatch table that declares this equality
    /// overload; the host must call it on the two handles.
    Consult(Value),
}

/// Handle to a hosted object's dispatch metatable.
///
/// Access to the engine-protected entries (the collection hook, the
/// protected metatable field, the bridge's cached dispatchers) is refused
/// with [`Error::MetaMethodRestricted`].
#[derive(Debug, Clone, Copy, PartialEq, Eq, Structural)]
pub struct UserDataMetatable {
    /// The slot whose metatable this handle edits.
    pub slot: usize,
}

impl UserDataMetatable {
    /// Reads the value under `key`, [`Value::Nil`] when absent.  Reserved
    /// keys are refused.
    pub fn get<T>(&self, heap: &Heap<T>, key: &str) -> (r: Result<Value, Error>)
        requires
            heap.wf(),
            self.slot < heap.slots@.len(),
        ensures
            ({
                let s = heap.slots@[self.slot as int];
                if is_reserved_meta_name(key@) {
                    r matches Err(e) && (e matches Error::MetaMethodRestricted(x) && x@ == key@)
                } else {
                    r matches Ok(v) && v@ == (match s.meta_value(key@) {
                        Some(x) => x@,
                        None => Value::Nil@,
                    })
                }
            }),
    {
        let key = match MetaMethod::validate(key) {
            Ok(k) => k,
            Err(e) => {
                return Err(e);
            },
        };
        let slot = &heap.slots[self.slot];
        match find_str_key(&slot.meta, key) {
            Some(i) => {
                proof {
                    lemma_assoc_str_found(slot.meta@, i as int, key@);
                }
                Ok(slot.meta[i].1.deep_copy())
            },
            None => {
                proof {
                    lemma_assoc_str_none(slot.meta@, key@);
                }
                Ok(Value::Nil)
            },
        }
    }

    /// Writes `value` under `key`; writing [`Value::Nil`] removes the key.
    ///
    /// Reserved keys are refused, and so are the index and index-write
    /// dispatchers, whose values the engine caches at registration time.
    pub fn set<T>(&self, heap: &mut Heap<T>, key: &str, value: Value) -> (r: Result<(), Error>)
        requires
            old(heap).wf(),
            self.slot < old(heap).slots@.len(),
        ensures
            final(heap).wf(),
            final(heap).slots@.len() == old(heap).slots@.len(),
            forall|i: int|
                0 <= i < old(heap).slots@.len() && i != self.slot ==> final(heap).slots@[i] == old(
                    heap,
                ).slots@[i],
            ({
                let s = old(heap).slots@[self.slot as int];
                let s2 = final(heap).slots@[self.slot as int];
                if is_reserved_meta_name(key@) || key@ == "__index"@ || key@ == "__newindex"@ {
                    (r matches Err(e) && (e matches Error::MetaMethodRestricted(x) && x@ == key@))
                        && s2 == s
                } else {
                    &&& r is Ok
                    &&& s2.meta_value(key@) == (if value is Nil {
                        None::<Value>
                    } else {
                        Some(value)
                    })
                    &&& forall|m: Seq<char>|
                        m != key@ ==> (#[trigger] s2.meta_value(m)) == s.meta_value(m)
                    &&& s2.tag == s.tag
                    &&& s2.cell == s.cell
                    &&& s2.fast_values == s.fast_values
                    &&& s2.extra_values == s.extra_values
                    &&& s2.named_values == s.named_values
                    &&& s2.registry_id == s.registry_id
                }
            }),
    {
        let key = match MetaMethod::validate(key) {
            Ok(k) => k,
            Err(e) => {
                return Err(e);
            },
        };
        if str_eq(key, "__index") || str_eq(key, "__newindex") {
            return Err(Error::MetaMethodRestricted(key.to_owned()));
        }
        let is_nil = match &value {
            Value::Nil => true,
            _ => false,
        };
        let slot = &mut heap.slots[self.slot];
        match find_str_key(&slot.meta, key) {
            Some(i) => {
                let ghost e0 = slot.meta@;
                if is_nil {
                    slot.meta.remove(i);
                    proof {
                        let e2 = slot.meta@;
                        assert forall|j: int| 0 <= j < e2.len() implies (#[trigger] e2[j]).0@
                            != key@ by {
                            if j < i {
                                assert(e2[j] == e0[j]);
                            } else {
                                assert(e2[j] == e0[j + 1]);
                            }
                        }
                        lemma_assoc_str_none(e2, key@);
                        assert forall|m: Seq<char>| m != key@ implies assoc_str(e2, m) == assoc_str(
                            e0,
                            m,
                        ) by {
                            lemma_assoc_str_remove_other(e0, i as int, m);
                        }
                        assert forall|x: int, y: int| 0 <= x < y < e2.len() implies (
                        #[trigger] e2[x]).0@ != (#[trigger] e2[y]).0@ by {
                            let x0 = if x < i { x } else { x + 1 };
                            let y0 = if y < i { y } else { y + 1 };
                            assert(e2[x] == e0[x0] && e2[y] == e0[y0]);
                        }
                    }
                } else {
                    slot.meta[i] = (key.to_owned(), value);
                    proof {
                        let e2 = slot.meta@;
                        lemma_assoc_str_found(e2, i as int, key@);
                        assert forall|m: Seq<char>| m != key@ implies assoc_str(e2, m) == assoc_str(
                            e0,
                            m,
                        ) by {
                            lemma_assoc_str_update_other(e0, i as int, e2[i as int], m);
                        }
                    }
                }
                Ok(())
            },
            None => {
                let ghost e0 = slot.meta@;
                if is_nil {
                    proof {
                        lemma_assoc_str_none(e0, key@);
                    }
                } else {
                    slot.meta.push((key.to_owned(), value));
                    proof {
                        let e2 = slot.meta@;
                        lemma_assoc_str_found(e2, e0.len() as int, key@);
                        assert forall|m: Seq<char>| m != key@ implies assoc_str(e2, m) == assoc_str(
                            e0,
                            m,
                        ) by {
                            lemma_assoc_str_push_other(e0, e2[e0.len() as int], m);
                        }
                    }
                }
                Ok(())
            },
        }
    }

    /// Checks whether the metatable holds a value under `key`.  Reserved
    /// keys are refused.
    pub fn contains<T>(&self, heap: &Heap<T>, key: &str) -> (r: Result<bool, Error>)
        requires
            heap.wf(),
            self.slot < heap.slots@.len(),
        ensures
            ({
                let s = heap.slots@[self.slot as int];
                if is_reserved_meta_name(key@) {
                    r matches Err(e) && (e matches Error::MetaMethodRestricted(x) && x@ == key@)
                } else {
                    r == Ok::<bool, Error>(s.meta_value(key@) is Some)
                }
            }),
    {
        let key = match MetaMethod::validate(key) {
            Ok(k) => k,
            Err(e) => {
                return Err(e);
            },
        };
        let slot = &heap.slots[self.slot];
        match find_str_key(&slot.meta, key) {
            Some(i) => {
                proof {
                    lemma_assoc_str_found(slot.meta@, i as int, key@);
                }
                Ok(true)
            },
            None => {
                proof {
                    lemma_assoc_str_none(slot.meta@, key@);
                }
                Ok(false)
            },
        }
    }

    /// Consumes this handle into an iterator over the metatable's pairs, in
    /// order, skipping the engine-protected entries.
    pub fn pairs<T>(self, heap: &Heap<T>) -> (p: UserDataMetatablePairs)
        requires
            heap.wf(),
            self.slot < heap.slots@.len(),
        ensures
            p.pos == 0,
            p.entries@.len() == heap.slots@[self.slot as int].meta@.len(),
            forall|i: int|
                0 <= i < p.entries@.len() ==> (#[trigger] p.entries@[i]).0@ == heap.slots@[self.slot as int].meta@[i].0@
                    && p.entries@[i].1@ == heap.slots@[self.slot as int].meta@[i].1@,
    {
        let slot = &heap.slots[self.slot];
        let mut entries: Vec<(String, Value)> = Vec::new();
        let n = slot.meta.len();
        for i in 0..n
            invariant
                n == slot.meta@.len(),
                entries@.len() == i,
                forall|j: int|
                    0 <= j < i ==> (#[trigger] entries@[j]).0@ == slot.meta@[j].0@
                        && entries@[j].1@ == slot.meta@[j].1@,
        {
            let key = slot.meta[i].0.clone();
            let value = slot.meta[i].1.deep_copy();
            entries.push((key, value));
        }
        UserDataMetatablePairs { entries, pos: 0 }
    }
}

/// The first position at or after `pos` whose key is not reserved, or the
/// length when every remaining key is.
pub open spec fn next_unreserved(s: Seq<(String, Value)>, pos: int) -> int
    decreases s.len() - pos when 0 <= pos <= s.len()
{
    if pos >= s.len() {
        s.len() as int
    } else if !is_reserved_meta_name(s[pos].0@) {
        pos
    } else {
        next_unreserved(s, pos + 1)
    }
}

/// An iterator over the pairs of a dispatch metatable, skipping the
/// engine-protected entries.
#[derive(Debug)]
pub struct UserDataMetatablePairs {
    /// A snapshot of the metatable's entries, in order.
    pub entries: Vec<(String, Value)>,
    /// The next position to visit.
    pub pos: usize,
}

impl UserDataMetatablePairs {
    /// Hands out the next pair whose key is not reserved, or `None` when
    /// none is left.
    pub fn next(&mut self) -> (r: Option<(String, Value)>)
        requires
            old(self).pos <= old(self).entries@.len(),
        ensures
            final(self).entries == old(self).entries,
            final(self).pos <= final(self).entries@.len(),
            ({
                let e = old(self).entries@;
                let i = next_unreserved(e, old(self).pos as int);
                if i < e.len() {
                    (r matches Some(p) && p.0@ == e[i].0@ && p.1@ == e[i].1@) && final(self).pos
                        == i + 1
                } else {
                    r is None && final(self).pos == e.len()
                }
            }),
    {
        let n = self.entries.len();
        while self.pos < n
            invariant
                self.pos <= n,
                n == self.entries@.len(),
                self.entries == old(self).entries,
                next_unreserved(self.entries@, self.pos as int) == next_unreserved(
                    self.entries@,
                    old(self).pos as int,
                ),
            decreases n - self.pos,
        {
            let reserved = match MetaMethod::validate(self.entries[self.pos].0.as_str()) {
                Ok(_) => false,
                Err(_) => true,
            };
            if !reserved {
                let key = self.entries[self.pos].0.clone();
                let value = self.entries[self.pos].1.deep_copy();
                self.pos = self.pos + 1;
                return Some((key, value));
            }
            self.pos = self.pos + 1;
        }
        None
    }
}

} // verus!
