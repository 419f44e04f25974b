//! The capability registry: a builder that declares a hosted type's surface
//! and compiles it into an immutable dispatch table.
//!
//! Host closures never cross into this crate; a capability is recorded as an
//! opaque callback identifier (`u64`) that the host resolves to its closure
//! when the engine dispatches.  Reserved names are refused at registration
//! time, never at call time, and the compiled index lookup follows the
//! load-bearing three-tier order: static fields, then instance methods, then
//! the user-declared fallback dispatcher.

use vstd::prelude::*;

use crate::error::Error;
use crate::lookup::{assoc_str, find_str_key, lemma_assoc_str_found, lemma_assoc_str_none,
    set_str_entry, unique_str_keys};
use crate::userdata::{is_reserved_meta_name, MetaMethod};
use crate::value::Value;

verus! {

/// How a registered method receives the hosted object, and whether its
/// computation is deferred.
#[derive(Debug, Clone, Copy, PartialEq, Eq, Structural)]
pub enum MethodKind {
    /// By shared reference, synchronous.
    ByRef,
    /// By mutable reference, synchronous.
    ByMut,
    /// By shared reference, deferred: the borrow is acquired only when the
    /// deferred computation resumes, never held across a suspension.
    AsyncByRef,
    /// By mutable reference, deferred.
    AsyncByMut,
    /// A free function receiving the handle explicitly.
    Function,
    /// A free function that mutates its own captured state.
    FunctionMut,
    /// A deferred free function.
    AsyncFunction,
}

/// One registered method: the host's callback and its calling convention.
#[derive(Debug, Clone, Copy, PartialEq, Eq, Structural)]
pub struct MethodEntry {
    /// The host-side callback identifier.
    pub callback: u64,
    /// The calling convention.
    pub kind: MethodKind,
}

/// One registered metatable capability.
#[derive(Debug, PartialEq)]
pub enum MetaEntry {
    /// A metatable field initialised to this value.
    FieldVal(Value),
    /// A metamethod dispatched to this host callback.
    MethodCb(u64),
}

/// The engine-facing value a metatable capability compiles to.
pub open spec fn meta_entry_value(e: MetaEntry) -> Value {
    match e {
        MetaEntry::FieldVal(v) => v,
        MetaEntry::MethodCb(cb) => Value::Function(cb),
    }
}

/// What an index access `obj[key]` resolves to, in the fixed three-tier
/// lookup order.
#[derive(Debug, PartialEq)]
pub enum IndexResolution {
    /// A static field's value (first tier).
    Field(Value),
    /// A computed field getter (first tier).
    FieldGetter(u64),
    /// An instance method or registered function (second tier).
    Method(u64),
    /// The user-declared index dispatcher (third tier): a callback value or
    /// a field value.
    Fallback(Value),
    /// Nothing is registered under the key.
    Absent,
}

/// What an index write `obj[key] = v` resolves to.
#[derive(Debug, PartialEq)]
pub enum NewIndexResolution {
    /// A registered field setter.
    FieldSetter(u64),
    /// The user-declared index-write dispatcher.
    Fallback(Value),
    /// Nothing is registered under the key.
    Absent,
}

/// Builder-style declaration of one hosted type's capabilities.
///
/// Built once at type registration and consumed into an immutable dispatch
/// table; it is never mutated afterwards.
pub struct UserDataRegistry {
    /// Static fields, stored by value (first index tier).
    pub static_fields: Vec<(String, Value)>,
    /// Computed field getters (first index tier).
    pub field_getters: Vec<(String, u64)>,
    /// Computed field setters (index-write tier).
    pub field_setters: Vec<(String, u64)>,
    /// Instance methods and registered functions (second index tier).
    pub methods: Vec<(String, MethodEntry)>,
    /// Metatable capabilities: operator overloads and metatable fields.
    /// Every name here passed [`MetaMethod::validate`].
    pub meta_entries: Vec<(String, MetaEntry)>,
}

impl UserDataRegistry {
    /// Each (kind, name) is registered at most once, and no reserved name
    /// was accepted.
    pub open spec fn wf(self) -> bool {
        &&& unique_str_keys(self.static_fields@)
        &&& unique_str_keys(self.field_getters@)
        &&& unique_str_keys(self.field_setters@)
        &&& unique_str_keys(self.methods@)
        &&& unique_str_keys(self.meta_entries@)
        &&& forall|i: int|
            0 <= i < self.meta_entries@.len() ==> !is_reserved_meta_name(
                (#[trigger] self.meta_entries@[i]).0@,
            )
    }

    /// Everything but the static fields is unchanged.
    pub open spec fn only_static_fields_changed(self, o: UserDataRegistry) -> bool {
        self.field_getters == o.field_getters && self.field_setters == o.field_setters
            && self.methods == o.methods && self.meta_entries == o.meta_entries
    }

    /// Everything but the field getters is unchanged.
    pub open spec fn only_field_getters_changed(self, o: UserDataRegistry) -> bool {
        self.static_fields == o.static_fields && self.field_setters == o.field_setters
            && self.methods == o.methods && self.meta_entries == o.meta_entries
    }

    /// Everything but the field setters is unchanged.
    pub open spec fn only_field_setters_changed(self, o: UserDataRegistry) -> bool {
        self.static_fields == o.static_fields && self.field_getters == o.field_getters
            && self.methods == o.methods && self.meta_entries == o.meta_entries
    }

    /// Everything but the methods is unchanged.
    pub open spec fn only_methods_changed(self, o: UserDataRegistry) -> bool {
        self.static_fields == o.static_fields && self.field_getters == o.field_getters
            && self.field_setters == o.field_setters && self.meta_entries == o.meta_entries
    }

    /// Everything but the metatable capabilities is unchanged.
    pub open spec fn only_meta_changed(self, o: UserDataRegistry) -> bool {
        self.static_fields == o.static_fields && self.field_getters == o.field_getters
            && self.field_setters == o.field_setters && self.methods == o.methods
    }

    /// An empty registry.
    pub fn new() -> (r: UserDataRegistry)
        ensures
            r.wf(),
            r.static_fields@.len() == 0,
            r.field_getters@.len() == 0,
            r.field_setters@.len() == 0,
            r.methods@.len() == 0,
            r.meta_entries@.len() == 0,
    {
        UserDataRegistry {
            static_fields: Vec::new(),
            field_getters: Vec::new(),
            field_setters: Vec::new(),
            methods: Vec::new(),
            meta_entries: Vec::new(),
        }
    }

    /// Records a method under `name` with the given calling convention;
    /// re-registering a name replaces its entry.
    fn record_method(&mut self, name: &str, callback: u64, kind: MethodKind)
        ensures
            old(self).wf() ==> final(self).wf(),
            assoc_str(final(self).methods@, name@) == Some(
                MethodEntry { callback, kind },
            ),
            forall|m: Seq<char>|
                m != name@ ==> (#[trigger] assoc_str(final(self).methods@, m)) == assoc_str(
                    old(self).methods@,
                    m,
                ),
            final(self).only_methods_changed(*old(self)),
    {
        set_str_entry(&mut self.methods, name, MethodEntry { callback, kind });
    }

    /// Records a metatable capability under a validated name.
    fn record_meta(&mut self, name: &str, entry: MetaEntry) -> (r: Result<(), Error>)
        ensures
            old(self).wf() ==> final(self).wf(),
            ({
                if is_reserved_meta_name(name@) {
                    (r matches Err(e) && (e matches Error::MetaMethodRestricted(s) && s@ == name@))
                        && *final(self) == *old(self)
                } else {
                    &&& r is Ok
                    &&& assoc_str(final(self).meta_entries@, name@) == Some(entry)
                    &&& forall|m: Seq<char>|
                        m != name@ ==> (#[trigger] assoc_str(final(self).meta_entries@, m))
                            == assoc_str(old(self).meta_entries@, m)
                    &&& final(self).only_meta_changed(*old(self))
                }
            }),
    {
        let name = match MetaMethod::validate(name) {
            Ok(n) => n,
            Err(e) => {
                return Err(e);
            },
        };
        let ghost e0 = self.meta_entries@;
        set_str_entry(&mut self.meta_entries, name, entry);
        proof {
            let e2 = self.meta_entries@;
            if forall|i: int| 0 <= i < e0.len() ==> !is_reserved_meta_name((#[trigger] e0[i]).0@) {
                assert forall|i: int| 0 <= i < e2.len() implies !is_reserved_meta_name(
                    (#[trigger] e2[i]).0@,
                ) by {
                    if i < e0.len() {
                        assert(e2[i].0@ == e0[i].0@);
                    } else {
                        assert(e2[i].0@ == name@);
                    }
                }
            }
        }
        Ok(())
    }

    /// Resolves an index access `obj[key]` in the fixed three-tier order:
    /// static fields (stored values and computed getters), then instance
    /// methods, then the user-declared fallback dispatcher, if any.
    pub fn resolve_index(&self, key: &str) -> (r: IndexResolution)
        ensures
            ({
                let k = key@;
                match assoc_str(self.static_fields@, k) {
                    Some(v) => r matches IndexResolution::Field(v2) && v2@ == v@,
                    None => match assoc_str(self.field_getters@, k) {
                        Some(cb) => r == IndexResolution::FieldGetter(cb),
                        None => match assoc_str(self.methods@, k) {
                            Some(m) => r == IndexResolution::Method(m.callback),
                            None => match assoc_str(self.meta_entries@, "__index"@) {
                                Some(e) => r matches IndexResolution::Fallback(v) && v@
                                    == meta_entry_value(e)@,
                                None => r == IndexResolution::Absent,
                            },
                        },
                    },
                }
            }),
    {
        match find_str_key(&self.static_fields, key) {
            Some(i) => {
                proof {
                    lemma_assoc_str_found(self.static_fields@, i as int, key@);
                }
                return IndexResolution::Field(self.static_fields[i].1.deep_copy());
            },
            None => {
                proof {
                    lemma_assoc_str_none(self.static_fields@, key@);
                }
            },
        }
        match find_str_key(&self.field_getters, key) {
            Some(i) => {
                proof {
                    lemma_assoc_str_found(self.field_getters@, i as int, key@);
                }
                return IndexResolution::FieldGetter(self.field_getters[i].1);
            },
            None => {
                proof {
                    lemma_assoc_str_none(self.field_getters@, key@);
                }
            },
        }
        match find_str_key(&self.methods, key) {
            Some(i) => {
                proof {
                    lemma_assoc_str_found(self.methods@, i as int, key@);
                }
                return IndexResolution::Method(self.methods[i].1.callback);
            },
            None => {
                proof {
                    lemma_assoc_str_none(self.methods@, key@);
                }
            },
        }
        match find_str_key(&self.meta_entries, "__index") {
            Some(i) => {
                proof {
                    lemma_assoc_str_found(self.meta_entries@, i as int, "__index"@);
                }
                match &self.meta_entries[i].1 {
                    MetaEntry::FieldVal(v) => IndexResolution::Fallback(v.deep_copy()),
                    MetaEntry::MethodCb(cb) => IndexResolution::Fallback(Value::Function(*cb)),
                }
            },
            None => {
                proof {
                    lemma_assoc_str_none(self.meta_entries@, "__index"@);
                }
                IndexResolution::Absent
            },
        }
    }

    /// Resolves an index write `obj[key] = v`: field setters first, then the
    /// user-declared index-write dispatcher, if any.
    pub fn resolve_newindex(&self, key: &str) -> (r: NewIndexResolution)
        ensures
            ({
                let k = key@;
                match assoc_str(self.field_setters@, k) {
                    Some(cb) => r == NewIndexResolution::FieldSetter(cb),
                    None => match assoc_str(self.meta_entries@, "__newindex"@) {
                        Some(e) => r matches NewIndexResolution::Fallback(v) && v@
                            == meta_entry_value(e)@,
                        None => r == NewIndexResolution::Absent,
                    },
                }
            }),
    {
        match find_str_key(&self.field_setters, key) {
            Some(i) => {
                proof {
                    lemma_assoc_str_found(self.field_setters@, i as int, key@);
                }
                return NewIndexResolution::FieldSetter(self.field_setters[i].1);
            },
            None => {
                proof {
                    lemma_assoc_str_none(self.field_setters@, key@);
                }
            },
        }
        match find_str_key(&self.meta_entries, "__newindex") {
            Some(i) => {
                proof {
                    lemma_assoc_str_found(self.meta_entries@, i as int, "__newindex"@);
                }
                match &self.meta_entries[i].1 {
                    MetaEntry::FieldVal(v) => NewIndexResolution::Fallback(v.deep_copy()),
                    MetaEntry::MethodCb(cb) => NewIndexResolution::Fallback(Value::Function(*cb)),
                }
            },
            None => {
                proof {
                    lemma_assoc_str_none(self.meta_entries@, "__newindex"@);
                }
                NewIndexResolution::Absent
            },
        }
    }

    /// Compiles the registered metatable capabilities into the immutable
    /// metatable a heap slot is created with: each entry under its name, a
    /// metamethod as its callback value.
    pub fn build_metatable(&self) -> (m: Vec<(String, Value)>)
        requires
            self.wf(),
        ensures
            m@.len() == self.meta_entries@.len(),
            forall|i: int|
                0 <= i < m@.len() ==> (#[trigger] m@[i]).0@ == self.meta_entries@[i].0@ && m@[i].1@
                    == meta_entry_value(self.meta_entries@[i].1)@,
            unique_str_keys(m@),
    {
        let mut m: Vec<(String, Value)> = Vec::new();
        let n = self.meta_entries.len();
        for i in 0..n
            invariant
                n == self.meta_entries@.len(),
                m@.len() == i,
                unique_str_keys(self.meta_entries@),
                forall|j: int|
                    0 <= j < i ==> (#[trigger] m@[j]).0@ == self.meta_entries@[j].0@ && m@[j].1@
                        == meta_entry_value(self.meta_entries@[j].1)@,
        {
            let name = self.meta_entries[i].0.clone();
            let value = match &self.meta_entries[i].1 {
                MetaEntry::FieldVal(v) => v.deep_copy(),
                MetaEntry::MethodCb(cb) => Value::Function(*cb),
            };
            m.push((name, value));
        }
        proof {
            assert forall|x: int, y: int| 0 <= x < y < m@.len() implies (#[trigger] m@[x]).0@ != (
            #[trigger] m@[y]).0@ by {
                assert(self.meta_entries@[x].0@ != self.meta_entries@[y].0@);
            }
        }
        m
    }
}

/// Method registry for hosted types: the builder surface through which a
/// type declares its callable capabilities.
pub trait UserDataMethods {
    /// Declares a method receiving the object by shared reference.
    fn add_method(&mut self, name: &str, callback: u64);

    /// Declares a method receiving the object by mutable reference.
    fn add_method_mut(&mut self, name: &str, callback: u64);

    /// Declares a deferred method receiving the object by shared reference;
    /// its borrow is acquired only when the deferred computation resumes.
    fn add_async_method(&mut self, name: &str, callback: u64);

    /// Declares a deferred method receiving the object by mutable reference.
    fn add_async_method_mut(&mut self, name: &str, callback: u64);

    /// Declares a function receiving the handle explicitly.
    fn add_function(&mut self, name: &str, callback: u64);

    /// Declares a function that mutates its own captured state.
    fn add_function_mut(&mut self, name: &str, callback: u64);

    /// Declares a deferred function.
    fn add_async_function(&mut self, name: &str, callback: u64);

    /// Declares an operator-overload metamethod receiving the object by
    /// shared reference; reserved names are refused here, at registration.
    fn add_meta_method(&mut self, name: &str, callback: u64) -> Result<(), Error>;

    /// Declares a metamethod receiving the object by mutable reference.
    fn add_meta_method_mut(&mut self, name: &str, callback: u64) -> Result<(), Error>;

    /// Declares a deferred metamethod.
    fn add_async_meta_method(&mut self, name: &str, callback: u64) -> Result<(), Error>;

    /// Declares a deferred metamethod receiving the object mutably.
    fn add_async_meta_method_mut(&mut self, name: &str, callback: u64) -> Result<(), Error>;

    /// Declares a metamethod as a free function.
    fn add_meta_function(&mut self, name: &str, callback: u64) -> Result<(), Error>;

    /// Declares a metamethod as a mutating free function.
    fn add_meta_function_mut(&mut self, name: &str, callback: u64) -> Result<(), Error>;

    /// Declares a deferred metamethod as a free function.
    fn add_async_meta_function(&mut self, name: &str, callback: u64) -> Result<(), Error>;
}

/// Field registry for hosted types: the builder surface through which a
/// type declares its fields.
pub trait UserDataFields {
    /// Declares a static field stored by value.
    fn add_field(&mut self, name: &str, value: Value);

    /// Declares a computed field getter.
    fn add_field_method_get(&mut self, name: &str, callback: u64);

    /// Declares a computed field setter.
    fn add_field_method_set(&mut self, name: &str, callback: u64);

    /// Declares a computed field getter receiving the handle explicitly.
    fn add_field_function_get(&mut self, name: &str, callback: u64);

    /// Declares a computed field setter receiving the handle explicitly.
    fn add_field_function_set(&mut self, name: &str, callback: u64);

    /// Declares a metatable field initialised to `value`; reserved names
    /// are refused here, at registration.
    fn add_meta_field(&mut self, name: &str, value: Value) -> Result<(), Error>;
}

impl UserDataMethods for UserDataRegistry {
    fn add_method(&mut self, name: &str, callback: u64)
        ensures
            old(self).wf() ==> final(self).wf(),
            assoc_str(final(self).methods@, name@) == Some(
                MethodEntry { callback, kind: MethodKind::ByRef },
            ),
            forall|m: Seq<char>|
                m != name@ ==> (#[trigger] assoc_str(final(self).methods@, m)) == assoc_str(
                    old(self).methods@,
                    m,
                ),
            final(self).only_methods_changed(*old(self)),
    {
        self.record_method(name, callback, MethodKind::ByRef)
    }

    fn add_method_mut(&mut self, name: &str, callback: u64)
        ensures
            old(self).wf() ==> final(self).wf(),
            assoc_str(final(self).methods@, name@) == Some(
                MethodEntry { callback, kind: MethodKind::ByMut },
            ),
            forall|m: Seq<char>|
                m != name@ ==> (#[trigger] assoc_str(final(self).methods@, m)) == assoc_str(
                    old(self).methods@,
                    m,
                ),
            final(self).only_methods_changed(*old(self)),
    {
        self.record_method(name, callback, MethodKind::ByMut)
    }

    fn add_async_method(&mut self, name: &str, callback: u64)
        ensures
            old(self).wf() ==> final(self).wf(),
            assoc_str(final(self).methods@, name@) == Some(
                MethodEntry { callback, kind: MethodKind::AsyncByRef },
            ),
            forall|m: Seq<char>|
                m != name@ ==> (#[trigger] assoc_str(final(self).methods@, m)) == assoc_str(
                    old(self).methods@,
                    m,
                ),
            final(self).only_methods_changed(*old(self)),
    {
        self.record_method(name, callback, MethodKind::AsyncByRef)
    }

    fn add_async_method_mut(&mut self, name: &str, callback: u64)
        ensures
            old(self).wf() ==> final(self).wf(),
            assoc_str(final(self).methods@, name@) == Some(
                MethodEntry { callback, kind: MethodKind::AsyncByMut },
            ),
            forall|m: Seq<char>|
                m != name@ ==> (#[trigger] assoc_str(final(self).methods@, m)) == assoc_str(
                    old(self).methods@,
                    m,
                ),
            final(self).only_methods_changed(*old(self)),
    {
        self.record_method(name, callback, MethodKind::AsyncByMut)
    }

    fn add_function(&mut self, name: &str, callback: u64)
        ensures
            old(self).wf() ==> final(self).wf(),
            assoc_str(final(self).methods@, name@) == Some(
                MethodEntry { callback, kind: MethodKind::Function },
            ),
            forall|m: Seq<char>|
                m != name@ ==> (#[trigger] assoc_str(final(self).methods@, m)) == assoc_str(
                    old(self).methods@,
                    m,
                ),
            final(self).only_methods_changed(*old(self)),
    {
        self.record_method(name, callback, MethodKind::Function)
    }

    fn add_function_mut(&mut self, name: &str, callback: u64)
        ensures
            old(self).wf() ==> final(self).wf(),
            assoc_str(final(self).methods@, name@) == Some(
                MethodEntry { callback, kind: MethodKind::FunctionMut },
            ),
            forall|m: Seq<char>|
                m != name@ ==> (#[trigger] assoc_str(final(self).methods@, m)) == assoc_str(
                    old(self).methods@,
                    m,
                ),
            final(self).only_methods_changed(*old(self)),
    {
        self.record_method(name, callback, MethodKind::FunctionMut)
    }

    fn add_async_function(&mut self, name: &str, callback: u64)
        ensures
            old(self).wf() ==> final(self).wf(),
            assoc_str(final(self).methods@, name@) == Some(
                MethodEntry { callback, kind: MethodKind::AsyncFunction },
            ),
            forall|m: Seq<char>|
                m != name@ ==> (#[trigger] assoc_str(final(self).methods@, m)) == assoc_str(
                    old(self).methods@,
                    m,
                ),
            final(self).only_methods_changed(*old(self)),
    {
        self.record_method(name, callback, MethodKind::AsyncFunction)
    }

    fn add_meta_method(&mut self, name: &str, callback: u64) -> (r: Result<(), Error>)
        ensures
            old(self).wf() ==> final(self).wf(),
            ({
                if is_reserved_meta_name(name@) {
                    (r matches Err(e) && (e matches Error::MetaMethodRestricted(s) && s@ == name@))
                        && *final(self) == *old(self)
                } else {
                    &&& r is Ok
                    &&& assoc_str(final(self).meta_entries@, name@) == Some(
                        MetaEntry::MethodCb(callback),
                    )
                    &&& forall|m: Seq<char>|
                        m != name@ ==> (#[trigger] assoc_str(final(self).meta_entries@, m))
                            == assoc_str(old(self).meta_entries@, m)
                    &&& final(self).only_meta_changed(*old(self))
                }
            }),
    {
        self.record_meta(name, MetaEntry::MethodCb(callback))
    }

    fn add_meta_method_mut(&mut self, name: &str, callback: u64) -> (r: Result<(), Error>)
        ensures
            old(self).wf() ==> final(self).wf(),
            ({
                if is_reserved_meta_name(name@) {
                    (r matches Err(e) && (e matches Error::MetaMethodRestricted(s) && s@ == name@))
                        && *final(self) == *old(self)
                } else {
                    &&& r is Ok
                    &&& assoc_str(final(self).meta_entries@, name@) == Some(
                        MetaEntry::MethodCb(callback),
                    )
                    &&& forall|m: Seq<char>|
                        m != name@ ==> (#[trigger] assoc_str(final(self).meta_entries@, m))
                            == assoc_str(old(self).meta_entries@, m)
                    &&& final(self).only_meta_changed(*old(self))
                }
            }),
    {
        self.record_meta(name, MetaEntry::MethodCb(callback))
    }

    fn add_async_meta_method(&mut self, name: &str, callback: u64) -> (r: Result<(), Error>)
        ensures
            old(self).wf() ==> final(self).wf(),
            ({
                if is_reserved_meta_name(name@) {
                    (r matches Err(e) && (e matches Error::MetaMethodRestricted(s) && s@ == name@))
                        && *final(self) == *old(self)
                } else {
                    &&& r is Ok
                    &&& assoc_str(final(self).meta_entries@, name@) == Some(
                        MetaEntry::MethodCb(callback),
                    )
                    &&& forall|m: Seq<char>|
                        m != name@ ==> (#[trigger] assoc_str(final(self).meta_entries@, m))
                            == assoc_str(old(self).meta_entries@, m)
                    &&& final(self).only_meta_changed(*old(self))
                }
            }),
    {
        self.record_meta(name, MetaEntry::MethodCb(callback))
    }

    fn add_async_meta_method_mut(&mut self, name: &str, callback: u64) -> (r: Result<(), Error>)
        ensures
            old(self).wf() ==> final(self).wf(),
            ({
                if is_reserved_meta_name(name@) {
                    (r matches Err(e) && (e matches Error::MetaMethodRestricted(s) && s@ == name@))
                        && *final(self) == *old(self)
                } else {
                    &&& r is Ok
                    &&& assoc_str(final(self).meta_entries@, name@) == Some(
                        MetaEntry::MethodCb(callback),
                    )
                    &&& forall|m: Seq<char>|
                        m != name@ ==> (#[trigger] assoc_str(final(self).meta_entries@, m))
                            == assoc_str(old(self).meta_entries@, m)
                    &&& final(self).only_meta_changed(*old(self))
                }
            }),
    {
        self.record_meta(name, MetaEntry::MethodCb(callback))
    }

    fn add_meta_function(&mut self, name: &str, callback: u64) -> (r: Result<(), Error>)
        ensures
            old(self).wf() ==> final(self).wf(),
            ({
                if is_reserved_meta_name(name@) {
                    (r matches Err(e) && (e matches Error::MetaMethodRestricted(s) && s@ == name@))
                        && *final(self) == *old(self)
                } else {
                    &&& r is Ok
                    &&& assoc_str(final(self).meta_entries@, name@) == Some(
                        MetaEntry::MethodCb(callback),
                    )
                    &&& forall|m: Seq<char>|
                        m != name@ ==> (#[trigger] assoc_str(final(self).meta_entries@, m))
                            == assoc_str(old(self).meta_entries@, m)
                    &&& final(self).only_meta_changed(*old(self))
                }
            }),
    {
        self.record_meta(name, MetaEntry::MethodCb(callback))
    }

    fn add_meta_function_mut(&mut self, name: &str, callback: u64) -> (r: Result<(), Error>)
        ensures
            old(self).wf() ==> final(self).wf(),
            ({
                if is_reserved_meta_name(name@) {
                    (r matches Err(e) && (e matches Error::MetaMethodRestricted(s) && s@ == name@))
                        && *final(self) == *old(self)
                } else {
                    &&& r is Ok
                    &&& assoc_str(final(self).meta_entries@, name@) == Some(
                        MetaEntry::MethodCb(callback),
                    )
                    &&& forall|m: Seq<char>|
                        m != name@ ==> (#[trigger] assoc_str(final(self).meta_entries@, m))
                            == assoc_str(old(self).meta_entries@, m)
                    &&& final(self).only_meta_changed(*old(self))
                }
            }),
    {
        self.record_meta(name, MetaEntry::MethodCb(callback))
    }

    fn add_async_meta_function(&mut self, name: &str, callback: u64) -> (r: Result<(), Error>)
        ensures
            old(self).wf() ==> final(self).wf(),
            ({
                if is_reserved_meta_name(name@) {
                    (r matches Err(e) && (e matches Error::MetaMethodRestricted(s) && s@ == name@))
                        && *final(self) == *old(self)
                } else {
                    &&& r is Ok
                    &&& assoc_str(final(self).meta_entries@, name@) == Some(
                        MetaEntry::MethodCb(callback),
                    )
                    &&& forall|m: Seq<char>|
                        m != name@ ==> (#[trigger] assoc_str(final(self).meta_entries@, m))
                            == assoc_str(old(self).meta_entries@, m)
                    &&& final(self).only_meta_changed(*old(self))
                }
            }),
    {
        self.record_meta(name, MetaEntry::MethodCb(callback))
    }
}

impl UserDataFields for UserDataRegistry {
    fn add_field(&mut self, name: &str, value: Value)
        ensures
            old(self).wf() ==> final(self).wf(),
            assoc_str(final(self).static_fields@, name@) == Some(value),
            forall|m: Seq<char>|
                m != name@ ==> (#[trigger] assoc_str(final(self).static_fields@, m)) == assoc_str(
                    old(self).static_fields@,
                    m,
                ),
            final(self).only_static_fields_changed(*old(self)),
    {
        set_str_entry(&mut self.static_fields, name, value);
    }

    fn add_field_method_get(&mut self, name: &str, callback: u64)
        ensures
            old(self).wf() ==> final(self).wf(),
            assoc_str(final(self).field_getters@, name@) == Some(callback),
            forall|m: Seq<char>|
                m != name@ ==> (#[trigger] assoc_str(final(self).field_getters@, m)) == assoc_str(
                    old(self).field_getters@,
                    m,
                ),
            final(self).only_field_getters_changed(*old(self)),
    {
        set_str_entry(&mut self.field_getters, name, callback);
    }

    fn add_field_method_set(&mut self, name: &str, callback: u64)
        ensures
            old(self).wf() ==> final(self).wf(),
            assoc_str(final(self).field_setters@, name@) == Some(callback),
            forall|m: Seq<char>|
                m != name@ ==> (#[trigger] assoc_str(final(self).field_setters@, m)) == assoc_str(
                    old(self).field_setters@,
                    m,
                ),
            final(self).only_field_setters_changed(*old(self)),
    {
        set_str_entry(&mut self.field_setters, name, callback);
    }

    fn add_field_function_get(&mut self, name: &str, callback: u64)
        ensures
            old(self).wf() ==> final(self).wf(),
            assoc_str(final(self).field_getters@, name@) == Some(callback),
            forall|m: Seq<char>|
                m != name@ ==> (#[trigger] assoc_str(final(self).field_getters@, m)) == assoc_str(
                    old(self).field_getters@,
                    m,
                ),
            final(self).only_field_getters_changed(*old(self)),
    {
        set_str_entry(&mut self.field_getters, name, callback);
    }

    fn add_field_function_set(&mut self, name: &str, callback: u64)
        ensures
            old(self).wf() ==> final(self).wf(),
            assoc_str(final(self).field_setters@, name@) == Some(callback),
            forall|m: Seq<char>|
                m != name@ ==> (#[trigger] assoc_str(final(self).field_setters@, m)) == assoc_str(
                    old(self).field_setters@,
                    m,
                ),
            final(self).only_field_setters_changed(*old(self)),
    {
        set_str_entry(&mut self.field_setters, name, callback);
    }

    fn add_meta_field(&mut self, name: &str, value: Value) -> (r: Result<(), Error>)
        ensures
            old(self).wf() ==> final(self).wf(),
            ({
                if is_reserved_meta_name(name@) {
                    (r matches Err(e) && (e matches Error::MetaMethodRestricted(s) && s@ == name@))
                        && *final(self) == *old(self)
                } else {
                    &&& r is Ok
                    &&& assoc_str(final(self).meta_entries@, name@) == Some(
                        MetaEntry::FieldVal(value),
                    )
                    &&& forall|m: Seq<char>|
                        m != name@ ==> (#[trigger] assoc_str(final(self).meta_entries@, m))
                            == assoc_str(old(self).meta_entries@, m)
                    &&& final(self).only_meta_changed(*old(self))
                }
            }),
    {
        self.record_meta(name, MetaEntry::FieldVal(value))
    }
}

/// Trait for custom hosted types: a type declares its fields and methods,
/// and `register` compiles them, once, into the registry the engine-facing
/// dispatch table is built from.
pub trait UserData: Sized {
    /// Declares the fields of this hosted type.
    fn add_fields(fields: &mut UserDataRegistry) {
    }

    /// Declares the methods and operators of this hosted type.
    fn add_methods(methods: &mut UserDataRegistry) {
    }

    /// Registers this type: calls `add_fields` and `add_methods` on the
    /// given registry, in that order.
    fn register(registry: &mut UserDataRegistry) {
        Self::add_fields(registry);
        Self::add_methods(registry);
    }
}

} // verus!
