//! The engine's closed dynamic-value vocabulary and its mathematical model.
//!
//! The structural bridge only pattern-matches over these kinds, it never
//! extends them.  A table carries its key/value pairs together with the
//! marker tag that, when set, forces the table to be treated as an ordered
//! sequence (the tag models the engine-side array metatable being attached).
//!
//! Every contract about dynamic values speaks of their view: [`DynValue`],
//! a ghost tree in which strings are character sequences and tables are
//! sequences of model pairs.

use vstd::prelude::*;

use crate::userdata::AnyUserData;

verus! {

broadcast use vstd::std_specs::vec::group_vec_axioms;

/// A dynamic engine value.
#[derive(Debug, PartialEq)]
pub enum Value {
    /// The engine's "no value".
    Nil,
    /// A boolean.
    Boolean(bool),
    /// A number.
    Integer(i64),
    /// An engine-owned string.
    Str(String),
    /// A table: the engine's only composite kind.
    Table(Table),
    /// A non-dereferenceable light pointer, carried as its address.  The
    /// null address is reserved: it is the sentinel standing for "absence"
    /// across the structural bridge.
    LightUserData(usize),
    /// A callable value, identified by an engine reference.
    Function(u64),
    /// A handle to a hosted object.
    UserData(AnyUserData),
}

/// A table value: raw key/value pairs plus the forced-sequence marker.
#[derive(Debug, PartialEq)]
pub struct Table {
    /// The entries, in engine iteration order.
    pub pairs: Vec<(Value, Value)>,
    /// True when the array marker metatable is attached: the bridge then
    /// reads the table as a fixed-length ordered sequence regardless of its
    /// key shape.
    pub array_tag: bool,
}

/// The mathematical model of a dynamic value.
#[verifier::ext_equal]
pub ghost enum DynValue {
    /// The engine's "no value".
    Nil,
    /// A boolean.
    Boolean(bool),
    /// A number.
    Integer(i64),
    /// A string, as its characters.
    Str(Seq<char>),
    /// A table, as its model pairs in engine iteration order plus the
    /// forced-sequence marker.
    Table(TableView),
    /// A light pointer, as its address.
    LightUserData(usize),
    /// A callable value, as its engine reference.
    Function(u64),
    /// A handle, as the heap slot it references.
    UserData(usize),
}

/// The mathematical model of a table.
#[verifier::ext_equal]
pub ghost struct TableView {
    /// The model pairs, in engine iteration order.
    pub pairs: Seq<(DynValue, DynValue)>,
    /// The forced-sequence marker.
    pub array_tag: bool,
}

/// The model of a pair vector, pair by pair.
pub open spec fn view_pairs(s: Seq<(Value, Value)>) -> Seq<(DynValue, DynValue)>
    decreases s,
{
    if s.len() == 0 {
        Seq::empty()
    } else {
        seq![(value_view(s[0].0), value_view(s[0].1))] + view_pairs(s.subrange(1, s.len() as int))
    }
}

/// The model of a dynamic value.
pub open spec fn value_view(v: Value) -> DynValue
    decreases v,
{
    match v {
        Value::Nil => DynValue::Nil,
        Value::Boolean(b) => DynValue::Boolean(b),
        Value::Integer(i) => DynValue::Integer(i),
        Value::Str(s) => DynValue::Str(s@),
        Value::Table(t) => DynValue::Table(
            TableView { pairs: view_pairs(t.pairs@), array_tag: t.array_tag },
        ),
        Value::LightUserData(a) => DynValue::LightUserData(a),
        Value::Function(f) => DynValue::Function(f),
        Value::UserData(u) => DynValue::UserData(u.slot),
    }
}

impl View for Value {
    type V = DynValue;

    open spec fn view(&self) -> DynValue {
        value_view(*self)
    }
}

impl View for Table {
    type V = TableView;

    open spec fn view(&self) -> TableView {
        TableView { pairs: view_pairs(self.pairs@), array_tag: self.array_tag }
    }
}

/// The model of a pair vector is its pairs' models, position by position.
pub proof fn lemma_view_pairs_index(s: Seq<(Value, Value)>)
    ensures
        view_pairs(s).len() == s.len(),
        forall|i: int| 0 <= i < s.len() ==> view_pairs(s)[i] == (
            value_view(#[trigger] s[i].0),
            value_view(s[i].1),
        ),
    decreases s.len(),
{
    if s.len() > 0 {
        let rest = s.subrange(1, s.len() as int);
        lemma_view_pairs_index(rest);
        assert forall|i: int| 0 <= i < s.len() implies view_pairs(s)[i] == (
            value_view(#[trigger] s[i].0),
            value_view(s[i].1),
        ) by {
            if i > 0 {
                assert(rest[i - 1] == s[i]);
                assert(view_pairs(s)[i] == view_pairs(rest)[i - 1]);
            }
        }
    }
}

/// Two pair vectors with the same models, position by position, have the
/// same model.
pub proof fn lemma_view_pairs_congruence(a: Seq<(Value, Value)>, b: Seq<(Value, Value)>)
    requires
        a.len() == b.len(),
        forall|i: int| 0 <= i < a.len() ==> value_view((#[trigger] a[i]).0) == value_view(b[i].0)
            && value_view(a[i].1) == value_view(b[i].1),
    ensures
        view_pairs(a) == view_pairs(b),
{
    lemma_view_pairs_index(a);
    lemma_view_pairs_index(b);
    assert forall|i: int| 0 <= i < a.len() implies view_pairs(a)[i] == view_pairs(b)[i] by {
        assert(view_pairs(a)[i] == (value_view(a[i].0), value_view(a[i].1)));
        assert(view_pairs(b)[i] == (value_view(b[i].0), value_view(b[i].1)));
        assert(value_view(a[i].0) == value_view(b[i].0) && value_view(a[i].1) == value_view(
            b[i].1,
        ));
    }
    assert(view_pairs(a) =~= view_pairs(b));
}

impl Value {
    /// The reserved sentinel standing for "absence" across the bridge.
    pub open spec fn is_null_sentinel(self) -> bool {
        self == Value::LightUserData(0usize)
    }

    /// Structurally copies a value: the copy has the same model.
    pub fn deep_copy(&self) -> (r: Value)
        ensures
            r@ == self@,
        decreases *self,
    {
        match self {
            Value::Nil => Value::Nil,
            Value::Boolean(b) => Value::Boolean(*b),
            Value::Integer(i) => Value::Integer(*i),
            Value::Str(s) => Value::Str(s.clone()),
            Value::Table(t) => {
                proof {
                    assert(decreases_to!(*self => *t));
                }
                Value::Table(t.deep_copy())
            },
            Value::LightUserData(a) => Value::LightUserData(*a),
            Value::Function(f) => Value::Function(*f),
            Value::UserData(u) => Value::UserData(*u),
        }
    }
}

impl Table {
    /// Attaches or detaches the array marker (the engine-side array
    /// metatable): with the marker set, the bridge reads this table as a
    /// fixed-length ordered sequence regardless of its key shape.
    pub fn set_array_tag(&mut self, on: bool)
        ensures
            final(self).pairs == old(self).pairs,
            final(self).array_tag == on,
    {
        self.array_tag = on;
    }

    /// Structurally copies a table, pair by pair, keeping order and tag.
    pub fn deep_copy(&self) -> (r: Table)
        ensures
            r@ == self@,
        decreases *self,
    {
        let mut pairs: Vec<(Value, Value)> = Vec::new();
        let n = self.pairs.len();
        for i in 0..n
            invariant
                n == self.pairs@.len(),
                pairs@.len() == i,
                forall|j: int| 0 <= j < i ==> value_view((#[trigger] pairs@[j]).0) == value_view(
                    self.pairs@[j].0,
                ) && value_view(pairs@[j].1) == value_view(self.pairs@[j].1),
        {
            proof {
                assert(decreases_to!(self.pairs => self.pairs@[i as int]));
                assert(decreases_to!(*self => self.pairs@[i as int].0));
                assert(decreases_to!(*self => self.pairs@[i as int].1));
            }
            let key = self.pairs[i].0.deep_copy();
            let value = self.pairs[i].1.deep_copy();
            pairs.push((key, value));
        }
        proof {
            lemma_view_pairs_congruence(pairs@, self.pairs@);
        }
        Table { pairs, array_tag: self.array_tag }
    }
}

impl Clone for Value {
    /// A clone has the same model as the original.
    fn clone(&self) -> (r: Value)
        ensures
            r@ == self@,
    {
        self.deep_copy()
    }
}

impl Clone for Table {
    /// A clone has the same model as the original.
    fn clone(&self) -> (r: Table)
        ensures
            r@ == self@,
    {
        self.deep_copy()
    }
}

/// The sentinel value that encodes "none": a light pointer to the null
/// address, which no engine operation can dereference.
pub fn null() -> (v: Value)
    ensures
        v == Value::LightUserData(0usize),
{
    Value::LightUserData(0)
}

} // verus!
