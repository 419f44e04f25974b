//! The structural bridge between statically-typed host data and the
//! engine's dynamic value tree.
//!
//! `to_value` walks a host value tree into a dynamic value (serialize),
//! `from_value` walks back (deserialize).  "No value" nested inside a
//! container cannot always be told from "entry absent", so the reserved
//! null sentinel ([`crate::value::null`]) additionally represents absence,
//! survives round trips through table storage, and is recognised on the way
//! back.  A table is read as an ordered sequence when the array marker tag
//! is attached (length: its contiguous-integer-key run); an untagged table
//! is classified heuristically — a sequence exactly when every key is a
//! positive integer within the contiguous run starting at key 1, a map
//! otherwise.  Nesting past the depth guard is rejected rather than
//! overflowing the stack, and unsupported dynamic kinds are rejected by
//! default or, opt-in, coerced to absence.

use vstd::prelude::*;

use crate::error::Error;
use crate::lookup::{assoc_key, lemma_assoc_key_found, lemma_assoc_key_none};
use crate::value::{value_view, view_pairs, lemma_view_pairs_index, DynValue, Table, TableView,
    Value};

verus! {

broadcast use vstd::std_specs::vec::group_vec_axioms;

/// Nesting depth past which the bridge rejects a value tree, instead of
/// overflowing the call stack on recursive or extremely deep data.
pub const MAX_SERIALIZE_DEPTH: usize = 128;

/// Longest sequence the engine's integer keys can index.
pub const MAX_SEQUENCE_LEN: u64 = 0x7fff_ffff_ffff_ffff;

/// A statically-typed host value, in the closed kind set the bridge
/// converts.
#[derive(Debug, PartialEq)]
pub enum HostValue {
    /// No value.
    Unit,
    /// A boolean.
    Bool(bool),
    /// A number.
    Int(i64),
    /// A string.
    Text(String),
    /// An ordered sequence.
    List(Vec<HostValue>),
    /// A keyed collection, in iteration order.
    Dict(Vec<(HostValue, HostValue)>),
}

/// The mathematical model of a host value.
#[verifier::ext_equal]
pub ghost enum HostView {
    /// No value.
    Unit,
    /// A boolean.
    Bool(bool),
    /// A number.
    Int(i64),
    /// A string, as its characters.
    Text(Seq<char>),
    /// An ordered sequence.
    List(Seq<HostView>),
    /// A keyed collection, in iteration order.
    Dict(Seq<(HostView, HostView)>),
}

/// The model of a host value list, element by element.
pub open spec fn host_view_list(s: Seq<HostValue>) -> Seq<HostView>
    decreases s,
{
    if s.len() == 0 {
        Seq::empty()
    } else {
        seq![host_view(s[0])] + host_view_list(s.subrange(1, s.len() as int))
    }
}

/// The model of a host value pair list, pair by pair.
pub open spec fn host_view_pairs(s: Seq<(HostValue, HostValue)>) -> Seq<(HostView, HostView)>
    decreases s,
{
    if s.len() == 0 {
        Seq::empty()
    } else {
        seq![(host_view(s[0].0), host_view(s[0].1))] + host_view_pairs(
            s.subrange(1, s.len() as int),
        )
    }
}

/// The model of a host value.
pub open spec fn host_view(h: HostValue) -> HostView
    decreases h,
{
    match h {
        HostValue::Unit => HostView::Unit,
        HostValue::Bool(b) => HostView::Bool(b),
        HostValue::Int(i) => HostView::Int(i),
        HostValue::Text(s) => HostView::Text(s@),
        HostValue::List(xs) => HostView::List(host_view_list(xs@)),
        HostValue::Dict(ps) => HostView::Dict(host_view_pairs(ps@)),
    }
}

impl View for HostValue {
    type V = HostView;

    open spec fn view(&self) -> HostView {
        host_view(*self)
    }
}

/// The model of a host value list is its elements' models, position by
/// position.
pub proof fn lemma_host_view_list_index(s: Seq<HostValue>)
    ensures
        host_view_list(s).len() == s.len(),
        forall|i: int| 0 <= i < s.len() ==> host_view_list(s)[i] == host_view(#[trigger] s[i]),
    decreases s.len(),
{
    if s.len() > 0 {
        let rest = s.subrange(1, s.len() as int);
        lemma_host_view_list_index(rest);
        assert forall|i: int| 0 <= i < s.len() implies host_view_list(s)[i] == host_view(
            #[trigger] s[i],
        ) by {
            if i > 0 {
                assert(rest[i - 1] == s[i]);
                assert(host_view_list(s)[i] == host_view_list(rest)[i - 1]);
            }
        }
    }
}

/// The model of a host value pair list is its pairs' models, position by
/// position.
pub proof fn lemma_host_view_pairs_index(s: Seq<(HostValue, HostValue)>)
    ensures
        host_view_pairs(s).len() == s.len(),
        forall|i: int| 0 <= i < s.len() ==> host_view_pairs(s)[i] == (
            host_view((#[trigger] s[i]).0),
            host_view(s[i].1),
        ),
    decreases s.len(),
{
    if s.len() > 0 {
        let rest = s.subrange(1, s.len() as int);
        lemma_host_view_pairs_index(rest);
        assert forall|i: int| 0 <= i < s.len() implies host_view_pairs(s)[i] == (
            host_view((#[trigger] s[i]).0),
            host_view(s[i].1),
        ) by {
            if i > 0 {
                assert(rest[i - 1] == s[i]);
                assert(host_view_pairs(s)[i] == host_view_pairs(rest)[i - 1]);
            }
        }
    }
}

/// Serialization options.
#[derive(Debug, Clone, Copy, PartialEq, Eq, Structural)]
pub struct SerializeOptions {
    /// Attach the array marker tag to every serialized sequence, so that it
    /// is read back as a sequence regardless of shape.
    pub set_array_metatable: bool,
    /// Encode "no value" as the reserved null sentinel instead of the
    /// engine's own nil, so that absence survives nesting inside tables.
    pub serialize_none_to_null: bool,
}

impl SerializeOptions {
    /// The default options: tag sequences, encode absence as the sentinel.
    pub fn new() -> (r: SerializeOptions)
        ensures
            r == (SerializeOptions { set_array_metatable: true, serialize_none_to_null: true }),
    {
        SerializeOptions { set_array_metatable: true, serialize_none_to_null: true }
    }

    /// Sets whether serialized sequences carry the array marker tag.
    pub fn set_array_metatable(self, on: bool) -> (r: SerializeOptions)
        ensures
            r == (SerializeOptions { set_array_metatable: on, ..self }),
    {
        SerializeOptions { set_array_metatable: on, ..self }
    }

    /// Sets whether "no value" is encoded as the reserved null sentinel.
    pub fn serialize_none_to_null(self, on: bool) -> (r: SerializeOptions)
        ensures
            r == (SerializeOptions { serialize_none_to_null: on, ..self }),
    {
        SerializeOptions { serialize_none_to_null: on, ..self }
    }
}

/// Deserialization options.
#[derive(Debug, Clone, Copy, PartialEq, Eq, Structural)]
pub struct DeserializeOptions {
    /// Reject dynamic kinds the bridge does not convert (callables, opaque
    /// handles, non-null light pointers); switched off, they are coerced to
    /// absence instead — opt-in only.
    pub deny_unsupported_types: bool,
}

impl DeserializeOptions {
    /// The default options: unsupported kinds are rejected.
    pub fn new() -> (r: DeserializeOptions)
        ensures
            r == (DeserializeOptions { deny_unsupported_types: true }),
    {
        DeserializeOptions { deny_unsupported_types: true }
    }

    /// Sets whether unsupported dynamic kinds are rejected.
    pub fn deny_unsupported_types(self, on: bool) -> (r: DeserializeOptions)
        ensures
            r == (DeserializeOptions { deny_unsupported_types: on }),
    {
        DeserializeOptions { deny_unsupported_types: on }
    }
}

/// What serializing a host value yields, and the state of the depth guard
/// while it happens.  The sequence keys are `1..=n` in order; the map keys
/// are the dictionary's own serialized keys, in order.
pub open spec fn ser_value(h: HostView, so: SerializeOptions, depth: int) -> Result<DynValue, Error>
    decreases MAX_SERIALIZE_DEPTH - depth, 0int, 0int,
{
    match h {
        HostView::Unit => Ok(
            if so.serialize_none_to_null {
                DynValue::LightUserData(0usize)
            } else {
                DynValue::Nil
            },
        ),
        HostView::Bool(b) => Ok(DynValue::Boolean(b)),
        HostView::Int(i) => Ok(DynValue::Integer(i)),
        HostView::Text(s) => Ok(DynValue::Str(s)),
        HostView::List(xs) => {
            if depth >= MAX_SERIALIZE_DEPTH {
                Err(Error::SerializationDepthExceeded)
            } else if xs.len() > MAX_SEQUENCE_LEN {
                Err(Error::UnsupportedValueKind)
            } else {
                match ser_list(xs, so, depth + 1) {
                    Ok(pairs) => Ok(
                        DynValue::Table(
                            TableView { pairs, array_tag: so.set_array_metatable },
                        ),
                    ),
                    Err(e) => Err(e),
                }
            }
        },
        HostView::Dict(ps) => {
            if depth >= MAX_SERIALIZE_DEPTH {
                Err(Error::SerializationDepthExceeded)
            } else {
                match ser_pairs(ps, so, depth + 1) {
                    Ok(pairs) => Ok(DynValue::Table(TableView { pairs, array_tag: false })),
                    Err(e) => Err(e),
                }
            }
        },
    }
}

/// Serializes the elements of a sequence into table pairs keyed `1..=n`,
/// in order; the first failing element decides the error.
pub open spec fn ser_list(xs: Seq<HostView>, so: SerializeOptions, depth: int) -> Result<
    Seq<(DynValue, DynValue)>,
    Error,
>
    decreases MAX_SERIALIZE_DEPTH - depth, 1int, xs.len(),
{
    if xs.len() == 0 {
        Ok(Seq::empty())
    } else {
        match ser_list(xs.drop_last(), so, depth) {
            Err(e) => Err(e),
            Ok(pairs) => match ser_value(xs.last(), so, depth) {
                Err(e) => Err(e),
                Ok(v) => Ok(pairs.push((DynValue::Integer(xs.len() as i64), v))),
            },
        }
    }
}

/// Serializes dictionary pairs into table pairs, in order; within a pair
/// the key is serialized before the value, and the first failure decides
/// the error.
pub open spec fn ser_pairs(ps: Seq<(HostView, HostView)>, so: SerializeOptions, depth: int) -> Result<
    Seq<(DynValue, DynValue)>,
    Error,
>
    decreases MAX_SERIALIZE_DEPTH - depth, 1int, ps.len(),
{
    if ps.len() == 0 {
        Ok(Seq::empty())
    } else {
        match ser_pairs(ps.drop_last(), so, depth) {
            Err(e) => Err(e),
            Ok(pairs) => match ser_value(ps.last().0, so, depth) {
                Err(e) => Err(e),
                Ok(k) => match ser_value(ps.last().1, so, depth) {
                    Err(e) => Err(e),
                    Ok(v) => Ok(pairs.push((k, v))),
                },
            },
        }
    }
}

/// The length of the contiguous integer-key run of a table, counted from
/// key 1: the largest `k` such that each of the keys `1..=k` is present.
pub open spec fn contiguous_run(pairs: Seq<(DynValue, DynValue)>) -> int {
    prefix_run(pairs, 1)
}

/// The end of the contiguous key run that starts at key `j`.  The run
/// cannot be longer than the table, nor exceed the engine's integer keys.
pub open spec fn prefix_run(pairs: Seq<(DynValue, DynValue)>, j: int) -> int
    decreases pairs.len() + 2 - j when 1 <= j <= pairs.len() + 1
{
    if j > pairs.len() || j > MAX_SEQUENCE_LEN as int {
        j - 1
    } else if assoc_key(pairs, DynValue::Integer(j as i64)) is Some {
        prefix_run(pairs, j + 1)
    } else {
        j - 1
    }
}

/// The contiguous run starts no earlier than `j - 1` and ends within the
/// table and within the engine's integer-key range.
pub proof fn lemma_prefix_run_bounds(pairs: Seq<(DynValue, DynValue)>, j: int)
    requires
        1 <= j <= pairs.len() + 1,
    ensures
        j - 1 <= prefix_run(pairs, j) <= pairs.len(),
        j <= MAX_SEQUENCE_LEN as int + 1 ==> prefix_run(pairs, j) <= MAX_SEQUENCE_LEN as int,
    decreases pairs.len() + 2 - j,
{
    if j > pairs.len() || j > MAX_SEQUENCE_LEN as int {
    } else if assoc_key(pairs, DynValue::Integer(j as i64)) is Some {
        lemma_prefix_run_bounds(pairs, j + 1);
    }
}

/// Every key of the contiguous run is present in the table.
pub proof fn lemma_run_present(pairs: Seq<(DynValue, DynValue)>, a: int, j: int)
    requires
        1 <= a <= pairs.len() + 1,
        a <= j <= prefix_run(pairs, a),
    ensures
        assoc_key(pairs, DynValue::Integer(j as i64)) is Some,
    decreases j - a,
{
    lemma_prefix_run_bounds(pairs, a);
    if a > pairs.len() || a > MAX_SEQUENCE_LEN as int {
    } else if assoc_key(pairs, DynValue::Integer(a as i64)) is Some {
        if j > a {
            lemma_run_present(pairs, a + 1, j);
        }
    }
}

/// The heuristic sequence test for untagged tables: every key is a positive
/// integer inside the contiguous run starting at key 1.
pub open spec fn is_sequence_shaped(pairs: Seq<(DynValue, DynValue)>) -> bool {
    forall|i: int|
        0 <= i < pairs.len() ==> ((#[trigger] pairs[i]).0 is Integer && 1 <= pairs[i].0->Integer_0
            <= contiguous_run(pairs))
}

/// What deserializing a dynamic value yields, and the state of the depth
/// guard while it happens.
pub open spec fn de_value(v: DynValue, dopts: DeserializeOptions, depth: int) -> Result<
    HostView,
    Error,
>
    decreases MAX_SERIALIZE_DEPTH - depth, 0int, 0int,
{
    match v {
        DynValue::Nil => Ok(HostView::Unit),
        DynValue::Boolean(b) => Ok(HostView::Bool(b)),
        DynValue::Integer(i) => Ok(HostView::Int(i)),
        DynValue::Str(s) => Ok(HostView::Text(s)),
        DynValue::LightUserData(a) => {
            if a == 0 {
                Ok(HostView::Unit)
            } else if dopts.deny_unsupported_types {
                Err(Error::UnsupportedValueKind)
            } else {
                Ok(HostView::Unit)
            }
        },
        DynValue::Function(_) => {
            if dopts.deny_unsupported_types {
                Err(Error::UnsupportedValueKind)
            } else {
                Ok(HostView::Unit)
            }
        },
        DynValue::UserData(_) => {
            if dopts.deny_unsupported_types {
                Err(Error::UnsupportedValueKind)
            } else {
                Ok(HostView::Unit)
            }
        },
        DynValue::Table(t) => {
            if depth >= MAX_SERIALIZE_DEPTH {
                Err(Error::SerializationDepthExceeded)
            } else if t.array_tag || is_sequence_shaped(t.pairs) {
                match de_seq(t.pairs, contiguous_run(t.pairs), dopts, depth + 1) {
                    Ok(xs) => Ok(HostView::List(xs)),
                    Err(e) => Err(e),
                }
            } else {
                match de_pairs(t.pairs, t.pairs.len() as int, dopts, depth + 1) {
                    Ok(ps) => Ok(HostView::Dict(ps)),
                    Err(e) => Err(e),
                }
            }
        },
    }
}

/// Deserializes the values at keys `1..=k` of a table, in key order; the
/// first failing element decides the error.
pub open spec fn de_seq(
    pairs: Seq<(DynValue, DynValue)>,
    k: int,
    dopts: DeserializeOptions,
    depth: int,
) -> Result<Seq<HostView>, Error>
    decreases MAX_SERIALIZE_DEPTH - depth, 1int, k when k >= 0
{
    if k == 0 {
        Ok(Seq::empty())
    } else {
        match de_seq(pairs, k - 1, dopts, depth) {
            Err(e) => Err(e),
            Ok(xs) => match assoc_key(pairs, DynValue::Integer(k as i64)) {
                Some(v) => match de_value(v, dopts, depth) {
                    Ok(h) => Ok(xs.push(h)),
                    Err(e) => Err(e),
                },
                None => Err(Error::UnsupportedValueKind),
            },
        }
    }
}

/// Deserializes the first `k` pairs of a table, in order; within a pair the
/// key comes before the value, and the first failure decides the error.
pub open spec fn de_pairs(
    pairs: Seq<(DynValue, DynValue)>,
    k: int,
    dopts: DeserializeOptions,
    depth: int,
) -> Result<Seq<(HostView, HostView)>, Error>
    decreases MAX_SERIALIZE_DEPTH - depth, 1int, k when 0 <= k <= pairs.len()
{
    if k == 0 {
        Ok(Seq::empty())
    } else {
        match de_pairs(pairs, k - 1, dopts, depth) {
            Err(e) => Err(e),
            Ok(ps) => match de_value(pairs[k - 1].0, dopts, depth) {
                Err(e) => Err(e),
                Ok(hk) => match de_value(pairs[k - 1].1, dopts, depth) {
                    Err(e) => Err(e),
                    Ok(hv) => Ok(ps.push((hk, hv))),
                },
            },
        }
    }
}

/// A failing prefix decides the whole list's serialization.
proof fn lemma_ser_list_err_extends(xs: Seq<HostView>, k: int, so: SerializeOptions, depth: int)
    requires
        0 <= k <= xs.len(),
        ser_list(xs.subrange(0, k), so, depth) is Err,
    ensures
        ser_list(xs, so, depth) == ser_list(xs.subrange(0, k), so, depth),
    decreases xs.len(),
{
    if k == xs.len() {
        assert(xs.subrange(0, k) =~= xs);
    } else {
        assert(xs.drop_last().subrange(0, k) =~= xs.subrange(0, k));
        lemma_ser_list_err_extends(xs.drop_last(), k, so, depth);
    }
}

/// A failing prefix decides the whole pair list's serialization.
proof fn lemma_ser_pairs_err_extends(
    ps: Seq<(HostView, HostView)>,
    k: int,
    so: SerializeOptions,
    depth: int,
)
    requires
        0 <= k <= ps.len(),
        ser_pairs(ps.subrange(0, k), so, depth) is Err,
    ensures
        ser_pairs(ps, so, depth) == ser_pairs(ps.subrange(0, k), so, depth),
    decreases ps.len(),
{
    if k == ps.len() {
        assert(ps.subrange(0, k) =~= ps);
    } else {
        assert(ps.drop_last().subrange(0, k) =~= ps.subrange(0, k));
        lemma_ser_pairs_err_extends(ps.drop_last(), k, so, depth);
    }
}

/// A failing prefix decides the whole sequence's deserialization.
proof fn lemma_de_seq_err_extends(
    pairs: Seq<(DynValue, DynValue)>,
    k: int,
    kk: int,
    dopts: DeserializeOptions,
    depth: int,
)
    requires
        0 <= k <= kk,
        de_seq(pairs, k, dopts, depth) is Err,
    ensures
        de_seq(pairs, kk, dopts, depth) == de_seq(pairs, k, dopts, depth),
    decreases kk,
{
    if kk > k {
        lemma_de_seq_err_extends(pairs, k, kk - 1, dopts, depth);
    }
}

/// A failing prefix decides the whole pair list's deserialization.
proof fn lemma_de_pairs_err_extends(
    pairs: Seq<(DynValue, DynValue)>,
    k: int,
    kk: int,
    dopts: DeserializeOptions,
    depth: int,
)
    requires
        0 <= k <= kk <= pairs.len(),
        de_pairs(pairs, k, dopts, depth) is Err,
    ensures
        de_pairs(pairs, kk, dopts, depth) == de_pairs(pairs, k, dopts, depth),
    decreases kk,
{
    if kk > k {
        lemma_de_pairs_err_extends(pairs, k, kk - 1, dopts, depth);
    }
}

/// Appending a pair appends its model to the pair vector's model.
proof fn lemma_view_pairs_push(s: Seq<(Value, Value)>, p: (Value, Value))
    ensures
        view_pairs(s.push(p)) == view_pairs(s).push((value_view(p.0), value_view(p.1))),
{
    lemma_view_pairs_index(s.push(p));
    lemma_view_pairs_index(s);
    assert forall|i: int| 0 <= i < s.len() implies view_pairs(s.push(p))[i] == view_pairs(
        s,
    )[i] by {
        assert(s.push(p)[i].0 == s[i].0);
        assert(s.push(p)[i].1 == s[i].1);
    }
    assert(s.push(p)[s.len() as int].0 == p.0);
    assert(s.push(p)[s.len() as int].1 == p.1);
    assert(s.push(p)[s.len() as int] == p);
    assert(view_pairs(s.push(p)) =~= view_pairs(s).push((value_view(p.0), value_view(p.1))));
}

/// Appending an element appends its model to the list's model.
proof fn lemma_host_view_list_push(s: Seq<HostValue>, x: HostValue)
    ensures
        host_view_list(s.push(x)) == host_view_list(s).push(host_view(x)),
{
    lemma_host_view_list_index(s.push(x));
    lemma_host_view_list_index(s);
    assert forall|i: int| 0 <= i < s.len() implies host_view_list(s.push(x))[i] == host_view_list(
        s,
    )[i] by {
        assert(s.push(x)[i] == s[i]);
    }
    assert(s.push(x)[s.len() as int] == x);
    assert(host_view_list(s.push(x)) =~= host_view_list(s).push(host_view(x)));
}

/// Appending a pair appends its model to the pair list's model.
proof fn lemma_host_view_pairs_push(s: Seq<(HostValue, HostValue)>, p: (HostValue, HostValue))
    ensures
        host_view_pairs(s.push(p)) == host_view_pairs(s).push((host_view(p.0), host_view(p.1))),
{
    lemma_host_view_pairs_index(s.push(p));
    lemma_host_view_pairs_index(s);
    assert forall|i: int| 0 <= i < s.len() implies host_view_pairs(s.push(p))[i]
        == host_view_pairs(s)[i] by {
        assert(s.push(p)[i].0 == s[i].0);
        assert(s.push(p)[i].1 == s[i].1);
    }
    assert(s.push(p)[s.len() as int].0 == p.0);
    assert(s.push(p)[s.len() as int].1 == p.1);
    assert(s.push(p)[s.len() as int] == p);
    assert(host_view_pairs(s.push(p)) =~= host_view_pairs(s).push(
        (host_view(p.0), host_view(p.1)),
    ));
}

/// Serializes one host value into a dynamic value, with the depth guard.
#[verifier::rlimit(50)]
fn ser_exec(h: &HostValue, so: SerializeOptions, depth: usize) -> (r: Result<Value, Error>)
    requires
        depth <= MAX_SERIALIZE_DEPTH,
    ensures
        match ser_value(h@, so, depth as int) {
            Ok(dv) => r matches Ok(v) && v@ == dv,
            Err(e) => r == Err::<Value, Error>(e),
        },
    decreases MAX_SERIALIZE_DEPTH - depth,
{
    match h {
        HostValue::Unit => {
            if so.serialize_none_to_null {
                Ok(Value::LightUserData(0))
            } else {
                Ok(Value::Nil)
            }
        },
        HostValue::Bool(b) => Ok(Value::Boolean(*b)),
        HostValue::Int(i) => Ok(Value::Integer(*i)),
        HostValue::Text(s) => Ok(Value::Str(s.clone())),
        HostValue::List(xs) => {
            let ghost hv = host_view_list(xs@);
            proof {
                lemma_host_view_list_index(xs@);
            }
            if depth >= MAX_SERIALIZE_DEPTH {
                return Err(Error::SerializationDepthExceeded);
            }
            if xs.len() as u64 > MAX_SEQUENCE_LEN {
                return Err(Error::UnsupportedValueKind);
            }
            let mut pairs: Vec<(Value, Value)> = Vec::new();
            let n = xs.len();
            for i in 0..n
                invariant
                    n == xs@.len(),
                    n as u64 <= MAX_SEQUENCE_LEN,
                    depth < MAX_SERIALIZE_DEPTH,
                    hv == host_view_list(xs@),
                    h@ == HostView::List(hv),
                    hv.len() == n,
                    forall|x: int| 0 <= x < n ==> hv[x] == host_view(#[trigger] xs@[x]),
                    ser_list(hv.subrange(0, i as int), so, depth + 1) == Ok::<
                        Seq<(DynValue, DynValue)>,
                        Error,
                    >(view_pairs(pairs@)),
                decreases n - i,
            {
                match ser_exec(&xs[i], so, depth + 1) {
                    Err(e) => {
                        proof {
                            let pre = hv.subrange(0, i as int);
                            let cur = hv.subrange(0, i + 1);
                            assert(cur.drop_last() =~= pre);
                            assert(cur.last() == hv[i as int]);
                            assert(ser_list(cur, so, depth + 1) == Err::<
                                Seq<(DynValue, DynValue)>,
                                Error,
                            >(e));
                            lemma_ser_list_err_extends(hv, i + 1, so, depth + 1);
                            assert(hv.subrange(0, hv.len() as int) =~= hv);
                        }
                        return Err(e);
                    },
                    Ok(v) => {
                        let key: i64 = (i as i64) + 1;
                        let ghost pairs0 = pairs@;
                        pairs.push((Value::Integer(key), v));
                        proof {
                            let pre = hv.subrange(0, i as int);
                            let cur = hv.subrange(0, i + 1);
                            assert(cur.drop_last() =~= pre);
                            assert(cur.last() == hv[i as int]);
                            lemma_view_pairs_push(pairs0, (Value::Integer(key), v));
                            assert(cur.len() == i + 1);
                            assert(ser_list(cur, so, depth + 1) == Ok::<
                                Seq<(DynValue, DynValue)>,
                                Error,
                            >(view_pairs(pairs@)));
                        }
                    },
                }
            }
            proof {
                assert(hv.subrange(0, n as int) =~= hv);
            }
            Ok(Value::Table(Table { pairs, array_tag: so.set_array_metatable }))
        },
        HostValue::Dict(ps) => {
            if depth >= MAX_SERIALIZE_DEPTH {
                return Err(Error::SerializationDepthExceeded);
            }
            let ghost hp = host_view_pairs(ps@);
            proof {
                lemma_host_view_pairs_index(ps@);
            }
            let mut pairs: Vec<(Value, Value)> = Vec::new();
            let n = ps.len();
            for i in 0..n
                invariant
                    n == ps@.len(),
                    depth < MAX_SERIALIZE_DEPTH,
                    hp == host_view_pairs(ps@),
                    h@ == HostView::Dict(hp),
                    hp.len() == n,
                    forall|x: int| 0 <= x < n ==> hp[x] == (
                        host_view((#[trigger] ps@[x]).0),
                        host_view(ps@[x].1),
                    ),
                    ser_pairs(hp.subrange(0, i as int), so, depth + 1) == Ok::<
                        Seq<(DynValue, DynValue)>,
                        Error,
                    >(view_pairs(pairs@)),
                decreases n - i,
            {
                let ghost pre = hp.subrange(0, i as int);
                let ghost cur = hp.subrange(0, i + 1);
                proof {
                    assert(cur.drop_last() =~= pre);
                    assert(cur.last() == hp[i as int]);
                }
                let k = match ser_exec(&ps[i].0, so, depth + 1) {
                    Err(e) => {
                        proof {
                            lemma_ser_pairs_err_extends(hp, i + 1, so, depth + 1);
                            assert(hp.subrange(0, hp.len() as int) =~= hp);
                        }
                        return Err(e);
                    },
                    Ok(k) => k,
                };
                let v = match ser_exec(&ps[i].1, so, depth + 1) {
                    Err(e) => {
                        proof {
                            lemma_ser_pairs_err_extends(hp, i + 1, so, depth + 1);
                            assert(hp.subrange(0, hp.len() as int) =~= hp);
                        }
                        return Err(e);
                    },
                    Ok(v) => v,
                };
                let ghost pairs0 = pairs@;
                pairs.push((k, v));
                proof {
                    lemma_view_pairs_push(pairs0, (k, v));
                    assert(ser_pairs(cur, so, depth + 1) == Ok::<
                        Seq<(DynValue, DynValue)>,
                        Error,
                    >(view_pairs(pairs@)));
                }
            }
            proof {
                assert(hp.subrange(0, n as int) =~= hp);
            }
            Ok(Value::Table(Table { pairs, array_tag: false }))
        },
    }
}

/// The dynamic values on which the bridge's round trip is the identity:
/// every kind the bridge can represent, encoded the way `ser_value` itself
/// encodes it under the options `so`.
///
/// Absence appears as the options' encoding of "no value" (the sentinel or
/// nil, never both); a sequence-classified table carries exactly the keys
/// `1..=n` in order and the tag the serializer would emit; any other table
/// is read as a map, so it must not be sequence-shaped nor tagged; callables
/// and opaque handles have no host form at all.
pub open spec fn canonical(v: DynValue, so: SerializeOptions, depth: int) -> bool
    decreases MAX_SERIALIZE_DEPTH - depth, 0int, 0int when depth <= MAX_SERIALIZE_DEPTH
{
    match v {
        DynValue::Nil => !so.serialize_none_to_null,
        DynValue::Boolean(_) => true,
        DynValue::Integer(_) => true,
        DynValue::Str(_) => true,
        DynValue::LightUserData(a) => a == 0 && so.serialize_none_to_null,
        DynValue::Function(_) => false,
        DynValue::UserData(_) => false,
        DynValue::Table(t) => depth < MAX_SERIALIZE_DEPTH && (if t.array_tag
            || is_sequence_shaped(t.pairs) {
            &&& t.array_tag == so.set_array_metatable
            &&& t.pairs.len() <= MAX_SEQUENCE_LEN
            &&& forall|i: int|
                0 <= i < t.pairs.len() ==> (#[trigger] t.pairs[i]).0 == DynValue::Integer(
                    (i + 1) as i64,
                )
            &&& forall|i: int|
                0 <= i < t.pairs.len() ==> canonical((#[trigger] t.pairs[i]).1, so, depth + 1)
        } else {
            forall|i: int|
                0 <= i < t.pairs.len() ==> canonical((#[trigger] t.pairs[i]).0, so, depth + 1)
                    && canonical(t.pairs[i].1, so, depth + 1)
        }),
    }
}

/// In a table whose keys are exactly the integers `1..=n` in order, the key
/// `j` is found at position `j - 1`.
proof fn lemma_inorder_key_found(pairs: Seq<(DynValue, DynValue)>, j: int)
    requires
        forall|i: int|
            0 <= i < pairs.len() ==> (#[trigger] pairs[i]).0 == DynValue::Integer((i + 1) as i64),
        pairs.len() <= MAX_SEQUENCE_LEN,
        1 <= j <= pairs.len(),
    ensures
        assoc_key(pairs, DynValue::Integer(j as i64)) == Some(pairs[j - 1].1),
{
    assert forall|x: int| 0 <= x < j - 1 implies (#[trigger] pairs[x]).0 != DynValue::Integer(
        j as i64,
    ) by {
        assert(pairs[x].0 == DynValue::Integer((x + 1) as i64));
    }
    lemma_assoc_key_found(pairs, j - 1, DynValue::Integer(j as i64));
}

/// A table whose keys are exactly the integers `1..=n` in order has a
/// contiguous run of the whole table.
proof fn lemma_inorder_run(pairs: Seq<(DynValue, DynValue)>, j: int)
    requires
        forall|i: int|
            0 <= i < pairs.len() ==> (#[trigger] pairs[i]).0 == DynValue::Integer((i + 1) as i64),
        pairs.len() <= MAX_SEQUENCE_LEN,
        1 <= j <= pairs.len() + 1,
    ensures
        prefix_run(pairs, j) == pairs.len(),
    decreases pairs.len() + 2 - j,
{
    if j > pairs.len() {
    } else {
        lemma_inorder_key_found(pairs, j);
        lemma_inorder_run(pairs, j + 1);
    }
}

/// Round-trip law for sequences: deserializing the values at keys `1..=k`
/// of a canonical sequence table and serializing them back rebuilds exactly
/// the table's first `k` pairs.
proof fn lemma_round_trip_seq(
    pairs: Seq<(DynValue, DynValue)>,
    k: int,
    so: SerializeOptions,
    dopts: DeserializeOptions,
    depth: int,
)
    requires
        0 <= depth <= MAX_SERIALIZE_DEPTH,
        forall|i: int|
            0 <= i < pairs.len() ==> (#[trigger] pairs[i]).0 == DynValue::Integer((i + 1) as i64),
        forall|i: int| 0 <= i < pairs.len() ==> canonical((#[trigger] pairs[i]).1, so, depth),
        pairs.len() <= MAX_SEQUENCE_LEN,
        0 <= k <= pairs.len(),
    ensures
        de_seq(pairs, k, dopts, depth) matches Ok(hs) && hs.len() == k && ser_list(hs, so, depth)
            == Ok::<Seq<(DynValue, DynValue)>, Error>(pairs.subrange(0, k)),
    decreases MAX_SERIALIZE_DEPTH - depth, 1int, k,
{
    if k == 0 {
        assert(pairs.subrange(0, 0) =~= Seq::<(DynValue, DynValue)>::empty());
    } else {
        lemma_round_trip_seq(pairs, k - 1, so, dopts, depth);
        lemma_inorder_key_found(pairs, k);
        lemma_round_trip(pairs[k - 1].1, so, dopts, depth);
        let hs0 = de_seq(pairs, k - 1, dopts, depth)->Ok_0;
        let h = de_value(pairs[k - 1].1, dopts, depth)->Ok_0;
        let hs = hs0.push(h);
        assert(de_seq(pairs, k, dopts, depth) == Ok::<Seq<HostView>, Error>(hs));
        assert(hs.drop_last() =~= hs0);
        assert(ser_list(hs, so, depth) == Ok::<Seq<(DynValue, DynValue)>, Error>(
            pairs.subrange(0, k - 1).push((DynValue::Integer(k as i64), pairs[k - 1].1)),
        ));
        assert(pairs[k - 1].0 == DynValue::Integer(k as i64));
        assert(pairs.subrange(0, k - 1).push((DynValue::Integer(k as i64), pairs[k - 1].1)) =~= pairs.subrange(
            0,
            k,
        ));
    }
}

/// Round-trip law for maps: deserializing the first `k` pairs of a
/// canonical map table and serializing them back rebuilds exactly those
/// pairs.
proof fn lemma_round_trip_map(
    pairs: Seq<(DynValue, DynValue)>,
    k: int,
    so: SerializeOptions,
    dopts: DeserializeOptions,
    depth: int,
)
    requires
        0 <= depth <= MAX_SERIALIZE_DEPTH,
        forall|i: int|
            0 <= i < pairs.len() ==> canonical((#[trigger] pairs[i]).0, so, depth) && canonical(
                pairs[i].1,
                so,
                depth,
            ),
        0 <= k <= pairs.len(),
    ensures
        de_pairs(pairs, k, dopts, depth) matches Ok(hp) && hp.len() == k && ser_pairs(
            hp,
            so,
            depth,
        ) == Ok::<Seq<(DynValue, DynValue)>, Error>(pairs.subrange(0, k)),
    decreases MAX_SERIALIZE_DEPTH - depth, 1int, k,
{
    if k == 0 {
        assert(pairs.subrange(0, 0) =~= Seq::<(DynValue, DynValue)>::empty());
    } else {
        lemma_round_trip_map(pairs, k - 1, so, dopts, depth);
        lemma_round_trip(pairs[k - 1].0, so, dopts, depth);
        lemma_round_trip(pairs[k - 1].1, so, dopts, depth);
        let hp0 = de_pairs(pairs, k - 1, dopts, depth)->Ok_0;
        let hk = de_value(pairs[k - 1].0, dopts, depth)->Ok_0;
        let hv = de_value(pairs[k - 1].1, dopts, depth)->Ok_0;
        let hp = hp0.push((hk, hv));
        assert(de_pairs(pairs, k, dopts, depth) == Ok::<Seq<(HostView, HostView)>, Error>(hp));
        assert(hp.drop_last() =~= hp0);
        assert(ser_pairs(hp, so, depth) == Ok::<Seq<(DynValue, DynValue)>, Error>(
            pairs.subrange(0, k - 1).push((pairs[k - 1].0, pairs[k - 1].1)),
        ));
        assert(pairs.subrange(0, k - 1).push((pairs[k - 1].0, pairs[k - 1].1)) =~= pairs.subrange(
            0,
            k,
        ));
    }
}

/// The round-trip law: on every dynamic value in the bridge's supported
/// kind set — [`canonical`] under the serialization options — deserializing
/// and serializing back is the identity, under forced-sequence and
/// heuristic classification alike, and whatever the deserialization
/// options.
pub proof fn lemma_round_trip(
    v: DynValue,
    so: SerializeOptions,
    dopts: DeserializeOptions,
    depth: int,
)
    requires
        0 <= depth <= MAX_SERIALIZE_DEPTH,
        canonical(v, so, depth),
    ensures
        de_value(v, dopts, depth) matches Ok(h) && ser_value(h, so, depth) == Ok::<
            DynValue,
            Error,
        >(v),
    decreases MAX_SERIALIZE_DEPTH - depth, 0int, 0int,
{
    match v {
        DynValue::Table(t) => {
            if t.array_tag || is_sequence_shaped(t.pairs) {
                lemma_inorder_run(t.pairs, 1);
                let run = contiguous_run(t.pairs);
                assert(run == t.pairs.len());
                lemma_round_trip_seq(t.pairs, run, so, dopts, depth + 1);
                let hs = de_seq(t.pairs, run, dopts, depth + 1)->Ok_0;
                assert(de_value(v, dopts, depth) == Ok::<HostView, Error>(HostView::List(hs)));
                assert(t.pairs.subrange(0, run) =~= t.pairs);
                assert(ser_value(HostView::List(hs), so, depth) matches Ok(dv) && dv
                    == DynValue::Table(
                    TableView { pairs: t.pairs, array_tag: so.set_array_metatable },
                ));
                assert(TableView { pairs: t.pairs, array_tag: so.set_array_metatable } =~= t);
            } else {
                let n = t.pairs.len() as int;
                lemma_round_trip_map(t.pairs, n, so, dopts, depth + 1);
                let hp = de_pairs(t.pairs, n, dopts, depth + 1)->Ok_0;
                assert(de_value(v, dopts, depth) == Ok::<HostView, Error>(HostView::Dict(hp)));
                assert(t.pairs.subrange(0, n) =~= t.pairs);
                assert(ser_value(HostView::Dict(hp), so, depth) matches Ok(dv) && dv
                    == DynValue::Table(TableView { pairs: t.pairs, array_tag: false }));
                assert(TableView { pairs: t.pairs, array_tag: false } =~= t);
            }
        },
        _ => {},
    }
}

/// Finds the first table pair whose key is the engine integer `j`.
fn find_int_value(pairs: &Vec<(Value, Value)>, j: i64) -> (r: Option<usize>)
    ensures
        match r {
            Some(i) => i < pairs@.len() && value_view(pairs@[i as int].0) == DynValue::Integer(j)
                && forall|x: int|
                0 <= x < i ==> value_view((#[trigger] pairs@[x]).0) != DynValue::Integer(j),
            None => forall|x: int|
                0 <= x < pairs@.len() ==> value_view((#[trigger] pairs@[x]).0)
                    != DynValue::Integer(j),
        },
{
    let n = pairs.len();
    let mut i: usize = 0;
    while i < n
        invariant
            0 <= i <= n,
            n == pairs@.len(),
            forall|x: int| 0 <= x < i ==> value_view((#[trigger] pairs@[x]).0) != DynValue::Integer(
                j,
            ),
        decreases n - i,
    {
        let hit = match &pairs[i].0 {
            Value::Integer(v) => *v == j,
            _ => false,
        };
        if hit {
            return Some(i);
        }
        i = i + 1;
    }
    None
}

/// Measures the contiguous integer-key run of a table, counted from key 1.
fn compute_run(pairs: &Vec<(Value, Value)>) -> (run: usize)
    ensures
        run as int == contiguous_run(view_pairs(pairs@)),
        run <= pairs@.len(),
        run as u64 <= MAX_SEQUENCE_LEN,
{
    let ghost vp = view_pairs(pairs@);
    proof {
        lemma_view_pairs_index(pairs@);
        lemma_prefix_run_bounds(vp, 1);
    }
    let n = pairs.len();
    let mut j: usize = 1;
    while j <= n && j as u64 <= MAX_SEQUENCE_LEN
        invariant
            1 <= j <= n + 1,
            n == pairs@.len(),
            vp == view_pairs(pairs@),
            vp.len() == n,
            forall|x: int| 0 <= x < n ==> (#[trigger] vp[x]) == (
                value_view(pairs@[x].0),
                value_view(pairs@[x].1),
            ),
            contiguous_run(vp) == prefix_run(vp, j as int),
        decreases n + 1 - j,
    {
        match find_int_value(pairs, j as i64) {
            Some(i) => {
                proof {
                    assert forall|x: int| 0 <= x < i implies (#[trigger] vp[x]).0
                        != DynValue::Integer(j as i64) by {
                        assert(vp[x].0 == value_view(pairs@[x].0));
                    }
                    assert(vp[i as int].0 == DynValue::Integer(j as i64));
                    lemma_assoc_key_found(vp, i as int, DynValue::Integer(j as i64));
                }
                if j == n || j as u64 == MAX_SEQUENCE_LEN {
                    proof {
                        assert(prefix_run(vp, j as int) == prefix_run(vp, j as int + 1));
                        assert(prefix_run(vp, j as int + 1) == j as int);
                    }
                    return j;
                }
                j = j + 1;
            },
            None => {
                proof {
                    assert forall|x: int| 0 <= x < vp.len() implies (#[trigger] vp[x]).0
                        != DynValue::Integer(j as i64) by {
                        assert(vp[x].0 == value_view(pairs@[x].0));
                    }
                    lemma_assoc_key_none(vp, DynValue::Integer(j as i64));
                }
                return j - 1;
            },
        }
    }
    j - 1
}

/// The heuristic sequence test: every key is an engine integer inside the
/// contiguous run starting at key 1.
fn check_sequence_shaped(pairs: &Vec<(Value, Value)>, run: usize) -> (r: bool)
    requires
        run as int == contiguous_run(view_pairs(pairs@)),
        run as u64 <= MAX_SEQUENCE_LEN,
    ensures
        r == is_sequence_shaped(view_pairs(pairs@)),
{
    let ghost vp = view_pairs(pairs@);
    proof {
        lemma_view_pairs_index(pairs@);
    }
    let n = pairs.len();
    let mut i: usize = 0;
    while i < n
        invariant
            0 <= i <= n,
            n == pairs@.len(),
            vp == view_pairs(pairs@),
            vp.len() == n,
            run as int == contiguous_run(vp),
            run as u64 <= MAX_SEQUENCE_LEN,
            forall|x: int| 0 <= x < n ==> (#[trigger] vp[x]) == (
                value_view(pairs@[x].0),
                value_view(pairs@[x].1),
            ),
            forall|x: int|
                0 <= x < i ==> ((#[trigger] vp[x]).0 is Integer && 1 <= vp[x].0->Integer_0
                    <= contiguous_run(vp)),
        decreases n - i,
    {
        let ok = match &pairs[i].0 {
            Value::Integer(v) => 1 <= *v && *v <= run as i64,
            _ => false,
        };
        if !ok {
            proof {
                assert(vp[i as int].0 == value_view(pairs@[i as int].0));
            }
            return false;
        }
        proof {
            assert(vp[i as int].0 == value_view(pairs@[i as int].0));
        }
        i = i + 1;
    }
    true
}

/// Deserializes one dynamic value into a host value, with the depth guard.
#[verifier::rlimit(50)]
fn de_exec(v: &Value, dopts: DeserializeOptions, depth: usize) -> (r: Result<HostValue, Error>)
    requires
        depth <= MAX_SERIALIZE_DEPTH,
    ensures
        match de_value(v@, dopts, depth as int) {
            Ok(hv) => r matches Ok(h) && h@ == hv,
            Err(e) => r == Err::<HostValue, Error>(e),
        },
    decreases MAX_SERIALIZE_DEPTH - depth,
{
    match v {
        Value::Nil => Ok(HostValue::Unit),
        Value::Boolean(b) => Ok(HostValue::Bool(*b)),
        Value::Integer(i) => Ok(HostValue::Int(*i)),
        Value::Str(s) => Ok(HostValue::Text(s.clone())),
        Value::LightUserData(a) => {
            if *a == 0 {
                Ok(HostValue::Unit)
            } else if dopts.deny_unsupported_types {
                Err(Error::UnsupportedValueKind)
            } else {
                Ok(HostValue::Unit)
            }
        },
        Value::Function(_) => {
            if dopts.deny_unsupported_types {
                Err(Error::UnsupportedValueKind)
            } else {
                Ok(HostValue::Unit)
            }
        },
        Value::UserData(_) => {
            if dopts.deny_unsupported_types {
                Err(Error::UnsupportedValueKind)
            } else {
                Ok(HostValue::Unit)
            }
        },
        Value::Table(t) => {
            let ghost vp = view_pairs(t.pairs@);
            proof {
                lemma_view_pairs_index(t.pairs@);
            }
            if depth >= MAX_SERIALIZE_DEPTH {
                return Err(Error::SerializationDepthExceeded);
            }
            let run = compute_run(&t.pairs);
            let as_seq = if t.array_tag {
                true
            } else {
                check_sequence_shaped(&t.pairs, run)
            };
            if as_seq {
                let mut xs: Vec<HostValue> = Vec::new();
                for cnt in 0..run
                    invariant
                        run as int == contiguous_run(vp),
                        run <= t.pairs@.len(),
                        run as u64 <= MAX_SEQUENCE_LEN,
                        depth < MAX_SERIALIZE_DEPTH,
                        vp == view_pairs(t.pairs@),
                        vp.len() == t.pairs@.len(),
                        v@ == DynValue::Table(TableView { pairs: vp, array_tag: t.array_tag }),
                        t.array_tag || is_sequence_shaped(vp),
                        forall|x: int| 0 <= x < vp.len() ==> (#[trigger] vp[x]) == (
                            value_view(t.pairs@[x].0),
                            value_view(t.pairs@[x].1),
                        ),
                        de_seq(vp, cnt as int, dopts, depth + 1) == Ok::<Seq<HostView>, Error>(
                            host_view_list(xs@),
                        ),
                    decreases run - cnt,
                {
                    let j = cnt + 1;
                    match find_int_value(&t.pairs, j as i64) {
                        Some(idx) => {
                            proof {
                                assert forall|x: int| 0 <= x < idx implies (#[trigger] vp[x]).0
                                    != DynValue::Integer(j as i64) by {
                                    assert(vp[x].0 == value_view(t.pairs@[x].0));
                                }
                                assert(vp[idx as int].0 == DynValue::Integer(j as i64));
                                lemma_assoc_key_found(vp, idx as int, DynValue::Integer(j as i64));
                            }
                            match de_exec(&t.pairs[idx].1, dopts, depth + 1) {
                                Err(e) => {
                                    proof {
                                        assert(de_seq(vp, j as int, dopts, depth + 1) == Err::<
                                            Seq<HostView>,
                                            Error,
                                        >(e));
                                        lemma_de_seq_err_extends(
                                            vp,
                                            j as int,
                                            run as int,
                                            dopts,
                                            depth + 1,
                                        );
                                    }
                                    return Err(e);
                                },
                                Ok(h) => {
                                    let ghost xs0 = xs@;
                                    let ghost hval = h@;
                                    xs.push(h);
                                    proof {
                                        lemma_host_view_list_push(xs0, xs@[xs0.len() as int]);
                                        assert(de_seq(vp, j as int, dopts, depth + 1) == Ok::<
                                            Seq<HostView>,
                                            Error,
                                        >(host_view_list(xs@)));
                                    }
                                },
                            }
                        },
                        None => {
                            proof {
                                assert forall|x: int| 0 <= x < vp.len() implies (
                                #[trigger] vp[x]).0 != DynValue::Integer(j as i64) by {
                                    assert(vp[x].0 == value_view(t.pairs@[x].0));
                                }
                                lemma_assoc_key_none(vp, DynValue::Integer(j as i64));
                                lemma_run_present(vp, 1, j as int);
                            }
                            return unreached();
                        },
                    }
                }
                Ok(HostValue::List(xs))
            } else {
                let mut ps: Vec<(HostValue, HostValue)> = Vec::new();
                let n = t.pairs.len();
                for i in 0..n
                    invariant
                        n == t.pairs@.len(),
                        depth < MAX_SERIALIZE_DEPTH,
                        vp == view_pairs(t.pairs@),
                        vp.len() == n,
                        v@ == DynValue::Table(TableView { pairs: vp, array_tag: t.array_tag }),
                        !t.array_tag && !is_sequence_shaped(vp),
                        forall|x: int| 0 <= x < n ==> (#[trigger] vp[x]) == (
                            value_view(t.pairs@[x].0),
                            value_view(t.pairs@[x].1),
                        ),
                        de_pairs(vp, i as int, dopts, depth + 1) == Ok::<
                            Seq<(HostView, HostView)>,
                            Error,
                        >(host_view_pairs(ps@)),
                    decreases n - i,
                {
                    let hk = match de_exec(&t.pairs[i].0, dopts, depth + 1) {
                        Err(e) => {
                            proof {
                                assert(de_pairs(vp, i + 1, dopts, depth + 1) == Err::<
                                    Seq<(HostView, HostView)>,
                                    Error,
                                >(e));
                                lemma_de_pairs_err_extends(vp, i + 1, n as int, dopts, depth + 1);
                            }
                            return Err(e);
                        },
                        Ok(h) => h,
                    };
                    let hv = match de_exec(&t.pairs[i].1, dopts, depth + 1) {
                        Err(e) => {
                            proof {
                                assert(de_pairs(vp, i + 1, dopts, depth + 1) == Err::<
                                    Seq<(HostView, HostView)>,
                                    Error,
                                >(e));
                                lemma_de_pairs_err_extends(vp, i + 1, n as int, dopts, depth + 1);
                            }
                            return Err(e);
                        },
                        Ok(h) => h,
                    };
                    let ghost ps0 = ps@;
                    ps.push((hk, hv));
                    proof {
                        lemma_host_view_pairs_push(ps0, ps@[ps0.len() as int]);
                        assert(de_pairs(vp, i + 1, dopts, depth + 1) == Ok::<
                            Seq<(HostView, HostView)>,
                            Error,
                        >(host_view_pairs(ps@)));
                    }
                }
                Ok(HostValue::Dict(ps))
            }
        },
    }
}

/// Recovers a host value tree from a dynamic value tree under the default
/// options.
pub fn from_value(v: &Value) -> (r: Result<HostValue, Error>)
    ensures
        match de_value(v@, DeserializeOptions { deny_unsupported_types: true }, 0) {
            Ok(hv) => r matches Ok(h) && h@ == hv,
            Err(e) => r == Err::<HostValue, Error>(e),
        },
{
    de_exec(v, DeserializeOptions::new(), 0)
}

/// Recovers a host value tree from a dynamic value tree under the given
/// options.
pub fn from_value_with(v: &Value, options: DeserializeOptions) -> (r: Result<HostValue, Error>)
    ensures
        match de_value(v@, options, 0) {
            Ok(hv) => r matches Ok(h) && h@ == hv,
            Err(e) => r == Err::<HostValue, Error>(e),
        },
{
    de_exec(v, options, 0)
}

/// Converts a host value tree into a dynamic value tree under the default
/// options.
pub fn to_value(h: &HostValue) -> (r: Result<Value, Error>)
    ensures
        match ser_value(
            h@,
            SerializeOptions { set_array_metatable: true, serialize_none_to_null: true },
            0,
        ) {
            Ok(dv) => r matches Ok(v) && v@ == dv,
            Err(e) => r == Err::<Value, Error>(e),
        },
{
    ser_exec(h, SerializeOptions::new(), 0)
}

/// Converts a host value tree into a dynamic value tree under the given
/// options.
pub fn to_value_with(h: &HostValue, options: SerializeOptions) -> (r: Result<Value, Error>)
    ensures
        match ser_value(h@, options, 0) {
            Ok(dv) => r matches Ok(v) && v@ == dv,
            Err(e) => r == Err::<Value, Error>(e),
        },
{
    ser_exec(h, options, 0)
}

} // verus!
