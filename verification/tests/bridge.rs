use mlua::bridge::{from_value, from_value_with, to_value, to_value_with, DeserializeOptions,
    HostValue, SerializeOptions};
use mlua::error::Error;
use mlua::value::{null, Table, Value};

fn seq_table(values: Vec<Value>, array_tag: bool) -> Value {
    let mut pairs = Vec::new();
    for (i, v) in values.into_iter().enumerate() {
        pairs.push((Value::Integer(i as i64 + 1), v));
    }
    Value::Table(Table { pairs, array_tag })
}

#[test]
fn scalars_convert_both_ways() {
    assert_eq!(to_value(&HostValue::Bool(true)), Ok(Value::Boolean(true)));
    assert_eq!(to_value(&HostValue::Int(-3)), Ok(Value::Integer(-3)));
    assert_eq!(
        to_value(&HostValue::Text("hi".to_string())),
        Ok(Value::Str("hi".to_string()))
    );
    assert_eq!(from_value(&Value::Boolean(false)), Ok(HostValue::Bool(false)));
    assert_eq!(from_value(&Value::Integer(7)), Ok(HostValue::Int(7)));
    assert_eq!(from_value(&Value::Nil), Ok(HostValue::Unit));
}

#[test]
fn absence_uses_the_null_sentinel() {
    assert_eq!(null(), Value::LightUserData(0));
    assert_eq!(to_value(&HostValue::Unit), Ok(Value::LightUserData(0)));
    assert_eq!(from_value(&Value::LightUserData(0)), Ok(HostValue::Unit));
    // opt-out: absence becomes plain nil, which cannot survive inside tables
    let opts = SerializeOptions::new().serialize_none_to_null(false);
    assert_eq!(to_value_with(&HostValue::Unit, opts), Ok(Value::Nil));
}

#[test]
fn contiguous_keys_classify_as_sequence() {
    // keys {1,2,3} classify as a 3-element sequence under heuristic mode
    let v = seq_table(
        vec![Value::Integer(10), Value::Integer(20), Value::Integer(30)],
        false,
    );
    assert_eq!(
        from_value(&v),
        Ok(HostValue::List(vec![
            HostValue::Int(10),
            HostValue::Int(20),
            HostValue::Int(30)
        ]))
    );
}

#[test]
fn gap_keys_classify_as_map_or_prefix() {
    let pairs = vec![
        (Value::Integer(1), Value::Integer(10)),
        (Value::Integer(2), Value::Integer(20)),
        (Value::Integer(4), Value::Integer(40)),
    ];
    // keys {1,2,4} classify as a map under heuristic mode
    let untagged = Value::Table(Table { pairs: pairs.clone(), array_tag: false });
    assert_eq!(
        from_value(&untagged),
        Ok(HostValue::Dict(vec![
            (HostValue::Int(1), HostValue::Int(10)),
            (HostValue::Int(2), HostValue::Int(20)),
            (HostValue::Int(4), HostValue::Int(40)),
        ]))
    );
    // ... and as the 2-element contiguous-prefix sequence under forced mode
    let tagged = Value::Table(Table { pairs, array_tag: true });
    assert_eq!(
        from_value(&tagged),
        Ok(HostValue::List(vec![HostValue::Int(10), HostValue::Int(20)]))
    );
}

#[test]
fn attaching_the_array_marker_forces_sequence_reading() {
    let mut t = Table {
        pairs: vec![
            (Value::Integer(1), Value::Integer(10)),
            (Value::Str("a".to_string()), Value::Integer(99)),
        ],
        array_tag: false,
    };
    // untagged, the string key makes this a map
    let untagged = Value::Table(Table { pairs: t.pairs.clone(), array_tag: false });
    assert!(matches!(from_value(&untagged), Ok(HostValue::Dict(_))));
    // tagged, only the contiguous sequence part is read
    t.set_array_tag(true);
    assert_eq!(
        from_value(&Value::Table(t)),
        Ok(HostValue::List(vec![HostValue::Int(10)]))
    );
}

#[test]
fn empty_table_is_an_empty_sequence() {
    let v = Value::Table(Table { pairs: Vec::new(), array_tag: false });
    assert_eq!(from_value(&v), Ok(HostValue::List(Vec::new())));
}

#[test]
fn round_trip_under_forced_mode() {
    // default options: sequences carry the array tag
    let v = seq_table(
        vec![
            Value::Integer(1),
            Value::Str("two".to_string()),
            seq_table(vec![Value::Boolean(true)], true),
        ],
        true,
    );
    let host = from_value(&v).unwrap();
    assert_eq!(to_value(&host), Ok(v));
}

#[test]
fn round_trip_under_heuristic_mode() {
    // untagged sequences round trip when the serializer does not tag either
    let v = seq_table(vec![Value::Integer(5), Value::Integer(6)], false);
    let host = from_value(&v).unwrap();
    let opts = SerializeOptions::new().set_array_metatable(false);
    assert_eq!(to_value_with(&host, opts), Ok(v));
}

#[test]
fn round_trip_of_a_map() {
    let v = Value::Table(Table {
        pairs: vec![
            (Value::Str("a".to_string()), Value::Integer(1)),
            (Value::Str("b".to_string()), Value::LightUserData(0)),
        ],
        array_tag: false,
    });
    let host = from_value(&v).unwrap();
    assert_eq!(
        host,
        HostValue::Dict(vec![
            (HostValue::Text("a".to_string()), HostValue::Int(1)),
            (HostValue::Text("b".to_string()), HostValue::Unit),
        ])
    );
    assert_eq!(to_value(&host), Ok(v));
}

#[test]
fn sentinel_keeps_its_position_in_a_sequence() {
    // a "none" marker nested inside a sequence keeps its exact position
    // across a round trip
    let v = seq_table(
        vec![Value::Integer(1), Value::LightUserData(0), Value::Integer(3)],
        true,
    );
    let host = from_value(&v).unwrap();
    assert_eq!(
        host,
        HostValue::List(vec![HostValue::Int(1), HostValue::Unit, HostValue::Int(3)])
    );
    assert_eq!(to_value(&host), Ok(v));
}

#[test]
fn unsupported_kinds_are_rejected_by_default() {
    assert_eq!(from_value(&Value::Function(3)), Err(Error::UnsupportedValueKind));
    assert_eq!(from_value(&Value::LightUserData(12)), Err(Error::UnsupportedValueKind));
    let ud = Value::UserData(mlua::userdata::AnyUserData { slot: 0 });
    assert_eq!(from_value(&ud), Err(Error::UnsupportedValueKind));
}

#[test]
fn unsupported_kinds_coerce_to_absence_when_permitted() {
    let opts = DeserializeOptions::new().deny_unsupported_types(false);
    assert_eq!(from_value_with(&Value::Function(3), opts), Ok(HostValue::Unit));
    assert_eq!(from_value_with(&Value::LightUserData(12), opts), Ok(HostValue::Unit));
}

#[test]
fn nesting_past_the_depth_guard_is_rejected() {
    let mut v = Value::Integer(0);
    let mut depth = 0;
    while depth < 129 {
        v = Value::Table(Table { pairs: vec![(Value::Integer(1), v)], array_tag: true });
        depth += 1;
    }
    assert_eq!(from_value(&v), Err(Error::SerializationDepthExceeded));

    let mut h = HostValue::Int(0);
    let mut hdepth = 0;
    while hdepth < 129 {
        h = HostValue::List(vec![h]);
        hdepth += 1;
    }
    assert_eq!(to_value(&h), Err(Error::SerializationDepthExceeded));
}

#[test]
fn shallow_nesting_is_accepted() {
    let mut v = Value::Integer(0);
    let mut depth = 0;
    while depth < 127 {
        v = Value::Table(Table { pairs: vec![(Value::Integer(1), v)], array_tag: true });
        depth += 1;
    }
    let host = from_value(&v).unwrap();
    assert_eq!(to_value(&host), Ok(v));
}
