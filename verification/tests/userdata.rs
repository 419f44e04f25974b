use mlua::error::Error;
use mlua::userdata::{AnyUserData, EqOutcome, Heap, MetaMethod};
use mlua::value::Value;

const POINT: u64 = 1;
const LINE: u64 = 2;

#[test]
fn meta_method_names() {
    assert_eq!(MetaMethod::Add.name(), "__add");
    assert_eq!(MetaMethod::Sub.name(), "__sub");
    assert_eq!(MetaMethod::IDiv.name(), "__idiv");
    assert_eq!(MetaMethod::Concat.name(), "__concat");
    assert_eq!(MetaMethod::Len.name(), "__len");
    assert_eq!(MetaMethod::Eq.name(), "__eq");
    assert_eq!(MetaMethod::Index.name(), "__index");
    assert_eq!(MetaMethod::NewIndex.name(), "__newindex");
    assert_eq!(MetaMethod::Call.name(), "__call");
    assert_eq!(MetaMethod::ToString.name(), "__tostring");
    assert_eq!(MetaMethod::Close.name(), "__close");
    assert_eq!(MetaMethod::Type.name(), "__name");
}

#[test]
fn validate_refuses_reserved_names() {
    assert_eq!(MetaMethod::validate("__add"), Ok("__add"));
    assert_eq!(MetaMethod::validate("frob"), Ok("frob"));
    assert_eq!(
        MetaMethod::validate("__gc"),
        Err(Error::MetaMethodRestricted("__gc".to_string()))
    );
    assert_eq!(
        MetaMethod::validate("__metatable"),
        Err(Error::MetaMethodRestricted("__metatable".to_string()))
    );
    assert_eq!(
        MetaMethod::validate("__mlua_cache"),
        Err(Error::MetaMethodRestricted("__mlua_cache".to_string()))
    );
    assert_eq!(
        MetaMethod::validate("__mlua"),
        Err(Error::MetaMethodRestricted("__mlua".to_string()))
    );
}

#[test]
fn is_checks_tag_and_liveness() {
    let mut heap: Heap<i64> = Heap::new();
    let ud = AnyUserData::wrap(&mut heap, POINT, 11);
    assert!(ud.is(&heap, POINT));
    assert!(!ud.is(&heap, LINE));
    let guard = ud.borrow_mut(&mut heap, POINT).unwrap();
    heap.release_mut(guard);
    assert_eq!(ud.take(&mut heap, POINT), Ok(11));
    assert!(!ud.is(&heap, POINT));
}

#[test]
fn borrow_checks_type_before_state() {
    let mut heap: Heap<i64> = Heap::new();
    let ud = AnyUserData::wrap(&mut heap, POINT, 3);
    assert!(matches!(ud.borrow(&mut heap, LINE), Err(Error::TypeMismatch)));
    assert!(matches!(ud.borrow_mut(&mut heap, LINE), Err(Error::TypeMismatch)));
    assert!(matches!(ud.take(&mut heap, LINE), Err(Error::TypeMismatch)));
}

#[test]
fn handle_borrow_discipline() {
    let mut heap: Heap<i64> = Heap::new();
    let ud = AnyUserData::wrap(&mut heap, POINT, 10);
    let r1 = ud.borrow(&mut heap, POINT).unwrap();
    let r2 = ud.borrow(&mut heap, POINT).unwrap();
    assert_eq!(*heap.read(&r1), 10);
    assert_eq!(*heap.read(&r2), 10);
    // an exclusive borrow fails while readers are live
    assert!(matches!(ud.borrow_mut(&mut heap, POINT), Err(Error::BorrowConflict)));
    heap.release(r1);
    heap.release(r2);
    let w = ud.borrow_mut(&mut heap, POINT).unwrap();
    assert!(matches!(ud.borrow(&mut heap, POINT), Err(Error::BorrowConflict)));
    assert_eq!(heap.write(&w, 20), 10);
    assert_eq!(*heap.read_mut(&w), 20);
    heap.release_mut(w);
}

#[test]
fn take_destructs_the_slot() {
    let mut heap: Heap<i64> = Heap::new();
    let ud = AnyUserData::wrap(&mut heap, POINT, 5);
    let r = ud.borrow(&mut heap, POINT).unwrap();
    assert!(matches!(ud.take(&mut heap, POINT), Err(Error::BorrowConflict)));
    heap.release(r);
    assert_eq!(ud.take(&mut heap, POINT), Ok(5));
    assert!(matches!(ud.take(&mut heap, POINT), Err(Error::Destructed)));
    assert!(matches!(ud.borrow(&mut heap, POINT), Err(Error::Destructed)));
    assert!(matches!(ud.borrow_mut(&mut heap, POINT), Err(Error::Destructed)));
    assert!(matches!(ud.get_metatable(&heap), Err(Error::Destructed)));
    assert!(matches!(ud.set_user_value(&mut heap, Value::Nil), Err(Error::Destructed)));
}

#[test]
fn take_keeps_user_values() {
    let mut heap: Heap<i64> = Heap::new();
    let ud = AnyUserData::wrap(&mut heap, POINT, 5);
    ud.set_nth_user_value(&mut heap, 2, Value::Integer(22)).unwrap();
    assert_eq!(ud.take(&mut heap, POINT), Ok(5));
    // the slot keeps its user values for the collector, but access through
    // the destructed handle is rejected
    assert!(matches!(ud.nth_user_value(&heap, 2), Err(Error::Destructed)));
}

#[test]
fn user_value_fast_and_overflow_boundary() {
    let mut heap: Heap<i64> = Heap::new();
    let ud = AnyUserData::wrap(&mut heap, POINT, 0);
    // index 7 is the last fast slot, index 8 is the first overflow slot;
    // both are independently retrievable afterwards
    ud.set_nth_user_value(&mut heap, 7, Value::Integer(70)).unwrap();
    ud.set_nth_user_value(&mut heap, 8, Value::Integer(80)).unwrap();
    assert_eq!(ud.nth_user_value(&heap, 7), Ok(Value::Integer(70)));
    assert_eq!(ud.nth_user_value(&heap, 8), Ok(Value::Integer(80)));
    // an unset index reads as nil
    assert_eq!(ud.nth_user_value(&heap, 6), Ok(Value::Nil));
    assert_eq!(ud.nth_user_value(&heap, 9), Ok(Value::Nil));
    // overwriting one side leaves the other alone
    ud.set_nth_user_value(&mut heap, 8, Value::Boolean(true)).unwrap();
    assert_eq!(ud.nth_user_value(&heap, 7), Ok(Value::Integer(70)));
    assert_eq!(ud.nth_user_value(&heap, 8), Ok(Value::Boolean(true)));
}

#[test]
fn user_value_index_bounds() {
    let mut heap: Heap<i64> = Heap::new();
    let ud = AnyUserData::wrap(&mut heap, POINT, 0);
    assert!(matches!(
        ud.set_nth_user_value(&mut heap, 0, Value::Nil),
        Err(Error::UserValueIndexOutOfRange)
    ));
    assert!(matches!(
        ud.set_nth_user_value(&mut heap, 65536, Value::Nil),
        Err(Error::UserValueIndexOutOfRange)
    ));
    assert!(matches!(ud.nth_user_value(&heap, 0), Err(Error::UserValueIndexOutOfRange)));
    ud.set_nth_user_value(&mut heap, 65535, Value::Integer(1)).unwrap();
    assert_eq!(ud.nth_user_value(&heap, 65535), Ok(Value::Integer(1)));
}

#[test]
fn first_user_value_aliases() {
    let mut heap: Heap<i64> = Heap::new();
    let ud = AnyUserData::wrap(&mut heap, POINT, 0);
    ud.set_user_value(&mut heap, Value::Integer(9)).unwrap();
    assert_eq!(ud.user_value(&heap), Ok(Value::Integer(9)));
    assert_eq!(ud.get_user_value(&heap), Ok(Value::Integer(9)));
    assert_eq!(ud.get_nth_user_value(&heap, 1), Ok(Value::Integer(9)));
}

#[test]
fn named_user_values() {
    let mut heap: Heap<i64> = Heap::new();
    let ud = AnyUserData::wrap(&mut heap, POINT, 0);
    ud.set_named_user_value(&mut heap, "tag", Value::Integer(1)).unwrap();
    ud.set_named_user_value(&mut heap, "other", Value::Integer(2)).unwrap();
    assert_eq!(ud.named_user_value(&heap, "tag"), Ok(Value::Integer(1)));
    assert_eq!(ud.get_named_user_value(&heap, "other"), Ok(Value::Integer(2)));
    assert_eq!(ud.named_user_value(&heap, "absent"), Ok(Value::Nil));
    ud.set_named_user_value(&mut heap, "tag", Value::Boolean(false)).unwrap();
    assert_eq!(ud.named_user_value(&heap, "tag"), Ok(Value::Boolean(false)));
    assert_eq!(ud.named_user_value(&heap, "other"), Ok(Value::Integer(2)));
}

#[test]
fn metatable_access() {
    let mut heap: Heap<i64> = Heap::new();
    let ud = AnyUserData::wrap(&mut heap, POINT, 0);
    let mt = ud.get_metatable(&heap).unwrap();
    assert_eq!(mt.get(&heap, "__len"), Ok(Value::Nil));
    assert_eq!(mt.contains(&heap, "__len"), Ok(false));
    mt.set(&mut heap, "__len", Value::Function(5)).unwrap();
    assert_eq!(mt.get(&heap, "__len"), Ok(Value::Function(5)));
    assert_eq!(mt.contains(&heap, "__len"), Ok(true));
    // writing nil removes the key
    mt.set(&mut heap, "__len", Value::Nil).unwrap();
    assert_eq!(mt.contains(&heap, "__len"), Ok(false));
    // protected names are refused, read and write alike
    assert!(matches!(mt.get(&heap, "__gc"), Err(Error::MetaMethodRestricted(_))));
    assert!(matches!(
        mt.set(&mut heap, "__metatable", Value::Nil),
        Err(Error::MetaMethodRestricted(_))
    ));
    // the cached dispatchers cannot be replaced at run time
    assert!(matches!(
        mt.set(&mut heap, "__index", Value::Function(1)),
        Err(Error::MetaMethodRestricted(_))
    ));
    assert!(matches!(
        mt.set(&mut heap, "__newindex", Value::Function(1)),
        Err(Error::MetaMethodRestricted(_))
    ));
}

#[test]
fn metatable_pairs_skip_reserved() {
    let mut heap: Heap<i64> = Heap::new();
    let meta = vec![
        ("__gc".to_string(), Value::Function(1)),
        ("__len".to_string(), Value::Function(2)),
        ("__mlua_hidden".to_string(), Value::Function(3)),
        ("__eq".to_string(), Value::Function(4)),
    ];
    let ud = heap.create(POINT, 0, meta, 7);
    let mt = ud.get_metatable(&heap).unwrap();
    let mut pairs = mt.pairs(&heap);
    assert_eq!(pairs.next(), Some(("__len".to_string(), Value::Function(2))));
    assert_eq!(pairs.next(), Some(("__eq".to_string(), Value::Function(4))));
    assert_eq!(pairs.next(), None);
    assert_eq!(pairs.next(), None);
}

#[test]
fn type_label_reads_the_name_metafield() {
    let mut heap: Heap<i64> = Heap::new();
    let named = heap.create(
        POINT,
        0,
        vec![("__name".to_string(), Value::Str("point".to_string()))],
        7,
    );
    assert_eq!(named.type_label(&heap), Ok(Some("point".to_string())));
    let unnamed = AnyUserData::wrap(&mut heap, POINT, 0);
    assert_eq!(unnamed.type_label(&heap), Ok(None));
    let oddly_named = heap.create(POINT, 0, vec![("__name".to_string(), Value::Integer(3))], 7);
    assert_eq!(oddly_named.type_label(&heap), Ok(None));
}

#[test]
fn handle_equality() {
    let mut heap: Heap<i64> = Heap::new();
    let meta = vec![("__eq".to_string(), Value::Function(9))];
    let a = heap.create(POINT, 1, meta.clone(), 7);
    let b = heap.create(POINT, 2, meta, 7);
    let c = AnyUserData::wrap(&mut heap, POINT, 3);
    // identity decides immediately
    assert_eq!(a.equals(&a, &heap), EqOutcome::Decided(true));
    // different dispatch tables are never logically equal
    assert_eq!(a.equals(&c, &heap), EqOutcome::Decided(false));
    // a shared table with an equality overload hands the overload back
    assert_eq!(a.equals(&b, &heap), EqOutcome::Consult(Value::Function(9)));
    // without an overload, distinct slots are unequal
    let d = AnyUserData::wrap(&mut heap, POINT, 4);
    assert_eq!(c.equals(&d, &heap), EqOutcome::Decided(false));
}
