use mlua::app_data::AppData;
use mlua::error::Error;

const TYPE_A: u64 = 1;
const TYPE_B: u64 = 2;

#[test]
fn insert_returns_prior_value() {
    let mut app: AppData<String> = AppData::new();
    assert_eq!(app.insert(TYPE_A, "one".to_string()), None);
    assert_eq!(app.insert(TYPE_A, "two".to_string()), Some("one".to_string()));
    assert_eq!(app.insert(TYPE_B, "b".to_string()), None);
}

#[test]
fn borrow_gates_structural_modification() {
    // Inserting type A, borrowing it, then attempting to remove type B while
    // A's borrow is live fails; after dropping A's borrow the remove
    // succeeds.
    let mut app: AppData<i64> = AppData::new();
    assert_eq!(app.try_insert(TYPE_A, 10), Ok(None));
    assert_eq!(app.try_insert(TYPE_B, 20), Ok(None));
    let guard = app.borrow(TYPE_A).unwrap();
    assert_eq!(*app.get(&guard), 10);
    assert_eq!(app.try_remove(TYPE_B), Err(Error::BorrowConflict));
    assert_eq!(app.try_insert(TYPE_B, 21), Err(21));
    app.release(guard);
    assert_eq!(app.try_remove(TYPE_B), Ok(Some(20)));
    assert_eq!(app.remove(TYPE_A), Some(10));
    assert_eq!(app.remove(TYPE_A), None);
}

#[test]
fn borrow_of_absent_type_is_none() {
    let mut app: AppData<i64> = AppData::new();
    assert!(app.borrow(TYPE_A).is_none());
    assert!(app.borrow_mut(TYPE_A).is_none());
}

#[test]
fn exclusive_borrow_and_replace() {
    let mut app: AppData<i64> = AppData::new();
    app.insert(TYPE_A, 1);
    let guard = app.borrow_mut(TYPE_A).unwrap();
    assert_eq!(*app.get_mut(&guard), 1);
    assert_eq!(app.replace(&guard, 5), 1);
    assert_eq!(*app.get_mut(&guard), 5);
    // structural modification is gated by the exclusive borrow too
    assert_eq!(app.try_remove(TYPE_A), Err(Error::BorrowConflict));
    app.release_mut(guard);
    assert_eq!(app.remove(TYPE_A), Some(5));
}

#[test]
fn several_shared_borrows_gate_until_all_released() {
    let mut app: AppData<i64> = AppData::new();
    app.insert(TYPE_A, 3);
    let g1 = app.borrow(TYPE_A).unwrap();
    let g2 = app.borrow(TYPE_A).unwrap();
    app.release(g1);
    // one guard is still live, so the store still refuses modification
    assert_eq!(app.try_remove(TYPE_A), Err(Error::BorrowConflict));
    app.release(g2);
    assert_eq!(app.try_remove(TYPE_A), Ok(Some(3)));
}
