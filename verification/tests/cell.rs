use mlua::cell::{UserDataCell, EXCLUSIVE_BORROW};
use mlua::error::Error;

#[test]
fn shared_borrows_count_up_and_down() {
    let mut cell = UserDataCell::new(7i64);
    assert_eq!(cell.try_borrow(), Ok(()));
    assert_eq!(cell.try_borrow(), Ok(()));
    assert_eq!(cell.borrow, 2);
    cell.release_shared();
    cell.release_shared();
    assert_eq!(cell.borrow, 0);
    assert_eq!(cell.try_borrow_mut(), Ok(()));
    assert_eq!(cell.borrow, EXCLUSIVE_BORROW);
}

#[test]
fn exclusive_borrow_is_exclusive() {
    let mut cell = UserDataCell::new(1i64);
    assert_eq!(cell.try_borrow_mut(), Ok(()));
    // a second exclusive attempt fails and the state is unchanged
    assert_eq!(cell.try_borrow_mut(), Err(Error::BorrowConflict));
    assert_eq!(cell.borrow, EXCLUSIVE_BORROW);
    // shared borrowers are refused as well
    assert_eq!(cell.try_borrow(), Err(Error::BorrowConflict));
    cell.release_exclusive();
    assert_eq!(cell.try_borrow(), Ok(()));
    // an exclusive attempt while a reader is live fails
    assert_eq!(cell.try_borrow_mut(), Err(Error::BorrowConflict));
}

#[test]
fn take_fails_while_borrowed_then_succeeds_once() {
    let mut cell = UserDataCell::new(42i64);
    assert_eq!(cell.try_borrow(), Ok(()));
    assert_eq!(cell.take(), Err(Error::BorrowConflict));
    cell.release_shared();
    assert_eq!(cell.take(), Ok(42));
    // every further use fails with Destructed
    assert_eq!(cell.take(), Err(Error::Destructed));
    assert_eq!(cell.try_borrow(), Err(Error::Destructed));
    assert_eq!(cell.try_borrow_mut(), Err(Error::Destructed));
}

#[test]
fn shared_borrow_counter_overflow_is_distinct() {
    let mut cell = UserDataCell { value: Some(0i64), borrow: EXCLUSIVE_BORROW - 1 };
    assert_eq!(cell.try_borrow(), Err(Error::BorrowCountOverflow));
    assert_eq!(cell.borrow, EXCLUSIVE_BORROW - 1);
}

#[test]
fn into_inner_and_accessors() {
    let mut cell = UserDataCell::new(5i64);
    assert_eq!(*cell.get(), 5);
    assert_eq!(cell.replace(9), 5);
    assert_eq!(*cell.get(), 9);
    assert_eq!(cell.into_inner(), 9);
}
