use minilang::ledger::{copy_borrows, Slot};
use minilang::scope::ScopeStack;
use minilang::table::Table;
use minilang::typechecker::{Types, VarInfo};
use minilang::values::{RuntimeError, Value};

fn info(t: Types) -> VarInfo {
    VarInfo { t, mutable: true }
}

#[test]
fn table_keeps_one_entry_for_each_name() {
    let mut t: Table<VarInfo> = Table::new();
    assert!(!t.contains_key(&"a".to_string()));
    assert_eq!(t.get(&"a".to_string()), None);
    t.insert("a".to_string(), info(Types::Number));
    t.insert("b".to_string(), info(Types::Boolean));
    assert_eq!(t.get(&"a".to_string()), Some(&info(Types::Number)));
    assert_eq!(t.get(&"b".to_string()), Some(&info(Types::Boolean)));
    t.insert("a".to_string(), info(Types::UnitType));
    assert_eq!(t.get(&"a".to_string()), Some(&info(Types::UnitType)));
    assert_eq!(t.get(&"b".to_string()), Some(&info(Types::Boolean)));
    assert!(t.contains_key(&"b".to_string()));
    assert!(!t.contains_key(&"".to_string()));
}

#[test]
fn lookup_finds_the_innermost_binding() {
    let mut s: ScopeStack<VarInfo> = ScopeStack::new();
    assert_eq!(s.depth(), 0);
    s.declare("x".to_string(), info(Types::Number));
    assert_eq!(s.depth(), 1);
    s.push_scope();
    s.push_scope();
    assert_eq!(s.depth(), 3);
    assert_eq!(s.lookup(&"x".to_string()), Some(&info(Types::Number)));
    s.declare("x".to_string(), info(Types::Boolean));
    assert_eq!(s.lookup(&"x".to_string()), Some(&info(Types::Boolean)));
    s.pop_scope();
    assert_eq!(s.lookup(&"x".to_string()), Some(&info(Types::Number)));
    s.pop_scope();
    s.pop_scope();
    assert_eq!(s.depth(), 0);
    assert_eq!(s.lookup(&"x".to_string()), None);
    s.pop_scope();
    assert_eq!(s.depth(), 0);
}

#[test]
fn assign_replaces_where_the_name_is_bound() {
    let mut s: ScopeStack<VarInfo> = ScopeStack::new();
    s.declare("x".to_string(), info(Types::Number));
    s.push_scope();
    s.declare("y".to_string(), info(Types::Number));
    s.push_scope();
    s.assign(&"x".to_string(), info(Types::Boolean));
    s.assign(&"z".to_string(), info(Types::Boolean));
    assert_eq!(s.depth(), 3);
    assert_eq!(s.lookup(&"z".to_string()), None);
    s.pop_scope();
    s.pop_scope();
    assert_eq!(s.lookup(&"x".to_string()), Some(&info(Types::Boolean)));
    assert_eq!(s.lookup(&"y".to_string()), None);
}

#[test]
fn ledger_of_one_slot() {
    let mut s = Slot::plain(Value::Number(1));
    assert_eq!(s.check_read(&"a".to_string()), Err(RuntimeError::DanglingReference));
    assert!(!s.check_write(&"a".to_string()));
    s.add_borrow(&"a".to_string(), true);
    assert_eq!(s.check_read(&"a".to_string()), Ok(()));
    assert!(s.check_write(&"a".to_string()));
    s.add_borrow(&"b".to_string(), false);
    assert_eq!(s.check_read(&"a".to_string()), Err(RuntimeError::BorrowConflict));
    assert_eq!(s.check_read(&"b".to_string()), Ok(()));
    assert_eq!(s.check_read(&"c".to_string()), Err(RuntimeError::BorrowConflict));
    assert!(!s.check_write(&"a".to_string()));
    assert!(!s.check_write(&"b".to_string()));
    let copy = s.copy();
    assert_eq!(copy.value, Value::Number(1));
    assert_eq!(copy.borrows.len(), 2);
    assert_eq!(copy_borrows(&s.borrows).len(), 2);
    s.release();
    assert_eq!(s.borrows.len(), 1);
    assert_eq!(s.borrows[0].name, "b");
    assert!(!s.borrows[0].mutable);
    assert_eq!(s.check_read(&"c".to_string()), Err(RuntimeError::DanglingReference));
    let r = Slot::reference(&"x".to_string());
    assert_eq!(r.borrow_of, Some("x".to_string()));
    assert_eq!(r.value, Value::NoValue);
}
