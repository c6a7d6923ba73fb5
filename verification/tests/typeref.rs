use pysqlx::typeref::{init_typerefs, TypeRefTable, TypeRefs};
use std::cell::Cell;

fn refs(base: usize) -> TypeRefs {
    TypeRefs { none: base, truth: base + 1, falsity: base + 2, empty_unicode: base + 3 }
}

#[test]
fn table_starts_empty() {
    assert_eq!(TypeRefTable::new().get(), None);
}

#[test]
fn first_call_initializes() {
    let mut table = TypeRefTable::new();
    assert!(init_typerefs(&mut table, || refs(16)));
    assert_eq!(table.get(), Some(refs(16)));
}

#[test]
fn later_calls_change_nothing_and_look_nothing_up() {
    let mut table = TypeRefTable::new();
    let calls = Cell::new(0u32);
    assert!(init_typerefs(&mut table, || {
        calls.set(calls.get() + 1);
        refs(16)
    }));
    for round in 0..3usize {
        assert!(!init_typerefs(&mut table, || {
            calls.set(calls.get() + 1);
            refs(1000 + round)
        }));
        assert_eq!(table.get(), Some(refs(16)));
    }
    assert_eq!(calls.get(), 1);
}
