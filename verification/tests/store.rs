use dev_console::error::RunError;
use dev_console::span::Span;
use dev_console::store::Store;
use dev_console::value::Value;

fn number(value: f64) -> Value {
    Value::Number(value.to_bits())
}

#[test]
fn new_store_has_no_cells() {
    let store = Store::new();
    assert_eq!(store.len(), 0);
}

#[test]
fn bind_makes_a_cell_that_a_reference_reaches() {
    let mut store = Store::new();
    let x = store.bind(number(5.0));
    let r = x.reference();
    assert_eq!(store.len(), 1);
    assert_eq!(store.upgrade(&r, Span::new(0, 1)), Ok(&number(5.0)));
}

#[test]
fn a_reference_does_not_keep_its_cell_alive() {
    let mut store = Store::new();
    let x = store.bind(Value::String("kept".to_string()));
    let r = x.reference();
    let moved = store.release(x);
    assert_eq!(moved, Some(Value::String("kept".to_string())));
    assert_eq!(store.len(), 0);
    let span = Span::new(3, 9);
    assert_eq!(store.upgrade(&r, span), Err(RunError::ReferenceToMovedData(Some(span))));
}

#[test]
fn upgrade_fails_after_the_owner_is_dropped() {
    let mut store = Store::new();
    let x = store.bind(number(1.5));
    let first = x.reference();
    let second = x.reference();
    let value = store.release(x).unwrap();
    dev_console::stdlib::drop(value);
    let span = Span::new(10, 12);
    assert_eq!(store.upgrade(&first, span), Err(RunError::ReferenceToMovedData(Some(span))));
    assert_eq!(store.upgrade(&second, span), Err(RunError::ReferenceToMovedData(Some(span))));
}

#[test]
fn a_spent_reference_never_reaches_a_later_cell() {
    let mut store = Store::new();
    let x = store.bind(number(1.0));
    let stale = x.reference();
    store.release(x);
    let y = store.bind(number(2.0));
    let fresh = y.reference();
    assert_ne!(stale, fresh);
    let span = Span::new(0, 4);
    assert_eq!(store.upgrade(&stale, span), Err(RunError::ReferenceToMovedData(Some(span))));
    assert_eq!(store.upgrade(&fresh, span), Ok(&number(2.0)));
    assert_eq!(store.len(), 1);
}

#[test]
fn a_mutation_is_seen_through_the_reference() {
    let mut store = Store::new();
    let x = store.bind(number(5.0));
    let r = x.reference();
    let span = Span::new(0, 1);
    let previous = store.write(&x.reference(), number(6.0), span);
    assert_eq!(previous, Ok(number(5.0)));
    assert_eq!(store.upgrade(&r, span), Ok(&number(6.0)));
    assert_eq!(store.len(), 1);
}

#[test]
fn write_through_a_spent_reference_fails_and_changes_nothing() {
    let mut store = Store::new();
    let x = store.bind(number(5.0));
    let y = store.bind(Value::Boolean(true));
    let r = x.reference();
    store.release(x);
    let span = Span::new(2, 5);
    assert_eq!(
        store.write(&r, number(7.0), span),
        Err(RunError::ReferenceToMovedData(Some(span)))
    );
    assert_eq!(store.len(), 1);
    assert_eq!(store.upgrade(&y.reference(), span), Ok(&Value::Boolean(true)));
}

#[test]
fn release_of_a_cell_that_is_gone_gives_nothing() {
    let mut store = Store::new();
    let x = store.bind(Value::Boolean(false));
    let r = x.reference();
    assert_eq!(store.release(x), Some(Value::Boolean(false)));
    // The same cell, named by a handle from another store of the same shape.
    let mut other = Store::new();
    let twin = other.bind(Value::Boolean(true));
    assert_eq!(twin.reference(), r);
    assert_eq!(store.release(twin), None);
    assert_eq!(store.len(), 0);
}

#[test]
fn resolve_follows_references_to_the_value() {
    let mut store = Store::new();
    let x = store.bind(Value::String("end".to_string()));
    let y = store.bind(Value::Reference(x.reference()));
    let outer = Value::Reference(y.reference());
    let end = store.resolve(&outer, Span::new(0, 1));
    assert_eq!(end, Ok((&Value::String("end".to_string()), 2)));
}

#[test]
fn resolve_reports_a_circle() {
    let mut store = Store::new();
    let x = store.bind(number(0.0));
    let y = store.bind(Value::Reference(x.reference()));
    let span = Span::new(4, 8);
    store.write(&x.reference(), Value::Reference(y.reference()), span).unwrap();
    let outer = Value::Reference(x.reference());
    assert_eq!(store.resolve(&outer, span), Err(RunError::CyclicReference(Some(span))));
}

#[test]
fn a_cell_that_aliases_itself_is_a_circle() {
    let mut store = Store::new();
    let x = store.bind(number(0.0));
    let span = Span::new(1, 2);
    store.write(&x.reference(), Value::Reference(x.reference()), span).unwrap();
    assert_eq!(
        store.resolve(&Value::Reference(x.reference()), span),
        Err(RunError::CyclicReference(Some(span)))
    );
}

#[test]
fn a_shared_cell_lives_until_its_last_owner_releases_it() {
    let mut store = Store::new();
    let x = store.bind(number(3.0));
    let y = store.share(&x).unwrap();
    let r = x.reference();
    assert_eq!(y.reference(), r);
    assert_eq!(store.len(), 1);
    let span = Span::new(0, 1);
    // One owner lets go: the other still holds the cell.
    assert_eq!(store.release(x), None);
    assert_eq!(store.len(), 1);
    assert_eq!(store.upgrade(&r, span), Ok(&number(3.0)));
    // The last owner lets go: the value moves out, and the reference is dead.
    assert_eq!(store.release(y), Some(number(3.0)));
    assert_eq!(store.len(), 0);
    assert_eq!(store.upgrade(&r, span), Err(RunError::ReferenceToMovedData(Some(span))));
}

#[test]
fn a_cell_that_is_gone_cannot_be_shared() {
    let mut store = Store::new();
    let x = store.bind(number(3.0));
    let mut other = Store::new();
    let twin = other.bind(number(4.0));
    assert_eq!(store.release(x), Some(number(3.0)));
    assert_eq!(store.share(&twin), None);
    assert_eq!(store.len(), 0);
}
