//! The symbol tables and the runtime memory model: declaration, resolution,
//! scope discipline and the heap.

use minilang::runtime::error_codes::ErrorCode;
use minilang::runtime::memory::{Heap, ScopeStack};
use minilang::object::{Object, Value};
use minilang::symbol_table::{Scope, SymbolTable};

#[test]
fn scope_declares_dense_ids() {
    let mut scope = Scope::new();
    assert_eq!(scope.declare("a", 10), 0);
    assert_eq!(scope.declare("b", 11), 1);
    assert_eq!(scope.get("a"), Some(0));
    assert_eq!(scope.get("b"), Some(1));
    assert_eq!(scope.get("c"), None);
    // redeclaring overrides the binding
    assert_eq!(scope.declare("a", 12), 2);
    assert_eq!(scope.get("a"), Some(2));
}

#[test]
fn table_resolves_innermost_first() {
    let mut table = SymbolTable::new();
    table.declare("x");
    table.push_scope();
    table.declare("y");
    assert_eq!(table.get_id("x"), Some(0));
    assert_eq!(table.get_id("y"), Some(1));
    table.declare("x");
    // the inner binding shadows the outer one
    assert_eq!(table.get_id("x"), Some(2));
    table.pop_scope();
    assert_eq!(table.get_id("x"), Some(0));
    assert_eq!(table.get_id("y"), None);
}

#[test]
fn table_names_and_addresses() {
    let mut table = SymbolTable::new();
    table.declare("x");
    assert_eq!(table.get_name(0).as_deref(), Some("x"));
    assert_eq!(table.get_name(9), None);
    assert_eq!(table.get_heap_address(0).unwrap(), 0);
    assert_eq!(table.get_heap_address(5).unwrap_err().code, ErrorCode::UndeclaredSymbol);
}

#[test]
fn scope_stack_discipline_restores_lengths() {
    let mut stack = ScopeStack::new();
    stack.push_scope();
    stack.push(Object::new(Value::Int(1)));
    stack.push_heap_address(0);
    let stack_len_before = stack.stack_len();
    let depth_before = stack.scope_depth();
    // a balanced run of entries and exits, with work in between
    stack.push_scope();
    stack.push(Object::new(Value::Int(2)));
    stack.push_heap_address(1);
    stack.push_scope();
    stack.push(Object::new(Value::Int(3)));
    stack.pop_scope();
    stack.pop_scope();
    assert_eq!(stack.stack_len(), stack_len_before);
    assert_eq!(stack.scope_depth(), depth_before);
}

#[test]
fn scope_stack_addresses() {
    let mut stack = ScopeStack::new();
    stack.push_scope();
    stack.push_heap_address(40);
    stack.push_scope();
    stack.push_heap_address(41);
    stack.push_heap_address(42);
    assert_eq!(stack.get_heap_address_from_global_id(0), 40);
    assert_eq!(stack.get_heap_address_from_local_id(1), 42);
    assert_eq!(stack.get_heap_address_from_offsets(0, 1), 40);
    assert_eq!(stack.get_heap_address_from_offsets(0, 0), 41);
}

#[test]
fn pop_require_is_last_in_first_out() {
    let mut stack = ScopeStack::new();
    stack.push(Object::new(Value::Int(1)));
    stack.push(Object::new(Value::Int(2)));
    assert!(matches!(stack.pop_require().value, Value::Int(2)));
    assert!(matches!(stack.pop_require().value, Value::Int(1)));
}

#[test]
fn heap_allocates_and_references() {
    let mut heap = Heap::new();
    let a = heap.allocate();
    let b = heap.allocate();
    assert_eq!(a, 0);
    assert_eq!(b, 1);
    assert!(matches!(heap.cell(a).value, Value::Nil));
    let reference = heap.get_ref(a).unwrap();
    assert!(matches!(reference.value, Value::Ref(0)));
    // the cell counted the new reference
    assert!(!heap.cell(a).is_dead());
    heap.store(a, Object::new(Value::Int(9))).unwrap();
    assert!(matches!(heap.cell(a).value, Value::Int(9)));
    assert_eq!(heap.get_ref(7).unwrap_err().code, ErrorCode::InvalidMemoryAccess);
    assert_eq!(heap.store(7, Object::none()).unwrap_err().code, ErrorCode::InvalidMemoryAccess);
}
