//! End-to-end scenarios: trees compiled to bytecode and run by the virtual
//! machine, with the heap, the stack and the fault codes inspected.

use minilang::compiler::code_block::ScopeType;
use minilang::compiler::error::CompileErrorKind;
use minilang::compiler::jit::Jit;
use minilang::object::{TypeCode, Value};
use minilang::runtime::error_codes::ErrorCode;
use minilang::runtime::op_code::OpCode;
use minilang::runtime::vm::Vm;
use minilang::syntax_node::{SyntaxNode, SyntaxTree};

fn int_lit(v: i64) -> SyntaxNode {
    SyntaxNode::Int { value: v, line: 0 }
}

fn float(f: f64) -> SyntaxNode {
    SyntaxNode::Float { bits: f.to_bits(), line: 0 }
}

fn string(s: &str) -> SyntaxNode {
    SyntaxNode::String { value: s.to_string(), line: 0 }
}

fn ident(name: &str) -> SyntaxNode {
    SyntaxNode::Identifier { value: name.to_string(), line: 0 }
}

fn let_stmt(name: &str) -> SyntaxNode {
    SyntaxNode::Let { symbol_name: name.to_string(), line: 0 }
}

fn add(l: SyntaxNode, r: SyntaxNode) -> SyntaxNode {
    SyntaxNode::Add { left: Box::new(l), right: Box::new(r), line: 0 }
}

fn div(l: SyntaxNode, r: SyntaxNode) -> SyntaxNode {
    SyntaxNode::Div { left: Box::new(l), right: Box::new(r), line: 0 }
}

fn modulo(l: SyntaxNode, r: SyntaxNode) -> SyntaxNode {
    SyntaxNode::Mod { left: Box::new(l), right: Box::new(r), line: 0 }
}

fn assign(l: SyntaxNode, r: SyntaxNode) -> SyntaxNode {
    SyntaxNode::Assign { left: Box::new(l), right: Box::new(r), line: 0 }
}

fn scope(statements: Vec<SyntaxNode>) -> SyntaxNode {
    SyntaxNode::Scope { statements: SyntaxTree::new(statements), line: 0 }
}

fn program(statements: Vec<SyntaxNode>) -> Jit {
    Jit::from_syntax_tree(SyntaxTree::new(statements))
}

/// Source `1 + 2` compiles to `LoadConst Int(1), LoadConst Int(2), Add` and
/// executing it leaves `Int(3)` on the operand stack.
#[test]
fn scenario_add_compiles_and_runs() {
    let mut jit = program(vec![add(int_lit(1), int_lit(2))]);
    // the arena holds the two literals, then the operator
    jit.compile(0).unwrap();
    jit.compile(1).unwrap();
    jit.compile(2).unwrap();
    let mut expected_one: Vec<u8> = vec![OpCode::LoadConst.to_byte(), TypeCode::Int.to_byte()];
    expected_one.extend(1i64.to_le_bytes());
    assert_eq!(jit.nodes[0].code.as_ref().unwrap(), &expected_one);
    let mut expected_two: Vec<u8> = vec![OpCode::LoadConst.to_byte(), TypeCode::Int.to_byte()];
    expected_two.extend(2i64.to_le_bytes());
    assert_eq!(jit.nodes[1].code.as_ref().unwrap(), &expected_two);
    assert_eq!(jit.nodes[2].code.as_ref().unwrap(), &vec![OpCode::Add.to_byte()]);

    let mut vm = Vm::new();
    let status = vm.execute(&mut jit);
    assert_eq!(status.code, ErrorCode::NoError);
    assert_eq!(vm.stack.stack.len(), 1);
    assert!(matches!(vm.stack.stack[0].value, Value::Int(3)));
}

/// After `let x; x = 5; x = x + 1`, loading `x` yields Int 6: the store
/// writes through the reference into the heap cell, not into a stack copy.
#[test]
fn scenario_assignment_through_reference() {
    let mut jit = program(vec![
        let_stmt("x"),
        assign(ident("x"), int_lit(5)),
        assign(ident("x"), add(ident("x"), int_lit(1))),
        ident("x"),
    ]);
    let mut vm = Vm::new();
    let status = vm.execute(&mut jit);
    assert_eq!(status.code, ErrorCode::NoError);
    // the final load left a reference to x's cell on the stack
    assert_eq!(vm.stack.stack.len(), 1);
    let address = match vm.stack.stack[0].value {
        Value::Ref(a) => a,
        _ => panic!("expected a reference"),
    };
    assert!(matches!(vm.heap.objects[address].value, Value::Int(6)));
}

/// `let x; x = "a" + "b"` leaves the heap cell for `x` holding `String("ab")`.
#[test]
fn scenario_string_concatenation_lands_in_the_cell() {
    let mut jit = program(vec![
        let_stmt("x"),
        assign(ident("x"), add(string("a"), string("b"))),
    ]);
    let mut vm = Vm::new();
    let status = vm.execute(&mut jit);
    assert_eq!(status.code, ErrorCode::NoError);
    // x's cell is the only allocated one
    assert_eq!(vm.heap.objects.len(), 1);
    match &vm.heap.objects[0].value {
        Value::String(s) => assert_eq!(s, "ab"),
        other => panic!("expected the cell to hold a string, got {:?}", other),
    }
}

/// `1 / 0` and `1.0 % 0.0` both fail with `ZeroDivision` and leave the
/// operand stack unchanged: both operands still there, no partial result.
#[test]
fn scenario_zero_division() {
    let mut jit = program(vec![div(int_lit(1), int_lit(0))]);
    let mut vm = Vm::new();
    let status = vm.execute(&mut jit);
    assert_eq!(status.code, ErrorCode::ZeroDivision);
    assert_eq!(vm.stack.stack.len(), 2);
    assert!(matches!(vm.stack.stack[0].value, Value::Int(1)));
    assert!(matches!(vm.stack.stack[1].value, Value::Int(0)));

    let mut jit = program(vec![modulo(float(1.0), float(0.0))]);
    let mut vm = Vm::new();
    let status = vm.execute(&mut jit);
    assert_eq!(status.code, ErrorCode::ZeroDivision);
    assert_eq!(vm.stack.stack.len(), 2);
}

/// Referencing an undeclared name aborts compilation with
/// `UndeclaredSymbol`; the identifier's code is never produced, so nothing
/// of it executes.
#[test]
fn scenario_undeclared_symbol() {
    let mut jit = program(vec![ident("y")]);
    let err = jit.compile(0).unwrap_err();
    assert!(matches!(err.kind, CompileErrorKind::UndeclaredSymbol { .. }));
    assert!(jit.nodes[0].code.is_none());

    let mut jit = program(vec![ident("y")]);
    let mut vm = Vm::new();
    let status = vm.execute(&mut jit);
    assert_eq!(status.code, ErrorCode::UndeclaredSymbol);
    assert_eq!(vm.stack.stack.len(), 0);
}

/// A bare `return` outside any function call fails with
/// `ReturnOutsideFunction`.
#[test]
fn scenario_bare_return() {
    let mut jit = program(vec![SyntaxNode::Return { value: None, line: 0 }]);
    let mut vm = Vm::new();
    let status = vm.execute(&mut jit);
    assert_eq!(status.code, ErrorCode::ReturnOutsideFunction);
}

/// Symbol resolution: a name declared in the block of the reference is
/// local; referenced from a nested block it is outer with the nesting
/// distance; a name declared only in the outermost block is global.
#[test]
fn scenario_scope_classification() {
    let mut jit = program(vec![
        let_stmt("g"),
        scope(vec![
            let_stmt("x"),
            ident("x"),
            scope(vec![ident("x"), ident("g")]),
        ]),
    ]);
    let mut vm = Vm::new();
    let status = vm.execute(&mut jit);
    assert_eq!(status.code, ErrorCode::NoError);
    // block 0 is the root, block 1 the outer scope, block 2 the inner one
    assert_eq!(jit.get_symbol_id(1, "x"), Some(ScopeType::Local { local_id: 0 }));
    assert_eq!(
        jit.get_symbol_id(2, "x"),
        Some(ScopeType::Outer { local_id: 0, scope_offset: 1 }),
    );
    assert_eq!(jit.get_symbol_id(2, "g"), Some(ScopeType::Global { global_id: 0 }));
    assert_eq!(jit.get_symbol_id(0, "g"), Some(ScopeType::Local { local_id: 0 }));
    assert_eq!(jit.get_symbol_id(2, "nowhere"), None);
}

/// A function literal builds a callable value; calling it runs the body in
/// its own scope and the call leaves the returned value in the return slot.
#[test]
fn scenario_function_call_returns_a_value() {
    let body = SyntaxTree::new(vec![SyntaxNode::Return {
        value: Some(Box::new(int_lit(7))),
        line: 0,
    }]);
    let mut jit = program(vec![
        SyntaxNode::Fun { name: "f".to_string(), params: vec![], body, line: 0 },
        SyntaxNode::Call { function: Box::new(ident("f")), arguments: vec![], line: 0 },
    ]);
    let mut vm = Vm::new();
    let status = vm.execute(&mut jit);
    assert_eq!(status.code, ErrorCode::NoError);
    assert_eq!(vm.stack.stack.len(), 1);
    assert!(matches!(vm.stack.stack[0].value, Value::Int(7)));
}

/// A function whose body falls through without `return` leaves the None
/// placeholder as the call's value.
#[test]
fn scenario_function_call_without_return() {
    let body = SyntaxTree::new(vec![int_lit(1)]);
    let mut jit = program(vec![
        SyntaxNode::Fun { name: "f".to_string(), params: vec![], body, line: 0 },
        SyntaxNode::Call { function: Box::new(ident("f")), arguments: vec![], line: 0 },
    ]);
    let mut vm = Vm::new();
    let status = vm.execute(&mut jit);
    assert_eq!(status.code, ErrorCode::NoError);
    assert_eq!(vm.stack.stack.len(), 1);
    assert!(matches!(vm.stack.stack[0].value, Value::Nil));
}

/// Calling something that is not a function is a type fault.
#[test]
fn scenario_calling_a_number_fails() {
    let mut jit = program(vec![SyntaxNode::Call {
        function: Box::new(int_lit(3)),
        arguments: vec![],
        line: 0,
    }]);
    let mut vm = Vm::new();
    let status = vm.execute(&mut jit);
    assert_eq!(status.code, ErrorCode::TypeError);
}

/// A list literal pops its operands in stack order.
#[test]
fn scenario_list_literal() {
    let mut jit = program(vec![SyntaxNode::List { elements: vec![int_lit(1), int_lit(2)], line: 0 }]);
    let mut vm = Vm::new();
    let status = vm.execute(&mut jit);
    assert_eq!(status.code, ErrorCode::NoError);
    assert_eq!(vm.stack.stack.len(), 1);
    match &vm.stack.stack[0].value {
        Value::List(items) => {
            assert_eq!(items.len(), 2);
            assert!(matches!(items[0].value, Value::Int(2)));
            assert!(matches!(items[1].value, Value::Int(1)));
        },
        other => panic!("expected a list, got {:?}", other),
    }
}

/// A construct not wired to code generation aborts compilation.
#[test]
fn scenario_unwired_construct() {
    let mut jit = program(vec![SyntaxNode::Break { line: 3 }]);
    let err = jit.compile(0).unwrap_err();
    assert!(matches!(err.kind, CompileErrorKind::InvalidStatement));
    assert_eq!(err.line, 3);
}

/// Compiling is idempotent: a cached node is left exactly as it is.
#[test]
fn compile_is_idempotent() {
    let mut jit = program(vec![add(int_lit(1), int_lit(2))]);
    jit.compile(2).unwrap();
    let before = jit.nodes[2].code.clone();
    jit.compile(2).unwrap();
    assert_eq!(jit.nodes[2].code, before);
}

/// Floats flow through compilation and execution as their IEEE-754 bits.
#[test]
fn scenario_float_literal_arithmetic() {
    let mut jit = program(vec![add(float(0.5), int_lit(1))]);
    let mut vm = Vm::new();
    let status = vm.execute(&mut jit);
    assert_eq!(status.code, ErrorCode::NoError);
    assert_eq!(vm.stack.stack.len(), 1);
    match vm.stack.stack[0].value {
        Value::Float(bits) => assert_eq!(f64::from_bits(bits), 1.5),
        _ => panic!("expected a float"),
    }
}

/// Error codes carry the names and process exit values the reporting uses.
#[test]
fn error_code_names_and_values() {
    assert_eq!(ErrorCode::NoError.name(), "Ok");
    assert_eq!(ErrorCode::TypeError.name(), "TypeError");
    assert_eq!(ErrorCode::ZeroDivision.name(), "ZeroDivision");
    assert_eq!(ErrorCode::InvalidMemoryAccess.name(), "InvalidMemoryAccess");
    assert_eq!(ErrorCode::UndeclaredSymbol.name(), "UndeclaredSymbol");
    assert_eq!(ErrorCode::ReturnOutsideFunction.name(), "ReturnOutsideFunction");
    assert_eq!(ErrorCode::NoError.value(), 0);
    assert_eq!(ErrorCode::ZeroDivision.value(), 2);
    assert_eq!(minilang::exit_codes::ExitCode::Success.name(), "Ok");
    assert_eq!(minilang::exit_codes::ExitCode::Success.value(), 0);
}

/// Character classes of the lexer collaborator.
#[test]
fn tokenizer_character_classes() {
    assert!(minilang::tokenizer::is_start_of_name_char('a'));
    assert!(minilang::tokenizer::is_start_of_name_char('_'));
    assert!(!minilang::tokenizer::is_start_of_name_char('1'));
    assert!(minilang::tokenizer::is_name_char('1'));
    assert!(minilang::tokenizer::is_name_char('Z'));
    assert!(!minilang::tokenizer::is_name_char('-'));
    assert!(minilang::tokenizer::is_numeric_char('7'));
    assert!(minilang::tokenizer::is_numeric_char('.'));
    assert!(!minilang::tokenizer::is_numeric_char('x'));
}

/// An empty program runs to completion and touches nothing.
#[test]
fn scenario_empty_program() {
    let mut jit = program(vec![]);
    let mut vm = Vm::new();
    let status = vm.execute(&mut jit);
    assert_eq!(status.code, ErrorCode::NoError);
    assert_eq!(vm.stack.stack.len(), 0);
    assert_eq!(vm.heap.objects.len(), 0);
}

/// Parentheses only wrap their child; precedence comes from the tree shape.
#[test]
fn scenario_parenthesis_grouping() {
    let grouped = SyntaxNode::Parenthesis {
        child: Box::new(add(int_lit(1), int_lit(2))),
        line: 0,
    };
    let mut jit = program(vec![SyntaxNode::Mul {
        left: Box::new(grouped),
        right: Box::new(int_lit(3)),
        line: 0,
    }]);
    let mut vm = Vm::new();
    let status = vm.execute(&mut jit);
    assert_eq!(status.code, ErrorCode::NoError);
    assert_eq!(vm.stack.stack.len(), 1);
    assert!(matches!(vm.stack.stack[0].value, Value::Int(9)));
}

/// Boolean operators run through the machine with the coercion rules.
#[test]
fn scenario_boolean_operators() {
    let and_node = SyntaxNode::And {
        left: Box::new(int_lit(1)),
        right: Box::new(int_lit(0)),
        line: 0,
    };
    let not_node = SyntaxNode::Not { operand: Box::new(and_node), line: 0 };
    let mut jit = program(vec![not_node]);
    let mut vm = Vm::new();
    let status = vm.execute(&mut jit);
    assert_eq!(status.code, ErrorCode::NoError);
    assert_eq!(vm.stack.stack.len(), 1);
    assert!(matches!(vm.stack.stack[0].value, Value::Bool(true)));
}

/// Two calls in a row each land their own value.
#[test]
fn scenario_two_calls() {
    let body_a = SyntaxTree::new(vec![SyntaxNode::Return {
        value: Some(Box::new(int_lit(2))),
        line: 0,
    }]);
    let call = |name: &str| SyntaxNode::Call {
        function: Box::new(ident(name)),
        arguments: vec![],
        line: 0,
    };
    let mut jit = program(vec![
        SyntaxNode::Fun { name: "f".to_string(), params: vec![], body: body_a, line: 0 },
        add(call("f"), call("f")),
    ]);
    let mut vm = Vm::new();
    let status = vm.execute(&mut jit);
    assert_eq!(status.code, ErrorCode::NoError);
    assert_eq!(vm.stack.stack.len(), 1);
    assert!(matches!(vm.stack.stack[0].value, Value::Int(4)));
}
