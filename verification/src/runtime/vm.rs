//! The virtual machine: a tree-walking driver that visits each compiled
//! node's children before executing the node's own bytecode, and an
//! instruction interpreter that works the operand stack, the heap and the
//! call stack.
//!
//! Execution is synchronous from start to the first fault or the natural
//! end of the top-level statement list; faults are carried as values to the
//! caller, which decides how to report them. The interpreter runs under a
//! deliberate step budget — a resource bound so large it cannot be reached
//! in practice — and reports its exhaustion loudly rather than not at all.
//!
//! Two bookkeeping choices complete the design where the instruction set
//! leaves it open: statements that follow an executed `return` still run
//! (the instruction set has no jumps), and a called function's body runs
//! inside its own scope, entered at the call and left when the call
//! finishes or `return` unwinds it.

use vstd::prelude::*;
use vstd::string::StringExecFns;

use crate::byte_code::{get_raw_id, get_raw_ptr, get_raw_usize, ByteCode};
use crate::compiler::code_node::NodeContent;
use crate::compiler::error::{CompileError, CompileErrorKind};
use crate::compiler::jit::Jit;
use crate::object::{
    spec_add, spec_and, spec_div, spec_greater, spec_greater_eq, spec_less, spec_less_eq, spec_mul,
    spec_not, spec_obj_eq, spec_or, spec_rem, spec_sub, AbsVal, Object, TypeCode,
    Value,
};
use crate::runtime::error_codes::{ErrorCode, RuntimeError};
use crate::runtime::memory::{spec_pop_scope, Address, Heap, ScopeStack};
use crate::runtime::op_code::OpCode;

verus! {

/// One active function invocation: where the operand stack unwinds to on
/// return, and the handle of the function's compiled node.
pub struct FunctionCall {
    /// The operand-stack index of the slot the return value lands in.
    pub return_index: usize,
    /// The compiled node of the function being run.
    pub function: usize,
}

/// The virtual machine: its scoped operand stack, its call stack and its
/// heap. One program runs per instance, from start to the first fault.
pub struct Vm {
    pub stack: ScopeStack,
    pub call_stack: Vec<FunctionCall>,
    pub heap: Heap,
}

/// One step of work for the tree-walking driver.
enum Task {
    /// Expand a node: schedule its children, then its own code.
    Visit(usize),
    /// Run a node's bytecode from the given program counter.
    Exec { node: usize, pc: usize },
    /// Leave the lexical scope a scope-owning node entered.
    LeaveScope,
    /// Close a function call: unwind any frame still open above `depth`.
    FinishCall { depth: usize },
}

/// How a bytecode segment ended: the code ran out, or a call instruction
/// asks the driver to run a callee.
enum SegmentEnd {
    Done,
    Call { arg_count: usize, resume_pc: usize },
}

/// Reading an operand through the heap: a reference reads the shape of the
/// cell it aliases — nothing if the address is beyond the heap — and any
/// other value is itself.
pub open spec fn spec_deref(heap: Seq<Object>, obj: Object) -> Option<AbsVal> {
    match obj.value {
        Value::Ref(addr) => if addr < heap.len() {
            Some(heap[addr as int].abs())
        } else {
            None
        },
        _ => Some(obj.abs()),
    }
}

/// The opcodes that pop two operands and push one result.
pub open spec fn is_binary_op(op: OpCode) -> bool {
    match op {
        OpCode::Add | OpCode::Sub | OpCode::Mul | OpCode::Div | OpCode::Mod | OpCode::Equal
            | OpCode::NotEqual | OpCode::And | OpCode::Or | OpCode::Greater
            | OpCode::GreaterEqual | OpCode::Less | OpCode::LessEqual => true,
        _ => false,
    }
}

/// What a binary instruction owes for two operand shapes, per the object
/// model's semantics table.
pub open spec fn spec_binary(op: OpCode, a: AbsVal, b: AbsVal) -> Result<AbsVal, ErrorCode> {
    match op {
        OpCode::Add => spec_add(a, b),
        OpCode::Sub => spec_sub(a, b),
        OpCode::Mul => spec_mul(a, b),
        OpCode::Div => spec_div(a, b),
        OpCode::Mod => spec_rem(a, b),
        OpCode::Equal => Result::Ok(AbsVal::Bool(spec_obj_eq(a, b))),
        OpCode::NotEqual => Result::Ok(AbsVal::Bool(!spec_obj_eq(a, b))),
        OpCode::And => spec_and(a, b),
        OpCode::Or => spec_or(a, b),
        OpCode::Greater => spec_greater(a, b),
        OpCode::GreaterEqual => spec_greater_eq(a, b),
        OpCode::Less => spec_less(a, b),
        OpCode::LessEqual => spec_less_eq(a, b),
        _ => Result::Err(ErrorCode::TypeError),
    }
}

/// The operand stack unwound scope by scope: every scope opened at or past
/// `target` — those entered during the call being left — is popped, and the
/// walk stops at the first scope that was already open before it.
pub open spec fn spec_unwind(
    v: crate::runtime::memory::ScopeStackView,
    target: int,
) -> crate::runtime::memory::ScopeStackView
    decreases v.stack_offsets.len(),
{
    if v.stack_offsets.len() == 0 || (v.stack_offsets.last() as int) < target
        || v.heap_index_offsets.len() == 0 {
        v
    } else {
        spec_unwind(spec_pop_scope(v), target)
    }
}

/// A fresh fault touching memory out of its live range.
fn invalid_access() -> (res: RuntimeError)
    ensures
        res.code == ErrorCode::InvalidMemoryAccess,
{
    RuntimeError::with_message(
        ErrorCode::InvalidMemoryAccess,
        String::from_str("Invalid memory access"),
    )
}

/// The runtime fault a compile-time abort is reported as: an undeclared
/// symbol keeps its own code, every other compile fault is reported as a
/// type error.
pub fn compile_error_to_runtime(e: CompileError) -> (res: RuntimeError)
    ensures
        (e.kind matches CompileErrorKind::UndeclaredSymbol { .. }) ==> res.code
            == ErrorCode::UndeclaredSymbol,
        !(e.kind matches CompileErrorKind::UndeclaredSymbol { .. }) ==> res.code
            == ErrorCode::TypeError,
{
    match e.kind {
        CompileErrorKind::UndeclaredSymbol { .. } => RuntimeError::with_message(
            ErrorCode::UndeclaredSymbol,
            String::from_str("Undeclared symbol"),
        ),
        _ => RuntimeError::with_message(
            ErrorCode::TypeError,
            String::from_str("Cannot compile statement"),
        ),
    }
}

/// No binary instruction's semantics ever faults with the no-fault code.
proof fn lemma_binary_error_codes()
    ensures
        forall|op: OpCode, a: AbsVal, b: AbsVal|
            (#[trigger] spec_binary(op, a, b)) matches Result::Err(c) ==> c
                != ErrorCode::NoError,
{
}

/// The negation's semantics never faults with the no-fault code.
proof fn lemma_not_error_codes()
    ensures
        forall|v: AbsVal| (#[trigger] spec_not(v)) matches Result::Err(c) ==> c
            != ErrorCode::NoError,
{
}

impl Vm {
    /// A machine with an empty stack, no open call and an empty heap.
    pub fn new() -> (res: Vm)
        ensures
            res.stack@.stack.len() == 0,
            res.stack@.stack_offsets.len() == 0,
            res.stack@.heap_index.len() == 0,
            res.stack@.heap_index_offsets.len() == 0,
            res.call_stack@.len() == 0,
            res.heap.objects@.len() == 0,
    {
        Vm { stack: ScopeStack::new(), call_stack: Vec::new(), heap: Heap::new() }
    }

    /// Read the operand at a stack slot through the heap: a reference is
    /// followed to its cell, any other value is copied as it is.
    fn deref_value_at(&self, index: usize) -> (res: Result<Object, RuntimeError>)
        requires
            index < self.stack@.stack.len(),
        ensures
            match spec_deref(self.heap.objects@, self.stack@.stack[index as int]) {
                Some(v) => (res matches Result::Ok(o) && o.abs() == v),
                None => (res matches Result::Err(e) && e.code == ErrorCode::InvalidMemoryAccess),
            },
    {
        let obj = self.stack.peek(index);
        match &obj.value {
            Value::Ref(addr) => {
                if *addr < self.heap.len() {
                    Ok(self.heap.cell(*addr).duplicate())
                } else {
                    Err(invalid_access())
                }
            },
            _ => Ok(obj.duplicate()),
        }
    }

    /// Run one binary instruction: read both operands through the heap,
    /// apply the operator, and replace them by the result. A fault — a
    /// missing operand, a dangling reference or an operator error — leaves
    /// the operand stack exactly as it was.
    fn exec_binary(&mut self, op: OpCode) -> (res: Result<(), RuntimeError>)
        requires
            is_binary_op(op),
        ensures
            final(self).stack@.stack_offsets == old(self).stack@.stack_offsets,
            final(self).stack@.heap_index == old(self).stack@.heap_index,
            final(self).stack@.heap_index_offsets == old(self).stack@.heap_index_offsets,
            final(self).heap.objects@ == old(self).heap.objects@,
            final(self).call_stack@ == old(self).call_stack@,
            ({
                let st0 = old(self).stack@.stack;
                let heap0 = old(self).heap.objects@;
                if st0.len() < 2 {
                    (res matches Result::Err(e) && e.code == ErrorCode::InvalidMemoryAccess)
                        && final(self).stack@.stack == st0
                } else {
                    match (
                        spec_deref(heap0, st0[st0.len() - 2]),
                        spec_deref(heap0, st0[st0.len() - 1]),
                    ) {
                        (Some(a), Some(b)) => match spec_binary(op, a, b) {
                            Result::Ok(v) => res is Ok && final(self).stack@.stack.len()
                                == st0.len() - 1 && final(self).stack@.stack.drop_last()
                                == st0.drop_last().drop_last() && final(self).stack@.stack.last().abs() == v && final(self).stack@.stack.last().ref_count == 0,
                            Result::Err(c) => (res matches Result::Err(e) && e.code == c) && final(self).stack@.stack == st0,
                        },
                        _ => (res matches Result::Err(e) && e.code
                            == ErrorCode::InvalidMemoryAccess) && final(self).stack@.stack == st0,
                    }
                }
            }),
    {
        let len = self.stack.stack_len();
        if len < 2 {
            return Err(invalid_access());
        }
        let a_obj = match self.deref_value_at(len - 2) {
            Ok(o) => o,
            Err(e) => {
                return Err(e);
            },
        };
        let b_obj = match self.deref_value_at(len - 1) {
            Ok(o) => o,
            Err(e) => {
                return Err(e);
            },
        };
        let outcome: crate::object::OpResult = match op {
            OpCode::Add => Object::add(&a_obj, &b_obj),
            OpCode::Sub => Object::sub(&a_obj, &b_obj),
            OpCode::Mul => Object::mul(&a_obj, &b_obj),
            OpCode::Div => Object::div(&a_obj, &b_obj),
            OpCode::Mod => Object::rem(&a_obj, &b_obj),
            OpCode::Equal => Ok(Object::new(Value::Bool(Object::eq(&a_obj, &b_obj)))),
            OpCode::NotEqual => Ok(Object::new(Value::Bool(Object::ne(&a_obj, &b_obj)))),
            OpCode::And => Object::and(&a_obj, &b_obj),
            OpCode::Or => Object::or(&a_obj, &b_obj),
            OpCode::Greater => Object::greater(&a_obj, &b_obj),
            OpCode::GreaterEqual => Object::greater_eq(&a_obj, &b_obj),
            OpCode::Less => Object::less(&a_obj, &b_obj),
            OpCode::LessEqual => Object::less_eq(&a_obj, &b_obj),
            _ => vstd::pervasive::unreached(),
        };
        match outcome {
            Ok(result) => {
                let _ = self.stack.pop_require();
                let _ = self.stack.pop_require();
                self.stack.push(result);
                Ok(())
            },
            Err(e) => Err(e),
        }
    }

    /// Run the `Not` instruction: read the operand through the heap, coerce
    /// it, and replace it by the negation. A fault leaves the operand stack
    /// exactly as it was.
    fn exec_not(&mut self) -> (res: Result<(), RuntimeError>)
        ensures
            final(self).stack@.stack_offsets == old(self).stack@.stack_offsets,
            final(self).stack@.heap_index == old(self).stack@.heap_index,
            final(self).stack@.heap_index_offsets == old(self).stack@.heap_index_offsets,
            final(self).heap.objects@ == old(self).heap.objects@,
            final(self).call_stack@ == old(self).call_stack@,
            ({
                let st0 = old(self).stack@.stack;
                if st0.len() < 1 {
                    (res matches Result::Err(e) && e.code == ErrorCode::InvalidMemoryAccess)
                        && final(self).stack@.stack == st0
                } else {
                    match spec_deref(old(self).heap.objects@, st0[st0.len() - 1]) {
                        Some(a) => match spec_not(a) {
                            Result::Ok(v) => res is Ok && final(self).stack@.stack.len()
                                == st0.len() && final(self).stack@.stack.drop_last()
                                == st0.drop_last() && final(self).stack@.stack.last().abs() == v
                                && final(self).stack@.stack.last().ref_count == 0,
                            Result::Err(c) => (res matches Result::Err(e) && e.code == c) && final(self).stack@.stack == st0,
                        },
                        None => (res matches Result::Err(e) && e.code
                            == ErrorCode::InvalidMemoryAccess) && final(self).stack@.stack == st0,
                    }
                }
            }),
    {
        let len = self.stack.stack_len();
        if len < 1 {
            return Err(invalid_access());
        }
        let a_obj = match self.deref_value_at(len - 1) {
            Ok(o) => o,
            Err(e) => {
                return Err(e);
            },
        };
        match Object::not(&a_obj) {
            Ok(result) => {
                let _ = self.stack.pop_require();
                self.stack.push(result);
                Ok(())
            },
            Err(e) => Err(e),
        }
    }

    /// Run the `StoreTop` instruction: pop the value and the reference under
    /// it, and write the value through the reference into its heap cell. A
    /// non-reference target is a type fault, a dangling reference a memory
    /// fault; either leaves the operand stack exactly as it was.
    fn exec_store_top(&mut self) -> (res: Result<(), RuntimeError>)
        ensures
            final(self).stack@.stack_offsets == old(self).stack@.stack_offsets,
            final(self).stack@.heap_index == old(self).stack@.heap_index,
            final(self).stack@.heap_index_offsets == old(self).stack@.heap_index_offsets,
            final(self).call_stack@ == old(self).call_stack@,
            ({
                let st0 = old(self).stack@.stack;
                let heap0 = old(self).heap.objects@;
                if st0.len() < 2 {
                    (res matches Result::Err(e) && e.code == ErrorCode::InvalidMemoryAccess)
                        && final(self).stack@.stack == st0 && final(self).heap.objects@ == heap0
                } else {
                    match st0[st0.len() - 2].value {
                        Value::Ref(addr) => if addr < heap0.len() {
                            res is Ok && final(self).stack@.stack == st0.drop_last().drop_last()
                                && final(self).heap.objects@ == heap0.update(
                                addr as int,
                                st0.last(),
                            )
                        } else {
                            (res matches Result::Err(e) && e.code
                                == ErrorCode::InvalidMemoryAccess) && final(self).stack@.stack
                                == st0 && final(self).heap.objects@ == heap0
                        },
                        _ => (res matches Result::Err(e) && e.code == ErrorCode::TypeError)
                            && final(self).stack@.stack == st0 && final(self).heap.objects@
                            == heap0,
                    }
                }
            }),
    {
        let len = self.stack.stack_len();
        if len < 2 {
            return Err(invalid_access());
        }
        let target_addr: Address = match &self.stack.peek(len - 2).value {
            Value::Ref(addr) => *addr,
            _ => {
                return Err(
                    RuntimeError::with_message(
                        ErrorCode::TypeError,
                        String::from_str("Cannot assign to non-reference"),
                    ),
                );
            },
        };
        if target_addr >= self.heap.len() {
            return Err(invalid_access());
        }
        let value = self.stack.pop_require();
        let _ = self.stack.pop_require();
        match self.heap.store(target_addr, value) {
            Ok(()) => Ok(()),
            Err(_) => vstd::pervasive::unreached(),
        }
    }

    /// Run the `Allocate` instruction: reserve a heap cell holding None and
    /// record its address in the current scope's partition of the address
    /// index.
    fn exec_allocate(&mut self)
        ensures
            final(self).stack@.stack == old(self).stack@.stack,
            final(self).stack@.stack_offsets == old(self).stack@.stack_offsets,
            final(self).stack@.heap_index_offsets == old(self).stack@.heap_index_offsets,
            final(self).stack@.heap_index == old(self).stack@.heap_index.push(
                old(self).heap.objects@.len() as usize,
            ),
            final(self).call_stack@ == old(self).call_stack@,
            final(self).heap.objects@.len() == old(self).heap.objects@.len() + 1,
            final(self).heap.objects@.last().value == Value::Nil,
            forall|k: int|
                0 <= k < old(self).heap.objects@.len() ==> final(self).heap.objects@[k] == old(self).heap.objects@[k],
    {
        let address = self.heap.allocate();
        self.stack.push_heap_address(address);
    }

    /// Unwind the operand stack scope by scope, leaving every scope opened
    /// at or past `target`; a stack still longer than `target` afterwards is
    /// a memory fault, as is an address index out of step with the scopes.
    fn unwind_to(&mut self, target: usize) -> (res: Result<(), RuntimeError>)
        ensures
            final(self).stack@ == spec_unwind(old(self).stack@, target as int),
            final(self).heap.objects@ == old(self).heap.objects@,
            final(self).call_stack@ == old(self).call_stack@,
            res is Ok ==> final(self).stack@.stack.len() <= target,
            res matches Result::Err(e) ==> e.code == ErrorCode::InvalidMemoryAccess,
    {
        loop
            invariant
                spec_unwind(old(self).stack@, target as int) == spec_unwind(
                    self.stack@,
                    target as int,
                ),
                self.heap.objects@ == old(self).heap.objects@,
                self.call_stack@ == old(self).call_stack@,
            ensures
                self.stack@ == spec_unwind(old(self).stack@, target as int),
                self.heap.objects@ == old(self).heap.objects@,
                self.call_stack@ == old(self).call_stack@,
            decreases self.stack@.stack_offsets.len(),
        {
            let depth = self.stack.scope_depth();
            if depth == 0 {
                break ;
            }
            if self.stack.stack_offsets[depth - 1] < target {
                break ;
            }
            if self.stack.heap_index_offsets.len() == 0 {
                return Err(invalid_access());
            }
            self.stack.pop_scope();
        }
        if self.stack.stack_len() > target {
            return Err(invalid_access());
        }
        Ok(())
    }

    /// Run the `Return` instruction: pop the innermost call frame and
    /// unwind the operand stack, scope by scope, down to the frame's
    /// recorded slot; with no frame active the fault is
    /// `ReturnOutsideFunction`.
    fn exec_return(&mut self) -> (res: Result<(), RuntimeError>)
        ensures
            final(self).heap.objects@ == old(self).heap.objects@,
            res matches Result::Err(e) ==> e.code != ErrorCode::NoError,
            old(self).call_stack@.len() == 0 ==> (res matches Result::Err(e) && e.code
                == ErrorCode::ReturnOutsideFunction) && final(self).stack@ == old(self).stack@
                && final(self).call_stack@ == old(self).call_stack@,
            old(self).call_stack@.len() > 0 ==> final(self).call_stack@ == old(self).call_stack@.drop_last() && final(self).stack@ == spec_unwind(
                old(self).stack@,
                old(self).call_stack@.last().return_index + 1,
            ),
    {
        let frame = match self.call_stack.pop() {
            Some(frame) => frame,
            None => {
                return Err(
                    RuntimeError::with_message(
                        ErrorCode::ReturnOutsideFunction,
                        String::from_str("Cannot return outside of a function"),
                    ),
                );
            },
        };
        let _current_len = self.stack.stack_len();
        if frame.return_index == usize::MAX {
            return Err(invalid_access());
        }
        self.unwind_to(frame.return_index + 1)
    }

    /// Run the `ReturnValue` instruction: pop the return value, unwind as
    /// `Return` does, and land the value in the call's return slot.
    fn exec_return_value(&mut self) -> (res: Result<(), RuntimeError>)
        ensures
            final(self).heap.objects@ == old(self).heap.objects@,
            res matches Result::Err(e) ==> e.code != ErrorCode::NoError,
            old(self).call_stack@.len() == 0 ==> (res matches Result::Err(e) && e.code
                == ErrorCode::ReturnOutsideFunction) && final(self).stack@ == old(self).stack@
                && final(self).call_stack@ == old(self).call_stack@,
            old(self).call_stack@.len() > 0 && old(self).stack@.stack.len() == 0 ==> (
            res matches Result::Err(e) && e.code == ErrorCode::InvalidMemoryAccess) && final(self).stack@ == old(self).stack@ && final(self).call_stack@ == old(self).call_stack@,
            old(self).call_stack@.len() > 0 && old(self).stack@.stack.len() > 0 ==> {
                let popped = crate::runtime::memory::ScopeStackView {
                    stack: old(self).stack@.stack.drop_last(),
                    stack_offsets: old(self).stack@.stack_offsets,
                    heap_index: old(self).stack@.heap_index,
                    heap_index_offsets: old(self).stack@.heap_index_offsets,
                };
                let target = old(self).call_stack@.last().return_index + 1;
                let unwound = spec_unwind(popped, target);
                &&& final(self).call_stack@ == old(self).call_stack@.drop_last()
                &&& (res is Ok ==> unwound.stack.len() == target && final(self).stack@ == (
                crate::runtime::memory::ScopeStackView {
                    stack: unwound.stack.update(target - 1, old(self).stack@.stack.last()),
                    stack_offsets: unwound.stack_offsets,
                    heap_index: unwound.heap_index,
                    heap_index_offsets: unwound.heap_index_offsets,
                }))
                &&& (res matches Result::Err(e) ==> e.code == ErrorCode::InvalidMemoryAccess)
            },
    {
        if self.call_stack.len() == 0 {
            return Err(
                RuntimeError::with_message(
                    ErrorCode::ReturnOutsideFunction,
                    String::from_str("Cannot return outside of a function"),
                ),
            );
        }
        if self.stack.stack_len() == 0 {
            return Err(invalid_access());
        }
        let value = self.stack.pop_require();
        let frame = match self.call_stack.pop() {
            Some(frame) => frame,
            None => vstd::pervasive::unreached(),
        };
        let _current_len = self.stack.stack_len();
        if frame.return_index == usize::MAX {
            return Err(invalid_access());
        }
        match self.unwind_to(frame.return_index + 1) {
            Ok(()) => (),
            Err(e) => {
                return Err(e);
            },
        }
        if self.stack.stack_len() == frame.return_index + 1 {
            self.stack.set_slot(frame.return_index, value);
            Ok(())
        } else {
            Err(invalid_access())
        }
    }
}


/// A task never names a node outside the arena.
spec fn task_wf(t: Task, nodes_len: int) -> bool {
    match t {
        Task::Visit(n) => n < nodes_len,
        Task::Exec { node, .. } => node < nodes_len,
        _ => true,
    }
}

/// Every scheduled task names nodes inside the arena.
spec fn tasks_wf(ts: Seq<Task>, nodes_len: int) -> bool {
    forall|k: int| 0 <= k < ts.len() ==> task_wf(#[trigger] ts[k], nodes_len)
}

/// Whether a task is work on the given node: a pending visit of it or a
/// pending run of its code.
spec fn task_is_for(t: Task, id: int) -> bool {
    match t {
        Task::Visit(n) => n == id,
        Task::Exec { node, .. } => node == id,
        _ => false,
    }
}

/// Whether some scheduled task is still work on the given node.
spec fn pending_for(ts: Seq<Task>, id: int) -> bool {
    exists|j: int| 0 <= j < ts.len() && #[trigger] task_is_for(ts[j], id)
}

/// Pushing a task keeps every pending node pending, and makes the pushed
/// task's own node pending.
proof fn lemma_pending_push(ts: Seq<Task>, t: Task)
    ensures
        forall|id: int| #[trigger] pending_for(ts, id) ==> pending_for(ts.push(t), id),
        forall|id: int| task_is_for(t, id) ==> #[trigger] pending_for(ts.push(t), id),
{
    assert forall|id: int| #[trigger] pending_for(ts, id) implies pending_for(
        ts.push(t),
        id,
    ) by {
        let j = choose|j: int| 0 <= j < ts.len() && #[trigger] task_is_for(ts[j], id);
        assert(ts.push(t)[j] == ts[j]);
        assert(task_is_for(ts.push(t)[j], id));
    }
    assert forall|id: int| task_is_for(t, id) implies #[trigger] pending_for(
        ts.push(t),
        id,
    ) by {
        assert(ts.push(t)[ts.len() as int] == t);
        assert(task_is_for(ts.push(t)[ts.len() as int], id));
    }
}

/// Popping a task leaves a pending node pending unless the popped task was
/// the work on it.
proof fn lemma_pending_pop(ts: Seq<Task>, id: int)
    requires
        ts.len() > 0,
        pending_for(ts, id),
    ensures
        pending_for(ts.drop_last(), id) || task_is_for(ts.last(), id),
{
    let j = choose|j: int| 0 <= j < ts.len() && #[trigger] task_is_for(ts[j], id);
    if j < ts.len() - 1 {
        assert(ts.drop_last()[j] == ts[j]);
        assert(task_is_for(ts.drop_last()[j], id));
    }
}

/// Schedule one task, tracking what stays and becomes pending.
fn push_task(tasks: &mut Vec<Task>, t: Task, Ghost(nodes_len): Ghost<int>)
    requires
        tasks_wf(old(tasks)@, nodes_len),
        task_wf(t, nodes_len),
    ensures
        tasks_wf(final(tasks)@, nodes_len),
        final(tasks)@.len() == old(tasks)@.len() + 1,
        forall|id: int| #[trigger] pending_for(old(tasks)@, id) ==> pending_for(final(tasks)@, id),
        forall|id: int| #[trigger] task_is_for(t, id) ==> pending_for(final(tasks)@, id),
{
    let ghost ts0 = tasks@;
    tasks.push(t);
    proof {
        lemma_pending_push(ts0, t);
        assert forall|id: int| #[trigger] task_is_for(t, id) implies pending_for(
            tasks@,
            id,
        ) by {
            assert(tasks@[ts0.len() as int] == t);
            assert(task_is_for(tasks@[ts0.len() as int], id));
        }
    }
}

/// Schedule visits of the given nodes so that the first of them is executed
/// first: they are pushed in reverse order; each of them becomes pending and
/// every pending node stays pending.
fn push_visits_reversed(tasks: &mut Vec<Task>, ids: &Vec<usize>, Ghost(nodes_len): Ghost<int>)
    requires
        tasks_wf(old(tasks)@, nodes_len),
        forall|k: int| 0 <= k < ids@.len() ==> #[trigger] ids@[k] < nodes_len,
    ensures
        tasks_wf(final(tasks)@, nodes_len),
        final(tasks)@.len() == old(tasks)@.len() + ids@.len(),
        forall|id: int| #[trigger] pending_for(old(tasks)@, id) ==> pending_for(final(tasks)@, id),
        forall|k: int| 0 <= k < ids@.len() ==> #[trigger] pending_for(final(tasks)@, ids@[k] as int),
{
    let mut i: usize = ids.len();
    while i > 0
        invariant
            i <= ids@.len(),
            tasks_wf(tasks@, nodes_len),
            tasks@.len() == old(tasks)@.len() + (ids@.len() - i),
            forall|k: int| 0 <= k < ids@.len() ==> #[trigger] ids@[k] < nodes_len,
            forall|id: int|
                #[trigger] pending_for(old(tasks)@, id) ==> pending_for(tasks@, id),
            forall|k: int|
                i <= k < ids@.len() ==> #[trigger] pending_for(tasks@, ids@[k] as int),
        decreases i,
    {
        i = i - 1;
        let ghost ts0 = tasks@;
        tasks.push(Task::Visit(ids[i]));
        proof {
            lemma_pending_push(ts0, Task::Visit(ids@[i as int]));
            assert(tasks@ == ts0.push(Task::Visit(ids@[i as int])));
            assert forall|id: int| #[trigger] pending_for(old(tasks)@, id) implies pending_for(
                tasks@,
                id,
            ) by {
                assert(pending_for(ts0, id));
            }
            assert forall|k: int| i <= k < ids@.len() implies #[trigger] pending_for(
                tasks@,
                ids@[k] as int,
            ) by {
                if k == i {
                    assert(task_is_for(Task::Visit(ids@[i as int]), ids@[i as int] as int));
                } else {
                    assert(pending_for(ts0, ids@[k] as int));
                }
            }
        }
    }
}

impl Vm {
    /// The heap address of a local id: an index from the top partition of
    /// the address index; touching past either is a memory fault.
    fn load_address_local(&self, local_id: usize) -> (res: Result<Address, RuntimeError>)
        ensures
            ({
                let v = self.stack@;
                if v.heap_index_offsets.len() == 0 {
                    (res matches Result::Err(e) && e.code == ErrorCode::InvalidMemoryAccess)
                } else if v.heap_index_offsets.last() + local_id >= v.heap_index.len() {
                    (res matches Result::Err(e) && e.code == ErrorCode::InvalidMemoryAccess)
                } else {
                    res == Result::<Address, RuntimeError>::Ok(
                        v.heap_index[v.heap_index_offsets.last() + local_id],
                    )
                }
            }),
    {
        let d = self.stack.heap_index_offsets.len();
        if d == 0 {
            return Err(invalid_access());
        }
        let base = self.stack.heap_index_offsets[d - 1];
        let hlen = self.stack.heap_index.len();
        if base >= hlen || hlen - base <= local_id {
            return Err(invalid_access());
        }
        Ok(self.stack.get_heap_address_from_local_id(local_id))
    }

    /// The heap address of a global id: an index into partition zero of the
    /// address index; touching past it is a memory fault.
    fn load_address_global(&self, global_id: usize) -> (res: Result<Address, RuntimeError>)
        ensures
            ({
                let v = self.stack@;
                if global_id < v.heap_index.len() {
                    res == Result::<Address, RuntimeError>::Ok(v.heap_index[global_id as int])
                } else {
                    (res matches Result::Err(e) && e.code == ErrorCode::InvalidMemoryAccess)
                }
            }),
    {
        if global_id < self.stack.heap_index.len() {
            Ok(self.stack.get_heap_address_from_global_id(global_id))
        } else {
            Err(invalid_access())
        }
    }

    /// The heap address of a local id found `scope_offset` enclosing scopes
    /// away; touching past the live partitions is a memory fault.
    fn load_address_offset(&self, local_id: usize, scope_offset: usize) -> (res: Result<
        Address,
        RuntimeError,
    >)
        ensures
            ({
                let v = self.stack@;
                if scope_offset >= v.heap_index_offsets.len() {
                    (res matches Result::Err(e) && e.code == ErrorCode::InvalidMemoryAccess)
                } else if v.heap_index_offsets[v.heap_index_offsets.len() - 1 - scope_offset]
                    + local_id >= v.heap_index.len() {
                    (res matches Result::Err(e) && e.code == ErrorCode::InvalidMemoryAccess)
                } else {
                    res == Result::<Address, RuntimeError>::Ok(
                        v.heap_index[v.heap_index_offsets[v.heap_index_offsets.len() - 1
                            - scope_offset] + local_id],
                    )
                }
            }),
    {
        let d = self.stack.heap_index_offsets.len();
        if scope_offset >= d {
            return Err(invalid_access());
        }
        let base = self.stack.heap_index_offsets[d - 1 - scope_offset];
        let hlen = self.stack.heap_index.len();
        if base >= hlen || hlen - base <= local_id {
            return Err(invalid_access());
        }
        Ok(self.stack.get_heap_address_from_offsets(local_id, scope_offset))
    }

    /// Run the `MakeList` instruction: pop the counted operands, in pop
    /// order, into a fresh list and push it. Too few operands is a memory
    /// fault and leaves the operand stack as it was.
    fn exec_make_list(&mut self, count: usize) -> (res: Result<(), RuntimeError>)
        ensures
            final(self).stack@.stack_offsets == old(self).stack@.stack_offsets,
            final(self).stack@.heap_index == old(self).stack@.heap_index,
            final(self).stack@.heap_index_offsets == old(self).stack@.heap_index_offsets,
            final(self).heap.objects@ == old(self).heap.objects@,
            final(self).call_stack@ == old(self).call_stack@,
            ({
                let st0 = old(self).stack@.stack;
                if st0.len() < count {
                    (res matches Result::Err(e) && e.code == ErrorCode::InvalidMemoryAccess)
                        && final(self).stack@.stack == st0
                } else {
                    &&& res is Ok
                    &&& final(self).stack@.stack.len() == st0.len() - count + 1
                    &&& final(self).stack@.stack.drop_last() == st0.take(st0.len() - count)
                    &&& final(self).stack@.stack.last().ref_count == 0
                    &&& (final(self).stack@.stack.last().abs() matches AbsVal::List(l)
                        && l.len() == count && (forall|i: int|
                        0 <= i < count ==> l[i] == st0[st0.len() - 1 - i].abs()))
                }
            }),
    {
        let len = self.stack.stack_len();
        if len < count {
            return Err(invalid_access());
        }
        let mut elements: Vec<Object> = Vec::new();
        let mut taken: usize = 0;
        while taken < count
            invariant
                taken <= count,
                count <= old(self).stack@.stack.len(),
                elements@.len() == taken,
                self.stack@.stack == old(self).stack@.stack.take(
                    old(self).stack@.stack.len() - taken,
                ),
                forall|k: int|
                    0 <= k < taken ==> #[trigger] elements@[k] == old(self).stack@.stack[old(self).stack@.stack.len() - 1 - k],
                self.stack@.stack_offsets == old(self).stack@.stack_offsets,
                self.stack@.heap_index == old(self).stack@.heap_index,
                self.stack@.heap_index_offsets == old(self).stack@.heap_index_offsets,
                self.heap.objects@ == old(self).heap.objects@,
                self.call_stack@ == old(self).call_stack@,
            decreases count - taken,
        {
            proof {
                assert(self.stack@.stack.len() == old(self).stack@.stack.len() - taken);
                assert(self.stack@.stack.last() == old(self).stack@.stack[old(self).stack@.stack.len() - 1 - taken]);
            }
            let obj = self.stack.pop_require();
            elements.push(obj);
            taken = taken + 1;
            proof {
                assert(self.stack@.stack =~= old(self).stack@.stack.take(
                    old(self).stack@.stack.len() - taken,
                ));
            }
        }
        proof {
            crate::object::lemma_abs_seq(elements@);
        }
        let list = Object::new(Value::List(elements));
        self.stack.push(list);
        Ok(())
    }

    /// Walk one node's bytecode from `start_pc`: each instruction works the
    /// operand stack, the heap or the call stack, and the walk ends with the
    /// code, with the first fault, or at a call instruction, which is handed
    /// back for the driver to perform.
    fn run_segment(&mut self, code: &ByteCode, start_pc: usize) -> (res: Result<
        SegmentEnd,
        RuntimeError,
    >)
        ensures
            final(self).heap.objects@.len() >= old(self).heap.objects@.len(),
            res matches Result::Err(e) ==> e.code != ErrorCode::NoError,
    {
        let n = code.len();
        let mut pc = start_pc;
        while pc < n
            invariant
                n == code@.len(),
                self.heap.objects@.len() >= old(self).heap.objects@.len(),
            decreases n - pc,
        {
            proof {
                lemma_binary_error_codes();
                lemma_not_error_codes();
            }
            let instruction = match OpCode::from_byte(code[pc]) {
                Some(i) => i,
                None => {
                    return Err(invalid_access());
                },
            };
            let pc1 = pc + 1;
            match instruction {
                OpCode::Nop => {
                    pc = pc1;
                },
                OpCode::LoadLocalRef => {
                    if n - pc1 < 8 {
                        return Err(invalid_access());
                    }
                    let (local_id, used) = get_raw_id(pc1, code);
                    let address = match self.load_address_local(local_id) {
                        Ok(a) => a,
                        Err(e) => {
                            return Err(e);
                        },
                    };
                    match self.heap.get_ref(address) {
                        Ok(obj) => self.stack.push(obj),
                        Err(e) => {
                            return Err(e);
                        },
                    }
                    pc = pc1 + used;
                },
                OpCode::LoadGlobalRef => {
                    if n - pc1 < 8 {
                        return Err(invalid_access());
                    }
                    let (global_id, used) = get_raw_id(pc1, code);
                    let address = match self.load_address_global(global_id) {
                        Ok(a) => a,
                        Err(e) => {
                            return Err(e);
                        },
                    };
                    match self.heap.get_ref(address) {
                        Ok(obj) => self.stack.push(obj),
                        Err(e) => {
                            return Err(e);
                        },
                    }
                    pc = pc1 + used;
                },
                OpCode::LoadOffsetRef => {
                    if n - pc1 < 8 {
                        return Err(invalid_access());
                    }
                    let (local_id, used_a) = get_raw_id(pc1, code);
                    let pc2 = pc1 + used_a;
                    if n - pc2 < 8 {
                        return Err(invalid_access());
                    }
                    let (scope_offset, used_b) = get_raw_id(pc2, code);
                    let address = match self.load_address_offset(local_id, scope_offset) {
                        Ok(a) => a,
                        Err(e) => {
                            return Err(e);
                        },
                    };
                    match self.heap.get_ref(address) {
                        Ok(obj) => self.stack.push(obj),
                        Err(e) => {
                            return Err(e);
                        },
                    }
                    pc = pc2 + used_b;
                },
                OpCode::LoadConst => {
                    if pc1 >= n {
                        return Err(invalid_access());
                    }
                    let tag = code[pc1];
                    let type_code = match TypeCode::from_byte(tag) {
                        Some(tc) => tc,
                        None => {
                            return Err(invalid_access());
                        },
                    };
                    match Object::from_byte_code_const(type_code, code, pc1 + 1) {
                        Some((obj, used)) => {
                            self.stack.push(obj);
                            pc = pc1 + 1 + used;
                        },
                        None => {
                            return Err(invalid_access());
                        },
                    }
                },
                OpCode::PopScope => {
                    if self.stack.scope_depth() == 0 || self.stack.heap_index_offsets.len() == 0 {
                        return Err(invalid_access());
                    }
                    self.stack.pop_scope();
                    pc = pc1;
                },
                OpCode::CallFunction => {
                    if pc1 >= n {
                        return Err(invalid_access());
                    }
                    let arg_count = code[pc1] as usize;
                    return Ok(SegmentEnd::Call { arg_count, resume_pc: pc1 + 1 });
                },
                OpCode::MakeFunction => {
                    if n - pc1 < 8 {
                        return Err(invalid_access());
                    }
                    let (handle, used) = get_raw_ptr(pc1, code);
                    self.stack.push(Object::new(Value::Function(handle)));
                    pc = pc1 + used;
                },
                OpCode::StoreTop => {
                    match self.exec_store_top() {
                        Ok(()) => (),
                        Err(e) => {
                            return Err(e);
                        },
                    }
                    pc = pc1;
                },
                OpCode::Add | OpCode::Sub | OpCode::Mul | OpCode::Div | OpCode::Mod
                    | OpCode::Equal | OpCode::NotEqual | OpCode::And | OpCode::Or
                    | OpCode::Greater | OpCode::GreaterEqual | OpCode::Less
                    | OpCode::LessEqual => {
                    match self.exec_binary(instruction) {
                        Ok(()) => (),
                        Err(e) => {
                            return Err(e);
                        },
                    }
                    pc = pc1;
                },
                OpCode::Not => {
                    match self.exec_not() {
                        Ok(()) => (),
                        Err(e) => {
                            return Err(e);
                        },
                    }
                    pc = pc1;
                },
                OpCode::GetIter | OpCode::Subscript => {
                    // declared in the instruction set, not wired to code
                    // generation
                    return Err(
                        RuntimeError::with_message(
                            ErrorCode::TypeError,
                            String::from_str("Instruction is not supported"),
                        ),
                    );
                },
                OpCode::ReturnValue => {
                    match self.exec_return_value() {
                        Ok(()) => (),
                        Err(e) => {
                            return Err(e);
                        },
                    }
                    pc = pc1;
                },
                OpCode::Return => {
                    match self.exec_return() {
                        Ok(()) => (),
                        Err(e) => {
                            return Err(e);
                        },
                    }
                    pc = pc1;
                },
                OpCode::PushScope => {
                    self.stack.push_scope();
                    pc = pc1;
                },
                OpCode::Allocate => {
                    self.exec_allocate();
                    pc = pc1;
                },
                OpCode::MakeList => {
                    if n - pc1 < 8 {
                        return Err(invalid_access());
                    }
                    let (count, used) = get_raw_usize(pc1, code);
                    match self.exec_make_list(count) {
                        Ok(()) => (),
                        Err(e) => {
                            return Err(e);
                        },
                    }
                    pc = pc1 + used;
                },
            }
        }
        Ok(SegmentEnd::Done)
    }

    /// Perform a call instruction, the protocol the instruction set owes:
    /// drop the placeholder, the arguments and the callee; require the
    /// callee, read through a reference, to be a function whose compiled
    /// node holds a body; re-push the placeholder as the return slot; open
    /// the call frame recording that slot and the callee; and enter the
    /// body's scope. A missing operand or a dangling handle is a memory
    /// fault, anything not callable a type fault.
    fn begin_call(&mut self, jit: &Jit, arg_count: usize) -> (res: Result<usize, RuntimeError>)
        requires
            jit.wf(),
        ensures
            final(self).heap.objects@ == old(self).heap.objects@,
            ({
                let st0 = old(self).stack@.stack;
                let heap0 = old(self).heap.objects@;
                if st0.len() < 2 + arg_count {
                    (res matches Result::Err(e) && e.code == ErrorCode::InvalidMemoryAccess)
                        && *final(self) == *old(self)
                } else {
                    let base = st0.len() - 2 - arg_count;
                    let slot = st0.last();
                    let callee = st0[base];
                    let failed = final(self).stack@.stack == st0.take(base) && final(self).stack@.stack_offsets == old(self).stack@.stack_offsets && final(self).stack@.heap_index == old(self).stack@.heap_index && final(self).stack@.heap_index_offsets == old(self).stack@.heap_index_offsets && final(self).call_stack@ == old(self).call_stack@;
                    let dangling = (callee.value matches Value::Ref(a) && a >= heap0.len());
                    let handle = match callee.value {
                        Value::Function(h) => Some(h as int),
                        Value::Ref(a) => if a < heap0.len() {
                            match heap0[a as int].value {
                                Value::Function(h) => Some(h as int),
                                _ => None,
                            }
                        } else {
                            None
                        },
                        _ => None,
                    };
                    if dangling {
                        (res matches Result::Err(e) && e.code == ErrorCode::InvalidMemoryAccess)
                            && failed
                    } else {
                        match handle {
                            None => (res matches Result::Err(e) && e.code == ErrorCode::TypeError)
                                && failed,
                            Some(h) => if h >= jit.nodes@.len() {
                                (res matches Result::Err(e) && e.code
                                    == ErrorCode::InvalidMemoryAccess) && failed
                            } else {
                                match jit.nodes@[h].children {
                                    NodeContent::Function { body, .. } => res == Result::<
                                        usize,
                                        RuntimeError,
                                    >::Ok(body) && final(self).stack@
                                        == crate::runtime::memory::spec_push_scope(
                                        (crate::runtime::memory::ScopeStackView {
                                            stack: st0.take(base).push(slot),
                                            stack_offsets: old(self).stack@.stack_offsets,
                                            heap_index: old(self).stack@.heap_index,
                                            heap_index_offsets: old(self).stack@.heap_index_offsets,
                                        }),
                                    ) && final(self).call_stack@ == old(self).call_stack@.push(
                                        (FunctionCall {
                                            return_index: base as usize,
                                            function: h as usize,
                                        }),
                                    ),
                                    _ => (res matches Result::Err(e) && e.code
                                        == ErrorCode::TypeError) && failed,
                                }
                            },
                        }
                    }
                }
            }),
    {
        let len = self.stack.stack_len();
        if len < 2 {
            return Err(invalid_access());
        }
        if len - 2 < arg_count {
            return Err(invalid_access());
        }
        let slot = self.stack.pop_require();
        let ghost st0 = old(self).stack@.stack;
        let mut dropped: usize = 0;
        while dropped < arg_count
            invariant
                dropped <= arg_count,
                len == st0.len(),
                len >= 2 + arg_count,
                self.stack@.stack == st0.take(len - 1 - dropped),
                self.stack@.stack_offsets == old(self).stack@.stack_offsets,
                self.stack@.heap_index == old(self).stack@.heap_index,
                self.stack@.heap_index_offsets == old(self).stack@.heap_index_offsets,
                self.call_stack@ == old(self).call_stack@,
                self.heap.objects@ == old(self).heap.objects@,
            decreases arg_count - dropped,
        {
            let _ = self.stack.pop_require();
            dropped = dropped + 1;
            proof {
                assert(self.stack@.stack =~= st0.take(len - 1 - dropped));
            }
        }
        let callee = self.stack.pop_require();
        proof {
            assert(callee == st0[len - 2 - arg_count]);
            assert(self.stack@.stack =~= st0.take(len - 2 - arg_count));
        }
        let handle: usize = match &callee.value {
            Value::Function(h) => *h,
            Value::Ref(addr) => {
                if *addr < self.heap.len() {
                    match &self.heap.cell(*addr).value {
                        Value::Function(h) => *h,
                        _ => {
                            return Err(
                                RuntimeError::with_message(
                                    ErrorCode::TypeError,
                                    String::from_str("Object is not callable"),
                                ),
                            );
                        },
                    }
                } else {
                    return Err(invalid_access());
                }
            },
            _ => {
                return Err(
                    RuntimeError::with_message(
                        ErrorCode::TypeError,
                        String::from_str("Object is not callable"),
                    ),
                );
            },
        };
        if handle >= jit.nodes.len() {
            return Err(invalid_access());
        }
        let body_block: usize = match &jit.node(handle).children {
            NodeContent::Function { body, .. } => *body,
            _ => {
                return Err(
                    RuntimeError::with_message(
                        ErrorCode::TypeError,
                        String::from_str("Object is not callable"),
                    ),
                );
            },
        };
        proof {
            assert(Jit::node_wf(
                jit.nodes@[handle as int],
                jit.blocks@.len() as int,
                jit.nodes@.len() as int,
            ));
        }
        self.stack.push(slot);
        let return_index = self.stack.get_last_stack_index();
        self.call_stack.push(FunctionCall { return_index, function: handle });
        self.stack.push_scope();
        Ok(body_block)
    }

    /// The driver loop: work through the scheduled tasks, expanding each
    /// node into its children before its own code, under the given step
    /// budget. When the walk completes without a fault, every top-level
    /// statement's node has been compiled — each was taken up and its code
    /// produced before it ran.
    fn run(&mut self, jit: &mut Jit, fuel: u64) -> (res: Result<(), RuntimeError>)
        requires
            old(jit).wf(),
        ensures
            final(jit).wf(),
            final(self).heap.objects@.len() >= old(self).heap.objects@.len(),
            old(jit).blocks@[old(jit).root as int].nodes@.len() == 0 ==> res is Ok && *final(self)
                == *old(self) && *final(jit) == *old(jit),
            res matches Result::Err(e) ==> e.code != ErrorCode::NoError,
            final(jit).root == old(jit).root,
            res is Ok ==> forall|k: int|
                0 <= k < final(jit).blocks@[final(jit).root as int].nodes@.len() ==> final(jit).nodes@[(#[trigger] final(jit).blocks@[final(jit).root as int].nodes@[k]) as int].code
                    is Some,
    {
        let mut tasks: Vec<Task> = Vec::new();
        let root = jit.root;
        if jit.block(root).nodes.len() == 0 {
            return Ok(());
        }
        let ghost root_ids = jit.blocks@[root as int].nodes@;
        proof {
            assert(Jit::block_wf(
                jit.blocks@[jit.root as int],
                jit.root as int,
                jit.nodes@.len() as int,
            ));
        }
        push_visits_reversed(
            &mut tasks,
            &jit.block(root).nodes,
            Ghost(jit.nodes@.len() as int),
        );
        let mut remaining = fuel;
        while tasks.len() > 0
            invariant
                jit.wf(),
                jit.nodes@.len() == old(jit).nodes@.len(),
                jit.blocks@.len() == old(jit).blocks@.len(),
                jit.root == old(jit).root,
                root == old(jit).root,
                root_ids == jit.blocks@[root as int].nodes@,
                tasks_wf(tasks@, jit.nodes@.len() as int),
                self.heap.objects@.len() >= old(self).heap.objects@.len(),
                old(jit).blocks@[old(jit).root as int].nodes@.len() > 0,
                forall|k: int|
                    0 <= k < root_ids.len() ==> (#[trigger] root_ids[k]) < jit.nodes@.len(),
                forall|k: int|
                    0 <= k < root_ids.len() ==> jit.nodes@[(#[trigger] root_ids[k]) as int].code
                        is Some || pending_for(tasks@, root_ids[k] as int),
            decreases remaining,
        {
            if remaining == 0 {
                return Err(
                    RuntimeError::with_message(
                        ErrorCode::ExecutionLimit,
                        String::from_str("The step budget ran out"),
                    ),
                );
            }
            remaining = remaining - 1;
            let ghost ts_entry = tasks@;
            let task = match tasks.pop() {
                Some(t) => t,
                None => vstd::pervasive::unreached(),
            };
            proof {
                assert(tasks@ =~= ts_entry.drop_last());
            }
            match task {
                Task::Visit(node_id) => {
                    proof {
                        assert(Jit::node_wf(
                            jit.nodes@[node_id as int],
                            jit.blocks@.len() as int,
                            jit.nodes@.len() as int,
                        ));
                    }
                    match &jit.node(node_id).children {
                        NodeContent::Leaf => {
                            push_task(
                                &mut tasks,
                                Task::Exec { node: node_id, pc: 0 },
                                Ghost(jit.nodes@.len() as int),
                            );
                        },
                        NodeContent::ListLike { children } => {
                            push_task(
                                &mut tasks,
                                Task::Exec { node: node_id, pc: 0 },
                                Ghost(jit.nodes@.len() as int),
                            );
                            push_visits_reversed(
                                &mut tasks,
                                children,
                                Ghost(jit.nodes@.len() as int),
                            );
                        },
                        NodeContent::Scope { body } => {
                            let body_block = *body;
                            push_task(&mut tasks, Task::LeaveScope, Ghost(jit.nodes@.len() as int));
                            proof {
                                assert(Jit::block_wf(
                                    jit.blocks@[body_block as int],
                                    body_block as int,
                                    jit.nodes@.len() as int,
                                ));
                            }
                            push_visits_reversed(
                                &mut tasks,
                                &jit.block(body_block).nodes,
                                Ghost(jit.nodes@.len() as int),
                            );
                            push_task(
                                &mut tasks,
                                Task::Exec { node: node_id, pc: 0 },
                                Ghost(jit.nodes@.len() as int),
                            );
                        },
                        NodeContent::LoopLike { .. } => {
                            push_task(
                                &mut tasks,
                                Task::Exec { node: node_id, pc: 0 },
                                Ghost(jit.nodes@.len() as int),
                            );
                        },
                        NodeContent::IfLike { .. } => {
                            push_task(
                                &mut tasks,
                                Task::Exec { node: node_id, pc: 0 },
                                Ghost(jit.nodes@.len() as int),
                            );
                        },
                        NodeContent::Function { .. } => {
                            push_task(
                                &mut tasks,
                                Task::Exec { node: node_id, pc: 0 },
                                Ghost(jit.nodes@.len() as int),
                            );
                        },
                        NodeContent::Optional { child } => {
                            let child_id = *child;
                            push_task(
                                &mut tasks,
                                Task::Exec { node: node_id, pc: 0 },
                                Ghost(jit.nodes@.len() as int),
                            );
                            match child_id {
                                Some(c) => push_task(
                                    &mut tasks,
                                    Task::Visit(c),
                                    Ghost(jit.nodes@.len() as int),
                                ),
                                None => (),
                            }
                        },
                    }
                    proof {
                        assert forall|k: int|
                            0 <= k < root_ids.len() && !(jit.nodes@[(#[trigger] root_ids[k]) as int].code
                                is Some) implies pending_for(tasks@, root_ids[k] as int) by {
                            let id = root_ids[k] as int;
                            assert(pending_for(ts_entry, id));
                            lemma_pending_pop(ts_entry, id);
                            if task_is_for(ts_entry.last(), id) {
                                assert(id == node_id);
                                assert(task_is_for(
                                    Task::Exec { node: node_id, pc: 0 },
                                    id,
                                ));
                            }
                        }
                    }
                },
                Task::Exec { node, pc } => {
                    match jit.compile(node) {
                        Ok(()) => (),
                        Err(ce) => {
                            return Err(compile_error_to_runtime(ce));
                        },
                    }
                    proof {
                        assert(jit.blocks@[root as int].nodes@ == root_ids);
                        assert(jit.nodes@[node as int].code is Some);
                    }
                    let segment = {
                        let code = jit.node_code(node);
                        self.run_segment(code, pc)
                    };
                    match segment {
                        Err(e) => {
                            return Err(e);
                        },
                        Ok(SegmentEnd::Done) => (),
                        Ok(SegmentEnd::Call { arg_count, resume_pc }) => {
                            let body_block = match self.begin_call(jit, arg_count) {
                                Ok(b) => b,
                                Err(e) => {
                                    return Err(e);
                                },
                            };
                            let depth0 = self.call_stack.len() - 1;
                            push_task(
                                &mut tasks,
                                Task::Exec { node, pc: resume_pc },
                                Ghost(jit.nodes@.len() as int),
                            );
                            push_task(
                                &mut tasks,
                                Task::FinishCall { depth: depth0 },
                                Ghost(jit.nodes@.len() as int),
                            );
                            proof {
                                assert(Jit::block_wf(
                                    jit.blocks@[body_block as int],
                                    body_block as int,
                                    jit.nodes@.len() as int,
                                ));
                            }
                            push_visits_reversed(
                                &mut tasks,
                                &jit.block(body_block).nodes,
                                Ghost(jit.nodes@.len() as int),
                            );
                        },
                    }
                    proof {
                        assert forall|k: int|
                            0 <= k < root_ids.len() && !(jit.nodes@[(#[trigger] root_ids[k]) as int].code
                                is Some) implies pending_for(tasks@, root_ids[k] as int) by {
                            let id = root_ids[k] as int;
                            assert(id != node);
                            assert(pending_for(ts_entry, id));
                            lemma_pending_pop(ts_entry, id);
                        }
                    }
                },
                Task::LeaveScope => {
                    if self.stack.scope_depth() == 0 || self.stack.heap_index_offsets.len() == 0 {
                        return Err(invalid_access());
                    }
                    self.stack.pop_scope();
                    proof {
                        assert forall|k: int|
                            0 <= k < root_ids.len() && !(jit.nodes@[(#[trigger] root_ids[k]) as int].code
                                is Some) implies pending_for(tasks@, root_ids[k] as int) by {
                            let id = root_ids[k] as int;
                            assert(pending_for(ts_entry, id));
                            lemma_pending_pop(ts_entry, id);
                        }
                    }
                },
                Task::FinishCall { depth } => {
                    while self.call_stack.len() > depth
                        invariant
                            jit.wf(),
                            jit.nodes@.len() == old(jit).nodes@.len(),
                            jit.blocks@.len() == old(jit).blocks@.len(),
                            jit.root == old(jit).root,
                            self.heap.objects@.len() >= old(self).heap.objects@.len(),
                            old(jit).blocks@[old(jit).root as int].nodes@.len() > 0,
                        decreases self.call_stack@.len(),
                    {
                        match self.exec_return() {
                            Ok(()) => (),
                            Err(e) => {
                                return Err(e);
                            },
                        }
                    }
                    proof {
                        assert forall|k: int|
                            0 <= k < root_ids.len() && !(jit.nodes@[(#[trigger] root_ids[k]) as int].code
                                is Some) implies pending_for(tasks@, root_ids[k] as int) by {
                            let id = root_ids[k] as int;
                            assert(pending_for(ts_entry, id));
                            lemma_pending_pop(ts_entry, id);
                        }
                    }
                },
            }
        }
        proof {
            assert forall|k: int|
                0 <= k < root_ids.len() implies jit.nodes@[(#[trigger] root_ids[k]) as int].code
                is Some by {
                let id = root_ids[k] as int;
                if pending_for(tasks@, id) {
                    let j = choose|j: int| 0 <= j < tasks@.len() && #[trigger] task_is_for(
                        tasks@[j],
                        id,
                    );
                    assert(false);
                }
            }
        }
        Ok(())
    }

    /// Run a whole program: enter the global scope, walk the top-level
    /// statements in order, and report the first fault as a value — or no
    /// fault at all. A run that reports no fault engaged every top-level
    /// statement: each one's node was taken up and compiled before its code
    /// ran. Execution is bounded by a deliberate step budget large enough
    /// never to be reached in practice.
    pub fn execute(&mut self, jit: &mut Jit) -> (res: RuntimeError)
        requires
            old(jit).wf(),
        ensures
            final(jit).wf(),
            final(jit).root == old(jit).root,
            final(self).heap.objects@.len() >= old(self).heap.objects@.len(),
            old(jit).blocks@[old(jit).root as int].nodes@.len() == 0 ==> res.code
                == ErrorCode::NoError && final(self).heap.objects@ == old(self).heap.objects@
                && final(self).call_stack@ == old(self).call_stack@ && final(self).stack@
                == crate::runtime::memory::spec_push_scope(old(self).stack@) && *final(jit)
                == *old(jit),
            res.code == ErrorCode::NoError ==> forall|k: int|
                0 <= k < final(jit).blocks@[final(jit).root as int].nodes@.len() ==> final(jit).nodes@[(#[trigger] final(jit).blocks@[final(jit).root as int].nodes@[k]) as int].code
                    is Some,
    {
        self.stack.push_scope();
        match self.run(jit, u64::MAX) {
            Ok(()) => RuntimeError::no_error(),
            Err(e) => e,
        }
    }
}

} // verus!
