//! The virtual machine's memory model.
//!
//! The [`Heap`] is an append-only sequence of storage cells addressed by
//! stable indices; cells are written through, never reclaimed. The
//! [`ScopeStack`] is the operand stack plus an address index that is
//! range-partitioned by lexical scope: entering a scope records the current
//! lengths of both, leaving a scope truncates both back to the recorded
//! lengths.

use vstd::prelude::*;
use vstd::string::StringExecFns;

use crate::object::{Object, Value};
use crate::runtime::error_codes::{ErrorCode, RuntimeError};

verus! {

/// A stable index into the heap, never reused or compacted.
pub type Address = usize;

/// The operand stack and the scope-partitioned address index.
pub struct ScopeStack {
    /// The active object stack the interpreter operates on.
    pub stack: Vec<Object>,
    /// The start of each open scope's span of the object stack.
    pub stack_offsets: Vec<usize>,
    /// The start of each open scope's partition of the address index.
    pub heap_index_offsets: Vec<usize>,
    /// The heap addresses of the cells allocated so far, partition by
    /// partition.
    pub heap_index: Vec<Address>,
}

/// The mathematical state of a scope stack: its four sequences.
pub struct ScopeStackView {
    pub stack: Seq<Object>,
    pub stack_offsets: Seq<usize>,
    pub heap_index_offsets: Seq<usize>,
    pub heap_index: Seq<Address>,
}

impl View for ScopeStack {
    type V = ScopeStackView;

    open spec fn view(&self) -> ScopeStackView {
        ScopeStackView {
            stack: self.stack@,
            stack_offsets: self.stack_offsets@,
            heap_index_offsets: self.heap_index_offsets@,
            heap_index: self.heap_index@,
        }
    }
}

/// The state after entering a scope: both offset stacks record the current
/// lengths; nothing else moves.
pub open spec fn spec_push_scope(v: ScopeStackView) -> ScopeStackView {
    ScopeStackView {
        stack: v.stack,
        stack_offsets: v.stack_offsets.push(v.stack.len() as usize),
        heap_index_offsets: v.heap_index_offsets.push(v.heap_index.len() as usize),
        heap_index: v.heap_index,
    }
}

/// The state after leaving a scope: the operand stack and the address index
/// are truncated back to the recorded offsets, which are popped.
pub open spec fn spec_pop_scope(v: ScopeStackView) -> ScopeStackView
    recommends
        v.stack_offsets.len() > 0,
        v.heap_index_offsets.len() > 0,
{
    let so = v.stack_offsets.last() as int;
    let ho = v.heap_index_offsets.last() as int;
    ScopeStackView {
        stack: if so <= v.stack.len() {
            v.stack.take(so)
        } else {
            v.stack
        },
        stack_offsets: v.stack_offsets.drop_last(),
        heap_index_offsets: v.heap_index_offsets.drop_last(),
        heap_index: if ho <= v.heap_index.len() {
            v.heap_index.take(ho)
        } else {
            v.heap_index
        },
    }
}

impl ScopeStack {
    /// An empty scope stack: no scope open, nothing on the operand stack.
    pub fn new() -> (res: Self)
        ensures
            res@.stack.len() == 0,
            res@.stack_offsets.len() == 0,
            res@.heap_index_offsets.len() == 0,
            res@.heap_index.len() == 0,
    {
        Self {
            stack: Vec::new(),
            stack_offsets: Vec::new(),
            heap_index_offsets: Vec::new(),
            heap_index: Vec::new(),
        }
    }

    /// Record a freshly allocated cell's address in the current partition.
    pub fn push_heap_address(&mut self, address: Address)
        ensures
            final(self)@.heap_index == old(self)@.heap_index.push(address),
            final(self)@.stack == old(self)@.stack,
            final(self)@.stack_offsets == old(self)@.stack_offsets,
            final(self)@.heap_index_offsets == old(self)@.heap_index_offsets,
    {
        self.heap_index.push(address);
    }

    /// The heap address of a global id: an index into partition zero.
    pub fn get_heap_address_from_global_id(&self, index: usize) -> (res: Address)
        requires
            index < self@.heap_index.len(),
        ensures
            res == self@.heap_index[index as int],
    {
        self.heap_index[index]
    }

    /// The heap address of a local id: an index from the top partition's
    /// start.
    pub fn get_heap_address_from_local_id(&self, local_id: usize) -> (res: Address)
        requires
            self@.heap_index_offsets.len() > 0,
            self@.heap_index_offsets.last() + local_id < self@.heap_index.len(),
        ensures
            res == self@.heap_index[self@.heap_index_offsets.last() + local_id],
    {
        let _total = self.heap_index.len();
        let base = self.heap_index_offsets[self.heap_index_offsets.len() - 1];
        self.heap_index[base + local_id]
    }

    /// The heap address of a local id found `scope_offset` enclosing scopes
    /// away: an index from that partition's start.
    pub fn get_heap_address_from_offsets(&self, local_id: usize, scope_offset: usize) -> (res:
        Address)
        requires
            scope_offset < self@.heap_index_offsets.len(),
            self@.heap_index_offsets[self@.heap_index_offsets.len() - 1 - scope_offset] + local_id
                < self@.heap_index.len(),
        ensures
            res == self@.heap_index[self@.heap_index_offsets[self@.heap_index_offsets.len() - 1
                - scope_offset] + local_id],
    {
        let _total = self.heap_index.len();
        let base = self.heap_index_offsets[self.heap_index_offsets.len() - 1 - scope_offset];
        self.heap_index[base + local_id]
    }

    /// Pop the top of the operand stack, which an operator requires to be
    /// there.
    pub fn pop_require(&mut self) -> (res: Object)
        requires
            old(self)@.stack.len() > 0,
        ensures
            res == old(self)@.stack.last(),
            final(self)@.stack == old(self)@.stack.drop_last(),
            final(self)@.stack_offsets == old(self)@.stack_offsets,
            final(self)@.heap_index_offsets == old(self)@.heap_index_offsets,
            final(self)@.heap_index == old(self)@.heap_index,
    {
        match self.stack.pop() {
            Some(obj) => obj,
            None => vstd::pervasive::unreached(),
        }
    }

    /// Push an object onto the operand stack.
    pub fn push(&mut self, obj: Object)
        ensures
            final(self)@.stack == old(self)@.stack.push(obj),
            final(self)@.stack_offsets == old(self)@.stack_offsets,
            final(self)@.heap_index_offsets == old(self)@.heap_index_offsets,
            final(self)@.heap_index == old(self)@.heap_index,
    {
        self.stack.push(obj);
    }

    /// A reference to the object at `index` of the operand stack.
    pub fn peek(&self, index: usize) -> (res: &Object)
        requires
            index < self@.stack.len(),
        ensures
            *res == self@.stack[index as int],
    {
        &self.stack[index]
    }

    /// Overwrite the object at `index` of the operand stack.
    pub fn set_slot(&mut self, index: usize, obj: Object)
        requires
            index < old(self)@.stack.len(),
        ensures
            final(self)@.stack == old(self)@.stack.update(index as int, obj),
            final(self)@.stack_offsets == old(self)@.stack_offsets,
            final(self)@.heap_index_offsets == old(self)@.heap_index_offsets,
            final(self)@.heap_index == old(self)@.heap_index,
    {
        self.stack[index] = obj;
    }

    /// Leave the innermost scope: truncate the address index and the operand
    /// stack back to the recorded offsets, destroying what lay above them.
    pub fn pop_scope(&mut self)
        requires
            old(self)@.stack_offsets.len() > 0,
            old(self)@.heap_index_offsets.len() > 0,
        ensures
            final(self)@ == spec_pop_scope(old(self)@),
    {
        let heap_index_offset = match self.heap_index_offsets.pop() {
            Some(offset) => offset,
            None => vstd::pervasive::unreached(),
        };
        self.heap_index.truncate(heap_index_offset);
        let stack_offset = match self.stack_offsets.pop() {
            Some(offset) => offset,
            None => vstd::pervasive::unreached(),
        };
        self.stack.truncate(stack_offset);
        proof {
            assert(final(self)@ == spec_pop_scope(old(self)@));
        }
    }

    /// Enter a scope: record the current lengths of the operand stack and of
    /// the address index.
    pub fn push_scope(&mut self)
        ensures
            final(self)@ == spec_push_scope(old(self)@),
    {
        self.heap_index_offsets.push(self.heap_index.len());
        self.stack_offsets.push(self.stack.len());
        proof {
            assert(final(self)@ == spec_push_scope(old(self)@));
        }
    }

    /// The index of the top of the operand stack.
    pub fn get_last_stack_index(&self) -> (res: usize)
        requires
            self@.stack.len() > 0,
        ensures
            res == self@.stack.len() - 1,
    {
        self.stack.len() - 1
    }

    /// The number of objects on the operand stack.
    pub fn stack_len(&self) -> (res: usize)
        ensures
            res == self@.stack.len(),
    {
        self.stack.len()
    }

    /// The number of open scopes.
    pub fn scope_depth(&self) -> (res: usize)
        ensures
            res == self@.stack_offsets.len(),
    {
        self.stack_offsets.len()
    }
}

/// How many scope operations of a sequence are entries minus exits; `true`
/// stands for entering a scope, `false` for leaving one.
pub open spec fn scope_net(ops: Seq<bool>) -> int
    decreases ops.len(),
{
    if ops.len() == 0 {
        0
    } else {
        scope_net(ops.drop_last()) + if ops.last() {
            1int
        } else {
            -1int
        }
    }
}

/// Whether every prefix of a sequence of scope operations has at least as
/// many entries as exits.
pub open spec fn scope_prefix_balanced(ops: Seq<bool>) -> bool {
    forall|i: int| 0 <= i <= ops.len() ==> scope_net(#[trigger] ops.take(i)) >= 0
}

/// Whether a sequence of scope operations is balanced: no prefix exits more
/// scopes than it entered, and the whole sequence exits every scope it
/// entered.
pub open spec fn scope_balanced(ops: Seq<bool>) -> bool {
    scope_prefix_balanced(ops) && scope_net(ops) == 0
}

/// The state after a sequence of scope operations.
pub open spec fn spec_apply_scope_ops(v: ScopeStackView, ops: Seq<bool>) -> ScopeStackView
    decreases ops.len(),
{
    if ops.len() == 0 {
        v
    } else {
        let prev = spec_apply_scope_ops(v, ops.drop_last());
        if ops.last() {
            spec_push_scope(prev)
        } else {
            if prev.stack_offsets.len() > 0 && prev.heap_index_offsets.len() > 0 {
                spec_pop_scope(prev)
            } else {
                prev
            }
        }
    }
}

/// After a prefix-balanced run of scope operations the stacks and the index
/// are untouched, and the offset stacks have exactly one entry per scope
/// still open, each recording the original lengths.
proof fn lemma_scope_ops_prefix(v: ScopeStackView, ops: Seq<bool>)
    requires
        scope_prefix_balanced(ops),
        v.stack.len() <= usize::MAX,
        v.heap_index.len() <= usize::MAX,
    ensures
        ({
            let r = spec_apply_scope_ops(v, ops);
            let d = scope_net(ops);
            &&& d >= 0
            &&& r.stack == v.stack
            &&& r.heap_index == v.heap_index
            &&& r.stack_offsets == v.stack_offsets + Seq::new(
                d as nat,
                |i: int| v.stack.len() as usize,
            )
            &&& r.heap_index_offsets == v.heap_index_offsets + Seq::new(
                d as nat,
                |i: int| v.heap_index.len() as usize,
            )
        }),
    decreases ops.len(),
{
    if ops.len() == 0 {
        assert(ops.take(0) =~= ops);
        assert(v.stack_offsets + Seq::new(0, |i: int| v.stack.len() as usize) =~= v.stack_offsets);
        assert(v.heap_index_offsets + Seq::new(0, |i: int| v.heap_index.len() as usize)
            =~= v.heap_index_offsets);
    } else {
        let init = ops.drop_last();
        assert forall|i: int| 0 <= i <= init.len() implies scope_net(#[trigger] init.take(i))
            >= 0 by {
            assert(init.take(i) =~= ops.take(i));
        }
        lemma_scope_ops_prefix(v, init);
        let prev = spec_apply_scope_ops(v, init);
        let d0 = scope_net(init);
        assert(ops.take(ops.len() as int) =~= ops);
        if ops.last() {
            assert(prev.stack_offsets.push(prev.stack.len() as usize) =~= v.stack_offsets
                + Seq::new((d0 + 1) as nat, |i: int| v.stack.len() as usize));
            assert(prev.heap_index_offsets.push(prev.heap_index.len() as usize)
                =~= v.heap_index_offsets + Seq::new(
                (d0 + 1) as nat,
                |i: int| v.heap_index.len() as usize,
            ));
        } else {
            assert(scope_net(ops) >= 0);
            assert(d0 >= 1);
            assert(prev.stack_offsets.len() > 0);
            assert(prev.heap_index_offsets.len() > 0);
            assert(prev.stack_offsets.last() == v.stack.len() as usize);
            assert(prev.heap_index_offsets.last() == v.heap_index.len() as usize);
            let r = spec_pop_scope(prev);
            assert(prev.stack.take(v.stack.len() as int) =~= prev.stack);
            assert(prev.heap_index.take(v.heap_index.len() as int) =~= prev.heap_index);
            assert(r.stack_offsets =~= v.stack_offsets + Seq::new(
                (d0 - 1) as nat,
                |i: int| v.stack.len() as usize,
            ));
            assert(r.heap_index_offsets =~= v.heap_index_offsets + Seq::new(
                (d0 - 1) as nat,
                |i: int| v.heap_index.len() as usize,
            ));
        }
    }
}

/// Scope nesting discipline: a balanced sequence of scope entries and exits
/// returns the scope stack — the operand stack, the address index and both
/// offset stacks — to exactly the state it started in.
pub proof fn lemma_scope_discipline(v: ScopeStackView, ops: Seq<bool>)
    requires
        scope_balanced(ops),
        v.stack.len() <= usize::MAX,
        v.heap_index.len() <= usize::MAX,
    ensures
        spec_apply_scope_ops(v, ops) == v,
{
    lemma_scope_ops_prefix(v, ops);
    let r = spec_apply_scope_ops(v, ops);
    assert(r.stack_offsets =~= v.stack_offsets);
    assert(r.heap_index_offsets =~= v.heap_index_offsets);
    assert(r =~= v);
}

/// The growable object storage: an append-only sequence of cells.
pub struct Heap {
    pub objects: Vec<Object>,
}

impl Heap {
    /// An empty heap.
    pub fn new() -> (res: Self)
        ensures
            res.objects@.len() == 0,
    {
        Self { objects: Vec::new() }
    }

    /// The number of cells allocated so far.
    pub fn len(&self) -> (res: usize)
        ensures
            res == self.objects@.len(),
    {
        self.objects.len()
    }

    /// A reference to the cell at a live address.
    pub fn cell(&self, address: Address) -> (res: &Object)
        requires
            address < self.objects@.len(),
        ensures
            *res == self.objects@[address as int],
    {
        &self.objects[address]
    }

    /// A reference to the object at the given heap address, counting the new
    /// reference in the cell; an address beyond the heap is an
    /// `InvalidMemoryAccess` fault and changes nothing.
    pub fn get_ref(&mut self, address: Address) -> (res: crate::object::OpResult)
        ensures
            final(self).objects@.len() == old(self).objects@.len(),
            address < old(self).objects@.len() ==> {
                &&& (res matches Result::Ok(o) && o.value == Value::Ref(address) && o.ref_count
                    == 0)
                &&& final(self).objects@[address as int].value == old(
                    self,
                ).objects@[address as int].value
                &&& final(self).objects@[address as int].ref_count == (if old(
                    self,
                ).objects@[address as int].ref_count < usize::MAX {
                    (old(self).objects@[address as int].ref_count + 1) as usize
                } else {
                    usize::MAX
                })
                &&& forall|k: int|
                    0 <= k < old(self).objects@.len() && k != address ==> final(self).objects@[k]
                        == old(self).objects@[k]
            },
            address >= old(self).objects@.len() ==> {
                &&& (res matches Result::Err(e) && e.code == ErrorCode::InvalidMemoryAccess)
                &&& final(self).objects@ == old(self).objects@
            },
    {
        if address < self.objects.len() {
            let cell = vstd::std_specs::vec::vec_index_mut(&mut self.objects, address);
            cell.inc_ref_count();
            Ok(Object::new_ref(address))
        } else {
            Err(
                RuntimeError::with_message(
                    ErrorCode::InvalidMemoryAccess,
                    String::from_str("Invalid memory access"),
                ),
            )
        }
    }

    /// Reserve a cell holding None and return its stable address.
    pub fn allocate(&mut self) -> (res: Address)
        ensures
            res == old(self).objects@.len(),
            final(self).objects@.len() == old(self).objects@.len() + 1,
            final(self).objects@[res as int].value == Value::Nil,
            final(self).objects@[res as int].ref_count == 0,
            forall|k: int|
                0 <= k < old(self).objects@.len() ==> final(self).objects@[k] == old(
                    self,
                ).objects@[k],
    {
        let address = self.objects.len();
        self.objects.push(Object::none());
        address
    }

    /// Write an object into the cell at a live address; an address beyond
    /// the heap is an `InvalidMemoryAccess` fault and changes nothing.
    pub fn store(&mut self, address: Address, obj: Object) -> (res: Result<(), RuntimeError>)
        ensures
            address < old(self).objects@.len() ==> res is Ok && final(self).objects@ == old(
                self,
            ).objects@.update(address as int, obj),
            address >= old(self).objects@.len() ==> (res matches Result::Err(e) && e.code
                == ErrorCode::InvalidMemoryAccess) && final(self).objects@ == old(self).objects@,
    {
        if address < self.objects.len() {
            self.objects[address] = obj;
            Ok(())
        } else {
            Err(
                RuntimeError::with_message(
                    ErrorCode::InvalidMemoryAccess,
                    String::from_str("Invalid memory access"),
                ),
            )
        }
    }
}

} // verus!
