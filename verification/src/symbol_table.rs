//! A scoped symbol table: a stack of scopes, each mapping names to dense
//! local ids, over one global index that maps every symbol ever declared to
//! its heap address slot. A name declared again in the same scope overrides
//! its earlier binding.

use vstd::prelude::*;
use vstd::string::StringExecFns;

use crate::runtime::error_codes::{ErrorCode, RuntimeError};
use crate::runtime::memory::Address;

verus! {

pub type SymbolId = usize;

/// One lexical scope's symbol bindings.
pub struct Scope {
    /// Name-to-local-id bindings in the order declared; a later entry for
    /// the same name overrides an earlier one.
    pub symbols: Vec<(String, usize)>,
    /// For each local id, the global id it was declared under.
    pub local_index: Vec<usize>,
}

/// The local id a name is bound to: the latest entry for it, if any.
pub open spec fn spec_scope_get(entries: Seq<(String, usize)>, name: Seq<char>) -> Option<usize>
    decreases entries.len(),
{
    if entries.len() == 0 {
        None
    } else if entries.last().0@ == name {
        Some(entries.last().1)
    } else {
        spec_scope_get(entries.drop_last(), name)
    }
}

/// The name bound to a local id: the latest entry carrying it, if any.
pub open spec fn spec_scope_name_of(entries: Seq<(String, usize)>, local_id: int) -> Option<
    Seq<char>,
>
    decreases entries.len(),
{
    if entries.len() == 0 {
        None
    } else if entries.last().1 == local_id {
        Some(entries.last().0@)
    } else {
        spec_scope_name_of(entries.drop_last(), local_id)
    }
}

impl Scope {
    /// Every bound local id has a slot in the local index.
    pub open spec fn wf(self) -> bool {
        forall|k: int|
            0 <= k < self.symbols@.len() ==> (#[trigger] self.symbols@[k]).1
                < self.local_index@.len()
    }

    /// An empty scope.
    pub fn new() -> (res: Self)
        ensures
            res.symbols@.len() == 0,
            res.local_index@.len() == 0,
            res.wf(),
    {
        Self { symbols: Vec::new(), local_index: Vec::new() }
    }

    /// Bind `name` in this scope under the global id it was declared with;
    /// the fresh local id is the next dense one.
    pub fn declare(&mut self, name: &str, global_id: SymbolId) -> (res: SymbolId)
        requires
            old(self).wf(),
        ensures
            res == old(self).local_index@.len(),
            final(self).wf(),
            final(self).local_index@ == old(self).local_index@.push(global_id),
            final(self).symbols@.len() == old(self).symbols@.len() + 1,
            final(self).symbols@.last().0@ == name@,
            final(self).symbols@.last().1 == res,
            forall|k: int|
                0 <= k < old(self).symbols@.len() ==> final(self).symbols@[k] == old(self).symbols@[k],
            spec_scope_get(final(self).symbols@, name@) == Some(res),
            forall|n: Seq<char>|
                n != name@ ==> #[trigger] spec_scope_get(final(self).symbols@, n)
                    == spec_scope_get(old(self).symbols@, n),
    {
        let local_id = self.local_index.len();
        self.symbols.push((String::from_str(name), local_id));
        self.local_index.push(global_id);
        proof {
            assert(final(self).symbols@.drop_last() =~= old(self).symbols@);
        }
        local_id
    }

    /// The local id `name` is bound to in this scope, if any.
    pub fn get(&self, name: &str) -> (res: Option<usize>)
        ensures
            res == spec_scope_get(self.symbols@, name@),
    {
        let key = String::from_str(name);
        proof {
            assert(self.symbols@.take(self.symbols@.len() as int) =~= self.symbols@);
        }
        let mut i: usize = self.symbols.len();
        while i > 0
            invariant
                i <= self.symbols@.len(),
                key@ == name@,
                spec_scope_get(self.symbols@, name@) == spec_scope_get(
                    self.symbols@.take(i as int),
                    name@,
                ),
            decreases i,
        {
            i = i - 1;
            let entry = &self.symbols[i];
            proof {
                assert(self.symbols@.take(i + 1).last() == self.symbols@[i as int]);
                assert(self.symbols@.take(i + 1).drop_last() =~= self.symbols@.take(i as int));
            }
            if entry.0.eq(&key) {
                return Some(entry.1);
            }
        }
        proof {
            assert(self.symbols@.take(0) =~= Seq::<(String, usize)>::empty());
        }
        None
    }

    /// The name bound to a local id in this scope, if any.
    pub fn name_of(&self, local_id: usize) -> (res: Option<String>)
        ensures
            match res {
                Some(n) => spec_scope_name_of(self.symbols@, local_id as int) == Some(n@),
                None => spec_scope_name_of(self.symbols@, local_id as int) is None,
            },
    {
        proof {
            assert(self.symbols@.take(self.symbols@.len() as int) =~= self.symbols@);
        }
        let mut i: usize = self.symbols.len();
        while i > 0
            invariant
                i <= self.symbols@.len(),
                spec_scope_name_of(self.symbols@, local_id as int) == spec_scope_name_of(
                    self.symbols@.take(i as int),
                    local_id as int,
                ),
            decreases i,
        {
            i = i - 1;
            let entry = &self.symbols[i];
            proof {
                assert(self.symbols@.take(i + 1).last() == self.symbols@[i as int]);
                assert(self.symbols@.take(i + 1).drop_last() =~= self.symbols@.take(i as int));
            }
            if entry.1 == local_id {
                return Some(entry.0.clone());
            }
        }
        proof {
            assert(self.symbols@.take(0) =~= Seq::<(String, usize)>::empty());
        }
        None
    }
}

/// The global id a name resolves to: scopes are searched innermost first.
pub open spec fn spec_table_get_id(scopes: Seq<Scope>, name: Seq<char>) -> Option<usize>
    decreases scopes.len(),
{
    if scopes.len() == 0 {
        None
    } else {
        match spec_scope_get(scopes.last().symbols@, name) {
            Some(local_id) => if local_id < scopes.last().local_index@.len() {
                Some(scopes.last().local_index@[local_id as int])
            } else {
                None
            },
            None => spec_table_get_id(scopes.drop_last(), name),
        }
    }
}

/// The name of a global id: scopes are searched innermost first for a local
/// id bound to it, and that local id's latest name is taken.
pub open spec fn spec_table_name(scopes: Seq<Scope>, global_id: usize) -> Option<Seq<char>>
    decreases scopes.len(),
{
    if scopes.len() == 0 {
        None
    } else {
        match spec_first_local_of(scopes.last().local_index@, global_id) {
            Some(local_id) => spec_scope_name_of(scopes.last().symbols@, local_id),
            None => spec_table_name(scopes.drop_last(), global_id),
        }
    }
}

/// The first local id whose slot carries `global_id`, if any.
pub open spec fn spec_first_local_of(index: Seq<usize>, global_id: usize) -> Option<int>
    decreases index.len(),
{
    if index.len() == 0 {
        None
    } else if index[0] == global_id {
        Some(0int)
    } else {
        match spec_first_local_of(index.drop_first(), global_id) {
            Some(k) => Some(k + 1),
            None => None,
        }
    }
}

/// The stack of scopes and the global heap-address index.
pub struct SymbolTable {
    /// The open scopes, outermost first.
    pub scopes: Vec<Scope>,
    /// For each global id, the heap address of its storage cell.
    pub heap_index: Vec<Address>,
}

impl SymbolTable {
    /// Every scope is well formed, and every global id recorded in a scope's
    /// local index was assigned from the heap index, so it lies below the
    /// heap index's length.
    pub open spec fn wf(self) -> bool {
        &&& forall|k: int| 0 <= k < self.scopes@.len() ==> (#[trigger] self.scopes@[k]).wf()
        &&& forall|k: int, i: int|
            0 <= k < self.scopes@.len() && 0 <= i < self.scopes@[k].local_index@.len() ==> (
            #[trigger] self.scopes@[k].local_index@[i]) < self.heap_index@.len()
    }

    /// A table holding only the empty global scope.
    pub fn new() -> (res: Self)
        ensures
            res.wf(),
            res.scopes@.len() == 1,
            res.scopes@[0].symbols@.len() == 0,
            res.scopes@[0].local_index@.len() == 0,
            res.heap_index@.len() == 0,
    {
        let mut scopes: Vec<Scope> = Vec::new();
        scopes.push(Scope::new());
        Self { scopes, heap_index: Vec::new() }
    }

    /// Open a nested scope.
    pub fn push_scope(&mut self)
        ensures
            final(self).scopes@.len() == old(self).scopes@.len() + 1,
            final(self).scopes@.last().symbols@.len() == 0,
            final(self).scopes@.last().local_index@.len() == 0,
            forall|k: int|
                0 <= k < old(self).scopes@.len() ==> final(self).scopes@[k] == old(self).scopes@[k],
            final(self).heap_index@ == old(self).heap_index@,
            old(self).wf() ==> final(self).wf(),
    {
        self.scopes.push(Scope::new());
    }

    /// Close the innermost scope.
    pub fn pop_scope(&mut self)
        requires
            old(self).scopes@.len() > 0,
        ensures
            final(self).scopes@ == old(self).scopes@.drop_last(),
            final(self).heap_index@ == old(self).heap_index@,
            old(self).wf() ==> final(self).wf(),
    {
        match self.scopes.pop() {
            Some(_) => (),
            None => vstd::pervasive::unreached(),
        }
    }

    /// Declare a name in the innermost scope: it gets the next global id,
    /// whose heap-address slot starts out as a placeholder, and resolves to
    /// that id from now on.
    pub fn declare(&mut self, name: &str) -> (res: SymbolId)
        requires
            old(self).scopes@.len() > 0,
            old(self).wf(),
        ensures
            final(self).wf(),
            final(self).scopes@.len() == old(self).scopes@.len(),
            res == old(self).scopes@.last().local_index@.len(),
            final(self).heap_index@ == old(self).heap_index@.push(0),
            spec_table_get_id(final(self).scopes@, name@) == Some(
                old(self).heap_index@.len() as usize,
            ),
            forall|k: int|
                0 <= k < old(self).scopes@.len() - 1 ==> final(self).scopes@[k] == old(self).scopes@[k],
            final(self).scopes@.last().local_index@ == old(self).scopes@.last().local_index@.push(old(self).heap_index@.len() as usize),
            final(self).scopes@.last().symbols@.len() == old(self).scopes@.last().symbols@.len() + 1,
            final(self).scopes@.last().symbols@.last().0@ == name@,
            final(self).scopes@.last().symbols@.last().1 == res,
            forall|k: int|
                0 <= k < old(self).scopes@.last().symbols@.len() ==> final(self).scopes@.last().symbols@[k] == old(self).scopes@.last().symbols@[k],
            spec_scope_get(final(self).scopes@.last().symbols@, name@) == Some(res),
            forall|n: Seq<char>|
                n != name@ ==> #[trigger] spec_scope_get(final(self).scopes@.last().symbols@, n)
                    == spec_scope_get(old(self).scopes@.last().symbols@, n),
            spec_scope_name_of(final(self).scopes@.last().symbols@, res as int) == Some(name@),
            spec_table_name(final(self).scopes@, old(self).heap_index@.len() as usize) == Some(
                name@,
            ),
    {
        let global_id = self.heap_index.len();
        let slot = self.scopes.len() - 1;
        let scope = vstd::std_specs::vec::vec_index_mut(&mut self.scopes, slot);
        let local_id = scope.declare(name, global_id);
        self.heap_index.push(0);
        proof {
            assert(final(self).scopes@.last() == final(self).scopes@[slot as int]);
            let last = final(self).scopes@.last();
            assert(last.local_index@ == old(self).scopes@.last().local_index@.push(global_id));
            assert forall|i: int|
                0 <= i < old(self).scopes@.last().local_index@.len() implies old(
                self,
            ).scopes@.last().local_index@[i] != global_id by {
                assert(old(self).scopes@.last() == old(self).scopes@[slot as int]);
            }
            lemma_first_local_of_fresh(old(self).scopes@.last().local_index@, global_id);
        }
        local_id
    }

    /// The global id `name` resolves to, innermost scope first.
    pub fn get_id(&self, name: &str) -> (res: Option<SymbolId>)
        requires
            self.wf(),
        ensures
            res == spec_table_get_id(self.scopes@, name@),
    {
        proof {
            assert(self.scopes@.take(self.scopes@.len() as int) =~= self.scopes@);
        }
        let mut i: usize = self.scopes.len();
        while i > 0
            invariant
                self.wf(),
                i <= self.scopes@.len(),
                spec_table_get_id(self.scopes@, name@) == spec_table_get_id(
                    self.scopes@.take(i as int),
                    name@,
                ),
            decreases i,
        {
            i = i - 1;
            proof {
                assert(self.scopes@.take(i + 1).last() == self.scopes@[i as int]);
                assert(self.scopes@.take(i + 1).drop_last() =~= self.scopes@.take(i as int));
            }
            let scope = &self.scopes[i];
            match scope.get(name) {
                Some(local_id) => {
                    if local_id < scope.local_index.len() {
                        return Some(scope.local_index[local_id]);
                    } else {
                        return None;
                    }
                },
                None => (),
            }
        }
        proof {
            assert(self.scopes@.take(0) =~= Seq::<Scope>::empty());
        }
        None
    }

    /// The name of a global id, innermost scope first.
    pub fn get_name(&self, global_id: SymbolId) -> (res: Option<String>)
        ensures
            match res {
                Some(n) => spec_table_name(self.scopes@, global_id) == Some(n@),
                None => spec_table_name(self.scopes@, global_id) is None,
            },
    {
        proof {
            assert(self.scopes@.take(self.scopes@.len() as int) =~= self.scopes@);
        }
        let mut i: usize = self.scopes.len();
        while i > 0
            invariant
                i <= self.scopes@.len(),
                spec_table_name(self.scopes@, global_id) == spec_table_name(
                    self.scopes@.take(i as int),
                    global_id,
                ),
            decreases i,
        {
            i = i - 1;
            proof {
                assert(self.scopes@.take(i + 1).last() == self.scopes@[i as int]);
                assert(self.scopes@.take(i + 1).drop_last() =~= self.scopes@.take(i as int));
            }
            let scope = &self.scopes[i];
            match first_local_of(&scope.local_index, global_id) {
                Some(local_id) => {
                    return scope.name_of(local_id);
                },
                None => (),
            }
        }
        proof {
            assert(self.scopes@.take(0) =~= Seq::<Scope>::empty());
        }
        None
    }

    /// The heap address recorded for a global id; an id never declared is an
    /// `UndeclaredSymbol` fault.
    pub fn get_heap_address(&self, global_id: SymbolId) -> (res: Result<Address, RuntimeError>)
        ensures
            global_id < self.heap_index@.len() ==> res == Result::<Address, RuntimeError>::Ok(
                self.heap_index@[global_id as int],
            ),
            global_id >= self.heap_index@.len() ==> (res matches Result::Err(e) && e.code
                == ErrorCode::UndeclaredSymbol),
    {
        if global_id < self.heap_index.len() {
            Ok(self.heap_index[global_id])
        } else {
            Err(
                RuntimeError::with_message(
                    ErrorCode::UndeclaredSymbol,
                    String::from_str("Symbol is not declared"),
                ),
            )
        }
    }
}

/// A global id absent from an index is first found, once pushed, at the
/// slot the push created.
proof fn lemma_first_local_of_fresh(index: Seq<usize>, global_id: usize)
    requires
        forall|i: int| 0 <= i < index.len() ==> (#[trigger] index[i]) != global_id,
    ensures
        spec_first_local_of(index.push(global_id), global_id) == Some(index.len() as int),
    decreases index.len(),
{
    let pushed = index.push(global_id);
    if index.len() == 0 {
        assert(pushed[0] == global_id);
    } else {
        assert(pushed[0] == index[0]);
        assert(pushed.drop_first() =~= index.drop_first().push(global_id));
        assert forall|i: int|
            0 <= i < index.drop_first().len() implies (#[trigger] index.drop_first()[i])
            != global_id by {
            assert(index.drop_first()[i] == index[i + 1]);
        }
        lemma_first_local_of_fresh(index.drop_first(), global_id);
    }
}

/// The first slot of the index carrying `global_id`, scanned from the front.
fn first_local_of(index: &Vec<usize>, global_id: usize) -> (res: Option<usize>)
    ensures
        match res {
            Some(k) => spec_first_local_of(index@, global_id) == Some(k as int),
            None => spec_first_local_of(index@, global_id) is None,
        },
{
    proof {
        assert(index@.skip(0) =~= index@);
    }
    let mut i: usize = 0;
    while i < index.len()
        invariant
            i <= index@.len(),
            spec_first_local_of(index@, global_id) == match spec_first_local_of(
                index@.skip(i as int),
                global_id,
            ) {
                Some(k) => Some(k + i),
                None => None,
            },
        decreases index@.len() - i,
    {
        proof {
            assert(index@.skip(i as int)[0] == index@[i as int]);
            assert(index@.skip(i as int).drop_first() =~= index@.skip(i + 1));
        }
        if index[i] == global_id {
            return Some(i);
        }
        i = i + 1;
    }
    proof {
        assert(index@.skip(i as int) =~= Seq::<usize>::empty());
    }
    None
}

} // verus!
