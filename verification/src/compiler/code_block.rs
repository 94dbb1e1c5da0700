//! A lexical block of compiled code: its statement nodes, its local symbol
//! table, and a link to the block that lexically contains it. Resolving an
//! identifier walks that chain outward and classifies the reference as
//! local, outer or global — the classification the generated load
//! instruction bakes in.

use vstd::prelude::*;
use vstd::string::StringExecFns;

use crate::symbol_table::spec_scope_get;

verus! {

/// One lexical block: the compiled nodes of its statements in order, its
/// local name bindings, and the containing block, if any. Blocks and nodes
/// live in the arenas of the compiler and name one another by index.
pub struct CodeBlock {
    /// The block's statement nodes, by node handle, in execution order.
    pub nodes: Vec<usize>,
    /// Name-to-local-id bindings in declaration order; ids are dense and a
    /// later binding of the same name overrides the earlier one.
    pub local_symbols: Vec<(String, usize)>,
    /// The handle of the lexically containing block; the global block has
    /// none.
    pub parent_context: Option<usize>,
}

/// How a resolved identifier is addressed at run time.
#[derive(Clone, Copy, Debug, PartialEq, Eq, Structural)]
pub enum ScopeType {
    /// Bound in the block the reference stands in.
    Local { local_id: usize },
    /// Bound `scope_offset` enclosing blocks away.
    Outer { local_id: usize, scope_offset: usize },
    /// Bound in the outermost block.
    Global { global_id: usize },
}

impl CodeBlock {
    /// An empty block under the given parent.
    pub fn new(parent_context: Option<usize>) -> (res: Self)
        ensures
            res.nodes@.len() == 0,
            res.local_symbols@.len() == 0,
            res.parent_context == parent_context,
    {
        Self { nodes: Vec::new(), local_symbols: Vec::new(), parent_context }
    }

    /// Bind a name in this block's local table. The fresh local id is the
    /// next dense one — the position of the storage cell the matching
    /// `Allocate` will record at run time — and a name bound again simply
    /// overrides its earlier binding.
    pub fn declare_local(&mut self, name: &str) -> (res: usize)
        ensures
            res == old(self).local_symbols@.len(),
            final(self).nodes == old(self).nodes,
            final(self).parent_context == old(self).parent_context,
            final(self).local_symbols@.len() == old(self).local_symbols@.len() + 1,
            final(self).local_symbols@.last().0@ == name@,
            final(self).local_symbols@.last().1 == res,
            forall|k: int|
                0 <= k < old(self).local_symbols@.len() ==> final(self).local_symbols@[k] == old(
                    self,
                ).local_symbols@[k],
            spec_scope_get(final(self).local_symbols@, name@) == Some(res),
            forall|n: Seq<char>|
                n != name@ ==> #[trigger] spec_scope_get(final(self).local_symbols@, n)
                    == spec_scope_get(old(self).local_symbols@, n),
    {
        let local_id = self.local_symbols.len();
        self.local_symbols.push((String::from_str(name), local_id));
        proof {
            assert(final(self).local_symbols@.drop_last() =~= old(self).local_symbols@);
        }
        local_id
    }

    /// The local id `name` is bound to in this block alone, if any.
    pub fn get_local(&self, name: &str) -> (res: Option<usize>)
        ensures
            res == spec_scope_get(self.local_symbols@, name@),
    {
        let key = String::from_str(name);
        proof {
            assert(self.local_symbols@.take(self.local_symbols@.len() as int)
                =~= self.local_symbols@);
        }
        let mut i: usize = self.local_symbols.len();
        while i > 0
            invariant
                i <= self.local_symbols@.len(),
                key@ == name@,
                spec_scope_get(self.local_symbols@, name@) == spec_scope_get(
                    self.local_symbols@.take(i as int),
                    name@,
                ),
            decreases i,
        {
            i = i - 1;
            let entry = &self.local_symbols[i];
            proof {
                assert(self.local_symbols@.take(i + 1).last() == self.local_symbols@[i as int]);
                assert(self.local_symbols@.take(i + 1).drop_last() =~= self.local_symbols@.take(
                    i as int,
                ));
            }
            if entry.0.eq(&key) {
                return Some(entry.1);
            }
        }
        proof {
            assert(self.local_symbols@.take(0) =~= Seq::<(String, usize)>::empty());
        }
        None
    }
}

/// What an identifier referenced from block `block_id` resolves to, having
/// already crossed `depth` enclosing blocks: found in the block the lookup
/// started in it is local; found in a block with no parent it is global;
/// found anywhere else it is outer, `depth` blocks away. The walk follows
/// parent links, which always point to earlier blocks of the arena.
pub open spec fn spec_resolve(
    blocks: Seq<CodeBlock>,
    block_id: int,
    name: Seq<char>,
    depth: int,
) -> Option<ScopeType>
    decreases block_id,
{
    if block_id < 0 || block_id >= blocks.len() {
        None
    } else {
        let block = blocks[block_id];
        match spec_scope_get(block.local_symbols@, name) {
            Some(id) => Some(
                if depth == 0 {
                    ScopeType::Local { local_id: id }
                } else if block.parent_context is None {
                    ScopeType::Global { global_id: id }
                } else {
                    ScopeType::Outer { local_id: id, scope_offset: depth as usize }
                },
            ),
            None => match block.parent_context {
                Some(p) => if p < block_id {
                    spec_resolve(blocks, p as int, name, depth + 1)
                } else {
                    None
                },
                None => None,
            },
        }
    }
}

/// A chain of lexically nested blocks, innermost first: each block's parent
/// is the next entry, and parent links point backwards through the arena.
pub open spec fn is_parent_chain(blocks: Seq<CodeBlock>, chain: Seq<usize>) -> bool {
    &&& forall|j: int| 0 <= j < chain.len() ==> (#[trigger] chain[j]) < blocks.len()
    &&& forall|j: int|
        0 <= j < chain.len() - 1 ==> blocks[#[trigger] chain[j] as int].parent_context == Some(
            chain[j + 1],
        ) && chain[j + 1] < chain[j]
}

/// Symbol classification. A name bound in the block a reference stands in
/// resolves as local, with its id there. A name not bound in the blocks a
/// nested reference crosses but bound where the chain ends resolves as
/// global when that block is the outermost, and otherwise as outer with the
/// nesting distance crossed. One lemma per classification; `chain` is the
/// walked path, innermost block first.
pub proof fn lemma_resolve_local(blocks: Seq<CodeBlock>, block_id: usize, name: Seq<char>, id: usize)
    requires
        block_id < blocks.len(),
        spec_scope_get(blocks[block_id as int].local_symbols@, name) == Some(id),
    ensures
        spec_resolve(blocks, block_id as int, name, 0) == Some(ScopeType::Local { local_id: id }),
{
}

/// See [`lemma_resolve_local`]: the global classification.
pub proof fn lemma_resolve_global(
    blocks: Seq<CodeBlock>,
    chain: Seq<usize>,
    name: Seq<char>,
    id: usize,
)
    requires
        is_parent_chain(blocks, chain),
        chain.len() >= 2,
        forall|j: int|
            0 <= j < chain.len() - 1 ==> spec_scope_get(
                blocks[#[trigger] chain[j] as int].local_symbols@,
                name,
            ) is None,
        spec_scope_get(blocks[chain.last() as int].local_symbols@, name) == Some(id),
        blocks[chain.last() as int].parent_context is None,
    ensures
        spec_resolve(blocks, chain[0] as int, name, 0) == Some(
            ScopeType::Global { global_id: id },
        ),
{
    lemma_resolve_walk(blocks, chain, name, 0);
}

/// See [`lemma_resolve_local`]: the outer classification, with the level
/// count equal to the nesting distance crossed.
pub proof fn lemma_resolve_outer(
    blocks: Seq<CodeBlock>,
    chain: Seq<usize>,
    name: Seq<char>,
    id: usize,
)
    requires
        is_parent_chain(blocks, chain),
        chain.len() >= 2,
        chain.len() <= usize::MAX,
        forall|j: int|
            0 <= j < chain.len() - 1 ==> spec_scope_get(
                blocks[#[trigger] chain[j] as int].local_symbols@,
                name,
            ) is None,
        spec_scope_get(blocks[chain.last() as int].local_symbols@, name) == Some(id),
        blocks[chain.last() as int].parent_context is Some,
    ensures
        spec_resolve(blocks, chain[0] as int, name, 0) == Some(
            ScopeType::Outer { local_id: id, scope_offset: (chain.len() - 1) as usize },
        ),
{
    lemma_resolve_walk(blocks, chain, name, 0);
}

/// Walking a parent chain whose inner blocks do not bind the name carries
/// the lookup to the chain's last block, the crossed depth added on.
proof fn lemma_resolve_walk(blocks: Seq<CodeBlock>, chain: Seq<usize>, name: Seq<char>, depth: int)
    requires
        is_parent_chain(blocks, chain),
        chain.len() >= 1,
        depth >= 0,
        forall|j: int|
            0 <= j < chain.len() - 1 ==> spec_scope_get(
                blocks[#[trigger] chain[j] as int].local_symbols@,
                name,
            ) is None,
    ensures
        spec_resolve(blocks, chain[0] as int, name, depth) == spec_resolve(
            blocks,
            chain.last() as int,
            name,
            depth + chain.len() - 1,
        ),
    decreases chain.len(),
{
    if chain.len() > 1 {
        let tail = chain.drop_first();
        assert(is_parent_chain(blocks, tail)) by {
            assert forall|j: int| 0 <= j < tail.len() implies (#[trigger] tail[j])
                < blocks.len() by {
                assert(tail[j] == chain[j + 1]);
            }
            assert forall|j: int|
                0 <= j < tail.len() - 1 implies blocks[#[trigger] tail[j] as int].parent_context
                == Some(tail[j + 1]) && tail[j + 1] < tail[j] by {
                assert(tail[j] == chain[j + 1]);
                assert(tail[j + 1] == chain[j + 2]);
            }
        }
        assert forall|j: int|
            0 <= j < tail.len() - 1 implies spec_scope_get(
            blocks[#[trigger] tail[j] as int].local_symbols@,
            name,
        ) is None by {
            assert(tail[j] == chain[j + 1]);
        }
        assert(spec_scope_get(blocks[chain[0] as int].local_symbols@, name) is None);
        assert(blocks[chain[0] as int].parent_context == Some(chain[1]));
        assert(chain[1] < chain[0]);
        assert(spec_resolve(blocks, chain[0] as int, name, depth) == spec_resolve(
            blocks,
            chain[1] as int,
            name,
            depth + 1,
        ));
        lemma_resolve_walk(blocks, tail, name, depth + 1);
        assert(tail[0] == chain[1]);
        assert(tail.last() == chain.last());
    }
}

} // verus!
