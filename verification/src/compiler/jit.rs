//! The lazy compiler. It owns the arenas of lexical blocks and compiled
//! nodes, built once from the syntax tree; bytecode is generated per node on
//! first use. Code generation itself is a small step: each construct's own
//! instructions assume its children already left their operands on the
//! stack, and the one analysis performed is classifying every identifier
//! reference as local, outer or global.

use vstd::prelude::*;
use vstd::string::StringExecFns;

use crate::byte_code::{raw_from_usize, spec_raw_from_usize, ByteCode};
use crate::compiler::code_block::{spec_resolve, CodeBlock, ScopeType};
use crate::compiler::code_node::{spec_is_context_dependent, spec_pure_code, CodeNode, NodeContent};
use crate::compiler::error::{invalid_statement, undeclared_symbol, CompileError, CompileErrorKind};
use crate::object::TypeCode;
use crate::runtime::op_code::OpCode;
use crate::symbol_table::spec_scope_get;
use crate::syntax_node::{SyntaxNode, SyntaxTree};

verus! {

/// The compiler: the arenas of blocks and nodes, and the handle of the
/// outermost (global) block.
pub struct Jit {
    pub blocks: Vec<CodeBlock>,
    pub nodes: Vec<CodeNode>,
    pub root: usize,
}


/// The child handles of a flat-list node, if it is one.
pub open spec fn list_children(content: NodeContent) -> Option<Seq<usize>> {
    match content {
        NodeContent::ListLike { children } => Some(children@),
        _ => None,
    }
}

/// Whether arena node `id` is the built form of construct `sn` standing in
/// block `ctx`: the stored syntax node keeps the construct's variant, leaf
/// payloads, counts and source line; the code cache starts empty; and the
/// children shape holds the construct's parts, built recursively, nested
/// blocks included.
pub open spec fn node_matches(
    blocks: Seq<CodeBlock>,
    nodes: Seq<CodeNode>,
    id: int,
    sn: SyntaxNode,
    ctx: int,
) -> bool
    decreases sn,
{
    &&& 0 <= id < nodes.len()
    &&& nodes[id].context == ctx
    &&& nodes[id].code is None
    &&& match sn {
        SyntaxNode::Add { left, right, line } => (nodes[id].syntax_node matches SyntaxNode::Add {
            line: l,
            ..
        } && l == line) && (list_children(nodes[id].children) matches Some(cs) && cs.len() == 2
            && node_matches(blocks, nodes, cs[0] as int, *left, ctx) && node_matches(
            blocks,
            nodes,
            cs[1] as int,
            *right,
            ctx,
        )),
        SyntaxNode::Sub { left, right, line } => (nodes[id].syntax_node matches SyntaxNode::Sub {
            line: l,
            ..
        } && l == line) && (list_children(nodes[id].children) matches Some(cs) && cs.len() == 2
            && node_matches(blocks, nodes, cs[0] as int, *left, ctx) && node_matches(
            blocks,
            nodes,
            cs[1] as int,
            *right,
            ctx,
        )),
        SyntaxNode::Mul { left, right, line } => (nodes[id].syntax_node matches SyntaxNode::Mul {
            line: l,
            ..
        } && l == line) && (list_children(nodes[id].children) matches Some(cs) && cs.len() == 2
            && node_matches(blocks, nodes, cs[0] as int, *left, ctx) && node_matches(
            blocks,
            nodes,
            cs[1] as int,
            *right,
            ctx,
        )),
        SyntaxNode::Div { left, right, line } => (nodes[id].syntax_node matches SyntaxNode::Div {
            line: l,
            ..
        } && l == line) && (list_children(nodes[id].children) matches Some(cs) && cs.len() == 2
            && node_matches(blocks, nodes, cs[0] as int, *left, ctx) && node_matches(
            blocks,
            nodes,
            cs[1] as int,
            *right,
            ctx,
        )),
        SyntaxNode::Mod { left, right, line } => (nodes[id].syntax_node matches SyntaxNode::Mod {
            line: l,
            ..
        } && l == line) && (list_children(nodes[id].children) matches Some(cs) && cs.len() == 2
            && node_matches(blocks, nodes, cs[0] as int, *left, ctx) && node_matches(
            blocks,
            nodes,
            cs[1] as int,
            *right,
            ctx,
        )),
        SyntaxNode::Assign { left, right, line } => (nodes[id].syntax_node
            matches SyntaxNode::Assign { line: l, .. } && l == line) && (list_children(
            nodes[id].children,
        ) matches Some(cs) && cs.len() == 2 && node_matches(blocks, nodes, cs[0] as int, *left, ctx)
            && node_matches(blocks, nodes, cs[1] as int, *right, ctx)),
        SyntaxNode::AssignAdd { left, right, line } => (nodes[id].syntax_node
            matches SyntaxNode::AssignAdd { line: l, .. } && l == line) && (list_children(
            nodes[id].children,
        ) matches Some(cs) && cs.len() == 2 && node_matches(blocks, nodes, cs[0] as int, *left, ctx)
            && node_matches(blocks, nodes, cs[1] as int, *right, ctx)),
        SyntaxNode::AssignSub { left, right, line } => (nodes[id].syntax_node
            matches SyntaxNode::AssignSub { line: l, .. } && l == line) && (list_children(
            nodes[id].children,
        ) matches Some(cs) && cs.len() == 2 && node_matches(blocks, nodes, cs[0] as int, *left, ctx)
            && node_matches(blocks, nodes, cs[1] as int, *right, ctx)),
        SyntaxNode::AssignMul { left, right, line } => (nodes[id].syntax_node
            matches SyntaxNode::AssignMul { line: l, .. } && l == line) && (list_children(
            nodes[id].children,
        ) matches Some(cs) && cs.len() == 2 && node_matches(blocks, nodes, cs[0] as int, *left, ctx)
            && node_matches(blocks, nodes, cs[1] as int, *right, ctx)),
        SyntaxNode::AssignDiv { left, right, line } => (nodes[id].syntax_node
            matches SyntaxNode::AssignDiv { line: l, .. } && l == line) && (list_children(
            nodes[id].children,
        ) matches Some(cs) && cs.len() == 2 && node_matches(blocks, nodes, cs[0] as int, *left, ctx)
            && node_matches(blocks, nodes, cs[1] as int, *right, ctx)),
        SyntaxNode::AssignMod { left, right, line } => (nodes[id].syntax_node
            matches SyntaxNode::AssignMod { line: l, .. } && l == line) && (list_children(
            nodes[id].children,
        ) matches Some(cs) && cs.len() == 2 && node_matches(blocks, nodes, cs[0] as int, *left, ctx)
            && node_matches(blocks, nodes, cs[1] as int, *right, ctx)),
        SyntaxNode::And { left, right, line } => (nodes[id].syntax_node matches SyntaxNode::And {
            line: l,
            ..
        } && l == line) && (list_children(nodes[id].children) matches Some(cs) && cs.len() == 2
            && node_matches(blocks, nodes, cs[0] as int, *left, ctx) && node_matches(
            blocks,
            nodes,
            cs[1] as int,
            *right,
            ctx,
        )),
        SyntaxNode::Or { left, right, line } => (nodes[id].syntax_node matches SyntaxNode::Or {
            line: l,
            ..
        } && l == line) && (list_children(nodes[id].children) matches Some(cs) && cs.len() == 2
            && node_matches(blocks, nodes, cs[0] as int, *left, ctx) && node_matches(
            blocks,
            nodes,
            cs[1] as int,
            *right,
            ctx,
        )),
        SyntaxNode::Less { left, right, line } => (nodes[id].syntax_node matches SyntaxNode::Less {
            line: l,
            ..
        } && l == line) && (list_children(nodes[id].children) matches Some(cs) && cs.len() == 2
            && node_matches(blocks, nodes, cs[0] as int, *left, ctx) && node_matches(
            blocks,
            nodes,
            cs[1] as int,
            *right,
            ctx,
        )),
        SyntaxNode::Greater { left, right, line } => (nodes[id].syntax_node
            matches SyntaxNode::Greater { line: l, .. } && l == line) && (list_children(
            nodes[id].children,
        ) matches Some(cs) && cs.len() == 2 && node_matches(blocks, nodes, cs[0] as int, *left, ctx)
            && node_matches(blocks, nodes, cs[1] as int, *right, ctx)),
        SyntaxNode::LessEqual { left, right, line } => (nodes[id].syntax_node
            matches SyntaxNode::LessEqual { line: l, .. } && l == line) && (list_children(
            nodes[id].children,
        ) matches Some(cs) && cs.len() == 2 && node_matches(blocks, nodes, cs[0] as int, *left, ctx)
            && node_matches(blocks, nodes, cs[1] as int, *right, ctx)),
        SyntaxNode::GreaterEqual { left, right, line } => (nodes[id].syntax_node
            matches SyntaxNode::GreaterEqual { line: l, .. } && l == line) && (list_children(
            nodes[id].children,
        ) matches Some(cs) && cs.len() == 2 && node_matches(blocks, nodes, cs[0] as int, *left, ctx)
            && node_matches(blocks, nodes, cs[1] as int, *right, ctx)),
        SyntaxNode::Equal { left, right, line } => (nodes[id].syntax_node
            matches SyntaxNode::Equal { line: l, .. } && l == line) && (list_children(
            nodes[id].children,
        ) matches Some(cs) && cs.len() == 2 && node_matches(blocks, nodes, cs[0] as int, *left, ctx)
            && node_matches(blocks, nodes, cs[1] as int, *right, ctx)),
        SyntaxNode::NotEqual { left, right, line } => (nodes[id].syntax_node
            matches SyntaxNode::NotEqual { line: l, .. } && l == line) && (list_children(
            nodes[id].children,
        ) matches Some(cs) && cs.len() == 2 && node_matches(blocks, nodes, cs[0] as int, *left, ctx)
            && node_matches(blocks, nodes, cs[1] as int, *right, ctx)),
        SyntaxNode::Subscript { iterable, index, line } => (nodes[id].syntax_node
            matches SyntaxNode::Subscript { line: l, .. } && l == line) && (list_children(
            nodes[id].children,
        ) matches Some(cs) && cs.len() == 2 && node_matches(
            blocks,
            nodes,
            cs[0] as int,
            *iterable,
            ctx,
        ) && node_matches(blocks, nodes, cs[1] as int, *index, ctx)),
        SyntaxNode::Not { operand, line } => (nodes[id].syntax_node matches SyntaxNode::Not {
            line: l,
            ..
        } && l == line) && (list_children(nodes[id].children) matches Some(cs) && cs.len() == 1
            && node_matches(blocks, nodes, cs[0] as int, *operand, ctx)),
        SyntaxNode::Parenthesis { child, line } => (nodes[id].syntax_node
            matches SyntaxNode::Parenthesis { line: l, .. } && l == line) && (list_children(
            nodes[id].children,
        ) matches Some(cs) && cs.len() == 1 && node_matches(blocks, nodes, cs[0] as int, *child, ctx)),
        SyntaxNode::In { iterable, line } => (nodes[id].syntax_node matches SyntaxNode::In {
            line: l,
            ..
        } && l == line) && (list_children(nodes[id].children) matches Some(cs) && cs.len() == 1
            && node_matches(blocks, nodes, cs[0] as int, *iterable, ctx)),
        SyntaxNode::List { elements, line } => (nodes[id].syntax_node matches SyntaxNode::List {
            elements: e,
            line: l,
        } && e@.len() == elements@.len() && l == line) && (list_children(nodes[id].children)
            matches Some(cs) && cs.len() == elements@.len() && (forall|k: int|
            0 <= k < elements@.len() ==> node_matches(
                blocks,
                nodes,
                (#[trigger] cs[k]) as int,
                elements@[k],
                ctx,
            ))),
        SyntaxNode::Call { function, arguments, line } => (nodes[id].syntax_node
            matches SyntaxNode::Call { arguments: a, line: l, .. } && a@.len() == arguments@.len()
            && l == line) && (list_children(nodes[id].children) matches Some(cs) && cs.len() == 1
            + arguments@.len() && node_matches(blocks, nodes, cs[0] as int, *function, ctx) && (
        forall|k: int|
            0 <= k < arguments@.len() ==> node_matches(
                blocks,
                nodes,
                (#[trigger] cs[k + 1]) as int,
                arguments@[k],
                ctx,
            ))),
        SyntaxNode::Return { value, line } => (nodes[id].syntax_node matches SyntaxNode::Return {
            value: v2,
            line: l,
        } && l == line && (v2 is Some <==> value is Some)) && (match nodes[id].children {
            NodeContent::Optional { child } => match (child, value) {
                (Some(c), Some(inner)) => node_matches(blocks, nodes, c as int, *inner, ctx),
                (None, None) => true,
                _ => false,
            },
            _ => false,
        }),
        SyntaxNode::Scope { statements, line } => (nodes[id].syntax_node
            matches SyntaxNode::Scope { line: l, .. } && l == line) && (match nodes[id].children {
            NodeContent::Scope { body } => ctx < body && block_matches(
                blocks,
                nodes,
                body as int,
                statements.statements@,
                Some(ctx as usize),
            ),
            _ => false,
        }),
        SyntaxNode::Else { body, line } => (nodes[id].syntax_node matches SyntaxNode::Else {
            line: l,
            ..
        } && l == line) && (match nodes[id].children {
            NodeContent::Scope { body: b } => ctx < b && block_matches(
                blocks,
                nodes,
                b as int,
                body.statements@,
                Some(ctx as usize),
            ),
            _ => false,
        }),
        SyntaxNode::Fun { name, params, body, line } => (nodes[id].syntax_node
            matches SyntaxNode::Fun { name: n2, line: l, .. } && n2 == name && l == line) && (
        match nodes[id].children {
            NodeContent::Function { params: p2, body: b } => p2 == params && ctx < b
                && block_matches(blocks, nodes, b as int, body.statements@, Some(ctx as usize)),
            _ => false,
        }),
        SyntaxNode::While { condition, body, line } => (nodes[id].syntax_node
            matches SyntaxNode::While { line: l, .. } && l == line) && (match nodes[id].children {
            NodeContent::LoopLike { condition: c, body: b } => node_matches(
                blocks,
                nodes,
                c as int,
                *condition,
                ctx,
            ) && ctx < b && block_matches(
                blocks,
                nodes,
                b as int,
                body.statements@,
                Some(ctx as usize),
            ),
            _ => false,
        }),
        SyntaxNode::For { variable, iterable, body, line } => (nodes[id].syntax_node
            matches SyntaxNode::For { variable: v2, line: l, .. } && v2 == variable && l == line)
            && (match nodes[id].children {
            NodeContent::LoopLike { condition: c, body: b } => node_matches(
                blocks,
                nodes,
                c as int,
                *iterable,
                ctx,
            ) && ctx < b && block_matches(
                blocks,
                nodes,
                b as int,
                body.statements@,
                Some(ctx as usize),
            ),
            _ => false,
        }),
        SyntaxNode::If { condition, body, else_node, line } => (nodes[id].syntax_node
            matches SyntaxNode::If { line: l, .. } && l == line) && (match nodes[id].children {
            NodeContent::IfLike { condition: c, body: b, else_node: e } => node_matches(
                blocks,
                nodes,
                c as int,
                *condition,
                ctx,
            ) && ctx < b && block_matches(
                blocks,
                nodes,
                b as int,
                body.statements@,
                Some(ctx as usize),
            ) && (match (e, else_node) {
                (Some(eid), Some(en)) => node_matches(blocks, nodes, eid as int, *en, ctx),
                (None, None) => true,
                _ => false,
            }),
            _ => false,
        }),
        SyntaxNode::Elif { condition, body, else_node, line } => (nodes[id].syntax_node
            matches SyntaxNode::Elif { line: l, .. } && l == line) && (match nodes[id].children {
            NodeContent::IfLike { condition: c, body: b, else_node: e } => node_matches(
                blocks,
                nodes,
                c as int,
                *condition,
                ctx,
            ) && ctx < b && block_matches(
                blocks,
                nodes,
                b as int,
                body.statements@,
                Some(ctx as usize),
            ) && (match (e, else_node) {
                (Some(eid), Some(en)) => node_matches(blocks, nodes, eid as int, *en, ctx),
                (None, None) => true,
                _ => false,
            }),
            _ => false,
        }),
        _ => nodes[id].syntax_node == sn && nodes[id].children is Leaf,
    }
}

/// Whether arena block `b` is the built form of the statement list
/// `stmts` under the given parent: one node per statement, in order, each
/// the built form of its statement.
pub open spec fn block_matches(
    blocks: Seq<CodeBlock>,
    nodes: Seq<CodeNode>,
    b: int,
    stmts: Seq<SyntaxNode>,
    parent: Option<usize>,
) -> bool
    decreases stmts,
{
    &&& 0 <= b < blocks.len()
    &&& blocks[b].parent_context == parent
    &&& blocks[b].nodes@.len() == stmts.len()
    &&& forall|k: int|
        0 <= k < stmts.len() ==> node_matches(
            blocks,
            nodes,
            (#[trigger] blocks[b].nodes@[k]) as int,
            stmts[k],
            b,
        )
}


/// A built node stays built as the arenas grow: nodes and blocks are only
/// appended, and only a block no deeper than the node's own context — never
/// one the correspondence reads — may change.
proof fn lemma_node_matches_grow(
    b1: Seq<CodeBlock>,
    n1: Seq<CodeNode>,
    b2: Seq<CodeBlock>,
    n2: Seq<CodeNode>,
    id: int,
    sn: SyntaxNode,
    ctx: int,
    exempt: int,
)
    requires
        node_matches(b1, n1, id, sn, ctx),
        exempt <= ctx,
        n2.len() >= n1.len(),
        forall|k: int| 0 <= k < n1.len() ==> n2[k] == n1[k],
        b2.len() >= b1.len(),
        forall|k: int| 0 <= k < b1.len() && k != exempt ==> b2[k] == b1[k],
    ensures
        node_matches(b2, n2, id, sn, ctx),
    decreases sn,
{
    assert(n2[id] == n1[id]);
    match sn {
        SyntaxNode::Add { left, right, .. } => {
            let cs = list_children(n1[id].children).unwrap();
            lemma_node_matches_grow(b1, n1, b2, n2, cs[0] as int, *left, ctx, exempt);
            lemma_node_matches_grow(b1, n1, b2, n2, cs[1] as int, *right, ctx, exempt);
        },
        SyntaxNode::Sub { left, right, .. } => {
            let cs = list_children(n1[id].children).unwrap();
            lemma_node_matches_grow(b1, n1, b2, n2, cs[0] as int, *left, ctx, exempt);
            lemma_node_matches_grow(b1, n1, b2, n2, cs[1] as int, *right, ctx, exempt);
        },
        SyntaxNode::Mul { left, right, .. } => {
            let cs = list_children(n1[id].children).unwrap();
            lemma_node_matches_grow(b1, n1, b2, n2, cs[0] as int, *left, ctx, exempt);
            lemma_node_matches_grow(b1, n1, b2, n2, cs[1] as int, *right, ctx, exempt);
        },
        SyntaxNode::Div { left, right, .. } => {
            let cs = list_children(n1[id].children).unwrap();
            lemma_node_matches_grow(b1, n1, b2, n2, cs[0] as int, *left, ctx, exempt);
            lemma_node_matches_grow(b1, n1, b2, n2, cs[1] as int, *right, ctx, exempt);
        },
        SyntaxNode::Mod { left, right, .. } => {
            let cs = list_children(n1[id].children).unwrap();
            lemma_node_matches_grow(b1, n1, b2, n2, cs[0] as int, *left, ctx, exempt);
            lemma_node_matches_grow(b1, n1, b2, n2, cs[1] as int, *right, ctx, exempt);
        },
        SyntaxNode::Assign { left, right, .. } => {
            let cs = list_children(n1[id].children).unwrap();
            lemma_node_matches_grow(b1, n1, b2, n2, cs[0] as int, *left, ctx, exempt);
            lemma_node_matches_grow(b1, n1, b2, n2, cs[1] as int, *right, ctx, exempt);
        },
        SyntaxNode::AssignAdd { left, right, .. } => {
            let cs = list_children(n1[id].children).unwrap();
            lemma_node_matches_grow(b1, n1, b2, n2, cs[0] as int, *left, ctx, exempt);
            lemma_node_matches_grow(b1, n1, b2, n2, cs[1] as int, *right, ctx, exempt);
        },
        SyntaxNode::AssignSub { left, right, .. } => {
            let cs = list_children(n1[id].children).unwrap();
            lemma_node_matches_grow(b1, n1, b2, n2, cs[0] as int, *left, ctx, exempt);
            lemma_node_matches_grow(b1, n1, b2, n2, cs[1] as int, *right, ctx, exempt);
        },
        SyntaxNode::AssignMul { left, right, .. } => {
            let cs = list_children(n1[id].children).unwrap();
            lemma_node_matches_grow(b1, n1, b2, n2, cs[0] as int, *left, ctx, exempt);
            lemma_node_matches_grow(b1, n1, b2, n2, cs[1] as int, *right, ctx, exempt);
        },
        SyntaxNode::AssignDiv { left, right, .. } => {
            let cs = list_children(n1[id].children).unwrap();
            lemma_node_matches_grow(b1, n1, b2, n2, cs[0] as int, *left, ctx, exempt);
            lemma_node_matches_grow(b1, n1, b2, n2, cs[1] as int, *right, ctx, exempt);
        },
        SyntaxNode::AssignMod { left, right, .. } => {
            let cs = list_children(n1[id].children).unwrap();
            lemma_node_matches_grow(b1, n1, b2, n2, cs[0] as int, *left, ctx, exempt);
            lemma_node_matches_grow(b1, n1, b2, n2, cs[1] as int, *right, ctx, exempt);
        },
        SyntaxNode::And { left, right, .. } => {
            let cs = list_children(n1[id].children).unwrap();
            lemma_node_matches_grow(b1, n1, b2, n2, cs[0] as int, *left, ctx, exempt);
            lemma_node_matches_grow(b1, n1, b2, n2, cs[1] as int, *right, ctx, exempt);
        },
        SyntaxNode::Or { left, right, .. } => {
            let cs = list_children(n1[id].children).unwrap();
            lemma_node_matches_grow(b1, n1, b2, n2, cs[0] as int, *left, ctx, exempt);
            lemma_node_matches_grow(b1, n1, b2, n2, cs[1] as int, *right, ctx, exempt);
        },
        SyntaxNode::Less { left, right, .. } => {
            let cs = list_children(n1[id].children).unwrap();
            lemma_node_matches_grow(b1, n1, b2, n2, cs[0] as int, *left, ctx, exempt);
            lemma_node_matches_grow(b1, n1, b2, n2, cs[1] as int, *right, ctx, exempt);
        },
        SyntaxNode::Greater { left, right, .. } => {
            let cs = list_children(n1[id].children).unwrap();
            lemma_node_matches_grow(b1, n1, b2, n2, cs[0] as int, *left, ctx, exempt);
            lemma_node_matches_grow(b1, n1, b2, n2, cs[1] as int, *right, ctx, exempt);
        },
        SyntaxNode::LessEqual { left, right, .. } => {
            let cs = list_children(n1[id].children).unwrap();
            lemma_node_matches_grow(b1, n1, b2, n2, cs[0] as int, *left, ctx, exempt);
            lemma_node_matches_grow(b1, n1, b2, n2, cs[1] as int, *right, ctx, exempt);
        },
        SyntaxNode::GreaterEqual { left, right, .. } => {
            let cs = list_children(n1[id].children).unwrap();
            lemma_node_matches_grow(b1, n1, b2, n2, cs[0] as int, *left, ctx, exempt);
            lemma_node_matches_grow(b1, n1, b2, n2, cs[1] as int, *right, ctx, exempt);
        },
        SyntaxNode::Equal { left, right, .. } => {
            let cs = list_children(n1[id].children).unwrap();
            lemma_node_matches_grow(b1, n1, b2, n2, cs[0] as int, *left, ctx, exempt);
            lemma_node_matches_grow(b1, n1, b2, n2, cs[1] as int, *right, ctx, exempt);
        },
        SyntaxNode::NotEqual { left, right, .. } => {
            let cs = list_children(n1[id].children).unwrap();
            lemma_node_matches_grow(b1, n1, b2, n2, cs[0] as int, *left, ctx, exempt);
            lemma_node_matches_grow(b1, n1, b2, n2, cs[1] as int, *right, ctx, exempt);
        },
        SyntaxNode::Subscript { iterable, index, .. } => {
            let cs = list_children(n1[id].children).unwrap();
            lemma_node_matches_grow(b1, n1, b2, n2, cs[0] as int, *iterable, ctx, exempt);
            lemma_node_matches_grow(b1, n1, b2, n2, cs[1] as int, *index, ctx, exempt);
        },
        SyntaxNode::Not { operand, .. } => {
            let cs = list_children(n1[id].children).unwrap();
            lemma_node_matches_grow(b1, n1, b2, n2, cs[0] as int, *operand, ctx, exempt);
        },
        SyntaxNode::Parenthesis { child, .. } => {
            let cs = list_children(n1[id].children).unwrap();
            lemma_node_matches_grow(b1, n1, b2, n2, cs[0] as int, *child, ctx, exempt);
        },
        SyntaxNode::In { iterable, .. } => {
            let cs = list_children(n1[id].children).unwrap();
            lemma_node_matches_grow(b1, n1, b2, n2, cs[0] as int, *iterable, ctx, exempt);
        },
        SyntaxNode::List { elements, .. } => {
            let cs = list_children(n1[id].children).unwrap();
            assert forall|k: int| 0 <= k < elements@.len() implies node_matches(
                b2,
                n2,
                (#[trigger] cs[k]) as int,
                elements@[k],
                ctx,
            ) by {
                assert(decreases_to!(sn => sn->List_elements));
                assert(decreases_to!(sn->List_elements => sn->List_elements@));
                assert(decreases_to!(sn->List_elements@ => sn->List_elements@[k]));
                lemma_node_matches_grow(b1, n1, b2, n2, cs[k] as int, elements@[k], ctx, exempt);
            }
        },
        SyntaxNode::Call { function, arguments, .. } => {
            let cs = list_children(n1[id].children).unwrap();
            lemma_node_matches_grow(b1, n1, b2, n2, cs[0] as int, *function, ctx, exempt);
            assert forall|k: int| 0 <= k < arguments@.len() implies node_matches(
                b2,
                n2,
                (#[trigger] cs[k + 1]) as int,
                arguments@[k],
                ctx,
            ) by {
                assert(decreases_to!(sn => sn->Call_arguments));
                assert(decreases_to!(sn->Call_arguments => sn->Call_arguments@));
                assert(decreases_to!(sn->Call_arguments@ => sn->Call_arguments@[k]));
                lemma_node_matches_grow(
                    b1,
                    n1,
                    b2,
                    n2,
                    cs[k + 1] as int,
                    arguments@[k],
                    ctx,
                    exempt,
                );
            }
        },
        SyntaxNode::Return { value, .. } => {
            match (n1[id].children, value) {
                (NodeContent::Optional { child: Some(c) }, Some(inner)) => {
                    lemma_node_matches_grow(b1, n1, b2, n2, c as int, *inner, ctx, exempt);
                },
                _ => (),
            }
        },
        SyntaxNode::Scope { statements, .. } => {
            match n1[id].children {
                NodeContent::Scope { body } => {
                    assert(decreases_to!(sn => sn->Scope_statements));
                    assert(decreases_to!(sn->Scope_statements => sn->Scope_statements.statements));
                    assert(decreases_to!(sn->Scope_statements.statements
                        => sn->Scope_statements.statements@));
                    lemma_block_matches_grow(
                        b1,
                        n1,
                        b2,
                        n2,
                        body as int,
                        statements.statements@,
                        Some(ctx as usize),
                        exempt,
                    );
                },
                _ => (),
            }
        },
        SyntaxNode::Else { body, .. } => {
            match n1[id].children {
                NodeContent::Scope { body: b } => {
                    assert(decreases_to!(sn => sn->Else_body));
                    assert(decreases_to!(sn->Else_body => sn->Else_body.statements));
                    assert(decreases_to!(sn->Else_body.statements => sn->Else_body.statements@));
                    lemma_block_matches_grow(
                        b1,
                        n1,
                        b2,
                        n2,
                        b as int,
                        body.statements@,
                        Some(ctx as usize),
                        exempt,
                    );
                },
                _ => (),
            }
        },
        SyntaxNode::Fun { body, .. } => {
            match n1[id].children {
                NodeContent::Function { body: b, .. } => {
                    assert(decreases_to!(sn => sn->Fun_body));
                    assert(decreases_to!(sn->Fun_body => sn->Fun_body.statements));
                    assert(decreases_to!(sn->Fun_body.statements => sn->Fun_body.statements@));
                    lemma_block_matches_grow(
                        b1,
                        n1,
                        b2,
                        n2,
                        b as int,
                        body.statements@,
                        Some(ctx as usize),
                        exempt,
                    );
                },
                _ => (),
            }
        },
        SyntaxNode::While { condition, body, .. } => {
            match n1[id].children {
                NodeContent::LoopLike { condition: c, body: b } => {
                    lemma_node_matches_grow(b1, n1, b2, n2, c as int, *condition, ctx, exempt);
                    assert(decreases_to!(sn => sn->While_body));
                    assert(decreases_to!(sn->While_body => sn->While_body.statements));
                    assert(decreases_to!(sn->While_body.statements => sn->While_body.statements@));
                    lemma_block_matches_grow(
                        b1,
                        n1,
                        b2,
                        n2,
                        b as int,
                        body.statements@,
                        Some(ctx as usize),
                        exempt,
                    );
                },
                _ => (),
            }
        },
        SyntaxNode::For { iterable, body, .. } => {
            match n1[id].children {
                NodeContent::LoopLike { condition: c, body: b } => {
                    lemma_node_matches_grow(b1, n1, b2, n2, c as int, *iterable, ctx, exempt);
                    assert(decreases_to!(sn => sn->For_body));
                    assert(decreases_to!(sn->For_body => sn->For_body.statements));
                    assert(decreases_to!(sn->For_body.statements => sn->For_body.statements@));
                    lemma_block_matches_grow(
                        b1,
                        n1,
                        b2,
                        n2,
                        b as int,
                        body.statements@,
                        Some(ctx as usize),
                        exempt,
                    );
                },
                _ => (),
            }
        },
        SyntaxNode::If { condition, body, else_node, .. } => {
            match n1[id].children {
                NodeContent::IfLike { condition: c, body: b, else_node: e } => {
                    lemma_node_matches_grow(b1, n1, b2, n2, c as int, *condition, ctx, exempt);
                    assert(decreases_to!(sn => sn->If_body));
                    assert(decreases_to!(sn->If_body => sn->If_body.statements));
                    assert(decreases_to!(sn->If_body.statements => sn->If_body.statements@));
                    lemma_block_matches_grow(
                        b1,
                        n1,
                        b2,
                        n2,
                        b as int,
                        body.statements@,
                        Some(ctx as usize),
                        exempt,
                    );
                    match (e, else_node) {
                        (Some(eid), Some(en)) => {
                            lemma_node_matches_grow(b1, n1, b2, n2, eid as int, *en, ctx, exempt);
                        },
                        _ => (),
                    }
                },
                _ => (),
            }
        },
        SyntaxNode::Elif { condition, body, else_node, .. } => {
            match n1[id].children {
                NodeContent::IfLike { condition: c, body: b, else_node: e } => {
                    lemma_node_matches_grow(b1, n1, b2, n2, c as int, *condition, ctx, exempt);
                    assert(decreases_to!(sn => sn->Elif_body));
                    assert(decreases_to!(sn->Elif_body => sn->Elif_body.statements));
                    assert(decreases_to!(sn->Elif_body.statements => sn->Elif_body.statements@));
                    lemma_block_matches_grow(
                        b1,
                        n1,
                        b2,
                        n2,
                        b as int,
                        body.statements@,
                        Some(ctx as usize),
                        exempt,
                    );
                    match (e, else_node) {
                        (Some(eid), Some(en)) => {
                            lemma_node_matches_grow(b1, n1, b2, n2, eid as int, *en, ctx, exempt);
                        },
                        _ => (),
                    }
                },
                _ => (),
            }
        },
        _ => (),
    }
}

/// A built block stays built as the arenas grow, under the same exemption,
/// which is always shallower than the block itself.
proof fn lemma_block_matches_grow(
    b1: Seq<CodeBlock>,
    n1: Seq<CodeNode>,
    b2: Seq<CodeBlock>,
    n2: Seq<CodeNode>,
    b: int,
    stmts: Seq<SyntaxNode>,
    parent: Option<usize>,
    exempt: int,
)
    requires
        block_matches(b1, n1, b, stmts, parent),
        exempt < b,
        n2.len() >= n1.len(),
        forall|k: int| 0 <= k < n1.len() ==> n2[k] == n1[k],
        b2.len() >= b1.len(),
        forall|k: int| 0 <= k < b1.len() && k != exempt ==> b2[k] == b1[k],
    ensures
        block_matches(b2, n2, b, stmts, parent),
    decreases stmts,
{
    assert(b2[b] == b1[b]);
    assert forall|k: int| 0 <= k < stmts.len() implies node_matches(
        b2,
        n2,
        (#[trigger] b2[b].nodes@[k]) as int,
        stmts[k],
        b,
    ) by {
        assert(decreases_to!(stmts => stmts[k]));
        lemma_node_matches_grow(b1, n1, b2, n2, b1[b].nodes@[k] as int, stmts[k], b, exempt);
    }
}

impl Jit {
    /// A block is well formed when its parent (if any) stands earlier in
    /// the arena and its statement nodes exist.
    pub open spec fn block_wf(block: CodeBlock, index: int, nodes_len: int) -> bool {
        &&& (block.parent_context matches Some(p) ==> p < index)
        &&& forall|k: int| 0 <= k < block.nodes@.len() ==> #[trigger] block.nodes@[k] < nodes_len
    }

    /// A node is well formed when its context block and every handle of its
    /// child shape exist.
    pub open spec fn node_wf(node: CodeNode, blocks_len: int, nodes_len: int) -> bool {
        &&& node.context < blocks_len
        &&& match node.children {
            NodeContent::Leaf => true,
            NodeContent::ListLike { children } => forall|k: int|
                0 <= k < children@.len() ==> #[trigger] children@[k] < nodes_len,
            NodeContent::Scope { body } => body < blocks_len,
            NodeContent::LoopLike { condition, body } => condition < nodes_len && body
                < blocks_len,
            NodeContent::IfLike { condition, body, else_node } => condition < nodes_len && body
                < blocks_len && (else_node matches Some(e) ==> e < nodes_len),
            NodeContent::Function { body, .. } => body < blocks_len,
            NodeContent::Optional { child } => (child matches Some(c) ==> c < nodes_len),
        }
    }

    /// The arenas are closed: every handle anywhere points inside them.
    pub open spec fn arena_wf(self) -> bool {
        &&& forall|b: int|
            0 <= b < self.blocks@.len() ==> Self::block_wf(
                #[trigger] self.blocks@[b],
                b,
                self.nodes@.len() as int,
            )
        &&& forall|n: int|
            0 <= n < self.nodes@.len() ==> Self::node_wf(
                #[trigger] self.nodes@[n],
                self.blocks@.len() as int,
                self.nodes@.len() as int,
            )
    }

    /// A compiler is well formed when its arenas are closed and its root
    /// block exists.
    pub open spec fn wf(self) -> bool {
        &&& self.arena_wf()
        &&& self.root < self.blocks@.len()
    }

    /// Build the arenas from the syntax tree's top-level statements; the
    /// root block is the global scope and corresponds to the tree, statement
    /// by statement, construct by construct.
    pub fn from_syntax_tree(syntax_tree: SyntaxTree) -> (res: Jit)
        ensures
            res.wf(),
            block_matches(res.blocks@, res.nodes@, res.root as int, syntax_tree.statements@, None),
    {
        let mut jit = Jit { blocks: Vec::new(), nodes: Vec::new(), root: 0 };
        let root = jit.add_block(syntax_tree, None);
        jit.root = root;
        jit
    }

    /// Append a fresh block for a statement list, its nodes built
    /// recursively; the block corresponds to the list.
    #[verifier::loop_isolation(false)]
    fn add_block(&mut self, tree: SyntaxTree, parent: Option<usize>) -> (res: usize)
        requires
            old(self).arena_wf(),
            parent matches Some(p) ==> p < old(self).blocks@.len(),
        ensures
            final(self).arena_wf(),
            res == old(self).blocks@.len(),
            final(self).blocks@.len() > old(self).blocks@.len(),
            final(self).nodes@.len() >= old(self).nodes@.len(),
            forall|b: int|
                0 <= b < old(self).blocks@.len() ==> final(self).blocks@[b] == old(
                    self,
                ).blocks@[b],
            forall|n: int|
                0 <= n < old(self).nodes@.len() ==> final(self).nodes@[n] == old(self).nodes@[n],
            final(self).blocks@[res as int].parent_context == parent,
            final(self).root == old(self).root,
            block_matches(final(self).blocks@, final(self).nodes@, res as int, tree.statements@, parent),
        decreases tree,
    {
        let block_id = self.blocks.len();
        self.blocks.push(CodeBlock::new(parent));
        let ghost gtree = tree;
        let statements = tree.statements;
        let ghost gstmts = statements;
        let ghost orig = statements@;
        let mut statements = statements;
        let total = statements.len();
        let mut taken: usize = 0;
        while statements.len() > 0
            invariant
                self.arena_wf(),
                block_id < self.blocks@.len(),
                self.blocks@.len() > old(self).blocks@.len(),
                block_id == old(self).blocks@.len(),
                self.nodes@.len() >= old(self).nodes@.len(),
                forall|b: int|
                    0 <= b < old(self).blocks@.len() ==> self.blocks@[b] == old(self).blocks@[b],
                forall|n: int|
                    0 <= n < old(self).nodes@.len() ==> self.nodes@[n] == old(self).nodes@[n],
                self.blocks@[block_id as int].parent_context == parent,
                self.root == old(self).root,
                taken <= total,
                total == orig.len(),
                statements@ == orig.skip(taken as int),
                orig == gstmts@,
                gtree == (SyntaxTree { statements: gstmts }),
                self.blocks@[block_id as int].nodes@.len() == taken,
                forall|k: int|
                    0 <= k < taken ==> node_matches(
                        self.blocks@,
                        self.nodes@,
                        (#[trigger] self.blocks@[block_id as int].nodes@[k]) as int,
                        orig[k],
                        block_id as int,
                    ),
            decreases statements@.len(),
        {
            proof {
                assert(statements@[0] == orig[taken as int]);
            }
            let stmt = statements.remove(0);
            proof {
                assert(statements@ =~= orig.skip(taken as int + 1));
                assert(gtree.statements == gstmts);
                assert(decreases_to!(gtree => gtree.statements));
                assert(decreases_to!(gstmts => gstmts@));
                assert(decreases_to!(gstmts@ => gstmts@[taken as int]));
                assert(stmt == gstmts@[taken as int]);
            }
            let ghost bpre = self.blocks@;
            let ghost npre = self.nodes@;
            let node_id = self.add_node(stmt, block_id);
            let ghost bmid = self.blocks@;
            let ghost nmid = self.nodes@;
            proof {
                assert forall|k: int| 0 <= k < taken implies node_matches(
                    bmid,
                    nmid,
                    (#[trigger] bmid[block_id as int].nodes@[k]) as int,
                    orig[k],
                    block_id as int,
                ) by {
                    lemma_node_matches_grow(
                        bpre,
                        npre,
                        bmid,
                        nmid,
                        bpre[block_id as int].nodes@[k] as int,
                        orig[k],
                        block_id as int,
                        -1,
                    );
                }
            }
            let block = vstd::std_specs::vec::vec_index_mut(&mut self.blocks, block_id);
            block.nodes.push(node_id);
            proof {
                assert forall|k: int| 0 <= k < taken + 1 implies node_matches(
                    self.blocks@,
                    self.nodes@,
                    (#[trigger] self.blocks@[block_id as int].nodes@[k]) as int,
                    orig[k],
                    block_id as int,
                ) by {
                    if k < taken {
                        assert(self.blocks@[block_id as int].nodes@[k]
                            == bmid[block_id as int].nodes@[k]);
                        lemma_node_matches_grow(
                            bmid,
                            nmid,
                            self.blocks@,
                            self.nodes@,
                            bmid[block_id as int].nodes@[k] as int,
                            orig[k],
                            block_id as int,
                            block_id as int,
                        );
                    } else {
                        lemma_node_matches_grow(
                            bmid,
                            nmid,
                            self.blocks@,
                            self.nodes@,
                            node_id as int,
                            orig[k],
                            block_id as int,
                            block_id as int,
                        );
                    }
                }
            }
            taken = taken + 1;
        }
        proof {
            assert(block_matches(
                self.blocks@,
                self.nodes@,
                block_id as int,
                gtree.statements@,
                parent,
            ));
        }
        block_id
    }

    /// Append a fresh node for one construct, its children built
    /// recursively; the stored syntax node keeps leaf payloads and counts
    /// but its children are replaced by placeholders, and the node
    /// corresponds to the construct.
    #[verifier::loop_isolation(false)]
    #[verifier::rlimit(100)]
    #[verifier::spinoff_prover]
    fn add_node(&mut self, syntax_node: SyntaxNode, context: usize) -> (res: usize)
        requires
            old(self).arena_wf(),
            context < old(self).blocks@.len(),
        ensures
            final(self).arena_wf(),
            res < final(self).nodes@.len(),
            res >= old(self).nodes@.len(),
            final(self).blocks@.len() >= old(self).blocks@.len(),
            final(self).nodes@.len() > old(self).nodes@.len(),
            forall|b: int|
                0 <= b < old(self).blocks@.len() ==> final(self).blocks@[b] == old(
                    self,
                ).blocks@[b],
            forall|n: int|
                0 <= n < old(self).nodes@.len() ==> final(self).nodes@[n] == old(self).nodes@[n],
            final(self).root == old(self).root,
            node_matches(
                final(self).blocks@,
                final(self).nodes@,
                res as int,
                syntax_node,
                context as int,
            ),
        decreases syntax_node,
    {
        let ghost gsn = syntax_node;
        match syntax_node {
            SyntaxNode::Add { left, right, line } => {
                let ghost gl = *left;
                let ghost gr = *right;
                let a = self.add_node(*left, context);
                let ghost ba = self.blocks@;
                let ghost na = self.nodes@;
                let b = self.add_node(*right, context);
                let ghost bb = self.blocks@;
                let ghost nb = self.nodes@;
                let sn = SyntaxNode::Add {
                    left: Box::new(SyntaxNode::Placeholder),
                    right: Box::new(SyntaxNode::Placeholder),
                    line,
                };
                let rid = self.push_pair_node(sn, a, b, context);
                proof {
                    lemma_node_matches_grow(
                        ba,
                        na,
                        self.blocks@,
                        self.nodes@,
                        a as int,
                        gl,
                        context as int,
                        -1,
                    );
                    lemma_node_matches_grow(
                        bb,
                        nb,
                        self.blocks@,
                        self.nodes@,
                        b as int,
                        gr,
                        context as int,
                        -1,
                    );
                    assert(node_matches(
                        self.blocks@,
                        self.nodes@,
                        rid as int,
                        gsn,
                        context as int,
                    ));
                }
                rid
            },
            SyntaxNode::Sub { left, right, line } => {
                let ghost gl = *left;
                let ghost gr = *right;
                let a = self.add_node(*left, context);
                let ghost ba = self.blocks@;
                let ghost na = self.nodes@;
                let b = self.add_node(*right, context);
                let ghost bb = self.blocks@;
                let ghost nb = self.nodes@;
                let sn = SyntaxNode::Sub {
                    left: Box::new(SyntaxNode::Placeholder),
                    right: Box::new(SyntaxNode::Placeholder),
                    line,
                };
                let rid = self.push_pair_node(sn, a, b, context);
                proof {
                    lemma_node_matches_grow(
                        ba,
                        na,
                        self.blocks@,
                        self.nodes@,
                        a as int,
                        gl,
                        context as int,
                        -1,
                    );
                    lemma_node_matches_grow(
                        bb,
                        nb,
                        self.blocks@,
                        self.nodes@,
                        b as int,
                        gr,
                        context as int,
                        -1,
                    );
                    assert(node_matches(
                        self.blocks@,
                        self.nodes@,
                        rid as int,
                        gsn,
                        context as int,
                    ));
                }
                rid
            },
            SyntaxNode::Mul { left, right, line } => {
                let ghost gl = *left;
                let ghost gr = *right;
                let a = self.add_node(*left, context);
                let ghost ba = self.blocks@;
                let ghost na = self.nodes@;
                let b = self.add_node(*right, context);
                let ghost bb = self.blocks@;
                let ghost nb = self.nodes@;
                let sn = SyntaxNode::Mul {
                    left: Box::new(SyntaxNode::Placeholder),
                    right: Box::new(SyntaxNode::Placeholder),
                    line,
                };
                let rid = self.push_pair_node(sn, a, b, context);
                proof {
                    lemma_node_matches_grow(
                        ba,
                        na,
                        self.blocks@,
                        self.nodes@,
                        a as int,
                        gl,
                        context as int,
                        -1,
                    );
                    lemma_node_matches_grow(
                        bb,
                        nb,
                        self.blocks@,
                        self.nodes@,
                        b as int,
                        gr,
                        context as int,
                        -1,
                    );
                    assert(node_matches(
                        self.blocks@,
                        self.nodes@,
                        rid as int,
                        gsn,
                        context as int,
                    ));
                }
                rid
            },
            SyntaxNode::Div { left, right, line } => {
                let ghost gl = *left;
                let ghost gr = *right;
                let a = self.add_node(*left, context);
                let ghost ba = self.blocks@;
                let ghost na = self.nodes@;
                let b = self.add_node(*right, context);
                let ghost bb = self.blocks@;
                let ghost nb = self.nodes@;
                let sn = SyntaxNode::Div {
                    left: Box::new(SyntaxNode::Placeholder),
                    right: Box::new(SyntaxNode::Placeholder),
                    line,
                };
                let rid = self.push_pair_node(sn, a, b, context);
                proof {
                    lemma_node_matches_grow(
                        ba,
                        na,
                        self.blocks@,
                        self.nodes@,
                        a as int,
                        gl,
                        context as int,
                        -1,
                    );
                    lemma_node_matches_grow(
                        bb,
                        nb,
                        self.blocks@,
                        self.nodes@,
                        b as int,
                        gr,
                        context as int,
                        -1,
                    );
                    assert(node_matches(
                        self.blocks@,
                        self.nodes@,
                        rid as int,
                        gsn,
                        context as int,
                    ));
                }
                rid
            },
            SyntaxNode::Mod { left, right, line } => {
                let ghost gl = *left;
                let ghost gr = *right;
                let a = self.add_node(*left, context);
                let ghost ba = self.blocks@;
                let ghost na = self.nodes@;
                let b = self.add_node(*right, context);
                let ghost bb = self.blocks@;
                let ghost nb = self.nodes@;
                let sn = SyntaxNode::Mod {
                    left: Box::new(SyntaxNode::Placeholder),
                    right: Box::new(SyntaxNode::Placeholder),
                    line,
                };
                let rid = self.push_pair_node(sn, a, b, context);
                proof {
                    lemma_node_matches_grow(
                        ba,
                        na,
                        self.blocks@,
                        self.nodes@,
                        a as int,
                        gl,
                        context as int,
                        -1,
                    );
                    lemma_node_matches_grow(
                        bb,
                        nb,
                        self.blocks@,
                        self.nodes@,
                        b as int,
                        gr,
                        context as int,
                        -1,
                    );
                    assert(node_matches(
                        self.blocks@,
                        self.nodes@,
                        rid as int,
                        gsn,
                        context as int,
                    ));
                }
                rid
            },
            SyntaxNode::Assign { left, right, line } => {
                let ghost gl = *left;
                let ghost gr = *right;
                let a = self.add_node(*left, context);
                let ghost ba = self.blocks@;
                let ghost na = self.nodes@;
                let b = self.add_node(*right, context);
                let ghost bb = self.blocks@;
                let ghost nb = self.nodes@;
                let sn = SyntaxNode::Assign {
                    left: Box::new(SyntaxNode::Placeholder),
                    right: Box::new(SyntaxNode::Placeholder),
                    line,
                };
                let rid = self.push_pair_node(sn, a, b, context);
                proof {
                    lemma_node_matches_grow(
                        ba,
                        na,
                        self.blocks@,
                        self.nodes@,
                        a as int,
                        gl,
                        context as int,
                        -1,
                    );
                    lemma_node_matches_grow(
                        bb,
                        nb,
                        self.blocks@,
                        self.nodes@,
                        b as int,
                        gr,
                        context as int,
                        -1,
                    );
                    assert(node_matches(
                        self.blocks@,
                        self.nodes@,
                        rid as int,
                        gsn,
                        context as int,
                    ));
                }
                rid
            },
            SyntaxNode::AssignAdd { left, right, line } => {
                let ghost gl = *left;
                let ghost gr = *right;
                let a = self.add_node(*left, context);
                let ghost ba = self.blocks@;
                let ghost na = self.nodes@;
                let b = self.add_node(*right, context);
                let ghost bb = self.blocks@;
                let ghost nb = self.nodes@;
                let sn = SyntaxNode::AssignAdd {
                    left: Box::new(SyntaxNode::Placeholder),
                    right: Box::new(SyntaxNode::Placeholder),
                    line,
                };
                let rid = self.push_pair_node(sn, a, b, context);
                proof {
                    lemma_node_matches_grow(
                        ba,
                        na,
                        self.blocks@,
                        self.nodes@,
                        a as int,
                        gl,
                        context as int,
                        -1,
                    );
                    lemma_node_matches_grow(
                        bb,
                        nb,
                        self.blocks@,
                        self.nodes@,
                        b as int,
                        gr,
                        context as int,
                        -1,
                    );
                    assert(node_matches(
                        self.blocks@,
                        self.nodes@,
                        rid as int,
                        gsn,
                        context as int,
                    ));
                }
                rid
            },
            SyntaxNode::AssignSub { left, right, line } => {
                let ghost gl = *left;
                let ghost gr = *right;
                let a = self.add_node(*left, context);
                let ghost ba = self.blocks@;
                let ghost na = self.nodes@;
                let b = self.add_node(*right, context);
                let ghost bb = self.blocks@;
                let ghost nb = self.nodes@;
                let sn = SyntaxNode::AssignSub {
                    left: Box::new(SyntaxNode::Placeholder),
                    right: Box::new(SyntaxNode::Placeholder),
                    line,
                };
                let rid = self.push_pair_node(sn, a, b, context);
                proof {
                    lemma_node_matches_grow(
                        ba,
                        na,
                        self.blocks@,
                        self.nodes@,
                        a as int,
                        gl,
                        context as int,
                        -1,
                    );
                    lemma_node_matches_grow(
                        bb,
                        nb,
                        self.blocks@,
                        self.nodes@,
                        b as int,
                        gr,
                        context as int,
                        -1,
                    );
                    assert(node_matches(
                        self.blocks@,
                        self.nodes@,
                        rid as int,
                        gsn,
                        context as int,
                    ));
                }
                rid
            },
            SyntaxNode::AssignMul { left, right, line } => {
                let ghost gl = *left;
                let ghost gr = *right;
                let a = self.add_node(*left, context);
                let ghost ba = self.blocks@;
                let ghost na = self.nodes@;
                let b = self.add_node(*right, context);
                let ghost bb = self.blocks@;
                let ghost nb = self.nodes@;
                let sn = SyntaxNode::AssignMul {
                    left: Box::new(SyntaxNode::Placeholder),
                    right: Box::new(SyntaxNode::Placeholder),
                    line,
                };
                let rid = self.push_pair_node(sn, a, b, context);
                proof {
                    lemma_node_matches_grow(
                        ba,
                        na,
                        self.blocks@,
                        self.nodes@,
                        a as int,
                        gl,
                        context as int,
                        -1,
                    );
                    lemma_node_matches_grow(
                        bb,
                        nb,
                        self.blocks@,
                        self.nodes@,
                        b as int,
                        gr,
                        context as int,
                        -1,
                    );
                    assert(node_matches(
                        self.blocks@,
                        self.nodes@,
                        rid as int,
                        gsn,
                        context as int,
                    ));
                }
                rid
            },
            SyntaxNode::AssignDiv { left, right, line } => {
                let ghost gl = *left;
                let ghost gr = *right;
                let a = self.add_node(*left, context);
                let ghost ba = self.blocks@;
                let ghost na = self.nodes@;
                let b = self.add_node(*right, context);
                let ghost bb = self.blocks@;
                let ghost nb = self.nodes@;
                let sn = SyntaxNode::AssignDiv {
                    left: Box::new(SyntaxNode::Placeholder),
                    right: Box::new(SyntaxNode::Placeholder),
                    line,
                };
                let rid = self.push_pair_node(sn, a, b, context);
                proof {
                    lemma_node_matches_grow(
                        ba,
                        na,
                        self.blocks@,
                        self.nodes@,
                        a as int,
                        gl,
                        context as int,
                        -1,
                    );
                    lemma_node_matches_grow(
                        bb,
                        nb,
                        self.blocks@,
                        self.nodes@,
                        b as int,
                        gr,
                        context as int,
                        -1,
                    );
                    assert(node_matches(
                        self.blocks@,
                        self.nodes@,
                        rid as int,
                        gsn,
                        context as int,
                    ));
                }
                rid
            },
            SyntaxNode::AssignMod { left, right, line } => {
                let ghost gl = *left;
                let ghost gr = *right;
                let a = self.add_node(*left, context);
                let ghost ba = self.blocks@;
                let ghost na = self.nodes@;
                let b = self.add_node(*right, context);
                let ghost bb = self.blocks@;
                let ghost nb = self.nodes@;
                let sn = SyntaxNode::AssignMod {
                    left: Box::new(SyntaxNode::Placeholder),
                    right: Box::new(SyntaxNode::Placeholder),
                    line,
                };
                let rid = self.push_pair_node(sn, a, b, context);
                proof {
                    lemma_node_matches_grow(
                        ba,
                        na,
                        self.blocks@,
                        self.nodes@,
                        a as int,
                        gl,
                        context as int,
                        -1,
                    );
                    lemma_node_matches_grow(
                        bb,
                        nb,
                        self.blocks@,
                        self.nodes@,
                        b as int,
                        gr,
                        context as int,
                        -1,
                    );
                    assert(node_matches(
                        self.blocks@,
                        self.nodes@,
                        rid as int,
                        gsn,
                        context as int,
                    ));
                }
                rid
            },
            SyntaxNode::And { left, right, line } => {
                let ghost gl = *left;
                let ghost gr = *right;
                let a = self.add_node(*left, context);
                let ghost ba = self.blocks@;
                let ghost na = self.nodes@;
                let b = self.add_node(*right, context);
                let ghost bb = self.blocks@;
                let ghost nb = self.nodes@;
                let sn = SyntaxNode::And {
                    left: Box::new(SyntaxNode::Placeholder),
                    right: Box::new(SyntaxNode::Placeholder),
                    line,
                };
                let rid = self.push_pair_node(sn, a, b, context);
                proof {
                    lemma_node_matches_grow(
                        ba,
                        na,
                        self.blocks@,
                        self.nodes@,
                        a as int,
                        gl,
                        context as int,
                        -1,
                    );
                    lemma_node_matches_grow(
                        bb,
                        nb,
                        self.blocks@,
                        self.nodes@,
                        b as int,
                        gr,
                        context as int,
                        -1,
                    );
                    assert(node_matches(
                        self.blocks@,
                        self.nodes@,
                        rid as int,
                        gsn,
                        context as int,
                    ));
                }
                rid
            },
            SyntaxNode::Or { left, right, line } => {
                let ghost gl = *left;
                let ghost gr = *right;
                let a = self.add_node(*left, context);
                let ghost ba = self.blocks@;
                let ghost na = self.nodes@;
                let b = self.add_node(*right, context);
                let ghost bb = self.blocks@;
                let ghost nb = self.nodes@;
                let sn = SyntaxNode::Or {
                    left: Box::new(SyntaxNode::Placeholder),
                    right: Box::new(SyntaxNode::Placeholder),
                    line,
                };
                let rid = self.push_pair_node(sn, a, b, context);
                proof {
                    lemma_node_matches_grow(
                        ba,
                        na,
                        self.blocks@,
                        self.nodes@,
                        a as int,
                        gl,
                        context as int,
                        -1,
                    );
                    lemma_node_matches_grow(
                        bb,
                        nb,
                        self.blocks@,
                        self.nodes@,
                        b as int,
                        gr,
                        context as int,
                        -1,
                    );
                    assert(node_matches(
                        self.blocks@,
                        self.nodes@,
                        rid as int,
                        gsn,
                        context as int,
                    ));
                }
                rid
            },
            SyntaxNode::Less { left, right, line } => {
                let ghost gl = *left;
                let ghost gr = *right;
                let a = self.add_node(*left, context);
                let ghost ba = self.blocks@;
                let ghost na = self.nodes@;
                let b = self.add_node(*right, context);
                let ghost bb = self.blocks@;
                let ghost nb = self.nodes@;
                let sn = SyntaxNode::Less {
                    left: Box::new(SyntaxNode::Placeholder),
                    right: Box::new(SyntaxNode::Placeholder),
                    line,
                };
                let rid = self.push_pair_node(sn, a, b, context);
                proof {
                    lemma_node_matches_grow(
                        ba,
                        na,
                        self.blocks@,
                        self.nodes@,
                        a as int,
                        gl,
                        context as int,
                        -1,
                    );
                    lemma_node_matches_grow(
                        bb,
                        nb,
                        self.blocks@,
                        self.nodes@,
                        b as int,
                        gr,
                        context as int,
                        -1,
                    );
                    assert(node_matches(
                        self.blocks@,
                        self.nodes@,
                        rid as int,
                        gsn,
                        context as int,
                    ));
                }
                rid
            },
            SyntaxNode::Greater { left, right, line } => {
                let ghost gl = *left;
                let ghost gr = *right;
                let a = self.add_node(*left, context);
                let ghost ba = self.blocks@;
                let ghost na = self.nodes@;
                let b = self.add_node(*right, context);
                let ghost bb = self.blocks@;
                let ghost nb = self.nodes@;
                let sn = SyntaxNode::Greater {
                    left: Box::new(SyntaxNode::Placeholder),
                    right: Box::new(SyntaxNode::Placeholder),
                    line,
                };
                let rid = self.push_pair_node(sn, a, b, context);
                proof {
                    lemma_node_matches_grow(
                        ba,
                        na,
                        self.blocks@,
                        self.nodes@,
                        a as int,
                        gl,
                        context as int,
                        -1,
                    );
                    lemma_node_matches_grow(
                        bb,
                        nb,
                        self.blocks@,
                        self.nodes@,
                        b as int,
                        gr,
                        context as int,
                        -1,
                    );
                    assert(node_matches(
                        self.blocks@,
                        self.nodes@,
                        rid as int,
                        gsn,
                        context as int,
                    ));
                }
                rid
            },
            SyntaxNode::LessEqual { left, right, line } => {
                let ghost gl = *left;
                let ghost gr = *right;
                let a = self.add_node(*left, context);
                let ghost ba = self.blocks@;
                let ghost na = self.nodes@;
                let b = self.add_node(*right, context);
                let ghost bb = self.blocks@;
                let ghost nb = self.nodes@;
                let sn = SyntaxNode::LessEqual {
                    left: Box::new(SyntaxNode::Placeholder),
                    right: Box::new(SyntaxNode::Placeholder),
                    line,
                };
                let rid = self.push_pair_node(sn, a, b, context);
                proof {
                    lemma_node_matches_grow(
                        ba,
                        na,
                        self.blocks@,
                        self.nodes@,
                        a as int,
                        gl,
                        context as int,
                        -1,
                    );
                    lemma_node_matches_grow(
                        bb,
                        nb,
                        self.blocks@,
                        self.nodes@,
                        b as int,
                        gr,
                        context as int,
                        -1,
                    );
                    assert(node_matches(
                        self.blocks@,
                        self.nodes@,
                        rid as int,
                        gsn,
                        context as int,
                    ));
                }
                rid
            },
            SyntaxNode::GreaterEqual { left, right, line } => {
                let ghost gl = *left;
                let ghost gr = *right;
                let a = self.add_node(*left, context);
                let ghost ba = self.blocks@;
                let ghost na = self.nodes@;
                let b = self.add_node(*right, context);
                let ghost bb = self.blocks@;
                let ghost nb = self.nodes@;
                let sn = SyntaxNode::GreaterEqual {
                    left: Box::new(SyntaxNode::Placeholder),
                    right: Box::new(SyntaxNode::Placeholder),
                    line,
                };
                let rid = self.push_pair_node(sn, a, b, context);
                proof {
                    lemma_node_matches_grow(
                        ba,
                        na,
                        self.blocks@,
                        self.nodes@,
                        a as int,
                        gl,
                        context as int,
                        -1,
                    );
                    lemma_node_matches_grow(
                        bb,
                        nb,
                        self.blocks@,
                        self.nodes@,
                        b as int,
                        gr,
                        context as int,
                        -1,
                    );
                    assert(node_matches(
                        self.blocks@,
                        self.nodes@,
                        rid as int,
                        gsn,
                        context as int,
                    ));
                }
                rid
            },
            SyntaxNode::Equal { left, right, line } => {
                let ghost gl = *left;
                let ghost gr = *right;
                let a = self.add_node(*left, context);
                let ghost ba = self.blocks@;
                let ghost na = self.nodes@;
                let b = self.add_node(*right, context);
                let ghost bb = self.blocks@;
                let ghost nb = self.nodes@;
                let sn = SyntaxNode::Equal {
                    left: Box::new(SyntaxNode::Placeholder),
                    right: Box::new(SyntaxNode::Placeholder),
                    line,
                };
                let rid = self.push_pair_node(sn, a, b, context);
                proof {
                    lemma_node_matches_grow(
                        ba,
                        na,
                        self.blocks@,
                        self.nodes@,
                        a as int,
                        gl,
                        context as int,
                        -1,
                    );
                    lemma_node_matches_grow(
                        bb,
                        nb,
                        self.blocks@,
                        self.nodes@,
                        b as int,
                        gr,
                        context as int,
                        -1,
                    );
                    assert(node_matches(
                        self.blocks@,
                        self.nodes@,
                        rid as int,
                        gsn,
                        context as int,
                    ));
                }
                rid
            },
            SyntaxNode::NotEqual { left, right, line } => {
                let ghost gl = *left;
                let ghost gr = *right;
                let a = self.add_node(*left, context);
                let ghost ba = self.blocks@;
                let ghost na = self.nodes@;
                let b = self.add_node(*right, context);
                let ghost bb = self.blocks@;
                let ghost nb = self.nodes@;
                let sn = SyntaxNode::NotEqual {
                    left: Box::new(SyntaxNode::Placeholder),
                    right: Box::new(SyntaxNode::Placeholder),
                    line,
                };
                let rid = self.push_pair_node(sn, a, b, context);
                proof {
                    lemma_node_matches_grow(
                        ba,
                        na,
                        self.blocks@,
                        self.nodes@,
                        a as int,
                        gl,
                        context as int,
                        -1,
                    );
                    lemma_node_matches_grow(
                        bb,
                        nb,
                        self.blocks@,
                        self.nodes@,
                        b as int,
                        gr,
                        context as int,
                        -1,
                    );
                    assert(node_matches(
                        self.blocks@,
                        self.nodes@,
                        rid as int,
                        gsn,
                        context as int,
                    ));
                }
                rid
            },
            SyntaxNode::Subscript { iterable, index, line } => {
                let ghost gl = *iterable;
                let ghost gr = *index;
                let a = self.add_node(*iterable, context);
                let ghost ba = self.blocks@;
                let ghost na = self.nodes@;
                let b = self.add_node(*index, context);
                let ghost bb = self.blocks@;
                let ghost nb = self.nodes@;
                let sn = SyntaxNode::Subscript {
                    iterable: Box::new(SyntaxNode::Placeholder),
                    index: Box::new(SyntaxNode::Placeholder),
                    line,
                };
                let rid = self.push_pair_node(sn, a, b, context);
                proof {
                    lemma_node_matches_grow(
                        ba,
                        na,
                        self.blocks@,
                        self.nodes@,
                        a as int,
                        gl,
                        context as int,
                        -1,
                    );
                    lemma_node_matches_grow(
                        bb,
                        nb,
                        self.blocks@,
                        self.nodes@,
                        b as int,
                        gr,
                        context as int,
                        -1,
                    );
                    assert(node_matches(
                        self.blocks@,
                        self.nodes@,
                        rid as int,
                        gsn,
                        context as int,
                    ));
                }
                rid
            },
            SyntaxNode::Not { operand, line } => {
                let ghost gl = *operand;
                let a = self.add_node(*operand, context);
                let ghost ba = self.blocks@;
                let ghost na = self.nodes@;
                let mut children: Vec<usize> = Vec::new();
                children.push(a);
                let ghost gcs = children@;
                let sn = SyntaxNode::Not { operand: Box::new(SyntaxNode::Placeholder), line };
                let rid = self.push_node(
                    CodeNode {
                        syntax_node: sn,
                        code: None,
                        children: NodeContent::ListLike { children },
                        context,
                    },
                );
                proof {
                    lemma_node_matches_grow(
                        ba,
                        na,
                        self.blocks@,
                        self.nodes@,
                        a as int,
                        gl,
                        context as int,
                        -1,
                    );
                    assert(gcs =~= seq![a]);
                    assert(node_matches(
                        self.blocks@,
                        self.nodes@,
                        rid as int,
                        gsn,
                        context as int,
                    ));
                }
                rid
            },
            SyntaxNode::Parenthesis { child, line } => {
                let ghost gl = *child;
                let a = self.add_node(*child, context);
                let ghost ba = self.blocks@;
                let ghost na = self.nodes@;
                let mut children: Vec<usize> = Vec::new();
                children.push(a);
                let ghost gcs = children@;
                let sn = SyntaxNode::Parenthesis { child: Box::new(SyntaxNode::Placeholder), line };
                let rid = self.push_node(
                    CodeNode {
                        syntax_node: sn,
                        code: None,
                        children: NodeContent::ListLike { children },
                        context,
                    },
                );
                proof {
                    lemma_node_matches_grow(
                        ba,
                        na,
                        self.blocks@,
                        self.nodes@,
                        a as int,
                        gl,
                        context as int,
                        -1,
                    );
                    assert(gcs =~= seq![a]);
                    assert(node_matches(
                        self.blocks@,
                        self.nodes@,
                        rid as int,
                        gsn,
                        context as int,
                    ));
                }
                rid
            },
            SyntaxNode::In { iterable, line } => {
                let ghost gl = *iterable;
                let a = self.add_node(*iterable, context);
                let ghost ba = self.blocks@;
                let ghost na = self.nodes@;
                let mut children: Vec<usize> = Vec::new();
                children.push(a);
                let ghost gcs = children@;
                let sn = SyntaxNode::In { iterable: Box::new(SyntaxNode::Placeholder), line };
                let rid = self.push_node(
                    CodeNode {
                        syntax_node: sn,
                        code: None,
                        children: NodeContent::ListLike { children },
                        context,
                    },
                );
                proof {
                    lemma_node_matches_grow(
                        ba,
                        na,
                        self.blocks@,
                        self.nodes@,
                        a as int,
                        gl,
                        context as int,
                        -1,
                    );
                    assert(gcs =~= seq![a]);
                    assert(node_matches(
                        self.blocks@,
                        self.nodes@,
                        rid as int,
                        gsn,
                        context as int,
                    ));
                }
                rid
            },
            SyntaxNode::Return { value, line } => {
                let ghost gval = value;
                let (child, kept) = match value {
                    Some(inner) => {
                        proof {
                            assert(decreases_to!(gsn => gval));
                            assert(decreases_to!(gval => inner));
                        }
                        let c = self.add_node(*inner, context);
                        (Some(c), Some(Box::new(SyntaxNode::Placeholder)))
                    },
                    None => (None, None),
                };
                let ghost ba = self.blocks@;
                let ghost na = self.nodes@;
                let sn = SyntaxNode::Return { value: kept, line };
                let rid = self.push_node(
                    CodeNode {
                        syntax_node: sn,
                        code: None,
                        children: NodeContent::Optional { child },
                        context,
                    },
                );
                proof {
                    match (child, gval) {
                        (Some(c), Some(gi)) => {
                            lemma_node_matches_grow(
                                ba,
                                na,
                                self.blocks@,
                                self.nodes@,
                                c as int,
                                *gi,
                                context as int,
                                -1,
                            );
                        },
                        _ => (),
                    }
                    assert(node_matches(
                        self.blocks@,
                        self.nodes@,
                        rid as int,
                        gsn,
                        context as int,
                    ));
                }
                rid
            },
            SyntaxNode::List { elements, line } => {
                let ghost gelems = elements;
                let ghost orig = elements@;
                let mut elements = elements;
                let total = elements.len();
                let mut children: Vec<usize> = Vec::new();
                let mut placeholders: Vec<SyntaxNode> = Vec::new();
                let mut taken: usize = 0;
                while elements.len() > 0
                    invariant
                        self.arena_wf(),
                        context < self.blocks@.len(),
                        self.blocks@.len() >= old(self).blocks@.len(),
                        self.nodes@.len() >= old(self).nodes@.len(),
                        forall|b: int|
                            0 <= b < old(self).blocks@.len() ==> self.blocks@[b] == old(
                                self,
                            ).blocks@[b],
                        forall|n: int|
                            0 <= n < old(self).nodes@.len() ==> self.nodes@[n] == old(
                                self,
                            ).nodes@[n],
                        self.root == old(self).root,
                        taken <= total,
                        total == orig.len(),
                        elements@ == orig.skip(taken as int),
                        orig == gelems@,
                        gsn == (SyntaxNode::List { elements: gelems, line }),
                        placeholders@.len() == taken,
                        children@.len() == taken,
                        forall|k: int|
                            0 <= k < children@.len() ==> (#[trigger] children@[k])
                                < self.nodes@.len(),
                        forall|k: int|
                            0 <= k < taken ==> node_matches(
                                self.blocks@,
                                self.nodes@,
                                (#[trigger] children@[k]) as int,
                                orig[k],
                                context as int,
                            ),
                    decreases elements@.len(),
                {
                    proof {
                        assert(elements@[0] == orig[taken as int]);
                    }
                    let element = elements.remove(0);
                    proof {
                        assert(elements@ =~= orig.skip(taken as int + 1));
                        assert(gsn->List_elements == gelems);
                        assert(decreases_to!(gsn => gsn->List_elements));
                        assert(decreases_to!(gelems => gelems@));
                        assert(decreases_to!(gelems@ => gelems@[taken as int]));
                        assert(element == gelems@[taken as int]);
                    }
                    let ghost bpre = self.blocks@;
                    let ghost npre = self.nodes@;
                    let c = self.add_node(element, context);
                    proof {
                        assert forall|k: int| 0 <= k < taken implies node_matches(
                            self.blocks@,
                            self.nodes@,
                            (#[trigger] children@[k]) as int,
                            orig[k],
                            context as int,
                        ) by {
                            lemma_node_matches_grow(
                                bpre,
                                npre,
                                self.blocks@,
                                self.nodes@,
                                children@[k] as int,
                                orig[k],
                                context as int,
                                -1,
                            );
                        }
                    }
                    children.push(c);
                    placeholders.push(SyntaxNode::Placeholder);
                    taken = taken + 1;
                }
                let ghost bpost = self.blocks@;
                let ghost npost = self.nodes@;
                let ghost gcs = children@;
                let sn = SyntaxNode::List { elements: placeholders, line };
                let rid = self.push_node(
                    CodeNode {
                        syntax_node: sn,
                        code: None,
                        children: NodeContent::ListLike { children },
                        context,
                    },
                );
                proof {
                    assert forall|k: int| 0 <= k < orig.len() implies node_matches(
                        self.blocks@,
                        self.nodes@,
                        (#[trigger] gcs[k]) as int,
                        orig[k],
                        context as int,
                    ) by {
                        lemma_node_matches_grow(
                            bpost,
                            npost,
                            self.blocks@,
                            self.nodes@,
                            gcs[k] as int,
                            orig[k],
                            context as int,
                            -1,
                        );
                    }
                    assert(node_matches(
                        self.blocks@,
                        self.nodes@,
                        rid as int,
                        gsn,
                        context as int,
                    ));
                }
                rid
            },
            SyntaxNode::Call { function, arguments, line } => {
                let ghost gfun = *function;
                let ghost gargs = arguments;
                let ghost orig = arguments@;
                let f = self.add_node(*function, context);
                let mut children: Vec<usize> = Vec::new();
                children.push(f);
                let mut arguments = arguments;
                let total = arguments.len();
                let mut placeholders: Vec<SyntaxNode> = Vec::new();
                let mut taken: usize = 0;
                while arguments.len() > 0
                    invariant
                        self.arena_wf(),
                        context < self.blocks@.len(),
                        self.blocks@.len() >= old(self).blocks@.len(),
                        self.nodes@.len() >= old(self).nodes@.len(),
                        forall|b: int|
                            0 <= b < old(self).blocks@.len() ==> self.blocks@[b] == old(
                                self,
                            ).blocks@[b],
                        forall|n: int|
                            0 <= n < old(self).nodes@.len() ==> self.nodes@[n] == old(
                                self,
                            ).nodes@[n],
                        self.root == old(self).root,
                        taken <= total,
                        total == orig.len(),
                        arguments@ == orig.skip(taken as int),
                        orig == gargs@,
                        gsn->Call_arguments == gargs,
                        placeholders@.len() == taken,
                        children@.len() == 1 + taken,
                        forall|k: int|
                            0 <= k < children@.len() ==> (#[trigger] children@[k])
                                < self.nodes@.len(),
                        node_matches(
                            self.blocks@,
                            self.nodes@,
                            children@[0] as int,
                            gfun,
                            context as int,
                        ),
                        forall|k: int|
                            0 <= k < taken ==> node_matches(
                                self.blocks@,
                                self.nodes@,
                                (#[trigger] children@[k + 1]) as int,
                                orig[k],
                                context as int,
                            ),
                    decreases arguments@.len(),
                {
                    proof {
                        assert(arguments@[0] == orig[taken as int]);
                    }
                    let argument = arguments.remove(0);
                    proof {
                        assert(arguments@ =~= orig.skip(taken as int + 1));
                        assert(decreases_to!(gsn => gsn->Call_arguments));
                        assert(decreases_to!(gargs => gargs@));
                        assert(decreases_to!(gargs@ => gargs@[taken as int]));
                        assert(argument == gargs@[taken as int]);
                    }
                    let ghost bpre = self.blocks@;
                    let ghost npre = self.nodes@;
                    let c = self.add_node(argument, context);
                    proof {
                        lemma_node_matches_grow(
                            bpre,
                            npre,
                            self.blocks@,
                            self.nodes@,
                            children@[0] as int,
                            gfun,
                            context as int,
                            -1,
                        );
                        assert forall|k: int| 0 <= k < taken implies node_matches(
                            self.blocks@,
                            self.nodes@,
                            (#[trigger] children@[k + 1]) as int,
                            orig[k],
                            context as int,
                        ) by {
                            lemma_node_matches_grow(
                                bpre,
                                npre,
                                self.blocks@,
                                self.nodes@,
                                children@[k + 1] as int,
                                orig[k],
                                context as int,
                                -1,
                            );
                        }
                    }
                    children.push(c);
                    placeholders.push(SyntaxNode::Placeholder);
                    taken = taken + 1;
                }
                let ghost bpost = self.blocks@;
                let ghost npost = self.nodes@;
                let ghost gcs = children@;
                let sn = SyntaxNode::Call {
                    function: Box::new(SyntaxNode::Placeholder),
                    arguments: placeholders,
                    line,
                };
                let rid = self.push_node(
                    CodeNode {
                        syntax_node: sn,
                        code: None,
                        children: NodeContent::ListLike { children },
                        context,
                    },
                );
                proof {
                    lemma_node_matches_grow(
                        bpost,
                        npost,
                        self.blocks@,
                        self.nodes@,
                        gcs[0] as int,
                        gfun,
                        context as int,
                        -1,
                    );
                    assert forall|k: int| 0 <= k < orig.len() implies node_matches(
                        self.blocks@,
                        self.nodes@,
                        (#[trigger] gcs[k + 1]) as int,
                        orig[k],
                        context as int,
                    ) by {
                        lemma_node_matches_grow(
                            bpost,
                            npost,
                            self.blocks@,
                            self.nodes@,
                            gcs[k + 1] as int,
                            orig[k],
                            context as int,
                            -1,
                        );
                    }
                    assert(node_matches(
                        self.blocks@,
                        self.nodes@,
                        rid as int,
                        gsn,
                        context as int,
                    ));
                }
                rid
            },
            SyntaxNode::Scope { statements, line } => {
                let ghost gstmts = statements.statements@;
                let body_id = self.add_block(statements, Some(context));
                let ghost ba = self.blocks@;
                let ghost na = self.nodes@;
                let sn = SyntaxNode::Scope { statements: SyntaxTree { statements: Vec::new() }, line };
                let rid = self.push_node(
                    CodeNode {
                        syntax_node: sn,
                        code: None,
                        children: NodeContent::Scope { body: body_id },
                        context,
                    },
                );
                proof {
                    lemma_block_matches_grow(
                        ba,
                        na,
                        self.blocks@,
                        self.nodes@,
                        body_id as int,
                        gstmts,
                        Some(context),
                        -1,
                    );
                    assert(node_matches(
                        self.blocks@,
                        self.nodes@,
                        rid as int,
                        gsn,
                        context as int,
                    ));
                }
                rid
            },
            SyntaxNode::Else { body, line } => {
                let ghost gstmts = body.statements@;
                let body_id = self.add_block(body, Some(context));
                let ghost ba = self.blocks@;
                let ghost na = self.nodes@;
                let sn = SyntaxNode::Else { body: SyntaxTree { statements: Vec::new() }, line };
                let rid = self.push_node(
                    CodeNode {
                        syntax_node: sn,
                        code: None,
                        children: NodeContent::Scope { body: body_id },
                        context,
                    },
                );
                proof {
                    lemma_block_matches_grow(
                        ba,
                        na,
                        self.blocks@,
                        self.nodes@,
                        body_id as int,
                        gstmts,
                        Some(context),
                        -1,
                    );
                    assert(node_matches(
                        self.blocks@,
                        self.nodes@,
                        rid as int,
                        gsn,
                        context as int,
                    ));
                }
                rid
            },
            SyntaxNode::Fun { name, params, body, line } => {
                let ghost gstmts = body.statements@;
                let body_id = self.add_block(body, Some(context));
                let ghost ba = self.blocks@;
                let ghost na = self.nodes@;
                let sn = SyntaxNode::Fun {
                    name,
                    params: Vec::new(),
                    body: SyntaxTree { statements: Vec::new() },
                    line,
                };
                let rid = self.push_node(
                    CodeNode {
                        syntax_node: sn,
                        code: None,
                        children: NodeContent::Function { params, body: body_id },
                        context,
                    },
                );
                proof {
                    lemma_block_matches_grow(
                        ba,
                        na,
                        self.blocks@,
                        self.nodes@,
                        body_id as int,
                        gstmts,
                        Some(context),
                        -1,
                    );
                    assert(node_matches(
                        self.blocks@,
                        self.nodes@,
                        rid as int,
                        gsn,
                        context as int,
                    ));
                }
                rid
            },
            SyntaxNode::While {  condition, body, line } => {
                let ghost gc = *condition;
                let ghost gstmts = body.statements@;
                let c = self.add_node(*condition, context);
                let ghost bc = self.blocks@;
                let ghost nc = self.nodes@;
                let body_id = self.add_block(body, Some(context));
                let ghost bbk = self.blocks@;
                let ghost nbk = self.nodes@;
                let sn = SyntaxNode::While {
                    
                    condition: Box::new(SyntaxNode::Placeholder),
                    body: SyntaxTree { statements: Vec::new() },
                    line,
                };
                let rid = self.push_node(
                    CodeNode {
                        syntax_node: sn,
                        code: None,
                        children: NodeContent::LoopLike { condition: c, body: body_id },
                        context,
                    },
                );
                proof {
                    lemma_node_matches_grow(
                        bc,
                        nc,
                        self.blocks@,
                        self.nodes@,
                        c as int,
                        gc,
                        context as int,
                        -1,
                    );
                    lemma_block_matches_grow(
                        bbk,
                        nbk,
                        self.blocks@,
                        self.nodes@,
                        body_id as int,
                        gstmts,
                        Some(context),
                        -1,
                    );
                    assert(node_matches(
                        self.blocks@,
                        self.nodes@,
                        rid as int,
                        gsn,
                        context as int,
                    ));
                }
                rid
            },
            SyntaxNode::For { variable, iterable, body, line } => {
                let ghost gc = *iterable;
                let ghost gstmts = body.statements@;
                let c = self.add_node(*iterable, context);
                let ghost bc = self.blocks@;
                let ghost nc = self.nodes@;
                let body_id = self.add_block(body, Some(context));
                let ghost bbk = self.blocks@;
                let ghost nbk = self.nodes@;
                let sn = SyntaxNode::For {
                    variable,
                    iterable: Box::new(SyntaxNode::Placeholder),
                    body: SyntaxTree { statements: Vec::new() },
                    line,
                };
                let rid = self.push_node(
                    CodeNode {
                        syntax_node: sn,
                        code: None,
                        children: NodeContent::LoopLike { condition: c, body: body_id },
                        context,
                    },
                );
                proof {
                    lemma_node_matches_grow(
                        bc,
                        nc,
                        self.blocks@,
                        self.nodes@,
                        c as int,
                        gc,
                        context as int,
                        -1,
                    );
                    lemma_block_matches_grow(
                        bbk,
                        nbk,
                        self.blocks@,
                        self.nodes@,
                        body_id as int,
                        gstmts,
                        Some(context),
                        -1,
                    );
                    assert(node_matches(
                        self.blocks@,
                        self.nodes@,
                        rid as int,
                        gsn,
                        context as int,
                    ));
                }
                rid
            },
            SyntaxNode::If { condition, body, else_node, line } => {
                let ghost gc = *condition;
                let ghost gstmts = body.statements@;
                let ghost gelse = else_node;
                let c = self.add_node(*condition, context);
                let ghost bc = self.blocks@;
                let ghost nc = self.nodes@;
                let body_id = self.add_block(body, Some(context));
                let ghost bbk = self.blocks@;
                let ghost nbk = self.nodes@;
                let else_id = match else_node {
                    Some(e) => {
                        proof {
                            assert(decreases_to!(gsn => gelse));
                            assert(decreases_to!(gelse => e));
                        }
                        Some(self.add_node(*e, context))
                    },
                    None => None,
                };
                let ghost be = self.blocks@;
                let ghost ne = self.nodes@;
                let sn = SyntaxNode::If {
                    condition: Box::new(SyntaxNode::Placeholder),
                    body: SyntaxTree { statements: Vec::new() },
                    else_node: None,
                    line,
                };
                let rid = self.push_node(
                    CodeNode {
                        syntax_node: sn,
                        code: None,
                        children: NodeContent::IfLike {
                            condition: c,
                            body: body_id,
                            else_node: else_id,
                        },
                        context,
                    },
                );
                proof {
                    lemma_node_matches_grow(
                        bc,
                        nc,
                        self.blocks@,
                        self.nodes@,
                        c as int,
                        gc,
                        context as int,
                        -1,
                    );
                    lemma_block_matches_grow(
                        bbk,
                        nbk,
                        self.blocks@,
                        self.nodes@,
                        body_id as int,
                        gstmts,
                        Some(context),
                        -1,
                    );
                    match (else_id, gelse) {
                        (Some(eid), Some(gen)) => {
                            lemma_node_matches_grow(
                                be,
                                ne,
                                self.blocks@,
                                self.nodes@,
                                eid as int,
                                *gen,
                                context as int,
                                -1,
                            );
                        },
                        _ => (),
                    }
                    assert(node_matches(
                        self.blocks@,
                        self.nodes@,
                        rid as int,
                        gsn,
                        context as int,
                    ));
                }
                rid
            },
            SyntaxNode::Elif { condition, body, else_node, line } => {
                let ghost gc = *condition;
                let ghost gstmts = body.statements@;
                let ghost gelse = else_node;
                let c = self.add_node(*condition, context);
                let ghost bc = self.blocks@;
                let ghost nc = self.nodes@;
                let body_id = self.add_block(body, Some(context));
                let ghost bbk = self.blocks@;
                let ghost nbk = self.nodes@;
                let else_id = match else_node {
                    Some(e) => {
                        proof {
                            assert(decreases_to!(gsn => gelse));
                            assert(decreases_to!(gelse => e));
                        }
                        Some(self.add_node(*e, context))
                    },
                    None => None,
                };
                let ghost be = self.blocks@;
                let ghost ne = self.nodes@;
                let sn = SyntaxNode::Elif {
                    condition: Box::new(SyntaxNode::Placeholder),
                    body: SyntaxTree { statements: Vec::new() },
                    else_node: None,
                    line,
                };
                let rid = self.push_node(
                    CodeNode {
                        syntax_node: sn,
                        code: None,
                        children: NodeContent::IfLike {
                            condition: c,
                            body: body_id,
                            else_node: else_id,
                        },
                        context,
                    },
                );
                proof {
                    lemma_node_matches_grow(
                        bc,
                        nc,
                        self.blocks@,
                        self.nodes@,
                        c as int,
                        gc,
                        context as int,
                        -1,
                    );
                    lemma_block_matches_grow(
                        bbk,
                        nbk,
                        self.blocks@,
                        self.nodes@,
                        body_id as int,
                        gstmts,
                        Some(context),
                        -1,
                    );
                    match (else_id, gelse) {
                        (Some(eid), Some(gen)) => {
                            lemma_node_matches_grow(
                                be,
                                ne,
                                self.blocks@,
                                self.nodes@,
                                eid as int,
                                *gen,
                                context as int,
                                -1,
                            );
                        },
                        _ => (),
                    }
                    assert(node_matches(
                        self.blocks@,
                        self.nodes@,
                        rid as int,
                        gsn,
                        context as int,
                    ));
                }
                rid
            },
            other => {
                // leaves: literals, identifiers, declarations, break/continue
                let rid = self.push_node(
                    CodeNode {
                        syntax_node: other,
                        code: None,
                        children: NodeContent::Leaf,
                        context,
                    },
                );
                proof {
                    assert(node_matches(
                        self.blocks@,
                        self.nodes@,
                        rid as int,
                        gsn,
                        context as int,
                    ));
                }
                rid
            },
        }
    }

    /// Append a node whose children are the two given ones, in order.
    fn push_pair_node(&mut self, sn: SyntaxNode, a: usize, b: usize, context: usize) -> (res:
        usize)
        requires
            old(self).arena_wf(),
            context < old(self).blocks@.len(),
            a < old(self).nodes@.len(),
            b < old(self).nodes@.len(),
        ensures
            final(self).arena_wf(),
            res == old(self).nodes@.len(),
            final(self).blocks@ == old(self).blocks@,
            final(self).nodes@.len() == old(self).nodes@.len() + 1,
            forall|n: int|
                0 <= n < old(self).nodes@.len() ==> final(self).nodes@[n] == old(self).nodes@[n],
            final(self).root == old(self).root,
            final(self).nodes@.last().syntax_node == sn,
            final(self).nodes@.last().code is None,
            final(self).nodes@.last().context == context,
            list_children(final(self).nodes@.last().children) == Some(seq![a, b]),
    {
        let mut children: Vec<usize> = Vec::new();
        children.push(a);
        children.push(b);
        proof {
            assert(children@ =~= seq![a, b]);
        }
        self.push_node(
            CodeNode {
                syntax_node: sn,
                code: None,
                children: NodeContent::ListLike { children },
                context,
            },
        )
    }

    /// Append one well-formed node to the arena.
    fn push_node(&mut self, node: CodeNode) -> (res: usize)
        requires
            old(self).arena_wf(),
            Self::node_wf(node, old(self).blocks@.len() as int, old(self).nodes@.len() as int),
        ensures
            final(self).arena_wf(),
            res == old(self).nodes@.len(),
            final(self).blocks@ == old(self).blocks@,
            final(self).nodes@.len() == old(self).nodes@.len() + 1,
            forall|n: int|
                0 <= n < old(self).nodes@.len() ==> final(self).nodes@[n] == old(self).nodes@[n],
            final(self).nodes@.last() == node,
            final(self).root == old(self).root,
    {
        let id = self.nodes.len();
        self.nodes.push(node);
        proof {
            let blocks_len = self.blocks@.len() as int;
            let nodes_len = self.nodes@.len() as int;
            assert forall|n: int| 0 <= n < nodes_len implies Self::node_wf(
                #[trigger] self.nodes@[n],
                blocks_len,
                nodes_len,
            ) by {
                if n < nodes_len - 1 {
                    assert(Self::node_wf(self.nodes@[n], blocks_len, nodes_len - 1));
                    lemma_node_wf_grow(self.nodes@[n], blocks_len, nodes_len - 1, nodes_len);
                } else {
                    lemma_node_wf_grow(node, blocks_len, nodes_len - 1, nodes_len);
                }
            }
        }
        id
    }

    /// A reference to a node of the arena.
    pub fn node(&self, node_id: usize) -> (res: &CodeNode)
        requires
            node_id < self.nodes@.len(),
        ensures
            *res == self.nodes@[node_id as int],
    {
        &self.nodes[node_id]
    }

    /// A reference to a block of the arena.
    pub fn block(&self, block_id: usize) -> (res: &CodeBlock)
        requires
            block_id < self.blocks@.len(),
        ensures
            *res == self.blocks@[block_id as int],
    {
        &self.blocks[block_id]
    }

    /// Classify what `name`, referenced from the given block, resolves to
    /// by walking the chain of containing blocks outward.
    pub fn get_symbol_id(&self, block_id: usize, name: &str) -> (res: Option<ScopeType>)
        requires
            self.wf(),
            block_id < self.blocks@.len(),
        ensures
            res == spec_resolve(self.blocks@, block_id as int, name@, 0),
    {
        let mut current = block_id;
        let mut depth: usize = 0;
        loop
            invariant
                self.wf(),
                current < self.blocks@.len(),
                depth + current <= block_id,
                spec_resolve(self.blocks@, block_id as int, name@, 0) == spec_resolve(
                    self.blocks@,
                    current as int,
                    name@,
                    depth as int,
                ),
            decreases current,
        {
            let block = &self.blocks[current];
            match block.get_local(name) {
                Some(id) => {
                    if depth == 0 {
                        return Some(ScopeType::Local { local_id: id });
                    } else if block.parent_context.is_none() {
                        return Some(ScopeType::Global { global_id: id });
                    } else {
                        return Some(ScopeType::Outer { local_id: id, scope_offset: depth });
                    }
                },
                None => {
                    match block.parent_context {
                        Some(p) => {
                            proof {
                                assert(Self::block_wf(
                                    self.blocks@[current as int],
                                    current as int,
                                    self.nodes@.len() as int,
                                ));
                            }
                            current = p;
                            depth = depth + 1;
                        },
                        None => {
                            return None;
                        },
                    }
                },
            }
        }
    }
}

/// A well-formed node stays well formed as the arenas grow.
proof fn lemma_node_wf_grow(node: CodeNode, blocks_len: int, nl1: int, nl2: int)
    requires
        Jit::node_wf(node, blocks_len, nl1),
        nl1 <= nl2,
    ensures
        Jit::node_wf(node, blocks_len, nl2),
{
    match node.children {
        NodeContent::ListLike { children } => {
            assert forall|k: int| 0 <= k < children@.len() implies #[trigger] children@[k]
                < nl2 by {
                assert(children@[k] < nl1);
            }
        },
        _ => (),
    }
}


/// The load instruction a resolved identifier compiles to: the addressing
/// mode picks the opcode, and the id (and, for an outer reference, the
/// level count) follows as an 8-byte word.
pub open spec fn spec_identifier_code(st: ScopeType) -> Seq<u8> {
    match st {
        ScopeType::Local { local_id } => seq![OpCode::LoadLocalRef.spec_byte()]
            + spec_raw_from_usize(local_id),
        ScopeType::Global { global_id } => seq![OpCode::LoadGlobalRef.spec_byte()]
            + spec_raw_from_usize(global_id),
        ScopeType::Outer { local_id, scope_offset } => seq![OpCode::LoadOffsetRef.spec_byte()]
            + spec_raw_from_usize(local_id) + spec_raw_from_usize(scope_offset),
    }
}

/// The bytecode a function literal compiles to: reserve a heap cell, load a
/// reference to it under the declared local id, build the function value
/// around the compiled-node handle, and store it through the reference.
pub open spec fn spec_fun_code(local_id: usize, node_id: usize) -> Seq<u8> {
    seq![OpCode::Allocate.spec_byte(), OpCode::LoadLocalRef.spec_byte()] + spec_raw_from_usize(
        local_id,
    ) + seq![OpCode::MakeFunction.spec_byte()] + spec_raw_from_usize(node_id)
        + seq![OpCode::StoreTop.spec_byte()]
}

/// How declaring `name` changes a block: one more dense binding, `name` now
/// bound to the fresh id, every other name bound as before.
pub open spec fn spec_declared(oldb: CodeBlock, newb: CodeBlock, name: Seq<char>) -> bool {
    &&& newb.nodes == oldb.nodes
    &&& newb.parent_context == oldb.parent_context
    &&& newb.local_symbols@.len() == oldb.local_symbols@.len() + 1
    &&& spec_scope_get(newb.local_symbols@, name) == Some(oldb.local_symbols@.len() as usize)
    &&& forall|n: Seq<char>|
        n != name ==> #[trigger] spec_scope_get(newb.local_symbols@, n) == spec_scope_get(
            oldb.local_symbols@,
            n,
        )
}

impl Jit {
    /// Compile one node on demand: an idempotent, per-node step. A cached
    /// node is left alone. A pure construct gets its fixed instruction
    /// sequence. An identifier resolves through the scope chain and gets the
    /// load instruction of its addressing mode, or aborts compilation as an
    /// undeclared symbol. `let` and function literals declare their name in
    /// the containing block and get their allocation code. A construct not
    /// wired to code generation aborts compilation as an invalid statement.
    pub fn compile(&mut self, node_id: usize) -> (res: Result<(), CompileError>)
        requires
            old(self).wf(),
            node_id < old(self).nodes@.len(),
        ensures
            final(self).wf(),
            final(self).nodes@.len() == old(self).nodes@.len(),
            final(self).blocks@.len() == old(self).blocks@.len(),
            final(self).root == old(self).root,
            forall|k: int|
                0 <= k < old(self).nodes@.len() && k != node_id ==> final(self).nodes@[k] == old(
                    self,
                ).nodes@[k],
            final(self).nodes@[node_id as int].syntax_node == old(
                self,
            ).nodes@[node_id as int].syntax_node,
            final(self).nodes@[node_id as int].children == old(
                self,
            ).nodes@[node_id as int].children,
            final(self).nodes@[node_id as int].context == old(self).nodes@[node_id as int].context,
            res is Ok ==> final(self).nodes@[node_id as int].code is Some,
            old(self).nodes@[node_id as int].code is Some ==> res is Ok && *final(self) == *old(self),
            ({
                let node = old(self).nodes@[node_id as int];
                let newnode = final(self).nodes@[node_id as int];
                node.code is None ==> {
                    &&& (match spec_pure_code(node.syntax_node) {
                        Some(c) => res is Ok && final(self).blocks@ == old(self).blocks@ && (
                        newnode.code matches Some(cv) && cv@ == c),
                        None => true,
                    })
                    &&& (node.syntax_node matches SyntaxNode::Identifier { value, line } ==> {
                        match spec_resolve(old(self).blocks@, node.context as int, value@, 0) {
                            Some(st) => res is Ok && final(self).blocks@ == old(self).blocks@ && (
                            newnode.code matches Some(cv) && cv@ == spec_identifier_code(st)),
                            None => (res matches Err(e)
                                && e.kind matches CompileErrorKind::UndeclaredSymbol { symbol }
                                && symbol@ == value@ && e.line == line) && *final(self) == *old(self),
                        }
                    })
                    &&& (node.syntax_node matches SyntaxNode::Let { symbol_name, .. } ==> res is Ok
                        && (newnode.code matches Some(cv) && cv@ == seq![
                        OpCode::Allocate.spec_byte(),
                    ]) && spec_declared(
                        old(self).blocks@[node.context as int],
                        final(self).blocks@[node.context as int],
                        symbol_name@,
                    ) && (forall|b: int|
                        0 <= b < old(self).blocks@.len() && b != node.context
                            ==> final(self).blocks@[b] == old(self).blocks@[b]))
                    &&& (node.syntax_node matches SyntaxNode::Fun { name, .. } ==> res is Ok && (
                    newnode.code matches Some(cv) && cv@ == spec_fun_code(
                        old(self).blocks@[node.context as int].local_symbols@.len() as usize,
                        node_id,
                    )) && spec_declared(
                        old(self).blocks@[node.context as int],
                        final(self).blocks@[node.context as int],
                        name@,
                    ) && (forall|b: int|
                        0 <= b < old(self).blocks@.len() && b != node.context
                            ==> final(self).blocks@[b] == old(self).blocks@[b]))
                    &&& (spec_pure_code(node.syntax_node) is None && !spec_is_context_dependent(
                        node.syntax_node,
                    ) ==> (res matches Err(e) && e.kind == CompileErrorKind::InvalidStatement
                        && e.line == node.syntax_node.spec_line()) && *final(self) == *old(self))
                }
            }),
    {
        if self.nodes[node_id].code.is_some() {
            return Ok(());
        }
        let context = self.nodes[node_id].context;
        let decl_name: Option<(String, bool)> = match &self.nodes[node_id].syntax_node {
            SyntaxNode::Let { symbol_name, .. } => Some((symbol_name.clone(), false)),
            SyntaxNode::Fun { name, .. } => Some((name.clone(), true)),
            _ => None,
        };
        if let Some((name, is_fun)) = decl_name {
            let block = vstd::std_specs::vec::vec_index_mut(&mut self.blocks, context);
            let local_id = block.declare_local(name.as_str());
            let code: ByteCode = if is_fun {
                let mut c: Vec<u8> = Vec::new();
                c.push(OpCode::Allocate.to_byte());
                c.push(OpCode::LoadLocalRef.to_byte());
                let mut id_bytes = raw_from_usize(local_id);
                c.append(&mut id_bytes);
                c.push(OpCode::MakeFunction.to_byte());
                let mut handle_bytes = raw_from_usize(node_id);
                c.append(&mut handle_bytes);
                c.push(OpCode::StoreTop.to_byte());
                proof {
                    assert(c@ =~= spec_fun_code(local_id, node_id));
                }
                c
            } else {
                let mut c: Vec<u8> = Vec::new();
                c.push(OpCode::Allocate.to_byte());
                proof {
                    assert(c@ =~= seq![OpCode::Allocate.spec_byte()]);
                }
                c
            };
            let node = vstd::std_specs::vec::vec_index_mut(&mut self.nodes, node_id);
            node.code = Some(code);
            return Ok(());
        }
        let code_result: Result<ByteCode, CompileError> = match &self.nodes[node_id].syntax_node {
            SyntaxNode::Add { .. } => Ok(one_byte_code(OpCode::Add)),
            SyntaxNode::Sub { .. } => Ok(one_byte_code(OpCode::Sub)),
            SyntaxNode::Mul { .. } => Ok(one_byte_code(OpCode::Mul)),
            SyntaxNode::Div { .. } => Ok(one_byte_code(OpCode::Div)),
            SyntaxNode::Mod { .. } => Ok(one_byte_code(OpCode::Mod)),
            SyntaxNode::Assign { .. } => Ok(one_byte_code(OpCode::StoreTop)),
            SyntaxNode::AssignAdd { .. } => Ok(two_byte_code(OpCode::Add, OpCode::StoreTop)),
            SyntaxNode::AssignSub { .. } => Ok(two_byte_code(OpCode::Sub, OpCode::StoreTop)),
            SyntaxNode::AssignMul { .. } => Ok(two_byte_code(OpCode::Mul, OpCode::StoreTop)),
            SyntaxNode::AssignDiv { .. } => Ok(two_byte_code(OpCode::Div, OpCode::StoreTop)),
            SyntaxNode::AssignMod { .. } => Ok(two_byte_code(OpCode::Mod, OpCode::StoreTop)),
            SyntaxNode::And { .. } => Ok(one_byte_code(OpCode::And)),
            SyntaxNode::Or { .. } => Ok(one_byte_code(OpCode::Or)),
            SyntaxNode::Not { .. } => Ok(one_byte_code(OpCode::Not)),
            SyntaxNode::Less { .. } => Ok(one_byte_code(OpCode::Less)),
            SyntaxNode::Greater { .. } => Ok(one_byte_code(OpCode::Greater)),
            SyntaxNode::LessEqual { .. } => Ok(one_byte_code(OpCode::LessEqual)),
            SyntaxNode::GreaterEqual { .. } => Ok(one_byte_code(OpCode::GreaterEqual)),
            SyntaxNode::Equal { .. } => Ok(one_byte_code(OpCode::Equal)),
            SyntaxNode::NotEqual { .. } => Ok(one_byte_code(OpCode::NotEqual)),
            SyntaxNode::Call { arguments, .. } => {
                let mut c: Vec<u8> = Vec::new();
                c.push(OpCode::LoadConst.to_byte());
                c.push(TypeCode::Nil.to_byte());
                c.push(OpCode::CallFunction.to_byte());
                c.push(#[verifier::truncate] (arguments.len() as u8));
                proof {
                    assert(c@ =~= spec_pure_code(
                        old(self).nodes@[node_id as int].syntax_node,
                    ).unwrap());
                }
                Ok(c)
            },
            SyntaxNode::Int { value, .. } => {
                let mut c: Vec<u8> = Vec::new();
                c.push(OpCode::LoadConst.to_byte());
                let mut payload = crate::byte_code::obj_from_int(*value);
                c.append(&mut payload);
                Ok(c)
            },
            SyntaxNode::Float { bits, .. } => {
                let mut c: Vec<u8> = Vec::new();
                c.push(OpCode::LoadConst.to_byte());
                let mut payload = crate::byte_code::obj_from_float(*bits);
                c.append(&mut payload);
                Ok(c)
            },
            SyntaxNode::String { value, .. } => {
                let mut c: Vec<u8> = Vec::new();
                c.push(OpCode::LoadConst.to_byte());
                let mut payload = crate::byte_code::obj_from_string(value.as_str());
                c.append(&mut payload);
                Ok(c)
            },
            SyntaxNode::Boolean { value, .. } => {
                let mut c: Vec<u8> = Vec::new();
                c.push(OpCode::LoadConst.to_byte());
                let mut payload = crate::byte_code::obj_from_boolean(*value);
                c.append(&mut payload);
                Ok(c)
            },
            SyntaxNode::List { elements, .. } => {
                let mut c: Vec<u8> = Vec::new();
                c.push(OpCode::MakeList.to_byte());
                let mut count = raw_from_usize(elements.len());
                c.append(&mut count);
                Ok(c)
            },
            SyntaxNode::NoneLiteral { .. } => {
                let mut c: Vec<u8> = Vec::new();
                c.push(OpCode::LoadConst.to_byte());
                c.push(TypeCode::Nil.to_byte());
                proof {
                    assert(c@ =~= seq![OpCode::LoadConst.spec_byte(), TypeCode::Nil.spec_byte()]);
                }
                Ok(c)
            },
            SyntaxNode::Return { value, .. } => {
                if value.is_some() {
                    Ok(one_byte_code(OpCode::ReturnValue))
                } else {
                    Ok(one_byte_code(OpCode::Return))
                }
            },
            SyntaxNode::Scope { .. } => Ok(one_byte_code(OpCode::PushScope)),
            SyntaxNode::Else { .. } => Ok(one_byte_code(OpCode::PushScope)),
            SyntaxNode::Parenthesis { .. } => {
                let c: Vec<u8> = Vec::new();
                Ok(c)
            },
            SyntaxNode::Identifier { value, line } => {
                match self.get_symbol_id(context, value.as_str()) {
                    Some(ScopeType::Local { local_id }) => {
                        let mut c: Vec<u8> = Vec::new();
                        c.push(OpCode::LoadLocalRef.to_byte());
                        let mut id_bytes = raw_from_usize(local_id);
                        c.append(&mut id_bytes);
                        proof {
                            assert(c@ =~= spec_identifier_code(
                                ScopeType::Local { local_id },
                            ));
                        }
                        Ok(c)
                    },
                    Some(ScopeType::Global { global_id }) => {
                        let mut c: Vec<u8> = Vec::new();
                        c.push(OpCode::LoadGlobalRef.to_byte());
                        let mut id_bytes = raw_from_usize(global_id);
                        c.append(&mut id_bytes);
                        proof {
                            assert(c@ =~= spec_identifier_code(
                                ScopeType::Global { global_id },
                            ));
                        }
                        Ok(c)
                    },
                    Some(ScopeType::Outer { local_id, scope_offset }) => {
                        let mut c: Vec<u8> = Vec::new();
                        c.push(OpCode::LoadOffsetRef.to_byte());
                        let mut id_bytes = raw_from_usize(local_id);
                        c.append(&mut id_bytes);
                        let mut offset_bytes = raw_from_usize(scope_offset);
                        c.append(&mut offset_bytes);
                        proof {
                            assert(c@ =~= spec_identifier_code(
                                ScopeType::Outer { local_id, scope_offset },
                            ));
                        }
                        Ok(c)
                    },
                    None => Err(undeclared_symbol(value.as_str(), *line)),
                }
            },
            SyntaxNode::Let { .. } => vstd::pervasive::unreached(),
            SyntaxNode::Fun { .. } => vstd::pervasive::unreached(),
            other => Err(invalid_statement(other.get_line())),
        };
        match code_result {
            Ok(code) => {
                let node = vstd::std_specs::vec::vec_index_mut(&mut self.nodes, node_id);
                node.code = Some(code);
                Ok(())
            },
            Err(e) => Err(e),
        }
    }

    /// The cached bytecode of a compiled node.
    pub fn node_code(&self, node_id: usize) -> (res: &ByteCode)
        requires
            node_id < self.nodes@.len(),
            self.nodes@[node_id as int].code is Some,
        ensures
            Some(*res) == self.nodes@[node_id as int].code,
    {
        match &self.nodes[node_id].code {
            Some(code) => code,
            None => vstd::pervasive::unreached(),
        }
    }
}

/// A fresh one-instruction code vector.
fn one_byte_code(op: OpCode) -> (res: ByteCode)
    ensures
        res@ == seq![op.spec_byte()],
{
    let mut c: Vec<u8> = Vec::new();
    c.push(op.to_byte());
    proof {
        assert(c@ =~= seq![op.spec_byte()]);
    }
    c
}

/// A fresh two-instruction code vector.
fn two_byte_code(a: OpCode, b: OpCode) -> (res: ByteCode)
    ensures
        res@ == seq![a.spec_byte(), b.spec_byte()],
{
    let mut c: Vec<u8> = Vec::new();
    c.push(a.to_byte());
    c.push(b.to_byte());
    proof {
        assert(c@ =~= seq![a.spec_byte(), b.spec_byte()]);
    }
    c
}


/// The two halves agree byte for byte: the id a load instruction embeds is
/// decoded back as exactly the id resolution produced, for each addressing
/// mode, and a function literal's code carries back its local id and its
/// compiled-node handle.
pub proof fn lemma_operand_round_trip(st: ScopeType, local_id: usize, node_id: usize)
    ensures
        ({
            let code = spec_identifier_code(st);
            match st {
                ScopeType::Local { local_id: id } => code[0] == OpCode::LoadLocalRef.spec_byte()
                    && crate::byte_code::spec_raw_word(code, 1) as usize == id,
                ScopeType::Global { global_id: id } => code[0] == OpCode::LoadGlobalRef.spec_byte()
                    && crate::byte_code::spec_raw_word(code, 1) as usize == id,
                ScopeType::Outer { local_id: id, scope_offset } => code[0]
                    == OpCode::LoadOffsetRef.spec_byte() && crate::byte_code::spec_raw_word(code, 1)
                    as usize == id && crate::byte_code::spec_raw_word(code, 9) as usize
                    == scope_offset,
            }
        }),
        ({
            let code = spec_fun_code(local_id, node_id);
            &&& code[0] == OpCode::Allocate.spec_byte()
            &&& code[1] == OpCode::LoadLocalRef.spec_byte()
            &&& crate::byte_code::spec_raw_word(code, 2) as usize == local_id
            &&& code[10] == OpCode::MakeFunction.spec_byte()
            &&& crate::byte_code::spec_raw_word(code, 11) as usize == node_id
            &&& code[19] == OpCode::StoreTop.spec_byte()
        }),
{
    vstd::bytes::lemma_auto_spec_u64_to_from_le_bytes();
    lemma_usize_word_round_trip();
    match st {
        ScopeType::Local { local_id: id } => {
            assert(spec_identifier_code(st).subrange(1, 9) =~= vstd::bytes::spec_u64_to_le_bytes(
                id as u64,
            ));
        },
        ScopeType::Global { global_id: id } => {
            assert(spec_identifier_code(st).subrange(1, 9) =~= vstd::bytes::spec_u64_to_le_bytes(
                id as u64,
            ));
        },
        ScopeType::Outer { local_id: id, scope_offset } => {
            assert(spec_identifier_code(st).subrange(1, 9) =~= vstd::bytes::spec_u64_to_le_bytes(
                id as u64,
            ));
            assert(spec_identifier_code(st).subrange(9, 17) =~= vstd::bytes::spec_u64_to_le_bytes(
                scope_offset as u64,
            ));
        },
    }
    assert(spec_fun_code(local_id, node_id).subrange(2, 10) =~= vstd::bytes::spec_u64_to_le_bytes(
        local_id as u64,
    ));
    assert(spec_fun_code(local_id, node_id).subrange(11, 19) =~= vstd::bytes::spec_u64_to_le_bytes(
        node_id as u64,
    ));
}

/// A machine word holding an address or id reads back as the same value.
proof fn lemma_usize_word_round_trip()
    ensures
        forall|x: usize| #[trigger] ((x as u64) as usize) == x,
{
}

} // verus!
