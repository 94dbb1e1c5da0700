//! A compiled node: one syntax-tree construct, its lazily produced
//! bytecode, and the shape of the children the driver must execute before
//! it. A node's own instructions assume its children already left their
//! operands on the stack.

use vstd::prelude::*;
use vstd::string::StringSliceAdditionalSpecFns;

use crate::byte_code::{
    spec_obj_from_boolean, spec_obj_from_float, spec_obj_from_int, spec_raw_from_usize, ByteCode,
};
use crate::object::TypeCode;
use crate::runtime::op_code::OpCode;
use crate::syntax_node::SyntaxNode;

verus! {

/// The shape of a node's children in the arenas: which nodes or blocks the
/// driver visits before (or, for a function body, upon call of) the node.
pub enum NodeContent {
    /// No children to execute first.
    Leaf,
    /// A flat ordered list of child nodes, executed first.
    ListLike { children: Vec<usize> },
    /// An owned nested block: the node enters a scope, the block's
    /// statements run inside it.
    Scope { body: usize },
    /// A loop: its condition node and its owned body block.
    LoopLike { condition: usize, body: usize },
    /// A branch: its condition node, its owned body block and the optional
    /// alternate branch node.
    IfLike { condition: usize, body: usize, else_node: Option<usize> },
    /// A function literal: its parameter names and its owned body block,
    /// not walked until the function is called.
    Function { params: Vec<String>, body: usize },
    /// A single optional child, executed first when present.
    Optional { child: Option<usize> },
}

/// One compiled-or-compilable unit wrapping a syntax node. The stored
/// syntax node's children have been moved into the arena and replaced by
/// placeholders; counts and leaf payloads stay readable for code
/// generation. `context` names the block the node lexically stands in.
pub struct CodeNode {
    pub syntax_node: SyntaxNode,
    pub code: Option<ByteCode>,
    pub children: NodeContent,
    pub context: usize,
}

/// The bytecode a construct compiles to when it neither touches the symbol
/// table nor resolves a name; nothing for the constructs that do, and for
/// those not wired to code generation.
pub open spec fn spec_pure_code(sn: SyntaxNode) -> Option<Seq<u8>> {
    match sn {
        SyntaxNode::Add { .. } => Some(seq![OpCode::Add.spec_byte()]),
        SyntaxNode::Sub { .. } => Some(seq![OpCode::Sub.spec_byte()]),
        SyntaxNode::Mul { .. } => Some(seq![OpCode::Mul.spec_byte()]),
        SyntaxNode::Div { .. } => Some(seq![OpCode::Div.spec_byte()]),
        SyntaxNode::Mod { .. } => Some(seq![OpCode::Mod.spec_byte()]),
        SyntaxNode::Assign { .. } => Some(seq![OpCode::StoreTop.spec_byte()]),
        SyntaxNode::AssignAdd { .. } => Some(
            seq![OpCode::Add.spec_byte(), OpCode::StoreTop.spec_byte()],
        ),
        SyntaxNode::AssignSub { .. } => Some(
            seq![OpCode::Sub.spec_byte(), OpCode::StoreTop.spec_byte()],
        ),
        SyntaxNode::AssignMul { .. } => Some(
            seq![OpCode::Mul.spec_byte(), OpCode::StoreTop.spec_byte()],
        ),
        SyntaxNode::AssignDiv { .. } => Some(
            seq![OpCode::Div.spec_byte(), OpCode::StoreTop.spec_byte()],
        ),
        SyntaxNode::AssignMod { .. } => Some(
            seq![OpCode::Mod.spec_byte(), OpCode::StoreTop.spec_byte()],
        ),
        SyntaxNode::And { .. } => Some(seq![OpCode::And.spec_byte()]),
        SyntaxNode::Or { .. } => Some(seq![OpCode::Or.spec_byte()]),
        SyntaxNode::Not { .. } => Some(seq![OpCode::Not.spec_byte()]),
        SyntaxNode::Less { .. } => Some(seq![OpCode::Less.spec_byte()]),
        SyntaxNode::Greater { .. } => Some(seq![OpCode::Greater.spec_byte()]),
        SyntaxNode::LessEqual { .. } => Some(seq![OpCode::LessEqual.spec_byte()]),
        SyntaxNode::GreaterEqual { .. } => Some(seq![OpCode::GreaterEqual.spec_byte()]),
        SyntaxNode::Equal { .. } => Some(seq![OpCode::Equal.spec_byte()]),
        SyntaxNode::NotEqual { .. } => Some(seq![OpCode::NotEqual.spec_byte()]),
        SyntaxNode::Call { arguments, .. } => Some(
            seq![
                OpCode::LoadConst.spec_byte(),
                TypeCode::Nil.spec_byte(),
                OpCode::CallFunction.spec_byte(),
                arguments@.len() as u8,
            ],
        ),
        SyntaxNode::Int { value, .. } => Some(
            seq![OpCode::LoadConst.spec_byte()] + spec_obj_from_int(value),
        ),
        SyntaxNode::Float { bits, .. } => Some(
            seq![OpCode::LoadConst.spec_byte()] + spec_obj_from_float(bits),
        ),
        SyntaxNode::String { value, .. } => Some(
            seq![OpCode::LoadConst.spec_byte()] + seq![TypeCode::String.spec_byte()]
                + vstd::bytes::spec_u64_to_le_bytes(
                ((vstd::utf8::encode_utf8(value@).len() as usize) as u64),
            ) + vstd::utf8::encode_utf8(value@),
        ),
        SyntaxNode::Boolean { value, .. } => Some(
            seq![OpCode::LoadConst.spec_byte()] + spec_obj_from_boolean(value),
        ),
        SyntaxNode::List { elements, .. } => Some(
            seq![OpCode::MakeList.spec_byte()] + spec_raw_from_usize(elements@.len() as usize),
        ),
        SyntaxNode::NoneLiteral { .. } => Some(
            seq![OpCode::LoadConst.spec_byte(), TypeCode::Nil.spec_byte()],
        ),
        SyntaxNode::Return { value, .. } => Some(
            if value is Some {
                seq![OpCode::ReturnValue.spec_byte()]
            } else {
                seq![OpCode::Return.spec_byte()]
            },
        ),
        SyntaxNode::Scope { .. } => Some(seq![OpCode::PushScope.spec_byte()]),
        SyntaxNode::Else { .. } => Some(seq![OpCode::PushScope.spec_byte()]),
        SyntaxNode::Parenthesis { .. } => Some(Seq::empty()),
        _ => None,
    }
}

/// Whether a construct needs the symbol table or name resolution to
/// compile: identifiers resolve, `let` and function literals declare.
pub open spec fn spec_is_context_dependent(sn: SyntaxNode) -> bool {
    match sn {
        SyntaxNode::Identifier { .. } => true,
        SyntaxNode::Let { .. } => true,
        SyntaxNode::Fun { .. } => true,
        _ => false,
    }
}

} // verus!
