//! The abstract syntax tree the compiler consumes: one variant per language
//! construct, immutable once built. The front end that produces it from
//! source text is a collaborator of this crate; the compiler takes the tree
//! and the virtual machine runs what the compiler makes of it.

use vstd::prelude::*;

verus! {

/// One node of the abstract syntax tree. A `Float` literal carries the
/// 64-bit IEEE-754 pattern of its value; `line` is the source line the
/// construct starts on, kept for diagnostics.
#[derive(Debug)]
pub enum SyntaxNode {
    Add { left: Box<SyntaxNode>, right: Box<SyntaxNode>, line: usize },
    Sub { left: Box<SyntaxNode>, right: Box<SyntaxNode>, line: usize },
    Mul { left: Box<SyntaxNode>, right: Box<SyntaxNode>, line: usize },
    Div { left: Box<SyntaxNode>, right: Box<SyntaxNode>, line: usize },
    Mod { left: Box<SyntaxNode>, right: Box<SyntaxNode>, line: usize },
    Assign { left: Box<SyntaxNode>, right: Box<SyntaxNode>, line: usize },
    AssignAdd { left: Box<SyntaxNode>, right: Box<SyntaxNode>, line: usize },
    AssignSub { left: Box<SyntaxNode>, right: Box<SyntaxNode>, line: usize },
    AssignMul { left: Box<SyntaxNode>, right: Box<SyntaxNode>, line: usize },
    AssignDiv { left: Box<SyntaxNode>, right: Box<SyntaxNode>, line: usize },
    AssignMod { left: Box<SyntaxNode>, right: Box<SyntaxNode>, line: usize },
    And { left: Box<SyntaxNode>, right: Box<SyntaxNode>, line: usize },
    Or { left: Box<SyntaxNode>, right: Box<SyntaxNode>, line: usize },
    Not { operand: Box<SyntaxNode>, line: usize },
    Less { left: Box<SyntaxNode>, right: Box<SyntaxNode>, line: usize },
    Greater { left: Box<SyntaxNode>, right: Box<SyntaxNode>, line: usize },
    LessEqual { left: Box<SyntaxNode>, right: Box<SyntaxNode>, line: usize },
    GreaterEqual { left: Box<SyntaxNode>, right: Box<SyntaxNode>, line: usize },
    Equal { left: Box<SyntaxNode>, right: Box<SyntaxNode>, line: usize },
    NotEqual { left: Box<SyntaxNode>, right: Box<SyntaxNode>, line: usize },
    Subscript { iterable: Box<SyntaxNode>, index: Box<SyntaxNode>, line: usize },
    Call { function: Box<SyntaxNode>, arguments: Vec<SyntaxNode>, line: usize },
    Int { value: i64, line: usize },
    Float { bits: u64, line: usize },
    String { value: String, line: usize },
    Boolean { value: bool, line: usize },
    List { elements: Vec<SyntaxNode>, line: usize },
    Identifier { value: String, line: usize },
    NoneLiteral { line: usize },
    Let { symbol_name: String, line: usize },
    Fun { name: String, params: Vec<String>, body: SyntaxTree, line: usize },
    Return { value: Option<Box<SyntaxNode>>, line: usize },
    If { condition: Box<SyntaxNode>, body: SyntaxTree, else_node: Option<Box<SyntaxNode>>, line: usize },
    Elif { condition: Box<SyntaxNode>, body: SyntaxTree, else_node: Option<Box<SyntaxNode>>, line: usize },
    Else { body: SyntaxTree, line: usize },
    While { condition: Box<SyntaxNode>, body: SyntaxTree, line: usize },
    For { variable: String, iterable: Box<SyntaxNode>, body: SyntaxTree, line: usize },
    In { iterable: Box<SyntaxNode>, line: usize },
    Break { line: usize },
    Continue { line: usize },
    Scope { statements: SyntaxTree, line: usize },
    Parenthesis { child: Box<SyntaxNode>, line: usize },
    Placeholder,
}

impl SyntaxNode {
    /// The source line this construct starts on; a placeholder has none.
    pub fn get_line(&self) -> (res: usize)
        ensures
            res == self.spec_line(),
    {
        match self {
            SyntaxNode::Add { line, .. } => *line,
            SyntaxNode::Sub { line, .. } => *line,
            SyntaxNode::Mul { line, .. } => *line,
            SyntaxNode::Div { line, .. } => *line,
            SyntaxNode::Mod { line, .. } => *line,
            SyntaxNode::Assign { line, .. } => *line,
            SyntaxNode::AssignAdd { line, .. } => *line,
            SyntaxNode::AssignSub { line, .. } => *line,
            SyntaxNode::AssignMul { line, .. } => *line,
            SyntaxNode::AssignDiv { line, .. } => *line,
            SyntaxNode::AssignMod { line, .. } => *line,
            SyntaxNode::And { line, .. } => *line,
            SyntaxNode::Or { line, .. } => *line,
            SyntaxNode::Not { line, .. } => *line,
            SyntaxNode::Less { line, .. } => *line,
            SyntaxNode::Greater { line, .. } => *line,
            SyntaxNode::LessEqual { line, .. } => *line,
            SyntaxNode::GreaterEqual { line, .. } => *line,
            SyntaxNode::Equal { line, .. } => *line,
            SyntaxNode::NotEqual { line, .. } => *line,
            SyntaxNode::Subscript { line, .. } => *line,
            SyntaxNode::Call { line, .. } => *line,
            SyntaxNode::Int { line, .. } => *line,
            SyntaxNode::Float { line, .. } => *line,
            SyntaxNode::String { line, .. } => *line,
            SyntaxNode::Boolean { line, .. } => *line,
            SyntaxNode::List { line, .. } => *line,
            SyntaxNode::Identifier { line, .. } => *line,
            SyntaxNode::NoneLiteral { line } => *line,
            SyntaxNode::Let { line, .. } => *line,
            SyntaxNode::Fun { line, .. } => *line,
            SyntaxNode::Return { line, .. } => *line,
            SyntaxNode::If { line, .. } => *line,
            SyntaxNode::Elif { line, .. } => *line,
            SyntaxNode::Else { line, .. } => *line,
            SyntaxNode::While { line, .. } => *line,
            SyntaxNode::For { line, .. } => *line,
            SyntaxNode::In { line, .. } => *line,
            SyntaxNode::Break { line } => *line,
            SyntaxNode::Continue { line } => *line,
            SyntaxNode::Scope { line, .. } => *line,
            SyntaxNode::Parenthesis { line, .. } => *line,
            SyntaxNode::Placeholder => 0,
        }
    }

    /// The source line this construct starts on; a placeholder has none.
    pub open spec fn spec_line(self) -> usize {
        match self {
            SyntaxNode::Add { line, .. } => line,
            SyntaxNode::Sub { line, .. } => line,
            SyntaxNode::Mul { line, .. } => line,
            SyntaxNode::Div { line, .. } => line,
            SyntaxNode::Mod { line, .. } => line,
            SyntaxNode::Assign { line, .. } => line,
            SyntaxNode::AssignAdd { line, .. } => line,
            SyntaxNode::AssignSub { line, .. } => line,
            SyntaxNode::AssignMul { line, .. } => line,
            SyntaxNode::AssignDiv { line, .. } => line,
            SyntaxNode::AssignMod { line, .. } => line,
            SyntaxNode::And { line, .. } => line,
            SyntaxNode::Or { line, .. } => line,
            SyntaxNode::Not { line, .. } => line,
            SyntaxNode::Less { line, .. } => line,
            SyntaxNode::Greater { line, .. } => line,
            SyntaxNode::LessEqual { line, .. } => line,
            SyntaxNode::GreaterEqual { line, .. } => line,
            SyntaxNode::Equal { line, .. } => line,
            SyntaxNode::NotEqual { line, .. } => line,
            SyntaxNode::Subscript { line, .. } => line,
            SyntaxNode::Call { line, .. } => line,
            SyntaxNode::Int { line, .. } => line,
            SyntaxNode::Float { line, .. } => line,
            SyntaxNode::String { line, .. } => line,
            SyntaxNode::Boolean { line, .. } => line,
            SyntaxNode::List { line, .. } => line,
            SyntaxNode::Identifier { line, .. } => line,
            SyntaxNode::NoneLiteral { line } => line,
            SyntaxNode::Let { line, .. } => line,
            SyntaxNode::Fun { line, .. } => line,
            SyntaxNode::Return { line, .. } => line,
            SyntaxNode::If { line, .. } => line,
            SyntaxNode::Elif { line, .. } => line,
            SyntaxNode::Else { line, .. } => line,
            SyntaxNode::While { line, .. } => line,
            SyntaxNode::For { line, .. } => line,
            SyntaxNode::In { line, .. } => line,
            SyntaxNode::Break { line } => line,
            SyntaxNode::Continue { line } => line,
            SyntaxNode::Scope { line, .. } => line,
            SyntaxNode::Parenthesis { line, .. } => line,
            SyntaxNode::Placeholder => 0,
        }
    }
}

/// An ordered sequence of top-level statements.
#[derive(Debug)]
pub struct SyntaxTree {
    pub statements: Vec<SyntaxNode>,
}

impl SyntaxTree {
    /// A tree holding the given statements.
    pub fn new(statements: Vec<SyntaxNode>) -> (res: Self)
        ensures
            res.statements == statements,
    {
        Self { statements }
    }
}

} // verus!
