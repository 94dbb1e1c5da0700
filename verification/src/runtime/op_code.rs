//! The instruction set. One opcode byte, optionally followed by operands:
//! an 8-byte little-endian address/id, a typed constant, or a 1-byte count.

use vstd::prelude::*;

verus! {

/// Number of opcodes; their byte values are `0 .. OP_CODE_COUNT` in
/// declaration order.
pub const OP_CODE_COUNT: u8 = 30;

#[derive(Clone, Copy, Debug, PartialEq, Eq, Structural)]
pub enum OpCode {
    /// Do nothing.
    Nop,
    /// Push a reference to the heap cell of a local id onto the operand stack.
    LoadLocalRef,
    /// Push a reference to the heap cell of a global id onto the operand stack.
    LoadGlobalRef,
    /// Push a reference to the heap cell of a local id found a number of
    /// enclosing scopes away.
    LoadOffsetRef,
    /// Decode a typed constant from the operand bytes and push it by value.
    LoadConst,
    /// Leave the current lexical scope.
    PopScope,
    /// Pop the arguments and the callee, then run the callee's body.
    CallFunction,
    /// Push a function value wrapping the embedded compiled-node handle.
    MakeFunction,
    /// Pop a value and a reference; write the value through the reference.
    StoreTop,
    /// Pop two operands, push their sum.
    Add,
    /// Pop two operands, push their difference.
    Sub,
    /// Pop two operands, push their product.
    Mul,
    /// Pop two operands, push their quotient.
    Div,
    /// Pop two operands, push their division remainder.
    Mod,
    /// Pop two operands, push whether they are equal.
    Equal,
    /// Pop two operands, push whether they are unequal.
    NotEqual,
    /// Pop one operand, push its boolean negation.
    Not,
    /// Reserved: iteration is not wired to code generation.
    GetIter,
    /// Reserved: subscription is not wired to code generation.
    Subscript,
    /// Pop the return value, then unwind the innermost call frame keeping it.
    ReturnValue,
    /// Unwind the innermost call frame without a value.
    Return,
    /// Enter a new lexical scope.
    PushScope,
    /// Pop two operands, push their boolean conjunction.
    And,
    /// Pop two operands, push their boolean disjunction.
    Or,
    /// Pop two operands, push whether the first is greater.
    Greater,
    /// Pop two operands, push whether the first is greater or equal.
    GreaterEqual,
    /// Pop two operands, push whether the first is less.
    Less,
    /// Pop two operands, push whether the first is less or equal.
    LessEqual,
    /// Reserve a heap cell holding None and record its address in the current
    /// scope's partition of the address index.
    Allocate,
    /// Pop a counted number of operands and push them as one list value.
    MakeList,
}

impl OpCode {
    /// Byte value of the opcode: its position in declaration order.
    pub open spec fn spec_byte(self) -> u8 {
        match self {
            OpCode::Nop => 0,
            OpCode::LoadLocalRef => 1,
            OpCode::LoadGlobalRef => 2,
            OpCode::LoadOffsetRef => 3,
            OpCode::LoadConst => 4,
            OpCode::PopScope => 5,
            OpCode::CallFunction => 6,
            OpCode::MakeFunction => 7,
            OpCode::StoreTop => 8,
            OpCode::Add => 9,
            OpCode::Sub => 10,
            OpCode::Mul => 11,
            OpCode::Div => 12,
            OpCode::Mod => 13,
            OpCode::Equal => 14,
            OpCode::NotEqual => 15,
            OpCode::Not => 16,
            OpCode::GetIter => 17,
            OpCode::Subscript => 18,
            OpCode::ReturnValue => 19,
            OpCode::Return => 20,
            OpCode::PushScope => 21,
            OpCode::And => 22,
            OpCode::Or => 23,
            OpCode::Greater => 24,
            OpCode::GreaterEqual => 25,
            OpCode::Less => 26,
            OpCode::LessEqual => 27,
            OpCode::Allocate => 28,
            OpCode::MakeList => 29,
        }
    }

    /// Byte value of the opcode.
    pub fn to_byte(self) -> (res: u8)
        ensures
            res == self.spec_byte(),
    {
        match self {
            OpCode::Nop => 0,
            OpCode::LoadLocalRef => 1,
            OpCode::LoadGlobalRef => 2,
            OpCode::LoadOffsetRef => 3,
            OpCode::LoadConst => 4,
            OpCode::PopScope => 5,
            OpCode::CallFunction => 6,
            OpCode::MakeFunction => 7,
            OpCode::StoreTop => 8,
            OpCode::Add => 9,
            OpCode::Sub => 10,
            OpCode::Mul => 11,
            OpCode::Div => 12,
            OpCode::Mod => 13,
            OpCode::Equal => 14,
            OpCode::NotEqual => 15,
            OpCode::Not => 16,
            OpCode::GetIter => 17,
            OpCode::Subscript => 18,
            OpCode::ReturnValue => 19,
            OpCode::Return => 20,
            OpCode::PushScope => 21,
            OpCode::And => 22,
            OpCode::Or => 23,
            OpCode::Greater => 24,
            OpCode::GreaterEqual => 25,
            OpCode::Less => 26,
            OpCode::LessEqual => 27,
            OpCode::Allocate => 28,
            OpCode::MakeList => 29,
        }
    }

    /// The opcode whose byte value is `b`, if any.
    pub open spec fn spec_from_byte(b: u8) -> Option<OpCode> {
        if b == 0 { Some(OpCode::Nop) }
        else if b == 1 { Some(OpCode::LoadLocalRef) }
        else if b == 2 { Some(OpCode::LoadGlobalRef) }
        else if b == 3 { Some(OpCode::LoadOffsetRef) }
        else if b == 4 { Some(OpCode::LoadConst) }
        else if b == 5 { Some(OpCode::PopScope) }
        else if b == 6 { Some(OpCode::CallFunction) }
        else if b == 7 { Some(OpCode::MakeFunction) }
        else if b == 8 { Some(OpCode::StoreTop) }
        else if b == 9 { Some(OpCode::Add) }
        else if b == 10 { Some(OpCode::Sub) }
        else if b == 11 { Some(OpCode::Mul) }
        else if b == 12 { Some(OpCode::Div) }
        else if b == 13 { Some(OpCode::Mod) }
        else if b == 14 { Some(OpCode::Equal) }
        else if b == 15 { Some(OpCode::NotEqual) }
        else if b == 16 { Some(OpCode::Not) }
        else if b == 17 { Some(OpCode::GetIter) }
        else if b == 18 { Some(OpCode::Subscript) }
        else if b == 19 { Some(OpCode::ReturnValue) }
        else if b == 20 { Some(OpCode::Return) }
        else if b == 21 { Some(OpCode::PushScope) }
        else if b == 22 { Some(OpCode::And) }
        else if b == 23 { Some(OpCode::Or) }
        else if b == 24 { Some(OpCode::Greater) }
        else if b == 25 { Some(OpCode::GreaterEqual) }
        else if b == 26 { Some(OpCode::Less) }
        else if b == 27 { Some(OpCode::LessEqual) }
        else if b == 28 { Some(OpCode::Allocate) }
        else if b == 29 { Some(OpCode::MakeList) }
        else { None }
    }

    /// The opcode whose byte value is `b`, or nothing for a byte outside the
    /// instruction set.
    pub fn from_byte(b: u8) -> (res: Option<OpCode>)
        ensures
            res == OpCode::spec_from_byte(b),
    {
        match b {
            0 => Some(OpCode::Nop),
            1 => Some(OpCode::LoadLocalRef),
            2 => Some(OpCode::LoadGlobalRef),
            3 => Some(OpCode::LoadOffsetRef),
            4 => Some(OpCode::LoadConst),
            5 => Some(OpCode::PopScope),
            6 => Some(OpCode::CallFunction),
            7 => Some(OpCode::MakeFunction),
            8 => Some(OpCode::StoreTop),
            9 => Some(OpCode::Add),
            10 => Some(OpCode::Sub),
            11 => Some(OpCode::Mul),
            12 => Some(OpCode::Div),
            13 => Some(OpCode::Mod),
            14 => Some(OpCode::Equal),
            15 => Some(OpCode::NotEqual),
            16 => Some(OpCode::Not),
            17 => Some(OpCode::GetIter),
            18 => Some(OpCode::Subscript),
            19 => Some(OpCode::ReturnValue),
            20 => Some(OpCode::Return),
            21 => Some(OpCode::PushScope),
            22 => Some(OpCode::And),
            23 => Some(OpCode::Or),
            24 => Some(OpCode::Greater),
            25 => Some(OpCode::GreaterEqual),
            26 => Some(OpCode::Less),
            27 => Some(OpCode::LessEqual),
            28 => Some(OpCode::Allocate),
            29 => Some(OpCode::MakeList),
            _ => None,
        }
    }
}

/// Round trip: every opcode is recovered from its own byte value.
pub proof fn lemma_op_code_byte_round_trip(op: OpCode)
    ensures
        OpCode::spec_from_byte(op.spec_byte()) == Some(op),
{
}

} // verus!
