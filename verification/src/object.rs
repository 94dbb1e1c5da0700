//! The object model: tagged values and the arithmetic, comparison and
//! boolean semantics the virtual machine's instructions apply to them.
//!
//! Binary numeric operators accept Int with Int, Float with Float, and the
//! mixed pairs by promoting the Int operand to Float. `+` also concatenates
//! two Strings or two Lists. Division and modulo by zero fail with
//! `ZeroDivision` before any result is produced. Int arithmetic wraps on
//! overflow (two's complement), the one behaviour a non-panicking engine can
//! give every input.
//!
//! Contracts speak of values through [`AbsVal`], the mathematical shape of a
//! value: a String by its character sequence, a List by the sequence of its
//! elements' shapes.

use vstd::prelude::*;
use vstd::string::StrSliceExecFns;
use vstd::string::StringExecFns;
use vstd::string::StringSliceAdditionalSpecFns;

use crate::byte_code::{self, ByteCode};
use crate::float_ops::{
    apf_add, apf_div, apf_eq, apf_le, apf_lt, apf_mul, apf_of_int, apf_rem, apf_sub, float_add,
    float_div, float_eq, float_is_zero, float_le, float_lt, float_mul, float_of_int, float_rem,
    float_sub, spec_float_is_zero,
};
use crate::runtime::error_codes::{ErrorCode, RuntimeError};

verus! {

/// Width in bytes of an encoded constant's payload.
#[derive(Clone, Copy, Debug)]
pub enum TypeSize {
    Number,
    Boolean,
    Nil,
}

impl TypeSize {
    /// The number of payload bytes.
    pub fn value(&self) -> (res: usize)
        ensures
            self is Number ==> res == 8,
            self is Boolean ==> res == 1,
            self is Nil ==> res == 0,
    {
        match self {
            TypeSize::Number => 8,
            TypeSize::Boolean => 1,
            TypeSize::Nil => 0,
        }
    }
}

/// The result of an operator: a fresh object, or a runtime fault.
pub type OpResult = Result<Object, RuntimeError>;

/// The type tag of an object; its byte value is its position in declaration
/// order.
#[derive(Clone, Copy, Debug, PartialEq, Eq, Structural)]
pub enum TypeCode {
    Int,
    Float,
    String,
    Bool,
    List,
    Nil,
    Function,
    Ref,
}

impl TypeCode {
    /// Byte value of the tag.
    pub open spec fn spec_byte(self) -> u8 {
        match self {
            TypeCode::Int => 0,
            TypeCode::Float => 1,
            TypeCode::String => 2,
            TypeCode::Bool => 3,
            TypeCode::List => 4,
            TypeCode::Nil => 5,
            TypeCode::Function => 6,
            TypeCode::Ref => 7,
        }
    }

    /// Byte value of the tag.
    pub fn to_byte(self) -> (res: u8)
        ensures
            res == self.spec_byte(),
    {
        match self {
            TypeCode::Int => 0,
            TypeCode::Float => 1,
            TypeCode::String => 2,
            TypeCode::Bool => 3,
            TypeCode::List => 4,
            TypeCode::Nil => 5,
            TypeCode::Function => 6,
            TypeCode::Ref => 7,
        }
    }

    /// The tag whose byte value is `b`, if any.
    pub open spec fn spec_from_byte(b: u8) -> Option<TypeCode> {
        if b == 0 { Some(TypeCode::Int) }
        else if b == 1 { Some(TypeCode::Float) }
        else if b == 2 { Some(TypeCode::String) }
        else if b == 3 { Some(TypeCode::Bool) }
        else if b == 4 { Some(TypeCode::List) }
        else if b == 5 { Some(TypeCode::Nil) }
        else if b == 6 { Some(TypeCode::Function) }
        else if b == 7 { Some(TypeCode::Ref) }
        else { None }
    }

    /// The tag whose byte value is `b`, or nothing for a byte outside the
    /// tag set.
    pub fn from_byte(b: u8) -> (res: Option<TypeCode>)
        ensures
            res == TypeCode::spec_from_byte(b),
    {
        match b {
            0 => Some(TypeCode::Int),
            1 => Some(TypeCode::Float),
            2 => Some(TypeCode::String),
            3 => Some(TypeCode::Bool),
            4 => Some(TypeCode::List),
            5 => Some(TypeCode::Nil),
            6 => Some(TypeCode::Function),
            7 => Some(TypeCode::Ref),
            _ => None,
        }
    }

    /// Human-readable name of the tag.
    pub fn name(&self) -> (res: &'static str)
        ensures
            self is Int ==> res@ == "Int"@,
            self is Float ==> res@ == "Float"@,
            self is String ==> res@ == "String"@,
            self is Bool ==> res@ == "Bool"@,
            self is List ==> res@ == "List"@,
            self is Nil ==> res@ == "None"@,
            self is Function ==> res@ == "Function"@,
            self is Ref ==> res@ == "Ref"@,
    {
        match self {
            TypeCode::Int => "Int",
            TypeCode::Float => "Float",
            TypeCode::String => "String",
            TypeCode::Bool => "Bool",
            TypeCode::List => "List",
            TypeCode::Nil => "None",
            TypeCode::Function => "Function",
            TypeCode::Ref => "Ref",
        }
    }
}

/// A tagged value. `Float` carries the 64-bit IEEE-754 pattern of the
/// number; `Function` carries the handle of the compiled node holding the
/// function's body; `Ref` carries the heap address of the cell it aliases.
#[derive(Debug)]
pub enum Value {
    Int(i64),
    Float(u64),
    String(String),
    Bool(bool),
    List(Vec<Object>),
    Nil,
    Function(usize),
    Ref(usize),
}

/// A storage cell's content: a tagged value and the reference counter the
/// heap keeps of it (tracked, never used to reclaim memory).
#[derive(Debug)]
pub struct Object {
    pub value: Value,
    pub ref_count: usize,
}

/// The mathematical shape of a value: what the language's semantics can
/// observe of it. A String appears as its character sequence and a List as
/// the sequence of its elements' shapes.
#[verifier::ext_equal]
pub enum AbsVal {
    Int(i64),
    Float(u64),
    Str(Seq<char>),
    Bool(bool),
    List(Seq<AbsVal>),
    Nil,
    Function(int),
    Ref(int),
}

/// The shapes of a sequence of objects, element by element.
pub open spec fn abs_seq(s: Seq<Object>) -> Seq<AbsVal>
    decreases s,
{
    if s.len() == 0 {
        Seq::empty()
    } else {
        seq![s[0].abs()] + abs_seq(s.drop_first())
    }
}

/// `abs_seq` maps element by element.
pub proof fn lemma_abs_seq(s: Seq<Object>)
    ensures
        abs_seq(s).len() == s.len(),
        forall|i: int| 0 <= i < s.len() ==> abs_seq(s)[i] == s[i].abs(),
    decreases s,
{
    if s.len() > 0 {
        lemma_abs_seq(s.drop_first());
    }
}

/// `abs_seq` distributes over concatenation.
pub proof fn lemma_abs_seq_concat(a: Seq<Object>, b: Seq<Object>)
    ensures
        abs_seq(a + b) == abs_seq(a) + abs_seq(b),
{
    lemma_abs_seq(a);
    lemma_abs_seq(b);
    lemma_abs_seq(a + b);
    assert(abs_seq(a + b) =~= abs_seq(a) + abs_seq(b));
}

impl Value {
    /// The type tag matching this value.
    pub open spec fn spec_type_code(self) -> TypeCode {
        match self {
            Value::Int(_) => TypeCode::Int,
            Value::Float(_) => TypeCode::Float,
            Value::String(_) => TypeCode::String,
            Value::Bool(_) => TypeCode::Bool,
            Value::List(_) => TypeCode::List,
            Value::Nil => TypeCode::Nil,
            Value::Function(_) => TypeCode::Function,
            Value::Ref(_) => TypeCode::Ref,
        }
    }

    /// The mathematical shape of this value.
    pub open spec fn abs(self) -> AbsVal
        decreases self,
    {
        match self {
            Value::Int(i) => AbsVal::Int(i),
            Value::Float(bits) => AbsVal::Float(bits),
            Value::String(s) => AbsVal::Str(s@),
            Value::Bool(b) => AbsVal::Bool(b),
            Value::List(items) => AbsVal::List(abs_seq(items@)),
            Value::Nil => AbsVal::Nil,
            Value::Function(h) => AbsVal::Function(h as int),
            Value::Ref(a) => AbsVal::Ref(a as int),
        }
    }

    /// A copy of this value with the same shape.
    pub fn duplicate(&self) -> (res: Value)
        ensures
            res.abs() == self.abs(),
            res.spec_type_code() == self.spec_type_code(),
        decreases *self,
    {
        match self {
            Value::Int(i) => Value::Int(*i),
            Value::Float(bits) => Value::Float(*bits),
            Value::String(s) => Value::String(s.clone()),
            Value::Bool(b) => Value::Bool(*b),
            Value::List(items) => {
                let out = duplicate_object_vec(items);
                proof {
                    lemma_abs_seq(out@);
                    lemma_abs_seq(items@);
                    assert(abs_seq(out@) =~= abs_seq(items@));
                }
                Value::List(out)
            },
            Value::Nil => Value::Nil,
            Value::Function(handle) => Value::Function(*handle),
            Value::Ref(address) => Value::Ref(*address),
        }
    }
}

impl Object {
    /// The mathematical shape of the held value.
    pub open spec fn abs(self) -> AbsVal
        decreases self,
    {
        self.value.abs()
    }
}

/// Whether an encoded constant of the tagged kind can be decoded at `index`:
/// its payload is complete, a string's length is not negative, and a
/// string's bytes are valid UTF-8.
pub open spec fn spec_const_ok(tc: TypeCode, code: Seq<u8>, index: int) -> bool {
    match tc {
        TypeCode::Int => index + 8 <= code.len(),
        TypeCode::Float => index + 8 <= code.len(),
        TypeCode::Bool => index + 1 <= code.len(),
        TypeCode::Nil => true,
        TypeCode::String => {
            &&& index + 8 <= code.len()
            &&& 0 <= byte_code::spec_raw_string_len(code, index)
            &&& index + 8 + byte_code::spec_raw_string_len(code, index) <= code.len()
            &&& vstd::utf8::valid_utf8(byte_code::spec_raw_string_payload(code, index))
        },
        _ => false,
    }
}

/// The shape of the constant decoded at `index`.
pub open spec fn spec_const_value(tc: TypeCode, code: Seq<u8>, index: int) -> AbsVal
    recommends
        spec_const_ok(tc, code, index),
{
    match tc {
        TypeCode::Int => AbsVal::Int(
            byte_code::spec_u64_to_i64(byte_code::spec_raw_word(code, index)),
        ),
        TypeCode::Float => AbsVal::Float(byte_code::spec_raw_word(code, index)),
        TypeCode::Bool => AbsVal::Bool(code[index] != 0),
        TypeCode::Nil => AbsVal::Nil,
        TypeCode::String => AbsVal::Str(
            vstd::utf8::decode_utf8(byte_code::spec_raw_string_payload(code, index)),
        ),
        _ => AbsVal::Nil,
    }
}

/// The number of payload bytes the constant decoded at `index` occupies.
pub open spec fn spec_const_size(tc: TypeCode, code: Seq<u8>, index: int) -> int
    recommends
        spec_const_ok(tc, code, index),
{
    match tc {
        TypeCode::Int => 8,
        TypeCode::Float => 8,
        TypeCode::Bool => 1,
        TypeCode::Nil => 0,
        TypeCode::String => 8 + byte_code::spec_raw_string_len(code, index),
        _ => 0,
    }
}

/// What an operator owes: the shape of the fresh object, or the fault code.
pub open spec fn op_out_matches(res: OpResult, out: Result<AbsVal, ErrorCode>) -> bool {
    match (res, out) {
        (Result::Ok(o), Result::Ok(v)) => o.ref_count == 0 && o.abs() == v,
        (Result::Err(e), Result::Err(c)) => e.code == c,
        _ => false,
    }
}

/// Truncated (Rust-style) signed division, wrapping on the one overflowing
/// pair.
pub open spec fn spec_int_div(a: i64, b: i64) -> i64
    recommends
        b != 0,
{
    if a == i64::MIN && b == -1 {
        i64::MIN
    } else {
        match a.checked_div(b) {
            Some(q) => q,
            None => 0,
        }
    }
}

/// Truncated (Rust-style) signed remainder, wrapping on the one overflowing
/// pair.
pub open spec fn spec_int_rem(a: i64, b: i64) -> i64
    recommends
        b != 0,
{
    if a == i64::MIN && b == -1 {
        0
    } else {
        match a.checked_rem(b) {
            Some(r) => r,
            None => 0,
        }
    }
}

/// What `+` owes for each pair of operand shapes.
pub open spec fn spec_add(l: AbsVal, r: AbsVal) -> Result<AbsVal, ErrorCode> {
    match (l, r) {
        (AbsVal::Int(a), AbsVal::Int(b)) => Result::Ok(
            AbsVal::Int(vstd::wrapping::i64_specs::wrapping_add(a, b)),
        ),
        (AbsVal::Float(a), AbsVal::Float(b)) => Result::Ok(AbsVal::Float(float_add(a, b))),
        (AbsVal::Float(a), AbsVal::Int(b)) => Result::Ok(AbsVal::Float(float_add(a, float_of_int(b)))),
        (AbsVal::Int(a), AbsVal::Float(b)) => Result::Ok(AbsVal::Float(float_add(float_of_int(a), b))),
        (AbsVal::Str(a), AbsVal::Str(b)) => Result::Ok(AbsVal::Str(a + b)),
        (AbsVal::List(a), AbsVal::List(b)) => Result::Ok(AbsVal::List(a + b)),
        _ => Result::Err(ErrorCode::TypeError),
    }
}

/// What `-` owes for each pair of operand shapes.
pub open spec fn spec_sub(l: AbsVal, r: AbsVal) -> Result<AbsVal, ErrorCode> {
    match (l, r) {
        (AbsVal::Int(a), AbsVal::Int(b)) => Result::Ok(
            AbsVal::Int(vstd::wrapping::i64_specs::wrapping_sub(a, b)),
        ),
        (AbsVal::Float(a), AbsVal::Float(b)) => Result::Ok(AbsVal::Float(float_sub(a, b))),
        (AbsVal::Float(a), AbsVal::Int(b)) => Result::Ok(AbsVal::Float(float_sub(a, float_of_int(b)))),
        (AbsVal::Int(a), AbsVal::Float(b)) => Result::Ok(AbsVal::Float(float_sub(float_of_int(a), b))),
        _ => Result::Err(ErrorCode::TypeError),
    }
}

/// What `*` owes for each pair of operand shapes.
pub open spec fn spec_mul(l: AbsVal, r: AbsVal) -> Result<AbsVal, ErrorCode> {
    match (l, r) {
        (AbsVal::Int(a), AbsVal::Int(b)) => Result::Ok(
            AbsVal::Int(vstd::wrapping::i64_specs::wrapping_mul(a, b)),
        ),
        (AbsVal::Float(a), AbsVal::Float(b)) => Result::Ok(AbsVal::Float(float_mul(a, b))),
        (AbsVal::Float(a), AbsVal::Int(b)) => Result::Ok(AbsVal::Float(float_mul(a, float_of_int(b)))),
        (AbsVal::Int(a), AbsVal::Float(b)) => Result::Ok(AbsVal::Float(float_mul(float_of_int(a), b))),
        _ => Result::Err(ErrorCode::TypeError),
    }
}

/// What `/` owes for each pair of operand shapes: `ZeroDivision` exactly
/// when the divisor is zero, the quotient otherwise.
pub open spec fn spec_div(l: AbsVal, r: AbsVal) -> Result<AbsVal, ErrorCode> {
    match (l, r) {
        (AbsVal::Int(a), AbsVal::Int(b)) => if b == 0 {
            Result::Err(ErrorCode::ZeroDivision)
        } else {
            Result::Ok(AbsVal::Int(spec_int_div(a, b)))
        },
        (AbsVal::Float(a), AbsVal::Float(b)) => if spec_float_is_zero(b) {
            Result::Err(ErrorCode::ZeroDivision)
        } else {
            Result::Ok(AbsVal::Float(float_div(a, b)))
        },
        (AbsVal::Float(a), AbsVal::Int(b)) => if b == 0 {
            Result::Err(ErrorCode::ZeroDivision)
        } else {
            Result::Ok(AbsVal::Float(float_div(a, float_of_int(b))))
        },
        (AbsVal::Int(a), AbsVal::Float(b)) => if spec_float_is_zero(b) {
            Result::Err(ErrorCode::ZeroDivision)
        } else {
            Result::Ok(AbsVal::Float(float_div(float_of_int(a), b)))
        },
        _ => Result::Err(ErrorCode::TypeError),
    }
}

/// What `%` owes for each pair of operand shapes: `ZeroDivision` exactly
/// when the divisor is zero, the remainder otherwise.
pub open spec fn spec_rem(l: AbsVal, r: AbsVal) -> Result<AbsVal, ErrorCode> {
    match (l, r) {
        (AbsVal::Int(a), AbsVal::Int(b)) => if b == 0 {
            Result::Err(ErrorCode::ZeroDivision)
        } else {
            Result::Ok(AbsVal::Int(spec_int_rem(a, b)))
        },
        (AbsVal::Float(a), AbsVal::Float(b)) => if spec_float_is_zero(b) {
            Result::Err(ErrorCode::ZeroDivision)
        } else {
            Result::Ok(AbsVal::Float(float_rem(a, b)))
        },
        (AbsVal::Float(a), AbsVal::Int(b)) => if b == 0 {
            Result::Err(ErrorCode::ZeroDivision)
        } else {
            Result::Ok(AbsVal::Float(float_rem(a, float_of_int(b))))
        },
        (AbsVal::Int(a), AbsVal::Float(b)) => if spec_float_is_zero(b) {
            Result::Err(ErrorCode::ZeroDivision)
        } else {
            Result::Ok(AbsVal::Float(float_rem(float_of_int(a), b)))
        },
        _ => Result::Err(ErrorCode::TypeError),
    }
}

/// The equality the language defines: numeric pairs under Int-to-Float
/// promotion, String, Bool, and None with None; every other pairing is
/// simply unequal.
pub open spec fn spec_obj_eq(l: AbsVal, r: AbsVal) -> bool {
    match (l, r) {
        (AbsVal::Int(a), AbsVal::Int(b)) => a == b,
        (AbsVal::Float(a), AbsVal::Float(b)) => float_eq(a, b),
        (AbsVal::Float(a), AbsVal::Int(b)) => float_eq(a, float_of_int(b)),
        (AbsVal::Int(a), AbsVal::Float(b)) => float_eq(float_of_int(a), b),
        (AbsVal::Str(a), AbsVal::Str(b)) => a == b,
        (AbsVal::Bool(a), AbsVal::Bool(b)) => a == b,
        (AbsVal::Nil, AbsVal::Nil) => true,
        _ => false,
    }
}

/// The boolean coercion: Bool as itself, numbers when nonzero, String and
/// List when non-empty, None never; anything else is a `TypeError`.
pub open spec fn spec_to_bool(v: AbsVal) -> Result<bool, ErrorCode> {
    match v {
        AbsVal::Bool(b) => Result::Ok(b),
        AbsVal::Int(i) => Result::Ok(i != 0),
        AbsVal::Float(bits) => Result::Ok(!spec_float_is_zero(bits)),
        AbsVal::Str(s) => Result::Ok(s.len() != 0),
        AbsVal::List(l) => Result::Ok(l.len() != 0),
        AbsVal::Nil => Result::Ok(false),
        _ => Result::Err(ErrorCode::TypeError),
    }
}

/// What `!` owes: the negated coercion of its operand.
pub open spec fn spec_not(v: AbsVal) -> Result<AbsVal, ErrorCode> {
    match spec_to_bool(v) {
        Result::Ok(b) => Result::Ok(AbsVal::Bool(!b)),
        Result::Err(c) => Result::Err(c),
    }
}

/// What `and` owes: short-circuit conjunction of the coercions; the right
/// operand's coercion only matters when the left one held.
pub open spec fn spec_and(l: AbsVal, r: AbsVal) -> Result<AbsVal, ErrorCode> {
    match spec_to_bool(l) {
        Result::Err(c) => Result::Err(c),
        Result::Ok(false) => Result::Ok(AbsVal::Bool(false)),
        Result::Ok(true) => match spec_to_bool(r) {
            Result::Err(c) => Result::Err(c),
            Result::Ok(b) => Result::Ok(AbsVal::Bool(b)),
        },
    }
}

/// What `or` owes: short-circuit disjunction of the coercions; the right
/// operand's coercion only matters when the left one failed to hold.
pub open spec fn spec_or(l: AbsVal, r: AbsVal) -> Result<AbsVal, ErrorCode> {
    match spec_to_bool(l) {
        Result::Err(c) => Result::Err(c),
        Result::Ok(true) => Result::Ok(AbsVal::Bool(true)),
        Result::Ok(false) => match spec_to_bool(r) {
            Result::Err(c) => Result::Err(c),
            Result::Ok(b) => Result::Ok(AbsVal::Bool(b)),
        },
    }
}

/// What `>` owes: defined on the numeric-promotion pairs only.
pub open spec fn spec_greater(l: AbsVal, r: AbsVal) -> Result<AbsVal, ErrorCode> {
    match (l, r) {
        (AbsVal::Int(a), AbsVal::Int(b)) => Result::Ok(AbsVal::Bool(a > b)),
        (AbsVal::Float(a), AbsVal::Float(b)) => Result::Ok(AbsVal::Bool(float_lt(b, a))),
        (AbsVal::Float(a), AbsVal::Int(b)) => Result::Ok(AbsVal::Bool(float_lt(float_of_int(b), a))),
        (AbsVal::Int(a), AbsVal::Float(b)) => Result::Ok(AbsVal::Bool(float_lt(b, float_of_int(a)))),
        _ => Result::Err(ErrorCode::TypeError),
    }
}

/// What `>=` owes: defined on the numeric-promotion pairs only.
pub open spec fn spec_greater_eq(l: AbsVal, r: AbsVal) -> Result<AbsVal, ErrorCode> {
    match (l, r) {
        (AbsVal::Int(a), AbsVal::Int(b)) => Result::Ok(AbsVal::Bool(a >= b)),
        (AbsVal::Float(a), AbsVal::Float(b)) => Result::Ok(AbsVal::Bool(float_le(b, a))),
        (AbsVal::Float(a), AbsVal::Int(b)) => Result::Ok(AbsVal::Bool(float_le(float_of_int(b), a))),
        (AbsVal::Int(a), AbsVal::Float(b)) => Result::Ok(AbsVal::Bool(float_le(b, float_of_int(a)))),
        _ => Result::Err(ErrorCode::TypeError),
    }
}

/// What `<` owes: defined on the numeric-promotion pairs only.
pub open spec fn spec_less(l: AbsVal, r: AbsVal) -> Result<AbsVal, ErrorCode> {
    match (l, r) {
        (AbsVal::Int(a), AbsVal::Int(b)) => Result::Ok(AbsVal::Bool(a < b)),
        (AbsVal::Float(a), AbsVal::Float(b)) => Result::Ok(AbsVal::Bool(float_lt(a, b))),
        (AbsVal::Float(a), AbsVal::Int(b)) => Result::Ok(AbsVal::Bool(float_lt(a, float_of_int(b)))),
        (AbsVal::Int(a), AbsVal::Float(b)) => Result::Ok(AbsVal::Bool(float_lt(float_of_int(a), b))),
        _ => Result::Err(ErrorCode::TypeError),
    }
}

/// What `<=` owes: defined on the numeric-promotion pairs only.
pub open spec fn spec_less_eq(l: AbsVal, r: AbsVal) -> Result<AbsVal, ErrorCode> {
    match (l, r) {
        (AbsVal::Int(a), AbsVal::Int(b)) => Result::Ok(AbsVal::Bool(a <= b)),
        (AbsVal::Float(a), AbsVal::Float(b)) => Result::Ok(AbsVal::Bool(float_le(a, b))),
        (AbsVal::Float(a), AbsVal::Int(b)) => Result::Ok(AbsVal::Bool(float_le(a, float_of_int(b)))),
        (AbsVal::Int(a), AbsVal::Float(b)) => Result::Ok(AbsVal::Bool(float_le(float_of_int(a), b))),
        _ => Result::Err(ErrorCode::TypeError),
    }
}

impl Object {
    /// A fresh object holding the given value, not yet referenced.
    pub fn new(value: Value) -> (res: Object)
        ensures
            res.value == value,
            res.ref_count == 0,
    {
        Object { value, ref_count: 0 }
    }

    /// The None object.
    pub fn none() -> (res: Object)
        ensures
            res.value == Value::Nil,
            res.ref_count == 0,
    {
        Object::new(Value::Nil)
    }

    /// A fresh reference to the heap cell at `address`.
    pub fn new_ref(address: usize) -> (res: Object)
        ensures
            res.value == Value::Ref(address),
            res.ref_count == 0,
    {
        Object::new(Value::Ref(address))
    }

    /// The type tag of the held value.
    pub fn type_code(&self) -> (res: TypeCode)
        ensures
            res == self.value.spec_type_code(),
    {
        match &self.value {
            Value::Int(_) => TypeCode::Int,
            Value::Float(_) => TypeCode::Float,
            Value::String(_) => TypeCode::String,
            Value::Bool(_) => TypeCode::Bool,
            Value::List(_) => TypeCode::List,
            Value::Nil => TypeCode::Nil,
            Value::Function(_) => TypeCode::Function,
            Value::Ref(_) => TypeCode::Ref,
        }
    }

    /// A copy of this object with the same shape and counter.
    pub fn duplicate(&self) -> (res: Object)
        ensures
            res.abs() == self.abs(),
            res.ref_count == self.ref_count,
            res.value.spec_type_code() == self.value.spec_type_code(),
        decreases *self,
    {
        Object { value: self.value.duplicate(), ref_count: self.ref_count }
    }

    /// Count one more live reference to this cell; the counter saturates
    /// rather than wrap.
    pub fn inc_ref_count(&mut self)
        ensures
            final(self).value == old(self).value,
            final(self).ref_count == if old(self).ref_count < usize::MAX {
                (old(self).ref_count + 1) as usize
            } else {
                usize::MAX
            },
    {
        if self.ref_count < usize::MAX {
            self.ref_count = self.ref_count + 1;
        }
    }

    /// Count one reference to this cell gone.
    pub fn dec_ref_count(&mut self)
        requires
            old(self).ref_count > 0,
        ensures
            final(self).value == old(self).value,
            final(self).ref_count == old(self).ref_count - 1,
    {
        self.ref_count = self.ref_count - 1;
    }

    /// Whether no live reference to this cell is counted.
    pub fn is_dead(&self) -> (res: bool)
        ensures
            res == (self.ref_count == 0),
    {
        self.ref_count == 0
    }

    /// Build an object from an encoded constant's payload, the type tag
    /// already read; report the payload bytes consumed. Refuses a payload
    /// that is cut short, a negative string length, an invalid UTF-8 run,
    /// or a tag that no constant encoding carries.
    pub fn from_byte_code_const(type_code: TypeCode, code: &ByteCode, index: usize) -> (res: Option<
        (Object, usize),
    >)
        ensures
            res is Some <==> spec_const_ok(type_code, code@, index as int),
            res matches Some((o, used)) ==> o.ref_count == 0 && o.abs() == spec_const_value(
                type_code,
                code@,
                index as int,
            ) && used == spec_const_size(type_code, code@, index as int),
    {
        let total = code.len();
        match type_code {
            TypeCode::Int => {
                if index <= total && total - index >= 8 {
                    let (v, used) = byte_code::get_raw_int(index, code);
                    Some((Object::new(Value::Int(v)), used))
                } else {
                    None
                }
            },
            TypeCode::Float => {
                if index <= total && total - index >= 8 {
                    let (bits, used) = byte_code::get_raw_float(index, code);
                    Some((Object::new(Value::Float(bits)), used))
                } else {
                    None
                }
            },
            TypeCode::Bool => {
                if index < total {
                    let (b, used) = byte_code::get_raw_boolean(index, code);
                    Some((Object::new(Value::Bool(b)), used))
                } else {
                    None
                }
            },
            TypeCode::Nil => Some((Object::none(), 0)),
            TypeCode::String => {
                if !(index <= total && total - index >= 8) {
                    return None;
                }
                let (length, _) = byte_code::get_raw_int(index, code);
                if length < 0 {
                    return None;
                }
                let remaining = total - (index + 8);
                if !((length as u64) <= (remaining as u64)) {
                    return None;
                }
                let n = #[verifier::truncate] (length as usize);
                proof {
                    assert(n == byte_code::spec_raw_string_len(code@, index as int));
                }
                let payload = vstd::slice::slice_subrange(code.as_slice(), index + 8, index + 8 + n);
                match byte_code::utf8_to_string(payload) {
                    Some(s) => Some((Object::new(Value::String(s)), 8 + n)),
                    None => None,
                }
            },
            _ => None,
        }
    }

    /// The boolean coercion of this object.
    pub fn to_bool(&self) -> (res: Result<bool, RuntimeError>)
        ensures
            match (res, spec_to_bool(self.abs())) {
                (Result::Ok(b), Result::Ok(sb)) => b == sb,
                (Result::Err(e), Result::Err(c)) => e.code == c,
                _ => false,
            },
    {
        match &self.value {
            Value::Bool(b) => Ok(*b),
            Value::Int(i) => Ok(*i != 0),
            Value::Float(bits) => Ok(!float_is_zero(*bits)),
            Value::String(s) => Ok(!s.as_str().is_empty()),
            Value::List(l) => {
                proof {
                    lemma_abs_seq(l@);
                }
                Ok(l.len() != 0)
            },
            Value::Nil => Ok(false),
            _ => Err(
                RuntimeError::with_message(
                    ErrorCode::TypeError,
                    String::from_str("Cannot convert value to bool"),
                ),
            ),
        }
    }

    /// The `+` operator.
    pub fn add(lhs: &Object, rhs: &Object) -> (res: OpResult)
        ensures
            op_out_matches(res, spec_add(lhs.abs(), rhs.abs())),
    {
        match (&lhs.value, &rhs.value) {
            (Value::Int(a), Value::Int(b)) => Ok(Object::new(Value::Int(a.wrapping_add(*b)))),
            (Value::Float(a), Value::Float(b)) => Ok(Object::new(Value::Float(apf_add(*a, *b)))),
            (Value::Float(a), Value::Int(b)) => Ok(
                Object::new(Value::Float(apf_add(*a, apf_of_int(*b)))),
            ),
            (Value::Int(a), Value::Float(b)) => Ok(
                Object::new(Value::Float(apf_add(apf_of_int(*a), *b))),
            ),
            (Value::String(a), Value::String(b)) => Ok(
                Object::new(Value::String(a.clone().concat(b.as_str()))),
            ),
            (Value::List(a), Value::List(b)) => Ok(
                Object::new(Value::List(concat_object_vecs(a, b))),
            ),
            _ => Err(
                RuntimeError::with_message(
                    ErrorCode::TypeError,
                    String::from_str("Cannot add these operand types"),
                ),
            ),
        }
    }

    /// The `-` operator.
    pub fn sub(lhs: &Object, rhs: &Object) -> (res: OpResult)
        ensures
            op_out_matches(res, spec_sub(lhs.abs(), rhs.abs())),
    {
        match (&lhs.value, &rhs.value) {
            (Value::Int(a), Value::Int(b)) => Ok(Object::new(Value::Int(a.wrapping_sub(*b)))),
            (Value::Float(a), Value::Float(b)) => Ok(Object::new(Value::Float(apf_sub(*a, *b)))),
            (Value::Float(a), Value::Int(b)) => Ok(
                Object::new(Value::Float(apf_sub(*a, apf_of_int(*b)))),
            ),
            (Value::Int(a), Value::Float(b)) => Ok(
                Object::new(Value::Float(apf_sub(apf_of_int(*a), *b))),
            ),
            _ => Err(
                RuntimeError::with_message(
                    ErrorCode::TypeError,
                    String::from_str("Cannot subtract these operand types"),
                ),
            ),
        }
    }

    /// The `*` operator.
    pub fn mul(lhs: &Object, rhs: &Object) -> (res: OpResult)
        ensures
            op_out_matches(res, spec_mul(lhs.abs(), rhs.abs())),
    {
        match (&lhs.value, &rhs.value) {
            (Value::Int(a), Value::Int(b)) => Ok(Object::new(Value::Int(a.wrapping_mul(*b)))),
            (Value::Float(a), Value::Float(b)) => Ok(Object::new(Value::Float(apf_mul(*a, *b)))),
            (Value::Float(a), Value::Int(b)) => Ok(
                Object::new(Value::Float(apf_mul(*a, apf_of_int(*b)))),
            ),
            (Value::Int(a), Value::Float(b)) => Ok(
                Object::new(Value::Float(apf_mul(apf_of_int(*a), *b))),
            ),
            _ => Err(
                RuntimeError::with_message(
                    ErrorCode::TypeError,
                    String::from_str("Cannot multiply these operand types"),
                ),
            ),
        }
    }

    /// The `/` operator; `ZeroDivision` exactly when the divisor is zero.
    pub fn div(lhs: &Object, rhs: &Object) -> (res: OpResult)
        ensures
            op_out_matches(res, spec_div(lhs.abs(), rhs.abs())),
    {
        match (&lhs.value, &rhs.value) {
            (Value::Int(a), Value::Int(b)) => {
                if *b == 0 {
                    Err(zero_division())
                } else if *a == i64::MIN && *b == -1 {
                    Ok(Object::new(Value::Int(i64::MIN)))
                } else {
                    match a.checked_div(*b) {
                        Some(q) => Ok(Object::new(Value::Int(q))),
                        None => Ok(Object::new(Value::Int(0))),
                    }
                }
            },
            (Value::Float(a), Value::Float(b)) => {
                if float_is_zero(*b) {
                    Err(zero_division())
                } else {
                    Ok(Object::new(Value::Float(apf_div(*a, *b))))
                }
            },
            (Value::Float(a), Value::Int(b)) => {
                if *b == 0 {
                    Err(zero_division())
                } else {
                    Ok(Object::new(Value::Float(apf_div(*a, apf_of_int(*b)))))
                }
            },
            (Value::Int(a), Value::Float(b)) => {
                if float_is_zero(*b) {
                    Err(zero_division())
                } else {
                    Ok(Object::new(Value::Float(apf_div(apf_of_int(*a), *b))))
                }
            },
            _ => Err(
                RuntimeError::with_message(
                    ErrorCode::TypeError,
                    String::from_str("Cannot divide these operand types"),
                ),
            ),
        }
    }

    /// The `%` operator; `ZeroDivision` exactly when the divisor is zero.
    pub fn rem(lhs: &Object, rhs: &Object) -> (res: OpResult)
        ensures
            op_out_matches(res, spec_rem(lhs.abs(), rhs.abs())),
    {
        match (&lhs.value, &rhs.value) {
            (Value::Int(a), Value::Int(b)) => {
                if *b == 0 {
                    Err(zero_division())
                } else if *a == i64::MIN && *b == -1 {
                    Ok(Object::new(Value::Int(0)))
                } else {
                    match a.checked_rem(*b) {
                        Some(r) => Ok(Object::new(Value::Int(r))),
                        None => Ok(Object::new(Value::Int(0))),
                    }
                }
            },
            (Value::Float(a), Value::Float(b)) => {
                if float_is_zero(*b) {
                    Err(zero_division())
                } else {
                    Ok(Object::new(Value::Float(apf_rem(*a, *b))))
                }
            },
            (Value::Float(a), Value::Int(b)) => {
                if *b == 0 {
                    Err(zero_division())
                } else {
                    Ok(Object::new(Value::Float(apf_rem(*a, apf_of_int(*b)))))
                }
            },
            (Value::Int(a), Value::Float(b)) => {
                if float_is_zero(*b) {
                    Err(zero_division())
                } else {
                    Ok(Object::new(Value::Float(apf_rem(apf_of_int(*a), *b))))
                }
            },
            _ => Err(
                RuntimeError::with_message(
                    ErrorCode::TypeError,
                    String::from_str("Cannot divide these operand types"),
                ),
            ),
        }
    }

    /// The language's equality test.
    pub fn eq(lhs: &Object, rhs: &Object) -> (res: bool)
        ensures
            res == spec_obj_eq(lhs.abs(), rhs.abs()),
    {
        match (&lhs.value, &rhs.value) {
            (Value::Int(a), Value::Int(b)) => *a == *b,
            (Value::Float(a), Value::Float(b)) => apf_eq(*a, *b),
            (Value::Float(a), Value::Int(b)) => apf_eq(*a, apf_of_int(*b)),
            (Value::Int(a), Value::Float(b)) => apf_eq(apf_of_int(*a), *b),
            (Value::String(a), Value::String(b)) => a.eq(b),
            (Value::Bool(a), Value::Bool(b)) => *a == *b,
            (Value::Nil, Value::Nil) => true,
            _ => false,
        }
    }

    /// The language's inequality test.
    pub fn ne(lhs: &Object, rhs: &Object) -> (res: bool)
        ensures
            res == !spec_obj_eq(lhs.abs(), rhs.abs()),
    {
        !Object::eq(lhs, rhs)
    }

    /// The `!` operator.
    pub fn not(obj: &Object) -> (res: OpResult)
        ensures
            op_out_matches(res, spec_not(obj.abs())),
    {
        match obj.to_bool() {
            Ok(b) => Ok(Object::new(Value::Bool(!b))),
            Err(e) => Err(e),
        }
    }

    /// The short-circuit `and` operator: the right operand's coercion is only
    /// consulted when the left one held.
    pub fn and(a: &Object, b: &Object) -> (res: OpResult)
        ensures
            op_out_matches(res, spec_and(a.abs(), b.abs())),
    {
        match a.to_bool() {
            Ok(av) => {
                if av {
                    match b.to_bool() {
                        Ok(bv) => Ok(Object::new(Value::Bool(bv))),
                        Err(e) => Err(e),
                    }
                } else {
                    Ok(Object::new(Value::Bool(false)))
                }
            },
            Err(e) => Err(e),
        }
    }

    /// The short-circuit `or` operator: the right operand's coercion is only
    /// consulted when the left one failed to hold.
    pub fn or(a: &Object, b: &Object) -> (res: OpResult)
        ensures
            op_out_matches(res, spec_or(a.abs(), b.abs())),
    {
        match a.to_bool() {
            Ok(av) => {
                if !av {
                    match b.to_bool() {
                        Ok(bv) => Ok(Object::new(Value::Bool(bv))),
                        Err(e) => Err(e),
                    }
                } else {
                    Ok(Object::new(Value::Bool(true)))
                }
            },
            Err(e) => Err(e),
        }
    }

    /// The `>` operator.
    pub fn greater(a: &Object, b: &Object) -> (res: OpResult)
        ensures
            op_out_matches(res, spec_greater(a.abs(), b.abs())),
    {
        match (&a.value, &b.value) {
            (Value::Int(x), Value::Int(y)) => Ok(Object::new(Value::Bool(*x > *y))),
            (Value::Float(x), Value::Float(y)) => Ok(Object::new(Value::Bool(apf_lt(*y, *x)))),
            (Value::Float(x), Value::Int(y)) => Ok(
                Object::new(Value::Bool(apf_lt(apf_of_int(*y), *x))),
            ),
            (Value::Int(x), Value::Float(y)) => Ok(
                Object::new(Value::Bool(apf_lt(*y, apf_of_int(*x)))),
            ),
            _ => Err(
                RuntimeError::with_message(
                    ErrorCode::TypeError,
                    String::from_str("Cannot compare these operand types"),
                ),
            ),
        }
    }

    /// The `>=` operator.
    pub fn greater_eq(a: &Object, b: &Object) -> (res: OpResult)
        ensures
            op_out_matches(res, spec_greater_eq(a.abs(), b.abs())),
    {
        match (&a.value, &b.value) {
            (Value::Int(x), Value::Int(y)) => Ok(Object::new(Value::Bool(*x >= *y))),
            (Value::Float(x), Value::Float(y)) => Ok(Object::new(Value::Bool(apf_le(*y, *x)))),
            (Value::Float(x), Value::Int(y)) => Ok(
                Object::new(Value::Bool(apf_le(apf_of_int(*y), *x))),
            ),
            (Value::Int(x), Value::Float(y)) => Ok(
                Object::new(Value::Bool(apf_le(*y, apf_of_int(*x)))),
            ),
            _ => Err(
                RuntimeError::with_message(
                    ErrorCode::TypeError,
                    String::from_str("Cannot compare these operand types"),
                ),
            ),
        }
    }

    /// The `<` operator.
    pub fn less(a: &Object, b: &Object) -> (res: OpResult)
        ensures
            op_out_matches(res, spec_less(a.abs(), b.abs())),
    {
        match (&a.value, &b.value) {
            (Value::Int(x), Value::Int(y)) => Ok(Object::new(Value::Bool(*x < *y))),
            (Value::Float(x), Value::Float(y)) => Ok(Object::new(Value::Bool(apf_lt(*x, *y)))),
            (Value::Float(x), Value::Int(y)) => Ok(
                Object::new(Value::Bool(apf_lt(*x, apf_of_int(*y)))),
            ),
            (Value::Int(x), Value::Float(y)) => Ok(
                Object::new(Value::Bool(apf_lt(apf_of_int(*x), *y))),
            ),
            _ => Err(
                RuntimeError::with_message(
                    ErrorCode::TypeError,
                    String::from_str("Cannot compare these operand types"),
                ),
            ),
        }
    }

    /// The `<=` operator.
    pub fn less_eq(a: &Object, b: &Object) -> (res: OpResult)
        ensures
            op_out_matches(res, spec_less_eq(a.abs(), b.abs())),
    {
        match (&a.value, &b.value) {
            (Value::Int(x), Value::Int(y)) => Ok(Object::new(Value::Bool(*x <= *y))),
            (Value::Float(x), Value::Float(y)) => Ok(Object::new(Value::Bool(apf_le(*x, *y)))),
            (Value::Float(x), Value::Int(y)) => Ok(
                Object::new(Value::Bool(apf_le(*x, apf_of_int(*y)))),
            ),
            (Value::Int(x), Value::Float(y)) => Ok(
                Object::new(Value::Bool(apf_le(apf_of_int(*x), *y))),
            ),
            _ => Err(
                RuntimeError::with_message(
                    ErrorCode::TypeError,
                    String::from_str("Cannot compare these operand types"),
                ),
            ),
        }
    }
}

/// Copy each object of a vector, keeping the shapes.
fn duplicate_object_vec(items: &Vec<Object>) -> (res: Vec<Object>)
    ensures
        res@.len() == items@.len(),
        forall|k: int| 0 <= k < items@.len() ==> res@[k].abs() == items@[k].abs(),
    decreases *items,
{
    let mut out: Vec<Object> = Vec::new();
    let mut i: usize = 0;
    while i < items.len()
        invariant
            i <= items@.len(),
            out@.len() == i,
            forall|k: int| 0 <= k < i ==> out@[k].abs() == items@[k].abs(),
        decreases items@.len() - i,
    {
        out.push(items[i].duplicate());
        i = i + 1;
    }
    out
}

/// A fresh `ZeroDivision` fault.
fn zero_division() -> (res: RuntimeError)
    ensures
        res.code == ErrorCode::ZeroDivision,
{
    RuntimeError::with_message(ErrorCode::ZeroDivision, String::from_str("Cannot divide by zero"))
}

/// Concatenate two object vectors into a fresh one with the same shapes.
fn concat_object_vecs(a: &Vec<Object>, b: &Vec<Object>) -> (res: Vec<Object>)
    ensures
        abs_seq(res@) == abs_seq(a@) + abs_seq(b@),
{
    let mut out: Vec<Object> = Vec::new();
    let mut i: usize = 0;
    while i < a.len()
        invariant
            i <= a@.len(),
            out@.len() == i,
            forall|k: int| 0 <= k < i ==> out@[k].abs() == a@[k].abs(),
        decreases a@.len() - i,
    {
        out.push(a[i].duplicate());
        i = i + 1;
    }
    let mut j: usize = 0;
    while j < b.len()
        invariant
            j <= b@.len(),
            out@.len() == a@.len() + j,
            forall|k: int| 0 <= k < a@.len() ==> out@[k].abs() == a@[k].abs(),
            forall|k: int| 0 <= k < j ==> out@[a@.len() + k].abs() == b@[k].abs(),
        decreases b@.len() - j,
    {
        out.push(b[j].duplicate());
        j = j + 1;
    }
    proof {
        lemma_abs_seq(out@);
        lemma_abs_seq(a@);
        lemma_abs_seq(b@);
        assert(abs_seq(out@) =~= abs_seq(a@) + abs_seq(b@));
    }
    out
}

/// Promotion of an Int shape to the Float holding the nearest double;
/// anything else is left alone.
pub open spec fn promote(v: AbsVal) -> AbsVal {
    match v {
        AbsVal::Int(i) => AbsVal::Float(float_of_int(i)),
        _ => v,
    }
}

/// Whether a numeric shape is zero: the Int zero or an IEEE-754 zero.
pub open spec fn value_is_zero(v: AbsVal) -> bool {
    match v {
        AbsVal::Int(i) => i == 0,
        AbsVal::Float(bits) => spec_float_is_zero(bits),
        _ => false,
    }
}

/// The conversion of an integer to a double is zero exactly on zero.
proof fn lemma_float_of_int_zero(i: i64)
    ensures
        spec_float_is_zero(float_of_int(i)) <==> i == 0,
{
    assert(0u64 & 0x7fff_ffff_ffff_ffff == 0) by (bit_vector);
    assert(0x3ff0_0000_0000_0000u64 & 0x7fff_ffff_ffff_ffff != 0) by (bit_vector);
}

/// The mixed numeric pairs behave exactly as if the Int operand were
/// promoted to Float first: every operator and the equality agree between
/// the mixed pair and its promoted form.
pub proof fn lemma_numeric_promotion(a: AbsVal, b: AbsVal)
    requires
        (a matches AbsVal::Int(_) && b matches AbsVal::Float(_)) || (a matches AbsVal::Float(_)
            && b matches AbsVal::Int(_)),
    ensures
        spec_add(a, b) == spec_add(promote(a), promote(b)),
        spec_sub(a, b) == spec_sub(promote(a), promote(b)),
        spec_mul(a, b) == spec_mul(promote(a), promote(b)),
        spec_div(a, b) == spec_div(promote(a), promote(b)),
        spec_rem(a, b) == spec_rem(promote(a), promote(b)),
        spec_obj_eq(a, b) == spec_obj_eq(promote(a), promote(b)),
        spec_greater(a, b) == spec_greater(promote(a), promote(b)),
        spec_greater_eq(a, b) == spec_greater_eq(promote(a), promote(b)),
        spec_less(a, b) == spec_less(promote(a), promote(b)),
        spec_less_eq(a, b) == spec_less_eq(promote(a), promote(b)),
{
    match a {
        AbsVal::Int(i) => lemma_float_of_int_zero(i),
        _ => (),
    }
    match b {
        AbsVal::Int(i) => lemma_float_of_int_zero(i),
        _ => (),
    }
}

/// Round trip: an encoded Int constant is decoded as exactly the value
/// encoded, its tag byte selecting the Int kind.
pub proof fn lemma_const_round_trip_int(value: i64)
    ensures
        ({
            let code = byte_code::spec_obj_from_int(value);
            &&& TypeCode::spec_from_byte(code[0]) == Some(TypeCode::Int)
            &&& spec_const_ok(TypeCode::Int, code, 1)
            &&& spec_const_value(TypeCode::Int, code, 1) == AbsVal::Int(value)
            &&& spec_const_size(TypeCode::Int, code, 1) == 8
        }),
{
    byte_code::lemma_int_round_trip(value);
}

/// Round trip: an encoded Float constant is decoded as exactly the bit
/// pattern encoded, its tag byte selecting the Float kind.
pub proof fn lemma_const_round_trip_float(bits: u64)
    ensures
        ({
            let code = byte_code::spec_obj_from_float(bits);
            &&& TypeCode::spec_from_byte(code[0]) == Some(TypeCode::Float)
            &&& spec_const_ok(TypeCode::Float, code, 1)
            &&& spec_const_value(TypeCode::Float, code, 1) == AbsVal::Float(bits)
            &&& spec_const_size(TypeCode::Float, code, 1) == 8
        }),
{
    byte_code::lemma_float_round_trip(bits);
}

/// Round trip: an encoded Bool constant is decoded as exactly the value
/// encoded, its tag byte selecting the Bool kind.
pub proof fn lemma_const_round_trip_boolean(value: bool)
    ensures
        ({
            let code = byte_code::spec_obj_from_boolean(value);
            &&& TypeCode::spec_from_byte(code[0]) == Some(TypeCode::Bool)
            &&& spec_const_ok(TypeCode::Bool, code, 1)
            &&& spec_const_value(TypeCode::Bool, code, 1) == AbsVal::Bool(value)
            &&& spec_const_size(TypeCode::Bool, code, 1) == 1
        }),
{
    byte_code::lemma_boolean_round_trip(value);
}

/// Round trip: an encoded String constant is decoded as exactly the
/// character sequence encoded — the empty string and multi-byte characters
/// included — its tag byte selecting the String kind.
pub proof fn lemma_const_round_trip_string(s: &str)
    requires
        s.spec_bytes().len() <= usize::MAX,
        s.spec_bytes().len() < 0x8000_0000_0000_0000,
    ensures
        ({
            let code = byte_code::spec_obj_from_string(s);
            &&& TypeCode::spec_from_byte(code[0]) == Some(TypeCode::String)
            &&& spec_const_ok(TypeCode::String, code, 1)
            &&& spec_const_value(TypeCode::String, code, 1) == AbsVal::Str(s@)
            &&& spec_const_size(TypeCode::String, code, 1) == 8 + s.spec_bytes().len()
        }),
{
    byte_code::lemma_string_round_trip(s);
    vstd::bytes::lemma_auto_spec_u64_to_from_le_bytes();
    assert(byte_code::spec_obj_from_string(s).len() == 9 + s.spec_bytes().len());
}

/// Division and modulo by a zero divisor always fail with `ZeroDivision`,
/// for every numeric pairing, and no nonzero divisor raises that code.
pub proof fn lemma_zero_division(a: AbsVal, b: AbsVal)
    requires
        a matches AbsVal::Int(_) || a matches AbsVal::Float(_),
        b matches AbsVal::Int(_) || b matches AbsVal::Float(_),
    ensures
        spec_div(a, b) == Result::<AbsVal, ErrorCode>::Err(ErrorCode::ZeroDivision)
            <==> value_is_zero(b),
        spec_rem(a, b) == Result::<AbsVal, ErrorCode>::Err(ErrorCode::ZeroDivision)
            <==> value_is_zero(b),
{
}

} // verus!
