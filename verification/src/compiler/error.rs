//! Compile-time diagnostics. Each constructor builds the diagnostic value
//! for one fault; compilation aborts with it, and the caller owns the
//! printing and the process exit.

use vstd::prelude::*;
use vstd::string::StringExecFns;

verus! {

/// What went wrong at compile time.
#[derive(Debug)]
pub enum CompileErrorKind {
    InvalidCharacter { character: char },
    InvalidEscapeSequence { character: char },
    ExpectedOperand { operator: String },
    UnmatchedParenthesis,
    UnmatchedSquareBracket,
    UnmatchedCurlyBrace,
    TooManyStatementsInParentheses,
    TooManyStatementsInSquareBrackets,
    TooManyParameters { max: usize },
    DuplicateParameter { name: String },
    EmptySubscription,
    EmptyListElement,
    EmptyFunctionArgument,
    WrongOperandType { operator: String, got: String, expected: String },
    InvalidStatement,
    EmptyParentheses,
    UndeclaredSymbol { symbol: String },
}

/// A compile-time fault and the source line it was found on.
#[derive(Debug)]
pub struct CompileError {
    pub kind: CompileErrorKind,
    pub line: usize,
}

/// An invalid character in the source text.
pub fn invalid_character(c: char, line: usize) -> (res: CompileError)
    ensures
        res.kind == (CompileErrorKind::InvalidCharacter { character: c }),
        res.line == line,
{
    CompileError { kind: CompileErrorKind::InvalidCharacter { character: c }, line }
}

/// An invalid escape sequence in a string literal.
pub fn invalid_escape_sequence(c: char, line: usize) -> (res: CompileError)
    ensures
        res.kind == (CompileErrorKind::InvalidEscapeSequence { character: c }),
        res.line == line,
{
    CompileError { kind: CompileErrorKind::InvalidEscapeSequence { character: c }, line }
}

/// An operator missing one of its operands.
pub fn expected_operand(line: usize, operator: &str) -> (res: CompileError)
    ensures
        res.kind matches CompileErrorKind::ExpectedOperand { operator: o } && o@ == operator@,
        res.line == line,
{
    CompileError {
        kind: CompileErrorKind::ExpectedOperand { operator: String::from_str(operator) },
        line,
    }
}

/// A parenthesis with no matching closing one.
pub fn unmatched_parenthesis(line: usize) -> (res: CompileError)
    ensures
        res.kind == CompileErrorKind::UnmatchedParenthesis,
        res.line == line,
{
    CompileError { kind: CompileErrorKind::UnmatchedParenthesis, line }
}

/// A square bracket with no matching closing one.
pub fn unmatched_square_bracket(line: usize) -> (res: CompileError)
    ensures
        res.kind == CompileErrorKind::UnmatchedSquareBracket,
        res.line == line,
{
    CompileError { kind: CompileErrorKind::UnmatchedSquareBracket, line }
}

/// A curly brace with no matching closing one.
pub fn unmatched_curly_brace(line: usize) -> (res: CompileError)
    ensures
        res.kind == CompileErrorKind::UnmatchedCurlyBrace,
        res.line == line,
{
    CompileError { kind: CompileErrorKind::UnmatchedCurlyBrace, line }
}

/// Parentheses holding more than one statement.
pub fn too_many_statements_in_parentheses(line: usize) -> (res: CompileError)
    ensures
        res.kind == CompileErrorKind::TooManyStatementsInParentheses,
        res.line == line,
{
    CompileError { kind: CompileErrorKind::TooManyStatementsInParentheses, line }
}

/// Square brackets holding more than one statement.
pub fn too_many_statements_in_square_brackets(line: usize) -> (res: CompileError)
    ensures
        res.kind == CompileErrorKind::TooManyStatementsInSquareBrackets,
        res.line == line,
{
    CompileError { kind: CompileErrorKind::TooManyStatementsInSquareBrackets, line }
}

/// A function declared with more parameters than allowed.
pub fn too_many_parameters(line: usize, max: usize) -> (res: CompileError)
    ensures
        res.kind == (CompileErrorKind::TooManyParameters { max }),
        res.line == line,
{
    CompileError { kind: CompileErrorKind::TooManyParameters { max }, line }
}

/// A parameter name used twice in one function declaration.
pub fn duplicate_parameter(line: usize, param_name: &str) -> (res: CompileError)
    ensures
        res.kind matches CompileErrorKind::DuplicateParameter { name: n } && n@ == param_name@,
        res.line == line,
{
    CompileError {
        kind: CompileErrorKind::DuplicateParameter { name: String::from_str(param_name) },
        line,
    }
}

/// A subscript operator with no index.
pub fn empty_subscription(line: usize) -> (res: CompileError)
    ensures
        res.kind == CompileErrorKind::EmptySubscription,
        res.line == line,
{
    CompileError { kind: CompileErrorKind::EmptySubscription, line }
}

/// A list with a missing element.
pub fn empty_list_element(line: usize) -> (res: CompileError)
    ensures
        res.kind == CompileErrorKind::EmptyListElement,
        res.line == line,
{
    CompileError { kind: CompileErrorKind::EmptyListElement, line }
}

/// A call with a missing argument.
pub fn empty_function_argument(line: usize) -> (res: CompileError)
    ensures
        res.kind == CompileErrorKind::EmptyFunctionArgument,
        res.line == line,
{
    CompileError { kind: CompileErrorKind::EmptyFunctionArgument, line }
}

/// An operand of the wrong kind for an operator.
pub fn wrong_operand_type(line: usize, operator: &str, got: &str, expected: &str) -> (res:
    CompileError)
    ensures
        res.kind matches CompileErrorKind::WrongOperandType { operator: o, got: g, expected: e }
            && o@ == operator@ && g@ == got@ && e@ == expected@,
        res.line == line,
{
    CompileError {
        kind: CompileErrorKind::WrongOperandType {
            operator: String::from_str(operator),
            got: String::from_str(got),
            expected: String::from_str(expected),
        },
        line,
    }
}

/// A statement no rule of the language produces.
pub fn invalid_statement(line: usize) -> (res: CompileError)
    ensures
        res.kind == CompileErrorKind::InvalidStatement,
        res.line == line,
{
    CompileError { kind: CompileErrorKind::InvalidStatement, line }
}

/// Parentheses holding nothing.
pub fn empty_parentheses(line: usize) -> (res: CompileError)
    ensures
        res.kind == CompileErrorKind::EmptyParentheses,
        res.line == line,
{
    CompileError { kind: CompileErrorKind::EmptyParentheses, line }
}

/// An identifier not declared in any reachable scope.
pub fn undeclared_symbol(symbol: &str, line: usize) -> (res: CompileError)
    ensures
        res.kind matches CompileErrorKind::UndeclaredSymbol { symbol: s } && s@ == symbol@,
        res.line == line,
{
    CompileError {
        kind: CompileErrorKind::UndeclaredSymbol { symbol: String::from_str(symbol) },
        line,
    }
}

} // verus!
