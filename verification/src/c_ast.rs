//! The source tree: the data model the parser produces for the single
//! supported grammar, one function whose body is one return statement.

use vstd::prelude::*;

verus! {

/// A function's name. A plain string; the grammar puts no uniqueness
/// constraint on it, since a program holds a single function.
pub type Identifier = String;

/// A parsed program: exactly one function definition.
#[derive(Debug, PartialEq, Eq)]
pub struct Program {
    pub function_definition: FunctionDefinition,
}

/// A function definition: its name and its single-statement body.
#[derive(Debug, PartialEq, Eq)]
pub struct FunctionDefinition {
    pub name: Identifier,
    pub body: Statement,
}

/// The statements of the grammar; only `return <expression>;` exists.
#[derive(Debug, PartialEq, Eq, Clone, Copy)]
pub enum Statement {
    Return { body: Expression },
}

/// A return statement's payload.
#[derive(Debug, PartialEq, Eq, Clone, Copy)]
pub struct Return {
    pub body: Expression,
}

/// The expressions of the grammar; only signed 32-bit constants exist.
#[derive(Debug, PartialEq, Eq, Clone, Copy)]
pub enum Expression {
    Constant { int: i32 },
}

/// The mathematical content of a parsed program: the function's name as a
/// character sequence, and its body.
pub ghost struct SpecProgram {
    pub name: Seq<char>,
    pub body: Statement,
}

impl View for Program {
    type V = SpecProgram;

    open spec fn view(&self) -> SpecProgram {
        SpecProgram { name: self.function_definition.name@, body: self.function_definition.body }
    }
}

} // verus!
