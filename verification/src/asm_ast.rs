//! The target instruction tree: the data model lowering produces and the
//! emitter consumes.

use vstd::prelude::*;
use crate::c_ast::Identifier;

verus! {

/// An instruction-level program: exactly one function definition.
#[derive(Debug, PartialEq, Eq)]
pub struct Program {
    pub function_definition: FunctionDefinition,
}

/// A lowered function: its source-level name and its instructions in order.
#[derive(Debug, PartialEq, Eq)]
pub struct FunctionDefinition {
    pub name: Identifier,
    pub instructions: Vec<Instruction>,
}

/// The target instructions: a move between operands, and a return.
#[derive(Debug, PartialEq, Eq, Clone, Copy)]
pub enum Instruction {
    Mov { src: Operand, dst: Operand },
    Ret,
}

/// Instruction operands: an immediate constant, or the one fixed
/// return-value register.
#[derive(Debug, PartialEq, Eq, Clone, Copy)]
pub enum Operand {
    Imm(i32),
    Register,
}

/// The platform's symbol-mangling convention: the emitted symbol is the
/// source-level name behind a single leading underscore.
pub open spec fn mangled(name: Seq<char>) -> Seq<char> {
    seq!['_'] + name
}

/// The mathematical content of an instruction-level program: the function's
/// name as a character sequence, and its instructions.
pub ghost struct SpecAsmProgram {
    pub name: Seq<char>,
    pub instructions: Seq<Instruction>,
}

impl View for Program {
    type V = SpecAsmProgram;

    open spec fn view(&self) -> SpecAsmProgram {
        SpecAsmProgram {
            name: self.function_definition.name@,
            instructions: self.function_definition.instructions@,
        }
    }
}

impl FunctionDefinition {
    /// The function's externally visible symbol: its source-level name behind
    /// the platform's leading underscore.
    pub fn name(&self) -> (r: String)
        ensures
            r@ == mangled(self.name@),
    {
        let mut r = String::from_str("_");
        proof {
            reveal_strlit("_");
        }
        r.append(self.name.as_str());
        proof {
            assert(r@ =~= mangled(self.name@));
        }
        r
    }
}

} // verus!
