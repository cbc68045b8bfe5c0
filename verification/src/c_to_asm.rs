//! Lowering: the total, pure structural map from the source tree to the
//! target instruction tree. A constant becomes an immediate; a return
//! becomes a move of its value into the one return-value register followed
//! by a return; the function's name is carried over unchanged.

use vstd::prelude::*;
use crate::asm_ast;
use crate::c_ast;

verus! {

/// Lowering an expression: a constant becomes an immediate operand.
pub open spec fn lower_expression(e: c_ast::Expression) -> asm_ast::Operand {
    match e {
        c_ast::Expression::Constant { int: v } => asm_ast::Operand::Imm(v),
    }
}

/// Lowering a statement: a return becomes a move of its value into the
/// return-value register, then a return.
pub open spec fn lower_statement(s: c_ast::Statement) -> Seq<asm_ast::Instruction> {
    match s {
        c_ast::Statement::Return { body } => seq![
            asm_ast::Instruction::Mov {
                src: lower_expression(body),
                dst: asm_ast::Operand::Register,
            },
            asm_ast::Instruction::Ret,
        ],
    }
}

/// Lowering a program: the name is kept; the body becomes the instruction
/// sequence.
pub open spec fn lower_program(p: c_ast::SpecProgram) -> asm_ast::SpecAsmProgram {
    asm_ast::SpecAsmProgram { name: p.name, instructions: lower_statement(p.body) }
}

fn convert_expression(expression: &c_ast::Expression) -> (r: asm_ast::Operand)
    ensures
        r == lower_expression(*expression),
{
    match expression {
        c_ast::Expression::Constant { int: v } => asm_ast::Operand::Imm(*v),
    }
}

fn convert_statement(statement: &c_ast::Statement) -> (r: Vec<asm_ast::Instruction>)
    ensures
        r@ == lower_statement(*statement),
{
    match statement {
        c_ast::Statement::Return { body } => {
            let mut instructions: Vec<asm_ast::Instruction> = Vec::new();
            instructions.push(
                asm_ast::Instruction::Mov {
                    src: convert_expression(body),
                    dst: asm_ast::Operand::Register,
                },
            );
            instructions.push(asm_ast::Instruction::Ret);
            proof {
                assert(instructions@ =~= lower_statement(*statement));
            }
            instructions
        },
    }
}

fn convert_function_definition(function_definition: &c_ast::FunctionDefinition) -> (r:
    asm_ast::FunctionDefinition)
    ensures
        r.name@ == function_definition.name@,
        r.instructions@ == lower_statement(function_definition.body),
{
    asm_ast::FunctionDefinition {
        name: function_definition.name.clone(),
        instructions: convert_statement(&function_definition.body),
    }
}

/// Lowers the source tree into the target instruction tree. Total: every
/// source tree the parser can produce has a defined lowering.
pub fn c_to_asm(program: &c_ast::Program) -> (r: asm_ast::Program)
    ensures
        r@ == lower_program(program@),
{
    asm_ast::Program {
        function_definition: convert_function_definition(&program.function_definition),
    }
}

} // verus!
