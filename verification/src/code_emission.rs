//! The emitter: renders the instruction tree into assembly-syntax text
//! lines. For the one function it emits a global-visibility directive naming
//! the mangled symbol, the label, then one tab-prefixed line per
//! instruction. It performs no validation: it trusts the tree that lowering
//! produced.

use vstd::prelude::*;
use crate::asm_ast::FunctionDefinition;
use crate::asm_ast::Instruction;
use crate::asm_ast::Operand;
use crate::asm_ast::Program;
use crate::asm_ast::SpecAsmProgram;
use crate::asm_ast::mangled;
use crate::decimal::dec_int;
use crate::decimal::i32_to_string;

verus! {

/// The rendering of an operand: an immediate is `#` and its decimal value;
/// the return-value register is `w0`.
pub open spec fn emit_operand_spec(operand: Operand) -> Seq<char> {
    match operand {
        Operand::Imm(v) => "#"@ + dec_int(v as int),
        Operand::Register => "w0"@,
    }
}

/// The rendering of an instruction behind one tab: a move names its
/// destination before its source; a return is the bare mnemonic.
pub open spec fn emit_instruction_spec(instruction: Instruction) -> Seq<char> {
    match instruction {
        Instruction::Mov { src, dst } => "\tmov "@ + emit_operand_spec(dst) + ", "@
            + emit_operand_spec(src),
        Instruction::Ret => "\tret"@,
    }
}

/// The lines of one function: the global-visibility directive naming the
/// mangled symbol, the label with that same symbol, then one line per
/// instruction in order.
pub open spec fn emit_function_spec(name: Seq<char>, instructions: Seq<Instruction>) -> Seq<
    Seq<char>,
> {
    seq!["\t.globl "@ + mangled(name), mangled(name) + ":"@] + instructions.map_values(
        |i: Instruction| emit_instruction_spec(i),
    )
}

/// The assembly text of a program, line by line.
pub open spec fn emit_spec(p: SpecAsmProgram) -> Seq<Seq<char>> {
    emit_function_spec(p.name, p.instructions)
}

/// The views of emitted lines.
pub open spec fn line_views(lines: Seq<String>) -> Seq<Seq<char>> {
    lines.map_values(|s: String| s@)
}

fn emit_operand(operand: &Operand) -> (r: String)
    ensures
        r@ == emit_operand_spec(*operand),
{
    match operand {
        Operand::Imm(v) => {
            let mut s = String::from_str("#");
            let num = i32_to_string(*v);
            s.append(num.as_str());
            s
        },
        Operand::Register => String::from_str("w0"),
    }
}

fn emit_instruction(instruction: &Instruction) -> (r: String)
    ensures
        r@ == emit_instruction_spec(*instruction),
{
    match instruction {
        Instruction::Mov { src, dst } => {
            let mut s = String::from_str("\tmov ");
            let rendered_dst = emit_operand(dst);
            s.append(rendered_dst.as_str());
            s.append(", ");
            let rendered_src = emit_operand(src);
            s.append(rendered_src.as_str());
            proof {
                assert(s@ =~= emit_instruction_spec(*instruction));
            }
            s
        },
        Instruction::Ret => String::from_str("\tret"),
    }
}

fn emit_function_definition(function_definition: &FunctionDefinition) -> (r: Vec<String>)
    ensures
        line_views(r@) == emit_function_spec(
            function_definition.name@,
            function_definition.instructions@,
        ),
{
    let ghost target = emit_function_spec(
        function_definition.name@,
        function_definition.instructions@,
    );
    let mut lines: Vec<String> = Vec::new();

    let symbol = function_definition.name();
    let mut globl = String::from_str("\t.globl ");
    globl.append(symbol.as_str());
    lines.push(globl);

    let label = symbol.concat(":");
    lines.push(label);
    proof {
        assert(line_views(lines@) =~= target.subrange(0, 2));
    }

    let n = function_definition.instructions.len();
    let mut i: usize = 0;
    while i < n
        invariant
            i <= n,
            n == function_definition.instructions@.len(),
            target == emit_function_spec(
                function_definition.name@,
                function_definition.instructions@,
            ),
            target.len() == 2 + n,
            line_views(lines@) =~= target.subrange(0, 2 + i),
        decreases n - i,
    {
        let ghost previous = lines@;
        let line = emit_instruction(&function_definition.instructions[i]);
        let ghost line_view = line@;
        lines.push(line);
        proof {
            assert(lines@.len() == previous.len() + 1);
            assert(previous.len() == line_views(previous).len());
            assert(previous.len() == 2 + i);
            assert(lines@[previous.len() as int]@ == line_view);
            assert(line_views(lines@) =~= line_views(previous).push(line_view));
            assert(target[2 + i] == emit_instruction_spec(function_definition.instructions@[
                i as int
            ]));
            assert(target.subrange(0, 2 + i + 1) =~= target.subrange(0, 2 + i).push(target[
                2 + i
            ]));
        }
        i = i + 1;
        proof {
            assert(line_views(lines@) =~= target.subrange(0, 2 + i));
        }
    }
    proof {
        assert(line_views(lines@) =~= target);
    }
    lines
}

/// Renders the instruction tree as assembly text lines; joined with line
/// feeds they form the text of an assembly file.
pub fn emit(program: &Program) -> (r: Vec<String>)
    ensures
        line_views(r@) == emit_spec(program@),
{
    emit_function_definition(&program.function_definition)
}

} // verus!
