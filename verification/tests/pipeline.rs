use minicc::asm_ast;
use minicc::c_ast;
use minicc::c_to_asm::c_to_asm;
use minicc::code_emission::emit;
use minicc::lexer::Lexer;
use minicc::parser::Parser;

fn compile(source: &str) -> Vec<String> {
    let mut lexer = Lexer::new("test.c", source);
    let tokens = lexer.lex().unwrap();
    let program = Parser::parse(&tokens).unwrap();
    let lowered = c_to_asm(&program);
    emit(&lowered)
}

#[test]
fn full_program_emits_the_expected_lines() {
    assert_eq!(compile("int main(void){return 2;}"), vec![
        "\t.globl _main",
        "_main:",
        "\tmov w0, #2",
        "\tret",
    ]);
}

#[test]
fn arbitrary_whitespace_emits_the_same_four_line_shape() {
    let lines = compile(" \t int\n f00 ( void ) \r\n {\n\treturn \t 0 ;\n }\n\n");
    assert_eq!(lines, vec!["\t.globl _f00", "_f00:", "\tmov w0, #0", "\tret"]);
}

#[test]
fn largest_constant_emits_its_exact_numeral() {
    let lines = compile("int main(void){return 2147483647;}");
    assert_eq!(lines[2], "\tmov w0, #2147483647");
}

#[test]
fn pipeline_rerun_rebuilds_identical_results() {
    let source = "int main(void)\n{\nreturn 42;\n}";
    let mut lexer1 = Lexer::new("test.c", source);
    let tokens1 = lexer1.lex().unwrap();
    let mut lexer2 = Lexer::new("test.c", source);
    let tokens2 = lexer2.lex().unwrap();
    assert_eq!(tokens1, tokens2);
    let program1 = Parser::parse(&tokens1).unwrap();
    let program2 = Parser::parse(&tokens2).unwrap();
    assert_eq!(program1, program2);
    let lowered1 = c_to_asm(&program1);
    let lowered2 = c_to_asm(&program2);
    assert_eq!(lowered1, lowered2);
    assert_eq!(emit(&lowered1), emit(&lowered2));
}

#[test]
fn lowering_builds_a_move_then_a_return() {
    let program = c_ast::Program {
        function_definition: c_ast::FunctionDefinition {
            name: "answer".to_string(),
            body: c_ast::Statement::Return {
                body: c_ast::Expression::Constant { int: 42 },
            },
        },
    };
    let lowered = c_to_asm(&program);
    assert_eq!(lowered.function_definition.name, "answer");
    assert_eq!(lowered.function_definition.instructions, vec![
        asm_ast::Instruction::Mov {
            src: asm_ast::Operand::Imm(42),
            dst: asm_ast::Operand::Register,
        },
        asm_ast::Instruction::Ret,
    ]);
}

#[test]
fn symbol_names_carry_one_leading_underscore() {
    let function = asm_ast::FunctionDefinition {
        name: "main".to_string(),
        instructions: vec![asm_ast::Instruction::Ret],
    };
    assert_eq!(function.name(), "_main");
}

#[test]
fn negative_immediates_render_with_a_minus_sign() {
    let program = asm_ast::Program {
        function_definition: asm_ast::FunctionDefinition {
            name: "f".to_string(),
            instructions: vec![
                asm_ast::Instruction::Mov {
                    src: asm_ast::Operand::Imm(-2147483648),
                    dst: asm_ast::Operand::Register,
                },
                asm_ast::Instruction::Ret,
            ],
        },
    };
    assert_eq!(emit(&program), vec![
        "\t.globl _f",
        "_f:",
        "\tmov w0, #-2147483648",
        "\tret",
    ]);
}
