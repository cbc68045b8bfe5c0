//! The library's general guarantees, stated over the spec models that the
//! stage contracts use and proved once for all inputs: a whitespace-only
//! source lexes to the end token alone, every valid program of the supported
//! grammar compiles to exactly four assembly lines, and the pipeline is a
//! function of the source text alone.

use vstd::prelude::*;
use crate::asm_ast::Instruction;
use crate::asm_ast::Operand;
use crate::asm_ast::mangled;
use crate::c_ast::Expression;
use crate::c_ast::SpecProgram;
use crate::c_ast::Statement;
use crate::c_to_asm::lower_program;
use crate::code_emission::emit_instruction_spec;
use crate::code_emission::emit_spec;
use crate::decimal::all_digits;
use crate::decimal::dec_digits;
use crate::decimal::digits_val;
use crate::decimal::lemma_digits_val_prefix;
use crate::decimal::parse_i32_spec;
use crate::lexer::SpecLexResult;
use crate::lexer::SpecToken;
use crate::lexer::Token;
use crate::lexer::TokenType;
use crate::lexer::cons_token;
use crate::lexer::keyword_kind;
use crate::lexer::lemma_lex_step_eof;
use crate::lexer::lemma_lex_step_number;
use crate::lexer::lemma_lex_step_structural;
use crate::lexer::lemma_lex_step_word;
use crate::lexer::lex_from;
use crate::lexer::lex_ok;
use crate::lexer::lex_spec;
use crate::lexer::lexed_tokens;
use crate::lexer::token_at;
use crate::lexer::views_of;
use crate::parser::SpecParseError;
use crate::parser::parse_spec;
use crate::text::is_alnum_char;
use crate::text::is_alpha_char;
use crate::text::is_digit_char;
use crate::text::is_ws_char;

verus! {

/// A run of whitespace alone.
pub open spec fn all_ws(s: Seq<char>) -> bool {
    forall|i: int| 0 <= i < s.len() ==> is_ws_char(#[trigger] s[i])
}

/// A word the scanner reads as one identifier: an alphabetic character, a
/// greedy alphanumeric continuation, and a spelling unlike every keyword.
pub open spec fn is_identifier_word(w: Seq<char>) -> bool {
    &&& w.len() > 0
    &&& is_alpha_char(w[0])
    &&& forall|i: int| 0 < i < w.len() ==> is_alnum_char(#[trigger] w[i])
    &&& keyword_kind(w) == TokenType::Identifier
}

/// A digit run whose value fits the signed 32-bit range.
pub open spec fn is_i32_constant_text(d: Seq<char>) -> bool {
    &&& d.len() > 0
    &&& all_digits(d)
    &&& digits_val(d) <= i32::MAX as int
}

/// Pieces joined left to right, from piece `k` on.
pub open spec fn join_from(xs: Seq<Seq<char>>, k: int) -> Seq<char>
    decreases xs.len() - k,
{
    if k < 0 || k >= xs.len() {
        Seq::empty()
    } else {
        xs[k] + join_from(xs, k + 1)
    }
}

/// The position where piece `m` starts in the joined sequence.
pub open spec fn piece_offset(xs: Seq<Seq<char>>, m: int) -> int
    decreases m,
{
    if m <= 0 {
        0
    } else {
        piece_offset(xs, m - 1) + xs[m - 1].len()
    }
}

proof fn lemma_piece_offset_mono(xs: Seq<Seq<char>>, a: int, b: int)
    requires
        0 <= a <= b,
    ensures
        0 <= piece_offset(xs, a) <= piece_offset(xs, b),
    decreases a + b,
{
    if a > 0 {
        lemma_piece_offset_mono(xs, a - 1, a - 1);
    }
    if a < b {
        lemma_piece_offset_mono(xs, a, b - 1);
    }
}

proof fn lemma_join_len(xs: Seq<Seq<char>>, k: int)
    requires
        0 <= k <= xs.len(),
    ensures
        join_from(xs, k).len() == piece_offset(xs, xs.len() as int) - piece_offset(xs, k),
    decreases xs.len() - k,
{
    if k < xs.len() {
        lemma_join_len(xs, k + 1);
    }
}

/// Each tail of the join reappears inside the whole join at its piece's
/// offset.
proof fn lemma_join_suffix(xs: Seq<Seq<char>>, m: int)
    requires
        0 <= m <= xs.len(),
    ensures
        forall|j: int|
            0 <= j < join_from(xs, m).len() ==> join_from(xs, 0)[piece_offset(xs, m) + j]
                == #[trigger] join_from(xs, m)[j],
    decreases m,
{
    if m > 0 {
        lemma_join_suffix(xs, m - 1);
        assert forall|j: int|
            0 <= j < join_from(xs, m).len() implies join_from(xs, 0)[piece_offset(xs, m) + j]
            == join_from(xs, m)[j] by {
            assert(join_from(xs, m - 1)[xs[m - 1].len() + j] == join_from(xs, m)[j]);
            assert(join_from(xs, 0)[piece_offset(xs, m - 1) + (xs[m - 1].len() + j)] == join_from(
                xs,
                m - 1,
            )[xs[m - 1].len() + j]);
        }
    }
}

/// Piece `m` occupies exactly its own region of the joined sequence.
proof fn lemma_join_piece(xs: Seq<Seq<char>>, m: int)
    requires
        0 <= m < xs.len(),
    ensures
        forall|j: int|
            0 <= j < xs[m].len() ==> join_from(xs, 0)[piece_offset(xs, m) + j] == #[trigger] xs[
                m
            ][j],
{
    lemma_join_suffix(xs, m);
    lemma_join_len(xs, m);
    lemma_join_len(xs, m + 1);
    assert forall|j: int|
        0 <= j < xs[m].len() implies join_from(xs, 0)[piece_offset(xs, m) + j] == xs[m][j] by {
        assert(join_from(xs, m)[j] == xs[m][j]);
    }
}

/// The pieces of a source text of the single supported derivation: the
/// whitespace runs around the grammar's tokens, the function's name, and the
/// constant's digits.
pub ghost struct ProgramShape {
    pub w0: Seq<char>,
    pub w1: Seq<char>,
    pub w2: Seq<char>,
    pub w3: Seq<char>,
    pub w4: Seq<char>,
    pub w5: Seq<char>,
    pub w6: Seq<char>,
    pub w7: Seq<char>,
    pub w8: Seq<char>,
    pub w9: Seq<char>,
    pub w10: Seq<char>,
    pub id: Seq<char>,
    pub num: Seq<char>,
}

/// The shape's pieces in source order: the grammar's tokens with the
/// whitespace runs between them.
pub open spec fn pieces(p: ProgramShape) -> Seq<Seq<char>> {
    seq![
        p.w0,
        "int"@,
        p.w1,
        p.id,
        p.w2,
        "("@,
        p.w3,
        "void"@,
        p.w4,
        ")"@,
        p.w5,
        "{"@,
        p.w6,
        "return"@,
        p.w7,
        p.num,
        p.w8,
        ";"@,
        p.w9,
        "}"@,
        p.w10,
    ]
}

/// The assembled source text:
/// `int <name> ( void ) { return <digits> ; }` under arbitrary whitespace.
pub open spec fn shape_src(p: ProgramShape) -> Seq<char> {
    join_from(pieces(p), 0)
}

/// Where piece `k` of the shape starts in the source.
pub open spec fn shape_at(p: ProgramShape, k: int) -> int {
    piece_offset(pieces(p), k)
}

/// A well-formed shape: every run is whitespace alone, the name and the
/// digits are set off from the keywords before them, the name is an
/// identifier word, and the digits fit the 32-bit signed range.
pub open spec fn shape_wf(p: ProgramShape) -> bool {
    &&& all_ws(p.w0)
    &&& all_ws(p.w1)
    &&& p.w1.len() > 0
    &&& all_ws(p.w2)
    &&& all_ws(p.w3)
    &&& all_ws(p.w4)
    &&& all_ws(p.w5)
    &&& all_ws(p.w6)
    &&& all_ws(p.w7)
    &&& p.w7.len() > 0
    &&& all_ws(p.w8)
    &&& all_ws(p.w9)
    &&& all_ws(p.w10)
    &&& is_identifier_word(p.id)
    &&& is_i32_constant_text(p.num)
}

/// The eleven tokens a well-formed shape lexes to, in grammar order, ending
/// in the zero-width end token.
pub open spec fn shape_tokens(file: Seq<char>, p: ProgramShape) -> Seq<SpecToken> {
    let s = shape_src(p);
    seq![
        token_at(file, s, TokenType::Int, shape_at(p, 1), shape_at(p, 2)),
        token_at(file, s, TokenType::Identifier, shape_at(p, 3), shape_at(p, 4)),
        token_at(file, s, TokenType::ParenOpen, shape_at(p, 5), shape_at(p, 6)),
        token_at(file, s, TokenType::Void, shape_at(p, 7), shape_at(p, 8)),
        token_at(file, s, TokenType::ParenClose, shape_at(p, 9), shape_at(p, 10)),
        token_at(file, s, TokenType::BraceOpen, shape_at(p, 11), shape_at(p, 12)),
        token_at(file, s, TokenType::Return, shape_at(p, 13), shape_at(p, 14)),
        token_at(file, s, TokenType::Constant, shape_at(p, 15), shape_at(p, 16)),
        token_at(file, s, TokenType::Semicolon, shape_at(p, 17), shape_at(p, 18)),
        token_at(file, s, TokenType::BraceClose, shape_at(p, 19), shape_at(p, 20)),
        token_at(file, s, TokenType::Eof, s.len() as int, s.len() as int),
    ]
}

/// The spec-level pipeline: lexing, parsing, lowering and emission in order;
/// a fault in either front stage is the pipeline's fault.
pub open spec fn pipeline_lines(file: Seq<char>, s: Seq<char>) -> Option<Seq<Seq<char>>> {
    match lex_spec(file, s) {
        SpecLexResult::Tokens(ts) => match parse_spec(ts) {
            Ok(p) => Some(emit_spec(lower_program(p))),
            Err(_) => None,
        },
        _ => None,
    }
}

/// Lexing a source of whitespace alone yields exactly one token: the
/// end-of-input token.
pub proof fn lemma_whitespace_lexes_to_eof_alone(file: Seq<char>, s: Seq<char>)
    requires
        all_ws(s),
    ensures
        lex_ok(lex_spec(file, s)),
        lexed_tokens(lex_spec(file, s)).len() == 1,
        lexed_tokens(lex_spec(file, s))[0].kind == TokenType::Eof,
{
    lemma_lex_step_eof(file, s, 0);
}

/// Lexing and parsing are functions of the source text alone: two token
/// vectors that meet the lexer's contract on one source have equal views,
/// and two programs that meet the parser's contract on equal token views
/// are structurally identical. Re-running the pipeline on one source
/// therefore rebuilds the same trees.
pub proof fn lemma_lex_parse_deterministic(
    file: Seq<char>,
    s: Seq<char>,
    tokens1: Seq<Token>,
    tokens2: Seq<Token>,
    program1: crate::c_ast::Program,
    program2: crate::c_ast::Program,
)
    requires
        SpecLexResult::Tokens(views_of(tokens1)) == lex_spec(file, s),
        SpecLexResult::Tokens(views_of(tokens2)) == lex_spec(file, s),
        parse_spec(views_of(tokens1)) == Ok::<SpecProgram, SpecParseError>(program1@),
        parse_spec(views_of(tokens2)) == Ok::<SpecProgram, SpecParseError>(program2@),
    ensures
        views_of(tokens1) == views_of(tokens2),
        program1@ == program2@,
{
}

/// One whitespace run of the shape, then one keyword, read as one word
/// token: the scanner's step over pieces `wsk` (the run) and `wsk + 1` (the
/// keyword), whose token is `shape_tokens(file, p)[tok]`.
proof fn lemma_step_keyword(file: Seq<char>, p: ProgramShape, wsk: int, tok: int)
    requires
        shape_wf(p),
        (wsk == 0 && tok == 0) || (wsk == 6 && tok == 3) || (wsk == 12 && tok == 6),
    ensures
        lex_from(file, shape_src(p), shape_at(p, wsk)) == cons_token(
            shape_tokens(file, p)[tok],
            lex_from(file, shape_src(p), shape_at(p, wsk + 2)),
        ),
{
    let xs = pieces(p);
    let s = shape_src(p);
    let start = shape_at(p, wsk + 1);
    let end = shape_at(p, wsk + 2);
    reveal_strlit("int");
    reveal_strlit("void");
    reveal_strlit("return");
    reveal_strlit(")");
    lemma_join_piece(xs, wsk);
    lemma_join_piece(xs, wsk + 1);
    lemma_join_piece(xs, wsk + 2);
    lemma_join_piece(xs, wsk + 3);
    lemma_join_len(xs, 0);
    lemma_join_len(xs, wsk + 2);
    // The run before the keyword is whitespace alone.
    assert forall|i: int| shape_at(p, wsk) <= i < start implies is_ws_char(s[i]) by {
        assert(s[i] == xs[wsk][i - shape_at(p, wsk)]);
    }
    // The keyword's own characters.
    assert(forall|j: int| 0 <= j < xs[wsk + 1].len() ==> #[trigger] s[start + j] == xs[wsk + 1][j]);
    assert(s[start] == xs[wsk + 1][0]);
    // The character after the keyword: the next run's first character, or
    // what follows an empty run.
    if xs[wsk + 2].len() > 0 {
        assert(s[end] == xs[wsk + 2][0]);
    } else {
        assert(shape_at(p, wsk + 3) == end);
        assert(s[end] == xs[wsk + 3][0]);
    }
    assert(!is_alnum_char(s[end]));
    assert forall|i: int| start < i < end implies is_alnum_char(s[i]) by {
        assert(s[i] == xs[wsk + 1][i - start]);
    }
    assert(is_alpha_char(s[start]));
    lemma_lex_step_word(file, s, shape_at(p, wsk), start, end);
    assert(s.subrange(start, end) =~= xs[wsk + 1]);
}

/// The step for the identifier: the whitespace run after `int`, then the
/// name, read as one identifier token.
proof fn lemma_step_id(file: Seq<char>, p: ProgramShape)
    requires
        shape_wf(p),
    ensures
        lex_from(file, shape_src(p), shape_at(p, 2)) == cons_token(
            shape_tokens(file, p)[1],
            lex_from(file, shape_src(p), shape_at(p, 4)),
        ),
        shape_tokens(file, p)[1].text == p.id,
{
    let xs = pieces(p);
    let s = shape_src(p);
    let start = shape_at(p, 3);
    let end = shape_at(p, 4);
    reveal_strlit("(");
    lemma_join_piece(xs, 2);
    lemma_join_piece(xs, 3);
    lemma_join_piece(xs, 4);
    lemma_join_piece(xs, 5);
    lemma_join_len(xs, 0);
    lemma_join_len(xs, 4);
    assert forall|i: int| shape_at(p, 2) <= i < start implies is_ws_char(s[i]) by {
        assert(s[i] == xs[2][i - shape_at(p, 2)]);
    }
    assert(forall|j: int| 0 <= j < p.id.len() ==> #[trigger] s[start + j] == p.id[j]);
    // The character after the name: the next run's first character, or the
    // opening parenthesis hard against the name.
    if p.w2.len() > 0 {
        assert(s[end] == xs[4][0]);
    } else {
        assert(shape_at(p, 5) == end);
        assert(s[end] == xs[5][0]);
    }
    assert(!is_alnum_char(s[end]));
    assert forall|i: int| start < i < end implies is_alnum_char(s[i]) by {
        assert(s[i] == p.id[i - start]);
    }
    lemma_lex_step_word(file, s, shape_at(p, 2), start, end);
    assert(s.subrange(start, end) =~= p.id);
}

/// The step for one structural character: the whitespace run before it, then
/// the character itself.
proof fn lemma_step_structural(file: Seq<char>, p: ProgramShape, wsk: int, tok: int)
    requires
        shape_wf(p),
        (wsk == 4 && tok == 2) || (wsk == 8 && tok == 4) || (wsk == 10 && tok == 5) || (wsk == 16
            && tok == 8) || (wsk == 18 && tok == 9),
    ensures
        lex_from(file, shape_src(p), shape_at(p, wsk)) == cons_token(
            shape_tokens(file, p)[tok],
            lex_from(file, shape_src(p), shape_at(p, wsk + 2)),
        ),
{
    let xs = pieces(p);
    let s = shape_src(p);
    let at = shape_at(p, wsk + 1);
    reveal_strlit("(");
    reveal_strlit(")");
    reveal_strlit("{");
    reveal_strlit("}");
    reveal_strlit(";");
    lemma_join_piece(xs, wsk);
    lemma_join_piece(xs, wsk + 1);
    lemma_join_len(xs, 0);
    lemma_join_len(xs, wsk + 1);
    assert forall|i: int| shape_at(p, wsk) <= i < at implies is_ws_char(s[i]) by {
        assert(s[i] == xs[wsk][i - shape_at(p, wsk)]);
    }
    assert(s[at] == xs[wsk + 1][0]);
    assert(shape_at(p, wsk + 2) == at + 1);
    let kind = shape_tokens(file, p)[tok].kind;
    assert(crate::lexer::structural_kind(s[at]) == Some(kind));
    lemma_lex_step_structural(file, s, shape_at(p, wsk), at, kind);
}

/// The step for the constant: the whitespace run after `return`, then the
/// digits, read as one constant token.
proof fn lemma_step_num(file: Seq<char>, p: ProgramShape)
    requires
        shape_wf(p),
    ensures
        lex_from(file, shape_src(p), shape_at(p, 14)) == cons_token(
            shape_tokens(file, p)[7],
            lex_from(file, shape_src(p), shape_at(p, 16)),
        ),
        shape_tokens(file, p)[7].text == p.num,
{
    let xs = pieces(p);
    let s = shape_src(p);
    let start = shape_at(p, 15);
    let end = shape_at(p, 16);
    reveal_strlit(";");
    lemma_join_piece(xs, 14);
    lemma_join_piece(xs, 15);
    lemma_join_piece(xs, 16);
    lemma_join_piece(xs, 17);
    lemma_join_len(xs, 0);
    lemma_join_len(xs, 16);
    assert forall|i: int| shape_at(p, 14) <= i < start implies is_ws_char(s[i]) by {
        assert(s[i] == xs[14][i - shape_at(p, 14)]);
    }
    assert(forall|j: int| 0 <= j < p.num.len() ==> #[trigger] s[start + j] == p.num[j]);
    // The character after the digits: the next run's first character, or the
    // semicolon hard against them. Neither is a digit nor a letter.
    if p.w8.len() > 0 {
        assert(s[end] == xs[16][0]);
    } else {
        assert(shape_at(p, 17) == end);
        assert(s[end] == xs[17][0]);
    }
    assert(!is_digit_char(s[end]) && !is_alpha_char(s[end]));
    assert forall|i: int| start < i < end implies is_digit_char(s[i]) by {
        assert(s[i] == p.num[i - start]);
    }
    assert(s[start] == p.num[0]);
    assert(is_digit_char(s[start]));
    lemma_lex_step_number(file, s, shape_at(p, 14), start, end);
    assert(s.subrange(start, end) =~= p.num);
}

/// The step past the trailing whitespace: only the end token is left.
proof fn lemma_step_tail(file: Seq<char>, p: ProgramShape)
    requires
        shape_wf(p),
    ensures
        lex_from(file, shape_src(p), shape_at(p, 20)) == SpecLexResult::Tokens(
            seq![shape_tokens(file, p)[10]],
        ),
{
    let xs = pieces(p);
    let s = shape_src(p);
    lemma_join_piece(xs, 20);
    lemma_join_len(xs, 0);
    lemma_join_len(xs, 20);
    lemma_join_len(xs, 21);
    lemma_piece_offset_mono(xs, 20, 21);
    assert forall|i: int| shape_at(p, 20) <= i < s.len() implies is_ws_char(s[i]) by {
        assert(s[i] == xs[20][i - shape_at(p, 20)]);
    }
    lemma_lex_step_eof(file, s, shape_at(p, 20));
}

/// Lexing a valid program of the supported grammar: the eleven tokens come
/// out in grammar order, carrying the identifier's and the constant's exact
/// texts.
pub proof fn lemma_valid_program_tokens(file: Seq<char>, p: ProgramShape)
    requires
        shape_wf(p),
    ensures
        lex_spec(file, shape_src(p)) == SpecLexResult::Tokens(shape_tokens(file, p)),
        shape_tokens(file, p)[1].text == p.id,
        shape_tokens(file, p)[7].text == p.num,
{
    let s = shape_src(p);
    let ts = shape_tokens(file, p);
    lemma_step_keyword(file, p, 0, 0);
    lemma_step_id(file, p);
    lemma_step_structural(file, p, 4, 2);
    lemma_step_keyword(file, p, 6, 3);
    lemma_step_structural(file, p, 8, 4);
    lemma_step_structural(file, p, 10, 5);
    lemma_step_keyword(file, p, 12, 6);
    lemma_step_num(file, p);
    lemma_step_structural(file, p, 16, 8);
    lemma_step_structural(file, p, 18, 9);
    lemma_step_tail(file, p);
    assert(shape_at(p, 0) == 0);
    assert(lex_from(file, s, 0) == SpecLexResult::Tokens(
        seq![ts[0]] + (seq![ts[1]] + (seq![ts[2]] + (seq![ts[3]] + (seq![ts[4]] + (seq![ts[5]]
            + (seq![ts[6]] + (seq![ts[7]] + (seq![ts[8]] + (seq![ts[9]] + seq![ts[10]]))))))))),
    ));
    assert(seq![ts[0]] + (seq![ts[1]] + (seq![ts[2]] + (seq![ts[3]] + (seq![ts[4]] + (seq![ts[5]]
        + (seq![ts[6]] + (seq![ts[7]] + (seq![ts[8]] + (seq![ts[9]] + seq![ts[10]])))))))))
        =~= ts);
}

/// Every valid program of the supported grammar — `int <name>(void){return
/// <value>;}` under arbitrary whitespace — lexes, parses, lowers and emits
/// successfully, into exactly one global directive, one label, one move and
/// one return line, in that order.
pub proof fn lemma_valid_program_compiles(file: Seq<char>, p: ProgramShape)
    requires
        shape_wf(p),
    ensures
        pipeline_lines(file, shape_src(p)) == Some(
            seq![
                "\t.globl "@ + mangled(p.id),
                mangled(p.id) + ":"@,
                "\tmov "@ + "w0"@ + ", "@ + ("#"@ + dec_digits(digits_val(p.num) as nat)),
                "\tret"@,
            ],
        ),
{
    lemma_valid_program_tokens(file, p);
    let ts = shape_tokens(file, p);

    // The constant's text reads as a non-negative 32-bit value.
    lemma_digits_val_prefix(p.num, 0);
    let v = digits_val(p.num);
    assert(is_digit_char(p.num[0]));
    assert(p.num[0] != '-' && p.num[0] != '+');
    assert(parse_i32_spec(p.num) == Some(v as i32));

    // The parse succeeds and carries the name and the value.
    let prog = SpecProgram {
        name: p.id,
        body: Statement::Return { body: Expression::Constant { int: v as i32 } },
    };
    assert(parse_spec(ts) == Ok::<SpecProgram, SpecParseError>(prog));

    // Lowering and emission.
    let lowered = lower_program(prog);
    assert(lowered.instructions =~= seq![
        Instruction::Mov { src: Operand::Imm(v as i32), dst: Operand::Register },
        Instruction::Ret,
    ]);
    assert(lowered.instructions.map_values(|i: Instruction| emit_instruction_spec(i)) =~= seq![
        emit_instruction_spec(
            Instruction::Mov { src: Operand::Imm(v as i32), dst: Operand::Register },
        ),
        emit_instruction_spec(Instruction::Ret),
    ]);
    assert(emit_spec(lowered) =~= seq![
        "\t.globl "@ + mangled(p.id),
        mangled(p.id) + ":"@,
        "\tmov "@ + "w0"@ + ", "@ + ("#"@ + dec_digits(digits_val(p.num) as nat)),
        "\tret"@,
    ]);
}

} // verus!
