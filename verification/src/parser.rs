//! The parser: consumes the token sequence by recursive descent with one
//! token of lookahead and produces the source tree for the single supported
//! derivation `int <name> ( void ) { return <constant> ; }`, or fails with
//! the first grammar fault.
//!
//! The parser's behaviour is modelled by [`parse_spec`]: each expected token
//! is consumed in order, the constant's text must read as a signed 32-bit
//! value, and running off the end of the token sequence is its own defined
//! fault.

use vstd::prelude::*;
use crate::c_ast::Expression;
use crate::c_ast::FunctionDefinition;
use crate::c_ast::Identifier;
use crate::c_ast::Program;
use crate::c_ast::SpecProgram;
use crate::c_ast::Statement;
use crate::decimal::parse_i32;
use crate::decimal::parse_i32_spec;
use crate::lexer::SpecLoc;
use crate::lexer::SpecToken;
use crate::lexer::Token;
use crate::lexer::TokenLocation;
use crate::lexer::TokenType;
use crate::lexer::views_of;

verus! {

/// The parse faults: advancing past the end of the token sequence (an
/// internal contract violation, defined rather than undefined), a grammar
/// mismatch carrying the expected and found kinds, and a constant whose text
/// does not read as a signed 32-bit value.
#[derive(Debug, PartialEq, Eq)]
pub enum ParseError {
    ParsedAfterEof,
    SyntaxErrorUnexpectedToken { expected: TokenType, found: TokenType, location: TokenLocation },
    IntParseError(TokenLocation),
}

/// The mathematical content of a [`ParseError`].
pub ghost enum SpecParseError {
    ParsedAfterEof,
    SyntaxErrorUnexpectedToken { expected: TokenType, found: TokenType, location: SpecLoc },
    IntParseError(SpecLoc),
}

impl View for ParseError {
    type V = SpecParseError;

    open spec fn view(&self) -> SpecParseError {
        match self {
            ParseError::ParsedAfterEof => SpecParseError::ParsedAfterEof,
            ParseError::SyntaxErrorUnexpectedToken { expected, found, location } => {
                SpecParseError::SyntaxErrorUnexpectedToken {
                    expected: *expected,
                    found: *found,
                    location: location@,
                }
            },
            ParseError::IntParseError(location) => SpecParseError::IntParseError(location@),
        }
    }
}

/// Consuming the token at `i` against an expected kind: the token when it
/// matches, the mismatch fault when it does not, and the past-the-end fault
/// when there is no token.
pub open spec fn consume_spec(ts: Seq<SpecToken>, i: int, expected: TokenType) -> Result<
    SpecToken,
    SpecParseError,
> {
    if i >= ts.len() {
        Err(SpecParseError::ParsedAfterEof)
    } else if ts[i].kind != expected {
        Err(
            SpecParseError::SyntaxErrorUnexpectedToken {
                expected,
                found: ts[i].kind,
                location: ts[i].loc,
            },
        )
    } else {
        Ok(ts[i])
    }
}

/// Consuming the constant at `i` and reading its text as a signed 32-bit
/// value.
pub open spec fn parse_int_at(ts: Seq<SpecToken>, i: int) -> Result<i32, SpecParseError> {
    match consume_spec(ts, i, TokenType::Constant) {
        Err(e) => Err(e),
        Ok(t) => match parse_i32_spec(t.text) {
            Some(v) => Ok(v),
            None => Err(SpecParseError::IntParseError(t.loc)),
        },
    }
}

/// The expression beginning at `i`: only constants exist.
pub open spec fn parse_expression_at(ts: Seq<SpecToken>, i: int) -> Result<
    Expression,
    SpecParseError,
> {
    match parse_int_at(ts, i) {
        Err(e) => Err(e),
        Ok(v) => Ok(Expression::Constant { int: v }),
    }
}

/// The statement beginning at `i`: `return <expression> ;`, three tokens.
pub open spec fn parse_statement_at(ts: Seq<SpecToken>, i: int) -> Result<
    Statement,
    SpecParseError,
> {
    match consume_spec(ts, i, TokenType::Return) {
        Err(e) => Err(e),
        Ok(_) => match parse_expression_at(ts, i + 1) {
            Err(e) => Err(e),
            Ok(exp) => match consume_spec(ts, i + 2, TokenType::Semicolon) {
                Err(e) => Err(e),
                Ok(_) => Ok(Statement::Return { body: exp }),
            },
        },
    }
}

/// The function definition beginning at `i`:
/// `int <name> ( void ) { <statement> }`, ten tokens.
pub open spec fn parse_function_definition_at(ts: Seq<SpecToken>, i: int) -> Result<
    SpecProgram,
    SpecParseError,
> {
    match consume_spec(ts, i, TokenType::Int) {
        Err(e) => Err(e),
        Ok(_) => match consume_spec(ts, i + 1, TokenType::Identifier) {
            Err(e) => Err(e),
            Ok(name_tok) => match consume_spec(ts, i + 2, TokenType::ParenOpen) {
                Err(e) => Err(e),
                Ok(_) => match consume_spec(ts, i + 3, TokenType::Void) {
                    Err(e) => Err(e),
                    Ok(_) => match consume_spec(ts, i + 4, TokenType::ParenClose) {
                        Err(e) => Err(e),
                        Ok(_) => match consume_spec(ts, i + 5, TokenType::BraceOpen) {
                            Err(e) => Err(e),
                            Ok(_) => match parse_statement_at(ts, i + 6) {
                                Err(e) => Err(e),
                                Ok(stmt) => match consume_spec(ts, i + 9, TokenType::BraceClose) {
                                    Err(e) => Err(e),
                                    Ok(_) => Ok(
                                        SpecProgram { name: name_tok.text, body: stmt },
                                    ),
                                },
                            },
                        },
                    },
                },
            },
        },
    }
}

/// What parsing a token sequence yields: the program of the single supported
/// derivation, or its first fault. Tokens past the derivation are ignored.
pub open spec fn parse_spec(ts: Seq<SpecToken>) -> Result<SpecProgram, SpecParseError> {
    parse_function_definition_at(ts, 0)
}

/// Single-token-lookahead recursive descent over a borrowed token sequence.
pub struct Parser<'a> {
    tokens: &'a [Token],
    current: usize,
}

impl<'a> Parser<'a> {
    /// The views of the tokens the parser walks.
    pub closed spec fn toks(&self) -> Seq<SpecToken> {
        views_of(self.tokens@)
    }

    /// The cursor into the token sequence.
    pub closed spec fn idx(&self) -> int {
        self.current as int
    }

    fn new(tokens: &'a [Token]) -> (p: Parser<'a>)
        ensures
            p.toks() == views_of(tokens@),
            p.idx() == 0,
    {
        Parser { tokens, current: 0 }
    }

    /// Hands out the current token and moves past it; past the end of the
    /// sequence it is the defined past-the-end fault.
    fn advance(&mut self) -> (r: Result<&'a Token, ParseError>)
        ensures
            final(self).toks() == old(self).toks(),
            match r {
                Ok(t) => {
                    &&& 0 <= old(self).idx() < old(self).toks().len()
                    &&& t@ == old(self).toks()[old(self).idx()]
                    &&& final(self).idx() == old(self).idx() + 1
                },
                Err(e) => {
                    &&& e@ == SpecParseError::ParsedAfterEof
                    &&& old(self).idx() >= old(self).toks().len()
                    &&& final(self).idx() == old(self).idx()
                },
            },
    {
        if self.current < self.tokens.len() {
            let token = &self.tokens[self.current];
            self.current = self.current + 1;
            Ok(token)
        } else {
            Err(ParseError::ParsedAfterEof)
        }
    }

    /// Advances one token; a kind mismatch is the grammar fault carrying the
    /// mismatched token's own location. The cursor moves past the token in
    /// both outcomes; only the past-the-end fault leaves it in place.
    fn consume(&mut self, expected_type: &TokenType) -> (r: Result<&'a Token, ParseError>)
        ensures
            final(self).toks() == old(self).toks(),
            match r {
                Ok(t) => {
                    &&& consume_spec(old(self).toks(), old(self).idx(), *expected_type) == Ok::<SpecToken, SpecParseError>(t@)
                    &&& final(self).idx() == old(self).idx() + 1
                },
                Err(e) => {
                    &&& consume_spec(old(self).toks(), old(self).idx(), *expected_type) == Err::<
                        SpecToken,
                        SpecParseError,
                    >(e@)
                    &&& final(self).idx() == if old(self).idx() < old(self).toks().len() {
                        old(self).idx() + 1
                    } else {
                        old(self).idx()
                    }
                },
            },
    {
        let token = match self.advance() {
            Ok(t) => t,
            Err(e) => {
                return Err(e);
            },
        };
        if token.token_type != *expected_type {
            Err(
                ParseError::SyntaxErrorUnexpectedToken {
                    expected: *expected_type,
                    found: token.token_type,
                    location: token.location.clone(),
                },
            )
        } else {
            Ok(token)
        }
    }

    /// Consumes a constant token and reads its text as a signed 32-bit value;
    /// a malformed or out-of-range text is the integer fault at the token.
    fn parse_int(&mut self) -> (r: Result<i32, ParseError>)
        ensures
            final(self).toks() == old(self).toks(),
            match r {
                Ok(v) => {
                    &&& parse_int_at(old(self).toks(), old(self).idx()) == Ok::<i32, SpecParseError>(v)
                    &&& final(self).idx() == old(self).idx() + 1
                },
                Err(e) => parse_int_at(old(self).toks(), old(self).idx()) == Err::<i32, SpecParseError>(e@),
            },
    {
        let constant = match self.consume(&TokenType::Constant) {
            Ok(t) => t,
            Err(e) => {
                return Err(e);
            },
        };
        match parse_i32(constant.text.as_str()) {
            Some(v) => Ok(v),
            None => Err(ParseError::IntParseError(constant.location.clone())),
        }
    }

    /// Consumes an identifier token and hands out its text.
    fn parse_identifier(&mut self) -> (r: Result<Identifier, ParseError>)
        ensures
            final(self).toks() == old(self).toks(),
            match r {
                Ok(name) => {
                    &&& consume_spec(old(self).toks(), old(self).idx(), TokenType::Identifier)
                        matches Ok(t) && name@ == t.text
                    &&& final(self).idx() == old(self).idx() + 1
                },
                Err(e) => consume_spec(old(self).toks(), old(self).idx(), TokenType::Identifier)
                    == Err::<SpecToken, SpecParseError>(e@),
            },
    {
        let identifier = match self.consume(&TokenType::Identifier) {
            Ok(t) => t,
            Err(e) => {
                return Err(e);
            },
        };
        Ok(identifier.text.clone())
    }

    /// The expression beginning at the cursor; only constants exist.
    fn parse_expression(&mut self) -> (r: Result<Expression, ParseError>)
        ensures
            final(self).toks() == old(self).toks(),
            match r {
                Ok(exp) => {
                    &&& parse_expression_at(old(self).toks(), old(self).idx()) == Ok::<Expression, SpecParseError>(exp)
                    &&& final(self).idx() == old(self).idx() + 1
                },
                Err(e) => parse_expression_at(old(self).toks(), old(self).idx()) == Err::<Expression, SpecParseError>(e@),
            },
    {
        let value = match self.parse_int() {
            Ok(v) => v,
            Err(e) => {
                return Err(e);
            },
        };
        Ok(Expression::Constant { int: value })
    }

    /// The statement beginning at the cursor: `return <expression> ;`.
    fn parse_statement(&mut self) -> (r: Result<Statement, ParseError>)
        ensures
            final(self).toks() == old(self).toks(),
            match r {
                Ok(stmt) => {
                    &&& parse_statement_at(old(self).toks(), old(self).idx()) == Ok::<Statement, SpecParseError>(stmt)
                    &&& final(self).idx() == old(self).idx() + 3
                },
                Err(e) => parse_statement_at(old(self).toks(), old(self).idx()) == Err::<Statement, SpecParseError>(e@),
            },
    {
        match self.consume(&TokenType::Return) {
            Ok(_) => {},
            Err(e) => {
                return Err(e);
            },
        }
        let expression = match self.parse_expression() {
            Ok(exp) => exp,
            Err(e) => {
                return Err(e);
            },
        };
        match self.consume(&TokenType::Semicolon) {
            Ok(_) => {},
            Err(e) => {
                return Err(e);
            },
        }
        Ok(Statement::Return { body: expression })
    }

    /// The function definition beginning at the cursor:
    /// `int <name> ( void ) { <statement> }`.
    fn parse_function_definition(&mut self) -> (r: Result<FunctionDefinition, ParseError>)
        ensures
            final(self).toks() == old(self).toks(),
            match r {
                Ok(f) => {
                    &&& parse_function_definition_at(old(self).toks(), old(self).idx()) == Ok::<SpecProgram, SpecParseError>(
                        SpecProgram { name: f.name@, body: f.body },
                    )
                    &&& final(self).idx() == old(self).idx() + 10
                },
                Err(e) => parse_function_definition_at(old(self).toks(), old(self).idx()) == Err::<
                    SpecProgram,
                    SpecParseError,
                >(e@),
            },
    {
        match self.consume(&TokenType::Int) {
            Ok(_) => {},
            Err(e) => {
                return Err(e);
            },
        }
        let identifier = match self.parse_identifier() {
            Ok(name) => name,
            Err(e) => {
                return Err(e);
            },
        };
        match self.consume(&TokenType::ParenOpen) {
            Ok(_) => {},
            Err(e) => {
                return Err(e);
            },
        }
        match self.consume(&TokenType::Void) {
            Ok(_) => {},
            Err(e) => {
                return Err(e);
            },
        }
        match self.consume(&TokenType::ParenClose) {
            Ok(_) => {},
            Err(e) => {
                return Err(e);
            },
        }
        match self.consume(&TokenType::BraceOpen) {
            Ok(_) => {},
            Err(e) => {
                return Err(e);
            },
        }
        let statement = match self.parse_statement() {
            Ok(stmt) => stmt,
            Err(e) => {
                return Err(e);
            },
        };
        match self.consume(&TokenType::BraceClose) {
            Ok(_) => {},
            Err(e) => {
                return Err(e);
            },
        }
        Ok(FunctionDefinition { name: identifier, body: statement })
    }

    /// The whole program: one function definition. Tokens past it are left
    /// unread.
    fn parse_program(&mut self) -> (r: Result<Program, ParseError>)
        ensures
            match r {
                Ok(p) => parse_function_definition_at(old(self).toks(), old(self).idx()) == Ok::<SpecProgram, SpecParseError>(p@),
                Err(e) => parse_function_definition_at(old(self).toks(), old(self).idx()) == Err::<
                    SpecProgram,
                    SpecParseError,
                >(e@),
            },
    {
        let function_definition = match self.parse_function_definition() {
            Ok(f) => f,
            Err(e) => {
                return Err(e);
            },
        };
        Ok(Program { function_definition })
    }

    /// Parses a full token sequence into the source tree of the single
    /// supported grammar, or fails with the first grammar fault.
    pub fn parse(tokens: &[Token]) -> (r: Result<Program, ParseError>)
        ensures
            match r {
                Ok(p) => parse_spec(views_of(tokens@)) == Ok::<SpecProgram, SpecParseError>(p@),
                Err(e) => parse_spec(views_of(tokens@)) == Err::<SpecProgram, SpecParseError>(e@),
            },
    {
        let mut parser = Parser::new(tokens);
        parser.parse_program()
    }
}

} // verus!
