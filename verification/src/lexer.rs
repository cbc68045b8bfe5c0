//! The lexer: converts raw source characters into the ordered sequence of
//! classified tokens, each carrying its source position, or fails at the
//! first offending position.
//!
//! The scanner's behaviour is modelled by the spec function [`lex_spec`]:
//! whitespace is skipped, single structural characters map to their kinds,
//! an alphabetic character opens a greedy alphanumeric run that is then
//! classified against the keyword spellings, a digit opens a greedy digit
//! run that must not be followed by a letter, and everything else is an
//! unrecognised character. End of input yields a single zero-width token.

use vstd::prelude::*;
use crate::text::is_ws_char;
use crate::text::is_digit_char;
use crate::text::is_alpha_char;
use crate::text::is_alnum_char;
use crate::text::push_char;

verus! {

/// The classification of a token.
#[derive(Debug, PartialEq, Eq, Structural, Clone, Copy)]
pub enum TokenType {
    // Tokens that carry a value
    Identifier,
    Constant,
    // Structural elements
    ParenOpen,
    ParenClose,
    BraceOpen,
    BraceClose,
    Semicolon,
    // Keywords
    Int,
    Void,
    Return,
    // End of input
    Eof,
}

/// Where a token sits in the source: the source name, the 1-based line and
/// column of its first character, and its extent as a character offset and
/// length against the original buffer.
#[derive(Debug, PartialEq, Eq)]
pub struct TokenLocation {
    pub file_name: String,
    pub line: usize,
    pub column: usize,
    pub start: usize,
    pub length: usize,
}

/// A location as text: the source name, the line and the column, separated
/// by colons.
pub open spec fn loc_text(l: SpecLoc) -> Seq<char> {
    l.file + ":"@ + crate::decimal::dec_digits(l.line as nat) + ":"@ + crate::decimal::dec_digits(
        l.column as nat,
    )
}

impl TokenLocation {
    /// Renders the location as `file:line:column`.
    pub fn to_text(&self) -> (r: String)
        ensures
            r@ == loc_text(self@),
    {
        let mut out = self.file_name.clone();
        out.append(":");
        let line_numeral = crate::decimal::u64_to_string(self.line as u64);
        out.append(line_numeral.as_str());
        out.append(":");
        let column_numeral = crate::decimal::u64_to_string(self.column as u64);
        out.append(column_numeral.as_str());
        proof {
            assert(out@ =~= loc_text(self@));
        }
        out
    }
}

impl Clone for TokenLocation {
    /// An owned copy: the same location.
    fn clone(&self) -> (r: Self)
        ensures
            r@ == self@,
    {
        TokenLocation {
            file_name: self.file_name.clone(),
            line: self.line,
            column: self.column,
            start: self.start,
            length: self.length,
        }
    }
}

/// The mathematical content of a [`TokenLocation`].
pub ghost struct SpecLoc {
    pub file: Seq<char>,
    pub line: int,
    pub column: int,
    pub start: int,
    pub length: int,
}

impl View for TokenLocation {
    type V = SpecLoc;

    open spec fn view(&self) -> SpecLoc {
        SpecLoc {
            file: self.file_name@,
            line: self.line as int,
            column: self.column as int,
            start: self.start as int,
            length: self.length as int,
        }
    }
}

/// A classified, located fragment of source text.
#[derive(Debug, PartialEq, Eq, Clone)]
pub struct Token {
    pub token_type: TokenType,
    pub text: String,
    pub location: TokenLocation,
}

/// The mathematical content of a [`Token`].
pub ghost struct SpecToken {
    pub kind: TokenType,
    pub text: Seq<char>,
    pub loc: SpecLoc,
}

impl View for Token {
    type V = SpecToken;

    open spec fn view(&self) -> SpecToken {
        SpecToken { kind: self.token_type, text: self.text@, loc: self.location@ }
    }
}

/// The two lexical faults: a digit run immediately followed by a letter, and
/// a character no rule matches. Each carries the offending position.
#[derive(Debug, PartialEq, Eq, Clone)]
pub enum LexerError {
    InvalidNumber(TokenLocation),
    UnrecognisedCharacter(TokenLocation),
}

/// The 1-based line number of a position: one more than the number of line
/// feeds before it.
pub open spec fn line_at(s: Seq<char>, pos: int) -> int
    decreases pos,
{
    if pos <= 0 {
        1
    } else if s[pos - 1] == '\n' {
        line_at(s, pos - 1) + 1
    } else {
        line_at(s, pos - 1)
    }
}

/// The 1-based column of a position: the distance to the nearest line feed
/// before it, or to the start of the source.
pub open spec fn col_at(s: Seq<char>, pos: int) -> int
    decreases pos,
{
    if pos <= 0 {
        1
    } else if s[pos - 1] == '\n' {
        1
    } else {
        col_at(s, pos - 1) + 1
    }
}

/// The first position at or after `pos` holding a character the scanner does
/// not skip.
pub open spec fn skip_ws(s: Seq<char>, pos: int) -> int
    decreases s.len() - pos,
{
    if pos < 0 || pos >= s.len() {
        pos
    } else if is_ws_char(s[pos]) {
        skip_ws(s, pos + 1)
    } else {
        pos
    }
}

/// The end of the greedy alphanumeric run beginning at `pos`.
pub open spec fn scan_alnum(s: Seq<char>, pos: int) -> int
    decreases s.len() - pos,
{
    if pos < 0 || pos >= s.len() {
        pos
    } else if is_alnum_char(s[pos]) {
        scan_alnum(s, pos + 1)
    } else {
        pos
    }
}

/// The end of the greedy digit run beginning at `pos`.
pub open spec fn scan_digits(s: Seq<char>, pos: int) -> int
    decreases s.len() - pos,
{
    if pos < 0 || pos >= s.len() {
        pos
    } else if is_digit_char(s[pos]) {
        scan_digits(s, pos + 1)
    } else {
        pos
    }
}

pub proof fn lemma_line_col_bounds(s: Seq<char>, pos: int)
    requires
        0 <= pos,
    ensures
        1 <= line_at(s, pos) <= pos + 1,
        1 <= col_at(s, pos) <= pos + 1,
    decreases pos,
{
    if pos > 0 {
        lemma_line_col_bounds(s, pos - 1);
    }
}

pub proof fn lemma_skip_ws_bounds(s: Seq<char>, pos: int)
    requires
        0 <= pos <= s.len(),
    ensures
        pos <= skip_ws(s, pos) <= s.len(),
    decreases s.len() - pos,
{
    if pos < s.len() && is_ws_char(s[pos]) {
        lemma_skip_ws_bounds(s, pos + 1);
    }
}

/// Skipping whitespace stops on a character that is none, skipping every
/// whitespace character on the way.
pub proof fn lemma_skip_ws_stops(s: Seq<char>, pos: int)
    requires
        0 <= pos <= s.len(),
    ensures
        pos <= skip_ws(s, pos) <= s.len(),
        skip_ws(s, pos) < s.len() ==> !is_ws_char(s[skip_ws(s, pos)]),
        forall|i: int| pos <= i < skip_ws(s, pos) ==> is_ws_char(#[trigger] s[i]),
    decreases s.len() - pos,
{
    if pos < s.len() && is_ws_char(s[pos]) {
        lemma_skip_ws_stops(s, pos + 1);
    }
}

pub proof fn lemma_scan_alnum_bounds(s: Seq<char>, pos: int)
    requires
        0 <= pos <= s.len(),
    ensures
        pos <= scan_alnum(s, pos) <= s.len(),
    decreases s.len() - pos,
{
    if pos < s.len() && is_alnum_char(s[pos]) {
        lemma_scan_alnum_bounds(s, pos + 1);
    }
}

pub proof fn lemma_scan_digits_bounds(s: Seq<char>, pos: int)
    requires
        0 <= pos <= s.len(),
    ensures
        pos <= scan_digits(s, pos) <= s.len(),
    decreases s.len() - pos,
{
    if pos < s.len() && is_digit_char(s[pos]) {
        lemma_scan_digits_bounds(s, pos + 1);
    }
}

/// Skipping whitespace lands exactly at the end of a whitespace run.
pub proof fn lemma_skip_ws_to(s: Seq<char>, pos: int, end: int)
    requires
        0 <= pos <= end <= s.len(),
        forall|i: int| pos <= i < end ==> is_ws_char(#[trigger] s[i]),
        end == s.len() || !is_ws_char(s[end]),
    ensures
        skip_ws(s, pos) == end,
    decreases end - pos,
{
    if pos < end {
        lemma_skip_ws_to(s, pos + 1, end);
    }
}

/// The greedy alphanumeric run ends exactly where alphanumerics end.
pub proof fn lemma_scan_alnum_to(s: Seq<char>, pos: int, end: int)
    requires
        0 <= pos <= end <= s.len(),
        forall|i: int| pos <= i < end ==> is_alnum_char(#[trigger] s[i]),
        end == s.len() || !is_alnum_char(s[end]),
    ensures
        scan_alnum(s, pos) == end,
    decreases end - pos,
{
    if pos < end {
        lemma_scan_alnum_to(s, pos + 1, end);
    }
}

/// The greedy digit run ends exactly where digits end.
pub proof fn lemma_scan_digits_to(s: Seq<char>, pos: int, end: int)
    requires
        0 <= pos <= end <= s.len(),
        forall|i: int| pos <= i < end ==> is_digit_char(#[trigger] s[i]),
        end == s.len() || !is_digit_char(s[end]),
    ensures
        scan_digits(s, pos) == end,
    decreases end - pos,
{
    if pos < end {
        lemma_scan_digits_to(s, pos + 1, end);
    }
}

/// The kind of a single structural character, if it is one.
pub open spec fn structural_kind(c: char) -> Option<TokenType> {
    if c == '(' {
        Some(TokenType::ParenOpen)
    } else if c == ')' {
        Some(TokenType::ParenClose)
    } else if c == '{' {
        Some(TokenType::BraceOpen)
    } else if c == '}' {
        Some(TokenType::BraceClose)
    } else if c == ';' {
        Some(TokenType::Semicolon)
    } else {
        None
    }
}

/// Classification of a scanned word: the three keywords by their exact
/// spelling; every other word is a plain identifier.
pub open spec fn keyword_kind(text: Seq<char>) -> TokenType {
    if text == "int"@ {
        TokenType::Int
    } else if text == "void"@ {
        TokenType::Void
    } else if text == "return"@ {
        TokenType::Return
    } else {
        TokenType::Identifier
    }
}

/// The location of a token of the given extent.
pub open spec fn loc_at(file: Seq<char>, s: Seq<char>, start: int, length: int) -> SpecLoc {
    SpecLoc { file, line: line_at(s, start), column: col_at(s, start), start, length }
}

/// The token spanning `start..end`, with its kind.
pub open spec fn token_at(
    file: Seq<char>,
    s: Seq<char>,
    kind: TokenType,
    start: int,
    end: int,
) -> SpecToken {
    SpecToken { kind, text: s.subrange(start, end), loc: loc_at(file, s, start, end - start) }
}

/// What lexing yields: the complete token sequence ending in the end-of-input
/// token, or the first lexical fault with its location.
pub ghost enum SpecLexResult {
    Tokens(Seq<SpecToken>),
    InvalidNumber(SpecLoc),
    UnrecognisedCharacter(SpecLoc),
}

/// Prepends one token to a successful remainder; a fault swallows it.
pub open spec fn cons_token(t: SpecToken, rest: SpecLexResult) -> SpecLexResult {
    match rest {
        SpecLexResult::Tokens(ts) => SpecLexResult::Tokens(seq![t] + ts),
        _ => rest,
    }
}

/// Prepends finished tokens to a remainder; a fault swallows them.
pub open spec fn cons_tokens(ts: Seq<SpecToken>, rest: SpecLexResult) -> SpecLexResult {
    match rest {
        SpecLexResult::Tokens(rs) => SpecLexResult::Tokens(ts + rs),
        _ => rest,
    }
}

/// The token stream from position `pos` on: skip whitespace, read one token
/// by the first character's class, and continue after it.
pub open spec fn lex_from(file: Seq<char>, s: Seq<char>, pos: int) -> SpecLexResult
    decreases s.len() - pos,
    when 0 <= pos <= s.len()
{
    let start = skip_ws(s, pos);
    if start >= s.len() {
        SpecLexResult::Tokens(seq![token_at(file, s, TokenType::Eof, start, start)])
    } else {
        let c = s[start];
        proof {
            lemma_skip_ws_bounds(s, pos);
        }
        match structural_kind(c) {
            Some(kind) => cons_token(
                token_at(file, s, kind, start, start + 1),
                lex_from(file, s, start + 1),
            ),
            None => {
                if is_alpha_char(c) {
                    let end = scan_alnum(s, start + 1);
                    proof {
                        lemma_scan_alnum_bounds(s, start + 1);
                    }
                    cons_token(
                        token_at(file, s, keyword_kind(s.subrange(start, end)), start, end),
                        lex_from(file, s, end),
                    )
                } else if is_digit_char(c) {
                    let end = scan_digits(s, start + 1);
                    if end < s.len() && is_alpha_char(s[end]) {
                        SpecLexResult::InvalidNumber(loc_at(file, s, start, end - start))
                    } else {
                        proof {
                            lemma_scan_digits_bounds(s, start + 1);
                        }
                        cons_token(
                            token_at(file, s, TokenType::Constant, start, end),
                            lex_from(file, s, end),
                        )
                    }
                } else {
                    SpecLexResult::UnrecognisedCharacter(loc_at(file, s, start, 1))
                }
            }
        }
    }
}

/// The full token stream of a source text.
pub open spec fn lex_spec(file: Seq<char>, s: Seq<char>) -> SpecLexResult {
    lex_from(file, s, 0)
}

/// The views of a produced token vector.
pub open spec fn views_of(tokens: Seq<Token>) -> Seq<SpecToken> {
    tokens.map_values(|t: Token| t@)
}

/// Whether lexing succeeded.
pub open spec fn lex_ok(r: SpecLexResult) -> bool {
    r is Tokens
}

/// The tokens of a successful lexing; empty on a fault.
pub open spec fn lexed_tokens(r: SpecLexResult) -> Seq<SpecToken> {
    match r {
        SpecLexResult::Tokens(ts) => ts,
        _ => Seq::empty(),
    }
}

/// From `pos`, whitespace up to the end of the source leaves exactly the
/// zero-width end-of-input token.
pub proof fn lemma_lex_step_eof(file: Seq<char>, s: Seq<char>, pos: int)
    requires
        0 <= pos <= s.len(),
        forall|i: int| pos <= i < s.len() ==> is_ws_char(#[trigger] s[i]),
    ensures
        lex_from(file, s, pos) == SpecLexResult::Tokens(
            seq![token_at(file, s, TokenType::Eof, s.len() as int, s.len() as int)],
        ),
{
    lemma_skip_ws_to(s, pos, s.len() as int);
}

/// From `pos`, whitespace and then a structural character yield its token
/// and scanning continues directly after it.
pub proof fn lemma_lex_step_structural(
    file: Seq<char>,
    s: Seq<char>,
    pos: int,
    start: int,
    kind: TokenType,
)
    requires
        0 <= pos <= start < s.len(),
        forall|i: int| pos <= i < start ==> is_ws_char(#[trigger] s[i]),
        structural_kind(s[start]) == Some(kind),
    ensures
        lex_from(file, s, pos) == cons_token(
            token_at(file, s, kind, start, start + 1),
            lex_from(file, s, start + 1),
        ),
{
    assert(!is_ws_char(s[start]));
    lemma_skip_ws_to(s, pos, start);
}

/// From `pos`, whitespace and then a word (an alphabetic character and its
/// greedy alphanumeric run) yield the word's classified token, and scanning
/// continues directly after the run.
pub proof fn lemma_lex_step_word(file: Seq<char>, s: Seq<char>, pos: int, start: int, end: int)
    requires
        0 <= pos <= start < end <= s.len(),
        forall|i: int| pos <= i < start ==> is_ws_char(#[trigger] s[i]),
        is_alpha_char(s[start]),
        forall|i: int| start < i < end ==> is_alnum_char(#[trigger] s[i]),
        end == s.len() || !is_alnum_char(s[end]),
    ensures
        lex_from(file, s, pos) == cons_token(
            token_at(file, s, keyword_kind(s.subrange(start, end)), start, end),
            lex_from(file, s, end),
        ),
{
    assert(!is_ws_char(s[start]));
    assert(structural_kind(s[start]) is None);
    lemma_skip_ws_to(s, pos, start);
    lemma_scan_alnum_to(s, start + 1, end);
}

/// From `pos`, whitespace and then a greedy digit run not followed by a
/// letter yield the constant token, and scanning continues directly after
/// the run.
pub proof fn lemma_lex_step_number(file: Seq<char>, s: Seq<char>, pos: int, start: int, end: int)
    requires
        0 <= pos <= start < end <= s.len(),
        forall|i: int| pos <= i < start ==> is_ws_char(#[trigger] s[i]),
        is_digit_char(s[start]),
        forall|i: int| start < i < end ==> is_digit_char(#[trigger] s[i]),
        end == s.len() || !is_digit_char(s[end]),
        !(end < s.len() && is_alpha_char(s[end])),
    ensures
        lex_from(file, s, pos) == cons_token(
            token_at(file, s, TokenType::Constant, start, end),
            lex_from(file, s, end),
        ),
{
    assert(!is_ws_char(s[start]));
    assert(structural_kind(s[start]) is None);
    assert(!is_alpha_char(s[start]));
    lemma_skip_ws_to(s, pos, start);
    lemma_scan_digits_to(s, start + 1, end);
}

/// The single-pass scanner: the source as characters, the cursor, and the
/// line, column and token-start bookkeeping that the cursor drags along.
pub struct Lexer {
    file_name: String,
    source: Vec<char>,
    pos: usize,
    current_line: usize,
    current_col: usize,
    current_token_start: usize,
    current_token_start_col: usize,
}

impl Lexer {
    /// The source text the lexer scans.
    pub closed spec fn src(&self) -> Seq<char> {
        self.source@
    }

    /// The source-name label carried into token locations.
    pub closed spec fn file(&self) -> Seq<char> {
        self.file_name@
    }

    /// The scanner's cursor.
    pub closed spec fn cursor(&self) -> int {
        self.pos as int
    }

    /// Internal consistency: the cursor is inside the source and the line and
    /// column bookkeeping agree with it.
    pub closed spec fn wf(&self) -> bool {
        &&& self.pos <= self.source@.len()
        &&& self.source@.len() < usize::MAX
        &&& self.current_line as int == line_at(self.source@, self.pos as int)
        &&& self.current_col as int == col_at(self.source@, self.pos as int)
    }

    /// A lexer that has not yet produced anything.
    pub closed spec fn fresh(&self) -> bool {
        self.pos == 0
    }

    /// Builds a lexer over the given source text, with a source name used
    /// only for diagnostics.
    pub fn new(file_name: &str, source: &str) -> (lexer: Lexer)
        requires
            source@.len() < usize::MAX,
        ensures
            lexer.wf(),
            lexer.fresh(),
            lexer.src() == source@,
            lexer.file() == file_name@,
    {
        let n = source.unicode_len();
        let mut chars: Vec<char> = Vec::new();
        let mut i: usize = 0;
        while i < n
            invariant
                i <= n,
                n == source@.len(),
                chars@ =~= source@.subrange(0, i as int),
            decreases n - i,
        {
            let c = source.get_char(i);
            chars.push(c);
            proof {
                assert(chars@ =~= source@.subrange(0, (i + 1) as int));
            }
            i = i + 1;
        }
        proof {
            assert(chars@ =~= source@);
        }
        Lexer {
            file_name: String::from_str(file_name),
            source: chars,
            pos: 0,
            current_line: 1,
            current_col: 1,
            current_token_start: 0,
            current_token_start_col: 1,
        }
    }

    /// The character under the cursor, if any.
    fn peek(&self) -> (r: Option<char>)
        ensures
            r == if self.cursor() < self.src().len() {
                Some(self.src()[self.cursor()])
            } else {
                None::<char>
            },
    {
        if self.pos < self.source.len() {
            Some(self.source[self.pos])
        } else {
            None
        }
    }

    /// The character one past the cursor, if any: the second character of
    /// lookahead the cursor abstraction offers. The present grammar needs
    /// none beyond its greedy runs, so nothing calls it yet.
    #[allow(dead_code)]
    fn peek_next(&self) -> (r: Option<char>)
        requires
            self.wf(),
        ensures
            r == if self.cursor() + 1 < self.src().len() {
                Some(self.src()[self.cursor() + 1])
            } else {
                None::<char>
            },
    {
        if self.pos + 1 < self.source.len() {
            Some(self.source[self.pos + 1])
        } else {
            None
        }
    }

    /// Consumes one character, keeping the line and column bookkeeping in
    /// step: a line feed opens a new line and resets the columns.
    fn next(&mut self) -> (r: Option<char>)
        requires
            old(self).wf(),
        ensures
            final(self).wf(),
            final(self).src() == old(self).src(),
            final(self).file() == old(self).file(),
            final(self).current_token_start == old(self).current_token_start,
            match r {
                Some(c) => {
                    &&& old(self).cursor() < old(self).src().len()
                    &&& c == old(self).src()[old(self).cursor()]
                    &&& final(self).cursor() == old(self).cursor() + 1
                    &&& final(self).current_token_start_col == if c == '\n' {
                        1usize
                    } else {
                        old(self).current_token_start_col
                    }
                },
                None => {
                    &&& old(self).cursor() == old(self).src().len()
                    &&& *final(self) == *old(self)
                },
            },
    {
        if self.pos < self.source.len() {
            let chr = self.source[self.pos];
            proof {
                lemma_line_col_bounds(self.source@, self.pos as int);
            }
            self.pos = self.pos + 1;
            self.current_col = self.current_col + 1;
            if chr == '\n' {
                self.current_line = self.current_line + 1;
                self.current_col = 1;
                self.current_token_start_col = 1;
            }
            Some(chr)
        } else {
            None
        }
    }

    /// The location of the token currently being scanned: from the recorded
    /// token start up to the cursor.
    fn current_location(&self) -> (loc: TokenLocation)
        requires
            self.wf(),
            self.current_token_start <= self.pos,
            line_at(self.src(), self.current_token_start as int) == line_at(
                self.src(),
                self.cursor(),
            ),
            self.current_token_start_col as int == col_at(
                self.src(),
                self.current_token_start as int,
            ),
        ensures
            loc@ == loc_at(
                self.file(),
                self.src(),
                self.current_token_start as int,
                self.cursor() - self.current_token_start,
            ),
    {
        TokenLocation {
            file_name: self.file_name.clone(),
            line: self.current_line,
            column: self.current_token_start_col,
            start: self.current_token_start,
            length: self.pos - self.current_token_start,
        }
    }

    /// Builds the token spanning the recorded token start up to the cursor,
    /// slicing its text back out of the source buffer.
    fn make_token(&self, token_type: TokenType) -> (t: Token)
        requires
            self.wf(),
            self.current_token_start <= self.pos,
            line_at(self.src(), self.current_token_start as int) == line_at(
                self.src(),
                self.cursor(),
            ),
            self.current_token_start_col as int == col_at(
                self.src(),
                self.current_token_start as int,
            ),
        ensures
            t@ == token_at(
                self.file(),
                self.src(),
                token_type,
                self.current_token_start as int,
                self.cursor(),
            ),
    {
        let location = self.current_location();
        let mut text = String::new();
        let mut i: usize = self.current_token_start;
        while i < self.pos
            invariant
                self.current_token_start <= i <= self.pos <= self.src().len(),
                text@ =~= self.src().subrange(self.current_token_start as int, i as int),
            decreases self.pos - i,
        {
            push_char(&mut text, self.source[i]);
            i = i + 1;
            proof {
                assert(text@ =~= self.src().subrange(self.current_token_start as int, i as int));
            }
        }
        Token { token_type, text, location }
    }

    /// Tells a keyword spelling from the scanned word `start..end`.
    fn check_keyword(&self, start: usize, end: usize, keyword: &str) -> (r: bool)
        requires
            start <= end <= self.src().len(),
        ensures
            r == (self.src().subrange(start as int, end as int) == keyword@),
    {
        let klen = keyword.unicode_len();
        if end - start != klen {
            return false;
        }
        let mut i: usize = 0;
        while i < klen
            invariant
                i <= klen,
                klen == keyword@.len(),
                start + klen == end,
                end <= self.src().len(),
                forall|j: int| 0 <= j < i ==> self.src()[start + j] == keyword@[j],
            decreases klen - i,
        {
            if self.source[start + i] != keyword.get_char(i) {
                proof {
                    assert(self.src().subrange(start as int, end as int)[i as int] == self.src()[
                        start + i
                    ]);
                }
                return false;
            }
            i = i + 1;
        }
        proof {
            assert(self.src().subrange(start as int, end as int) =~= keyword@);
        }
        true
    }

    /// Classifies the word spanning the recorded token start up to the
    /// cursor against the fixed keyword set; any non-match is an identifier.
    fn identifier_type(&self) -> (t: TokenType)
        requires
            self.current_token_start <= self.pos <= self.src().len(),
        ensures
            t == keyword_kind(
                self.src().subrange(self.current_token_start as int, self.cursor()),
            ),
    {
        let start = self.current_token_start;
        let end = self.pos;
        if self.check_keyword(start, end, "int") {
            TokenType::Int
        } else if self.check_keyword(start, end, "void") {
            TokenType::Void
        } else if self.check_keyword(start, end, "return") {
            TokenType::Return
        } else {
            TokenType::Identifier
        }
    }

    /// Extends the token over the greedy alphanumeric run and classifies it.
    fn parse_identifier(&mut self) -> (t: Token)
        requires
            old(self).wf(),
            old(self).current_token_start <= old(self).cursor(),
            line_at(old(self).src(), old(self).current_token_start as int) == line_at(
                old(self).src(),
                old(self).cursor(),
            ),
            old(self).current_token_start_col as int == col_at(
                old(self).src(),
                old(self).current_token_start as int,
            ),
        ensures
            final(self).wf(),
            final(self).src() == old(self).src(),
            final(self).file() == old(self).file(),
            final(self).cursor() == scan_alnum(old(self).src(), old(self).cursor()),
            t@ == token_at(
                old(self).file(),
                old(self).src(),
                keyword_kind(
                    old(self).src().subrange(
                        old(self).current_token_start as int,
                        final(self).cursor(),
                    ),
                ),
                old(self).current_token_start as int,
                final(self).cursor(),
            ),
    {
        loop
            invariant_except_break
                self.wf(),
                self.src() == old(self).src(),
                self.file() == old(self).file(),
                self.current_token_start == old(self).current_token_start,
                self.current_token_start_col == old(self).current_token_start_col,
                old(self).current_token_start <= old(self).cursor() <= self.cursor(),
                line_at(self.src(), self.current_token_start as int) == line_at(
                    self.src(),
                    self.cursor(),
                ),
                scan_alnum(self.src(), old(self).cursor()) == scan_alnum(
                    self.src(),
                    self.cursor(),
                ),
            ensures
                self.wf(),
                self.src() == old(self).src(),
                self.file() == old(self).file(),
                self.current_token_start == old(self).current_token_start,
                self.current_token_start_col == old(self).current_token_start_col,
                old(self).current_token_start <= self.cursor(),
                line_at(self.src(), self.current_token_start as int) == line_at(
                    self.src(),
                    self.cursor(),
                ),
                self.cursor() == scan_alnum(self.src(), old(self).cursor()),
            decreases self.src().len() - self.cursor(),
        {
            let p = self.peek();
            match p {
                Some(c) => {
                    if crate::text::is_alnum(c) {
                        self.next();
                    } else {
                        break;
                    }
                },
                None => {
                    break;
                },
            }
        }
        self.make_token(self.identifier_type())
    }

    /// Extends the token over the greedy digit run; a letter hard against the
    /// run is the invalid-number fault.
    fn parse_number(&mut self) -> (r: Result<Token, LexerError>)
        requires
            old(self).wf(),
            old(self).current_token_start <= old(self).cursor(),
            line_at(old(self).src(), old(self).current_token_start as int) == line_at(
                old(self).src(),
                old(self).cursor(),
            ),
            old(self).current_token_start_col as int == col_at(
                old(self).src(),
                old(self).current_token_start as int,
            ),
        ensures
            final(self).wf(),
            final(self).src() == old(self).src(),
            final(self).file() == old(self).file(),
            final(self).cursor() == scan_digits(old(self).src(), old(self).cursor()),
            match r {
                Ok(t) => {
                    &&& !(final(self).cursor() < old(self).src().len() && is_alpha_char(
                        old(self).src()[final(self).cursor()],
                    ))
                    &&& t@ == token_at(
                        old(self).file(),
                        old(self).src(),
                        TokenType::Constant,
                        old(self).current_token_start as int,
                        final(self).cursor(),
                    )
                },
                Err(LexerError::InvalidNumber(l)) => {
                    &&& final(self).cursor() < old(self).src().len()
                    &&& is_alpha_char(old(self).src()[final(self).cursor()])
                    &&& l@ == loc_at(
                        old(self).file(),
                        old(self).src(),
                        old(self).current_token_start as int,
                        final(self).cursor() - old(self).current_token_start,
                    )
                },
                Err(LexerError::UnrecognisedCharacter(_)) => false,
            },
    {
        loop
            invariant_except_break
                self.wf(),
                self.src() == old(self).src(),
                self.file() == old(self).file(),
                self.current_token_start == old(self).current_token_start,
                self.current_token_start_col == old(self).current_token_start_col,
                old(self).current_token_start <= old(self).cursor() <= self.cursor(),
                line_at(self.src(), self.current_token_start as int) == line_at(
                    self.src(),
                    self.cursor(),
                ),
                scan_digits(self.src(), old(self).cursor()) == scan_digits(
                    self.src(),
                    self.cursor(),
                ),
            ensures
                self.wf(),
                self.src() == old(self).src(),
                self.file() == old(self).file(),
                self.current_token_start == old(self).current_token_start,
                self.current_token_start_col == old(self).current_token_start_col,
                old(self).current_token_start <= self.cursor(),
                line_at(self.src(), self.current_token_start as int) == line_at(
                    self.src(),
                    self.cursor(),
                ),
                self.cursor() == scan_digits(self.src(), old(self).cursor()),
                self.cursor() < self.src().len() ==> !is_digit_char(self.src()[self.cursor()]),
            decreases self.src().len() - self.cursor(),
        {
            let p = self.peek();
            match p {
                Some(c) => {
                    if crate::text::is_digit(c) {
                        self.next();
                    } else {
                        break;
                    }
                },
                None => {
                    break;
                },
            }
        }
        let after = self.peek();
        match after {
            Some(c) => {
                if crate::text::is_alpha(c) {
                    return Err(LexerError::InvalidNumber(self.current_location()));
                }
            },
            None => {},
        }
        Ok(self.make_token(TokenType::Constant))
    }

    /// Scans one token: skips whitespace, then classifies by the first
    /// character. At the end of input it yields the zero-width end token.
    fn parse_token(&mut self) -> (r: Result<Token, LexerError>)
        requires
            old(self).wf(),
        ensures
            final(self).wf(),
            final(self).src() == old(self).src(),
            final(self).file() == old(self).file(),
            match r {
                Ok(t) => {
                    if t@.kind == TokenType::Eof {
                        &&& lex_from(old(self).file(), old(self).src(), old(self).cursor())
                            == SpecLexResult::Tokens(seq![t@])
                        &&& final(self).cursor() == old(self).src().len()
                    } else {
                        &&& lex_from(old(self).file(), old(self).src(), old(self).cursor())
                            == cons_token(
                            t@,
                            lex_from(old(self).file(), old(self).src(), final(self).cursor()),
                        )
                        &&& old(self).cursor() < final(self).cursor() <= old(self).src().len()
                    }
                },
                Err(LexerError::InvalidNumber(l)) => lex_from(
                    old(self).file(),
                    old(self).src(),
                    old(self).cursor(),
                ) == SpecLexResult::InvalidNumber(l@),
                Err(LexerError::UnrecognisedCharacter(l)) => lex_from(
                    old(self).file(),
                    old(self).src(),
                    old(self).cursor(),
                ) == SpecLexResult::UnrecognisedCharacter(l@),
            },
    {
        // Skip whitespace silently.
        loop
            invariant_except_break
                self.wf(),
                self.src() == old(self).src(),
                self.file() == old(self).file(),
                old(self).cursor() <= self.cursor(),
                skip_ws(self.src(), old(self).cursor()) == skip_ws(self.src(), self.cursor()),
            ensures
                self.wf(),
                self.src() == old(self).src(),
                self.file() == old(self).file(),
                old(self).cursor() <= self.cursor(),
                self.cursor() == skip_ws(self.src(), old(self).cursor()),
            decreases self.src().len() - self.cursor(),
        {
            let p = self.peek();
            match p {
                Some(c) => {
                    if crate::text::is_ws(c) {
                        self.next();
                    } else {
                        break;
                    }
                },
                None => {
                    break;
                },
            }
        }

        self.current_token_start = self.pos;
        self.current_token_start_col = self.current_col;
        let ghost start = self.cursor();
        let ghost file = self.file();
        let ghost src = self.src();
        proof {
            lemma_skip_ws_stops(src, old(self).cursor());
        }

        match self.next() {
            None => Ok(self.make_token(TokenType::Eof)),
            Some(first_char) => {
                proof {
                    assert(first_char == src[start]);
                    assert(!is_ws_char(first_char));
                    assert(line_at(src, start + 1) == line_at(src, start));
                }
                if first_char == '(' {
                    let t = self.make_token(TokenType::ParenOpen);
                    Ok(t)
                } else if first_char == ')' {
                    let t = self.make_token(TokenType::ParenClose);
                    Ok(t)
                } else if first_char == '{' {
                    let t = self.make_token(TokenType::BraceOpen);
                    Ok(t)
                } else if first_char == '}' {
                    let t = self.make_token(TokenType::BraceClose);
                    Ok(t)
                } else if first_char == ';' {
                    let t = self.make_token(TokenType::Semicolon);
                    Ok(t)
                } else if crate::text::is_alpha(first_char) {
                    let t = self.parse_identifier();
                    proof {
                        lemma_scan_alnum_bounds(src, start + 1);
                    }
                    Ok(t)
                } else if crate::text::is_digit(first_char) {
                    let r = self.parse_number();
                    proof {
                        lemma_scan_digits_bounds(src, start + 1);
                    }
                    r
                } else {
                    Err(LexerError::UnrecognisedCharacter(self.current_location()))
                }
            },
        }
    }

    /// Scans the whole source: the complete token sequence terminated by
    /// exactly one end-of-input token, or the first lexical fault.
    pub fn lex(&mut self) -> (r: Result<Vec<Token>, LexerError>)
        requires
            old(self).wf(),
            old(self).fresh(),
        ensures
            match r {
                Ok(tokens) => SpecLexResult::Tokens(views_of(tokens@)) == lex_spec(
                    old(self).file(),
                    old(self).src(),
                ),
                Err(LexerError::InvalidNumber(l)) => SpecLexResult::InvalidNumber(l@) == lex_spec(
                    old(self).file(),
                    old(self).src(),
                ),
                Err(LexerError::UnrecognisedCharacter(l)) => SpecLexResult::UnrecognisedCharacter(
                    l@,
                ) == lex_spec(old(self).file(), old(self).src()),
            },
    {
        let mut tokens: Vec<Token> = Vec::new();
        proof {
            assert(cons_tokens(views_of(tokens@), lex_from(self.file(), self.src(), 0))
                =~= lex_from(self.file(), self.src(), 0)) by {
                match lex_from(self.file(), self.src(), 0) {
                    SpecLexResult::Tokens(rs) => {
                        assert(views_of(tokens@) + rs =~= rs);
                    },
                    _ => {},
                }
            }
        }
        loop
            invariant
                self.wf(),
                self.src() == old(self).src(),
                self.file() == old(self).file(),
                0 <= self.cursor() <= self.src().len(),
                cons_tokens(
                    views_of(tokens@),
                    lex_from(self.file(), self.src(), self.cursor()),
                ) == lex_spec(old(self).file(), old(self).src()),
            decreases self.src().len() - self.cursor() + 1,
        {
            let ghost pre_views = views_of(tokens@);
            let ghost pre_cursor = self.cursor();
            match self.parse_token() {
                Err(e) => {
                    return Err(e);
                },
                Ok(token) => {
                    let is_eof = token.token_type == TokenType::Eof;
                    let ghost tv = token@;
                    tokens.push(token);
                    proof {
                        assert(views_of(tokens@) =~= pre_views.push(tv));
                    }
                    if is_eof {
                        proof {
                            assert(lex_from(self.file(), self.src(), pre_cursor)
                                == SpecLexResult::Tokens(seq![tv]));
                            assert(pre_views + seq![tv] =~= views_of(tokens@));
                        }
                        return Ok(tokens);
                    }
                    proof {
                        match lex_from(self.file(), self.src(), self.cursor()) {
                            SpecLexResult::Tokens(rs) => {
                                assert(pre_views + (seq![tv] + rs) =~= views_of(tokens@) + rs);
                            },
                            _ => {},
                        }
                    }
                },
            }
        }
    }
}

} // verus!
