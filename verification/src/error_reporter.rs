//! The error reporter: renders a human-readable, source-pointing diagnostic
//! for a failure at a given token location. The body shows the exact source
//! line with a caret underline of the token's width aligned under its
//! starting column. It requires the source text to still contain the
//! referenced line; handing it a mismatched source is a caller bug.

use vstd::prelude::*;
use crate::decimal::dec_digits;
use crate::decimal::u64_to_string;
use crate::lexer::SpecLoc;
use crate::lexer::TokenLocation;
use crate::lexer::loc_text;
use crate::text::push_char;
use crate::text::repeat_char;

verus! {

/// The first position at or after `pos` holding a line feed, or the end of
/// the source.
pub open spec fn next_newline(s: Seq<char>, pos: int) -> int
    decreases s.len() - pos,
{
    if pos < 0 || pos >= s.len() {
        s.len() as int
    } else if s[pos] == '\n' {
        pos
    } else {
        next_newline(s, pos + 1)
    }
}

/// The character position where 1-based line `n` starts: one past the line
/// feed that closed the line before it.
pub open spec fn line_start(s: Seq<char>, n: int) -> int
    decreases n,
{
    if n <= 1 {
        0
    } else {
        next_newline(s, line_start(s, n - 1)) + 1
    }
}

/// Whether the source holds a 1-based line `n`, as line splitting sees it: a
/// final line ending is optional and opens no further line.
pub open spec fn has_line(s: Seq<char>, n: int) -> bool {
    n >= 1 && line_start(s, n) < s.len()
}

/// The content of 1-based line `n`: up to the next line feed, with one
/// carriage return stripped ahead of it.
pub open spec fn spec_line(s: Seq<char>, n: int) -> Seq<char> {
    let start = line_start(s, n);
    let end = next_newline(s, start);
    let raw = s.subrange(start, end);
    if end < s.len() && raw.len() > 0 && raw.last() == '\r' {
        raw.drop_last()
    } else {
        raw
    }
}

/// The two-line diagnostic body: the source line behind ` <line> | `, and
/// beneath it a caret underline of the token's width aligned under its
/// starting column.
pub open spec fn highlight_spec(src: Seq<char>, loc: SpecLoc) -> Seq<char> {
    let numeral = dec_digits(loc.line as nat);
    " "@ + numeral + " | "@ + spec_line(src, loc.line) + "\n"@ + Seq::new(
        (numeral.len() + 3 + loc.column) as nat,
        |i: int| ' ',
    ) + Seq::new(loc.length as nat, |i: int| '^')
}

/// The full diagnostic: a header line with the message, a pointer line with
/// the location, and the highlighted source line.
pub open spec fn render_error_spec(message: Seq<char>, src: Seq<char>, loc: SpecLoc) -> Seq<
    char,
> {
    "error: "@ + message + "\n --> "@ + loc_text(loc) + "\n"@ + highlight_spec(src, loc)
}

pub proof fn lemma_next_newline(s: Seq<char>, pos: int)
    requires
        0 <= pos <= s.len(),
    ensures
        pos <= next_newline(s, pos) <= s.len(),
        next_newline(s, pos) < s.len() ==> s[next_newline(s, pos)] == '\n',
    decreases s.len() - pos,
{
    if pos < s.len() && s[pos] != '\n' {
        lemma_next_newline(s, pos + 1);
    }
}

/// Where a line starts: never before the source, never more than one past
/// its end.
pub proof fn lemma_line_start_range(s: Seq<char>, n: int)
    requires
        n >= 1,
    ensures
        0 <= line_start(s, n) <= s.len() + 1,
    decreases n,
{
    if n > 1 {
        lemma_line_start_range(s, n - 1);
        let p = line_start(s, n - 1);
        if p <= s.len() {
            lemma_next_newline(s, p);
        }
    }
}

/// Later lines never start earlier.
pub proof fn lemma_line_start_mono(s: Seq<char>, a: int, b: int)
    requires
        1 <= a <= b,
    ensures
        line_start(s, a) <= line_start(s, b),
    decreases b - a,
{
    if a < b {
        lemma_line_start_mono(s, a, b - 1);
        lemma_line_start_range(s, b - 1);
        let p = line_start(s, b - 1);
        if p <= s.len() {
            lemma_next_newline(s, p);
        }
    }
}

/// The position of the first line feed at or after `from`, or the source's
/// end when no line feed follows.
fn find_newline(source: &str, from: usize) -> (r: usize)
    requires
        from <= source@.len(),
    ensures
        r as int == next_newline(source@, from as int),
        from <= r <= source@.len(),
{
    let n = source.unicode_len();
    let mut i: usize = from;
    while i < n
        invariant
            from <= i <= n,
            n == source@.len(),
            next_newline(source@, from as int) == next_newline(source@, i as int),
        decreases n - i,
    {
        let c = source.get_char(i);
        if c == '\n' {
            return i;
        }
        i = i + 1;
    }
    n
}

/// Renders the source line holding the token with a caret underline of the
/// token's width beneath it, aligned under the token's starting column.
pub fn highlight_token_position(source: &str, location: &TokenLocation) -> (r: String)
    requires
        has_line(source@, location.line as int),
    ensures
        r@ == highlight_spec(source@, location@),
{
    let n = source.unicode_len();

    // Walk to the start of the referenced line.
    let mut start: usize = 0;
    let mut k: usize = 1;
    while k < location.line
        invariant
            1 <= k <= location.line,
            start as int == line_start(source@, k as int),
            start < source@.len(),
            n == source@.len(),
            has_line(source@, location.line as int),
        decreases location.line - k,
    {
        let nl = find_newline(source, start);
        proof {
            assert(nl + 1 == line_start(source@, (k + 1) as int));
            lemma_line_start_mono(source@, (k + 1) as int, location.line as int);
        }
        start = nl + 1;
        k = k + 1;
    }

    // Slice the line's content, stripping a carriage return ahead of a line
    // feed.
    let end = find_newline(source, start);
    let stripped = end < n && end > start && source.get_char(end - 1) == '\r';
    let content_end = if stripped {
        end - 1
    } else {
        end
    };
    let mut content = String::new();
    let mut i: usize = start;
    while i < content_end
        invariant
            start <= i <= content_end <= source@.len(),
            content@ =~= source@.subrange(start as int, i as int),
        decreases content_end - i,
    {
        push_char(&mut content, source.get_char(i));
        i = i + 1;
        proof {
            assert(content@ =~= source@.subrange(start as int, i as int));
        }
    }
    proof {
        let raw = source@.subrange(start as int, end as int);
        if stripped {
            assert(content@ =~= raw.drop_last());
        } else {
            assert(content@ =~= raw);
        }
    }

    // Assemble: " <line> | <content>" over the caret underline.
    let numeral = u64_to_string(location.line as u64);
    let mut out = String::from_str(" ");
    out.append(numeral.as_str());
    out.append(" | ");
    out.append(content.as_str());
    out.append("\n");
    let pad_numeral = repeat_char(' ', numeral.unicode_len());
    out.append(pad_numeral.as_str());
    out.append("   ");
    let pad_column = repeat_char(' ', location.column);
    out.append(pad_column.as_str());
    let carets = repeat_char('^', location.length);
    out.append(carets.as_str());
    proof {
        reveal_strlit(" ");
        reveal_strlit(" | ");
        reveal_strlit("\n");
        reveal_strlit("   ");
        assert(out@ =~= highlight_spec(source@, location@));
    }
    out
}

/// Renders the full diagnostic for a message at a location: the header, the
/// pointer line, and the highlighted source line. The caller decides where
/// the text goes.
pub fn render_error(error_message: &str, source: &str, location: &TokenLocation) -> (r: String)
    requires
        has_line(source@, location.line as int),
    ensures
        r@ == render_error_spec(error_message@, source@, location@),
{
    let mut out = String::from_str("error: ");
    out.append(error_message);
    out.append("\n --> ");
    let place = location.to_text();
    out.append(place.as_str());
    out.append("\n");
    let body = highlight_token_position(source, location);
    out.append(body.as_str());
    proof {
        assert(out@ =~= render_error_spec(error_message@, source@, location@));
    }
    out
}

} // verus!
