//! The mathematical model of lexical scanning.
//!
//! Every function here is a pure specification over the character buffer and
//! a position in it. The executable [`crate::lexer::Lexer`] is proved to
//! produce exactly what these functions describe, so lexing is a function of
//! the buffer alone.
use crate::chars::{digit_value, is_alphabetic_char, is_alphanumeric_char, is_digit_char,
    is_whitespace_char};
use crate::token::{spec_keyword_of, spec_operator_of_char, spec_operator_of_pair,
    spec_punctuation_of, NumberValue, SpecToken, SpecTokenType};
use vstd::prelude::*;

verus! {

/// A character that may begin an identifier or keyword.
pub open spec fn is_ident_start(c: char) -> bool {
    is_alphabetic_char(c) || c == '_' || c == '$'
}

/// A character that may continue an identifier or keyword. Alphabetic
/// characters are named alongside alphanumeric ones so that every character
/// that can start an identifier can also continue one.
pub open spec fn is_ident_continue(c: char) -> bool {
    is_alphanumeric_char(c) || is_alphabetic_char(c) || c == '_' || c == '$'
}

/// A character that may open a string literal.
pub open spec fn is_quote_char(c: char) -> bool {
    c == '"' || c == '\''
}

/// A counter step that saturates at `usize::MAX`, so that line and column
/// numbers always fit the machine word.
pub open spec fn bump(x: int) -> int {
    if x < usize::MAX {
        x + 1
    } else {
        x
    }
}

/// The 1-based line of position `pos`: one more than the number of newlines
/// before it, saturating at `usize::MAX`.
pub open spec fn line_at(input: Seq<char>, pos: int) -> int
    decreases pos,
{
    if pos <= 0 {
        1
    } else if input[pos - 1] == '\n' {
        bump(line_at(input, pos - 1))
    } else {
        line_at(input, pos - 1)
    }
}

/// The 1-based column of position `pos`: it resets to 1 after each newline
/// and otherwise counts up, saturating at `usize::MAX`.
pub open spec fn col_at(input: Seq<char>, pos: int) -> int
    decreases pos,
{
    if pos <= 0 {
        1
    } else if input[pos - 1] == '\n' {
        1
    } else {
        bump(col_at(input, pos - 1))
    }
}

pub proof fn lemma_line_col_bounds(input: Seq<char>, pos: int)
    requires
        0 <= pos,
    ensures
        1 <= line_at(input, pos) <= usize::MAX,
        1 <= col_at(input, pos) <= usize::MAX,
    decreases pos,
{
    if pos > 0 {
        lemma_line_col_bounds(input, pos - 1);
    }
}

/// A lexical error: what went wrong and the 1-based position at which
/// scanning stopped.
#[derive(Clone, Copy, Debug, PartialEq, Eq, Structural)]
pub enum LexErrorKind {
    UnterminatedString,
    UnterminatedComment,
    MalformedNumber,
    UnrecognizedCharacter,
}

/// A lexical error with the line and column of the failure point.
#[derive(Clone, Copy, Debug, PartialEq, Eq, Structural)]
pub struct LexError {
    pub kind: LexErrorKind,
    pub line: usize,
    pub column: usize,
}

/// The error whose failure point is position `pos` of `input`.
pub open spec fn error_at(input: Seq<char>, pos: int, kind: LexErrorKind) -> LexError {
    LexError {
        kind,
        line: line_at(input, pos) as usize,
        column: col_at(input, pos) as usize,
    }
}

/// The first position at or after `pos` whose character is not whitespace.
pub open spec fn whitespace_end(input: Seq<char>, pos: int) -> int
    decreases input.len() - pos,
{
    if pos < 0 || pos >= input.len() {
        input.len() as int
    } else if is_whitespace_char(input[pos]) {
        whitespace_end(input, pos + 1)
    } else {
        pos
    }
}

pub proof fn lemma_whitespace_end_bounds(input: Seq<char>, pos: int)
    requires
        0 <= pos <= input.len(),
    ensures
        pos <= whitespace_end(input, pos) <= input.len(),
    decreases input.len() - pos,
{
    if pos < input.len() && is_whitespace_char(input[pos]) {
        lemma_whitespace_end_bounds(input, pos + 1);
    }
}

/// The first position at or after `pos` that ends a line comment: the next
/// newline (left unconsumed) or the end of input.
pub open spec fn line_comment_end(input: Seq<char>, pos: int) -> int
    decreases input.len() - pos,
{
    if pos < 0 || pos >= input.len() {
        input.len() as int
    } else if input[pos] == '\n' {
        pos
    } else {
        line_comment_end(input, pos + 1)
    }
}

pub proof fn lemma_line_comment_end_bounds(input: Seq<char>, pos: int)
    requires
        0 <= pos <= input.len(),
    ensures
        pos <= line_comment_end(input, pos) <= input.len(),
    decreases input.len() - pos,
{
    if pos < input.len() && input[pos] != '\n' {
        lemma_line_comment_end_bounds(input, pos + 1);
    }
}

/// The position just past the closing `*/` of a block comment whose body
/// starts at `pos`, or `None` if the input ends first.
pub open spec fn block_comment_close(input: Seq<char>, pos: int) -> Option<int>
    decreases input.len() - pos,
{
    if pos < 0 || pos + 1 >= input.len() {
        None
    } else if input[pos] == '*' && input[pos + 1] == '/' {
        Some(pos + 2)
    } else {
        block_comment_close(input, pos + 1)
    }
}

pub proof fn lemma_block_comment_close_bounds(input: Seq<char>, pos: int)
    requires
        0 <= pos,
        block_comment_close(input, pos) is Some,
    ensures
        pos + 2 <= block_comment_close(input, pos)->0 <= input.len(),
    decreases input.len() - pos,
{
    if !(pos + 1 >= input.len() || (input[pos] == '*' && input[pos + 1] == '/')) {
        lemma_block_comment_close_bounds(input, pos + 1);
    }
}

/// Skips whitespace, line comments and block comments, returning the position
/// of the next token start (or the end of input), or an `UnterminatedComment`
/// error when a block comment never closes.
pub open spec fn skip_trivia(input: Seq<char>, pos: int) -> Result<int, LexError>
    decreases input.len() - pos,
    via skip_trivia_decreases
{
    if pos < 0 || pos >= input.len() {
        Ok(if pos < 0 {
            0
        } else {
            pos
        })
    } else if is_whitespace_char(input[pos]) {
        skip_trivia(input, pos + 1)
    } else if input[pos] == '/' && pos + 1 < input.len() && input[pos + 1] == '/' {
        skip_trivia(input, line_comment_end(input, pos + 2))
    } else if input[pos] == '/' && pos + 1 < input.len() && input[pos + 1] == '*' {
        match block_comment_close(input, pos + 2) {
            Some(p) => skip_trivia(input, p),
            None => Err(error_at(input, input.len() as int, LexErrorKind::UnterminatedComment)),
        }
    } else {
        Ok(pos)
    }
}

#[via_fn]
proof fn skip_trivia_decreases(input: Seq<char>, pos: int) {
    if 0 <= pos < input.len() {
        if input[pos] == '/' && pos + 1 < input.len() && input[pos + 1] == '/' {
            lemma_line_comment_end_bounds(input, pos + 2);
        }
        if input[pos] == '/' && pos + 1 < input.len() && input[pos + 1] == '*' {
            if block_comment_close(input, pos + 2) is Some {
                lemma_block_comment_close_bounds(input, pos + 2);
            }
        }
    }
}

pub proof fn lemma_skip_trivia_bounds(input: Seq<char>, pos: int)
    requires
        0 <= pos <= input.len(),
        skip_trivia(input, pos) is Ok,
    ensures
        pos <= skip_trivia(input, pos)->Ok_0 <= input.len(),
    decreases input.len() - pos,
{
    if pos < input.len() {
        if is_whitespace_char(input[pos]) {
            lemma_skip_trivia_bounds(input, pos + 1);
        } else if input[pos] == '/' && pos + 1 < input.len() && input[pos + 1] == '/' {
            lemma_line_comment_end_bounds(input, pos + 2);
            lemma_skip_trivia_bounds(input, line_comment_end(input, pos + 2));
        } else if input[pos] == '/' && pos + 1 < input.len() && input[pos + 1] == '*' {
            if let Some(p) = block_comment_close(input, pos + 2) {
                lemma_block_comment_close_bounds(input, pos + 2);
                lemma_skip_trivia_bounds(input, p);
            }
        }
    }
}

/// Skipping trivia is unmoved by first skipping a whitespace run.
pub proof fn lemma_skip_trivia_through_whitespace(input: Seq<char>, pos: int)
    requires
        0 <= pos <= input.len(),
    ensures
        skip_trivia(input, pos) == skip_trivia(input, whitespace_end(input, pos)),
    decreases input.len() - pos,
{
    if pos < input.len() && is_whitespace_char(input[pos]) {
        lemma_skip_trivia_through_whitespace(input, pos + 1);
    }
}

/// The first position at or after `pos` whose character cannot continue an
/// identifier.
pub open spec fn ident_end(input: Seq<char>, pos: int) -> int
    decreases input.len() - pos,
{
    if pos < 0 || pos >= input.len() {
        input.len() as int
    } else if is_ident_continue(input[pos]) {
        ident_end(input, pos + 1)
    } else {
        pos
    }
}

pub proof fn lemma_ident_end_bounds(input: Seq<char>, pos: int)
    requires
        0 <= pos <= input.len(),
    ensures
        pos <= ident_end(input, pos) <= input.len(),
    decreases input.len() - pos,
{
    if pos < input.len() && is_ident_continue(input[pos]) {
        lemma_ident_end_bounds(input, pos + 1);
    }
}

/// The first position at or after `pos` that ends a numeric literal, given
/// whether a decimal point has already been consumed: digits always continue
/// the literal, and one `.` may.
pub open spec fn number_end(input: Seq<char>, pos: int, has_decimal: bool) -> int
    decreases input.len() - pos,
{
    if pos < 0 || pos >= input.len() {
        input.len() as int
    } else if is_digit_char(input[pos]) {
        number_end(input, pos + 1, has_decimal)
    } else if input[pos] == '.' && !has_decimal {
        number_end(input, pos + 1, true)
    } else {
        pos
    }
}

pub proof fn lemma_number_end_bounds(input: Seq<char>, pos: int, has_decimal: bool)
    requires
        0 <= pos <= input.len(),
    ensures
        pos <= number_end(input, pos, has_decimal) <= input.len(),
    decreases input.len() - pos,
{
    if pos < input.len() {
        if is_digit_char(input[pos]) {
            lemma_number_end_bounds(input, pos + 1, has_decimal);
        } else if input[pos] == '.' && !has_decimal {
            lemma_number_end_bounds(input, pos + 1, true);
        }
    }
}

/// The integer spelled by the digits of `text` from `i` on, decimal point
/// ignored, accumulated onto `acc`.
pub open spec fn mantissa_from(text: Seq<char>, i: int, acc: nat) -> nat
    decreases text.len() - i,
{
    if i < 0 || i >= text.len() {
        acc
    } else if is_digit_char(text[i]) {
        mantissa_from(text, i + 1, (acc * 10 + digit_value(text[i])) as nat)
    } else {
        mantissa_from(text, i + 1, acc)
    }
}

/// The accumulated mantissa never shrinks as scanning proceeds.
pub proof fn lemma_mantissa_from_monotone(text: Seq<char>, i: int, acc: nat)
    ensures
        mantissa_from(text, i, acc) >= acc,
    decreases text.len() - i,
{
    if 0 <= i < text.len() {
        if is_digit_char(text[i]) {
            assert(acc * 10 + digit_value(text[i]) >= acc) by (nonlinear_arith)
                requires
                    acc >= 0,
                    digit_value(text[i]) >= 0,
            ;
            lemma_mantissa_from_monotone(text, i + 1, (acc * 10 + digit_value(text[i])) as nat);
        } else {
            lemma_mantissa_from_monotone(text, i + 1, acc);
        }
    }
}

/// How many digits of `text` from `i` on stand after a decimal point,
/// accumulated onto `acc`.
pub open spec fn scale_from(text: Seq<char>, i: int, seen_dot: bool, acc: nat) -> nat
    decreases text.len() - i,
{
    if i < 0 || i >= text.len() {
        acc
    } else if text[i] == '.' {
        scale_from(text, i + 1, true, acc)
    } else {
        scale_from(text, i + 1, seen_dot, if seen_dot {
            acc + 1
        } else {
            acc
        })
    }
}

/// The exact decimal value of a numeric literal.
pub open spec fn number_value_of(text: Seq<char>) -> (nat, nat) {
    (mantissa_from(text, 0, 0), scale_from(text, 0, false, 0))
}

/// The outcome of scanning a string literal body: the collected text and the
/// position just past the closing quote, or an unterminated literal.
pub ghost enum StringScan {
    Closed(Seq<char>, int),
    Unterminated,
}

/// Scans a string literal body from `pos`, with `quote` the opening quote
/// character and `acc` the text collected so far. The literal closes only on
/// `quote` itself; a backslash makes the following character literal.
pub open spec fn string_scan(input: Seq<char>, pos: int, quote: char, acc: Seq<char>) -> StringScan
    decreases input.len() - pos,
{
    if pos < 0 || pos >= input.len() {
        StringScan::Unterminated
    } else if input[pos] == quote {
        StringScan::Closed(acc, pos + 1)
    } else if input[pos] == '\\' {
        if pos + 1 < input.len() {
            string_scan(input, pos + 2, quote, acc.push(input[pos + 1]))
        } else {
            StringScan::Unterminated
        }
    } else {
        string_scan(input, pos + 1, quote, acc.push(input[pos]))
    }
}

pub proof fn lemma_string_scan_bounds(input: Seq<char>, pos: int, quote: char, acc: Seq<char>)
    requires
        0 <= pos <= input.len(),
        string_scan(input, pos, quote, acc) is Closed,
    ensures
        pos < string_scan(input, pos, quote, acc)->Closed_1 <= input.len(),
    decreases input.len() - pos,
{
    if pos < input.len() && input[pos] != quote {
        if input[pos] == '\\' {
            if pos + 1 < input.len() {
                lemma_string_scan_bounds(input, pos + 2, quote, acc.push(input[pos + 1]));
            }
        } else {
            lemma_string_scan_bounds(input, pos + 1, quote, acc.push(input[pos]));
        }
    }
}

/// Quote symmetry: a string literal that closes does so on the very character
/// it was opened with — the character just before the scan's end position is
/// the opening quote.
pub proof fn lemma_string_closes_on_opening_quote(
    input: Seq<char>,
    pos: int,
    quote: char,
    acc: Seq<char>,
)
    requires
        0 <= pos <= input.len(),
        string_scan(input, pos, quote, acc) is Closed,
    ensures
        input[string_scan(input, pos, quote, acc)->Closed_1 - 1] == quote,
    decreases input.len() - pos,
{
    if pos < input.len() && input[pos] != quote {
        if input[pos] == '\\' {
            if pos + 1 < input.len() {
                lemma_string_closes_on_opening_quote(input, pos + 2, quote, acc.push(
                    input[pos + 1],
                ));
            }
        } else {
            lemma_string_closes_on_opening_quote(input, pos + 1, quote, acc.push(input[pos]));
        }
    }
}

/// The outcome of one scanning step: a token and the position just past it,
/// the end of input, or a lexical error.
pub ghost enum ScanStep {
    Tok(SpecToken, int),
    End(int),
    Fail(LexError),
}

/// Scans the single token that starts at `pos`, which must hold a
/// non-whitespace, non-comment character.
pub open spec fn scan_token_at(input: Seq<char>, pos: int) -> ScanStep {
    let c = input[pos];
    let line = line_at(input, pos);
    let column = col_at(input, pos);
    if is_ident_start(c) {
        let end = ident_end(input, pos);
        let text = input.subrange(pos, end);
        let kind = match spec_keyword_of(text) {
            Some(k) => SpecTokenType::Keyword(k),
            None => SpecTokenType::Identifier(text),
        };
        ScanStep::Tok(SpecToken { token_type: kind, line, column }, end)
    } else if is_digit_char(c) {
        let end = number_end(input, pos, false);
        let text = input.subrange(pos, end);
        let (mantissa, scale) = number_value_of(text);
        if mantissa > u64::MAX {
            ScanStep::Fail(error_at(input, pos, LexErrorKind::MalformedNumber))
        } else {
            ScanStep::Tok(
                SpecToken {
                    token_type: SpecTokenType::Number(
                        NumberValue { mantissa: mantissa as u64, scale: scale as usize },
                    ),
                    line,
                    column,
                },
                end,
            )
        }
    } else if is_quote_char(c) {
        match string_scan(input, pos + 1, c, Seq::empty()) {
            StringScan::Closed(text, end) => ScanStep::Tok(
                SpecToken { token_type: SpecTokenType::String(text), line, column },
                end,
            ),
            StringScan::Unterminated => ScanStep::Fail(
                error_at(input, input.len() as int, LexErrorKind::UnterminatedString),
            ),
        }
    } else if pos + 1 < input.len() && spec_operator_of_pair(c, input[pos + 1]) is Some {
        ScanStep::Tok(
            SpecToken {
                token_type: SpecTokenType::Operator(spec_operator_of_pair(c, input[pos + 1])->0),
                line,
                column,
            },
            pos + 2,
        )
    } else if spec_operator_of_char(c) is Some {
        ScanStep::Tok(
            SpecToken {
                token_type: SpecTokenType::Operator(spec_operator_of_char(c)->0),
                line,
                column,
            },
            pos + 1,
        )
    } else if spec_punctuation_of(c) is Some {
        ScanStep::Tok(
            SpecToken {
                token_type: SpecTokenType::Punctuation(spec_punctuation_of(c)->0),
                line,
                column,
            },
            pos + 1,
        )
    } else {
        ScanStep::Fail(error_at(input, pos, LexErrorKind::UnrecognizedCharacter))
    }
}

/// One whole step of the lexer from `pos`: skip trivia, then either report
/// the end of input or scan one token.
pub open spec fn spec_next_token(input: Seq<char>, pos: int) -> ScanStep {
    match skip_trivia(input, pos) {
        Err(e) => ScanStep::Fail(e),
        Ok(p) => if p >= input.len() {
            ScanStep::End(input.len() as int)
        } else {
            scan_token_at(input, p)
        },
    }
}

/// The token sequence of `input` from `pos` on, or the first lexical error.
pub open spec fn spec_tokenize(input: Seq<char>, pos: int) -> Result<Seq<SpecToken>, LexError>
    decreases input.len() - pos,
{
    match spec_next_token(input, pos) {
        ScanStep::Fail(e) => Err(e),
        ScanStep::End(_) => Ok(Seq::empty()),
        ScanStep::Tok(t, p) => if pos < p <= input.len() {
            match spec_tokenize(input, p) {
                Ok(rest) => Ok(seq![t] + rest),
                Err(e) => Err(e),
            }
        } else {
            Ok(seq![t])
        },
    }
}

/// Determinism: the token sequence is a function of the buffer alone, so
/// lexing equal buffers gives equal outcomes — tokens and errors alike.
pub proof fn lemma_lexing_deterministic(a: Seq<char>, b: Seq<char>)
    requires
        a == b,
    ensures
        spec_tokenize(a, 0) == spec_tokenize(b, 0),
{
}

/// Position order: `(line, column)` at one place comes no later than at
/// another.
pub open spec fn coords_le(l1: int, c1: int, l2: int, c2: int) -> bool {
    l1 < l2 || (l1 == l2 && c1 <= c2)
}

pub proof fn lemma_line_at_monotone(input: Seq<char>, p1: int, p2: int)
    requires
        0 <= p1 <= p2,
    ensures
        line_at(input, p1) <= line_at(input, p2),
    decreases p2,
{
    if p1 < p2 {
        lemma_line_at_monotone(input, p1, p2 - 1);
    }
}

/// Coordinates never move backwards as the position advances, as long as
/// the line counter has not saturated by the later position.
pub proof fn lemma_coords_monotone(input: Seq<char>, p1: int, p2: int)
    requires
        0 <= p1 <= p2,
        line_at(input, p2) < usize::MAX,
    ensures
        coords_le(line_at(input, p1), col_at(input, p1), line_at(input, p2), col_at(input, p2)),
    decreases p2,
{
    if p1 < p2 {
        lemma_line_at_monotone(input, p1, p2 - 1);
        lemma_coords_monotone(input, p1, p2 - 1);
    }
}

/// A scanned token sits at the coordinates of its starting position, and
/// its end lies strictly past its start.
pub proof fn lemma_scan_token_bounds(input: Seq<char>, pos: int)
    requires
        0 <= pos < input.len(),
    ensures
        scan_token_at(input, pos) matches ScanStep::Tok(t, p) ==> pos < p <= input.len()
            && t.line == line_at(input, pos) && t.column == col_at(input, pos),
{
    let c = input[pos];
    if is_ident_start(c) {
        lemma_ident_end_bounds(input, pos + 1);
    } else if is_digit_char(c) {
        lemma_number_end_bounds(input, pos + 1, false);
    } else if is_quote_char(c) {
        if string_scan(input, pos + 1, c, Seq::empty()) is Closed {
            lemma_string_scan_bounds(input, pos + 1, c, Seq::empty());
        }
    }
}

/// The tokens of a buffer are produced in position order: in any token
/// sequence the lexer yields, `(line, column)` is monotonically
/// non-decreasing, and no token sits before the coordinates of the position
/// the scan began at. The one proviso is that the line counter never
/// saturates, which holds of every buffer with fewer than `usize::MAX`
/// lines.
pub proof fn lemma_tokens_position_ordered(input: Seq<char>, pos: int, ts: Seq<SpecToken>)
    requires
        0 <= pos <= input.len(),
        line_at(input, input.len() as int) < usize::MAX,
        spec_tokenize(input, pos) == Ok::<Seq<SpecToken>, LexError>(ts),
    ensures
        forall|i: int, j: int|
            0 <= i <= j < ts.len() ==> coords_le(ts[i].line, ts[i].column, ts[j].line, ts[j].column),
        forall|k: int|
            0 <= k < ts.len() ==> coords_le(
                line_at(input, pos),
                col_at(input, pos),
                ts[k].line,
                ts[k].column,
            ),
    decreases input.len() - pos,
{
    match spec_next_token(input, pos) {
        ScanStep::Fail(_) => {
        },
        ScanStep::End(_) => {
        },
        ScanStep::Tok(t, p) => {
            let s = skip_trivia(input, pos)->Ok_0;
            lemma_skip_trivia_bounds(input, pos);
            lemma_scan_token_bounds(input, s);
            lemma_line_at_monotone(input, s, input.len() as int);
            lemma_coords_monotone(input, pos, s);
            lemma_line_at_monotone(input, p, input.len() as int);
            lemma_coords_monotone(input, s, p);
            if pos < p <= input.len() {
                let rest = spec_tokenize(input, p)->Ok_0;
                lemma_tokens_position_ordered(input, p, rest);
                assert(ts == seq![t] + rest);
                assert(ts[0] == t);
                assert forall|k: int| 0 <= k < ts.len() implies coords_le(
                    line_at(input, pos),
                    col_at(input, pos),
                    ts[k].line,
                    ts[k].column,
                ) by {
                    if k > 0 {
                        assert(ts[k] == rest[k - 1]);
                    }
                }
                assert forall|i: int, j: int| 0 <= i <= j < ts.len() implies coords_le(
                    ts[i].line,
                    ts[i].column,
                    ts[j].line,
                    ts[j].column,
                ) by {
                    if 0 < i {
                        assert(ts[i] == rest[i - 1]);
                        assert(ts[j] == rest[j - 1]);
                    } else if 0 < j {
                        assert(ts[j] == rest[j - 1]);
                    }
                }
            }
        },
    }
}

} // verus!
