//! Lexical parsing logic.
//!
//! The [`Lexer`] reads a stream of text and converts it into tokens. Each
//! scanning method is proved to produce exactly what the model in
//! [`crate::scan`] describes, so the token sequence — errors included — is a
//! function of the input buffer alone.
use crate::chars::{char_is_alphabetic, char_is_alphanumeric, char_is_digit, char_is_whitespace,
    chars_of, is_whitespace_char};
use crate::scan::{block_comment_close, bump, col_at, error_at, ident_end,
    lemma_block_comment_close_bounds, lemma_ident_end_bounds, lemma_line_col_bounds,
    lemma_line_comment_end_bounds, lemma_mantissa_from_monotone, lemma_number_end_bounds,
    lemma_skip_trivia_through_whitespace, lemma_string_scan_bounds, lemma_whitespace_end_bounds,
    line_at, line_comment_end, mantissa_from, number_end, number_value_of, scale_from,
    skip_trivia, spec_next_token, spec_tokenize, string_scan, whitespace_end, LexError,
    LexErrorKind, ScanStep, StringScan};
use crate::token::{keyword_of_chars, operator_of_char, operator_of_pair, punctuation_of_char,
    spec_keyword_of, spec_operator_of_char, spec_operator_of_pair, spec_punctuation_of,
    NumberValue, SpecToken, SpecTokenType, Token, TokenType};
use vstd::prelude::*;

verus! {

broadcast use vstd::std_specs::vec::group_vec_axioms, vstd::seq::group_seq_axioms;

/// The lexer struct responsible for reading a stream of text and converting
/// it into tokens.
pub struct Lexer {
    /// The input context
    input: Vec<char>,
    /// The placement position of the input
    pos: usize,
    /// The current line
    line: usize,
    /// The current column
    column: usize,
}

/// The mathematical state of a [`Lexer`]: the buffer and the cursor. The
/// line and column counters are determined by these two.
pub ghost struct LexerModel {
    pub input: Seq<char>,
    pub pos: int,
}

impl View for Lexer {
    type V = LexerModel;

    closed spec fn view(&self) -> LexerModel {
        LexerModel { input: self.input@, pos: self.pos as int }
    }
}

/// A character buffer never holds more than `usize::MAX` characters.
proof fn lemma_buffer_len(v: &Vec<char>)
    ensures
        v@.len() <= usize::MAX,
{
    assert(vstd::std_specs::vec::spec_vec_len(v) == v@.len());
}

/// A saturating counter step, the executable form of [`bump`].
fn bump_counter(x: usize) -> (r: usize)
    ensures
        r as int == bump(x as int),
{
    if x < usize::MAX {
        x + 1
    } else {
        x
    }
}

impl Lexer {
    /// The lexer's invariant: the cursor is inside the buffer and the line
    /// and column counters agree with the model.
    pub closed spec fn wf(&self) -> bool {
        &&& self.pos <= self.input@.len()
        &&& self.line as int == line_at(self.input@, self.pos as int)
        &&& self.column as int == col_at(self.input@, self.pos as int)
    }

    pub fn new(input: String) -> (l: Self)
        ensures
            l.wf(),
            l@.input == input@,
            l@.pos == 0,
    {
        Self { input: chars_of(input.as_str()), pos: 0, line: 1, column: 1 }
    }

    /// Advances the lexer by 1 position, advancing line if need be.
    fn advance(&mut self)
        requires
            old(self).wf(),
            old(self)@.pos < old(self)@.input.len(),
        ensures
            final(self).wf(),
            final(self)@.input == old(self)@.input,
            final(self)@.pos == old(self)@.pos + 1,
    {
        proof {
            lemma_line_col_bounds(self.input@, self.pos as int);
            lemma_buffer_len(&self.input);
        }
        if self.input[self.pos] == '\n' {
            self.line = bump_counter(self.line);
            self.column = 1;
        } else {
            self.column = bump_counter(self.column);
        }
        self.pos = self.pos + 1;
    }

    /// Gets the current character at the current position.
    fn current_char(&self) -> (c: Option<char>)
        ensures
            c == if self@.pos < self@.input.len() {
                Some(self@.input[self@.pos])
            } else {
                None::<char>
            },
    {
        if self.pos < self.input.len() {
            Some(self.input[self.pos])
        } else {
            None
        }
    }

    /// Peeks at the next char.
    fn peek_char(&self) -> (c: Option<char>)
        ensures
            c == if self@.pos + 1 < self@.input.len() {
                Some(self@.input[self@.pos + 1])
            } else {
                None::<char>
            },
    {
        proof {
            lemma_buffer_len(&self.input);
        }
        if self.pos < usize::MAX && self.pos + 1 < self.input.len() {
            Some(self.input[self.pos + 1])
        } else {
            None
        }
    }

    /// Skips whitespace until we are no longer at a whitespace char.
    pub fn skip_whitespace(&mut self)
        requires
            old(self).wf(),
        ensures
            final(self).wf(),
            final(self)@.input == old(self)@.input,
            old(self)@.pos <= final(self)@.pos <= final(self)@.input.len(),
            final(self)@.pos == whitespace_end(old(self)@.input, old(self)@.pos),
    {
        loop
            invariant
                self.wf(),
                self@.input == old(self)@.input,
                old(self)@.pos <= self@.pos <= self@.input.len(),
                whitespace_end(self@.input, self@.pos) == whitespace_end(
                    old(self)@.input,
                    old(self)@.pos,
                ),
            ensures
                self.wf(),
                self@.input == old(self)@.input,
                self@.pos == whitespace_end(old(self)@.input, old(self)@.pos),
            decreases self@.input.len() - self@.pos,
        {
            match self.current_char() {
                Some(c) => {
                    if char_is_whitespace(c) {
                        self.advance();
                    } else {
                        break ;
                    }
                },
                None => {
                    break ;
                },
            }
        }
    }

    /// Skips a single line comment: everything up to, but excluding, the next
    /// newline.
    pub fn skip_single_line_comment(&mut self)
        requires
            old(self).wf(),
        ensures
            final(self).wf(),
            final(self)@.input == old(self)@.input,
            old(self)@.pos <= final(self)@.pos <= final(self)@.input.len(),
            final(self)@.pos == line_comment_end(old(self)@.input, old(self)@.pos),
    {
        loop
            invariant
                self.wf(),
                self@.input == old(self)@.input,
                old(self)@.pos <= self@.pos <= self@.input.len(),
                line_comment_end(self@.input, self@.pos) == line_comment_end(
                    old(self)@.input,
                    old(self)@.pos,
                ),
            ensures
                self.wf(),
                self@.input == old(self)@.input,
                self@.pos == line_comment_end(old(self)@.input, old(self)@.pos),
            decreases self@.input.len() - self@.pos,
        {
            match self.current_char() {
                Some(c) => {
                    if c == '\n' {
                        break ;
                    }
                    self.advance();
                },
                None => {
                    break ;
                },
            }
        }
    }

    /// Skips a multiline comment, which may span any number of lines: the
    /// opening `/*` is consumed, then everything up to and including the
    /// closing `*/`. Reaching the end of input before the closing marker is
    /// an `UnterminatedComment` error.
    pub fn skip_multi_line_comment(&mut self) -> (r: Result<(), LexError>)
        requires
            old(self).wf(),
            old(self)@.pos + 2 <= old(self)@.input.len(),
        ensures
            final(self).wf(),
            final(self)@.input == old(self)@.input,
            old(self)@.pos <= final(self)@.pos <= final(self)@.input.len(),
            match block_comment_close(old(self)@.input, old(self)@.pos + 2) {
                Some(p) => r is Ok && final(self)@.pos == p,
                None => final(self)@.pos == final(self)@.input.len() && r == Err::<(), LexError>(
                    error_at(
                        old(self)@.input,
                        old(self)@.input.len() as int,
                        LexErrorKind::UnterminatedComment,
                    ),
                ),
            },
    {
        // Skip the initial "/*"
        self.advance();
        self.advance();

        let mut closed = false;
        loop
            invariant_except_break
                !closed,
                block_comment_close(self@.input, self@.pos) == block_comment_close(
                    old(self)@.input,
                    old(self)@.pos + 2,
                ),
            invariant
                self.wf(),
                self@.input == old(self)@.input,
                old(self)@.pos + 2 <= self@.pos <= self@.input.len(),
            ensures
                self.wf(),
                self@.input == old(self)@.input,
                match block_comment_close(old(self)@.input, old(self)@.pos + 2) {
                    Some(p) => closed && self@.pos == p,
                    None => !closed && self@.pos == self@.input.len(),
                },
            decreases self@.input.len() - self@.pos,
        {
            match self.current_char() {
                Some(c) => {
                    let star_slash = c == '*' && match self.peek_char() {
                        Some(n) => n == '/',
                        None => false,
                    };
                    if star_slash {
                        self.advance();
                        self.advance();
                        closed = true;
                        break ;
                    }
                    self.advance();
                },
                None => {
                    break ;
                },
            }
        }
        if closed {
            Ok(())
        } else {
            Err(
                LexError {
                    kind: LexErrorKind::UnterminatedComment,
                    line: self.line,
                    column: self.column,
                },
            )
        }
    }

    /// Reads an entire identifier/keyword and registers it as such.
    pub fn collect_identifier_or_keyword(&mut self) -> (t: Token)
        requires
            old(self).wf(),
        ensures
            final(self).wf(),
            final(self)@.input == old(self)@.input,
            old(self)@.pos <= final(self)@.pos <= final(self)@.input.len(),
            final(self)@.pos == ident_end(old(self)@.input, old(self)@.pos),
            t@ == (SpecToken {
                token_type: match spec_keyword_of(
                    old(self)@.input.subrange(old(self)@.pos, final(self)@.pos),
                ) {
                    Some(k) => SpecTokenType::Keyword(k),
                    None => SpecTokenType::Identifier(
                        old(self)@.input.subrange(old(self)@.pos, final(self)@.pos),
                    ),
                },
                line: line_at(old(self)@.input, old(self)@.pos),
                column: col_at(old(self)@.input, old(self)@.pos),
            }),
    {
        let line = self.line;
        let column = self.column;
        let mut text = String::new();
        let mut cs: Vec<char> = Vec::new();
        loop
            invariant
                self.wf(),
                self@.input == old(self)@.input,
                old(self)@.pos <= self@.pos <= self@.input.len(),
                text@ == self@.input.subrange(old(self)@.pos, self@.pos),
                cs@ == text@,
                ident_end(self@.input, self@.pos) == ident_end(old(self)@.input, old(self)@.pos),
            ensures
                self.wf(),
                self@.input == old(self)@.input,
                self@.pos == ident_end(old(self)@.input, old(self)@.pos),
                text@ == self@.input.subrange(old(self)@.pos, self@.pos),
                cs@ == text@,
            decreases self@.input.len() - self@.pos,
        {
            match self.current_char() {
                Some(c) => {
                    if char_is_alphanumeric(c) || char_is_alphabetic(c) || c == '_' || c == '$' {
                        text.push(c);
                        cs.push(c);
                        proof {
                            assert(self@.input.subrange(old(self)@.pos, self@.pos + 1)
                                =~= self@.input.subrange(old(self)@.pos, self@.pos as int).push(c));
                        }
                        self.advance();
                    } else {
                        break ;
                    }
                },
                None => {
                    break ;
                },
            }
        }

        let token_type = if let Some(keyword) = keyword_of_chars(&cs) {
            TokenType::Keyword(keyword)
        } else {
            TokenType::Identifier(text)
        };

        Token::new(token_type, line, column)
    }

    /// Collects an entire number as a token: a run of digits with at most one
    /// decimal point. A literal whose mantissa does not fit a `u64` is a
    /// `MalformedNumber` error rather than a silently truncated value.
    pub fn collect_number(&mut self) -> (r: Result<Token, LexError>)
        requires
            old(self).wf(),
        ensures
            final(self).wf(),
            final(self)@.input == old(self)@.input,
            old(self)@.pos <= final(self)@.pos <= final(self)@.input.len(),
            final(self)@.pos == number_end(old(self)@.input, old(self)@.pos, false),
            ({
                let text = old(self)@.input.subrange(old(self)@.pos, final(self)@.pos);
                let (mantissa, scale) = number_value_of(text);
                if mantissa > u64::MAX {
                    r == Err::<Token, LexError>(
                        error_at(old(self)@.input, old(self)@.pos, LexErrorKind::MalformedNumber),
                    )
                } else {
                    r matches Ok(t) && t@ == (SpecToken {
                        token_type: SpecTokenType::Number(
                            NumberValue { mantissa: mantissa as u64, scale: scale as usize },
                        ),
                        line: line_at(old(self)@.input, old(self)@.pos),
                        column: col_at(old(self)@.input, old(self)@.pos),
                    })
                }
            }),
    {
        let line = self.line;
        let column = self.column;
        let ghost end = number_end(old(self)@.input, old(self)@.pos, false);
        let ghost text = old(self)@.input.subrange(old(self)@.pos, end);
        proof {
            lemma_number_end_bounds(old(self)@.input, old(self)@.pos, false);
        }
        let mut mantissa: u64 = 0;
        let mut scale: usize = 0;
        let mut has_decimal = false;
        let mut overflow = false;
        loop
            invariant
                self.wf(),
                self@.input == old(self)@.input,
                old(self)@.pos <= self@.pos <= end <= self@.input.len(),
                end == number_end(old(self)@.input, old(self)@.pos, false),
                text == old(self)@.input.subrange(old(self)@.pos, end),
                number_end(self@.input, self@.pos, has_decimal) == end,
                !overflow ==> mantissa_from(text, self@.pos - old(self)@.pos, mantissa as nat)
                    == mantissa_from(text, 0, 0),
                overflow ==> mantissa_from(text, 0, 0) > u64::MAX,
                scale_from(text, self@.pos - old(self)@.pos, has_decimal, scale as nat)
                    == scale_from(text, 0, false, 0),
                scale <= self@.pos - old(self)@.pos,
            ensures
                self.wf(),
                self@.input == old(self)@.input,
                self@.pos == end,
                !overflow ==> mantissa as nat == mantissa_from(text, 0, 0),
                overflow ==> mantissa_from(text, 0, 0) > u64::MAX,
                scale as nat == scale_from(text, 0, false, 0),
            decreases self@.input.len() - self@.pos,
        {
            proof {
                if self@.pos < end {
                    assert(text[self@.pos - old(self)@.pos] == self@.input[self@.pos]);
                }
            }
            match self.current_char() {
                Some(c) => {
                    proof {
                        lemma_buffer_len(&self.input);
                    }
                    if char_is_digit(c) {
                        proof {
                            lemma_number_end_bounds(
                                self@.input,
                                self@.pos as int + 1,
                                has_decimal,
                            );
                        }
                        let d: u64 = (c as u32 - 48) as u64;
                        if !overflow {
                            if mantissa <= (u64::MAX - d) / 10 {
                                proof {
                                    assert(mantissa * 10 <= ((u64::MAX - d) / 10) * 10) by (nonlinear_arith)
                                        requires
                                            0 <= mantissa <= (u64::MAX - d) / 10,
                                    ;
                                }
                                mantissa = mantissa * 10 + d;
                            } else {
                                proof {
                                    let acc = mantissa as nat;
                                    let dv = d as nat;
                                    assert(acc * 10 + dv > u64::MAX) by (nonlinear_arith)
                                        requires
                                            acc > (u64::MAX - dv) / 10,
                                            0 <= dv <= 9,
                                            acc >= 0,
                                    ;
                                    lemma_mantissa_from_monotone(
                                        text,
                                        self@.pos - old(self)@.pos + 1,
                                        (acc * 10 + dv) as nat,
                                    );
                                }
                                overflow = true;
                            }
                        }
                        if has_decimal {
                            scale = scale + 1;
                        }
                        self.advance();
                    } else if c == '.' && !has_decimal {
                        proof {
                            lemma_number_end_bounds(self@.input, self@.pos as int + 1, true);
                        }
                        has_decimal = true;
                        self.advance();
                    } else {
                        break ;
                    }
                },
                None => {
                    break ;
                },
            }
        }

        if overflow {
            Err(LexError { kind: LexErrorKind::MalformedNumber, line, column })
        } else {
            Ok(
                Token::new(
                    TokenType::Number(NumberValue { mantissa, scale }),
                    line,
                    column,
                ),
            )
        }
    }

    /// Reads a complete string within two quote marks. The literal closes
    /// only on the same quote character it was opened with; a backslash makes
    /// the following character literal. Reaching the end of input without the
    /// closing quote is an `UnterminatedString` error.
    pub fn collect_string(&mut self) -> (r: Result<Token, LexError>)
        requires
            old(self).wf(),
            old(self)@.pos < old(self)@.input.len(),
        ensures
            final(self).wf(),
            final(self)@.input == old(self)@.input,
            old(self)@.pos <= final(self)@.pos <= final(self)@.input.len(),
            match string_scan(
                old(self)@.input,
                old(self)@.pos + 1,
                old(self)@.input[old(self)@.pos],
                Seq::empty(),
            ) {
                StringScan::Closed(content, close) => r matches Ok(t) && t@ == (SpecToken {
                    token_type: SpecTokenType::String(content),
                    line: line_at(old(self)@.input, old(self)@.pos),
                    column: col_at(old(self)@.input, old(self)@.pos),
                }) && final(self)@.pos == close,
                StringScan::Unterminated => final(self)@.pos == final(self)@.input.len() && r
                    == Err::<Token, LexError>(
                    error_at(
                        old(self)@.input,
                        old(self)@.input.len() as int,
                        LexErrorKind::UnterminatedString,
                    ),
                ),
            },
    {
        let line = self.line;
        let column = self.column;
        let quote = self.input[self.pos];
        self.advance();
        let mut result = String::new();
        let mut closed = false;

        loop
            invariant_except_break
                !closed,
                string_scan(self@.input, self@.pos, quote, result@) == string_scan(
                    old(self)@.input,
                    old(self)@.pos + 1,
                    quote,
                    Seq::empty(),
                ),
            invariant
                self.wf(),
                self@.input == old(self)@.input,
                old(self)@.pos + 1 <= self@.pos <= self@.input.len(),
                quote == old(self)@.input[old(self)@.pos],
            ensures
                self.wf(),
                self@.input == old(self)@.input,
                match string_scan(
                    old(self)@.input,
                    old(self)@.pos + 1,
                    quote,
                    Seq::empty(),
                ) {
                    StringScan::Closed(content, close) => closed && result@ == content && self@.pos
                        == close,
                    StringScan::Unterminated => !closed && self@.pos == self@.input.len(),
                },
            decreases self@.input.len() - self@.pos,
        {
            match self.current_char() {
                Some(c) => {
                    if c == quote {
                        self.advance();
                        closed = true;
                        break ;
                    } else if c == '\\' {
                        self.advance();
                        match self.current_char() {
                            Some(escaped) => {
                                result.push(escaped);
                                self.advance();
                            },
                            None => {},
                        }
                    } else {
                        result.push(c);
                        self.advance();
                    }
                },
                None => {
                    break ;
                },
            }
        }

        if closed {
            Ok(Token::new(TokenType::String(result), line, column))
        } else {
            Err(
                LexError {
                    kind: LexErrorKind::UnterminatedString,
                    line: self.line,
                    column: self.column,
                },
            )
        }
    }

    /// Collects an operator or punctuation token, trying the longest operator
    /// match first: a two-character operator beats a one-character one, and
    /// punctuation is only considered when no operator matches. A character
    /// that matches neither table is an `UnrecognizedCharacter` error.
    pub fn collect_operator_or_punctuation(&mut self) -> (r: Result<Token, LexError>)
        requires
            old(self).wf(),
            old(self)@.pos < old(self)@.input.len(),
        ensures
            final(self).wf(),
            final(self)@.input == old(self)@.input,
            old(self)@.pos <= final(self)@.pos <= final(self)@.input.len(),
            ({
                let input = old(self)@.input;
                let pos = old(self)@.pos;
                let c = input[pos];
                let line = line_at(input, pos);
                let column = col_at(input, pos);
                if pos + 1 < input.len() && spec_operator_of_pair(c, input[pos + 1]) is Some {
                    r matches Ok(t) && t@ == (SpecToken {
                        token_type: SpecTokenType::Operator(
                            spec_operator_of_pair(c, input[pos + 1])->0,
                        ),
                        line,
                        column,
                    }) && final(self)@.pos == pos + 2
                } else if spec_operator_of_char(c) is Some {
                    r matches Ok(t) && t@ == (SpecToken {
                        token_type: SpecTokenType::Operator(spec_operator_of_char(c)->0),
                        line,
                        column,
                    }) && final(self)@.pos == pos + 1
                } else if spec_punctuation_of(c) is Some {
                    r matches Ok(t) && t@ == (SpecToken {
                        token_type: SpecTokenType::Punctuation(spec_punctuation_of(c)->0),
                        line,
                        column,
                    }) && final(self)@.pos == pos + 1
                } else {
                    r == Err::<Token, LexError>(
                        error_at(input, pos, LexErrorKind::UnrecognizedCharacter),
                    ) && final(self)@.pos == pos
                }
            }),
    {
        let line = self.line;
        let column = self.column;
        let c = self.input[self.pos];

        if let Some(next) = self.peek_char() {
            if let Some(op) = operator_of_pair(c, next) {
                self.advance();
                self.advance();
                return Ok(Token::new(TokenType::Operator(op), line, column));
            }
        }
        if let Some(op) = operator_of_char(c) {
            self.advance();
            return Ok(Token::new(TokenType::Operator(op), line, column));
        }
        if let Some(punc) = punctuation_of_char(c) {
            self.advance();
            return Ok(Token::new(TokenType::Punctuation(punc), line, column));
        }
        Err(LexError { kind: LexErrorKind::UnrecognizedCharacter, line, column })
    }

    /// Produces the next token, or `None` at the end of input, skipping
    /// whitespace and comments on the way; fails with the first lexical
    /// error. The result is exactly [`spec_next_token`] of the lexer's state,
    /// and a produced token always moves the cursor forward.
    pub fn next_token(&mut self) -> (r: Result<Option<Token>, LexError>)
        requires
            old(self).wf(),
        ensures
            final(self).wf(),
            final(self)@.input == old(self)@.input,
            old(self)@.pos <= final(self)@.pos <= final(self)@.input.len(),
            match spec_next_token(old(self)@.input, old(self)@.pos) {
                ScanStep::Tok(t, p) => r matches Ok(Some(tok)) && tok@ == t && final(self)@.pos == p && old(
                    self,
                )@.pos < p && p <= final(self)@.input.len(),
                ScanStep::End(p) => r == Ok::<Option<Token>, LexError>(None) && final(self)@.pos == p,
                ScanStep::Fail(e) => r == Err::<Option<Token>, LexError>(e),
            },
    {
        loop
            invariant
                self.wf(),
                self@.input == old(self)@.input,
                old(self)@.pos <= self@.pos <= self@.input.len(),
                skip_trivia(self@.input, self@.pos) == skip_trivia(
                    old(self)@.input,
                    old(self)@.pos,
                ),
            ensures
                self.wf(),
                self@.input == old(self)@.input,
                old(self)@.pos <= self@.pos < self@.input.len(),
                skip_trivia(old(self)@.input, old(self)@.pos) == Ok::<int, LexError>(self@.pos),
                !is_whitespace_char(self@.input[self@.pos]),
            decreases self@.input.len() - self@.pos,
        {
            match self.current_char() {
                None => {
                    return Ok(None);
                },
                Some(c) => {
                    if char_is_whitespace(c) {
                        proof {
                            lemma_skip_trivia_through_whitespace(self@.input, self@.pos as int);
                            lemma_whitespace_end_bounds(self@.input, self@.pos as int + 1);
                        }
                        self.skip_whitespace();
                    } else if c == '/' {
                        match self.peek_char() {
                            Some(n) => {
                                if n == '/' {
                                    proof {
                                        lemma_line_comment_end_bounds(
                                            self@.input,
                                            self@.pos as int + 2,
                                        );
                                    }
                                    self.advance();
                                    self.advance();
                                    self.skip_single_line_comment();
                                } else if n == '*' {
                                    proof {
                                        if block_comment_close(
                                            self@.input,
                                            self@.pos as int + 2,
                                        ) is Some {
                                            lemma_block_comment_close_bounds(
                                                self@.input,
                                                self@.pos as int + 2,
                                            );
                                        }
                                    }
                                    match self.skip_multi_line_comment() {
                                        Ok(_) => {
                                        },
                                        Err(e) => {
                                            return Err(e);
                                        },
                                    }
                                } else {
                                    break ;
                                }
                            },
                            None => {
                                break ;
                            },
                        }
                    } else {
                        break ;
                    }
                },
            }
        }

        let c = self.input[self.pos];
        if char_is_alphabetic(c) || c == '_' || c == '$' {
            proof {
                lemma_ident_end_bounds(self@.input, self@.pos as int + 1);
            }
            Ok(Some(self.collect_identifier_or_keyword()))
        } else if char_is_digit(c) {
            proof {
                lemma_number_end_bounds(self@.input, self@.pos as int + 1, false);
            }
            match self.collect_number() {
                Ok(t) => Ok(Some(t)),
                Err(e) => Err(e),
            }
        } else if c == '"' || c == '\'' {
            proof {
                if string_scan(self@.input, self@.pos + 1, c, Seq::empty()) is Closed {
                    lemma_string_scan_bounds(self@.input, self@.pos + 1, c, Seq::empty());
                }
            }
            match self.collect_string() {
                Ok(t) => Ok(Some(t)),
                Err(e) => Err(e),
            }
        } else {
            match self.collect_operator_or_punctuation() {
                Ok(t) => Ok(Some(t)),
                Err(e) => Err(e),
            }
        }
    }

    /// Drains the lexer: the whole token sequence of the remaining input, or
    /// the first lexical error. The result is exactly [`spec_tokenize`] of
    /// the buffer, so lexing the same buffer always yields the same outcome.
    pub fn tokenize(&mut self) -> (r: Result<Vec<Token>, LexError>)
        requires
            old(self).wf(),
        ensures
            final(self).wf(),
            final(self)@.input == old(self)@.input,
            old(self)@.pos <= final(self)@.pos <= final(self)@.input.len(),
            match spec_tokenize(old(self)@.input, old(self)@.pos) {
                Ok(ts) => r matches Ok(v) && v@.map_values(|t: Token| t@) == ts,
                Err(e) => r == Err::<Vec<Token>, LexError>(e),
            },
    {
        let mut tokens: Vec<Token> = Vec::new();
        loop
            invariant
                self.wf(),
                self@.input == old(self)@.input,
                old(self)@.pos <= self@.pos <= self@.input.len(),
                match spec_tokenize(self@.input, self@.pos) {
                    Ok(rest) => spec_tokenize(old(self)@.input, old(self)@.pos) == Ok::<
                        Seq<SpecToken>,
                        LexError,
                    >(tokens@.map_values(|t: Token| t@) + rest),
                    Err(e) => spec_tokenize(old(self)@.input, old(self)@.pos) == Err::<
                        Seq<SpecToken>,
                        LexError,
                    >(e),
                },
            decreases self@.input.len() - self@.pos + 1,
        {
            let ghost pos_before = self@.pos;
            match self.next_token() {
                Err(e) => {
                    return Err(e);
                },
                Ok(None) => {
                    proof {
                        assert(tokens@.map_values(|t: Token| t@) + Seq::<SpecToken>::empty()
                            =~= tokens@.map_values(|t: Token| t@));
                    }
                    return Ok(tokens);
                },
                Ok(Some(t)) => {
                    proof {
                        let f = |tk: Token| tk@;
                        assert(tokens@.push(t).map_values(f) =~= tokens@.map_values(f).push(t@));
                        if let ScanStep::Tok(st, p) = spec_next_token(self@.input, pos_before) {
                            if let Ok(rest) = spec_tokenize(self@.input, p) {
                                assert(tokens@.map_values(f).push(t@) + rest =~= tokens@.map_values(
                                    f,
                                ) + (seq![st] + rest));
                            }
                        }
                    }
                    tokens.push(t);
                },
            }
        }
    }
}

} // verus!
