//! The parser: statement-level recognition over a pre-collected token
//! sequence.
//!
//! The lexer is drained into a token vector before parsing begins; the
//! parser walks it with a cursor that never moves backwards and never leaves
//! the sequence. Statements are recognised here; expressions are deferred to
//! the grammar rule registry of [`crate::syntax`]. Every method is proved to
//! produce exactly what the grammar model describes.
use crate::ast::{ast_view, asts_view, lemma_tokens_len, ASTNode, AstParseError, SpecAst,
    VariableKind};
use crate::lexer::Lexer;
use crate::scan::{spec_tokenize, LexError};
use crate::syntax::{spec_dispatch, spec_parse_expression, spec_registry, spec_registry_matches,
    syntax_patterns, SyntaxGrammar, SyntaxRule};
use crate::token::{Keyword, Punctuation, SpecToken, Token, TokenType};
use vstd::prelude::*;

verus! {

broadcast use vstd::std_specs::vec::group_vec_axioms, vstd::seq::group_seq_axioms;

/// Consuming one token that must be the expected punctuation: the position
/// past it, or the error.
pub open spec fn spec_consume_punct(ts: Seq<Token>, pos: int, expected: Punctuation) -> Result<
    int,
    AstParseError,
> {
    if pos < 0 || pos >= ts.len() {
        Err(AstParseError::UnexpectedEof)
    } else {
        match ts[pos].token_type {
            TokenType::Punctuation(p) => if p == expected {
                Ok(pos + 1)
            } else {
                Err(AstParseError::UnexpectedToken(ts[pos]))
            },
            _ => Err(AstParseError::UnexpectedToken(ts[pos])),
        }
    }
}

/// A variable declaration: the kind keyword, an identifier, an optional
/// `=`-initializer expression, and a terminating semicolon.
pub open spec fn spec_parse_declaration(ts: Seq<Token>, pos: int) -> Result<
    (SpecAst, int),
    AstParseError,
>
    decreases ts.len() - pos, 16int, 0int,
{
    if pos < 0 || pos >= ts.len() {
        Err(AstParseError::UnexpectedEof)
    } else {
        let kind = match ts[pos].token_type {
            TokenType::Keyword(Keyword::Let) => Some(VariableKind::Let),
            TokenType::Keyword(Keyword::Const) => Some(VariableKind::Const),
            TokenType::Keyword(Keyword::Var) => Some(VariableKind::Var),
            _ => None,
        };
        match kind {
            None => Err(AstParseError::UnexpectedToken(ts[pos])),
            Some(kind) => if pos + 1 >= ts.len() {
                Err(AstParseError::UnexpectedEof)
            } else {
                match ts[pos + 1].token_type {
                    TokenType::Identifier(name) => if pos + 2 < ts.len() && ts[pos
                        + 2].token_type matches TokenType::Operator(
                        crate::token::Operator::Assignment,
                    ) {
                        match spec_parse_expression(ts, pos + 3) {
                            Err(e) => Err(e),
                            Ok((init, p)) => if pos + 3 < p <= ts.len() {
                                match spec_consume_punct(ts, p, Punctuation::Semicolon) {
                                    Err(e) => Err(e),
                                    Ok(p2) => Ok(
                                        (
                                            SpecAst::VariableDeclaration {
                                                kind,
                                                name,
                                                initializer: Some(Box::new(init)),
                                            },
                                            p2,
                                        ),
                                    ),
                                }
                            } else {
                                Err(AstParseError::UnknownTokenPattern)
                            },
                        }
                    } else {
                        match spec_consume_punct(ts, pos + 2, Punctuation::Semicolon) {
                            Err(e) => Err(e),
                            Ok(p2) => Ok(
                                (
                                    SpecAst::VariableDeclaration {
                                        kind,
                                        name,
                                        initializer: None,
                                    },
                                    p2,
                                ),
                            ),
                        }
                    },
                    _ => Err(AstParseError::UnexpectedToken(ts[pos + 1])),
                }
            },
        }
    }
}

/// A function's comma-separated parameter list: identifiers up to the
/// closing parenthesis, which is consumed.
pub open spec fn spec_parse_params(ts: Seq<Token>, pos: int) -> Result<
    (Seq<String>, int),
    AstParseError,
>
    decreases ts.len() - pos, 16int, 0int,
{
    if pos < 0 || pos >= ts.len() {
        Err(AstParseError::UnexpectedEof)
    } else if ts[pos].token_type matches TokenType::Punctuation(Punctuation::CloseParen) {
        Ok((Seq::empty(), pos + 1))
    } else {
        match ts[pos].token_type {
            TokenType::Identifier(name) => if pos + 1 >= ts.len() {
                Err(AstParseError::UnexpectedEof)
            } else if ts[pos + 1].token_type matches TokenType::Punctuation(Punctuation::Comma) {
                match spec_parse_params(ts, pos + 2) {
                    Err(e) => Err(e),
                    Ok((rest, end)) => Ok((seq![name] + rest, end)),
                }
            } else if ts[pos + 1].token_type matches TokenType::Punctuation(
                Punctuation::CloseParen,
            ) {
                Ok((seq![name], pos + 2))
            } else {
                Err(AstParseError::UnexpectedToken(ts[pos + 1]))
            },
            _ => Err(AstParseError::UnexpectedToken(ts[pos])),
        }
    }
}

/// A function declaration: `function`, a name, a parenthesized parameter
/// list, and a braced body of statements.
pub open spec fn spec_parse_function_declaration(ts: Seq<Token>, pos: int) -> Result<
    (SpecAst, int),
    AstParseError,
>
    decreases ts.len() - pos, 16int, 0int,
{
    if pos < 0 || pos >= ts.len() {
        Err(AstParseError::UnexpectedEof)
    } else if !(ts[pos].token_type matches TokenType::Keyword(Keyword::Function)) {
        Err(AstParseError::UnexpectedToken(ts[pos]))
    } else if pos + 1 >= ts.len() {
        Err(AstParseError::UnexpectedEof)
    } else {
        match ts[pos + 1].token_type {
            TokenType::Identifier(name) => match spec_consume_punct(
                ts,
                pos + 2,
                Punctuation::OpenParen,
            ) {
                Err(e) => Err(e),
                Ok(p0) => match spec_parse_params(ts, p0) {
                    Err(e) => Err(e),
                    Ok((params, p1)) => if pos < p1 <= ts.len() {
                        match spec_consume_punct(ts, p1, Punctuation::OpenSquiggle) {
                            Err(e) => Err(e),
                            Ok(p2) => match spec_parse_stmts(ts, p2, true) {
                                Err(e) => Err(e),
                                Ok((body, p3)) => Ok(
                                    (SpecAst::FunctionDeclaration { name, params, body }, p3),
                                ),
                            },
                        }
                    } else {
                        Err(AstParseError::UnknownTokenPattern)
                    },
                },
            },
            _ => Err(AstParseError::UnexpectedToken(ts[pos + 1])),
        }
    }
}

/// An expression statement: one expression and a terminating semicolon.
/// There is no implicit semicolon insertion; a missing terminator is a hard
/// parse error.
pub open spec fn spec_parse_expression_statement(ts: Seq<Token>, pos: int) -> Result<
    (SpecAst, int),
    AstParseError,
>
    decreases ts.len() - pos, 16int, 0int,
{
    match spec_parse_expression(ts, pos) {
        Err(e) => Err(e),
        Ok((expr, p)) => if pos < p <= ts.len() {
            match spec_consume_punct(ts, p, Punctuation::Semicolon) {
                Err(e) => Err(e),
                Ok(p2) => Ok((SpecAst::ExpressionStatement(Box::new(expr)), p2)),
            }
        } else {
            Err(AstParseError::UnknownTokenPattern)
        },
    }
}

/// One statement: a declaration for `let`/`const`/`var`, a function
/// declaration for `function`, and an expression statement otherwise.
pub open spec fn spec_parse_statement(ts: Seq<Token>, pos: int) -> Result<
    (SpecAst, int),
    AstParseError,
>
    decreases ts.len() - pos, 18int, 0int,
{
    if pos < 0 || pos >= ts.len() {
        Err(AstParseError::UnexpectedEof)
    } else {
        match ts[pos].token_type {
            TokenType::Keyword(Keyword::Let) => spec_parse_declaration(ts, pos),
            TokenType::Keyword(Keyword::Const) => spec_parse_declaration(ts, pos),
            TokenType::Keyword(Keyword::Var) => spec_parse_declaration(ts, pos),
            TokenType::Keyword(Keyword::Function) => spec_parse_function_declaration(ts, pos),
            _ => spec_parse_expression_statement(ts, pos),
        }
    }
}

/// A run of statements. With `stop_at_brace` the run belongs to a function
/// body: it ends at a closing brace, which is consumed, and the end of input
/// before it is an error. Without, the run is a whole program: it ends at
/// the end of input.
pub open spec fn spec_parse_stmts(ts: Seq<Token>, pos: int, stop_at_brace: bool) -> Result<
    (Seq<SpecAst>, int),
    AstParseError,
>
    decreases ts.len() - pos, 20int, 0int,
{
    if pos < 0 || pos >= ts.len() {
        if stop_at_brace {
            Err(AstParseError::UnexpectedEof)
        } else {
            Ok((Seq::empty(), if pos < 0 {
                0
            } else {
                pos
            }))
        }
    } else if stop_at_brace && ts[pos].token_type matches TokenType::Punctuation(
        Punctuation::CloseSquiggle,
    ) {
        Ok((Seq::empty(), pos + 1))
    } else {
        match spec_parse_statement(ts, pos) {
            Err(e) => Err(e),
            Ok((s, p)) => if pos < p <= ts.len() {
                match spec_parse_stmts(ts, p, stop_at_brace) {
                    Err(e) => Err(e),
                    Ok((rest, end)) => Ok((seq![s] + rest, end)),
                }
            } else {
                Err(AstParseError::UnknownTokenPattern)
            },
        }
    }
}

/// A whole program: every statement of the token sequence, collected into a
/// `Program` node, or the first parse error.
pub open spec fn spec_parse_program(ts: Seq<Token>) -> Result<SpecAst, AstParseError> {
    match spec_parse_stmts(ts, 0, false) {
        Err(e) => Err(e),
        Ok((stmts, _)) => Ok(SpecAst::Program(stmts)),
    }
}

/// A parser over a pre-collected token sequence: the tokens, a cursor into
/// them, and the grammar rule registry, built once at construction and
/// read-only afterwards.
pub struct Parser {
    /// The token sequence being parsed
    tokens: Vec<Token>,
    /// The cursor into the token sequence
    place: usize,
    /// The ordered grammar rule registry
    registry: Vec<SyntaxRule>,
}

/// The mathematical state of a [`Parser`]: the tokens and the cursor.
pub ghost struct ParserModel {
    pub tokens: Seq<Token>,
    pub place: int,
}

impl View for Parser {
    type V = ParserModel;

    closed spec fn view(&self) -> ParserModel {
        ParserModel { tokens: self.tokens@, place: self.place as int }
    }
}

impl Parser {
    /// The parser's invariant: the cursor is inside the sequence and the
    /// registry holds the canonical rules.
    pub closed spec fn wf(&self) -> bool {
        &&& self.place <= self.tokens@.len()
        &&& self.registry@ == spec_registry()
    }

    /// Creates a parser over an already collected token sequence, with the
    /// cursor at its start.
    pub fn new(tokens: Vec<Token>) -> (p: Self)
        ensures
            p.wf(),
            p@.tokens == tokens@,
            p@.place == 0,
    {
        Self { tokens, place: 0, registry: syntax_patterns() }
    }

    /// Creates a new parser session from a lexer by draining it into a token
    /// sequence; the first lexical error aborts instead.
    pub fn from_lexer(lexer: &mut Lexer) -> (r: Result<Self, LexError>)
        requires
            old(lexer).wf(),
        ensures
            final (lexer).wf(),
            match spec_tokenize(old(lexer)@.input, old(lexer)@.pos) {
                Ok(ts) => r matches Ok(p) && p.wf() && p@.place == 0 && p@.tokens.map_values(
                    |t: Token| t@,
                ) == ts,
                Err(e) => r == Err::<Parser, LexError>(e),
            },
    {
        match lexer.tokenize() {
            Ok(tokens) => Ok(Self::new(tokens)),
            Err(e) => Err(e),
        }
    }

    /// Consumes one token, succeeding only if it is the expected punctuation
    /// mark. A token of any other type is still consumed, and reported in
    /// the error; at the end of input nothing is consumed. Either way the
    /// cursor moves by at most one and stays inside the sequence.
    pub fn consume_punctuation(&mut self, expected: Punctuation) -> (r: Result<(), AstParseError>)
        requires
            old(self).wf(),
        ensures
            final (self).wf(),
            final (self)@.tokens == old(self)@.tokens,
            old(self)@.place <= final (self)@.place <= final (self)@.tokens.len(),
            match spec_consume_punct(old(self)@.tokens, old(self)@.place, expected) {
                Ok(p) => r is Ok && final (self)@.place == p,
                Err(e) => r == Err::<(), AstParseError>(e) && final (self)@.place == (
                if e is UnexpectedEof {
                    old(self)@.place
                } else {
                    old(self)@.place + 1
                }),
            },
    {
        proof {
            lemma_tokens_len(&self.tokens);
        }
        if self.place >= self.tokens.len() {
            return Err(AstParseError::UnexpectedEof);
        }
        let matched = match &self.tokens[self.place].token_type {
            TokenType::Punctuation(p) => *p == expected,
            _ => false,
        };
        if matched {
            self.place = self.place + 1;
            Ok(())
        } else {
            let token = self.tokens[self.place].clone();
            self.place = self.place + 1;
            Err(AstParseError::UnexpectedToken(token))
        }
    }

    /// Parses an expression by trying each registered grammar rule in order
    /// and committing to the first whose predicate matches; if none matches,
    /// the pattern is unknown. No backtracking: an error from the chosen
    /// rule propagates.
    pub fn parse_expression(&mut self) -> (r: Result<ASTNode, AstParseError>)
        requires
            old(self).wf(),
        ensures
            final (self).wf(),
            final (self)@.tokens == old(self)@.tokens,
            old(self)@.place <= final (self)@.place <= final (self)@.tokens.len(),
            !spec_registry_matches(old(self)@.tokens, old(self)@.place, spec_registry()) ==> final (
            self)@.place == old(self)@.place,
            match spec_parse_expression(old(self)@.tokens, old(self)@.place) {
                Ok((n, p)) => r matches Ok(node) && ast_view(node) == n && final (self)@.place == p
                    && old(self)@.place < p,
                Err(e) => r == Err::<ASTNode, AstParseError>(e),
            },
    {
        let n = self.registry.len();
        let mut i: usize = 0;
        proof {
            assert(spec_registry().skip(0) =~= spec_registry());
        }
        while i < n
            invariant
                self.wf(),
                self == old(self),
                n == self.registry@.len(),
                i <= n,
                spec_dispatch(self@.tokens, self@.place, spec_registry().skip(i as int))
                    == spec_parse_expression(self@.tokens, self@.place),
                spec_registry_matches(self@.tokens, self@.place, spec_registry().skip(i as int))
                    == spec_registry_matches(self@.tokens, self@.place, spec_registry()),
            decreases n - i,
        {
            let matched = match &self.registry[i] {
                SyntaxRule::Binary(b) => b.matches_pattern(&self.tokens, self.place),
            };
            proof {
                assert(spec_registry().skip(i as int)[0] == spec_registry()[i as int]);
                assert(spec_registry().skip(i as int).drop_first() =~= spec_registry().skip(
                    i as int + 1,
                ));
            }
            if matched {
                let parsed = match &self.registry[i] {
                    SyntaxRule::Binary(b) => b.parse_grammar(&self.tokens, &mut self.place),
                };
                return parsed;
            }
            i = i + 1;
        }
        Err(AstParseError::UnknownTokenPattern)
    }

    /// Parses a variable declaration with a scope: the kind keyword, an
    /// identifier, an optional initializer expression after `=`, and the
    /// terminating semicolon.
    pub fn parse_declaration(&mut self) -> (r: Result<ASTNode, AstParseError>)
        requires
            old(self).wf(),
        ensures
            final (self).wf(),
            final (self)@.tokens == old(self)@.tokens,
            old(self)@.place <= final (self)@.place <= final (self)@.tokens.len(),
            match spec_parse_declaration(old(self)@.tokens, old(self)@.place) {
                Ok((n, p)) => r matches Ok(node) && ast_view(node) == n && final (self)@.place == p
                    && old(self)@.place < p,
                Err(e) => r == Err::<ASTNode, AstParseError>(e),
            },
    {
        proof {
            lemma_tokens_len(&self.tokens);
        }
        if self.place >= self.tokens.len() {
            return Err(AstParseError::UnexpectedEof);
        }
        let kind = match &self.tokens[self.place].token_type {
            TokenType::Keyword(Keyword::Let) => VariableKind::Let,
            TokenType::Keyword(Keyword::Const) => VariableKind::Const,
            TokenType::Keyword(Keyword::Var) => VariableKind::Var,
            _ => {
                return Err(AstParseError::UnexpectedToken(self.tokens[self.place].clone()));
            },
        };
        self.place = self.place + 1;
        if self.place >= self.tokens.len() {
            return Err(AstParseError::UnexpectedEof);
        }
        let name = match &self.tokens[self.place].token_type {
            TokenType::Identifier(name) => name.clone(),
            _ => {
                return Err(AstParseError::UnexpectedToken(self.tokens[self.place].clone()));
            },
        };
        self.place = self.place + 1;
        let has_initializer = self.place < self.tokens.len() && match &self.tokens[
            self.place
        ].token_type {
            TokenType::Operator(op) => *op == crate::token::Operator::Assignment,
            _ => false,
        };
        let initializer = if has_initializer {
            self.place = self.place + 1;
            match self.parse_expression() {
                Ok(init) => Some(Box::new(init)),
                Err(e) => {
                    return Err(e);
                },
            }
        } else {
            None
        };
        match self.consume_punctuation(Punctuation::Semicolon) {
            Ok(_) => Ok(ASTNode::VariableDeclaration { kind, name, initializer }),
            Err(e) => Err(e),
        }
    }

    /// Parses a function declaration: `function`, a name, a parenthesized
    /// parameter list and a braced body of statements.
    pub fn parse_function_declaration(&mut self) -> (r: Result<ASTNode, AstParseError>)
        requires
            old(self).wf(),
        ensures
            final (self).wf(),
            final (self)@.tokens == old(self)@.tokens,
            old(self)@.place <= final (self)@.place <= final (self)@.tokens.len(),
            match spec_parse_function_declaration(old(self)@.tokens, old(self)@.place) {
                Ok((n, p)) => r matches Ok(node) && ast_view(node) == n && final (self)@.place == p
                    && old(self)@.place < p,
                Err(e) => r == Err::<ASTNode, AstParseError>(e),
            },
        decreases old(self)@.tokens.len() - old(self)@.place, 2int,
    {
        proof {
            lemma_tokens_len(&self.tokens);
        }
        if self.place >= self.tokens.len() {
            return Err(AstParseError::UnexpectedEof);
        }
        let is_function = match &self.tokens[self.place].token_type {
            TokenType::Keyword(Keyword::Function) => true,
            _ => false,
        };
        if !is_function {
            return Err(AstParseError::UnexpectedToken(self.tokens[self.place].clone()));
        }
        if self.place + 1 >= self.tokens.len() {
            return Err(AstParseError::UnexpectedEof);
        }
        let name = match &self.tokens[self.place + 1].token_type {
            TokenType::Identifier(name) => name.clone(),
            _ => {
                return Err(AstParseError::UnexpectedToken(self.tokens[self.place + 1].clone()));
            },
        };
        self.place = self.place + 2;
        match self.consume_punctuation(Punctuation::OpenParen) {
            Ok(_) => {
            },
            Err(e) => {
                return Err(e);
            },
        }

        let ghost params_start = self@.place;
        let mut params: Vec<String> = Vec::new();
        loop
            invariant_except_break
                match spec_parse_params(self@.tokens, self@.place) {
                    Ok((rest, end)) => spec_parse_params(self@.tokens, params_start) == Ok::<
                        (Seq<String>, int),
                        AstParseError,
                    >((params@ + rest, end)),
                    Err(e) => spec_parse_params(self@.tokens, params_start) == Err::<
                        (Seq<String>, int),
                        AstParseError,
                    >(e),
                },
            invariant
                self.wf(),
                self@.tokens == old(self)@.tokens,
                old(self)@.place < params_start <= self@.place <= self@.tokens.len(),
                old(self)@.place + 1 < self@.tokens.len(),
                self@.tokens[old(self)@.place].token_type matches TokenType::Keyword(
                    Keyword::Function,
                ),
                self@.tokens[old(self)@.place + 1].token_type == TokenType::Identifier(name),
                spec_consume_punct(self@.tokens, old(self)@.place + 2, Punctuation::OpenParen)
                    == Ok::<int, AstParseError>(params_start),
            ensures
                self.wf(),
                self@.tokens == old(self)@.tokens,
                old(self)@.place < params_start < self@.place <= self@.tokens.len(),
                spec_parse_params(self@.tokens, params_start) == Ok::<
                    (Seq<String>, int),
                    AstParseError,
                >((params@, self@.place)),
            decreases self@.tokens.len() - self@.place,
        {
            proof {
                lemma_tokens_len(&self.tokens);
            }
            if self.place >= self.tokens.len() {
                return Err(AstParseError::UnexpectedEof);
            }
            let at_close = match &self.tokens[self.place].token_type {
                TokenType::Punctuation(p) => *p == Punctuation::CloseParen,
                _ => false,
            };
            if at_close {
                proof {
                    assert(params@ + Seq::<String>::empty() =~= params@);
                }
                self.place = self.place + 1;
                break ;
            }
            let param = match &self.tokens[self.place].token_type {
                TokenType::Identifier(name) => name.clone(),
                _ => {
                    return Err(AstParseError::UnexpectedToken(self.tokens[self.place].clone()));
                },
            };
            if self.place + 1 >= self.tokens.len() {
                return Err(AstParseError::UnexpectedEof);
            }
            let at_comma = match &self.tokens[self.place + 1].token_type {
                TokenType::Punctuation(p) => *p == Punctuation::Comma,
                _ => false,
            };
            let at_close_after = match &self.tokens[self.place + 1].token_type {
                TokenType::Punctuation(p) => *p == Punctuation::CloseParen,
                _ => false,
            };
            if at_comma {
                proof {
                    if let Ok((rest2, end2)) = spec_parse_params(self@.tokens, self@.place + 2) {
                        assert(params@.push(param) + rest2 =~= params@ + (seq![param] + rest2));
                    }
                }
                params.push(param);
                self.place = self.place + 2;
            } else if at_close_after {
                proof {
                    assert(params@.push(param) =~= params@ + seq![param]);
                }
                params.push(param);
                self.place = self.place + 2;
                break ;
            } else {
                return Err(AstParseError::UnexpectedToken(self.tokens[self.place + 1].clone()));
            }
        }

        let ghost params_end = self@.place;
        match self.consume_punctuation(Punctuation::OpenSquiggle) {
            Ok(_) => {
            },
            Err(e) => {
                return Err(e);
            },
        }

        let ghost body_start = self@.place;
        let mut body: Vec<ASTNode> = Vec::new();
        loop
            invariant_except_break
                match spec_parse_stmts(self@.tokens, self@.place, true) {
                    Ok((rest, end)) => spec_parse_stmts(self@.tokens, body_start, true) == Ok::<
                        (Seq<SpecAst>, int),
                        AstParseError,
                    >((asts_view(body@) + rest, end)),
                    Err(e) => spec_parse_stmts(self@.tokens, body_start, true) == Err::<
                        (Seq<SpecAst>, int),
                        AstParseError,
                    >(e),
                },
            invariant
                self.wf(),
                self@.tokens == old(self)@.tokens,
                old(self)@.place < body_start <= self@.place <= self@.tokens.len(),
                old(self)@.place + 1 < self@.tokens.len(),
                self@.tokens[old(self)@.place].token_type matches TokenType::Keyword(
                    Keyword::Function,
                ),
                self@.tokens[old(self)@.place + 1].token_type == TokenType::Identifier(name),
                spec_consume_punct(self@.tokens, old(self)@.place + 2, Punctuation::OpenParen)
                    == Ok::<int, AstParseError>(params_start),
                old(self)@.place < params_start < params_end <= self@.tokens.len(),
                spec_parse_params(self@.tokens, params_start) == Ok::<
                    (Seq<String>, int),
                    AstParseError,
                >((params@, params_end)),
                spec_consume_punct(self@.tokens, params_end, Punctuation::OpenSquiggle) == Ok::<
                    int,
                    AstParseError,
                >(body_start),
            ensures
                self.wf(),
                self@.tokens == old(self)@.tokens,
                old(self)@.place < body_start < self@.place <= self@.tokens.len(),
                spec_parse_stmts(self@.tokens, body_start, true) == Ok::<
                    (Seq<SpecAst>, int),
                    AstParseError,
                >((asts_view(body@), self@.place)),
            decreases self@.tokens.len() - self@.place,
        {
            proof {
                lemma_tokens_len(&self.tokens);
            }
            if self.place >= self.tokens.len() {
                return Err(AstParseError::UnexpectedEof);
            }
            let at_close = match &self.tokens[self.place].token_type {
                TokenType::Punctuation(p) => *p == Punctuation::CloseSquiggle,
                _ => false,
            };
            if at_close {
                proof {
                    assert(asts_view(body@) + Seq::<SpecAst>::empty() =~= asts_view(body@));
                }
                self.place = self.place + 1;
                break ;
            }
            let stmt = match self.parse_statement() {
                Ok(stmt) => stmt,
                Err(e) => {
                    return Err(e);
                },
            };
            proof {
                assert(body@.push(stmt).drop_last() =~= body@);
                if let Ok((rest2, end2)) = spec_parse_stmts(self@.tokens, self@.place, true) {
                    assert(asts_view(body@.push(stmt)) + rest2 =~= asts_view(body@) + (seq![
                        ast_view(stmt) ] + rest2));
                }
            }
            body.push(stmt);
        }

        Ok(ASTNode::FunctionDeclaration { name, params, body })
    }

    /// Parses an expression statement: one expression terminated by a
    /// semicolon.
    pub fn parse_expression_statement(&mut self) -> (r: Result<ASTNode, AstParseError>)
        requires
            old(self).wf(),
        ensures
            final (self).wf(),
            final (self)@.tokens == old(self)@.tokens,
            old(self)@.place <= final (self)@.place <= final (self)@.tokens.len(),
            match spec_parse_expression_statement(old(self)@.tokens, old(self)@.place) {
                Ok((n, p)) => r matches Ok(node) && ast_view(node) == n && final (self)@.place == p
                    && old(self)@.place < p,
                Err(e) => r == Err::<ASTNode, AstParseError>(e),
            },
    {
        let expr = match self.parse_expression() {
            Ok(expr) => expr,
            Err(e) => {
                return Err(e);
            },
        };
        match self.consume_punctuation(Punctuation::Semicolon) {
            Ok(_) => Ok(ASTNode::ExpressionStatement(Box::new(expr))),
            Err(e) => Err(e),
        }
    }

    /// Parses one statement, dispatching on the current token: `let`,
    /// `const` and `var` open a variable declaration, `function` a function
    /// declaration, and anything else an expression statement.
    pub fn parse_statement(&mut self) -> (r: Result<ASTNode, AstParseError>)
        requires
            old(self).wf(),
        ensures
            final (self).wf(),
            final (self)@.tokens == old(self)@.tokens,
            old(self)@.place <= final (self)@.place <= final (self)@.tokens.len(),
            match spec_parse_statement(old(self)@.tokens, old(self)@.place) {
                Ok((n, p)) => r matches Ok(node) && ast_view(node) == n && final (self)@.place == p
                    && old(self)@.place < p,
                Err(e) => r == Err::<ASTNode, AstParseError>(e),
            },
        decreases old(self)@.tokens.len() - old(self)@.place, 4int,
    {
        if self.place >= self.tokens.len() {
            return Err(AstParseError::UnexpectedEof);
        }
        let is_declaration = match &self.tokens[self.place].token_type {
            TokenType::Keyword(Keyword::Let) => true,
            TokenType::Keyword(Keyword::Const) => true,
            TokenType::Keyword(Keyword::Var) => true,
            _ => false,
        };
        let is_function = match &self.tokens[self.place].token_type {
            TokenType::Keyword(Keyword::Function) => true,
            _ => false,
        };
        if is_declaration {
            self.parse_declaration()
        } else if is_function {
            self.parse_function_declaration()
        } else {
            self.parse_expression_statement()
        }
    }

    /// Parses the whole remaining token sequence as a program: statements
    /// until the end of input, collected into a `Program` node, or the first
    /// parse error.
    pub fn parse_program(&mut self) -> (r: Result<ASTNode, AstParseError>)
        requires
            old(self).wf(),
        ensures
            final (self).wf(),
            final (self)@.tokens == old(self)@.tokens,
            old(self)@.place <= final (self)@.place <= final (self)@.tokens.len(),
            match spec_parse_stmts(old(self)@.tokens, old(self)@.place, false) {
                Ok((stmts, end)) => r matches Ok(node) && ast_view(node) == SpecAst::Program(stmts)
                    && final (self)@.place == end,
                Err(e) => r == Err::<ASTNode, AstParseError>(e),
            },
            old(self)@.place == 0 ==> match spec_parse_program(old(self)@.tokens) {
                Ok(n) => r matches Ok(node) && ast_view(node) == n,
                Err(e) => r == Err::<ASTNode, AstParseError>(e),
            },
    {
        let ghost start = self@.place;
        let mut stmts: Vec<ASTNode> = Vec::new();
        loop
            invariant_except_break
                match spec_parse_stmts(self@.tokens, self@.place, false) {
                    Ok((rest, end)) => spec_parse_stmts(self@.tokens, start, false) == Ok::<
                        (Seq<SpecAst>, int),
                        AstParseError,
                    >((asts_view(stmts@) + rest, end)),
                    Err(e) => spec_parse_stmts(self@.tokens, start, false) == Err::<
                        (Seq<SpecAst>, int),
                        AstParseError,
                    >(e),
                },
            invariant
                self.wf(),
                self@.tokens == old(self)@.tokens,
                start <= self@.place <= self@.tokens.len(),
                start == old(self)@.place,
            ensures
                self.wf(),
                self@.tokens == old(self)@.tokens,
                start <= self@.place <= self@.tokens.len(),
                spec_parse_stmts(self@.tokens, start, false) == Ok::<
                    (Seq<SpecAst>, int),
                    AstParseError,
                >((asts_view(stmts@), self@.place)),
            decreases self@.tokens.len() - self@.place,
        {
            if self.place >= self.tokens.len() {
                proof {
                    assert(asts_view(stmts@) + Seq::<SpecAst>::empty() =~= asts_view(stmts@));
                }
                break ;
            }
            let stmt = match self.parse_statement() {
                Ok(stmt) => stmt,
                Err(e) => {
                    return Err(e);
                },
            };
            proof {
                assert(stmts@.push(stmt).drop_last() =~= stmts@);
                if let Ok((rest2, end2)) = spec_parse_stmts(self@.tokens, self@.place, false) {
                    assert(asts_view(stmts@.push(stmt)) + rest2 =~= asts_view(stmts@) + (seq![
                        ast_view(stmt) ] + rest2));
                }
            }
            stmts.push(stmt);
        }
        Ok(ASTNode::Program(stmts))
    }
}

} // verus!
