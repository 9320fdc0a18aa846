//! The grammar rule registry and the expression grammar.
//!
//! Expression forms are recognised by rule objects implementing
//! [`SyntaxGrammar`]. The registry is an ordered, fixed list of rules; the
//! parser tries each rule's predicate in order and commits to the first that
//! matches, with no backtracking. The one intricate rule is
//! [`BinaryExpr`], which parses whole expressions by precedence climbing.
use crate::ast::{ast_view, asts_view, lemma_tokens_len, ASTNode, AstParseError, SpecAst};
use crate::token::{Operator, Punctuation, Token, TokenType};
use vstd::prelude::*;

verus! {

broadcast use vstd::std_specs::vec::group_vec_axioms, vstd::seq::group_seq_axioms;

/// The precedence level of an operator used in binary position, or `None`
/// for operators that are unary only. Higher binds tighter.
pub open spec fn spec_binary_precedence(op: Operator) -> Option<u32> {
    match op {
        Operator::Dot => Some(9u32),
        Operator::Mult => Some(7u32),
        Operator::Div => Some(7u32),
        Operator::Mod => Some(7u32),
        Operator::Add => Some(6u32),
        Operator::Sub => Some(6u32),
        Operator::Gt => Some(5u32),
        Operator::Gte => Some(5u32),
        Operator::Lt => Some(5u32),
        Operator::Lte => Some(5u32),
        Operator::Eq => Some(4u32),
        Operator::Ne => Some(4u32),
        Operator::Assignment => Some(2u32),
        Operator::AddAssign => Some(2u32),
        Operator::SubAssign => Some(2u32),
        Operator::MulAssign => Some(2u32),
        Operator::DivAssign => Some(2u32),
        Operator::ModAssign => Some(2u32),
        Operator::Not => None,
        Operator::Inc => None,
        Operator::Dec => None,
    }
}

/// Whether a binary operator groups to the right (the assignment family) or
/// to the left (everything else).
pub open spec fn spec_right_associative(op: Operator) -> bool {
    match op {
        Operator::Assignment => true,
        Operator::AddAssign => true,
        Operator::SubAssign => true,
        Operator::MulAssign => true,
        Operator::DivAssign => true,
        Operator::ModAssign => true,
        _ => false,
    }
}

/// Whether an operator may stand in unary (prefix) position.
pub open spec fn spec_unary_operator(op: Operator) -> bool {
    match op {
        Operator::Not => true,
        Operator::Sub => true,
        Operator::Inc => true,
        Operator::Dec => true,
        _ => false,
    }
}

impl Operator {
    /// The operator's precedence in binary position, if it has one.
    pub fn binary_precedence(&self) -> (r: Option<u32>)
        ensures
            r == spec_binary_precedence(*self),
            match r {
                Some(p) => p <= 9,
                None => true,
            },
    {
        match self {
            Operator::Dot => Some(9u32),
            Operator::Mult => Some(7u32),
            Operator::Div => Some(7u32),
            Operator::Mod => Some(7u32),
            Operator::Add => Some(6u32),
            Operator::Sub => Some(6u32),
            Operator::Gt => Some(5u32),
            Operator::Gte => Some(5u32),
            Operator::Lt => Some(5u32),
            Operator::Lte => Some(5u32),
            Operator::Eq => Some(4u32),
            Operator::Ne => Some(4u32),
            Operator::Assignment => Some(2u32),
            Operator::AddAssign => Some(2u32),
            Operator::SubAssign => Some(2u32),
            Operator::MulAssign => Some(2u32),
            Operator::DivAssign => Some(2u32),
            Operator::ModAssign => Some(2u32),
            Operator::Not => None,
            Operator::Inc => None,
            Operator::Dec => None,
        }
    }

    /// Whether the operator groups to the right in binary position.
    pub fn is_right_associative(&self) -> (r: bool)
        ensures
            r == spec_right_associative(*self),
    {
        match self {
            Operator::Assignment => true,
            Operator::AddAssign => true,
            Operator::SubAssign => true,
            Operator::MulAssign => true,
            Operator::DivAssign => true,
            Operator::ModAssign => true,
            _ => false,
        }
    }

    /// Whether the operator may stand in unary (prefix) position.
    pub fn is_unary(&self) -> (r: bool)
        ensures
            r == spec_unary_operator(*self),
    {
        match self {
            Operator::Not => true,
            Operator::Sub => true,
            Operator::Inc => true,
            Operator::Dec => true,
            _ => false,
        }
    }
}

/// Whether the binary-expression rule applies at `pos`: the token there can
/// begin an expression. Inspects tokens at and after `pos` only.
pub open spec fn spec_binary_matches(ts: Seq<Token>, pos: int) -> bool {
    0 <= pos < ts.len() && match ts[pos].token_type {
        TokenType::Number(_) => true,
        TokenType::String(_) => true,
        TokenType::Identifier(_) => true,
        TokenType::Punctuation(p) => p == Punctuation::OpenParen,
        TokenType::Operator(op) => spec_unary_operator(op),
        TokenType::Keyword(_) => false,
    }
}

/// A whole expression parse at `pos`: precedence climbing from the lowest
/// threshold, as the binary-expression rule performs it.
pub open spec fn spec_parse_binary(ts: Seq<Token>, pos: int, min_prec: u32) -> Result<
    (SpecAst, int),
    AstParseError,
>
    decreases ts.len() - pos, 6int, 0int,
{
    match spec_parse_primary(ts, pos) {
        Err(e) => Err(e),
        Ok((left, p)) => if pos < p <= ts.len() {
            spec_climb(ts, p, left, min_prec)
        } else {
            Err(AstParseError::UnknownTokenPattern)
        },
    }
}

/// The climbing loop: while the next token is a binary operator of
/// precedence at least `min_prec`, consume it, parse its right operand with
/// a raised threshold (unless right-associative), and fold the pair into
/// `left`.
pub open spec fn spec_climb(ts: Seq<Token>, pos: int, left: SpecAst, min_prec: u32) -> Result<
    (SpecAst, int),
    AstParseError,
>
    decreases ts.len() - pos, 4int, 0int,
{
    if pos < 0 || pos >= ts.len() {
        Ok((left, pos))
    } else {
        match ts[pos].token_type {
            TokenType::Operator(op) => match spec_binary_precedence(op) {
                Some(prec) => if prec >= min_prec {
                    match spec_parse_binary(
                        ts,
                        pos + 1,
                        if spec_right_associative(op) {
                            prec
                        } else {
                            (prec + 1) as u32
                        },
                    ) {
                        Err(e) => Err(e),
                        Ok((right, p2)) => if pos < p2 <= ts.len() {
                            spec_climb(
                                ts,
                                p2,
                                SpecAst::BinaryExpression {
                                    operator: op,
                                    left: Box::new(left),
                                    right: Box::new(right),
                                },
                                min_prec,
                            )
                        } else {
                            Err(AstParseError::UnknownTokenPattern)
                        },
                    }
                } else {
                    Ok((left, pos))
                },
                None => Ok((left, pos)),
            },
            _ => Ok((left, pos)),
        }
    }
}

/// A primary expression: a literal, an identifier (possibly a call), a
/// parenthesized expression, or a unary expression.
pub open spec fn spec_parse_primary(ts: Seq<Token>, pos: int) -> Result<
    (SpecAst, int),
    AstParseError,
>
    decreases ts.len() - pos, 2int, 0int,
{
    if pos < 0 || pos >= ts.len() {
        Err(AstParseError::UnexpectedEof)
    } else {
        match ts[pos].token_type {
            TokenType::Number(n) => Ok((SpecAst::NumberLiteral(n), pos + 1)),
            TokenType::String(s) => Ok((SpecAst::StringLiteral(s), pos + 1)),
            TokenType::Identifier(name) => if pos + 1 < ts.len() && ts[pos + 1].token_type matches
                TokenType::Punctuation(Punctuation::OpenParen) {
                match spec_parse_args(ts, pos + 2) {
                    Err(e) => Err(e),
                    Ok((args, p)) => Ok(
                        (
                            SpecAst::CallExpression {
                                callee: Box::new(SpecAst::Identifier(name)),
                                args,
                            },
                            p,
                        ),
                    ),
                }
            } else {
                Ok((SpecAst::Identifier(name), pos + 1))
            },
            TokenType::Operator(op) => if spec_unary_operator(op) {
                match spec_parse_primary(ts, pos + 1) {
                    Err(e) => Err(e),
                    Ok((operand, p)) => Ok(
                        (SpecAst::UnaryExpression { operator: op, operand: Box::new(operand) }, p),
                    ),
                }
            } else {
                Err(AstParseError::UnexpectedToken(ts[pos]))
            },
            TokenType::Punctuation(pn) => if pn == Punctuation::OpenParen {
                match spec_parse_expression(ts, pos + 1) {
                    Err(e) => Err(e),
                    Ok((inner, p)) => if p >= ts.len() {
                        Err(AstParseError::UnexpectedEof)
                    } else if ts[p].token_type matches TokenType::Punctuation(
                        Punctuation::CloseParen,
                    ) {
                        Ok((inner, p + 1))
                    } else {
                        Err(AstParseError::UnexpectedToken(ts[p]))
                    },
                }
            } else {
                Err(AstParseError::UnexpectedToken(ts[pos]))
            },
            TokenType::Keyword(_) => Err(AstParseError::UnexpectedToken(ts[pos])),
        }
    }
}

/// The comma-separated argument list of a call, ending at the closing
/// parenthesis, which is consumed.
pub open spec fn spec_parse_args(ts: Seq<Token>, pos: int) -> Result<
    (Seq<SpecAst>, int),
    AstParseError,
>
    decreases ts.len() - pos, 14int, 0int,
{
    if pos < 0 || pos >= ts.len() {
        Err(AstParseError::UnexpectedEof)
    } else if ts[pos].token_type matches TokenType::Punctuation(Punctuation::CloseParen) {
        Ok((Seq::empty(), pos + 1))
    } else {
        match spec_parse_expression(ts, pos) {
            Err(e) => Err(e),
            Ok((arg, p)) => if pos < p <= ts.len() {
                if p >= ts.len() {
                    Err(AstParseError::UnexpectedEof)
                } else if ts[p].token_type matches TokenType::Punctuation(Punctuation::Comma) {
                    match spec_parse_args(ts, p + 1) {
                        Err(e) => Err(e),
                        Ok((rest, end)) => Ok((seq![arg] + rest, end)),
                    }
                } else if ts[p].token_type matches TokenType::Punctuation(
                    Punctuation::CloseParen,
                ) {
                    Ok((seq![arg], p + 1))
                } else {
                    Err(AstParseError::UnexpectedToken(ts[p]))
                }
            } else {
                Err(AstParseError::UnknownTokenPattern)
            },
        }
    }
}

/// A binary expression pattern matcher: the one rule of the registry, which
/// parses every expression form by precedence climbing.
#[derive(Clone, Copy, Debug, PartialEq, Eq, Structural)]
pub struct BinaryExpr;

/// The closed set of grammar rules a registry can hold.
#[derive(Clone, Copy, Debug, PartialEq, Eq, Structural)]
pub enum SyntaxRule {
    Binary(BinaryExpr),
}

/// The canonical registry contents: every syntax pattern, in dispatch order.
pub open spec fn spec_registry() -> Seq<SyntaxRule> {
    seq![SyntaxRule::Binary(BinaryExpr)]
}

/// Builds the registry of all syntax patterns checked at parse time, in
/// dispatch order. Constructed once when a parser is created and read-only
/// afterwards.
pub fn syntax_patterns() -> (r: Vec<SyntaxRule>)
    ensures
        r@ == spec_registry(),
{
    let mut rules: Vec<SyntaxRule> = Vec::new();
    rules.push(SyntaxRule::Binary(BinaryExpr));
    proof {
        assert(rules@ =~= spec_registry());
    }
    rules
}

/// Whether a rule's predicate matches at `pos`.
pub open spec fn rule_spec_matches(rule: SyntaxRule, ts: Seq<Token>, pos: int) -> bool {
    match rule {
        SyntaxRule::Binary(_) => spec_binary_matches(ts, pos),
    }
}

/// What a rule parses at `pos`.
pub open spec fn rule_spec_parse(ts: Seq<Token>, pos: int, rule: SyntaxRule) -> Result<
    (SpecAst, int),
    AstParseError,
>
    decreases ts.len() - pos, 8int, 0int,
{
    match rule {
        SyntaxRule::Binary(_) => spec_parse_binary(ts, pos, 0),
    }
}

/// Whether any rule of `rules` matches at `pos`.
pub open spec fn spec_registry_matches(ts: Seq<Token>, pos: int, rules: Seq<SyntaxRule>) -> bool
    decreases rules.len(),
{
    rules.len() > 0 && (rule_spec_matches(rules[0], ts, pos) || spec_registry_matches(
        ts,
        pos,
        rules.drop_first(),
    ))
}

/// Registry dispatch: the first rule in order whose predicate matches is
/// committed to; if none matches the pattern is unknown.
pub open spec fn spec_dispatch(ts: Seq<Token>, pos: int, rules: Seq<SyntaxRule>) -> Result<
    (SpecAst, int),
    AstParseError,
>
    decreases ts.len() - pos, 10int, rules.len(),
{
    if rules.len() == 0 {
        Err(AstParseError::UnknownTokenPattern)
    } else if rule_spec_matches(rules[0], ts, pos) {
        rule_spec_parse(ts, pos, rules[0])
    } else {
        spec_dispatch(ts, pos, rules.drop_first())
    }
}

/// An expression parse: registry dispatch over the canonical rule list.
pub open spec fn spec_parse_expression(ts: Seq<Token>, pos: int) -> Result<
    (SpecAst, int),
    AstParseError,
>
    decreases ts.len() - pos, 12int, 0int,
{
    spec_dispatch(ts, pos, spec_registry())
}

/// The trait that defines what a syntax pattern looks like and what
/// expression it may map to. Defines methods both for identifying if the
/// pattern is valid for a current spot in a token sequence, and methods for
/// creating an ASTNode based on this pattern.
pub trait SyntaxGrammar: Sized {
    /// The rule's predicate, mathematically.
    spec fn spec_matches(&self, tokens: Seq<Token>, place: int) -> bool;

    /// What the rule parses, mathematically.
    spec fn spec_parse(&self, tokens: Seq<Token>, place: int) -> Result<
        (SpecAst, int),
        AstParseError,
    >;

    /// Immutably checks if the current position (plus peeks) matches the
    /// syntax pattern. A pure predicate: it inspects tokens at and after
    /// `place` only and moves nothing.
    fn matches_pattern(&self, tokens: &Vec<Token>, place: usize) -> (r: bool)
        requires
            place <= tokens@.len(),
        ensures
            r == self.spec_matches(tokens@, place as int),
    ;

    /// Parses the pattern at `place`, advancing `place` past what it
    /// consumes, and returns the constructed node or a parse error.
    fn parse_grammar(&self, tokens: &Vec<Token>, place: &mut usize) -> (r: Result<
        ASTNode,
        AstParseError,
    >)
        requires
            *old(place) <= tokens@.len(),
        ensures
            *old(place) <= *final (place) <= tokens@.len(),
            match self.spec_parse(tokens@, *old(place) as int) {
                Ok((n, p)) => r matches Ok(node) && ast_view(node) == n && *final (place) == p && *old(
                    place,
                ) < p,
                Err(e) => r == Err::<ASTNode, AstParseError>(e),
            },
    ;
}

impl SyntaxGrammar for BinaryExpr {
    open spec fn spec_matches(&self, tokens: Seq<Token>, place: int) -> bool {
        spec_binary_matches(tokens, place)
    }

    open spec fn spec_parse(&self, tokens: Seq<Token>, place: int) -> Result<
        (SpecAst, int),
        AstParseError,
    > {
        spec_parse_binary(tokens, place, 0)
    }

    fn matches_pattern(&self, tokens: &Vec<Token>, place: usize) -> (r: bool) {
        binary_matches_at(tokens, place)
    }

    fn parse_grammar(&self, tokens: &Vec<Token>, place: &mut usize) -> (r: Result<
        ASTNode,
        AstParseError,
    >) {
        parse_binary_expression(tokens, place, 0)
    }
}

/// Whether the binary-expression rule applies at `place`.
pub fn binary_matches_at(tokens: &Vec<Token>, place: usize) -> (r: bool)
    requires
        place <= tokens@.len(),
    ensures
        r == spec_binary_matches(tokens@, place as int),
{
    if place >= tokens.len() {
        return false;
    }
    match &tokens[place].token_type {
        TokenType::Number(_) => true,
        TokenType::String(_) => true,
        TokenType::Identifier(_) => true,
        TokenType::Punctuation(p) => *p == Punctuation::OpenParen,
        TokenType::Operator(op) => op.is_unary(),
        TokenType::Keyword(_) => false,
    }
}

/// Parses one whole expression at `place` by registry dispatch: the first
/// rule whose predicate matches is committed to; if none matches, the
/// pattern is unknown.
pub fn parse_expression_at(tokens: &Vec<Token>, place: &mut usize) -> (r: Result<
    ASTNode,
    AstParseError,
>)
    requires
        *old(place) <= tokens@.len(),
    ensures
        *old(place) <= *final (place) <= tokens@.len(),
        !spec_registry_matches(tokens@, *old(place) as int, spec_registry()) ==> *final (place)
            == *old(place),
        match spec_parse_expression(tokens@, *old(place) as int) {
            Ok((n, p)) => r matches Ok(node) && ast_view(node) == n && *final (place) == p && *old(
                place,
            ) < p,
            Err(e) => r == Err::<ASTNode, AstParseError>(e),
        },
    decreases tokens@.len() - *old(place), 12int,
{
    let rules = syntax_patterns();
    let n = rules.len();
    let mut i: usize = 0;
    proof {
        assert(spec_registry().skip(0) =~= spec_registry());
    }
    while i < n
        invariant
            n == rules@.len(),
            rules@ == spec_registry(),
            i <= n,
            *place == *old(place),
            *place <= tokens@.len(),
            spec_dispatch(tokens@, *place as int, spec_registry().skip(i as int)) == spec_dispatch(
                tokens@,
                *place as int,
                spec_registry(),
            ),
            spec_registry_matches(tokens@, *place as int, spec_registry().skip(i as int))
                == spec_registry_matches(tokens@, *place as int, spec_registry()),
        decreases n - i,
    {
        let matched = match &rules[i] {
            SyntaxRule::Binary(_) => binary_matches_at(tokens, *place),
        };
        if matched {
            proof {
                assert(spec_registry().skip(i as int)[0] == spec_registry()[i as int]);
            }
            let parsed = match &rules[i] {
                SyntaxRule::Binary(_) => parse_binary_expression(tokens, place, 0),
            };
            return parsed;
        }
        proof {
            assert(spec_registry().skip(i as int).drop_first() =~= spec_registry().skip(
                i as int + 1,
            ));
            assert(spec_registry().skip(i as int)[0] == spec_registry()[i as int]);
        }
        i = i + 1;
    }
    Err(AstParseError::UnknownTokenPattern)
}

/// Precedence climbing: parse a primary expression as the left operand, then
/// fold in binary operators of precedence at least `min_prec`, parsing each
/// right operand with a raised threshold unless the operator is
/// right-associative. Same-precedence chains group to the left.
pub fn parse_binary_expression(tokens: &Vec<Token>, place: &mut usize, min_prec: u32) -> (r: Result<
    ASTNode,
    AstParseError,
>)
    requires
        *old(place) <= tokens@.len(),
    ensures
        *old(place) <= *final (place) <= tokens@.len(),
        match spec_parse_binary(tokens@, *old(place) as int, min_prec) {
            Ok((n, p)) => r matches Ok(node) && ast_view(node) == n && *final (place) == p && *old(
                place,
            ) < p,
            Err(e) => r == Err::<ASTNode, AstParseError>(e),
        },
    decreases tokens@.len() - *old(place), 6int,
{
    let mut left = match parse_primary_expression(tokens, place) {
        Ok(node) => node,
        Err(e) => {
            return Err(e);
        },
    };
    loop
        invariant
            *old(place) < *place <= tokens@.len(),
            spec_climb(tokens@, *place as int, ast_view(left), min_prec) == spec_parse_binary(
                tokens@,
                *old(place) as int,
                min_prec,
            ),
        ensures
            *old(place) < *place <= tokens@.len(),
            spec_parse_binary(tokens@, *old(place) as int, min_prec) == Ok::<
                (SpecAst, int),
                AstParseError,
            >((ast_view(left), *place as int)),
        decreases tokens@.len() - *place,
    {
        if *place >= tokens.len() {
            break ;
        }
        let op = match &tokens[*place].token_type {
            TokenType::Operator(op) => *op,
            _ => {
                break ;
            },
        };
        let prec = match op.binary_precedence() {
            Some(prec) => prec,
            None => {
                break ;
            },
        };
        if prec < min_prec {
            break ;
        }
        let next_min = if op.is_right_associative() {
            prec
        } else {
            prec + 1
        };
        proof {
            lemma_tokens_len(tokens);
        }
        *place = *place + 1;
        let right = match parse_binary_expression(tokens, place, next_min) {
            Ok(node) => node,
            Err(e) => {
                return Err(e);
            },
        };
        left = ASTNode::BinaryExpression {
            operator: op,
            left: Box::new(left),
            right: Box::new(right),
        };
    }
    Ok(left)
}

/// Parses a primary expression: a literal, an identifier or call, a
/// parenthesized expression, or a unary expression.
pub fn parse_primary_expression(tokens: &Vec<Token>, place: &mut usize) -> (r: Result<
    ASTNode,
    AstParseError,
>)
    requires
        *old(place) <= tokens@.len(),
    ensures
        *old(place) <= *final (place) <= tokens@.len(),
        match spec_parse_primary(tokens@, *old(place) as int) {
            Ok((n, p)) => r matches Ok(node) && ast_view(node) == n && *final (place) == p && *old(
                place,
            ) < p,
            Err(e) => r == Err::<ASTNode, AstParseError>(e),
        },
    decreases tokens@.len() - *old(place), 2int,
{
    proof {
        lemma_tokens_len(tokens);
    }
    if *place >= tokens.len() {
        return Err(AstParseError::UnexpectedEof);
    }
    match &tokens[*place].token_type {
        TokenType::Number(n) => {
            let v = *n;
            *place = *place + 1;
            Ok(ASTNode::NumberLiteral(v))
        },
        TokenType::String(s) => {
            let text = s.clone();
            *place = *place + 1;
            Ok(ASTNode::StringLiteral(text))
        },
        TokenType::Identifier(name) => {
            let name = name.clone();
            let open_paren = *place + 1 < tokens.len() && match &tokens[*place + 1].token_type {
                TokenType::Punctuation(p) => *p == Punctuation::OpenParen,
                _ => false,
            };
            if open_paren {
                *place = *place + 2;
                match parse_arguments(tokens, place) {
                    Ok(args) => {
                        let callee = ASTNode::Identifier(name);
                        proof {
                            assert(ast_view(callee) matches SpecAst::Identifier(_));
                        }
                        Ok(ASTNode::CallExpression { callee: Box::new(callee), args })
                    },
                    Err(e) => Err(e),
                }
            } else {
                *place = *place + 1;
                Ok(ASTNode::Identifier(name))
            }
        },
        TokenType::Operator(op) => {
            let op = *op;
            if op.is_unary() {
                *place = *place + 1;
                match parse_primary_expression(tokens, place) {
                    Ok(operand) => Ok(
                        ASTNode::UnaryExpression { operator: op, operand: Box::new(operand) },
                    ),
                    Err(e) => Err(e),
                }
            } else {
                Err(AstParseError::UnexpectedToken(tokens[*place].clone()))
            }
        },
        TokenType::Punctuation(pn) => {
            if *pn == Punctuation::OpenParen {
                *place = *place + 1;
                match parse_expression_at(tokens, place) {
                    Err(e) => Err(e),
                    Ok(inner) => {
                        if *place >= tokens.len() {
                            Err(AstParseError::UnexpectedEof)
                        } else {
                            let close = match &tokens[*place].token_type {
                                TokenType::Punctuation(p) => *p == Punctuation::CloseParen,
                                _ => false,
                            };
                            if close {
                                *place = *place + 1;
                                Ok(inner)
                            } else {
                                Err(AstParseError::UnexpectedToken(tokens[*place].clone()))
                            }
                        }
                    },
                }
            } else {
                Err(AstParseError::UnexpectedToken(tokens[*place].clone()))
            }
        },
        TokenType::Keyword(_) => Err(AstParseError::UnexpectedToken(tokens[*place].clone())),
    }
}

/// Parses the comma-separated argument list of a call, consuming the closing
/// parenthesis.
pub fn parse_arguments(tokens: &Vec<Token>, place: &mut usize) -> (r: Result<
    Vec<ASTNode>,
    AstParseError,
>)
    requires
        *old(place) <= tokens@.len(),
    ensures
        *old(place) <= *final (place) <= tokens@.len(),
        match spec_parse_args(tokens@, *old(place) as int) {
            Ok((args, p)) => r matches Ok(v) && asts_view(v@) == args && *final (place) == p && *old(
                place,
            ) < p,
            Err(e) => r == Err::<Vec<ASTNode>, AstParseError>(e),
        },
    decreases tokens@.len() - *old(place), 14int,
{
    let mut args: Vec<ASTNode> = Vec::new();
    loop
        invariant_except_break
            match spec_parse_args(tokens@, *place as int) {
                Ok((rest, end)) => spec_parse_args(tokens@, *old(place) as int) == Ok::<
                    (Seq<SpecAst>, int),
                    AstParseError,
                >((asts_view(args@) + rest, end)),
                Err(e) => spec_parse_args(tokens@, *old(place) as int) == Err::<
                    (Seq<SpecAst>, int),
                    AstParseError,
                >(e),
            },
        invariant
            *old(place) <= *place <= tokens@.len(),
            *old(place) == *place ==> args@.len() == 0,
        ensures
            spec_parse_args(tokens@, *old(place) as int) == Ok::<(Seq<SpecAst>, int), AstParseError,
            >((asts_view(args@), *place as int)),
            *old(place) < *place <= tokens@.len(),
        decreases tokens@.len() - *place,
    {
        proof {
            lemma_tokens_len(tokens);
        }
        if *place >= tokens.len() {
            return Err(AstParseError::UnexpectedEof);
        }
        let at_close = match &tokens[*place].token_type {
            TokenType::Punctuation(p) => *p == Punctuation::CloseParen,
            _ => false,
        };
        if at_close {
            *place = *place + 1;
            proof {
                assert(asts_view(args@) + Seq::<SpecAst>::empty() =~= asts_view(args@));
            }
            break ;
        }
        let ghost place_before = *place as int;
        let arg = match parse_expression_at(tokens, place) {
            Ok(node) => node,
            Err(e) => {
                return Err(e);
            },
        };
        if *place >= tokens.len() {
            return Err(AstParseError::UnexpectedEof);
        }
        let at_comma = match &tokens[*place].token_type {
            TokenType::Punctuation(p) => *p == Punctuation::Comma,
            _ => false,
        };
        let at_close_after = match &tokens[*place].token_type {
            TokenType::Punctuation(p) => *p == Punctuation::CloseParen,
            _ => false,
        };
        if at_comma {
            proof {
                assert(args@.push(arg).drop_last() =~= args@);
                if let Ok((rest2, end2)) = spec_parse_args(tokens@, *place as int + 1) {
                    assert(asts_view(args@.push(arg)) + rest2 =~= asts_view(args@) + (seq![
                        ast_view(arg) ] + rest2));
                }
            }
            args.push(arg);
            *place = *place + 1;
        } else if at_close_after {
            proof {
                assert(args@.push(arg).drop_last() =~= args@);
                assert(asts_view(args@.push(arg)) =~= asts_view(args@) + seq![ast_view(arg)]);
            }
            args.push(arg);
            *place = *place + 1;
            break ;
        } else {
            return Err(AstParseError::UnexpectedToken(tokens[*place].clone()));
        }
    }
    Ok(args)
}

} // verus!
