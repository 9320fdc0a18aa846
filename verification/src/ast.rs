//! AST implementations.
//!
//! [`ASTNode`] is the tree the parser builds; [`SpecAst`] is its mathematical
//! mirror, with ghost sequences for child lists, which the grammar model in
//! [`crate::syntax`] and [`crate::parser`] speaks of.
use crate::token::{NumberValue, Operator, Token};
use vstd::prelude::*;

verus! {

broadcast use vstd::std_specs::vec::group_vec_axioms, vstd::seq::group_seq_axioms;

/// An ASTNode built from tokens. Each node exclusively owns its children;
/// the tree is acyclic and built bottom-up during parse.
#[derive(Debug, PartialEq)]
pub enum ASTNode {
    /// An entire program's span
    Program(Vec<ASTNode>),
    /// A function wrt it's name, params and body
    FunctionDeclaration {
        /// Function name
        name: String,
        /// Function parameters
        params: Vec<String>,
        /// Function body
        body: Vec<ASTNode>,
    },
    /// Declare a variable
    VariableDeclaration {
        /// Whether the variable is let, const or var
        kind: VariableKind,
        /// Variable name
        name: String,
        /// What defines the variable
        initializer: Option<Box<ASTNode>>,
    },
    /// An arbitrary expression
    ExpressionStatement(Box<ASTNode>),
    /// A binary expression
    BinaryExpression {
        /// The operator acting on two operands
        operator: Operator,
        /// The left operand
        left: Box<ASTNode>,
        /// The right operand
        right: Box<ASTNode>,
    },
    /// A unary expression
    UnaryExpression {
        /// The operator acting on one operand
        operator: Operator,
        /// The operand
        operand: Box<ASTNode>,
    },
    /// A call of a callee expression on argument expressions
    CallExpression {
        /// What is called
        callee: Box<ASTNode>,
        /// The call's arguments
        args: Vec<ASTNode>,
    },
    /// An identifier
    Identifier(String),
    /// A number
    NumberLiteral(NumberValue),
    /// A string
    StringLiteral(String),
}

/// The scopes a variable can have.
#[derive(Clone, Copy, Debug, PartialEq, Eq, Structural)]
pub enum VariableKind {
    /// Let scope
    Let,
    /// Const scope
    Const,
    /// Var scope
    Var,
}

/// A parse error. Parsing is fail-fast: the first error aborts the whole
/// parse and any partially built tree is discarded.
#[derive(Clone, Debug, PartialEq)]
pub enum AstParseError {
    /// A token stands where the grammar requires another; it carries the
    /// offending token.
    UnexpectedToken(Token),
    /// The token sequence ended where the grammar requires more.
    UnexpectedEof,
    /// No grammar rule matched at the current cursor.
    UnknownTokenPattern,
}

/// A token sequence never holds more than `usize::MAX` tokens.
pub proof fn lemma_tokens_len(v: &Vec<Token>)
    ensures
        v@.len() <= usize::MAX,
{
    assert(vstd::std_specs::vec::spec_vec_len(v) == v@.len());
}

/// The mathematical mirror of [`ASTNode`], with sequences for child lists.
pub ghost enum SpecAst {
    Program(Seq<SpecAst>),
    FunctionDeclaration { name: String, params: Seq<String>, body: Seq<SpecAst> },
    VariableDeclaration { kind: VariableKind, name: String, initializer: Option<Box<SpecAst>> },
    ExpressionStatement(Box<SpecAst>),
    BinaryExpression { operator: Operator, left: Box<SpecAst>, right: Box<SpecAst> },
    UnaryExpression { operator: Operator, operand: Box<SpecAst> },
    CallExpression { callee: Box<SpecAst>, args: Seq<SpecAst> },
    Identifier(String),
    NumberLiteral(NumberValue),
    StringLiteral(String),
}

/// The mirror of a node.
pub open spec fn ast_view(n: ASTNode) -> SpecAst
    decreases n,
{
    match n {
        ASTNode::Program(stmts) => SpecAst::Program(asts_view(stmts@)),
        ASTNode::FunctionDeclaration { name, params, body } => SpecAst::FunctionDeclaration {
            name,
            params: params@,
            body: asts_view(body@),
        },
        ASTNode::VariableDeclaration { kind, name, initializer } => SpecAst::VariableDeclaration {
            kind,
            name,
            initializer: match initializer {
                Some(e) => Some(Box::new(ast_view(*e))),
                None => None,
            },
        },
        ASTNode::ExpressionStatement(e) => SpecAst::ExpressionStatement(Box::new(ast_view(*e))),
        ASTNode::BinaryExpression { operator, left, right } => SpecAst::BinaryExpression {
            operator,
            left: Box::new(ast_view(*left)),
            right: Box::new(ast_view(*right)),
        },
        ASTNode::UnaryExpression { operator, operand } => SpecAst::UnaryExpression {
            operator,
            operand: Box::new(ast_view(*operand)),
        },
        ASTNode::CallExpression { callee, args } => SpecAst::CallExpression {
            callee: Box::new(ast_view(*callee)),
            args: asts_view(args@),
        },
        ASTNode::Identifier(name) => SpecAst::Identifier(name),
        ASTNode::NumberLiteral(v) => SpecAst::NumberLiteral(v),
        ASTNode::StringLiteral(s) => SpecAst::StringLiteral(s),
    }
}

/// The mirror of a list of nodes, element by element.
pub open spec fn asts_view(s: Seq<ASTNode>) -> Seq<SpecAst>
    decreases s,
{
    if s.len() == 0 {
        Seq::empty()
    } else {
        asts_view(s.drop_last()).push(ast_view(s.last()))
    }
}

} // verus!
