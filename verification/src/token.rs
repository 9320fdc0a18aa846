//! All token primitives and utilities wrapped around these primitives.
use crate::chars::chars_of;
use vstd::prelude::*;

verus! {

/// A contextual token with location and typing.
///
/// `line` and `column` are 1-based and name the position of the token's first
/// character in the source buffer.
#[derive(Debug, PartialEq)]
pub struct Token {
    /// The token's type
    pub token_type: TokenType,
    /// The token's line
    pub line: usize,
    /// The token's column
    pub column: usize,
}

impl Token {
    pub fn new(token_type: TokenType, line: usize, column: usize) -> (t: Self)
        ensures
            t == (Token { token_type, line, column }),
    {
        Self { token_type, line, column }
    }
}

impl Clone for Token {
    fn clone(&self) -> (r: Self)
        ensures
            r == *self,
    {
        Token { token_type: self.token_type.clone(), line: self.line, column: self.column }
    }
}

/// The mathematical content of a [`Token`]: the same data with text as a
/// sequence of characters.
pub ghost struct SpecToken {
    pub token_type: SpecTokenType,
    pub line: int,
    pub column: int,
}

impl View for Token {
    type V = SpecToken;

    open spec fn view(&self) -> SpecToken {
        SpecToken {
            token_type: self.token_type@,
            line: self.line as int,
            column: self.column as int,
        }
    }
}

/// A single lexical token's type.
#[derive(Debug, PartialEq)]
pub enum TokenType {
    Identifier(String),
    Number(NumberValue),
    String(String),
    Keyword(Keyword),
    Operator(Operator),
    Punctuation(Punctuation),
}

impl Clone for TokenType {
    fn clone(&self) -> (r: Self)
        ensures
            r == *self,
    {
        match self {
            TokenType::Identifier(s) => TokenType::Identifier(s.clone()),
            TokenType::Number(n) => TokenType::Number(*n),
            TokenType::String(s) => TokenType::String(s.clone()),
            TokenType::Keyword(k) => TokenType::Keyword(*k),
            TokenType::Operator(o) => TokenType::Operator(*o),
            TokenType::Punctuation(p) => TokenType::Punctuation(*p),
        }
    }
}

/// The mathematical content of a [`TokenType`].
pub ghost enum SpecTokenType {
    Identifier(Seq<char>),
    Number(NumberValue),
    String(Seq<char>),
    Keyword(Keyword),
    Operator(Operator),
    Punctuation(Punctuation),
}

impl View for TokenType {
    type V = SpecTokenType;

    open spec fn view(&self) -> SpecTokenType {
        match self {
            TokenType::Identifier(s) => SpecTokenType::Identifier(s@),
            TokenType::Number(n) => SpecTokenType::Number(*n),
            TokenType::String(s) => SpecTokenType::String(s@),
            TokenType::Keyword(k) => SpecTokenType::Keyword(*k),
            TokenType::Operator(o) => SpecTokenType::Operator(*o),
            TokenType::Punctuation(p) => SpecTokenType::Punctuation(*p),
        }
    }
}

/// The value of a numeric literal, kept exactly as scanned: the literal
/// denotes `mantissa / 10^scale`, where `mantissa` is the run of digits with
/// the decimal point removed and `scale` counts the digits after the point.
///
/// A literal whose digit run does not fit in a `u64` mantissa cannot be
/// represented and lexes to a `MalformedNumber` error instead of being
/// silently truncated.
#[derive(Clone, Copy, Debug, PartialEq, Eq, Structural)]
pub struct NumberValue {
    /// The digits of the literal, decimal point removed, as an integer.
    pub mantissa: u64,
    /// How many of the mantissa's trailing digits follow the decimal point.
    pub scale: usize,
}

impl NumberValue {
    /// The whole number `n`, with no fractional digits.
    pub fn whole(n: u64) -> (r: Self)
        ensures
            r == (NumberValue { mantissa: n, scale: 0 }),
    {
        NumberValue { mantissa: n, scale: 0 }
    }
}

/// A keyword token's variants.
#[derive(Clone, Copy, Debug, PartialEq, Eq, Structural)]
pub enum Keyword {
    Let,
    Const,
    Var,
    For,
    Function,
    Return,
}

/// Which keyword, if any, a run of identifier characters spells.
pub open spec fn spec_keyword_of(s: Seq<char>) -> Option<Keyword> {
    if s == "let"@ {
        Some(Keyword::Let)
    } else if s == "const"@ {
        Some(Keyword::Const)
    } else if s == "var"@ {
        Some(Keyword::Var)
    } else if s == "for"@ {
        Some(Keyword::For)
    } else if s == "function"@ {
        Some(Keyword::Function)
    } else if s == "return"@ {
        Some(Keyword::Return)
    } else {
        None
    }
}

impl Keyword {
    /// Checks if a string is a valid keyword, if so, returns the keyword that it is.
    pub fn to_keyword(check: &str) -> (r: Option<Keyword>)
        ensures
            r == spec_keyword_of(check@),
    {
        let cs = chars_of(check);
        keyword_of_chars(&cs)
    }
}

/// Keyword lookup on an already collected run of characters.
pub fn keyword_of_chars(cs: &Vec<char>) -> (r: Option<Keyword>)
    ensures
        r == spec_keyword_of(cs@),
{
    proof {
        reveal_strlit("let");
        reveal_strlit("const");
        reveal_strlit("var");
        reveal_strlit("for");
        reveal_strlit("function");
        reveal_strlit("return");
    }
    let n = cs.len();
    let r = if n == 3 && cs[0] == 'l' && cs[1] == 'e' && cs[2] == 't' {
        Some(Keyword::Let)
    } else if n == 5 && cs[0] == 'c' && cs[1] == 'o' && cs[2] == 'n' && cs[3] == 's' && cs[4]
        == 't' {
        Some(Keyword::Const)
    } else if n == 3 && cs[0] == 'v' && cs[1] == 'a' && cs[2] == 'r' {
        Some(Keyword::Var)
    } else if n == 3 && cs[0] == 'f' && cs[1] == 'o' && cs[2] == 'r' {
        Some(Keyword::For)
    } else if n == 8 && cs[0] == 'f' && cs[1] == 'u' && cs[2] == 'n' && cs[3] == 'c' && cs[4] == 't'
        && cs[5] == 'i' && cs[6] == 'o' && cs[7] == 'n' {
        Some(Keyword::Function)
    } else if n == 6 && cs[0] == 'r' && cs[1] == 'e' && cs[2] == 't' && cs[3] == 'u' && cs[4] == 'r'
        && cs[5] == 'n' {
        Some(Keyword::Return)
    } else {
        None
    };
    proof {
        assert(cs@ == "let"@ ==> cs@.len() == 3 && cs@[0] == 'l' && cs@[1] == 'e' && cs@[2] == 't');
        assert(cs@ == "const"@ ==> cs@.len() == 5 && cs@[0] == 'c');
        assert(cs@ == "var"@ ==> cs@.len() == 3 && cs@[0] == 'v');
        assert(cs@ == "for"@ ==> cs@.len() == 3 && cs@[0] == 'f' && cs@[1] == 'o' && cs@[2] == 'r');
        assert(cs@ == "function"@ ==> cs@.len() == 8 && cs@[1] == 'u');
        assert(cs@ == "return"@ ==> cs@.len() == 6 && cs@[0] == 'r');
        if r is Some {
            if cs@.len() == 3 && cs@[0] == 'l' && cs@[1] == 'e' && cs@[2] == 't' {
                assert(cs@ =~= "let"@);
            }
            if cs@.len() == 5 && cs@[0] == 'c' && cs@[1] == 'o' && cs@[2] == 'n' && cs@[3] == 's'
                && cs@[4] == 't' {
                assert(cs@ =~= "const"@);
            }
            if cs@.len() == 3 && cs@[0] == 'v' && cs@[1] == 'a' && cs@[2] == 'r' {
                assert(cs@ =~= "var"@);
            }
            if cs@.len() == 3 && cs@[0] == 'f' && cs@[1] == 'o' && cs@[2] == 'r' {
                assert(cs@ =~= "for"@);
            }
            if cs@.len() == 8 && cs@[0] == 'f' && cs@[1] == 'u' && cs@[2] == 'n' && cs@[3] == 'c'
                && cs@[4] == 't' && cs@[5] == 'i' && cs@[6] == 'o' && cs@[7] == 'n' {
                assert(cs@ =~= "function"@);
            }
            if cs@.len() == 6 && cs@[0] == 'r' && cs@[1] == 'e' && cs@[2] == 't' && cs@[3] == 'u'
                && cs@[4] == 'r' && cs@[5] == 'n' {
                assert(cs@ =~= "return"@);
            }
        }
    }
    r
}

/// All operation types.
#[derive(Clone, Copy, Debug, PartialEq, Eq, Structural)]
pub enum Operator {
    Assignment,
    Not,
    Add,
    Sub,
    Div,
    Mod,
    Mult,
    Eq,
    Ne,
    Gt,
    Gte,
    Lt,
    Lte,
    Dot,
    AddAssign,
    SubAssign,
    MulAssign,
    DivAssign,
    ModAssign,
    Inc,
    Dec,
}

/// The canonical operator table: which operator, if any, a one- or
/// two-character string spells.
pub open spec fn spec_operator_of(s: Seq<char>) -> Option<Operator> {
    if s.len() == 1 {
        spec_operator_of_char(s[0])
    } else if s.len() == 2 {
        spec_operator_of_pair(s[0], s[1])
    } else {
        None
    }
}

/// The single-character operators.
pub open spec fn spec_operator_of_char(a: char) -> Option<Operator> {
    match a {
        '=' => Some(Operator::Assignment),
        '!' => Some(Operator::Not),
        '+' => Some(Operator::Add),
        '-' => Some(Operator::Sub),
        '/' => Some(Operator::Div),
        '%' => Some(Operator::Mod),
        '*' => Some(Operator::Mult),
        '>' => Some(Operator::Gt),
        '<' => Some(Operator::Lt),
        '.' => Some(Operator::Dot),
        _ => None,
    }
}

/// The two-character operators.
pub open spec fn spec_operator_of_pair(a: char, b: char) -> Option<Operator> {
    if b == '=' {
        match a {
            '=' => Some(Operator::Eq),
            '!' => Some(Operator::Ne),
            '>' => Some(Operator::Gte),
            '<' => Some(Operator::Lte),
            '+' => Some(Operator::AddAssign),
            '-' => Some(Operator::SubAssign),
            '*' => Some(Operator::MulAssign),
            '/' => Some(Operator::DivAssign),
            '%' => Some(Operator::ModAssign),
            _ => None,
        }
    } else if a == '+' && b == '+' {
        Some(Operator::Inc)
    } else if a == '-' && b == '-' {
        Some(Operator::Dec)
    } else {
        None
    }
}

/// Single-character operator lookup.
pub fn operator_of_char(a: char) -> (r: Option<Operator>)
    ensures
        r == spec_operator_of_char(a),
{
    match a {
        '=' => Some(Operator::Assignment),
        '!' => Some(Operator::Not),
        '+' => Some(Operator::Add),
        '-' => Some(Operator::Sub),
        '/' => Some(Operator::Div),
        '%' => Some(Operator::Mod),
        '*' => Some(Operator::Mult),
        '>' => Some(Operator::Gt),
        '<' => Some(Operator::Lt),
        '.' => Some(Operator::Dot),
        _ => None,
    }
}

/// Two-character operator lookup.
pub fn operator_of_pair(a: char, b: char) -> (r: Option<Operator>)
    ensures
        r == spec_operator_of_pair(a, b),
{
    if b == '=' {
        match a {
            '=' => Some(Operator::Eq),
            '!' => Some(Operator::Ne),
            '>' => Some(Operator::Gte),
            '<' => Some(Operator::Lte),
            '+' => Some(Operator::AddAssign),
            '-' => Some(Operator::SubAssign),
            '*' => Some(Operator::MulAssign),
            '/' => Some(Operator::DivAssign),
            '%' => Some(Operator::ModAssign),
            _ => None,
        }
    } else if a == '+' && b == '+' {
        Some(Operator::Inc)
    } else if a == '-' && b == '-' {
        Some(Operator::Dec)
    } else {
        None
    }
}

impl Operator {
    /// Checks if a string is a valid operator, if so, returns the operator that it is.
    pub fn to_operator(check: &str) -> (r: Option<Operator>)
        ensures
            r == spec_operator_of(check@),
    {
        let cs = chars_of(check);
        if cs.len() == 1 {
            operator_of_char(cs[0])
        } else if cs.len() == 2 {
            proof {
                assert(check@ =~= seq![cs@[0], cs@[1]]);
            }
            operator_of_pair(cs[0], cs[1])
        } else {
            None
        }
    }
}

/// All punctuation types.
#[derive(Clone, Copy, Debug, PartialEq, Eq, Structural)]
pub enum Punctuation {
    Semicolon,
    Comma,
    OpenParen,
    CloseParen,
    OpenSquiggle,
    CloseSquiggle,
    OpenBracket,
    CloseBracket,
}

/// The punctuation table: structural single characters, never combined with
/// their neighbours.
pub open spec fn spec_punctuation_of(c: char) -> Option<Punctuation> {
    match c {
        ';' => Some(Punctuation::Semicolon),
        ',' => Some(Punctuation::Comma),
        '(' => Some(Punctuation::OpenParen),
        ')' => Some(Punctuation::CloseParen),
        '{' => Some(Punctuation::OpenSquiggle),
        '}' => Some(Punctuation::CloseSquiggle),
        '[' => Some(Punctuation::OpenBracket),
        ']' => Some(Punctuation::CloseBracket),
        _ => None,
    }
}

/// Single-character punctuation lookup.
pub fn punctuation_of_char(c: char) -> (r: Option<Punctuation>)
    ensures
        r == spec_punctuation_of(c),
{
    match c {
        ';' => Some(Punctuation::Semicolon),
        ',' => Some(Punctuation::Comma),
        '(' => Some(Punctuation::OpenParen),
        ')' => Some(Punctuation::CloseParen),
        '{' => Some(Punctuation::OpenSquiggle),
        '}' => Some(Punctuation::CloseSquiggle),
        '[' => Some(Punctuation::OpenBracket),
        ']' => Some(Punctuation::CloseBracket),
        _ => None,
    }
}

impl Punctuation {
    /// Checks if a string is a valid punctuation mark, if so, returns the punctuation that it is.
    pub fn to_puncutation(check: &str) -> (r: Option<Punctuation>)
        ensures
            r == if check@.len() == 1 {
                spec_punctuation_of(check@[0])
            } else {
                None
            },
    {
        let cs = chars_of(check);
        if cs.len() == 1 {
            punctuation_of_char(cs[0])
        } else {
            None
        }
    }
}

} // verus!
