//! Tokens of the surface language: kinds, source positions, and the display
//! names the rest of the system uses in diagnostics.

use vstd::prelude::*;
use vstd::string::StringExecFns;

verus! {

/// A source position: file name, 1-based line and column.
#[derive(Clone, Debug, PartialEq, Eq)]
pub struct Position {
    pub file: String,
    pub line: u32,
    pub column: u32,
}

impl Position {
    pub fn new(file: String, x: u32, y: u32) -> (p: Self)
        ensures
            p.file == file,
            p.line == x,
            p.column == y,
    {
        Self { file, line: x, column: y }
    }
}

/// Base of an integer literal.
#[derive(Copy, Clone, Debug, PartialEq, Eq, Structural)]
pub enum IntBase {
    Bin,
    Dec,
    Hex,
}

impl IntBase {
    pub fn num(self) -> (n: u32)
        ensures
            n == self.num_spec(),
    {
        match self {
            IntBase::Bin => 2,
            IntBase::Dec => 10,
            IntBase::Hex => 16,
        }
    }

    pub open spec fn num_spec(self) -> u32 {
        match self {
            IntBase::Bin => 2,
            IntBase::Dec => 10,
            IntBase::Hex => 16,
        }
    }
}

/// Width suffix of an integer literal.
#[derive(Copy, Clone, Debug, PartialEq, Eq, Structural)]
pub enum IntSuffix {
    Int,
    Long,
    Byte,
}

/// The kind of a token, with the literal payloads the lexer attaches.
#[derive(Clone, Debug, PartialEq, Eq)]
pub enum TokenKind {
    String(String),
    LitChar(char),
    LitInt(String, IntBase, IntSuffix),
    LitFloat(String),
    Identifier(String),
    Builtin(String),
    End,

    LQuote,
    RQuote,

    // Keywords
    Include,
    This,
    Match,
    Fun,
    Let,
    Var,
    While,
    If,
    Else,
    Loop,
    For,
    In,
    Break,
    Continue,
    Return,
    True,
    False,
    Nil,
    Throw,
    Try,
    Catch,
    Yield,
    Do,
    ForEach,
    Import,
    Type,
    Const,
    Goto,
    Underscore,

    // Operators
    Add,
    Sub,
    Mul,
    Div,
    Mod,
    Not,
    LParen,
    RParen,
    LBracket,
    RBracket,
    LBrace,
    RBrace,
    Comma,
    Semicolon,
    Dot,
    Colon,
    Sep,
    Arrow,
    Tilde,
    BitOr,
    BitAnd,
    Caret,
    And,
    Or,
    Internal,

    Eq,
    EqEq,
    Ne,
    Lt,
    Le,
    Gt,
    Ge,

    GtGt,
    GtGtGt,
    LtLt,
}

/// Numbers the variants of `TokenKind` so that two kinds with the same tag
/// are the same variant (payloads aside).
pub open spec fn kind_tag(k: TokenKind) -> u32 {
    match k {
        TokenKind::String(_) => 0u32,
        TokenKind::LitChar(_) => 1u32,
        TokenKind::LitInt(_, _, _) => 2u32,
        TokenKind::LitFloat(_) => 3u32,
        TokenKind::Identifier(_) => 4u32,
        TokenKind::Builtin(_) => 5u32,
            TokenKind::End => 6u32,
            TokenKind::LQuote => 7u32,
            TokenKind::RQuote => 8u32,
            TokenKind::Include => 9u32,
            TokenKind::This => 10u32,
            TokenKind::Match => 11u32,
            TokenKind::Fun => 12u32,
            TokenKind::Let => 13u32,
            TokenKind::Var => 14u32,
            TokenKind::While => 15u32,
            TokenKind::If => 16u32,
            TokenKind::Else => 17u32,
            TokenKind::Loop => 18u32,
            TokenKind::For => 19u32,
            TokenKind::In => 20u32,
            TokenKind::Break => 21u32,
            TokenKind::Continue => 22u32,
            TokenKind::Return => 23u32,
            TokenKind::True => 24u32,
            TokenKind::False => 25u32,
            TokenKind::Nil => 26u32,
            TokenKind::Throw => 27u32,
            TokenKind::Try => 28u32,
            TokenKind::Catch => 29u32,
            TokenKind::Yield => 30u32,
            TokenKind::Do => 31u32,
            TokenKind::ForEach => 32u32,
            TokenKind::Import => 33u32,
            TokenKind::Type => 34u32,
            TokenKind::Const => 35u32,
            TokenKind::Goto => 36u32,
            TokenKind::Underscore => 37u32,
            TokenKind::Add => 38u32,
            TokenKind::Sub => 39u32,
            TokenKind::Mul => 40u32,
            TokenKind::Div => 41u32,
            TokenKind::Mod => 42u32,
            TokenKind::Not => 43u32,
            TokenKind::LParen => 44u32,
            TokenKind::RParen => 45u32,
            TokenKind::LBracket => 46u32,
            TokenKind::RBracket => 47u32,
            TokenKind::LBrace => 48u32,
            TokenKind::RBrace => 49u32,
            TokenKind::Comma => 50u32,
            TokenKind::Semicolon => 51u32,
            TokenKind::Dot => 52u32,
            TokenKind::Colon => 53u32,
            TokenKind::Sep => 54u32,
            TokenKind::Arrow => 55u32,
            TokenKind::Tilde => 56u32,
            TokenKind::BitOr => 57u32,
            TokenKind::BitAnd => 58u32,
            TokenKind::Caret => 59u32,
            TokenKind::And => 60u32,
            TokenKind::Or => 61u32,
            TokenKind::Internal => 62u32,
            TokenKind::Eq => 63u32,
            TokenKind::EqEq => 64u32,
            TokenKind::Ne => 65u32,
            TokenKind::Lt => 66u32,
            TokenKind::Le => 67u32,
            TokenKind::Gt => 68u32,
            TokenKind::Ge => 69u32,
            TokenKind::GtGt => 70u32,
            TokenKind::GtGtGt => 71u32,
            TokenKind::LtLt => 72u32,
    }
}

/// Structural equality of token kinds: same variant, and equal payloads.
pub open spec fn kind_eq(a: TokenKind, b: TokenKind) -> bool {
    match (a, b) {
        (TokenKind::String(x), TokenKind::String(y)) => x@ == y@,
        (TokenKind::LitChar(x), TokenKind::LitChar(y)) => x == y,
        (TokenKind::LitInt(x, bx, sx), TokenKind::LitInt(y, by, sy)) => x@ == y@ && bx == by
            && sx == sy,
        (TokenKind::LitFloat(x), TokenKind::LitFloat(y)) => x@ == y@,
        (TokenKind::Identifier(x), TokenKind::Identifier(y)) => x@ == y@,
        (TokenKind::Builtin(x), TokenKind::Builtin(y)) => x@ == y@,
        (x, y) => kind_tag(x) == kind_tag(y),
    }
}

/// The display name of a token kind, as `TokenKind::name` returns it.
pub open spec fn kind_name(k: TokenKind) -> Seq<char> {
    match k {
        TokenKind::String(_) => "string"@,
        TokenKind::LitInt(_, _, suffix) => match suffix {
            IntSuffix::Byte => "byte number"@,
            IntSuffix::Int => "int number"@,
            IntSuffix::Long => "long number"@,
        },
        TokenKind::LitChar(_) => "char"@,
        TokenKind::LitFloat(_) => "float number"@,
        TokenKind::Identifier(_) => "identifier"@,
        TokenKind::Builtin(_) => "builtin"@,
            TokenKind::Yield => "yield"@,
            TokenKind::ForEach => "foreach"@,
            TokenKind::End => "<<EOF>>"@,
            TokenKind::LQuote => "<"@,
            TokenKind::RQuote => ">"@,
            TokenKind::Try => "try"@,
            TokenKind::Catch => "catch"@,
            TokenKind::This => "self"@,
            TokenKind::Fun => "function"@,
            TokenKind::Let => "let"@,
            TokenKind::Var => "var"@,
            TokenKind::Goto => "goto"@,
            TokenKind::While => "while"@,
            TokenKind::If => "if"@,
            TokenKind::Else => "else"@,
            TokenKind::Loop => "loop"@,
            TokenKind::For => "for"@,
            TokenKind::In => "in"@,
            TokenKind::Break => "break"@,
            TokenKind::Continue => "continue"@,
            TokenKind::Return => "return"@,
            TokenKind::True => "true"@,
            TokenKind::False => "false"@,
            TokenKind::Nil => "nil"@,
            TokenKind::Throw => "throw"@,
            TokenKind::Match => "match"@,
            TokenKind::Do => "do"@,
            TokenKind::Type => "type"@,
            TokenKind::Const => "const"@,
            TokenKind::Underscore => "_"@,
            TokenKind::Import => "import"@,
            TokenKind::Include => "include"@,
            TokenKind::Add => "+"@,
            TokenKind::Sub => "-"@,
            TokenKind::Mul => "*"@,
            TokenKind::Div => "/"@,
            TokenKind::Mod => "%"@,
            TokenKind::Not => "!"@,
            TokenKind::LParen => "("@,
            TokenKind::RParen => ")"@,
            TokenKind::LBracket => "["@,
            TokenKind::RBracket => "]"@,
            TokenKind::LBrace => "{"@,
            TokenKind::RBrace => "}"@,
            TokenKind::Comma => ","@,
            TokenKind::Semicolon => ";"@,
            TokenKind::Dot => "."@,
            TokenKind::Colon => ":"@,
            TokenKind::Sep => "::"@,
            TokenKind::Arrow => "->"@,
            TokenKind::Tilde => "~"@,
            TokenKind::BitOr => "|"@,
            TokenKind::BitAnd => "&"@,
            TokenKind::Caret => "^"@,
            TokenKind::And => "&&"@,
            TokenKind::Or => "||"@,
            TokenKind::Internal => "internal"@,
            TokenKind::Eq => "="@,
            TokenKind::EqEq => "=="@,
            TokenKind::Ne => "!="@,
            TokenKind::Lt => "<"@,
            TokenKind::Le => "<="@,
            TokenKind::Gt => ">"@,
            TokenKind::Ge => ">="@,
            TokenKind::GtGtGt => ">>>"@,
            TokenKind::GtGt => ">>"@,
            TokenKind::LtLt => "<<"@,
    }
}

impl TokenKind {
    /// Variant tag, executable counterpart of [`kind_tag`].
    pub fn tag(&self) -> (t: u32)
        ensures
            t == kind_tag(*self),
    {
        match self {
            TokenKind::String(_) => 0,
            TokenKind::LitChar(_) => 1,
            TokenKind::LitInt(_, _, _) => 2,
            TokenKind::LitFloat(_) => 3,
            TokenKind::Identifier(_) => 4,
            TokenKind::Builtin(_) => 5,
            TokenKind::End => 6,
            TokenKind::LQuote => 7,
            TokenKind::RQuote => 8,
            TokenKind::Include => 9,
            TokenKind::This => 10,
            TokenKind::Match => 11,
            TokenKind::Fun => 12,
            TokenKind::Let => 13,
            TokenKind::Var => 14,
            TokenKind::While => 15,
            TokenKind::If => 16,
            TokenKind::Else => 17,
            TokenKind::Loop => 18,
            TokenKind::For => 19,
            TokenKind::In => 20,
            TokenKind::Break => 21,
            TokenKind::Continue => 22,
            TokenKind::Return => 23,
            TokenKind::True => 24,
            TokenKind::False => 25,
            TokenKind::Nil => 26,
            TokenKind::Throw => 27,
            TokenKind::Try => 28,
            TokenKind::Catch => 29,
            TokenKind::Yield => 30,
            TokenKind::Do => 31,
            TokenKind::ForEach => 32,
            TokenKind::Import => 33,
            TokenKind::Type => 34,
            TokenKind::Const => 35,
            TokenKind::Goto => 36,
            TokenKind::Underscore => 37,
            TokenKind::Add => 38,
            TokenKind::Sub => 39,
            TokenKind::Mul => 40,
            TokenKind::Div => 41,
            TokenKind::Mod => 42,
            TokenKind::Not => 43,
            TokenKind::LParen => 44,
            TokenKind::RParen => 45,
            TokenKind::LBracket => 46,
            TokenKind::RBracket => 47,
            TokenKind::LBrace => 48,
            TokenKind::RBrace => 49,
            TokenKind::Comma => 50,
            TokenKind::Semicolon => 51,
            TokenKind::Dot => 52,
            TokenKind::Colon => 53,
            TokenKind::Sep => 54,
            TokenKind::Arrow => 55,
            TokenKind::Tilde => 56,
            TokenKind::BitOr => 57,
            TokenKind::BitAnd => 58,
            TokenKind::Caret => 59,
            TokenKind::And => 60,
            TokenKind::Or => 61,
            TokenKind::Internal => 62,
            TokenKind::Eq => 63,
            TokenKind::EqEq => 64,
            TokenKind::Ne => 65,
            TokenKind::Lt => 66,
            TokenKind::Le => 67,
            TokenKind::Gt => 68,
            TokenKind::Ge => 69,
            TokenKind::GtGt => 70,
            TokenKind::GtGtGt => 71,
            TokenKind::LtLt => 72,
        }
    }

    /// The fixed display name of this kind.
    pub fn name(&self) -> (r: &'static str)
        ensures
            r@ == kind_name(*self),
    {
        match *self {
            TokenKind::Yield => "yield",
            TokenKind::ForEach => "foreach",
            TokenKind::String(_) => "string",
            TokenKind::LitInt(_, _, suffix) => match suffix {
                IntSuffix::Byte => "byte number",
                IntSuffix::Int => "int number",
                IntSuffix::Long => "long number",
            },
            TokenKind::LitChar(_) => "char",
            TokenKind::LitFloat(_) => "float number",
            TokenKind::Identifier(_) => "identifier",
            TokenKind::Builtin(_) => "builtin",
            TokenKind::End => "<<EOF>>",
            TokenKind::LQuote => "<",
            TokenKind::RQuote => ">",
            TokenKind::Try => "try",
            TokenKind::Catch => "catch",
            TokenKind::This => "self",
            TokenKind::Fun => "function",
            TokenKind::Let => "let",
            TokenKind::Var => "var",
            TokenKind::Goto => "goto",
            TokenKind::While => "while",
            TokenKind::If => "if",
            TokenKind::Else => "else",
            TokenKind::Loop => "loop",
            TokenKind::For => "for",
            TokenKind::In => "in",
            TokenKind::Break => "break",
            TokenKind::Continue => "continue",
            TokenKind::Return => "return",
            TokenKind::True => "true",
            TokenKind::False => "false",
            TokenKind::Nil => "nil",
            TokenKind::Throw => "throw",
            TokenKind::Match => "match",
            TokenKind::Do => "do",
            TokenKind::Type => "type",
            TokenKind::Const => "const",
            TokenKind::Underscore => "_",
            TokenKind::Import => "import",
            TokenKind::Include => "include",
            TokenKind::Add => "+",
            TokenKind::Sub => "-",
            TokenKind::Mul => "*",
            TokenKind::Div => "/",
            TokenKind::Mod => "%",
            TokenKind::Not => "!",
            TokenKind::LParen => "(",
            TokenKind::RParen => ")",
            TokenKind::LBracket => "[",
            TokenKind::RBracket => "]",
            TokenKind::LBrace => "{",
            TokenKind::RBrace => "}",
            TokenKind::Comma => ",",
            TokenKind::Semicolon => ";",
            TokenKind::Dot => ".",
            TokenKind::Colon => ":",
            TokenKind::Sep => "::",
            TokenKind::Arrow => "->",
            TokenKind::Tilde => "~",
            TokenKind::BitOr => "|",
            TokenKind::BitAnd => "&",
            TokenKind::Caret => "^",
            TokenKind::And => "&&",
            TokenKind::Or => "||",
            TokenKind::Internal => "internal",
            TokenKind::Eq => "=",
            TokenKind::EqEq => "==",
            TokenKind::Ne => "!=",
            TokenKind::Lt => "<",
            TokenKind::Le => "<=",
            TokenKind::Gt => ">",
            TokenKind::Ge => ">=",
            TokenKind::GtGtGt => ">>>",
            TokenKind::GtGt => ">>",
            TokenKind::LtLt => "<<",
        }
    }

    /// Executable counterpart of [`kind_eq`].
    pub fn same(&self, other: &TokenKind) -> (r: bool)
        ensures
            r == kind_eq(*self, *other),
    {
        match (self, other) {
            (TokenKind::String(x), TokenKind::String(y)) => x.eq(y),
            (TokenKind::LitChar(x), TokenKind::LitChar(y)) => x == y,
            (TokenKind::LitInt(x, bx, sx), TokenKind::LitInt(y, by, sy)) => x.eq(y) && *bx == *by
                && *sx == *sy,
            (TokenKind::LitFloat(x), TokenKind::LitFloat(y)) => x.eq(y),
            (TokenKind::Identifier(x), TokenKind::Identifier(y)) => x.eq(y),
            (TokenKind::Builtin(x), TokenKind::Builtin(y)) => x.eq(y),
            (x, y) => x.tag() == y.tag(),
        }
    }
}

/// A token: a kind together with the position it was read at.
#[derive(Clone, Debug, PartialEq, Eq)]
pub struct Token {
    pub kind: TokenKind,
    pub position: Position,
}

/// The display name of a whole token: literals show their payload, other
/// kinds show their fixed name.
pub open spec fn token_name(t: Token) -> Seq<char> {
    match t.kind {
        TokenKind::LitInt(val, _, suffix) => val@ + match suffix {
            IntSuffix::Byte => "B"@,
            IntSuffix::Int => ""@,
            IntSuffix::Long => "L"@,
        },
        TokenKind::String(val) => "\""@ + val@ + "\""@,
        TokenKind::Identifier(val) => val@,
        _ => kind_name(t.kind),
    }
}

impl Token {
    pub fn new(tok: TokenKind, pos: Position) -> (t: Token)
        ensures
            t.kind == tok,
            t.position == pos,
    {
        Token { kind: tok, position: pos }
    }

    /// Whether this token marks the end of the input.
    pub fn is_eof(&self) -> (r: bool)
        ensures
            r == kind_eq(self.kind, TokenKind::End),
    {
        match self.kind {
            TokenKind::End => true,
            _ => false,
        }
    }

    /// Whether this token is of the given kind, payloads included.
    pub fn is(&self, kind: TokenKind) -> (r: bool)
        ensures
            r == kind_eq(self.kind, kind),
    {
        self.kind.same(&kind)
    }

    /// The display name of this token.
    pub fn name(&self) -> (r: String)
        ensures
            r@ == token_name(*self),
    {
        match &self.kind {
            TokenKind::LitInt(val, _, suffix) => match suffix {
                IntSuffix::Byte => val.clone().concat("B"),
                IntSuffix::Int => val.clone().concat(""),
                IntSuffix::Long => val.clone().concat("L"),
            },
            TokenKind::String(val) => {
                let mut r = String::from_str("\"");
                r.append(val.as_str());
                r.append("\"");
                r
            },
            TokenKind::Identifier(val) => val.clone(),
            _ => String::from_str(self.kind.name()),
        }
    }
}

} // verus!
