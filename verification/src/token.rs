use vstd::prelude::*;

use crate::spanned::Spanned;

verus! {

/// A lexical token. Identifiers, type names, type parameters and float
/// literals borrow their text from the source program; a float literal is
/// kept as its source text (for example `"3.14"`), which is exactly what
/// determines its value.
#[derive(Debug, Clone, Copy, PartialEq)]
pub enum Token<'a> {
    Id(&'a str),
    Int(i64),
    Float(&'a str),
    Bool(bool),
    Echo,
    Else,
    Fn,
    If,
    Let,
    Match,
    Read,
    Return,
    Then,
    Typedef,
    IntType,
    FloatType,
    BoolType,
    TypeId(&'a str),
    TypeParam(&'a str),
    LParen,
    RParen,
    Comma,
    Arrow,
    Colon,
    Semicolon,
    LBrace,
    RBrace,
    Assign,
    Not,
    NotEq,
    And,
    Plus,
    Minus,
    Times,
    Divide,
    FPlus,
    FMinus,
    FTimes,
    FDivide,
    LessThan,
    LessThanOrEq,
    GreaterThan,
    GreaterThanOrEq,
    FLessThan,
    FLessThanOrEq,
    FGreaterThan,
    FGreaterThanOrEq,
    Eq,
    Pipe,
    Or,
    EoF,
}

/// The payload-free class of a token.
#[derive(Debug, PartialEq, Eq, Copy, Clone, Structural)]
pub enum TokenKind {
    Id,
    Int,
    Float,
    Bool,
    Echo,
    Else,
    Fn,
    If,
    Let,
    Match,
    Read,
    Return,
    Then,
    Typedef,
    IntType,
    FloatType,
    BoolType,
    TypeId,
    TypeParam,
    LParen,
    RParen,
    Comma,
    Arrow,
    Colon,
    Semicolon,
    LBrace,
    RBrace,
    Assign,
    Not,
    NotEq,
    And,
    Plus,
    Minus,
    Times,
    Divide,
    FPlus,
    FMinus,
    FTimes,
    FDivide,
    LessThan,
    LessThanOrEq,
    GreaterThan,
    GreaterThanOrEq,
    FLessThan,
    FLessThanOrEq,
    FGreaterThan,
    FGreaterThanOrEq,
    Eq,
    Pipe,
    Or,
    EoF,
}

/// An error produced while lexing one token.
#[derive(PartialEq, Copy, Clone, Debug)]
pub enum LexError<'a> {
    InvalidChar(char),
    InvalidInt(&'a str),
    InvalidFloat(&'a str),
}

pub type SpannedLexError<'a> = Spanned<LexError<'a>>;

pub type SpannedToken<'a> = Spanned<Token<'a>>;

/// The kind of a token, as a specification.
pub open spec fn token_kind(t: Token) -> TokenKind {
    match t {
        Token::Id(_) => TokenKind::Id,
        Token::Int(_) => TokenKind::Int,
        Token::Float(_) => TokenKind::Float,
        Token::Bool(_) => TokenKind::Bool,
        Token::Echo => TokenKind::Echo,
        Token::Else => TokenKind::Else,
        Token::Fn => TokenKind::Fn,
        Token::If => TokenKind::If,
        Token::Let => TokenKind::Let,
        Token::Match => TokenKind::Match,
        Token::Read => TokenKind::Read,
        Token::Return => TokenKind::Return,
        Token::Then => TokenKind::Then,
        Token::Typedef => TokenKind::Typedef,
        Token::IntType => TokenKind::IntType,
        Token::FloatType => TokenKind::FloatType,
        Token::BoolType => TokenKind::BoolType,
        Token::TypeId(_) => TokenKind::TypeId,
        Token::TypeParam(_) => TokenKind::TypeParam,
        Token::LParen => TokenKind::LParen,
        Token::RParen => TokenKind::RParen,
        Token::Comma => TokenKind::Comma,
        Token::Arrow => TokenKind::Arrow,
        Token::Colon => TokenKind::Colon,
        Token::Semicolon => TokenKind::Semicolon,
        Token::LBrace => TokenKind::LBrace,
        Token::RBrace => TokenKind::RBrace,
        Token::Assign => TokenKind::Assign,
        Token::Not => TokenKind::Not,
        Token::NotEq => TokenKind::NotEq,
        Token::And => TokenKind::And,
        Token::Plus => TokenKind::Plus,
        Token::Minus => TokenKind::Minus,
        Token::Times => TokenKind::Times,
        Token::Divide => TokenKind::Divide,
        Token::FPlus => TokenKind::FPlus,
        Token::FMinus => TokenKind::FMinus,
        Token::FTimes => TokenKind::FTimes,
        Token::FDivide => TokenKind::FDivide,
        Token::LessThan => TokenKind::LessThan,
        Token::LessThanOrEq => TokenKind::LessThanOrEq,
        Token::GreaterThan => TokenKind::GreaterThan,
        Token::GreaterThanOrEq => TokenKind::GreaterThanOrEq,
        Token::FLessThan => TokenKind::FLessThan,
        Token::FLessThanOrEq => TokenKind::FLessThanOrEq,
        Token::FGreaterThan => TokenKind::FGreaterThan,
        Token::FGreaterThanOrEq => TokenKind::FGreaterThanOrEq,
        Token::Eq => TokenKind::Eq,
        Token::Pipe => TokenKind::Pipe,
        Token::Or => TokenKind::Or,
        Token::EoF => TokenKind::EoF,
    }
}

impl<'a> Token<'a> {
    /// The class of this token, forgetting its payload.
    pub fn kind(&self) -> (k: TokenKind)
        ensures
            k == token_kind(*self),
    {
        match self {
            Token::Id(_) => TokenKind::Id,
            Token::Int(_) => TokenKind::Int,
            Token::Float(_) => TokenKind::Float,
            Token::Bool(_) => TokenKind::Bool,
            Token::Echo => TokenKind::Echo,
            Token::Else => TokenKind::Else,
            Token::Fn => TokenKind::Fn,
            Token::If => TokenKind::If,
            Token::Let => TokenKind::Let,
            Token::Match => TokenKind::Match,
            Token::Read => TokenKind::Read,
            Token::Return => TokenKind::Return,
            Token::Then => TokenKind::Then,
            Token::Typedef => TokenKind::Typedef,
            Token::IntType => TokenKind::IntType,
            Token::FloatType => TokenKind::FloatType,
            Token::BoolType => TokenKind::BoolType,
            Token::TypeId(_) => TokenKind::TypeId,
            Token::TypeParam(_) => TokenKind::TypeParam,
            Token::LParen => TokenKind::LParen,
            Token::RParen => TokenKind::RParen,
            Token::Comma => TokenKind::Comma,
            Token::Arrow => TokenKind::Arrow,
            Token::Colon => TokenKind::Colon,
            Token::Semicolon => TokenKind::Semicolon,
            Token::LBrace => TokenKind::LBrace,
            Token::RBrace => TokenKind::RBrace,
            Token::Assign => TokenKind::Assign,
            Token::Not => TokenKind::Not,
            Token::NotEq => TokenKind::NotEq,
            Token::And => TokenKind::And,
            Token::Plus => TokenKind::Plus,
            Token::Minus => TokenKind::Minus,
            Token::Times => TokenKind::Times,
            Token::Divide => TokenKind::Divide,
            Token::FPlus => TokenKind::FPlus,
            Token::FMinus => TokenKind::FMinus,
            Token::FTimes => TokenKind::FTimes,
            Token::FDivide => TokenKind::FDivide,
            Token::LessThan => TokenKind::LessThan,
            Token::LessThanOrEq => TokenKind::LessThanOrEq,
            Token::GreaterThan => TokenKind::GreaterThan,
            Token::GreaterThanOrEq => TokenKind::GreaterThanOrEq,
            Token::FLessThan => TokenKind::FLessThan,
            Token::FLessThanOrEq => TokenKind::FLessThanOrEq,
            Token::FGreaterThan => TokenKind::FGreaterThan,
            Token::FGreaterThanOrEq => TokenKind::FGreaterThanOrEq,
            Token::Eq => TokenKind::Eq,
            Token::Pipe => TokenKind::Pipe,
            Token::Or => TokenKind::Or,
            Token::EoF => TokenKind::EoF,
        }
    }
}

impl<'a> SpannedLexError<'a> {
    /// Builds a located lexing error.
    pub fn new(error: LexError<'a>, offset: usize) -> (r: Self)
        ensures
            r.node == error,
            r.offset == offset,
    {
        Spanned { node: error, offset }
    }
}

impl<'a> SpannedToken<'a> {
    /// Builds a located token.
    pub fn new(token: Token<'a>, offset: usize) -> (r: Self)
        ensures
            r.node == token,
            r.offset == offset,
    {
        Spanned { node: token, offset }
    }

    /// The token itself.
    pub fn token(&self) -> (r: &Token<'a>)
        ensures
            *r == self.node,
    {
        &self.node
    }

    /// The class of the token.
    pub fn kind(&self) -> (k: TokenKind)
        ensures
            k == token_kind(self.node),
    {
        self.node.kind()
    }
}

/// How a token kind is named in error messages.
pub open spec fn kind_name(k: TokenKind) -> Seq<char> {
    match k {
        TokenKind::Id => "identifier"@,
        TokenKind::Int => "integer literal"@,
        TokenKind::Float => "float literal"@,
        TokenKind::Bool => "boolean literal"@,
        TokenKind::Echo => "echo"@,
        TokenKind::Else => "else"@,
        TokenKind::Fn => "fn"@,
        TokenKind::If => "if"@,
        TokenKind::Let => "let"@,
        TokenKind::Match => "match"@,
        TokenKind::Read => "read"@,
        TokenKind::Return => "return"@,
        TokenKind::Then => "then"@,
        TokenKind::Typedef => "typedef"@,
        TokenKind::IntType => "Int"@,
        TokenKind::FloatType => "Float"@,
        TokenKind::BoolType => "Bool"@,
        TokenKind::TypeId => "type name"@,
        TokenKind::TypeParam => "type parameter"@,
        TokenKind::LParen => "("@,
        TokenKind::RParen => ")"@,
        TokenKind::Comma => ","@,
        TokenKind::Arrow => "->"@,
        TokenKind::Colon => ":"@,
        TokenKind::Semicolon => ";"@,
        TokenKind::LBrace => "{"@,
        TokenKind::RBrace => "}"@,
        TokenKind::Assign => "="@,
        TokenKind::Not => "!"@,
        TokenKind::NotEq => "!="@,
        TokenKind::And => "&&"@,
        TokenKind::Plus => "+"@,
        TokenKind::Minus => "-"@,
        TokenKind::Times => "*"@,
        TokenKind::Divide => "/"@,
        TokenKind::FPlus => "+."@,
        TokenKind::FMinus => "-."@,
        TokenKind::FTimes => "*."@,
        TokenKind::FDivide => "/."@,
        TokenKind::LessThan => "<"@,
        TokenKind::LessThanOrEq => "<="@,
        TokenKind::GreaterThan => ">"@,
        TokenKind::GreaterThanOrEq => ">="@,
        TokenKind::FLessThan => "<."@,
        TokenKind::FLessThanOrEq => "<=."@,
        TokenKind::FGreaterThan => ">."@,
        TokenKind::FGreaterThanOrEq => ">=."@,
        TokenKind::Eq => "=="@,
        TokenKind::Pipe => "|>"@,
        TokenKind::Or => "||"@,
        TokenKind::EoF => "end of file"@,
    }
}

impl TokenKind {
    /// How this kind is named in error messages.
    pub fn name(&self) -> (r: &'static str)
        ensures
            r@ == kind_name(*self),
    {
        match self {
            TokenKind::Id => "identifier",
            TokenKind::Int => "integer literal",
            TokenKind::Float => "float literal",
            TokenKind::Bool => "boolean literal",
            TokenKind::Echo => "echo",
            TokenKind::Else => "else",
            TokenKind::Fn => "fn",
            TokenKind::If => "if",
            TokenKind::Let => "let",
            TokenKind::Match => "match",
            TokenKind::Read => "read",
            TokenKind::Return => "return",
            TokenKind::Then => "then",
            TokenKind::Typedef => "typedef",
            TokenKind::IntType => "Int",
            TokenKind::FloatType => "Float",
            TokenKind::BoolType => "Bool",
            TokenKind::TypeId => "type name",
            TokenKind::TypeParam => "type parameter",
            TokenKind::LParen => "(",
            TokenKind::RParen => ")",
            TokenKind::Comma => ",",
            TokenKind::Arrow => "->",
            TokenKind::Colon => ":",
            TokenKind::Semicolon => ";",
            TokenKind::LBrace => "{",
            TokenKind::RBrace => "}",
            TokenKind::Assign => "=",
            TokenKind::Not => "!",
            TokenKind::NotEq => "!=",
            TokenKind::And => "&&",
            TokenKind::Plus => "+",
            TokenKind::Minus => "-",
            TokenKind::Times => "*",
            TokenKind::Divide => "/",
            TokenKind::FPlus => "+.",
            TokenKind::FMinus => "-.",
            TokenKind::FTimes => "*.",
            TokenKind::FDivide => "/.",
            TokenKind::LessThan => "<",
            TokenKind::LessThanOrEq => "<=",
            TokenKind::GreaterThan => ">",
            TokenKind::GreaterThanOrEq => ">=",
            TokenKind::FLessThan => "<.",
            TokenKind::FLessThanOrEq => "<=.",
            TokenKind::FGreaterThan => ">.",
            TokenKind::FGreaterThanOrEq => ">=.",
            TokenKind::Eq => "==",
            TokenKind::Pipe => "|>",
            TokenKind::Or => "||",
            TokenKind::EoF => "end of file",
        }
    }
}

} // verus!
