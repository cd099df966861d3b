//! Tokens: the lexical categories of the language and their occurrences in
//! a source text.

use vstd::prelude::*;
use vstd::string::StringExecFns;
use crate::span::Span;
use crate::text::{
    char_debug, char_debug_text, char_escaped, char_escaped_text, decimal_text, push_decimal,
    str_debug, str_debug_text, str_escaped, str_escaped_text,
};

verus! {

/// The lexical category of a token, with the value of a literal or the text
/// of an identifier.
#[derive(Debug, Clone, PartialEq)]
pub enum TokenKind {
    // Literals
    IntLiteral(i32),
    BoolLiteral(bool),
    StringLiteral(String),
    CharLiteral(char),
    // Identifiers
    Ident(String),
    // Keywords
    Fn,
    Let,
    Mut,
    Return,
    If,
    Else,
    While,
    For,
    In,
    Break,
    Continue,
    Struct,
    Enum,
    Match,
    Import,
    Export,
    Pub,
    Const,
    Static,
    As,
    // Type keywords
    I8,
    I16,
    I32,
    I64,
    U8,
    U16,
    U32,
    U64,
    Usize,
    Isize,
    F32,
    F64,
    Bool,
    Char,
    String,
    // Operators
    Plus,
    Minus,
    Star,
    Slash,
    Percent,
    Assign,
    PlusAssign,
    MinusAssign,
    StarAssign,
    SlashAssign,
    Equal,
    NotEqual,
    Less,
    Greater,
    LessEqual,
    GreaterEqual,
    LogicalAnd,
    LogicalOr,
    LogicalNot,
    BitwiseAnd,
    BitwiseOr,
    BitwiseXor,
    BitwiseNot,
    LeftShift,
    RightShift,
    // Delimiters
    LeftParen,
    RightParen,
    LeftBrace,
    RightBrace,
    LeftBracket,
    RightBracket,
    Semicolon,
    Colon,
    DoubleColon,
    Comma,
    Dot,
    DotDot,
    DotDotEqual,
    Arrow,
    FatArrow,
    Question,
    At,
    Underscore,
    // Special
    Newline,
    Eof,
    Error(String),
}

/// The mathematical model of a [`TokenKind`]: texts are sequences of
/// characters.
pub enum TokenKindView {
    IntLiteral(i32),
    BoolLiteral(bool),
    StringLiteral(Seq<char>),
    CharLiteral(char),
    Ident(Seq<char>),
    Fn,
    Let,
    Mut,
    Return,
    If,
    Else,
    While,
    For,
    In,
    Break,
    Continue,
    Struct,
    Enum,
    Match,
    Import,
    Export,
    Pub,
    Const,
    Static,
    As,
    I8,
    I16,
    I32,
    I64,
    U8,
    U16,
    U32,
    U64,
    Usize,
    Isize,
    F32,
    F64,
    Bool,
    Char,
    String,
    Plus,
    Minus,
    Star,
    Slash,
    Percent,
    Assign,
    PlusAssign,
    MinusAssign,
    StarAssign,
    SlashAssign,
    Equal,
    NotEqual,
    Less,
    Greater,
    LessEqual,
    GreaterEqual,
    LogicalAnd,
    LogicalOr,
    LogicalNot,
    BitwiseAnd,
    BitwiseOr,
    BitwiseXor,
    BitwiseNot,
    LeftShift,
    RightShift,
    LeftParen,
    RightParen,
    LeftBrace,
    RightBrace,
    LeftBracket,
    RightBracket,
    Semicolon,
    Colon,
    DoubleColon,
    Comma,
    Dot,
    DotDot,
    DotDotEqual,
    Arrow,
    FatArrow,
    Question,
    At,
    Underscore,
    Newline,
    Eof,
    Error(Seq<char>),
}

impl View for TokenKind {
    type V = TokenKindView;

    open spec fn view(&self) -> TokenKindView {
        match self {
            TokenKind::IntLiteral(n) => TokenKindView::IntLiteral(*n),
            TokenKind::BoolLiteral(b) => TokenKindView::BoolLiteral(*b),
            TokenKind::StringLiteral(s) => TokenKindView::StringLiteral(s@),
            TokenKind::CharLiteral(c) => TokenKindView::CharLiteral(*c),
            TokenKind::Ident(s) => TokenKindView::Ident(s@),
            TokenKind::Fn => TokenKindView::Fn,
            TokenKind::Let => TokenKindView::Let,
            TokenKind::Mut => TokenKindView::Mut,
            TokenKind::Return => TokenKindView::Return,
            TokenKind::If => TokenKindView::If,
            TokenKind::Else => TokenKindView::Else,
            TokenKind::While => TokenKindView::While,
            TokenKind::For => TokenKindView::For,
            TokenKind::In => TokenKindView::In,
            TokenKind::Break => TokenKindView::Break,
            TokenKind::Continue => TokenKindView::Continue,
            TokenKind::Struct => TokenKindView::Struct,
            TokenKind::Enum => TokenKindView::Enum,
            TokenKind::Match => TokenKindView::Match,
            TokenKind::Import => TokenKindView::Import,
            TokenKind::Export => TokenKindView::Export,
            TokenKind::Pub => TokenKindView::Pub,
            TokenKind::Const => TokenKindView::Const,
            TokenKind::Static => TokenKindView::Static,
            TokenKind::As => TokenKindView::As,
            TokenKind::I8 => TokenKindView::I8,
            TokenKind::I16 => TokenKindView::I16,
            TokenKind::I32 => TokenKindView::I32,
            TokenKind::I64 => TokenKindView::I64,
            TokenKind::U8 => TokenKindView::U8,
            TokenKind::U16 => TokenKindView::U16,
            TokenKind::U32 => TokenKindView::U32,
            TokenKind::U64 => TokenKindView::U64,
            TokenKind::Usize => TokenKindView::Usize,
            TokenKind::Isize => TokenKindView::Isize,
            TokenKind::F32 => TokenKindView::F32,
            TokenKind::F64 => TokenKindView::F64,
            TokenKind::Bool => TokenKindView::Bool,
            TokenKind::Char => TokenKindView::Char,
            TokenKind::String => TokenKindView::String,
            TokenKind::Plus => TokenKindView::Plus,
            TokenKind::Minus => TokenKindView::Minus,
            TokenKind::Star => TokenKindView::Star,
            TokenKind::Slash => TokenKindView::Slash,
            TokenKind::Percent => TokenKindView::Percent,
            TokenKind::Assign => TokenKindView::Assign,
            TokenKind::PlusAssign => TokenKindView::PlusAssign,
            TokenKind::MinusAssign => TokenKindView::MinusAssign,
            TokenKind::StarAssign => TokenKindView::StarAssign,
            TokenKind::SlashAssign => TokenKindView::SlashAssign,
            TokenKind::Equal => TokenKindView::Equal,
            TokenKind::NotEqual => TokenKindView::NotEqual,
            TokenKind::Less => TokenKindView::Less,
            TokenKind::Greater => TokenKindView::Greater,
            TokenKind::LessEqual => TokenKindView::LessEqual,
            TokenKind::GreaterEqual => TokenKindView::GreaterEqual,
            TokenKind::LogicalAnd => TokenKindView::LogicalAnd,
            TokenKind::LogicalOr => TokenKindView::LogicalOr,
            TokenKind::LogicalNot => TokenKindView::LogicalNot,
            TokenKind::BitwiseAnd => TokenKindView::BitwiseAnd,
            TokenKind::BitwiseOr => TokenKindView::BitwiseOr,
            TokenKind::BitwiseXor => TokenKindView::BitwiseXor,
            TokenKind::BitwiseNot => TokenKindView::BitwiseNot,
            TokenKind::LeftShift => TokenKindView::LeftShift,
            TokenKind::RightShift => TokenKindView::RightShift,
            TokenKind::LeftParen => TokenKindView::LeftParen,
            TokenKind::RightParen => TokenKindView::RightParen,
            TokenKind::LeftBrace => TokenKindView::LeftBrace,
            TokenKind::RightBrace => TokenKindView::RightBrace,
            TokenKind::LeftBracket => TokenKindView::LeftBracket,
            TokenKind::RightBracket => TokenKindView::RightBracket,
            TokenKind::Semicolon => TokenKindView::Semicolon,
            TokenKind::Colon => TokenKindView::Colon,
            TokenKind::DoubleColon => TokenKindView::DoubleColon,
            TokenKind::Comma => TokenKindView::Comma,
            TokenKind::Dot => TokenKindView::Dot,
            TokenKind::DotDot => TokenKindView::DotDot,
            TokenKind::DotDotEqual => TokenKindView::DotDotEqual,
            TokenKind::Arrow => TokenKindView::Arrow,
            TokenKind::FatArrow => TokenKindView::FatArrow,
            TokenKind::Question => TokenKindView::Question,
            TokenKind::At => TokenKindView::At,
            TokenKind::Underscore => TokenKindView::Underscore,
            TokenKind::Newline => TokenKindView::Newline,
            TokenKind::Eof => TokenKindView::Eof,
            TokenKind::Error(s) => TokenKindView::Error(s@),
        }
    }
}

impl TokenKindView {
    /// The place of the variant in the enumeration, counted from zero.
    pub open spec fn index(self) -> nat {
        match self {
            TokenKindView::IntLiteral(_) => 0,
            TokenKindView::BoolLiteral(_) => 1,
            TokenKindView::StringLiteral(_) => 2,
            TokenKindView::CharLiteral(_) => 3,
            TokenKindView::Ident(_) => 4,
            TokenKindView::Fn => 5,
            TokenKindView::Let => 6,
            TokenKindView::Mut => 7,
            TokenKindView::Return => 8,
            TokenKindView::If => 9,
            TokenKindView::Else => 10,
            TokenKindView::While => 11,
            TokenKindView::For => 12,
            TokenKindView::In => 13,
            TokenKindView::Break => 14,
            TokenKindView::Continue => 15,
            TokenKindView::Struct => 16,
            TokenKindView::Enum => 17,
            TokenKindView::Match => 18,
            TokenKindView::Import => 19,
            TokenKindView::Export => 20,
            TokenKindView::Pub => 21,
            TokenKindView::Const => 22,
            TokenKindView::Static => 23,
            TokenKindView::As => 24,
            TokenKindView::I8 => 25,
            TokenKindView::I16 => 26,
            TokenKindView::I32 => 27,
            TokenKindView::I64 => 28,
            TokenKindView::U8 => 29,
            TokenKindView::U16 => 30,
            TokenKindView::U32 => 31,
            TokenKindView::U64 => 32,
            TokenKindView::Usize => 33,
            TokenKindView::Isize => 34,
            TokenKindView::F32 => 35,
            TokenKindView::F64 => 36,
            TokenKindView::Bool => 37,
            TokenKindView::Char => 38,
            TokenKindView::String => 39,
            TokenKindView::Plus => 40,
            TokenKindView::Minus => 41,
            TokenKindView::Star => 42,
            TokenKindView::Slash => 43,
            TokenKindView::Percent => 44,
            TokenKindView::Assign => 45,
            TokenKindView::PlusAssign => 46,
            TokenKindView::MinusAssign => 47,
            TokenKindView::StarAssign => 48,
            TokenKindView::SlashAssign => 49,
            TokenKindView::Equal => 50,
            TokenKindView::NotEqual => 51,
            TokenKindView::Less => 52,
            TokenKindView::Greater => 53,
            TokenKindView::LessEqual => 54,
            TokenKindView::GreaterEqual => 55,
            TokenKindView::LogicalAnd => 56,
            TokenKindView::LogicalOr => 57,
            TokenKindView::LogicalNot => 58,
            TokenKindView::BitwiseAnd => 59,
            TokenKindView::BitwiseOr => 60,
            TokenKindView::BitwiseXor => 61,
            TokenKindView::BitwiseNot => 62,
            TokenKindView::LeftShift => 63,
            TokenKindView::RightShift => 64,
            TokenKindView::LeftParen => 65,
            TokenKindView::RightParen => 66,
            TokenKindView::LeftBrace => 67,
            TokenKindView::RightBrace => 68,
            TokenKindView::LeftBracket => 69,
            TokenKindView::RightBracket => 70,
            TokenKindView::Semicolon => 71,
            TokenKindView::Colon => 72,
            TokenKindView::DoubleColon => 73,
            TokenKindView::Comma => 74,
            TokenKindView::Dot => 75,
            TokenKindView::DotDot => 76,
            TokenKindView::DotDotEqual => 77,
            TokenKindView::Arrow => 78,
            TokenKindView::FatArrow => 79,
            TokenKindView::Question => 80,
            TokenKindView::At => 81,
            TokenKindView::Underscore => 82,
            TokenKindView::Newline => 83,
            TokenKindView::Eof => 84,
            TokenKindView::Error(_) => 85,
        }
    }

    /// The name of the variant.
    pub open spec fn name(self) -> Seq<char> {
        match self {
            TokenKindView::IntLiteral(_) => "IntLiteral"@,
            TokenKindView::BoolLiteral(_) => "BoolLiteral"@,
            TokenKindView::StringLiteral(_) => "StringLiteral"@,
            TokenKindView::CharLiteral(_) => "CharLiteral"@,
            TokenKindView::Ident(_) => "Ident"@,
            TokenKindView::Fn => "Fn"@,
            TokenKindView::Let => "Let"@,
            TokenKindView::Mut => "Mut"@,
            TokenKindView::Return => "Return"@,
            TokenKindView::If => "If"@,
            TokenKindView::Else => "Else"@,
            TokenKindView::While => "While"@,
            TokenKindView::For => "For"@,
            TokenKindView::In => "In"@,
            TokenKindView::Break => "Break"@,
            TokenKindView::Continue => "Continue"@,
            TokenKindView::Struct => "Struct"@,
            TokenKindView::Enum => "Enum"@,
            TokenKindView::Match => "Match"@,
            TokenKindView::Import => "Import"@,
            TokenKindView::Export => "Export"@,
            TokenKindView::Pub => "Pub"@,
            TokenKindView::Const => "Const"@,
            TokenKindView::Static => "Static"@,
            TokenKindView::As => "As"@,
            TokenKindView::I8 => "I8"@,
            TokenKindView::I16 => "I16"@,
            TokenKindView::I32 => "I32"@,
            TokenKindView::I64 => "I64"@,
            TokenKindView::U8 => "U8"@,
            TokenKindView::U16 => "U16"@,
            TokenKindView::U32 => "U32"@,
            TokenKindView::U64 => "U64"@,
            TokenKindView::Usize => "Usize"@,
            TokenKindView::Isize => "Isize"@,
            TokenKindView::F32 => "F32"@,
            TokenKindView::F64 => "F64"@,
            TokenKindView::Bool => "Bool"@,
            TokenKindView::Char => "Char"@,
            TokenKindView::String => "String"@,
            TokenKindView::Plus => "Plus"@,
            TokenKindView::Minus => "Minus"@,
            TokenKindView::Star => "Star"@,
            TokenKindView::Slash => "Slash"@,
            TokenKindView::Percent => "Percent"@,
            TokenKindView::Assign => "Assign"@,
            TokenKindView::PlusAssign => "PlusAssign"@,
            TokenKindView::MinusAssign => "MinusAssign"@,
            TokenKindView::StarAssign => "StarAssign"@,
            TokenKindView::SlashAssign => "SlashAssign"@,
            TokenKindView::Equal => "Equal"@,
            TokenKindView::NotEqual => "NotEqual"@,
            TokenKindView::Less => "Less"@,
            TokenKindView::Greater => "Greater"@,
            TokenKindView::LessEqual => "LessEqual"@,
            TokenKindView::GreaterEqual => "GreaterEqual"@,
            TokenKindView::LogicalAnd => "LogicalAnd"@,
            TokenKindView::LogicalOr => "LogicalOr"@,
            TokenKindView::LogicalNot => "LogicalNot"@,
            TokenKindView::BitwiseAnd => "BitwiseAnd"@,
            TokenKindView::BitwiseOr => "BitwiseOr"@,
            TokenKindView::BitwiseXor => "BitwiseXor"@,
            TokenKindView::BitwiseNot => "BitwiseNot"@,
            TokenKindView::LeftShift => "LeftShift"@,
            TokenKindView::RightShift => "RightShift"@,
            TokenKindView::LeftParen => "LeftParen"@,
            TokenKindView::RightParen => "RightParen"@,
            TokenKindView::LeftBrace => "LeftBrace"@,
            TokenKindView::RightBrace => "RightBrace"@,
            TokenKindView::LeftBracket => "LeftBracket"@,
            TokenKindView::RightBracket => "RightBracket"@,
            TokenKindView::Semicolon => "Semicolon"@,
            TokenKindView::Colon => "Colon"@,
            TokenKindView::DoubleColon => "DoubleColon"@,
            TokenKindView::Comma => "Comma"@,
            TokenKindView::Dot => "Dot"@,
            TokenKindView::DotDot => "DotDot"@,
            TokenKindView::DotDotEqual => "DotDotEqual"@,
            TokenKindView::Arrow => "Arrow"@,
            TokenKindView::FatArrow => "FatArrow"@,
            TokenKindView::Question => "Question"@,
            TokenKindView::At => "At"@,
            TokenKindView::Underscore => "Underscore"@,
            TokenKindView::Newline => "Newline"@,
            TokenKindView::Eof => "Eof"@,
            TokenKindView::Error(_) => "Error"@,
        }
    }

    /// The variant's name, followed in parentheses by the value it carries,
    /// if any, as std's `Debug` prints that value.
    pub open spec fn debug_text(self) -> Seq<char> {
        match self {
            TokenKindView::IntLiteral(n) => "IntLiteral("@ + decimal_text(n as int) + ")"@,
            TokenKindView::BoolLiteral(b) => "BoolLiteral("@ + (if b { "true"@ } else { "false"@ }) + ")"@,
            TokenKindView::StringLiteral(s) => "StringLiteral("@ + str_debug_text(s) + ")"@,
            TokenKindView::CharLiteral(c) => "CharLiteral("@ + char_debug_text(c) + ")"@,
            TokenKindView::Ident(s) => "Ident("@ + str_debug_text(s) + ")"@,
            TokenKindView::Error(s) => "Error("@ + str_debug_text(s) + ")"@,
            _ => self.name(),
        }
    }

    /// The token as it is written in a source text: the spelling of a
    /// keyword, operator or delimiter, the value of a literal, the name of an
    /// identifier.
    pub open spec fn display_text(self) -> Seq<char> {
        match self {
            TokenKindView::IntLiteral(n) => decimal_text(n as int),
            TokenKindView::BoolLiteral(b) => if b { "true"@ } else { "false"@ },
            TokenKindView::StringLiteral(s) => "\""@ + str_escaped_text(s) + "\""@,
            TokenKindView::CharLiteral(c) => "'"@ + char_escaped_text(c) + "'"@,
            TokenKindView::Ident(s) => s,
            TokenKindView::Fn => "fn"@,
            TokenKindView::Let => "let"@,
            TokenKindView::Mut => "mut"@,
            TokenKindView::Return => "return"@,
            TokenKindView::If => "if"@,
            TokenKindView::Else => "else"@,
            TokenKindView::While => "while"@,
            TokenKindView::For => "for"@,
            TokenKindView::In => "in"@,
            TokenKindView::Break => "break"@,
            TokenKindView::Continue => "continue"@,
            TokenKindView::Struct => "struct"@,
            TokenKindView::Enum => "enum"@,
            TokenKindView::Match => "match"@,
            TokenKindView::Import => "import"@,
            TokenKindView::Export => "export"@,
            TokenKindView::Pub => "pub"@,
            TokenKindView::Const => "const"@,
            TokenKindView::Static => "static"@,
            TokenKindView::As => "as"@,
            TokenKindView::I8 => "i8"@,
            TokenKindView::I16 => "i16"@,
            TokenKindView::I32 => "i32"@,
            TokenKindView::I64 => "i64"@,
            TokenKindView::U8 => "u8"@,
            TokenKindView::U16 => "u16"@,
            TokenKindView::U32 => "u32"@,
            TokenKindView::U64 => "u64"@,
            TokenKindView::Usize => "usize"@,
            TokenKindView::Isize => "isize"@,
            TokenKindView::F32 => "f32"@,
            TokenKindView::F64 => "f64"@,
            TokenKindView::Bool => "bool"@,
            TokenKindView::Char => "char"@,
            TokenKindView::String => "string"@,
            TokenKindView::Plus => "+"@,
            TokenKindView::Minus => "-"@,
            TokenKindView::Star => "*"@,
            TokenKindView::Slash => "/"@,
            TokenKindView::Percent => "%"@,
            TokenKindView::Assign => "="@,
            TokenKindView::PlusAssign => "+="@,
            TokenKindView::MinusAssign => "-="@,
            TokenKindView::StarAssign => "*="@,
            TokenKindView::SlashAssign => "/="@,
            TokenKindView::Equal => "=="@,
            TokenKindView::NotEqual => "!="@,
            TokenKindView::Less => "<"@,
            TokenKindView::Greater => ">"@,
            TokenKindView::LessEqual => "<="@,
            TokenKindView::GreaterEqual => ">="@,
            TokenKindView::LogicalAnd => "&&"@,
            TokenKindView::LogicalOr => "||"@,
            TokenKindView::LogicalNot => "!"@,
            TokenKindView::BitwiseAnd => "&"@,
            TokenKindView::BitwiseOr => "|"@,
            TokenKindView::BitwiseXor => "^"@,
            TokenKindView::BitwiseNot => "~"@,
            TokenKindView::LeftShift => "<<"@,
            TokenKindView::RightShift => ">>"@,
            TokenKindView::LeftParen => "("@,
            TokenKindView::RightParen => ")"@,
            TokenKindView::LeftBrace => "{"@,
            TokenKindView::RightBrace => "}"@,
            TokenKindView::LeftBracket => "["@,
            TokenKindView::RightBracket => "]"@,
            TokenKindView::Semicolon => ";"@,
            TokenKindView::Colon => ":"@,
            TokenKindView::DoubleColon => "::"@,
            TokenKindView::Comma => ","@,
            TokenKindView::Dot => "."@,
            TokenKindView::DotDot => ".."@,
            TokenKindView::DotDotEqual => "..="@,
            TokenKindView::Arrow => "->"@,
            TokenKindView::FatArrow => "=>"@,
            TokenKindView::Question => "?"@,
            TokenKindView::At => "@"@,
            TokenKindView::Underscore => "_"@,
            TokenKindView::Newline => "\\n"@,
            TokenKindView::Eof => "EOF"@,
            TokenKindView::Error(s) => "error("@ + s + ")"@,
        }
    }
}

impl TokenKind {
    /// The place of the variant in the enumeration, counted from zero.
    pub fn index(&self) -> (i: u8)
        ensures
            i == self@.index(),
    {
        match self {
            TokenKind::IntLiteral(_) => 0,
            TokenKind::BoolLiteral(_) => 1,
            TokenKind::StringLiteral(_) => 2,
            TokenKind::CharLiteral(_) => 3,
            TokenKind::Ident(_) => 4,
            TokenKind::Fn => 5,
            TokenKind::Let => 6,
            TokenKind::Mut => 7,
            TokenKind::Return => 8,
            TokenKind::If => 9,
            TokenKind::Else => 10,
            TokenKind::While => 11,
            TokenKind::For => 12,
            TokenKind::In => 13,
            TokenKind::Break => 14,
            TokenKind::Continue => 15,
            TokenKind::Struct => 16,
            TokenKind::Enum => 17,
            TokenKind::Match => 18,
            TokenKind::Import => 19,
            TokenKind::Export => 20,
            TokenKind::Pub => 21,
            TokenKind::Const => 22,
            TokenKind::Static => 23,
            TokenKind::As => 24,
            TokenKind::I8 => 25,
            TokenKind::I16 => 26,
            TokenKind::I32 => 27,
            TokenKind::I64 => 28,
            TokenKind::U8 => 29,
            TokenKind::U16 => 30,
            TokenKind::U32 => 31,
            TokenKind::U64 => 32,
            TokenKind::Usize => 33,
            TokenKind::Isize => 34,
            TokenKind::F32 => 35,
            TokenKind::F64 => 36,
            TokenKind::Bool => 37,
            TokenKind::Char => 38,
            TokenKind::String => 39,
            TokenKind::Plus => 40,
            TokenKind::Minus => 41,
            TokenKind::Star => 42,
            TokenKind::Slash => 43,
            TokenKind::Percent => 44,
            TokenKind::Assign => 45,
            TokenKind::PlusAssign => 46,
            TokenKind::MinusAssign => 47,
            TokenKind::StarAssign => 48,
            TokenKind::SlashAssign => 49,
            TokenKind::Equal => 50,
            TokenKind::NotEqual => 51,
            TokenKind::Less => 52,
            TokenKind::Greater => 53,
            TokenKind::LessEqual => 54,
            TokenKind::GreaterEqual => 55,
            TokenKind::LogicalAnd => 56,
            TokenKind::LogicalOr => 57,
            TokenKind::LogicalNot => 58,
            TokenKind::BitwiseAnd => 59,
            TokenKind::BitwiseOr => 60,
            TokenKind::BitwiseXor => 61,
            TokenKind::BitwiseNot => 62,
            TokenKind::LeftShift => 63,
            TokenKind::RightShift => 64,
            TokenKind::LeftParen => 65,
            TokenKind::RightParen => 66,
            TokenKind::LeftBrace => 67,
            TokenKind::RightBrace => 68,
            TokenKind::LeftBracket => 69,
            TokenKind::RightBracket => 70,
            TokenKind::Semicolon => 71,
            TokenKind::Colon => 72,
            TokenKind::DoubleColon => 73,
            TokenKind::Comma => 74,
            TokenKind::Dot => 75,
            TokenKind::DotDot => 76,
            TokenKind::DotDotEqual => 77,
            TokenKind::Arrow => 78,
            TokenKind::FatArrow => 79,
            TokenKind::Question => 80,
            TokenKind::At => 81,
            TokenKind::Underscore => 82,
            TokenKind::Newline => 83,
            TokenKind::Eof => 84,
            TokenKind::Error(_) => 85,
        }
    }

    /// Whether `self` and `other` are the same variant, whatever they carry.
    pub fn same_variant(&self, other: &TokenKind) -> (same: bool)
        ensures
            same == (self@.index() == other@.index()),
    {
        self.index() == other.index()
    }

    /// The name of the variant.
    pub fn name(&self) -> (name: &'static str)
        ensures
            name@ == self@.name(),
    {
        match self {
            TokenKind::IntLiteral(_) => "IntLiteral",
            TokenKind::BoolLiteral(_) => "BoolLiteral",
            TokenKind::StringLiteral(_) => "StringLiteral",
            TokenKind::CharLiteral(_) => "CharLiteral",
            TokenKind::Ident(_) => "Ident",
            TokenKind::Fn => "Fn",
            TokenKind::Let => "Let",
            TokenKind::Mut => "Mut",
            TokenKind::Return => "Return",
            TokenKind::If => "If",
            TokenKind::Else => "Else",
            TokenKind::While => "While",
            TokenKind::For => "For",
            TokenKind::In => "In",
            TokenKind::Break => "Break",
            TokenKind::Continue => "Continue",
            TokenKind::Struct => "Struct",
            TokenKind::Enum => "Enum",
            TokenKind::Match => "Match",
            TokenKind::Import => "Import",
            TokenKind::Export => "Export",
            TokenKind::Pub => "Pub",
            TokenKind::Const => "Const",
            TokenKind::Static => "Static",
            TokenKind::As => "As",
            TokenKind::I8 => "I8",
            TokenKind::I16 => "I16",
            TokenKind::I32 => "I32",
            TokenKind::I64 => "I64",
            TokenKind::U8 => "U8",
            TokenKind::U16 => "U16",
            TokenKind::U32 => "U32",
            TokenKind::U64 => "U64",
            TokenKind::Usize => "Usize",
            TokenKind::Isize => "Isize",
            TokenKind::F32 => "F32",
            TokenKind::F64 => "F64",
            TokenKind::Bool => "Bool",
            TokenKind::Char => "Char",
            TokenKind::String => "String",
            TokenKind::Plus => "Plus",
            TokenKind::Minus => "Minus",
            TokenKind::Star => "Star",
            TokenKind::Slash => "Slash",
            TokenKind::Percent => "Percent",
            TokenKind::Assign => "Assign",
            TokenKind::PlusAssign => "PlusAssign",
            TokenKind::MinusAssign => "MinusAssign",
            TokenKind::StarAssign => "StarAssign",
            TokenKind::SlashAssign => "SlashAssign",
            TokenKind::Equal => "Equal",
            TokenKind::NotEqual => "NotEqual",
            TokenKind::Less => "Less",
            TokenKind::Greater => "Greater",
            TokenKind::LessEqual => "LessEqual",
            TokenKind::GreaterEqual => "GreaterEqual",
            TokenKind::LogicalAnd => "LogicalAnd",
            TokenKind::LogicalOr => "LogicalOr",
            TokenKind::LogicalNot => "LogicalNot",
            TokenKind::BitwiseAnd => "BitwiseAnd",
            TokenKind::BitwiseOr => "BitwiseOr",
            TokenKind::BitwiseXor => "BitwiseXor",
            TokenKind::BitwiseNot => "BitwiseNot",
            TokenKind::LeftShift => "LeftShift",
            TokenKind::RightShift => "RightShift",
            TokenKind::LeftParen => "LeftParen",
            TokenKind::RightParen => "RightParen",
            TokenKind::LeftBrace => "LeftBrace",
            TokenKind::RightBrace => "RightBrace",
            TokenKind::LeftBracket => "LeftBracket",
            TokenKind::RightBracket => "RightBracket",
            TokenKind::Semicolon => "Semicolon",
            TokenKind::Colon => "Colon",
            TokenKind::DoubleColon => "DoubleColon",
            TokenKind::Comma => "Comma",
            TokenKind::Dot => "Dot",
            TokenKind::DotDot => "DotDot",
            TokenKind::DotDotEqual => "DotDotEqual",
            TokenKind::Arrow => "Arrow",
            TokenKind::FatArrow => "FatArrow",
            TokenKind::Question => "Question",
            TokenKind::At => "At",
            TokenKind::Underscore => "Underscore",
            TokenKind::Newline => "Newline",
            TokenKind::Eof => "Eof",
            TokenKind::Error(_) => "Error",
        }
    }

    /// The text that names this kind in a diagnostic.
    pub fn debug_text(&self) -> (text: String)
        ensures
            text@ == self@.debug_text(),
    {
        let mut text = String::from_str(self.name());
        match self {
            TokenKind::IntLiteral(n) => {
                text.append("(");
                push_decimal(&mut text, *n as i64);
                text.append(")");
            },
            TokenKind::BoolLiteral(b) => {
                text.append("(");
                text.append(if *b { "true" } else { "false" });
                text.append(")");
            },
            TokenKind::StringLiteral(s) => {
                text.append("(");
                text.append(str_debug(s.as_str()).as_str());
                text.append(")");
            },
            TokenKind::CharLiteral(c) => {
                text.append("(");
                text.append(char_debug(*c).as_str());
                text.append(")");
            },
            TokenKind::Ident(s) => {
                text.append("(");
                text.append(str_debug(s.as_str()).as_str());
                text.append(")");
            },
            TokenKind::Error(s) => {
                text.append("(");
                text.append(str_debug(s.as_str()).as_str());
                text.append(")");
            },
            _ => {},
        }
        proof {
            lemma_name_parts();
        }
        text
    }

    /// The token as it is written in a source text.
    pub fn text(&self) -> (text: String)
        ensures
            text@ == self@.display_text(),
    {
        match self {
            TokenKind::IntLiteral(n) => {
                let mut text = String::new();
                push_decimal(&mut text, *n as i64);
                text
            },
            TokenKind::BoolLiteral(b) => String::from_str(if *b { "true" } else { "false" }),
            TokenKind::StringLiteral(s) => {
                let mut text = String::from_str("\"");
                text.append(str_escaped(s.as_str()).as_str());
                text.append("\"");
                text
            },
            TokenKind::CharLiteral(c) => {
                let mut text = String::from_str("'");
                text.append(char_escaped(*c).as_str());
                text.append("'");
                text
            },
            TokenKind::Ident(s) => s.clone(),
            TokenKind::Fn => String::from_str("fn"),
            TokenKind::Let => String::from_str("let"),
            TokenKind::Mut => String::from_str("mut"),
            TokenKind::Return => String::from_str("return"),
            TokenKind::If => String::from_str("if"),
            TokenKind::Else => String::from_str("else"),
            TokenKind::While => String::from_str("while"),
            TokenKind::For => String::from_str("for"),
            TokenKind::In => String::from_str("in"),
            TokenKind::Break => String::from_str("break"),
            TokenKind::Continue => String::from_str("continue"),
            TokenKind::Struct => String::from_str("struct"),
            TokenKind::Enum => String::from_str("enum"),
            TokenKind::Match => String::from_str("match"),
            TokenKind::Import => String::from_str("import"),
            TokenKind::Export => String::from_str("export"),
            TokenKind::Pub => String::from_str("pub"),
            TokenKind::Const => String::from_str("const"),
            TokenKind::Static => String::from_str("static"),
            TokenKind::As => String::from_str("as"),
            TokenKind::I8 => String::from_str("i8"),
            TokenKind::I16 => String::from_str("i16"),
            TokenKind::I32 => String::from_str("i32"),
            TokenKind::I64 => String::from_str("i64"),
            TokenKind::U8 => String::from_str("u8"),
            TokenKind::U16 => String::from_str("u16"),
            TokenKind::U32 => String::from_str("u32"),
            TokenKind::U64 => String::from_str("u64"),
            TokenKind::Usize => String::from_str("usize"),
            TokenKind::Isize => String::from_str("isize"),
            TokenKind::F32 => String::from_str("f32"),
            TokenKind::F64 => String::from_str("f64"),
            TokenKind::Bool => String::from_str("bool"),
            TokenKind::Char => String::from_str("char"),
            TokenKind::String => String::from_str("string"),
            TokenKind::Plus => String::from_str("+"),
            TokenKind::Minus => String::from_str("-"),
            TokenKind::Star => String::from_str("*"),
            TokenKind::Slash => String::from_str("/"),
            TokenKind::Percent => String::from_str("%"),
            TokenKind::Assign => String::from_str("="),
            TokenKind::PlusAssign => String::from_str("+="),
            TokenKind::MinusAssign => String::from_str("-="),
            TokenKind::StarAssign => String::from_str("*="),
            TokenKind::SlashAssign => String::from_str("/="),
            TokenKind::Equal => String::from_str("=="),
            TokenKind::NotEqual => String::from_str("!="),
            TokenKind::Less => String::from_str("<"),
            TokenKind::Greater => String::from_str(">"),
            TokenKind::LessEqual => String::from_str("<="),
            TokenKind::GreaterEqual => String::from_str(">="),
            TokenKind::LogicalAnd => String::from_str("&&"),
            TokenKind::LogicalOr => String::from_str("||"),
            TokenKind::LogicalNot => String::from_str("!"),
            TokenKind::BitwiseAnd => String::from_str("&"),
            TokenKind::BitwiseOr => String::from_str("|"),
            TokenKind::BitwiseXor => String::from_str("^"),
            TokenKind::BitwiseNot => String::from_str("~"),
            TokenKind::LeftShift => String::from_str("<<"),
            TokenKind::RightShift => String::from_str(">>"),
            TokenKind::LeftParen => String::from_str("("),
            TokenKind::RightParen => String::from_str(")"),
            TokenKind::LeftBrace => String::from_str("{"),
            TokenKind::RightBrace => String::from_str("}"),
            TokenKind::LeftBracket => String::from_str("["),
            TokenKind::RightBracket => String::from_str("]"),
            TokenKind::Semicolon => String::from_str(";"),
            TokenKind::Colon => String::from_str(":"),
            TokenKind::DoubleColon => String::from_str("::"),
            TokenKind::Comma => String::from_str(","),
            TokenKind::Dot => String::from_str("."),
            TokenKind::DotDot => String::from_str(".."),
            TokenKind::DotDotEqual => String::from_str("..="),
            TokenKind::Arrow => String::from_str("->"),
            TokenKind::FatArrow => String::from_str("=>"),
            TokenKind::Question => String::from_str("?"),
            TokenKind::At => String::from_str("@"),
            TokenKind::Underscore => String::from_str("_"),
            TokenKind::Newline => String::from_str("\\n"),
            TokenKind::Eof => String::from_str("EOF"),
            TokenKind::Error(s) => {
                let mut text = String::from_str("error(");
                text.append(s.as_str());
                text.append(")");
                text
            },
        }
    }
}

/// The names of the variants that carry a value end where the value's
/// parenthesis opens.
proof fn lemma_name_parts()
    ensures
        "IntLiteral("@ == "IntLiteral"@ + "("@,
        "BoolLiteral("@ == "BoolLiteral"@ + "("@,
        "StringLiteral("@ == "StringLiteral"@ + "("@,
        "CharLiteral("@ == "CharLiteral"@ + "("@,
        "Ident("@ == "Ident"@ + "("@,
        "Error("@ == "Error"@ + "("@,
{
    reveal_strlit("(");
    reveal_strlit("IntLiteral");
    reveal_strlit("IntLiteral(");
    reveal_strlit("BoolLiteral");
    reveal_strlit("BoolLiteral(");
    reveal_strlit("StringLiteral");
    reveal_strlit("StringLiteral(");
    reveal_strlit("CharLiteral");
    reveal_strlit("CharLiteral(");
    reveal_strlit("Ident");
    reveal_strlit("Ident(");
    reveal_strlit("Error");
    reveal_strlit("Error(");
    assert("IntLiteral("@ =~= "IntLiteral"@ + "("@);
    assert("BoolLiteral("@ =~= "BoolLiteral"@ + "("@);
    assert("StringLiteral("@ =~= "StringLiteral"@ + "("@);
    assert("CharLiteral("@ =~= "CharLiteral"@ + "("@);
    assert("Ident("@ =~= "Ident"@ + "("@);
    assert("Error("@ =~= "Error"@ + "("@);
}

/// One occurrence of a token in a source text.
#[derive(Debug, Clone)]
pub struct Token {
    pub kind: TokenKind,
    pub span: Span,
    /// The lexeme: the source text of the token.
    pub raw: String,
}

/// The mathematical model of a [`Token`].
pub struct TokenView {
    pub kind: TokenKindView,
    pub span: Span,
    pub raw: Seq<char>,
}

impl View for Token {
    type V = TokenView;

    open spec fn view(&self) -> TokenView {
        TokenView { kind: self.kind@, span: self.span, raw: self.raw@ }
    }
}

impl Token {
    pub fn new(kind: TokenKind, span: Span, raw: String) -> (token: Self)
        ensures
            token == (Token { kind, span, raw }),
    {
        Token { kind, span, raw }
    }
}

} // verus!
