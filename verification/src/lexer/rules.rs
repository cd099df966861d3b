//! The lexical rules of the language, as functions on the bytes of a source
//! text.
//!
//! The text is read as bytes. Outside string and character literals only
//! ASCII is significant; inside them each byte becomes the character of the
//! same code.

use vstd::prelude::*;
use crate::span::Span;
use crate::text::{decimal_text, utf8_lossy_text};
use crate::token::{TokenKindView, TokenView};

verus! {

/// A place in a source text: a byte offset, with the line and the column
/// that the lexer counts there. Line and column stop at the largest value
/// of their type.
pub struct Cursor {
    pub pos: nat,
    pub line: u32,
    pub column: u32,
}

/// The place at which a text begins.
pub open spec fn origin() -> Cursor {
    Cursor { pos: 0, line: 1, column: 1 }
}

/// `n` more than `x`, or the largest value if that is too large.
pub open spec fn add_capped(x: u32, n: nat) -> u32 {
    if x + n > u32::MAX {
        u32::MAX
    } else {
        (x + n) as u32
    }
}

/// The place `n` bytes after `cur` on the same line.
pub open spec fn forward(cur: Cursor, n: nat) -> Cursor {
    Cursor { pos: cur.pos + n, line: cur.line, column: add_capped(cur.column, n) }
}

/// The place after a line break at `cur`: the first column of the next
/// line.
pub open spec fn next_line(cur: Cursor) -> Cursor {
    Cursor { pos: cur.pos + 1, line: add_capped(cur.line, 1), column: 1 }
}

/// The number of bytes from `pos` to the end of the text.
pub open spec fn left(src: Seq<u8>, pos: nat) -> nat {
    if pos < src.len() {
        (src.len() - pos) as nat
    } else {
        0
    }
}

/// The byte at `pos`; beyond the end of the text, zero.
pub open spec fn byte_at(src: Seq<u8>, pos: nat) -> u8 {
    if pos < src.len() {
        src[pos as int]
    } else {
        0
    }
}

pub open spec fn is_digit(b: u8) -> bool {
    '0' as u8 <= b <= '9' as u8
}

pub open spec fn is_letter(b: u8) -> bool {
    ('a' as u8 <= b <= 'z' as u8) || ('A' as u8 <= b <= 'Z' as u8)
}

pub open spec fn is_hex_digit(b: u8) -> bool {
    is_digit(b) || ('a' as u8 <= b <= 'f' as u8) || ('A' as u8 <= b <= 'F' as u8)
}

/// A class of bytes of which a lexeme takes a run.
#[derive(Debug, Clone, Copy, PartialEq, Eq, Structural)]
pub enum ByteClass {
    /// Decimal digits and `_`.
    Decimal,
    /// Hexadecimal digits and `_`.
    Hexadecimal,
    /// `0`, `1` and `_`.
    Binary,
    /// Letters, digits and `_`.
    Word,
    /// Every byte but the line break.
    Line,
}

/// Whether the byte `b` belongs to `class`.
pub open spec fn in_class(b: u8, class: ByteClass) -> bool {
    match class {
        ByteClass::Decimal => is_digit(b) || b == '_' as u8,
        ByteClass::Hexadecimal => is_hex_digit(b) || b == '_' as u8,
        ByteClass::Binary => b == '0' as u8 || b == '1' as u8 || b == '_' as u8,
        ByteClass::Word => is_letter(b) || is_digit(b) || b == '_' as u8,
        ByteClass::Line => b != '\n' as u8,
    }
}

/// The length of the longest run of bytes of `class` that begins at `pos`.
pub open spec fn run_length(src: Seq<u8>, pos: nat, class: ByteClass) -> nat
    decreases left(src, pos),
{
    if pos < src.len() && in_class(src[pos as int], class) {
        1 + run_length(src, pos + 1, class)
    } else {
        0
    }
}

/// The value of a digit of a number literal.
pub open spec fn digit_value(b: u8) -> int {
    if is_digit(b) {
        b - '0' as u8
    } else if 'a' as u8 <= b <= 'f' as u8 {
        b - 'a' as u8 + 10
    } else if 'A' as u8 <= b <= 'F' as u8 {
        b - 'A' as u8 + 10
    } else {
        0
    }
}

/// The number that the digits in `digits` write in base `radix`. An `_`
/// separates digits and counts for nothing.
pub open spec fn radix_value(digits: Seq<u8>, radix: int) -> int
    decreases digits.len(),
{
    if digits.len() == 0 {
        0
    } else if digits.last() == '_' as u8 {
        radix_value(digits.drop_last(), radix)
    } else {
        radix_value(digits.drop_last(), radix) * radix + digit_value(digits.last())
    }
}

/// The number of digits in `digits`, the `_` not counted.
pub open spec fn digit_count(digits: Seq<u8>) -> nat
    decreases digits.len(),
{
    if digits.len() == 0 {
        0
    } else if digits.last() == '_' as u8 {
        digit_count(digits.drop_last())
    } else {
        digit_count(digits.drop_last()) + 1
    }
}

/// The digits in `digits` as text, without the `_`.
pub open spec fn digit_text(digits: Seq<u8>) -> Seq<char>
    decreases digits.len(),
{
    if digits.len() == 0 {
        Seq::empty()
    } else if digits.last() == '_' as u8 {
        digit_text(digits.drop_last())
    } else {
        digit_text(digits.drop_last()).push(digits.last() as char)
    }
}

/// The value of a number literal with the digits `digits` in base `radix`:
/// it has a value if it has a digit and the number fits in 32 bits with a
/// sign.
pub open spec fn literal_value(digits: Seq<u8>, radix: int) -> Option<i32> {
    if digit_count(digits) > 0 && radix_value(digits, radix) <= i32::MAX {
        Some(radix_value(digits, radix) as i32)
    } else {
        None
    }
}

/// What is wrong with a lexeme.
pub enum ProblemView {
    UnexpectedCharacter(u8),
    InvalidHexadecimal,
    InvalidBinary,
    InvalidNumber(Seq<char>),
    FloatLiteral,
    UnterminatedString,
    InvalidEscape(u8),
    UnterminatedCharacter,
    InvalidCharacterEscape(u8),
    LongCharacter,
}

impl ProblemView {
    /// The message for the problem, found at `line` and `column`.
    pub open spec fn message(self, line: u32, column: u32) -> Seq<char> {
        match self {
            ProblemView::UnexpectedCharacter(b) => "Unexpected character '"@ + seq![b as char]
                + "' at line "@ + decimal_text(line as int) + ", column "@ + decimal_text(
                column as int,
            ),
            ProblemView::InvalidHexadecimal => "Invalid hexadecimal number at line "@
                + decimal_text(line as int),
            ProblemView::InvalidBinary => "Invalid binary number at line "@ + decimal_text(
                line as int,
            ),
            ProblemView::InvalidNumber(digits) => "Invalid number '"@ + digits + "' at line "@
                + decimal_text(line as int),
            ProblemView::FloatLiteral => "Float literals not yet supported at line "@
                + decimal_text(line as int),
            ProblemView::UnterminatedString => "Unterminated string at line "@ + decimal_text(
                line as int,
            ),
            ProblemView::InvalidEscape(b) => "Invalid escape sequence '\\"@ + seq![b as char]
                + "' at line "@ + decimal_text(line as int),
            ProblemView::UnterminatedCharacter => "Unterminated character literal at line "@
                + decimal_text(line as int),
            ProblemView::InvalidCharacterEscape(b) => "Invalid escape sequence '\\"@
                + seq![b as char] + "' in character literal at line "@ + decimal_text(
                line as int,
            ),
            ProblemView::LongCharacter =>
                "Character literal must be exactly one character at line "@ + decimal_text(
                    line as int,
                ),
        }
    }
}

/// The outcome of reading one lexeme: the kind of the token or the problem,
/// and the number of bytes read before the lexeme ended or the problem was
/// found.
pub struct Scan {
    pub outcome: Result<TokenKindView, ProblemView>,
    pub len: nat,
}

/// The keyword, type keyword or boolean literal that `text` spells, or `_`;
/// every other word is an identifier.
pub open spec fn word_kind(text: Seq<char>) -> TokenKindView {
    if text == "fn"@ {
        TokenKindView::Fn
    } else if text == "let"@ {
        TokenKindView::Let
    } else if text == "mut"@ {
        TokenKindView::Mut
    } else if text == "return"@ {
        TokenKindView::Return
    } else if text == "if"@ {
        TokenKindView::If
    } else if text == "else"@ {
        TokenKindView::Else
    } else if text == "while"@ {
        TokenKindView::While
    } else if text == "for"@ {
        TokenKindView::For
    } else if text == "in"@ {
        TokenKindView::In
    } else if text == "break"@ {
        TokenKindView::Break
    } else if text == "continue"@ {
        TokenKindView::Continue
    } else if text == "struct"@ {
        TokenKindView::Struct
    } else if text == "enum"@ {
        TokenKindView::Enum
    } else if text == "match"@ {
        TokenKindView::Match
    } else if text == "import"@ {
        TokenKindView::Import
    } else if text == "export"@ {
        TokenKindView::Export
    } else if text == "pub"@ {
        TokenKindView::Pub
    } else if text == "const"@ {
        TokenKindView::Const
    } else if text == "static"@ {
        TokenKindView::Static
    } else if text == "as"@ {
        TokenKindView::As
    } else if text == "i8"@ {
        TokenKindView::I8
    } else if text == "i16"@ {
        TokenKindView::I16
    } else if text == "i32"@ {
        TokenKindView::I32
    } else if text == "i64"@ {
        TokenKindView::I64
    } else if text == "u8"@ {
        TokenKindView::U8
    } else if text == "u16"@ {
        TokenKindView::U16
    } else if text == "u32"@ {
        TokenKindView::U32
    } else if text == "u64"@ {
        TokenKindView::U64
    } else if text == "usize"@ {
        TokenKindView::Usize
    } else if text == "isize"@ {
        TokenKindView::Isize
    } else if text == "f32"@ {
        TokenKindView::F32
    } else if text == "f64"@ {
        TokenKindView::F64
    } else if text == "bool"@ {
        TokenKindView::Bool
    } else if text == "char"@ {
        TokenKindView::Char
    } else if text == "string"@ {
        TokenKindView::String
    } else if text == "true"@ {
        TokenKindView::BoolLiteral(true)
    } else if text == "false"@ {
        TokenKindView::BoolLiteral(false)
    } else if text == "_"@ {
        TokenKindView::Underscore
    } else {
        TokenKindView::Ident(text)
    }
}

/// The bytes of `bytes` as characters, each byte the character of its
/// code.
pub open spec fn as_text(bytes: Seq<u8>) -> Seq<char> {
    Seq::new(bytes.len(), |i: int| bytes[i] as char)
}

/// The operator or delimiter that begins with the bytes `b0`, `b1`, `b2`,
/// with its length: the longest one that these bytes spell.
pub open spec fn operator(b0: u8, b1: u8, b2: u8) -> Option<(TokenKindView, nat)> {
    if b0 == '(' as u8 {
        Some((TokenKindView::LeftParen, 1))
    } else if b0 == ')' as u8 {
        Some((TokenKindView::RightParen, 1))
    } else if b0 == '{' as u8 {
        Some((TokenKindView::LeftBrace, 1))
    } else if b0 == '}' as u8 {
        Some((TokenKindView::RightBrace, 1))
    } else if b0 == '[' as u8 {
        Some((TokenKindView::LeftBracket, 1))
    } else if b0 == ']' as u8 {
        Some((TokenKindView::RightBracket, 1))
    } else if b0 == ';' as u8 {
        Some((TokenKindView::Semicolon, 1))
    } else if b0 == ',' as u8 {
        Some((TokenKindView::Comma, 1))
    } else if b0 == '?' as u8 {
        Some((TokenKindView::Question, 1))
    } else if b0 == '~' as u8 {
        Some((TokenKindView::BitwiseNot, 1))
    } else if b0 == '%' as u8 {
        Some((TokenKindView::Percent, 1))
    } else if b0 == '^' as u8 {
        Some((TokenKindView::BitwiseXor, 1))
    } else if b0 == '+' as u8 {
        if b1 == '=' as u8 {
            Some((TokenKindView::PlusAssign, 2))
        } else {
            Some((TokenKindView::Plus, 1))
        }
    } else if b0 == '-' as u8 {
        if b1 == '>' as u8 {
            Some((TokenKindView::Arrow, 2))
        } else if b1 == '=' as u8 {
            Some((TokenKindView::MinusAssign, 2))
        } else {
            Some((TokenKindView::Minus, 1))
        }
    } else if b0 == '*' as u8 {
        if b1 == '=' as u8 {
            Some((TokenKindView::StarAssign, 2))
        } else {
            Some((TokenKindView::Star, 1))
        }
    } else if b0 == '/' as u8 {
        if b1 == '=' as u8 {
            Some((TokenKindView::SlashAssign, 2))
        } else {
            Some((TokenKindView::Slash, 1))
        }
    } else if b0 == '=' as u8 {
        if b1 == '=' as u8 {
            Some((TokenKindView::Equal, 2))
        } else if b1 == '>' as u8 {
            Some((TokenKindView::FatArrow, 2))
        } else {
            Some((TokenKindView::Assign, 1))
        }
    } else if b0 == '!' as u8 {
        if b1 == '=' as u8 {
            Some((TokenKindView::NotEqual, 2))
        } else {
            Some((TokenKindView::LogicalNot, 1))
        }
    } else if b0 == '<' as u8 {
        if b1 == '=' as u8 {
            Some((TokenKindView::LessEqual, 2))
        } else if b1 == '<' as u8 {
            Some((TokenKindView::LeftShift, 2))
        } else {
            Some((TokenKindView::Less, 1))
        }
    } else if b0 == '>' as u8 {
        if b1 == '=' as u8 {
            Some((TokenKindView::GreaterEqual, 2))
        } else if b1 == '>' as u8 {
            Some((TokenKindView::RightShift, 2))
        } else {
            Some((TokenKindView::Greater, 1))
        }
    } else if b0 == '&' as u8 {
        if b1 == '&' as u8 {
            Some((TokenKindView::LogicalAnd, 2))
        } else {
            Some((TokenKindView::BitwiseAnd, 1))
        }
    } else if b0 == '|' as u8 {
        if b1 == '|' as u8 {
            Some((TokenKindView::LogicalOr, 2))
        } else {
            Some((TokenKindView::BitwiseOr, 1))
        }
    } else if b0 == ':' as u8 {
        if b1 == ':' as u8 {
            Some((TokenKindView::DoubleColon, 2))
        } else {
            Some((TokenKindView::Colon, 1))
        }
    } else if b0 == '.' as u8 {
        if b1 == '.' as u8 {
            if b2 == '=' as u8 {
                Some((TokenKindView::DotDotEqual, 3))
            } else {
                Some((TokenKindView::DotDot, 2))
            }
        } else {
            Some((TokenKindView::Dot, 1))
        }
    } else {
        None
    }
}

/// The character that `\` and the byte `b` stand for in a literal closed by
/// `quote`, if they stand for one.
pub open spec fn escape(b: u8, quote: u8) -> Option<char> {
    if b == 'n' as u8 {
        Some('\n')
    } else if b == 'r' as u8 {
        Some('\r')
    } else if b == 't' as u8 {
        Some('\t')
    } else if b == '\\' as u8 {
        Some('\\')
    } else if b == quote {
        Some(quote as char)
    } else if b == '0' as u8 {
        Some('\0')
    } else {
        None
    }
}

/// How the body of a string literal ends.
pub enum StringEnd {
    /// At the closing quote; the place is that after the quote.
    Closed(Seq<char>, nat),
    /// At the end of the text.
    Open(nat),
    /// At an escape that stands for nothing; the place is that of the byte
    /// after the `\`.
    BadEscape(u8, nat),
}

/// The body of a string literal from `pos`, after the characters in
/// `found`.
pub open spec fn string_body(src: Seq<u8>, pos: nat, found: Seq<char>) -> StringEnd
    decreases left(src, pos),
{
    if pos >= src.len() {
        StringEnd::Open(pos)
    } else if src[pos as int] == '"' as u8 {
        StringEnd::Closed(found, pos + 1)
    } else if src[pos as int] == '\\' as u8 {
        if pos + 1 >= src.len() {
            StringEnd::Open(pos + 1)
        } else {
            match escape(byte_at(src, pos + 1), '"' as u8) {
                Some(c) => string_body(src, pos + 2, found.push(c)),
                None => StringEnd::BadEscape(byte_at(src, pos + 1), pos + 1),
            }
        }
    } else {
        string_body(src, pos + 1, found.push(src[pos as int] as char))
    }
}

/// A string literal, at its opening quote.
pub open spec fn string_literal(src: Seq<u8>, pos: nat) -> Scan {
    match string_body(src, pos + 1, Seq::empty()) {
        StringEnd::Closed(text, end) => Scan {
            outcome: Ok(TokenKindView::StringLiteral(text)),
            len: (end - pos) as nat,
        },
        StringEnd::Open(end) => Scan {
            outcome: Err(ProblemView::UnterminatedString),
            len: (end - pos) as nat,
        },
        StringEnd::BadEscape(b, end) => Scan {
            outcome: Err(ProblemView::InvalidEscape(b)),
            len: (end - pos) as nat,
        },
    }
}

/// A character literal, at its opening quote: one character or one escape
/// between two quotes.
pub open spec fn character_literal(src: Seq<u8>, pos: nat) -> Scan {
    if pos + 1 >= src.len() {
        Scan { outcome: Err(ProblemView::UnterminatedCharacter), len: 1 }
    } else if byte_at(src, pos + 1) == '\\' as u8 {
        if pos + 2 >= src.len() {
            Scan { outcome: Err(ProblemView::UnterminatedCharacter), len: 2 }
        } else {
            match escape(byte_at(src, pos + 2), '\'' as u8) {
                None => Scan {
                    outcome: Err(ProblemView::InvalidCharacterEscape(byte_at(src, pos + 2))),
                    len: 2,
                },
                Some(c) => if byte_at(src, pos + 3) == '\'' as u8 {
                    Scan { outcome: Ok(TokenKindView::CharLiteral(c)), len: 4 }
                } else {
                    Scan { outcome: Err(ProblemView::LongCharacter), len: 3 }
                },
            }
        }
    } else if byte_at(src, pos + 2) == '\'' as u8 {
        Scan { outcome: Ok(TokenKindView::CharLiteral(byte_at(src, pos + 1) as char)), len: 3 }
    } else {
        Scan { outcome: Err(ProblemView::LongCharacter), len: 2 }
    }
}

/// A number literal, at its first digit: hexadecimal after `0x`, binary
/// after `0b`, else decimal. A decimal point with a digit after it makes a
/// float literal, which is an error.
pub open spec fn number_literal(src: Seq<u8>, pos: nat) -> Scan {
    if byte_at(src, pos) == '0' as u8 && byte_at(src, pos + 1) == 'x' as u8 {
        let len = 2 + run_length(src, pos + 2, ByteClass::Hexadecimal);
        match literal_value(src.subrange((pos + 2) as int, (pos + len) as int), 16) {
            Some(n) => Scan { outcome: Ok(TokenKindView::IntLiteral(n)), len },
            None => Scan { outcome: Err(ProblemView::InvalidHexadecimal), len },
        }
    } else if byte_at(src, pos) == '0' as u8 && byte_at(src, pos + 1) == 'b' as u8 {
        let len = 2 + run_length(src, pos + 2, ByteClass::Binary);
        match literal_value(src.subrange((pos + 2) as int, (pos + len) as int), 2) {
            Some(n) => Scan { outcome: Ok(TokenKindView::IntLiteral(n)), len },
            None => Scan { outcome: Err(ProblemView::InvalidBinary), len },
        }
    } else {
        let len = run_length(src, pos, ByteClass::Decimal);
        if byte_at(src, pos + len) == '.' as u8 && is_digit(byte_at(src, pos + len + 1)) {
            Scan { outcome: Err(ProblemView::FloatLiteral), len }
        } else {
            match literal_value(src.subrange(pos as int, (pos + len) as int), 10) {
                Some(n) => Scan { outcome: Ok(TokenKindView::IntLiteral(n)), len },
                None => Scan {
                    outcome: Err(
                        ProblemView::InvalidNumber(
                            digit_text(src.subrange(pos as int, (pos + len) as int)),
                        ),
                    ),
                    len,
                },
            }
        }
    }
}

/// A word, at its first byte: a keyword or an identifier.
pub open spec fn word(src: Seq<u8>, pos: nat) -> Scan {
    let len = run_length(src, pos, ByteClass::Word);
    Scan { outcome: Ok(word_kind(as_text(src.subrange(pos as int, (pos + len) as int)))), len }
}

/// The lexeme that begins at `pos`, which is a place within the text.
pub open spec fn scan(src: Seq<u8>, pos: nat) -> Scan {
    let b = byte_at(src, pos);
    if is_digit(b) {
        number_literal(src, pos)
    } else if is_letter(b) || b == '_' as u8 {
        word(src, pos)
    } else if b == '"' as u8 {
        string_literal(src, pos)
    } else if b == '\'' as u8 {
        character_literal(src, pos)
    } else {
        match operator(b, byte_at(src, pos + 1), byte_at(src, pos + 2)) {
            Some((kind, len)) => Scan { outcome: Ok(kind), len },
            None => Scan { outcome: Err(ProblemView::UnexpectedCharacter(b)), len: 0 },
        }
    }
}

/// The place at which a block comment ends, `cur` being a place within it:
/// after the first `*/`, or at the end of the text. Comments do not nest.
pub open spec fn comment_end(src: Seq<u8>, cur: Cursor) -> Cursor
    decreases left(src, cur.pos),
{
    if cur.pos >= src.len() {
        cur
    } else if src[cur.pos as int] == '*' as u8 && byte_at(src, cur.pos + 1) == '/' as u8 {
        forward(cur, 2)
    } else if src[cur.pos as int] == '\n' as u8 {
        comment_end(src, next_line(cur))
    } else {
        comment_end(src, forward(cur, 1))
    }
}

/// The place of the next lexeme at or after `cur`, or the end of the text:
/// blanks, line breaks and comments are passed over.
pub open spec fn skip_trivia(src: Seq<u8>, cur: Cursor) -> Cursor
    decreases left(src, cur.pos),
{
    let b = byte_at(src, cur.pos);
    if cur.pos >= src.len() {
        cur
    } else if b == ' ' as u8 || b == '\t' as u8 || b == '\r' as u8 {
        skip_trivia(src, forward(cur, 1))
    } else if b == '\n' as u8 {
        skip_trivia(src, next_line(cur))
    } else if b == '/' as u8 && byte_at(src, cur.pos + 1) == '/' as u8 {
        skip_trivia(src, forward(cur, run_length(src, cur.pos, ByteClass::Line)))
    } else if b == '/' as u8 && byte_at(src, cur.pos + 1) == '*' as u8 {
        let end = comment_end(src, forward(cur, 2));
        if end.pos > cur.pos {
            skip_trivia(src, end)
        } else {
            cur
        }
    } else {
        cur
    }
}

/// What a lexer makes of a text: the tokens, and the messages of the
/// errors.
pub struct Lexed {
    pub tokens: Seq<TokenView>,
    pub errors: Seq<Seq<char>>,
}

/// The token of `kind` that lies between `from` and `to`.
pub open spec fn token(src: Seq<u8>, kind: TokenKindView, from: Cursor, to: nat) -> TokenView {
    TokenView {
        kind,
        span: Span { start: from.pos as usize, end: to as usize, line: from.line, column: from.column },
        raw: utf8_lossy_text(src.subrange(from.pos as int, to as int)),
    }
}

/// The end-of-input token at `at`. Its lexeme is empty.
pub open spec fn end_token(at: Cursor) -> TokenView {
    TokenView {
        kind: TokenKindView::Eof,
        span: Span {
            start: at.pos as usize,
            end: at.pos as usize,
            line: at.line,
            column: at.column,
        },
        raw: Seq::empty(),
    }
}

/// The tokens and errors of the text from `cur` on, after the tokens and
/// errors found before. A lexeme that cannot be read adds a message, and
/// reading resumes one byte after the place of the problem. The last token
/// is the end-of-input token, whatever the text holds.
pub open spec fn lex_from(
    src: Seq<u8>,
    cur: Cursor,
    tokens: Seq<TokenView>,
    errors: Seq<Seq<char>>,
) -> Lexed
    decreases left(src, cur.pos),
{
    let start = skip_trivia(src, cur);
    if start.pos >= src.len() || start.pos < cur.pos {
        Lexed { tokens: tokens.push(end_token(start)), errors }
    } else {
        let found = scan(src, start.pos);
        let end = forward(start, found.len);
        match found.outcome {
            Ok(kind) => if found.len == 0 {
                Lexed { tokens: tokens.push(end_token(start)), errors }
            } else {
                lex_from(src, end, tokens.push(token(src, kind, start, end.pos)), errors)
            },
            Err(problem) => lex_from(
                src,
                if end.pos < src.len() {
                    forward(end, 1)
                } else {
                    end
                },
                tokens,
                errors.push(problem.message(end.line, end.column)),
            ),
        }
    }
}

/// The tokens and errors of a whole text.
pub open spec fn lex(src: Seq<u8>) -> Lexed {
    lex_from(src, origin(), Seq::empty(), Seq::empty())
}

} // verus!
