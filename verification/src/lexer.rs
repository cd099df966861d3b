//! The lexer: one pass over the bytes of a source text, which gives the
//! tokens of the text and the errors found in it.

use vstd::prelude::*;
use vstd::slice::slice_subrange;
use vstd::string::{StringExecFns, StringSliceAdditionalSpecFns};
use crate::ast::model::{lemma_views_empty, lemma_views_push, views};
use crate::grammar::well_formed;
use crate::span::Span;
use crate::text::{push_decimal, same_text, utf8_lossy};
use crate::token::{Token, TokenKind, TokenKindView};

pub mod laws;
pub mod rules;

use rules::{
    as_text, byte_at, character_literal, comment_end, digit_count, digit_text, digit_value,
    end_token, escape, forward, in_class, left, lex_from, literal_value, next_line, number_literal,
    operator, origin, radix_value, run_length, scan, skip_trivia, string_body, string_literal,
    token, word, word_kind, ByteClass, Cursor, Lexed, ProblemView, StringEnd,
};

verus! {

/// What is wrong with a lexeme.
pub enum Problem {
    UnexpectedCharacter(u8),
    InvalidHexadecimal,
    InvalidBinary,
    InvalidNumber(String),
    FloatLiteral,
    UnterminatedString,
    InvalidEscape(u8),
    UnterminatedCharacter,
    InvalidCharacterEscape(u8),
    LongCharacter,
}

impl View for Problem {
    type V = ProblemView;

    open spec fn view(&self) -> ProblemView {
        match self {
            Problem::UnexpectedCharacter(b) => ProblemView::UnexpectedCharacter(*b),
            Problem::InvalidHexadecimal => ProblemView::InvalidHexadecimal,
            Problem::InvalidBinary => ProblemView::InvalidBinary,
            Problem::InvalidNumber(digits) => ProblemView::InvalidNumber(digits@),
            Problem::FloatLiteral => ProblemView::FloatLiteral,
            Problem::UnterminatedString => ProblemView::UnterminatedString,
            Problem::InvalidEscape(b) => ProblemView::InvalidEscape(*b),
            Problem::UnterminatedCharacter => ProblemView::UnterminatedCharacter,
            Problem::InvalidCharacterEscape(b) => ProblemView::InvalidCharacterEscape(*b),
            Problem::LongCharacter => ProblemView::LongCharacter,
        }
    }
}

impl Problem {
    /// The message for the problem, found at `line` and `column`.
    pub fn message(&self, line: u32, column: u32) -> (text: String)
        ensures
            text@ == self@.message(line, column),
    {
        match self {
            Problem::UnexpectedCharacter(b) => {
                let mut text = String::from_str("Unexpected character '");
                text.push(*b as char);
                text.append("' at line ");
                push_decimal(&mut text, line as i64);
                text.append(", column ");
                push_decimal(&mut text, column as i64);
                assert(text@ =~= self@.message(line, column));
                text
            },
            Problem::InvalidHexadecimal => {
                let mut text = String::from_str("Invalid hexadecimal number at line ");
                push_decimal(&mut text, line as i64);
                text
            },
            Problem::InvalidBinary => {
                let mut text = String::from_str("Invalid binary number at line ");
                push_decimal(&mut text, line as i64);
                text
            },
            Problem::InvalidNumber(digits) => {
                let mut text = String::from_str("Invalid number '");
                text.append(digits.as_str());
                text.append("' at line ");
                push_decimal(&mut text, line as i64);
                text
            },
            Problem::FloatLiteral => {
                let mut text = String::from_str("Float literals not yet supported at line ");
                push_decimal(&mut text, line as i64);
                text
            },
            Problem::UnterminatedString => {
                let mut text = String::from_str("Unterminated string at line ");
                push_decimal(&mut text, line as i64);
                text
            },
            Problem::InvalidEscape(b) => {
                let mut text = String::from_str("Invalid escape sequence '\\");
                text.push(*b as char);
                text.append("' at line ");
                push_decimal(&mut text, line as i64);
                assert(text@ =~= self@.message(line, column));
                text
            },
            Problem::UnterminatedCharacter => {
                let mut text = String::from_str("Unterminated character literal at line ");
                push_decimal(&mut text, line as i64);
                text
            },
            Problem::InvalidCharacterEscape(b) => {
                let mut text = String::from_str("Invalid escape sequence '\\");
                text.push(*b as char);
                text.append("' in character literal at line ");
                push_decimal(&mut text, line as i64);
                assert(text@ =~= self@.message(line, column));
                text
            },
            Problem::LongCharacter => {
                let mut text = String::from_str(
                    "Character literal must be exactly one character at line ",
                );
                push_decimal(&mut text, line as i64);
                text
            },
        }
    }
}

/// The model of what reading a lexeme gave.
pub open spec fn outcome_of(result: Result<TokenKind, Problem>) -> Result<
    TokenKindView,
    ProblemView,
> {
    match result {
        Ok(kind) => Ok(kind@),
        Err(problem) => Err(problem@),
    }
}

/// Whether the byte `b` belongs to `class`.
fn byte_in_class(b: u8, class: ByteClass) -> (yes: bool)
    ensures
        yes == in_class(b, class),
{
    let digit = b >= '0' as u8 && b <= '9' as u8;
    let letter = (b >= 'a' as u8 && b <= 'z' as u8) || (b >= 'A' as u8 && b <= 'Z' as u8);
    match class {
        ByteClass::Decimal => digit || b == '_' as u8,
        ByteClass::Hexadecimal => digit || (b >= 'a' as u8 && b <= 'f' as u8) || (b >= 'A' as u8
            && b <= 'F' as u8) || b == '_' as u8,
        ByteClass::Binary => b == '0' as u8 || b == '1' as u8 || b == '_' as u8,
        ByteClass::Word => letter || digit || b == '_' as u8,
        ByteClass::Line => b != '\n' as u8,
    }
}

/// A number whose digits are never negative is not negative, and one more
/// digit does not make it smaller.
proof fn lemma_radix_value_grows(digits: Seq<u8>, radix: int)
    requires
        radix >= 1,
    ensures
        radix_value(digits, radix) >= 0,
        digits.len() > 0 ==> radix_value(digits, radix) >= radix_value(digits.drop_last(), radix),
    decreases digits.len(),
{
    if digits.len() > 0 {
        lemma_radix_value_grows(digits.drop_last(), radix);
        let v = radix_value(digits.drop_last(), radix);
        assert(v * radix >= v) by (nonlinear_arith)
            requires
                v >= 0,
                radix >= 1,
        ;
    }
}

/// The value of the number literal whose digits are the bytes of `input`
/// from `from` to `to`, in base `radix`.
fn literal_of(input: &[u8], from: usize, to: usize, radix: u8) -> (value: Option<i32>)
    requires
        from <= to <= input@.len(),
        radix == 2 || radix == 10 || radix == 16,
    ensures
        value == literal_value(input@.subrange(from as int, to as int), radix as int),
{
    let ghost digits = input@.subrange(from as int, to as int);
    let mut value: i64 = 0;
    let mut count: usize = 0;
    let mut too_large = false;
    let mut i: usize = from;
    proof {
        assert(digits.take(0) =~= Seq::<u8>::empty());
    }
    while i < to
        invariant
            from <= i <= to <= input@.len(),
            radix == 2 || radix == 10 || radix == 16,
            digits == input@.subrange(from as int, to as int),
            count == digit_count(digits.take(i - from)),
            count <= i - from,
            !too_large ==> value == radix_value(digits.take(i - from), radix as int) && 0 <= value
                <= i32::MAX,
            too_large ==> radix_value(digits.take(i - from), radix as int) > i32::MAX,
        decreases to - i,
    {
        let b = input[i];
        proof {
            let next = digits.take(i - from + 1);
            assert(next.drop_last() =~= digits.take(i - from));
            assert(next.last() == b);
            lemma_radix_value_grows(next, radix as int);
        }
        if b != '_' as u8 {
            count += 1;
            if !too_large {
                let d: i64 = if b >= '0' as u8 && b <= '9' as u8 {
                    (b - '0' as u8) as i64
                } else if b >= 'a' as u8 && b <= 'f' as u8 {
                    (b - 'a' as u8) as i64 + 10
                } else if b >= 'A' as u8 && b <= 'F' as u8 {
                    (b - 'A' as u8) as i64 + 10
                } else {
                    0
                };
                assert(d == digit_value(b));
                assert(value * (radix as i64) <= 2147483647 * 16) by (nonlinear_arith)
                    requires
                        0 <= value <= 2147483647,
                        0 <= radix <= 16,
                ;
                assert(value * (radix as i64) >= 0) by (nonlinear_arith)
                    requires
                        0 <= value,
                        0 <= radix,
                ;
                value = value * (radix as i64) + d;
                if value > i32::MAX as i64 {
                    too_large = true;
                }
            }
        }
        i += 1;
    }
    proof {
        assert(digits.take(to - from) =~= digits);
    }
    if count > 0 && !too_large {
        Some(value as i32)
    } else {
        None
    }
}

/// The digits among the bytes of `input` from `from` to `to`, as text.
fn digits_of(input: &[u8], from: usize, to: usize) -> (text: String)
    requires
        from <= to <= input@.len(),
    ensures
        text@ == digit_text(input@.subrange(from as int, to as int)),
{
    let ghost digits = input@.subrange(from as int, to as int);
    let mut text = String::new();
    let mut i: usize = from;
    proof {
        assert(digits.take(0) =~= Seq::<u8>::empty());
    }
    while i < to
        invariant
            from <= i <= to <= input@.len(),
            digits == input@.subrange(from as int, to as int),
            text@ == digit_text(digits.take(i - from)),
        decreases to - i,
    {
        let b = input[i];
        proof {
            let next = digits.take(i - from + 1);
            assert(next.drop_last() =~= digits.take(i - from));
            assert(next.last() == b);
        }
        if b != '_' as u8 {
            text.push(b as char);
        }
        i += 1;
    }
    proof {
        assert(digits.take(to - from) =~= digits);
    }
    text
}

/// The bytes of `input` from `from` to `to` as text, each byte the
/// character of its code.
fn text_of(input: &[u8], from: usize, to: usize) -> (text: String)
    requires
        from <= to <= input@.len(),
    ensures
        text@ == as_text(input@.subrange(from as int, to as int)),
{
    let mut text = String::new();
    let mut i: usize = from;
    while i < to
        invariant
            from <= i <= to <= input@.len(),
            text@ == as_text(input@.subrange(from as int, i as int)),
        decreases to - i,
    {
        text.push(input[i] as char);
        proof {
            assert(as_text(input@.subrange(from as int, i as int)).push(input@[i as int] as char)
                =~= as_text(input@.subrange(from as int, i + 1)));
        }
        i += 1;
    }
    text
}

/// The keyword that `text` spells, or the identifier that it is.
fn kind_of_word(text: String) -> (kind: TokenKind)
    ensures
        kind@ == word_kind(text@),
{
    let word = text.as_str();
    if same_text(word, "fn") {
        TokenKind::Fn
    } else if same_text(word, "let") {
        TokenKind::Let
    } else if same_text(word, "mut") {
        TokenKind::Mut
    } else if same_text(word, "return") {
        TokenKind::Return
    } else if same_text(word, "if") {
        TokenKind::If
    } else if same_text(word, "else") {
        TokenKind::Else
    } else if same_text(word, "while") {
        TokenKind::While
    } else if same_text(word, "for") {
        TokenKind::For
    } else if same_text(word, "in") {
        TokenKind::In
    } else if same_text(word, "break") {
        TokenKind::Break
    } else if same_text(word, "continue") {
        TokenKind::Continue
    } else if same_text(word, "struct") {
        TokenKind::Struct
    } else if same_text(word, "enum") {
        TokenKind::Enum
    } else if same_text(word, "match") {
        TokenKind::Match
    } else if same_text(word, "import") {
        TokenKind::Import
    } else if same_text(word, "export") {
        TokenKind::Export
    } else if same_text(word, "pub") {
        TokenKind::Pub
    } else if same_text(word, "const") {
        TokenKind::Const
    } else if same_text(word, "static") {
        TokenKind::Static
    } else if same_text(word, "as") {
        TokenKind::As
    } else if same_text(word, "i8") {
        TokenKind::I8
    } else if same_text(word, "i16") {
        TokenKind::I16
    } else if same_text(word, "i32") {
        TokenKind::I32
    } else if same_text(word, "i64") {
        TokenKind::I64
    } else if same_text(word, "u8") {
        TokenKind::U8
    } else if same_text(word, "u16") {
        TokenKind::U16
    } else if same_text(word, "u32") {
        TokenKind::U32
    } else if same_text(word, "u64") {
        TokenKind::U64
    } else if same_text(word, "usize") {
        TokenKind::Usize
    } else if same_text(word, "isize") {
        TokenKind::Isize
    } else if same_text(word, "f32") {
        TokenKind::F32
    } else if same_text(word, "f64") {
        TokenKind::F64
    } else if same_text(word, "bool") {
        TokenKind::Bool
    } else if same_text(word, "char") {
        TokenKind::Char
    } else if same_text(word, "string") {
        TokenKind::String
    } else if same_text(word, "true") {
        TokenKind::BoolLiteral(true)
    } else if same_text(word, "false") {
        TokenKind::BoolLiteral(false)
    } else if same_text(word, "_") {
        TokenKind::Underscore
    } else {
        TokenKind::Ident(text)
    }
}

/// The character that `\` and the byte `b` stand for in a literal closed by
/// `quote`.
fn escape_of(b: u8, quote: u8) -> (c: Option<char>)
    ensures
        c == escape(b, quote),
{
    if b == 'n' as u8 {
        Some('\n')
    } else if b == 'r' as u8 {
        Some('\r')
    } else if b == 't' as u8 {
        Some('\t')
    } else if b == '\\' as u8 {
        Some('\\')
    } else if b == quote {
        Some(quote as char)
    } else if b == '0' as u8 {
        Some('\0')
    } else {
        None
    }
}

/// The operator or delimiter that begins with the bytes `b0`, `b1`, `b2`,
/// with its length.
fn operator_of(b0: u8, b1: u8, b2: u8) -> (found: Option<(TokenKind, usize)>)
    ensures
        match found {
            Some((kind, len)) => operator(b0, b1, b2) == Some((kind@, len as nat)) && 1 <= len <= 3,
            None => operator(b0, b1, b2) is None,
        },
{
    if b0 == '(' as u8 {
        Some((TokenKind::LeftParen, 1))
    } else if b0 == ')' as u8 {
        Some((TokenKind::RightParen, 1))
    } else if b0 == '{' as u8 {
        Some((TokenKind::LeftBrace, 1))
    } else if b0 == '}' as u8 {
        Some((TokenKind::RightBrace, 1))
    } else if b0 == '[' as u8 {
        Some((TokenKind::LeftBracket, 1))
    } else if b0 == ']' as u8 {
        Some((TokenKind::RightBracket, 1))
    } else if b0 == ';' as u8 {
        Some((TokenKind::Semicolon, 1))
    } else if b0 == ',' as u8 {
        Some((TokenKind::Comma, 1))
    } else if b0 == '?' as u8 {
        Some((TokenKind::Question, 1))
    } else if b0 == '~' as u8 {
        Some((TokenKind::BitwiseNot, 1))
    } else if b0 == '%' as u8 {
        Some((TokenKind::Percent, 1))
    } else if b0 == '^' as u8 {
        Some((TokenKind::BitwiseXor, 1))
    } else if b0 == '+' as u8 {
        if b1 == '=' as u8 {
            Some((TokenKind::PlusAssign, 2))
        } else {
            Some((TokenKind::Plus, 1))
        }
    } else if b0 == '-' as u8 {
        if b1 == '>' as u8 {
            Some((TokenKind::Arrow, 2))
        } else if b1 == '=' as u8 {
            Some((TokenKind::MinusAssign, 2))
        } else {
            Some((TokenKind::Minus, 1))
        }
    } else if b0 == '*' as u8 {
        if b1 == '=' as u8 {
            Some((TokenKind::StarAssign, 2))
        } else {
            Some((TokenKind::Star, 1))
        }
    } else if b0 == '/' as u8 {
        if b1 == '=' as u8 {
            Some((TokenKind::SlashAssign, 2))
        } else {
            Some((TokenKind::Slash, 1))
        }
    } else if b0 == '=' as u8 {
        if b1 == '=' as u8 {
            Some((TokenKind::Equal, 2))
        } else if b1 == '>' as u8 {
            Some((TokenKind::FatArrow, 2))
        } else {
            Some((TokenKind::Assign, 1))
        }
    } else if b0 == '!' as u8 {
        if b1 == '=' as u8 {
            Some((TokenKind::NotEqual, 2))
        } else {
            Some((TokenKind::LogicalNot, 1))
        }
    } else if b0 == '<' as u8 {
        if b1 == '=' as u8 {
            Some((TokenKind::LessEqual, 2))
        } else if b1 == '<' as u8 {
            Some((TokenKind::LeftShift, 2))
        } else {
            Some((TokenKind::Less, 1))
        }
    } else if b0 == '>' as u8 {
        if b1 == '=' as u8 {
            Some((TokenKind::GreaterEqual, 2))
        } else if b1 == '>' as u8 {
            Some((TokenKind::RightShift, 2))
        } else {
            Some((TokenKind::Greater, 1))
        }
    } else if b0 == '&' as u8 {
        if b1 == '&' as u8 {
            Some((TokenKind::LogicalAnd, 2))
        } else {
            Some((TokenKind::BitwiseAnd, 1))
        }
    } else if b0 == '|' as u8 {
        if b1 == '|' as u8 {
            Some((TokenKind::LogicalOr, 2))
        } else {
            Some((TokenKind::BitwiseOr, 1))
        }
    } else if b0 == ':' as u8 {
        if b1 == ':' as u8 {
            Some((TokenKind::DoubleColon, 2))
        } else {
            Some((TokenKind::Colon, 1))
        }
    } else if b0 == '.' as u8 {
        if b1 == '.' as u8 {
            if b2 == '=' as u8 {
                Some((TokenKind::DotDotEqual, 3))
            } else {
                Some((TokenKind::DotDot, 2))
            }
        } else {
            Some((TokenKind::Dot, 1))
        }
    } else {
        None
    }
}

/// The body of a string literal ends after the place at which it begins.
proof fn lemma_string_body_ends_later(src: Seq<u8>, pos: nat, found: Seq<char>)
    ensures
        match string_body(src, pos, found) {
            StringEnd::Closed(_, end) => end > pos,
            StringEnd::Open(end) => end >= pos,
            StringEnd::BadEscape(_, end) => end > pos,
        },
    decreases left(src, pos),
{
    if pos < src.len() && src[pos as int] != '"' as u8 {
        if src[pos as int] == '\\' as u8 {
            if pos + 1 < src.len() {
                match escape(byte_at(src, pos + 1), '"' as u8) {
                    Some(c) => {
                        lemma_string_body_ends_later(src, pos + 2, found.push(c));
                    },
                    None => {},
                }
            }
        } else {
            lemma_string_body_ends_later(src, pos + 1, found.push(src[pos as int] as char));
        }
    }
}

/// A token is not empty: a lexeme that is read without a problem takes at
/// least one byte.
pub proof fn lemma_scan_progress(src: Seq<u8>, pos: nat)
    requires
        pos < src.len(),
    ensures
        scan(src, pos).outcome is Ok ==> scan(src, pos).len > 0,
{
    lemma_string_body_ends_later(src, pos + 1, Seq::empty());
}

/// A lexer over a source text.
pub struct Lexer<'a> {
    input: &'a [u8],
    pos: usize,
    line: u32,
    column: u32,
    tokens: Vec<Token>,
}

impl<'a> Lexer<'a> {
    /// The bytes of the text.
    pub closed spec fn source(&self) -> Seq<u8> {
        self.input@
    }

    /// The place of the next byte to read.
    pub closed spec fn cursor(&self) -> Cursor {
        Cursor { pos: self.pos as nat, line: self.line, column: self.column }
    }

    /// The tokens found so far.
    pub closed spec fn found(&self) -> Seq<crate::token::TokenView> {
        views(self.tokens@)
    }

    /// The invariant of a lexer: its place lies within the text or at its
    /// end.
    pub closed spec fn wf(&self) -> bool {
        self.pos <= self.input@.len()
    }

    /// A lexer at the beginning of `input`.
    pub fn new(input: &'a str) -> (lexer: Self)
        ensures
            lexer.wf(),
            lexer.source() == input.spec_bytes(),
            lexer.cursor() == origin(),
            lexer.found() == Seq::<crate::token::TokenView>::empty(),
    {
        let tokens: Vec<Token> = Vec::new();
        proof {
            lemma_views_empty::<Token>();
            assert(tokens@ =~= Seq::<Token>::empty());
        }
        Lexer { input: input.as_bytes(), pos: 0, line: 1, column: 1, tokens }
    }

    /// The byte offset of the next byte to read.
    pub fn position(&self) -> (pos: usize)
        ensures
            pos == self.cursor().pos,
    {
        self.pos
    }

    /// The line of the next byte to read, counted from one.
    pub fn line(&self) -> (line: u32)
        ensures
            line == self.cursor().line,
    {
        self.line
    }

    /// The column of the next byte to read, counted from one.
    pub fn column(&self) -> (column: u32)
        ensures
            column == self.cursor().column,
    {
        self.column
    }

    /// Whether the whole text has been read.
    fn is_eof(&self) -> (end: bool)
        ensures
            end == (self.cursor().pos >= self.source().len()),
    {
        self.pos >= self.input.len()
    }

    /// The byte `offset` places after the next one; beyond the end, zero.
    fn byte(&self, offset: usize) -> (b: u8)
        requires
            self.wf(),
        ensures
            b == byte_at(self.source(), (self.cursor().pos + offset) as nat),
    {
        if offset < self.input.len() - self.pos {
            self.input[self.pos + offset]
        } else {
            0
        }
    }

    /// Moves `n` bytes forward on the line.
    fn forward(&mut self, n: usize)
        requires
            old(self).wf(),
            old(self).cursor().pos + n <= old(self).source().len(),
        ensures
            final(self).wf(),
            final(self).source() == old(self).source(),
            final(self).found() == old(self).found(),
            final(self).cursor() == forward(old(self).cursor(), n as nat),
    {
        let limit = self.input.len();
        self.pos = self.pos + n;
        self.column = if n >= (u32::MAX - self.column) as usize {
            u32::MAX
        } else {
            self.column + n as u32
        };
    }

    /// Moves past the next byte, unless the text has ended.
    fn advance(&mut self)
        requires
            old(self).wf(),
        ensures
            final(self).wf(),
            final(self).source() == old(self).source(),
            final(self).found() == old(self).found(),
            final(self).cursor() == (if old(self).cursor().pos < old(self).source().len() {
                forward(old(self).cursor(), 1)
            } else {
                old(self).cursor()
            }),
    {
        if self.pos < self.input.len() {
            self.forward(1);
        }
    }

    /// Moves past a line break.
    fn break_line(&mut self)
        requires
            old(self).wf(),
            old(self).cursor().pos < old(self).source().len(),
        ensures
            final(self).wf(),
            final(self).source() == old(self).source(),
            final(self).found() == old(self).found(),
            final(self).cursor() == next_line(old(self).cursor()),
    {
        let limit = self.input.len();
        self.pos = self.pos + 1;
        self.line = if self.line == u32::MAX {
            u32::MAX
        } else {
            self.line + 1
        };
        self.column = 1;
    }

    /// Moves past the longest run of bytes of `class`.
    fn skip_run(&mut self, class: ByteClass)
        requires
            old(self).wf(),
        ensures
            final(self).wf(),
            final(self).source() == old(self).source(),
            final(self).found() == old(self).found(),
            final(self).cursor() == forward(
                old(self).cursor(),
                run_length(old(self).source(), old(self).cursor().pos, class),
            ),
    {
        let ghost first = self.cursor();
        while self.pos < self.input.len() && byte_in_class(self.input[self.pos], class)
            invariant
                self.wf(),
                self.source() == old(self).source(),
                self.found() == old(self).found(),
                first == old(self).cursor(),
                first.pos <= self.cursor().pos,
                self.cursor() == forward(first, (self.cursor().pos - first.pos) as nat),
                run_length(self.source(), first.pos, class) == (self.cursor().pos - first.pos)
                    + run_length(self.source(), self.cursor().pos, class),
            decreases self.source().len() - self.cursor().pos,
        {
            self.forward(1);
        }
    }

    /// Moves past blanks, line breaks and comments.
    fn skip_whitespace_and_comments(&mut self)
        requires
            old(self).wf(),
        ensures
            final(self).wf(),
            final(self).source() == old(self).source(),
            final(self).found() == old(self).found(),
            final(self).cursor() == skip_trivia(old(self).source(), old(self).cursor()),
            final(self).cursor().pos >= old(self).cursor().pos,
    {
        loop
            invariant_except_break
                skip_trivia(old(self).source(), old(self).cursor()) == skip_trivia(
                    self.source(),
                    self.cursor(),
                ),
            invariant
                self.wf(),
                self.source() == old(self).source(),
                self.found() == old(self).found(),
                self.cursor().pos >= old(self).cursor().pos,
            ensures
                skip_trivia(old(self).source(), old(self).cursor()) == self.cursor(),
            decreases self.source().len() - self.cursor().pos,
        {
            if self.is_eof() {
                break;
            }
            let b = self.input[self.pos];
            if b == ' ' as u8 || b == '\t' as u8 || b == '\r' as u8 {
                self.forward(1);
            } else if b == '\n' as u8 {
                self.break_line();
            } else if b == '/' as u8 && self.byte(1) == '/' as u8 {
                self.skip_run(ByteClass::Line);
            } else if b == '/' as u8 && self.byte(1) == '*' as u8 {
                self.forward(2);
                self.skip_comment();
            } else {
                break;
            }
        }
    }

    /// Moves to the end of the block comment that the place lies in.
    fn skip_comment(&mut self)
        requires
            old(self).wf(),
        ensures
            final(self).wf(),
            final(self).source() == old(self).source(),
            final(self).found() == old(self).found(),
            final(self).cursor() == comment_end(old(self).source(), old(self).cursor()),
            final(self).cursor().pos >= old(self).cursor().pos,
    {
        loop
            invariant_except_break
                comment_end(old(self).source(), old(self).cursor()) == comment_end(
                    self.source(),
                    self.cursor(),
                ),
            invariant
                self.wf(),
                self.source() == old(self).source(),
                self.found() == old(self).found(),
                self.cursor().pos >= old(self).cursor().pos,
            ensures
                comment_end(old(self).source(), old(self).cursor()) == self.cursor(),
            decreases self.source().len() - self.cursor().pos,
        {
            if self.is_eof() {
                break;
            }
            let b = self.input[self.pos];
            if b == '*' as u8 && self.byte(1) == '/' as u8 {
                self.forward(2);
                break;
            }
            if b == '\n' as u8 {
                self.break_line();
            } else {
                self.forward(1);
            }
        }
    }

    /// Reads a number literal, at its first digit.
    fn scan_number(&mut self) -> (result: Result<TokenKind, Problem>)
        requires
            old(self).wf(),
            old(self).cursor().pos < old(self).source().len(),
        ensures
            final(self).wf(),
            final(self).source() == old(self).source(),
            final(self).found() == old(self).found(),
            outcome_of(result) == number_literal(
                old(self).source(),
                old(self).cursor().pos,
            ).outcome,
            final(self).cursor() == forward(
                old(self).cursor(),
                number_literal(old(self).source(), old(self).cursor().pos).len,
            ),
    {
        let start = self.pos;
        if self.input[start] == '0' as u8 && self.byte(1) == 'x' as u8 {
            self.forward(2);
            self.skip_run(ByteClass::Hexadecimal);
            return match literal_of(self.input, start + 2, self.pos, 16) {
                Some(n) => Ok(TokenKind::IntLiteral(n)),
                None => Err(Problem::InvalidHexadecimal),
            };
        }
        if self.input[start] == '0' as u8 && self.byte(1) == 'b' as u8 {
            self.forward(2);
            self.skip_run(ByteClass::Binary);
            return match literal_of(self.input, start + 2, self.pos, 2) {
                Some(n) => Ok(TokenKind::IntLiteral(n)),
                None => Err(Problem::InvalidBinary),
            };
        }
        self.skip_run(ByteClass::Decimal);
        let next = self.byte(1);
        if self.byte(0) == '.' as u8 && next >= '0' as u8 && next <= '9' as u8 {
            return Err(Problem::FloatLiteral);
        }
        match literal_of(self.input, start, self.pos, 10) {
            Some(n) => Ok(TokenKind::IntLiteral(n)),
            None => Err(Problem::InvalidNumber(digits_of(self.input, start, self.pos))),
        }
    }

    /// Reads a word, at its first byte.
    fn scan_identifier_or_keyword(&mut self) -> (result: Result<TokenKind, Problem>)
        requires
            old(self).wf(),
        ensures
            final(self).wf(),
            final(self).source() == old(self).source(),
            final(self).found() == old(self).found(),
            outcome_of(result) == word(old(self).source(), old(self).cursor().pos).outcome,
            final(self).cursor() == forward(
                old(self).cursor(),
                word(old(self).source(), old(self).cursor().pos).len,
            ),
    {
        let start = self.pos;
        self.skip_run(ByteClass::Word);
        Ok(kind_of_word(text_of(self.input, start, self.pos)))
    }

    /// Reads a string literal, at its opening quote.
    fn scan_string(&mut self) -> (result: Result<TokenKind, Problem>)
        requires
            old(self).wf(),
            old(self).cursor().pos < old(self).source().len(),
        ensures
            final(self).wf(),
            final(self).source() == old(self).source(),
            final(self).found() == old(self).found(),
            outcome_of(result) == string_literal(
                old(self).source(),
                old(self).cursor().pos,
            ).outcome,
            final(self).cursor() == forward(
                old(self).cursor(),
                string_literal(old(self).source(), old(self).cursor().pos).len,
            ),
    {
        let ghost first = self.cursor();
        self.forward(1);
        let mut text = String::new();
        loop
            invariant_except_break
                string_body(self.source(), first.pos + 1, Seq::empty()) == string_body(
                    self.source(),
                    self.cursor().pos,
                    text@,
                ),
            invariant
                self.wf(),
                self.source() == old(self).source(),
                self.found() == old(self).found(),
                first == old(self).cursor(),
                self.cursor().pos > first.pos,
                self.cursor() == forward(first, (self.cursor().pos - first.pos) as nat),
            ensures
                string_body(self.source(), first.pos + 1, Seq::empty()) == StringEnd::Closed(
                    text@,
                    self.cursor().pos,
                ),
            decreases self.source().len() - self.cursor().pos,
        {
            if self.is_eof() {
                return Err(Problem::UnterminatedString);
            }
            let b = self.input[self.pos];
            if b == '"' as u8 {
                self.forward(1);
                break;
            }
            if b == '\\' as u8 {
                self.forward(1);
                if self.is_eof() {
                    return Err(Problem::UnterminatedString);
                }
                let e = self.input[self.pos];
                match escape_of(e, '"' as u8) {
                    Some(c) => {
                        text.push(c);
                        self.forward(1);
                    },
                    None => {
                        return Err(Problem::InvalidEscape(e));
                    },
                }
            } else {
                text.push(b as char);
                self.forward(1);
            }
        }
        Ok(TokenKind::StringLiteral(text))
    }

    /// Reads a character literal, at its opening quote.
    fn scan_char(&mut self) -> (result: Result<TokenKind, Problem>)
        requires
            old(self).wf(),
            old(self).cursor().pos < old(self).source().len(),
        ensures
            final(self).wf(),
            final(self).source() == old(self).source(),
            final(self).found() == old(self).found(),
            outcome_of(result) == character_literal(
                old(self).source(),
                old(self).cursor().pos,
            ).outcome,
            final(self).cursor() == forward(
                old(self).cursor(),
                character_literal(old(self).source(), old(self).cursor().pos).len,
            ),
    {
        self.forward(1);
        if self.is_eof() {
            return Err(Problem::UnterminatedCharacter);
        }
        let b = self.input[self.pos];
        let c = if b == '\\' as u8 {
            self.forward(1);
            if self.is_eof() {
                return Err(Problem::UnterminatedCharacter);
            }
            let e = self.input[self.pos];
            match escape_of(e, '\'' as u8) {
                Some(c) => c,
                None => {
                    return Err(Problem::InvalidCharacterEscape(e));
                },
            }
        } else {
            b as char
        };
        self.forward(1);
        if self.byte(0) != '\'' as u8 {
            return Err(Problem::LongCharacter);
        }
        self.forward(1);
        Ok(TokenKind::CharLiteral(c))
    }

    /// Reads the lexeme at the place, which lies within the text.
    fn next_token_kind(&mut self) -> (result: Result<TokenKind, Problem>)
        requires
            old(self).wf(),
            old(self).cursor().pos < old(self).source().len(),
        ensures
            final(self).wf(),
            final(self).source() == old(self).source(),
            final(self).found() == old(self).found(),
            outcome_of(result) == scan(old(self).source(), old(self).cursor().pos).outcome,
            final(self).cursor() == forward(
                old(self).cursor(),
                scan(old(self).source(), old(self).cursor().pos).len,
            ),
            final(self).cursor().pos <= final(self).source().len(),
    {
        let b = self.input[self.pos];
        if b >= '0' as u8 && b <= '9' as u8 {
            self.scan_number()
        } else if (b >= 'a' as u8 && b <= 'z' as u8) || (b >= 'A' as u8 && b <= 'Z' as u8) || b
            == '_' as u8 {
            self.scan_identifier_or_keyword()
        } else if b == '"' as u8 {
            self.scan_string()
        } else if b == '\'' as u8 {
            self.scan_char()
        } else {
            match operator_of(b, self.byte(1), self.byte(2)) {
                Some((kind, len)) => {
                    self.forward(len);
                    Ok(kind)
                },
                None => {
                    proof {
                        assert(forward(self.cursor(), 0) == self.cursor());
                    }
                    Err(Problem::UnexpectedCharacter(b))
                },
            }
        }
    }

    /// Reads the whole text. Returns the tokens, the last of which is the
    /// end-of-input token, if no error was found; else the messages of all
    /// the errors, in the order of the text.
    pub fn tokenize(self) -> (result: Result<Vec<Token>, Vec<String>>)
        requires
            self.wf(),
        ensures
            ({
                let lexed = lex_from(self.source(), self.cursor(), self.found(), Seq::empty());
                match result {
                    Ok(tokens) => lexed.errors.len() == 0 && views(tokens@) == lexed.tokens
                        && well_formed(tokens@),
                    Err(errors) => errors@.len() > 0 && views(errors@) == lexed.errors,
                }
            }),
    {
        let ghost first = self;
        let mut lexer = self;
        let mut errors: Vec<String> = Vec::new();
        proof {
            lemma_views_empty::<String>();
            assert(errors@ =~= Seq::<String>::empty());
        }
        loop
            invariant_except_break
                lex_from(first.source(), first.cursor(), first.found(), Seq::empty()) == lex_from(
                    lexer.source(),
                    lexer.cursor(),
                    lexer.found(),
                    views(errors@),
                ),
            invariant
                lexer.wf(),
                lexer.source() == first.source(),
            ensures
                lex_from(first.source(), first.cursor(), first.found(), Seq::empty()) == (Lexed {
                    tokens: lexer.found().push(end_token(lexer.cursor())),
                    errors: views(errors@),
                }),
            decreases left(lexer.source(), lexer.cursor().pos),
        {
            let ghost before = lexer.cursor();
            lexer.skip_whitespace_and_comments();
            if lexer.is_eof() {
                break;
            }
            let start = lexer.pos;
            let line = lexer.line;
            let column = lexer.column;
            proof {
                lemma_scan_progress(lexer.source(), lexer.cursor().pos);
            }
            match lexer.next_token_kind() {
                Ok(kind) => {
                    let span = Span::new(start, lexer.pos, line, column);
                    let raw = utf8_lossy(slice_subrange(lexer.input, start, lexer.pos));
                    let token = Token::new(kind, span, raw);
                    proof {
                        lemma_views_push(lexer.tokens@, token);
                    }
                    lexer.tokens.push(token);
                },
                Err(problem) => {
                    let message = problem.message(lexer.line, lexer.column);
                    proof {
                        lemma_views_push(errors@, message);
                    }
                    errors.push(message);
                    lexer.advance();
                },
            }
        }
        let span = Span::new(lexer.pos, lexer.pos, lexer.line, lexer.column);
        let last = Token::new(TokenKind::Eof, span, String::new());
        proof {
            lemma_views_push(lexer.tokens@, last);
        }
        lexer.tokens.push(last);
        if errors.len() == 0 {
            Ok(lexer.tokens)
        } else {
            Err(errors)
        }
    }
}

} // verus!
