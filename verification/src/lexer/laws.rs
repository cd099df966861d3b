//! Laws of the lexical rules.

use vstd::prelude::*;
use crate::lexer::lemma_scan_progress;
use crate::lexer::rules::{
    add_capped, byte_at, comment_end, digit_count, digit_text, digit_value, end_token, escape,
    forward, in_class, is_digit, is_letter, left, lex, lex_from, literal_value, next_line,
    number_literal, origin, radix_value, run_length, scan, skip_trivia, string_body, token,
    ByteClass, Cursor, Lexed, ProblemView, StringEnd,
};
use crate::span::Span;
use crate::token::{TokenKindView, TokenView};

verus! {

/// Whether every byte of `text` is a decimal digit.
pub open spec fn all_digits(text: Seq<u8>) -> bool {
    forall|i: int| 0 <= i < text.len() ==> is_digit(#[trigger] text[i])
}

/// The decimal digits of `n`, most significant first, as bytes.
pub open spec fn decimal_digits(n: nat) -> Seq<u8>
    decreases n,
{
    if n < 10 {
        seq![(48 + n) as u8]
    } else {
        decimal_digits(n / 10).push((48 + n % 10) as u8)
    }
}

/// The decimal digits of a number are digits, and they write that number.
pub proof fn lemma_decimal_digits(n: nat)
    ensures
        decimal_digits(n).len() > 0,
        all_digits(decimal_digits(n)),
        radix_value(decimal_digits(n), 10) == n,
    decreases n,
{
    if n < 10 {
        let s = decimal_digits(n);
        assert(s.drop_last() =~= Seq::<u8>::empty());
        assert(radix_value(s.drop_last(), 10) == 0);
    } else {
        lemma_decimal_digits(n / 10);
        let s = decimal_digits(n);
        assert(s.drop_last() =~= decimal_digits(n / 10));
        assert(s.last() == (48 + n % 10) as u8);
    }
}

/// In a text of digits, the run of digits from any place goes to the end.
proof fn lemma_run_of_digits(text: Seq<u8>, pos: nat)
    requires
        all_digits(text),
        pos <= text.len(),
    ensures
        run_length(text, pos, ByteClass::Decimal) == text.len() - pos,
    decreases text.len() - pos,
{
    if pos < text.len() {
        lemma_run_of_digits(text, pos + 1);
    }
}

/// In a text of digits, every byte counts as a digit.
proof fn lemma_count_of_digits(text: Seq<u8>)
    requires
        all_digits(text),
    ensures
        digit_count(text) == text.len(),
    decreases text.len(),
{
    if text.len() > 0 {
        lemma_count_of_digits(text.drop_last());
    }
}

/// A text of decimal digits is one integer literal, if the number that it
/// writes fits in 32 bits with a sign: the tokens of the text are that
/// literal, with the number as its value, and the end of the input, and
/// there is no error. If the number does not fit, the text is an error,
/// "Invalid number", and no token but the end of the input.
pub proof fn lemma_decimal_literal(text: Seq<u8>)
    requires
        text.len() > 0,
        all_digits(text),
    ensures
        radix_value(text, 10) <= i32::MAX ==> lex(text) == (Lexed {
            tokens: seq![
                token(
                    text,
                    TokenKindView::IntLiteral(radix_value(text, 10) as i32),
                    origin(),
                    text.len(),
                ),
                end_token(forward(origin(), text.len())),
            ],
            errors: Seq::empty(),
        }),
        radix_value(text, 10) > i32::MAX ==> lex(text) == (Lexed {
            tokens: seq![end_token(forward(origin(), text.len()))],
            errors: seq![
                ProblemView::InvalidNumber(digit_text(text)).message(
                    1,
                    add_capped(1, text.len()),
                ),
            ],
        }),
{
    let n = text.len();
    lemma_run_of_digits(text, 0);
    lemma_count_of_digits(text);
    assert(text.subrange(0, n as int) =~= text);
    assert(is_digit(text[0]));
    assert(n > 1 ==> is_digit(text[1]));
    assert(skip_trivia(text, origin()) == origin());
    let found = scan(text, 0);
    assert(found == number_literal(text, 0));
    assert(found.len == n);
    let end = forward(origin(), n);
    assert(skip_trivia(text, end) == end);
    let none = Seq::<TokenView>::empty();
    let quiet = Seq::<Seq<char>>::empty();
    if radix_value(text, 10) <= i32::MAX {
        let literal = token(
            text,
            TokenKindView::IntLiteral(radix_value(text, 10) as i32),
            origin(),
            n,
        );
        assert(lex_from(text, end, none.push(literal), quiet) == (Lexed {
            tokens: none.push(literal).push(end_token(end)),
            errors: quiet,
        }));
        assert(none.push(literal).push(end_token(end)) =~= seq![literal, end_token(end)]);
        assert(lex(text) == lex_from(text, end, none.push(literal), quiet));
    } else {
        let message = ProblemView::InvalidNumber(digit_text(text)).message(1, add_capped(1, n));
        assert(lex_from(text, end, none, quiet.push(message)) == (Lexed {
            tokens: none.push(end_token(end)),
            errors: quiet.push(message),
        }));
        assert(none.push(end_token(end)) =~= seq![end_token(end)]);
        assert(quiet.push(message) =~= seq![message]);
        assert(lex(text) == lex_from(text, end, none, quiet.push(message)));
    }
}

/// The place `cur`, moved `n` bytes on: the line and the column stay.
pub open spec fn moved(cur: Cursor, n: nat) -> Cursor {
    Cursor { pos: cur.pos + n, line: cur.line, column: cur.column }
}

/// The token `t`, moved `n` bytes on.
pub open spec fn moved_token(t: TokenView, n: nat) -> TokenView {
    TokenView {
        kind: t.kind,
        span: Span {
            start: (t.span.start + n) as usize,
            end: (t.span.end + n) as usize,
            line: t.span.line,
            column: t.span.column,
        },
        raw: t.raw,
    }
}

/// The tokens in `tokens`, each moved `n` bytes on.
pub open spec fn moved_tokens(tokens: Seq<TokenView>, n: nat) -> Seq<TokenView> {
    Seq::new(tokens.len(), |i: int| moved_token(tokens[i], n))
}

/// A run of bytes of a class ends within the text.
proof fn lemma_run_within(src: Seq<u8>, pos: nat, class: ByteClass)
    ensures
        pos <= src.len() ==> pos + run_length(src, pos, class) <= src.len(),
    decreases left(src, pos),
{
    if pos < src.len() && in_class(src[pos as int], class) {
        lemma_run_within(src, pos + 1, class);
    }
}

/// A run of bytes after a text is what it is without that text.
proof fn lemma_run_after(a: Seq<u8>, b: Seq<u8>, pos: nat, class: ByteClass)
    ensures
        run_length(a + b, a.len() + pos, class) == run_length(b, pos, class),
    decreases left(b, pos),
{
    if pos < b.len() {
        assert((a + b)[(a.len() + pos) as int] == b[pos as int]);
        if in_class(b[pos as int], class) {
            lemma_run_after(a, b, pos + 1, class);
        }
    }
}

/// A block comment after a text ends where it ends without that text.
proof fn lemma_comment_after(a: Seq<u8>, b: Seq<u8>, cur: Cursor)
    ensures
        comment_end(a + b, moved(cur, a.len())) == moved(comment_end(b, cur), a.len()),
    decreases left(b, cur.pos),
{
    let n = a.len();
    if cur.pos < b.len() {
        assert((a + b)[(n + cur.pos) as int] == b[cur.pos as int]);
        assert(byte_at(a + b, n + cur.pos + 1) == byte_at(b, cur.pos + 1));
        if b[cur.pos as int] == '*' as u8 && byte_at(b, cur.pos + 1) == '/' as u8 {
        } else if b[cur.pos as int] == '\n' as u8 {
            assert(next_line(moved(cur, n)) == moved(next_line(cur), n));
            lemma_comment_after(a, b, next_line(cur));
        } else {
            assert(forward(moved(cur, n), 1) == moved(forward(cur, 1), n));
            lemma_comment_after(a, b, forward(cur, 1));
        }
    }
}

/// A block comment ends at or after the place at which it is entered.
proof fn lemma_comment_ends_later(src: Seq<u8>, cur: Cursor)
    ensures
        comment_end(src, cur).pos >= cur.pos,
    decreases left(src, cur.pos),
{
    if cur.pos < src.len() {
        if src[cur.pos as int] == '*' as u8 && byte_at(src, cur.pos + 1) == '/' as u8 {
        } else if src[cur.pos as int] == '\n' as u8 {
            lemma_comment_ends_later(src, next_line(cur));
        } else {
            lemma_comment_ends_later(src, forward(cur, 1));
        }
    }
}

/// The next lexeme after a text lies where it lies without that text.
proof fn lemma_trivia_after(a: Seq<u8>, b: Seq<u8>, cur: Cursor)
    ensures
        skip_trivia(a + b, moved(cur, a.len())) == moved(skip_trivia(b, cur), a.len()),
    decreases left(b, cur.pos),
{
    let n = a.len();
    let s = a + b;
    if cur.pos < b.len() {
        let c = b[cur.pos as int];
        assert(s[(n + cur.pos) as int] == c);
        assert(byte_at(s, n + cur.pos + 1) == byte_at(b, cur.pos + 1));
        if c == ' ' as u8 || c == '\t' as u8 || c == '\r' as u8 {
            assert(forward(moved(cur, n), 1) == moved(forward(cur, 1), n));
            lemma_trivia_after(a, b, forward(cur, 1));
        } else if c == '\n' as u8 {
            assert(next_line(moved(cur, n)) == moved(next_line(cur), n));
            lemma_trivia_after(a, b, next_line(cur));
        } else if c == '/' as u8 && byte_at(b, cur.pos + 1) == '/' as u8 {
            lemma_run_after(a, b, cur.pos, ByteClass::Line);
            lemma_run_within(b, cur.pos, ByteClass::Line);
            let k = run_length(b, cur.pos, ByteClass::Line);
            assert(forward(moved(cur, n), k) == moved(forward(cur, k), n));
            lemma_trivia_after(a, b, forward(cur, k));
        } else if c == '/' as u8 && byte_at(b, cur.pos + 1) == '*' as u8 {
            assert(forward(moved(cur, n), 2) == moved(forward(cur, 2), n));
            lemma_comment_after(a, b, forward(cur, 2));
            lemma_comment_ends_later(b, forward(cur, 2));
            lemma_trivia_after(a, b, comment_end(b, forward(cur, 2)));
        }
    }
}

/// The next lexeme lies at or after the place from which it is sought.
proof fn lemma_trivia_ends_later(src: Seq<u8>, cur: Cursor)
    ensures
        skip_trivia(src, cur).pos >= cur.pos,
    decreases left(src, cur.pos),
{
    if cur.pos < src.len() {
        let c = src[cur.pos as int];
        if c == ' ' as u8 || c == '\t' as u8 || c == '\r' as u8 {
            lemma_trivia_ends_later(src, forward(cur, 1));
        } else if c == '\n' as u8 {
            lemma_trivia_ends_later(src, next_line(cur));
        } else if c == '/' as u8 && byte_at(src, cur.pos + 1) == '/' as u8 {
            lemma_trivia_ends_later(src, forward(cur, run_length(src, cur.pos, ByteClass::Line)));
        } else if c == '/' as u8 && byte_at(src, cur.pos + 1) == '*' as u8 {
            lemma_comment_ends_later(src, forward(cur, 2));
            lemma_trivia_ends_later(src, comment_end(src, forward(cur, 2)));
        }
    }
}

/// A block comment ends within the text.
proof fn lemma_comment_within(src: Seq<u8>, cur: Cursor)
    requires
        cur.pos <= src.len(),
    ensures
        comment_end(src, cur).pos <= src.len(),
    decreases left(src, cur.pos),
{
    if cur.pos < src.len() {
        if src[cur.pos as int] == '*' as u8 && byte_at(src, cur.pos + 1) == '/' as u8 {
        } else if src[cur.pos as int] == '\n' as u8 {
            lemma_comment_within(src, next_line(cur));
        } else {
            lemma_comment_within(src, forward(cur, 1));
        }
    }
}

/// The next lexeme lies within the text, or at its end.
proof fn lemma_trivia_within(src: Seq<u8>, cur: Cursor)
    requires
        cur.pos <= src.len(),
    ensures
        skip_trivia(src, cur).pos <= src.len(),
    decreases left(src, cur.pos),
{
    if cur.pos < src.len() {
        let c = src[cur.pos as int];
        if c == ' ' as u8 || c == '\t' as u8 || c == '\r' as u8 {
            lemma_trivia_within(src, forward(cur, 1));
        } else if c == '\n' as u8 {
            lemma_trivia_within(src, next_line(cur));
        } else if c == '/' as u8 && byte_at(src, cur.pos + 1) == '/' as u8 {
            lemma_run_within(src, cur.pos, ByteClass::Line);
            lemma_trivia_within(src, forward(cur, run_length(src, cur.pos, ByteClass::Line)));
        } else if c == '/' as u8 && byte_at(src, cur.pos + 1) == '*' as u8 {
            lemma_comment_within(src, forward(cur, 2));
            lemma_comment_ends_later(src, forward(cur, 2));
            lemma_trivia_within(src, comment_end(src, forward(cur, 2)));
        }
    }
}

/// How the body of a string literal ends, moved `n` bytes on.
pub open spec fn moved_end(end: StringEnd, n: nat) -> StringEnd {
    match end {
        StringEnd::Closed(text, at) => StringEnd::Closed(text, at + n),
        StringEnd::Open(at) => StringEnd::Open(at + n),
        StringEnd::BadEscape(b, at) => StringEnd::BadEscape(b, at + n),
    }
}

/// The body of a string literal after a text ends as it ends without that
/// text.
proof fn lemma_string_after(a: Seq<u8>, b: Seq<u8>, pos: nat, found: Seq<char>)
    requires
        pos <= b.len(),
    ensures
        string_body(a + b, a.len() + pos, found) == moved_end(
            string_body(b, pos, found),
            a.len(),
        ),
    decreases left(b, pos),
{
    let n = a.len();
    if pos < b.len() {
        assert((a + b)[(n + pos) as int] == b[pos as int]);
        assert(byte_at(a + b, n + pos + 1) == byte_at(b, pos + 1));
        if b[pos as int] == '"' as u8 {
        } else if b[pos as int] == '\\' as u8 {
            if pos + 1 < b.len() {
                match escape(byte_at(b, pos + 1), '"' as u8) {
                    Some(c) => {
                        lemma_string_after(a, b, pos + 2, found.push(c));
                    },
                    None => {},
                }
            }
        } else {
            lemma_string_after(a, b, pos + 1, found.push(b[pos as int] as char));
        }
    }
}

/// The body of a string literal ends within the text.
proof fn lemma_string_within(src: Seq<u8>, pos: nat, found: Seq<char>)
    requires
        pos <= src.len(),
    ensures
        match string_body(src, pos, found) {
            StringEnd::Closed(_, end) => pos < end <= src.len(),
            StringEnd::Open(end) => pos <= end <= src.len(),
            StringEnd::BadEscape(_, end) => pos < end < src.len(),
        },
    decreases left(src, pos),
{
    if pos < src.len() && src[pos as int] != '"' as u8 {
        if src[pos as int] == '\\' as u8 {
            if pos + 1 < src.len() {
                match escape(byte_at(src, pos + 1), '"' as u8) {
                    Some(c) => {
                        lemma_string_within(src, pos + 2, found.push(c));
                    },
                    None => {},
                }
            }
        } else {
            lemma_string_within(src, pos + 1, found.push(src[pos as int] as char));
        }
    }
}

/// A lexeme ends within the text.
pub proof fn lemma_scan_within(src: Seq<u8>, pos: nat)
    requires
        pos < src.len(),
    ensures
        pos + scan(src, pos).len <= src.len(),
{
    lemma_run_within(src, pos, ByteClass::Decimal);
    lemma_run_within(src, pos, ByteClass::Word);
    lemma_run_within(src, pos + 2, ByteClass::Hexadecimal);
    lemma_run_within(src, pos + 2, ByteClass::Binary);
    lemma_string_within(src, pos + 1, Seq::empty());
}

/// A lexeme after a text is what it is without that text.
proof fn lemma_scan_after(a: Seq<u8>, b: Seq<u8>, pos: nat)
    requires
        pos < b.len(),
    ensures
        scan(a + b, a.len() + pos) == scan(b, pos),
{
    let n = a.len();
    let s = a + b;
    assert(byte_at(s, n + pos) == byte_at(b, pos));
    assert(byte_at(s, n + pos + 1) == byte_at(b, pos + 1));
    assert(byte_at(s, n + pos + 2) == byte_at(b, pos + 2));
    assert(byte_at(s, n + pos + 3) == byte_at(b, pos + 3));
    lemma_run_after(a, b, pos, ByteClass::Decimal);
    lemma_run_after(a, b, pos, ByteClass::Word);
    lemma_run_after(a, b, pos + 2, ByteClass::Hexadecimal);
    lemma_run_after(a, b, pos + 2, ByteClass::Binary);
    lemma_run_within(b, pos, ByteClass::Decimal);
    lemma_run_within(b, pos, ByteClass::Word);
    lemma_run_within(b, pos + 2, ByteClass::Hexadecimal);
    lemma_run_within(b, pos + 2, ByteClass::Binary);
    lemma_string_after(a, b, pos + 1, Seq::empty());
    lemma_string_within(b, pos + 1, Seq::empty());
    let c = byte_at(b, pos);
    if is_digit(c) {
        if c == '0' as u8 && byte_at(b, pos + 1) == 'x' as u8 {
            let len = 2 + run_length(b, pos + 2, ByteClass::Hexadecimal);
            assert(s.subrange((n + pos + 2) as int, (n + pos + len) as int) =~= b.subrange(
                (pos + 2) as int,
                (pos + len) as int,
            ));
        } else if c == '0' as u8 && byte_at(b, pos + 1) == 'b' as u8 {
            let len = 2 + run_length(b, pos + 2, ByteClass::Binary);
            assert(s.subrange((n + pos + 2) as int, (n + pos + len) as int) =~= b.subrange(
                (pos + 2) as int,
                (pos + len) as int,
            ));
        } else {
            let len = run_length(b, pos, ByteClass::Decimal);
            assert(byte_at(s, n + pos + len) == byte_at(b, pos + len));
            assert(byte_at(s, n + pos + len + 1) == byte_at(b, pos + len + 1));
            assert(s.subrange((n + pos) as int, (n + pos + len) as int) =~= b.subrange(
                pos as int,
                (pos + len) as int,
            ));
        }
    } else if is_letter(c) || c == '_' as u8 {
        let len = run_length(b, pos, ByteClass::Word);
        assert(s.subrange((n + pos) as int, (n + pos + len) as int) =~= b.subrange(pos as int, (pos + len) as int));
    }
}

/// What the lexer makes of a text does not depend on the tokens and errors
/// found before: they stand before those that it finds.
pub proof fn lemma_lex_from_adds(
    src: Seq<u8>,
    cur: Cursor,
    tokens: Seq<TokenView>,
    errors: Seq<Seq<char>>,
)
    ensures
        lex_from(src, cur, tokens, errors).tokens == tokens + lex_from(
            src,
            cur,
            Seq::empty(),
            Seq::empty(),
        ).tokens,
        lex_from(src, cur, tokens, errors).errors == errors + lex_from(
            src,
            cur,
            Seq::empty(),
            Seq::empty(),
        ).errors,
    decreases left(src, cur.pos),
{
    let none = Seq::<TokenView>::empty();
    let quiet = Seq::<Seq<char>>::empty();
    let start = skip_trivia(src, cur);
    if start.pos >= src.len() || start.pos < cur.pos {
        assert(tokens.push(end_token(start)) =~= tokens + none.push(end_token(start)));
        assert(errors =~= errors + quiet);
    } else {
        let found = scan(src, start.pos);
        let end = forward(start, found.len);
        match found.outcome {
            Ok(kind) => {
                if found.len == 0 {
                    assert(tokens.push(end_token(start)) =~= tokens + none.push(end_token(start)));
                    assert(errors =~= errors + quiet);
                } else {
                    let t = token(src, kind, start, end.pos);
                    lemma_lex_from_adds(src, end, tokens.push(t), errors);
                    lemma_lex_from_adds(src, end, none.push(t), quiet);
                    let rest = lex_from(src, end, none, quiet);
                    assert(tokens.push(t) + rest.tokens =~= tokens + (none.push(t) + rest.tokens));
                    assert(errors + rest.errors =~= errors + (quiet + rest.errors));
                }
            },
            Err(problem) => {
                let next = if end.pos < src.len() {
                    forward(end, 1)
                } else {
                    end
                };
                let m = problem.message(end.line, end.column);
                lemma_lex_from_adds(src, next, tokens, errors.push(m));
                lemma_lex_from_adds(src, next, none, quiet.push(m));
                let rest = lex_from(src, next, none, quiet);
                assert(errors.push(m) + rest.errors =~= errors + (quiet.push(m) + rest.errors));
                assert(tokens + rest.tokens =~= tokens + (none + rest.tokens));
            },
        }
    }
}

/// No state leaks from one part of a text into the next: what the lexer
/// makes of a text from a place between two lexemes on depends on nothing
/// but the text from that place on, and the line and column counted
/// there. The tokens of `b` after `a` are the tokens of `b` alone, moved by
/// the length of `a`, and the errors are the same.
pub proof fn lemma_lexing_resumes(a: Seq<u8>, b: Seq<u8>, cur: Cursor)
    requires
        a.len() + b.len() <= usize::MAX,
        cur.pos <= b.len(),
    ensures
        lex_from(a + b, moved(cur, a.len()), Seq::empty(), Seq::empty()).tokens == moved_tokens(
            lex_from(b, cur, Seq::empty(), Seq::empty()).tokens,
            a.len(),
        ),
        lex_from(a + b, moved(cur, a.len()), Seq::empty(), Seq::empty()).errors == lex_from(
            b,
            cur,
            Seq::empty(),
            Seq::empty(),
        ).errors,
    decreases left(b, cur.pos),
{
    let n = a.len();
    let s = a + b;
    let none = Seq::<TokenView>::empty();
    let quiet = Seq::<Seq<char>>::empty();
    let start = skip_trivia(b, cur);
    lemma_trivia_after(a, b, cur);
    lemma_trivia_ends_later(b, cur);
    lemma_trivia_within(b, cur);
    if start.pos >= b.len() {
        assert(none.push(end_token(moved(start, n))) =~= moved_tokens(
            none.push(end_token(start)),
            n,
        ));
    } else {
        lemma_scan_after(a, b, start.pos);
        lemma_scan_within(b, start.pos);
        let found = scan(b, start.pos);
        let end = forward(start, found.len);
        assert(forward(moved(start, n), found.len) == moved(end, n));
        match found.outcome {
            Ok(kind) => {
                if found.len == 0 {
                    assert(none.push(end_token(moved(start, n))) =~= moved_tokens(
                        none.push(end_token(start)),
                        n,
                    ));
                } else {
                    let t = token(b, kind, start, end.pos);
                    let u = token(s, kind, moved(start, n), end.pos + n);
                    assert(s.subrange((n + start.pos) as int, (n + end.pos) as int) =~= b.subrange(
                        start.pos as int,
                        end.pos as int,
                    ));
                    assert(u == moved_token(t, n));
                    lemma_lexing_resumes(a, b, end);
                    lemma_lex_from_adds(s, moved(end, n), none.push(u), quiet);
                    lemma_lex_from_adds(b, end, none.push(t), quiet);
                    let rest = lex_from(b, end, none, quiet).tokens;
                    assert(none.push(u) + moved_tokens(rest, n) =~= moved_tokens(
                        none.push(t) + rest,
                        n,
                    ));
                }
            },
            Err(problem) => {
                let next = if end.pos < b.len() {
                    forward(end, 1)
                } else {
                    end
                };
                assert((if end.pos + n < s.len() {
                    forward(moved(end, n), 1)
                } else {
                    moved(end, n)
                }) == moved(next, n));
                let m = problem.message(end.line, end.column);
                lemma_lexing_resumes(a, b, next);
                lemma_lex_from_adds(s, moved(next, n), none, quiet.push(m));
                lemma_lex_from_adds(b, next, none, quiet.push(m));
                let rest = lex_from(b, next, none, quiet).tokens;
                assert(none + moved_tokens(rest, n) =~= moved_tokens(none + rest, n));
            },
        }
    }
}

/// Whether the block comment that `cur` lies in is closed by a `*/`.
pub open spec fn comment_closed(src: Seq<u8>, cur: Cursor) -> bool
    decreases left(src, cur.pos),
{
    if cur.pos >= src.len() {
        false
    } else if src[cur.pos as int] == '*' as u8 && byte_at(src, cur.pos + 1) == '/' as u8 {
        true
    } else if src[cur.pos as int] == '\n' as u8 {
        comment_closed(src, next_line(cur))
    } else {
        comment_closed(src, forward(cur, 1))
    }
}

/// Whether the blanks and comments from `cur` on end with a block comment
/// that is not closed.
pub open spec fn trivia_open(src: Seq<u8>, cur: Cursor) -> bool
    decreases left(src, cur.pos),
{
    let b = byte_at(src, cur.pos);
    if cur.pos >= src.len() {
        false
    } else if b == ' ' as u8 || b == '\t' as u8 || b == '\r' as u8 {
        trivia_open(src, forward(cur, 1))
    } else if b == '\n' as u8 {
        trivia_open(src, next_line(cur))
    } else if b == '/' as u8 && byte_at(src, cur.pos + 1) == '/' as u8 {
        trivia_open(src, forward(cur, run_length(src, cur.pos, ByteClass::Line)))
    } else if b == '/' as u8 && byte_at(src, cur.pos + 1) == '*' as u8 {
        let end = comment_end(src, forward(cur, 2));
        !comment_closed(src, forward(cur, 2)) || (end.pos > cur.pos && trivia_open(src, end))
    } else {
        false
    }
}

/// Whether the text from `cur` on, where the lexer stands between two
/// lexemes, ends within a block comment.
pub open spec fn ends_in_comment(src: Seq<u8>, cur: Cursor) -> bool
    decreases left(src, cur.pos),
{
    let start = skip_trivia(src, cur);
    if trivia_open(src, cur) {
        true
    } else if start.pos >= src.len() || start.pos < cur.pos {
        false
    } else {
        let found = scan(src, start.pos);
        let end = forward(start, found.len);
        match found.outcome {
            Ok(_) => found.len > 0 && ends_in_comment(src, end),
            Err(_) => ends_in_comment(
                src,
                if end.pos < src.len() {
                    forward(end, 1)
                } else {
                    end
                },
            ),
        }
    }
}

/// The place at which the lexer, reading `src` from `cur`, comes to the end
/// of the text: that of the end-of-input token.
pub open spec fn end_place(src: Seq<u8>, cur: Cursor) -> Cursor {
    let last = lex_from(src, cur, Seq::empty(), Seq::empty()).tokens.last();
    Cursor { pos: src.len(), line: last.span.line, column: last.span.column }
}

/// In a text that ends with a byte outside a class, a run of bytes of the
/// class is not changed by what follows the text.
proof fn lemma_run_before(a: Seq<u8>, b: Seq<u8>, pos: nat, class: ByteClass)
    requires
        a.len() > 0,
        !in_class(a.last(), class),
        pos < a.len(),
    ensures
        run_length(a + b, pos, class) == run_length(a, pos, class),
        pos + run_length(a, pos, class) < a.len(),
    decreases left(a, pos),
{
    assert((a + b)[pos as int] == a[pos as int]);
    if in_class(a[pos as int], class) {
        lemma_run_before(a, b, pos + 1, class);
    }
}

/// A block comment that is closed within a text is not changed by what
/// follows the text.
proof fn lemma_comment_before(a: Seq<u8>, b: Seq<u8>, cur: Cursor)
    requires
        comment_closed(a, cur),
    ensures
        comment_end(a + b, cur) == comment_end(a, cur),
        comment_end(a, cur).pos <= a.len(),
    decreases left(a, cur.pos),
{
    if cur.pos < a.len() {
        assert((a + b)[cur.pos as int] == a[cur.pos as int]);
        if a[cur.pos as int] == '*' as u8 && byte_at(a, cur.pos + 1) == '/' as u8 {
            assert(cur.pos + 1 < a.len());
            assert((a + b)[(cur.pos + 1) as int] == a[(cur.pos + 1) as int]);
        } else {
            assert(comment_closed(a, next_line(cur)) || comment_closed(a, forward(cur, 1)));
            assert(cur.pos + 1 < a.len());
            assert((a + b)[(cur.pos + 1) as int] == a[(cur.pos + 1) as int]);
            if a[cur.pos as int] == '\n' as u8 {
                lemma_comment_before(a, b, next_line(cur));
            } else {
                lemma_comment_before(a, b, forward(cur, 1));
            }
        }
    }
}

/// Blanks and comments are passed over from any place within them to the
/// same end.
proof fn lemma_trivia_again(src: Seq<u8>, cur: Cursor)
    ensures
        skip_trivia(src, skip_trivia(src, cur)) == skip_trivia(src, cur),
    decreases left(src, cur.pos),
{
    if cur.pos < src.len() {
        let c = src[cur.pos as int];
        if c == ' ' as u8 || c == '\t' as u8 || c == '\r' as u8 {
            lemma_trivia_again(src, forward(cur, 1));
        } else if c == '\n' as u8 {
            lemma_trivia_again(src, next_line(cur));
        } else if c == '/' as u8 && byte_at(src, cur.pos + 1) == '/' as u8 {
            lemma_trivia_again(src, forward(cur, run_length(src, cur.pos, ByteClass::Line)));
        } else if c == '/' as u8 && byte_at(src, cur.pos + 1) == '*' as u8 {
            let end = comment_end(src, forward(cur, 2));
            if end.pos > cur.pos {
                lemma_trivia_again(src, end);
            }
        }
    }
}

/// In a text that ends with a line break, the blanks and comments before a
/// lexeme are not changed by what follows the text, unless they end with a
/// block comment that is not closed; and where they reach the end of the
/// text, they go on into what follows.
proof fn lemma_trivia_before(a: Seq<u8>, b: Seq<u8>, cur: Cursor)
    requires
        a.len() > 0,
        a.last() == '\n' as u8,
        cur.pos <= a.len(),
        !trivia_open(a, cur),
    ensures
        skip_trivia(a + b, cur) == skip_trivia(a + b, skip_trivia(a, cur)),
        skip_trivia(a, cur).pos < a.len() ==> skip_trivia(a + b, cur) == skip_trivia(a, cur),
    decreases left(a, cur.pos),
{
    let s = a + b;
    if cur.pos < a.len() {
        let c = a[cur.pos as int];
        assert(s[cur.pos as int] == c);
        if cur.pos + 1 < a.len() {
            assert(s[(cur.pos + 1) as int] == a[(cur.pos + 1) as int]);
        }
        if c == ' ' as u8 || c == '\t' as u8 || c == '\r' as u8 {
            lemma_trivia_before(a, b, forward(cur, 1));
        } else if c == '\n' as u8 {
            lemma_trivia_before(a, b, next_line(cur));
        } else if c == '/' as u8 && byte_at(a, cur.pos + 1) == '/' as u8 {
            lemma_run_before(a, b, cur.pos, ByteClass::Line);
            lemma_trivia_before(a, b, forward(cur, run_length(a, cur.pos, ByteClass::Line)));
        } else if c == '/' as u8 && byte_at(a, cur.pos + 1) == '*' as u8 {
            lemma_comment_before(a, b, forward(cur, 2));
            lemma_comment_ends_later(a, forward(cur, 2));
            lemma_trivia_before(a, b, comment_end(a, forward(cur, 2)));
        } else {
            assert(skip_trivia(a, cur) == cur);
            assert(skip_trivia(s, cur) == cur);
        }
    } else {
        assert(skip_trivia(a, cur) == cur);
    }
}

/// The body of a string literal that ends within a text is not changed by
/// what follows the text.
proof fn lemma_string_before(a: Seq<u8>, b: Seq<u8>, pos: nat, found: Seq<char>)
    requires
        pos <= a.len(),
        !(string_body(a, pos, found) is Open),
    ensures
        string_body(a + b, pos, found) == string_body(a, pos, found),
    decreases left(a, pos),
{
    if pos < a.len() {
        assert((a + b)[pos as int] == a[pos as int]);
        if a[pos as int] == '"' as u8 {
        } else if a[pos as int] == '\\' as u8 {
            if pos + 1 < a.len() {
                assert((a + b)[(pos + 1) as int] == a[(pos + 1) as int]);
                match escape(byte_at(a, pos + 1), '"' as u8) {
                    Some(c) => {
                        lemma_string_before(a, b, pos + 2, found.push(c));
                    },
                    None => {},
                }
            }
        } else {
            lemma_string_before(a, b, pos + 1, found.push(a[pos as int] as char));
        }
    }
}

/// In a text that ends with a line break, a lexeme that is read without a
/// problem is not changed by what follows the text.
proof fn lemma_scan_before(a: Seq<u8>, b: Seq<u8>, pos: nat)
    requires
        a.len() > 0,
        a.last() == '\n' as u8,
        pos < a.len(),
        scan(a, pos).outcome is Ok,
    ensures
        scan(a + b, pos) == scan(a, pos),
{
    let s = a + b;
    let n = a.len();
    assert forall|q: nat| q < n implies byte_at(s, q) == byte_at(a, q) by {
        assert(s[q as int] == a[q as int]);
    }
    assert(byte_at(a, (n - 1) as nat) == '\n' as u8);
    lemma_run_before(a, b, pos, ByteClass::Decimal);
    lemma_run_before(a, b, pos, ByteClass::Word);
    lemma_scan_within(a, pos);
    let c = byte_at(a, pos);
    assert(byte_at(s, pos) == c);
    if is_digit(c) {
        assert(pos + 1 < n);
        assert(byte_at(s, pos + 1) == byte_at(a, pos + 1));
        if c == '0' as u8 && (byte_at(a, pos + 1) == 'x' as u8 || byte_at(a, pos + 1)
            == 'b' as u8) {
            assert(pos + 2 < n);
            lemma_run_before(a, b, pos + 2, ByteClass::Hexadecimal);
            lemma_run_before(a, b, pos + 2, ByteClass::Binary);
            let len = scan(a, pos).len;
            assert(s.subrange((pos + 2) as int, (pos + len) as int) =~= a.subrange(
                (pos + 2) as int,
                (pos + len) as int,
            ));
        } else {
            let len = run_length(a, pos, ByteClass::Decimal);
            assert(pos + len < n);
            assert(byte_at(s, pos + len) == byte_at(a, pos + len));
            if pos + len + 1 < n {
                assert(byte_at(s, pos + len + 1) == byte_at(a, pos + len + 1));
            }
            assert(s.subrange(pos as int, (pos + len) as int) =~= a.subrange(
                pos as int,
                (pos + len) as int,
            ));
        }
    } else if is_letter(c) || c == '_' as u8 {
        let len = run_length(a, pos, ByteClass::Word);
        assert(s.subrange(pos as int, (pos + len) as int) =~= a.subrange(
            pos as int,
            (pos + len) as int,
        ));
    } else if c == '"' as u8 {
        lemma_string_before(a, b, pos + 1, Seq::empty());
    } else if c == '\'' as u8 {
        if pos + 1 < n {
            assert(byte_at(s, pos + 1) == byte_at(a, pos + 1));
        }
        if pos + 2 < n {
            assert(byte_at(s, pos + 2) == byte_at(a, pos + 2));
        }
        if pos + 3 < n {
            assert(byte_at(s, pos + 3) == byte_at(a, pos + 3));
        }
    } else {
        assert(pos + 1 < n);
        assert(byte_at(s, pos + 1) == byte_at(a, pos + 1));
        if pos + 2 < n {
            assert(byte_at(s, pos + 2) == byte_at(a, pos + 2));
        }
    }
}

/// The lexer finds at least the end of the input.
proof fn lemma_some_token(src: Seq<u8>, cur: Cursor)
    ensures
        lex_from(src, cur, Seq::empty(), Seq::empty()).tokens.len() > 0,
    decreases left(src, cur.pos),
{
    let none = Seq::<TokenView>::empty();
    let quiet = Seq::<Seq<char>>::empty();
    let start = skip_trivia(src, cur);
    if start.pos >= src.len() || start.pos < cur.pos {
    } else {
        let found = scan(src, start.pos);
        let end = forward(start, found.len);
        match found.outcome {
            Ok(kind) => {
                if found.len > 0 {
                    lemma_lex_from_adds(
                        src,
                        end,
                        none.push(token(src, kind, start, end.pos)),
                        quiet,
                    );
                }
            },
            Err(problem) => {
                let next = if end.pos < src.len() {
                    forward(end, 1)
                } else {
                    end
                };
                lemma_some_token(src, next);
                lemma_lex_from_adds(
                    src,
                    next,
                    none,
                    quiet.push(problem.message(end.line, end.column)),
                );
            },
        }
    }
}

/// In a text that ends with a line break, has no error and does not end
/// within a block comment, the lexer is not changed by what follows the
/// text, up to the end of the text: it finds the same tokens, but for the
/// end of the input, and comes to stand at the end of the text, at the line
/// and column that it counts there.
proof fn lemma_lexing_before(
    a: Seq<u8>,
    b: Seq<u8>,
    cur: Cursor,
    tokens: Seq<TokenView>,
    errors: Seq<Seq<char>>,
)
    requires
        a.len() > 0,
        a.last() == '\n' as u8,
        cur.pos <= a.len(),
        lex_from(a, cur, Seq::empty(), Seq::empty()).errors.len() == 0,
        !ends_in_comment(a, cur),
    ensures
        lex_from(a + b, cur, tokens, errors) == lex_from(
            a + b,
            end_place(a, cur),
            tokens + lex_from(a, cur, Seq::empty(), Seq::empty()).tokens.drop_last(),
            errors,
        ),
    decreases left(a, cur.pos),
{
    let s = a + b;
    let none = Seq::<TokenView>::empty();
    let quiet = Seq::<Seq<char>>::empty();
    let start = skip_trivia(a, cur);
    lemma_trivia_before(a, b, cur);
    lemma_trivia_ends_later(a, cur);
    lemma_trivia_within(a, cur);
    lemma_trivia_ends_later(s, cur);
    lemma_trivia_ends_later(s, start);
    if start.pos >= a.len() {
        assert(end_place(a, cur) == start);
        assert(none.push(end_token(start)).drop_last() =~= none);
        assert(tokens + none =~= tokens);
    } else {
        let found = scan(a, start.pos);
        let end = forward(start, found.len);
        lemma_scan_progress(a, start.pos);
        lemma_scan_within(a, start.pos);
        match found.outcome {
            Ok(kind) => {
                lemma_scan_before(a, b, start.pos);
                let t = token(a, kind, start, end.pos);
                assert(s.subrange(start.pos as int, end.pos as int) =~= a.subrange(
                    start.pos as int,
                    end.pos as int,
                ));
                assert(token(s, kind, start, end.pos) == t);
                lemma_lex_from_adds(a, end, none.push(t), quiet);
                lemma_some_token(a, end);
                let rest = lex_from(a, end, none, quiet);
                assert(quiet + rest.errors =~= rest.errors);
                lemma_lexing_before(a, b, end, tokens.push(t), errors);
                assert((none.push(t) + rest.tokens).last() == rest.tokens.last());
                assert(end_place(a, cur) == end_place(a, end));
                assert(tokens.push(t) + rest.tokens.drop_last() =~= tokens + (none.push(t)
                    + rest.tokens).drop_last());
            },
            Err(problem) => {
                let next = if end.pos < a.len() {
                    forward(end, 1)
                } else {
                    end
                };
                lemma_lex_from_adds(
                    a,
                    next,
                    none,
                    quiet.push(problem.message(end.line, end.column)),
                );
            },
        }
    }
}

/// Two texts one after the other: if the first ends with a line break, has
/// no error and does not end within a block comment, the tokens of the two
/// together are the tokens of the first, but for its end of the input, and
/// then the tokens of the second, read on its own from the place where the
/// first ends and moved by the length of the first; and the errors are
/// those of the second.
pub proof fn lemma_concatenation(a: Seq<u8>, b: Seq<u8>)
    requires
        a.len() + b.len() <= usize::MAX,
        a.len() > 0,
        a.last() == '\n' as u8,
        lex(a).errors.len() == 0,
        !ends_in_comment(a, origin()),
    ensures
        ({
            let first = lex(a);
            let second = lex_from(
                b,
                Cursor {
                    pos: 0,
                    line: first.tokens.last().span.line,
                    column: first.tokens.last().span.column,
                },
                Seq::empty(),
                Seq::empty(),
            );
            &&& lex(a + b).tokens == first.tokens.drop_last() + moved_tokens(
                second.tokens,
                a.len(),
            )
            &&& lex(a + b).errors == second.errors
        }),
{
    let none = Seq::<TokenView>::empty();
    let quiet = Seq::<Seq<char>>::empty();
    let first = lex(a);
    let place = Cursor {
        pos: 0,
        line: first.tokens.last().span.line,
        column: first.tokens.last().span.column,
    };
    lemma_lexing_before(a, b, origin(), none, quiet);
    assert(end_place(a, origin()) == moved(place, a.len()));
    assert(none + first.tokens.drop_last() =~= first.tokens.drop_last());
    lemma_lex_from_adds(a + b, moved(place, a.len()), first.tokens.drop_last(), quiet);
    lemma_lexing_resumes(a, b, place);
    let second = lex_from(b, place, none, quiet);
    assert(quiet + second.errors =~= second.errors);
}

} // verus!
