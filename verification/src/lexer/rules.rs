//! The scanning rules, as mathematical functions of the source bytes.
//!
//! At every position the rules are tried in a fixed order and the first
//! that applies decides: the position is skipped over, a token is emitted,
//! or scanning fails.

use crate::error::{ErrorKindView, ErrorView};
use crate::lexer::text::{char_at, peek, run_end, starts_with, width_at};
use crate::lexer::token::{is_symbol, keyword_kind, operator_kind, TokenKindView, TokenView};
use vstd::prelude::*;
use vstd::string::*;
use vstd::utf8::*;

verus! {

/// Characters with the Unicode property `White_Space`.
pub open spec fn is_whitespace(c: char) -> bool {
    let n = c as u32;
    ||| 0x09 <= n <= 0x0d
    ||| n == 0x20
    ||| n == 0x85
    ||| n == 0xa0
    ||| n == 0x1680
    ||| 0x2000 <= n <= 0x200a
    ||| n == 0x2028
    ||| n == 0x2029
    ||| n == 0x202f
    ||| n == 0x205f
    ||| n == 0x3000
}

/// The decimal digits.
pub open spec fn is_digit(c: char) -> bool {
    '0' <= c <= '9'
}

/// Characters that may begin an identifier.
pub open spec fn is_ident_start(c: char) -> bool {
    ||| 'a' <= c <= 'z'
    ||| 'A' <= c <= 'Z'
    ||| c == '_'
}

/// Characters that may continue an identifier.
pub open spec fn is_ident_continue(c: char) -> bool {
    is_ident_start(c) || is_digit(c)
}

/// Bytes that continue an identifier.
pub open spec fn ident_byte() -> spec_fn(u8) -> bool {
    |b: u8| is_ident_continue(b as char)
}

/// Bytes that continue a number.
pub open spec fn digit_byte() -> spec_fn(u8) -> bool {
    |b: u8| is_digit(b as char)
}

/// Bytes that continue a line comment: all but the line feed.
pub open spec fn line_byte() -> spec_fn(u8) -> bool {
    |b: u8| b != 0x0a
}

/// Bytes that continue a string literal: all but the double quote.
pub open spec fn string_byte() -> spec_fn(u8) -> bool {
    |b: u8| b != 0x22
}

/// The position just after the first `*/` that starts at or after `pos`,
/// if there is one.
pub open spec fn comment_end(src: Seq<u8>, pos: int) -> Option<int>
    decreases src.len() - pos,
{
    if pos < 0 || pos + 2 > src.len() {
        None
    } else if src[pos] == 0x2a && src[pos + 1] == 0x2f {
        Some(pos + 2)
    } else {
        comment_end(src, pos + 1)
    }
}

/// The number that a string of decimal digits denotes.
pub open spec fn decimal_value(digits: Seq<u8>) -> nat
    decreases digits.len(),
{
    if digits.len() == 0 {
        0
    } else {
        decimal_value(digits.drop_last()) * 10 + (digits.last() - 0x30) as nat
    }
}

/// Whether `c` has the Unicode property `White_Space`.
pub fn is_space(c: char) -> (r: bool)
    ensures
        r == is_whitespace(c),
{
    let n = c as u32;
    (0x09 <= n && n <= 0x0d) || n == 0x20 || n == 0x85 || n == 0xa0 || n == 0x1680 || (0x2000 <= n
        && n <= 0x200a) || n == 0x2028 || n == 0x2029 || n == 0x202f || n == 0x205f || n == 0x3000
}

/// Whether `c` is a decimal digit.
pub fn is_decimal(c: char) -> (r: bool)
    ensures
        r == is_digit(c),
{
    '0' <= c && c <= '9'
}

/// Whether `c` may begin an identifier.
pub fn begins_ident(c: char) -> (r: bool)
    ensures
        r == is_ident_start(c),
{
    ('a' <= c && c <= 'z') || ('A' <= c && c <= 'Z') || c == '_'
}

/// Whether `c` may continue an identifier.
pub fn continues_ident(c: char) -> (r: bool)
    ensures
        r == is_ident_continue(c),
{
    begins_ident(c) || is_decimal(c)
}

/// What the scanner does at one position of the source.
#[allow(inconsistent_fields)]
pub enum Step {
    /// Whitespace or a comment: scanning goes on at `next`.
    Skip { next: int },
    /// A token that ends before `end`, where scanning goes on.
    Emit { kind: TokenKindView, end: int },
    /// Scanning stops with an error.
    Fail { kind: ErrorKindView },
}

/// A character literal that opens at `pos`: a quote, one character, and a
/// quote.  Its value is the character's code point.
pub open spec fn char_literal(src: Seq<u8>, pos: int) -> Step {
    let inner = pos + 1;
    let close = inner + width_at(src, inner);
    if inner < src.len() && close < src.len() && src[close] == 0x27 {
        Step::Emit { kind: TokenKindView::Number(char_at(src, inner) as i64), end: close + 1 }
    } else {
        Step::Fail { kind: ErrorKindView::UnterminatedCharLiteral }
    }
}

/// A string literal that opens at `pos`: everything up to the next double
/// quote, taken as it stands.
pub open spec fn string_literal(src: Seq<u8>, pos: int) -> Step {
    let close = run_end(src, pos + 1, string_byte());
    if close < src.len() {
        Step::Emit {
            kind: TokenKindView::Str(decode_utf8(src.subrange(pos + 1, close))),
            end: close + 1,
        }
    } else {
        Step::Fail { kind: ErrorKindView::UnterminatedStringLiteral }
    }
}

/// The kind of a token spelled like an identifier: the keyword of that
/// spelling, or an identifier holding the text.
pub open spec fn word_kind(text: Seq<u8>) -> TokenKindView {
    match keyword_kind(text) {
        Some(keyword) => keyword,
        None => TokenKindView::Ident(decode_utf8(text)),
    }
}

/// An identifier or keyword that starts at `pos`: the longest run of
/// identifier characters.
pub open spec fn word(src: Seq<u8>, pos: int) -> Step {
    let end = run_end(src, pos, ident_byte());
    Step::Emit { kind: word_kind(src.subrange(pos, end)), end }
}

/// A number that starts at `pos`: the longest run of decimal digits.
pub open spec fn number(src: Seq<u8>, pos: int) -> Step {
    let end = run_end(src, pos, digit_byte());
    let value = decimal_value(src.subrange(pos, end));
    if value <= i64::MAX {
        Step::Emit { kind: TokenKindView::Number(value as i64), end }
    } else {
        Step::Fail { kind: ErrorKindView::NumericOverflow }
    }
}

/// A block comment that opens at `pos`.
pub open spec fn block_comment(src: Seq<u8>, pos: int) -> Step {
    match comment_end(src, pos + 2) {
        Some(next) => Step::Skip { next },
        None => Step::Fail { kind: ErrorKindView::UnterminatedComment },
    }
}

/// The operator spelled by the next `n` bytes from `pos`, if they spell
/// one.
pub open spec fn operator(src: Seq<u8>, pos: int, n: int) -> Option<Step> {
    let text = peek(src, pos, n);
    match operator_kind(text) {
        Some(kind) => Some(Step::Emit { kind, end: pos + text.len() }),
        None => None,
    }
}

/// Whitespace and comments: what the scanner does at byte `pos` where one
/// of them starts there, and `None` where none does.
pub open spec fn trivia_at(src: Seq<u8>, pos: int) -> Option<Step> {
    if is_whitespace(char_at(src, pos)) {
        Some(Step::Skip { next: pos + width_at(src, pos) })
    } else if starts_with(src, pos, "//".spec_bytes()) {
        Some(Step::Skip { next: run_end(src, pos, line_byte()) })
    } else if starts_with(src, pos, "/*".spec_bytes()) {
        Some(block_comment(src, pos))
    } else {
        None
    }
}

/// The token that starts at byte `pos`, or the failure to read one.
/// Operators of three characters are tried before those of two, and these
/// before the single-character symbols, so that the longest spelling wins.
pub open spec fn token_at(src: Seq<u8>, pos: int) -> Step {
    let c = char_at(src, pos);
    if c == '\'' {
        char_literal(src, pos)
    } else if c == '"' {
        string_literal(src, pos)
    } else if operator(src, pos, 3) is Some {
        operator(src, pos, 3)->0
    } else if operator(src, pos, 2) is Some {
        operator(src, pos, 2)->0
    } else if is_symbol(c) {
        Step::Emit { kind: TokenKindView::Symbol(c), end: pos + 1 }
    } else if is_ident_start(c) {
        word(src, pos)
    } else if is_digit(c) {
        number(src, pos)
    } else {
        Step::Fail { kind: ErrorKindView::UnrecognizedCharacter(c) }
    }
}

/// What the scanner does at byte `pos` of `src`: whitespace and comments
/// are skipped, and anything else has to be a token.
pub open spec fn step_at(src: Seq<u8>, pos: int) -> Step {
    match trivia_at(src, pos) {
        Some(step) => step,
        None => token_at(src, pos),
    }
}

/// The outcome of scanning: the tokens read before scanning ended, and the
/// error that ended it, if one did.
pub struct Scan {
    pub tokens: Seq<TokenView>,
    pub error: Option<ErrorView>,
}

/// The outcome of scanning `src` from byte `pos` to its end.
///
/// Every step has to move forward and stay inside the text.  On
/// well-formed text, from a position between two characters, every step
/// does; elsewhere scanning ends where a step does not.
pub open spec fn scan_from(src: Seq<u8>, pos: int) -> Scan
    decreases src.len() - pos,
{
    if pos < 0 || pos >= src.len() {
        Scan { tokens: Seq::empty(), error: None }
    } else {
        match step_at(src, pos) {
            Step::Skip { next } => {
                if pos < next <= src.len() {
                    scan_from(src, next)
                } else {
                    Scan { tokens: Seq::empty(), error: None }
                }
            },
            Step::Emit { kind, end } => {
                if pos < end <= src.len() {
                    let rest = scan_from(src, end);
                    Scan {
                        tokens: seq![TokenView { kind, start: pos, end }] + rest.tokens,
                        error: rest.error,
                    }
                } else {
                    Scan { tokens: Seq::empty(), error: None }
                }
            },
            Step::Fail { kind } => Scan {
                tokens: Seq::empty(),
                error: Some(ErrorView { kind, offset: pos }),
            },
        }
    }
}

/// The outcome of scanning the whole of `src`.
pub open spec fn scan_all(src: Seq<u8>) -> Scan {
    scan_from(src, 0)
}

} // verus!
