//! What holds of the scanning rules on every input.
//!
//! The lemmas here are stated over the functions of the rules alone, so
//! they hold of whatever the scanner returns.

use crate::lexer::rules::{
    comment_end, digit_byte, ident_byte, is_digit, is_ident_continue, is_ident_start,
    is_whitespace, line_byte, operator, scan_all, scan_from, step_at, string_byte, token_at,
    trivia_at, word_kind, Scan, Step,
};
use crate::lexer::text::{
    char_at, lemma_ascii_at, lemma_boundary_around_ascii, lemma_boundary_at_end,
    lemma_boundary_step, lemma_non_ascii_at, lemma_run_end, peek, run_end, starts_with,
    width_at,
};
use crate::lexer::token::{is_symbol, keyword_kind, operator_kind, TokenKindView, TokenView};
use vstd::prelude::*;
use vstd::string::*;
use vstd::utf8::*;

verus! {

/// The bytes of a text of ASCII characters are those characters.
pub proof fn lemma_ascii_literal(s: &str)
    requires
        is_ascii_chars(s@),
    ensures
        s.spec_bytes().len() == s@.len(),
        forall|i: int|
            0 <= i < s@.len() ==> #[trigger] s.spec_bytes()[i] == s@[i] as u8 && s.spec_bytes()[i]
                < 0x80,
{
    is_ascii_chars_encode_utf8(s@);
    is_ascii_chars_nat_bound(s@);
}

/// The characters of a text of ASCII bytes are those bytes.
pub proof fn lemma_decode_ascii(text: Seq<u8>)
    requires
        forall|i: int| 0 <= i < text.len() ==> #[trigger] text[i] < 0x80,
    ensures
        decode_utf8(text) == text.map_values(|b: u8| b as char),
{
    let chars = text.map_values(|b: u8| b as char);
    assert(is_ascii_chars(chars)) by {
        assert forall|i: int| 0 <= i < chars.len() implies '\0' <= #[trigger] chars[i]
            <= '\u{7f}' by {
            assert(text[i] < 0x80);
        }
    }
    is_ascii_chars_encode_utf8(chars);
    assert(encode_utf8(chars) =~= text) by {
        assert forall|i: int| 0 <= i < text.len() implies encode_utf8(chars)[i] == text[i] by {
            assert(chars[i] as u8 == encode_utf8(chars)[i]);
            assert(text[i] < 0x80);
        }
    }
    encode_utf8_decode_utf8(chars);
}

/// The two bytes that open a line comment, and the two that open a block
/// comment.
pub proof fn lemma_comment_openers()
    ensures
        "//".spec_bytes() =~= seq![0x2fu8, 0x2fu8],
        "/*".spec_bytes() =~= seq![0x2fu8, 0x2au8],
{
    reveal_strlit("//");
    reveal_strlit("/*");
    lemma_ascii_literal("//");
    lemma_ascii_literal("/*");
}

/// The characters that begin an operator.
pub open spec fn is_operator_start(c: char) -> bool {
    ||| c == '<'
    ||| c == '>'
    ||| c == '!'
    ||| c == '&'
    ||| c == '+'
    ||| c == '-'
    ||| c == '='
    ||| c == '|'
    ||| c == '*'
    ||| c == '/'
    ||| c == '%'
    ||| c == '^'
}

/// Every operator is spelled with two or three ASCII bytes, begins with a
/// symbol, opens no comment, and is a kind of its own.
pub proof fn lemma_operator_text(text: Seq<u8>)
    requires
        operator_kind(text) is Some,
    ensures
        2 <= text.len() <= 3,
        forall|i: int| 0 <= i < text.len() ==> #[trigger] text[i] < 0x80,
        is_operator_start(text[0] as char),
        is_symbol(text[0] as char),
        !(text[0] == 0x2f && (text[1] == 0x2f || text[1] == 0x2a)),
        operator_kind(text)->0 !is Symbol,
        operator_kind(text)->0 !is Ident,
        operator_kind(text)->0 !is Number,
        operator_kind(text)->0 !is Str,
{
    reveal(operator_kind);
    reveal_strlit("<<=");
    reveal_strlit(">>=");
    reveal_strlit("!=");
    reveal_strlit("&&");
    reveal_strlit("++");
    reveal_strlit("--");
    reveal_strlit("->");
    reveal_strlit("<<");
    reveal_strlit("<=");
    reveal_strlit("==");
    reveal_strlit(">=");
    reveal_strlit(">>");
    reveal_strlit("||");
    reveal_strlit("*=");
    reveal_strlit("/=");
    reveal_strlit("%=");
    reveal_strlit("+=");
    reveal_strlit("-=");
    reveal_strlit("&=");
    reveal_strlit("^=");
    reveal_strlit("|=");
    lemma_ascii_literal("<<=");
    lemma_ascii_literal(">>=");
    lemma_ascii_literal("!=");
    lemma_ascii_literal("&&");
    lemma_ascii_literal("++");
    lemma_ascii_literal("--");
    lemma_ascii_literal("->");
    lemma_ascii_literal("<<");
    lemma_ascii_literal("<=");
    lemma_ascii_literal("==");
    lemma_ascii_literal(">=");
    lemma_ascii_literal(">>");
    lemma_ascii_literal("||");
    lemma_ascii_literal("*=");
    lemma_ascii_literal("/=");
    lemma_ascii_literal("%=");
    lemma_ascii_literal("+=");
    lemma_ascii_literal("-=");
    lemma_ascii_literal("&=");
    lemma_ascii_literal("^=");
    lemma_ascii_literal("|=");
}

/// After a run of ASCII bytes the text is at a character boundary.
pub proof fn lemma_ascii_run_boundary(src: Seq<u8>, pos: int, n: int)
    requires
        valid_utf8(src),
        0 <= pos,
        1 <= n,
        pos + n <= src.len(),
        forall|i: int| pos <= i < pos + n ==> #[trigger] src[i] < 0x80,
    ensures
        is_char_boundary(src, pos + n),
{
    lemma_boundary_around_ascii(src, pos + n - 1);
}

/// A block comment is closed by `*/`, inside the text.
pub proof fn lemma_comment_end(src: Seq<u8>, pos: int)
    requires
        0 <= pos,
        comment_end(src, pos) is Some,
    ensures
        pos + 2 <= comment_end(src, pos)->0 <= src.len(),
        src[comment_end(src, pos)->0 - 2] == 0x2a,
        src[comment_end(src, pos)->0 - 1] == 0x2f,
    decreases src.len() - pos,
{
    if pos + 2 <= src.len() && !(src[pos] == 0x2a && src[pos + 1] == 0x2f) {
        lemma_comment_end(src, pos + 1);
    }
}

/// The character at a boundary of well-formed text: an ASCII byte is the
/// character itself, any other byte begins a character outside ASCII, and
/// the character ends at a boundary inside the text.
pub proof fn lemma_char_here(src: Seq<u8>, pos: int)
    requires
        valid_utf8(src),
        0 <= pos < src.len(),
        is_char_boundary(src, pos),
    ensures
        src[pos] < 0x80 ==> char_at(src, pos) == src[pos] as char && width_at(src, pos) == 1,
        src[pos] >= 0x80 ==> char_at(src, pos) as u32 >= 0x80,
        pos < pos + width_at(src, pos) <= src.len(),
        is_char_boundary(src, pos + width_at(src, pos)),
{
    lemma_boundary_step(src, pos);
    if src[pos] < 0x80 {
        lemma_ascii_at(src, pos);
    } else {
        lemma_non_ascii_at(src, pos);
    }
}

/// Whether a step from `pos` that leads to `next` moves forward, stays
/// inside the text and ends between two characters.
pub open spec fn lands(src: Seq<u8>, pos: int, next: int) -> bool {
    &&& pos < next <= src.len()
    &&& is_char_boundary(src, next)
}

/// Whether the step leads somewhere the scanner can go on from.
pub open spec fn step_lands(src: Seq<u8>, pos: int, step: Step) -> bool {
    match step {
        Step::Skip { next } => lands(src, pos, next),
        Step::Emit { kind, end } => lands(src, pos, end),
        Step::Fail { kind } => true,
    }
}

/// Skipping whitespace or a comment moves forward to a character boundary
/// inside the text.
pub proof fn lemma_trivia_lands(src: Seq<u8>, pos: int)
    requires
        valid_utf8(src),
        0 <= pos < src.len(),
        is_char_boundary(src, pos),
        trivia_at(src, pos) is Some,
    ensures
        step_lands(src, pos, trivia_at(src, pos)->0),
        trivia_at(src, pos)->0 !is Emit,
{
    lemma_char_here(src, pos);
    lemma_comment_openers();
    if is_whitespace(char_at(src, pos)) {
    } else if starts_with(src, pos, "//".spec_bytes()) {
        let end = run_end(src, pos, line_byte());
        assert(src[pos] == peek(src, pos, 2)[0]);
        lemma_run_end(src, pos + 1, line_byte());
        if end < src.len() {
            lemma_boundary_around_ascii(src, end);
        } else {
            lemma_boundary_at_end(src);
        }
    } else {
        if comment_end(src, pos + 2) is Some {
            lemma_comment_end(src, pos + 2);
            lemma_boundary_around_ascii(src, comment_end(src, pos + 2)->0 - 1);
        }
    }
}

/// Reading a token moves forward to a character boundary inside the text.
pub proof fn lemma_token_lands(src: Seq<u8>, pos: int)
    requires
        valid_utf8(src),
        0 <= pos < src.len(),
        is_char_boundary(src, pos),
    ensures
        step_lands(src, pos, token_at(src, pos)),
        token_at(src, pos) !is Skip,
{
    lemma_char_here(src, pos);
    let c = char_at(src, pos);
    if c == '\'' {
        let close = pos + 1 + width_at(src, pos + 1);
        if pos + 1 < src.len() && close < src.len() && src[close] == 0x27 {
            lemma_boundary_around_ascii(src, pos);
            lemma_char_here(src, pos + 1);
            lemma_boundary_around_ascii(src, close);
        }
    } else if c == '"' {
        let close = run_end(src, pos + 1, string_byte());
        lemma_run_end(src, pos + 1, string_byte());
        if close < src.len() {
            lemma_boundary_around_ascii(src, close);
        }
    } else if operator(src, pos, 3) is Some {
        let text = peek(src, pos, 3);
        lemma_operator_text(text);
        assert forall|i: int| pos <= i < pos + text.len() implies #[trigger] src[i] < 0x80 by {
            assert(src[i] == text[i - pos]);
        }
        lemma_ascii_run_boundary(src, pos, text.len() as int);
    } else if operator(src, pos, 2) is Some {
        let text = peek(src, pos, 2);
        lemma_operator_text(text);
        assert forall|i: int| pos <= i < pos + text.len() implies #[trigger] src[i] < 0x80 by {
            assert(src[i] == text[i - pos]);
        }
        lemma_ascii_run_boundary(src, pos, text.len() as int);
    } else if is_symbol(c) {
        lemma_boundary_around_ascii(src, pos);
    } else if is_ident_start(c) {
        let end = run_end(src, pos, ident_byte());
        lemma_run_end(src, pos + 1, ident_byte());
        lemma_run_end(src, pos, ident_byte());
        assert(ident_byte()(src[end - 1]));
        lemma_boundary_around_ascii(src, end - 1);
    } else if is_digit(c) {
        let end = run_end(src, pos, digit_byte());
        lemma_run_end(src, pos + 1, digit_byte());
        lemma_run_end(src, pos, digit_byte());
        assert(digit_byte()(src[end - 1]));
        lemma_boundary_around_ascii(src, end - 1);
    } else {
    }
}

/// Every step that does not fail moves forward to a character boundary
/// inside the text, so the bounds that `scan_from` tests always hold on
/// well-formed text.
pub proof fn lemma_step_lands(src: Seq<u8>, pos: int)
    requires
        valid_utf8(src),
        0 <= pos < src.len(),
        is_char_boundary(src, pos),
    ensures
        step_lands(src, pos, step_at(src, pos)),
{
    if trivia_at(src, pos) is Some {
        lemma_trivia_lands(src, pos);
    } else {
        lemma_token_lands(src, pos);
    }
}

/// The longest operator wins.  Where the bytes at `pos` spell an operator,
/// the scanner reads an operator there: the one that the next three bytes
/// spell where they spell one, and else the one that the next two spell.
/// It never reads the operator's first character as a symbol of its own.
pub proof fn lemma_longest_operator_wins(src: Seq<u8>, pos: int)
    requires
        0 <= pos < src.len(),
        operator_kind(peek(src, pos, 3)) is Some || operator_kind(peek(src, pos, 2)) is Some,
    ensures
        operator_kind(peek(src, pos, 3)) matches Some(kind) ==> step_at(src, pos) == (Step::Emit {
            kind,
            end: pos + peek(src, pos, 3).len(),
        }),
        operator_kind(peek(src, pos, 3)) is None ==> step_at(src, pos) == (Step::Emit {
            kind: operator_kind(peek(src, pos, 2))->0,
            end: pos + 2,
        }),
        step_at(src, pos) matches Step::Emit { kind, end } && end >= pos + 2 && kind !is Symbol,
{
    let text = if operator_kind(peek(src, pos, 3)) is Some {
        peek(src, pos, 3)
    } else {
        peek(src, pos, 2)
    };
    lemma_operator_text(text);
    lemma_comment_openers();
    assert(text[0] == src[pos]);
    assert(text[1] == src[pos + 1]);
    lemma_ascii_at(src, pos);
    assert(peek(src, pos, 2)[0] == src[pos]);
    assert(peek(src, pos, 2)[1] == src[pos + 1]);
    assert(trivia_at(src, pos) is None);
}

/// A keyword is a kind of its own: never an identifier, a number, a string
/// or a symbol.
pub proof fn lemma_keyword_kind(text: Seq<u8>)
    requires
        keyword_kind(text) is Some,
    ensures
        keyword_kind(text)->0 !is Ident,
        keyword_kind(text)->0 !is Number,
        keyword_kind(text)->0 !is Str,
        keyword_kind(text)->0 !is Symbol,
{
    reveal(keyword_kind);
}

/// The keywords.  Each spelling is the keyword it names, begins like an
/// identifier and goes on like one, so that the scanner reads it as one
/// word.
pub proof fn lemma_keyword_spellings()
    ensures
        keyword_kind("int".spec_bytes()) == Some(TokenKindView::Int),
        keyword_kind("return".spec_bytes()) == Some(TokenKindView::Return),
        keyword_kind("extern".spec_bytes()) == Some(TokenKindView::Extern),
        keyword_kind("typedef".spec_bytes()) == Some(TokenKindView::Typedef),
        keyword_kind("char".spec_bytes()) == Some(TokenKindView::Char),
        keyword_kind("void".spec_bytes()) == Some(TokenKindView::Void),
        keyword_kind("struct".spec_bytes()) == Some(TokenKindView::Struct),
        keyword_kind("_Bool".spec_bytes()) == Some(TokenKindView::Bool),
        keyword_kind("if".spec_bytes()) == Some(TokenKindView::If),
        keyword_kind("else".spec_bytes()) == Some(TokenKindView::Else),
        keyword_kind("for".spec_bytes()) == Some(TokenKindView::For),
        keyword_kind("do".spec_bytes()) == Some(TokenKindView::Do),
        keyword_kind("while".spec_bytes()) == Some(TokenKindView::While),
        keyword_kind("switch".spec_bytes()) == Some(TokenKindView::Switch),
        keyword_kind("case".spec_bytes()) == Some(TokenKindView::Case),
        keyword_kind("break".spec_bytes()) == Some(TokenKindView::Break),
        keyword_kind("continue".spec_bytes()) == Some(TokenKindView::Continue),
        keyword_kind("sizeof".spec_bytes()) == Some(TokenKindView::Sizeof),
        keyword_kind("_Alignof".spec_bytes()) == Some(TokenKindView::Alignof),
        keyword_kind("typeof".spec_bytes()) == Some(TokenKindView::Typeof),
        forall|text: Seq<u8>| #[trigger]
            keyword_kind(text) is Some ==> {
                &&& 2 <= text.len() <= 8
                &&& is_ident_start(text[0] as char)
                &&& forall|i: int| 0 <= i < text.len() ==> ident_byte()(#[trigger] text[i])
            },
{
    reveal(keyword_kind);
    reveal_strlit("int");
    lemma_ascii_literal("int");
    assert("int".spec_bytes().len() == 3);
    assert("int".spec_bytes()[0] == 'i' as u8);
    assert("int".spec_bytes()[1] == 'n' as u8);
    assert("int".spec_bytes()[2] == 't' as u8);
    reveal_strlit("return");
    lemma_ascii_literal("return");
    assert("return".spec_bytes().len() == 6);
    assert("return".spec_bytes()[0] == 'r' as u8);
    assert("return".spec_bytes()[1] == 'e' as u8);
    assert("return".spec_bytes()[2] == 't' as u8);
    assert("return".spec_bytes()[3] == 'u' as u8);
    assert("return".spec_bytes()[4] == 'r' as u8);
    assert("return".spec_bytes()[5] == 'n' as u8);
    reveal_strlit("extern");
    lemma_ascii_literal("extern");
    assert("extern".spec_bytes().len() == 6);
    assert("extern".spec_bytes()[0] == 'e' as u8);
    assert("extern".spec_bytes()[1] == 'x' as u8);
    assert("extern".spec_bytes()[2] == 't' as u8);
    assert("extern".spec_bytes()[3] == 'e' as u8);
    assert("extern".spec_bytes()[4] == 'r' as u8);
    assert("extern".spec_bytes()[5] == 'n' as u8);
    reveal_strlit("typedef");
    lemma_ascii_literal("typedef");
    assert("typedef".spec_bytes().len() == 7);
    assert("typedef".spec_bytes()[0] == 't' as u8);
    assert("typedef".spec_bytes()[1] == 'y' as u8);
    assert("typedef".spec_bytes()[2] == 'p' as u8);
    assert("typedef".spec_bytes()[3] == 'e' as u8);
    assert("typedef".spec_bytes()[4] == 'd' as u8);
    assert("typedef".spec_bytes()[5] == 'e' as u8);
    assert("typedef".spec_bytes()[6] == 'f' as u8);
    reveal_strlit("char");
    lemma_ascii_literal("char");
    assert("char".spec_bytes().len() == 4);
    assert("char".spec_bytes()[0] == 'c' as u8);
    assert("char".spec_bytes()[1] == 'h' as u8);
    assert("char".spec_bytes()[2] == 'a' as u8);
    assert("char".spec_bytes()[3] == 'r' as u8);
    reveal_strlit("void");
    lemma_ascii_literal("void");
    assert("void".spec_bytes().len() == 4);
    assert("void".spec_bytes()[0] == 'v' as u8);
    assert("void".spec_bytes()[1] == 'o' as u8);
    assert("void".spec_bytes()[2] == 'i' as u8);
    assert("void".spec_bytes()[3] == 'd' as u8);
    reveal_strlit("struct");
    lemma_ascii_literal("struct");
    assert("struct".spec_bytes().len() == 6);
    assert("struct".spec_bytes()[0] == 's' as u8);
    assert("struct".spec_bytes()[1] == 't' as u8);
    assert("struct".spec_bytes()[2] == 'r' as u8);
    assert("struct".spec_bytes()[3] == 'u' as u8);
    assert("struct".spec_bytes()[4] == 'c' as u8);
    assert("struct".spec_bytes()[5] == 't' as u8);
    reveal_strlit("_Bool");
    lemma_ascii_literal("_Bool");
    assert("_Bool".spec_bytes().len() == 5);
    assert("_Bool".spec_bytes()[0] == '_' as u8);
    assert("_Bool".spec_bytes()[1] == 'B' as u8);
    assert("_Bool".spec_bytes()[2] == 'o' as u8);
    assert("_Bool".spec_bytes()[3] == 'o' as u8);
    assert("_Bool".spec_bytes()[4] == 'l' as u8);
    reveal_strlit("if");
    lemma_ascii_literal("if");
    assert("if".spec_bytes().len() == 2);
    assert("if".spec_bytes()[0] == 'i' as u8);
    assert("if".spec_bytes()[1] == 'f' as u8);
    reveal_strlit("else");
    lemma_ascii_literal("else");
    assert("else".spec_bytes().len() == 4);
    assert("else".spec_bytes()[0] == 'e' as u8);
    assert("else".spec_bytes()[1] == 'l' as u8);
    assert("else".spec_bytes()[2] == 's' as u8);
    assert("else".spec_bytes()[3] == 'e' as u8);
    reveal_strlit("for");
    lemma_ascii_literal("for");
    assert("for".spec_bytes().len() == 3);
    assert("for".spec_bytes()[0] == 'f' as u8);
    assert("for".spec_bytes()[1] == 'o' as u8);
    assert("for".spec_bytes()[2] == 'r' as u8);
    reveal_strlit("do");
    lemma_ascii_literal("do");
    assert("do".spec_bytes().len() == 2);
    assert("do".spec_bytes()[0] == 'd' as u8);
    assert("do".spec_bytes()[1] == 'o' as u8);
    reveal_strlit("while");
    lemma_ascii_literal("while");
    assert("while".spec_bytes().len() == 5);
    assert("while".spec_bytes()[0] == 'w' as u8);
    assert("while".spec_bytes()[1] == 'h' as u8);
    assert("while".spec_bytes()[2] == 'i' as u8);
    assert("while".spec_bytes()[3] == 'l' as u8);
    assert("while".spec_bytes()[4] == 'e' as u8);
    reveal_strlit("switch");
    lemma_ascii_literal("switch");
    assert("switch".spec_bytes().len() == 6);
    assert("switch".spec_bytes()[0] == 's' as u8);
    assert("switch".spec_bytes()[1] == 'w' as u8);
    assert("switch".spec_bytes()[2] == 'i' as u8);
    assert("switch".spec_bytes()[3] == 't' as u8);
    assert("switch".spec_bytes()[4] == 'c' as u8);
    assert("switch".spec_bytes()[5] == 'h' as u8);
    reveal_strlit("case");
    lemma_ascii_literal("case");
    assert("case".spec_bytes().len() == 4);
    assert("case".spec_bytes()[0] == 'c' as u8);
    assert("case".spec_bytes()[1] == 'a' as u8);
    assert("case".spec_bytes()[2] == 's' as u8);
    assert("case".spec_bytes()[3] == 'e' as u8);
    reveal_strlit("break");
    lemma_ascii_literal("break");
    assert("break".spec_bytes().len() == 5);
    assert("break".spec_bytes()[0] == 'b' as u8);
    assert("break".spec_bytes()[1] == 'r' as u8);
    assert("break".spec_bytes()[2] == 'e' as u8);
    assert("break".spec_bytes()[3] == 'a' as u8);
    assert("break".spec_bytes()[4] == 'k' as u8);
    reveal_strlit("continue");
    lemma_ascii_literal("continue");
    assert("continue".spec_bytes().len() == 8);
    assert("continue".spec_bytes()[0] == 'c' as u8);
    assert("continue".spec_bytes()[1] == 'o' as u8);
    assert("continue".spec_bytes()[2] == 'n' as u8);
    assert("continue".spec_bytes()[3] == 't' as u8);
    assert("continue".spec_bytes()[4] == 'i' as u8);
    assert("continue".spec_bytes()[5] == 'n' as u8);
    assert("continue".spec_bytes()[6] == 'u' as u8);
    assert("continue".spec_bytes()[7] == 'e' as u8);
    reveal_strlit("sizeof");
    lemma_ascii_literal("sizeof");
    assert("sizeof".spec_bytes().len() == 6);
    assert("sizeof".spec_bytes()[0] == 's' as u8);
    assert("sizeof".spec_bytes()[1] == 'i' as u8);
    assert("sizeof".spec_bytes()[2] == 'z' as u8);
    assert("sizeof".spec_bytes()[3] == 'e' as u8);
    assert("sizeof".spec_bytes()[4] == 'o' as u8);
    assert("sizeof".spec_bytes()[5] == 'f' as u8);
    reveal_strlit("_Alignof");
    lemma_ascii_literal("_Alignof");
    assert("_Alignof".spec_bytes().len() == 8);
    assert("_Alignof".spec_bytes()[0] == '_' as u8);
    assert("_Alignof".spec_bytes()[1] == 'A' as u8);
    assert("_Alignof".spec_bytes()[2] == 'l' as u8);
    assert("_Alignof".spec_bytes()[3] == 'i' as u8);
    assert("_Alignof".spec_bytes()[4] == 'g' as u8);
    assert("_Alignof".spec_bytes()[5] == 'n' as u8);
    assert("_Alignof".spec_bytes()[6] == 'o' as u8);
    assert("_Alignof".spec_bytes()[7] == 'f' as u8);
    reveal_strlit("typeof");
    lemma_ascii_literal("typeof");
    assert("typeof".spec_bytes().len() == 6);
    assert("typeof".spec_bytes()[0] == 't' as u8);
    assert("typeof".spec_bytes()[1] == 'y' as u8);
    assert("typeof".spec_bytes()[2] == 'p' as u8);
    assert("typeof".spec_bytes()[3] == 'e' as u8);
    assert("typeof".spec_bytes()[4] == 'o' as u8);
    assert("typeof".spec_bytes()[5] == 'f' as u8);
}

/// The operators.  Each spelling is the operator it names.
pub proof fn lemma_operator_spellings()
    ensures
        operator_kind("<<=".spec_bytes()) == Some(TokenKindView::ShlEq),
        operator_kind(">>=".spec_bytes()) == Some(TokenKindView::ShrEq),
        operator_kind("!=".spec_bytes()) == Some(TokenKindView::Ne),
        operator_kind("&&".spec_bytes()) == Some(TokenKindView::LogAnd),
        operator_kind("++".spec_bytes()) == Some(TokenKindView::Inc),
        operator_kind("--".spec_bytes()) == Some(TokenKindView::Dec),
        operator_kind("->".spec_bytes()) == Some(TokenKindView::Arrow),
        operator_kind("<<".spec_bytes()) == Some(TokenKindView::Shl),
        operator_kind("<=".spec_bytes()) == Some(TokenKindView::Le),
        operator_kind("==".spec_bytes()) == Some(TokenKindView::Eq),
        operator_kind(">=".spec_bytes()) == Some(TokenKindView::Ge),
        operator_kind(">>".spec_bytes()) == Some(TokenKindView::Shr),
        operator_kind("||".spec_bytes()) == Some(TokenKindView::LogOr),
        operator_kind("*=".spec_bytes()) == Some(TokenKindView::MulEq),
        operator_kind("/=".spec_bytes()) == Some(TokenKindView::DivEq),
        operator_kind("%=".spec_bytes()) == Some(TokenKindView::ModEq),
        operator_kind("+=".spec_bytes()) == Some(TokenKindView::AddEq),
        operator_kind("-=".spec_bytes()) == Some(TokenKindView::SubEq),
        operator_kind("&=".spec_bytes()) == Some(TokenKindView::AndEq),
        operator_kind("^=".spec_bytes()) == Some(TokenKindView::XorEq),
        operator_kind("|=".spec_bytes()) == Some(TokenKindView::OrEq),
{
    reveal(operator_kind);
    reveal_strlit("<<=");
    lemma_ascii_literal("<<=");
    assert("<<=".spec_bytes().len() == 3);
    assert("<<=".spec_bytes()[0] == '<' as u8);
    assert("<<=".spec_bytes()[1] == '<' as u8);
    assert("<<=".spec_bytes()[2] == '=' as u8);
    reveal_strlit(">>=");
    lemma_ascii_literal(">>=");
    assert(">>=".spec_bytes().len() == 3);
    assert(">>=".spec_bytes()[0] == '>' as u8);
    assert(">>=".spec_bytes()[1] == '>' as u8);
    assert(">>=".spec_bytes()[2] == '=' as u8);
    reveal_strlit("!=");
    lemma_ascii_literal("!=");
    assert("!=".spec_bytes().len() == 2);
    assert("!=".spec_bytes()[0] == '!' as u8);
    assert("!=".spec_bytes()[1] == '=' as u8);
    reveal_strlit("&&");
    lemma_ascii_literal("&&");
    assert("&&".spec_bytes().len() == 2);
    assert("&&".spec_bytes()[0] == '&' as u8);
    assert("&&".spec_bytes()[1] == '&' as u8);
    reveal_strlit("++");
    lemma_ascii_literal("++");
    assert("++".spec_bytes().len() == 2);
    assert("++".spec_bytes()[0] == '+' as u8);
    assert("++".spec_bytes()[1] == '+' as u8);
    reveal_strlit("--");
    lemma_ascii_literal("--");
    assert("--".spec_bytes().len() == 2);
    assert("--".spec_bytes()[0] == '-' as u8);
    assert("--".spec_bytes()[1] == '-' as u8);
    reveal_strlit("->");
    lemma_ascii_literal("->");
    assert("->".spec_bytes().len() == 2);
    assert("->".spec_bytes()[0] == '-' as u8);
    assert("->".spec_bytes()[1] == '>' as u8);
    reveal_strlit("<<");
    lemma_ascii_literal("<<");
    assert("<<".spec_bytes().len() == 2);
    assert("<<".spec_bytes()[0] == '<' as u8);
    assert("<<".spec_bytes()[1] == '<' as u8);
    reveal_strlit("<=");
    lemma_ascii_literal("<=");
    assert("<=".spec_bytes().len() == 2);
    assert("<=".spec_bytes()[0] == '<' as u8);
    assert("<=".spec_bytes()[1] == '=' as u8);
    reveal_strlit("==");
    lemma_ascii_literal("==");
    assert("==".spec_bytes().len() == 2);
    assert("==".spec_bytes()[0] == '=' as u8);
    assert("==".spec_bytes()[1] == '=' as u8);
    reveal_strlit(">=");
    lemma_ascii_literal(">=");
    assert(">=".spec_bytes().len() == 2);
    assert(">=".spec_bytes()[0] == '>' as u8);
    assert(">=".spec_bytes()[1] == '=' as u8);
    reveal_strlit(">>");
    lemma_ascii_literal(">>");
    assert(">>".spec_bytes().len() == 2);
    assert(">>".spec_bytes()[0] == '>' as u8);
    assert(">>".spec_bytes()[1] == '>' as u8);
    reveal_strlit("||");
    lemma_ascii_literal("||");
    assert("||".spec_bytes().len() == 2);
    assert("||".spec_bytes()[0] == '|' as u8);
    assert("||".spec_bytes()[1] == '|' as u8);
    reveal_strlit("*=");
    lemma_ascii_literal("*=");
    assert("*=".spec_bytes().len() == 2);
    assert("*=".spec_bytes()[0] == '*' as u8);
    assert("*=".spec_bytes()[1] == '=' as u8);
    reveal_strlit("/=");
    lemma_ascii_literal("/=");
    assert("/=".spec_bytes().len() == 2);
    assert("/=".spec_bytes()[0] == '/' as u8);
    assert("/=".spec_bytes()[1] == '=' as u8);
    reveal_strlit("%=");
    lemma_ascii_literal("%=");
    assert("%=".spec_bytes().len() == 2);
    assert("%=".spec_bytes()[0] == '%' as u8);
    assert("%=".spec_bytes()[1] == '=' as u8);
    reveal_strlit("+=");
    lemma_ascii_literal("+=");
    assert("+=".spec_bytes().len() == 2);
    assert("+=".spec_bytes()[0] == '+' as u8);
    assert("+=".spec_bytes()[1] == '=' as u8);
    reveal_strlit("-=");
    lemma_ascii_literal("-=");
    assert("-=".spec_bytes().len() == 2);
    assert("-=".spec_bytes()[0] == '-' as u8);
    assert("-=".spec_bytes()[1] == '=' as u8);
    reveal_strlit("&=");
    lemma_ascii_literal("&=");
    assert("&=".spec_bytes().len() == 2);
    assert("&=".spec_bytes()[0] == '&' as u8);
    assert("&=".spec_bytes()[1] == '=' as u8);
    reveal_strlit("^=");
    lemma_ascii_literal("^=");
    assert("^=".spec_bytes().len() == 2);
    assert("^=".spec_bytes()[0] == '^' as u8);
    assert("^=".spec_bytes()[1] == '=' as u8);
    reveal_strlit("|=");
    lemma_ascii_literal("|=");
    assert("|=".spec_bytes().len() == 2);
    assert("|=".spec_bytes()[0] == '|' as u8);
    assert("|=".spec_bytes()[1] == '=' as u8);
}

/// Every keyword is read as its token.  Where the bytes at `pos` spell a
/// keyword and no letter, digit or underscore follows them, the scanner
/// reads that keyword there, and never an identifier.
pub proof fn lemma_keyword_token(src: Seq<u8>, pos: int, len: int)
    requires
        0 <= pos,
        0 <= len,
        pos + len <= src.len(),
        keyword_kind(src.subrange(pos, pos + len)) is Some,
        pos + len < src.len() ==> !is_ident_continue(src[pos + len] as char),
    ensures
        step_at(src, pos) == (Step::Emit {
            kind: keyword_kind(src.subrange(pos, pos + len))->0,
            end: pos + len,
        }),
        keyword_kind(src.subrange(pos, pos + len))->0 !is Ident,
{
    let text = src.subrange(pos, pos + len);
    lemma_keyword_spellings();
    lemma_keyword_kind(text);
    assert(text[0] == src[pos]);
    assert forall|i: int| pos <= i < pos + len implies ident_byte()(#[trigger] src[i]) by {
        assert(ident_byte()(text[i - pos]));
    }
    crate::lexer::text::lemma_run_end_from_inside(src, pos, pos + len, ident_byte());
    lemma_word_token(src, pos);
}

/// Keywords and identifiers.  A word, which begins with a letter or an
/// underscore, is read up to the first byte that is no letter, digit or
/// underscore.  Where its text is a keyword's spelling the token is that
/// keyword and no identifier; otherwise the token is an identifier that
/// holds exactly the text.
pub proof fn lemma_word_token(src: Seq<u8>, pos: int)
    requires
        0 <= pos < src.len(),
        src[pos] < 0x80,
        is_ident_start(src[pos] as char),
    ensures
        ({
            let end = run_end(src, pos, ident_byte());
            let text = src.subrange(pos, end);
            &&& pos < end <= src.len()
            &&& forall|i: int| pos <= i < end ==> is_ident_continue(#[trigger] src[i] as char)
            &&& end < src.len() ==> !is_ident_continue(src[end] as char)
            &&& step_at(src, pos) == Step::Emit { kind: word_kind(text), end }
            &&& match keyword_kind(text) {
                Some(keyword) => word_kind(text) == keyword && keyword !is Ident,
                None => word_kind(text) == TokenKindView::Ident(
                    text.map_values(|b: u8| b as char),
                ),
            }
        }),
{
    let end = run_end(src, pos, ident_byte());
    let text = src.subrange(pos, end);
    lemma_run_end(src, pos, ident_byte());
    lemma_run_end(src, pos + 1, ident_byte());
    lemma_ascii_at(src, pos);
    lemma_comment_openers();
    assert(peek(src, pos, 2)[0] == src[pos]);
    assert(trivia_at(src, pos) is None);
    if operator(src, pos, 3) is Some {
        lemma_operator_text(peek(src, pos, 3));
        assert(peek(src, pos, 3)[0] == src[pos]);
    }
    if operator(src, pos, 2) is Some {
        lemma_operator_text(peek(src, pos, 2));
    }
    if keyword_kind(text) is Some {
        lemma_keyword_kind(text);
    } else {
        assert forall|i: int| 0 <= i < text.len() implies #[trigger] text[i] < 0x80 by {
            assert(ident_byte()(src[pos + i]));
        }
        lemma_decode_ascii(text);
    }
}

/// Whether the bytes of `src` from `from` up to `to` are whitespace and
/// comments, and nothing else.
pub open spec fn is_trivia(src: Seq<u8>, from: int, to: int) -> bool
    decreases to - from,
{
    if from >= to {
        from == to
    } else {
        match trivia_at(src, from) {
            Some(Step::Skip { next }) => from < next <= to && is_trivia(src, next, to),
            _ => false,
        }
    }
}

/// Whether `tokens` are what stands in `src` between `from` and `to`: each
/// token is the one that the rules read at its start and ends where they
/// say, the tokens follow each other in order without overlap, and what
/// lies before, between and after them is whitespace and comments.
pub open spec fn covers(src: Seq<u8>, tokens: Seq<TokenView>, from: int, to: int) -> bool
    decreases tokens.len(),
{
    if tokens.len() == 0 {
        is_trivia(src, from, to)
    } else {
        let first = tokens[0];
        &&& from <= first.start < first.end <= to
        &&& is_trivia(src, from, first.start)
        &&& token_at(src, first.start) == Step::Emit { kind: first.kind, end: first.end }
        &&& covers(src, tokens.drop_first(), first.end, to)
    }
}

/// The text between `from` and `to`, put together again from the slices
/// that the tokens name and the text around them.
pub open spec fn reassemble(src: Seq<u8>, tokens: Seq<TokenView>, from: int, to: int) -> Seq<u8>
    decreases tokens.len(),
{
    if tokens.len() == 0 {
        src.subrange(from, to)
    } else {
        let first = tokens[0];
        src.subrange(from, first.start) + src.subrange(first.start, first.end) + reassemble(
            src,
            tokens.drop_first(),
            first.end,
            to,
        )
    }
}

/// Where the position at which scanning ended lies: at the end of the
/// text, or at the error.
pub open spec fn stop_of(src: Seq<u8>, scan: Scan) -> int {
    match scan.error {
        None => src.len() as int,
        Some(e) => e.offset,
    }
}

/// More trivia in front of covered text is covered text.
proof fn lemma_covers_after_skip(
    src: Seq<u8>,
    tokens: Seq<TokenView>,
    pos: int,
    next: int,
    to: int,
)
    requires
        trivia_at(src, pos) == Some(Step::Skip { next }),
        pos < next <= to,
        covers(src, tokens, next, to),
    ensures
        covers(src, tokens, pos, to),
{
    if tokens.len() > 0 {
        assert(is_trivia(src, pos, tokens[0].start));
    }
}

/// What is covered lies in order inside its bounds.
proof fn lemma_covers_bounds(src: Seq<u8>, tokens: Seq<TokenView>, from: int, to: int)
    requires
        covers(src, tokens, from, to),
    ensures
        from <= to,
    decreases tokens.len(),
{
    if tokens.len() > 0 {
        lemma_covers_bounds(src, tokens.drop_first(), tokens[0].end, to);
    }
}

/// Spans cover the input.  The tokens that scanning yields, from a
/// character boundary of well-formed text, are what stands in the text up
/// to where scanning ended: in order, without overlap, each the token that
/// the rules read at its start, with only whitespace and comments around
/// them.  Where scanning ended with an error, the error is the failure of
/// the rules at its offset.
pub proof fn lemma_scan_covers(src: Seq<u8>, pos: int)
    requires
        valid_utf8(src),
        0 <= pos <= src.len(),
        is_char_boundary(src, pos),
    ensures
        pos <= stop_of(src, scan_from(src, pos)) <= src.len(),
        covers(src, scan_from(src, pos).tokens, pos, stop_of(src, scan_from(src, pos))),
        scan_from(src, pos).error matches Some(e) ==> e.offset < src.len() && step_at(src, e.offset)
            == (Step::Fail { kind: e.kind }),
    decreases src.len() - pos,
{
    if pos < src.len() {
        lemma_step_lands(src, pos);
        let out = scan_from(src, pos);
        let stop = stop_of(src, out);
        match step_at(src, pos) {
            Step::Skip { next } => {
                lemma_scan_covers(src, next);
                if trivia_at(src, pos) is None {
                    lemma_token_lands(src, pos);
                }
                lemma_covers_after_skip(src, out.tokens, pos, next, stop);
            },
            Step::Emit { kind, end } => {
                lemma_scan_covers(src, end);
                if trivia_at(src, pos) is Some {
                    lemma_trivia_lands(src, pos);
                }
                assert(out.tokens.drop_first() =~= scan_from(src, end).tokens);
            },
            Step::Fail { kind } => {},
        }
    }
}

/// Covered text is put together again from its tokens and what lies
/// around them.
pub proof fn lemma_reassemble(src: Seq<u8>, tokens: Seq<TokenView>, from: int, to: int)
    requires
        0 <= from,
        to <= src.len(),
        covers(src, tokens, from, to),
    ensures
        reassemble(src, tokens, from, to) == src.subrange(from, to),
    decreases tokens.len(),
{
    if tokens.len() > 0 {
        let first = tokens[0];
        lemma_reassemble(src, tokens.drop_first(), first.end, to);
        lemma_covers_bounds(src, tokens.drop_first(), first.end, to);
        assert(src.subrange(from, first.start) + src.subrange(first.start, first.end)
            + src.subrange(first.end, to) =~= src.subrange(from, to));
    } else {
        lemma_covers_bounds(src, tokens, from, to);
    }
}

/// The round trip.  Where scanning a well-formed text succeeds, the slices
/// that the tokens name, taken in order with the whitespace and comments
/// between them put back, make up the text again: no byte is counted twice
/// and none is left out.
pub proof fn lemma_round_trip(src: Seq<u8>)
    requires
        valid_utf8(src),
        scan_all(src).error is None,
    ensures
        covers(src, scan_all(src).tokens, 0, src.len() as int),
        reassemble(src, scan_all(src).tokens, 0, src.len() as int) == src,
{
    is_char_boundary_start_end_of_seq(src);
    lemma_scan_covers(src, 0);
    lemma_reassemble(src, scan_all(src).tokens, 0, src.len() as int);
    assert(src.subrange(0, src.len() as int) =~= src);
}

} // verus!
