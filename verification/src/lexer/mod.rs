//! The scanner: from source text to a sequence of tokens.

pub mod laws;
pub mod rules;
pub mod text;
pub mod token;

use crate::error::{Error, ErrorKind, ErrorView};
use crate::lexer::laws::{lemma_ascii_run_boundary, lemma_comment_openers, lemma_operator_text};
use crate::lexer::rules::{
    begins_ident, block_comment, char_literal, comment_end, continues_ident, decimal_value,
    digit_byte, ident_byte, is_decimal, is_space, line_byte, number, scan_all, scan_from, step_at,
    string_byte, string_literal, token_at, trivia_at, word, Step,
};
use crate::lexer::text::{
    char_at, lemma_ascii_at, lemma_boundary_around_ascii, lemma_boundary_at_end,
    lemma_boundary_in_prefix, lemma_boundary_step, lemma_non_ascii_at,
    lemma_run_end_from_inside, peek, run_end, starts_with, width_at,
};
pub use crate::lexer::token::{Span, Token, TokenKind};
use crate::lexer::token::{bytes_eq, keyword_of, operator_of, token_views, TokenView};
use vstd::prelude::*;
use vstd::slice::slice_subrange;
use vstd::string::*;
use vstd::utf8::*;

verus! {

/// A scanner over one source text.  It keeps a byte cursor into the text
/// and appends the tokens it reads to `tokens`.
pub struct Lexer<'a> {
    input: &'a str,
    file_name: &'a str,
    file_content: &'a str,
    start: usize,
    pub tokens: Vec<Token<'a>>,
}

/// Whether `after` is the state that `step` leaves behind when it is taken
/// from the state `before`, with `result` what the scanner reports.
///
/// A skip moves the cursor; a token is appended with the cursor's old
/// position as its start, and carries the file's name and text; a failure
/// changes nothing and reports the cursor's position.
pub open spec fn stepped<'a>(
    before: Lexer<'a>,
    after: Lexer<'a>,
    result: Result<(), Error<'a>>,
    step: Step,
) -> bool {
    &&& after.same_source(before)
    &&& match step {
        Step::Skip { next } => {
            &&& result is Ok
            &&& after.position() == next
            &&& after.emitted() == before.emitted()
        },
        Step::Emit { kind, end } => {
            &&& result is Ok
            &&& after.position() == end
            &&& after.emitted().len() == before.emitted().len() + 1
            &&& after.emitted().drop_last() == before.emitted()
            &&& after.emitted().last()@ == TokenView { kind, start: before.position(), end }
            &&& after.emitted().last().span.file_name == before.file_name()
            &&& after.emitted().last().span.file_content == before.file_content()
        },
        Step::Fail { kind } => {
            &&& result matches Err(e)
            &&& e@ == ErrorView { kind, offset: before.position() }
            &&& e.file_name == before.file_name()
            &&& after.position() == before.position()
            &&& after.emitted() == before.emitted()
        },
    }
}

impl<'a> Lexer<'a> {
    /// The bytes of the text being scanned.
    pub closed spec fn source(&self) -> Seq<u8> {
        self.input.spec_bytes()
    }

    /// The byte offset of the cursor.
    pub closed spec fn position(&self) -> int {
        self.start as int
    }

    /// The tokens read so far: the contents of `tokens`.
    pub closed spec fn emitted(&self) -> Seq<Token<'a>> {
        self.tokens@
    }

    /// The text being scanned.
    pub closed spec fn input(&self) -> &'a str {
        self.input
    }

    /// The name of the file the text belongs to.
    pub closed spec fn file_name(&self) -> &'a str {
        self.file_name
    }

    /// The full text of that file.
    pub closed spec fn file_content(&self) -> &'a str {
        self.file_content
    }

    /// The cursor lies inside the text, between two characters.
    pub open spec fn wf(&self) -> bool {
        &&& 0 <= self.position() <= self.source().len() <= usize::MAX
        &&& is_char_boundary(self.source(), self.position())
    }

    /// Whether two scanners read the same text of the same file.
    pub open spec fn same_source(&self, other: Lexer<'a>) -> bool {
        &&& self.input() == other.input()
        &&& self.source() == other.source()
        &&& self.file_name() == other.file_name()
        &&& self.file_content() == other.file_content()
    }

    /// A scanner at the start of `input`, with no token read yet.
    pub fn new(input: &'a str, file_name: &'a str, file_content: &'a str) -> (lexer: Lexer<'a>)
        ensures
            lexer.wf(),
            lexer.input() == input,
            lexer.source() == input.spec_bytes(),
            lexer.file_name() == file_name,
            lexer.file_content() == file_content,
            lexer.position() == 0,
            lexer.emitted().len() == 0,
    {
        let bytes = input.as_bytes();
        proof {
            encode_utf8_valid_utf8(input@);
            is_char_boundary_start_end_of_seq(input.spec_bytes());
            assert(bytes.len() == bytes@.len());
        }
        Lexer { input, file_name, file_content, start: 0, tokens: Vec::new() }
    }

    /// Gives up the scanner for the tokens it has read.
    pub fn into_tokens(self) -> (tokens: Vec<Token<'a>>)
        ensures
            tokens@ == self.emitted(),
    {
        self.tokens
    }

    /// The text is well-formed UTF-8.
    proof fn lemma_source_valid(&self)
        ensures
            valid_utf8(self.source()),
    {
        encode_utf8_valid_utf8(self.input@);
    }

    /// The next `n` bytes from the cursor, or all that are left where
    /// fewer are.
    fn peek_bytes(&self, n: usize) -> (bytes: &'a [u8])
        requires
            self.wf(),
        ensures
            bytes@ == peek(self.source(), self.position(), n as int),
    {
        let input: &'a str = self.input;
        let all = input.as_bytes();
        let end = if n <= all.len() - self.start {
            self.start + n
        } else {
            all.len()
        };
        slice_subrange(all, self.start, end)
    }

    /// Whether the text from the cursor on begins with `s`.
    fn starts_with(&self, s: &str) -> (r: bool)
        requires
            self.wf(),
        ensures
            r == starts_with(self.source(), self.position(), s.spec_bytes()),
    {
        let pattern = s.as_bytes();
        bytes_eq(self.peek_bytes(pattern.len()), pattern)
    }

    /// The character at the cursor.
    fn char_here(&self) -> (c: char)
        requires
            self.wf(),
            self.position() < self.source().len(),
        ensures
            c == char_at(self.source(), self.position()),
    {
        let input: &'a str = self.input;
        let b = input.as_bytes()[self.start];
        if b < 0x80 {
            proof {
                lemma_ascii_at(self.source(), self.position());
            }
            b as char
        } else {
            let (_, tail) = input.split_at(self.start);
            proof {
                let rest = self.source().skip(self.position());
                assert(tail.spec_bytes() =~= rest);
                assert(tail@.len() > 0) by {
                    if tail@.len() == 0 {
                        assert(encode_utf8(tail@).len() == 0);
                    }
                }
                encode_utf8_first_scalar(tail@);
                char_u32_cast(tail@[0], decode_first_scalar(rest));
            }
            tail.get_char(0)
        }
    }

    /// The character at the cursor, or `None` at the end of the text.
    fn input_chars_peek(&self) -> (c: Option<char>)
        requires
            self.wf(),
        ensures
            self.position() < self.source().len() ==> c == Some(
                char_at(self.source(), self.position()),
            ),
            self.position() >= self.source().len() ==> c is None,
    {
        let input: &'a str = self.input;
        if self.start < input.as_bytes().len() {
            Some(self.char_here())
        } else {
            None
        }
    }

    /// The number of bytes taken by the character at the cursor.
    fn char_width(&self) -> (n: usize)
        requires
            self.wf(),
            self.position() < self.source().len(),
        ensures
            n == width_at(self.source(), self.position()),
            self.position() + n <= self.source().len(),
            is_char_boundary(self.source(), self.position() + n),
    {
        let input: &'a str = self.input;
        let all = input.as_bytes();
        let b = all[self.start];
        proof {
            self.lemma_source_valid();
            lemma_boundary_step(self.source(), self.position());
            assert(self.source().skip(self.position())[0] == b);
        }
        if b < 0x80 {
            1
        } else if b < 0xe0 {
            2
        } else if b < 0xf0 {
            3
        } else {
            4
        }
    }

    /// Moves the cursor over the character it stands at and returns that
    /// character, or returns `None` at the end of the text.
    fn input_chars_next(&mut self) -> (c: Option<char>)
        requires
            old(self).wf(),
        ensures
            final(self).wf(),
            final(self).same_source(*old(self)),
            final(self).emitted() == old(self).emitted(),
            old(self).position() < old(self).source().len() ==> {
                &&& c == Some(char_at(old(self).source(), old(self).position()))
                &&& final(self).position() == old(self).position() + width_at(
                    old(self).source(),
                    old(self).position(),
                )
                &&& final(self).position() > old(self).position()
            },
            old(self).position() >= old(self).source().len() ==> {
                &&& c is None
                &&& final(self).position() == old(self).position()
            },
    {
        let c = self.input_chars_peek();
        if c.is_some() {
            let n = self.char_width();
            proof {
                self.lemma_source_valid();
                lemma_boundary_step(self.source(), self.position());
            }
            self.start += n;
        }
        c
    }

    /// The text between two character boundaries.
    fn slice_text(&self, from: usize, to: usize) -> (text: &'a str)
        requires
            from <= to <= self.source().len(),
            is_char_boundary(self.source(), from as int),
            is_char_boundary(self.source(), to as int),
        ensures
            text.spec_bytes() == self.source().subrange(from as int, to as int),
            text@ == decode_utf8(self.source().subrange(from as int, to as int)),
    {
        let input: &'a str = self.input;
        proof {
            self.lemma_source_valid();
            lemma_boundary_in_prefix(self.source(), from as int, to as int);
        }
        let (head, _) = input.split_at(to);
        let (_, text) = head.split_at(from);
        proof {
            assert(text.spec_bytes() =~= self.source().subrange(from as int, to as int));
            encode_utf8_decode_utf8(text@);
        }
        text
    }

    /// An error of the given kind that points at the cursor.
    fn error(&self, kind: ErrorKind) -> (e: Error<'a>)
        ensures
            e@ == (ErrorView { kind: kind@, offset: self.position() }),
            e.file_name == self.file_name(),
    {
        Error { kind, file_name: self.file_name, offset: self.start }
    }

    /// Appends a token of the given kind that covers the next `len` bytes,
    /// and moves the cursor past them.
    fn push_token(&mut self, kind: TokenKind, len: usize)
        requires
            old(self).wf(),
            old(self).position() + len <= old(self).source().len(),
            is_char_boundary(old(self).source(), old(self).position() + len),
        ensures
            final(self).wf(),
            stepped(
                *old(self),
                *final(self),
                Ok(()),
                Step::Emit { kind: kind@, end: old(self).position() + len },
            ),
    {
        let end = self.start + len;
        let span = Span {
            file_name: self.file_name,
            file_content: self.file_content,
            start: self.start,
            end,
        };
        self.start = end;
        self.tokens.push(Token { kind, span });
        assert(self.tokens@.drop_last() =~= old(self).emitted());
    }

    /// Skips a line comment: everything up to the end of the line, which
    /// stays.
    fn skip_line_comment(&mut self)
        requires
            old(self).wf(),
            old(self).position() < old(self).source().len(),
            old(self).source()[old(self).position()] != 0x0a,
        ensures
            final(self).wf(),
            final(self).position() > old(self).position(),
            stepped(
                *old(self),
                *final(self),
                Ok(()),
                Step::Skip { next: run_end(old(self).source(), old(self).position(), line_byte()) },
            ),
    {
        let input: &'a str = self.input;
        let all = input.as_bytes();
        let mut end = self.start + 1;
        while end < all.len() && all[end] != 0x0a
            invariant
                all@ == self.source(),
                self.position() < end <= all@.len(),
                forall|i: int| self.position() <= i < end ==> line_byte()(#[trigger] all@[i]),
            decreases all@.len() - end,
        {
            end += 1;
        }
        proof {
            let src = self.source();
            self.lemma_source_valid();
            lemma_run_end_from_inside(src, self.position(), end as int, line_byte());
            if end < src.len() {
                lemma_boundary_around_ascii(src, end as int);
            } else {
                lemma_boundary_at_end(src);
            }
        }
        self.start = end;
    }

    /// Skips a block comment together with the `*/` that closes it.
    fn skip_block_comment(&mut self) -> (r: Result<(), Error<'a>>)
        requires
            old(self).wf(),
            old(self).position() + 2 <= old(self).source().len(),
        ensures
            final(self).wf(),
            r is Ok ==> final(self).position() > old(self).position(),
            stepped(
                *old(self),
                *final(self),
                r,
                block_comment(old(self).source(), old(self).position()),
            ),
    {
        let input: &'a str = self.input;
        let all = input.as_bytes();
        let mut i = self.start + 2;
        while all.len() - i >= 2
            invariant
                *self == *old(self),
                self.wf(),
                all@ == self.source(),
                self.position() + 2 <= i <= all@.len(),
                comment_end(all@, i as int) == comment_end(all@, self.position() + 2),
            decreases all@.len() - i,
        {
            if all[i] == 0x2a && all[i + 1] == 0x2f {
                proof {
                    self.lemma_source_valid();
                    lemma_boundary_around_ascii(self.source(), i + 1);
                }
                self.start = i + 2;
                return Ok(());
            }
            i += 1;
        }
        Err(self.error(ErrorKind::UnterminatedComment))
    }

    /// Reads a character literal: a quote, one character, and a quote.
    fn scan_char_literal(&mut self) -> (r: Result<(), Error<'a>>)
        requires
            old(self).wf(),
            old(self).position() < old(self).source().len(),
            old(self).source()[old(self).position()] == 0x27,
        ensures
            final(self).wf(),
            r is Ok ==> final(self).position() > old(self).position(),
            stepped(
                *old(self),
                *final(self),
                r,
                char_literal(old(self).source(), old(self).position()),
            ),
    {
        let input: &'a str = self.input;
        let all = input.as_bytes();
        let open = self.start;
        proof {
            self.lemma_source_valid();
            lemma_boundary_around_ascii(self.source(), open as int);
        }
        if open + 1 >= all.len() {
            return Err(self.error(ErrorKind::UnterminatedCharLiteral));
        }
        self.start = open + 1;
        let c = self.char_here();
        let n = self.char_width();
        self.start = open;
        let close = open + 1 + n;
        if close < all.len() && all[close] == 0x27 {
            proof {
                lemma_boundary_around_ascii(self.source(), close as int);
            }
            self.push_token(TokenKind::Number(c as i64), n + 2);
            Ok(())
        } else {
            Err(self.error(ErrorKind::UnterminatedCharLiteral))
        }
    }

    /// Reads a string literal: everything between two double quotes, taken
    /// as it stands.
    fn scan_string(&mut self) -> (r: Result<(), Error<'a>>)
        requires
            old(self).wf(),
            old(self).position() < old(self).source().len(),
            old(self).source()[old(self).position()] == 0x22,
        ensures
            final(self).wf(),
            r is Ok ==> final(self).position() > old(self).position(),
            stepped(
                *old(self),
                *final(self),
                r,
                string_literal(old(self).source(), old(self).position()),
            ),
    {
        let input: &'a str = self.input;
        let all = input.as_bytes();
        let open = self.start;
        let mut close = open + 1;
        while close < all.len() && all[close] != 0x22
            invariant
                all@ == self.source(),
                open < close <= all@.len(),
                forall|i: int| open + 1 <= i < close ==> string_byte()(#[trigger] all@[i]),
            decreases all@.len() - close,
        {
            close += 1;
        }
        proof {
            lemma_run_end_from_inside(self.source(), open + 1, close as int, string_byte());
        }
        if close >= all.len() {
            return Err(self.error(ErrorKind::UnterminatedStringLiteral));
        }
        proof {
            self.lemma_source_valid();
            lemma_boundary_around_ascii(self.source(), open as int);
            lemma_boundary_around_ascii(self.source(), close as int);
        }
        let text = self.slice_text(open + 1, close);
        let kind = TokenKind::Str(String::from_str(text));
        self.push_token(kind, close + 1 - open);
        Ok(())
    }

    /// Reads an identifier or a keyword: the longest run of identifier
    /// characters.
    fn scan_word(&mut self)
        requires
            old(self).wf(),
            old(self).position() < old(self).source().len(),
            ident_byte()(old(self).source()[old(self).position()]),
        ensures
            final(self).wf(),
            final(self).position() > old(self).position(),
            stepped(*old(self), *final(self), Ok(()), word(old(self).source(), old(self).position())),
    {
        let input: &'a str = self.input;
        let all = input.as_bytes();
        let begin = self.start;
        let mut end = begin + 1;
        while end < all.len() && continues_ident(all[end] as char)
            invariant
                all@ == self.source(),
                begin < end <= all@.len(),
                forall|i: int| begin <= i < end ==> ident_byte()(#[trigger] all@[i]),
            decreases all@.len() - end,
        {
            end += 1;
        }
        proof {
            let src = self.source();
            self.lemma_source_valid();
            lemma_run_end_from_inside(src, begin as int, end as int, ident_byte());
            assert(ident_byte()(src[end - 1]));
            lemma_boundary_around_ascii(src, end - 1);
        }
        let kind = match keyword_of(slice_subrange(all, begin, end)) {
            Some(keyword) => keyword,
            None => TokenKind::Ident(String::from_str(self.slice_text(begin, end))),
        };
        self.push_token(kind, end - begin);
    }

    /// Reads a number: the longest run of decimal digits.
    fn scan_number(&mut self) -> (r: Result<(), Error<'a>>)
        requires
            old(self).wf(),
            old(self).position() < old(self).source().len(),
            digit_byte()(old(self).source()[old(self).position()]),
        ensures
            final(self).wf(),
            r is Ok ==> final(self).position() > old(self).position(),
            stepped(*old(self), *final(self), r, number(old(self).source(), old(self).position())),
    {
        let input: &'a str = self.input;
        let all = input.as_bytes();
        let begin = self.start;
        let mut end = begin;
        let mut value: i64 = 0;
        let mut overflow = false;
        assert(all@.subrange(begin as int, begin as int) =~= Seq::<u8>::empty());
        while end < all.len() && is_decimal(all[end] as char)
            invariant
                all@ == self.source(),
                begin <= end <= all@.len(),
                forall|i: int| begin <= i < end ==> digit_byte()(#[trigger] all@[i]),
                0 <= value,
                !overflow ==> value == decimal_value(all@.subrange(begin as int, end as int)),
                overflow ==> decimal_value(all@.subrange(begin as int, end as int)) > i64::MAX,
            decreases all@.len() - end,
        {
            let digit = (all[end] - 0x30) as i64;
            proof {
                let longer = all@.subrange(begin as int, end + 1);
                assert(longer.drop_last() =~= all@.subrange(begin as int, end as int));
                assert(longer.last() == all@[end as int]);
            }
            if !overflow {
                match value.checked_mul(10) {
                    Some(tens) => {
                        match tens.checked_add(digit) {
                            Some(sum) => {
                                value = sum;
                            },
                            None => {
                                overflow = true;
                            },
                        }
                    },
                    None => {
                        overflow = true;
                    },
                }
            }
            end += 1;
        }
        proof {
            let src = self.source();
            self.lemma_source_valid();
            lemma_run_end_from_inside(src, begin as int, end as int, digit_byte());
            assert(end > begin);
            assert(digit_byte()(src[end - 1]));
            lemma_boundary_around_ascii(src, end - 1);
        }
        if overflow {
            Err(self.error(ErrorKind::NumericOverflow))
        } else {
            self.push_token(TokenKind::Number(value), end - begin);
            Ok(())
        }
    }

    /// Skips the whitespace or the comment that starts at the cursor, which
    /// stands at the character `c`.  Returns `None`, and changes nothing,
    /// where neither starts there.
    fn skip_trivia(&mut self, c: char) -> (r: Option<Result<(), Error<'a>>>)
        requires
            old(self).wf(),
            old(self).position() < old(self).source().len(),
            c == char_at(old(self).source(), old(self).position()),
        ensures
            final(self).wf(),
            match trivia_at(old(self).source(), old(self).position()) {
                Some(step) => {
                    &&& r matches Some(result)
                    &&& stepped(*old(self), *final(self), result, step)
                    &&& result is Ok ==> old(self).position() < final(self).position()
                },
                None => r is None && *final(self) == *old(self),
            },
    {
        proof {
            lemma_comment_openers();
        }
        if is_space(c) {
            self.input_chars_next();
            Some(Ok(()))
        } else if self.starts_with("//") {
            self.skip_line_comment();
            Some(Ok(()))
        } else if self.starts_with("/*") {
            Some(self.skip_block_comment())
        } else {
            None
        }
    }

    /// Reads the token that starts at the cursor, which stands at the
    /// character `c`.
    fn scan_token(&mut self, c: char) -> (r: Result<(), Error<'a>>)
        requires
            old(self).wf(),
            old(self).position() < old(self).source().len(),
            c == char_at(old(self).source(), old(self).position()),
        ensures
            final(self).wf(),
            r is Ok ==> old(self).position() < final(self).position(),
            stepped(*old(self), *final(self), r, token_at(old(self).source(), old(self).position())),
    {
        let ghost src = self.source();
        let ghost pos = self.position();
        proof {
            self.lemma_source_valid();
            lemma_boundary_step(src, pos);
            if src[pos] < 0x80 {
                lemma_ascii_at(src, pos);
            } else {
                lemma_non_ascii_at(src, pos);
            }
        }
        if c == '\'' {
            return self.scan_char_literal();
        }
        if c == '"' {
            return self.scan_string();
        }
        let three = self.peek_bytes(3);
        if let Some(kind) = operator_of(three) {
            proof {
                lemma_operator_text(three@);
                assert forall|i: int| pos <= i < pos + three@.len() implies #[trigger] src[i]
                    < 0x80 by {
                    assert(src[i] == three@[i - pos]);
                }
                lemma_ascii_run_boundary(src, pos, three@.len() as int);
            }
            self.push_token(kind, three.len());
            return Ok(());
        }
        let two = self.peek_bytes(2);
        if let Some(kind) = operator_of(two) {
            proof {
                lemma_operator_text(two@);
                assert forall|i: int| pos <= i < pos + two@.len() implies #[trigger] src[i]
                    < 0x80 by {
                    assert(src[i] == two@[i - pos]);
                }
                lemma_ascii_run_boundary(src, pos, two@.len() as int);
            }
            self.push_token(kind, two.len());
            return Ok(());
        }
        if let Some(kind) = Token::from_char(c) {
            proof {
                lemma_boundary_around_ascii(src, pos);
            }
            self.push_token(kind, 1);
            return Ok(());
        }
        if begins_ident(c) {
            self.scan_word();
            return Ok(());
        }
        if is_decimal(c) {
            return self.scan_number();
        }
        Err(self.error(ErrorKind::UnrecognizedCharacter(c)))
    }

    /// Takes one step from the cursor: skips whitespace or a comment, reads
    /// one token, or fails.
    pub fn scan_step(&mut self) -> (r: Result<(), Error<'a>>)
        requires
            old(self).wf(),
            old(self).position() < old(self).source().len(),
        ensures
            final(self).wf(),
            r is Ok ==> old(self).position() < final(self).position(),
            stepped(*old(self), *final(self), r, step_at(old(self).source(), old(self).position())),
    {
        let c = self.char_here();
        match self.skip_trivia(c) {
            Some(r) => r,
            None => self.scan_token(c),
        }
    }

    /// Scans the text from the cursor to its end and appends the tokens
    /// read to `tokens`.  Scanning stops at the first error; the tokens
    /// read before it stay, and the cursor stays where the error is.
    pub fn scan(&mut self) -> (r: Result<(), Error<'a>>)
        requires
            old(self).wf(),
        ensures
            final(self).wf(),
            final(self).same_source(*old(self)),
            final(self).emitted().len() >= old(self).emitted().len(),
            final(self).emitted().subrange(0, old(self).emitted().len() as int) == old(self).emitted(),
            token_views(final(self).emitted()) == token_views(old(self).emitted()) + scan_from(
                old(self).source(),
                old(self).position(),
            ).tokens,
            forall|i: int|
                old(self).emitted().len() <= i < final(self).emitted().len() ==> {
                    &&& (#[trigger] final(self).emitted()[i]).span.file_name == old(self).file_name()
                    &&& final(self).emitted()[i].span.file_content == old(self).file_content()
                },
            match r {
                Ok(()) => {
                    &&& scan_from(old(self).source(), old(self).position()).error is None
                    &&& final(self).position() == old(self).source().len()
                },
                Err(e) => {
                    &&& scan_from(old(self).source(), old(self).position()).error == Some(e@)
                    &&& e.file_name == old(self).file_name()
                    &&& final(self).position() == e.offset
                },
            },
    {
        let input: &'a str = self.input;
        let len = input.as_bytes().len();
        let ghost src = self.source();
        let ghost whole = scan_from(src, self.position());
        let ghost before = old(self).emitted();
        assert(token_views(self.tokens@) + whole.tokens =~= token_views(before) + whole.tokens);
        while self.start < len
            invariant
                self.wf(),
                self.same_source(*old(self)),
                src == self.source(),
                len == src.len(),
                before == old(self).emitted(),
                whole == scan_from(src, old(self).position()),
                self.tokens@.len() >= before.len(),
                self.tokens@.subrange(0, before.len() as int) == before,
                token_views(self.tokens@) + scan_from(src, self.position()).tokens == token_views(
                    before,
                ) + whole.tokens,
                scan_from(src, self.position()).error == whole.error,
                forall|i: int|
                    before.len() <= i < self.tokens@.len() ==> {
                        &&& (#[trigger] self.tokens@[i]).span.file_name == old(self).file_name()
                        &&& self.tokens@[i].span.file_content == old(self).file_content()
                    },
            decreases len - self.start,
        {
            let ghost prev = *self;
            let ghost step = step_at(src, self.position());
            let r = self.scan_step();
            proof {
                match step {
                    Step::Skip { next } => {},
                    Step::Emit { kind, end } => {
                        let t = self.tokens@.last();
                        assert(self.tokens@ =~= prev.tokens@.push(t));
                        assert(token_views(self.tokens@) =~= token_views(prev.tokens@).push(t@));
                        assert(token_views(self.tokens@) + scan_from(src, self.position()).tokens
                            =~= token_views(prev.tokens@) + scan_from(src, prev.position()).tokens);
                        assert(self.tokens@.subrange(0, before.len() as int) =~= prev.tokens@.subrange(
                            0,
                            before.len() as int,
                        ));
                    },
                    Step::Fail { kind } => {},
                }
            }
            match r {
                Ok(()) => {},
                Err(e) => {
                    proof {
                        assert(token_views(self.tokens@) =~= token_views(before) + whole.tokens);
                    }
                    return Err(e);
                },
            }
        }
        proof {
            assert(token_views(self.tokens@) =~= token_views(before) + whole.tokens);
        }
        Ok(())
    }
}

/// Scans the whole of `source_text`, the text of the file `file_name`,
/// without parsing it.  Returns its tokens in the order of the source, or
/// the first error.
pub fn tokenize<'a>(source_text: &'a str, file_name: &'a str) -> (r: Result<
    Vec<Token<'a>>,
    Error<'a>,
>)
    ensures
        match r {
            Ok(tokens) => {
                &&& scan_all(source_text.spec_bytes()).error is None
                &&& token_views(tokens@) == scan_all(source_text.spec_bytes()).tokens
                &&& forall|i: int|
                    0 <= i < tokens@.len() ==> {
                        &&& (#[trigger] tokens@[i]).span.file_name == file_name
                        &&& tokens@[i].span.file_content == source_text
                    }
            },
            Err(e) => {
                &&& scan_all(source_text.spec_bytes()).error == Some(e@)
                &&& e.file_name == file_name
            },
        },
{
    let mut lexer = Lexer::new(source_text, file_name, source_text);
    match lexer.scan() {
        Ok(()) => {
            assert(token_views(lexer.tokens@) =~= scan_all(source_text.spec_bytes()).tokens);
            Ok(lexer.tokens)
        },
        Err(e) => Err(e),
    }
}

} // verus!
