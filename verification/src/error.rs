//! Errors reported by the scanner and the parser.
//!
//! Every error is fatal to the compilation unit it occurs in: scanning and
//! parsing stop at the first one.

use crate::lexer::token::{TokenKind, TokenKindView};
use vstd::prelude::*;

verus! {

/// What went wrong.
#[derive(Debug, Clone)]
pub enum ErrorKind {
    /// A character that starts no token; carries the character.
    UnrecognizedCharacter(char),
    /// A character literal without its closing quote.
    UnterminatedCharLiteral,
    /// A string literal without its closing quote.
    UnterminatedStringLiteral,
    /// A block comment without its closing `*/`.
    UnterminatedComment,
    /// A number that does not fit the range it has to fit.
    NumericOverflow,
    /// A token that names no type where a type was required.
    InvalidTypeSpecifier,
    /// A token that is no identifier where one was required.
    InvalidIdentifier,
    /// A construct that is recognised but not handled.
    UnsupportedFeature,
    /// A token other than the one the grammar requires at this point.
    UnexpectedToken { expected: TokenKind, found: TokenKind },
}

/// An error kind as a mathematical value.
pub enum ErrorKindView {
    UnrecognizedCharacter(char),
    UnterminatedCharLiteral,
    UnterminatedStringLiteral,
    UnterminatedComment,
    NumericOverflow,
    InvalidTypeSpecifier,
    InvalidIdentifier,
    UnsupportedFeature,
    UnexpectedToken { expected: TokenKindView, found: TokenKindView },
}

impl View for ErrorKind {
    type V = ErrorKindView;

    open spec fn view(&self) -> ErrorKindView {
        match *self {
            ErrorKind::UnrecognizedCharacter(c) => ErrorKindView::UnrecognizedCharacter(c),
            ErrorKind::UnterminatedCharLiteral => ErrorKindView::UnterminatedCharLiteral,
            ErrorKind::UnterminatedStringLiteral => ErrorKindView::UnterminatedStringLiteral,
            ErrorKind::UnterminatedComment => ErrorKindView::UnterminatedComment,
            ErrorKind::NumericOverflow => ErrorKindView::NumericOverflow,
            ErrorKind::InvalidTypeSpecifier => ErrorKindView::InvalidTypeSpecifier,
            ErrorKind::InvalidIdentifier => ErrorKindView::InvalidIdentifier,
            ErrorKind::UnsupportedFeature => ErrorKindView::UnsupportedFeature,
            ErrorKind::UnexpectedToken { expected, found } => ErrorKindView::UnexpectedToken {
                expected: expected@,
                found: found@,
            },
        }
    }
}

/// What went wrong, in which file, and at which byte of its text.
#[derive(Debug, Clone)]
pub struct Error<'a> {
    pub kind: ErrorKind,
    pub file_name: &'a str,
    pub offset: usize,
}

/// An error as a mathematical value: its kind and the byte offset it
/// points at.
pub struct ErrorView {
    pub kind: ErrorKindView,
    pub offset: int,
}

impl<'a> View for Error<'a> {
    type V = ErrorView;

    open spec fn view(&self) -> ErrorView {
        ErrorView { kind: self.kind@, offset: self.offset as int }
    }
}

} // verus!
