//! The lexical vocabulary: token kinds, tokens and the spans that locate
//! them in the source text.

use vstd::prelude::*;
use vstd::std_specs::cmp::PartialEqSpecImpl;
use vstd::string::*;

verus! {

/// What a token is: an identifier, a literal, a symbol, an operator or a
/// keyword.
#[derive(Debug)]
pub enum TokenKind {
    /// Identifier
    Ident(String),
    /// Number literal
    Number(i64),
    /// String literal
    Str(String),
    /// Single-character symbol
    Symbol(char),
    /// `->`
    Arrow,
    Extern,
    Typedef,
    Int,
    Char,
    Void,
    Struct,
    /// `_Bool`
    Bool,
    If,
    Else,
    For,
    Do,
    While,
    Switch,
    Case,
    Break,
    Continue,
    /// `==`
    Eq,
    /// `!=`
    Ne,
    /// `<=`
    Le,
    /// `>=`
    Ge,
    /// `||`
    LogOr,
    /// `&&`
    LogAnd,
    /// `<<`
    Shl,
    /// `>>`
    Shr,
    /// `++`
    Inc,
    /// `--`
    Dec,
    /// `*=`
    MulEq,
    /// `/=`
    DivEq,
    /// `%=`
    ModEq,
    /// `+=`
    AddEq,
    /// `-=`
    SubEq,
    /// `<<=`
    ShlEq,
    /// `>>=`
    ShrEq,
    /// `&=`
    AndEq,
    /// `^=`
    XorEq,
    /// `|=`
    OrEq,
    Return,
    Sizeof,
    /// `_Alignof`
    Alignof,
    Typeof,
    /// Function-like macro parameter
    Param,
    /// End marker
    Eof,
}

/// A token kind as a mathematical value: owned text is replaced by the
/// sequence of its characters.
pub enum TokenKindView {
    Ident(Seq<char>),
    Number(i64),
    Str(Seq<char>),
    Symbol(char),
    Arrow,
    Extern,
    Typedef,
    Int,
    Char,
    Void,
    Struct,
    Bool,
    If,
    Else,
    For,
    Do,
    While,
    Switch,
    Case,
    Break,
    Continue,
    Eq,
    Ne,
    Le,
    Ge,
    LogOr,
    LogAnd,
    Shl,
    Shr,
    Inc,
    Dec,
    MulEq,
    DivEq,
    ModEq,
    AddEq,
    SubEq,
    ShlEq,
    ShrEq,
    AndEq,
    XorEq,
    OrEq,
    Return,
    Sizeof,
    Alignof,
    Typeof,
    Param,
    Eof,
}

impl View for TokenKind {
    type V = TokenKindView;

    open spec fn view(&self) -> TokenKindView {
        match *self {
            TokenKind::Ident(s) => TokenKindView::Ident(s@),
            TokenKind::Number(n) => TokenKindView::Number(n),
            TokenKind::Str(s) => TokenKindView::Str(s@),
            TokenKind::Symbol(c) => TokenKindView::Symbol(c),
            TokenKind::Arrow => TokenKindView::Arrow,
            TokenKind::Extern => TokenKindView::Extern,
            TokenKind::Typedef => TokenKindView::Typedef,
            TokenKind::Int => TokenKindView::Int,
            TokenKind::Char => TokenKindView::Char,
            TokenKind::Void => TokenKindView::Void,
            TokenKind::Struct => TokenKindView::Struct,
            TokenKind::Bool => TokenKindView::Bool,
            TokenKind::If => TokenKindView::If,
            TokenKind::Else => TokenKindView::Else,
            TokenKind::For => TokenKindView::For,
            TokenKind::Do => TokenKindView::Do,
            TokenKind::While => TokenKindView::While,
            TokenKind::Switch => TokenKindView::Switch,
            TokenKind::Case => TokenKindView::Case,
            TokenKind::Break => TokenKindView::Break,
            TokenKind::Continue => TokenKindView::Continue,
            TokenKind::Eq => TokenKindView::Eq,
            TokenKind::Ne => TokenKindView::Ne,
            TokenKind::Le => TokenKindView::Le,
            TokenKind::Ge => TokenKindView::Ge,
            TokenKind::LogOr => TokenKindView::LogOr,
            TokenKind::LogAnd => TokenKindView::LogAnd,
            TokenKind::Shl => TokenKindView::Shl,
            TokenKind::Shr => TokenKindView::Shr,
            TokenKind::Inc => TokenKindView::Inc,
            TokenKind::Dec => TokenKindView::Dec,
            TokenKind::MulEq => TokenKindView::MulEq,
            TokenKind::DivEq => TokenKindView::DivEq,
            TokenKind::ModEq => TokenKindView::ModEq,
            TokenKind::AddEq => TokenKindView::AddEq,
            TokenKind::SubEq => TokenKindView::SubEq,
            TokenKind::ShlEq => TokenKindView::ShlEq,
            TokenKind::ShrEq => TokenKindView::ShrEq,
            TokenKind::AndEq => TokenKindView::AndEq,
            TokenKind::XorEq => TokenKindView::XorEq,
            TokenKind::OrEq => TokenKindView::OrEq,
            TokenKind::Return => TokenKindView::Return,
            TokenKind::Sizeof => TokenKindView::Sizeof,
            TokenKind::Alignof => TokenKindView::Alignof,
            TokenKind::Typeof => TokenKindView::Typeof,
            TokenKind::Param => TokenKindView::Param,
            TokenKind::Eof => TokenKindView::Eof,
        }
    }
}

impl Clone for TokenKind {
    fn clone(&self) -> (kind: TokenKind)
        ensures
            kind@ == self@,
    {
        match self {
            TokenKind::Ident(s) => TokenKind::Ident(s.clone()),
            TokenKind::Number(n) => TokenKind::Number(*n),
            TokenKind::Str(s) => TokenKind::Str(s.clone()),
            TokenKind::Symbol(c) => TokenKind::Symbol(*c),
            TokenKind::Arrow => TokenKind::Arrow,
            TokenKind::Extern => TokenKind::Extern,
            TokenKind::Typedef => TokenKind::Typedef,
            TokenKind::Int => TokenKind::Int,
            TokenKind::Char => TokenKind::Char,
            TokenKind::Void => TokenKind::Void,
            TokenKind::Struct => TokenKind::Struct,
            TokenKind::Bool => TokenKind::Bool,
            TokenKind::If => TokenKind::If,
            TokenKind::Else => TokenKind::Else,
            TokenKind::For => TokenKind::For,
            TokenKind::Do => TokenKind::Do,
            TokenKind::While => TokenKind::While,
            TokenKind::Switch => TokenKind::Switch,
            TokenKind::Case => TokenKind::Case,
            TokenKind::Break => TokenKind::Break,
            TokenKind::Continue => TokenKind::Continue,
            TokenKind::Eq => TokenKind::Eq,
            TokenKind::Ne => TokenKind::Ne,
            TokenKind::Le => TokenKind::Le,
            TokenKind::Ge => TokenKind::Ge,
            TokenKind::LogOr => TokenKind::LogOr,
            TokenKind::LogAnd => TokenKind::LogAnd,
            TokenKind::Shl => TokenKind::Shl,
            TokenKind::Shr => TokenKind::Shr,
            TokenKind::Inc => TokenKind::Inc,
            TokenKind::Dec => TokenKind::Dec,
            TokenKind::MulEq => TokenKind::MulEq,
            TokenKind::DivEq => TokenKind::DivEq,
            TokenKind::ModEq => TokenKind::ModEq,
            TokenKind::AddEq => TokenKind::AddEq,
            TokenKind::SubEq => TokenKind::SubEq,
            TokenKind::ShlEq => TokenKind::ShlEq,
            TokenKind::ShrEq => TokenKind::ShrEq,
            TokenKind::AndEq => TokenKind::AndEq,
            TokenKind::XorEq => TokenKind::XorEq,
            TokenKind::OrEq => TokenKind::OrEq,
            TokenKind::Return => TokenKind::Return,
            TokenKind::Sizeof => TokenKind::Sizeof,
            TokenKind::Alignof => TokenKind::Alignof,
            TokenKind::Typeof => TokenKind::Typeof,
            TokenKind::Param => TokenKind::Param,
            TokenKind::Eof => TokenKind::Eof,
        }
    }
}

impl PartialEq for TokenKind {
    fn eq(&self, other: &TokenKind) -> (r: bool) {
        match (self, other) {
            (TokenKind::Ident(a), TokenKind::Ident(b)) => *a == *b,
            (TokenKind::Number(a), TokenKind::Number(b)) => *a == *b,
            (TokenKind::Str(a), TokenKind::Str(b)) => *a == *b,
            (TokenKind::Symbol(a), TokenKind::Symbol(b)) => *a == *b,
            (TokenKind::Arrow, TokenKind::Arrow) => true,
            (TokenKind::Extern, TokenKind::Extern) => true,
            (TokenKind::Typedef, TokenKind::Typedef) => true,
            (TokenKind::Int, TokenKind::Int) => true,
            (TokenKind::Char, TokenKind::Char) => true,
            (TokenKind::Void, TokenKind::Void) => true,
            (TokenKind::Struct, TokenKind::Struct) => true,
            (TokenKind::Bool, TokenKind::Bool) => true,
            (TokenKind::If, TokenKind::If) => true,
            (TokenKind::Else, TokenKind::Else) => true,
            (TokenKind::For, TokenKind::For) => true,
            (TokenKind::Do, TokenKind::Do) => true,
            (TokenKind::While, TokenKind::While) => true,
            (TokenKind::Switch, TokenKind::Switch) => true,
            (TokenKind::Case, TokenKind::Case) => true,
            (TokenKind::Break, TokenKind::Break) => true,
            (TokenKind::Continue, TokenKind::Continue) => true,
            (TokenKind::Eq, TokenKind::Eq) => true,
            (TokenKind::Ne, TokenKind::Ne) => true,
            (TokenKind::Le, TokenKind::Le) => true,
            (TokenKind::Ge, TokenKind::Ge) => true,
            (TokenKind::LogOr, TokenKind::LogOr) => true,
            (TokenKind::LogAnd, TokenKind::LogAnd) => true,
            (TokenKind::Shl, TokenKind::Shl) => true,
            (TokenKind::Shr, TokenKind::Shr) => true,
            (TokenKind::Inc, TokenKind::Inc) => true,
            (TokenKind::Dec, TokenKind::Dec) => true,
            (TokenKind::MulEq, TokenKind::MulEq) => true,
            (TokenKind::DivEq, TokenKind::DivEq) => true,
            (TokenKind::ModEq, TokenKind::ModEq) => true,
            (TokenKind::AddEq, TokenKind::AddEq) => true,
            (TokenKind::SubEq, TokenKind::SubEq) => true,
            (TokenKind::ShlEq, TokenKind::ShlEq) => true,
            (TokenKind::ShrEq, TokenKind::ShrEq) => true,
            (TokenKind::AndEq, TokenKind::AndEq) => true,
            (TokenKind::XorEq, TokenKind::XorEq) => true,
            (TokenKind::OrEq, TokenKind::OrEq) => true,
            (TokenKind::Return, TokenKind::Return) => true,
            (TokenKind::Sizeof, TokenKind::Sizeof) => true,
            (TokenKind::Alignof, TokenKind::Alignof) => true,
            (TokenKind::Typeof, TokenKind::Typeof) => true,
            (TokenKind::Param, TokenKind::Param) => true,
            (TokenKind::Eof, TokenKind::Eof) => true,
            _ => false,
        }
    }
}

/// Two token kinds are equal where they are the same kind and hold the
/// same text or value.
impl PartialEqSpecImpl for TokenKind {
    open spec fn obeys_eq_spec() -> bool {
        true
    }

    open spec fn eq_spec(&self, other: &TokenKind) -> bool {
        self@ == other@
    }
}

impl Eq for TokenKind {

}

/// Where a token was read from: the file, its full text, and the half-open
/// byte range `[start, end)` of that text.
#[derive(Debug, Clone, Copy)]
pub struct Span<'a> {
    pub file_name: &'a str,
    pub file_content: &'a str,
    pub start: usize,
    pub end: usize,
}

/// A token: what it is and where it was read from.
#[derive(Debug)]
pub struct Token<'a> {
    pub kind: TokenKind,
    pub span: Span<'a>,
}

impl<'a> Clone for Token<'a> {
    fn clone(&self) -> (token: Token<'a>)
        ensures
            token@ == self@,
            token.span == self.span,
    {
        Token { kind: self.kind.clone(), span: self.span }
    }
}

/// A token as a mathematical value: its kind and the byte range it covers.
pub struct TokenView {
    pub kind: TokenKindView,
    pub start: int,
    pub end: int,
}

impl<'a> View for Token<'a> {
    type V = TokenView;

    open spec fn view(&self) -> TokenView {
        TokenView { kind: self.kind@, start: self.span.start as int, end: self.span.end as int }
    }
}

/// The views of a sequence of tokens, in order.
pub open spec fn token_views(tokens: Seq<Token<'_>>) -> Seq<TokenView> {
    tokens.map_values(|t: Token| t@)
}

/// The view of an optional token kind.
pub open spec fn kind_view(kind: Option<TokenKind>) -> Option<TokenKindView> {
    match kind {
        Some(k) => Some(k@),
        None => None,
    }
}

/// The operator spelled by `text`, if any.  Operators are two or three
/// characters long.
#[verifier::opaque]
pub open spec fn operator_kind(text: Seq<u8>) -> Option<TokenKindView> {
    if text == "<<=".spec_bytes() {
        Some(TokenKindView::ShlEq)
    } else if text == ">>=".spec_bytes() {
        Some(TokenKindView::ShrEq)
    } else if text == "!=".spec_bytes() {
        Some(TokenKindView::Ne)
    } else if text == "&&".spec_bytes() {
        Some(TokenKindView::LogAnd)
    } else if text == "++".spec_bytes() {
        Some(TokenKindView::Inc)
    } else if text == "--".spec_bytes() {
        Some(TokenKindView::Dec)
    } else if text == "->".spec_bytes() {
        Some(TokenKindView::Arrow)
    } else if text == "<<".spec_bytes() {
        Some(TokenKindView::Shl)
    } else if text == "<=".spec_bytes() {
        Some(TokenKindView::Le)
    } else if text == "==".spec_bytes() {
        Some(TokenKindView::Eq)
    } else if text == ">=".spec_bytes() {
        Some(TokenKindView::Ge)
    } else if text == ">>".spec_bytes() {
        Some(TokenKindView::Shr)
    } else if text == "||".spec_bytes() {
        Some(TokenKindView::LogOr)
    } else if text == "*=".spec_bytes() {
        Some(TokenKindView::MulEq)
    } else if text == "/=".spec_bytes() {
        Some(TokenKindView::DivEq)
    } else if text == "%=".spec_bytes() {
        Some(TokenKindView::ModEq)
    } else if text == "+=".spec_bytes() {
        Some(TokenKindView::AddEq)
    } else if text == "-=".spec_bytes() {
        Some(TokenKindView::SubEq)
    } else if text == "&=".spec_bytes() {
        Some(TokenKindView::AndEq)
    } else if text == "^=".spec_bytes() {
        Some(TokenKindView::XorEq)
    } else if text == "|=".spec_bytes() {
        Some(TokenKindView::OrEq)
    } else {
        None
    }
}

/// The keyword spelled by `text`, if any.
#[verifier::opaque]
pub open spec fn keyword_kind(text: Seq<u8>) -> Option<TokenKindView> {
    if text == "int".spec_bytes() {
        Some(TokenKindView::Int)
    } else if text == "return".spec_bytes() {
        Some(TokenKindView::Return)
    } else if text == "extern".spec_bytes() {
        Some(TokenKindView::Extern)
    } else if text == "typedef".spec_bytes() {
        Some(TokenKindView::Typedef)
    } else if text == "char".spec_bytes() {
        Some(TokenKindView::Char)
    } else if text == "void".spec_bytes() {
        Some(TokenKindView::Void)
    } else if text == "struct".spec_bytes() {
        Some(TokenKindView::Struct)
    } else if text == "_Bool".spec_bytes() {
        Some(TokenKindView::Bool)
    } else if text == "if".spec_bytes() {
        Some(TokenKindView::If)
    } else if text == "else".spec_bytes() {
        Some(TokenKindView::Else)
    } else if text == "for".spec_bytes() {
        Some(TokenKindView::For)
    } else if text == "do".spec_bytes() {
        Some(TokenKindView::Do)
    } else if text == "while".spec_bytes() {
        Some(TokenKindView::While)
    } else if text == "switch".spec_bytes() {
        Some(TokenKindView::Switch)
    } else if text == "case".spec_bytes() {
        Some(TokenKindView::Case)
    } else if text == "break".spec_bytes() {
        Some(TokenKindView::Break)
    } else if text == "continue".spec_bytes() {
        Some(TokenKindView::Continue)
    } else if text == "sizeof".spec_bytes() {
        Some(TokenKindView::Sizeof)
    } else if text == "_Alignof".spec_bytes() {
        Some(TokenKindView::Alignof)
    } else if text == "typeof".spec_bytes() {
        Some(TokenKindView::Typeof)
    } else {
        None
    }
}

/// The characters that are tokens by themselves.
pub open spec fn is_symbol(c: char) -> bool {
    ||| c == '+'
    ||| c == '-'
    ||| c == '*'
    ||| c == '/'
    ||| c == '%'
    ||| c == '<'
    ||| c == '>'
    ||| c == '&'
    ||| c == '^'
    ||| c == '|'
    ||| c == '!'
    ||| c == '~'
    ||| c == '='
    ||| c == '('
    ||| c == ')'
    ||| c == '{'
    ||| c == '}'
    ||| c == '['
    ||| c == ']'
    ||| c == ';'
    ||| c == ','
    ||| c == '.'
    ||| c == ':'
}

/// The single-character token spelled by `c`, if any.
pub open spec fn symbol_kind(c: char) -> Option<TokenKindView> {
    if is_symbol(c) {
        Some(TokenKindView::Symbol(c))
    } else {
        None
    }
}

/// Whether two byte strings are equal.
pub fn bytes_eq(a: &[u8], b: &[u8]) -> (r: bool)
    ensures
        r == (a@ == b@),
{
    if a.len() != b.len() {
        return false;
    }
    let mut i: usize = 0;
    while i < a.len()
        invariant
            a@.len() == b@.len(),
            i <= a@.len(),
            forall|j: int| 0 <= j < i ==> a@[j] == b@[j],
        decreases a.len() - i,
    {
        if a[i] != b[i] {
            return false;
        }
        i += 1;
    }
    assert(a@ =~= b@);
    true
}

/// Looks `text` up among the operator spellings.
pub fn operator_of(text: &[u8]) -> (r: Option<TokenKind>)
    ensures
        kind_view(r) == operator_kind(text@),
{
    reveal(operator_kind);
    if bytes_eq(text, "<<=".as_bytes()) {
        Some(TokenKind::ShlEq)
    } else if bytes_eq(text, ">>=".as_bytes()) {
        Some(TokenKind::ShrEq)
    } else if bytes_eq(text, "!=".as_bytes()) {
        Some(TokenKind::Ne)
    } else if bytes_eq(text, "&&".as_bytes()) {
        Some(TokenKind::LogAnd)
    } else if bytes_eq(text, "++".as_bytes()) {
        Some(TokenKind::Inc)
    } else if bytes_eq(text, "--".as_bytes()) {
        Some(TokenKind::Dec)
    } else if bytes_eq(text, "->".as_bytes()) {
        Some(TokenKind::Arrow)
    } else if bytes_eq(text, "<<".as_bytes()) {
        Some(TokenKind::Shl)
    } else if bytes_eq(text, "<=".as_bytes()) {
        Some(TokenKind::Le)
    } else if bytes_eq(text, "==".as_bytes()) {
        Some(TokenKind::Eq)
    } else if bytes_eq(text, ">=".as_bytes()) {
        Some(TokenKind::Ge)
    } else if bytes_eq(text, ">>".as_bytes()) {
        Some(TokenKind::Shr)
    } else if bytes_eq(text, "||".as_bytes()) {
        Some(TokenKind::LogOr)
    } else if bytes_eq(text, "*=".as_bytes()) {
        Some(TokenKind::MulEq)
    } else if bytes_eq(text, "/=".as_bytes()) {
        Some(TokenKind::DivEq)
    } else if bytes_eq(text, "%=".as_bytes()) {
        Some(TokenKind::ModEq)
    } else if bytes_eq(text, "+=".as_bytes()) {
        Some(TokenKind::AddEq)
    } else if bytes_eq(text, "-=".as_bytes()) {
        Some(TokenKind::SubEq)
    } else if bytes_eq(text, "&=".as_bytes()) {
        Some(TokenKind::AndEq)
    } else if bytes_eq(text, "^=".as_bytes()) {
        Some(TokenKind::XorEq)
    } else if bytes_eq(text, "|=".as_bytes()) {
        Some(TokenKind::OrEq)
    } else {
        None
    }
}

/// Looks `text` up among the keywords.
pub fn keyword_of(text: &[u8]) -> (r: Option<TokenKind>)
    ensures
        kind_view(r) == keyword_kind(text@),
{
    reveal(keyword_kind);
    if bytes_eq(text, "int".as_bytes()) {
        Some(TokenKind::Int)
    } else if bytes_eq(text, "return".as_bytes()) {
        Some(TokenKind::Return)
    } else if bytes_eq(text, "extern".as_bytes()) {
        Some(TokenKind::Extern)
    } else if bytes_eq(text, "typedef".as_bytes()) {
        Some(TokenKind::Typedef)
    } else if bytes_eq(text, "char".as_bytes()) {
        Some(TokenKind::Char)
    } else if bytes_eq(text, "void".as_bytes()) {
        Some(TokenKind::Void)
    } else if bytes_eq(text, "struct".as_bytes()) {
        Some(TokenKind::Struct)
    } else if bytes_eq(text, "_Bool".as_bytes()) {
        Some(TokenKind::Bool)
    } else if bytes_eq(text, "if".as_bytes()) {
        Some(TokenKind::If)
    } else if bytes_eq(text, "else".as_bytes()) {
        Some(TokenKind::Else)
    } else if bytes_eq(text, "for".as_bytes()) {
        Some(TokenKind::For)
    } else if bytes_eq(text, "do".as_bytes()) {
        Some(TokenKind::Do)
    } else if bytes_eq(text, "while".as_bytes()) {
        Some(TokenKind::While)
    } else if bytes_eq(text, "switch".as_bytes()) {
        Some(TokenKind::Switch)
    } else if bytes_eq(text, "case".as_bytes()) {
        Some(TokenKind::Case)
    } else if bytes_eq(text, "break".as_bytes()) {
        Some(TokenKind::Break)
    } else if bytes_eq(text, "continue".as_bytes()) {
        Some(TokenKind::Continue)
    } else if bytes_eq(text, "sizeof".as_bytes()) {
        Some(TokenKind::Sizeof)
    } else if bytes_eq(text, "_Alignof".as_bytes()) {
        Some(TokenKind::Alignof)
    } else if bytes_eq(text, "typeof".as_bytes()) {
        Some(TokenKind::Typeof)
    } else {
        None
    }
}

impl<'a> Token<'a> {
    /// The operator that `s` spells, or `None` where it spells none.
    pub fn from_str(s: &str) -> (r: Option<TokenKind>)
        ensures
            kind_view(r) == operator_kind(s.spec_bytes()),
    {
        operator_of(s.as_bytes())
    }

    /// The single-character token that `c` spells, or `None` where it
    /// spells none.
    pub fn from_char(c: char) -> (r: Option<TokenKind>)
        ensures
            kind_view(r) == symbol_kind(c),
    {
        match c {
            '+' | '-' | '*' | '/' | '%' | '<' | '>' | '&' | '^' | '|' | '!' | '~' | '=' | '('
            | ')' | '{' | '}' | '[' | ']' | ';' | ',' | '.' | ':' => Some(TokenKind::Symbol(c)),
            _ => None,
        }
    }
}

} // verus!
