//! The grammar of declarations, as mathematical functions of the token
//! sequence.
//!
//! A declaration is a type specifier followed by a declarator and a
//! semicolon.  The declarator names what is declared and lists the
//! derivations (pointer, array, function) that lead from the specifier's
//! type to the declared one.

use crate::common::{size_of, TypeView};
use crate::error::{ErrorKindView, ErrorView};
use crate::lexer::token::{TokenKindView, TokenView};
use vstd::prelude::*;

verus! {

/// The kind of the token at index `i`, or the end marker past the last
/// token.
pub open spec fn kind_at(tokens: Seq<TokenView>, i: int) -> TokenKindView {
    if 0 <= i < tokens.len() {
        tokens[i].kind
    } else {
        TokenKindView::Eof
    }
}

/// The byte offset that an error at token `i` points at: the start of that
/// token, or the end of the last token where `i` is past it.
pub open spec fn offset_at(tokens: Seq<TokenView>, i: int) -> int {
    if 0 <= i < tokens.len() {
        tokens[i].start
    } else if tokens.len() > 0 {
        tokens.last().end
    } else {
        0
    }
}

/// An error of the given kind at token `i`.
pub open spec fn error_at(tokens: Seq<TokenView>, i: int, kind: ErrorKindView) -> ErrorView {
    ErrorView { kind, offset: offset_at(tokens, i) }
}

/// The error of finding the token at index `i` where `expected` is
/// required.
pub open spec fn unexpected(tokens: Seq<TokenView>, i: int, expected: TokenKindView) -> ErrorView {
    error_at(
        tokens,
        i,
        ErrorKindView::UnexpectedToken { expected, found: kind_at(tokens, i) },
    )
}

/// Whether the token at index `i` is the symbol `c`.
pub open spec fn is_symbol_at(tokens: Seq<TokenView>, i: int, c: char) -> bool {
    kind_at(tokens, i) == TokenKindView::Symbol(c)
}

/// A parsed value together with the index of the first token after it.
pub struct Parsed<T> {
    pub value: T,
    pub next: int,
}

/// A parameter of a function: its type and its name.
pub struct ParamView {
    pub ty: TypeView,
    pub name: Seq<char>,
}

/// One step from a type to a type derived from it.
pub enum DerivationView {
    /// Pointer to the type.
    Pointer,
    /// Array of `len` elements of the type; `at` is the index of the token
    /// that opens the array suffix.
    Array { len: u32, at: int },
    /// Function that returns the type and takes the given parameters.
    Function { params: Seq<TypeView> },
}

/// What a declarator says: the declared name and the derivations that lead
/// to its type, outermost first, as one reads a declarator aloud ("array of
/// three pointers to ...").
pub struct DeclaratorView {
    pub name: Seq<char>,
    pub derivations: Seq<DerivationView>,
}

/// A declaration: a name and its resolved type.
pub struct DeclarationView {
    pub ty: TypeView,
    pub name: Seq<char>,
}

/// The length that stands for an array declared without one.
pub const FLEXIBLE_LENGTH: u32 = 0;

/// The type named by the specifier at index `pos`.
pub open spec fn specifier(tokens: Seq<TokenView>, pos: int) -> Result<TypeView, ErrorView> {
    match kind_at(tokens, pos) {
        TokenKindView::Void => Ok(TypeView::Void),
        TokenKindView::Bool => Ok(TypeView::Bool),
        TokenKindView::Char => Ok(TypeView::Char),
        TokenKindView::Int => Ok(TypeView::Int),
        TokenKindView::Struct => Err(error_at(tokens, pos, ErrorKindView::UnsupportedFeature)),
        _ => Err(error_at(tokens, pos, ErrorKindView::InvalidTypeSpecifier)),
    }
}

/// The index of the first token at or after `pos` that is not `*`.
pub open spec fn pointers_end(tokens: Seq<TokenView>, pos: int) -> int
    decreases tokens.len() - pos,
{
    if is_symbol_at(tokens, pos, '*') {
        pointers_end(tokens, pos + 1)
    } else {
        pos
    }
}

/// The type `ty` behind `n` pointers.
pub open spec fn pointer_chain(ty: TypeView, n: int) -> TypeView
    decreases n,
{
    if n <= 0 {
        ty
    } else {
        TypeView::Pointer(Box::new(pointer_chain(ty, n - 1)))
    }
}

/// The identifier at index `pos`.
pub open spec fn identifier(tokens: Seq<TokenView>, pos: int) -> Result<Seq<char>, ErrorView> {
    match kind_at(tokens, pos) {
        TokenKindView::Ident(name) => Ok(name),
        _ => Err(error_at(tokens, pos, ErrorKindView::InvalidIdentifier)),
    }
}

/// A parameter that starts at index `pos`: a specifier, any number of `*`,
/// and an identifier.
pub open spec fn param(tokens: Seq<TokenView>, pos: int) -> Result<Parsed<ParamView>, ErrorView> {
    match specifier(tokens, pos) {
        Err(e) => Err(e),
        Ok(base) => {
            let end = pointers_end(tokens, pos + 1);
            match identifier(tokens, end) {
                Err(e) => Err(e),
                Ok(name) => Ok(
                    Parsed {
                        value: ParamView { ty: pointer_chain(base, end - (pos + 1)), name },
                        next: end + 1,
                    },
                ),
            }
        },
    }
}

/// The parameters that follow a parameter: `pos` stands after a parameter,
/// where the list is closed or goes on after a comma.
pub open spec fn params_rest(tokens: Seq<TokenView>, pos: int) -> Result<
    Parsed<Seq<ParamView>>,
    ErrorView,
>
    decreases tokens.len() - pos,
{
    if is_symbol_at(tokens, pos, ')') {
        Ok(Parsed { value: Seq::empty(), next: pos + 1 })
    } else if !is_symbol_at(tokens, pos, ',') {
        Err(unexpected(tokens, pos, TokenKindView::Symbol(',')))
    } else {
        match param(tokens, pos + 1) {
            Err(e) => Err(e),
            Ok(first) => {
                proof {
                    lemma_param_advances(tokens, pos + 1);
                }
                match params_rest(tokens, first.next) {
                    Err(e) => Err(e),
                    Ok(rest) => Ok(
                        Parsed { value: seq![first.value] + rest.value, next: rest.next },
                    ),
                }
            },
        }
    }
}

/// A parameter list whose opening parenthesis has been read: `pos` stands
/// at the first parameter or at the closing parenthesis.
pub open spec fn params(tokens: Seq<TokenView>, pos: int) -> Result<
    Parsed<Seq<ParamView>>,
    ErrorView,
> {
    if is_symbol_at(tokens, pos, ')') {
        Ok(Parsed { value: Seq::empty(), next: pos + 1 })
    } else {
        match param(tokens, pos) {
            Err(e) => Err(e),
            Ok(first) => match params_rest(tokens, first.next) {
                Err(e) => Err(e),
                Ok(rest) => Ok(Parsed { value: seq![first.value] + rest.value, next: rest.next }),
            },
        }
    }
}

/// The types of a sequence of parameters.
pub open spec fn param_types(params: Seq<ParamView>) -> Seq<TypeView> {
    params.map_values(|p: ParamView| p.ty)
}

/// The array suffix that opens at index `pos`: `[`, a length or nothing,
/// and `]`.
pub open spec fn array_suffix(tokens: Seq<TokenView>, pos: int) -> Result<
    Parsed<DerivationView>,
    ErrorView,
> {
    match kind_at(tokens, pos + 1) {
        TokenKindView::Symbol(c) if c == ']' => Ok(
            Parsed { value: DerivationView::Array { len: FLEXIBLE_LENGTH, at: pos }, next: pos + 2 },
        ),
        TokenKindView::Number(n) => {
            if n < 0 || n > u32::MAX {
                Err(error_at(tokens, pos + 1, ErrorKindView::NumericOverflow))
            } else if is_symbol_at(tokens, pos + 2, ']') {
                Ok(Parsed { value: DerivationView::Array { len: n as u32, at: pos }, next: pos + 3 })
            } else {
                Err(unexpected(tokens, pos + 2, TokenKindView::Symbol(']')))
            }
        },
        _ => Err(unexpected(tokens, pos + 1, TokenKindView::Symbol(']'))),
    }
}

/// The suffix that starts at index `pos`, where one does: an array suffix
/// or a parameter list.
pub open spec fn suffix(tokens: Seq<TokenView>, pos: int) -> Option<
    Result<Parsed<DerivationView>, ErrorView>,
> {
    if is_symbol_at(tokens, pos, '[') {
        Some(array_suffix(tokens, pos))
    } else if is_symbol_at(tokens, pos, '(') {
        Some(
            match params(tokens, pos + 1) {
                Err(e) => Err(e),
                Ok(list) => Ok(
                    Parsed {
                        value: DerivationView::Function { params: param_types(list.value) },
                        next: list.next,
                    },
                ),
            },
        )
    } else {
        None
    }
}

/// The suffixes that start at index `pos`, as derivations.  Each suffix
/// wraps the type built by those before it, so the last suffix is the
/// outermost derivation and comes first.
pub open spec fn suffixes(tokens: Seq<TokenView>, pos: int) -> Result<
    Parsed<Seq<DerivationView>>,
    ErrorView,
>
    decreases tokens.len() - pos,
{
    match suffix(tokens, pos) {
        None => Ok(Parsed { value: Seq::empty(), next: pos }),
        Some(Err(e)) => Err(e),
        Some(Ok(first)) => {
            proof {
                lemma_suffix_advances(tokens, pos);
            }
            match suffixes(tokens, first.next) {
                Err(e) => Err(e),
                Ok(rest) => Ok(Parsed { value: rest.value.push(first.value), next: rest.next }),
            }
        },
    }
}

/// The declarator that starts at index `pos`: any number of `*` and a
/// direct declarator.  The pointers apply to the specifier's type before
/// anything else does, so they are the innermost derivations and come
/// last.
pub open spec fn declarator(tokens: Seq<TokenView>, pos: int) -> Result<
    Parsed<DeclaratorView>,
    ErrorView,
>
    decreases tokens.len() - pos, 1int,
{
    if is_symbol_at(tokens, pos, '*') {
        match declarator(tokens, pos + 1) {
            Err(e) => Err(e),
            Ok(inner) => Ok(
                Parsed {
                    value: DeclaratorView {
                        name: inner.value.name,
                        derivations: inner.value.derivations.push(DerivationView::Pointer),
                    },
                    next: inner.next,
                },
            ),
        }
    } else {
        direct_declarator(tokens, pos)
    }
}

/// The direct declarator that starts at index `pos`: an identifier, or a
/// declarator in parentheses, followed by suffixes.  The suffixes apply
/// before the derivations of a declarator in parentheses do.
pub open spec fn direct_declarator(tokens: Seq<TokenView>, pos: int) -> Result<
    Parsed<DeclaratorView>,
    ErrorView,
>
    decreases tokens.len() - pos, 0int,
{
    match kind_at(tokens, pos) {
        TokenKindView::Ident(name) => match suffixes(tokens, pos + 1) {
            Err(e) => Err(e),
            Ok(tail) => Ok(
                Parsed { value: DeclaratorView { name, derivations: tail.value }, next: tail.next },
            ),
        },
        TokenKindView::Symbol(c) if c == '(' => match declarator(tokens, pos + 1) {
            Err(e) => Err(e),
            Ok(inner) => {
                if is_symbol_at(tokens, inner.next, ')') {
                    match suffixes(tokens, inner.next + 1) {
                        Err(e) => Err(e),
                        Ok(tail) => Ok(
                            Parsed {
                                value: DeclaratorView {
                                    name: inner.value.name,
                                    derivations: inner.value.derivations + tail.value,
                                },
                                next: tail.next,
                            },
                        ),
                    }
                } else {
                    Err(unexpected(tokens, inner.next, TokenKindView::Symbol(')')))
                }
            },
        },
        _ => Err(error_at(tokens, pos, ErrorKindView::InvalidIdentifier)),
    }
}

/// The type that one derivation makes of `ty`.  An array whose size does
/// not fit 32 bits is an error, reported at the suffix that declares it.
pub open spec fn wrap(tokens: Seq<TokenView>, ty: TypeView, step: DerivationView) -> Result<
    TypeView,
    ErrorView,
> {
    match step {
        DerivationView::Pointer => Ok(TypeView::Pointer(Box::new(ty))),
        DerivationView::Array { len, at } => {
            if size_of(ty) * len <= u32::MAX {
                Ok(TypeView::Array(Box::new(ty), len))
            } else {
                Err(error_at(tokens, at, ErrorKindView::NumericOverflow))
            }
        },
        DerivationView::Function { params } => Ok(TypeView::Function(Box::new(ty), params)),
    }
}

/// The type that the derivations make of `base`, applied from the last,
/// which is the innermost, to the first.
pub open spec fn resolve(
    tokens: Seq<TokenView>,
    base: TypeView,
    derivations: Seq<DerivationView>,
) -> Result<TypeView, ErrorView>
    decreases derivations.len(),
{
    if derivations.len() == 0 {
        Ok(base)
    } else {
        match wrap(tokens, base, derivations.last()) {
            Err(e) => Err(e),
            Ok(ty) => resolve(tokens, ty, derivations.drop_last()),
        }
    }
}

/// The declaration that starts at index `pos`, with the specifier's type
/// given: a declarator, whose derivations are resolved against `base`.
pub open spec fn declaration(tokens: Seq<TokenView>, pos: int, base: TypeView) -> Result<
    Parsed<DeclarationView>,
    ErrorView,
> {
    match declarator(tokens, pos) {
        Err(e) => Err(e),
        Ok(d) => match resolve(tokens, base, d.value.derivations) {
            Err(e) => Err(e),
            Ok(ty) => Ok(Parsed { value: DeclarationView { ty, name: d.value.name }, next: d.next }),
        },
    }
}

/// The top-level declaration that starts at index `pos`: a specifier, a
/// declarator and a semicolon.  The body of a function definition is
/// recognised and not handled.
pub open spec fn toplevel(tokens: Seq<TokenView>, pos: int) -> Result<
    Parsed<DeclarationView>,
    ErrorView,
> {
    match specifier(tokens, pos) {
        Err(e) => Err(e),
        Ok(base) => match declaration(tokens, pos + 1, base) {
            Err(e) => Err(e),
            Ok(d) => {
                if is_symbol_at(tokens, d.next, ';') {
                    Ok(Parsed { value: d.value, next: d.next + 1 })
                } else if d.value.ty is Function && is_symbol_at(tokens, d.next, '{') {
                    Err(error_at(tokens, d.next, ErrorKindView::UnsupportedFeature))
                } else {
                    Err(unexpected(tokens, d.next, TokenKindView::Symbol(';')))
                }
            },
        },
    }
}

/// The top-level declarations from index `pos` to the end of the tokens.
pub open spec fn translation_unit(tokens: Seq<TokenView>, pos: int) -> Result<
    Seq<DeclarationView>,
    ErrorView,
>
    decreases tokens.len() - pos,
{
    if pos < 0 || pos >= tokens.len() {
        Ok(Seq::empty())
    } else {
        match toplevel(tokens, pos) {
            Err(e) => Err(e),
            Ok(first) => {
                proof {
                    lemma_toplevel_advances(tokens, pos);
                }
                match translation_unit(tokens, first.next) {
                    Err(e) => Err(e),
                    Ok(rest) => Ok(seq![first.value] + rest),
                }
            },
        }
    }
}

/// A run of `*` ends at or after where it starts, inside the tokens.
pub proof fn lemma_pointers_end(tokens: Seq<TokenView>, pos: int)
    requires
        0 <= pos <= tokens.len(),
    ensures
        pos <= pointers_end(tokens, pos) <= tokens.len(),
        forall|i: int| pos <= i < pointers_end(tokens, pos) ==> is_symbol_at(tokens, i, '*'),
        !is_symbol_at(tokens, pointers_end(tokens, pos), '*'),
    decreases tokens.len() - pos,
{
    if is_symbol_at(tokens, pos, '*') {
        lemma_pointers_end(tokens, pos + 1);
    }
}

/// A parameter takes at least two tokens, all of them present.
pub proof fn lemma_param_advances(tokens: Seq<TokenView>, pos: int)
    requires
        param(tokens, pos) is Ok,
    ensures
        0 <= pos,
        pos + 2 <= param(tokens, pos)->Ok_0.next <= tokens.len(),
{
    lemma_pointers_end(tokens, pos + 1);
}

/// A parameter list ends after where it starts, inside the tokens.
pub proof fn lemma_params_rest_advances(tokens: Seq<TokenView>, pos: int)
    requires
        params_rest(tokens, pos) is Ok,
    ensures
        0 <= pos < params_rest(tokens, pos)->Ok_0.next <= tokens.len(),
    decreases tokens.len() - pos,
{
    if is_symbol_at(tokens, pos, ')') {
    } else {
        lemma_param_advances(tokens, pos + 1);
        lemma_params_rest_advances(tokens, param(tokens, pos + 1)->Ok_0.next);
    }
}

/// A parameter list ends after where it starts, inside the tokens.
pub proof fn lemma_params_advances(tokens: Seq<TokenView>, pos: int)
    requires
        params(tokens, pos) is Ok,
    ensures
        0 <= pos < params(tokens, pos)->Ok_0.next <= tokens.len(),
{
    if is_symbol_at(tokens, pos, ')') {
    } else {
        lemma_param_advances(tokens, pos);
        lemma_params_rest_advances(tokens, param(tokens, pos)->Ok_0.next);
    }
}

/// A suffix ends after where it starts, inside the tokens.
pub proof fn lemma_suffix_advances(tokens: Seq<TokenView>, pos: int)
    requires
        suffix(tokens, pos) matches Some(Ok(_)),
    ensures
        0 <= pos < suffix(tokens, pos)->0->Ok_0.next <= tokens.len(),
{
    if is_symbol_at(tokens, pos, '[') {
    } else {
        lemma_params_advances(tokens, pos + 1);
    }
}

/// Suffixes end at or after where they start; inside the tokens where they
/// start there.
pub proof fn lemma_suffixes_advance(tokens: Seq<TokenView>, pos: int)
    requires
        suffixes(tokens, pos) is Ok,
    ensures
        pos <= suffixes(tokens, pos)->Ok_0.next,
        0 <= pos <= tokens.len() ==> suffixes(tokens, pos)->Ok_0.next <= tokens.len(),
    decreases tokens.len() - pos,
{
    match suffix(tokens, pos) {
        Some(Ok(first)) => {
            lemma_suffix_advances(tokens, pos);
            lemma_suffixes_advance(tokens, first.next);
        },
        _ => {},
    }
}

/// A declarator takes at least one token, all of them present.
pub proof fn lemma_declarator_advances(tokens: Seq<TokenView>, pos: int)
    requires
        declarator(tokens, pos) is Ok,
    ensures
        0 <= pos < declarator(tokens, pos)->Ok_0.next <= tokens.len(),
    decreases tokens.len() - pos, 1int,
{
    if is_symbol_at(tokens, pos, '*') {
        lemma_declarator_advances(tokens, pos + 1);
    } else {
        lemma_direct_declarator_advances(tokens, pos);
    }
}

/// A direct declarator takes at least one token, all of them present.
pub proof fn lemma_direct_declarator_advances(tokens: Seq<TokenView>, pos: int)
    requires
        direct_declarator(tokens, pos) is Ok,
    ensures
        0 <= pos < direct_declarator(tokens, pos)->Ok_0.next <= tokens.len(),
    decreases tokens.len() - pos, 0int,
{
    match kind_at(tokens, pos) {
        TokenKindView::Ident(name) => {
            lemma_suffixes_advance(tokens, pos + 1);
        },
        TokenKindView::Symbol(c) if c == '(' => {
            lemma_declarator_advances(tokens, pos + 1);
            let inner = declarator(tokens, pos + 1)->Ok_0;
            lemma_suffixes_advance(tokens, inner.next + 1);
        },
        _ => {},
    }
}

/// A top-level declaration takes at least three tokens, all of them
/// present.
pub proof fn lemma_toplevel_advances(tokens: Seq<TokenView>, pos: int)
    requires
        toplevel(tokens, pos) is Ok,
    ensures
        0 <= pos,
        pos + 3 <= toplevel(tokens, pos)->Ok_0.next <= tokens.len(),
{
    lemma_declarator_advances(tokens, pos + 1);
}

} // verus!
