//! What holds of the grammar of declarators on every token sequence.

use crate::common::TypeView;
use crate::error::ErrorView;
use crate::lexer::token::{TokenKindView, TokenView};
use crate::parser::grammar::{
    declaration, declarator, direct_declarator, is_symbol_at, kind_at, resolve, suffix, suffixes,
    wrap, DeclarationView, DerivationView, Parsed, FLEXIBLE_LENGTH,
};
use vstd::prelude::*;

verus! {

/// The type that the derivations make of the type that `first` gave.
pub open spec fn resolve_next(
    tokens: Seq<TokenView>,
    first: Result<TypeView, ErrorView>,
    derivations: Seq<DerivationView>,
) -> Result<TypeView, ErrorView> {
    match first {
        Ok(ty) => resolve(tokens, ty, derivations),
        Err(e) => Err(e),
    }
}

/// Derivations apply from the innermost on: those of `inner` first, then
/// those of `outer` to what `inner` made.
pub proof fn lemma_resolve_concat(
    tokens: Seq<TokenView>,
    base: TypeView,
    outer: Seq<DerivationView>,
    inner: Seq<DerivationView>,
)
    ensures
        resolve(tokens, base, outer + inner) == resolve_next(
            tokens,
            resolve(tokens, base, inner),
            outer,
        ),
    decreases inner.len(),
{
    if inner.len() == 0 {
        assert(outer + inner =~= outer);
    } else {
        assert((outer + inner).last() == inner.last());
        assert((outer + inner).drop_last() =~= outer + inner.drop_last());
        match wrap(tokens, base, inner.last()) {
            Ok(ty) => lemma_resolve_concat(tokens, ty, outer, inner.drop_last()),
            Err(e) => {},
        }
    }
}

/// Pointers come first.  A `*` before a declarator makes a pointer of the
/// type before it, and the rest of the declarator applies to that pointer:
/// `int *a[3]` declares an array of pointers.
pub proof fn lemma_pointer_wraps_base(tokens: Seq<TokenView>, pos: int, base: TypeView)
    requires
        is_symbol_at(tokens, pos, '*'),
    ensures
        declaration(tokens, pos, base) == declaration(
            tokens,
            pos + 1,
            TypeView::Pointer(Box::new(base)),
        ),
{
    match declarator(tokens, pos + 1) {
        Ok(inner) => {
            let all = inner.value.derivations.push(DerivationView::Pointer);
            assert(all.drop_last() =~= inner.value.derivations);
        },
        Err(e) => {},
    }
}

/// The declaration that the declarator in parentheses makes of the type
/// that the suffixes gave.
pub open spec fn declare_next(
    tokens: Seq<TokenView>,
    ty: Result<TypeView, ErrorView>,
    name: Seq<char>,
    derivations: Seq<DerivationView>,
    next: int,
) -> Result<Parsed<DeclarationView>, ErrorView> {
    match resolve_next(tokens, ty, derivations) {
        Ok(ty) => Ok(Parsed { value: DeclarationView { ty, name }, next }),
        Err(e) => Err(e),
    }
}

/// Suffixes come before what stands in parentheses.  Where a declarator
/// stands in parentheses, the suffixes after the closing parenthesis apply
/// to the type first, and the declarator inside applies to what they
/// made: `int (*p)[3]` declares a pointer to an array.
pub proof fn lemma_suffixes_before_parentheses(tokens: Seq<TokenView>, pos: int, base: TypeView)
    requires
        is_symbol_at(tokens, pos, '('),
        declarator(tokens, pos + 1) is Ok,
        is_symbol_at(tokens, declarator(tokens, pos + 1)->Ok_0.next, ')'),
        suffixes(tokens, declarator(tokens, pos + 1)->Ok_0.next + 1) is Ok,
    ensures
        ({
            let inner = declarator(tokens, pos + 1)->Ok_0;
            let tail = suffixes(tokens, inner.next + 1)->Ok_0;
            declaration(tokens, pos, base) == declare_next(
                tokens,
                resolve(tokens, base, tail.value),
                inner.value.name,
                inner.value.derivations,
                tail.next,
            )
        }),
{
    let inner = declarator(tokens, pos + 1)->Ok_0;
    let tail = suffixes(tokens, inner.next + 1)->Ok_0;
    lemma_resolve_concat(tokens, base, inner.value.derivations, tail.value);
    assert(declarator(tokens, pos) == direct_declarator(tokens, pos));
}

/// Each suffix wraps the type built so far.  A suffix after a name applies
/// to the type before the suffixes that follow it do: `int a[2][3]` wraps
/// `int` in an array of two, and that in an array of three.
pub proof fn lemma_suffix_wraps_type(
    tokens: Seq<TokenView>,
    pos: int,
    base: TypeView,
    first: Parsed<DerivationView>,
)
    requires
        suffix(tokens, pos) == Some(Ok::<Parsed<DerivationView>, ErrorView>(first)),
        suffixes(tokens, first.next) is Ok,
    ensures
        suffixes(tokens, pos) is Ok,
        suffixes(tokens, pos)->Ok_0.next == suffixes(tokens, first.next)->Ok_0.next,
        resolve(tokens, base, suffixes(tokens, pos)->Ok_0.value) == resolve_next(
            tokens,
            wrap(tokens, base, first.value),
            suffixes(tokens, first.next)->Ok_0.value,
        ),
{
    let rest = suffixes(tokens, first.next)->Ok_0;
    let all = rest.value.push(first.value);
    assert(all.drop_last() =~= rest.value);
}

/// A name without suffixes declares the type before it.
pub proof fn lemma_plain_name(tokens: Seq<TokenView>, pos: int, base: TypeView, name: Seq<char>)
    requires
        kind_at(tokens, pos) == TokenKindView::Ident(name),
        suffix(tokens, pos + 1) is None,
    ensures
        declaration(tokens, pos, base) == Ok::<Parsed<DeclarationView>, ErrorView>(
            Parsed { value: DeclarationView { ty: base, name }, next: pos + 1 },
        ),
{
    assert(declarator(tokens, pos) == direct_declarator(tokens, pos));
}

/// An array suffix with a length declares an array of that length, and one
/// without a length an array of the length that stands for none.
pub proof fn lemma_array_suffix(tokens: Seq<TokenView>, pos: int, n: u32)
    requires
        is_symbol_at(tokens, pos, '['),
    ensures
        kind_at(tokens, pos + 1) == TokenKindView::Number(n as i64) && is_symbol_at(
            tokens,
            pos + 2,
            ']',
        ) ==> suffix(tokens, pos) == Some(
            Ok::<Parsed<DerivationView>, ErrorView>(
                Parsed { value: DerivationView::Array { len: n, at: pos }, next: pos + 3 },
            ),
        ),
        is_symbol_at(tokens, pos + 1, ']') ==> suffix(tokens, pos) == Some(
            Ok::<Parsed<DerivationView>, ErrorView>(
                Parsed {
                    value: DerivationView::Array { len: FLEXIBLE_LENGTH, at: pos },
                    next: pos + 2,
                },
            ),
        ),
{
}

} // verus!
