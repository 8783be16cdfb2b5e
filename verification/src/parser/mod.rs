//! The parser of declarations: from tokens to syntax-tree nodes with
//! resolved types.
//!
//! The parser walks the token sequence with a cursor and one token of
//! lookahead.  Each method reads what one rule of the grammar describes
//! and leaves the cursor after it.

pub mod grammar;
pub mod laws;

use crate::common::{Node, Type, Var};
use crate::error::{Error, ErrorKind, ErrorView};
use crate::lexer::rules::scan_all;
use crate::lexer::token::{token_views, Token, TokenKind, TokenKindView, TokenView};
use crate::lexer::tokenize;
use crate::parser::grammar::{
    lemma_param_advances, lemma_suffix_advances, lemma_toplevel_advances, DeclarationView,
    DeclaratorView, DerivationView, ParamView, Parsed, FLEXIBLE_LENGTH,
};
use vstd::prelude::*;
use vstd::string::*;

verus! {

/// One step from a type to a type derived from it.
#[derive(Debug)]
pub enum Derivation {
    /// Pointer to the type.
    Pointer,
    /// Array of `len` elements of the type; `at` is the index of the token
    /// that opens the array suffix.
    Array { len: u32, at: usize },
    /// Function that returns the type and takes parameters of the given
    /// types.
    Function { params: Vec<Type> },
}

impl View for Derivation {
    type V = DerivationView;

    open spec fn view(&self) -> DerivationView {
        match *self {
            Derivation::Pointer => DerivationView::Pointer,
            Derivation::Array { len, at } => DerivationView::Array { len, at: at as int },
            Derivation::Function { params } => DerivationView::Function {
                params: params@.map_values(|t: Type| t@),
            },
        }
    }
}

/// The views of a sequence of derivations, in order.
pub open spec fn derivation_views(derivations: Seq<Derivation>) -> Seq<DerivationView> {
    derivations.map_values(|d: Derivation| d@)
}

/// The view of a parameter: its type and its name.
pub open spec fn param_view(param: Var) -> ParamView {
    ParamView { ty: param.spec_ty()@, name: param.spec_name()@ }
}

/// The views of a sequence of parameters, in order.
pub open spec fn param_views(params: Seq<Var>) -> Seq<ParamView> {
    params.map_values(|p: Var| param_view(p))
}

/// Whether `nodes` are the declarations `declared`, one node for each and
/// in their order.
pub open spec fn declares(nodes: Seq<Node>, declared: Seq<DeclarationView>) -> bool {
    &&& nodes.len() == declared.len()
    &&& forall|i: int|
        0 <= i < nodes.len() ==> (#[trigger] nodes[i]).is_declaration(
            declared[i].ty,
            declared[i].name,
        )
}

/// The name of the file that errors about `tokens` name: the file of the
/// first token.
pub open spec fn file_of<'a>(tokens: Seq<Token<'a>>) -> &'a str {
    if tokens.len() > 0 {
        tokens[0].span.file_name
    } else {
        ""
    }
}

/// A parser over a sequence of tokens, with a cursor into it.
pub struct Parser<'a> {
    tokens: Vec<Token<'a>>,
    pos: usize,
}

impl<'a> Parser<'a> {
    /// The tokens being parsed.
    pub closed spec fn tokens(&self) -> Seq<Token<'a>> {
        self.tokens@
    }

    /// The index of the token at the cursor.
    pub closed spec fn position(&self) -> int {
        self.pos as int
    }

    /// The tokens being parsed, as mathematical values.
    pub open spec fn views(&self) -> Seq<TokenView> {
        token_views(self.tokens())
    }

    /// The cursor lies inside the tokens or just after them.
    pub open spec fn wf(&self) -> bool {
        0 <= self.position() <= self.tokens().len() <= usize::MAX
    }

    /// Whether `result` is what the grammar says of a rule that yields a
    /// value: `expected` is the grammar's outcome, `holds` says that the
    /// value read has the view the grammar gives, and `after` is the parser
    /// once the rule has been read.
    pub open spec fn agrees<T, V>(
        &self,
        after: Parser<'a>,
        result: Result<T, Error<'a>>,
        expected: Result<Parsed<V>, ErrorView>,
        holds: spec_fn(T, V) -> bool,
    ) -> bool {
        &&& after.tokens() == self.tokens()
        &&& after.wf()
        &&& match expected {
            Ok(parsed) => {
                &&& result matches Ok(value)
                &&& holds(value, parsed.value)
                &&& after.position() == parsed.next
            },
            Err(e) => {
                &&& result matches Err(error)
                &&& error@ == e
                &&& error.file_name == file_of(self.tokens())
            },
        }
    }

    /// A parser at the first of `tokens`.
    pub fn new(tokens: Vec<Token<'a>>) -> (parser: Parser<'a>)
        ensures
            parser.wf(),
            parser.tokens() == tokens@,
            parser.position() == 0,
    {
        assert(tokens.len() <= usize::MAX);
        Parser { tokens, pos: 0 }
    }

    /// The file that errors name.
    fn file_name(&self) -> (name: &'a str)
        ensures
            name == file_of(self.tokens()),
    {
        if self.tokens.len() > 0 {
            self.tokens[0].span.file_name
        } else {
            ""
        }
    }

    /// An error of the given kind at the token with index `i`.
    fn error_at(&self, i: usize, kind: ErrorKind) -> (e: Error<'a>)
        ensures
            e@ == grammar::error_at(self.views(), i as int, kind@),
            e.file_name == file_of(self.tokens()),
    {
        let n = self.tokens.len();
        let offset = if i < n {
            self.tokens[i].span.start
        } else if n > 0 {
            self.tokens[n - 1].span.end
        } else {
            0
        };
        Error { kind, file_name: self.file_name(), offset }
    }

    /// The error of finding the token at the cursor where `expected` is
    /// required.
    fn unexpected(&self, expected: TokenKind) -> (e: Error<'a>)
        requires
            self.wf(),
        ensures
            e@ == grammar::unexpected(self.views(), self.position(), expected@),
            e.file_name == file_of(self.tokens()),
    {
        let found = match self.input_tokens_peek() {
            Some(token) => token.kind.clone(),
            None => TokenKind::Eof,
        };
        self.error_at(self.pos, ErrorKind::UnexpectedToken { expected, found })
    }

    /// The token at the cursor, or `None` at the end of the tokens.
    pub fn input_tokens_peek(&self) -> (token: Option<&Token<'a>>)
        requires
            self.wf(),
        ensures
            self.position() < self.tokens().len() ==> token == Some(
                &self.tokens()[self.position()],
            ),
            self.position() >= self.tokens().len() ==> token is None,
            match token {
                Some(t) => t.kind@ == grammar::kind_at(self.views(), self.position()),
                None => grammar::kind_at(self.views(), self.position()) == TokenKindView::Eof,
            },
    {
        if self.pos < self.tokens.len() {
            Some(&self.tokens[self.pos])
        } else {
            None
        }
    }

    /// Moves the cursor over the token it stands at and returns that token,
    /// or returns `None` at the end of the tokens.
    pub fn input_tokens_next(&mut self) -> (token: Option<Token<'a>>)
        requires
            old(self).wf(),
        ensures
            final(self).wf(),
            final(self).tokens() == old(self).tokens(),
            old(self).position() < old(self).tokens().len() ==> {
                &&& token matches Some(t)
                &&& t@ == old(self).tokens()[old(self).position()]@
                &&& t.span == old(self).tokens()[old(self).position()].span
                &&& final(self).position() == old(self).position() + 1
            },
            old(self).position() >= old(self).tokens().len() ==> {
                &&& token is None
                &&& final(self).position() == old(self).position()
            },
    {
        if self.pos < self.tokens.len() {
            let token = self.tokens[self.pos].clone();
            self.pos += 1;
            Some(token)
        } else {
            None
        }
    }

    /// Moves the cursor over the token it stands at where that token is of
    /// the given kind, and says whether it did.
    pub fn input_tokens_consume(&mut self, kind: TokenKind) -> (consumed: bool)
        requires
            old(self).wf(),
        ensures
            final(self).wf(),
            final(self).tokens() == old(self).tokens(),
            consumed == (old(self).position() < old(self).tokens().len() && grammar::kind_at(
                old(self).views(),
                old(self).position(),
            ) == kind@),
            final(self).position() == old(self).position() + if consumed {
                1int
            } else {
                0int
            },
    {
        if self.pos < self.tokens.len() {
            if self.tokens[self.pos].kind == kind {
                self.pos += 1;
                return true;
            }
        }
        false
    }

    /// Whether the token at the cursor is the symbol `c`.
    fn at_symbol(&self, c: char) -> (r: bool)
        requires
            self.wf(),
        ensures
            r == grammar::is_symbol_at(self.views(), self.position(), c),
    {
        match self.input_tokens_peek() {
            Some(token) => match &token.kind {
                TokenKind::Symbol(found) => *found == c,
                _ => false,
            },
            None => false,
        }
    }

    /// Moves the cursor over the token it stands at where that token is
    /// the symbol `c`, and says whether it did.
    fn consume_symbol(&mut self, c: char) -> (consumed: bool)
        requires
            old(self).wf(),
        ensures
            final(self).wf(),
            final(self).tokens() == old(self).tokens(),
            consumed == grammar::is_symbol_at(old(self).views(), old(self).position(), c),
            final(self).position() == old(self).position() + if consumed {
                1int
            } else {
                0int
            },
    {
        self.input_tokens_consume(TokenKind::Symbol(c))
    }

    /// Reads a type specifier.
    pub fn decl_specifiers(&mut self) -> (r: Result<Type, Error<'a>>)
        requires
            old(self).wf(),
        ensures
            final(self).wf(),
            final(self).tokens() == old(self).tokens(),
            match grammar::specifier(old(self).views(), old(self).position()) {
                Ok(ty) => {
                    &&& r matches Ok(t)
                    &&& t@ == ty
                    &&& final(self).position() == old(self).position() + 1
                    &&& old(self).position() < old(self).tokens().len()
                },
                Err(e) => {
                    &&& r matches Err(error)
                    &&& error@ == e
                    &&& error.file_name == file_of(old(self).tokens())
                },
            },
    {
        let at = self.pos;
        let found = match self.input_tokens_peek() {
            Some(token) => match &token.kind {
                TokenKind::Void => Ok(Type::new_void()),
                TokenKind::Bool => Ok(Type::new_bool()),
                TokenKind::Char => Ok(Type::new_char()),
                TokenKind::Int => Ok(Type::new_int()),
                TokenKind::Struct => Err(ErrorKind::UnsupportedFeature),
                _ => Err(ErrorKind::InvalidTypeSpecifier),
            },
            None => Err(ErrorKind::InvalidTypeSpecifier),
        };
        match found {
            Ok(ty) => {
                self.pos += 1;
                Ok(ty)
            },
            Err(kind) => Err(self.error_at(at, kind)),
        }
    }

    /// Reads an identifier.
    pub fn ident(&mut self) -> (r: Result<String, Error<'a>>)
        requires
            old(self).wf(),
        ensures
            final(self).wf(),
            final(self).tokens() == old(self).tokens(),
            match grammar::identifier(old(self).views(), old(self).position()) {
                Ok(name) => {
                    &&& r matches Ok(s)
                    &&& s@ == name
                    &&& final(self).position() == old(self).position() + 1
                    &&& old(self).position() < old(self).tokens().len()
                },
                Err(e) => {
                    &&& r matches Err(error)
                    &&& error@ == e
                    &&& error.file_name == file_of(old(self).tokens())
                },
            },
    {
        let at = self.pos;
        let found = match self.input_tokens_peek() {
            Some(token) => match &token.kind {
                TokenKind::Ident(s) => Some(s.clone()),
                _ => None,
            },
            None => None,
        };
        match found {
            Some(name) => {
                self.pos += 1;
                Ok(name)
            },
            None => Err(self.error_at(at, ErrorKind::InvalidIdentifier)),
        }
    }

    /// Reads one parameter of a function: a specifier, any number of `*`,
    /// and an identifier.
    pub fn params_decl(&mut self) -> (r: Result<Var, Error<'a>>)
        requires
            old(self).wf(),
        ensures
            old(self).agrees(
                *final(self),
                r,
                grammar::param(old(self).views(), old(self).position()),
                |v: Var, p: ParamView| param_view(v) == p,
            ),
    {
        let ghost tokens = self.views();
        let ghost start = self.position();
        let mut ty = match self.decl_specifiers() {
            Ok(ty) => ty,
            Err(e) => {
                return Err(e);
            },
        };
        let ghost base = ty@;
        while self.consume_symbol('*')
            invariant
                self.wf(),
                self.tokens() == old(self).tokens(),
                tokens == self.views(),
                start + 1 <= self.position(),
                grammar::pointers_end(tokens, self.position()) == grammar::pointers_end(
                    tokens,
                    start + 1,
                ),
                ty@ == grammar::pointer_chain(base, self.position() - (start + 1)),
            decreases self.tokens().len() - self.position(),
        {
            ty = Type::new_ptr(ty);
        }
        match self.ident() {
            Ok(name) => Ok(Var::new(ty, name)),
            Err(e) => Err(e),
        }
    }

    /// Reads the parameters of a function, whose opening parenthesis has
    /// been read, and the parenthesis that closes them.
    pub fn params(&mut self) -> (r: Result<Vec<Var>, Error<'a>>)
        requires
            old(self).wf(),
        ensures
            old(self).agrees(
                *final(self),
                r,
                grammar::params(old(self).views(), old(self).position()),
                |v: Vec<Var>, p: Seq<ParamView>| param_views(v@) == p,
            ),
    {
        let ghost tokens = self.views();
        let ghost start = self.position();
        let mut list: Vec<Var> = Vec::new();
        if self.consume_symbol(')') {
            assert(param_views(list@) =~= Seq::<ParamView>::empty());
            return Ok(list);
        }
        match self.params_decl() {
            Ok(first) => {
                list.push(first);
            },
            Err(e) => {
                return Err(e);
            },
        }
        proof {
            lemma_param_advances(tokens, start);
            assert(param_views(list@) =~= seq![grammar::param(tokens, start)->Ok_0.value]);
        }
        loop
            invariant
                self.wf(),
                self.tokens() == old(self).tokens(),
                tokens == self.views(),
                start == old(self).position(),
                grammar::params(tokens, start) == match grammar::params_rest(
                    tokens,
                    self.position(),
                ) {
                    Ok(rest) => Ok(
                        Parsed { value: param_views(list@) + rest.value, next: rest.next },
                    ),
                    Err(e) => Err::<Parsed<Seq<ParamView>>, ErrorView>(e),
                },
            decreases self.tokens().len() - self.position(),
        {
            let ghost here = self.position();
            let ghost sofar = param_views(list@);
            if self.consume_symbol(')') {
                assert(sofar + Seq::<ParamView>::empty() =~= sofar);
                return Ok(list);
            }
            if !self.consume_symbol(',') {
                return Err(self.unexpected(TokenKind::Symbol(',')));
            }
            match self.params_decl() {
                Ok(next) => {
                    list.push(next);
                },
                Err(e) => {
                    return Err(e);
                },
            }
            proof {
                lemma_param_advances(tokens, here + 1);
                let first = grammar::param(tokens, here + 1)->Ok_0;
                assert(param_views(list@) =~= sofar.push(first.value));
                match grammar::params_rest(tokens, first.next) {
                    Ok(rest) => {
                        assert(sofar + (seq![first.value] + rest.value) =~= sofar.push(first.value)
                            + rest.value);
                    },
                    Err(e) => {},
                }
            }
        }
    }

    /// The types of a list of parameters, in order.
    fn param_types(params: &Vec<Var>) -> (types: Vec<Type>)
        ensures
            types@.map_values(|t: Type| t@) == grammar::param_types(param_views(params@)),
    {
        let mut types: Vec<Type> = Vec::new();
        let mut i: usize = 0;
        while i < params.len()
            invariant
                i <= params.len(),
                types.len() == i,
                forall|j: int| 0 <= j < i ==> (#[trigger] types[j])@ == params[j].spec_ty()@,
            decreases params.len() - i,
        {
            types.push(params[i].ty().duplicate());
            i += 1;
        }
        assert(types@.map_values(|t: Type| t@) =~= grammar::param_types(param_views(params@)));
        types
    }

    /// Reads the suffix that starts at the cursor, where one does: an array
    /// suffix or a parameter list.
    fn suffix(&mut self) -> (r: Option<Result<Derivation, Error<'a>>>)
        requires
            old(self).wf(),
        ensures
            final(self).wf(),
            final(self).tokens() == old(self).tokens(),
            match grammar::suffix(old(self).views(), old(self).position()) {
                None => r is None && final(self).position() == old(self).position(),
                Some(expected) => {
                    &&& r matches Some(result)
                    &&& old(self).agrees(
                        *final(self),
                        result,
                        expected,
                        |d: Derivation, v: DerivationView| d@ == v,
                    )
                },
            },
    {
        let at = self.pos;
        if self.consume_symbol('[') {
            if self.consume_symbol(']') {
                return Some(Ok(Derivation::Array { len: FLEXIBLE_LENGTH, at }));
            }
            let length = match self.input_tokens_peek() {
                Some(token) => match &token.kind {
                    TokenKind::Number(n) => Some(*n),
                    _ => None,
                },
                None => None,
            };
            match length {
                Some(n) => {
                    if n < 0 || n > 0xffff_ffff {
                        Some(Err(self.error_at(self.pos, ErrorKind::NumericOverflow)))
                    } else {
                        self.pos += 1;
                        if self.consume_symbol(']') {
                            Some(Ok(Derivation::Array { len: n as u32, at }))
                        } else {
                            Some(Err(self.unexpected(TokenKind::Symbol(']'))))
                        }
                    }
                },
                None => Some(Err(self.unexpected(TokenKind::Symbol(']')))),
            }
        } else if self.consume_symbol('(') {
            match self.params() {
                Ok(list) => Some(Ok(Derivation::Function { params: Self::param_types(&list) })),
                Err(e) => Some(Err(e)),
            }
        } else {
            None
        }
    }

    /// Reads the suffixes that start at the cursor.  Each suffix wraps the
    /// type built by those before it, so the last one read comes first.
    fn suffixes(&mut self) -> (r: Result<Vec<Derivation>, Error<'a>>)
        requires
            old(self).wf(),
        ensures
            old(self).agrees(
                *final(self),
                r,
                grammar::suffixes(old(self).views(), old(self).position()),
                |d: Vec<Derivation>, v: Seq<DerivationView>| derivation_views(d@) == v,
            ),
    {
        let ghost tokens = self.views();
        let ghost start = self.position();
        let mut list: Vec<Derivation> = Vec::new();
        assert(derivation_views(list@) =~= Seq::<DerivationView>::empty());
        loop
            invariant
                self.wf(),
                self.tokens() == old(self).tokens(),
                tokens == self.views(),
                start == old(self).position(),
                grammar::suffixes(tokens, start) == match grammar::suffixes(
                    tokens,
                    self.position(),
                ) {
                    Ok(rest) => Ok(
                        Parsed { value: rest.value + derivation_views(list@), next: rest.next },
                    ),
                    Err(e) => Err::<Parsed<Seq<DerivationView>>, ErrorView>(e),
                },
            decreases self.tokens().len() - self.position(),
        {
            let ghost here = self.position();
            let ghost sofar = derivation_views(list@);
            match self.suffix() {
                None => {
                    assert(Seq::<DerivationView>::empty() + sofar =~= sofar);
                    return Ok(list);
                },
                Some(Err(e)) => {
                    return Err(e);
                },
                Some(Ok(step)) => {
                    list.insert(0, step);
                    proof {
                        lemma_suffix_advances(tokens, here);
                        let first = grammar::suffix(tokens, here)->0->Ok_0;
                        assert(derivation_views(list@) =~= seq![first.value] + sofar);
                        match grammar::suffixes(tokens, first.next) {
                            Ok(rest) => {
                                assert(rest.value.push(first.value) + sofar =~= rest.value + (
                                seq![first.value] + sofar));
                            },
                            Err(e) => {},
                        }
                    }
                },
            }
        }
    }

    /// Reads a declarator, without resolving it against a type: any number
    /// of `*` and a direct declarator.  Returns the derivations, outermost
    /// first, and the declared name.
    pub fn read_declarator(&mut self) -> (r: Result<(Vec<Derivation>, String), Error<'a>>)
        requires
            old(self).wf(),
        ensures
            old(self).agrees(
                *final(self),
                r,
                grammar::declarator(old(self).views(), old(self).position()),
                |d: (Vec<Derivation>, String), v: DeclaratorView|
                    derivation_views(d.0@) == v.derivations && d.1@ == v.name,
            ),
        decreases old(self).tokens().len() - old(self).position(), 1int,
    {
        if self.consume_symbol('*') {
            match self.read_declarator() {
                Ok((mut derivations, name)) => {
                    let ghost inner = derivation_views(derivations@);
                    derivations.push(Derivation::Pointer);
                    assert(derivation_views(derivations@) =~= inner.push(DerivationView::Pointer));
                    Ok((derivations, name))
                },
                Err(e) => Err(e),
            }
        } else {
            self.direct_decl()
        }
    }

    /// Reads a direct declarator, without resolving it against a type: an
    /// identifier, or a declarator in parentheses, followed by suffixes.
    pub fn direct_decl(&mut self) -> (r: Result<(Vec<Derivation>, String), Error<'a>>)
        requires
            old(self).wf(),
        ensures
            old(self).agrees(
                *final(self),
                r,
                grammar::direct_declarator(old(self).views(), old(self).position()),
                |d: (Vec<Derivation>, String), v: DeclaratorView|
                    derivation_views(d.0@) == v.derivations && d.1@ == v.name,
            ),
        decreases old(self).tokens().len() - old(self).position(), 0int,
    {
        let ghost tokens = self.views();
        let ghost start = self.position();
        let at = self.pos;
        let opens = match self.input_tokens_peek() {
            Some(token) => match &token.kind {
                TokenKind::Symbol(c) => *c == '(',
                _ => false,
            },
            None => false,
        };
        if opens {
            self.pos += 1;
            let (mut derivations, name) = match self.read_declarator() {
                Ok(inner) => inner,
                Err(e) => {
                    return Err(e);
                },
            };
            if !self.consume_symbol(')') {
                return Err(self.unexpected(TokenKind::Symbol(')')));
            }
            let ghost inner = derivation_views(derivations@);
            match self.suffixes() {
                Ok(mut tail) => {
                    let ghost outer = derivation_views(tail@);
                    derivations.append(&mut tail);
                    assert(derivation_views(derivations@) =~= inner + outer);
                    Ok((derivations, name))
                },
                Err(e) => Err(e),
            }
        } else {
            let name = match self.ident() {
                Ok(name) => name,
                Err(e) => {
                    return Err(e);
                },
            };
            match self.suffixes() {
                Ok(tail) => Ok((tail, name)),
                Err(e) => Err(e),
            }
        }
    }

    /// Applies derivations to a type, from the last, which is the
    /// innermost, to the first.
    pub fn resolve(&self, base: Type, derivations: Vec<Derivation>) -> (r: Result<
        Type,
        Error<'a>,
    >)
        ensures
            match grammar::resolve(self.views(), base@, derivation_views(derivations@)) {
                Ok(ty) => r matches Ok(t) && t@ == ty,
                Err(e) => {
                    &&& r matches Err(error)
                    &&& error@ == e
                    &&& error.file_name == file_of(self.tokens())
                },
            },
    {
        let ghost tokens = self.views();
        let ghost whole = grammar::resolve(tokens, base@, derivation_views(derivations@));
        let mut ty = base;
        let mut rest = derivations;
        while rest.len() > 0
            invariant
                tokens == self.views(),
                whole == grammar::resolve(tokens, base@, derivation_views(derivations@)),
                grammar::resolve(tokens, ty@, derivation_views(rest@)) == whole,
            decreases rest.len(),
        {
            let ghost before = derivation_views(rest@);
            let step = rest.pop();
            proof {
                assert(derivation_views(rest@) =~= before.drop_last());
            }
            match step {
                Some(Derivation::Pointer) => {
                    ty = Type::new_ptr(ty);
                },
                Some(Derivation::Array { len, at }) => {
                    match ty.size().checked_mul(len) {
                        Some(_) => {
                            ty = Type::new_array(ty, len);
                        },
                        None => {
                            return Err(self.error_at(at, ErrorKind::NumericOverflow));
                        },
                    }
                },
                Some(Derivation::Function { params }) => {
                    ty = Type::new_func(ty, params);
                },
                None => {},
            }
        }
        Ok(ty)
    }

    /// Reads a declarator and resolves it against the type `ty` of the
    /// specifier before it.  Returns a node that declares the name with the
    /// resolved type.
    pub fn declarator(&mut self, ty: Type) -> (r: Result<Node, Error<'a>>)
        requires
            old(self).wf(),
        ensures
            old(self).agrees(
                *final(self),
                r,
                grammar::declaration(old(self).views(), old(self).position(), ty@),
                |n: Node, d: DeclarationView| n.is_declaration(d.ty, d.name),
            ),
    {
        let (derivations, name) = match self.read_declarator() {
            Ok(parts) => parts,
            Err(e) => {
                return Err(e);
            },
        };
        match self.resolve(ty, derivations) {
            Ok(resolved) => Ok(Node::new_var_def(resolved, name, Node::new_defalut())),
            Err(e) => Err(e),
        }
    }

    /// Reads one top-level declaration: a specifier, a declarator and a
    /// semicolon.
    pub fn toplevel(&mut self) -> (r: Result<Node, Error<'a>>)
        requires
            old(self).wf(),
        ensures
            old(self).agrees(
                *final(self),
                r,
                grammar::toplevel(old(self).views(), old(self).position()),
                |n: Node, d: DeclarationView| n.is_declaration(d.ty, d.name),
            ),
    {
        let base = match self.decl_specifiers() {
            Ok(ty) => ty,
            Err(e) => {
                return Err(e);
            },
        };
        let node = match self.declarator(base) {
            Ok(node) => node,
            Err(e) => {
                return Err(e);
            },
        };
        if self.consume_symbol(';') {
            Ok(node)
        } else if node.ty.is_function() && self.at_symbol('{') {
            Err(self.error_at(self.pos, ErrorKind::UnsupportedFeature))
        } else {
            Err(self.unexpected(TokenKind::Symbol(';')))
        }
    }

    /// Reads top-level declarations from the cursor to the end of the
    /// tokens.  Parsing stops at the first error.
    pub fn parse(&mut self) -> (r: Result<Vec<Node>, Error<'a>>)
        requires
            old(self).wf(),
        ensures
            final(self).wf(),
            final(self).tokens() == old(self).tokens(),
            match grammar::translation_unit(old(self).views(), old(self).position()) {
                Ok(declared) => {
                    &&& r matches Ok(nodes)
                    &&& declares(nodes@, declared)
                    &&& final(self).position() == old(self).tokens().len()
                },
                Err(e) => {
                    &&& r matches Err(error)
                    &&& error@ == e
                    &&& error.file_name == file_of(old(self).tokens())
                },
            },
    {
        let ghost tokens = self.views();
        let ghost whole = grammar::translation_unit(tokens, self.position());
        let ghost mut read: Seq<DeclarationView> = Seq::empty();
        let mut nodes: Vec<Node> = Vec::new();
        while self.pos < self.tokens.len()
            invariant
                self.wf(),
                self.tokens() == old(self).tokens(),
                tokens == self.views(),
                declares(nodes@, read),
                whole == grammar::translation_unit(old(self).views(), old(self).position()),
                whole == match grammar::translation_unit(tokens, self.position()) {
                    Ok(rest) => Ok(read + rest),
                    Err(e) => Err::<Seq<DeclarationView>, ErrorView>(e),
                },
            decreases self.tokens().len() - self.position(),
        {
            let ghost here = self.position();
            match self.toplevel() {
                Ok(node) => {
                    nodes.push(node);
                    proof {
                        lemma_toplevel_advances(tokens, here);
                        let first = grammar::toplevel(tokens, here)->Ok_0;
                        match grammar::translation_unit(tokens, first.next) {
                            Ok(rest) => {
                                assert(read + (seq![first.value] + rest) =~= read.push(first.value)
                                    + rest);
                            },
                            Err(e) => {},
                        }
                        read = read.push(first.value);
                    }
                },
                Err(e) => {
                    return Err(e);
                },
            }
        }
        proof {
            assert(read + Seq::<DeclarationView>::empty() =~= read);
        }
        Ok(nodes)
    }
}

/// The declarations of a source text: what parsing makes of the tokens
/// that scanning yields, or the first error of either.
pub open spec fn front_end(src: Seq<u8>) -> Result<Seq<DeclarationView>, ErrorView> {
    match scan_all(src).error {
        Some(e) => Err(e),
        None => grammar::translation_unit(scan_all(src).tokens, 0),
    }
}

/// Scans and parses `source_text`, the text of the file `file_name`.
/// Returns one node for each top-level declaration, in the order of the
/// source, or the first error.
pub fn parse_source<'a>(source_text: &'a str, file_name: &'a str) -> (r: Result<
    Vec<Node>,
    Error<'a>,
>)
    ensures
        match front_end(source_text.spec_bytes()) {
            Ok(declared) => r matches Ok(nodes) && declares(nodes@, declared),
            Err(e) => {
                &&& r matches Err(error)
                &&& error@ == e
                &&& error.file_name == file_name
            },
        },
{
    match tokenize(source_text, file_name) {
        Ok(tokens) => {
            let mut parser = Parser::new(tokens);
            parser.parse()
        },
        Err(e) => Err(e),
    }
}

} // verus!
