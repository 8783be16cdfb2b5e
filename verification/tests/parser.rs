use seu9cc::common::{Node, NodeKind, Type};
use seu9cc::error::{Error, ErrorKind};
use seu9cc::lexer::{Lexer, Token, TokenKind};
use seu9cc::parser::{parse_source, Derivation, Parser};

fn tokens(input: &'static str) -> Vec<Token<'static>> {
    let mut lexer = Lexer::new(input, "test.c", input);
    lexer.scan().unwrap();
    lexer.tokens
}

fn parse(input: &'static str) -> Result<Vec<Node>, Error<'static>> {
    Parser::new(tokens(input)).parse()
}

fn declared(input: &'static str) -> (Type, String) {
    let mut nodes = parse(input).unwrap();
    assert_eq!(nodes.len(), 1);
    let node = nodes.pop().unwrap();
    match &node.kind {
        NodeKind::VarDef(init) => {
            assert!(matches!(init.kind, NodeKind::Num(0)));
            assert_eq!(init.ty, Type::new_int());
            assert_eq!(init.name, "");
        }
        other => panic!("{:?}", other),
    }
    (node.ty, node.name)
}

fn failure(input: &'static str) -> (ErrorKind, usize) {
    let e = parse(input).unwrap_err();
    assert_eq!(e.file_name, "test.c");
    (e.kind, e.offset)
}

fn int_type() -> Type {
    Type::new_int()
}

fn ptr(t: Type) -> Type {
    Type::new_ptr(t)
}

fn array(t: Type, n: u32) -> Type {
    Type::new_array(t, n)
}

fn func(t: Type, params: Vec<Type>) -> Type {
    Type::new_func(t, params)
}

#[test]
fn test_parser() {
    let input = "int main(){ return 0;}";
    let file_name = "test.c";
    let file_content = input;
    let mut lexer = Lexer::new(input, file_name, file_content);
    lexer.scan().unwrap();
    let tokens = lexer.tokens;
    let mut parser = Parser::new(tokens);
    let e = parser.parse().unwrap_err();
    assert!(matches!(e.kind, ErrorKind::UnsupportedFeature));
    assert_eq!(e.offset, 10);
    assert_eq!(e.file_name, "test.c");
}

#[test]
fn pointer_declarator() {
    assert_eq!(declared("int *p;"), (ptr(int_type()), "p".to_string()));
    assert_eq!(declared("int **p;"), (ptr(ptr(int_type())), "p".to_string()));
    assert_eq!(declared("char ***s;"), (ptr(ptr(ptr(Type::new_char()))), "s".to_string()));
}

#[test]
fn array_declarator() {
    assert_eq!(declared("int a[3];"), (array(int_type(), 3), "a".to_string()));
    assert_eq!(declared("char buf[0];"), (array(Type::new_char(), 0), "buf".to_string()));
}

#[test]
fn array_of_pointers() {
    assert_eq!(declared("int *a[3];"), (array(ptr(int_type()), 3), "a".to_string()));
}

#[test]
fn pointer_to_array() {
    assert_eq!(declared("int (*p)[3];"), (ptr(array(int_type(), 3)), "p".to_string()));
}

#[test]
fn nested_declarators() {
    assert_eq!(declared("int (x);"), (int_type(), "x".to_string()));
    assert_eq!(declared("int ((x));"), (int_type(), "x".to_string()));
    assert_eq!(declared("int *(*p)[3];"), (ptr(array(ptr(int_type()), 3)), "p".to_string()));
    assert_eq!(declared("int (**p)[2];"), (ptr(ptr(array(int_type(), 2))), "p".to_string()));
    assert_eq!(declared("int (*a[4])[2];"), (array(ptr(array(int_type(), 2)), 4), "a".to_string()));
    assert_eq!(
        declared("int (*(*p)[2])[3];"),
        (ptr(array(ptr(array(int_type(), 3)), 2)), "p".to_string())
    );
}

#[test]
fn each_suffix_wraps_the_type_before_it() {
    assert_eq!(declared("int a[2][3];"), (array(array(int_type(), 2), 3), "a".to_string()));
    assert_eq!(declared("int a[2][3];").0.size(), 24);
    assert_eq!(declared("int f()[2];"), (array(func(int_type(), vec![]), 2), "f".to_string()));
}

#[test]
fn base_types() {
    assert_eq!(declared("void v;"), (Type::new_void(), "v".to_string()));
    assert_eq!(declared("_Bool b;"), (Type::new_bool(), "b".to_string()));
    assert_eq!(declared("char c;"), (Type::new_char(), "c".to_string()));
    assert_eq!(declared("int i;"), (int_type(), "i".to_string()));
}

#[test]
fn flexible_array_has_the_sentinel_length() {
    assert_eq!(declared("int a[];"), (array(int_type(), 0), "a".to_string()));
    assert_eq!(declared("int a[];").0.size(), 0);
}

#[test]
fn function_declarators() {
    assert_eq!(declared("int f();"), (func(int_type(), vec![]), "f".to_string()));
    assert_eq!(declared("int f(int a);"), (func(int_type(), vec![int_type()]), "f".to_string()));
    assert_eq!(
        declared("void f(int a, char *b, _Bool **c);"),
        (
            func(
                Type::new_void(),
                vec![int_type(), ptr(Type::new_char()), ptr(ptr(Type::new_bool()))]
            ),
            "f".to_string()
        )
    );
    assert_eq!(declared("int *f(int a);"), (func(ptr(int_type()), vec![int_type()]), "f".to_string()));
    assert_eq!(declared("int (*fp)(int x);"), (ptr(func(int_type(), vec![int_type()])), "fp".to_string()));
    assert_eq!(
        declared("int (*fp[2])(char c);"),
        (array(ptr(func(int_type(), vec![Type::new_char()])), 2), "fp".to_string())
    );
}

#[test]
fn several_declarations() {
    let nodes = parse("int x; char *y; int a[2];").unwrap();
    assert_eq!(nodes.len(), 3);
    assert_eq!(nodes[0].name, "x");
    assert_eq!(nodes[0].ty, int_type());
    assert_eq!(nodes[1].name, "y");
    assert_eq!(nodes[1].ty, ptr(Type::new_char()));
    assert_eq!(nodes[2].name, "a");
    assert_eq!(nodes[2].ty, array(int_type(), 2));
    assert!(parse("").unwrap().is_empty());
    assert!(parse("  /* nothing */ ").unwrap().is_empty());
}

#[test]
fn unknown_specifier_is_rejected() {
    assert!(matches!(failure("foo x;"), (ErrorKind::InvalidTypeSpecifier, 0)));
    assert!(matches!(failure("int x; 3;"), (ErrorKind::InvalidTypeSpecifier, 7)));
    assert!(matches!(failure("*p;"), (ErrorKind::InvalidTypeSpecifier, 0)));
    assert!(matches!(failure("int f(x);"), (ErrorKind::InvalidTypeSpecifier, 6)));
    assert!(matches!(failure("int f(int a,);"), (ErrorKind::InvalidTypeSpecifier, 12)));
}

#[test]
fn struct_is_not_supported() {
    assert!(matches!(failure("struct s;"), (ErrorKind::UnsupportedFeature, 0)));
    assert!(matches!(failure("int f(struct s a);"), (ErrorKind::UnsupportedFeature, 6)));
}

#[test]
fn function_body_is_not_supported() {
    assert!(matches!(failure("int main() { }"), (ErrorKind::UnsupportedFeature, 11)));
    assert!(matches!(failure("int f(int a) { return a; }"), (ErrorKind::UnsupportedFeature, 13)));
}

#[test]
fn missing_identifier_is_rejected() {
    assert!(matches!(failure("int ;"), (ErrorKind::InvalidIdentifier, 4)));
    assert!(matches!(failure("int 3;"), (ErrorKind::InvalidIdentifier, 4)));
    assert!(matches!(failure("int *"), (ErrorKind::InvalidIdentifier, 5)));
    assert!(matches!(failure("int"), (ErrorKind::InvalidIdentifier, 3)));
    assert!(matches!(failure("int ()"), (ErrorKind::InvalidIdentifier, 5)));
    assert!(matches!(failure("int f(int);"), (ErrorKind::InvalidIdentifier, 9)));
    assert!(matches!(failure("int f(int a[2]);"), (ErrorKind::UnexpectedToken { .. }, 11)));
    assert!(matches!(failure("int return;"), (ErrorKind::InvalidIdentifier, 4)));
}

#[test]
fn structural_mismatch_names_both_tokens() {
    let (kind, offset) = failure("int a[3;");
    assert_eq!(offset, 7);
    match kind {
        ErrorKind::UnexpectedToken { expected, found } => {
            assert_eq!(expected, TokenKind::Symbol(']'));
            assert_eq!(found, TokenKind::Symbol(';'));
        }
        other => panic!("{:?}", other),
    }
    let (kind, offset) = failure("int a[n];");
    assert_eq!(offset, 6);
    match kind {
        ErrorKind::UnexpectedToken { expected, found } => {
            assert_eq!(expected, TokenKind::Symbol(']'));
            assert_eq!(found, TokenKind::Ident("n".to_string()));
        }
        other => panic!("{:?}", other),
    }
    let (kind, offset) = failure("int f(int a int b);");
    assert_eq!(offset, 12);
    match kind {
        ErrorKind::UnexpectedToken { expected, found } => {
            assert_eq!(expected, TokenKind::Symbol(','));
            assert_eq!(found, TokenKind::Int);
        }
        other => panic!("{:?}", other),
    }
    let (kind, offset) = failure("int (*p;");
    assert_eq!(offset, 7);
    match kind {
        ErrorKind::UnexpectedToken { expected, found } => {
            assert_eq!(expected, TokenKind::Symbol(')'));
            assert_eq!(found, TokenKind::Symbol(';'));
        }
        other => panic!("{:?}", other),
    }
    let (kind, offset) = failure("int x");
    assert_eq!(offset, 5);
    match kind {
        ErrorKind::UnexpectedToken { expected, found } => {
            assert_eq!(expected, TokenKind::Symbol(';'));
            assert_eq!(found, TokenKind::Eof);
        }
        other => panic!("{:?}", other),
    }
    let (kind, offset) = failure("int x {");
    assert_eq!(offset, 6);
    match kind {
        ErrorKind::UnexpectedToken { expected, found } => {
            assert_eq!(expected, TokenKind::Symbol(';'));
            assert_eq!(found, TokenKind::Symbol('{'));
        }
        other => panic!("{:?}", other),
    }
    assert!(matches!(failure("int f(int a"), (ErrorKind::UnexpectedToken { .. }, 11)));
    assert!(matches!(failure("int a["), (ErrorKind::UnexpectedToken { .. }, 6)));
}

#[test]
fn array_too_large_is_rejected() {
    assert!(matches!(failure("int a[4294967296];"), (ErrorKind::NumericOverflow, 6)));
    assert!(matches!(failure("int a[2000000000];"), (ErrorKind::NumericOverflow, 5)));
    assert!(matches!(failure("char a[65536][65536];"), (ErrorKind::NumericOverflow, 13)));
    assert_eq!(declared("char a[4294967295];").0.size(), 4294967295);
    assert_eq!(declared("int a[1073741823];").0.size(), 4294967292);
    assert_eq!(declared("int *a[536870911];").0.size(), 4294967288);
}

#[test]
fn parser_primitives() {
    let mut parser = Parser::new(tokens("int *x"));
    assert_eq!(parser.input_tokens_peek().unwrap().kind, TokenKind::Int);
    assert!(!parser.input_tokens_consume(TokenKind::Char));
    assert!(parser.input_tokens_consume(TokenKind::Int));
    assert!(!parser.input_tokens_consume(TokenKind::Int));
    let star = parser.input_tokens_next().unwrap();
    assert_eq!(star.kind, TokenKind::Symbol('*'));
    assert_eq!((star.span.start, star.span.end), (4, 5));
    assert_eq!(parser.ident().unwrap(), "x");
    assert!(parser.input_tokens_peek().is_none());
    assert!(parser.input_tokens_next().is_none());
    assert!(!parser.input_tokens_consume(TokenKind::Eof));
    assert!(matches!(parser.ident().unwrap_err().kind, ErrorKind::InvalidIdentifier));
    assert!(matches!(parser.decl_specifiers().unwrap_err().kind, ErrorKind::InvalidTypeSpecifier));
}

#[test]
fn declarator_against_a_given_type() {
    let mut parser = Parser::new(tokens("*a[3] rest"));
    let node = parser.declarator(Type::new_char()).unwrap();
    assert_eq!(node.ty, array(ptr(Type::new_char()), 3));
    assert_eq!(node.name, "a");
    assert_eq!(parser.input_tokens_peek().unwrap().kind, TokenKind::Ident("rest".to_string()));
}

#[test]
fn derivations_read_outermost_first() {
    let mut parser = Parser::new(tokens("*a[3]"));
    let (derivations, name) = parser.read_declarator().unwrap();
    assert_eq!(name, "a");
    assert_eq!(derivations.len(), 2);
    assert!(matches!(derivations[0], Derivation::Array { len: 3, at: 2 }));
    assert!(matches!(derivations[1], Derivation::Pointer));
    let resolved = parser.resolve(int_type(), derivations).unwrap();
    assert_eq!(resolved, array(ptr(int_type()), 3));

    let mut parser = Parser::new(tokens("(*p)[3]"));
    let (derivations, _) = parser.direct_decl().unwrap();
    assert!(matches!(derivations[0], Derivation::Pointer));
    assert!(matches!(derivations[1], Derivation::Array { len: 3, at: 4 }));
}

#[test]
fn parameters() {
    let mut parser = Parser::new(tokens("int a, char **b) x"));
    let list = parser.params().unwrap();
    assert_eq!(list.len(), 2);
    assert_eq!(*list[0].ty(), int_type());
    assert_eq!(list[0].name(), "a");
    assert_eq!(*list[1].ty(), ptr(ptr(Type::new_char())));
    assert_eq!(list[1].name(), "b");
    assert_eq!(parser.input_tokens_peek().unwrap().kind, TokenKind::Ident("x".to_string()));
    let mut parser = Parser::new(tokens("_Bool *flag"));
    let var = parser.params_decl().unwrap();
    assert_eq!(var.into_type(), ptr(Type::new_bool()));
}

#[test]
fn errors_name_the_file_of_the_tokens() {
    let input = "int 3";
    let mut lexer = Lexer::new(input, "unit.c", input);
    lexer.scan().unwrap();
    let e = Parser::new(lexer.tokens).parse().unwrap_err();
    assert_eq!(e.file_name, "unit.c");
    assert_eq!(e.offset, 4);
    let e = Parser::new(Vec::new()).toplevel().unwrap_err();
    assert_eq!(e.file_name, "");
    assert_eq!(e.offset, 0);
}

#[test]
fn source_text_is_scanned_and_parsed() {
    let nodes = parse_source("int *p; // a pointer\nchar s[8];", "unit.c").unwrap();
    assert_eq!(nodes.len(), 2);
    assert_eq!((&nodes[0].ty, nodes[0].name.as_str()), (&ptr(int_type()), "p"));
    assert_eq!((&nodes[1].ty, nodes[1].name.as_str()), (&array(Type::new_char(), 8), "s"));
    let e = parse_source("int x @", "unit.c").unwrap_err();
    assert!(matches!(e.kind, ErrorKind::UnrecognizedCharacter('@')));
    assert_eq!((e.file_name, e.offset), ("unit.c", 6));
    let e = parse_source("int x y;", "unit.c").unwrap_err();
    assert!(matches!(e.kind, ErrorKind::UnexpectedToken { .. }));
    assert_eq!((e.file_name, e.offset), ("unit.c", 6));
}
