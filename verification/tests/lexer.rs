use seu9cc::error::ErrorKind;
use seu9cc::lexer::{tokenize, Lexer, Token, TokenKind};

fn kinds(input: &str) -> Vec<String> {
    let mut lexer = Lexer::new(input, "test.c", input);
    lexer.scan().unwrap();
    lexer.tokens.iter().map(|t| format!("{:?}", t.kind)).collect()
}

fn spans(input: &str) -> Vec<(usize, usize)> {
    let mut lexer = Lexer::new(input, "test.c", input);
    lexer.scan().unwrap();
    lexer.tokens.iter().map(|t| (t.span.start, t.span.end)).collect()
}

fn failure(input: &str) -> (String, usize) {
    let mut lexer = Lexer::new(input, "test.c", input);
    let e = lexer.scan().unwrap_err();
    assert_eq!(e.file_name, "test.c");
    (format!("{:?}", e.kind), e.offset)
}

#[test]
fn test_lexer() {
    let input = "int main(){ return 0;}";
    let file_name = "test.c";
    let file_content = input;
    let mut lexer = Lexer::new(input, file_name, file_content);
    lexer.scan().unwrap();
    for token in lexer.tokens {
        println!("token kind: {:?}", token.kind);
    }
}

#[test]
fn scans_a_function_definition() {
    assert_eq!(
        kinds("int main(){ return 0;}"),
        vec![
            "Int",
            "Ident(\"main\")",
            "Symbol('(')",
            "Symbol(')')",
            "Symbol('{')",
            "Return",
            "Number(0)",
            "Symbol(';')",
            "Symbol('}')",
        ]
    );
    assert_eq!(
        spans("int main(){ return 0;}"),
        vec![(0, 3), (4, 8), (8, 9), (9, 10), (10, 11), (12, 18), (19, 20), (20, 21), (21, 22)]
    );
}

#[test]
fn unterminated_block_comment_fails() {
    assert_eq!(failure("/* never closed"), ("UnterminatedComment".to_string(), 0));
    assert_eq!(failure("int x; /*/"), ("UnterminatedComment".to_string(), 7));
}

#[test]
fn character_literal_is_a_number() {
    assert_eq!(kinds("'a'"), vec!["Number(97)"]);
    assert_eq!(spans("'a'"), vec![(0, 3)]);
}

#[test]
fn longest_operator_wins() {
    assert_eq!(kinds("<<="), vec!["ShlEq"]);
    assert_eq!(spans("<<="), vec![(0, 3)]);
    assert_eq!(kinds(">>="), vec!["ShrEq"]);
    assert_eq!(kinds("<<"), vec!["Shl"]);
    assert_eq!(kinds("<="), vec!["Le"]);
    assert_eq!(kinds("<"), vec!["Symbol('<')"]);
    assert_eq!(kinds("< <="), vec!["Symbol('<')", "Le"]);
    assert_eq!(kinds("a->b"), vec!["Ident(\"a\")", "Arrow", "Ident(\"b\")"]);
    assert_eq!(kinds("a+++b"), vec!["Ident(\"a\")", "Inc", "Symbol('+')", "Ident(\"b\")"]);
    assert_eq!(kinds("x>>=1"), vec!["Ident(\"x\")", "ShrEq", "Number(1)"]);
}

#[test]
fn every_operator_spelling() {
    let table = [
        ("==", "Eq"),
        ("!=", "Ne"),
        ("<=", "Le"),
        (">=", "Ge"),
        ("&&", "LogAnd"),
        ("||", "LogOr"),
        ("<<", "Shl"),
        (">>", "Shr"),
        ("++", "Inc"),
        ("--", "Dec"),
        ("->", "Arrow"),
        ("+=", "AddEq"),
        ("-=", "SubEq"),
        ("*=", "MulEq"),
        ("/=", "DivEq"),
        ("%=", "ModEq"),
        ("&=", "AndEq"),
        ("^=", "XorEq"),
        ("|=", "OrEq"),
        ("<<=", "ShlEq"),
        (">>=", "ShrEq"),
    ];
    for (text, name) in table {
        assert_eq!(kinds(text), vec![name.to_string()], "{}", text);
        assert_eq!(spans(text), vec![(0, text.len())]);
        assert_eq!(format!("{:?}", Token::from_str(text).unwrap()), name);
    }
    assert!(Token::from_str("+").is_none());
    assert!(Token::from_str("=>").is_none());
    assert!(Token::from_str("").is_none());
    assert!(Token::from_str("<<==").is_none());
}

#[test]
fn every_symbol() {
    for c in "+-*/%<>&^|!~=(){}[];,.:".chars() {
        assert_eq!(format!("{:?}", Token::from_char(c)), format!("Some(Symbol({:?}))", c));
        assert_eq!(kinds(&c.to_string()), vec![format!("Symbol({:?})", c)]);
    }
    for c in "a0_ \n'\"#@$?\\`".chars() {
        assert!(Token::from_char(c).is_none());
    }
}

#[test]
fn every_keyword() {
    let table = [
        ("int", "Int"),
        ("return", "Return"),
        ("extern", "Extern"),
        ("typedef", "Typedef"),
        ("char", "Char"),
        ("void", "Void"),
        ("struct", "Struct"),
        ("_Bool", "Bool"),
        ("if", "If"),
        ("else", "Else"),
        ("for", "For"),
        ("do", "Do"),
        ("while", "While"),
        ("switch", "Switch"),
        ("case", "Case"),
        ("break", "Break"),
        ("continue", "Continue"),
        ("sizeof", "Sizeof"),
        ("_Alignof", "Alignof"),
        ("typeof", "Typeof"),
    ];
    for (text, name) in table {
        assert_eq!(kinds(text), vec![name.to_string()]);
        assert_eq!(spans(text), vec![(0, text.len())]);
    }
}

#[test]
fn identifiers_hold_their_text() {
    assert_eq!(kinds("integer"), vec!["Ident(\"integer\")"]);
    assert_eq!(kinds("in"), vec!["Ident(\"in\")"]);
    assert_eq!(kinds("Int"), vec!["Ident(\"Int\")"]);
    assert_eq!(kinds("_x9 y_"), vec!["Ident(\"_x9\")", "Ident(\"y_\")"]);
    assert_eq!(kinds("for1"), vec!["Ident(\"for1\")"]);
    assert_eq!(kinds("_"), vec!["Ident(\"_\")"]);
    assert_eq!(spans("  foo  bar"), vec![(2, 5), (7, 10)]);
    let mut lexer = Lexer::new("main", "test.c", "main");
    lexer.scan().unwrap();
    match &lexer.tokens[0].kind {
        TokenKind::Ident(s) => assert_eq!(s, "main"),
        other => panic!("{:?}", other),
    }
}

#[test]
fn numbers() {
    assert_eq!(kinds("0"), vec!["Number(0)"]);
    assert_eq!(kinds("42"), vec!["Number(42)"]);
    assert_eq!(kinds("007"), vec!["Number(7)"]);
    assert_eq!(kinds("9223372036854775807"), vec!["Number(9223372036854775807)"]);
    assert_eq!(kinds("12ab"), vec!["Number(12)", "Ident(\"ab\")"]);
    assert_eq!(spans("12 345"), vec![(0, 2), (3, 6)]);
}

#[test]
fn number_out_of_range_fails() {
    assert_eq!(failure("9223372036854775808"), ("NumericOverflow".to_string(), 0));
    assert_eq!(failure("x = 99999999999999999999;"), ("NumericOverflow".to_string(), 4));
}

#[test]
fn whitespace_and_comments_are_skipped() {
    assert_eq!(kinds(""), Vec::<String>::new());
    assert_eq!(kinds(" \t\r\n"), Vec::<String>::new());
    assert_eq!(kinds("// only a comment"), Vec::<String>::new());
    assert_eq!(kinds("a // b\nc"), vec!["Ident(\"a\")", "Ident(\"c\")"]);
    assert_eq!(spans("a // b\nc"), vec![(0, 1), (7, 8)]);
    assert_eq!(kinds("a /* b */ c"), vec!["Ident(\"a\")", "Ident(\"c\")"]);
    assert_eq!(spans("a /* b */ c"), vec![(0, 1), (10, 11)]);
    assert_eq!(kinds("/**/x"), vec!["Ident(\"x\")"]);
    assert_eq!(kinds("/* * / ** */x"), vec!["Ident(\"x\")"]);
    assert_eq!(kinds("a/=b"), vec!["Ident(\"a\")", "DivEq", "Ident(\"b\")"]);
    assert_eq!(kinds("a / b"), vec!["Ident(\"a\")", "Symbol('/')", "Ident(\"b\")"]);
    assert_eq!(kinds("a\u{a0}b\u{3000}c\u{2028}"), vec!["Ident(\"a\")", "Ident(\"b\")", "Ident(\"c\")"]);
    assert_eq!(spans("a\u{a0}b\u{3000}c"), vec![(0, 1), (3, 4), (7, 8)]);
    assert_eq!(kinds("/* caf\u{e9} */ x // \u{1F600}"), vec!["Ident(\"x\")"]);
}

#[test]
fn string_literals_are_taken_raw() {
    assert_eq!(kinds("\"hello\""), vec!["Str(\"hello\")"]);
    assert_eq!(spans("\"hello\""), vec![(0, 7)]);
    assert_eq!(kinds("\"\""), vec!["Str(\"\")"]);
    assert_eq!(kinds("\"a\\n\""), vec!["Str(\"a\\\\n\")"]);
    assert_eq!(kinds("\"caf\u{e9}\" x"), vec!["Str(\"caf\u{e9}\")", "Ident(\"x\")"]);
    assert_eq!(spans("\"caf\u{e9}\" x"), vec![(0, 7), (8, 9)]);
    assert_eq!(kinds("\"// no comment\""), vec!["Str(\"// no comment\")"]);
}

#[test]
fn unterminated_string_fails() {
    assert_eq!(failure("\"abc"), ("UnterminatedStringLiteral".to_string(), 0));
    assert_eq!(failure("x = \""), ("UnterminatedStringLiteral".to_string(), 4));
}

#[test]
fn character_literals() {
    assert_eq!(kinds("'0'"), vec!["Number(48)"]);
    assert_eq!(kinds("' '"), vec!["Number(32)"]);
    assert_eq!(kinds("'''"), vec!["Number(39)"]);
    assert_eq!(kinds("'\u{e9}'"), vec!["Number(233)"]);
    assert_eq!(spans("'\u{e9}' x"), vec![(0, 4), (5, 6)]);
    assert_eq!(kinds("'\u{1F600}'"), vec!["Number(128512)"]);
    assert_eq!(spans("'\u{1F600}'"), vec![(0, 6)]);
}

#[test]
fn unterminated_character_literal_fails() {
    assert_eq!(failure("'a"), ("UnterminatedCharLiteral".to_string(), 0));
    assert_eq!(failure("'"), ("UnterminatedCharLiteral".to_string(), 0));
    assert_eq!(failure("'ab'"), ("UnterminatedCharLiteral".to_string(), 0));
    assert_eq!(failure("x '\\n'"), ("UnterminatedCharLiteral".to_string(), 2));
}

#[test]
fn unrecognized_character_fails() {
    assert_eq!(failure("#"), ("UnrecognizedCharacter('#')".to_string(), 0));
    assert_eq!(failure("int @"), ("UnrecognizedCharacter('@')".to_string(), 4));
    assert_eq!(failure("a \u{e9}"), ("UnrecognizedCharacter('\u{e9}')".to_string(), 2));
    assert_eq!(failure("\u{1F600}"), ("UnrecognizedCharacter('\u{1F600}')".to_string(), 0));
    let mut lexer = Lexer::new("a $ b", "test.c", "a $ b");
    let e = lexer.scan().unwrap_err();
    assert!(matches!(e.kind, ErrorKind::UnrecognizedCharacter('$')));
    assert_eq!(lexer.tokens.len(), 1);
}

#[test]
fn spans_carry_the_file() {
    let input = "int x;";
    let mut lexer = Lexer::new(input, "dir/file.c", "whole file");
    lexer.scan().unwrap();
    assert_eq!(lexer.tokens.len(), 3);
    for token in &lexer.tokens {
        assert_eq!(token.span.file_name, "dir/file.c");
        assert_eq!(token.span.file_content, "whole file");
    }
}

#[test]
fn spans_and_gaps_cover_the_input() {
    let input = "int  *p = &a[3]; // done\n/* x */ return p->q <<= 'c' + \"s\u{e9}\";\u{a0}";
    let mut lexer = Lexer::new(input, "test.c", input);
    lexer.scan().unwrap();
    let mut rebuilt = String::new();
    let mut at = 0;
    for token in &lexer.tokens {
        assert!(at <= token.span.start && token.span.start < token.span.end);
        let gap = &input[at..token.span.start];
        let mut blanks = Lexer::new(gap, "gap", gap);
        blanks.scan().unwrap();
        assert!(blanks.tokens.is_empty());
        rebuilt.push_str(gap);
        rebuilt.push_str(&input[token.span.start..token.span.end]);
        at = token.span.end;
    }
    rebuilt.push_str(&input[at..]);
    assert_eq!(rebuilt, input);
}

#[test]
fn scanner_gives_up_its_tokens() {
    let input = "a = 1;";
    let mut lexer = Lexer::new(input, "test.c", input);
    lexer.scan().unwrap();
    let tokens = lexer.into_tokens();
    assert_eq!(tokens.len(), 4);
    assert_eq!(tokens[3].kind, TokenKind::Symbol(';'));
}

#[test]
fn scanning_again_adds_nothing() {
    let input = "a b";
    let mut lexer = Lexer::new(input, "test.c", input);
    lexer.scan().unwrap();
    assert_eq!(lexer.tokens.len(), 2);
    lexer.scan().unwrap();
    assert_eq!(lexer.tokens.len(), 2);
}

#[test]
fn tokenize_scans_the_whole_text() {
    let tokens = tokenize("int x = 'x';", "one.c").unwrap();
    let kinds: Vec<TokenKind> = tokens.iter().map(|t| t.kind.clone()).collect();
    assert_eq!(
        kinds,
        vec![
            TokenKind::Int,
            TokenKind::Ident("x".to_string()),
            TokenKind::Symbol('='),
            TokenKind::Number(120),
            TokenKind::Symbol(';'),
        ]
    );
    for token in &tokens {
        assert_eq!(token.span.file_name, "one.c");
        assert_eq!(token.span.file_content, "int x = 'x';");
    }
    let e = tokenize("int x = `;", "two.c").unwrap_err();
    assert!(matches!(e.kind, ErrorKind::UnrecognizedCharacter('`')));
    assert_eq!((e.file_name, e.offset), ("two.c", 8));
}

#[test]
fn token_kinds_compare_by_kind_and_text() {
    assert_eq!(TokenKind::Ident("a".to_string()), TokenKind::Ident("a".to_string()));
    assert_ne!(TokenKind::Ident("a".to_string()), TokenKind::Ident("b".to_string()));
    assert_ne!(TokenKind::Ident("a".to_string()), TokenKind::Str("a".to_string()));
    assert_ne!(TokenKind::Number(1), TokenKind::Number(2));
    assert_ne!(TokenKind::Symbol('<'), TokenKind::Symbol('>'));
    assert_ne!(TokenKind::Shl, TokenKind::ShlEq);
    assert_ne!(TokenKind::Int, TokenKind::Char);
    assert_eq!(TokenKind::Eof, TokenKind::Eof);
    let token = &tokenize("\"text\"", "t.c").unwrap()[0];
    let copy = token.clone();
    assert_eq!(copy.kind, TokenKind::Str("text".to_string()));
    assert_eq!((copy.span.start, copy.span.end), (0, 6));
}

#[test]
fn steps_are_taken_one_at_a_time() {
    let input = " a/*c*/+";
    let mut lexer = Lexer::new(input, "test.c", input);
    lexer.scan_step().unwrap();
    assert!(lexer.tokens.is_empty());
    lexer.scan_step().unwrap();
    assert_eq!(lexer.tokens.len(), 1);
    lexer.scan_step().unwrap();
    assert_eq!(lexer.tokens.len(), 1);
    lexer.scan_step().unwrap();
    assert_eq!(lexer.tokens.len(), 2);
    assert_eq!(lexer.tokens[1].kind, TokenKind::Symbol('+'));
    assert_eq!((lexer.tokens[1].span.start, lexer.tokens[1].span.end), (7, 8));
}
