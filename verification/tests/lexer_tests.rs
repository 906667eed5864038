use dislang::lexer::{new_lexer, Token};

#[test]
fn test_simple() {
    let input = "=+(){},;";
    let tests: Vec<Token> = vec![
        Token::Assign,
        Token::Plus,
        Token::LParen,
        Token::RParen,
        Token::LBrace,
        Token::RBrace,
        Token::Comma,
        Token::Semicolon,
    ];

    let mut lexer = new_lexer(input);
    let mut index = 0;
    for tok in tests {
        let next_tok = lexer.next_token();
        if next_tok != tok {
            panic!(
                "Lexer failed: Expected Token {:?} got token {:?} at index {}",
                tok, next_tok, index
            )
        }
        index += 1;
    }
    assert!(true);
}

#[test]
fn test_func() {
    let input = "
        func add(x, y) {
            if(x == y && x == true){
                return !x;
            }
        }

        func main() {
            let val = run add(20, 30);
            let val2 = run add(20, 30);
        }";
    let tests: Vec<Token> = vec![
        Token::Func,
        Token::Ident("add".to_owned()),
        Token::LParen,
        Token::Ident("x".to_owned()),
        Token::Comma,
        Token::Ident("y".to_owned()),
        Token::RParen,
        Token::LBrace,
        Token::If,
        Token::LParen,
        Token::Ident("x".to_owned()),
        Token::Equal,
        Token::Ident("y".to_owned()),
        Token::And,
        Token::Ident("x".to_owned()),
        Token::Equal,
        Token::True,
        Token::RParen,
        Token::LBrace,
        Token::Return,
        Token::Bang,
        Token::Ident("x".to_owned()),
        Token::Semicolon,
        Token::RBrace,
        Token::RBrace,
        Token::Func,
        Token::Ident("main".to_owned()),
        Token::LParen,
        Token::RParen,
        Token::LBrace,
        Token::Let,
        Token::Ident("val".to_owned()),
        Token::Assign,
        Token::Run,
        Token::Ident("add".to_owned()),
        Token::LParen,
        Token::Int(20),
        Token::Comma,
        Token::Int(30),
        Token::RParen,
        Token::Semicolon,
        Token::Let,
        Token::Ident("val2".to_owned()),
        Token::Assign,
        Token::Run,
        Token::Ident("add".to_owned()),
        Token::LParen,
        Token::Int(20),
        Token::Comma,
        Token::Int(30),
        Token::RParen,
        Token::Semicolon,
        Token::RBrace,
    ];

    let mut lexer = new_lexer(input);
    let mut index = 0;
    for tok in tests {
        let next_tok = lexer.next_token();
        if next_tok != tok {
            panic!(
                "Lexer failed: Expected Token {:?} got token {:?} at index {}",
                tok, next_tok, index
            )
        }
        index += 1;
    }
    assert!(true);
}

#[test]
fn end_of_input_is_eof_forever() {
    let mut lexer = new_lexer("  x  ");
    assert_eq!(lexer.next_token(), Token::Ident("x".to_owned()));
    assert_eq!(lexer.next_token(), Token::Eof);
    assert_eq!(lexer.next_token(), Token::Eof);
    let mut empty = new_lexer("");
    assert_eq!(empty.next_token(), Token::Eof);
}

#[test]
fn keywords_and_type_names() {
    let mut lexer = new_lexer("dis func f(a: int, b: bool) let if else for true false return run");
    let expected = vec![
        Token::Dis,
        Token::Func,
        Token::Ident("f".to_owned()),
        Token::LParen,
        Token::Ident("a".to_owned()),
        Token::Colon,
        Token::IntType,
        Token::Comma,
        Token::Ident("b".to_owned()),
        Token::Colon,
        Token::BoolType,
        Token::RParen,
        Token::Let,
        Token::If,
        Token::Else,
        Token::For,
        Token::True,
        Token::False,
        Token::Return,
        Token::Run,
        Token::Eof,
    ];
    for tok in expected {
        assert_eq!(lexer.next_token(), tok);
    }
}

#[test]
fn identifiers_keep_letters_and_digits() {
    let mut lexer = new_lexer("aZ09 intx Bool");
    assert_eq!(lexer.next_token(), Token::Ident("aZ09".to_owned()));
    assert_eq!(lexer.next_token(), Token::Ident("intx".to_owned()));
    assert_eq!(lexer.next_token(), Token::Ident("Bool".to_owned()));
    assert_eq!(lexer.next_token(), Token::Eof);
}

#[test]
fn two_byte_operators_and_their_prefixes() {
    let mut lexer = new_lexer("== = != ! && & < > - : ");
    let expected = vec![
        Token::Equal,
        Token::Assign,
        Token::NotEqual,
        Token::Bang,
        Token::And,
        Token::Illegal,
        Token::LessThan,
        Token::GreaterThan,
        Token::Minus,
        Token::Colon,
        Token::Eof,
    ];
    for tok in expected {
        assert_eq!(lexer.next_token(), tok);
    }
}

#[test]
fn number_values_and_overflow() {
    let mut lexer = new_lexer("0 007 9223372036854775807 9223372036854775808 12ab");
    assert_eq!(lexer.next_token(), Token::Int(0));
    assert_eq!(lexer.next_token(), Token::Int(7));
    assert_eq!(lexer.next_token(), Token::Int(9223372036854775807));
    assert_eq!(lexer.next_token(), Token::Illegal);
    assert_eq!(lexer.next_token(), Token::Int(12));
    assert_eq!(lexer.next_token(), Token::Ident("ab".to_owned()));
    assert_eq!(lexer.next_token(), Token::Eof);
}

#[test]
fn bytes_outside_the_alphabet_are_illegal() {
    let mut lexer = new_lexer("a # \u{e9} b");
    assert_eq!(lexer.next_token(), Token::Ident("a".to_owned()));
    assert_eq!(lexer.next_token(), Token::Illegal);
    assert_eq!(lexer.next_token(), Token::Illegal);
    assert_eq!(lexer.next_token(), Token::Illegal);
    assert_eq!(lexer.next_token(), Token::Ident("b".to_owned()));
    assert_eq!(lexer.next_token(), Token::Eof);
}
