use rlox::scanner::{Scanner, Token, TokenType};
use rlox::scanner::TokenType as T;

fn scan_tokens(program: &str) -> Vec<Token> {
    let mut scanner = Scanner::new(program);
    let mut tokens = Vec::new();
    loop {
        let token = scanner.scan();
        tokens.push(token);
        if token.token_type == T::Eof {
            break;
        }
    }
    tokens
}

fn tok(token_type: TokenType, text: &str) -> Token {
    Token { token_type, text }
}

#[test]
fn empty() {
    let program = "";
    let tokens = scan_tokens(program);
    let expected = vec![tok(T::Eof, "")];
    assert_eq!(tokens, expected);
}

#[test]
fn single_character_tokens() {
    let program = "(){},.-+;/*";
    let tokens = scan_tokens(program);
    let expected = vec![
        tok(T::LeftParen, "("),
        tok(T::RightParen, ")"),
        tok(T::LeftBrace, "{"),
        tok(T::RightBrace, "}"),
        tok(T::Comma, ","),
        tok(T::Dot, "."),
        tok(T::Minus, "-"),
        tok(T::Plus, "+"),
        tok(T::Semicolon, ";"),
        tok(T::Slash, "/"),
        tok(T::Star, "*"),
        tok(T::Eof, ""),
    ];
    assert_eq!(tokens, expected);
}

#[test]
fn one_or_two_character_tokens() {
    let program = "! != = == > >= < <=";
    let tokens = scan_tokens(program);
    let expected = vec![
        tok(T::Bang, "!"),
        tok(T::BangEqual, "!="),
        tok(T::Equal, "="),
        tok(T::EqualEqual, "=="),
        tok(T::Greater, ">"),
        tok(T::GreaterEqual, ">="),
        tok(T::Less, "<"),
        tok(T::LessEqual, "<="),
        tok(T::Eof, ""),
    ];
    assert_eq!(tokens, expected);
}

#[test]
fn identifiers() {
    let program = "mark is making an interpreter";
    let tokens = scan_tokens(program);
    let expected = vec![
        tok(T::Identifier, "mark"),
        tok(T::Identifier, "is"),
        tok(T::Identifier, "making"),
        tok(T::Identifier, "an"),
        tok(T::Identifier, "interpreter"),
        tok(T::Eof, ""),
    ];
    assert_eq!(tokens, expected);
}

#[test]
fn empty_string() {
    let program = "\"\"";
    let tokens = scan_tokens(program);
    let expected = vec![tok(T::String, "\"\""), tok(T::Eof, "")];
    assert_eq!(tokens, expected);
}

#[test]
fn non_empty_string() {
    let program = "\"keywords: if else nil\"";
    let tokens = scan_tokens(program);
    let expected = vec![tok(T::String, "\"keywords: if else nil\""), tok(T::Eof, "")];
    assert_eq!(tokens, expected);
}

#[test]
fn integer() {
    let program = "01234";
    let tokens = scan_tokens(program);
    let expected = vec![tok(T::Number, "01234"), tok(T::Eof, "")];
    assert_eq!(tokens, expected);
}

#[test]
fn decimal() {
    let program = "0123.456";
    let tokens = scan_tokens(program);
    let expected = vec![tok(T::Number, "0123.456"), tok(T::Eof, "")];
    assert_eq!(tokens, expected);
}

#[test]
fn keywords() {
    let program = "and class else false for fn if let nil or print return super this true while";
    let tokens = scan_tokens(program);
    let expected = vec![
        tok(T::And, "and"),
        tok(T::Class, "class"),
        tok(T::Else, "else"),
        tok(T::False, "false"),
        tok(T::For, "for"),
        tok(T::Fn, "fn"),
        tok(T::If, "if"),
        tok(T::Let, "let"),
        tok(T::Nil, "nil"),
        tok(T::Or, "or"),
        tok(T::Print, "print"),
        tok(T::Return, "return"),
        tok(T::Super, "super"),
        tok(T::This, "this"),
        tok(T::True, "true"),
        tok(T::While, "while"),
        tok(T::Eof, ""),
    ];
    assert_eq!(tokens, expected);
}

#[test]
fn punctuation_texts_join_to_source_without_trivia() {
    let program = "( ) != // a comment\n<= ;\t*";
    let tokens = scan_tokens(program);
    let joined: std::string::String = tokens.iter().map(|t| t.text).collect();
    assert_eq!(joined, "()!=<=;*");
    let eofs = tokens.iter().filter(|t| t.token_type == T::Eof).count();
    assert_eq!(eofs, 1);
    assert_eq!(tokens.last().unwrap().token_type, T::Eof);
}

#[test]
fn keyword_alone_with_whitespace() {
    for (word, kind) in [("while", T::While), ("fn", T::Fn), ("nil", T::Nil), ("super", T::Super)] {
        let program = format!("  \t{}\n ", word);
        let tokens = scan_tokens(&program);
        assert_eq!(tokens, vec![tok(kind, word), tok(T::Eof, "")]);
    }
}

#[test]
fn eof_repeats_forever() {
    let mut scanner = Scanner::new("1 ");
    assert_eq!(scanner.scan(), tok(T::Number, "1"));
    for _ in 0..5 {
        assert_eq!(scanner.scan(), tok(T::Eof, ""));
    }
}

#[test]
fn comment_then_newline_is_skipped() {
    let tokens = scan_tokens("// note\n+");
    assert_eq!(tokens, vec![tok(T::Plus, "+"), tok(T::Eof, "")]);
}

#[test]
fn dot_without_digit_is_not_part_of_number() {
    let tokens = scan_tokens("12.");
    assert_eq!(tokens, vec![tok(T::Number, "12"), tok(T::Dot, "."), tok(T::Eof, "")]);
    let tokens = scan_tokens("1.x");
    assert_eq!(
        tokens,
        vec![tok(T::Number, "1"), tok(T::Dot, "."), tok(T::Identifier, "x"), tok(T::Eof, "")]
    );
}

#[test]
fn unterminated_string_is_an_error_token() {
    let tokens = scan_tokens("\"abc");
    assert_eq!(tokens, vec![tok(T::Error, "Unterminated string"), tok(T::Eof, "")]);
}

#[test]
fn unexpected_character_is_an_error_token() {
    let tokens = scan_tokens("@");
    assert_eq!(tokens, vec![tok(T::Error, "Unexpected character"), tok(T::Eof, "")]);
}

#[test]
fn non_ascii_letters_form_identifiers() {
    let tokens = scan_tokens("été x2");
    assert_eq!(
        tokens,
        vec![tok(T::Identifier, "été"), tok(T::Identifier, "x2"), tok(T::Eof, "")]
    );
    let tokens = scan_tokens("andy");
    assert_eq!(tokens, vec![tok(T::Identifier, "andy"), tok(T::Eof, "")]);
}
