use mess::parser::lexer::tokenize;
use mess::parser::token::Token;

fn kinds(source: &str) -> Vec<Token> {
    tokenize(source).into_iter().map(|lexeme| lexeme.token).collect()
}

#[test]
fn keywords_and_identifiers() {
    assert_eq!(
        kinds("fun mod var static cont ext pub intf enum as for in on yield import this else while break continue return"),
        vec![
            Token::Fun, Token::Mod, Token::Var, Token::Static, Token::Cont, Token::Ext,
            Token::Pub, Token::Intf, Token::Enum, Token::As, Token::For, Token::In, Token::On,
            Token::Yield, Token::Import, Token::This, Token::Else, Token::While, Token::Break,
            Token::Continue, Token::Return,
        ]
    );
    assert_eq!(
        kinds("funny format inner _x x1 thisx"),
        vec![Token::Identifier; 6]
    );
    assert_eq!(
        kinds("int bool float string true false"),
        vec![
            Token::PrimitiveType, Token::PrimitiveType, Token::PrimitiveType,
            Token::PrimitiveType, Token::BoolLiteral, Token::BoolLiteral,
        ]
    );
}

#[test]
fn operators_take_the_longest_match() {
    assert_eq!(
        kinds("+ - * / = < > <= >= == != += -= *= /= ; : :: . .. , & ~ ( ) { }"),
        vec![
            Token::Plus, Token::Minus, Token::Times, Token::Divide, Token::Assign,
            Token::LessThan, Token::GreaterThan, Token::LessThanEquals,
            Token::GreaterThanEquals, Token::Equals, Token::NotEquals, Token::AddAssign,
            Token::SubAssign, Token::MulAssign, Token::DivAssign, Token::Semicolon,
            Token::Colon, Token::DoubleColon, Token::Dot, Token::DoubleDot, Token::Comma,
            Token::Ref, Token::Tilde, Token::OpenParan, Token::CloseParan, Token::OpenBlock,
            Token::CloseBlock,
        ]
    );
    assert_eq!(kinds(":::"), vec![Token::DoubleColon, Token::Colon]);
    assert_eq!(kinds("==="), vec![Token::Equals, Token::Assign]);
    assert_eq!(kinds("&this &thisx &that"), vec![
        Token::ThisRef, Token::ThisRef, Token::Identifier, Token::Ref, Token::Identifier,
    ]);
}

#[test]
fn numbers() {
    assert_eq!(kinds("12 1.5 3. 4..5 1.5.2"), vec![
        Token::IntLiteral, Token::FloatLiteral, Token::IntLiteral, Token::Dot,
        Token::IntLiteral, Token::DoubleDot, Token::IntLiteral, Token::FloatLiteral,
        Token::Dot, Token::IntLiteral,
    ]);
}

#[test]
fn strings_comments_and_errors() {
    let lexemes = tokenize("\"a\\\"b\" # note\nx \"open ! #last");
    let tokens: Vec<Token> = lexemes.iter().map(|lexeme| lexeme.token).collect();
    assert_eq!(tokens, vec![
        Token::StringLiteral, Token::Identifier, Token::Error, Token::Identifier,
        Token::Error, Token::Error, Token::Identifier,
    ]);
    assert_eq!(lexemes[0].text, "\"a\\\"b\"");
    assert_eq!((lexemes[0].start, lexemes[0].end), (0, 6));
    assert_eq!(lexemes[1].text, "x");
    assert_eq!((lexemes[1].start, lexemes[1].end), (14, 15));
}

#[test]
fn positions_count_bytes() {
    let source = "\"\u{e9}\u{4e16}\"\u{a0}x \u{1f600}";
    let lexemes = tokenize(source);
    assert_eq!(lexemes.len(), 3);
    assert_eq!((lexemes[0].start, lexemes[0].end), (0, 7));
    assert_eq!(lexemes[0].text, "\"\u{e9}\u{4e16}\"");
    assert_eq!(lexemes[1].text, "x");
    assert_eq!((lexemes[1].start, lexemes[1].end), (9, 10));
    assert_eq!(lexemes[2].token, Token::Error);
    assert_eq!((lexemes[2].start, lexemes[2].end), (11, 15));
    for lexeme in &lexemes {
        assert_eq!(lexeme.text, source[lexeme.start..lexeme.end]);
    }
}

#[test]
fn empty_source_has_no_tokens() {
    assert!(tokenize("").is_empty());
    assert!(tokenize(" \n\t # only a comment\n").is_empty());
}
