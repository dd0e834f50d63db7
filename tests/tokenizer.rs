use rlox::tokenizer::{Token, TokenKind, Tokenizer};

fn tokenize(source: &str) -> Vec<TokenKind> {
    let mut tokenizer = Tokenizer::new(source);
    let mut kinds = Vec::new();
    while let Some(token) = tokenizer.next() {
        kinds.push(token.kind);
    }
    kinds
}

#[test]
fn advance() {
    let mut t = Tokenizer::new("hello world");
    t.advance_byte();
    t.advance_byte();
    assert_eq!(t.current(), 2);
    assert_eq!(t.rest(), "llo world");
}

#[test]
fn drop() {
    let mut t = Tokenizer::new("hello world");
    t.drop_byte();
    t.drop_byte();
    assert_eq!(t.current(), 2);
    assert_eq!(t.rest(), "llo world");
}

#[test]
fn peek() {
    let mut t = Tokenizer::new("hello world");
    assert_eq!(t.peek_byte(), Some(b'h'));
    assert_eq!(t.peek_byte(), Some(b'h'));
    t.advance_byte();
    assert_eq!(t.peek_byte(), Some(b'e'));
    assert_eq!(t.peek_byte(), Some(b'e'));
    t.advance_bytes(100);
    assert_eq!(t.peek_byte(), None);
}

#[test]
fn peek_more() {
    let mut t = Tokenizer::new("hello world");
    assert_eq!(t.peek_bytes(5), Some("hello"));
    assert_eq!(t.peek_bytes(5), Some("hello"));
    t.advance_bytes(6);
    assert_eq!(t.peek_bytes(5), Some("world"));
    assert_eq!(t.peek_bytes(5), Some("world"));
    assert_eq!(t.peek_bytes(6), None);
}

#[test]
fn take_byte() {
    let mut t = Tokenizer::new("hello world");
    assert_eq!(t.take_byte(), Some(b'h'));
    assert_eq!(t.take_byte(), Some(b'e'));
    t.advance_byte();
    t.advance_byte();
    assert_eq!(t.take_byte(), Some(b'o'));
    t.advance_byte();
    assert_eq!(t.peek_byte(), Some(b'w'));
    assert_eq!(t.take_byte(), Some(b'w'));
    t.advance_bytes(100);
    assert_eq!(t.take_byte(), None);
}

#[test]
fn take_more() {
    let mut t = Tokenizer::new("hello world");
    assert_eq!(t.take_byte(), Some(b'h'));
    assert_eq!(t.take_bytes(4), Some("ello"));
    assert_eq!(t.peek_byte(), Some(b' '));
    t.advance_byte();
    assert_eq!(t.take_bytes(10), None);
    assert_eq!(t.take_bytes(5), Some("world"));
}

#[test]
fn checkpoint() {
    let mut t = Tokenizer::new("hello world");
    t.advance_bytes(6);
    assert_eq!(t.checkpoint(), Some(b'w'));
    assert_eq!(t.take_bytes(5), Some("world"));
}

#[test]
fn make_token() {
    let mut t = Tokenizer::new("hello world");
    assert_eq!(t.checkpoint(), Some(b'h'));
    assert_eq!(t.take_byte(), Some(b'h'));
    assert_eq!(t.take_bytes(4), Some("ello"));
    assert_eq!(
        t.create_token(TokenKind::String),
        Token::new(TokenKind::String, "hello", 0, 0)
    );

    t.advance_byte();

    t.checkpoint();
    t.take_bytes(5);
    assert_eq!(
        t.create_token(TokenKind::String),
        Token::new(TokenKind::String, "world", 6, 0)
    );
}

#[test]
fn token() {
    let mut t = Tokenizer::new("()");
    assert_eq!(t.token(), Some(Token::new(TokenKind::LeftParen, "(", 0, 0)));
    assert_eq!(t.token(), Some(Token::new(TokenKind::RightParen, ")", 1, 0)));
}

#[test]
fn single_tokens() {
    let mut t = Tokenizer::new("()");

    assert_eq!(t.next().map(|it| it.kind), Some(TokenKind::LeftParen));
    assert_eq!(t.next().map(|it| it.kind), Some(TokenKind::RightParen));
}

#[test]
fn single_tokens_2() {
    assert_eq!(
        tokenize("(){};,.-+/*"),
        vec!(
            TokenKind::LeftParen,
            TokenKind::RightParen,
            TokenKind::LeftBrace,
            TokenKind::RightBrace,
            TokenKind::Semicolon,
            TokenKind::Comma,
            TokenKind::Dot,
            TokenKind::Minus,
            TokenKind::Plus,
            TokenKind::Slash,
            TokenKind::Star
        )
    );
}

#[test]
fn possible_double_tokens() {
    assert_eq!(
        tokenize("!=!.===.<=<.>=>"),
        vec!(
            TokenKind::BangEqual,
            TokenKind::Bang,
            TokenKind::Dot,
            TokenKind::EqualEqual,
            TokenKind::Equal,
            TokenKind::Dot,
            TokenKind::LessEqual,
            TokenKind::Less,
            TokenKind::Dot,
            TokenKind::GreaterEqual,
            TokenKind::Greater
        )
    );
}

#[test]
fn handles_whitespace_1() {
    assert_eq!(tokenize("  ()"), vec!(TokenKind::LeftParen, TokenKind::RightParen));
}

#[test]
fn handles_whitespace_2() {
    assert_eq!(
        tokenize("!= =       =="),
        vec!(TokenKind::BangEqual, TokenKind::Equal, TokenKind::EqualEqual)
    );
}

#[test]
fn handles_whitespace_3() {
    assert_eq!(
        tokenize("====      "),
        vec!(TokenKind::EqualEqual, TokenKind::EqualEqual)
    );
}

#[test]
fn handles_comments_1() {
    assert_eq!(tokenize("// ok this is a comment"), vec!());
}

#[test]
fn handles_comments_2() {
    assert_eq!(
        tokenize("// ok this is a comment \n    /()*"),
        vec!(
            TokenKind::Slash,
            TokenKind::LeftParen,
            TokenKind::RightParen,
            TokenKind::Star
        )
    );
}

#[test]
fn handles_comments_3() {
    assert_eq!(tokenize("// ok this is a comment \n!"), vec!(TokenKind::Bang));
}

#[test]
fn handles_newlines() {
    let mut t = Tokenizer::new("*\n!\n.");
    assert_eq!(t.next(), Some(Token::new(TokenKind::Star, "*", 0, 0)));
    assert_eq!(t.next(), Some(Token::new(TokenKind::Bang, "!", 2, 1)));
    assert_eq!(t.next(), Some(Token::new(TokenKind::Dot, ".", 4, 2)));
    assert_eq!(t.line(), 2);
}

#[test]
fn handles_strings() {
    let mut t = Tokenizer::new("\"Hello world!\"");
    assert_eq!(
        t.next(),
        Some(Token::new(TokenKind::String, "\"Hello world!\"", 0, 0))
    );
}

#[test]
fn handles_strings_() {
    let mut t = Tokenizer::new("!= \"Hello world!\"");
    assert_eq!(t.next(), Some(Token::new(TokenKind::BangEqual, "!=", 0, 0)));
    assert_eq!(
        t.next(),
        Some(Token::new(TokenKind::String, "\"Hello world!\"", 3, 0))
    );
}

#[test]
fn handles_unterminated_strings() {
    let mut t = Tokenizer::new("\"Hello world!");
    assert_eq!(t.next(), None);
}

#[test]
fn handles_numbers() {
    let mut t = Tokenizer::new("1009");
    assert_eq!(t.next(), Some(Token::new(TokenKind::Number, "1009", 0, 0)));
}

#[test]
fn handles_numbers_2() {
    let mut t = Tokenizer::new("1");
    assert_eq!(t.next(), Some(Token::new(TokenKind::Number, "1", 0, 0)));
}

#[test]
fn handles_numbers_3() {
    let mut t = Tokenizer::new("!1");
    assert_eq!(t.next(), Some(Token::new(TokenKind::Bang, "!", 0, 0)));
    assert_eq!(t.next(), Some(Token::new(TokenKind::Number, "1", 1, 0)));
}

#[test]
fn handles_identifiers() {
    let mut t = Tokenizer::new("it _it it5");
    assert_eq!(t.next(), Some(Token::new(TokenKind::Identifier, "it", 0, 0)));
    assert_eq!(t.next(), Some(Token::new(TokenKind::Identifier, "_it", 3, 0)));
    assert_eq!(t.next(), Some(Token::new(TokenKind::Identifier, "it5", 7, 0)));
}

#[test]
fn handles_keyword_and() {
    let mut t = Tokenizer::new("and ! and! !and andand");
    assert_eq!(t.next(), Some(Token::new(TokenKind::And, "and", 0, 0)));
    assert_eq!(t.next(), Some(Token::new(TokenKind::Bang, "!", 4, 0)));
    assert_eq!(t.next(), Some(Token::new(TokenKind::And, "and", 6, 0)));
    assert_eq!(t.next(), Some(Token::new(TokenKind::Bang, "!", 9, 0)));
    assert_eq!(t.next(), Some(Token::new(TokenKind::Bang, "!", 11, 0)));
    assert_eq!(t.next(), Some(Token::new(TokenKind::And, "and", 12, 0)));
    assert_eq!(
        t.next(),
        Some(Token::new(TokenKind::Identifier, "andand", 16, 0))
    );
}

#[test]
fn handles_keyword_class() {
    let mut t = Tokenizer::new("class classes");
    assert_eq!(t.next(), Some(Token::new(TokenKind::Class, "class", 0, 0)));
    assert_eq!(
        t.next(),
        Some(Token::new(TokenKind::Identifier, "classes", 6, 0))
    );
}

#[test]
fn handles_keyword_else() {
    let mut t = Tokenizer::new("else elsen");
    assert_eq!(t.next(), Some(Token::new(TokenKind::Else, "else", 0, 0)));
    assert_eq!(
        t.next(),
        Some(Token::new(TokenKind::Identifier, "elsen", 5, 0))
    );
}

#[test]
fn handles_keyword_if() {
    let mut t = Tokenizer::new("if iff");
    assert_eq!(t.next(), Some(Token::new(TokenKind::If, "if", 0, 0)));
    assert_eq!(
        t.next(),
        Some(Token::new(TokenKind::Identifier, "iff", 3, 0))
    );
}

#[test]
fn handles_keyword_nil() {
    let mut t = Tokenizer::new("nil nill");
    assert_eq!(t.next(), Some(Token::new(TokenKind::Nil, "nil", 0, 0)));
    assert_eq!(
        t.next(),
        Some(Token::new(TokenKind::Identifier, "nill", 4, 0))
    );
}

#[test]
fn handles_keyword_or() {
    let mut t = Tokenizer::new("or ors");
    assert_eq!(t.next(), Some(Token::new(TokenKind::Or, "or", 0, 0)));
    assert_eq!(
        t.next(),
        Some(Token::new(TokenKind::Identifier, "ors", 3, 0))
    );
}

#[test]
fn handles_keyword_print() {
    let mut t = Tokenizer::new("print prints");
    assert_eq!(t.next(), Some(Token::new(TokenKind::Print, "print", 0, 0)));
    assert_eq!(
        t.next(),
        Some(Token::new(TokenKind::Identifier, "prints", 6, 0))
    );
}

#[test]
fn handles_keyword_return() {
    let mut t = Tokenizer::new("return returns");
    assert_eq!(t.next(), Some(Token::new(TokenKind::Return, "return", 0, 0)));
    assert_eq!(
        t.next(),
        Some(Token::new(TokenKind::Identifier, "returns", 7, 0))
    );
}

#[test]
fn handles_keyword_super() {
    let mut t = Tokenizer::new("super supers");
    assert_eq!(t.next(), Some(Token::new(TokenKind::Super, "super", 0, 0)));
    assert_eq!(
        t.next(),
        Some(Token::new(TokenKind::Identifier, "supers", 6, 0))
    );
}

#[test]
fn handles_keyword_var() {
    let mut t = Tokenizer::new("var vars");
    assert_eq!(t.next(), Some(Token::new(TokenKind::Var, "var", 0, 0)));
    assert_eq!(
        t.next(),
        Some(Token::new(TokenKind::Identifier, "vars", 4, 0))
    );
}

#[test]
fn handles_keyword_while() {
    let mut t = Tokenizer::new("while whiles");
    assert_eq!(t.next(), Some(Token::new(TokenKind::While, "while", 0, 0)));
    assert_eq!(
        t.next(),
        Some(Token::new(TokenKind::Identifier, "whiles", 6, 0))
    );
}

#[test]
fn handles_keyword_false() {
    let mut t = Tokenizer::new("false falses");
    assert_eq!(t.next(), Some(Token::new(TokenKind::False, "false", 0, 0)));
    assert_eq!(
        t.next(),
        Some(Token::new(TokenKind::Identifier, "falses", 6, 0))
    );
}

#[test]
fn handles_keyword_for() {
    let mut t = Tokenizer::new("for fore");
    assert_eq!(t.next(), Some(Token::new(TokenKind::For, "for", 0, 0)));
    assert_eq!(
        t.next(),
        Some(Token::new(TokenKind::Identifier, "fore", 4, 0))
    );
}

#[test]
fn handles_keyword_fun() {
    let mut t = Tokenizer::new("fun func");
    assert_eq!(t.next(), Some(Token::new(TokenKind::Fun, "fun", 0, 0)));
    assert_eq!(
        t.next(),
        Some(Token::new(TokenKind::Identifier, "func", 4, 0))
    );
}

#[test]
fn handles_keyword_this() {
    let mut t = Tokenizer::new("this thiss");
    assert_eq!(t.next(), Some(Token::new(TokenKind::This, "this", 0, 0)));
    assert_eq!(
        t.next(),
        Some(Token::new(TokenKind::Identifier, "thiss", 5, 0))
    );
}

#[test]
fn handles_keyword_true() {
    let mut t = Tokenizer::new("true trues");
    assert_eq!(t.next(), Some(Token::new(TokenKind::True, "true", 0, 0)));
    assert_eq!(
        t.next(),
        Some(Token::new(TokenKind::Identifier, "trues", 5, 0))
    );
}
