use shellcore::lexer::{Keyword, Lexer, LexerError, Operator, Token, TokenKind};
use shellcore::text::Glyph;

fn kinds(input: &str) -> Vec<TokenKind> {
    Lexer::parse(input).unwrap().into_iter().into_iter().map(|t| t.kind).collect()
}

fn word(s: &str) -> TokenKind {
    TokenKind::Word(String::from(s))
}

fn sentence(s: &str) -> TokenKind {
    TokenKind::Sentence(String::from(s))
}

#[test]
fn assignment_with_spaces_is_word_operator_number() {
    assert_eq!(
        kinds("x = 5;"),
        vec![word("x"), TokenKind::Operator(Operator::Equal), TokenKind::Int(5), TokenKind::Semicolon]
    );
}

#[test]
fn declaration_then_increment_then_read() {
    assert_eq!(
        kinds("let x = 5; x = x + 1; x"),
        vec![
            TokenKind::Keyword(Keyword::Let),
            word("x"),
            TokenKind::Operator(Operator::Equal),
            TokenKind::Int(5),
            TokenKind::Semicolon,
            word("x"),
            TokenKind::Operator(Operator::Equal),
            word("x"),
            TokenKind::Operator(Operator::Plus),
            TokenKind::Int(1),
            TokenKind::Semicolon,
            word("x"),
        ]
    );
}

#[test]
fn word_followed_by_letters_is_a_sentence() {
    assert_eq!(kinds("echo hello world"), vec![sentence("echo hello world")]);
}

#[test]
fn sentence_ends_at_the_semicolon_and_is_trimmed() {
    assert_eq!(
        kinds("echo hello ; x"),
        vec![sentence("echo hello"), TokenKind::Semicolon, word("x")]
    );
}

#[test]
fn word_with_text_attached_is_a_sentence() {
    assert_eq!(kinds("x=5"), vec![sentence("x=5")]);
    assert_eq!(kinds("file.txt"), vec![sentence("file.txt")]);
}

#[test]
fn word_alone_before_the_end_or_a_semicolon_is_a_word() {
    assert_eq!(kinds("ls"), vec![word("ls")]);
    assert_eq!(kinds("ls;"), vec![word("ls"), TokenKind::Semicolon]);
    assert_eq!(kinds("ls   "), vec![word("ls")]);
}

#[test]
fn word_then_symbol_stays_a_word() {
    assert_eq!(
        kinds("ls -la"),
        vec![word("ls"), TokenKind::Operator(Operator::Minus), word("la")]
    );
}

#[test]
fn word_then_number_at_the_end_is_a_sentence() {
    assert_eq!(kinds("echo 5"), vec![sentence("echo 5")]);
}

#[test]
fn looking_ahead_consumes_nothing() {
    assert_eq!(kinds("echo 5;"), vec![word("echo"), TokenKind::Int(5), TokenKind::Semicolon]);
    assert_eq!(
        kinds("x 5 + 1"),
        vec![word("x"), TokenKind::Int(5), TokenKind::Operator(Operator::Plus), TokenKind::Int(1)]
    );
    assert_eq!(
        kinds("(x) {"),
        vec![TokenKind::OpenBracket, word("x"), TokenKind::ClosedBracket, TokenKind::OpenCurlyBracket]
    );
    assert_eq!(
        kinds("x= 5 +1"),
        vec![
            word("x"),
            TokenKind::Operator(Operator::Equal),
            TokenKind::Int(5),
            TokenKind::Operator(Operator::Plus),
            TokenKind::Int(1),
        ]
    );
}

#[test]
fn keywords_ignore_case() {
    assert_eq!(
        kinds("IF Let elif ELSE fn While TRUE false"),
        vec![
            TokenKind::Keyword(Keyword::If),
            TokenKind::Keyword(Keyword::Let),
            TokenKind::Keyword(Keyword::Elseif),
            TokenKind::Keyword(Keyword::Else),
            TokenKind::Keyword(Keyword::Fn),
            TokenKind::Keyword(Keyword::While),
            TokenKind::Bool(true),
            TokenKind::Bool(false),
        ]
    );
}

#[test]
fn single_character_tokens() {
    assert_eq!(
        kinds("(){}.;+-*/=%"),
        vec![
            TokenKind::OpenBracket,
            TokenKind::ClosedBracket,
            TokenKind::OpenCurlyBracket,
            TokenKind::ClosedCurlyBracket,
            TokenKind::Period,
            TokenKind::Semicolon,
            TokenKind::Operator(Operator::Plus),
            TokenKind::Operator(Operator::Minus),
            TokenKind::Operator(Operator::Multiply),
            TokenKind::Operator(Operator::Divide),
            TokenKind::Operator(Operator::Equal),
            TokenKind::Operator(Operator::Modulo),
        ]
    );
}

#[test]
fn numbers_drop_underscores() {
    assert_eq!(kinds("1_000"), vec![TokenKind::Int(1000)]);
    assert_eq!(kinds("1_0.5"), vec![TokenKind::Float(String::from("10.5"))]);
    assert_eq!(kinds("9223372036854775807"), vec![TokenKind::Int(i64::MAX)]);
}

#[test]
fn decimal_literals_keep_their_digits() {
    assert_eq!(kinds("1.5"), vec![TokenKind::Float(String::from("1.5"))]);
    assert_eq!(kinds("5."), vec![TokenKind::Float(String::from("5."))]);
    assert_eq!(kinds("1.5e3"), vec![TokenKind::Float(String::from("1.5e3"))]);
    assert_eq!(kinds("1.E3"), vec![TokenKind::Float(String::from("1.E3"))]);
}

#[test]
fn decimal_literals_are_what_the_float_parser_accepts() {
    for text in ["1.5", "5.", "1.5e3", "1.E3", "0.0", "10.25e10", "1..2", "1.5e", "1.5x", "1.e", "1e5.2"] {
        let ours = Lexer::parse(text).is_ok();
        let std = text.parse::<f64>().is_ok();
        assert_eq!(ours, std, "{}", text);
    }
}

#[test]
fn invalid_numbers() {
    assert_eq!(Lexer::parse("12abc").err(), Some(LexerError::InvalidNumber));
    assert_eq!(Lexer::parse("1..2").err(), Some(LexerError::InvalidNumber));
    assert_eq!(Lexer::parse("1.5e").err(), Some(LexerError::InvalidNumber));
    assert_eq!(Lexer::parse("9223372036854775808").err(), Some(LexerError::InvalidNumber));
    assert_eq!(Lexer::parse("x + 1_").ok().map(|s| s.len()), Some(3));
}

#[test]
fn a_leading_point_is_a_period() {
    assert_eq!(kinds(".5"), vec![TokenKind::Period, TokenKind::Int(5)]);
}

#[test]
fn strings_end_at_the_same_quote() {
    assert_eq!(kinds("\"it's\""), vec![TokenKind::String(String::from("it's"))]);
    assert_eq!(kinds("'a b' \"c\""), vec![
        TokenKind::String(String::from("a b")),
        TokenKind::String(String::from("c")),
    ]);
}

#[test]
fn unterminated_string_is_an_error() {
    assert_eq!(Lexer::parse("\"abc").err(), Some(LexerError::UnterminatedString));
    assert_eq!(Lexer::parse("\"abc'").err(), Some(LexerError::UnterminatedString));
    assert_eq!(Lexer::parse_strings("a 'b").err(), Some(LexerError::UnterminatedString));
}

#[test]
fn token_offsets_are_where_tokens_start() {
    let tokens = Lexer::parse("  12 + 3").unwrap().into_iter();
    assert_eq!(
        tokens,
        vec![
            Token { kind: TokenKind::Int(12), pos: 2 },
            Token { kind: TokenKind::Operator(Operator::Plus), pos: 5 },
            Token { kind: TokenKind::Int(3), pos: 7 },
        ]
    );
}

#[test]
fn splitting_on_white_space_and_quotes() {
    let parts: Vec<TokenKind> =
        Lexer::parse_strings("echo  \"a b\" c=d 12").unwrap().into_iter().into_iter().map(|t| t.kind).collect();
    assert_eq!(
        parts,
        vec![word("echo"), TokenKind::String(String::from("a b")), word("c=d"), word("12")]
    );
}

#[test]
fn unicode_letters_and_spaces() {
    assert_eq!(kinds("é\u{a0}ü"), vec![sentence("é\u{a0}ü")]);
    assert_eq!(kinds("\u{3000}true"), vec![TokenKind::Bool(true)]);
}

#[test]
fn is_char_knows_the_single_character_tokens() {
    for c in "(){}.;+-*/=%".chars() {
        assert!(Lexer::is_char(c));
    }
    assert!(!Lexer::is_char('a'));
    assert!(!Lexer::is_char(' '));
    assert!(!Lexer::is_char('"'));
}

#[test]
fn scanning_classified_characters() {
    // A character that the caller declares white space separates words,
    // whatever the character is.
    let glyph = |value: char, space: bool| Glyph { value, space, letter: !space, alphanumeric: !space };
    let text = vec![glyph('a', false), glyph('_', true), glyph('b', false)];
    let parts: Vec<TokenKind> = Lexer::scan(&text, true).unwrap().into_iter().into_iter().map(|t| t.kind).collect();
    assert_eq!(parts, vec![word("a"), word("b")]);
    let whole: Vec<TokenKind> = Lexer::scan(&text, false).unwrap().into_iter().into_iter().map(|t| t.kind).collect();
    assert_eq!(whole, vec![sentence("a_b")]);
}
