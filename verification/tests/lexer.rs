use hana::error::Error;
use hana::tokens::{
    char_classes, classify, is_keyword, CharClasses, Finding, Token, TokenType, Tokenizer,
};

fn lex(source: &str) -> Vec<Token> {
    Tokenizer::new(source.to_string()).tokenize().expect("the source has a tokenization")
}

fn kinds(tokens: &[Token]) -> Vec<TokenType> {
    tokens.iter().map(|t| t.typ).collect()
}

fn lexemes(tokens: &[Token]) -> Vec<String> {
    tokens.iter().map(|t| t.content.clone()).collect()
}

fn refused(source: &str) -> (usize, String, String) {
    match Tokenizer::new(source.to_string()).tokenize() {
        Err(Error::TokenizationError(at, text, message)) => (at, text, message),
        other => panic!("expected a tokenization error, got {:?}", other),
    }
}

#[test]
fn punctuators_are_single_tokens() {
    let tokens = lex("+-*/(){},;<>=!:.[]");
    assert_eq!(
        kinds(&tokens),
        vec![
            TokenType::Plus,
            TokenType::Minus,
            TokenType::Asterisk,
            TokenType::Slash,
            TokenType::LeftParen,
            TokenType::RightParen,
            TokenType::LeftBrace,
            TokenType::RightBrace,
            TokenType::Comma,
            TokenType::Semicolon,
            TokenType::LessThan,
            TokenType::GreaterThan,
            TokenType::Equal,
            TokenType::Bang,
            TokenType::Colon,
            TokenType::Dot,
            TokenType::LeftBracket,
            TokenType::RightBracket,
        ]
    );
    for (i, token) in tokens.iter().enumerate() {
        assert_eq!(token.start, i);
        assert_eq!(token.end, i);
        assert_eq!(token.content, "+-*/(){},;<>=!:.[]"[i..=i]);
    }
}

#[test]
fn keywords_and_identifiers() {
    let tokens = lex("if else while for return func const struct use user _x9");
    let expected = [
        TokenType::Keyword,
        TokenType::Keyword,
        TokenType::Keyword,
        TokenType::Keyword,
        TokenType::Keyword,
        TokenType::Keyword,
        TokenType::Keyword,
        TokenType::Keyword,
        TokenType::Keyword,
        TokenType::Identifier,
        TokenType::Identifier,
    ];
    assert_eq!(kinds(&tokens), expected.to_vec());
    assert_eq!(tokens[9].content, "user");
    assert_eq!(tokens[10].content, "_x9");
}

#[test]
fn the_nine_keywords() {
    for word in ["if", "else", "while", "for", "return", "func", "const", "struct", "use"] {
        assert!(is_keyword(word));
    }
    for word in ["", "If", "uses", "function", "void", "int"] {
        assert!(!is_keyword(word));
    }
}

#[test]
fn whitespace_is_skipped() {
    let tokens = lex(" \t\r\n a \n\n  b\t");
    assert_eq!(lexemes(&tokens), vec!["a", "b"]);
    assert_eq!((tokens[0].start, tokens[0].end), (5, 5));
    assert_eq!((tokens[1].start, tokens[1].end), (11, 11));
}

#[test]
fn empty_source_has_no_tokens() {
    assert!(lex("").is_empty());
    assert!(lex("   \n\t ").is_empty());
}

#[test]
fn line_comments_run_to_the_end_of_the_line() {
    let tokens = lex("a // b c\nd // e");
    assert_eq!(lexemes(&tokens), vec!["a", "d"]);
    assert_eq!(tokens[1].start, 9);
}

#[test]
fn block_comments_do_not_nest() {
    let tokens = lex("a /* b /* c */ d */ e");
    assert_eq!(lexemes(&tokens), vec!["a", "d", "*", "/", "e"]);
}

#[test]
fn block_comment_needs_its_own_star() {
    let tokens = lex("/*/ a */ b");
    assert_eq!(lexemes(&tokens), vec!["b"]);
}

#[test]
fn unterminated_block_comment_runs_to_the_end() {
    let tokens = lex("a /* b c");
    assert_eq!(lexemes(&tokens), vec!["a"]);
}

#[test]
fn a_lone_slash_is_a_token() {
    let tokens = lex("a / b /");
    assert_eq!(
        kinds(&tokens),
        vec![TokenType::Identifier, TokenType::Slash, TokenType::Identifier, TokenType::Slash]
    );
}

#[test]
fn numbers_take_digits_and_dots() {
    let tokens = lex("0 12 1.5 1.2.3 7.");
    assert_eq!(lexemes(&tokens), vec!["0", "12", "1.5", "1.2.3", "7."]);
    assert!(tokens.iter().all(|t| t.typ == TokenType::Number));
    assert_eq!((tokens[3].start, tokens[3].end), (9, 13));
}

#[test]
fn a_number_ends_before_a_letter() {
    let tokens = lex("2x");
    assert_eq!(kinds(&tokens), vec![TokenType::Number, TokenType::Identifier]);
    assert_eq!(lexemes(&tokens), vec!["2", "x"]);
}

#[test]
fn identifiers_may_hold_digits() {
    let tokens = lex("vec3 mat4x4 _");
    assert_eq!(lexemes(&tokens), vec!["vec3", "mat4x4", "_"]);
    assert!(tokens.iter().all(|t| t.typ == TokenType::Identifier));
}

#[test]
fn builtins_lose_their_sign_but_keep_their_range() {
    let tokens = lex("  @stage(vertex)");
    assert_eq!(tokens[0].typ, TokenType::Builtin);
    assert_eq!(tokens[0].content, "stage");
    assert_eq!((tokens[0].start, tokens[0].end), (2, 7));
    assert_eq!(&"  @stage(vertex)"[tokens[0].start..=tokens[0].end], "@stage");
}

#[test]
fn a_lone_at_sign_is_an_empty_builtin() {
    let tokens = lex("@ x");
    assert_eq!(kinds(&tokens), vec![TokenType::Builtin, TokenType::Identifier]);
    assert_eq!(tokens[0].content, "");
    assert_eq!((tokens[0].start, tokens[0].end), (0, 0));
}

#[test]
fn string_literals_span_their_quotes() {
    let source = "x \"a b\" y";
    let tokens = lex(source);
    assert_eq!(kinds(&tokens), vec![TokenType::Identifier, TokenType::String, TokenType::Identifier]);
    assert_eq!(tokens[1].content, "a b");
    assert_eq!((tokens[1].start, tokens[1].end), (2, 6));
    assert_eq!(&source[tokens[1].start..=tokens[1].end], "\"a b\"");
}

#[test]
fn string_literals_are_not_escaped() {
    let tokens = lex("\"a\\\" b");
    assert_eq!(kinds(&tokens), vec![TokenType::String, TokenType::Identifier]);
    assert_eq!(tokens[0].content, "a\\");
}

#[test]
fn an_unterminated_string_runs_to_the_end() {
    let tokens = lex("\"abc");
    assert_eq!(tokens.len(), 1);
    assert_eq!(tokens[0].content, "abc");
    assert_eq!((tokens[0].start, tokens[0].end), (0, 3));
    let tokens = lex("\"");
    assert_eq!(tokens[0].content, "");
    assert_eq!((tokens[0].start, tokens[0].end), (0, 0));
}

#[test]
fn an_empty_string_literal() {
    let tokens = lex("\"\"");
    assert_eq!(tokens.len(), 1);
    assert_eq!(tokens[0].content, "");
    assert_eq!((tokens[0].start, tokens[0].end), (0, 1));
}

#[test]
fn double_ampersand_and_double_bar() {
    let tokens = lex("a && b || c");
    assert_eq!(
        kinds(&tokens),
        vec![
            TokenType::Identifier,
            TokenType::And,
            TokenType::Identifier,
            TokenType::Or,
            TokenType::Identifier,
        ]
    );
    assert_eq!(tokens[1].content, "&&");
    assert_eq!((tokens[1].start, tokens[1].end), (2, 3));
    assert_eq!(tokens[3].content, "||");
    assert_eq!((tokens[3].start, tokens[3].end), (7, 8));
}

#[test]
fn a_lone_ampersand_is_refused() {
    let (at, source, message) = refused("a & b");
    assert_eq!(at, 2);
    assert_eq!(source, "a & b");
    assert_eq!(message, "Unexpected character '&'");
}

#[test]
fn a_lone_bar_is_refused() {
    let (at, _, message) = refused("a |b");
    assert_eq!(at, 2);
    assert_eq!(message, "Unexpected character '|'");
}

#[test]
fn an_ampersand_at_the_end_is_refused() {
    let (at, _, message) = refused("a &");
    assert_eq!(at, 2);
    assert_eq!(message, "Unexpected character");
    let (at, _, message) = refused("|");
    assert_eq!(at, 0);
    assert_eq!(message, "Unexpected character");
}

#[test]
fn unexpected_character_is_refused() {
    let (at, source, message) = refused("a # b");
    assert_eq!(at, 2);
    assert_eq!(source, "a # b");
    assert_eq!(message, "Unexpected character");
    let (at, _, _) = refused("x = 5 % 2;");
    assert_eq!(at, 6);
}

#[test]
fn the_first_failure_is_reported() {
    let (at, _, _) = refused("ok ~ then # more");
    assert_eq!(at, 3);
}

#[test]
fn lexemes_of_a_declaration() {
    let tokens = lex("vec3 position;");
    assert_eq!(lexemes(&tokens), vec!["vec3", "position", ";"]);
}

#[test]
fn offsets_give_back_the_lexeme() {
    let source = "@stage(vertex, in) struct VIn { vec3 position; float w = 1.5; } // end\nuse hana::rt;";
    let tokens = lex(source);
    assert_eq!(tokens.len(), 24);
    for token in tokens.iter() {
        assert!(token.start <= token.end);
        assert!(token.end < source.len());
        let covered = &source[token.start..=token.end];
        match token.typ {
            TokenType::Builtin => assert_eq!(covered, format!("@{}", token.content)),
            TokenType::String => assert_eq!(covered, format!("\"{}\"", token.content)),
            _ => assert_eq!(covered, token.content),
        }
    }
    for pair in tokens.windows(2) {
        assert!(pair[0].end < pair[1].start);
    }
}

#[test]
fn the_cursor_stops_at_the_end() {
    let mut tokenizer = Tokenizer::new("ab".to_string());
    assert_eq!(tokenizer.advance(), Some('a'));
    assert_eq!(tokenizer.advance(), Some('b'));
    assert_eq!(tokenizer.advance(), None);
    assert_eq!(tokenizer.advance(), None);
}

#[test]
fn advance_until_collects_up_to_the_target() {
    let mut tokenizer = Tokenizer::new("abc;def".to_string());
    assert_eq!(tokenizer.advance_until(';'), "abc");
    assert_eq!(tokenizer.advance(), Some('d'));
    assert_eq!(tokenizer.advance_until(';'), "ef");
    assert_eq!(tokenizer.advance(), None);
    assert_eq!(tokenizer.advance_until(';'), "");
}

#[test]
fn tokenizing_resumes_at_the_cursor() {
    let mut tokenizer = Tokenizer::new("skip these words".to_string());
    assert_eq!(tokenizer.advance_until(' '), "skip");
    let tokens = tokenizer.tokenize().unwrap();
    assert_eq!(lexemes(&tokens), vec!["these", "words"]);
    assert_eq!(tokens[0].start, 5);
    assert!(tokenizer.tokenize().unwrap().is_empty());
}

#[test]
fn cloned_tokens_are_equal_in_every_field() {
    let tokens = lex("name");
    let copy = tokens[0].clone();
    assert_eq!(copy.typ, tokens[0].typ);
    assert_eq!(copy.content, tokens[0].content);
    assert_eq!(copy.start, tokens[0].start);
    assert_eq!(copy.end, tokens[0].end);
}

#[test]
fn lexemes_beyond_ascii_are_the_source_text() {
    let source = "é1 = \"ü→\"; // ß\nλ";
    let tokens = lex(source);
    assert_eq!(lexemes(&tokens), vec!["é1", "=", "ü→", ";", "λ"]);
    assert_eq!(
        kinds(&tokens),
        vec![
            TokenType::Identifier,
            TokenType::Equal,
            TokenType::String,
            TokenType::Semicolon,
            TokenType::Identifier,
        ]
    );
    assert_eq!((tokens[0].start, tokens[0].end), (0, 2));
    assert_eq!((tokens[1].start, tokens[1].end), (4, 4));
    assert_eq!((tokens[2].start, tokens[2].end), (6, 12));
    assert_eq!((tokens[3].start, tokens[3].end), (13, 13));
    assert_eq!((tokens[4].start, tokens[4].end), (21, 22));
    for token in tokens.iter() {
        let covered = &source[token.start..=token.end];
        match token.typ {
            TokenType::String => assert_eq!(covered, format!("\"{}\"", token.content)),
            _ => assert_eq!(covered, token.content),
        }
    }
}

#[test]
fn a_character_that_starts_nothing_is_refused_at_its_first_byte() {
    let (at, source, message) = refused("é = €;");
    assert_eq!(at, 5);
    assert_eq!(source, "é = €;");
    assert_eq!(message, "Unexpected character");
    let (at, _, message) = refused("λ &x");
    assert_eq!(at, 3);
    assert_eq!(message, "Unexpected character '&'");
}

#[test]
fn whitespace_beyond_ascii_is_skipped() {
    let tokens = lex("a\u{a0}b\u{2003}c\u{3000}");
    assert_eq!(lexemes(&tokens), vec!["a", "b", "c"]);
    assert_eq!(tokens[1].start, 3);
    assert_eq!(tokens[2].start, 7);
}

#[test]
fn digits_beyond_ascii_are_numeric() {
    let tokens = lex("٣.5 x٣");
    assert_eq!(kinds(&tokens), vec![TokenType::Number, TokenType::Identifier]);
    assert_eq!(lexemes(&tokens), vec!["٣.5", "x٣"]);
    assert_eq!((tokens[0].start, tokens[0].end), (0, 3));
}

#[test]
fn the_cursor_walks_the_characters() {
    let mut tokenizer = Tokenizer::new("aé→".to_string());
    assert_eq!(tokenizer.advance(), Some('a'));
    assert_eq!(tokenizer.advance(), Some('é'));
    assert_eq!(tokenizer.advance(), Some('→'));
    assert_eq!(tokenizer.advance(), None);
    let mut tokenizer = Tokenizer::new("é;ü".to_string());
    assert_eq!(tokenizer.advance_until(';'), "é");
    assert_eq!(tokenizer.advance_until(';'), "ü");
}

#[test]
fn what_the_lexer_finds_goes_by_the_classes_it_is_given() {
    let plain = CharClasses { whitespace: false, numeric: false, alphanumeric: false };
    let digit = CharClasses { whitespace: false, numeric: true, alphanumeric: true };
    let letter = CharClasses { whitespace: false, numeric: false, alphanumeric: true };
    let blank = CharClasses { whitespace: true, numeric: false, alphanumeric: false };
    assert_eq!(classify(' ', None, blank), Finding::Blank);
    assert_eq!(classify('/', Some('/'), plain), Finding::LineComment);
    assert_eq!(classify('/', Some('*'), plain), Finding::BlockComment);
    assert_eq!(classify('/', Some('x'), plain), Finding::Punctuator(TokenType::Slash));
    assert_eq!(classify('/', None, plain), Finding::Punctuator(TokenType::Slash));
    assert_eq!(classify('"', None, plain), Finding::Quote);
    assert_eq!(classify('&', Some('&'), plain), Finding::Pair(TokenType::And));
    assert_eq!(classify('|', Some('|'), plain), Finding::Pair(TokenType::Or));
    assert_eq!(classify('&', Some('|'), plain), Finding::Stray);
    assert_eq!(classify('|', Some(' '), plain), Finding::Stray);
    assert_eq!(classify('&', None, plain), Finding::Unknown);
    assert_eq!(classify('7', None, digit), Finding::Number);
    assert_eq!(classify('x', None, letter), Finding::Word);
    assert_eq!(classify('_', None, plain), Finding::Word);
    assert_eq!(classify('@', Some('a'), plain), Finding::Builtin);
    assert_eq!(classify('#', None, plain), Finding::Unknown);
    assert_eq!(classify('+', None, blank), Finding::Blank);
    assert_eq!(classify('+', None, digit), Finding::Punctuator(TokenType::Plus));
    let of_space = char_classes(' ');
    assert!(of_space.whitespace && !of_space.numeric && !of_space.alphanumeric);
    let of_seven = char_classes('7');
    assert!(!of_seven.whitespace && of_seven.numeric && of_seven.alphanumeric);
    let of_x = char_classes('x');
    assert!(!of_x.whitespace && !of_x.numeric && of_x.alphanumeric);
    let of_plus = char_classes('+');
    assert!(!of_plus.whitespace && !of_plus.numeric && !of_plus.alphanumeric);
}
