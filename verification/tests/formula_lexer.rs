use xl::cursor::Cursor;
use xl::parser::{Lexer, TokenType};

/// The tokens of a formula, as their kinds and texts.
fn lex(formula: &str) -> (Vec<(TokenType, String)>, bool) {
    let mut lexer = Lexer::new(formula);
    let mut tokens = Vec::new();
    let mut index = 1;
    while let Some(token) = lexer.next_token() {
        assert_eq!(token.index(), index);
        index += 1;
        tokens.push((*token.token_type(), token.value().to_string()));
    }
    assert!(lexer.next_token().is_none());
    assert_eq!(lexer.formula(), formula);
    (tokens, lexer.had_error())
}

fn kinds(formula: &str) -> Vec<TokenType> {
    lex(formula).0.into_iter().map(|(kind, _)| kind).collect()
}

fn texts(formula: &str) -> Vec<String> {
    lex(formula).0.into_iter().map(|(_, text)| text).collect()
}

#[test]
fn a_formula_is_cut_into_its_tokens() {
    let (tokens, had_error) = lex("=SUM(A1, 2.5)");
    let expect = [
        (TokenType::Equal, "="),
        (TokenType::Ident, "SUM"),
        (TokenType::LeftParen, "("),
        (TokenType::Ident, "A1"),
        (TokenType::Comma, ","),
        (TokenType::Ignore, " "),
        (TokenType::Number, "2.5"),
        (TokenType::RightParen, ")"),
    ];
    let expect: Vec<(TokenType, String)> =
        expect.iter().map(|(k, t)| (*k, t.to_string())).collect();
    assert_eq!(tokens, expect);
    assert!(!had_error);
}

#[test]
fn an_empty_formula_has_no_tokens() {
    assert_eq!(lex(""), (vec![], false));
}

#[test]
fn single_characters_are_tokens() {
    assert_eq!(
        kinds("(){},.-+;*/"),
        vec![
            TokenType::LeftParen, TokenType::RightParen, TokenType::LeftBrace, TokenType::RightBrace, TokenType::Comma, TokenType::Dot, TokenType::Minus, TokenType::Plus, TokenType::Semicolon, TokenType::Star,
            TokenType::Divide
        ]
    );
}

#[test]
fn an_equal_sign_joins_the_sign_before_it() {
    assert_eq!(kinds("! != = == < <= > >="), vec![
        TokenType::Bang, TokenType::Ignore, TokenType::BangEqual, TokenType::Ignore, TokenType::Equal, TokenType::Ignore, TokenType::EqualEqual, TokenType::Ignore, TokenType::Less, TokenType::Ignore,
        TokenType::LessEqual, TokenType::Ignore, TokenType::Greater, TokenType::Ignore, TokenType::GreaterEqual
    ]);
    assert_eq!(texts("<=>"), vec!["<=", ">"]);
    assert_eq!(texts("==="), vec!["==", "="]);
}

#[test]
fn blanks_are_one_token() {
    assert_eq!(lex("a   b").0[1], (TokenType::Ignore, String::from("   ")));
    assert_eq!(texts("  "), vec!["  "]);
}

#[test]
fn a_text_in_quotes_loses_its_quotes() {
    assert_eq!(lex("\"hello\""), (vec![(TokenType::Str, String::from("hello"))], false));
    assert_eq!(lex("\"\""), (vec![(TokenType::Str, String::new())], false));
    assert_eq!(lex("'my sheet'"), (vec![(TokenType::Str, String::from("my sheet"))], false));
    assert_eq!(texts("\"a\"\"b\""), vec!["a\"\"b"]);
    assert_eq!(texts("'it''s'"), vec!["it''s"]);
    assert_eq!(texts("\"a'b\"'c\"d'"), vec!["a'b", "c\"d"]);
}

#[test]
fn a_text_without_its_end_is_unknown() {
    assert_eq!(lex("\"open"), (vec![(TokenType::Unknown, String::from("\"open"))], true));
    assert_eq!(lex("'open"), (vec![(TokenType::Unknown, String::from("'open"))], true));
    assert_eq!(lex("\""), (vec![(TokenType::Unknown, String::from("\""))], true));
    assert_eq!(lex("\"a\"\""), (vec![(TokenType::Unknown, String::from("\"a\"\""))], true));
}

#[test]
fn a_range_goes_to_its_bracket() {
    assert_eq!(lex("[Book1.xlsx]"), (vec![(TokenType::Range, String::from("[Book1.xlsx]"))], false));
    assert_eq!(lex("[]x").0[0], (TokenType::Range, String::from("[]")));
    assert_eq!(lex("[open"), (vec![(TokenType::Unknown, String::from("[open"))], true));
}

#[test]
fn an_error_has_a_known_name() {
    for name in ["#NULL!", "#DIV/0", "#VALUE!", "#REF!", "#NAME?", "#NUM!", "#N/A"] {
        assert_eq!(lex(name), (vec![(TokenType::Error, name.to_string())], false), "{name}");
    }
    assert_eq!(lex("#DIV/0!"), (vec![(TokenType::Unknown, String::from("#DIV/0!"))], true));
    assert_eq!(lex("#"), (vec![(TokenType::Unknown, String::from("#"))], true));
    assert_eq!(lex("#n/a"), (vec![(TokenType::Unknown, String::from("#n/a"))], true));
    assert_eq!(texts("#REF!+1"), vec!["#REF!", "+", "1"]);
    assert_eq!(texts("#N/A1"), vec!["#N/A", "1"]);
}

#[test]
fn a_number_has_one_point_at_most() {
    assert_eq!(lex("12.5"), (vec![(TokenType::Number, String::from("12.5"))], false));
    assert_eq!(texts("12.5.3"), vec!["12.5", ".", "3"]);
    assert_eq!(texts("1."), vec!["1."]);
    assert_eq!(texts(".5"), vec![".", "5"]);
    assert_eq!(texts("1e5"), vec!["1", "e5"]);
    assert_eq!(texts("007"), vec!["007"]);
}

#[test]
fn a_name_is_letters_and_numbers() {
    assert_eq!(lex("A1"), (vec![(TokenType::Ident, String::from("A1"))], false));
    assert_eq!(lex("\u{e9}t\u{e9}2"), (vec![(TokenType::Ident, String::from("\u{e9}t\u{e9}2"))], false));
    assert_eq!(texts("SUM(x)"), vec!["SUM", "(", "x", ")"]);
    assert_eq!(texts("a_b"), vec!["a", "_", "b"]);
    assert_eq!(lex("a_b").1, true);
}

#[test]
fn a_character_with_which_no_token_starts_is_unknown() {
    assert_eq!(lex("$"), (vec![(TokenType::Unknown, String::from("$"))], true));
    assert_eq!(kinds("A1&B2"), vec![TokenType::Ident, TokenType::Unknown, TokenType::Ident]);
    assert_eq!(lex("]"), (vec![(TokenType::Unknown, String::from("]"))], true));
}

#[test]
fn lines_are_counted_in_texts_without_harm() {
    assert_eq!(texts("\"a\nb\"+'c\n\nd'"), vec!["a\nb", "+", "c\n\nd"]);
}

#[test]
fn a_cursor_takes_characters_into_the_token_at_hand() {
    let mut cursor = Cursor::new("ab\"c\"");
    assert!(cursor.is_at_end());
    assert!(cursor.has_next());
    assert_eq!(cursor.peek(), 'a');
    assert!(!cursor.try_match('a'));
    assert_eq!(cursor.advance(), Some('a'));
    assert_eq!(cursor.current(), Some('a'));
    assert!(!cursor.try_match('x'));
    assert!(cursor.try_match('b'));
    assert_eq!(cursor.lexeme(), "ab");
    assert_eq!(cursor.token(), (1, String::from("ab")));
    assert_eq!(cursor.lexeme(), "");
    while cursor.advance().is_some() {}
    assert_eq!(cursor.lexeme(), "\"c\"");
    cursor.strip_lexeme('"');
    assert_eq!(cursor.lexeme(), "c");
    cursor.strip_lexeme('c');
    assert_eq!(cursor.lexeme(), "c");
    assert_eq!(cursor.peek(), '\0');
    assert!(!cursor.has_next());
    assert!(cursor.is_at_end());
    assert!(!cursor.had_error());
    cursor.error_msg();
    cursor.count_line();
    assert!(cursor.had_error());
    assert_eq!(cursor.token(), (2, String::from("c")));
}

#[test]
fn stripping_needs_the_character_at_the_end() {
    for (lexeme, c, expect) in [
        ("\"abc\"", '"', "abc"),
        ("abc\"", '"', "abc"),
        ("\"abc", '"', "\"abc"),
        ("\"", '"', "\""),
        ("\"\"", '"', ""),
        ("\"\"\"", '"', "\""),
        ("", '"', ""),
        ("abc", '"', "abc"),
    ] {
        let mut cursor = Cursor::new(lexeme);
        while cursor.advance().is_some() {}
        cursor.strip_lexeme(c);
        assert_eq!(cursor.lexeme(), expect, "{lexeme}");
        let by_std = lexeme.strip_prefix(c).unwrap_or(lexeme).strip_suffix(c).unwrap_or(lexeme);
        assert_eq!(expect, by_std);
    }
}
