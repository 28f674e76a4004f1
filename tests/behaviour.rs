use postcss::tokenizer::{tokenizer, LexError, Location, Token, Tokenizer};

fn loc(r: usize, c: usize) -> Location {
    Location(r, c)
}

fn raw_text(tokens: &[Token]) -> String {
    let mut out = String::new();
    for t in tokens {
        match t {
            Token::Word(x, _, _)
            | Token::AtWord(x, _, _)
            | Token::String(x, _, _)
            | Token::Comment(x, _, _)
            | Token::Control(x, _)
            | Token::Brackets(x, _, _)
            | Token::Space(x) => out.push_str(x),
            Token::LeftParen(_) => out.push('('),
            Token::RightParen(_) => out.push(')'),
        }
    }
    out
}

#[test]
fn raw_texts_join_back_into_the_input() {
    let inputs = [
        "",
        "a {\n  color: red;\n}\r\n",
        "url(\")\") @media screen { a:b }",
        "(a(\")\"))/* c\n */'x\\'y'",
        "\\\\\\{ \\  !important \u{a0}x",
        "calc((1px + 2px) * \\) )",
    ];
    for input in inputs {
        let tokens = tokenizer(input).unwrap();
        assert_eq!(raw_text(&tokens), input);
    }
}

#[test]
fn repeated_runs_agree() {
    let input = "a { b: \"c\" } /* d */ @e (f) (\"g\")";
    let first = tokenizer(input);
    let second = tokenizer(input);
    assert!(first.is_ok());
    assert_eq!(first, second);
    assert_eq!(Tokenizer::new(input).get_tokens(), first);
}

#[test]
fn string_forces_tokenized_interior() {
    assert_eq!(tokenizer("(\")\")"), Ok(vec![
        Token::LeftParen(loc(1, 1)),
        Token::String("\")\"".to_string(), loc(1, 2), loc(1, 4)),
        Token::RightParen(loc(1, 5)),
    ]));
}

#[test]
fn nested_tokenized_groups_close_in_order() {
    assert_eq!(tokenizer("(a(\")\"))"), Ok(vec![
        Token::LeftParen(loc(1, 1)),
        Token::Word("a".to_string(), loc(1, 2), loc(1, 2)),
        Token::LeftParen(loc(1, 3)),
        Token::String("\")\"".to_string(), loc(1, 4), loc(1, 6)),
        Token::RightParen(loc(1, 7)),
        Token::RightParen(loc(1, 8)),
    ]));
}

#[test]
fn flat_group_keeps_nested_and_escaped_parens() {
    assert_eq!(tokenizer("(a(b)\\)c)d"), Ok(vec![
        Token::Brackets("(a(b)\\)c)".to_string(), loc(1, 1), loc(1, 9)),
        Token::Word("d".to_string(), loc(1, 10), loc(1, 10)),
    ]));
}

#[test]
fn flat_group_spans_lines() {
    assert_eq!(tokenizer("(\n)x"), Ok(vec![
        Token::Brackets("(\n)".to_string(), loc(1, 1), loc(2, 1)),
        Token::Word("x".to_string(), loc(2, 2), loc(2, 2)),
    ]));
}

#[test]
fn comment_opener_forces_tokenized_interior() {
    assert_eq!(tokenizer("(/**/)"), Ok(vec![
        Token::LeftParen(loc(1, 1)),
        Token::Comment("/**/".to_string(), loc(1, 2), loc(1, 5)),
        Token::RightParen(loc(1, 6)),
    ]));
}

#[test]
fn unclosed_comment_inside_url() {
    assert_eq!(
        tokenizer("url(/*\\))"),
        Err(LexError::UnterminatedComment(loc(1, 5)))
    );
}

#[test]
fn unclosed_tokenized_group_reports_innermost_paren() {
    assert_eq!(
        tokenizer("(a(\"b\""),
        Err(LexError::UnterminatedBracket(loc(1, 3)))
    );
}

#[test]
fn top_level_close_paren_is_control() {
    assert_eq!(tokenizer(")"), Ok(vec![Token::Control(")".to_string(), loc(1, 1))]));
}

#[test]
fn comment_keeps_its_text_and_lines() {
    assert_eq!(tokenizer("/* a\nb */"), Ok(vec![
        Token::Comment("/* a\nb */".to_string(), loc(1, 1), loc(2, 4)),
    ]));
}

#[test]
fn slash_star_slash_does_not_close_a_comment() {
    assert_eq!(tokenizer("/*/"), Err(LexError::UnterminatedComment(loc(1, 1))));
}

#[test]
fn single_quoted_string_holds_double_quote() {
    assert_eq!(tokenizer("'\"'"), Ok(vec![
        Token::String("'\"'".to_string(), loc(1, 1), loc(1, 3)),
    ]));
}

#[test]
fn escaped_quote_does_not_close_a_string() {
    assert_eq!(tokenizer("'a\\'b'"), Ok(vec![
        Token::String("'a\\'b'".to_string(), loc(1, 1), loc(1, 6)),
    ]));
    assert_eq!(tokenizer("'a\\'"), Err(LexError::UnterminatedString(loc(1, 1))));
}

#[test]
fn odd_escape_takes_next_character() {
    assert_eq!(tokenizer("\\(\\\\\\{"), Ok(vec![
        Token::Word("\\(".to_string(), loc(1, 1), loc(1, 2)),
        Token::Word("\\\\\\{".to_string(), loc(1, 3), loc(1, 6)),
    ]));
}

#[test]
fn escape_leaves_space_and_slash() {
    assert_eq!(tokenizer("\\ \\/*x*/"), Ok(vec![
        Token::Word("\\".to_string(), loc(1, 1), loc(1, 1)),
        Token::Space(" ".to_string()),
        Token::Word("\\".to_string(), loc(1, 3), loc(1, 3)),
        Token::Comment("/*x*/".to_string(), loc(1, 4), loc(1, 8)),
    ]));
    assert_eq!(tokenizer("\\"), Ok(vec![Token::Word("\\".to_string(), loc(1, 1), loc(1, 1))]));
}

#[test]
fn lone_bang_and_trailing_bang() {
    assert_eq!(tokenizer("a!"), Ok(vec![
        Token::Word("a".to_string(), loc(1, 1), loc(1, 1)),
        Token::Word("!".to_string(), loc(1, 2), loc(1, 2)),
    ]));
    assert_eq!(tokenizer("!important"), Ok(vec![
        Token::Word("!important".to_string(), loc(1, 1), loc(1, 10)),
    ]));
}

#[test]
fn unicode_letters_and_underscore_make_words() {
    assert_eq!(tokenizer("héllo_1 x"), Ok(vec![
        Token::Word("héllo_1".to_string(), loc(1, 1), loc(1, 7)),
        Token::Space(" ".to_string()),
        Token::Word("x".to_string(), loc(1, 9), loc(1, 9)),
    ]));
}

#[test]
fn unicode_space_is_space() {
    assert_eq!(tokenizer("\u{a0}\u{3000}"), Ok(vec![
        Token::Space("\u{a0}\u{3000}".to_string()),
    ]));
}

#[test]
fn unexpected_character_is_fatal() {
    assert_eq!(tokenizer("a.b"), Err(LexError::UnexpectedCharacter('.', loc(1, 2))));
    assert_eq!(tokenizer("@,"), Err(LexError::UnexpectedCharacter(',', loc(1, 2))));
    assert_eq!(tokenizer("/x"), Err(LexError::UnexpectedCharacter('/', loc(1, 1))));
}

#[test]
fn at_word_stops_at_terminators() {
    assert_eq!(tokenizer("@a-b,"), Err(LexError::UnexpectedCharacter(',', loc(1, 5))));
    assert_eq!(tokenizer("@a-b:"), Ok(vec![
        Token::AtWord("@a-b".to_string(), loc(1, 1), loc(1, 4)),
        Token::Control(":".to_string(), loc(1, 5)),
    ]));
}

#[test]
fn pulling_tokens_one_at_a_time() {
    let mut t = Tokenizer::new("a {");
    assert_eq!(t.next(), Some(Ok(Token::Word("a".to_string(), loc(1, 1), loc(1, 1)))));
    assert_eq!(t.next(), Some(Ok(Token::Space(" ".to_string()))));
    assert_eq!(t.next(), Some(Ok(Token::Control("{".to_string(), loc(1, 3)))));
    assert_eq!(t.next(), None);
    assert_eq!(t.next(), None);
}

#[test]
fn pulling_stops_after_an_error() {
    let mut t = Tokenizer::new("a \"b");
    assert!(matches!(t.next(), Some(Ok(Token::Word(..)))));
    assert!(matches!(t.next(), Some(Ok(Token::Space(..)))));
    assert_eq!(t.next(), Some(Err(LexError::UnterminatedString(loc(1, 3)))));
    assert_eq!(t.next(), None);
}

#[test]
fn get_tokens_after_pulls_gives_the_rest() {
    let mut t = Tokenizer::new("a b");
    assert!(t.next().is_some());
    assert_eq!(t.get_tokens(), Ok(vec![
        Token::Space(" ".to_string()),
        Token::Word("b".to_string(), loc(1, 3), loc(1, 3)),
    ]));
}

#[test]
fn tokenizes_a_stylesheet() {
    let css = [
        "a {\n",
        "  content: \"a\";\n",
        "  width: calc(1px;)\n",
        "  }\n",
        "/* small screen */\n",
        "@media screen {}",
    ]
    .join("");
    let css = css.as_str();
    assert_eq!(tokenizer(css), Ok(vec![
        Token::Word("a".to_string(), loc(1, 1), loc(1, 1)),
        Token::Space(" ".to_string()),
        Token::Control("{".to_string(), loc(1, 3)),
        Token::Space("\n  ".to_string()),
        Token::Word("content".to_string(), loc(2, 3), loc(2, 9)),
        Token::Control(":".to_string(), loc(2, 10)),
        Token::Space(" ".to_string()),
        Token::String("\"a\"".to_string(), loc(2, 12), loc(2, 14)),
        Token::Control(";".to_string(), loc(2, 15)),
        Token::Space("\n  ".to_string()),
        Token::Word("width".to_string(), loc(3, 3), loc(3, 7)),
        Token::Control(":".to_string(), loc(3, 8)),
        Token::Space(" ".to_string()),
        Token::Word("calc".to_string(), loc(3, 10), loc(3, 13)),
        Token::Brackets("(1px;)".to_string(), loc(3, 14), loc(3, 19)),
        Token::Space("\n  ".to_string()),
        Token::Control("}".to_string(), loc(4, 3)),
        Token::Space("\n".to_string()),
        Token::Comment("/* small screen */".to_string(), loc(5, 1), loc(5, 18)),
        Token::Space("\n".to_string()),
        Token::AtWord("@media".to_string(), loc(6, 1), loc(6, 6)),
        Token::Space(" ".to_string()),
        Token::Word("screen".to_string(), loc(6, 8), loc(6, 13)),
        Token::Space(" ".to_string()),
        Token::Control("{".to_string(), loc(6, 15)),
        Token::Control("}".to_string(), loc(6, 16)),
    ]));
}
