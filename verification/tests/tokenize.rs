use tokenizer::{Token, TokenType, TokenizeError, Tokenizer};

fn listed(tokenizer: &Tokenizer) -> Vec<(TokenType, String)> {
    tokenizer
        .tokens()
        .iter()
        .map(|token| (token.tokentype(), token.value().to_string()))
        .collect()
}

fn pair(kind: TokenType, text: &str) -> (TokenType, String) {
    (kind, text.to_string())
}

#[test]
fn it_works() {
    let test_src = "print \"hello world\", 93\n        a+b = c\n        ";
    let mut tokenizer = Tokenizer::new();
    match tokenizer.tokenize(&test_src) {
        Ok(()) => {
            for token in tokenizer.tokens() {
                println!("{}", token.to_text())
            }
        }
        Err(err) => println!("{}", err.message()),
    };
    assert_eq!(
        listed(&tokenizer),
        vec![
            pair(TokenType::Name, "print"),
            pair(TokenType::Text, "\"hello world\""),
            pair(TokenType::Op, ","),
            pair(TokenType::Num, "93"),
            pair(TokenType::Newline, ""),
            pair(TokenType::Name, "a"),
            pair(TokenType::Op, "+"),
            pair(TokenType::Name, "b"),
            pair(TokenType::Op, "="),
            pair(TokenType::Name, "c"),
            pair(TokenType::Eof, ""),
        ]
    );
}

#[test]
fn two_lines_of_a_program() {
    // The line feed that ends the input is whitespace around what follows
    // the first line feed, and goes with it when that one is consumed.
    let mut tokenizer = Tokenizer::new();
    assert_eq!(tokenizer.tokenize("print \"hello world\", 93\na+b = c\n"), Ok(()));
    assert_eq!(
        listed(&tokenizer),
        vec![
            pair(TokenType::Name, "print"),
            pair(TokenType::Text, "\"hello world\""),
            pair(TokenType::Op, ","),
            pair(TokenType::Num, "93"),
            pair(TokenType::Newline, ""),
            pair(TokenType::Name, "a"),
            pair(TokenType::Op, "+"),
            pair(TokenType::Name, "b"),
            pair(TokenType::Op, "="),
            pair(TokenType::Name, "c"),
            pair(TokenType::Eof, ""),
        ]
    );
}

#[test]
fn a_line_feed_between_tokens_is_a_newline_token() {
    let mut tokenizer = Tokenizer::new();
    assert_eq!(tokenizer.tokenize("a\nb\n\n  c"), Ok(()));
    assert_eq!(
        listed(&tokenizer),
        vec![
            pair(TokenType::Name, "a"),
            pair(TokenType::Newline, ""),
            pair(TokenType::Name, "b"),
            pair(TokenType::Newline, ""),
            pair(TokenType::Name, "c"),
            pair(TokenType::Eof, ""),
        ]
    );
}

#[test]
fn empty_input_is_one_eof() {
    let mut tokenizer = Tokenizer::new();
    assert_eq!(tokenizer.tokenize(""), Ok(()));
    assert_eq!(listed(&tokenizer), vec![pair(TokenType::Eof, "")]);
}

#[test]
fn only_spaces_is_one_eof() {
    let mut tokenizer = Tokenizer::new();
    assert_eq!(tokenizer.tokenize("     "), Ok(()));
    assert_eq!(listed(&tokenizer), vec![pair(TokenType::Eof, "")]);
}

#[test]
fn digits_then_letters_are_two_tokens() {
    let mut tokenizer = Tokenizer::new();
    assert_eq!(tokenizer.tokenize("123abc"), Ok(()));
    assert_eq!(
        listed(&tokenizer),
        vec![pair(TokenType::Num, "123"), pair(TokenType::Name, "abc"), pair(TokenType::Eof, "")]
    );
}

#[test]
fn unknown_character_is_no_match() {
    let mut tokenizer = Tokenizer::new();
    assert_eq!(tokenizer.tokenize("#"), Err(TokenizeError::NoMatch("#".to_string())));
    assert_eq!(tokenizer.tokens().len(), 0);
}

#[test]
fn single_letter_is_a_name() {
    let mut tokenizer = Tokenizer::new();
    assert_eq!(tokenizer.tokenize("a"), Ok(()));
    assert_eq!(listed(&tokenizer), vec![pair(TokenType::Name, "a"), pair(TokenType::Eof, "")]);
}

#[test]
fn single_underscore_is_a_name() {
    let mut tokenizer = Tokenizer::new();
    assert_eq!(tokenizer.tokenize("_ _x1"), Ok(()));
    assert_eq!(
        listed(&tokenizer),
        vec![pair(TokenType::Name, "_"), pair(TokenType::Name, "_x1"), pair(TokenType::Eof, "")]
    );
}

#[test]
fn names_ignore_case() {
    let mut tokenizer = Tokenizer::new();
    assert_eq!(tokenizer.tokenize("Print_2 X"), Ok(()));
    assert_eq!(
        listed(&tokenizer),
        vec![pair(TokenType::Name, "Print_2"), pair(TokenType::Name, "X"), pair(TokenType::Eof, "")]
    );
}

#[test]
fn single_digit_is_no_number() {
    let mut tokenizer = Tokenizer::new();
    assert_eq!(tokenizer.tokenize("5"), Err(TokenizeError::NoMatch("5".to_string())));
    assert_eq!(tokenizer.tokens().len(), 0);
}

#[test]
fn numbers_keep_underscores_and_points() {
    let mut tokenizer = Tokenizer::new();
    assert_eq!(tokenizer.tokenize("1_000.50 3..4"), Ok(()));
    assert_eq!(
        listed(&tokenizer),
        vec![pair(TokenType::Num, "1_000.50"), pair(TokenType::Num, "3..4"), pair(TokenType::Eof, "")]
    );
}

#[test]
fn every_operator_is_one_character() {
    let mut tokenizer = Tokenizer::new();
    assert_eq!(tokenizer.tokenize("+ | - * = . , ; : ! ? \u{2190} \u{2192} =="), Ok(()));
    assert_eq!(
        listed(&tokenizer),
        vec![
            pair(TokenType::Op, "+"),
            pair(TokenType::Op, "|"),
            pair(TokenType::Op, "-"),
            pair(TokenType::Op, "*"),
            pair(TokenType::Op, "="),
            pair(TokenType::Op, "."),
            pair(TokenType::Op, ","),
            pair(TokenType::Op, ";"),
            pair(TokenType::Op, ":"),
            pair(TokenType::Op, "!"),
            pair(TokenType::Op, "?"),
            pair(TokenType::Op, "\u{2190}"),
            pair(TokenType::Op, "\u{2192}"),
            pair(TokenType::Op, "="),
            pair(TokenType::Op, "="),
            pair(TokenType::Eof, ""),
        ]
    );
}

#[test]
fn quoted_text_ends_at_the_next_quote() {
    let mut tokenizer = Tokenizer::new();
    assert_eq!(tokenizer.tokenize("\"a b\" \"\" \"c\"d"), Ok(()));
    assert_eq!(
        listed(&tokenizer),
        vec![
            pair(TokenType::Text, "\"a b\""),
            pair(TokenType::Text, "\"\""),
            pair(TokenType::Text, "\"c\""),
            pair(TokenType::Name, "d"),
            pair(TokenType::Eof, ""),
        ]
    );
}

#[test]
fn unclosed_quote_is_no_match() {
    let mut tokenizer = Tokenizer::new();
    assert_eq!(
        tokenizer.tokenize("say \"hello"),
        Err(TokenizeError::NoMatch("\"hello".to_string()))
    );
    assert_eq!(listed(&tokenizer), vec![pair(TokenType::Name, "say")]);
}

#[test]
fn quoted_text_does_not_span_lines() {
    let mut tokenizer = Tokenizer::new();
    assert_eq!(
        tokenizer.tokenize("\"one\ntwo\""),
        Err(TokenizeError::NoMatch("\"one".to_string()))
    );
    assert_eq!(tokenizer.tokens().len(), 0);
}

#[test]
fn failure_keeps_the_tokens_before_it() {
    let mut tokenizer = Tokenizer::new();
    assert_eq!(tokenizer.tokenize("abc + #rest"), Err(TokenizeError::NoMatch("#rest".to_string())));
    assert_eq!(listed(&tokenizer), vec![pair(TokenType::Name, "abc"), pair(TokenType::Op, "+")]);
}

#[test]
fn error_context_is_the_first_line() {
    let mut tokenizer = Tokenizer::new();
    let err = tokenizer.tokenize("ab $x y\nnext line").unwrap_err();
    assert_eq!(err, TokenizeError::NoMatch("$x y".to_string()));
    assert_eq!(err.context(), "$x y");
    assert_eq!(err.message(), "no match in $x y");

    let mut tokenizer = Tokenizer::new();
    let err = tokenizer.tokenize("$x\r\nnext").unwrap_err();
    assert_eq!(err.context(), "$x");

    let mut tokenizer = Tokenizer::new();
    let err = tokenizer.tokenize("$x\ry").unwrap_err();
    assert_eq!(err.context(), "$x\ry");
}

#[test]
fn tabs_are_not_skipped_between_tokens() {
    let mut tokenizer = Tokenizer::new();
    assert_eq!(tokenizer.tokenize("a\tb"), Err(TokenizeError::NoMatch("\tb".to_string())));
    assert_eq!(listed(&tokenizer), vec![pair(TokenType::Name, "a")]);
}

#[test]
fn tokens_accumulate_over_calls() {
    let mut tokenizer = Tokenizer::new();
    assert_eq!(tokenizer.tokenize("a"), Ok(()));
    assert_eq!(tokenizer.tokenize("b #"), Err(TokenizeError::NoMatch("#".to_string())));
    assert_eq!(tokenizer.tokenize("12"), Ok(()));
    assert_eq!(
        listed(&tokenizer),
        vec![
            pair(TokenType::Name, "a"),
            pair(TokenType::Eof, ""),
            pair(TokenType::Name, "b"),
            pair(TokenType::Num, "12"),
            pair(TokenType::Eof, ""),
        ]
    );
}

#[test]
fn same_source_gives_same_tokens() {
    let source = "x = \"a b\", 10.5\n y ! #";
    let mut first = Tokenizer::new();
    let mut second = Tokenizer::new();
    let result_first = first.tokenize(source);
    let result_second = second.tokenize(source);
    assert_eq!(result_first, result_second);
    assert_eq!(result_first, Err(TokenizeError::NoMatch("#".to_string())));
    assert_eq!(first.tokens(), second.tokens());
    assert_eq!(first.tokens().len(), 8);
}

#[test]
fn success_ends_with_the_only_eof() {
    let mut tokenizer = Tokenizer::new();
    assert_eq!(tokenizer.tokenize("a b\nc 12 \"q\""), Ok(()));
    let tokens = tokenizer.tokens();
    assert_eq!(tokens.last().map(|token| token.tokentype()), Some(TokenType::Eof));
    let eofs = tokens.iter().filter(|token| token.tokentype() == TokenType::Eof).count();
    assert_eq!(eofs, 1);
}

#[test]
fn token_texts_are_the_source_without_whitespace() {
    let source = "  let  total = price*12 , \"two words\"\n\n   next_1  ";
    let mut tokenizer = Tokenizer::new();
    assert_eq!(tokenizer.tokenize(source), Ok(()));
    let joined: String = tokenizer.tokens().iter().map(|token| token.value()).collect();
    let squeezed = |text: &str| text.chars().filter(|c| !c.is_whitespace()).collect::<String>();
    assert_eq!(squeezed(&joined), squeezed(source));
    assert_eq!(squeezed(&joined), "lettotal=price*12,\"twowords\"next_1");
}

#[test]
fn push_token_appends() {
    let mut tokenizer = Tokenizer::new();
    assert_eq!(tokenizer.tokens().len(), 0);
    tokenizer.push_token(Token::new(&TokenType::Num, "42"));
    tokenizer.push_token(Token::new(&TokenType::Op, "+"));
    assert_eq!(listed(&tokenizer), vec![pair(TokenType::Num, "42"), pair(TokenType::Op, "+")]);
}

#[test]
fn type_stack_is_the_priority_order() {
    assert_eq!(
        Tokenizer::get_type_stack(),
        vec![
            TokenType::Name,
            TokenType::Op,
            TokenType::Num,
            TokenType::Text,
            TokenType::Newline,
            TokenType::Eof,
        ]
    );
}
