use modelica_lexer::{scan, LexicalError, Scanner, Span, Token};

fn results(source: &str) -> Vec<Result<Token, LexicalError>> {
    scan(source).into_iter().map(|(r, _)| r).collect()
}

fn tokens(source: &str) -> Vec<Token> {
    results(source).into_iter().map(|r| r.expect("a token")).collect()
}

fn ident(text: &str) -> Token {
    Token::Identifier(text.to_string())
}

fn real_text(t: &Token) -> String {
    match t {
        Token::UnsignedReal(x) => x.clone(),
        other => panic!("not a real: {:?}", other),
    }
}

fn is_skipped_text(gap: &str) -> bool {
    let mut rest = gap;
    while !rest.is_empty() {
        if rest.starts_with([' ', '\t', '\n', '\x0C']) {
            rest = &rest[1..];
        } else if rest.starts_with("//") {
            rest = match rest.find('\n') {
                Some(k) => &rest[k + 1..],
                None => "",
            };
        } else if rest.starts_with("/*") {
            match rest[2..].find("*/") {
                Some(k) => rest = &rest[k + 4..],
                None => return false,
            }
        } else {
            return false;
        }
    }
    true
}

#[test]
fn spans_and_skipped_regions_cover_the_input() {
    let source = "  model M // note\n  Real x := 1.5e3; /* block * comment */ x = 'a';\n$ end M";
    let chars: Vec<char> = source.chars().collect();
    let items = scan(source);
    let mut covered = 0usize;
    let mut last = 0usize;
    for (_, span) in &items {
        assert!(span.start >= last);
        assert!(span.start < span.end);
        let gap: String = chars[last..span.start].iter().collect();
        assert!(is_skipped_text(&gap), "gap {:?}", gap);
        covered += span.start - last;
        covered += span.end - span.start;
        last = span.end;
    }
    let tail: String = chars[last..].iter().collect();
    assert!(is_skipped_text(&tail));
    covered += chars.len() - last;
    assert_eq!(covered, chars.len());
}

#[test]
fn spans_of_a_short_input() {
    let spans: Vec<Span> = scan("a  := 12 ").into_iter().map(|(_, s)| s).collect();
    assert_eq!(
        spans,
        vec![Span { start: 0, end: 1 }, Span { start: 3, end: 5 }, Span { start: 6, end: 8 }]
    );
}

#[test]
fn empty_and_blank_inputs_give_nothing() {
    assert!(scan("").is_empty());
    assert!(scan(" \t\n\x0C ").is_empty());
    assert!(scan("// only a comment").is_empty());
    assert!(scan("/* only */ /* comments */").is_empty());
}

#[test]
fn every_keyword_scans_as_its_keyword() {
    let keywords = vec![
        ("algorithm", Token::KeywordAlgorithm),
        ("and", Token::KeywordAnd),
        ("annotation", Token::KeywordAnnotation),
        ("block", Token::KeywordBlock),
        ("break", Token::KeywordBreak),
        ("class", Token::KeywordClass),
        ("connect", Token::KeywordConnect),
        ("connector", Token::KeywordConnector),
        ("constant", Token::KeywordConstant),
        ("constrainedby", Token::KeywordConstrainedby),
        ("der", Token::KeywordDer),
        ("discrete", Token::KeywordDiscrete),
        ("each", Token::KeywordEach),
        ("else", Token::KeywordElse),
        ("elseif", Token::KeywordElseif),
        ("elsewhen", Token::KeywordElsewhen),
        ("encapsulated", Token::KeywordEncapsulated),
        ("end", Token::KeywordEnd),
        ("enumeration", Token::KeywordEnumeration),
        ("equation", Token::KeywordEquation),
        ("expandable", Token::KeywordExpandable),
        ("extends", Token::KeywordExtends),
        ("external", Token::KeywordExternal),
        ("final", Token::KeywordFinal),
        ("flow", Token::KeywordFlow),
        ("for", Token::KeywordFor),
        ("function", Token::KeywordFunction),
        ("if", Token::KeywordIf),
        ("import", Token::KeywordImport),
        ("impure", Token::KeywordImpure),
        ("in", Token::KeywordIn),
        ("initial", Token::KeywordInitial),
        ("inner", Token::KeywordInner),
        ("input", Token::KeywordInput),
        ("loop", Token::KeywordLoop),
        ("model", Token::KeywordModel),
        ("not", Token::KeywordNot),
        ("operator", Token::KeywordOperator),
        ("or", Token::KeywordOr),
        ("outer", Token::KeywordOuter),
        ("output", Token::KeywordOutput),
        ("package", Token::KeywordPackage),
        ("parameter", Token::KeywordParameter),
        ("partial", Token::KeywordPartial),
        ("protected", Token::KeywordProtected),
        ("public", Token::KeywordPublic),
        ("pure", Token::KeywordPure),
        ("record", Token::KeywordRecord),
        ("redeclare", Token::KeywordRedeclare),
        ("replaceable", Token::KeywordReplaceable),
        ("return", Token::KeywordReturn),
        ("stream", Token::KeywordStream),
        ("then", Token::KeywordThen),
        ("type", Token::KeywordType),
        ("when", Token::KeywordWhen),
        ("while", Token::KeywordWhile),
        ("within", Token::KeywordWithin),
    ];
    assert_eq!(keywords.len(), 57);
    for (word, token) in keywords {
        assert_eq!(results(word), vec![Ok(token.clone())], "{}", word);
        assert_ne!(tokens(word), vec![ident(word)]);
    }
}

#[test]
fn words_that_are_not_reserved_are_identifiers() {
    for word in ["x", "_", "_a1", "models", "endx", "Model", "END", "der2", "x_y_Z9", "truex", "False"] {
        assert_eq!(tokens(word), vec![ident(word)], "{}", word);
    }
}

#[test]
fn keyword_prefix_of_a_longer_word_is_an_identifier() {
    assert_eq!(tokens("inner input in"), vec![Token::KeywordInner, Token::KeywordInput, Token::KeywordIn]);
    assert_eq!(tokens("elseif elsewhen else"), vec![Token::KeywordElseif, Token::KeywordElsewhen, Token::KeywordElse]);
    assert_eq!(tokens("connectors"), vec![ident("connectors")]);
}

#[test]
fn digit_strings_without_leading_zero_are_integers() {
    assert_eq!(tokens("7"), vec![Token::UnsignedInteger(7)]);
    assert_eq!(tokens("1234567890"), vec![Token::UnsignedInteger(1234567890)]);
    assert_eq!(tokens("9223372036854775807"), vec![Token::UnsignedInteger(i64::MAX)]);
}

#[test]
fn integer_overflow_is_an_invalid_integer() {
    let r = results("9223372036854775808");
    assert_eq!(r.len(), 1);
    assert!(matches!(r[0], Err(LexicalError::InvalidInteger(_))));
    let expected = "9223372036854775808".parse::<i64>().unwrap_err();
    assert_eq!(r[0], Err(LexicalError::InvalidInteger(expected)));
}

#[test]
fn zero_point_and_exponent_give_reals() {
    for text in ["0", "0.5", "3.14", "1e10", "1E10", "2.5e-3", "6e+2", "0e0", "10.25E7"] {
        let t = tokens(text);
        assert_eq!(t.len(), 1, "{}", text);
        assert_eq!(real_text(&t[0]), text);
    }
}

#[test]
fn round_trip_of_number_literals() {
    assert_eq!(tokens("42"), vec![Token::UnsignedInteger(42)]);
    let zero = tokens("0");
    assert_eq!(real_text(&zero[0]).parse::<f64>().unwrap(), 0.0);
    let pi = tokens("3.14");
    assert_eq!(real_text(&pi[0]).parse::<f64>().unwrap(), 3.14);
    let big = tokens("1e10");
    assert_eq!(real_text(&big[0]).parse::<f64>().unwrap(), 1e10);
}

#[test]
fn leading_zero_splits_a_number() {
    assert_eq!(
        tokens("042"),
        vec![Token::UnsignedReal("0".to_string()), Token::UnsignedInteger(42)]
    );
    assert_eq!(
        tokens("00"),
        vec![Token::UnsignedReal("0".to_string()), Token::UnsignedReal("0".to_string())]
    );
}

#[test]
fn incomplete_fraction_or_exponent_is_not_taken() {
    assert_eq!(results("42."), vec![Ok(Token::UnsignedInteger(42)), Err(LexicalError::InvalidToken)]);
    assert_eq!(tokens("1e"), vec![Token::UnsignedInteger(1), ident("e")]);
    assert_eq!(
        tokens("1.5e+"),
        vec![Token::UnsignedReal("1.5".to_string()), ident("e"), Token::OperatorAdd]
    );
    assert_eq!(tokens("3x"), vec![Token::UnsignedInteger(3), ident("x")]);
}

#[test]
fn operators_take_the_longest_match() {
    assert_eq!(tokens(".*"), vec![Token::OperatorElemMul]);
    assert_eq!(tokens(":="), vec![Token::Assign]);
    assert_eq!(
        tokens(".+ .- .* ./"),
        vec![Token::OperatorElemAdd, Token::OperatorElemSub, Token::OperatorElemMul, Token::OperatorElemDiv]
    );
    assert_eq!(
        tokens("+-*/"),
        vec![Token::OperatorAdd, Token::OperatorSub, Token::OperatorMul, Token::OperatorDiv]
    );
    assert_eq!(
        tokens("( ) = ;"),
        vec![Token::LParen, Token::RParen, Token::Equal, Token::Semicolon]
    );
    assert_eq!(tokens("a:=b"), vec![ident("a"), Token::Assign, ident("b")]);
}

#[test]
fn lone_colon_and_dot_are_invalid() {
    assert_eq!(results(":"), vec![Err(LexicalError::InvalidToken)]);
    assert_eq!(results(". ="), vec![Err(LexicalError::InvalidToken), Ok(Token::Equal)]);
}

#[test]
fn comments_and_whitespace_are_dropped() {
    assert_eq!(tokens("model // comment\nend"), vec![Token::KeywordModel, Token::KeywordEnd]);
    assert_eq!(tokens("model /* a\n * b */ end"), vec![Token::KeywordModel, Token::KeywordEnd]);
    assert_eq!(tokens("x // no newline at the end"), vec![ident("x")]);
    assert_eq!(tokens("\tx\x0C\ny "), vec![ident("x"), ident("y")]);
}

#[test]
fn block_comment_ends_at_the_first_close() {
    assert_eq!(
        tokens("/* a */ b */"),
        vec![ident("b"), Token::OperatorMul, Token::OperatorDiv]
    );
    assert_eq!(tokens("/* a **/ b"), vec![ident("b")]);
    assert_eq!(tokens("/**/x"), vec![ident("x")]);
}

#[test]
fn unterminated_block_comment_is_not_skipped() {
    assert_eq!(
        tokens("/* x"),
        vec![Token::OperatorDiv, Token::OperatorMul, ident("x")]
    );
}

#[test]
fn quoted_symbol_is_an_identifier() {
    assert_eq!(tokens("'+'"), vec![ident("'+'")]);
    assert_eq!(tokens("'\"' ' ' '~'"), vec![ident("'\"'"), ident("' '"), ident("'~'")]);
}

#[test]
fn quote_without_a_quotable_symbol_is_invalid() {
    assert_eq!(
        results("'a'"),
        vec![Err(LexicalError::InvalidToken), Ok(ident("a")), Err(LexicalError::InvalidToken)]
    );
    assert_eq!(results("''"), vec![Err(LexicalError::InvalidToken), Err(LexicalError::InvalidToken)]);
    assert_eq!(results("'+"), vec![Err(LexicalError::InvalidToken), Ok(Token::OperatorAdd)]);
}

#[test]
fn unmatched_character_is_an_invalid_token_and_scanning_resumes() {
    let items = scan("$");
    assert_eq!(items, vec![(Err(LexicalError::InvalidToken), Span { start: 0, end: 1 })]);
    assert_eq!(
        results("a $ b"),
        vec![Ok(ident("a")), Err(LexicalError::InvalidToken), Ok(ident("b"))]
    );
}

#[test]
fn spans_count_characters() {
    let items = scan("é x");
    assert_eq!(items[0], (Err(LexicalError::InvalidToken), Span { start: 0, end: 1 }));
    assert_eq!(items[1], (Ok(ident("x")), Span { start: 2, end: 3 }));
}

#[test]
fn true_and_false_are_booleans() {
    assert_eq!(tokens("true false"), vec![Token::Boolean(true), Token::Boolean(false)]);
    assert_eq!(tokens("trueish"), vec![ident("trueish")]);
}

#[test]
fn the_alternation_text_is_not_one_token() {
    assert_eq!(
        results("(true|false)?"),
        vec![
            Ok(Token::LParen),
            Ok(Token::Boolean(true)),
            Err(LexicalError::InvalidToken),
            Ok(Token::Boolean(false)),
            Ok(Token::RParen),
            Err(LexicalError::InvalidToken),
        ]
    );
}

#[test]
fn scanner_hands_out_tokens_one_at_a_time() {
    let mut scanner = Scanner::new("der(x) = -k*x;");
    assert_eq!(scanner.position(), 0);
    assert_eq!(scanner.next_token(), Some((Ok(Token::KeywordDer), Span { start: 0, end: 3 })));
    assert_eq!(scanner.position(), 3);
    assert_eq!(scanner.next_token(), Some((Ok(Token::LParen), Span { start: 3, end: 4 })));
    let mut rest = Vec::new();
    while let Some((r, _)) = scanner.next_token() {
        rest.push(r.unwrap());
    }
    assert_eq!(
        rest,
        vec![
            ident("x"),
            Token::RParen,
            Token::Equal,
            Token::OperatorSub,
            ident("k"),
            Token::OperatorMul,
            ident("x"),
            Token::Semicolon,
        ]
    );
    assert_eq!(scanner.next_token(), None);
    assert_eq!(scanner.next_token(), None);
}

#[test]
fn scanner_agrees_with_scan() {
    let source = "model Ball Real h(start = 1.0); equation der(h) = v; end Ball;";
    let mut scanner = Scanner::new(source);
    let mut one_by_one = Vec::new();
    while let Some(item) = scanner.next_token() {
        one_by_one.push(item);
    }
    assert_eq!(one_by_one, scan(source));
}

#[test]
fn default_error_is_invalid_token() {
    assert_eq!(LexicalError::default(), LexicalError::InvalidToken);
}

#[test]
fn parse_failure_converts_to_invalid_integer() {
    let e = "99999999999999999999".parse::<i64>().unwrap_err();
    assert_eq!(LexicalError::from(e.clone()), LexicalError::InvalidInteger(e));
}

#[test]
fn rendering_names_the_variant() {
    assert_eq!(Token::KeywordModel.to_string(), "KeywordModel");
    assert_eq!(ident("model").to_string(), "Identifier(\"model\")");
    assert_ne!(Token::KeywordModel.to_string(), ident("model").to_string());
    assert_eq!(Token::UnsignedInteger(42).to_string(), "UnsignedInteger(42)");
    assert_eq!(Token::UnsignedReal("3.14".to_string()).to_string(), "UnsignedReal(3.14)");
    assert_eq!(Token::Boolean(false).to_string(), "Boolean(false)");
    assert_eq!(Token::OperatorElemMul.to_string(), "OperatorElemMul");
}

#[test]
fn rendering_matches_debug_output() {
    let samples = vec![
        Token::KeywordConstrainedby,
        Token::Assign,
        ident("x_1"),
        ident("'\"'"),
        ident("a\\b"),
        Token::UnsignedInteger(0),
        Token::UnsignedInteger(1234567890),
        Token::UnsignedInteger(i64::MAX),
        Token::UnsignedInteger(-7),
        Token::UnsignedInteger(i64::MIN),
        Token::Boolean(true),
    ];
    for t in samples {
        assert_eq!(t.to_string(), format!("{:?}", t));
    }
}

#[test]
fn rendering_of_scanned_tokens() {
    let shown: Vec<String> = tokens("der(h) := '*' 7").iter().map(|t| t.to_string()).collect();
    assert_eq!(
        shown,
        vec![
            "KeywordDer",
            "LParen",
            "Identifier(\"h\")",
            "RParen",
            "Assign",
            "Identifier(\"'*'\")",
            "UnsignedInteger(7)",
        ]
    );
}
