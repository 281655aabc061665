use eli_lexer::lexer::Lexer;
use eli_lexer::token::{FloatLit, Token};

#[test]
fn empty_input_is_end() {
    let mut lx = Lexer::new("");
    assert_eq!(lx.lex(), Ok(None));
}

#[test]
fn whitespace_only_is_end_and_stays_end() {
    let mut lx = Lexer::new("  \t\n \r\n   ");
    assert_eq!(lx.lex(), Ok(None));
    assert_eq!(lx.lex(), Ok(None));
    assert_eq!(lx.lex(), Ok(None));
}

#[test]
fn unicode_whitespace_is_skipped() {
    let mut lx = Lexer::new("\u{a0}\u{2003}x");
    let t = lx.lex().unwrap().unwrap();
    assert_eq!(t.tok, Token::Ident(String::from("x")));
    assert_eq!(t.pos, 3);
}

#[test]
fn fixed_punctuation_tokens() {
    let cases = [
        ("{", Token::RCurly),
        ("}", Token::LCurly),
        ("(", Token::RParen),
        (")", Token::LParen),
        (":", Token::Colon),
        (";", Token::Semicolon),
        (",", Token::Comma),
        ("=", Token::Equals),
        ("!", Token::Exclamation),
    ];
    for (text, expected) in cases {
        let mut lx = Lexer::new(text);
        let t = lx.lex().unwrap().unwrap();
        assert_eq!(t.tok, expected);
        assert_eq!(t.pos, 1);
        assert_eq!(t.line, 0);
        assert_eq!(lx.lex(), Ok(None));
    }
}

#[test]
fn comment_is_invisible_but_advances_counters() {
    let mut lx = Lexer::new("// comment\nfoo");
    let t = lx.lex().unwrap().unwrap();
    assert_eq!(t.tok, Token::Ident(String::from("foo")));
    // the comment's 10 characters, the newline and `foo` all advanced the
    // column counter, and the newline advanced the line counter
    assert_eq!(t.pos, 14);
    assert_eq!(t.line, 1);
    assert_eq!(lx.lex(), Ok(None));
}

#[test]
fn comment_to_end_of_input() {
    let mut lx = Lexer::new("// only a comment");
    assert_eq!(lx.lex(), Ok(None));
}

#[test]
fn consecutive_comments() {
    let mut lx = Lexer::new("// a\n// b\n// c\n42");
    let t = lx.lex().unwrap().unwrap();
    assert_eq!(t.tok, Token::Int(42));
    assert_eq!(t.line, 3);
}

#[test]
fn negated_int_literal() {
    let mut lx = Lexer::new("-42");
    let t = lx.lex().unwrap().unwrap();
    assert_eq!(t.tok, Token::Int(-42));
    assert_eq!(t.pos, 3);
    assert_eq!(lx.lex(), Ok(None));
}

#[test]
fn minus_without_digits_is_operator() {
    let mut lx = Lexer::new("- x");
    let t = lx.lex().unwrap().unwrap();
    assert_eq!(t.tok, Token::Operator('-'));
    // exactly the one `-` character was consumed
    assert_eq!(t.pos, 1);
    let t2 = lx.lex().unwrap().unwrap();
    assert_eq!(t2.tok, Token::Ident(String::from("x")));
    assert_eq!(t2.pos, 3);
}

#[test]
fn float_literal() {
    let mut lx = Lexer::new("3.14");
    let t = lx.lex().unwrap().unwrap();
    assert_eq!(
        t.tok,
        Token::Float(FloatLit { neg: false, digits: String::from("3.14") })
    );
    assert_eq!(t.pos, 4);
    if let Token::Float(f) = t.tok {
        assert_eq!(f.digits.parse::<f64>().unwrap(), 3.14);
    }
}

#[test]
fn negated_float_literal() {
    let mut lx = Lexer::new("-3.14");
    let t = lx.lex().unwrap().unwrap();
    assert_eq!(
        t.tok,
        Token::Float(FloatLit { neg: true, digits: String::from("3.14") })
    );
    assert_eq!(t.pos, 5);
}

#[test]
fn trailing_dot_float_literal() {
    let mut lx = Lexer::new("3.");
    let t = lx.lex().unwrap().unwrap();
    assert_eq!(
        t.tok,
        Token::Float(FloatLit { neg: false, digits: String::from("3.") })
    );
    if let Token::Float(f) = t.tok {
        assert_eq!(f.digits.parse::<f64>().unwrap(), 3.0);
    }
}

#[test]
fn multiple_dots_fail() {
    let mut lx = Lexer::new("3.1.4");
    let e = lx.lex().unwrap_err();
    assert_eq!(e.err, String::from("invalid float literal"));
    assert_eq!(e.pos, 5);
    assert_eq!(e.line, 0);
}

#[test]
fn minus_then_bad_float_consumes_only_the_minus() {
    let mut lx = Lexer::new("-3.1.4");
    let t = lx.lex().unwrap().unwrap();
    assert_eq!(t.tok, Token::Operator('-'));
    assert_eq!(t.pos, 1);
    // the digits were not consumed: the next call scans them and fails
    let e = lx.lex().unwrap_err();
    assert_eq!(e.err, String::from("invalid float literal"));
    assert_eq!(e.pos, 6);
}

#[test]
fn int_literal_and_bounds() {
    let mut lx = Lexer::new("9223372036854775807");
    let t = lx.lex().unwrap().unwrap();
    assert_eq!(t.tok, Token::Int(i64::MAX));

    let mut lx2 = Lexer::new("9223372036854775808");
    let e = lx2.lex().unwrap_err();
    assert_eq!(e.err, String::from("integer literal out of range"));
    assert_eq!(e.pos, 19);
}

#[test]
fn minus_then_overflowing_int_is_operator() {
    // the unsigned parse overflows, so the minus falls back to an operator
    let mut lx = Lexer::new("-9223372036854775808");
    let t = lx.lex().unwrap().unwrap();
    assert_eq!(t.tok, Token::Operator('-'));
    assert_eq!(t.pos, 1);
    let e = lx.lex().unwrap_err();
    assert_eq!(e.err, String::from("integer literal out of range"));
}

#[test]
fn leading_zeros_are_fine() {
    let mut lx = Lexer::new("007");
    let t = lx.lex().unwrap().unwrap();
    assert_eq!(t.tok, Token::Int(7));
}

#[test]
fn operators() {
    for (text, op) in [("+", '+'), ("*", '*'), ("/", '/')] {
        let mut lx = Lexer::new(text);
        let t = lx.lex().unwrap().unwrap();
        assert_eq!(t.tok, Token::Operator(op));
        assert_eq!(t.pos, 1);
    }
}

#[test]
fn slash_followed_by_space_is_operator() {
    let mut lx = Lexer::new("/ 2");
    let t = lx.lex().unwrap().unwrap();
    assert_eq!(t.tok, Token::Operator('/'));
    let t2 = lx.lex().unwrap().unwrap();
    assert_eq!(t2.tok, Token::Int(2));
}

#[test]
fn identifier_with_l_is_rejected() {
    let mut lx = Lexer::new("hello");
    let e = lx.lex().unwrap_err();
    assert_eq!(e.err, String::from("'l' faiLs the ELi Linter"));
    assert_eq!(e.pos, 5);
    assert_eq!(e.line, 0);
}

#[test]
fn keywords_are_recognized() {
    let mut lx = Lexer::new("function");
    let t = lx.lex().unwrap().unwrap();
    assert_eq!(t.tok, Token::Function);
    assert_eq!(t.pos, 8);

    let mut lx2 = Lexer::new("return");
    let t2 = lx2.lex().unwrap().unwrap();
    assert_eq!(t2.tok, Token::Return);
    assert_eq!(t2.pos, 6);
}

#[test]
fn identifier_runs_to_whitespace() {
    // identifiers are ended only by whitespace, so `a+b` is one candidate
    let mut lx = Lexer::new("a+b c");
    let t = lx.lex().unwrap().unwrap();
    assert_eq!(t.tok, Token::Ident(String::from("a+b")));
    assert_eq!(t.pos, 3);
    let t2 = lx.lex().unwrap().unwrap();
    assert_eq!(t2.tok, Token::Ident(String::from("c")));
    assert_eq!(t2.pos, 5);
}

#[test]
fn carriage_return_counts_a_line() {
    let mut lx = Lexer::new("\r\nx");
    let t = lx.lex().unwrap().unwrap();
    assert_eq!(t.tok, Token::Ident(String::from("x")));
    assert_eq!(t.line, 2);
    assert_eq!(t.pos, 3);
}

#[test]
fn token_stream_of_a_function_header() {
    let mut lx = Lexer::new("function foo ( ) { return 1 ; }");
    let mut toks = Vec::new();
    while let Ok(Some(t)) = lx.lex() {
        toks.push(t.tok);
    }
    assert_eq!(
        toks,
        vec![
            Token::Function,
            Token::Ident(String::from("foo")),
            Token::RParen,
            Token::LParen,
            Token::RCurly,
            Token::Return,
            Token::Int(1),
            Token::Semicolon,
            Token::LCurly,
        ]
    );
}

#[test]
fn next_yields_tokens_and_swallows_errors() {
    let mut lx = Lexer::new("1 2");
    assert_eq!(lx.next().unwrap().tok, Token::Int(1));
    assert_eq!(lx.next().unwrap().tok, Token::Int(2));
    assert_eq!(lx.next(), None);

    let mut bad = Lexer::new("hello");
    assert_eq!(bad.next(), None);
}

#[test]
fn new_starts_at_the_origin() {
    let lx = Lexer::new("abc");
    assert_eq!(lx.pos, 0);
    assert_eq!(lx.line, 0);
}

#[test]
fn error_position_is_end_of_scan() {
    let mut lx = Lexer::new("  hello");
    let e = lx.lex().unwrap_err();
    assert_eq!(e.pos, 7);
    assert_eq!(e.line, 0);
}

#[test]
fn newline_and_digit_predicates() {
    assert!(eli_lexer::chars::is_newline('\n'));
    assert!(eli_lexer::chars::is_newline('\r'));
    assert!(!eli_lexer::chars::is_newline(' '));
    assert!(eli_lexer::chars::is_digit('7'));
    assert!(!eli_lexer::chars::is_digit('x'));
    assert!(eli_lexer::chars::is_whitespace('\u{2028}'));
    assert!(!eli_lexer::chars::is_whitespace('-'));
}
