use whale_c::lex::{lex_all, Tok};

#[test]
fn digit_string_single_literal() {
    // a digit run becomes one literal holding its mathematical value
    let toks = lex_all("12345").unwrap();
    assert_eq!(toks, vec![Tok::IntLit(12345), Tok::Eof]);
}

#[test]
fn digit_string_zero_prefixed() {
    let toks = lex_all("007").unwrap();
    assert_eq!(toks, vec![Tok::IntLit(7), Tok::Eof]);
}

#[test]
fn digit_string_wide_value() {
    // still exact well past 64 bits
    let toks = lex_all("170141183460469231731687303715884105727").unwrap();
    assert_eq!(toks, vec![Tok::IntLit(i128::MAX), Tok::Eof]);
}

#[test]
fn maximal_munch_le() {
    let toks = lex_all("<=").unwrap();
    assert_eq!(toks, vec![Tok::Le, Tok::Eof]);
}

#[test]
fn maximal_munch_eqeq() {
    let toks = lex_all("==").unwrap();
    assert_eq!(toks, vec![Tok::EqEq, Tok::Eof]);
}

#[test]
fn maximal_munch_noteq() {
    let toks = lex_all("!=").unwrap();
    assert_eq!(toks, vec![Tok::NotEq, Tok::Eof]);
}

#[test]
fn maximal_munch_ge() {
    let toks = lex_all(">=").unwrap();
    assert_eq!(toks, vec![Tok::Ge, Tok::Eof]);
}

#[test]
fn single_char_operators_apart() {
    let toks = lex_all("< = >").unwrap();
    assert_eq!(toks, vec![Tok::Lt, Tok::Assign, Tok::Gt, Tok::Eof]);
}

#[test]
fn comment_transparency() {
    let with_comment = lex_all("a//c\nb").unwrap();
    let without = lex_all("a\nb").unwrap();
    assert_eq!(with_comment, without);
    assert_eq!(
        with_comment,
        vec![
            Tok::Ident("a".to_string()),
            Tok::Ident("b".to_string()),
            Tok::Eof
        ]
    );
}

#[test]
fn block_comment_skipped() {
    let toks = lex_all("a /* anything * / here */ b").unwrap();
    assert_eq!(
        toks,
        vec![
            Tok::Ident("a".to_string()),
            Tok::Ident("b".to_string()),
            Tok::Eof
        ]
    );
}

#[test]
fn unterminated_block_comment() {
    let e = lex_all("/* x").unwrap_err();
    assert_eq!(e.msg, "unterminated block comment");
    assert_eq!(e.line, 1);
    assert_eq!(e.col, 5);
}

#[test]
fn unknown_char_column() {
    let e = lex_all("a $ b").unwrap_err();
    assert_eq!(e.line, 1);
    assert_eq!(e.col, 3);
    assert_eq!(e.msg, "unexpected char: '$'");
}

#[test]
fn unknown_char_line_counting() {
    let e = lex_all("a\nbb\n  @").unwrap_err();
    assert_eq!(e.line, 3);
    assert_eq!(e.col, 3);
    assert_eq!(e.msg, "unexpected char: '@'");
}

#[test]
fn keywords_and_identifiers() {
    let toks =
        lex_all("int unsigned void const return if else while break continue true false intx")
            .unwrap();
    assert_eq!(
        toks,
        vec![
            Tok::Int,
            Tok::Unsigned,
            Tok::Void,
            Tok::Const,
            Tok::Return,
            Tok::If,
            Tok::Else,
            Tok::While,
            Tok::Break,
            Tok::Continue,
            Tok::True,
            Tok::False,
            Tok::Ident("intx".to_string()),
            Tok::Eof
        ]
    );
}

#[test]
fn identifier_with_underscore_and_digits() {
    let toks = lex_all("_a1_b2").unwrap();
    assert_eq!(toks, vec![Tok::Ident("_a1_b2".to_string()), Tok::Eof]);
}

#[test]
fn punctuation_run() {
    let toks = lex_all("(){};,+-*").unwrap();
    assert_eq!(
        toks,
        vec![
            Tok::LParen,
            Tok::RParen,
            Tok::LBrace,
            Tok::RBrace,
            Tok::Semi,
            Tok::Comma,
            Tok::Plus,
            Tok::Minus,
            Tok::Star,
            Tok::Eof
        ]
    );
}

#[test]
fn empty_input_is_one_end_marker() {
    let toks = lex_all("").unwrap();
    assert_eq!(toks, vec![Tok::Eof]);
}

#[test]
fn whitespace_only_input() {
    let toks = lex_all(" \t\r\n ").unwrap();
    assert_eq!(toks, vec![Tok::Eof]);
}

#[test]
fn identifier_then_number_split() {
    // a digit run after an identifier is its own token
    let toks = lex_all("x 42").unwrap();
    assert_eq!(
        toks,
        vec![Tok::Ident("x".to_string()), Tok::IntLit(42), Tok::Eof]
    );
}

#[test]
fn maximal_munch_within_text() {
    let toks = lex_all("a<=b").unwrap();
    assert_eq!(
        toks,
        vec![
            Tok::Ident("a".to_string()),
            Tok::Le,
            Tok::Ident("b".to_string()),
            Tok::Eof
        ]
    );
}
