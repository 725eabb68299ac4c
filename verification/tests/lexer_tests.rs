use tiny_lexer::lexer::Lexer;
use tiny_lexer::scan::LexError;
use tiny_lexer::tokens::{get_keyword_of_upper, str_eq, str_eq_upper, to_upper_char, token_type, Token};

fn next_tok(l: &mut Lexer) -> Token {
    l.get_token().expect("fatal lexical error").expect("invalid token")
}

#[test]
fn single_plus() {
    let mut l = Lexer::new("+");
    let t = next_tok(&mut l);
    assert_eq!(t.kind, token_type::PLUS);
    assert_eq!(t.text, "+");
    assert_eq!(next_tok(&mut l).kind, token_type::EOF);
}

#[test]
fn single_minus() {
    let mut l = Lexer::new("-");
    let t = next_tok(&mut l);
    assert_eq!(t.kind, token_type::MINUS);
    assert_eq!(t.text, "-");
    assert_eq!(next_tok(&mut l).kind, token_type::EOF);
}

#[test]
fn single_asterisk() {
    let mut l = Lexer::new("*");
    let t = next_tok(&mut l);
    assert_eq!(t.kind, token_type::ASTERISK);
    assert_eq!(t.text, "*");
    assert_eq!(next_tok(&mut l).kind, token_type::EOF);
}

#[test]
fn single_slash() {
    let mut l = Lexer::new("/");
    let t = next_tok(&mut l);
    assert_eq!(t.kind, token_type::SLASH);
    assert_eq!(t.text, "/");
    assert_eq!(next_tok(&mut l).kind, token_type::EOF);
}

#[test]
fn single_newline() {
    let mut l = Lexer::new("\n");
    let t = next_tok(&mut l);
    assert_eq!(t.kind, token_type::NEWLINE);
    assert_eq!(t.text, "\n");
    assert_eq!(next_tok(&mut l).kind, token_type::EOF);
}

#[test]
fn doubled_operators() {
    let mut l = Lexer::new("== >= <= !=");
    assert_eq!(next_tok(&mut l).kind, token_type::EQEQ);
    assert_eq!(next_tok(&mut l).kind, token_type::GTEQ);
    assert_eq!(next_tok(&mut l).kind, token_type::LTEQ);
    assert_eq!(next_tok(&mut l).kind, token_type::NOTEQ);
    assert_eq!(next_tok(&mut l).kind, token_type::EOF);
}

#[test]
fn doubled_operator_lexemes() {
    let mut l = Lexer::new("==");
    let t = next_tok(&mut l);
    assert_eq!(t.kind, token_type::EQEQ);
    assert_eq!(t.text, "==");
    let mut l = Lexer::new("!=");
    let t = next_tok(&mut l);
    assert_eq!(t.kind, token_type::NOTEQ);
    assert_eq!(t.text, "!=");
}

#[test]
fn single_comparison_operators() {
    let mut l = Lexer::new("=");
    assert_eq!(next_tok(&mut l).kind, token_type::EQ);
    let mut l = Lexer::new(">");
    assert_eq!(next_tok(&mut l).kind, token_type::GT);
    let mut l = Lexer::new("<");
    assert_eq!(next_tok(&mut l).kind, token_type::LT);
    let mut l = Lexer::new(">5");
    assert_eq!(next_tok(&mut l).kind, token_type::GT);
    assert_eq!(next_tok(&mut l).kind, token_type::NUMBER);
}

#[test]
fn bare_bang_is_invalid() {
    let mut l = Lexer::new("!");
    assert!(l.get_token().unwrap().is_none());
    assert_eq!(next_tok(&mut l).kind, token_type::EOF);
    let mut l = Lexer::new("!x");
    assert!(l.get_token().unwrap().is_none());
    let t = next_tok(&mut l);
    assert_eq!(t.kind, token_type::IDENT);
    assert_eq!(t.text, "x");
}

#[test]
fn decimal_number_round_trip() {
    let mut l = Lexer::new("123.45");
    let t = next_tok(&mut l);
    assert_eq!(t.kind, token_type::NUMBER);
    assert_eq!(t.text, "123.45");
    assert_eq!(next_tok(&mut l).kind, token_type::EOF);
}

#[test]
fn leading_point_is_not_a_number() {
    let mut l = Lexer::new(".5");
    assert!(l.get_token().unwrap().is_none());
    let t = next_tok(&mut l);
    assert_eq!(t.kind, token_type::NUMBER);
    assert_eq!(t.text, "5");
}

#[test]
fn integer_numbers() {
    let mut l = Lexer::new("0 007 42");
    let t = next_tok(&mut l);
    assert_eq!(t.kind, token_type::NUMBER);
    assert_eq!(t.text, "0");
    let t = next_tok(&mut l);
    assert_eq!(t.text, "007");
    let t = next_tok(&mut l);
    assert_eq!(t.text, "42");
    assert_eq!(next_tok(&mut l).kind, token_type::EOF);
}

#[test]
fn malformed_decimal_at_end() {
    let mut l = Lexer::new("12.");
    assert!(matches!(l.get_token(), Err(LexError::NoDigitAfterDecimalPoint)));
}

#[test]
fn malformed_decimal_before_letter() {
    let mut l = Lexer::new("12.x");
    assert!(matches!(l.get_token(), Err(LexError::NoDigitAfterDecimalPoint)));
}

#[test]
fn keywords_are_case_insensitive() {
    for input in ["if", "If", "IF", "iF"] {
        let mut l = Lexer::new(input);
        let t = next_tok(&mut l);
        assert_eq!(t.kind, token_type::IF);
        assert_eq!(t.text, input);
    }
}

#[test]
fn keyword_prefix_is_an_identifier() {
    let mut l = Lexer::new("iff");
    let t = next_tok(&mut l);
    assert_eq!(t.kind, token_type::IDENT);
    assert_eq!(t.text, "iff");
}

#[test]
fn all_keywords() {
    let mut l = Lexer::new("LABEL GOTO PRINT INPUT LET IF THEN ENDIF WHILE REPEAT ENDWHILE");
    let expected = [
        token_type::LABEL,
        token_type::GOTO,
        token_type::PRINT,
        token_type::INPUT,
        token_type::LET,
        token_type::IF,
        token_type::THEN,
        token_type::ENDIF,
        token_type::WHILE,
        token_type::REPEAT,
        token_type::ENDWHILE,
    ];
    for kind in expected {
        assert_eq!(next_tok(&mut l).kind, kind);
    }
    assert_eq!(next_tok(&mut l).kind, token_type::EOF);
}

#[test]
fn mixed_case_keyword() {
    let mut l = Lexer::new("EndWhile");
    assert_eq!(next_tok(&mut l).kind, token_type::ENDWHILE);
}

#[test]
fn identifier_with_digits() {
    let mut l = Lexer::new("x1y2");
    let t = next_tok(&mut l);
    assert_eq!(t.kind, token_type::IDENT);
    assert_eq!(t.text, "x1y2");
}

#[test]
fn keyword_table_exact_lookup() {
    assert_eq!(Token::get_keyword("WHILE"), Some(token_type::WHILE));
    assert_eq!(Token::get_keyword("LABEL"), Some(token_type::LABEL));
    assert_eq!(Token::get_keyword("ENDWHILE"), Some(token_type::ENDWHILE));
    // the table itself maps uppercase spellings only
    assert_eq!(Token::get_keyword("while"), None);
    assert_eq!(Token::get_keyword("foo"), None);
    assert_eq!(Token::get_keyword(""), None);
}

#[test]
fn string_literal() {
    let mut l = Lexer::new("\"hello\"");
    let t = next_tok(&mut l);
    assert_eq!(t.kind, token_type::STRING);
    assert_eq!(t.text, "hello");
    assert_eq!(next_tok(&mut l).kind, token_type::EOF);
}

#[test]
fn empty_string_literal() {
    let mut l = Lexer::new("\"\"");
    let t = next_tok(&mut l);
    assert_eq!(t.kind, token_type::STRING);
    assert_eq!(t.text, "");
}

#[test]
fn string_with_tab_is_fatal() {
    let mut l = Lexer::new("\"bad\ttab\"");
    assert!(matches!(l.get_token(), Err(LexError::ForbiddenCharInString)));
}

#[test]
fn string_with_percent_is_fatal() {
    let mut l = Lexer::new("\"a%b\"");
    assert!(matches!(l.get_token(), Err(LexError::ForbiddenCharInString)));
}

#[test]
fn string_with_backslash_is_fatal() {
    let mut l = Lexer::new("\"a\\b\"");
    assert!(matches!(l.get_token(), Err(LexError::ForbiddenCharInString)));
}

#[test]
fn unterminated_string_is_fatal() {
    let mut l = Lexer::new("\"abc");
    assert!(matches!(l.get_token(), Err(LexError::UnterminatedString)));
}

#[test]
fn error_messages() {
    assert_eq!(
        LexError::ForbiddenCharInString.message(),
        "Found special characters in string"
    );
    assert_eq!(
        LexError::NoDigitAfterDecimalPoint.message(),
        "No digit found after decimal point"
    );
    assert_eq!(LexError::UnterminatedString.message(), "String literal is never closed");
}

#[test]
fn comment_keeps_its_newline() {
    // a comment runs up to, but not including, the newline: the newline is
    // still a significant token of its own
    let mut l = Lexer::new("// comment\n+");
    assert_eq!(next_tok(&mut l).kind, token_type::NEWLINE);
    assert_eq!(next_tok(&mut l).kind, token_type::PLUS);
    assert_eq!(next_tok(&mut l).kind, token_type::EOF);
}

#[test]
fn comment_at_end_of_input() {
    let mut l = Lexer::new("// trailing");
    assert_eq!(next_tok(&mut l).kind, token_type::EOF);
}

#[test]
fn comment_between_tokens() {
    let mut l = Lexer::new("+// note\n-");
    assert_eq!(next_tok(&mut l).kind, token_type::PLUS);
    assert_eq!(next_tok(&mut l).kind, token_type::NEWLINE);
    assert_eq!(next_tok(&mut l).kind, token_type::MINUS);
    assert_eq!(next_tok(&mut l).kind, token_type::EOF);
}

#[test]
fn slash_slash_needs_both() {
    let mut l = Lexer::new("/ /");
    assert_eq!(next_tok(&mut l).kind, token_type::SLASH);
    assert_eq!(next_tok(&mut l).kind, token_type::SLASH);
    assert_eq!(next_tok(&mut l).kind, token_type::EOF);
}

#[test]
fn eof_is_idempotent() {
    let mut l = Lexer::new("");
    for _ in 0..5 {
        assert_eq!(next_tok(&mut l).kind, token_type::EOF);
    }
    let mut l = Lexer::new("+");
    assert_eq!(next_tok(&mut l).kind, token_type::PLUS);
    for _ in 0..5 {
        assert_eq!(next_tok(&mut l).kind, token_type::EOF);
    }
}

#[test]
fn eof_lexeme_is_empty() {
    let mut l = Lexer::new("");
    let t = next_tok(&mut l);
    assert_eq!(t.kind, token_type::EOF);
    assert_eq!(t.text, "");
}

#[test]
fn full_scenario() {
    let mut l = Lexer::new(" IF+-123 foo*THEN/ ");
    let t = next_tok(&mut l);
    assert_eq!(t.kind, token_type::IF);
    assert_eq!(t.text, "IF");
    assert_eq!(next_tok(&mut l).kind, token_type::PLUS);
    assert_eq!(next_tok(&mut l).kind, token_type::MINUS);
    let t = next_tok(&mut l);
    assert_eq!(t.kind, token_type::NUMBER);
    assert_eq!(t.text, "123");
    let t = next_tok(&mut l);
    assert_eq!(t.kind, token_type::IDENT);
    assert_eq!(t.text, "foo");
    assert_eq!(next_tok(&mut l).kind, token_type::ASTERISK);
    assert_eq!(next_tok(&mut l).kind, token_type::THEN);
    assert_eq!(next_tok(&mut l).kind, token_type::SLASH);
    assert_eq!(next_tok(&mut l).kind, token_type::EOF);
}

#[test]
fn unrecognized_character_is_invalid() {
    let mut l = Lexer::new("@+");
    assert!(l.get_token().unwrap().is_none());
    assert_eq!(next_tok(&mut l).kind, token_type::PLUS);
}

#[test]
fn whitespace_only_input() {
    let mut l = Lexer::new("  \t \r ");
    assert_eq!(next_tok(&mut l).kind, token_type::EOF);
}

#[test]
fn cursor_primitives() {
    let mut l = Lexer::new("ab");
    assert_eq!(l.cur_char, 'a');
    assert_eq!(l.cur_pos, 0);
    assert_eq!(l.peek(), 'b');
    l.next_char();
    assert_eq!(l.cur_char, 'b');
    assert_eq!(l.peek(), '\0');
    l.next_char();
    assert_eq!(l.cur_char, '\0');
    // advancing past the end has no further effect
    l.next_char();
    assert_eq!(l.cur_char, '\0');
    assert_eq!(l.cur_pos, 2);
}

#[test]
fn empty_input_starts_at_sentinel() {
    let l = Lexer::new("");
    assert_eq!(l.cur_char, '\0');
    assert_eq!(l.peek(), '\0');
}

#[test]
fn skip_whitespace_stops_before_newline() {
    let mut l = Lexer::new("   \n");
    l.skip_whitespace();
    assert_eq!(l.cur_char, '\n');
}

#[test]
fn skip_comment_stops_at_newline() {
    let mut l = Lexer::new("// abc\nx");
    l.skip_comment();
    assert_eq!(l.cur_char, '\n');
}

#[test]
fn skip_comment_without_comment_does_nothing() {
    let mut l = Lexer::new("xy");
    l.skip_comment();
    assert_eq!(l.cur_pos, 0);
    assert_eq!(l.cur_char, 'x');
}

#[test]
fn abort_returns_the_error() {
    let l = Lexer::new("x");
    assert!(matches!(l.abort(LexError::UnterminatedString), Err(LexError::UnterminatedString)));
}

#[test]
fn token_new_keeps_fields() {
    let t = Token::new(String::from("abc"), token_type::IDENT);
    assert_eq!(t.text, "abc");
    assert_eq!(t.kind, token_type::IDENT);
}

#[test]
fn maximal_munch_number_then_ident() {
    let mut l = Lexer::new("9abc");
    let t = next_tok(&mut l);
    assert_eq!(t.kind, token_type::NUMBER);
    assert_eq!(t.text, "9");
    let t = next_tok(&mut l);
    assert_eq!(t.kind, token_type::IDENT);
    assert_eq!(t.text, "abc");
}

#[test]
fn operators_and_comparisons_mixed() {
    let mut l = Lexer::new("a>=b==c<d");
    assert_eq!(next_tok(&mut l).kind, token_type::IDENT);
    assert_eq!(next_tok(&mut l).kind, token_type::GTEQ);
    assert_eq!(next_tok(&mut l).kind, token_type::IDENT);
    assert_eq!(next_tok(&mut l).kind, token_type::EQEQ);
    assert_eq!(next_tok(&mut l).kind, token_type::IDENT);
    assert_eq!(next_tok(&mut l).kind, token_type::LT);
    assert_eq!(next_tok(&mut l).kind, token_type::IDENT);
    assert_eq!(next_tok(&mut l).kind, token_type::EOF);
}

#[test]
fn embedded_nul_reads_as_end_marker() {
    // an in-buffer NUL is indistinguishable from the sentinel: it yields
    // the end-of-file token, and scanning continues past it
    let mut l = Lexer::new("\0+");
    assert_eq!(next_tok(&mut l).kind, token_type::EOF);
    assert_eq!(next_tok(&mut l).kind, token_type::PLUS);
}

#[test]
fn upper_casing_single_characters() {
    assert_eq!(to_upper_char('a'), 'A');
    assert_eq!(to_upper_char('z'), 'Z');
    assert_eq!(to_upper_char('M'), 'M');
    assert_eq!(to_upper_char('7'), '7');
    assert_eq!(to_upper_char('+'), '+');
}

#[test]
fn string_slice_equality() {
    assert!(str_eq("abc", "abc"));
    assert!(str_eq("", ""));
    assert!(!str_eq("abc", "abd"));
    assert!(!str_eq("abc", "ab"));
}

#[test]
fn uppercased_comparison() {
    assert!(str_eq_upper("while", "WHILE"));
    assert!(str_eq_upper("WhIlE", "WHILE"));
    assert!(!str_eq_upper("whiles", "WHILE"));
    assert!(!str_eq_upper("whil", "WHILE"));
}

#[test]
fn case_insensitive_keyword_lookup() {
    assert_eq!(get_keyword_of_upper("goto"), Some(token_type::GOTO));
    assert_eq!(get_keyword_of_upper("GOTO"), Some(token_type::GOTO));
    assert_eq!(get_keyword_of_upper("gotos"), None);
}
