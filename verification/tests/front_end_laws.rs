use lib::error::{collect_errors, report, CompilerError, LexErrorKind};
use lib::lexer::lex;
use lib::location::{offset_to_location, source_line_at};
use lib::parser::{ParseError, Parser};
use lib::token::{Token, TokenKind};

#[test]
fn tokens_end_with_eof_at_program_length() {
    let program = "let x = 42; // done";
    let tokens = lex(program).unwrap();
    let last = tokens.last().unwrap();
    assert_eq!(last.kind(), TokenKind::EoF);
    assert_eq!(last.offset, program.len());
    assert!(tokens[..tokens.len() - 1].iter().all(|t| t.kind() != TokenKind::EoF));
}

#[test]
fn token_offsets_fall_on_character_boundaries() {
    let program = "é + ü * 2 // ñ";
    let tokens = lex(program).unwrap();
    assert!(tokens.iter().all(|t| program.is_char_boundary(t.offset)));
    assert_eq!(tokens.last().unwrap().offset, program.len());
}

#[test]
fn parser_position_moves_over_tokens_but_not_past_the_end() {
    let mut parser = Parser::new(lex("a b").unwrap());
    assert_eq!(parser.current_position(), 0);
    parser.advance();
    parser.advance();
    assert_eq!(parser.current_position(), 2);
    parser.advance();
    assert_eq!(parser.current_position(), 2);
    assert_eq!(parser.peek().kind(), TokenKind::EoF);
}

#[test]
fn token_offsets_strictly_increase() {
    let tokens = lex("fn f(x: Int) -> Int { return x +. 1.5; }").unwrap();
    assert!(tokens.len() > 2);
    for pair in tokens.windows(2) {
        assert!(pair[0].offset < pair[1].offset);
    }
}

#[test]
fn offsets_count_bytes_of_wide_characters() {
    let tokens = lex("ü + 1").unwrap();
    let offsets: Vec<usize> = tokens.iter().map(|t| t.offset).collect();
    assert_eq!(offsets, vec![0, 3, 5, 6]);
    assert_eq!(tokens[0].node, Token::Id("ü"));
}

#[test]
fn lexing_errors_are_all_reported_in_source_order() {
    let errors = lex("1 @ 2 # 3").unwrap_err();
    let offsets: Vec<usize> = errors.iter().map(|e| e.offset).collect();
    assert_eq!(offsets, vec![2, 6]);
}

#[test]
fn collected_errors_keep_kind_and_offset() {
    let errors = collect_errors(&lex("1 @ 99999999999999999999 1.2.3").unwrap_err());
    assert_eq!(errors.len(), 3);
    assert_eq!(errors[0].kind, LexErrorKind::InvalidCharacter('@'));
    assert_eq!(errors[0].offset, 2);
    assert_eq!(errors[1].kind, LexErrorKind::IntOverflow("99999999999999999999"));
    assert_eq!(errors[1].offset, 4);
    assert_eq!(errors[2].kind, LexErrorKind::InvalidFloat("1.2.3"));
    assert_eq!(errors[2].offset, 25);
}

#[test]
fn lexing_error_messages() {
    let errors = collect_errors(&lex("@ 99999999999999999999 1.2.3").unwrap_err());
    assert_eq!(errors[0].message(), "invalid character '@'");
    assert_eq!(errors[1].message(), "integer literal overflow 99999999999999999999");
    assert_eq!(errors[2].message(), "invalid float literal 1.2.3");
}

#[test]
fn parse_error_messages() {
    let mut parser = Parser::new(lex("42").unwrap());
    let error = parser.expect(TokenKind::Semicolon).unwrap_err();
    assert_eq!(error.offset, 0);
    assert_eq!(CompilerError::Parse(error).message(), "expected ;, found integer literal");

    let tokens = lex("42").unwrap();
    let many: Result<(), _> = ParseError::many(&[TokenKind::LParen, TokenKind::Id], &tokens[0]);
    assert_eq!(
        CompilerError::Parse(many.unwrap_err()).message(),
        "expected one of (, identifier; found integer literal"
    );
}

#[test]
fn report_points_at_the_error() {
    let source = "\n\nlet @x = 5;";
    let errors = collect_errors(&lex(source).unwrap_err());
    let text = report(&CompilerError::Lex(errors[0]), source, "test.rsl");
    assert_eq!(
        text,
        "error: invalid character '@'\n --> test.rsl:3:5\n  |\n3 | let @x = 5;\n  |     ^"
    );
}

#[test]
fn report_widens_the_gutter_for_long_line_numbers() {
    let source = "\n\n\n\n\n\n\n\n\n\n#";
    let errors = collect_errors(&lex(source).unwrap_err());
    let text = report(&CompilerError::Lex(errors[0]), source, "f");
    assert_eq!(text, "error: invalid character '#'\n  --> f:11:1\n   |\n11 | #\n   | ^");
}

#[test]
fn locations_are_one_based_lines_and_columns() {
    assert_eq!(offset_to_location("ab\ncd", 0), (1, 1));
    assert_eq!(offset_to_location("ab\ncd", 4), (2, 2));
    assert_eq!(offset_to_location("ab\ncd", 99), (2, 3));
    assert_eq!(source_line_at("ab\ncd\nef", 4), "cd");
    assert_eq!(source_line_at("ab\ncd\nef", 0), "ab");
}
