use vesti::codegen::{make_latex_format, LatexEngineType};
use vesti::error::{VestiErr, VestiParseErrKind};
use vesti::location::{Location, Span};
use vesti::parser::Parser;
use vesti::token::{Token, TokenType};

fn span_at(row: usize) -> Span {
    Span { start: Location { row, col: 0 }, end: Location { row, col: 1 } }
}

fn tok_at(toktype: TokenType, literal: &str, row: usize) -> Token {
    Token { toktype, literal: literal.to_string(), span: span_at(row) }
}

fn compile_err(tokens: Vec<Token>) -> VestiErr {
    let mut parser = Parser::new(tokens);
    make_latex_format(&mut parser, LatexEngineType::PdfLatex, true).unwrap_err()
}

#[test]
fn unclosed_useenv_reports_opening_span() {
    let err = compile_err(vec![
        tok_at(TokenType::Useenv, "useenv", 1),
        tok_at(TokenType::Space, " ", 1),
        tok_at(TokenType::Text, "center", 1),
        tok_at(TokenType::Space, " ", 1),
        tok_at(TokenType::Lbrace, "{", 1),
        tok_at(TokenType::Text, "x", 2),
    ]);
    assert_eq!(
        err,
        VestiErr::ParseErr {
            err_kind: VestiParseErrKind::IsNotClosedErr {
                open: vec![TokenType::Lbrace],
                close: TokenType::Rbrace,
            },
            location: span_at(1),
        }
    );
}

#[test]
fn unopened_end_definition_lists_openers() {
    let err = compile_err(vec![tok_at(TokenType::EndDefinition, "enddef", 3)]);
    assert_eq!(
        err,
        VestiErr::ParseErr {
            err_kind: VestiParseErrKind::IsNotOpenedErr {
                open: TokenType::get_definition_start_list(),
                close: TokenType::EndDefinition,
            },
            location: span_at(3),
        }
    );
}

#[test]
fn unopened_ends_with() {
    let err = compile_err(vec![tok_at(TokenType::EndsWith, "endswith", 4)]);
    assert_eq!(
        err,
        VestiErr::ParseErr {
            err_kind: VestiParseErrKind::IsNotOpenedErr {
                open: vec![TokenType::Defenv, TokenType::Redefenv],
                close: TokenType::EndsWith,
            },
            location: span_at(4),
        }
    );
}

#[test]
fn unopened_math_text_end() {
    let err = compile_err(vec![tok_at(TokenType::MathTextEnd, "\"", 5)]);
    assert_eq!(
        err,
        VestiErr::ParseErr {
            err_kind: VestiParseErrKind::IsNotOpenedErr {
                open: vec![TokenType::MathTextStart],
                close: TokenType::MathTextEnd,
            },
            location: span_at(5),
        }
    );
}

#[test]
fn stray_text_math_end_is_invalid() {
    let err = compile_err(vec![tok_at(TokenType::TextMathEnd, "$", 2)]);
    assert_eq!(
        err,
        VestiErr::ParseErr {
            err_kind: VestiParseErrKind::InvalidTokToConvert { got: TokenType::TextMathEnd },
            location: span_at(2),
        }
    );
}

#[test]
fn superscript_outside_math_is_illegal() {
    let err = compile_err(vec![tok_at(TokenType::Superscript, "^", 7)]);
    assert_eq!(
        err,
        VestiErr::ParseErr {
            err_kind: VestiParseErrKind::IllegalUseErr { got: TokenType::Superscript },
            location: span_at(7),
        }
    );
}

#[test]
fn illegal_character_token() {
    let err = compile_err(vec![tok_at(TokenType::Illegal, "\u{1}", 9)]);
    assert_eq!(
        err,
        VestiErr::ParseErr {
            err_kind: VestiParseErrKind::IllegalCharacterFoundErr,
            location: span_at(9),
        }
    );
}

#[test]
fn deprecated_token() {
    let err = compile_err(vec![tok_at(TokenType::Deprecated, "import", 10)]);
    assert_eq!(
        err,
        VestiErr::ParseErr { err_kind: VestiParseErrKind::DeprecatedUseErr, location: span_at(10) }
    );
}

#[test]
fn integer_overflow_fails_at_token_span() {
    let err = compile_err(vec![tok_at(TokenType::Integer, "99999999999999999999", 11)]);
    assert_eq!(
        err,
        VestiErr::ParseErr { err_kind: VestiParseErrKind::ParseIntErr, location: span_at(11) }
    );
}

#[test]
fn malformed_float_fails_at_token_span() {
    let err = compile_err(vec![tok_at(TokenType::Float, "1.2.3", 12)]);
    assert_eq!(
        err,
        VestiErr::ParseErr { err_kind: VestiParseErrKind::ParseFloatErr, location: span_at(12) }
    );
}

#[test]
fn unclosed_text_math_region() {
    let err = compile_err(vec![
        tok_at(TokenType::TextMathStart, "$", 1),
        tok_at(TokenType::Text, "x", 1),
    ]);
    assert_eq!(
        err,
        VestiErr::ParseErr {
            err_kind: VestiParseErrKind::BracketMismatchErr { expected: TokenType::TextMathEnd },
            location: span_at(1),
        }
    );
}

#[test]
fn unclosed_inline_math_region_reports_text_math_end() {
    // pinned behavior: the inline style also names the text-style closer
    let err = compile_err(vec![
        tok_at(TokenType::InlineMathStart, "\\[", 2),
        tok_at(TokenType::Text, "x", 2),
    ]);
    assert_eq!(
        err,
        VestiErr::ParseErr {
            err_kind: VestiParseErrKind::BracketMismatchErr { expected: TokenType::TextMathEnd },
            location: span_at(2),
        }
    );
}

#[test]
fn unclosed_brace_group() {
    let err = compile_err(vec![
        tok_at(TokenType::Lbrace, "{", 3),
        tok_at(TokenType::Text, "x", 3),
    ]);
    assert_eq!(
        err,
        VestiErr::ParseErr { err_kind: VestiParseErrKind::EOFErr, location: span_at(3) }
    );
}

#[test]
fn unclosed_function_definition() {
    let err = compile_err(vec![
        tok_at(TokenType::FunctionDef, "defun", 1),
        tok_at(TokenType::Space, " ", 1),
        tok_at(TokenType::Text, "f", 1),
        tok_at(TokenType::Lparen, "(", 1),
        tok_at(TokenType::Rparen, ")", 1),
        tok_at(TokenType::Text, "b", 2),
    ]);
    assert_eq!(
        err,
        VestiErr::ParseErr {
            err_kind: VestiParseErrKind::IsNotClosedErr {
                open: TokenType::get_definition_start_list(),
                close: TokenType::EndDefinition,
            },
            location: span_at(1),
        }
    );
}

#[test]
fn environment_definition_without_ends_with() {
    let err = compile_err(vec![
        tok_at(TokenType::Defenv, "defenv", 1),
        tok_at(TokenType::Space, " ", 1),
        tok_at(TokenType::Text, "e", 1),
        tok_at(TokenType::Space, " ", 1),
        tok_at(TokenType::Text, "A", 1),
        tok_at(TokenType::EndDefinition, "enddef", 2),
    ]);
    assert_eq!(
        err,
        VestiErr::ParseErr {
            err_kind: VestiParseErrKind::IsNotClosedErr {
                open: vec![TokenType::Defenv, TokenType::Redefenv],
                close: TokenType::EndsWith,
            },
            location: span_at(1),
        }
    );
}

#[test]
fn docclass_missing_name() {
    let err = compile_err(vec![
        tok_at(TokenType::Docclass, "docclass", 1),
        tok_at(TokenType::Space, " ", 1),
        tok_at(TokenType::Lbrace, "{", 1),
    ]);
    assert_eq!(
        err,
        VestiErr::ParseErr {
            err_kind: VestiParseErrKind::NameMissErr { toktype: TokenType::Docclass },
            location: span_at(1),
        }
    );
}

#[test]
fn endenv_at_end_of_input() {
    let err = compile_err(vec![tok_at(TokenType::Endenv, "endenv", 6)]);
    assert_eq!(
        err,
        VestiErr::ParseErr { err_kind: VestiParseErrKind::EOFErr, location: span_at(6) }
    );
}

#[test]
fn unbalanced_option_list() {
    let err = compile_err(vec![
        tok_at(TokenType::Docclass, "docclass", 1),
        tok_at(TokenType::Space, " ", 1),
        tok_at(TokenType::Text, "a", 1),
        tok_at(TokenType::Lparen, "(", 1),
        tok_at(TokenType::Text, "x", 1),
    ]);
    assert_eq!(
        err,
        VestiErr::ParseErr {
            err_kind: VestiParseErrKind::BracketNumberMatchedErr,
            location: span_at(1),
        }
    );
}

#[test]
fn batch_import_rejects_other_separators() {
    let err = compile_err(vec![
        tok_at(TokenType::Import, "importpkg", 1),
        tok_at(TokenType::Space, " ", 1),
        tok_at(TokenType::Lbrace, "{", 1),
        tok_at(TokenType::Text, "a", 1),
        tok_at(TokenType::Star, "*", 1),
    ]);
    assert_eq!(
        err,
        VestiErr::ParseErr {
            err_kind: VestiParseErrKind::TypeMismatch {
                expected: vec![TokenType::Comma, TokenType::Rbrace],
                got: TokenType::Star,
            },
            location: span_at(1),
        }
    );
}

#[test]
fn nested_math_environments_clear_the_flag_early() {
    // known limitation, kept on purpose: the math flag is a single
    // boolean, so closing an inner math environment clears the outer
    // one's flag and a superscript after the inner close is rejected
    let err = compile_err(vec![
        tok_at(TokenType::Useenv, "useenv", 1),
        tok_at(TokenType::Space, " ", 1),
        tok_at(TokenType::Text, "equation", 1),
        tok_at(TokenType::Space, " ", 1),
        tok_at(TokenType::Lbrace, "{", 1),
        tok_at(TokenType::Useenv, "useenv", 2),
        tok_at(TokenType::Space, " ", 2),
        tok_at(TokenType::Text, "align", 2),
        tok_at(TokenType::Space, " ", 2),
        tok_at(TokenType::Lbrace, "{", 2),
        tok_at(TokenType::Text, "y", 2),
        tok_at(TokenType::Rbrace, "}", 2),
        tok_at(TokenType::Superscript, "^", 3),
        tok_at(TokenType::Rbrace, "}", 4),
    ]);
    assert_eq!(
        err,
        VestiErr::ParseErr {
            err_kind: VestiParseErrKind::IllegalUseErr { got: TokenType::Superscript },
            location: span_at(3),
        }
    );
}

#[test]
fn environment_definition_bad_argument_count() {
    let err = compile_err(vec![
        tok_at(TokenType::Defenv, "defenv", 1),
        tok_at(TokenType::Space, " ", 1),
        tok_at(TokenType::Text, "e", 1),
        tok_at(TokenType::Lsqbrace, "[", 1),
        tok_at(TokenType::Integer, "300", 2),
    ]);
    assert_eq!(
        err,
        VestiErr::ParseErr { err_kind: VestiParseErrKind::ParseIntErr, location: span_at(2) }
    );
}
