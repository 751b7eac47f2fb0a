use vesti::ast::Statement;
use vesti::codegen::{make_latex_format, LatexEngineType};
use vesti::location::{Location, Span};
use vesti::parser::Parser;
use vesti::token::{Token, TokenType};

fn tk(toktype: TokenType, literal: &str) -> Token {
    Token {
        toktype,
        literal: literal.to_string(),
        span: Span { start: Location { row: 0, col: 0 }, end: Location { row: 0, col: 0 } },
    }
}

fn compile(tokens: Vec<Token>) -> String {
    let mut parser = Parser::new(tokens);
    make_latex_format(&mut parser, LatexEngineType::PdfLatex, true).unwrap()
}

#[test]
fn hello_world_minimal_program() {
    let out = compile(vec![
        tk(TokenType::Docclass, "docclass"),
        tk(TokenType::Space, " "),
        tk(TokenType::Text, "article"),
        tk(TokenType::Newline, "\n"),
        tk(TokenType::Newline, "\n"),
        tk(TokenType::StartDoc, "startdoc"),
        tk(TokenType::Newline, "\n"),
        tk(TokenType::Newline, "\n"),
        tk(TokenType::Text, "Hello,"),
        tk(TokenType::Space, " "),
        tk(TokenType::Text, "World!"),
    ]);
    assert!(out.contains("\\documentclass{article}"));
    assert!(out.contains("\\begin{document}"));
    assert!(out.ends_with("\\end{document}\n"));
    assert_eq!(
        out,
        "\\documentclass{article}\n\n\\begin{document}\nHello, World!\n\\end{document}\n"
    );
}

#[test]
fn usepackage_with_option_list() {
    let out = compile(vec![
        tk(TokenType::Import, "importpkg"),
        tk(TokenType::Space, " "),
        tk(TokenType::Text, "geometry"),
        tk(TokenType::Lparen, "("),
        tk(TokenType::Text, "top"),
        tk(TokenType::Comma, ","),
        tk(TokenType::Space, " "),
        tk(TokenType::Text, "bottom"),
        tk(TokenType::Rparen, ")"),
    ]);
    assert_eq!(out, "\\usepackage[top,bottom]{geometry}\n");
}

#[test]
fn multiple_usepackages_in_braces() {
    let out = compile(vec![
        tk(TokenType::Import, "importpkg"),
        tk(TokenType::Space, " "),
        tk(TokenType::Lbrace, "{"),
        tk(TokenType::Text, "amsmath"),
        tk(TokenType::Comma, ","),
        tk(TokenType::Newline, "\n"),
        tk(TokenType::Text, "amssymb"),
        tk(TokenType::Rbrace, "}"),
    ]);
    assert_eq!(out, "\\usepackage{amsmath}\n\\usepackage{amssymb}\n");
}

#[test]
fn program_without_startdoc_has_no_document_markers() {
    let out = compile(vec![tk(TokenType::Text, "hi")]);
    assert_eq!(out, "hi");
    assert!(!out.contains("\\begin{document}"));
    assert!(!out.contains("\\end{document}"));
}

#[test]
fn document_start_mode_suppresses_auto_end() {
    let out = compile(vec![
        tk(TokenType::DocumentStartMode, "startmode"),
        tk(TokenType::Newline, "\n"),
        tk(TokenType::Text, "x"),
    ]);
    assert_eq!(out, "x");
}

#[test]
fn nonstopmode_statement() {
    let out = compile(vec![tk(TokenType::NonStopMode, "nonstopmode"), tk(TokenType::Newline, "\n")]);
    assert_eq!(out, "\\nonstopmode\n");
}

#[test]
fn useenv_with_inline_body() {
    let out = compile(vec![
        tk(TokenType::Useenv, "useenv"),
        tk(TokenType::Space, " "),
        tk(TokenType::Text, "center"),
        tk(TokenType::Space, " "),
        tk(TokenType::Lbrace, "{"),
        tk(TokenType::Text, "hi"),
        tk(TokenType::Rbrace, "}"),
    ]);
    assert_eq!(out, "\\begin{center}hi\\end{center}\n");
}

#[test]
fn begenv_and_endenv_emit_markers_only() {
    let out = compile(vec![
        tk(TokenType::Begenv, "begenv"),
        tk(TokenType::Space, " "),
        tk(TokenType::Text, "center"),
        tk(TokenType::Newline, "\n"),
        tk(TokenType::Text, "x"),
        tk(TokenType::Newline, "\n"),
        tk(TokenType::Endenv, "endenv"),
        tk(TokenType::Space, " "),
        tk(TokenType::Text, "center"),
    ]);
    assert_eq!(out, "\\begin{center}x\n\\end{center}");
}

#[test]
fn starred_environment_name() {
    let out = compile(vec![
        tk(TokenType::Begenv, "begenv"),
        tk(TokenType::Space, " "),
        tk(TokenType::Text, "figure"),
        tk(TokenType::Star, "*"),
    ]);
    assert_eq!(out, "\\begin{figure*}");
}

#[test]
fn math_environment_allows_superscript() {
    let out = compile(vec![
        tk(TokenType::Useenv, "useenv"),
        tk(TokenType::Space, " "),
        tk(TokenType::Text, "equation"),
        tk(TokenType::Space, " "),
        tk(TokenType::Lbrace, "{"),
        tk(TokenType::Text, "x"),
        tk(TokenType::Superscript, "^"),
        tk(TokenType::Integer, "2"),
        tk(TokenType::Rbrace, "}"),
    ]);
    assert_eq!(out, "\\begin{equation}x^2\\end{equation}\n");
}

#[test]
fn text_math_region() {
    let out = compile(vec![
        tk(TokenType::TextMathStart, "$"),
        tk(TokenType::Text, "x"),
        tk(TokenType::TextMathEnd, "$"),
    ]);
    assert_eq!(out, "$x$");
}

#[test]
fn inline_math_region() {
    let out = compile(vec![
        tk(TokenType::InlineMathStart, "\\["),
        tk(TokenType::Text, "y"),
        tk(TokenType::InlineMathEnd, "\\]"),
    ]);
    assert_eq!(out, "\\[y\\]");
}

#[test]
fn plain_text_in_math_reattaches_trailing_space() {
    let out = compile(vec![
        tk(TokenType::MathTextStart, "\""),
        tk(TokenType::Text, "hi"),
        tk(TokenType::MathTextEnd, "\""),
        tk(TokenType::Space, " "),
    ]);
    assert_eq!(out, "\\text{hi }");
}

#[test]
fn fraction_inside_braces() {
    let out = compile(vec![
        tk(TokenType::Lbrace, "{"),
        tk(TokenType::Integer, "1"),
        tk(TokenType::FracDefiner, "//"),
        tk(TokenType::Integer, "2"),
        tk(TokenType::Rbrace, "}"),
    ]);
    assert_eq!(out, "\\frac{1}{2}");
}

#[test]
fn braced_group_without_divider() {
    let out = compile(vec![
        tk(TokenType::Lbrace, "{"),
        tk(TokenType::Text, "x"),
        tk(TokenType::Rbrace, "}"),
    ]);
    assert_eq!(out, "{x}");
}

#[test]
fn latex_function_star_optional_main() {
    let out = compile(vec![
        tk(TokenType::LatexFunction, "\\foo"),
        tk(TokenType::Star, "*"),
        tk(TokenType::OptionalBrace, "%["),
        tk(TokenType::Text, "opt"),
        tk(TokenType::Rsqbrace, "]"),
        tk(TokenType::Lbrace, "{"),
        tk(TokenType::Text, "main"),
        tk(TokenType::Rbrace, "}"),
    ]);
    assert_eq!(out, "\\foo*[opt]{main}");
}

#[test]
fn latex_function_argument_splitter() {
    let out = compile(vec![
        tk(TokenType::LatexFunction, "\\pair"),
        tk(TokenType::Lbrace, "{"),
        tk(TokenType::Text, "a"),
        tk(TokenType::ArgSpliter, "#"),
        tk(TokenType::Text, "b"),
        tk(TokenType::Rbrace, "}"),
    ]);
    assert_eq!(out, "\\pair{a}{b}");
}

#[test]
fn function_definition_with_parameter_text() {
    let out = compile(vec![
        tk(TokenType::FunctionDef, "defun"),
        tk(TokenType::Space, " "),
        tk(TokenType::Text, "foo"),
        tk(TokenType::Lparen, "("),
        tk(TokenType::ArgSpliter, "#"),
        tk(TokenType::Integer, "1"),
        tk(TokenType::Rparen, ")"),
        tk(TokenType::Space, " "),
        tk(TokenType::Text, "bar"),
        tk(TokenType::EndDefinition, "enddef"),
    ]);
    assert_eq!(out, "\\def\\foo#1{%\nbar%\n}\n");
}

#[test]
fn starred_function_definition_disables_trims() {
    let out = compile(vec![
        tk(TokenType::LongXFunctionDef, "ldefun"),
        tk(TokenType::Star, "*"),
        tk(TokenType::Space, " "),
        tk(TokenType::Text, "foo"),
        tk(TokenType::Lparen, "("),
        tk(TokenType::Rparen, ")"),
        tk(TokenType::Space, " "),
        tk(TokenType::Text, "b"),
        tk(TokenType::Space, " "),
        tk(TokenType::EndDefinition, "enddef"),
        tk(TokenType::Star, "*"),
    ]);
    assert_eq!(out, "\\long\\xdef\\foo{ b %\n}\n");
}

#[test]
fn environment_definition_program() {
    let out = compile(vec![
        tk(TokenType::Defenv, "defenv"),
        tk(TokenType::Space, " "),
        tk(TokenType::Text, "myenv"),
        tk(TokenType::Lsqbrace, "["),
        tk(TokenType::Integer, "1"),
        tk(TokenType::Rsqbrace, "]"),
        tk(TokenType::Space, " "),
        tk(TokenType::Text, "A"),
        tk(TokenType::EndsWith, "endswith"),
        tk(TokenType::Text, "B"),
        tk(TokenType::EndDefinition, "enddef"),
    ]);
    assert_eq!(out, "\\newenvironment{myenv}[1]{A}{B}\n");
}

#[test]
fn environment_definition_with_default_optional() {
    let out = compile(vec![
        tk(TokenType::Redefenv, "redefenv"),
        tk(TokenType::Space, " "),
        tk(TokenType::Text, "e"),
        tk(TokenType::Lsqbrace, "["),
        tk(TokenType::Integer, "2"),
        tk(TokenType::Comma, ","),
        tk(TokenType::Space, " "),
        tk(TokenType::Text, "dft"),
        tk(TokenType::Rsqbrace, "]"),
        tk(TokenType::Space, " "),
        tk(TokenType::Text, "A"),
        tk(TokenType::EndsWith, "endswith"),
        tk(TokenType::Text, "B"),
        tk(TokenType::EndDefinition, "enddef"),
    ]);
    assert_eq!(out, "\\renewenvironment{e}[2][dft]{A}{B}\n");
}

#[test]
fn integer_and_float_literals_through_parser() {
    let out = compile(vec![
        tk(TokenType::Integer, "007"),
        tk(TokenType::Space, " "),
        tk(TokenType::Float, "2.50"),
    ]);
    assert_eq!(out, "7 2.50");
}

#[test]
fn exponent_and_special_float_literals_parse() {
    let out = compile(vec![
        tk(TokenType::Float, "1e5"),
        tk(TokenType::Space, " "),
        tk(TokenType::Float, "inf"),
    ]);
    assert_eq!(out, "1e5 inf");
}

#[test]
fn parse_latex_returns_statements() {
    let mut parser = Parser::new(vec![tk(TokenType::Integer, "5"), tk(TokenType::Text, "a")]);
    let latex = parser.parse_latex().unwrap();
    assert_eq!(
        latex,
        vec![Statement::Integer(5), Statement::MainText("a".to_string())]
    );
}

#[test]
fn parameter_text_reinserts_separating_spaces() {
    // a leading text token and any keyword get a space put back in front
    let out = compile(vec![
        tk(TokenType::FunctionDef, "defun"),
        tk(TokenType::Space, " "),
        tk(TokenType::Text, "foo"),
        tk(TokenType::Lparen, "("),
        tk(TokenType::Text, "x"),
        tk(TokenType::Space, " "),
        tk(TokenType::Text, "y"),
        tk(TokenType::Rparen, ")"),
        tk(TokenType::Space, " "),
        tk(TokenType::EndDefinition, "enddef"),
    ]);
    assert_eq!(out, "\\def\\foo x y{%\n%\n}\n");
}

#[test]
fn environment_with_main_argument() {
    let out = compile(vec![
        tk(TokenType::Useenv, "useenv"),
        tk(TokenType::Space, " "),
        tk(TokenType::Text, "tabular"),
        tk(TokenType::Lparen, "("),
        tk(TokenType::Text, "cc"),
        tk(TokenType::Rparen, ")"),
        tk(TokenType::Lbrace, "{"),
        tk(TokenType::Text, "x"),
        tk(TokenType::Rbrace, "}"),
    ]);
    assert_eq!(out, "\\begin{tabular}{cc}x\\end{tabular}\n");
}

#[test]
fn empty_program_renders_to_nothing() {
    assert_eq!(compile(Vec::new()), "");
}

#[test]
fn docclass_with_option_list() {
    let out = compile(vec![
        tk(TokenType::Docclass, "docclass"),
        tk(TokenType::Space, " "),
        tk(TokenType::Text, "article"),
        tk(TokenType::Lparen, "("),
        tk(TokenType::Text, "a4paper"),
        tk(TokenType::Comma, ","),
        tk(TokenType::Space, " "),
        tk(TokenType::Text, "12pt"),
        tk(TokenType::Rparen, ")"),
    ]);
    assert_eq!(out, "\\documentclass[a4paper,12pt]{article}\n");
}

#[test]
fn nested_function_definitions() {
    let out = compile(vec![
        tk(TokenType::FunctionDef, "defun"),
        tk(TokenType::Space, " "),
        tk(TokenType::Text, "a"),
        tk(TokenType::Lparen, "("),
        tk(TokenType::Rparen, ")"),
        tk(TokenType::Space, " "),
        tk(TokenType::FunctionDef, "defun"),
        tk(TokenType::Space, " "),
        tk(TokenType::Text, "b"),
        tk(TokenType::Lparen, "("),
        tk(TokenType::Rparen, ")"),
        tk(TokenType::Space, " "),
        tk(TokenType::Text, "y"),
        tk(TokenType::Space, " "),
        tk(TokenType::EndDefinition, "enddef"),
        tk(TokenType::Space, " "),
        tk(TokenType::Text, "z"),
        tk(TokenType::Space, " "),
        tk(TokenType::EndDefinition, "enddef"),
    ]);
    assert_eq!(out, "\\def\\a{%\n\\def\\b{%\ny%\n}\n z%\n}\n");
}

#[test]
fn nested_environment_definitions() {
    let out = compile(vec![
        tk(TokenType::Defenv, "defenv"),
        tk(TokenType::Space, " "),
        tk(TokenType::Text, "outer"),
        tk(TokenType::Space, " "),
        tk(TokenType::Text, "A"),
        tk(TokenType::EndsWith, "endswith"),
        tk(TokenType::Defenv, "defenv"),
        tk(TokenType::Space, " "),
        tk(TokenType::Text, "inner"),
        tk(TokenType::Space, " "),
        tk(TokenType::Text, "B"),
        tk(TokenType::EndsWith, "endswith"),
        tk(TokenType::Text, "C"),
        tk(TokenType::EndDefinition, "enddef"),
        tk(TokenType::EndDefinition, "enddef"),
    ]);
    // the outer end-trim removes the newline the inner definition ends
    // with
    assert_eq!(
        out,
        "\\newenvironment{outer}{A}{\\newenvironment{inner}{B}{C}}\n"
    );
}

#[test]
fn banner_names_tool_and_engine() {
    let mut parser = Parser::new(vec![tk(TokenType::Text, "x")]);
    let out = make_latex_format(&mut parser, LatexEngineType::XeLatex, false).unwrap();
    assert!(out.starts_with("%\n%  vesti"));
    assert!(out.contains("xelatex engine"));
    assert!(out.ends_with(" engine\n%\nx"));
}
