use vesti::ast::{ArgNeed, DelimiterKind, MathState, Statement, TrimWhitespace};
use vesti::numlit::{check_float_literal, i64_to_string, parse_i64_literal, parse_u8_literal};
use vesti::token::FunctionDefKind;
use vesti::trim::trim_string;

fn mtext(s: &str) -> Statement {
    Statement::MainText(s.to_string())
}

fn render_def(long: bool, outer: bool, expand: bool, global: bool) -> String {
    Statement::FunctionDefine {
        kind: FunctionDefKind { long, outer, expand, global },
        name: "x".to_string(),
        args: String::new(),
        trim: TrimWhitespace { start: false, mid: None, end: false },
        body: Vec::new(),
    }
    .to_string()
}

fn render_trimmed(start: bool, end: bool) -> String {
    Statement::FunctionDefine {
        kind: FunctionDefKind { long: false, outer: false, expand: false, global: false },
        name: "t".to_string(),
        args: String::new(),
        trim: TrimWhitespace { start, mid: None, end },
        body: vec![mtext("  hello  ")],
    }
    .to_string()
}

#[test]
fn simple_statements_render() {
    assert_eq!(Statement::NopStmt.to_string(), "");
    assert_eq!(Statement::NonStopMode.to_string(), "\\nonstopmode\n");
    assert_eq!(Statement::DocumentStart.to_string(), "\\begin{document}\n");
    assert_eq!(Statement::DocumentEnd.to_string(), "\n\\end{document}\n");
    assert_eq!(mtext("plain").to_string(), "plain");
    assert_eq!(Statement::RawLatex("\\raw{1}".to_string()).to_string(), "\\raw{1}");
}

#[test]
fn docclass_renders_with_and_without_options() {
    let plain = Statement::DocumentClass { name: "article".to_string(), options: None };
    assert_eq!(plain.to_string(), "\\documentclass{article}\n");
    let with_opts = Statement::DocumentClass {
        name: "article".to_string(),
        options: Some(vec![vec![mtext("a4paper")], vec![mtext("12pt")]]),
    };
    assert_eq!(with_opts.to_string(), "\\documentclass[a4paper,12pt]{article}\n");
}

#[test]
fn usepackage_options_keep_order_no_trailing_comma() {
    let s = Statement::Usepackage {
        name: "geometry".to_string(),
        options: Some(vec![vec![mtext("top")], vec![mtext("left")], vec![mtext("right")]]),
    };
    let out = s.to_string();
    assert_eq!(out, "\\usepackage[top,left,right]{geometry}\n");
    assert!(!out.contains(",]"));
}

#[test]
fn multi_usepackages_render_each_member() {
    let s = Statement::MultiUsepackages {
        pkgs: vec![
            Statement::Usepackage { name: "amsmath".to_string(), options: None },
            Statement::Usepackage { name: "amssymb".to_string(), options: None },
        ],
    };
    assert_eq!(s.to_string(), "\\usepackage{amsmath}\n\\usepackage{amssymb}\n");
}

#[test]
fn integer_and_float_render() {
    assert_eq!(Statement::Integer(0).to_string(), "0");
    assert_eq!(Statement::Integer(-42).to_string(), "-42");
    assert_eq!(
        Statement::Integer(i64::MIN).to_string(),
        "-9223372036854775808"
    );
    assert_eq!(Statement::Integer(i64::MAX).to_string(), "9223372036854775807");
    assert_eq!(Statement::Float("3.14".to_string()).to_string(), "3.14");
}

#[test]
fn fraction_and_braced_render() {
    let f = Statement::Fraction { numerator: vec![mtext("1")], denominator: vec![mtext("2")] };
    assert_eq!(f.to_string(), "\\frac{1}{2}");
    assert_eq!(Statement::BracedStmt(vec![mtext("x")]).to_string(), "{x}");
}

#[test]
fn math_regions_render() {
    let t = Statement::MathText { state: MathState::Text, text: vec![mtext("x")] };
    assert_eq!(t.to_string(), "$x$");
    let i = Statement::MathText { state: MathState::Inline, text: vec![mtext("y")] };
    assert_eq!(i.to_string(), "\\[y\\]");
    let p = Statement::PlainTextInMath { text: vec![mtext("hi")] };
    assert_eq!(p.to_string(), "\\text{hi}");
}

#[test]
fn math_delimiters_render() {
    let d = Statement::MathDelimiter { delimiter: "(".to_string(), kind: DelimiterKind::Default };
    assert_eq!(d.to_string(), "(");
    let l = Statement::MathDelimiter { delimiter: "(".to_string(), kind: DelimiterKind::LeftBig };
    assert_eq!(l.to_string(), "\\left(");
    let r = Statement::MathDelimiter { delimiter: ")".to_string(), kind: DelimiterKind::RightBig };
    assert_eq!(r.to_string(), "\\right)");
}

#[test]
fn environment_renders_args_then_body() {
    let s = Statement::Environment {
        name: "center".to_string(),
        args: vec![(ArgNeed::MainArg, vec![mtext("a")])],
        text: vec![mtext("b")],
    };
    assert_eq!(s.to_string(), "\\begin{center}{a}b\\end{center}\n");
}

#[test]
fn phantom_environments_render() {
    let b = Statement::BeginPhantomEnvironment {
        name: "center".to_string(),
        args: Vec::new(),
        add_newline: false,
    };
    assert_eq!(b.to_string(), "\\begin{center}");
    let bn = Statement::BeginPhantomEnvironment {
        name: "center".to_string(),
        args: vec![(ArgNeed::Optional, vec![mtext("o")])],
        add_newline: true,
    };
    assert_eq!(bn.to_string(), "\\begin{center}\n[o]");
    let e = Statement::EndPhantomEnvironment { name: "center".to_string() };
    assert_eq!(e.to_string(), "\\end{center}");
}

#[test]
fn command_star_optional_main_in_order() {
    let s = Statement::LatexFunction {
        name: "\\foo".to_string(),
        args: vec![
            (ArgNeed::StarArg, Vec::new()),
            (ArgNeed::Optional, vec![mtext("opt")]),
            (ArgNeed::MainArg, vec![mtext("main")]),
        ],
    };
    assert_eq!(s.to_string(), "\\foo*[opt]{main}");
}

#[test]
fn sixteen_definition_styles_prefix_order() {
    assert_eq!(render_def(false, false, false, false), "\\def\\x{%\n}\n");
    assert_eq!(render_def(true, false, false, false), "\\long\\def\\x{%\n}\n");
    assert_eq!(render_def(false, true, false, false), "\\outer\\def\\x{%\n}\n");
    assert_eq!(render_def(true, true, false, false), "\\long\\outer\\def\\x{%\n}\n");
    assert_eq!(render_def(false, false, true, false), "\\edef\\x{%\n}\n");
    assert_eq!(render_def(true, false, true, false), "\\long\\edef\\x{%\n}\n");
    assert_eq!(render_def(false, true, true, false), "\\outer\\edef\\x{%\n}\n");
    assert_eq!(render_def(true, true, true, false), "\\long\\outer\\edef\\x{%\n}\n");
    assert_eq!(render_def(false, false, false, true), "\\gdef\\x{%\n}\n");
    assert_eq!(render_def(true, false, false, true), "\\long\\gdef\\x{%\n}\n");
    assert_eq!(render_def(false, true, false, true), "\\outer\\gdef\\x{%\n}\n");
    assert_eq!(render_def(true, true, false, true), "\\long\\outer\\gdef\\x{%\n}\n");
    assert_eq!(render_def(false, false, true, true), "\\xdef\\x{%\n}\n");
    assert_eq!(render_def(true, false, true, true), "\\long\\xdef\\x{%\n}\n");
    assert_eq!(render_def(false, true, true, true), "\\outer\\xdef\\x{%\n}\n");
    assert_eq!(render_def(true, true, true, true), "\\long\\outer\\xdef\\x{%\n}\n");
    for long in [false, true] {
        for outer in [false, true] {
            for expand in [false, true] {
                for global in [false, true] {
                    let out = render_def(long, outer, expand, global);
                    assert!(!out.contains("\\outer\\long"));
                }
            }
        }
    }
}

#[test]
fn trim_flag_combinations() {
    assert_eq!(render_trimmed(false, false), "\\def\\t{  hello  %\n}\n");
    assert_eq!(render_trimmed(false, true), "\\def\\t{  hello%\n}\n");
    assert_eq!(render_trimmed(true, false), "\\def\\t{%\nhello  %\n}\n");
    assert_eq!(render_trimmed(true, true), "\\def\\t{%\nhello%\n}\n");
}

#[test]
fn environment_definition_renders() {
    let s = Statement::EnvironmentDefine {
        is_redefine: false,
        name: "foo".to_string(),
        args_num: 2,
        optional_arg: Some(vec![mtext("dflt")]),
        trim: TrimWhitespace { start: true, mid: Some(true), end: true },
        begin_part: vec![mtext(" a ")],
        end_part: vec![mtext(" b ")],
    };
    assert_eq!(s.to_string(), "\\newenvironment{foo}[2][dflt]{a}{b}\n");
    let r = Statement::EnvironmentDefine {
        is_redefine: true,
        name: "foo".to_string(),
        args_num: 0,
        optional_arg: None,
        trim: TrimWhitespace { start: true, mid: Some(false), end: true },
        begin_part: vec![mtext(" a ")],
        end_part: vec![mtext(" b ")],
    };
    assert_eq!(r.to_string(), "\\renewenvironment{foo}{a }{ b}\n");
}

#[test]
fn trim_string_handles_unicode_whitespace() {
    assert_eq!(trim_string("  x  ", true, true), "x");
    assert_eq!(trim_string("  x  ", true, false), "x  ");
    assert_eq!(trim_string("  x  ", false, true), "  x");
    assert_eq!(trim_string("  x  ", false, false), "  x  ");
    assert_eq!(trim_string("\u{2003}x\u{2003}", true, true), "x");
    assert_eq!(trim_string("\t\n", true, true), "");
    assert_eq!(trim_string("", true, true), "");
}

#[test]
fn integer_literals_parse_exactly() {
    assert_eq!(parse_i64_literal("0"), Some(0));
    assert_eq!(parse_i64_literal("+5"), Some(5));
    assert_eq!(parse_i64_literal("-17"), Some(-17));
    assert_eq!(parse_i64_literal("007"), Some(7));
    assert_eq!(parse_i64_literal("9223372036854775807"), Some(i64::MAX));
    assert_eq!(parse_i64_literal("-9223372036854775808"), Some(i64::MIN));
    assert_eq!(parse_i64_literal("9223372036854775808"), None);
    assert_eq!(parse_i64_literal("-9223372036854775809"), None);
    assert_eq!(parse_i64_literal(""), None);
    assert_eq!(parse_i64_literal("-"), None);
    assert_eq!(parse_i64_literal("3a"), None);
    assert_eq!(i64_to_string(-42), "-42");
    assert_eq!(i64_to_string(0), "0");
    assert_eq!(i64_to_string(i64::MIN), "-9223372036854775808");
}

#[test]
fn u8_literals_parse_exactly() {
    assert_eq!(parse_u8_literal("0"), Some(0));
    assert_eq!(parse_u8_literal("255"), Some(255));
    assert_eq!(parse_u8_literal("256"), None);
    assert_eq!(parse_u8_literal("-0"), None);
    assert_eq!(parse_u8_literal("+9"), Some(9));
    assert_eq!(parse_u8_literal(""), None);
}

#[test]
fn float_literal_shapes() {
    assert!(check_float_literal("1.5"));
    assert!(check_float_literal("-0.5"));
    assert!(check_float_literal("+2.25"));
    assert!(check_float_literal("1."));
    assert!(check_float_literal(".5"));
    assert!(check_float_literal("12"));
    assert!(check_float_literal("1e5"));
    assert!(check_float_literal("1.5e-3"));
    assert!(check_float_literal("1E+4"));
    assert!(check_float_literal(".5e2"));
    assert!(check_float_literal("inf"));
    assert!(check_float_literal("INF"));
    assert!(check_float_literal("Infinity"));
    assert!(check_float_literal("nan"));
    assert!(check_float_literal("-NaN"));
    assert!(check_float_literal("+inf"));
    assert!(!check_float_literal("."));
    assert!(!check_float_literal("1.2.3"));
    assert!(!check_float_literal(""));
    assert!(!check_float_literal("abc"));
    assert!(!check_float_literal("-"));
    assert!(!check_float_literal("e5"));
    assert!(!check_float_literal("1e"));
    assert!(!check_float_literal("1e+"));
    assert!(!check_float_literal("1e2.5"));
    assert!(!check_float_literal("nan3"));
    assert!(!check_float_literal("infx"));
}

#[test]
fn scaffold_template_text() {
    assert_eq!(
        vesti::initialization::init_file_template(),
        "% This file is generated by vesti\ndocclass article\n\nstartdoc\n\nHello, World!\n"
    );
}
