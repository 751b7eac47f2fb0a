//! The code generator: a pure, depth-first, left-to-right renderer from
//! the statement tree to LaTeX text, one rule per statement shape.  The
//! spec functions here state the exact text each shape renders to; every
//! executable renderer is proved equal to them.
use vstd::prelude::*;

use vstd::string::StringExecFns;

use crate::ast::ArgNeed;
use crate::ast::Latex;
use crate::ast::MathState;
use crate::ast::DelimiterKind;
use crate::ast::Statement;
use crate::ast::TrimWhitespace;
use crate::ast::args_size;
use crate::ast::args_wf;
use crate::ast::latex_size;
use crate::ast::latex_wf;
use crate::ast::lemma_args_elem_size;
use crate::ast::lemma_args_size_pos;
use crate::ast::lemma_latex_elem_size;
use crate::ast::lemma_latex_size_pos;
use crate::ast::lemma_optvec_elem_size;
use crate::ast::opt_latex_size;
use crate::ast::opts_size;
use crate::ast::opts_wf;
use crate::ast::stmt_size;
use crate::ast::stmt_wf;
use crate::error::VestiErr;
use crate::numlit::int_text;
use crate::numlit::nat_text;
use crate::numlit::i64_to_string;
use crate::numlit::u64_to_string;
use crate::parser::Parser;
use crate::parser::literals_text;
use crate::token::FunctionDefKind;
use crate::token::Token;
use crate::token::TokenType;
use crate::trim::trim_string;
use crate::trim::trim_text;

verus! {

/// The LaTeX engine the output banner names.
#[derive(Debug, Clone, Copy, PartialEq, Eq, Structural)]
pub enum LatexEngineType {
    Latex,
    PdfLatex,
    XeLatex,
    LuaLatex,
    Tectonic,
}

pub open spec fn engine_name_text(e: LatexEngineType) -> Seq<char> {
    match e {
        LatexEngineType::Latex => "latex"@,
        LatexEngineType::PdfLatex => "pdflatex"@,
        LatexEngineType::XeLatex => "xelatex"@,
        LatexEngineType::LuaLatex => "lualatex"@,
        LatexEngineType::Tectonic => "tectonic"@,
    }
}

impl LatexEngineType {
    pub fn name(self) -> (r: &'static str)
        ensures
            r@ == engine_name_text(self),
    {
        match self {
            LatexEngineType::Latex => "latex",
            LatexEngineType::PdfLatex => "pdflatex",
            LatexEngineType::XeLatex => "xelatex",
            LatexEngineType::LuaLatex => "lualatex",
            LatexEngineType::Tectonic => "tectonic",
        }
    }
}

/// The three comment lines put in front of the output, naming the tool
/// and the engine the file is meant for.
pub open spec fn banner_text(e: LatexEngineType) -> Seq<char> {
    "%\n%  vesti 0.1.0 output\n%  Compile this file using "@ + engine_name_text(e)
        + " engine\n%\n"@
}

/// The option groups rendered and joined with commas, no trailing comma.
pub open spec fn comma_join(opts: Seq<Latex>) -> Seq<char>
    decreases opts,
{
    if opts.len() == 0 {
        Seq::empty()
    } else if opts.len() == 1 {
        latex_text(opts[0]@)
    } else {
        comma_join(opts.drop_last()) + ","@ + latex_text(opts[opts.len() - 1]@)
    }
}

/// The rendered option list of a `docclass` / `importpkg` statement.
pub open spec fn opts_rendered(options: Option<Vec<Latex>>) -> Option<Seq<char>>
    decreases options,
{
    match options {
        Option::None => Option::None,
        Option::Some(opts) => Option::Some(comma_join(opts@)),
    }
}

pub open spec fn docclass_text(name: Seq<char>, opts: Option<Seq<char>>) -> Seq<char> {
    match opts {
        Option::None => "\\documentclass{"@ + name + "}\n"@,
        Option::Some(o) => "\\documentclass["@ + o + "]{"@ + name + "}\n"@,
    }
}

pub open spec fn usepackage_text(name: Seq<char>, opts: Option<Seq<char>>) -> Seq<char> {
    match opts {
        Option::None => "\\usepackage{"@ + name + "}\n"@,
        Option::Some(o) => "\\usepackage["@ + o + "]{"@ + name + "}\n"@,
    }
}

/// A package-import batch renders each `Usepackage` member in order;
/// anything else in the batch renders to nothing.
pub open spec fn multi_usepackages_text(pkgs: Seq<Statement>) -> Seq<char>
    decreases pkgs,
{
    if pkgs.len() == 0 {
        Seq::empty()
    } else {
        multi_usepackages_text(pkgs.drop_last()) + match pkgs[pkgs.len() - 1] {
            Statement::Usepackage { name, options } => usepackage_text(
                name@,
                opts_rendered(options),
            ),
            _ => Seq::empty(),
        }
    }
}

/// One argument: its body inside the delimiters its kind dictates.
pub open spec fn arg_text(need: ArgNeed, body: Seq<char>) -> Seq<char> {
    match need {
        ArgNeed::MainArg => "{"@ + body + "}"@,
        ArgNeed::Optional => "["@ + body + "]"@,
        ArgNeed::StarArg => "*"@,
    }
}

/// An argument list, rendered in exactly its stored order.
pub open spec fn args_text(args: Seq<(ArgNeed, Vec<Statement>)>) -> Seq<char>
    decreases args,
{
    if args.len() == 0 {
        Seq::empty()
    } else {
        args_text(args.drop_last()) + arg_text(
            args[args.len() - 1].0,
            latex_text(args[args.len() - 1].1@),
        )
    }
}

pub open spec fn math_text_text(state: MathState, body: Seq<char>) -> Seq<char> {
    match state {
        MathState::Text => "$"@ + body + "$"@,
        MathState::Inline => "\\["@ + body + "\\]"@,
    }
}

pub open spec fn math_delimiter_text(delimiter: Seq<char>, kind: DelimiterKind) -> Seq<char> {
    match kind {
        DelimiterKind::Default => delimiter,
        DelimiterKind::LeftBig => "\\left"@ + delimiter,
        DelimiterKind::RightBig => "\\right"@ + delimiter,
    }
}

pub open spec fn fraction_text(numerator: Seq<char>, denominator: Seq<char>) -> Seq<char> {
    "\\frac{"@ + numerator + "}{"@ + denominator + "}"@
}

/// The primitive prefix of a macro definition: `\long` first, then
/// `\outer`, then the definer keyword.
pub open spec fn fndef_prefix(kind: FunctionDefKind) -> Seq<char> {
    (if kind.long {
        "\\long"@
    } else {
        Seq::<char>::empty()
    }) + (if kind.outer {
        "\\outer"@
    } else {
        Seq::<char>::empty()
    }) + fndef_command(kind)
}

/// The definer keyword of a macro definition.
pub open spec fn fndef_command(kind: FunctionDefKind) -> Seq<char> {
    if kind.expand && kind.global {
        "\\xdef"@
    } else if kind.global {
        "\\gdef"@
    } else if kind.expand {
        "\\edef"@
    } else {
        "\\def"@
    }
}

/// A whole macro definition: prefix, `\name`, the raw parameter text,
/// then the body trimmed by the start/end flags inside `{ ... %\n}`.
pub open spec fn function_def_text(
    kind: FunctionDefKind,
    name: Seq<char>,
    params: Seq<char>,
    trim: TrimWhitespace,
    body: Seq<char>,
) -> Seq<char> {
    fndef_prefix(kind) + "\\"@ + name + params + "{"@ + (if trim.start {
        "%\n"@
    } else {
        Seq::<char>::empty()
    }) + trim_text(body, trim.start, trim.end) + "%\n}\n"@
}

/// A whole environment definition.  The `start` flag trims the front of
/// the begin part, the `mid` flag trims the back of the begin part and
/// the front of the end part, and the `end` flag trims the back of the
/// end part.
pub open spec fn environment_def_text(
    is_redefine: bool,
    name: Seq<char>,
    args_num: u8,
    opt: Option<Seq<char>>,
    trim: TrimWhitespace,
    begin_body: Seq<char>,
    end_body: Seq<char>,
) -> Seq<char> {
    let mid = match trim.mid {
        Option::Some(b) => b,
        Option::None => false,
    };
    (if is_redefine {
        "\\renewenvironment{"@
    } else {
        "\\newenvironment{"@
    }) + name + "}"@ + (if args_num > 0 {
        "["@ + nat_text(args_num as nat) + "]"@ + (match opt {
            Option::Some(o) => "["@ + o + "]{"@,
            Option::None => "{"@,
        })
    } else {
        "{"@
    }) + trim_text(begin_body, trim.start, mid) + "}{"@ + trim_text(end_body, mid, trim.end)
        + "}\n"@
}

pub open spec fn environment_text(name: Seq<char>, args: Seq<char>, body: Seq<char>) -> Seq<char> {
    "\\begin{"@ + name + "}"@ + args + body + "\\end{"@ + name + "}\n"@
}

pub open spec fn begin_phantom_text(name: Seq<char>, args: Seq<char>, add_newline: bool) -> Seq<
    char,
> {
    "\\begin{"@ + name + "}"@ + (if add_newline {
        "\n"@
    } else {
        Seq::<char>::empty()
    }) + args
}

/// The text one statement renders to.
pub open spec fn stmt_text(s: Statement) -> Seq<char>
    decreases s,
{
    match s {
        Statement::NopStmt => Seq::empty(),
        Statement::NonStopMode => "\\nonstopmode\n"@,
        Statement::DocumentClass { name, options } => docclass_text(name@, opts_rendered(options)),
        Statement::Usepackage { name, options } => usepackage_text(name@, opts_rendered(options)),
        Statement::MultiUsepackages { pkgs } => multi_usepackages_text(pkgs@),
        Statement::DocumentStart => "\\begin{document}\n"@,
        Statement::DocumentEnd => "\n\\end{document}\n"@,
        Statement::MainText(t) => t@,
        Statement::Integer(i) => int_text(i as int),
        Statement::Float(lit) => lit@,
        Statement::RawLatex(t) => t@,
        Statement::BracedStmt(l) => "{"@ + latex_text(l@) + "}"@,
        Statement::MathDelimiter { delimiter, kind } => math_delimiter_text(delimiter@, kind),
        Statement::Fraction { numerator, denominator } => fraction_text(
            latex_text(numerator@),
            latex_text(denominator@),
        ),
        Statement::PlainTextInMath { text } => "\\text{"@ + latex_text(text@) + "}"@,
        Statement::MathText { state, text } => math_text_text(state, latex_text(text@)),
        Statement::LatexFunction { name, args } => name@ + args_text(args@),
        Statement::Environment { name, args, text } => environment_text(
            name@,
            args_text(args@),
            latex_text(text@),
        ),
        Statement::BeginPhantomEnvironment { name, args, add_newline } => begin_phantom_text(
            name@,
            args_text(args@),
            add_newline,
        ),
        Statement::EndPhantomEnvironment { name } => "\\end{"@ + name@ + "}"@,
        Statement::FunctionDefine { kind, name, args, trim, body } => function_def_text(
            kind,
            name@,
            args@,
            trim,
            latex_text(body@),
        ),
        Statement::EnvironmentDefine {
            is_redefine,
            name,
            args_num,
            optional_arg,
            trim,
            begin_part,
            end_part,
        } => environment_def_text(
            is_redefine,
            name@,
            args_num,
            match optional_arg {
                Option::None => Option::None,
                Option::Some(inner) => Option::Some(latex_text(inner@)),
            },
            trim,
            latex_text(begin_part@),
            latex_text(end_part@),
        ),
    }
}

/// The text a statement sequence renders to: each statement's text, in
/// order.
pub open spec fn latex_text(l: Seq<Statement>) -> Seq<char>
    decreases l,
{
    if l.len() == 0 {
        Seq::empty()
    } else {
        latex_text(l.drop_last()) + stmt_text(l[l.len() - 1])
    }
}

/// A sequence of main-text statements renders to the concatenation of
/// the literals it was read from, in order.
pub proof fn lemma_latex_text_of_main_texts(v: Seq<Statement>, toks: Seq<Token>, p0: int)
    requires
        forall|k: int|
            0 <= k < v.len() ==> ((#[trigger] v[k]) matches Statement::MainText(txt) && txt@
                == toks[p0 + k].literal@),
    ensures
        latex_text(v) == crate::parser::literals_text(toks, p0, p0 + v.len()),
    decreases v.len(),
{
    if v.len() > 0 {
        assert(forall|k: int|
            0 <= k < v.len() - 1 ==> #[trigger] v.drop_last()[k] == v[k]);
        lemma_latex_text_of_main_texts(v.drop_last(), toks, p0);
        let last = v[v.len() - 1];
        assert(last matches Statement::MainText(txt) && txt@ == toks[p0 + v.len() - 1].literal@);
        match last {
            Statement::MainText(txt) => {
                assert(stmt_text(last) == txt@);
            },
            _ => {
                assert(false);
            },
        }
        assert(latex_text(v) == latex_text(v.drop_last()) + stmt_text(last));
        assert(literals_text(toks, p0, p0 + v.len()) == literals_text(toks, p0, p0 + v.len() - 1)
            + toks[p0 + v.len() - 1].literal@);
    }
}

/// The run's result against one parse outcome: a successful run is
/// exactly the rendering of a successful parse (with the banner in
/// front unless byte-stable output is required), and a failed run
/// returns the parse's error unchanged.
pub open spec fn render_matches_parse(
    r: Result<String, VestiErr>,
    pr: Result<Seq<Statement>, VestiErr>,
    engine: LatexEngineType,
    is_test: bool,
) -> bool {
    match (r, pr) {
        (Result::Ok(s), Result::Ok(v)) => s@ == (if is_test {
            Seq::<char>::empty()
        } else {
            banner_text(engine)
        }) + latex_text(v),
        (Result::Err(e), Result::Err(pe)) => e == pe,
        _ => false,
    }
}

/// What a successful whole-file run produced: the banner (absent in
/// byte-stable test mode) followed by the rendering of a parsed statement
/// sequence that satisfies the parser's structural guarantees.
pub open spec fn make_latex_format_post(
    out: Seq<char>,
    v: Seq<Statement>,
    engine: LatexEngineType,
    is_test: bool,
    post: Parser,
) -> bool {
    &&& out == (if is_test {
        Seq::<char>::empty()
    } else {
        banner_text(engine)
    }) + latex_text(v)
    &&& crate::ast::latex_wf(v)
    &&& crate::parser::count_doc_starts(v) <= 1
    &&& (!post.doc_state.doc_start ==> forall|i: int|
        #![trigger v[i]]
        0 <= i < v.len() ==> !(v[i] is DocumentStart))
    &&& (crate::parser::appends_doc_end(post) ==> v.len() > 0 && v[v.len() - 1] is DocumentEnd
        && forall|i: int| #![trigger v[i]] 0 <= i < v.len() - 1 ==> !(v[i] is DocumentEnd))
    &&& (!crate::parser::appends_doc_end(post) ==> forall|i: int|
        #![trigger v[i]]
        0 <= i < v.len() ==> !(v[i] is DocumentEnd))
}

/// Parses the whole token stream and renders it into one LaTeX source
/// string, prepending the banner unless byte-stable output is required.
#[verifier::spinoff_prover]
#[verifier::rlimit(50)]
pub fn make_latex_format(parser: &mut Parser, latex_type: LatexEngineType, is_test: bool) -> (r:
    Result<String, VestiErr>)
    requires
        old(parser).wf(),
    ensures
        crate::parser::frame(*old(parser), *final(parser)),
        match r {
            Result::Ok(s) => exists|v: Seq<Statement>|
                #[trigger] make_latex_format_post(s@, v, latex_type, is_test, *final(parser)),
            Result::Err(_) => true,
        },
        // the output is tied to an actual parse outcome between exactly
        // these parser states: its rendering on success, its error
        // unchanged on failure
        exists|pr: Result<Seq<Statement>, VestiErr>|
            #[trigger] crate::parser::parse_latex_post(*old(parser), *final(parser), pr)
                && render_matches_parse(r, pr, latex_type, is_test),
        // an always-illegal first token fails the whole run with exactly
        // the parse's error
        crate::parser::halts_on_entry(*old(parser), r),
        // exhausted input yields exactly the banner plus a possible
        // document end
        old(parser).spec_peek() == TokenType::Eof ==> (r matches Ok(s) && s@ == (if is_test {
            Seq::<char>::empty()
        } else {
            banner_text(latex_type)
        }) + (if crate::parser::appends_doc_end(*old(parser)) {
            "\n\\end{document}\n"@
        } else {
            Seq::<char>::empty()
        })),
        // a stream of tokens that no production claims yields exactly the
        // banner plus the literals, in order, plus a possible document end
        ({
            let toks = old(parser).toks@;
            let p0 = old(parser).pos as int;
            (forall|j: int|
                p0 <= j < toks.len() ==> crate::parser::plain_tok(
                    (#[trigger] toks[j]).toktype,
                )) ==> (r matches Ok(s) && s@ == (if is_test {
                Seq::<char>::empty()
            } else {
                banner_text(latex_type)
            }) + crate::parser::literals_text(toks, p0, toks.len() as int) + (
            if crate::parser::appends_doc_end(*old(parser)) {
                "\n\\end{document}\n"@
            } else {
                Seq::<char>::empty()
            }))
        }),
{
    let latex = match parser.parse_latex() {
        Result::Ok(v) => v,
        Result::Err(e) => {
            let ghost ge = e;
            let res: Result<String, VestiErr> = Err(e);
            proof {
                assert(exists|pr: Result<Seq<Statement>, VestiErr>|
                    #[trigger] crate::parser::parse_latex_post(*old(parser), *parser, pr)
                        && render_matches_parse(res, pr, latex_type, is_test)) by {
                    assert(crate::parser::parse_latex_post(
                        *old(parser),
                        *parser,
                        Result::<Seq<Statement>, VestiErr>::Err(ge),
                    ) && render_matches_parse(
                        res,
                        Result::<Seq<Statement>, VestiErr>::Err(ge),
                        latex_type,
                        is_test,
                    ));
                }
            }
            return res;
        },
    };
    let mut output = String::new();
    if !is_test {
        output.append("%\n%  vesti 0.1.0 output\n%  Compile this file using ");
        output.append(latex_type.name());
        output.append(" engine\n%\n");
        proof {
            assert(output@ =~= banner_text(latex_type));
        }
    }
    let ghost head: Seq<char> = output@;
    let n = latex.len();
    let mut i: usize = 0;
    proof {
        assert(latex@.take(0) =~= Seq::<Statement>::empty());
        assert(output@ =~= head + latex_text(latex@.take(0)));
    }
    while i < n
        invariant
            0 <= i <= n,
            output@ == head + latex_text(latex@.take(i as int)),
        decreases n - i,
    {
        let stmt = &latex[i];
        proof {
            assert(stmt_wf(latex@[i as int]));
        }
        match stmt {
            Statement::NopStmt => {},
            _ => {
                let piece = stmt.to_string();
                output.append(piece.as_str());
            },
        }
        proof {
            let t1 = latex@.take(i + 1 as int);
            assert(t1.drop_last() =~= latex@.take(i as int));
            assert(t1[t1.len() - 1] == latex@[i as int]);
            assert(latex_text(t1) == latex_text(latex@.take(i as int)) + stmt_text(
                latex@[i as int],
            ));
            assert(output@ =~= head + latex_text(t1));
        }
        i = i + 1;
    }
    proof {
        assert(latex@.take(n as int) =~= latex@);
        let toks = old(parser).toks@;
        let p0 = old(parser).pos as int;
        let docend: Seq<char> = if crate::parser::appends_doc_end(*old(parser)) {
            "\n\\end{document}\n"@
        } else {
            Seq::<char>::empty()
        };
        if old(parser).spec_peek() == TokenType::Eof {
            if crate::parser::appends_doc_end(*old(parser)) {
                assert(latex@.len() == 1 && latex@[0] is DocumentEnd);
                assert(latex@[0] == Statement::DocumentEnd);
                assert(latex@.drop_last() =~= Seq::<Statement>::empty());
                assert(latex_text(latex@) == latex_text(latex@.drop_last()) + stmt_text(
                    latex@[0],
                ));
                assert(latex_text(latex@) =~= docend);
            } else {
                assert(latex@.len() == 0);
                assert(latex_text(latex@) =~= docend);
            }
            assert(output@ =~= head + docend);
        }
        if forall|j: int|
            p0 <= j < toks.len() ==> crate::parser::plain_tok((#[trigger] toks[j]).toktype) {
            let n0 = toks.len() - p0;
            let lits = crate::parser::literals_text(toks, p0, toks.len() as int);
            if crate::parser::appends_doc_end(*old(parser)) {
                let mains = latex@.drop_last();
                assert(forall|k: int|
                    0 <= k < mains.len() ==> #[trigger] mains[k] == latex@[k]);
                lemma_latex_text_of_main_texts(mains, toks, p0);
                assert(latex_text(latex@) == latex_text(mains) + stmt_text(
                    latex@[latex@.len() - 1],
                ));
                assert(latex@[latex@.len() - 1] == Statement::DocumentEnd);
                assert(output@ =~= head + lits + docend);
            } else {
                lemma_latex_text_of_main_texts(latex@, toks, p0);
                assert(output@ =~= head + lits + docend);
            }
        }
    }
    let res: Result<String, VestiErr> = Ok(output);
    proof {
        assert(exists|pr: Result<Seq<Statement>, VestiErr>|
            #[trigger] crate::parser::parse_latex_post(*old(parser), *parser, pr)
                && render_matches_parse(res, pr, latex_type, is_test)) by {
            assert(crate::parser::parse_latex_post(
                *old(parser),
                *parser,
                Result::<Seq<Statement>, VestiErr>::Ok(latex@),
            ) && render_matches_parse(
                res,
                Result::<Seq<Statement>, VestiErr>::Ok(latex@),
                latex_type,
                is_test,
            ));
        }
        assert(match res {
            Result::Ok(s) => exists|v: Seq<Statement>|
                #[trigger] make_latex_format_post(s@, v, latex_type, is_test, *parser),
            Result::Err(_) => true,
        }) by {
            match res {
                Result::Ok(s) => {
                    assert(make_latex_format_post(s@, latex@, latex_type, is_test, *parser));
                },
                Result::Err(_) => {},
            }
        }
    }
    res
}

impl Statement {
    /// Renders this statement, exactly as `stmt_text` states.
    pub fn to_string(&self) -> (r: String)
        requires
            stmt_wf(*self),
        ensures
            r@ == stmt_text(*self),
        decreases stmt_size(*self), 0int,
    {
        match self {
            Statement::NopStmt => String::new(),
            Statement::NonStopMode => String::from_str("\\nonstopmode\n"),
            Statement::DocumentClass { name, options } => docclass_to_string(name, options),
            Statement::Usepackage { name, options } => usepackage_to_string(name, options),
            Statement::MultiUsepackages { pkgs } => multiusepacakge_to_string(pkgs),
            Statement::DocumentStart => String::from_str("\\begin{document}\n"),
            Statement::DocumentEnd => String::from_str("\n\\end{document}\n"),
            Statement::MainText(t) => t.clone(),
            Statement::Integer(i) => i64_to_string(*i),
            Statement::Float(lit) => lit.clone(),
            Statement::RawLatex(t) => t.clone(),
            Statement::BracedStmt(l) => {
                let mut out = String::from_str("{");
                proof {
                    lemma_latex_size_pos(l@);
                }
                let body = latex_to_string(l);
                out.append(body.as_str());
                out.append("}");
                assert(out@ =~= stmt_text(*self));
                out
            },
            Statement::MathDelimiter { delimiter, kind } => math_delimiter_to_string(
                delimiter,
                kind,
            ),
            Statement::Fraction { numerator, denominator } => fraction_to_string(
                numerator,
                denominator,
            ),
            Statement::PlainTextInMath { text } => plaintext_in_math_to_string(text),
            Statement::MathText { state, text } => math_text_to_string(*state, text),
            Statement::LatexFunction { name, args } => latex_function_to_string(name, args),
            Statement::Environment { name, args, text } => environment_to_string(name, args, text),
            Statement::BeginPhantomEnvironment { name, args, add_newline } => {
                begin_phantom_environment_to_string(name, args, *add_newline)
            },
            Statement::EndPhantomEnvironment { name } => {
                let mut out = String::from_str("\\end{");
                out.append(name.as_str());
                out.append("}");
                assert(out@ =~= stmt_text(*self));
                out
            },
            Statement::FunctionDefine { kind, name, args, trim, body } => {
                function_def_to_string(kind, name, args, trim, body)
            },
            Statement::EnvironmentDefine {
                is_redefine,
                name,
                args_num,
                optional_arg,
                trim,
                begin_part,
                end_part,
            } => {
                environment_def_to_string(
                    *is_redefine,
                    name,
                    *args_num,
                    optional_arg,
                    trim,
                    begin_part,
                    end_part,
                )
            },
        }
    }
}

/// Renders a statement sequence by concatenating each statement's text
/// in order.
#[verifier::loop_isolation(false)]
pub fn latex_to_string(latex: &Latex) -> (r: String)
    requires
        latex_wf(latex@),
    ensures
        r@ == latex_text(latex@),
    decreases latex_size(latex@), 0int,
{
    let mut out = String::new();
    let n = latex.len();
    let mut i: usize = 0;
    while i < n
        invariant
            0 <= i <= n,
            out@ == latex_text(latex@.take(i as int)),
        decreases n - i,
    {
        proof {
            lemma_latex_elem_size(latex@, i as int);
            assert(stmt_wf(latex@[i as int]));
        }
        let stmt = &latex[i];
        let piece = stmt.to_string();
        out.append(piece.as_str());
        proof {
            let t1 = latex@.take(i + 1 as int);
            assert(t1.drop_last() =~= latex@.take(i as int));
            assert(t1[t1.len() - 1] == latex@[i as int]);
        }
        i = i + 1;
    }
    proof {
        assert(latex@.take(n as int) =~= latex@);
    }
    out
}

pub fn docclass_to_string(name: &String, options: &Option<Vec<Latex>>) -> (r: String)
    requires
        opts_wf(*options),
    ensures
        r@ == docclass_text(name@, opts_rendered(*options)),
    decreases opts_size(*options), 1int,
{
    match options {
        Option::Some(opts) => {
            let options_str = render_options(opts);
            let mut out = String::from_str("\\documentclass[");
            out.append(options_str.as_str());
            out.append("]{");
            out.append(name.as_str());
            out.append("}\n");
            assert(out@ =~= docclass_text(name@, opts_rendered(*options)));
            out
        },
        Option::None => {
            let mut out = String::from_str("\\documentclass{");
            out.append(name.as_str());
            out.append("}\n");
            assert(out@ =~= docclass_text(name@, opts_rendered(*options)));
            out
        },
    }
}

pub fn usepackage_to_string(name: &String, options: &Option<Vec<Latex>>) -> (r: String)
    requires
        opts_wf(*options),
    ensures
        r@ == usepackage_text(name@, opts_rendered(*options)),
    decreases opts_size(*options), 2int,
{
    match options {
        Option::Some(opts) => {
            let options_str = render_options(opts);
            let mut out = String::from_str("\\usepackage[");
            out.append(options_str.as_str());
            out.append("]{");
            out.append(name.as_str());
            out.append("}\n");
            assert(out@ =~= usepackage_text(name@, opts_rendered(*options)));
            out
        },
        Option::None => {
            let mut out = String::from_str("\\usepackage{");
            out.append(name.as_str());
            out.append("}\n");
            assert(out@ =~= usepackage_text(name@, opts_rendered(*options)));
            out
        },
    }
}

/// Joins the rendered option groups with commas, in order, with no
/// trailing comma.
#[verifier::loop_isolation(false)]
fn render_options(opts: &Vec<Latex>) -> (r: String)
    requires
        forall|i: int| #![trigger opts@[i]] 0 <= i < opts@.len() ==> latex_wf(opts@[i]@),
    ensures
        r@ == comma_join(opts@),
    decreases opts_size(Option::Some(*opts)), 0int,
{
    let mut out = String::new();
    let n = opts.len();
    let mut i: usize = 0;
    while i < n
        invariant
            0 <= i <= n,
            out@ == comma_join(opts@.take(i as int)),
        decreases n - i,
    {
        proof {
            lemma_optvec_elem_size(opts@, i as int);
            assert(latex_wf(opts@[i as int]@));
        }
        if i > 0 {
            out.append(",");
        }
        let piece = latex_to_string(&opts[i]);
        out.append(piece.as_str());
        proof {
            let t1 = opts@.take(i + 1 as int);
            assert(t1.drop_last() =~= opts@.take(i as int));
            assert(t1[t1.len() - 1] == opts@[i as int]);
            assert(out@ =~= comma_join(t1));
        }
        i = i + 1;
    }
    proof {
        assert(opts@.take(n as int) =~= opts@);
    }
    out
}

#[verifier::loop_isolation(false)]
pub fn multiusepacakge_to_string(pkgs: &Vec<Statement>) -> (r: String)
    requires
        latex_wf(pkgs@),
    ensures
        r@ == multi_usepackages_text(pkgs@),
    decreases latex_size(pkgs@), 1int,
{
    let mut out = String::new();
    let n = pkgs.len();
    let mut i: usize = 0;
    while i < n
        invariant
            0 <= i <= n,
            out@ == multi_usepackages_text(pkgs@.take(i as int)),
        decreases n - i,
    {
        proof {
            lemma_latex_elem_size(pkgs@, i as int);
            assert(stmt_wf(pkgs@[i as int]));
        }
        let stmt = &pkgs[i];
        match stmt {
            Statement::Usepackage { name, options } => {
                let piece = usepackage_to_string(name, options);
                out.append(piece.as_str());
            },
            _ => {},
        }
        proof {
            let t1 = pkgs@.take(i + 1 as int);
            assert(t1.drop_last() =~= pkgs@.take(i as int));
            assert(t1[t1.len() - 1] == pkgs@[i as int]);
        }
        i = i + 1;
    }
    proof {
        assert(pkgs@.take(n as int) =~= pkgs@);
    }
    out
}

pub fn math_delimiter_to_string(delimiter: &String, kind: &DelimiterKind) -> (r: String)
    ensures
        r@ == math_delimiter_text(delimiter@, *kind),
{
    match kind {
        DelimiterKind::Default => delimiter.clone(),
        DelimiterKind::LeftBig => {
            let mut out = String::from_str("\\left");
            out.append(delimiter.as_str());
            out
        },
        DelimiterKind::RightBig => {
            let mut out = String::from_str("\\right");
            out.append(delimiter.as_str());
            out
        },
    }
}

pub fn fraction_to_string(numerator: &Latex, denominator: &Latex) -> (r: String)
    requires
        latex_wf(numerator@),
        latex_wf(denominator@),
    ensures
        r@ == fraction_text(latex_text(numerator@), latex_text(denominator@)),
    decreases latex_size(numerator@) + latex_size(denominator@), 1int,
{
    proof {
        lemma_latex_size_pos(numerator@);
        lemma_latex_size_pos(denominator@);
    }
    let mut out = String::from_str("\\frac{");
    let ntext = latex_to_string(numerator);
    out.append(ntext.as_str());
    out.append("}{");
    let dtext = latex_to_string(denominator);
    out.append(dtext.as_str());
    out.append("}");
    assert(out@ =~= fraction_text(latex_text(numerator@), latex_text(denominator@)));
    out
}

pub fn plaintext_in_math_to_string(text: &Latex) -> (r: String)
    requires
        latex_wf(text@),
    ensures
        r@ == "\\text{"@ + latex_text(text@) + "}"@,
    decreases latex_size(text@), 1int,
{
    let mut out = String::from_str("\\text{");
    let body = latex_to_string(text);
    out.append(body.as_str());
    out.append("}");
    assert(out@ =~= "\\text{"@ + latex_text(text@) + "}"@);
    out
}

pub fn math_text_to_string(state: MathState, text: &Vec<Statement>) -> (r: String)
    requires
        latex_wf(text@),
    ensures
        r@ == math_text_text(state, latex_text(text@)),
    decreases latex_size(text@), 1int,
{
    let body = latex_to_string(text);
    match state {
        MathState::Text => {
            let mut out = String::from_str("$");
            out.append(body.as_str());
            out.append("$");
            assert(out@ =~= math_text_text(state, latex_text(text@)));
            out
        },
        MathState::Inline => {
            let mut out = String::from_str("\\[");
            out.append(body.as_str());
            out.append("\\]");
            assert(out@ =~= math_text_text(state, latex_text(text@)));
            out
        },
    }
}

/// Renders an argument list, each argument in its stored order and
/// delimiters.
#[verifier::loop_isolation(false)]
fn args_to_string(args: &Vec<(ArgNeed, Vec<Statement>)>) -> (r: String)
    requires
        args_wf(args@),
    ensures
        r@ == args_text(args@),
    decreases args_size(args@), 0int,
{
    let mut out = String::new();
    let n = args.len();
    let mut i: usize = 0;
    while i < n
        invariant
            0 <= i <= n,
            out@ == args_text(args@.take(i as int)),
        decreases n - i,
    {
        proof {
            lemma_args_elem_size(args@, i as int);
            assert(latex_wf(args@[i as int].1@));
        }
        let arg = &args[i];
        let mut tmp = String::new();
        let m = arg.1.len();
        let mut j: usize = 0;
        while j < m
            invariant
                0 <= j <= m,
                tmp@ == latex_text(args@[i as int].1@.take(j as int)),
            decreases m - j,
        {
            proof {
                lemma_args_elem_size(args@, i as int);
                lemma_latex_elem_size(args@[i as int].1@, j as int);
                assert(stmt_wf(args@[i as int].1@[j as int]));
            }
            let stmt = &arg.1[j];
            let piece = stmt.to_string();
            tmp.append(piece.as_str());
            proof {
                let t1 = args@[i as int].1@.take(j + 1 as int);
                assert(t1.drop_last() =~= args@[i as int].1@.take(j as int));
                assert(t1[t1.len() - 1] == args@[i as int].1@[j as int]);
            }
            j = j + 1;
        }
        proof {
            assert(args@[i as int].1@.take(m as int) =~= args@[i as int].1@);
        }
        match arg.0 {
            ArgNeed::MainArg => {
                out.append("{");
                out.append(tmp.as_str());
                out.append("}");
            },
            ArgNeed::Optional => {
                out.append("[");
                out.append(tmp.as_str());
                out.append("]");
            },
            ArgNeed::StarArg => {
                out.append("*");
            },
        }
        proof {
            let t1 = args@.take(i + 1 as int);
            assert(t1.drop_last() =~= args@.take(i as int));
            assert(t1[t1.len() - 1] == args@[i as int]);
            assert(out@ =~= args_text(t1));
        }
        i = i + 1;
    }
    proof {
        assert(args@.take(n as int) =~= args@);
    }
    out
}

pub fn latex_function_to_string(name: &String, args: &Vec<(ArgNeed, Vec<Statement>)>) -> (r: String)
    requires
        args_wf(args@),
    ensures
        r@ == name@ + args_text(args@),
    decreases args_size(args@), 1int,
{
    let mut out = name.clone();
    let rendered = args_to_string(args);
    out.append(rendered.as_str());
    out
}

pub fn begin_phantom_environment_to_string(
    name: &String,
    args: &Vec<(ArgNeed, Vec<Statement>)>,
    add_newline: bool,
) -> (r: String)
    requires
        args_wf(args@),
    ensures
        r@ == begin_phantom_text(name@, args_text(args@), add_newline),
    decreases args_size(args@), 1int,
{
    let mut out = String::from_str("\\begin{");
    out.append(name.as_str());
    out.append("}");
    if add_newline {
        out.append("\n");
    }
    let rendered = args_to_string(args);
    out.append(rendered.as_str());
    assert(out@ =~= begin_phantom_text(name@, args_text(args@), add_newline));
    out
}

pub fn environment_to_string(
    name: &String,
    args: &Vec<(ArgNeed, Vec<Statement>)>,
    text: &Latex,
) -> (r: String)
    requires
        args_wf(args@),
        latex_wf(text@),
    ensures
        r@ == environment_text(name@, args_text(args@), latex_text(text@)),
    decreases args_size(args@) + latex_size(text@), 1int,
{
    proof {
        lemma_args_size_pos(args@);
        lemma_latex_size_pos(text@);
    }
    let mut out = String::from_str("\\begin{");
    out.append(name.as_str());
    out.append("}");
    let rendered = args_to_string(args);
    out.append(rendered.as_str());
    let body = latex_to_string(text);
    out.append(body.as_str());
    out.append("\\end{");
    out.append(name.as_str());
    out.append("}\n");
    assert(out@ =~= environment_text(name@, args_text(args@), latex_text(text@)));
    out
}

pub fn function_def_to_string(
    kind: &FunctionDefKind,
    name: &String,
    args: &String,
    trim: &TrimWhitespace,
    body: &Latex,
) -> (r: String)
    requires
        latex_wf(body@),
    ensures
        r@ == function_def_text(*kind, name@, args@, *trim, latex_text(body@)),
    decreases latex_size(body@), 1int,
{
    let mut out = String::new();
    if kind.long {
        out.append("\\long");
    }
    if kind.outer {
        out.append("\\outer");
    }
    if kind.expand && kind.global {
        out.append("\\xdef");
    } else if kind.global {
        out.append("\\gdef");
    } else if kind.expand {
        out.append("\\edef");
    } else {
        out.append("\\def");
    }
    assert(out@ =~= fndef_prefix(*kind));
    out.append("\\");
    out.append(name.as_str());
    out.append(args.as_str());
    out.append("{");
    if trim.start {
        out.append("%\n");
    }
    let tmp = latex_to_string(body);
    let trimmed = trim_string(tmp.as_str(), trim.start, trim.end);
    out.append(trimmed.as_str());
    out.append("%\n}\n");
    assert(out@ =~= function_def_text(*kind, name@, args@, *trim, latex_text(body@)));
    out
}

#[verifier::rlimit(100)]
#[verifier::spinoff_prover]
pub fn environment_def_to_string(
    is_redefine: bool,
    name: &String,
    args_num: u8,
    optional_arg: &Option<Latex>,
    trim: &TrimWhitespace,
    begin_part: &Latex,
    end_part: &Latex,
) -> (r: String)
    requires
        trim.mid is Some,
        match *optional_arg {
            Option::None => true,
            Option::Some(inner) => latex_wf(inner@),
        },
        latex_wf(begin_part@),
        latex_wf(end_part@),
    ensures
        r@ == environment_def_text(
            is_redefine,
            name@,
            args_num,
            match *optional_arg {
                Option::None => Option::None,
                Option::Some(inner) => Option::Some(latex_text(inner@)),
            },
            *trim,
            latex_text(begin_part@),
            latex_text(end_part@),
        ),
    decreases opt_latex_size(*optional_arg) + latex_size(begin_part@) + latex_size(end_part@), 1int,
{
    proof {
        lemma_latex_size_pos(begin_part@);
        lemma_latex_size_pos(end_part@);
    }
    let mut out = if is_redefine {
        String::from_str("\\renewenvironment{")
    } else {
        String::from_str("\\newenvironment{")
    };
    out.append(name.as_str());
    out.append("}");
    if args_num > 0 {
        out.append("[");
        let num = u64_to_string(args_num as u64);
        out.append(num.as_str());
        out.append("]");
        match optional_arg {
            Option::Some(inner) => {
                out.append("[");
                let inner_text = latex_to_string(inner);
                out.append(inner_text.as_str());
                out.append("]{");
            },
            Option::None => {
                out.append("{");
            },
        }
    } else {
        out.append("{");
    }
    let mid = match trim.mid {
        Option::Some(b) => b,
        Option::None => false,
    };
    let tmpb = latex_to_string(begin_part);
    let trimmed_b = trim_string(tmpb.as_str(), trim.start, mid);
    out.append(trimmed_b.as_str());
    out.append("}{");
    let tmpe = latex_to_string(end_part);
    let trimmed_e = trim_string(tmpe.as_str(), mid, trim.end);
    out.append(trimmed_e.as_str());
    out.append("}\n");
    assert(out@ =~= environment_def_text(
        is_redefine,
        name@,
        args_num,
        match *optional_arg {
            Option::None => Option::None,
            Option::Some(inner) => Option::Some(latex_text(inner@)),
        },
        *trim,
        latex_text(begin_part@),
        latex_text(end_part@),
    ));
    out
}

} // verus!
