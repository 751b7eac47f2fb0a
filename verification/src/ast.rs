//! The abstract syntax tree: an ordered statement sequence and the closed
//! set of statement shapes the parser can produce.
use vstd::prelude::*;

use crate::token::FunctionDefKind;

verus! {

/// How a math region is rendered: `$ ... $` or `\[ ... \]`.
#[derive(Debug, Clone, Copy, PartialEq, Eq, Structural)]
pub enum MathState {
    Text,
    Inline,
}

/// How a math delimiter is rendered: bare, or stretched with `\left` /
/// `\right`.
#[derive(Debug, Clone, Copy, PartialEq, Eq, Structural)]
pub enum DelimiterKind {
    Default,
    LeftBig,
    RightBig,
}

/// One argument kind of a LaTeX command or environment.  An argument list
/// is an ordered sequence of `(ArgNeed, body)` pairs and is replayed in
/// exactly that order.
#[derive(Debug, Clone, Copy, PartialEq, Eq, Structural)]
pub enum ArgNeed {
    /// Required, rendered inside `{ ... }`.
    MainArg,
    /// Optional, rendered inside `[ ... ]`.
    Optional,
    /// A bare `*`, no payload.
    StarArg,
}

/// The whitespace-trimming flags of a definition body.  `mid` is populated
/// only for environment definitions, which have two bodies.
#[derive(Debug, Clone, Copy, PartialEq, Eq)]
pub struct TrimWhitespace {
    pub start: bool,
    pub mid: Option<bool>,
    pub end: bool,
}

/// The ordered statement sequence that one parse produces.
pub type Latex = Vec<Statement>;

/// One lowered construct.
#[derive(Debug, PartialEq, Eq)]
pub enum Statement {
    /// An empty statement; renders to nothing.
    NopStmt,
    NonStopMode,
    DocumentClass { name: String, options: Option<Vec<Latex>> },
    Usepackage { name: String, options: Option<Vec<Latex>> },
    MultiUsepackages { pkgs: Vec<Statement> },
    DocumentStart,
    DocumentEnd,
    MainText(String),
    Integer(i64),
    /// A float literal, carried as its source text; the renderer replays
    /// it unchanged.
    Float(String),
    RawLatex(String),
    BracedStmt(Latex),
    MathDelimiter { delimiter: String, kind: DelimiterKind },
    Fraction { numerator: Latex, denominator: Latex },
    PlainTextInMath { text: Latex },
    MathText { state: MathState, text: Latex },
    LatexFunction { name: String, args: Vec<(ArgNeed, Vec<Statement>)> },
    Environment { name: String, args: Vec<(ArgNeed, Vec<Statement>)>, text: Latex },
    /// An environment begin marker with no attached body; the body is
    /// supplied by later statements and a matching end marker.
    BeginPhantomEnvironment {
        name: String,
        args: Vec<(ArgNeed, Vec<Statement>)>,
        add_newline: bool,
    },
    EndPhantomEnvironment { name: String },
    FunctionDefine {
        kind: FunctionDefKind,
        name: String,
        args: String,
        trim: TrimWhitespace,
        body: Latex,
    },
    EnvironmentDefine {
        is_redefine: bool,
        name: String,
        args_num: u8,
        optional_arg: Option<Latex>,
        trim: TrimWhitespace,
        begin_part: Latex,
        end_part: Latex,
    },
}

/// Well-formedness of a statement: every construct that owes the renderer
/// a trim flag carries it.  The parser only ever builds well-formed
/// statements; the renderer requires them.
pub open spec fn stmt_wf(s: Statement) -> bool
    decreases s,
{
    match s {
        Statement::DocumentClass { options, .. } => opts_wf(options),
        Statement::Usepackage { options, .. } => opts_wf(options),
        Statement::MultiUsepackages { pkgs } => latex_wf(pkgs@),
        Statement::BracedStmt(l) => latex_wf(l@),
        Statement::Fraction { numerator, denominator } => latex_wf(numerator@) && latex_wf(
            denominator@,
        ),
        Statement::PlainTextInMath { text } => latex_wf(text@),
        Statement::MathText { text, .. } => latex_wf(text@),
        Statement::LatexFunction { args, .. } => args_wf(args@),
        Statement::Environment { args, text, .. } => args_wf(args@) && latex_wf(text@),
        Statement::BeginPhantomEnvironment { args, .. } => args_wf(args@),
        Statement::FunctionDefine { trim, body, .. } => trim.mid is None && latex_wf(body@),
        Statement::EnvironmentDefine { optional_arg, trim, begin_part, end_part, .. } => trim.mid
            is Some && (match optional_arg {
            Option::None => true,
            Option::Some(inner) => latex_wf(inner@),
        }) && latex_wf(begin_part@) && latex_wf(end_part@),
        _ => true,
    }
}

/// Every statement of the sequence is well-formed.
pub open spec fn latex_wf(l: Seq<Statement>) -> bool
    decreases l,
{
    forall|i: int| #![trigger l[i]] 0 <= i < l.len() ==> stmt_wf(l[i])
}

/// Every statement in every option group is well-formed.
pub open spec fn opts_wf(options: Option<Vec<Latex>>) -> bool
    decreases options,
{
    match options {
        Option::None => true,
        Option::Some(opts) => forall|i: int|
            #![trigger opts@[i]]
            0 <= i < opts@.len() ==> latex_wf(opts@[i]@),
    }
}

/// Every statement in every argument body is well-formed.
pub open spec fn args_wf(args: Seq<(ArgNeed, Vec<Statement>)>) -> bool
    decreases args,
{
    forall|i: int| #![trigger args[i]] 0 <= i < args.len() ==> latex_wf(args[i].1@)
}

/// A positive structural size of a statement, the termination measure of
/// the renderer's recursion.
pub open spec fn stmt_size(s: Statement) -> nat
    decreases s,
{
    match s {
        Statement::DocumentClass { options, .. } => 1 + opts_size(options),
        Statement::Usepackage { options, .. } => 1 + opts_size(options),
        Statement::MultiUsepackages { pkgs } => 1 + latex_size(pkgs@),
        Statement::BracedStmt(l) => 1 + latex_size(l@),
        Statement::Fraction { numerator, denominator } => 1 + latex_size(numerator@)
            + latex_size(denominator@),
        Statement::PlainTextInMath { text } => 1 + latex_size(text@),
        Statement::MathText { text, .. } => 1 + latex_size(text@),
        Statement::LatexFunction { args, .. } => 1 + args_size(args@),
        Statement::Environment { args, text, .. } => 1 + args_size(args@) + latex_size(text@),
        Statement::BeginPhantomEnvironment { args, .. } => 1 + args_size(args@),
        Statement::FunctionDefine { body, .. } => 1 + latex_size(body@),
        Statement::EnvironmentDefine { optional_arg, begin_part, end_part, .. } => 1 + (match
        optional_arg {
            Option::None => 1nat,
            Option::Some(inner) => 1 + latex_size(inner@),
        }) + latex_size(begin_part@) + latex_size(end_part@),
        _ => 1,
    }
}

pub open spec fn latex_size(l: Seq<Statement>) -> nat
    decreases l,
{
    if l.len() == 0 {
        1
    } else {
        latex_size(l.drop_last()) + stmt_size(l[l.len() - 1])
    }
}

pub open spec fn args_size(args: Seq<(ArgNeed, Vec<Statement>)>) -> nat
    decreases args,
{
    if args.len() == 0 {
        1
    } else {
        args_size(args.drop_last()) + 1 + latex_size(args[args.len() - 1].1@)
    }
}

pub open spec fn optvec_size(opts: Seq<Latex>) -> nat
    decreases opts,
{
    if opts.len() == 0 {
        1
    } else {
        optvec_size(opts.drop_last()) + latex_size(opts[opts.len() - 1]@)
    }
}

pub open spec fn opts_size(options: Option<Vec<Latex>>) -> nat
    decreases options,
{
    match options {
        Option::None => 1,
        Option::Some(opts) => 1 + optvec_size(opts@),
    }
}

pub open spec fn opt_latex_size(optional: Option<Latex>) -> nat {
    match optional {
        Option::None => 1,
        Option::Some(inner) => 1 + latex_size(inner@),
    }
}

pub proof fn lemma_latex_size_pos(l: Seq<Statement>)
    ensures
        latex_size(l) >= 1,
    decreases l,
{
    if l.len() > 0 {
        lemma_latex_size_pos(l.drop_last());
    }
}

pub proof fn lemma_args_size_pos(args: Seq<(ArgNeed, Vec<Statement>)>)
    ensures
        args_size(args) >= 1,
    decreases args,
{
    if args.len() > 0 {
        lemma_args_size_pos(args.drop_last());
    }
}

/// Each element weighs less than the whole sequence.
pub proof fn lemma_latex_elem_size(l: Seq<Statement>, i: int)
    requires
        0 <= i < l.len(),
    ensures
        stmt_size(l[i]) < latex_size(l),
    decreases l,
{
    if i == l.len() - 1 {
        lemma_latex_size_pos(l.drop_last());
    } else {
        lemma_latex_elem_size(l.drop_last(), i);
        assert(l.drop_last()[i] == l[i]);
    }
}

/// Each argument body weighs less than the whole argument list.
pub proof fn lemma_args_elem_size(args: Seq<(ArgNeed, Vec<Statement>)>, i: int)
    requires
        0 <= i < args.len(),
    ensures
        latex_size(args[i].1@) < args_size(args),
    decreases args,
{
    if i == args.len() - 1 {
        lemma_args_size_pos(args.drop_last());
    } else {
        lemma_args_elem_size(args.drop_last(), i);
        assert(args.drop_last()[i] == args[i]);
    }
}

pub proof fn lemma_optvec_size_pos(opts: Seq<Latex>)
    ensures
        optvec_size(opts) >= 1,
    decreases opts,
{
    if opts.len() > 0 {
        lemma_optvec_size_pos(opts.drop_last());
        lemma_latex_size_pos(opts[opts.len() - 1]@);
    }
}

/// Each option group weighs less than the whole option list.
pub proof fn lemma_optvec_elem_size(opts: Seq<Latex>, i: int)
    requires
        0 <= i < opts.len(),
    ensures
        latex_size(opts[i]@) < optvec_size(opts),
    decreases opts,
{
    if i == opts.len() - 1 {
        lemma_optvec_size_pos(opts.drop_last());
    } else {
        lemma_optvec_elem_size(opts.drop_last(), i);
        assert(opts.drop_last()[i] == opts[i]);
    }
}

} // verus!
