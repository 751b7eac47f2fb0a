//! The parser: a stateful recursive-descent walk over the token vector,
//! one token of lookahead, with context-sensitive legality checks.  The
//! grammar is context-sensitive: which productions are legal depends on
//! the document-state flags and the math-mode bit.
use vstd::prelude::*;

use vstd::string::StringExecFns;

use crate::ast::ArgNeed;
use crate::ast::Latex;
use crate::ast::MathState;
use crate::ast::Statement;
use crate::ast::TrimWhitespace;
use crate::ast::latex_wf;
use crate::ast::stmt_wf;
use crate::error::VestiErr;
use crate::error::VestiParseErrKind;
use crate::location::Span;
use crate::numlit::i64_lit_value;
use crate::numlit::parse_i64_literal;
use crate::numlit::parse_u8_literal;
use crate::numlit::u8_lit_value;
use crate::numlit::valid_u8_literal;
use crate::numlit::check_float_literal;
use crate::numlit::valid_float_literal;
use crate::numlit::valid_i64_literal;
use crate::token::Token;
use crate::token::TokenType;

verus! {

/// The document-level parse flags.  Several can be true at once; together
/// they gate which productions are legal.
#[derive(Debug, Clone, Copy, PartialEq, Eq, Structural)]
pub struct DocState {
    /// The document was started, by `startdoc` or by the start-mode
    /// marker.
    pub doc_start: bool,
    /// The automatic end-of-document statement is suppressed.
    pub prevent_end_doc: bool,
    /// A definition body is being parsed, which relaxes the math-context
    /// checks.
    pub parsing_define: bool,
}

/// The parser: the token vector, a cursor into it, the document-state
/// flags, and the math-mode bit.
pub struct Parser {
    pub toks: Vec<Token>,
    pub pos: usize,
    pub doc_state: DocState,
    pub math_started: bool,
}

/// What every parsing step preserves: the token vector itself, the
/// forward-only cursor, the two document flags that are never cleared
/// once set — and those two flags change only when a document-start
/// token is among the consumed tokens.
pub open spec fn frame(pre: Parser, post: Parser) -> bool {
    &&& post.toks@ == pre.toks@
    &&& pre.pos <= post.pos
    &&& post.pos <= post.toks@.len()
    &&& (pre.doc_state.doc_start ==> post.doc_state.doc_start)
    &&& (pre.doc_state.prevent_end_doc ==> post.doc_state.prevent_end_doc)
    &&& ((forall|j: int|
        #![trigger pre.toks@[j]]
        pre.pos <= j < post.pos ==> pre.toks@[j].toktype != TokenType::StartDoc
            && pre.toks@[j].toktype != TokenType::DocumentStartMode) ==> post.doc_state.doc_start
        == pre.doc_state.doc_start && post.doc_state.prevent_end_doc
        == pre.doc_state.prevent_end_doc)
    // the definition flag is raised only transiently, around the nested
    // statements of a definition body
    &&& (post.doc_state.parsing_define ==> pre.doc_state.parsing_define)
}

/// The concatenated literal text of the tokens in `[i, j)`.
pub open spec fn literals_text(toks: Seq<Token>, i: int, j: int) -> Seq<char>
    decreases j - i,
{
    if i < j {
        literals_text(toks, i, j - 1) + toks[j - 1].literal@
    } else {
        Seq::empty()
    }
}

/// The first position at or after `i` holding a token of type `t`, or
/// the end of the vector when there is none.
pub open spec fn find_tok(toks: Seq<Token>, i: int, t: TokenType) -> int
    decreases toks.len() - i,
{
    if 0 <= i < toks.len() {
        if toks[i].toktype == t {
            i
        } else {
            find_tok(toks, i + 1, t)
        }
    } else {
        i
    }
}

pub proof fn lemma_find_tok(toks: Seq<Token>, i: int, t: TokenType)
    requires
        0 <= i <= toks.len(),
    ensures
        i <= find_tok(toks, i, t) <= toks.len(),
        find_tok(toks, i, t) < toks.len() ==> toks[find_tok(toks, i, t)].toktype == t,
        forall|j: int| i <= j < find_tok(toks, i, t) ==> (#[trigger] toks[j].toktype) != t,
    decreases toks.len() - i,
{
    if i < toks.len() && toks[i].toktype != t {
        lemma_find_tok(toks, i + 1, t);
    }
}

/// The end of a macro or environment name that starts at `i`: the first
/// position whose token is neither text nor the argument splitter.
pub open spec fn name_end(toks: Seq<Token>, i: int) -> int
    decreases toks.len() - i,
{
    if 0 <= i < toks.len() && (toks[i].toktype == TokenType::Text || toks[i].toktype
        == TokenType::ArgSpliter) {
        name_end(toks, i + 1)
    } else {
        i
    }
}

pub proof fn lemma_name_end(toks: Seq<Token>, i: int)
    requires
        0 <= i <= toks.len(),
    ensures
        i <= name_end(toks, i) <= toks.len(),
        name_end(toks, i) < toks.len() ==> toks[name_end(toks, i)].toktype != TokenType::Text
            && toks[name_end(toks, i)].toktype != TokenType::ArgSpliter,
        forall|j: int|
            i <= j < name_end(toks, i) ==> ((#[trigger] toks[j].toktype) == TokenType::Text
                || toks[j].toktype == TokenType::ArgSpliter),
    decreases toks.len() - i,
{
    if i < toks.len() && (toks[i].toktype == TokenType::Text || toks[i].toktype
        == TokenType::ArgSpliter) {
        lemma_name_end(toks, i + 1);
    }
}

/// Whether a token type is skipped as whitespace (newlines only when
/// asked).
pub open spec fn is_ws_tok(t: TokenType, newline: bool) -> bool {
    t == TokenType::Space || t == TokenType::Tab || (newline && t == TokenType::Newline)
}

/// The cursor after skipping whitespace tokens from `i`.
pub open spec fn skip_ws(toks: Seq<Token>, i: int, newline: bool) -> int
    decreases toks.len() - i,
{
    if 0 <= i < toks.len() && is_ws_tok(toks[i].toktype, newline) {
        skip_ws(toks, i + 1, newline)
    } else {
        i
    }
}

/// Whether the parse owes the output a synthesized document-end
/// statement: the document was started, the parse is not inside a
/// definition body, and the automatic end was not suppressed.
pub open spec fn appends_doc_end(p: Parser) -> bool {
    !p.spec_premiere() && !p.doc_state.prevent_end_doc
}

/// How many document-start statements a sequence holds.
pub open spec fn count_doc_starts(l: Seq<Statement>) -> int
    decreases l,
{
    if l.len() == 0 {
        0
    } else {
        count_doc_starts(l.drop_last()) + if l[l.len() - 1] is DocumentStart {
            1int
        } else {
            0int
        }
    }
}

/// The end of a run of star tokens that starts at `i`.
pub open spec fn star_end(toks: Seq<Token>, i: int) -> int
    decreases toks.len() - i,
{
    if 0 <= i < toks.len() && toks[i].toktype == TokenType::Star {
        star_end(toks, i + 1)
    } else {
        i
    }
}

pub proof fn lemma_star_end(toks: Seq<Token>, i: int)
    requires
        0 <= i <= toks.len(),
    ensures
        i <= star_end(toks, i) <= toks.len(),
        star_end(toks, i) < toks.len() ==> toks[star_end(toks, i)].toktype != TokenType::Star,
        forall|j: int|
            i <= j < star_end(toks, i) ==> (#[trigger] toks[j].toktype) == TokenType::Star,
    decreases toks.len() - i,
{
    if i < toks.len() && toks[i].toktype == TokenType::Star {
        lemma_star_end(toks, i + 1);
    }
}

/// The lookahead tokens that fall through every keyword production and
/// become plain main text.
pub open spec fn is_catchall(pre: Parser) -> bool {
    let t = pre.spec_peek();
    if t.spec_is_definition_start() {
        false
    } else {
        match t {
            TokenType::Docclass | TokenType::Import | TokenType::StartDoc => !pre.spec_premiere(),
            TokenType::Superscript | TokenType::Subscript => pre.spec_math_mode(),
            TokenType::NonStopMode
            | TokenType::Useenv
            | TokenType::Begenv
            | TokenType::Endenv
            | TokenType::MathTextStart
            | TokenType::MathTextEnd
            | TokenType::DocumentStartMode
            | TokenType::EndDefinition
            | TokenType::Defenv
            | TokenType::Redefenv
            | TokenType::EndsWith
            | TokenType::LatexFunction
            | TokenType::RawLatex
            | TokenType::Integer
            | TokenType::Float
            | TokenType::TextMathStart
            | TokenType::InlineMathStart
            | TokenType::Lbrace
            | TokenType::TextMathEnd
            | TokenType::InlineMathEnd
            | TokenType::Deprecated
            | TokenType::Illegal
            | TokenType::Eof => false,
            _ => true,
        }
    }
}

/// The tokens on which statement dispatch always fails: a closer with
/// no opener, an end-of-region token outside its region, a math-only
/// token outside math, and the deprecated or illegal tokens.
pub open spec fn entry_halts_tok(t: TokenType, math: bool) -> bool {
    ||| t == TokenType::MathTextEnd
    ||| t == TokenType::EndDefinition
    ||| t == TokenType::EndsWith
    ||| t == TokenType::TextMathEnd
    ||| t == TokenType::InlineMathEnd
    ||| t == TokenType::Deprecated
    ||| t == TokenType::Illegal
    ||| ((t == TokenType::Superscript || t == TokenType::Subscript) && !math)
}

/// Statement dispatch always fails on the current lookahead.
pub open spec fn entry_halts(pre: Parser) -> bool {
    entry_halts_tok(pre.spec_peek(), pre.spec_math_mode())
}

/// The exact error each always-illegal token produces, at the token's
/// own span.
pub open spec fn entry_error_matches_tok(t: TokenType, sp: Span, math: bool, e: VestiErr) -> bool {
    &&& (t == TokenType::MathTextEnd ==> crate::error::is_not_opened(
        e,
        seq![TokenType::MathTextStart],
        TokenType::MathTextEnd,
        sp,
    ))
    &&& (t == TokenType::EndDefinition ==> crate::error::is_not_opened(
        e,
        TokenType::spec_definition_start_list(),
        TokenType::EndDefinition,
        sp,
    ))
    &&& (t == TokenType::EndsWith ==> crate::error::is_not_opened(
        e,
        seq![TokenType::Defenv, TokenType::Redefenv],
        TokenType::EndsWith,
        sp,
    ))
    &&& (t == TokenType::TextMathEnd ==> crate::error::is_invalid_tok(
        e,
        TokenType::TextMathEnd,
        sp,
    ))
    &&& (t == TokenType::InlineMathEnd ==> crate::error::is_invalid_tok(
        e,
        TokenType::InlineMathEnd,
        sp,
    ))
    &&& (t == TokenType::Deprecated ==> crate::error::is_deprecated_err(e, sp))
    &&& (t == TokenType::Illegal ==> crate::error::is_illegal_char_err(e, sp))
    &&& ((t == TokenType::Superscript || t == TokenType::Subscript) && !math
        ==> crate::error::is_illegal_use(e, t, sp))
}

/// The exact error the current always-illegal lookahead produces.
pub open spec fn entry_error_matches(pre: Parser, e: VestiErr) -> bool {
    entry_error_matches_tok(pre.spec_peek(), pre.spec_peek_span(), pre.spec_math_mode(), e)
}

/// An always-illegal lookahead token makes the call fail with exactly
/// its error; this holds of statement dispatch and is passed through
/// unchanged by the whole-stream entry points.
pub open spec fn halts_on_entry<T>(pre: Parser, r: Result<T, VestiErr>) -> bool {
    entry_halts(pre) ==> match r {
        Result::Err(e) => entry_error_matches(pre, e),
        Result::Ok(_) => false,
    }
}

/// What one statement dispatch guarantees, clause by clause for each
/// lookahead token: which statement shape each production returns, and
/// which exact error each illegal token raises.
pub open spec fn parse_statement_post(pre: Parser, post: Parser, r: Result<Statement, VestiErr>) -> bool {
    let t = pre.spec_peek();
    let sp = pre.spec_peek_span();
    &&& (t == TokenType::Docclass && pre.spec_premiere() ==> match r {
        Result::Ok(s) => s is DocumentClass,
        Result::Err(_) => true,
    })
    &&& (t == TokenType::Import && pre.spec_premiere() ==> match r {
        Result::Ok(s) => s is Usepackage || s is MultiUsepackages,
        Result::Err(_) => true,
    })
    &&& (t == TokenType::StartDoc && pre.spec_premiere() ==> post.doc_state.doc_start && match r {
        Result::Ok(s) => s == Statement::DocumentStart,
        Result::Err(_) => false,
    })
    &&& (t == TokenType::NonStopMode ==> match r {
        Result::Ok(s) => s == Statement::NonStopMode,
        Result::Err(_) => false,
    })
    &&& (t == TokenType::DocumentStartMode ==> post.doc_state.doc_start
        && post.doc_state.prevent_end_doc)
    &&& (t == TokenType::Useenv ==> match r {
        Result::Ok(s) => s is Environment,
        Result::Err(_) => true,
    })
    // an environment with an inline body succeeds only by reaching a
    // closing brace, and a macro definition only by reaching its
    // end-of-definition token
    &&& (t == TokenType::Useenv && r is Ok ==> exists|j: int|
        pre.pos <= j < post.pos && pre.toks@[j].toktype == TokenType::Rbrace)
    &&& (t.spec_is_definition_start() && r is Ok ==> exists|j: int|
        pre.pos <= j < post.pos && pre.toks@[j].toktype == TokenType::EndDefinition)
    &&& (t == TokenType::Begenv ==> match r {
        Result::Ok(s) => s is BeginPhantomEnvironment,
        Result::Err(_) => true,
    })
    &&& (t == TokenType::Endenv ==> match r {
        Result::Ok(s) => s is EndPhantomEnvironment,
        Result::Err(_) => true,
    })
    &&& (t == TokenType::MathTextStart ==> match r {
        Result::Ok(s) => s is PlainTextInMath,
        Result::Err(_) => true,
    })
    &&& halts_on_entry(pre, r)
    &&& (t.spec_is_definition_start() ==> match r {
        Result::Ok(s) => match s {
            Statement::FunctionDefine { kind, .. } => Some(kind) == t.spec_function_def_kind(),
            _ => false,
        },
        Result::Err(_) => true,
    })
    &&& (t == TokenType::Defenv || t == TokenType::Redefenv ==> match r {
        Result::Ok(s) => match s {
            Statement::EnvironmentDefine { is_redefine, .. } => is_redefine == (t
                == TokenType::Redefenv),
            _ => false,
        },
        Result::Err(_) => true,
    })
    &&& (t == TokenType::LatexFunction ==> match r {
        Result::Ok(s) => s is LatexFunction,
        Result::Err(_) => true,
    })
    &&& (t == TokenType::RawLatex ==> match r {
        Result::Ok(s) => match s {
            Statement::RawLatex(txt) => txt@ == pre.spec_peek_literal(),
            _ => false,
        },
        Result::Err(_) => false,
    })
    &&& (t == TokenType::Integer ==> pre.pos < pre.toks@.len() && {
        let lit = pre.toks@[pre.pos as int].literal@;
        let tsp = pre.toks@[pre.pos as int].span;
        if valid_i64_literal(lit) {
            match r {
                Result::Ok(s) => match s {
                    Statement::Integer(v) => v as int == i64_lit_value(lit),
                    _ => false,
                },
                Result::Err(_) => false,
            }
        } else {
            match r {
                Result::Err(e) => crate::error::is_parse_int_err(e, tsp),
                Result::Ok(_) => false,
            }
        }
    })
    &&& (t == TokenType::Float ==> pre.pos < pre.toks@.len() && {
        let lit = pre.toks@[pre.pos as int].literal@;
        let tsp = pre.toks@[pre.pos as int].span;
        if valid_float_literal(lit) {
            match r {
                Result::Ok(s) => match s {
                    Statement::Float(txt) => txt@ == lit,
                    _ => false,
                },
                Result::Err(_) => false,
            }
        } else {
            match r {
                Result::Err(e) => crate::error::is_parse_float_err(e, tsp),
                Result::Ok(_) => false,
            }
        }
    })
    &&& (t == TokenType::TextMathStart || t == TokenType::InlineMathStart ==> match r {
        Result::Ok(s) => match s {
            Statement::MathText { state, .. } => state == (if t == TokenType::TextMathStart {
                MathState::Text
            } else {
                MathState::Inline
            }),
            _ => false,
        },
        Result::Err(_) => true,
    })
    &&& (t == TokenType::Lbrace ==> match r {
        Result::Ok(s) => s is BracedStmt || s is Fraction,
        Result::Err(_) => true,
    })
    &&& (t == TokenType::Eof ==> match r {
        Result::Err(e) => crate::error::is_eof_err(e, sp),
        Result::Ok(_) => false,
    })
    &&& (is_catchall(pre) ==> pre.pos < pre.toks@.len() && post.pos == pre.pos + 1
        && post.doc_state == pre.doc_state && post.math_started == pre.math_started && match r {
        Result::Ok(s) => match s {
            Statement::MainText(txt) => txt@ == pre.spec_peek_literal(),
            _ => false,
        },
        Result::Err(_) => false,
    })
}

/// Token types that no production claims in any parse state: they always
/// become plain main text.
pub open spec fn plain_tok(t: TokenType) -> bool {
    match t {
        TokenType::Text
        | TokenType::Space
        | TokenType::Tab
        | TokenType::Newline
        | TokenType::Comma
        | TokenType::Star
        | TokenType::ArgSpliter
        | TokenType::FracDefiner
        | TokenType::Lparen
        | TokenType::Rparen
        | TokenType::Lsqbrace
        | TokenType::Rsqbrace
        | TokenType::Rbrace
        | TokenType::OptionalBrace => true,
        _ => false,
    }
}

/// Position `m` holds an always-illegal token and only unclaimed
/// tokens stand before it.  Kept opaque so that quantifiers over it stay
/// inert until a proof reveals it.
#[verifier::opaque]
pub open spec fn halts_after_plains(toks: Seq<Token>, p0: int, m: int, math: bool) -> bool {
    &&& p0 <= m < toks.len()
    &&& (forall|j: int| #![trigger toks[j]] p0 <= j < m ==> plain_tok(toks[j].toktype))
    &&& entry_halts_tok(toks[m].toktype, math)
}

/// What one whole-stream parse guarantees, bundled so that callers can
/// relate their own result to an actual parse outcome between the same
/// two parser states.
pub open spec fn parse_latex_post(pre: Parser, post: Parser, r: Result<Seq<Statement>, VestiErr>) -> bool {
    &&& frame(pre, post)
    &&& (r is Ok ==> post.spec_peek() == TokenType::Eof)
    &&& match r {
        Result::Ok(v) => {
            &&& latex_wf(v)
            // the document-end statement stands exactly at the end, and
            // exactly when the document was started without suppression
            &&& (appends_doc_end(post) ==> v.len() > 0 && v[v.len() - 1] is DocumentEnd && (
            forall|i: int| #![trigger v[i]] 0 <= i < v.len() - 1 ==> !(v[i] is DocumentEnd)))
            &&& (!appends_doc_end(post) ==> (forall|i: int|
                #![trigger v[i]]
                0 <= i < v.len() ==> !(v[i] is DocumentEnd)))
            // a document is started at most once
            &&& count_doc_starts(v) <= 1
            &&& (!post.doc_state.doc_start ==> (forall|i: int|
                #![trigger v[i]]
                0 <= i < v.len() ==> !(v[i] is DocumentStart)))
        },
        Result::Err(_) => true,
    }
    // an always-illegal first token fails the whole parse with exactly
    // its error
    &&& halts_on_entry(pre, r)
    // exhausted input parses to nothing but a possible document end
    &&& (pre.spec_peek() == TokenType::Eof ==> match r {
        Result::Ok(v) => v.len() == (if appends_doc_end(pre) {
            1int
        } else {
            0int
        }) && (appends_doc_end(pre) ==> v[0] is DocumentEnd),
        Result::Err(_) => false,
    })
    // a stream of tokens that no production claims parses to the
    // main-text statements of its literals, in order
    &&& ({
        let toks = pre.toks@;
        let p0 = pre.pos as int;
        (forall|j: int| p0 <= j < toks.len() ==> plain_tok(#[trigger] toks[j].toktype))
            ==> match r {
            Result::Ok(v) => post.doc_state == pre.doc_state && v.len() == toks.len() - p0 + (
            if appends_doc_end(pre) {
                1int
            } else {
                0int
            }) && (forall|k: int|
                0 <= k < toks.len() - p0 ==> ((#[trigger] v[k]) matches Statement::MainText(txt)
                    && txt@ == toks[p0 + k].literal@)),
            Result::Err(_) => false,
        }
    })
    // fail-fast: tokens that no production claims, followed by an
    // always-illegal token, fail with exactly that token's error
    &&& (forall|m: int|
        #[trigger] halts_after_plains(pre.toks@, pre.pos as int, m, pre.spec_math_mode())
            ==> match r {
            Result::Err(e) => entry_error_matches_tok(
                pre.toks@[m].toktype,
                pre.toks@[m].span,
                pre.spec_math_mode(),
                e,
            ),
            Result::Ok(_) => false,
        })
}

/// The environment names that switch the tokenizer's math mode on for
/// their body span.
pub open spec fn is_math_env(name: Seq<char>) -> bool {
    ||| name == "equation"@
    ||| name == "align"@
    ||| name == "array"@
    ||| name == "eqnarray"@
    ||| name == "gather"@
    ||| name == "multline"@
    ||| name == "luacode"@
}

/// Decides whether an environment name is one of the recognized math
/// environments.
fn is_math_env_name(name: &String) -> (r: bool)
    ensures
        r == is_math_env(name@),
{
    name.eq(&String::from_str("equation")) || name.eq(&String::from_str("align")) || name.eq(
        &String::from_str("array"),
    ) || name.eq(&String::from_str("eqnarray")) || name.eq(&String::from_str("gather")) || name.eq(
        &String::from_str("multline"),
    ) || name.eq(&String::from_str("luacode"))
}

impl Parser {
    /// The cursor never runs past the token vector.
    pub open spec fn wf(self) -> bool {
        self.pos <= self.toks@.len()
    }

    /// The type of the lookahead token (`Eof` once the vector is
    /// exhausted).
    pub open spec fn spec_peek(self) -> TokenType {
        if self.pos < self.toks@.len() {
            self.toks@[self.pos as int].toktype
        } else {
            TokenType::Eof
        }
    }

    /// The span of the lookahead token.
    pub open spec fn spec_peek_span(self) -> Span {
        if self.pos < self.toks@.len() {
            self.toks@[self.pos as int].span
        } else {
            Span::spec_zero()
        }
    }

    /// The literal text of the lookahead token.
    pub open spec fn spec_peek_literal(self) -> Seq<char> {
        if self.pos < self.toks@.len() {
            self.toks@[self.pos as int].literal@
        } else {
            Seq::empty()
        }
    }

    /// Before document start and outside definition bodies: the state in
    /// which document-level declarations are legal.
    pub open spec fn spec_premiere(self) -> bool {
        !self.doc_state.doc_start && !self.doc_state.parsing_define
    }

    pub open spec fn spec_math_mode(self) -> bool {
        self.math_started || self.doc_state.parsing_define
    }

    /// Builds a parser over a finished token vector, all flags clear.
    pub fn new(tokens: Vec<Token>) -> (p: Parser)
        ensures
            p.wf(),
            p.toks@ == tokens@,
            p.pos == 0,
            p.doc_state == (DocState {
                doc_start: false,
                prevent_end_doc: false,
                parsing_define: false,
            }),
            !p.math_started,
    {
        Parser {
            toks: tokens,
            pos: 0,
            doc_state: DocState { doc_start: false, prevent_end_doc: false, parsing_define: false },
            math_started: false,
        }
    }

    /// Takes the lookahead token and moves the cursor; at the end of the
    /// vector it stays put and hands out end-of-file tokens.
    fn next_tok(&mut self) -> (t: Token)
        requires
            old(self).wf(),
        ensures
            final(self).toks@ == old(self).toks@,
            final(self).doc_state == old(self).doc_state,
            final(self).math_started == old(self).math_started,
            final(self).wf(),
            old(self).pos < old(self).toks@.len() ==> final(self).pos == old(self).pos + 1 && t
                == old(self).toks@[old(self).pos as int],
            old(self).pos >= old(self).toks@.len() ==> final(self).pos == old(self).pos
                && t.toktype == TokenType::Eof && t.literal@ == Seq::<char>::empty() && t.span
                == Span::spec_zero(),
    {
        if self.pos < self.toks.len() {
            let t = self.toks[self.pos].clone();
            self.pos = self.pos + 1;
            t
        } else {
            Token::eof()
        }
    }

    fn peek_tok(&self) -> (t: TokenType)
        ensures
            t == self.spec_peek(),
    {
        if self.pos < self.toks.len() {
            self.toks[self.pos].toktype
        } else {
            TokenType::Eof
        }
    }

    fn peek_tok_location(&self) -> (s: Span)
        ensures
            s == self.spec_peek_span(),
    {
        if self.pos < self.toks.len() {
            self.toks[self.pos].span
        } else {
            Span::zero()
        }
    }

    fn is_eof(&self) -> (r: bool)
        ensures
            r == (self.spec_peek() == TokenType::Eof),
    {
        self.peek_tok() == TokenType::Eof
    }

    /// Whether document-level declarations are legal here.
    pub fn is_premiere(&self) -> (r: bool)
        ensures
            r == self.spec_premiere(),
    {
        !self.doc_state.doc_start && !self.doc_state.parsing_define
    }

    /// Whether math-context tokens are legal here.
    pub fn is_math_mode(&self) -> (r: bool)
        ensures
            r == self.spec_math_mode(),
    {
        self.math_started || self.doc_state.parsing_define
    }

    /// Skips space and tab tokens, and newline tokens when asked.
    fn eat_whitespaces(&mut self, newline_handle: bool)
        requires
            old(self).wf(),
        ensures
            final(self).toks@ == old(self).toks@,
            final(self).doc_state == old(self).doc_state,
            final(self).math_started == old(self).math_started,
            final(self).wf(),
            old(self).pos <= final(self).pos,
            final(self).pos == skip_ws(old(self).toks@, old(self).pos as int, newline_handle),
            !is_ws_tok(final(self).spec_peek(), newline_handle),
    {
        while self.peek_is_ws(newline_handle)
            invariant
                self.wf(),
                self.toks@ == old(self).toks@,
                self.doc_state == old(self).doc_state,
                self.math_started == old(self).math_started,
                old(self).pos <= self.pos,
                skip_ws(old(self).toks@, old(self).pos as int, newline_handle) == skip_ws(
                    self.toks@,
                    self.pos as int,
                    newline_handle,
                ),
            decreases self.toks@.len() - self.pos,
        {
            self.next_tok();
        }
    }

    fn peek_is_ws(&self, newline_handle: bool) -> (r: bool)
        ensures
            r == is_ws_tok(self.spec_peek(), newline_handle),
    {
        let t = self.peek_tok();
        t == TokenType::Space || t == TokenType::Tab || (newline_handle && t == TokenType::Newline)
    }

    /// Reads one integer-literal token; a literal that denotes no `i64`
    /// fails with an integer-parse error at the token's span.
    fn parse_integer(&mut self) -> (r: Result<Statement, VestiErr>)
        requires
            old(self).wf(),
        ensures
            frame(*old(self), *final(self)),
            final(self).doc_state == old(self).doc_state,
            final(self).math_started == old(self).math_started,
            old(self).pos < old(self).toks@.len() ==> final(self).pos == old(self).pos + 1 && {
                let lit = old(self).toks@[old(self).pos as int].literal@;
                let sp = old(self).toks@[old(self).pos as int].span;
                &&& valid_i64_literal(lit) ==> (r matches Ok(s) && s matches Statement::Integer(
                    v,
                ) && v as int == i64_lit_value(lit))
                &&& !valid_i64_literal(lit) ==> (r matches Err(e)
                    && crate::error::is_parse_int_err(e, sp))
            },
            r is Ok ==> old(self).pos < old(self).toks@.len(),
    {
        let curr = self.next_tok();
        match parse_i64_literal(curr.literal.as_str()) {
            Option::Some(v) => Ok(Statement::Integer(v)),
            Option::None => Err(
                VestiErr::make_parse_err(VestiParseErrKind::ParseIntErr, curr.span),
            ),
        }
    }

    /// Reads one float-literal token; the literal is kept as written and
    /// only its shape is checked.
    fn parse_float(&mut self) -> (r: Result<Statement, VestiErr>)
        requires
            old(self).wf(),
        ensures
            frame(*old(self), *final(self)),
            final(self).doc_state == old(self).doc_state,
            final(self).math_started == old(self).math_started,
            old(self).pos < old(self).toks@.len() ==> final(self).pos == old(self).pos + 1 && {
                let lit = old(self).toks@[old(self).pos as int].literal@;
                let sp = old(self).toks@[old(self).pos as int].span;
                &&& valid_float_literal(lit) ==> (r matches Ok(s) && s matches Statement::Float(
                    t,
                ) && t@ == lit)
                &&& !valid_float_literal(lit) ==> (r matches Err(e)
                    && crate::error::is_parse_float_err(e, sp))
            },
            r is Ok ==> old(self).pos < old(self).toks@.len(),
    {
        let curr = self.next_tok();
        if check_float_literal(curr.literal.as_str()) {
            Ok(Statement::Float(curr.literal))
        } else {
            Err(VestiErr::make_parse_err(VestiParseErrKind::ParseFloatErr, curr.span))
        }
    }

    /// Passes one raw-LaTeX token through unchanged.
    fn parse_raw_latex(&mut self) -> (r: Result<Statement, VestiErr>)
        requires
            old(self).wf(),
        ensures
            frame(*old(self), *final(self)),
            final(self).doc_state == old(self).doc_state,
            final(self).math_started == old(self).math_started,
            r matches Ok(s) && s matches Statement::RawLatex(t) && t@ == old(
                self,
            ).spec_peek_literal(),
            old(self).pos < old(self).toks@.len() ==> final(self).pos == old(self).pos + 1,
    {
        let curr = self.next_tok();
        Ok(Statement::RawLatex(curr.literal))
    }

    /// The catch-all production: one token becomes plain main text.
    fn parse_main_stmt(&mut self) -> (r: Result<Statement, VestiErr>)
        requires
            old(self).wf(),
        ensures
            frame(*old(self), *final(self)),
            final(self).doc_state == old(self).doc_state,
            final(self).math_started == old(self).math_started,
            old(self).spec_peek() == TokenType::Eof ==> (r matches Err(e)
                && crate::error::is_eof_err(e, old(self).spec_peek_span())),
            old(self).spec_peek() != TokenType::Eof ==> final(self).pos == old(self).pos + 1 && (r
                matches Ok(s) && s matches Statement::MainText(t) && t@ == old(
                self,
            ).spec_peek_literal()),
    {
        if self.is_eof() {
            return Err(VestiErr::make_parse_err(VestiParseErrKind::EOFErr, self.peek_tok_location()));
        }
        let curr = self.next_tok();
        Ok(Statement::MainText(curr.literal))
    }

    /// Captures the raw parameter text of a macro definition, verbatim
    /// between balanced parentheses, re-inserting a separating space
    /// before a leading text token and before any keyword.
    fn parse_function_definition_argument(&mut self) -> (r: Result<String, VestiErr>)
        requires
            old(self).wf(),
        ensures
            frame(*old(self), *final(self)),
            final(self).doc_state == old(self).doc_state,
            final(self).math_started == old(self).math_started,
            r is Ok ==> final(self).pos > old(self).pos,
            r matches Err(e) ==> e.spec_location() == old(self).spec_peek_span(),
            // an empty parameter list captures empty text
            ({
                let toks = old(self).toks@;
                let p0 = old(self).pos as int;
                (old(self).spec_peek() == TokenType::Lparen && p0 + 1 < toks.len() && toks[p0
                    + 1].toktype == TokenType::Rparen) ==> (r matches Ok(out) && out@
                    == Seq::<char>::empty() && final(self).pos == p0 + 2)
            }),
            // a flat parameter list of unclaimed tokens is captured
            // verbatim, with one space put back before a leading text
            // token
            ({
                let toks = old(self).toks@;
                let p0 = old(self).pos as int;
                let c = find_tok(toks, p0 + 1, TokenType::Rparen);
                (old(self).spec_peek() == TokenType::Lparen && c < toks.len() && (forall|j: int|
                    #![trigger toks[j]]
                    p0 + 1 <= j < c ==> plain_tok(toks[j].toktype) && toks[j].toktype
                        != TokenType::Lparen && toks[j].toktype != TokenType::Rparen)) ==> (r
                    matches Ok(out) && out@ == (if c > p0 + 1 && toks[p0 + 1].toktype
                    == TokenType::Text {
                    " "@
                } else {
                    Seq::<char>::empty()
                }) + literals_text(toks, p0 + 1, c) && final(self).pos == c + 1)
            }),
    {
        let ghost toks = old(self).toks@;
        let ghost p0 = old(self).pos as int;
        let ghost empty_params = old(self).spec_peek() == TokenType::Lparen && p0 + 1 < old(
            self,
        ).toks@.len() && old(self).toks@[p0 + 1].toktype == TokenType::Rparen;
        let ghost c = find_tok(toks, p0 + 1, TokenType::Rparen);
        proof {
            if p0 + 1 <= toks.len() {
                lemma_find_tok(toks, p0 + 1, TokenType::Rparen);
            }
        }
        let ghost cap = old(self).spec_peek() == TokenType::Lparen && c < toks.len() && (forall|
            j: int,
        |
            #![trigger toks[j]]
            p0 + 1 <= j < c ==> plain_tok(toks[j].toktype) && toks[j].toktype != TokenType::Lparen
                && toks[j].toktype != TokenType::Rparen);
        let open_brace_location = self.peek_tok_location();
        let mut output = String::new();
        let mut parenthesis_level: usize = 0;
        let mut is_first_token = true;
        self.expect_peek(TokenType::Lparen, open_brace_location)?;
        while !self.is_eof()
            invariant
                self.wf(),
                self.toks@ == old(self).toks@,
                self.doc_state == old(self).doc_state,
                self.math_started == old(self).math_started,
                old(self).pos < self.pos,
                (parenthesis_level as int) < self.pos - old(self).pos,
                empty_params ==> (self.pos == p0 + 1 && output@ == Seq::<char>::empty()),
                cap ==> (p0 + 1 <= self.pos <= c && parenthesis_level == 0 && (is_first_token
                    <==> self.pos == p0 + 1) && output@ == (if self.pos > p0 + 1 && toks[p0
                    + 1].toktype == TokenType::Text {
                    " "@
                } else {
                    Seq::<char>::empty()
                }) + literals_text(toks, p0 + 1, self.pos as int)),
            decreases self.toks@.len() - self.pos,
        {
            let t = self.peek_tok();
            proof {
                if cap && self.pos < c {
                    assert(plain_tok(toks[self.pos as int].toktype));
                    assert(!toks[self.pos as int].toktype.spec_is_keyword());
                }
            }
            if t == TokenType::Lparen {
                proof {
                    assert(self.pos < self.toks@.len());
                    if cap {
                        assert(self.pos < c || self.pos == c);
                        assert(false);
                    }
                }
                parenthesis_level = parenthesis_level + 1;
            } else if t == TokenType::Rparen {
                if parenthesis_level == 0 {
                    proof {
                        if cap {
                            assert(self.pos == c) by {
                                if self.pos < c {
                                    assert(plain_tok(toks[self.pos as int].toktype));
                                }
                            }
                        }
                    }
                    break;
                }
                parenthesis_level = parenthesis_level - 1;
            }
            if is_first_token && t == TokenType::Text || t.is_keyword() {
                output.append(" ");
            }
            is_first_token = false;
            let ghost it_pos2 = self.pos as int;
            let tok = self.next_tok();
            output.append(tok.literal.as_str());
            proof {
                if cap {
                    assert(literals_text(toks, p0 + 1, it_pos2 + 1) == literals_text(
                        toks,
                        p0 + 1,
                        it_pos2,
                    ) + toks[it_pos2].literal@);
                    assert(output@ =~= (if self.pos > p0 + 1 && toks[p0 + 1].toktype
                        == TokenType::Text {
                        " "@
                    } else {
                        Seq::<char>::empty()
                    }) + literals_text(toks, p0 + 1, self.pos as int));
                }
            }
        }
        self.expect_peek(TokenType::Rparen, open_brace_location)?;
        Ok(output)
    }

    /// Reads a parenthesized, comma-separated option list into `options`
    /// if one follows; otherwise leaves `options` untouched.
    #[verifier::rlimit(100)]
    #[verifier::spinoff_prover]
    fn parse_comma_args(&mut self, options: &mut Option<Vec<Latex>>) -> (r: Result<(), VestiErr>)
        requires
            old(self).wf(),
            *old(options) is None,
        ensures
            frame(*old(self), *final(self)),
            crate::ast::opts_wf(*final(options)),
            ({
                let q = skip_ws(old(self).toks@, old(self).pos as int, false);
                (q >= old(self).toks@.len() || old(self).toks@[q].toktype != TokenType::Lparen)
                    ==> (r is Ok && *final(options) == *old(options) && final(self).pos == q)
            }),
            // success is owed on a one-token option list, which becomes
            // its single group
            ({
                let toks = old(self).toks@;
                let q = skip_ws(toks, old(self).pos as int, false);
                (q < toks.len() && toks[q].toktype == TokenType::Lparen && q + 2 < toks.len()
                    && plain_tok(toks[q + 1].toktype) && !is_ws_tok(toks[q + 1].toktype, true)
                    && toks[q + 1].toktype != TokenType::Comma && toks[q + 1].toktype
                    != TokenType::Rparen && toks[q + 2].toktype == TokenType::Rparen) ==> (r is Ok
                    && (*final(options) matches Some(og) && og@.len() == 1 && og@[0]@.len() == 1
                    && (og@[0]@[0] matches Statement::MainText(txt) && txt@ == toks[q
                    + 1].literal@)))
            }),
            // an option list of unclaimed tokens that never closes fails
            // with the bracket-count error at the opening brace's span
            ({
                let toks = old(self).toks@;
                let q = skip_ws(toks, old(self).pos as int, false);
                (q < toks.len() && toks[q].toktype == TokenType::Lparen && (forall|j: int|
                    #![trigger toks[j]]
                    q + 1 <= j < toks.len() ==> plain_tok(toks[j].toktype) && !is_ws_tok(
                        toks[j].toktype,
                        true,
                    ) && toks[j].toktype != TokenType::Comma && toks[j].toktype
                        != TokenType::Rparen)) ==> (r matches Err(e)
                    && crate::error::is_bracket_number_err(e, toks[q].span))
            }),
        decreases old(self).toks@.len() - old(self).pos, 0int,
    {
        let ghost toks = old(self).toks@;
        self.eat_whitespaces(false);
        let ghost q = self.pos as int;
        if self.peek_tok() == TokenType::Lparen {
            let ghost single = q + 2 < toks.len() && plain_tok(toks[q + 1].toktype) && !is_ws_tok(
                toks[q + 1].toktype,
                true,
            ) && toks[q + 1].toktype != TokenType::Comma && toks[q + 1].toktype
                != TokenType::Rparen && toks[q + 2].toktype == TokenType::Rparen;
            let ghost unclosed = forall|j: int|
                #![trigger toks[j]]
                q + 1 <= j < toks.len() ==> plain_tok(toks[j].toktype) && !is_ws_tok(
                    toks[j].toktype,
                    true,
                ) && toks[j].toktype != TokenType::Comma && toks[j].toktype != TokenType::Rparen;
            let mut options_vec: Vec<Latex> = Vec::new();
            // the location of the opening brace, for bracket errors
            let open_brace_location = self.peek_tok_location();
            self.next_tok();
            self.eat_whitespaces(true);
            proof {
                if single || unclosed {
                    assert(skip_ws(toks, q + 1, true) == q + 1);
                }
            }
            while self.peek_tok() != TokenType::Rparen
                invariant
                    frame(*old(self), *self),
                    old(self).pos < self.pos,
                    q < self.pos,
                    forall|i: int|
                        #![trigger options_vec@[i]]
                        0 <= i < options_vec@.len() ==> latex_wf(options_vec@[i]@),
                    single ==> (self.pos == q + 1 && options_vec@.len() == 0) || (self.pos == q + 2
                        && options_vec@.len() == 1 && options_vec@[0]@.len() == 1 && (
                    options_vec@[0]@[0] matches Statement::MainText(txt) && txt@ == toks[q
                        + 1].literal@)),
                    unclosed ==> self.pos == q + 1 && options_vec@.len() == 0,
                decreases self.toks@.len() - self.pos,
            {
                let ghost it_pos = self.pos;
                if self.is_eof() {
                    proof {
                        if single {
                            assert(false);
                        }
                    }
                    return Err(VestiErr::make_parse_err(
                        VestiParseErrKind::BracketNumberMatchedErr,
                        open_brace_location,
                    ));
                }
                self.eat_whitespaces(true);
                let mut tmp: Latex = Vec::new();
                while self.peek_tok() != TokenType::Comma
                    invariant
                        frame(*old(self), *self),
                        old(self).pos < self.pos,
                        it_pos <= self.pos,
                        latex_wf(tmp@),
                        single ==> (self.pos == q + 1 && tmp@.len() == 0) || (self.pos == q + 2
                            && tmp@.len() == 1 && (tmp@[0] matches Statement::MainText(txt) && txt@
                            == toks[q + 1].literal@)),
                        unclosed ==> tmp@.len() == self.pos - (q + 1),
                    decreases self.toks@.len() - self.pos,
                {
                    let ghost it = *self;
                    self.eat_whitespaces(true);
                    proof {
                        if (single || unclosed) && it.pos < toks.len() {
                            assert(skip_ws(toks, it.pos as int, true) == it.pos as int);
                        }
                    }
                    if self.is_eof() {
                        proof {
                            if single {
                                assert(false);
                            }
                        }
                        return Err(VestiErr::make_parse_err(
                            VestiParseErrKind::BracketNumberMatchedErr,
                            open_brace_location,
                        ));
                    }
                    if self.peek_tok() == TokenType::Rparen {
                        break;
                    }
                    let ghost it2 = *self;
                    match self.parse_statement() {
                        Result::Ok(stmt) => {
                            tmp.push(stmt);
                            proof {
                                assert forall|k: int| 0 <= k < tmp@.len() implies stmt_wf(
                                    #[trigger] tmp@[k],
                                ) by {}
                                if single {
                                    assert(it2.pos == q + 1);
                                    assert(is_catchall(it2));
                                }
                                if unclosed {
                                    assert(plain_tok(toks[it2.pos as int].toktype));
                                }
                            }
                        },
                        Result::Err(e) => {
                            proof {
                                if single {
                                    assert(it2.pos == q + 1);
                                    assert(is_catchall(it2));
                                    assert(false);
                                }
                                if unclosed {
                                    assert(plain_tok(toks[it2.pos as int].toktype));
                                    assert(is_catchall(it2));
                                    assert(false);
                                }
                            }
                            return Err(e);
                        },
                    }
                }
                proof {
                    // a span of tokens that holds no comma and no closer
                    // can only end at the end of the input
                    if unclosed {
                        if self.pos < toks.len() {
                            assert(plain_tok(toks[self.pos as int].toktype));
                        }
                        assert(false);
                    }
                }
                options_vec.push(tmp);
                proof {
                    assert forall|k: int|
                        0 <= k < options_vec@.len() implies latex_wf(
                        (#[trigger] options_vec@[k])@,
                    ) by {}
                }
                self.eat_whitespaces(true);
                proof {
                    if single {
                        assert(skip_ws(toks, q + 2, true) == q + 2);
                    }
                }
                if self.peek_tok() == TokenType::Rparen {
                    break;
                }
                proof {
                    if single {
                        assert(false);
                    }
                }
                self.expect_peek(TokenType::Comma, self.peek_tok_location())?;
                self.eat_whitespaces(true);
            }
            proof {
                if unclosed {
                    if self.pos < toks.len() {
                        assert(plain_tok(toks[self.pos as int].toktype));
                    }
                    assert(false);
                }
            }
            self.expect_peek(TokenType::Rparen, self.peek_tok_location())?;
            self.eat_whitespaces(false);
            *options = Some(options_vec);
        }
        Ok(())
    }

    /// Parses `docclass name (opt, ...)`, legal only in the premiere
    /// state.
    fn parse_docclass(&mut self) -> (r: Result<Statement, VestiErr>)
        requires
            old(self).wf(),
        ensures
            frame(*old(self), *final(self)),
            r is Ok ==> final(self).pos > old(self).pos,
            r matches Ok(s) ==> (s is DocumentClass && stmt_wf(s)),
            // success is owed when a name follows and no option list opens
            ({
                let toks = old(self).toks@;
                let q = skip_ws(toks, old(self).pos + 1, false);
                let q2 = skip_ws(toks, q + 1, false);
                (old(self).spec_peek() == TokenType::Docclass && q < toks.len() && toks[q].toktype
                    == TokenType::Text && (q2 >= toks.len() || toks[q2].toktype
                    != TokenType::Lparen)) ==> (r matches Ok(s) && s matches
                Statement::DocumentClass { name, options } && name@ == toks[q].literal@ && options
                    is None)
            }),
        decreases old(self).toks@.len() - old(self).pos, 0int,
    {
        let mut options: Option<Vec<Latex>> = None;
        let loc = self.peek_tok_location();
        self.expect_peek(TokenType::Docclass, loc)?;
        self.eat_whitespaces(false);
        let name = self.take_name(TokenType::Docclass)?;
        self.parse_comma_args(&mut options)?;
        if self.peek_tok() == TokenType::Newline {
            self.next_tok();
        }
        Ok(Statement::DocumentClass { name, options })
    }

    /// Parses a package import: a single `importpkg name (opt, ...)`, or
    /// the batch form inside braces.
    fn parse_usepackage(&mut self) -> (r: Result<Statement, VestiErr>)
        requires
            old(self).wf(),
        ensures
            frame(*old(self), *final(self)),
            r is Ok ==> final(self).pos > old(self).pos,
            r matches Ok(s) ==> ((s is Usepackage || s is MultiUsepackages) && stmt_wf(s)),
            // success is owed when a name follows and no option list opens
            ({
                let toks = old(self).toks@;
                let q = skip_ws(toks, old(self).pos + 1, false);
                let q2 = skip_ws(toks, q + 1, false);
                (old(self).spec_peek() == TokenType::Import && q < toks.len() && toks[q].toktype
                    == TokenType::Text && (q2 >= toks.len() || toks[q2].toktype
                    != TokenType::Lparen)) ==> (r matches Ok(s) && s matches Statement::Usepackage {
                    name,
                    options,
                } && name@ == toks[q].literal@ && options is None)
            }),
        decreases old(self).toks@.len() - old(self).pos, 0int,
    {
        let loc = self.peek_tok_location();
        self.expect_peek(TokenType::Import, loc)?;
        self.eat_whitespaces(false);
        if self.peek_tok() == TokenType::Lbrace {
            return self.parse_multiple_usepackages();
        }
        let mut options: Option<Vec<Latex>> = None;
        let name = self.take_name(TokenType::Import)?;
        self.parse_comma_args(&mut options)?;
        if self.peek_tok() == TokenType::Newline {
            self.next_tok();
        }
        Ok(Statement::Usepackage { name, options })
    }

    /// Parses the batch import form: brace-delimited entries separated by
    /// commas or newlines.  Every member of the batch is a single package
    /// import.
    #[verifier::rlimit(100)]
    #[verifier::spinoff_prover]
    fn parse_multiple_usepackages(&mut self) -> (r: Result<Statement, VestiErr>)
        requires
            old(self).wf(),
        ensures
            frame(*old(self), *final(self)),
            r is Ok ==> final(self).pos > old(self).pos,
            r matches Ok(s) ==> (s matches Statement::MultiUsepackages { pkgs } && latex_wf(pkgs@)
                && (forall|i: int|
                #![trigger pkgs@[i]]
                0 <= i < pkgs@.len() ==> pkgs@[i] is Usepackage)),
            // a one-member batch: success is owed, keeping the member's
            // name
            ({
                let toks = old(self).toks@;
                let p0 = old(self).pos as int;
                let q = skip_ws(toks, p0 + 1, true);
                let q2 = skip_ws(toks, q + 1, false);
                let q3 = skip_ws(toks, q2, true);
                (old(self).spec_peek() == TokenType::Lbrace && q < toks.len() && toks[q].toktype
                    == TokenType::Text && (q2 >= toks.len() || toks[q2].toktype
                    != TokenType::Lparen) && q3 < toks.len() && toks[q3].toktype
                    == TokenType::Rbrace) ==> (r matches Ok(s) && s matches
                    Statement::MultiUsepackages { pkgs } && pkgs@.len() == 1 && (pkgs@[0] matches
                    Statement::Usepackage { name, options } && name@ == toks[q].literal@ && options
                    is None))
            }),
            // the same batch whose input ends inside the braces fails at
            // the end of the input
            ({
                let toks = old(self).toks@;
                let p0 = old(self).pos as int;
                let q = skip_ws(toks, p0 + 1, true);
                let q2 = skip_ws(toks, q + 1, false);
                let q3 = skip_ws(toks, q2, true);
                (old(self).spec_peek() == TokenType::Lbrace && q < toks.len() && toks[q].toktype
                    == TokenType::Text && (q2 >= toks.len() || toks[q2].toktype
                    != TokenType::Lparen) && q3 >= toks.len()) ==> (r matches Err(e)
                    && crate::error::is_eof_err(e, Span::spec_zero()))
            }),
            // a separator other than a comma or the closing brace is a
            // type mismatch at its own span
            ({
                let toks = old(self).toks@;
                let p0 = old(self).pos as int;
                let q = skip_ws(toks, p0 + 1, true);
                let q2 = skip_ws(toks, q + 1, false);
                let q3 = skip_ws(toks, q2, true);
                (old(self).spec_peek() == TokenType::Lbrace && q < toks.len() && toks[q].toktype
                    == TokenType::Text && (q2 >= toks.len() || toks[q2].toktype
                    != TokenType::Lparen) && q3 < toks.len() && toks[q3].toktype
                    != TokenType::Rbrace && toks[q3].toktype != TokenType::Comma
                    && toks[q3].toktype != TokenType::Eof) ==> (r matches Err(e)
                    && crate::error::is_type_mismatch(
                    e,
                    seq![TokenType::Comma, TokenType::Rbrace],
                    toks[q3].toktype,
                    toks[q3].span,
                ))
            }),
        decreases old(self).toks@.len() - old(self).pos, 0int,
    {
        let ghost toks = old(self).toks@;
        let ghost p0 = old(self).pos as int;
        let ghost q = skip_ws(toks, p0 + 1, true);
        let ghost q2 = skip_ws(toks, q + 1, false);
        let ghost q3 = skip_ws(toks, q2, true);
        let ghost hdr = old(self).spec_peek() == TokenType::Lbrace && q < toks.len()
            && toks[q].toktype == TokenType::Text && (q2 >= toks.len() || toks[q2].toktype
            != TokenType::Lparen);
        let ghost covered = hdr && (q3 >= toks.len() || toks[q3].toktype != TokenType::Comma);
        let mut pkgs: Vec<Statement> = Vec::new();
        let loc = self.peek_tok_location();
        self.expect_peek(TokenType::Lbrace, loc)?;
        self.eat_whitespaces(true);
        while self.peek_tok() != TokenType::Rbrace
            invariant
                frame(*old(self), *self),
                old(self).pos < self.pos,
                latex_wf(pkgs@),
                forall|i: int|
                    #![trigger pkgs@[i]]
                    0 <= i < pkgs@.len() ==> pkgs@[i] is Usepackage,
                covered ==> (self.pos == q && pkgs@.len() == 0) || (self.pos == q3 && q3
                    < toks.len() && toks[q3].toktype == TokenType::Rbrace && pkgs@.len() == 1 && (
                pkgs@[0] matches Statement::Usepackage { name, options } && name@ == toks[
                    q
                ].literal@ && options is None)),
            decreases self.toks@.len() - self.pos,
        {
            let mut options: Option<Vec<Latex>> = None;
            let name = self.take_name(TokenType::Import)?;
            self.parse_comma_args(&mut options)?;
            self.eat_whitespaces(true);
            match self.peek_tok() {
                TokenType::Comma => {
                    proof {
                        if covered {
                            assert(false);
                        }
                    }
                    self.next_tok();
                    self.eat_whitespaces(true);
                    if self.peek_tok() == TokenType::Rbrace {
                        pkgs.push(Statement::Usepackage { name, options });
                        proof {
                            assert forall|k: int| 0 <= k < pkgs@.len() implies stmt_wf(
                                #[trigger] pkgs@[k],
                            ) && pkgs@[k] is Usepackage by {}
                        }
                        break;
                    }
                },
                TokenType::Rbrace => {
                    pkgs.push(Statement::Usepackage { name, options });
                    proof {
                        assert forall|k: int| 0 <= k < pkgs@.len() implies stmt_wf(
                            #[trigger] pkgs@[k],
                        ) && pkgs@[k] is Usepackage by {}
                    }
                    break;
                },
                TokenType::Eof => {
                    return Err(VestiErr::make_parse_err(
                        VestiParseErrKind::EOFErr,
                        self.peek_tok_location(),
                    ));
                },
                tok_type => {
                    let expected: Vec<TokenType> = vec![TokenType::Comma, TokenType::Rbrace];
                    proof {
                        assert(expected@ =~= seq![TokenType::Comma, TokenType::Rbrace]);
                    }
                    return Err(VestiErr::make_parse_err(
                        VestiParseErrKind::TypeMismatch { expected, got: tok_type },
                        self.peek_tok_location(),
                    ));
                },
            }
            pkgs.push(Statement::Usepackage { name, options });
            proof {
                assert forall|k: int| 0 <= k < pkgs@.len() implies stmt_wf(#[trigger] pkgs@[k])
                    && pkgs@[k] is Usepackage by {}
            }
        }
        self.expect_peek(TokenType::Rbrace, self.peek_tok_location())?;
        self.eat_whitespaces(false);
        if self.peek_tok() == TokenType::Newline {
            self.next_tok();
        }
        Ok(Statement::MultiUsepackages { pkgs })
    }

    /// Parses an `endenv` marker: an environment end with no attached
    /// body.  By the phantom design no matching opener is looked for:
    /// the pairing is deferred to the emitted LaTeX.
    #[verifier::rlimit(100)]
    #[verifier::spinoff_prover]
    fn parse_end_phantom_environment(&mut self) -> (r: Result<Statement, VestiErr>)
        requires
            old(self).wf(),
        ensures
            frame(*old(self), *final(self)),
            r is Ok ==> final(self).pos > old(self).pos,
            r matches Ok(s) ==> (s is EndPhantomEnvironment && stmt_wf(s)),
            // success is owed for a name, which keeps its text plus one
            // star per following star token
            ({
                let toks = old(self).toks@;
                let p0 = old(self).pos as int;
                let q = skip_ws(toks, p0 + 1, false);
                (old(self).spec_peek() == TokenType::Endenv && q < toks.len() && toks[q].toktype
                    == TokenType::Text) ==> (r matches Ok(s) && s matches
                    Statement::EndPhantomEnvironment { name } && name@ == toks[q].literal@
                    + Seq::new((star_end(toks, q + 1) - (q + 1)) as nat, |x: int| '*'))
            }),
            // exhausted input after the keyword fails at the keyword's
            // span
            ({
                let toks = old(self).toks@;
                let p0 = old(self).pos as int;
                let q = skip_ws(toks, p0 + 1, false);
                (old(self).spec_peek() == TokenType::Endenv && (q >= toks.len() || toks[q].toktype
                    == TokenType::Eof)) ==> (r matches Err(e) && crate::error::is_eof_err(
                    e,
                    old(self).spec_peek_span(),
                ))
            }),
            // anything else where the name should stand is a missing
            // name at the keyword's span
            ({
                let toks = old(self).toks@;
                let p0 = old(self).pos as int;
                let q = skip_ws(toks, p0 + 1, false);
                (old(self).spec_peek() == TokenType::Endenv && q < toks.len() && toks[q].toktype
                    != TokenType::Text && toks[q].toktype != TokenType::Eof) ==> (r matches Err(e)
                    && crate::error::is_name_miss(
                    e,
                    TokenType::Endenv,
                    old(self).spec_peek_span(),
                ))
            }),
        decreases old(self).toks@.len() - old(self).pos, 0int,
    {
        let ghost toks = old(self).toks@;
        let ghost p0 = old(self).pos as int;
        let endenv_location = self.peek_tok_location();
        self.expect_peek(TokenType::Endenv, endenv_location)?;
        self.eat_whitespaces(false);
        let ghost q = self.pos as int;
        let mut name = match self.peek_tok() {
            TokenType::Text => {
                let t = self.next_tok();
                t.literal
            },
            TokenType::Eof => {
                return Err(VestiErr::make_parse_err(VestiParseErrKind::EOFErr, endenv_location));
            },
            _ => {
                return Err(VestiErr::make_parse_err(
                    VestiParseErrKind::NameMissErr { toktype: TokenType::Endenv },
                    endenv_location,
                ));
            },
        };
        let ghost base = name@;
        proof {
            lemma_star_end(toks, q + 1);
            reveal_strlit("*");
            assert(name@ =~= base + Seq::new(0, |x: int| '*'));
        }
        while self.peek_tok() == TokenType::Star
            invariant
                frame(*old(self), *self),
                old(self).pos < self.pos,
                q + 1 <= self.pos <= star_end(toks, q + 1),
                name@ == base + Seq::new((self.pos - (q + 1)) as nat, |x: int| '*'),
            decreases self.toks@.len() - self.pos,
        {
            proof {
                assert(self.pos < star_end(toks, q + 1)) by {
                    if self.pos == star_end(toks, q + 1) {
                        assert(toks[self.pos as int].toktype != TokenType::Star);
                    }
                }
            }
            self.expect_peek(TokenType::Star, self.peek_tok_location())?;
            name.append("*");
            proof {
                assert(name@ =~= base + Seq::new((self.pos - (q + 1)) as nat, |x: int| '*'));
            }
        }
        proof {
            assert(self.pos == star_end(toks, q + 1)) by {
                if self.pos < star_end(toks, q + 1) {
                    assert(toks[self.pos as int].toktype == TokenType::Star);
                }
            }
        }
        self.eat_whitespaces(false);
        Ok(Statement::EndPhantomEnvironment { name })
    }

    /// Parses an ordered argument list: each main, optional, or star
    /// argument begins one entry, and a splitter inside a bracket starts
    /// a new entry sharing the bracket kind.
    fn parse_function_args(
        &mut self,
        open: TokenType,
        closed: TokenType,
        optional_open: TokenType,
        optional_closed: TokenType,
    ) -> (r: Result<Vec<(ArgNeed, Vec<Statement>)>, VestiErr>)
        requires
            old(self).wf(),
            open != TokenType::Eof,
            closed != TokenType::Eof,
            optional_open != TokenType::Eof,
            optional_closed != TokenType::Eof,
        ensures
            frame(*old(self), *final(self)),
            r matches Ok(v) ==> crate::ast::args_wf(v@),
            // with no opener in sight there are no arguments to read
            (old(self).spec_peek() != open && old(self).spec_peek() != optional_open && old(
                self,
            ).spec_peek() != TokenType::Star) ==> (r matches Ok(v) && v@.len() == 0
                && final(self).pos == old(self).pos && final(self).doc_state == old(
                self,
            ).doc_state && final(self).math_started == old(self).math_started),
            // success is owed on exactly one delimited argument of
            // unclaimed, unsplit tokens followed by no further opener
            ({
                let toks = old(self).toks@;
                let p0 = old(self).pos as int;
                let c = find_tok(toks, p0 + 1, closed);
                (old(self).spec_peek() == open && open != optional_open && open != TokenType::Star
                    && closed != TokenType::ArgSpliter && c < toks.len() && (forall|j: int|
                    #![trigger toks[j]]
                    p0 + 1 <= j < c ==> plain_tok(toks[j].toktype) && toks[j].toktype != closed
                        && toks[j].toktype != TokenType::ArgSpliter) && (c + 1 >= toks.len() || (
                toks[c + 1].toktype != open && toks[c + 1].toktype != optional_open && toks[c
                    + 1].toktype != TokenType::Star))) ==> (r matches Ok(v) && v@.len() == 1 && {
                    let entry = v@[0];
                    &&& entry.0 == ArgNeed::MainArg
                    &&& entry.1@.len() == c - p0 - 1
                    &&& (forall|k: int|
                        #![trigger entry.1@[k]]
                        0 <= k < entry.1@.len() ==> (entry.1@[k] matches Statement::MainText(txt)
                            && txt@ == toks[p0 + 1 + k].literal@))
                } && final(self).pos == c + 1)
            }),
        decreases old(self).toks@.len() - old(self).pos, 1int,
    {
        let ghost toks = old(self).toks@;
        let ghost p0 = old(self).pos as int;
        let ghost c = find_tok(toks, p0 + 1, closed);
        let ghost single = old(self).spec_peek() == open && open != optional_open && open
            != TokenType::Star && closed != TokenType::ArgSpliter && c < toks.len() && (forall|
            j: int,
        |
            #![trigger toks[j]]
            p0 + 1 <= j < c ==> plain_tok(toks[j].toktype) && toks[j].toktype != closed
                && toks[j].toktype != TokenType::ArgSpliter) && (c + 1 >= toks.len() || (toks[c
            + 1].toktype != open && toks[c + 1].toktype != optional_open && toks[c + 1].toktype
            != TokenType::Star));
        let mut args: Vec<(ArgNeed, Vec<Statement>)> = Vec::new();
        let t = self.peek_tok();
        if t == open || t == optional_open || t == TokenType::Star {
            loop
                invariant
                    frame(*old(self), *self),
                    crate::ast::args_wf(args@),
                    single ==> (self.pos == p0 && args@.len() == 0) || (self.pos == c + 1
                        && args@.len() == 1 && args@[0].0 == ArgNeed::MainArg && args@[0].1@.len()
                        == c - p0 - 1 && (forall|k: int|
                        #![trigger args@[0].1@[k]]
                        0 <= k < args@[0].1@.len() ==> (args@[0].1@[k] matches
                            Statement::MainText(txt) && txt@ == toks[p0 + 1 + k].literal@))),
                decreases self.toks@.len() - self.pos,
            {
                let t2 = self.peek_tok();
                if t2 == open {
                    self.parse_function_args_core(&mut args, open, closed, ArgNeed::MainArg)?;
                } else if t2 == optional_open {
                    self.parse_function_args_core(
                        &mut args,
                        optional_open,
                        optional_closed,
                        ArgNeed::Optional,
                    )?;
                } else if t2 == TokenType::Star {
                    self.expect_peek(TokenType::Star, self.peek_tok_location())?;
                    args.push((ArgNeed::StarArg, Vec::new()));
                    proof {
                        assert forall|k: int| 0 <= k < args@.len() implies latex_wf(
                            (#[trigger] args@[k]).1@,
                        ) by {}
                    }
                } else {
                    break;
                }
                let t3 = self.peek_tok();
                if t3 == TokenType::Eof || t3 == TokenType::Newline {
                    break;
                }
            }
        }
        Ok(args)
    }

    /// Parses one delimited argument, splitting it at argument-splitter
    /// tokens into several entries of the same kind.
    #[verifier::rlimit(100)]
    #[verifier::spinoff_prover]
    fn parse_function_args_core(
        &mut self,
        args: &mut Vec<(ArgNeed, Vec<Statement>)>,
        open: TokenType,
        closed: TokenType,
        arg_need: ArgNeed,
    ) -> (r: Result<(), VestiErr>)
        requires
            old(self).wf(),
            crate::ast::args_wf(old(args)@),
            open != TokenType::Eof,
            closed != TokenType::Eof,
        ensures
            frame(*old(self), *final(self)),
            crate::ast::args_wf(final(args)@),
            r is Ok ==> final(self).pos > old(self).pos,
            // success is owed on one delimited argument of unclaimed,
            // unsplit tokens whose closer is present; it becomes one
            // entry holding its literals in order
            ({
                let toks = old(self).toks@;
                let p0 = old(self).pos as int;
                let c = find_tok(toks, p0 + 1, closed);
                (old(self).spec_peek() == open && closed != TokenType::ArgSpliter && c
                    < toks.len() && (forall|j: int|
                    #![trigger toks[j]]
                    p0 + 1 <= j < c ==> plain_tok(toks[j].toktype) && toks[j].toktype != closed
                        && toks[j].toktype != TokenType::ArgSpliter)) ==> (r is Ok
                    && final(args)@.len() == old(args)@.len() + 1 && (forall|i: int|
                    0 <= i < old(args)@.len() ==> #[trigger] final(args)@[i] == old(args)@[i]) && {
                    let entry = final(args)@[old(args)@.len() as int];
                    &&& entry.0 == arg_need
                    &&& entry.1@.len() == c - p0 - 1
                    &&& (forall|k: int|
                        #![trigger entry.1@[k]]
                        0 <= k < entry.1@.len() ==> (entry.1@[k] matches Statement::MainText(txt)
                            && txt@ == toks[p0 + 1 + k].literal@))
                } && final(self).pos == c + 1)
            }),
            // one that never reaches its closer fails with the
            // bracket-count error at the opening delimiter's span
            ({
                let toks = old(self).toks@;
                let p0 = old(self).pos as int;
                let c = find_tok(toks, p0 + 1, closed);
                (old(self).spec_peek() == open && closed != TokenType::ArgSpliter && c
                    >= toks.len() && (forall|j: int|
                    #![trigger toks[j]]
                    p0 + 1 <= j < toks.len() ==> plain_tok(toks[j].toktype) && toks[j].toktype
                        != closed && toks[j].toktype != TokenType::ArgSpliter)) ==> (r matches Err(
                    e,
                ) && crate::error::is_bracket_number_err(e, old(self).spec_peek_span()))
            }),
        decreases old(self).toks@.len() - old(self).pos, 0int,
    {
        let ghost toks = old(self).toks@;
        let ghost p0 = old(self).pos as int;
        let open_brace_location = self.peek_tok_location();
        self.expect_peek(open, open_brace_location)?;
        let ghost c = find_tok(toks, p0 + 1, closed);
        proof {
            lemma_find_tok(toks, p0 + 1, closed);
        }
        let ghost single = old(self).spec_peek() == open && closed != TokenType::ArgSpliter && c
            < toks.len() && (forall|j: int|
            #![trigger toks[j]]
            p0 + 1 <= j < c ==> plain_tok(toks[j].toktype) && toks[j].toktype != closed
                && toks[j].toktype != TokenType::ArgSpliter);
        let ghost unclosed_core = old(self).spec_peek() == open && closed != TokenType::ArgSpliter
            && c >= toks.len() && (forall|j: int|
            #![trigger toks[j]]
            p0 + 1 <= j < toks.len() ==> plain_tok(toks[j].toktype) && toks[j].toktype != closed
                && toks[j].toktype != TokenType::ArgSpliter);
        loop
            invariant
                frame(*old(self), *self),
                old(self).pos < self.pos,
                crate::ast::args_wf(args@),
                single ==> (self.pos == p0 + 1 && args@.len() == old(args)@.len() && (forall|
                    i: int,
                |
                    0 <= i < old(args)@.len() ==> #[trigger] args@[i] == old(args)@[i])),
            decreases self.toks@.len() - self.pos,
        {
            let ghost it_pos = self.pos;
            let mut tmp_vec: Vec<Statement> = Vec::new();
            while self.peek_tok() != closed && self.peek_tok() != TokenType::ArgSpliter
                invariant
                    frame(*old(self), *self),
                    old(self).pos < self.pos,
                    it_pos <= self.pos,
                    latex_wf(tmp_vec@),
                    single ==> (self.pos <= c && tmp_vec@.len() == self.pos - (p0 + 1) && (forall|
                        k: int,
                    |
                        #![trigger tmp_vec@[k]]
                        0 <= k < tmp_vec@.len() ==> (tmp_vec@[k] matches Statement::MainText(txt)
                            && txt@ == toks[p0 + 1 + k].literal@))),
                decreases self.toks@.len() - self.pos,
            {
                let ghost it = *self;
                if self.is_eof() {
                    proof {
                        if single {
                            if it.pos == c {
                                assert(it.spec_peek() == closed);
                            } else {
                                assert(plain_tok(toks[it.pos as int].toktype));
                            }
                            assert(false);
                        }
                    }
                    return Err(VestiErr::make_parse_err(
                        VestiParseErrKind::BracketNumberMatchedErr,
                        open_brace_location,
                    ));
                }
                proof {
                    if unclosed_core {
                        assert(plain_tok(toks[it.pos as int].toktype));
                        assert(is_catchall(it));
                    }
                }
                match self.parse_statement() {
                    Result::Ok(stmt) => {
                        tmp_vec.push(stmt);
                        proof {
                            assert forall|k: int| 0 <= k < tmp_vec@.len() implies stmt_wf(
                                #[trigger] tmp_vec@[k],
                            ) by {}
                            if single {
                                if it.pos == c {
                                    assert(it.spec_peek() == closed);
                                    assert(false);
                                }
                                assert(plain_tok(toks[it.pos as int].toktype));
                                assert(is_catchall(it));
                                assert forall|k: int|
                                    0 <= k < tmp_vec@.len() implies ((#[trigger] tmp_vec@[k])
                                    matches Statement::MainText(txt) && txt@ == toks[p0 + 1
                                    + k].literal@) by {}
                            }
                        }
                    },
                    Result::Err(e) => {
                        proof {
                            if single {
                                if it.pos == c {
                                    assert(it.spec_peek() == closed);
                                } else {
                                    assert(plain_tok(toks[it.pos as int].toktype));
                                    assert(is_catchall(it));
                                }
                                assert(false);
                            }
                        }
                        return Err(e);
                    },
                }
            }
            proof {
                if single {
                    assert(self.pos == c) by {
                        if self.pos < c {
                            assert(plain_tok(toks[self.pos as int].toktype));
                        }
                    }
                }
                if unclosed_core {
                    if self.pos < toks.len() {
                        assert(plain_tok(toks[self.pos as int].toktype));
                    } else {
                        assert(self.spec_peek() == TokenType::Eof);
                    }
                    assert(false);
                }
            }
            args.push((arg_need, tmp_vec));
            proof {
                assert forall|k: int| 0 <= k < args@.len() implies latex_wf(
                    (#[trigger] args@[k]).1@,
                ) by {}
            }
            if self.peek_tok() != TokenType::ArgSpliter {
                break;
            }
            proof {
                if single {
                    assert(false);
                }
            }
            self.expect_peek(TokenType::ArgSpliter, self.peek_tok_location())?;
            // splitting an argument across lines is allowed
            self.eat_whitespaces(true);
        }
        self.expect_peek(closed, self.peek_tok_location())?;
        Ok(())
    }

    /// Parses a LaTeX command invocation: its name token, then its
    /// argument list.
    fn parse_latex_function(&mut self) -> (r: Result<Statement, VestiErr>)
        requires
            old(self).wf(),
        ensures
            frame(*old(self), *final(self)),
            r is Ok ==> final(self).pos > old(self).pos,
            r matches Ok(s) ==> (s is LatexFunction && stmt_wf(s)),
            // the command keeps the name token's text
            r matches Ok(s) ==> (s matches Statement::LatexFunction { name, .. } && name@ == old(
                self,
            ).spec_peek_literal()),
            // success is owed when no argument opener follows the name
            (old(self).spec_peek() != TokenType::Eof && (old(self).pos + 1 >= old(
                self,
            ).toks@.len() || (old(self).toks@[old(self).pos + 1].toktype != TokenType::Lbrace
                && old(self).toks@[old(self).pos + 1].toktype != TokenType::OptionalBrace && old(
                self,
            ).toks@[old(self).pos + 1].toktype != TokenType::Star))) ==> (r matches Ok(s) && s
                matches Statement::LatexFunction { name, args } && args@.len() == 0
                && final(self).pos == old(self).pos + 1),
        decreases old(self).toks@.len() - old(self).pos, 0int,
    {
        if self.is_eof() {
            return Err(VestiErr::make_parse_err(VestiParseErrKind::EOFErr, self.peek_tok_location()));
        }
        let name_tok = self.next_tok();
        let name = name_tok.literal;
        let args = self.parse_function_args(
            TokenType::Lbrace,
            TokenType::Rbrace,
            TokenType::OptionalBrace,
            TokenType::Rsqbrace,
        )?;
        Ok(Statement::LatexFunction { name, args })
    }

    /// Parses one math region, `$ ... $` or `\[ ... \]`, recursively
    /// parsing nested statements until the matching end token.  Input
    /// that runs out inside the region fails as a bracket mismatch at
    /// the region's opening span.
    fn parse_math_stmt(&mut self) -> (r: Result<Statement, VestiErr>)
        requires
            old(self).wf(),
        ensures
            frame(*old(self), *final(self)),
            r is Ok ==> final(self).pos > old(self).pos,
            r matches Ok(s) ==> (stmt_wf(s) && match s {
                Statement::MathText { state, .. } => state == (if old(self).spec_peek()
                    == TokenType::TextMathStart {
                    MathState::Text
                } else {
                    MathState::Inline
                }),
                _ => false,
            }),
            old(self).spec_peek() == TokenType::Eof ==> (r matches Err(e)
                && crate::error::is_eof_err(e, old(self).spec_peek_span())),
            // success is owed on a region of unclaimed tokens whose
            // closer is present, and the region's statements are its
            // literals in order
            ({
                let toks = old(self).toks@;
                let p0 = old(self).pos as int;
                let t = old(self).spec_peek();
                let end_t = if t == TokenType::TextMathStart {
                    TokenType::TextMathEnd
                } else {
                    TokenType::InlineMathEnd
                };
                let c = find_tok(toks, p0 + 1, end_t);
                ((t == TokenType::TextMathStart || t == TokenType::InlineMathStart) && c
                    < toks.len() && (forall|j: int|
                    #![trigger toks[j]]
                    p0 + 1 <= j < c ==> plain_tok(toks[j].toktype))) ==> (r matches Ok(s) && s
                    matches Statement::MathText { text, .. } && text@.len() == c - p0 - 1 && (
                forall|k: int|
                    #![trigger text@[k]]
                    0 <= k < text@.len() ==> (text@[k] matches Statement::MainText(txt) && txt@
                        == toks[p0 + 1 + k].literal@)) && final(self).pos == c + 1)
            }),
            // a region of unclaimed tokens that never closes fails as a
            // bracket mismatch at the opening span
            ({
                let toks = old(self).toks@;
                let p0 = old(self).pos as int;
                let t = old(self).spec_peek();
                let end_t = if t == TokenType::TextMathStart {
                    TokenType::TextMathEnd
                } else {
                    TokenType::InlineMathEnd
                };
                let c = find_tok(toks, p0 + 1, end_t);
                ((t == TokenType::TextMathStart || t == TokenType::InlineMathStart) && c
                    >= toks.len() && (forall|j: int|
                    #![trigger toks[j]]
                    p0 + 1 <= j < toks.len() ==> plain_tok(toks[j].toktype))) ==> (r matches Err(e)
                    && crate::error::is_bracket_mismatch(
                    e,
                    TokenType::TextMathEnd,
                    old(self).spec_peek_span(),
                ))
            }),
        decreases old(self).toks@.len() - old(self).pos, 0int,
    {
        let start_location = self.peek_tok_location();
        match self.peek_tok() {
            TokenType::TextMathStart => {
                self.expect_peek(TokenType::TextMathStart, self.peek_tok_location())?;
                self.parse_math_region(TokenType::TextMathEnd, MathState::Text, start_location)
            },
            TokenType::InlineMathStart => {
                self.expect_peek(TokenType::InlineMathStart, self.peek_tok_location())?;
                self.parse_math_region(TokenType::InlineMathEnd, MathState::Inline, start_location)
            },
            TokenType::Eof => {
                Err(VestiErr::make_parse_err(VestiParseErrKind::EOFErr, self.peek_tok_location()))
            },
            toktype => {
                let expected: Vec<TokenType> = vec![
                    TokenType::TextMathStart,
                    TokenType::InlineMathStart,
                ];
                Err(VestiErr::make_parse_err(
                    VestiParseErrKind::TypeMismatch { expected, got: toktype },
                    self.peek_tok_location(),
                ))
            },
        }
    }

    /// Parses the inside of a math region up to its end token,
    /// recursively parsing nested statements.  Input that runs out inside
    /// the region fails as a bracket mismatch at the region's opening
    /// span, which by pinned behavior names the text-style closer for
    /// both region styles.
    fn parse_math_region(&mut self, end_tok: TokenType, state: MathState, start_location: Span) -> (
        r: Result<Statement, VestiErr>
    )
        requires
            old(self).wf(),
            end_tok == TokenType::TextMathEnd || end_tok == TokenType::InlineMathEnd,
        ensures
            frame(*old(self), *final(self)),
            r is Ok ==> final(self).pos > old(self).pos,
            r matches Ok(s) ==> (stmt_wf(s) && match s {
                Statement::MathText { state: st, .. } => st == state,
                _ => false,
            }),
            ({
                let toks = old(self).toks@;
                let p0 = old(self).pos as int;
                let c = find_tok(toks, p0, end_tok);
                (c < toks.len() && (forall|j: int|
                    #![trigger toks[j]]
                    p0 <= j < c ==> plain_tok(toks[j].toktype))) ==> (r matches Ok(s) && s matches
                    Statement::MathText { text, .. } && text@.len() == c - p0 && (forall|k: int|
                    #![trigger text@[k]]
                    0 <= k < text@.len() ==> (text@[k] matches Statement::MainText(txt) && txt@
                        == toks[p0 + k].literal@)) && final(self).pos == c + 1)
            }),
            ({
                let toks = old(self).toks@;
                let p0 = old(self).pos as int;
                let c = find_tok(toks, p0, end_tok);
                (c >= toks.len() && (forall|j: int|
                    #![trigger toks[j]]
                    p0 <= j < toks.len() ==> plain_tok(toks[j].toktype))) ==> (r matches Err(e)
                    && crate::error::is_bracket_mismatch(
                    e,
                    TokenType::TextMathEnd,
                    start_location,
                ))
            }),
        decreases old(self).toks@.len() - old(self).pos, 3int,
    {
        let ghost toks = old(self).toks@;
        let ghost p0 = old(self).pos as int;
        let ghost c = find_tok(toks, p0, end_tok);
        proof {
            lemma_find_tok(toks, p0, end_tok);
        }
        let ghost closed_plain = c < toks.len() && (forall|j: int|
            #![trigger toks[j]]
            p0 <= j < c ==> plain_tok(toks[j].toktype));
        let ghost open_plain = c >= toks.len() && (forall|j: int|
            #![trigger toks[j]]
            p0 <= j < toks.len() ==> plain_tok(toks[j].toktype));
        let mut text: Vec<Statement> = Vec::new();
        while self.peek_tok() != end_tok
            invariant
                frame(*old(self), *self),
                latex_wf(text@),
                closed_plain ==> (self.pos <= c && text@.len() == self.pos - p0 && (forall|k: int|
                    #![trigger text@[k]]
                    0 <= k < text@.len() ==> (text@[k] matches Statement::MainText(txt) && txt@
                        == toks[p0 + k].literal@))),
            decreases self.toks@.len() - self.pos,
        {
            let ghost it = *self;
            match self.parse_statement() {
                Result::Ok(stmt) => {
                    text.push(stmt);
                    proof {
                        assert forall|k: int| 0 <= k < text@.len() implies stmt_wf(
                            #[trigger] text@[k],
                        ) by {}
                        if closed_plain {
                            if it.pos == c {
                                assert(it.spec_peek() == end_tok);
                                assert(false);
                            }
                            assert(plain_tok(toks[it.pos as int].toktype));
                            assert(is_catchall(it));
                            assert forall|k: int|
                                0 <= k < text@.len() implies ((#[trigger] text@[k])
                                matches Statement::MainText(txt) && txt@ == toks[p0
                                + k].literal@) by {}
                        }
                    }
                },
                Result::Err(err) => {
                    proof {
                        if closed_plain {
                            if it.pos == c {
                                assert(it.spec_peek() == end_tok);
                            } else {
                                assert(plain_tok(toks[it.pos as int].toktype));
                                assert(is_catchall(it));
                            }
                            assert(false);
                        }
                        if open_plain {
                            if it.pos < toks.len() {
                                assert(plain_tok(toks[it.pos as int].toktype));
                                assert(is_catchall(it));
                                assert(false);
                            } else {
                                assert(it.spec_peek() == TokenType::Eof);
                            }
                        }
                    }
                    if err.is_eof_kind() {
                        return Err(VestiErr::make_parse_err(
                            VestiParseErrKind::BracketMismatchErr {
                                expected: TokenType::TextMathEnd,
                            },
                            start_location,
                        ));
                    }
                    return Err(err);
                },
            }
        }
        proof {
            if closed_plain {
                assert(self.pos == c) by {
                    if self.pos < c {
                        assert(plain_tok(toks[self.pos as int].toktype));
                    }
                }
            }
            if open_plain {
                if self.pos < toks.len() {
                    assert(plain_tok(toks[self.pos as int].toktype));
                }
                assert(false);
            }
        }
        self.expect_peek(end_tok, self.peek_tok_location())?;
        Ok(Statement::MathText { state, text })
    }

    /// Parses a plain-text span inside math, re-attaching one trailing
    /// space token if present.
    #[verifier::rlimit(100)]
    #[verifier::spinoff_prover]
    fn parse_text_in_math(&mut self) -> (r: Result<Statement, VestiErr>)
        requires
            old(self).wf(),
        ensures
            frame(*old(self), *final(self)),
            r is Ok ==> final(self).pos > old(self).pos,
            r matches Ok(s) ==> (s is PlainTextInMath && stmt_wf(s)),
            // success is owed on a span of unclaimed tokens whose closer
            // is present; the span's literals are kept in order, and a
            // space token after the closer is re-attached at the end
            ({
                let toks = old(self).toks@;
                let p0 = old(self).pos as int;
                let c = find_tok(toks, p0 + 1, TokenType::MathTextEnd);
                let sp_extra = c + 1 < toks.len() && toks[c + 1].toktype == TokenType::Space;
                (old(self).spec_peek() == TokenType::MathTextStart && c < toks.len() && (forall|
                    j: int,
                |
                    #![trigger toks[j]]
                    p0 + 1 <= j < c ==> plain_tok(toks[j].toktype))) ==> (r matches Ok(s) && s
                    matches Statement::PlainTextInMath { text } && text@.len() == c - p0 - 1 + (
                if sp_extra {
                    1int
                } else {
                    0int
                }) && (forall|k: int|
                    #![trigger text@[k]]
                    0 <= k < c - p0 - 1 ==> (text@[k] matches Statement::MainText(txt) && txt@
                        == toks[p0 + 1 + k].literal@)) && (sp_extra ==> (text@[c - p0 - 1] matches
                    Statement::MainText(txt2) && txt2@ == toks[c + 1].literal@)))
            }),
            // the same span that never closes fails as a bracket mismatch
            // at the failing lookahead (past the end of the input)
            ({
                let toks = old(self).toks@;
                let p0 = old(self).pos as int;
                let c = find_tok(toks, p0 + 1, TokenType::MathTextEnd);
                (old(self).spec_peek() == TokenType::MathTextStart && c >= toks.len() && (forall|
                    j: int,
                |
                    #![trigger toks[j]]
                    p0 + 1 <= j < toks.len() ==> plain_tok(toks[j].toktype))) ==> (r matches Err(e)
                    && crate::error::is_bracket_mismatch(
                    e,
                    TokenType::MathTextEnd,
                    Span::spec_zero(),
                ))
            }),
        decreases old(self).toks@.len() - old(self).pos, 0int,
    {
        let ghost toks = old(self).toks@;
        let ghost p0 = old(self).pos as int;
        let mut text: Latex = Vec::new();
        self.expect_peek(TokenType::MathTextStart, self.peek_tok_location())?;
        let ghost c = find_tok(toks, p0 + 1, TokenType::MathTextEnd);
        proof {
            lemma_find_tok(toks, p0 + 1, TokenType::MathTextEnd);
        }
        let ghost closed_plain = c < toks.len() && (forall|j: int|
            #![trigger toks[j]]
            p0 + 1 <= j < c ==> plain_tok(toks[j].toktype));
        let ghost open_plain = c >= toks.len() && (forall|j: int|
            #![trigger toks[j]]
            p0 + 1 <= j < toks.len() ==> plain_tok(toks[j].toktype));
        while self.peek_tok() != TokenType::MathTextEnd
            invariant
                frame(*old(self), *self),
                old(self).pos < self.pos,
                latex_wf(text@),
                closed_plain ==> (self.pos <= c && text@.len() == self.pos - (p0 + 1) && (forall|
                    k: int,
                |
                    #![trigger text@[k]]
                    0 <= k < text@.len() ==> (text@[k] matches Statement::MainText(txt) && txt@
                        == toks[p0 + 1 + k].literal@))),
            decreases self.toks@.len() - self.pos,
        {
            let ghost it = *self;
            if self.is_eof() {
                proof {
                    if closed_plain {
                        if it.pos == c {
                            assert(it.spec_peek() == TokenType::MathTextEnd);
                        } else {
                            assert(plain_tok(toks[it.pos as int].toktype));
                        }
                        assert(false);
                    }
                }
                return Err(VestiErr::make_parse_err(
                    VestiParseErrKind::BracketMismatchErr { expected: TokenType::MathTextEnd },
                    self.peek_tok_location(),
                ));
            }
            match self.parse_statement() {
                Result::Ok(stmt) => {
                    text.push(stmt);
                    proof {
                        assert forall|k: int| 0 <= k < text@.len() implies stmt_wf(
                            #[trigger] text@[k],
                        ) by {}
                        if closed_plain {
                            if it.pos == c {
                                assert(it.spec_peek() == TokenType::MathTextEnd);
                                assert(false);
                            }
                            assert(plain_tok(toks[it.pos as int].toktype));
                            assert(is_catchall(it));
                            assert forall|k: int|
                                0 <= k < text@.len() implies ((#[trigger] text@[k])
                                matches Statement::MainText(txt) && txt@ == toks[p0 + 1
                                + k].literal@) by {}
                        }
                    }
                },
                Result::Err(e) => {
                    proof {
                        if closed_plain {
                            if it.pos == c {
                                assert(it.spec_peek() == TokenType::MathTextEnd);
                            } else {
                                assert(plain_tok(toks[it.pos as int].toktype));
                                assert(is_catchall(it));
                            }
                            assert(false);
                        }
                        if open_plain {
                            assert(it.pos < toks.len());
                            assert(plain_tok(toks[it.pos as int].toktype));
                            assert(is_catchall(it));
                            assert(false);
                        }
                    }
                    return Err(e);
                },
            }
        }
        proof {
            if closed_plain {
                assert(self.pos == c) by {
                    if self.pos < c {
                        assert(plain_tok(toks[self.pos as int].toktype));
                    }
                }
            }
            if open_plain {
                if self.pos < toks.len() {
                    assert(plain_tok(toks[self.pos as int].toktype));
                }
                assert(false);
            }
        }
        self.expect_peek(TokenType::MathTextEnd, self.peek_tok_location())?;
        if self.peek_tok() == TokenType::Space {
            let sp_tok = self.next_tok();
            text.push(Statement::MainText(sp_tok.literal));
            proof {
                assert forall|k: int| 0 <= k < text@.len() implies stmt_wf(
                    #[trigger] text@[k],
                ) by {}
            }
        }
        Ok(Statement::PlainTextInMath { text })
    }

    /// Parses a braced group, which degenerates to a fraction if a
    /// fraction-divider token appears inside it.
    #[verifier::rlimit(100)]
    #[verifier::spinoff_prover]
    fn parse_brace_stmt(&mut self) -> (r: Result<Statement, VestiErr>)
        requires
            old(self).wf(),
        ensures
            frame(*old(self), *final(self)),
            r is Ok ==> final(self).pos > old(self).pos,
            r matches Ok(s) ==> ((s is BracedStmt || s is Fraction) && stmt_wf(s)),
            // success is owed on a group of unclaimed tokens, none a
            // divider, whose closing brace is present; the group keeps
            // its literals in order
            ({
                let toks = old(self).toks@;
                let p0 = old(self).pos as int;
                let c = find_tok(toks, p0 + 1, TokenType::Rbrace);
                (old(self).spec_peek() == TokenType::Lbrace && c < toks.len() && (forall|j: int|
                    #![trigger toks[j]]
                    p0 + 1 <= j < c ==> plain_tok(toks[j].toktype) && toks[j].toktype
                        != TokenType::FracDefiner)) ==> (r matches Ok(s) && s matches
                    Statement::BracedStmt(l) && l@.len() == c - p0 - 1 && (forall|k: int|
                    #![trigger l@[k]]
                    0 <= k < l@.len() ==> (l@[k] matches Statement::MainText(txt) && txt@ == toks[
                        p0 + 1 + k
                    ].literal@)) && final(self).pos == c + 1)
            }),
            // the same group that never closes fails with the end-of-file
            // error at the opening brace's span
            ({
                let toks = old(self).toks@;
                let p0 = old(self).pos as int;
                let c = find_tok(toks, p0 + 1, TokenType::Rbrace);
                (old(self).spec_peek() == TokenType::Lbrace && c >= toks.len() && (forall|j: int|
                    #![trigger toks[j]]
                    p0 + 1 <= j < toks.len() ==> plain_tok(toks[j].toktype) && toks[j].toktype
                        != TokenType::FracDefiner)) ==> (r matches Err(e)
                    && crate::error::is_eof_err(e, old(self).spec_peek_span()))
            }),
        decreases old(self).toks@.len() - old(self).pos, 0int,
    {
        let ghost toks = old(self).toks@;
        let ghost p0 = old(self).pos as int;
        let begin_location = self.peek_tok_location();
        self.expect_peek(TokenType::Lbrace, begin_location)?;
        let ghost c = find_tok(toks, p0 + 1, TokenType::Rbrace);
        proof {
            lemma_find_tok(toks, p0 + 1, TokenType::Rbrace);
        }
        let ghost plain_group = (forall|j: int|
            #![trigger toks[j]]
            p0 + 1 <= j < c ==> plain_tok(toks[j].toktype) && toks[j].toktype
                != TokenType::FracDefiner);
        let ghost closed_plain = c < toks.len() && plain_group;
        let ghost open_plain = c >= toks.len() && (forall|j: int|
            #![trigger toks[j]]
            p0 + 1 <= j < toks.len() ==> plain_tok(toks[j].toktype) && toks[j].toktype
                != TokenType::FracDefiner);
        let mut is_fraction = false;
        let mut numerator: Latex = Vec::new();
        let mut denominator: Latex = Vec::new();
        loop
            invariant
                frame(*old(self), *self),
                old(self).pos < self.pos,
                latex_wf(numerator@),
                latex_wf(denominator@),
                closed_plain || open_plain ==> !is_fraction,
                closed_plain ==> (self.pos <= c && numerator@.len() == self.pos - (p0 + 1) && (
                forall|k: int|
                    #![trigger numerator@[k]]
                    0 <= k < numerator@.len() ==> (numerator@[k] matches Statement::MainText(txt)
                        && txt@ == toks[p0 + 1 + k].literal@))),
            decreases self.toks@.len() - self.pos,
        {
            let ghost it = *self;
            if self.is_eof() {
                proof {
                    if closed_plain {
                        if it.pos == c {
                            assert(it.spec_peek() == TokenType::Rbrace);
                        } else {
                            assert(plain_tok(toks[it.pos as int].toktype));
                        }
                        assert(false);
                    }
                }
                return Err(VestiErr::make_parse_err(VestiParseErrKind::EOFErr, begin_location));
            }
            if self.peek_tok() == TokenType::Rbrace {
                self.next_tok();
                proof {
                    if closed_plain {
                        assert(it.pos == c) by {
                            if it.pos < c {
                                assert(plain_tok(toks[it.pos as int].toktype));
                            }
                        }
                    }
                    if open_plain {
                        assert(it.pos < toks.len());
                        assert(plain_tok(toks[it.pos as int].toktype));
                        assert(false);
                    }
                }
                break;
            }
            if self.peek_tok() == TokenType::FracDefiner {
                proof {
                    if closed_plain || open_plain {
                        assert(it.pos != c);
                        assert(plain_tok(toks[it.pos as int].toktype) && toks[it.pos
                            as int].toktype != TokenType::FracDefiner);
                        assert(false);
                    }
                }
                is_fraction = true;
                self.next_tok();
            }
            if is_fraction {
                let stmt = self.parse_statement()?;
                denominator.push(stmt);
                proof {
                    assert forall|k: int| 0 <= k < denominator@.len() implies stmt_wf(
                        #[trigger] denominator@[k],
                    ) by {}
                }
            } else {
                let ghost it2 = *self;
                match self.parse_statement() {
                    Result::Ok(stmt) => {
                        numerator.push(stmt);
                        proof {
                            assert forall|k: int| 0 <= k < numerator@.len() implies stmt_wf(
                                #[trigger] numerator@[k],
                            ) by {}
                            if closed_plain {
                                assert(plain_tok(toks[it2.pos as int].toktype));
                                assert(is_catchall(it2));
                                assert forall|k: int|
                                    0 <= k < numerator@.len() implies ((#[trigger] numerator@[k])
                                    matches Statement::MainText(txt) && txt@ == toks[p0 + 1
                                    + k].literal@) by {}
                            }
                        }
                    },
                    Result::Err(e) => {
                        proof {
                            if closed_plain {
                                assert(plain_tok(toks[it2.pos as int].toktype));
                                assert(is_catchall(it2));
                                assert(false);
                            }
                            if open_plain {
                                assert(it2.pos < toks.len());
                                assert(plain_tok(toks[it2.pos as int].toktype));
                                assert(is_catchall(it2));
                                assert(false);
                            }
                        }
                        return Err(e);
                    },
                }
            }
        }
        if is_fraction {
            Ok(Statement::Fraction { numerator, denominator })
        } else {
            Ok(Statement::BracedStmt(numerator))
        }
    }

    /// Parses an environment.  With `with_body`, a `useenv` form whose
    /// brace-delimited body is parsed inline; otherwise a `begenv` form
    /// that emits only a begin marker — by the phantom design no later
    /// close is looked for, the pairing being deferred to the emitted
    /// LaTeX.  A recognized math-environment name switches math mode on
    /// for the span of the construct and clears it — without restoring
    /// it — on return.
    #[verifier::rlimit(100)]
    #[verifier::spinoff_prover]
    fn parse_environment(&mut self, with_body: bool) -> (r: Result<Statement, VestiErr>)
        requires
            old(self).wf(),
        ensures
            frame(*old(self), *final(self)),
            r is Ok ==> final(self).pos > old(self).pos,
            with_body ==> (r matches Ok(s) ==> (s is Environment && stmt_wf(s))),
            !with_body ==> (r matches Ok(s) ==> (s is BeginPhantomEnvironment && stmt_wf(s))),
            with_body ==> (r is Ok ==> exists|j: int|
                old(self).pos <= j < final(self).pos && old(self).toks@[j].toktype
                    == TokenType::Rbrace),
            // a marker-only environment: success is owed for a plain
            // header, with the name's text and the star deciding the
            // extra newline
            ({
                let toks = old(self).toks@;
                let p0 = old(self).pos as int;
                let a = p0 + 1 < toks.len() && toks[p0 + 1].toktype == TokenType::Star;
                let q = skip_ws(toks, p0 + 1 + (if a {
                    1int
                } else {
                    0int
                }), false);
                let q2 = skip_ws(toks, q + 1, false);
                (!with_body && old(self).spec_peek() == TokenType::Begenv && q < toks.len()
                    && toks[q].toktype == TokenType::Text && (q + 1 >= toks.len() || toks[q
                    + 1].toktype != TokenType::Star) && (q2 >= toks.len() || (toks[q2].toktype
                    != TokenType::Lparen && toks[q2].toktype != TokenType::Lsqbrace
                    && toks[q2].toktype != TokenType::Star))) ==> (r matches Ok(s) && s matches
                    Statement::BeginPhantomEnvironment { name, args, add_newline } && name@
                    == toks[q].literal@ && args@.len() == 0 && add_newline == a
                    && final(self).math_started == (if is_math_env(toks[q].literal@) {
                    false
                } else {
                    old(self).math_started
                }))
            }),
            // a body-bearing environment over unclaimed tokens: success
            // is owed when the closing brace is present, with the body's
            // literals in order
            ({
                let toks = old(self).toks@;
                let p0 = old(self).pos as int;
                let q = skip_ws(toks, p0 + 1, false);
                let q2 = skip_ws(toks, q + 1, false);
                let cb = find_tok(toks, q2 + 1, TokenType::Rbrace);
                (with_body && old(self).spec_peek() == TokenType::Useenv && q < toks.len()
                    && toks[q].toktype == TokenType::Text && (q + 1 >= toks.len() || toks[q
                    + 1].toktype != TokenType::Star) && q2 < toks.len() && toks[q2].toktype
                    == TokenType::Lbrace && cb < toks.len() && (forall|j: int|
                    #![trigger toks[j]]
                    q2 + 1 <= j < cb ==> plain_tok(toks[j].toktype))) ==> (r matches Ok(s) && s
                    matches Statement::Environment { name, args, text } && name@
                    == toks[q].literal@ && args@.len() == 0 && text@.len() == cb - q2 - 1 && (
                forall|k: int|
                    #![trigger text@[k]]
                    0 <= k < text@.len() ==> (text@[k] matches Statement::MainText(txt) && txt@
                        == toks[q2 + 1 + k].literal@))
                    // the math flag is cleared — not restored — when the
                    // name is a recognized math environment
                    && final(self).math_started == (if is_math_env(toks[q].literal@) {
                    false
                } else {
                    old(self).math_started
                }))
            }),
            // the same header whose body never closes fails "not closed"
            // at the opening keyword's span
            ({
                let toks = old(self).toks@;
                let p0 = old(self).pos as int;
                let q = skip_ws(toks, p0 + 1, false);
                let q2 = skip_ws(toks, q + 1, false);
                let cb = find_tok(toks, q2 + 1, TokenType::Rbrace);
                (with_body && old(self).spec_peek() == TokenType::Useenv && q < toks.len()
                    && toks[q].toktype == TokenType::Text && (q + 1 >= toks.len() || toks[q
                    + 1].toktype != TokenType::Star) && q2 < toks.len() && toks[q2].toktype
                    == TokenType::Lbrace && cb >= toks.len() && (forall|j: int|
                    #![trigger toks[j]]
                    q2 + 1 <= j < toks.len() ==> plain_tok(toks[j].toktype))) ==> (r matches Err(e)
                    && crate::error::is_not_closed(
                    e,
                    seq![TokenType::Lbrace],
                    TokenType::Rbrace,
                    old(self).spec_peek_span(),
                ))
            }),
            // a marker form whose input ends where the name should stand
            // fails at the keyword's span; any other non-name token there
            // is a missing name
            ({
                let toks = old(self).toks@;
                let p0 = old(self).pos as int;
                let a = p0 + 1 < toks.len() && toks[p0 + 1].toktype == TokenType::Star;
                let q = skip_ws(toks, p0 + 1 + (if a {
                    1int
                } else {
                    0int
                }), false);
                (!with_body && old(self).spec_peek() == TokenType::Begenv && (q >= toks.len()
                    || toks[q].toktype == TokenType::Eof)) ==> (r matches Err(e)
                    && crate::error::is_eof_err(e, old(self).spec_peek_span()))
            }),
            ({
                let toks = old(self).toks@;
                let p0 = old(self).pos as int;
                let a = p0 + 1 < toks.len() && toks[p0 + 1].toktype == TokenType::Star;
                let q = skip_ws(toks, p0 + 1 + (if a {
                    1int
                } else {
                    0int
                }), false);
                (!with_body && old(self).spec_peek() == TokenType::Begenv && q < toks.len()
                    && toks[q].toktype != TokenType::Text && toks[q].toktype != TokenType::Eof)
                    ==> (r matches Err(e) && crate::error::is_name_miss(
                    e,
                    TokenType::Begenv,
                    old(self).spec_peek_span(),
                ))
            }),
            // the body-bearing form reports a missing name either way
            ({
                let toks = old(self).toks@;
                let p0 = old(self).pos as int;
                let q = skip_ws(toks, p0 + 1, false);
                (with_body && old(self).spec_peek() == TokenType::Useenv && (q >= toks.len()
                    || toks[q].toktype == TokenType::Eof)) ==> (r matches Err(e)
                    && crate::error::is_name_miss(
                    e,
                    TokenType::Useenv,
                    old(self).spec_peek_span(),
                ))
            }),
            ({
                let toks = old(self).toks@;
                let p0 = old(self).pos as int;
                let q = skip_ws(toks, p0 + 1, false);
                (with_body && old(self).spec_peek() == TokenType::Useenv && q < toks.len()
                    && toks[q].toktype != TokenType::Text && toks[q].toktype != TokenType::Eof)
                    ==> (r matches Err(e) && crate::error::is_name_miss(
                    e,
                    TokenType::Begenv,
                    old(self).spec_peek_span(),
                ))
            }),
        decreases old(self).toks@.len() - old(self).pos, 0int,
    {
        let ghost toks = old(self).toks@;
        let ghost p0 = old(self).pos as int;
        let begenv_location = self.peek_tok_location();
        let mut off_math_state = false;
        let mut add_newline = false;
        if with_body {
            self.expect_peek(TokenType::Useenv, self.peek_tok_location())?;
        } else {
            self.expect_peek(TokenType::Begenv, self.peek_tok_location())?;
            if self.peek_tok() == TokenType::Star {
                self.expect_peek(TokenType::Star, self.peek_tok_location())?;
                add_newline = true;
            }
        }
        self.eat_whitespaces(false);
        let ghost q = self.pos as int;
        let mut name = match self.peek_tok() {
            TokenType::Text => {
                let t = self.next_tok();
                t.literal
            },
            TokenType::Eof => {
                if with_body {
                    return Err(VestiErr::make_parse_err(
                        VestiParseErrKind::NameMissErr { toktype: TokenType::Useenv },
                        begenv_location,
                    ));
                } else {
                    return Err(VestiErr::make_parse_err(
                        VestiParseErrKind::EOFErr,
                        begenv_location,
                    ));
                }
            },
            _ => {
                return Err(VestiErr::make_parse_err(
                    VestiParseErrKind::NameMissErr { toktype: TokenType::Begenv },
                    begenv_location,
                ));
            },
        };
        if is_math_env_name(&name) {
            self.math_started = true;
            off_math_state = true;
        }
        let ghost name0 = name@;
        let ghost qn = self.pos;
        while self.peek_tok() == TokenType::Star
            invariant
                frame(*old(self), *self),
                old(self).pos < self.pos,
                qn <= self.pos,
                (qn >= self.toks@.len() || self.toks@[qn as int].toktype != TokenType::Star) ==> (
                self.pos == qn && name@ == name0),
                self.math_started == (if off_math_state {
                    true
                } else {
                    old(self).math_started
                }),
            decreases self.toks@.len() - self.pos,
        {
            self.expect_peek(TokenType::Star, self.peek_tok_location())?;
            name.append("*");
        }
        self.eat_whitespaces(false);
        let args = self.parse_function_args(
            TokenType::Lparen,
            TokenType::Rparen,
            TokenType::Lsqbrace,
            TokenType::Rsqbrace,
        )?;
        if with_body {
            self.eat_whitespaces(false);
            self.expect_peek(TokenType::Lbrace, self.peek_tok_location())?;
            let ghost bstart = self.pos as int;
            let ghost math_pre_body = self.math_started;
            let ghost cb = find_tok(toks, bstart, TokenType::Rbrace);
            proof {
                lemma_find_tok(toks, bstart, TokenType::Rbrace);
            }
            let ghost closed_plain = cb < toks.len() && (forall|j: int|
                #![trigger toks[j]]
                bstart <= j < cb ==> plain_tok(toks[j].toktype));
            let ghost open_plain = cb >= toks.len() && (forall|j: int|
                #![trigger toks[j]]
                bstart <= j < toks.len() ==> plain_tok(toks[j].toktype));
            let mut text: Latex = Vec::new();
            while self.peek_tok() != TokenType::Rbrace
                invariant
                    frame(*old(self), *self),
                    old(self).pos < self.pos,
                    bstart <= self.pos,
                    latex_wf(text@),
                    closed_plain ==> (self.pos <= cb && text@.len() == self.pos - bstart && (
                    forall|k: int|
                        #![trigger text@[k]]
                        0 <= k < text@.len() ==> (text@[k] matches Statement::MainText(txt) && txt@
                            == toks[bstart + k].literal@))),
                    closed_plain ==> self.math_started == math_pre_body,
                decreases self.toks@.len() - self.pos,
            {
                let ghost it = *self;
                if self.is_eof() {
                    proof {
                        if closed_plain {
                            if it.pos == cb {
                                assert(it.spec_peek() == TokenType::Rbrace);
                            } else {
                                assert(plain_tok(toks[it.pos as int].toktype));
                            }
                            assert(false);
                        }
                    }
                    let open: Vec<TokenType> = vec![TokenType::Lbrace];
                    proof {
                        assert(open@ =~= seq![TokenType::Lbrace]);
                    }
                    return Err(VestiErr::make_parse_err(
                        VestiParseErrKind::IsNotClosedErr { open, close: TokenType::Rbrace },
                        begenv_location,
                    ));
                }
                match self.parse_statement() {
                    Result::Ok(stmt) => {
                        text.push(stmt);
                        proof {
                            assert forall|k: int| 0 <= k < text@.len() implies stmt_wf(
                                #[trigger] text@[k],
                            ) by {}
                            if closed_plain {
                                if it.pos == cb {
                                    assert(it.spec_peek() == TokenType::Rbrace);
                                    assert(false);
                                }
                                assert(plain_tok(toks[it.pos as int].toktype));
                                assert(is_catchall(it));
                                assert forall|k: int|
                                    0 <= k < text@.len() implies ((#[trigger] text@[k])
                                    matches Statement::MainText(txt) && txt@ == toks[bstart
                                    + k].literal@) by {}
                            }
                        }
                    },
                    Result::Err(e) => {
                        proof {
                            if closed_plain {
                                if it.pos == cb {
                                    assert(it.spec_peek() == TokenType::Rbrace);
                                } else {
                                    assert(plain_tok(toks[it.pos as int].toktype));
                                    assert(is_catchall(it));
                                }
                                assert(false);
                            }
                            if open_plain {
                                assert(it.pos < toks.len());
                                assert(plain_tok(toks[it.pos as int].toktype));
                                assert(is_catchall(it));
                                assert(false);
                            }
                        }
                        return Err(e);
                    },
                }
            }
            proof {
                if closed_plain {
                    assert(self.pos == cb) by {
                        if self.pos < cb {
                            assert(plain_tok(toks[self.pos as int].toktype));
                        }
                    }
                }
                if open_plain {
                    if self.pos < toks.len() {
                        assert(plain_tok(toks[self.pos as int].toktype));
                    }
                    assert(false);
                }
            }
            let ghost close_pos = self.pos;
            self.expect_peek(TokenType::Rbrace, self.peek_tok_location())?;
            if off_math_state {
                self.math_started = false;
            }
            if self.peek_tok() == TokenType::Newline {
                self.next_tok();
            }
            proof {
                assert(old(self).toks@[close_pos as int].toktype == TokenType::Rbrace);
            }
            Ok(Statement::Environment { name, args, text })
        } else {
            if off_math_state {
                self.math_started = false;
            }
            if self.peek_tok() == TokenType::Newline {
                self.next_tok();
            }
            Ok(Statement::BeginPhantomEnvironment { name, args, add_newline })
        }
    }

    /// Parses a macro definition.  The style comes from which of the
    /// sixteen definition-start keywords opened it; a leading `*`
    /// disables the start trim and a trailing `*` the end trim.
    #[verifier::rlimit(100)]
    #[verifier::spinoff_prover]
    fn parse_function_definition(&mut self) -> (r: Result<Statement, VestiErr>)
        requires
            old(self).wf(),
        ensures
            frame(*old(self), *final(self)),
            r is Ok ==> final(self).pos > old(self).pos,
            r matches Ok(s) ==> (stmt_wf(s) && match s {
                Statement::FunctionDefine { kind, .. } => Some(kind) == old(
                    self,
                ).spec_peek().spec_function_def_kind(),
                _ => false,
            }),
            r is Ok ==> exists|j: int|
                old(self).pos <= j < final(self).pos && old(self).toks@[j].toktype
                    == TokenType::EndDefinition,
            // the name is the text captured up to the first separator, a
            // leading star disables the start trim, and a star directly
            // after the end-of-definition token disables the end trim
            r matches Ok(s) ==> (s matches Statement::FunctionDefine { name, trim, .. } && {
                let toks = old(self).toks@;
                let p0 = old(self).pos as int;
                let star = p0 + 1 < toks.len() && toks[p0 + 1].toktype == TokenType::Star;
                let q = skip_ws(toks, p0 + 1 + (if star {
                    1int
                } else {
                    0int
                }), false);
                &&& trim.start == !star
                &&& name@ == literals_text(toks, q, name_end(toks, q))
                &&& exists|j: int|
                    #![trigger toks[j]]
                    p0 <= j < final(self).pos && toks[j].toktype == TokenType::EndDefinition
                        && trim.end == !(j + 1 < toks.len() && toks[j + 1].toktype
                        == TokenType::Star)
            }),
            // success is owed for a definition with an empty parameter
            // list over a body of unclaimed tokens that reaches its
            // closer
            ({
                let toks = old(self).toks@;
                let p0 = old(self).pos as int;
                let star = p0 + 1 < toks.len() && toks[p0 + 1].toktype == TokenType::Star;
                let q = skip_ws(toks, p0 + 1 + (if star {
                    1int
                } else {
                    0int
                }), false);
                let ne = name_end(toks, q);
                let e = find_tok(toks, ne + 2, TokenType::EndDefinition);
                (old(self).spec_peek().spec_is_definition_start() && q < toks.len()
                    && toks[q].toktype == TokenType::Text && ne < toks.len() && toks[ne].toktype
                    == TokenType::Lparen && ne + 1 < toks.len() && toks[ne + 1].toktype
                    == TokenType::Rparen && e < toks.len() && (forall|j: int|
                    #![trigger toks[j]]
                    ne + 2 <= j < e ==> plain_tok(toks[j].toktype))) ==> (r matches Ok(s) && s
                    matches Statement::FunctionDefine { args, body, .. } && args@
                    == Seq::<char>::empty() && body@.len() == e - (ne + 2) && (forall|k: int|
                    #![trigger body@[k]]
                    0 <= k < body@.len() ==> (body@[k] matches Statement::MainText(txt) && txt@
                        == toks[ne + 2 + k].literal@)))
            }),
        decreases old(self).toks@.len() - old(self).pos, 0int,
    {
        let begfntdef_location = self.peek_tok_location();
        let mut trim = TrimWhitespace { start: true, mid: None, end: true };
        let beg_toktype = self.peek_tok();
        if beg_toktype == TokenType::Eof {
            return Err(VestiErr::make_parse_err(VestiParseErrKind::EOFErr, begfntdef_location));
        }
        let kind = match beg_toktype.function_def_kind() {
            Option::Some(k) => k,
            Option::None => {
                return Err(VestiErr::make_parse_err(
                    VestiParseErrKind::TypeMismatch {
                        expected: TokenType::get_definition_start_list(),
                        got: beg_toktype,
                    },
                    begfntdef_location,
                ));
            },
        };
        self.expect_peek(beg_toktype, self.peek_tok_location())?;
        if self.peek_tok() == TokenType::Star {
            self.expect_peek(TokenType::Star, self.peek_tok_location())?;
            trim.start = false;
        }
        self.eat_whitespaces(false);
        if self.is_eof() {
            let open: Vec<TokenType> = vec![beg_toktype];
            return Err(VestiErr::make_parse_err(
                VestiParseErrKind::IsNotClosedErr { open, close: TokenType::EndDefinition },
                begfntdef_location,
            ));
        }
        let ghost q = self.pos as int;
        proof {
            lemma_name_end(old(self).toks@, q);
        }
        let mut name = String::new();
        while self.peek_tok() == TokenType::Text || self.peek_tok() == TokenType::ArgSpliter
            invariant
                frame(*old(self), *self),
                old(self).pos < self.pos,
                q <= self.pos <= name_end(old(self).toks@, q),
                name@ == literals_text(old(self).toks@, q, self.pos as int),
            decreases self.toks@.len() - self.pos,
        {
            let t = self.next_tok();
            name.append(t.literal.as_str());
        }
        proof {
            assert(self.pos == name_end(old(self).toks@, q));
        }
        match self.peek_tok() {
            TokenType::Space | TokenType::Tab | TokenType::Newline | TokenType::Lparen => {},
            TokenType::Eof => {
                return Err(VestiErr::make_parse_err(VestiParseErrKind::EOFErr, begfntdef_location));
            },
            _ => {
                return Err(VestiErr::make_parse_err(
                    VestiParseErrKind::NameMissErr { toktype: beg_toktype },
                    begfntdef_location,
                ));
            },
        }
        self.eat_whitespaces(false);
        let args = self.parse_function_definition_argument()?;
        let body = self.parse_function_definebody(begfntdef_location)?;
        let ghost end_pos = self.pos;
        self.expect_peek(TokenType::EndDefinition, self.peek_tok_location())?;
        if self.peek_tok() == TokenType::Star {
            self.expect_peek(TokenType::Star, self.peek_tok_location())?;
            trim.end = false;
        }
        if self.peek_tok() == TokenType::Newline {
            self.next_tok();
        }
        proof {
            assert(old(self).toks@[end_pos as int].toktype == TokenType::EndDefinition);
            assert(old(self).toks@[end_pos as int].toktype == TokenType::EndDefinition
                && trim.end == !(end_pos + 1 < old(self).toks@.len() && old(self).toks@[end_pos
                + 1].toktype == TokenType::Star));
        }
        Ok(Statement::FunctionDefine { kind, name, args, trim, body })
    }

    /// Parses the body of a macro definition, up to the end-of-definition
    /// token, with the definition flag set around each nested statement.
    #[verifier::rlimit(100)]
    #[verifier::spinoff_prover]
    fn parse_function_definebody(&mut self, begdef_location: Span) -> (r: Result<Latex, VestiErr>)
        requires
            old(self).wf(),
        ensures
            frame(*old(self), *final(self)),
            r matches Ok(body) ==> (latex_wf(body@) && final(self).spec_peek()
                == TokenType::EndDefinition),
            // success is owed on a body of unclaimed tokens whose
            // end-of-definition token is present, keeping the literals in
            // order and leaving the closer as the lookahead
            ({
                let toks = old(self).toks@;
                let p0 = old(self).pos as int;
                let e = find_tok(toks, p0, TokenType::EndDefinition);
                (e < toks.len() && (forall|j: int|
                    #![trigger toks[j]]
                    p0 <= j < e ==> plain_tok(toks[j].toktype))) ==> (r matches Ok(body)
                    && body@.len() == e - p0 && (forall|k: int|
                    #![trigger body@[k]]
                    0 <= k < body@.len() ==> (body@[k] matches Statement::MainText(txt) && txt@
                        == toks[p0 + k].literal@)) && final(self).pos == e)
            }),
            // the same body that never reaches its closer fails "not
            // closed" at the definition's opening span
            ({
                let toks = old(self).toks@;
                let p0 = old(self).pos as int;
                let e = find_tok(toks, p0, TokenType::EndDefinition);
                (e >= toks.len() && (forall|j: int|
                    #![trigger toks[j]]
                    p0 <= j < toks.len() ==> plain_tok(toks[j].toktype))) ==> (r matches Err(err)
                    && crate::error::is_not_closed(
                    err,
                    TokenType::spec_definition_start_list(),
                    TokenType::EndDefinition,
                    begdef_location,
                ))
            }),
        decreases old(self).toks@.len() - old(self).pos, 3int,
    {
        let ghost toks = old(self).toks@;
        let ghost p0 = old(self).pos as int;
        let ghost e = find_tok(toks, p0, TokenType::EndDefinition);
        proof {
            lemma_find_tok(toks, p0, TokenType::EndDefinition);
        }
        let ghost closed_plain = e < toks.len() && (forall|j: int|
            #![trigger toks[j]]
            p0 <= j < e ==> plain_tok(toks[j].toktype));
        let ghost open_plain = e >= toks.len() && (forall|j: int|
            #![trigger toks[j]]
            p0 <= j < toks.len() ==> plain_tok(toks[j].toktype));
        let mut body: Latex = Vec::new();
        while self.peek_tok() != TokenType::EndDefinition
            invariant
                frame(*old(self), *self),
                latex_wf(body@),
                closed_plain ==> (self.pos <= e && body@.len() == self.pos - p0 && (forall|k: int|
                    #![trigger body@[k]]
                    0 <= k < body@.len() ==> (body@[k] matches Statement::MainText(txt) && txt@
                        == toks[p0 + k].literal@))),
            decreases self.toks@.len() - self.pos,
        {
            let ghost it = *self;
            if self.is_eof() {
                proof {
                    if closed_plain {
                        if it.pos == e {
                            assert(it.spec_peek() == TokenType::EndDefinition);
                        } else {
                            assert(plain_tok(toks[it.pos as int].toktype));
                        }
                        assert(false);
                    }
                }
                let open = TokenType::get_definition_start_list();
                return Err(VestiErr::make_parse_err(
                    VestiParseErrKind::IsNotClosedErr { open, close: TokenType::EndDefinition },
                    begdef_location,
                ));
            }
            self.doc_state.parsing_define = true;
            let res = self.parse_statement();
            self.doc_state.parsing_define = false;
            match res {
                Result::Ok(stmt) => {
                    body.push(stmt);
                    proof {
                        assert forall|k: int| 0 <= k < body@.len() implies stmt_wf(
                            #[trigger] body@[k],
                        ) by {}
                        if closed_plain {
                            if it.pos == e {
                                assert(it.spec_peek() == TokenType::EndDefinition);
                                assert(false);
                            }
                            assert(plain_tok(toks[it.pos as int].toktype));
                            assert forall|k: int|
                                0 <= k < body@.len() implies ((#[trigger] body@[k])
                                matches Statement::MainText(txt) && txt@ == toks[p0
                                + k].literal@) by {}
                        }
                    }
                },
                Result::Err(err) => {
                    proof {
                        if closed_plain {
                            if it.pos == e {
                                assert(it.spec_peek() == TokenType::EndDefinition);
                            } else {
                                assert(plain_tok(toks[it.pos as int].toktype));
                            }
                            assert(false);
                        }
                        if open_plain {
                            assert(it.pos < toks.len());
                            assert(plain_tok(toks[it.pos as int].toktype));
                            assert(false);
                        }
                    }
                    return Err(err);
                },
            }
        }
        proof {
            if closed_plain {
                assert(self.pos == e) by {
                    if self.pos < e {
                        assert(plain_tok(toks[self.pos as int].toktype));
                    }
                }
            }
            if open_plain {
                if self.pos < toks.len() {
                    assert(plain_tok(toks[self.pos as int].toktype));
                }
                assert(false);
            }
        }
        Ok(body)
    }

    /// Parses the optional `[count]` or `[count, default]` argument
    /// declaration of an environment definition; without a bracket there
    /// are no arguments and nothing is consumed.
    fn parse_environment_definition_args(&mut self, begenvdef_location: Span) -> (r: Result<
        (u8, Option<Latex>),
        VestiErr,
    >)
        requires
            old(self).wf(),
        ensures
            frame(*old(self), *final(self)),
            r matches Ok(p) ==> (match p.1 {
                Option::Some(inner) => latex_wf(inner@),
                Option::None => true,
            }),
            old(self).spec_peek() != TokenType::Lsqbrace ==> (r matches Ok(p) && p.0 == 0 && p.1
                is None && final(self).pos == old(self).pos),
            ({
                let toks = old(self).toks@;
                let p0 = old(self).pos as int;
                (old(self).spec_peek() == TokenType::Lsqbrace && p0 + 2 < toks.len() && toks[p0
                    + 1].toktype == TokenType::Integer && valid_u8_literal(toks[p0 + 1].literal@)
                    && toks[p0 + 2].toktype == TokenType::Rsqbrace) ==> (r matches Ok(p) && p.0
                    as int == u8_lit_value(toks[p0 + 1].literal@) && p.1 is None && final(self).pos
                    == p0 + 3)
            }),
            // a count that denotes no u8 fails with the integer-parse
            // error at the count token's span
            ({
                let toks = old(self).toks@;
                let p0 = old(self).pos as int;
                (old(self).spec_peek() == TokenType::Lsqbrace && p0 + 1 < toks.len() && toks[p0
                    + 1].toktype == TokenType::Integer && !valid_u8_literal(toks[p0 + 1].literal@))
                    ==> (r matches Err(e) && crate::error::is_parse_int_err(e, toks[p0 + 1].span))
            }),
            // a `[count, default]` whose default group is unclaimed
            // tokens keeps the group's literals in order
            ({
                let toks = old(self).toks@;
                let p0 = old(self).pos as int;
                let sp = p0 + 3 < toks.len() && toks[p0 + 3].toktype == TokenType::Space;
                let d0 = p0 + 3 + (if sp {
                    1int
                } else {
                    0int
                });
                let c = find_tok(toks, d0, TokenType::Rsqbrace);
                (old(self).spec_peek() == TokenType::Lsqbrace && p0 + 2 < toks.len() && toks[p0
                    + 1].toktype == TokenType::Integer && valid_u8_literal(toks[p0 + 1].literal@)
                    && toks[p0 + 2].toktype == TokenType::Comma && c < toks.len() && (forall|
                    j: int,
                |
                    #![trigger toks[j]]
                    d0 <= j < c ==> plain_tok(toks[j].toktype))) ==> (r matches Ok(p) && p.0
                    as int == u8_lit_value(toks[p0 + 1].literal@) && (p.1 matches Some(inner)
                    && inner@.len() == c - d0 && (forall|k: int|
                    #![trigger inner@[k]]
                    0 <= k < inner@.len() ==> (inner@[k] matches Statement::MainText(txt) && txt@
                        == toks[d0 + k].literal@))) && final(self).pos == c + 1)
            }),
        decreases old(self).toks@.len() - old(self).pos, 0int,
    {
        let ghost toks = old(self).toks@;
        let ghost p0 = old(self).pos as int;
        if self.peek_tok() != TokenType::Lsqbrace {
            return Ok((0, None));
        }
        self.expect_peek(TokenType::Lsqbrace, self.peek_tok_location())?;
        let tmp_argnum: u8 = match self.peek_tok() {
            TokenType::Integer => {
                let lex_token = self.next_tok();
                match parse_u8_literal(lex_token.literal.as_str()) {
                    Option::Some(num) => num,
                    Option::None => {
                        return Err(VestiErr::make_parse_err(
                            VestiParseErrKind::ParseIntErr,
                            lex_token.span,
                        ));
                    },
                }
            },
            TokenType::Eof => {
                return Err(VestiErr::make_parse_err(
                    VestiParseErrKind::EOFErr,
                    begenvdef_location,
                ));
            },
            got => {
                let expected: Vec<TokenType> = vec![TokenType::Integer];
                return Err(VestiErr::make_parse_err(
                    VestiParseErrKind::TypeMismatch { expected, got },
                    self.peek_tok_location(),
                ));
            },
        };
        match self.peek_tok() {
            TokenType::Comma => {
                self.expect_peek(TokenType::Comma, self.peek_tok_location())?;
                if self.peek_tok() == TokenType::Space {
                    self.next_tok();
                }
                let ghost d0 = self.pos as int;
                let ghost c = find_tok(toks, d0, TokenType::Rsqbrace);
                proof {
                    lemma_find_tok(toks, d0, TokenType::Rsqbrace);
                }
                let ghost plain_default = c < toks.len() && (forall|j: int|
                    #![trigger toks[j]]
                    d0 <= j < c ==> plain_tok(toks[j].toktype));
                let mut tmp_inner: Latex = Vec::new();
                while self.peek_tok() != TokenType::Rsqbrace
                    invariant
                        frame(*old(self), *self),
                        old(self).pos < self.pos,
                        latex_wf(tmp_inner@),
                        plain_default ==> (self.pos <= c && tmp_inner@.len() == self.pos - d0 && (
                        forall|k: int|
                            #![trigger tmp_inner@[k]]
                            0 <= k < tmp_inner@.len() ==> (tmp_inner@[k] matches
                                Statement::MainText(txt) && txt@ == toks[d0 + k].literal@))),
                    decreases self.toks@.len() - self.pos,
                {
                    let ghost it = *self;
                    if self.is_eof() {
                        proof {
                            if plain_default {
                                if it.pos == c {
                                    assert(it.spec_peek() == TokenType::Rsqbrace);
                                } else {
                                    assert(plain_tok(toks[it.pos as int].toktype));
                                }
                                assert(false);
                            }
                        }
                        return Err(VestiErr::make_parse_err(
                            VestiParseErrKind::EOFErr,
                            begenvdef_location,
                        ));
                    }
                    match self.parse_statement() {
                        Result::Ok(stmt) => {
                            tmp_inner.push(stmt);
                            proof {
                                assert forall|k: int| 0 <= k < tmp_inner@.len() implies stmt_wf(
                                    #[trigger] tmp_inner@[k],
                                ) by {}
                                if plain_default {
                                    if it.pos == c {
                                        assert(it.spec_peek() == TokenType::Rsqbrace);
                                        assert(false);
                                    }
                                    assert(plain_tok(toks[it.pos as int].toktype));
                                    assert(is_catchall(it));
                                    assert forall|k: int|
                                        0 <= k < tmp_inner@.len() implies ((
                                        #[trigger] tmp_inner@[k]) matches Statement::MainText(txt)
                                        && txt@ == toks[d0 + k].literal@) by {}
                                }
                            }
                        },
                        Result::Err(e) => {
                            proof {
                                if plain_default {
                                    if it.pos == c {
                                        assert(it.spec_peek() == TokenType::Rsqbrace);
                                    } else {
                                        assert(plain_tok(toks[it.pos as int].toktype));
                                        assert(is_catchall(it));
                                    }
                                    assert(false);
                                }
                            }
                            return Err(e);
                        },
                    }
                }
                proof {
                    if plain_default {
                        assert(self.pos == c) by {
                            if self.pos < c {
                                assert(plain_tok(toks[self.pos as int].toktype));
                            }
                        }
                    }
                }
                self.expect_peek(TokenType::Rsqbrace, self.peek_tok_location())?;
                Ok((tmp_argnum, Some(tmp_inner)))
            },
            TokenType::Rsqbrace => {
                self.expect_peek(TokenType::Rsqbrace, self.peek_tok_location())?;
                Ok((tmp_argnum, None))
            },
            TokenType::Eof => {
                Err(VestiErr::make_parse_err(VestiParseErrKind::EOFErr, begenvdef_location))
            },
            got => {
                let expected: Vec<TokenType> = vec![TokenType::Rsqbrace, TokenType::Comma];
                Err(VestiErr::make_parse_err(
                    VestiParseErrKind::TypeMismatch { expected, got },
                    self.peek_tok_location(),
                ))
            },
        }
    }

    /// Parses one body part of an environment definition: the begin part
    /// up to the ends-with token, or the end part up to the
    /// end-of-definition token.  Nested environment definitions are
    /// parsed whole; other statements are parsed with the definition
    /// flag set.
    fn parse_environment_definition_part(&mut self, first_part: bool, err_location: Span) -> (r:
        Result<Latex, VestiErr>)
        requires
            old(self).wf(),
        ensures
            frame(*old(self), *final(self)),
            r matches Ok(body) ==> (latex_wf(body@) && final(self).spec_peek() == (if first_part {
                TokenType::EndsWith
            } else {
                TokenType::EndDefinition
            })),
            // success is owed on a part of unclaimed tokens whose
            // terminator is present, keeping the literals in order
            ({
                let toks = old(self).toks@;
                let p0 = old(self).pos as int;
                let stop = if first_part {
                    TokenType::EndsWith
                } else {
                    TokenType::EndDefinition
                };
                let e = find_tok(toks, p0, stop);
                (e < toks.len() && (forall|j: int|
                    #![trigger toks[j]]
                    p0 <= j < e ==> plain_tok(toks[j].toktype))) ==> (r matches Ok(body)
                    && body@.len() == e - p0 && (forall|k: int|
                    #![trigger body@[k]]
                    0 <= k < body@.len() ==> (body@[k] matches Statement::MainText(txt) && txt@
                        == toks[p0 + k].literal@)) && final(self).pos == e)
            }),
            // a part of unclaimed tokens that never reaches its
            // terminator fails "not closed" at the given span
            ({
                let toks = old(self).toks@;
                let p0 = old(self).pos as int;
                let stop = if first_part {
                    TokenType::EndsWith
                } else {
                    TokenType::EndDefinition
                };
                let e = find_tok(toks, p0, stop);
                (e >= toks.len() && (forall|j: int|
                    #![trigger toks[j]]
                    p0 <= j < toks.len() ==> plain_tok(toks[j].toktype))) ==> (r matches Err(err)
                    && crate::error::is_not_closed(
                    err,
                    if first_part {
                        seq![TokenType::Defenv, TokenType::Redefenv]
                    } else {
                        seq![TokenType::EndsWith]
                    },
                    stop,
                    err_location,
                ))
            }),
        decreases old(self).toks@.len() - old(self).pos, 3int,
    {
        let ghost toks = old(self).toks@;
        let ghost p0 = old(self).pos as int;
        let stop_tok = if first_part {
            TokenType::EndsWith
        } else {
            TokenType::EndDefinition
        };
        let bad_tok = if first_part {
            TokenType::EndDefinition
        } else {
            TokenType::EndsWith
        };
        let ghost e = find_tok(toks, p0, stop_tok);
        proof {
            lemma_find_tok(toks, p0, stop_tok);
        }
        let ghost closed_plain = e < toks.len() && (forall|j: int|
            #![trigger toks[j]]
            p0 <= j < e ==> plain_tok(toks[j].toktype));
        let ghost open_plain = e >= toks.len() && (forall|j: int|
            #![trigger toks[j]]
            p0 <= j < toks.len() ==> plain_tok(toks[j].toktype));
        let mut part: Latex = Vec::new();
        while self.peek_tok() != stop_tok
            invariant
                frame(*old(self), *self),
                latex_wf(part@),
                closed_plain ==> (self.pos <= e && part@.len() == self.pos - p0 && (forall|k: int|
                    #![trigger part@[k]]
                    0 <= k < part@.len() ==> (part@[k] matches Statement::MainText(txt) && txt@
                        == toks[p0 + k].literal@))),
            decreases self.toks@.len() - self.pos,
        {
            let ghost it = *self;
            proof {
                if closed_plain {
                    if it.pos == e {
                        assert(it.spec_peek() == stop_tok);
                        assert(false);
                    }
                    assert(plain_tok(toks[it.pos as int].toktype));
                }
            }
            let t = self.peek_tok();
            if t == TokenType::Defenv || t == TokenType::Redefenv {
                proof {
                    if closed_plain {
                        assert(false);
                    }
                }
                let stmt = self.parse_environment_definition()?;
                part.push(stmt);
                proof {
                    assert forall|k: int| 0 <= k < part@.len() implies stmt_wf(
                        #[trigger] part@[k],
                    ) by {}
                }
            } else if t == bad_tok || t == TokenType::Eof {
                proof {
                    if closed_plain {
                        assert(false);
                    }
                    if open_plain {
                        if it.pos < toks.len() {
                            assert(plain_tok(toks[it.pos as int].toktype));
                            assert(false);
                        }
                        assert(it.spec_peek() == TokenType::Eof);
                    }
                }
                let open: Vec<TokenType> = if first_part {
                    vec![TokenType::Defenv, TokenType::Redefenv]
                } else {
                    vec![TokenType::EndsWith]
                };
                proof {
                    if first_part {
                        assert(open@ =~= seq![TokenType::Defenv, TokenType::Redefenv]);
                    } else {
                        assert(open@ =~= seq![TokenType::EndsWith]);
                    }
                }
                return Err(VestiErr::make_parse_err(
                    VestiParseErrKind::IsNotClosedErr { open, close: stop_tok },
                    err_location,
                ));
            } else {
                self.doc_state.parsing_define = true;
                let res = self.parse_statement();
                self.doc_state.parsing_define = false;
                match res {
                    Result::Ok(stmt) => {
                        part.push(stmt);
                        proof {
                            assert forall|k: int| 0 <= k < part@.len() implies stmt_wf(
                                #[trigger] part@[k],
                            ) by {}
                            if closed_plain {
                                assert(is_catchall(it));
                                assert forall|k: int|
                                    0 <= k < part@.len() implies ((#[trigger] part@[k])
                                    matches Statement::MainText(txt) && txt@ == toks[p0
                                    + k].literal@) by {}
                            }
                        }
                    },
                    Result::Err(e2) => {
                        proof {
                            if closed_plain {
                                assert(is_catchall(it));
                                assert(false);
                            }
                            if open_plain {
                                assert(it.pos < toks.len());
                                assert(plain_tok(toks[it.pos as int].toktype));
                                assert(is_catchall(it));
                                assert(false);
                            }
                        }
                        return Err(e2);
                    },
                }
            }
        }
        proof {
            if closed_plain {
                assert(self.pos == e) by {
                    if self.pos < e {
                        assert(plain_tok(toks[self.pos as int].toktype));
                    }
                }
            }
            if open_plain {
                if self.pos < toks.len() {
                    assert(plain_tok(toks[self.pos as int].toktype));
                }
                assert(false);
            }
        }
        Ok(part)
    }

    /// Parses the opening of an environment definition: the keyword, an
    /// optional star that disables the start trim, and the name.
    fn parse_environment_definition_head(&mut self, begenvdef_location: Span) -> (r: Result<
        (bool, bool, String),
        VestiErr,
    >)
        requires
            old(self).wf(),
        ensures
            frame(*old(self), *final(self)),
            r is Ok ==> final(self).pos > old(self).pos,
            r matches Ok(h) ==> ((old(self).spec_peek() == TokenType::Defenv || old(
                self,
            ).spec_peek() == TokenType::Redefenv) && h.0 == (old(self).spec_peek()
                == TokenType::Redefenv) && {
                let toks = old(self).toks@;
                let p0 = old(self).pos as int;
                let star = p0 + 1 < toks.len() && toks[p0 + 1].toktype == TokenType::Star;
                let q = skip_ws(toks, p0 + 1 + (if star {
                    1int
                } else {
                    0int
                }), false);
                &&& h.1 == !star
                &&& h.2@ == literals_text(toks, q, name_end(toks, q))
                &&& final(self).pos == name_end(toks, q)
            }),
            // success is owed for a keyword, a text name, and a legal
            // name terminator
            ({
                let toks = old(self).toks@;
                let p0 = old(self).pos as int;
                let star = p0 + 1 < toks.len() && toks[p0 + 1].toktype == TokenType::Star;
                let q = skip_ws(toks, p0 + 1 + (if star {
                    1int
                } else {
                    0int
                }), false);
                let ne = name_end(toks, q);
                ((old(self).spec_peek() == TokenType::Defenv || old(self).spec_peek()
                    == TokenType::Redefenv) && q < toks.len() && toks[q].toktype == TokenType::Text
                    && ne < toks.len() && (is_ws_tok(toks[ne].toktype, true) || toks[ne].toktype
                    == TokenType::Lsqbrace)) ==> r is Ok
            }),
        decreases old(self).toks@.len() - old(self).pos, 0int,
    {
        let mut start_trim = true;
        let beg_toktype = self.peek_tok();
        let is_redefine = match beg_toktype {
            TokenType::Eof => {
                return Err(VestiErr::make_parse_err(
                    VestiParseErrKind::EOFErr,
                    begenvdef_location,
                ));
            },
            TokenType::Defenv => false,
            TokenType::Redefenv => true,
            got => {
                let expected: Vec<TokenType> = vec![TokenType::Defenv, TokenType::Redefenv];
                return Err(VestiErr::make_parse_err(
                    VestiParseErrKind::TypeMismatch { expected, got },
                    begenvdef_location,
                ));
            },
        };
        self.expect_peek(beg_toktype, self.peek_tok_location())?;
        if self.peek_tok() == TokenType::Star {
            self.expect_peek(TokenType::Star, self.peek_tok_location())?;
            start_trim = false;
        }
        self.eat_whitespaces(false);
        if self.is_eof() {
            let open: Vec<TokenType> = vec![beg_toktype];
            return Err(VestiErr::make_parse_err(
                VestiParseErrKind::IsNotClosedErr { open, close: TokenType::EndsWith },
                begenvdef_location,
            ));
        }
        let ghost q = self.pos as int;
        proof {
            lemma_name_end(old(self).toks@, q);
        }
        let mut name = String::new();
        while self.peek_tok() == TokenType::Text || self.peek_tok() == TokenType::ArgSpliter
            invariant
                frame(*old(self), *self),
                old(self).pos < self.pos,
                q <= self.pos <= name_end(old(self).toks@, q),
                name@ == literals_text(old(self).toks@, q, self.pos as int),
            decreases self.toks@.len() - self.pos,
        {
            let t = self.next_tok();
            name.append(t.literal.as_str());
        }
        proof {
            assert(self.pos == name_end(old(self).toks@, q));
        }
        match self.peek_tok() {
            TokenType::Space | TokenType::Tab | TokenType::Newline | TokenType::Lsqbrace => {},
            TokenType::Eof => {
                return Err(VestiErr::make_parse_err(
                    VestiParseErrKind::EOFErr,
                    begenvdef_location,
                ));
            },
            _ => {
                return Err(VestiErr::make_parse_err(
                    VestiParseErrKind::NameMissErr { toktype: beg_toktype },
                    begenvdef_location,
                ));
            },
        }
        Ok((is_redefine, start_trim, name))
    }

    /// Parses an environment definition: name, optional argument count
    /// with an optional default, a begin body up to the ends-with token,
    /// and an end body up to the end-of-definition token.
    #[verifier::rlimit(100)]
    #[verifier::spinoff_prover]
    fn parse_environment_definition(&mut self) -> (r: Result<Statement, VestiErr>)
        requires
            old(self).wf(),
        ensures
            frame(*old(self), *final(self)),
            r is Ok ==> final(self).pos > old(self).pos,
            r matches Ok(s) ==> (stmt_wf(s) && match s {
                Statement::EnvironmentDefine { is_redefine, .. } => is_redefine == (old(
                    self,
                ).spec_peek() == TokenType::Redefenv) && (old(self).spec_peek()
                    == TokenType::Defenv || old(self).spec_peek() == TokenType::Redefenv),
                _ => false,
            }),
            // the name is the captured text, a leading star disables the
            // start trim, stars after the two terminators disable the
            // middle and end trims, and without a bracket there are no
            // arguments
            r matches Ok(s) ==> (s matches Statement::EnvironmentDefine {
                name,
                args_num,
                optional_arg,
                trim,
                ..
            } && {
                let toks = old(self).toks@;
                let p0 = old(self).pos as int;
                let star = p0 + 1 < toks.len() && toks[p0 + 1].toktype == TokenType::Star;
                let q = skip_ws(toks, p0 + 1 + (if star {
                    1int
                } else {
                    0int
                }), false);
                &&& trim.start == !star
                &&& name@ == literals_text(toks, q, name_end(toks, q))
                &&& ({
                    let n2 = skip_ws(toks, name_end(toks, q), false);
                    (n2 >= toks.len() || toks[n2].toktype != TokenType::Lsqbrace) ==> args_num
                        == 0 && optional_arg is None
                })
                &&& exists|m: int|
                    #![trigger toks[m]]
                    p0 <= m < final(self).pos && toks[m].toktype == TokenType::EndsWith
                        && trim.mid == Some(
                        !(m + 1 < toks.len() && toks[m + 1].toktype == TokenType::Star),
                    )
                &&& exists|j: int|
                    #![trigger toks[j]]
                    p0 <= j < final(self).pos && toks[j].toktype == TokenType::EndDefinition
                        && trim.end == !(j + 1 < toks.len() && toks[j + 1].toktype
                        == TokenType::Star)
            }),
            // success is owed for a definition without arguments whose
            // two parts are unclaimed tokens and whose terminators are
            // present, keeping each part's literals in order
            ({
                let toks = old(self).toks@;
                let p0 = old(self).pos as int;
                let star = p0 + 1 < toks.len() && toks[p0 + 1].toktype == TokenType::Star;
                let q = skip_ws(toks, p0 + 1 + (if star {
                    1int
                } else {
                    0int
                }), false);
                let ne = name_end(toks, q);
                let n2 = skip_ws(toks, ne, false);
                let b1 = find_tok(toks, n2, TokenType::EndsWith);
                let sm = b1 + 1 < toks.len() && toks[b1 + 1].toktype == TokenType::Star;
                let p2 = b1 + 1 + (if sm {
                    1int
                } else {
                    0int
                });
                let b2 = find_tok(toks, p2, TokenType::EndDefinition);
                ((old(self).spec_peek() == TokenType::Defenv || old(self).spec_peek()
                    == TokenType::Redefenv) && q < toks.len() && toks[q].toktype == TokenType::Text
                    && ne < toks.len() && is_ws_tok(toks[ne].toktype, true) && (n2 >= toks.len()
                    || toks[n2].toktype != TokenType::Lsqbrace) && b1 < toks.len() && (forall|
                    j: int,
                |
                    #![trigger toks[j]]
                    n2 <= j < b1 ==> plain_tok(toks[j].toktype)) && b2 < toks.len() && (forall|
                    j: int,
                |
                    #![trigger toks[j]]
                    p2 <= j < b2 ==> plain_tok(toks[j].toktype))) ==> (r matches Ok(s) && s
                    matches Statement::EnvironmentDefine { begin_part, end_part, .. }
                    && begin_part@.len() == b1 - n2 && (forall|k: int|
                    #![trigger begin_part@[k]]
                    0 <= k < begin_part@.len() ==> (begin_part@[k] matches Statement::MainText(t1)
                        && t1@ == toks[n2 + k].literal@)) && end_part@.len() == b2 - p2 && (forall|
                    k: int,
                |
                    #![trigger end_part@[k]]
                    0 <= k < end_part@.len() ==> (end_part@[k] matches Statement::MainText(t2)
                        && t2@ == toks[p2 + k].literal@)))
            }),
            // the same header whose begin part never reaches the
            // ends-with token fails "not closed" at the opening keyword
            ({
                let toks = old(self).toks@;
                let p0 = old(self).pos as int;
                let star = p0 + 1 < toks.len() && toks[p0 + 1].toktype == TokenType::Star;
                let q = skip_ws(toks, p0 + 1 + (if star {
                    1int
                } else {
                    0int
                }), false);
                let ne = name_end(toks, q);
                let n2 = skip_ws(toks, ne, false);
                let b1 = find_tok(toks, n2, TokenType::EndsWith);
                ((old(self).spec_peek() == TokenType::Defenv || old(self).spec_peek()
                    == TokenType::Redefenv) && q < toks.len() && toks[q].toktype == TokenType::Text
                    && ne < toks.len() && is_ws_tok(toks[ne].toktype, true) && (n2 >= toks.len()
                    || toks[n2].toktype != TokenType::Lsqbrace) && b1 >= toks.len() && (forall|
                    j: int,
                |
                    #![trigger toks[j]]
                    n2 <= j < toks.len() ==> plain_tok(toks[j].toktype))) ==> (r matches Err(e)
                    && crate::error::is_not_closed(
                    e,
                    seq![TokenType::Defenv, TokenType::Redefenv],
                    TokenType::EndsWith,
                    old(self).spec_peek_span(),
                ))
            }),
            // and one whose end part never reaches the end-of-definition
            // token fails "not closed" at the ends-with token's span
            ({
                let toks = old(self).toks@;
                let p0 = old(self).pos as int;
                let star = p0 + 1 < toks.len() && toks[p0 + 1].toktype == TokenType::Star;
                let q = skip_ws(toks, p0 + 1 + (if star {
                    1int
                } else {
                    0int
                }), false);
                let ne = name_end(toks, q);
                let n2 = skip_ws(toks, ne, false);
                let b1 = find_tok(toks, n2, TokenType::EndsWith);
                let sm = b1 + 1 < toks.len() && toks[b1 + 1].toktype == TokenType::Star;
                let p2 = b1 + 1 + (if sm {
                    1int
                } else {
                    0int
                });
                let b2 = find_tok(toks, p2, TokenType::EndDefinition);
                ((old(self).spec_peek() == TokenType::Defenv || old(self).spec_peek()
                    == TokenType::Redefenv) && q < toks.len() && toks[q].toktype == TokenType::Text
                    && ne < toks.len() && is_ws_tok(toks[ne].toktype, true) && (n2 >= toks.len()
                    || toks[n2].toktype != TokenType::Lsqbrace) && b1 < toks.len() && (forall|
                    j: int,
                |
                    #![trigger toks[j]]
                    n2 <= j < b1 ==> plain_tok(toks[j].toktype)) && b2 >= toks.len() && (forall|
                    j: int,
                |
                    #![trigger toks[j]]
                    p2 <= j < toks.len() ==> plain_tok(toks[j].toktype))) ==> (r matches Err(e)
                    && crate::error::is_not_closed(
                    e,
                    seq![TokenType::EndsWith],
                    TokenType::EndDefinition,
                    toks[b1].span,
                ))
            }),
        decreases old(self).toks@.len() - old(self).pos, 0int,
    {
        let begenvdef_location = self.peek_tok_location();
        let (is_redefine, start_trim, name) = self.parse_environment_definition_head(
            begenvdef_location,
        )?;
        let mut trim = TrimWhitespace { start: start_trim, mid: Some(true), end: true };
        self.eat_whitespaces(false);
        let (args_num, optional_arg) = self.parse_environment_definition_args(
            begenvdef_location,
        )?;
        self.parse_environment_definition_tail(
            is_redefine,
            name,
            args_num,
            optional_arg,
            trim,
            begenvdef_location,
        )
    }

    /// Parses the two bodies of an environment definition — the begin
    /// part up to the ends-with token and the end part up to the
    /// end-of-definition token, each star-trimmable — and assembles the
    /// statement.
    #[verifier::rlimit(100)]
    #[verifier::spinoff_prover]
    fn parse_environment_definition_tail(
        &mut self,
        is_redefine: bool,
        name: String,
        args_num: u8,
        optional_arg: Option<Latex>,
        trim0: TrimWhitespace,
        begenvdef_location: Span,
    ) -> (r: Result<Statement, VestiErr>)
        requires
            old(self).wf(),
            trim0.mid == Some(true),
            trim0.end,
            match optional_arg {
                Option::Some(inner) => latex_wf(inner@),
                Option::None => true,
            },
        ensures
            frame(*old(self), *final(self)),
            r matches Ok(s) ==> stmt_wf(s),
            r matches Ok(s) ==> (s matches Statement::EnvironmentDefine {
                is_redefine: ir,
                name: n,
                args_num: a,
                optional_arg: o,
                trim,
                ..
            } && ir == is_redefine && n == name && a == args_num && (o is None <==> optional_arg
                is None) && trim.start == trim0.start && {
                let toks = old(self).toks@;
                &&& exists|m: int|
                    #![trigger toks[m]]
                    old(self).pos <= m < final(self).pos && toks[m].toktype == TokenType::EndsWith
                        && trim.mid == Some(
                        !(m + 1 < toks.len() && toks[m + 1].toktype == TokenType::Star),
                    )
                &&& exists|j: int|
                    #![trigger toks[j]]
                    old(self).pos <= j < final(self).pos && toks[j].toktype
                        == TokenType::EndDefinition && trim.end == !(j + 1 < toks.len() && toks[j
                        + 1].toktype == TokenType::Star)
            }),
            // success is owed when both parts are unclaimed tokens and
            // both terminators are present, keeping each part's literals
            ({
                let toks = old(self).toks@;
                let p0 = old(self).pos as int;
                let b1 = find_tok(toks, p0, TokenType::EndsWith);
                let sm = b1 + 1 < toks.len() && toks[b1 + 1].toktype == TokenType::Star;
                let p2 = b1 + 1 + (if sm {
                    1int
                } else {
                    0int
                });
                let b2 = find_tok(toks, p2, TokenType::EndDefinition);
                (b1 < toks.len() && (forall|j: int|
                    #![trigger toks[j]]
                    p0 <= j < b1 ==> plain_tok(toks[j].toktype)) && b2 < toks.len() && (forall|
                    j: int,
                |
                    #![trigger toks[j]]
                    p2 <= j < b2 ==> plain_tok(toks[j].toktype))) ==> (r matches Ok(s) && s matches
                    Statement::EnvironmentDefine { begin_part, end_part, .. } && begin_part@.len()
                    == b1 - p0 && (forall|k: int|
                    #![trigger begin_part@[k]]
                    0 <= k < begin_part@.len() ==> (begin_part@[k] matches Statement::MainText(t1)
                        && t1@ == toks[p0 + k].literal@)) && end_part@.len() == b2 - p2 && (forall|
                    k: int,
                |
                    #![trigger end_part@[k]]
                    0 <= k < end_part@.len() ==> (end_part@[k] matches Statement::MainText(t2)
                        && t2@ == toks[p2 + k].literal@)))
            }),
            // a begin part of unclaimed tokens that never reaches the
            // ends-with token fails "not closed" at the given span
            ({
                let toks = old(self).toks@;
                let p0 = old(self).pos as int;
                let b1 = find_tok(toks, p0, TokenType::EndsWith);
                (b1 >= toks.len() && (forall|j: int|
                    #![trigger toks[j]]
                    p0 <= j < toks.len() ==> plain_tok(toks[j].toktype))) ==> (r matches Err(e)
                    && crate::error::is_not_closed(
                    e,
                    seq![TokenType::Defenv, TokenType::Redefenv],
                    TokenType::EndsWith,
                    begenvdef_location,
                ))
            }),
            // an end part of unclaimed tokens that never reaches the
            // end-of-definition token fails "not closed" at the
            // ends-with token's span
            ({
                let toks = old(self).toks@;
                let p0 = old(self).pos as int;
                let b1 = find_tok(toks, p0, TokenType::EndsWith);
                let sm = b1 + 1 < toks.len() && toks[b1 + 1].toktype == TokenType::Star;
                let p2 = b1 + 1 + (if sm {
                    1int
                } else {
                    0int
                });
                let b2 = find_tok(toks, p2, TokenType::EndDefinition);
                (b1 < toks.len() && (forall|j: int|
                    #![trigger toks[j]]
                    p0 <= j < b1 ==> plain_tok(toks[j].toktype)) && b2 >= toks.len() && (forall|
                    j: int,
                |
                    #![trigger toks[j]]
                    p2 <= j < toks.len() ==> plain_tok(toks[j].toktype))) ==> (r matches Err(e)
                    && crate::error::is_not_closed(
                    e,
                    seq![TokenType::EndsWith],
                    TokenType::EndDefinition,
                    toks[b1].span,
                ))
            }),
        decreases old(self).toks@.len() - old(self).pos, 4int,
    {
        let mut trim = trim0;
        let begin_part = self.parse_environment_definition_part(true, begenvdef_location)?;
        let midenvdef_location = self.peek_tok_location();
        let ghost mid_pos = self.pos;
        self.expect_peek(TokenType::EndsWith, self.peek_tok_location())?;
        if self.peek_tok() == TokenType::Star {
            self.expect_peek(TokenType::Star, self.peek_tok_location())?;
            trim.mid = Some(false);
        }
        proof {
            assert(old(self).toks@[mid_pos as int].toktype == TokenType::EndsWith && trim.mid
                == Some(
                !(mid_pos + 1 < old(self).toks@.len() && old(self).toks@[mid_pos + 1].toktype
                    == TokenType::Star),
            ));
        }
        let end_part = self.parse_environment_definition_part(false, midenvdef_location)?;
        let ghost end_pos = self.pos;
        self.expect_peek(TokenType::EndDefinition, self.peek_tok_location())?;
        if self.peek_tok() == TokenType::Star {
            self.expect_peek(TokenType::Star, self.peek_tok_location())?;
            trim.end = false;
        }
        if self.peek_tok() == TokenType::Newline {
            self.next_tok();
        }
        proof {
            assert(old(self).toks@[end_pos as int].toktype == TokenType::EndDefinition && trim.end
                == !(end_pos + 1 < old(self).toks@.len() && old(self).toks@[end_pos + 1].toktype
                == TokenType::Star));
        }
        Ok(Statement::EnvironmentDefine {
            is_redefine,
            name,
            args_num,
            optional_arg,
            trim,
            begin_part,
            end_part,
        })
    }

    /// Parses one statement, dispatching on the lookahead token under
    /// the current parse state.
    pub fn parse_statement(&mut self) -> (r: Result<Statement, VestiErr>)
        requires
            old(self).wf(),
        ensures
            frame(*old(self), *final(self)),
            r is Ok ==> old(self).spec_peek() != TokenType::Eof && final(self).pos > old(self).pos,
            r matches Ok(s) ==> stmt_wf(s),
            r matches Ok(s) ==> !(s is DocumentEnd),
            r matches Ok(s) ==> (s is DocumentStart ==> !old(self).doc_state.doc_start && final(self).doc_state.doc_start),
            parse_statement_post(*old(self), *final(self), r),
        decreases old(self).toks@.len() - old(self).pos, 2int,
    {
        let premiere = self.is_premiere();
        let math_mode = self.is_math_mode();
        let t = self.peek_tok();
        let sp = self.peek_tok_location();
        match t {
            TokenType::Docclass if premiere => self.parse_docclass(),
            TokenType::Import if premiere => self.parse_usepackage(),
            TokenType::StartDoc if premiere => {
                self.doc_state.doc_start = true;
                self.next_tok();
                self.eat_whitespaces(true);
                Ok(Statement::DocumentStart)
            },
            TokenType::NonStopMode => {
                self.next_tok();
                self.eat_whitespaces(true);
                Ok(Statement::NonStopMode)
            },
            TokenType::Useenv => self.parse_environment(true),
            TokenType::Begenv => self.parse_environment(false),
            TokenType::Endenv => self.parse_end_phantom_environment(),
            TokenType::MathTextStart => self.parse_text_in_math(),
            TokenType::MathTextEnd => {
                let open: Vec<TokenType> = vec![TokenType::MathTextStart];
                proof {
                    assert(open@ =~= seq![TokenType::MathTextStart]);
                }
                Err(VestiErr::make_parse_err(
                    VestiParseErrKind::IsNotOpenedErr { open, close: TokenType::MathTextEnd },
                    sp,
                ))
            },
            TokenType::DocumentStartMode => {
                self.doc_state.prevent_end_doc = true;
                self.doc_state.doc_start = true;
                let marker = self.next_tok();
                self.expect_peek(TokenType::Newline, marker.span)?;
                self.parse_statement()
            },
            TokenType::FunctionDef
            | TokenType::LongFunctionDef
            | TokenType::OuterFunctionDef
            | TokenType::LongOuterFunctionDef
            | TokenType::EFunctionDef
            | TokenType::LongEFunctionDef
            | TokenType::OuterEFunctionDef
            | TokenType::LongOuterEFunctionDef
            | TokenType::GFunctionDef
            | TokenType::LongGFunctionDef
            | TokenType::OuterGFunctionDef
            | TokenType::LongOuterGFunctionDef
            | TokenType::XFunctionDef
            | TokenType::LongXFunctionDef
            | TokenType::OuterXFunctionDef
            | TokenType::LongOuterXFunctionDef => self.parse_function_definition(),
            TokenType::EndDefinition => {
                let open = TokenType::get_definition_start_list();
                Err(VestiErr::make_parse_err(
                    VestiParseErrKind::IsNotOpenedErr { open, close: TokenType::EndDefinition },
                    sp,
                ))
            },
            TokenType::Defenv | TokenType::Redefenv => self.parse_environment_definition(),
            TokenType::EndsWith => {
                let open: Vec<TokenType> = vec![TokenType::Defenv, TokenType::Redefenv];
                proof {
                    assert(open@ =~= seq![TokenType::Defenv, TokenType::Redefenv]);
                }
                Err(VestiErr::make_parse_err(
                    VestiParseErrKind::IsNotOpenedErr { open, close: TokenType::EndsWith },
                    sp,
                ))
            },
            TokenType::LatexFunction => self.parse_latex_function(),
            TokenType::RawLatex => self.parse_raw_latex(),
            TokenType::Integer => self.parse_integer(),
            TokenType::Float => self.parse_float(),
            TokenType::TextMathStart | TokenType::InlineMathStart => self.parse_math_stmt(),
            TokenType::Superscript if !math_mode => {
                Err(VestiErr::make_parse_err(VestiParseErrKind::IllegalUseErr { got: t }, sp))
            },
            TokenType::Subscript if !math_mode => {
                Err(VestiErr::make_parse_err(VestiParseErrKind::IllegalUseErr { got: t }, sp))
            },
            TokenType::Lbrace => self.parse_brace_stmt(),
            TokenType::TextMathEnd => {
                Err(VestiErr::make_parse_err(
                    VestiParseErrKind::InvalidTokToConvert { got: TokenType::TextMathEnd },
                    sp,
                ))
            },
            TokenType::InlineMathEnd => {
                Err(VestiErr::make_parse_err(
                    VestiParseErrKind::InvalidTokToConvert { got: TokenType::InlineMathEnd },
                    sp,
                ))
            },
            TokenType::Deprecated => {
                Err(VestiErr::make_parse_err(VestiParseErrKind::DeprecatedUseErr, sp))
            },
            TokenType::Illegal => {
                Err(VestiErr::make_parse_err(VestiParseErrKind::IllegalCharacterFoundErr, sp))
            },
            _ => self.parse_main_stmt(),
        }
    }

    /// Parses the whole token stream into the statement sequence,
    /// appending the document-end statement when the document was started
    /// and its automatic end was not suppressed.
    #[verifier::rlimit(100)]
    #[verifier::spinoff_prover]
    pub fn parse_latex(&mut self) -> (r: Result<Latex, VestiErr>)
        requires
            old(self).wf(),
        ensures
            parse_latex_post(*old(self), *final(self), match r {
                Result::Ok(v) => Result::<Seq<Statement>, VestiErr>::Ok(v@),
                Result::Err(e) => Result::<Seq<Statement>, VestiErr>::Err(e),
            }),
    {
        let mut latex: Latex = Vec::new();
        proof {
            assert forall|m: int|
                #[trigger] halts_after_plains(
                    old(self).toks@,
                    old(self).pos as int,
                    m,
                    old(self).spec_math_mode(),
                ) implies self.pos <= m by {
                reveal(halts_after_plains);
            }
        }
        while !self.is_eof()
            invariant
                frame(*old(self), *self),
                latex_wf(latex@),
                forall|i: int| #![trigger latex@[i]] 0 <= i < latex@.len() ==> !(latex@[i]
                    is DocumentEnd),
                !self.doc_state.doc_start ==> forall|i: int|
                    #![trigger latex@[i]]
                    0 <= i < latex@.len() ==> !(latex@[i] is DocumentStart),
                count_doc_starts(latex@) <= if self.doc_state.doc_start && !old(
                    self,
                ).doc_state.doc_start {
                    1int
                } else {
                    0int
                },
                old(self).spec_peek() == TokenType::Eof ==> self.pos == old(self).pos
                    && self.doc_state == old(self).doc_state && latex@.len() == 0,
                entry_halts(*old(self)) ==> self.pos == old(self).pos && self.doc_state == old(
                    self,
                ).doc_state && self.math_started == old(self).math_started && latex@.len() == 0,
                (forall|j: int|
                    old(self).pos <= j < old(self).toks@.len() ==> plain_tok(
                        #[trigger] old(self).toks@[j].toktype,
                    )) ==> (self.doc_state == old(self).doc_state && self.pos - old(self).pos
                    == latex@.len() && (forall|k: int|
                    0 <= k < latex@.len() ==> ((#[trigger] latex@[k]) matches Statement::MainText(
                        txt,
                    ) && txt@ == old(self).toks@[old(self).pos + k].literal@))),
                forall|m: int|
                    #[trigger] halts_after_plains(
                        old(self).toks@,
                        old(self).pos as int,
                        m,
                        old(self).spec_math_mode(),
                    ) ==> (self.pos <= m && self.doc_state == old(self).doc_state
                        && self.math_started == old(self).math_started),
            decreases self.toks@.len() - self.pos,
        {
            let ghost it = *self;
            let stmt = match self.parse_statement() {
                Result::Ok(s2) => s2,
                Result::Err(e) => {
                    proof {
                        assert forall|m: int|
                            #[trigger] halts_after_plains(
                                old(self).toks@,
                                old(self).pos as int,
                                m,
                                old(self).spec_math_mode(),
                            ) implies entry_error_matches_tok(
                            old(self).toks@[m].toktype,
                            old(self).toks@[m].span,
                            old(self).spec_math_mode(),
                            e,
                        ) by {
                            reveal(halts_after_plains);
                            if it.pos < m {
                                assert(plain_tok(old(self).toks@[it.pos as int].toktype));
                                assert(is_catchall(it));
                                assert(false);
                            } else {
                                assert(it.pos == m);
                                assert(entry_halts(it));
                            }
                        }
                    }
                    return Err(e);
                },
            };
            proof {
                assert(count_doc_starts(latex@.push(stmt)) == count_doc_starts(latex@) + if stmt
                    is DocumentStart {
                    1int
                } else {
                    0int
                }) by {
                    assert(latex@.push(stmt).drop_last() =~= latex@);
                }
            }
            latex.push(stmt);
            proof {
                assert forall|k: int| 0 <= k < latex@.len() implies stmt_wf(#[trigger] latex@[k])
                    && !(latex@[k] is DocumentEnd) by {}
                if !self.doc_state.doc_start {
                    assert forall|k: int| 0 <= k < latex@.len() implies !((#[trigger] latex@[k])
                        is DocumentStart) by {}
                }
                if forall|j: int|
                    old(self).pos <= j < old(self).toks@.len() ==> plain_tok(
                        #[trigger] old(self).toks@[j].toktype,
                    ) {
                    assert forall|k: int|
                        0 <= k < latex@.len() implies ((#[trigger] latex@[k])
                        matches Statement::MainText(txt) && txt@ == old(self).toks@[old(self).pos
                        + k].literal@) by {}
                }
                assert forall|m: int|
                    #[trigger] halts_after_plains(
                        old(self).toks@,
                        old(self).pos as int,
                        m,
                        old(self).spec_math_mode(),
                    ) implies (self.pos <= m && self.doc_state == old(self).doc_state
                        && self.math_started == old(self).math_started) by {
                    reveal(halts_after_plains);
                    if it.pos == m {
                        assert(entry_halts(it));
                        assert(false);
                    } else {
                        assert(plain_tok(old(self).toks@[it.pos as int].toktype));
                        assert(is_catchall(it));
                    }
                }
            }
        }
        proof {
            assert forall|m: int|
                #[trigger] halts_after_plains(
                    old(self).toks@,
                    old(self).pos as int,
                    m,
                    old(self).spec_math_mode(),
                ) implies false by {
                reveal(halts_after_plains);
                if (self.pos as int) < m {
                    assert(plain_tok(old(self).toks@[self.pos as int].toktype));
                } else {
                    assert(self.pos == m);
                    assert(old(self).toks@[m].toktype == TokenType::Eof);
                }
            }
        }
        if !self.is_premiere() && !self.doc_state.prevent_end_doc {
            proof {
                assert(count_doc_starts(latex@.push(Statement::DocumentEnd)) == count_doc_starts(
                    latex@,
                )) by {
                    assert(latex@.push(Statement::DocumentEnd).drop_last() =~= latex@);
                }
            }
            latex.push(Statement::DocumentEnd);
            proof {
                assert forall|k: int| 0 <= k < latex@.len() implies stmt_wf(
                    #[trigger] latex@[k],
                ) by {}
            }
        }
        Ok(latex)
    }

    /// Takes the lookahead token and checks its type, failing with a
    /// type-mismatch error at `loc` otherwise.
    fn expect_peek(&mut self, expected: TokenType, loc: Span) -> (r: Result<Token, VestiErr>)
        requires
            old(self).wf(),
            expected != TokenType::Eof,
        ensures
            final(self).toks@ == old(self).toks@,
            final(self).doc_state == old(self).doc_state,
            final(self).math_started == old(self).math_started,
            final(self).wf(),
            old(self).pos <= final(self).pos <= old(self).pos + 1,
            r is Ok <==> old(self).spec_peek() == expected,
            r matches Ok(t) ==> (old(self).pos < old(self).toks@.len() && t == old(
                self,
            ).toks@[old(self).pos as int] && final(self).pos == old(self).pos + 1),
            r matches Err(e) ==> crate::error::is_type_mismatch(
                e,
                seq![expected],
                old(self).spec_peek(),
                loc,
            ),
    {
        let t = self.next_tok();
        if t.toktype == expected {
            Ok(t)
        } else {
            let ex: Vec<TokenType> = vec![expected];
            proof {
                assert(ex@ =~= seq![expected]);
            }
            Err(VestiErr::make_parse_err(
                VestiParseErrKind::TypeMismatch { expected: ex, got: t.toktype },
                loc,
            ))
        }
    }

    /// Takes a single text token as the name of a construct; `construct`
    /// names the keyword whose name is missing otherwise.
    fn take_name(&mut self, construct: TokenType) -> (r: Result<String, VestiErr>)
        requires
            old(self).wf(),
        ensures
            final(self).toks@ == old(self).toks@,
            final(self).doc_state == old(self).doc_state,
            final(self).math_started == old(self).math_started,
            final(self).wf(),
            old(self).pos <= final(self).pos <= old(self).pos + 1,
            r is Ok <==> old(self).spec_peek() == TokenType::Text,
            r matches Ok(name) ==> (name@ == old(self).spec_peek_literal() && final(self).pos
                == old(self).pos + 1),
            old(self).spec_peek() == TokenType::Eof ==> (r matches Err(e)
                && crate::error::is_eof_err(e, old(self).spec_peek_span())),
            (old(self).spec_peek() != TokenType::Text && old(self).spec_peek() != TokenType::Eof)
                ==> (r matches Err(e) && crate::error::is_name_miss(
                e,
                construct,
                old(self).spec_peek_span(),
            )),
    {
        match self.peek_tok() {
            TokenType::Text => {
                let t = self.next_tok();
                Ok(t.literal)
            },
            TokenType::Eof => {
                Err(VestiErr::make_parse_err(VestiParseErrKind::EOFErr, self.peek_tok_location()))
            },
            _ => {
                Err(VestiErr::make_parse_err(
                    VestiParseErrKind::NameMissErr { toktype: construct },
                    self.peek_tok_location(),
                ))
            },
        }
    }
}

} // verus!
