//! The token alphabet of the authoring language, as the external tokenizer
//! hands it to the parser: a type tag, the literal text, and a source span.
use vstd::prelude::*;

use crate::location::Span;

verus! {

/// The closed set of token type tags.
#[derive(Debug, Clone, Copy, PartialEq, Eq, Structural)]
pub enum TokenType {
    /// End of the token stream.
    Eof,
    /// A character the tokenizer could not classify.
    Illegal,
    /// A construct the language once had and now rejects.
    Deprecated,
    // Structural whitespace markers.
    Space,
    Tab,
    Newline,
    // Literal classes.
    Text,
    RawLatex,
    Integer,
    Float,
    /// The splitter that both separates logical arguments and is legal
    /// inside a macro name.
    ArgSpliter,
    /// A backslash-introduced LaTeX command name.
    LatexFunction,
    // Document-level keywords.
    Docclass,
    Import,
    StartDoc,
    NonStopMode,
    /// The marker that starts the document while suppressing the automatic
    /// end-of-document statement.
    DocumentStartMode,
    // Environments.
    Useenv,
    Begenv,
    Endenv,
    // Math delimiters.
    TextMathStart,
    TextMathEnd,
    InlineMathStart,
    InlineMathEnd,
    MathTextStart,
    MathTextEnd,
    Superscript,
    Subscript,
    FracDefiner,
    // Punctuation.
    Lbrace,
    Rbrace,
    Lparen,
    Rparen,
    Lsqbrace,
    Rsqbrace,
    /// The opener of an optional argument of a LaTeX command.
    OptionalBrace,
    Star,
    Comma,
    // The sixteen macro-definition openers: the cross product of the
    // long / outer modifiers and the plain / expand / global / expand-global
    // definer kinds.
    FunctionDef,
    LongFunctionDef,
    OuterFunctionDef,
    LongOuterFunctionDef,
    EFunctionDef,
    LongEFunctionDef,
    OuterEFunctionDef,
    LongOuterEFunctionDef,
    GFunctionDef,
    LongGFunctionDef,
    OuterGFunctionDef,
    LongOuterGFunctionDef,
    XFunctionDef,
    LongXFunctionDef,
    OuterXFunctionDef,
    LongOuterXFunctionDef,
    /// Closes a macro definition.
    EndDefinition,
    // Environment definitions.
    Defenv,
    Redefenv,
    /// Separates the begin part from the end part of an environment
    /// definition.
    EndsWith,
}

/// The style of a macro definition, the sixteen-way space collapsed into
/// four independent flags.
#[derive(Debug, Clone, Copy, PartialEq, Eq, Structural)]
pub struct FunctionDefKind {
    pub long: bool,
    pub outer: bool,
    pub expand: bool,
    pub global: bool,
}

impl TokenType {
    /// Whether this token type opens a macro definition.
    pub open spec fn spec_is_definition_start(self) -> bool {
        self.spec_function_def_kind() is Some
    }

    /// The definition style that a macro-definition opener denotes.
    pub open spec fn spec_function_def_kind(self) -> Option<FunctionDefKind> {
        match self {
            TokenType::FunctionDef => Some(
                FunctionDefKind { long: false, outer: false, expand: false, global: false },
            ),
            TokenType::LongFunctionDef => Some(
                FunctionDefKind { long: true, outer: false, expand: false, global: false },
            ),
            TokenType::OuterFunctionDef => Some(
                FunctionDefKind { long: false, outer: true, expand: false, global: false },
            ),
            TokenType::LongOuterFunctionDef => Some(
                FunctionDefKind { long: true, outer: true, expand: false, global: false },
            ),
            TokenType::EFunctionDef => Some(
                FunctionDefKind { long: false, outer: false, expand: true, global: false },
            ),
            TokenType::LongEFunctionDef => Some(
                FunctionDefKind { long: true, outer: false, expand: true, global: false },
            ),
            TokenType::OuterEFunctionDef => Some(
                FunctionDefKind { long: false, outer: true, expand: true, global: false },
            ),
            TokenType::LongOuterEFunctionDef => Some(
                FunctionDefKind { long: true, outer: true, expand: true, global: false },
            ),
            TokenType::GFunctionDef => Some(
                FunctionDefKind { long: false, outer: false, expand: false, global: true },
            ),
            TokenType::LongGFunctionDef => Some(
                FunctionDefKind { long: true, outer: false, expand: false, global: true },
            ),
            TokenType::OuterGFunctionDef => Some(
                FunctionDefKind { long: false, outer: true, expand: false, global: true },
            ),
            TokenType::LongOuterGFunctionDef => Some(
                FunctionDefKind { long: true, outer: true, expand: false, global: true },
            ),
            TokenType::XFunctionDef => Some(
                FunctionDefKind { long: false, outer: false, expand: true, global: true },
            ),
            TokenType::LongXFunctionDef => Some(
                FunctionDefKind { long: true, outer: false, expand: true, global: true },
            ),
            TokenType::OuterXFunctionDef => Some(
                FunctionDefKind { long: false, outer: true, expand: true, global: true },
            ),
            TokenType::LongOuterXFunctionDef => Some(
                FunctionDefKind { long: true, outer: true, expand: true, global: true },
            ),
            _ => None,
        }
    }

    /// The definition style that a macro-definition opener denotes, or
    /// `None` for every other token type.
    pub fn function_def_kind(self) -> (r: Option<FunctionDefKind>)
        ensures
            r == self.spec_function_def_kind(),
    {
        match self {
            TokenType::FunctionDef => Some(
                FunctionDefKind { long: false, outer: false, expand: false, global: false },
            ),
            TokenType::LongFunctionDef => Some(
                FunctionDefKind { long: true, outer: false, expand: false, global: false },
            ),
            TokenType::OuterFunctionDef => Some(
                FunctionDefKind { long: false, outer: true, expand: false, global: false },
            ),
            TokenType::LongOuterFunctionDef => Some(
                FunctionDefKind { long: true, outer: true, expand: false, global: false },
            ),
            TokenType::EFunctionDef => Some(
                FunctionDefKind { long: false, outer: false, expand: true, global: false },
            ),
            TokenType::LongEFunctionDef => Some(
                FunctionDefKind { long: true, outer: false, expand: true, global: false },
            ),
            TokenType::OuterEFunctionDef => Some(
                FunctionDefKind { long: false, outer: true, expand: true, global: false },
            ),
            TokenType::LongOuterEFunctionDef => Some(
                FunctionDefKind { long: true, outer: true, expand: true, global: false },
            ),
            TokenType::GFunctionDef => Some(
                FunctionDefKind { long: false, outer: false, expand: false, global: true },
            ),
            TokenType::LongGFunctionDef => Some(
                FunctionDefKind { long: true, outer: false, expand: false, global: true },
            ),
            TokenType::OuterGFunctionDef => Some(
                FunctionDefKind { long: false, outer: true, expand: false, global: true },
            ),
            TokenType::LongOuterGFunctionDef => Some(
                FunctionDefKind { long: true, outer: true, expand: false, global: true },
            ),
            TokenType::XFunctionDef => Some(
                FunctionDefKind { long: false, outer: false, expand: true, global: true },
            ),
            TokenType::LongXFunctionDef => Some(
                FunctionDefKind { long: true, outer: false, expand: true, global: true },
            ),
            TokenType::OuterXFunctionDef => Some(
                FunctionDefKind { long: false, outer: true, expand: true, global: true },
            ),
            TokenType::LongOuterXFunctionDef => Some(
                FunctionDefKind { long: true, outer: true, expand: true, global: true },
            ),
            _ => None,
        }
    }

    /// Whether this token type opens a macro definition.
    pub fn is_definition_start(self) -> (r: bool)
        ensures
            r == self.spec_is_definition_start(),
    {
        self.function_def_kind().is_some()
    }

    /// Whether this token type is one of the language's keywords.  The
    /// raw-parameter text of a macro definition re-inserts a space before
    /// any keyword so that the captured text keeps its separations.
    pub open spec fn spec_is_keyword(self) -> bool {
        ||| self.spec_is_definition_start()
        ||| self =~= TokenType::Docclass
        ||| self =~= TokenType::Import
        ||| self =~= TokenType::StartDoc
        ||| self =~= TokenType::NonStopMode
        ||| self =~= TokenType::DocumentStartMode
        ||| self =~= TokenType::Useenv
        ||| self =~= TokenType::Begenv
        ||| self =~= TokenType::Endenv
        ||| self =~= TokenType::EndDefinition
        ||| self =~= TokenType::Defenv
        ||| self =~= TokenType::Redefenv
        ||| self =~= TokenType::EndsWith
    }

    pub fn is_keyword(self) -> (r: bool)
        ensures
            r == self.spec_is_keyword(),
    {
        self.is_definition_start() || match self {
            TokenType::Docclass
            | TokenType::Import
            | TokenType::StartDoc
            | TokenType::NonStopMode
            | TokenType::DocumentStartMode
            | TokenType::Useenv
            | TokenType::Begenv
            | TokenType::Endenv
            | TokenType::EndDefinition
            | TokenType::Defenv
            | TokenType::Redefenv
            | TokenType::EndsWith => true,
            _ => false,
        }
    }

    /// The sixteen token types that may open a macro definition, in the
    /// order in which error messages list them.
    pub open spec fn spec_definition_start_list() -> Seq<TokenType> {
        seq![
            TokenType::FunctionDef,
            TokenType::LongFunctionDef,
            TokenType::OuterFunctionDef,
            TokenType::LongOuterFunctionDef,
            TokenType::EFunctionDef,
            TokenType::LongEFunctionDef,
            TokenType::OuterEFunctionDef,
            TokenType::LongOuterEFunctionDef,
            TokenType::GFunctionDef,
            TokenType::LongGFunctionDef,
            TokenType::OuterGFunctionDef,
            TokenType::LongOuterGFunctionDef,
            TokenType::XFunctionDef,
            TokenType::LongXFunctionDef,
            TokenType::OuterXFunctionDef,
            TokenType::LongOuterXFunctionDef,
        ]
    }

    pub fn get_definition_start_list() -> (r: Vec<TokenType>)
        ensures
            r@ == TokenType::spec_definition_start_list(),
    {
        let r: Vec<TokenType> = vec![
            TokenType::FunctionDef,
            TokenType::LongFunctionDef,
            TokenType::OuterFunctionDef,
            TokenType::LongOuterFunctionDef,
            TokenType::EFunctionDef,
            TokenType::LongEFunctionDef,
            TokenType::OuterEFunctionDef,
            TokenType::LongOuterEFunctionDef,
            TokenType::GFunctionDef,
            TokenType::LongGFunctionDef,
            TokenType::OuterGFunctionDef,
            TokenType::LongOuterGFunctionDef,
            TokenType::XFunctionDef,
            TokenType::LongXFunctionDef,
            TokenType::OuterXFunctionDef,
            TokenType::LongOuterXFunctionDef,
        ];
        assert(r@ =~= TokenType::spec_definition_start_list());
        r
    }
}

/// One token: its type tag, its literal text, and its source span.
#[derive(Debug)]
pub struct Token {
    pub toktype: TokenType,
    pub literal: String,
    pub span: Span,
}

impl Clone for Token {
    fn clone(&self) -> (r: Self)
        ensures
            r == *self,
    {
        Token { toktype: self.toktype, literal: self.literal.clone(), span: self.span }
    }
}

impl Token {
    /// The token the parser acts on once the token vector is exhausted.
    pub fn eof() -> (t: Token)
        ensures
            t.toktype == TokenType::Eof,
            t.literal@ == Seq::<char>::empty(),
            t.span == Span::spec_zero(),
    {
        Token { toktype: TokenType::Eof, literal: String::new(), span: Span::zero() }
    }
}

} // verus!
